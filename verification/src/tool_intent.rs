//! Intent recognition with the tool list: the model decides whether a
//! request needs tools and drafts the steps, naming each step's tool and
//! parameters.
use vstd::prelude::*;
use vstd::string::StringExecFns;
use serde_json::Value;
use crate::error::LlmError;
use crate::json::{
    JsonModel, json_as_array, json_as_bool, json_as_str, json_as_u64, json_clone, json_empty_object, json_get,
    json_is_null, json_is_number, json_is_object, json_object_keys, json_parse, json_view, obj_get, parse_json, views,
};
use crate::seqs::try_map;
use crate::text::{dec, find_first, find_last, join, join_strings, owned, push_dec, to_chars, string_of, find_char, rfind_char};
use crate::types::{ChatMessage, StepType, ToolDefinition};

verus! {

/// The system prompt of tool-aware intent recognition.
pub const TOOL_INTENT_SYSTEM_PROMPT: &'static str = r#"你是一个意图分析助手。根据用户消息判断是否需要执行工具来完成请求。

【分析规则】
1. 如果用户请求需要搜索、查询、分析、比较等多步操作，设置 need_agent=true
2. 如果只是简单问答（如打招呼、询问事实），设置 need_agent=false
3. steps 中的 tool_name 必须使用完整格式 "mcp__server__tool"
4. 确保步骤之间有合理的依赖关系

【步骤类型判断】
- deterministic: 工具和参数在计划阶段已知，可以直接执行（如搜索确定的关键词）
- exploratory: 需要在执行时根据上下文决定工具和参数（如选择器、文件名、动态数据）

【判断标准】
- 如果步骤依赖前置步骤的输出（如选择器、文件名），设为 exploratory
- 如果用户请求模糊（如"帮我找个"、"选择最合适的"），设为 exploratory
- 如果工具参数在计划阶段可以确定，设为 deterministic

【输出格式】
请以 JSON 格式返回分析结果：
{
    "need_agent": true/false,
    "reasoning": "判断理由（1-2句话）",
    "steps": [
        {
            "order": 1,
            "step_type": "deterministic" | "exploratory",
            "tool_name": "工具名称（exploratory 时可为 null）",
            "parameters": {"参数名": "参数值"},
            "step_goal": "本步骤要完成的目标",
            "expected_output": "期望的结果（可选）",
            "depends_on": null
        }
    ]
}

【重要约束】
- order: 必须是数字，不要用方括号包裹
- step_type: 必须是 "deterministic" 或 "exploratory"
- depends_on: 必须是数字或 null，不要用方括号包裹
- parameters: 必须是 JSON 对象
  - deterministic: 必须包含完整参数
  - exploratory: 可为空对象 {}，工具和参数将在执行时由 LLM 决定
- 不要生成多余的逗号

注意：如果 need_agent=false，steps 应为空数组。"#;

/// The system prompt of tool-aware intent recognition: the reply is
/// `{"need_agent": .., "reasoning": .., "steps": [..]}`, each step naming
/// its tool as `mcp__server__tool`.
pub fn intent_system_prompt() -> (r: &'static str)
    ensures
        r@ == TOOL_INTENT_SYSTEM_PROMPT@,
{
    TOOL_INTENT_SYSTEM_PROMPT
}

// ---------------------------------------------------------------------------
// Describing the tools
// ---------------------------------------------------------------------------

/// The string member `key` of an object, if it is a string.
pub open spec fn str_member(j: JsonModel, key: Seq<char>) -> Option<Seq<char>> {
    match obj_get(j, key) {
        Some(JsonModel::Str(s)) => Some(s),
        _ => None,
    }
}

/// The description of one parameter: `name: description (type)` (type
/// `any` when not given), or `name: type`, or the bare name.
pub open spec fn param_info(name: Seq<char>, schema: JsonModel) -> Seq<char> {
    match str_member(schema, "description"@) {
        Some(d) => name + ": "@ + d + " ("@ + match str_member(schema, "type"@) {
            Some(t) => t,
            None => "any"@,
        } + ")"@,
        None => match str_member(schema, "type"@) {
            Some(t) => name + ": "@ + t,
            None => name,
        },
    }
}

/// The member `key` of an object, `null` when absent.
pub open spec fn member_or_null(j: JsonModel, key: Seq<char>) -> JsonModel {
    match obj_get(j, key) {
        Some(x) => x,
        None => JsonModel::Null,
    }
}

/// The parameters of a JSON Schema, described one by one (see
/// [`param_info`]) and joined by `, `; empty without `properties`.
pub open spec fn params_info_text(parameters: JsonModel) -> Seq<char> {
    match obj_get(parameters, "properties"@) {
        Some(JsonModel::Object(es)) => join(
            es.map_values(|e: (Seq<char>, JsonModel)| param_info(e.0, member_or_null(JsonModel::Object(es), e.0))),
            ", "@,
        ),
        _ => Seq::empty(),
    }
}

fn str_member_of(v: &Value, key: &str) -> (r: Option<String>)
    ensures
        match r {
            Some(s) => str_member(json_view(*v), key@) == Some(s@),
            None => str_member(json_view(*v), key@) is None,
        },
{
    match json_get(v, key) {
        Some(x) => match json_as_str(x) {
            Some(s) => Some(owned(s)),
            None => None,
        },
        None => None,
    }
}

fn param_info_of(name: &str, schema: &Value) -> (r: String)
    ensures
        r@ == param_info(name@, json_view(*schema)),
{
    let desc = str_member_of(schema, "description");
    let typ = str_member_of(schema, "type");
    let mut r = owned(name);
    match desc {
        Some(d) => {
            r.append(": ");
            r.append(d.as_str());
            r.append(" (");
            match typ {
                Some(t) => r.append(t.as_str()),
                None => r.append("any"),
            }
            r.append(")");
        },
        None => match typ {
            Some(t) => {
                r.append(": ");
                r.append(t.as_str());
            },
            None => {},
        },
    }
    r
}

/// Describes the parameters of a JSON Schema (see [`params_info_text`]).
pub fn extract_params_info(parameters: &Value) -> (r: String)
    ensures
        r@ == params_info_text(json_view(*parameters)),
{
    let props = match json_get(parameters, "properties") {
        Some(p) => p,
        None => return String::new(),
    };
    let keys = match json_object_keys(props) {
        Some(k) => k,
        None => return String::new(),
    };
    let ghost es = match json_view(*props) {
        JsonModel::Object(es) => es,
        _ => Seq::empty(),
    };
    let ghost lines = es.map_values(|e: (Seq<char>, JsonModel)| param_info(e.0, member_or_null(JsonModel::Object(es), e.0)));
    let mut out: Vec<String> = Vec::new();
    let mut i: usize = 0;
    while i < keys.len()
        invariant
            i <= keys@.len(),
            json_view(*props) == JsonModel::Object(es),
            keys@.map_values(|k: String| k@) == es.map_values(|e: (Seq<char>, JsonModel)| e.0),
            lines == es.map_values(|e: (Seq<char>, JsonModel)| param_info(e.0, member_or_null(JsonModel::Object(es), e.0))),
            out@.map_values(|s: String| s@) == lines.take(i as int),
        decreases keys.len() - i,
    {
        let k = keys[i].as_str();
        proof {
            let km = keys@.map_values(|k: String| k@);
            let em = es.map_values(|e: (Seq<char>, JsonModel)| e.0);
            assert(km.len() == keys@.len());
            assert(em.len() == es.len());
            assert(km[i as int] == keys@[i as int]@);
            assert(em[i as int] == es[i as int].0);
            assert(k@ == es[i as int].0);
        }
        let line = match json_get(props, k) {
            Some(schema) => param_info_of(k, schema),
            None => owned(k),
        };
        let ghost lv = line@;
        let ghost prev = out@.map_values(|s: String| s@);
        proof {
            if obj_get(json_view(*props), k@) is None {
                assert(member_or_null(JsonModel::Object(es), k@) == JsonModel::Null);
            }
        }
        assert(lines[i as int] == lv);
        out.push(line);
        assert(lines.take(i + 1) =~= lines.take(i as int).push(lv));
        assert(out@.map_values(|s: String| s@) =~= prev.push(lv));
        i += 1;
    }
    proof {
        assert(keys@.map_values(|k: String| k@).len() == es.len());
        assert(lines.take(i as int) =~= lines);
    }
    join_strings(out.as_slice(), ", ")
}

/// One tool in the tool list: `- name: description` (`无描述` when none),
/// with `\n  参数: ...` when it has described parameters.
pub open spec fn tool_line(t: ToolDefinition) -> Seq<char> {
    let params = params_info_text(json_view(t.function.parameters));
    let desc = match t.function.description {
        Some(d) => d@,
        None => "无描述"@,
    };
    if params.len() == 0 {
        "- "@ + t.function.name@ + ": "@ + desc
    } else {
        "- "@ + t.function.name@ + ": "@ + desc + "\n  参数: "@ + params
    }
}

/// The tool list for the model, one tool per line; `（无可用工具）` when
/// there is none.
pub open spec fn tools_description_text(tools: Seq<ToolDefinition>) -> Seq<char> {
    if tools.len() == 0 {
        "（无可用工具）"@
    } else {
        join(tools.map_values(|t: ToolDefinition| tool_line(t)), "\n"@)
    }
}

/// Describes the available tools (see [`tools_description_text`]).
pub fn build_tools_description(tools: &[ToolDefinition]) -> (r: String)
    ensures
        r@ == tools_description_text(tools@),
{
    if tools.len() == 0 {
        return owned("（无可用工具）");
    }
    let ghost lines = tools@.map_values(|t: ToolDefinition| tool_line(t));
    let mut out: Vec<String> = Vec::new();
    let mut i: usize = 0;
    while i < tools.len()
        invariant
            i <= tools@.len(),
            lines == tools@.map_values(|t: ToolDefinition| tool_line(t)),
            out@.map_values(|s: String| s@) == lines.take(i as int),
        decreases tools.len() - i,
    {
        let t = &tools[i];
        let params = extract_params_info(&t.function.parameters);
        let mut line = owned("- ");
        line.append(t.function.name.as_str());
        line.append(": ");
        match &t.function.description {
            Some(d) => line.append(d.as_str()),
            None => line.append("无描述"),
        }
        if !params.as_str().is_empty() {
            line.append("\n  参数: ");
            line.append(params.as_str());
        }
        let ghost lv = line@;
        let ghost prev = out@.map_values(|s: String| s@);
        assert(lines[i as int] == lv);
        out.push(line);
        assert(lines.take(i + 1) =~= lines.take(i as int).push(lv));
        assert(out@.map_values(|s: String| s@) =~= prev.push(lv));
        i += 1;
    }
    assert(lines.take(i as int) =~= lines);
    join_strings(out.as_slice(), "\n")
}

/// The content of the last user message (empty when there is none).
pub fn extract_user_request(messages: &[ChatMessage]) -> (r: String)
    ensures
        r@ == crate::intent_prompt::last_user_content(messages@),
{
    crate::intent_prompt::extract_user_request(messages)
}

/// The user message of tool-aware intent recognition: the tool list, then
/// the request.
pub fn build_intent_user_message(available_tools: &[ToolDefinition], user_request: &str) -> (r: String)
    ensures
        r@ == "【可用工具】\n"@ + tools_description_text(available_tools@) + "\n\n【用户请求】\n"@ + user_request@,
{
    let desc = build_tools_description(available_tools);
    let mut r = owned("【可用工具】\n");
    r.append(desc.as_str());
    r.append("\n\n【用户请求】\n");
    r.append(user_request);
    r
}

// ---------------------------------------------------------------------------
// Reading the reply
// ---------------------------------------------------------------------------

/// A step as drafted by tool-aware intent recognition.
#[derive(Debug, Clone)]
pub struct IntentStep {
    pub order: u8,
    pub step_type: StepType,
    /// Empty for an exploratory step without a tool.
    pub tool_name: String,
    /// A JSON object.
    pub parameters: Value,
    pub step_goal: String,
    pub expected_output: Option<String>,
    pub depends_on: Option<u8>,
}

/// The result of tool-aware intent recognition.
#[derive(Debug, Clone)]
pub struct ToolIntentPlan {
    pub need_agent: bool,
    pub reasoning: String,
    pub steps: Vec<IntentStep>,
}

/// An [`IntentStep`] as plain data.
pub struct IntentStepView {
    pub order: u8,
    pub step_type: StepType,
    pub tool_name: Seq<char>,
    pub parameters: JsonModel,
    pub step_goal: Seq<char>,
    pub expected_output: Option<Seq<char>>,
    pub depends_on: Option<u8>,
}

/// The plain form of a drafted step.
pub open spec fn intent_step_view(s: IntentStep) -> IntentStepView {
    IntentStepView {
        order: s.order,
        step_type: s.step_type,
        tool_name: s.tool_name@,
        parameters: json_view(s.parameters),
        step_goal: s.step_goal@,
        expected_output: match s.expected_output {
            Some(e) => Some(e@),
            None => None,
        },
        depends_on: s.depends_on,
    }
}

/// A step number from JSON: a number from 1 to 255, or an array whose first
/// element is one (a common slip of models); `field` names the field in the
/// error.
pub open spec fn read_u8(j: JsonModel, field: Seq<char>) -> Result<u8, Seq<char>>
    decreases j,
{
    match j {
        JsonModel::Number(n, _) => match n {
            Some(v) => if 0 < v && v <= 255 {
                Ok(v as u8)
            } else {
                Err(field + " 必须是 1-255 的数字"@)
            },
            None => Err(field + " 必须是 1-255 的数字"@),
        },
        JsonModel::Array(items) => if items.len() > 0 {
            read_u8(items[0], field)
        } else {
            Err(field + " 必须是数字或 null"@)
        },
        _ => Err(field + " 必须是数字或 null"@),
    }
}

/// An optional step number from JSON: `null` and `[]` are none.
pub open spec fn read_optional_u8(j: JsonModel, field: Seq<char>) -> Result<Option<u8>, Seq<char>> {
    match j {
        JsonModel::Null => Ok(None),
        JsonModel::Number(..) => match read_u8(j, field) {
            Ok(v) => Ok(Some(v)),
            Err(e) => Err(e),
        },
        JsonModel::Array(items) => if items.len() == 0 {
            Ok(None)
        } else {
            match read_u8(items[0], field) {
                Ok(v) => Ok(Some(v)),
                Err(e) => Err(e),
            }
        },
        _ => Err(field + " 必须是数字或 null"@),
    }
}

/// Reads a step number (see [`read_u8`]).
pub fn extract_u8(value: &Value, field_name: &str) -> (r: Result<u8, String>)
    ensures
        match r {
            Ok(v) => read_u8(json_view(*value), field_name@) == Ok::<u8, Seq<char>>(v),
            Err(e) => read_u8(json_view(*value), field_name@) == Err::<u8, Seq<char>>(e@),
        },
    decreases json_view(*value),
{
    match json_as_u64(value) {
        Some(v) => {
            if 0 < v && v <= 255 {
                return Ok(v as u8);
            }
            let mut e = owned(field_name);
            e.append(" 必须是 1-255 的数字");
            return Err(e);
        },
        None => {},
    }
    match json_as_array(value) {
        Some(items) => {
            if items.len() > 0 {
                proof {
                    assert(views(items@)[0] == json_view(items@[0]));
                    assert(decreases_to!(json_view(*value) => json_view(items@[0])));
                }
                return extract_u8(&items[0], field_name);
            }
        },
        None => {},
    }
    if json_is_number(value) {
        let mut e = owned(field_name);
        e.append(" 必须是 1-255 的数字");
        return Err(e);
    }
    let mut e = owned(field_name);
    e.append(" 必须是数字或 null");
    Err(e)
}

/// Reads an optional step number (see [`read_optional_u8`]).
pub fn extract_optional_u8(value: &Value, field_name: &str) -> (r: Result<Option<u8>, String>)
    ensures
        match r {
            Ok(v) => read_optional_u8(json_view(*value), field_name@) == Ok::<Option<u8>, Seq<char>>(v),
            Err(e) => read_optional_u8(json_view(*value), field_name@) == Err::<Option<u8>, Seq<char>>(e@),
        },
{
    if json_is_null(value) {
        return Ok(None);
    }
    if json_is_number(value) {
        return match extract_u8(value, field_name) {
            Ok(v) => Ok(Some(v)),
            Err(e) => Err(e),
        };
    }
    match json_as_array(value) {
        Some(items) => {
            if items.len() == 0 {
                return Ok(None);
            }
            assert(views(items@)[0] == json_view(items@[0]));
            match extract_u8(&items[0], field_name) {
                Ok(v) => Ok(Some(v)),
                Err(e) => Err(e),
            }
        },
        None => {
            let mut e = owned(field_name);
            e.append(" 必须是数字或 null");
            Err(e)
        },
    }
}

/// The step type named in a drafted step: `exploratory`, else
/// deterministic.
pub open spec fn read_step_type(j: JsonModel) -> StepType {
    if str_member(j, "step_type"@) == Some("exploratory"@) {
        StepType::Exploratory
    } else {
        StepType::Deterministic
    }
}

/// The parameters of a drafted step: an object as it is; absent, `null` or
/// an array count as `{}`; anything else is refused.
pub open spec fn read_parameters(j: JsonModel) -> Result<JsonModel, Seq<char>> {
    match obj_get(j, "parameters"@) {
        None => Ok(JsonModel::Object(Seq::empty())),
        Some(JsonModel::Object(es)) => Ok(JsonModel::Object(es)),
        Some(JsonModel::Null) => Ok(JsonModel::Object(Seq::empty())),
        Some(JsonModel::Array(_)) => Ok(JsonModel::Object(Seq::empty())),
        Some(_) => Err("parameters must be a JSON object"@),
    }
}

/// The rest of a drafted step once its order is read.
pub open spec fn read_step_rest(j: JsonModel, order: u8) -> Result<IntentStepView, Seq<char>> {
    let step_type = read_step_type(j);
    let tool = str_member(j, "tool_name"@);
    if step_type != StepType::Exploratory && tool is None {
        Err("tool_name is required and must be a string"@)
    } else {
        let depends = match obj_get(j, "depends_on"@) {
            None => Ok(None),
            Some(d) => read_optional_u8(d, "depends_on"@),
        };
        match depends {
            Err(e) => Err(e),
            Ok(depends_on) => match read_parameters(j) {
                Err(e) => Err(e),
                Ok(parameters) => Ok(
                    IntentStepView {
                        order,
                        step_type,
                        tool_name: match tool {
                            Some(t) => t,
                            None => Seq::empty(),
                        },
                        parameters,
                        step_goal: match str_member(j, "step_goal"@) {
                            Some(g) => g,
                            None => Seq::empty(),
                        },
                        expected_output: str_member(j, "expected_output"@),
                        depends_on,
                    },
                ),
            },
        }
    }
}

/// Step `i` of the draft.
pub open spec fn read_intent_step(i: int, j: JsonModel) -> Result<IntentStepView, Seq<char>> {
    if !(j is Object) {
        Err("steps["@ + dec(i as nat) + "] must be an object"@)
    } else {
        match obj_get(j, "order"@) {
            None => Err("order is required"@),
            Some(o) => match read_u8(o, "order"@) {
                Err(e) => Err(e),
                Ok(order) => read_step_rest(j, order),
            },
        }
    }
}

/// [`read_intent_step`] as a function value.
pub open spec fn read_intent_step_fn() -> spec_fn(int, JsonModel) -> Result<IntentStepView, Seq<char>> {
    |i: int, j: JsonModel| read_intent_step(i, j)
}

/// The JSON part of a reply: from the first `{` to the last `}` (to the end
/// when no `}` follows); the whole reply when it has no `{`.
pub open spec fn draft_span(s: Seq<char>) -> Seq<char> {
    match find_first(s, '{') {
        None => s,
        Some(a) => match find_last(s, '}') {
            Some(b) => if b >= a {
                s.subrange(a, b + 1)
            } else {
                Seq::empty()
            },
            None => s.subrange(a, s.len() as int),
        },
    }
}

/// Whether [`draft_span`] can be cut: a `}` that precedes the first `{`
/// ends right before it.
pub open spec fn draft_span_cuttable(s: Seq<char>) -> bool {
    match (find_first(s, '{'), find_last(s, '}')) {
        (Some(a), Some(b)) => b >= a - 1,
        _ => true,
    }
}

/// What a draft reply yields: whether tools are needed, the reasoning
/// (empty when absent) and the steps (none when absent), or the message
/// of the first problem.
pub open spec fn spec_parse_draft(response: Seq<char>) -> Result<(bool, Seq<char>, Seq<IntentStepView>), Seq<char>> {
    match json_parse(draft_span(response)) {
        Err(e) => Err("Failed to parse JSON: "@ + e),
        Ok(j) => draft_of_value(j),
    }
}

/// What a parsed draft reply yields (see [`spec_parse_draft`]).
pub open spec fn draft_of_value(j: JsonModel) -> Result<(bool, Seq<char>, Seq<IntentStepView>), Seq<char>> {
    if !(j is Object) {
        Err("Invalid JSON structure: expected object"@)
    } else {
        match obj_get(j, "need_agent"@) {
            Some(JsonModel::Bool(need_agent)) => {
                let reasoning = match str_member(j, "reasoning"@) {
                    Some(r) => r,
                    None => Seq::empty(),
                };
                match obj_get(j, "steps"@) {
                    Some(JsonModel::Array(items)) => match try_map(items, read_intent_step_fn()) {
                        Err(e) => Err("Failed to parse steps: "@ + e),
                        Ok(steps) => Ok((need_agent, reasoning, steps)),
                    },
                    _ => Ok((need_agent, reasoning, Seq::empty())),
                }
            },
            _ => Err("need_agent must be a boolean"@),
        }
    }
}

fn optional_string(v: &Value, key: &str) -> (r: Option<String>)
    ensures
        match r {
            Some(s) => str_member(json_view(*v), key@) == Some(s@),
            None => str_member(json_view(*v), key@) is None,
        },
{
    match json_get(v, key) {
        Some(x) => match json_as_str(x) {
            Some(s) => Some(owned(s)),
            None => None,
        },
        None => None,
    }
}

fn read_step_of(i: usize, v: &Value) -> (r: Result<IntentStep, String>)
    ensures
        match r {
            Ok(s) => read_intent_step(i as int, json_view(*v)) == Ok::<IntentStepView, Seq<char>>(intent_step_view(s)),
            Err(e) => read_intent_step(i as int, json_view(*v)) == Err::<IntentStepView, Seq<char>>(e@),
        },
{
    let ghost j = json_view(*v);
    if !json_is_object(v) {
        let mut e = owned("steps[");
        push_dec(&mut e, i as u64);
        e.append("] must be an object");
        return Err(e);
    }
    let order = match json_get(v, "order") {
        None => return Err(owned("order is required")),
        Some(o) => match extract_u8(o, "order") {
            Ok(x) => x,
            Err(e) => return Err(e),
        },
    };
    let tname = optional_string(v, "step_type");
    let step_type = match &tname {
        Some(t) => if *t == owned("exploratory") { StepType::Exploratory } else { StepType::Deterministic },
        None => StepType::Deterministic,
    };
    proof {
        reveal_strlit("exploratory");
    }
    assert(step_type == read_step_type(j));
    let tool = optional_string(v, "tool_name");
    let is_exploratory = match step_type {
        StepType::Exploratory => true,
        _ => false,
    };
    if !is_exploratory && tool.is_none() {
        return Err(owned("tool_name is required and must be a string"));
    }
    let depends_on = match json_get(v, "depends_on") {
        None => None,
        Some(d) => match extract_optional_u8(d, "depends_on") {
            Ok(x) => x,
            Err(e) => return Err(e),
        },
    };
    let parameters = match json_get(v, "parameters") {
        None => json_empty_object(),
        Some(p) => {
            if json_is_object(p) {
                json_clone(p)
            } else if json_is_null(p) || json_as_array(p).is_some() {
                json_empty_object()
            } else {
                return Err(owned("parameters must be a JSON object"));
            }
        },
    };
    let step_goal = match optional_string(v, "step_goal") {
        Some(g) => g,
        None => String::new(),
    };
    let expected_output = optional_string(v, "expected_output");
    let tool_name = match tool {
        Some(t) => t,
        None => String::new(),
    };
    Ok(IntentStep { order, step_type, tool_name, parameters, step_goal, expected_output, depends_on })
}

/// The JSON part of a reply ([`draft_span`]).
fn draft_span_of(response: &str) -> (r: String)
    requires
        draft_span_cuttable(response@),
    ensures
        r@ == draft_span(response@),
{
    let v = to_chars(response);
    match find_char(&v, '{') {
        None => owned(response),
        Some(a) => match rfind_char(&v, '}') {
            Some(b) => if b >= a {
                string_of(&v, a, b + 1)
            } else {
                String::new()
            },
            None => string_of(&v, a, v.len()),
        },
    }
}

/// Whether a reply can be read: [`parse_intent_response`] cuts the JSON
/// out of it, which fails when a `}` stands more than one character before
/// the first `{`.
pub fn can_parse_intent_response(response: &str) -> (r: bool)
    ensures
        r == draft_span_cuttable(response@),
{
    let v = to_chars(response);
    match (find_char(&v, '{'), rfind_char(&v, '}')) {
        (Some(a), Some(b)) => b + 1 >= a,
        _ => true,
    }
}

fn read_steps(items: &Vec<Value>) -> (r: Result<Vec<IntentStep>, String>)
    ensures
        match r {
            Ok(v) => try_map(views(items@), read_intent_step_fn()) == Ok::<Seq<IntentStepView>, Seq<char>>(
                v@.map_values(|s: IntentStep| intent_step_view(s)),
            ),
            Err(e) => try_map(views(items@), read_intent_step_fn()) == Err::<Seq<IntentStepView>, Seq<char>>(e@),
        },
{
    let ghost model = views(items@);
    let ghost f = read_intent_step_fn();
    let mut steps: Vec<IntentStep> = Vec::new();
    proof {
        crate::seqs::lemma_try_map_empty(model, f);
        assert(steps@.map_values(|s: IntentStep| intent_step_view(s)) =~= Seq::<IntentStepView>::empty());
    }
    let mut i: usize = 0;
    while i < items.len()
        invariant
            i <= items.len(),
            model == views(items@),
            f == read_intent_step_fn(),
            try_map(model.take(i as int), f) == Ok::<Seq<IntentStepView>, Seq<char>>(
                steps@.map_values(|s: IntentStep| intent_step_view(s)),
            ),
        decreases items.len() - i,
    {
        proof {
            crate::seqs::lemma_try_map_step(model, f, i as int);
        }
        assert(model[i as int] == json_view(items@[i as int]));
        match read_step_of(i, &items[i]) {
            Ok(st) => {
                let ghost prev = steps@.map_values(|s: IntentStep| intent_step_view(s));
                let ghost sv = intent_step_view(st);
                steps.push(st);
                assert(steps@.map_values(|s: IntentStep| intent_step_view(s)) =~= prev.push(sv));
            },
            Err(e) => {
                proof {
                    crate::seqs::lemma_try_map_prefix_err(model, f, i + 1);
                }
                return Err(e);
            },
        }
        i += 1;
    }
    proof {
        crate::seqs::lemma_try_map_full(model, f);
    }
    Ok(steps)
}

/// Reads a tool-aware intent reply (see [`spec_parse_draft`]); the JSON may
/// be wrapped in Markdown or other text. Step numbers given as `[n]` are
/// read as `n`. Every problem is a parse error.
pub fn parse_intent_response(response: &str) -> (r: Result<ToolIntentPlan, LlmError>)
    requires
        draft_span_cuttable(response@),
    ensures
        match r {
            Ok(p) => spec_parse_draft(response@) == Ok::<(bool, Seq<char>, Seq<IntentStepView>), Seq<char>>(
                (p.need_agent, p.reasoning@, p.steps@.map_values(|s: IntentStep| intent_step_view(s))),
            ),
            Err(LlmError::ParseError(m)) => spec_parse_draft(response@) == Err::<(bool, Seq<char>, Seq<IntentStepView>), Seq<char>>(m@),
            Err(_) => false,
        },
{
    let text = draft_span_of(response);
    match parse_json(text.as_str()) {
        Ok(j) => intent_plan_from_value(&j),
        Err(e) => {
            let mut m = owned("Failed to parse JSON: ");
            m.append(e.as_str());
            Err(LlmError::ParseError(m))
        },
    }
}

/// Reads a tool-aware intent from a parsed reply (see [`draft_of_value`]).
pub fn intent_plan_from_value(json: &Value) -> (r: Result<ToolIntentPlan, LlmError>)
    ensures
        match r {
            Ok(p) => draft_of_value(json_view(*json)) == Ok::<(bool, Seq<char>, Seq<IntentStepView>), Seq<char>>(
                (p.need_agent, p.reasoning@, p.steps@.map_values(|s: IntentStep| intent_step_view(s))),
            ),
            Err(LlmError::ParseError(m)) => draft_of_value(json_view(*json)) == Err::<(bool, Seq<char>, Seq<IntentStepView>), Seq<char>>(m@),
            Err(_) => false,
        },
{
    if !json_is_object(json) {
        return Err(LlmError::ParseError(owned("Invalid JSON structure: expected object")));
    }
    let need_agent = match json_get(json, "need_agent") {
        Some(x) => match json_as_bool(x) {
            Some(b) => b,
            None => return Err(LlmError::ParseError(owned("need_agent must be a boolean"))),
        },
        None => return Err(LlmError::ParseError(owned("need_agent must be a boolean"))),
    };
    let reasoning = match optional_string(json, "reasoning") {
        Some(r) => r,
        None => String::new(),
    };
    let steps = match json_get(json, "steps") {
        Some(x) => match json_as_array(x) {
            Some(items) => match read_steps(items) {
                Ok(v) => v,
                Err(e) => {
                    let mut m = owned("Failed to parse steps: ");
                    m.append(e.as_str());
                    return Err(LlmError::ParseError(m));
                },
            },
            None => {
                let v: Vec<IntentStep> = Vec::new();
                assert(v@.map_values(|s: IntentStep| intent_step_view(s)) =~= Seq::<IntentStepView>::empty());
                v
            },
        },
        None => {
            let v: Vec<IntentStep> = Vec::new();
            assert(v@.map_values(|s: IntentStep| intent_step_view(s)) =~= Seq::<IntentStepView>::empty());
            v
        },
    };
    Ok(ToolIntentPlan { need_agent, reasoning, steps })
}

} // verus!
