//! The planner agents: what they send to the model and how they find the
//! JSON in its reply.
//!
//! The task planner turns a request into stages; the execution planner
//! turns a stage into steps. Both fill a prompt template, send it with a
//! short user message, and cut the JSON out of the reply.
use vstd::prelude::*;
use vstd::string::StringExecFns;
use std::collections::BTreeMap;
use serde_json::Value;
use crate::error::LlmError;
use crate::text::{find_first, find_last, has_at, join, join_strings, owned, string_of, to_chars, trim, trim_bounds, find_char, rfind_char};
use crate::types::{ChatMessage, Role};

verus! {

// ---------------------------------------------------------------------------
// Plans
// ---------------------------------------------------------------------------

/// A step of an execution plan: an atomic operation for the ReAct agent.
#[derive(Debug, Clone)]
pub struct ExecutionStep {
    /// Position of the step, from 1.
    pub order: u32,
    pub goal: String,
    /// Steps that must finish first; steps without dependencies may run in
    /// parallel.
    pub depends_on: Vec<u32>,
    /// The suggested tool (`<kind>__<service>__<operation>`, or
    /// `llm_reasoning` for analysis).
    pub expected_tool: String,
}

/// The steps that carry out one stage of a task.
#[derive(Debug, Clone)]
pub struct ExecutionPlan {
    pub steps: Vec<ExecutionStep>,
}

/// What a stage produces for later stages.
#[derive(Debug, Clone)]
pub struct OutputSpec {
    pub description: String,
    /// A type hint: `string`, `number`, `list`, `url`, ...
    pub value_type: String,
}

/// A stage of a task: a business goal within one domain. Stages form a DAG
/// through `depends_on`; data flows between them through `inputs` and
/// `outputs`.
#[derive(Debug, Clone)]
pub struct TaskStage {
    pub id: String,
    pub goal: String,
    /// `browser`, `file`, `adb`, `office`, `database`, `http` or `terminal`.
    pub domain: String,
    /// Ids of the stages that must finish first.
    pub depends_on: Vec<String>,
    /// What the stage produces, by output name.
    pub outputs: BTreeMap<String, OutputSpec>,
    /// What the stage consumes, by input name.
    pub inputs: BTreeMap<String, InputSpec>,
}

/// A task as stages.
#[derive(Debug, Clone)]
pub struct TaskPlan {
    pub stages: Vec<TaskStage>,
}

/// What a stage consumes.
#[derive(Debug, Clone)]
pub struct InputSpec {
    pub description: String,
    /// A type hint, as for [`OutputSpec`].
    pub value_type: String,
    pub source: InputSource,
}

/// Where an input's value comes from.
#[derive(Debug, Clone)]
pub enum InputSource {
    /// A value fixed when planning.
    Literal { value: Value },
    /// An output of an earlier stage, filled in when the stage runs.
    FromStage { stage_id: String, output_name: String },
}

/// One tool call made while running a step.
#[derive(Debug, Clone)]
pub struct ToolCallRecord {
    /// Full tool name, such as `mcp__browser__click`.
    pub tool_name: String,
    pub arguments: Value,
    pub result: Value,
    pub success: bool,
    /// When the call was made (milliseconds).
    pub timestamp_ms: u64,
}

/// What running one step of an execution plan gives: its output, every
/// tool call made (retries included) and the last thought.
#[derive(Debug, Clone)]
pub struct StepExecutionResult<T> {
    pub output: T,
    pub tool_calls: Vec<ToolCallRecord>,
    pub thought: Option<String>,
}

/// The placeholder ReAct agent; every step fails as not implemented.
#[derive(Debug, Clone, Copy)]
pub struct DefaultReactAgent;

impl DefaultReactAgent {
    /// The error every step gets.
    pub fn run_step_error(&self) -> (r: LlmError)
        ensures
            r matches LlmError::NotImplemented(m) && m@
                == "ReactAgent not implemented yet — use TaskPipelineExecutor::with_react_agent() to inject a real implementation"@,
    {
        LlmError::NotImplemented(
            owned("ReactAgent not implemented yet — use TaskPipelineExecutor::with_react_agent() to inject a real implementation"),
        )
    }
}

// ---------------------------------------------------------------------------
// Text search
// ---------------------------------------------------------------------------

/// Whether `p` occurs in `s` at `i`.
pub open spec fn occurs_at(s: Seq<char>, p: Seq<char>, i: int) -> bool {
    0 <= i && i + p.len() <= s.len() && s.subrange(i, i + p.len()) == p
}

/// The first position of `p` in `s`.
#[verifier::opaque]
pub open spec fn find_sub(s: Seq<char>, p: Seq<char>) -> Option<int> {
    if exists|i: int| #[trigger] occurs_at(s, p, i) {
        Some(choose|i: int| #[trigger] occurs_at(s, p, i) && forall|j: int| 0 <= j < i ==> !occurs_at(s, p, j))
    } else {
        None
    }
}

/// The last position of `p` in `s`.
#[verifier::opaque]
pub open spec fn rfind_sub(s: Seq<char>, p: Seq<char>) -> Option<int> {
    if exists|i: int| #[trigger] occurs_at(s, p, i) {
        Some(choose|i: int| #[trigger] occurs_at(s, p, i) && forall|j: int| i < j <= s.len() ==> !occurs_at(s, p, j))
    } else {
        None
    }
}

proof fn lemma_find_sub_at(s: Seq<char>, p: Seq<char>, i: int)
    requires
        occurs_at(s, p, i),
        forall|j: int| 0 <= j < i ==> !#[trigger] occurs_at(s, p, j),
    ensures
        find_sub(s, p) == Some(i),
{
    reveal(find_sub);
    let c = choose|k: int| #[trigger] occurs_at(s, p, k) && forall|j: int| 0 <= j < k ==> !occurs_at(s, p, j);
    assert(occurs_at(s, p, c) && forall|j: int| 0 <= j < c ==> !occurs_at(s, p, j));
    if c < i {
        assert(!occurs_at(s, p, c));
    } else if c > i {
        assert(!occurs_at(s, p, i));
    }
}

proof fn lemma_rfind_sub_at(s: Seq<char>, p: Seq<char>, i: int)
    requires
        occurs_at(s, p, i),
        forall|j: int| i < j <= s.len() ==> !#[trigger] occurs_at(s, p, j),
    ensures
        rfind_sub(s, p) == Some(i),
{
    reveal(rfind_sub);
    let c = choose|m: int| #[trigger] occurs_at(s, p, m) && forall|j: int| m < j <= s.len() ==> !occurs_at(s, p, j);
    assert(occurs_at(s, p, c) && forall|j: int| c < j <= s.len() ==> !occurs_at(s, p, j));
    if c > i {
        assert(c <= s.len());
        assert(!occurs_at(s, p, c));
    } else if c < i {
        assert(i <= s.len());
        assert(!occurs_at(s, p, i));
    }
}

proof fn lemma_no_sub(s: Seq<char>, p: Seq<char>)
    requires
        forall|k: int| !#[trigger] occurs_at(s, p, k),
    ensures
        find_sub(s, p) is None,
        rfind_sub(s, p) is None,
{
    reveal(find_sub);
    reveal(rfind_sub);
}

fn find_sub_exec(v: &Vec<char>, p: &Vec<char>) -> (r: Option<usize>)
    ensures
        match r {
            Some(i) => find_sub(v@, p@) == Some(i as int) && i + p@.len() <= v@.len(),
            None => find_sub(v@, p@) is None,
        },
{
    if p.len() > v.len() {
        assert forall|k: int| !#[trigger] occurs_at(v@, p@, k) by {}
        proof {
            lemma_no_sub(v@, p@);
        }
        return None;
    }
    let last = v.len() - p.len();
    let mut i: usize = 0;
    loop
        invariant
            i <= last,
            last == v.len() - p.len(),
            forall|j: int| 0 <= j < i ==> !#[trigger] occurs_at(v@, p@, j),
        decreases last - i,
    {
        if has_at(v, i, p) {
            proof {
                lemma_find_sub_at(v@, p@, i as int);
            }
            return Some(i);
        }
        if i == last {
            proof {
                assert forall|k: int| !#[trigger] occurs_at(v@, p@, k) by {
                    if occurs_at(v@, p@, k) {
                        assert(k <= last);
                        if k == i {
                        }
                    }
                }
                lemma_no_sub(v@, p@);
            }
            return None;
        }
        i += 1;
    }
}

fn rfind_sub_exec(v: &Vec<char>, p: &Vec<char>) -> (r: Option<usize>)
    ensures
        match r {
            Some(i) => rfind_sub(v@, p@) == Some(i as int) && i + p@.len() <= v@.len(),
            None => rfind_sub(v@, p@) is None,
        },
{
    if p.len() > v.len() {
        assert forall|k: int| !#[trigger] occurs_at(v@, p@, k) by {}
        proof {
            lemma_no_sub(v@, p@);
        }
        return None;
    }
    let mut i: usize = v.len() - p.len();
    loop
        invariant
            i <= v.len() - p.len(),
            p.len() <= v.len(),
            forall|j: int| i < j <= v.len() ==> !#[trigger] occurs_at(v@, p@, j),
        decreases i,
    {
        if has_at(v, i, p) {
            proof {
                lemma_rfind_sub_at(v@, p@, i as int);
            }
            return Some(i);
        }
        if i == 0 {
            proof {
                assert forall|m: int| !#[trigger] occurs_at(v@, p@, m) by {
                    if occurs_at(v@, p@, m) {
                        assert(m >= 0);
                    }
                }
                lemma_no_sub(v@, p@);
            }
            return None;
        }
        i -= 1;
    }
}

// ---------------------------------------------------------------------------
// The JSON of a reply
// ---------------------------------------------------------------------------

/// The JSON part of a planner's reply: in the trimmed reply, the trimmed
/// text between the first ```` ```json ```` and the last ```` ``` ```` when the
/// latter comes after the former; else from the first `{` to the last `}`
/// when both occur in that order; else the trimmed reply.
pub open spec fn planner_json(response: Seq<char>) -> Seq<char> {
    let t = trim(response);
    match (find_sub(t, "```json"@), rfind_sub(t, "```"@)) {
        (Some(s), Some(e)) if e > s + 7 => trim(t.subrange(s + 7, e)),
        _ => match (find_first(t, '{'), find_last(t, '}')) {
            (Some(a), Some(b)) if b >= a => t.subrange(a, b + 1),
            _ => t,
        },
    }
}

/// The text inside a ```` ```json ```` fence, trimmed, if there is one.
pub open spec fn fenced_json(t: Seq<char>) -> Option<Seq<char>> {
    match (find_sub(t, "```json"@), rfind_sub(t, "```"@)) {
        (Some(s), Some(e)) if e > s + 7 => Some(trim(t.subrange(s + 7, e))),
        _ => None,
    }
}

fn fenced_json_of(t: &Vec<char>) -> (r: Option<String>)
    ensures
        match r {
            Some(x) => fenced_json(t@) == Some(x@),
            None => fenced_json(t@) is None,
        },
{
    let fence = to_chars("```json");
    let close = to_chars("```");
    proof {
        reveal_strlit("```json");
        reveal_strlit("```");
    }
    match (find_sub_exec(t, &fence), rfind_sub_exec(t, &close)) {
        (Some(s), Some(e)) => {
            if s < e && e - s > 7 {
                let inner = string_of(t, s + 7, e);
                let iv = to_chars(inner.as_str());
                let (x, y) = trim_bounds(&iv);
                Some(string_of(&iv, x, y))
            } else {
                None
            }
        },
        _ => None,
    }
}

fn brace_span_of(t: &Vec<char>) -> (r: String)
    ensures
        r@ == (match (find_first(t@, '{'), find_last(t@, '}')) {
            (Some(a), Some(b)) if b >= a => t@.subrange(a, b + 1),
            _ => t@,
        }),
{
    match (find_char(t, '{'), rfind_char(t, '}')) {
        (Some(a), Some(b)) => {
            if b >= a {
                return string_of(t, a, b + 1);
            }
        },
        _ => {},
    }
    let r = string_of(t, 0, t.len());
    assert(r@ =~= t@);
    r
}

/// Cuts the JSON out of a planner's reply (see [`planner_json`]).
pub fn extract_json(response: &str) -> (r: String)
    ensures
        r@ == planner_json(response@),
{
    let all = to_chars(response);
    let (a0, b0) = trim_bounds(&all);
    let t = to_chars(string_of(&all, a0, b0).as_str());
    assert(t@ == trim(response@));
    match fenced_json_of(&t) {
        Some(x) => x,
        None => brace_span_of(&t),
    }
}

/// The error of a reply whose JSON does not describe a `what` (`TaskPlan`,
/// `ExecutionPlan`): the parser's message, then the whole reply.
pub fn plan_parse_error(what: &str, error: &str, response: &str) -> (r: LlmError)
    ensures
        r matches LlmError::ParseError(m) && m@ == "Failed to parse "@ + what@ + " JSON: "@ + error@ + "\n--- response ---\n"@
            + response@,
{
    let mut m = owned("Failed to parse ");
    m.append(what);
    m.append(" JSON: ");
    m.append(error);
    m.append("\n--- response ---\n");
    m.append(response);
    LlmError::ParseError(m)
}

/// The model of an agent: the configured one, else the provider's default.
pub fn resolve_model(model: &str, provider_default: Option<&str>) -> (r: Result<String, LlmError>)
    ensures
        model@.len() > 0 ==> (r matches Ok(m) && m@ == model@),
        model@.len() == 0 && provider_default is Some ==> (r matches Ok(m) && m@ == provider_default.unwrap()@),
        model@.len() == 0 && provider_default is None ==> (r matches Err(LlmError::Config(m)) && m@
            == "Model not set for LLM agent"@),
{
    if model.is_empty() {
        match provider_default {
            Some(d) => Ok(owned(d)),
            None => Err(LlmError::Config(owned("Model not set for LLM agent"))),
        }
    } else {
        Ok(owned(model))
    }
}

// ---------------------------------------------------------------------------
// Templates
// ---------------------------------------------------------------------------

/// `s` with every occurrence of `from` replaced by `to`, scanning from the
/// left without overlaps (`str::replace` for a non-empty pattern).
pub open spec fn replace_all(s: Seq<char>, from: Seq<char>, to: Seq<char>) -> Seq<char>
    recommends
        from.len() > 0,
    decreases s.len(),
{
    if s.len() == 0 || from.len() == 0 {
        s
    } else if from.is_prefix_of(s) {
        to + replace_all(s.skip(from.len() as int), from, to)
    } else {
        seq![s[0]] + replace_all(s.skip(1), from, to)
    }
}

/// Replaces every occurrence of `from` (see [`replace_all`]).
pub fn replace_str(s: &str, from: &str, to: &str) -> (r: String)
    requires
        from@.len() > 0,
    ensures
        r@ == replace_all(s@, from@, to@),
{
    let v = to_chars(s);
    let p = to_chars(from);
    let mut out = String::new();
    let mut i: usize = 0;
    assert(v@.skip(0) =~= v@);
    assert(out@ + replace_all(v@, from@, to@) =~= replace_all(v@, from@, to@));
    while i < v.len()
        invariant
            i <= v.len(),
            p@ == from@,
            p@.len() > 0,
            out@ + replace_all(v@.skip(i as int), from@, to@) == replace_all(v@, from@, to@),
        decreases v.len() - i,
    {
        let ghost rest = v@.skip(i as int);
        let ghost o = out@;
        if has_at(&v, i, &p) {
            proof {
                assert(v@.subrange(i as int, i + p.len()) =~= rest.take(p.len() as int));
                assert(from@.is_prefix_of(rest));
                assert(rest.skip(from@.len() as int) =~= v@.skip(i + p.len()));
                assert(replace_all(rest, from@, to@) == to@ + replace_all(v@.skip(i + p.len()), from@, to@));
            }
            out.append(to);
            proof {
                assert(out@ + replace_all(v@.skip(i + p.len()), from@, to@) =~= o + replace_all(rest, from@, to@));
            }
            i = i + p.len();
        } else {
            proof {
                if from@.is_prefix_of(rest) {
                    assert(v@.subrange(i as int, i + p.len()) =~= rest.take(p.len() as int));
                }
                assert(rest.skip(1) =~= v@.skip(i + 1));
                assert(rest[0] == v@[i as int]);
                assert(replace_all(rest, from@, to@) == seq![v@[i as int]] + replace_all(v@.skip(i + 1), from@, to@));
            }
            crate::text::push_char(&mut out, v[i]);
            proof {
                assert(out@ + replace_all(v@.skip(i + 1), from@, to@) =~= o + replace_all(rest, from@, to@));
            }
            i += 1;
        }
    }
    proof {
        assert(v@.skip(i as int).len() == 0);
        assert(out@ + Seq::<char>::empty() =~= out@);
    }
    out
}

/// What the execution planner's prompt is filled with: the stage, its
/// domain's rules, the tools and the run so far.
#[derive(Debug, Clone)]
pub struct StagePrompt {
    pub stage_goal: String,
    pub stage_domain: String,
    /// The stage's inputs (JSON).
    pub stage_inputs: String,
    /// The stage's expected outputs (JSON).
    pub stage_outputs: String,
    pub planning_rules: String,
    pub available_tools: String,
    pub runtime_context: String,
    /// What the earlier stages produced (JSON).
    pub previous_stage_outputs: String,
}

/// The execution planner's prompt: the template with its eight
/// placeholders filled in, in order.
pub open spec fn stage_prompt_text(template: Seq<char>, p: StagePrompt) -> Seq<char> {
    let t1 = replace_all(template, "{{STAGE_GOAL}}"@, p.stage_goal@);
    let t2 = replace_all(t1, "{{STAGE_DOMAIN}}"@, p.stage_domain@);
    let t3 = replace_all(t2, "{{STAGE_INPUTS}}"@, p.stage_inputs@);
    let t4 = replace_all(t3, "{{STAGE_OUTPUTS}}"@, p.stage_outputs@);
    let t5 = replace_all(t4, "{{PLANNING_RULES}}"@, p.planning_rules@);
    let t6 = replace_all(t5, "{{AVAILABLE_TOOLS}}"@, p.available_tools@);
    let t7 = replace_all(t6, "{{RUNTIME_CONTEXT}}"@, p.runtime_context@);
    replace_all(t7, "{{PREVIOUS_STAGE_OUTPUTS}}"@, p.previous_stage_outputs@)
}

impl StagePrompt {
    /// Everything empty.
    pub fn new() -> (r: StagePrompt)
        ensures
            r.stage_goal@.len() == 0,
            r.stage_domain@.len() == 0,
            r.stage_inputs@.len() == 0,
            r.stage_outputs@.len() == 0,
            r.planning_rules@.len() == 0,
            r.available_tools@.len() == 0,
            r.runtime_context@.len() == 0,
            r.previous_stage_outputs@.len() == 0,
    {
        StagePrompt {
            stage_goal: String::new(),
            stage_domain: String::new(),
            stage_inputs: String::new(),
            stage_outputs: String::new(),
            planning_rules: String::new(),
            available_tools: String::new(),
            runtime_context: String::new(),
            previous_stage_outputs: String::new(),
        }
    }

    /// Fills the template (see [`stage_prompt_text`]).
    pub fn build_system_prompt(&self, template: &str) -> (r: String)
        ensures
            r@ == stage_prompt_text(template@, *self),
    {
        proof {
            reveal_strlit("{{STAGE_GOAL}}");
            reveal_strlit("{{STAGE_DOMAIN}}");
            reveal_strlit("{{STAGE_INPUTS}}");
            reveal_strlit("{{STAGE_OUTPUTS}}");
            reveal_strlit("{{PLANNING_RULES}}");
            reveal_strlit("{{AVAILABLE_TOOLS}}");
            reveal_strlit("{{RUNTIME_CONTEXT}}");
            reveal_strlit("{{PREVIOUS_STAGE_OUTPUTS}}");
        }
        let t1 = replace_str(template, "{{STAGE_GOAL}}", self.stage_goal.as_str());
        let t2 = replace_str(t1.as_str(), "{{STAGE_DOMAIN}}", self.stage_domain.as_str());
        let t3 = replace_str(t2.as_str(), "{{STAGE_INPUTS}}", self.stage_inputs.as_str());
        let t4 = replace_str(t3.as_str(), "{{STAGE_OUTPUTS}}", self.stage_outputs.as_str());
        let t5 = replace_str(t4.as_str(), "{{PLANNING_RULES}}", self.planning_rules.as_str());
        let t6 = replace_str(t5.as_str(), "{{AVAILABLE_TOOLS}}", self.available_tools.as_str());
        let t7 = replace_str(t6.as_str(), "{{RUNTIME_CONTEXT}}", self.runtime_context.as_str());
        replace_str(t7.as_str(), "{{PREVIOUS_STAGE_OUTPUTS}}", self.previous_stage_outputs.as_str())
    }

    /// The messages for the model: the filled template, then
    /// `【Stage 目标】` and the stage's goal.
    pub fn build_messages(&self, template: &str) -> (r: Vec<ChatMessage>)
        ensures
            r@.len() == 2,
            r@[0].role == Role::System && r@[0].content@ == stage_prompt_text(template@, *self),
            r@[1].role == Role::User && r@[1].content@ == "【Stage 目标】\n"@ + self.stage_goal@,
    {
        let system = self.build_system_prompt(template);
        let mut user = owned("【Stage 目标】\n");
        user.append(self.stage_goal.as_str());
        let mut msgs: Vec<ChatMessage> = Vec::new();
        msgs.push(ChatMessage::new(Role::System, system.as_str()));
        msgs.push(ChatMessage::new(Role::User, user.as_str()));
        msgs
    }

    /// The file that holds the planning rules of the stage's domain:
    /// `{rules_dir}/{domain}_rules.yaml`.
    pub fn rules_file_path(&self, rules_dir: &str) -> (r: String)
        ensures
            r@ == rules_dir@ + "/"@ + self.stage_domain@ + "_rules.yaml"@,
    {
        let mut p = owned(rules_dir);
        p.append("/");
        p.append(self.stage_domain.as_str());
        p.append("_rules.yaml");
        p
    }
}

/// What the task planner's prompt is filled with.
#[derive(Debug, Clone)]
pub struct TaskPrompt {
    pub available_domains: Vec<String>,
    pub conversation_context: String,
    pub user_request: String,
}

/// The task planner's prompt: the template with the domains (joined by
/// `, `) and the conversation context filled in.
pub open spec fn task_prompt_text(template: Seq<char>, p: TaskPrompt) -> Seq<char> {
    let domains = join(p.available_domains@.map_values(|d: String| d@), ", "@);
    replace_all(replace_all(template, "{{AVAILABLE_DOMAINS}}"@, domains), "{{CONVERSATION_CONTEXT}}"@, p.conversation_context@)
}

impl TaskPrompt {
    /// Everything empty.
    pub fn new() -> (r: TaskPrompt)
        ensures
            r.available_domains@.len() == 0,
            r.conversation_context@.len() == 0,
            r.user_request@.len() == 0,
    {
        TaskPrompt { available_domains: Vec::new(), conversation_context: String::new(), user_request: String::new() }
    }

    /// Fills the template (see [`task_prompt_text`]).
    pub fn build_system_prompt(&self, template: &str) -> (r: String)
        ensures
            r@ == task_prompt_text(template@, *self),
    {
        proof {
            reveal_strlit("{{AVAILABLE_DOMAINS}}");
            reveal_strlit("{{CONVERSATION_CONTEXT}}");
        }
        let domains = join_strings(self.available_domains.as_slice(), ", ");
        let t1 = replace_str(template, "{{AVAILABLE_DOMAINS}}", domains.as_str());
        replace_str(t1.as_str(), "{{CONVERSATION_CONTEXT}}", self.conversation_context.as_str())
    }

    /// The messages for the model: the filled template, then `【用户请求】`
    /// and the request.
    pub fn build_messages(&self, template: &str) -> (r: Vec<ChatMessage>)
        ensures
            r@.len() == 2,
            r@[0].role == Role::System && r@[0].content@ == task_prompt_text(template@, *self),
            r@[1].role == Role::User && r@[1].content@ == "【用户请求】\n"@ + self.user_request@,
    {
        let system = self.build_system_prompt(template);
        let mut user = owned("【用户请求】\n");
        user.append(self.user_request.as_str());
        let mut msgs: Vec<ChatMessage> = Vec::new();
        msgs.push(ChatMessage::new(Role::System, system.as_str()));
        msgs.push(ChatMessage::new(Role::User, user.as_str()));
        msgs
    }
}

} // verus!
