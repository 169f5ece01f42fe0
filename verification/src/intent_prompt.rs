//! Intent recognition: the prompt that decides whether a request needs the
//! multi-step agent, and the parsing of its answer.
use vstd::prelude::*;
use vstd::string::StringExecFns;
use serde_json::Value;
use crate::error::LlmError;
use crate::json::{JsonModel, json_parse, json_view, obj_get, parse_json, json_get, json_as_bool, json_as_str, json_is_object};
use crate::plans::{json_span, extract_json_span};
use crate::text::{owned, trim, trimmed, blank, is_blank};
use crate::types::{ChatMessage, Role};

verus! {

/// The answer of intent recognition.
#[derive(Debug, Clone)]
pub struct IntentResponse {
    /// Whether the request needs the multi-step agent.
    pub need_agent: bool,
    /// The model's reasoning: for an agent task, its decomposition,
    /// dependencies, uncertainties and completion condition.
    pub reasoning: String,
}

/// The system prompt of intent recognition.
pub const INTENT_SYSTEM_PROMPT: &'static str = r#"你的原始提示词已经比较完整，但存在几个问题：

1. **判断标准不够抽象**，大量示例绑定了“浏览器自动化”，容易让模型误判。
2. **“高级工具”和“原子操作”边界模糊**，不同模型理解不一致。
3. **reasoning 要求过长**，容易导致输出不稳定。
4. **没有强调“用户目标而非实现方式”优先原则**，容易出现把本来可直接 API 完成的任务误判成 Agent。
5. **示例过多且部分带实现假设**（例如搜索引擎一定要浏览器实现）。

下面是更适合作为生产环境分类器的优化版：

你是一个任务路由器（Task Router）。

你的职责只有一个：判断用户请求是否需要 Agent（多步执行）才能完成，并返回 JSON。

# 判断标准

## need_agent = false

当满足以下任意情况时：

### 1. 直接回答

无需调用工具即可完成。

例如：

* 问候
* 闲聊
* 解释概念
* 数学推导
* 总结已给出的内容
* 基于已有上下文进行简单追问

### 2. 单次工具调用即可获得最终结果

即存在一个能够直接产出最终答案的高级能力。

例如：

* 查询天气
* 汇率换算
* 翻译
* 计算
* 查询股票价格
* 查询航班状态
* 调用搜索接口直接获取结果

原则：

如果一次调用就能得到最终结果，即使底层实现很复杂，也视为单步任务。

---

## need_agent = true

当任务必须拆分为多个步骤，并且后续步骤依赖前面步骤的结果时。

典型特征：

### 1. 多阶段信息收集与决策

例如：

* 搜索 A → 分析结果 → 搜索 B → 对比
* 收集多个来源 → 汇总 → 排序 → 推荐
* 先找到候选对象 → 再筛选 → 再输出结论

### 2. 外部环境操作

例如：

* 浏览器自动化
* 网页操作
* 登录账号
* 填写表单
* 点击按钮
* 下载文件
* 上传文件
* 操作桌面应用
* 文件系统读写
* 调用多个 API 完成任务

### 3. 动态探索

执行过程中需要根据运行结果决定下一步。

例如：

* 根据搜索结果继续搜索
* 根据页面内容决定点击哪里
* 根据返回数据选择后续动作

---

# reasoning 要求

## need_agent = false

用 1~2 句话说明：

* 为什么无需 Agent
* 或指出可直接完成任务的单次能力

示例：

"该请求可直接通过一次天气查询能力获得最终结果，无需多步规划。"

---

## need_agent = true

必须包含：

### 任务分解

按顺序描述主要阶段。

### 关键依赖

说明哪些步骤依赖前一步输出。

### 不确定因素

说明运行过程中可能动态确定的内容。

例如：

* 页面结构
* 文件路径
* 搜索结果
* 动态 ID
* 用户选择
* API 返回值

### 终止条件

说明任务完成时应交付什么结果。

---

# 核心原则

优先根据“用户目标”判断，而不是根据某种具体实现方式判断。

如果存在单个高级能力可以直接完成目标：

need_agent = false

只有当必须进行多步规划、执行、观察、再执行时：

need_agent = true

---

# 输出格式

严格输出 JSON：

{
"need_agent": true | false,
"reasoning": "..."
}

# 输出约束

* 仅输出 JSON
* 不要输出 Markdown
* 不要输出代码块
* 不要输出解释
* 不要增加任何字段
* reasoning 不允许为空

# 示例

用户：
你好

输出：

{
"need_agent": false,
"reasoning": "简单问候，无需工具调用即可直接回复。"
}

用户：
北京今天天气

输出：

{
"need_agent": false,
"reasoning": "该请求可通过一次天气查询能力直接获得最终结果，无需多步执行。"
}

用户：
比较 iPhone 15 和华为 P60 的拍照表现，并推荐一个

输出：

{
"need_agent": true,
"reasoning": "任务需要先收集两款手机的拍照参数、价格和评测信息，再基于收集结果进行对比分析并给出推荐。信息收集阶段可部分并行，但最终推荐依赖前序结果。不确定因素包括可获取的评测数据和对比维度。终止条件为输出明确推荐及依据。"
}

用户：
登录邮箱并下载最近一封带附件的邮件

输出：

{
"need_agent": true,
"reasoning": "任务需要依次完成登录邮箱、进入收件箱、识别最近带附件的邮件、下载附件等步骤。后续步骤依赖前一步执行结果。运行过程中可能涉及页面结构变化、身份验证和下载路径等动态因素。终止条件为附件成功下载并返回结果。"
}
"#;

/// The system prompt of intent recognition: it asks for
/// `{"need_agent": bool, "reasoning": "..."}`.
pub fn intent_system_prompt() -> (r: &'static str)
    ensures
        r@ == INTENT_SYSTEM_PROMPT@,
{
    INTENT_SYSTEM_PROMPT
}

/// The content of the last user message, or the empty text when there is none.
pub open spec fn last_user_content(msgs: Seq<ChatMessage>) -> Seq<char>
    decreases msgs.len(),
{
    if msgs.len() == 0 {
        Seq::empty()
    } else if msgs.last().role == Role::User {
        msgs.last().content@
    } else {
        last_user_content(msgs.drop_last())
    }
}

/// The content of the last user message (empty when there is none).
pub fn extract_user_request(messages: &[ChatMessage]) -> (r: String)
    ensures
        r@ == last_user_content(messages@),
{
    let mut k: usize = messages.len();
    assert(messages@.take(k as int) =~= messages@);
    while k > 0
        invariant
            k <= messages.len(),
            last_user_content(messages@) == last_user_content(messages@.take(k as int)),
        decreases k,
    {
        assert(messages@.take(k as int).drop_last() =~= messages@.take(k - 1));
        assert(messages@.take(k as int).last() == messages@[k - 1]);
        if messages[k - 1].role == Role::User {
            return messages[k - 1].content.clone();
        }
        k -= 1;
    }
    assert(messages@.take(0).len() == 0);
    String::new()
}

/// The user message of intent recognition: `【用户请求】` and the request.
pub fn build_intent_user_message(user_request: &str) -> (r: String)
    ensures
        r@ == "【用户请求】\n"@ + user_request@,
{
    let mut r = owned("【用户请求】\n");
    r.append(user_request);
    r
}

/// What an intent reply yields: `(need_agent, reasoning)` with the reasoning
/// trimmed, or the message of the first problem.
pub open spec fn spec_parse_intent(response: Seq<char>) -> Result<(bool, Seq<char>), Seq<char>> {
    match json_parse(json_span(response)) {
        Err(e) => Err("Failed to parse intent JSON: "@ + e),
        Ok(j) => intent_of_value(j),
    }
}

/// The intent a parsed reply describes (see [`spec_parse_intent`]).
pub open spec fn intent_of_value(j: JsonModel) -> Result<(bool, Seq<char>), Seq<char>> {
    if !(j is Object) {
        Err("Invalid intent JSON: expected object"@)
    } else {
        match obj_get(j, "need_agent"@) {
            Some(JsonModel::Bool(b)) => match obj_get(j, "reasoning"@) {
                Some(JsonModel::Str(s)) => if trim(s).len() > 0 {
                    Ok((b, trim(s)))
                } else {
                    Err("reasoning must be a non-empty string"@)
                },
                _ => Err("reasoning must be a non-empty string"@),
            },
            _ => Err("need_agent must be a boolean"@),
        }
    }
}

/// Parses the intent reply of an LLM.
///
/// The JSON may be wrapped in Markdown or other text: the part from the first
/// `{` to the last `}` is parsed. `need_agent` must be a boolean and
/// `reasoning` a string that is not blank; the reasoning is trimmed.
pub fn parse_intent_response(response: &str) -> (r: Result<IntentResponse, LlmError>)
    ensures
        match spec_parse_intent(response@) {
            Ok((b, s)) => r matches Ok(x) && x.need_agent == b && x.reasoning@ == s,
            Err(m) => r matches Err(LlmError::ParseError(e)) && e@ == m,
        },
{
    let text = extract_json_span(response);
    match parse_json(text.as_str()) {
        Ok(v) => intent_from_value(&v),
        Err(e) => {
            let mut m = owned("Failed to parse intent JSON: ");
            m.append(e.as_str());
            Err(LlmError::ParseError(m))
        },
    }
}

/// Reads an intent from a parsed reply (see [`intent_of_value`]).
pub fn intent_from_value(value: &Value) -> (r: Result<IntentResponse, LlmError>)
    ensures
        match intent_of_value(json_view(*value)) {
            Ok((b, s)) => r matches Ok(x) && x.need_agent == b && x.reasoning@ == s,
            Err(m) => r matches Err(LlmError::ParseError(e)) && e@ == m,
        },
{
    if !json_is_object(value) {
        return Err(LlmError::ParseError(owned("Invalid intent JSON: expected object")));
    }
    let need_agent = match json_get(value, "need_agent") {
        Some(x) => match json_as_bool(x) {
            Some(b) => b,
            None => return Err(LlmError::ParseError(owned("need_agent must be a boolean"))),
        },
        None => return Err(LlmError::ParseError(owned("need_agent must be a boolean"))),
    };
    let reasoning = match json_get(value, "reasoning") {
        Some(x) => match json_as_str(x) {
            Some(s) => {
                let t = trimmed(s);
                if t.as_str().is_empty() {
                    return Err(LlmError::ParseError(owned("reasoning must be a non-empty string")));
                }
                t
            },
            None => return Err(LlmError::ParseError(owned("reasoning must be a non-empty string"))),
        },
        None => return Err(LlmError::ParseError(owned("reasoning must be a non-empty string"))),
    };
    Ok(IntentResponse { need_agent, reasoning })
}

} // verus!
