//! Shared types of the LLM layer: chat messages, roles, tool definitions,
//! step types and content block types.
use vstd::prelude::*;
use serde_json::Value;
use crate::json::{JsonModel, json_view};
use crate::plans::{PlanStep, PlanStepView, steps_view};
use crate::text::{owned, to_chars, chars_eq};

verus! {

/// How a plan step is carried out.
///
/// - `Deterministic`: the tools and parameters are known when planning.
/// - `Reasoning`: the LLM produces the result from the context, no tools.
/// - `Exploratory`: the tools are chosen at run time (ReAct).
#[derive(Debug, Clone, Copy, PartialEq, Eq, Structural)]
pub enum StepType {
    Deterministic,
    Reasoning,
    Exploratory,
}

/// The snake-case name of a step type (its JSON form).
pub open spec fn step_type_name(t: StepType) -> Seq<char> {
    match t {
        StepType::Deterministic => "deterministic"@,
        StepType::Reasoning => "reasoning"@,
        StepType::Exploratory => "exploratory"@,
    }
}

impl StepType {
    /// The snake-case name of the step type.
    pub fn as_str(&self) -> (r: &'static str)
        ensures
            r@ == step_type_name(*self),
    {
        match self {
            StepType::Deterministic => "deterministic",
            StepType::Reasoning => "reasoning",
            StepType::Exploratory => "exploratory",
        }
    }
}

/// The author of a chat message.
#[derive(Debug, Clone, Copy, PartialEq, Eq, Structural)]
pub enum Role {
    System,
    User,
    Assistant,
    /// The result of a tool call.
    Tool,
}

/// The role named by `s`; any other text is the user role.
pub open spec fn role_of(s: Seq<char>) -> Role {
    if s == "system"@ {
        Role::System
    } else if s == "user"@ {
        Role::User
    } else if s == "assistant"@ {
        Role::Assistant
    } else if s == "tool"@ {
        Role::Tool
    } else {
        Role::User
    }
}

impl Role {
    /// Reads a role from its lowercase name; unknown names give `User`.
    pub fn from_str(s: &str) -> (r: Role)
        ensures
            r == role_of(s@),
    {
        let v = to_chars(s);
        if chars_eq(&v, &to_chars("system")) {
            Role::System
        } else if chars_eq(&v, &to_chars("user")) {
            Role::User
        } else if chars_eq(&v, &to_chars("assistant")) {
            Role::Assistant
        } else if chars_eq(&v, &to_chars("tool")) {
            Role::Tool
        } else {
            Role::User
        }
    }
}

/// A tool call made by the assistant; the arguments are JSON text.
#[derive(Debug, Clone)]
pub struct ToolCallItem {
    pub id: String,
    pub name: String,
    pub arguments: String,
}

/// A chat message.
#[derive(Debug, Clone)]
pub struct ChatMessage {
    pub role: Role,
    pub content: String,
    /// The tool call answered (role `Tool` only).
    pub tool_call_id: Option<String>,
    /// The tool's name (role `Tool` only).
    pub name: Option<String>,
    /// The tool calls of an assistant message.
    pub tool_calls: Option<Vec<ToolCallItem>>,
}

impl ChatMessage {
    /// A plain message.
    pub fn new(role: Role, content: &str) -> (r: ChatMessage)
        ensures
            r.role == role,
            r.content@ == content@,
            r.tool_call_id is None,
            r.name is None,
            r.tool_calls is None,
    {
        ChatMessage { role, content: owned(content), tool_call_id: None, name: None, tool_calls: None }
    }

    /// The message that carries a tool's result.
    pub fn tool_result(call_id: &str, name: &str, content: &str) -> (r: ChatMessage)
        ensures
            r.role == Role::Tool,
            r.content@ == content@,
            r.tool_call_id matches Some(i) && i@ == call_id@,
            r.name matches Some(n) && n@ == name@,
            r.tool_calls is None,
    {
        ChatMessage {
            role: Role::Tool,
            content: owned(content),
            tool_call_id: Some(owned(call_id)),
            name: Some(owned(name)),
            tool_calls: None,
        }
    }
}

/// A function the model may call: name, description and JSON-Schema
/// parameters.
#[derive(Debug)]
pub struct FunctionDefinition {
    pub name: String,
    pub description: Option<String>,
    pub parameters: Value,
}

/// A tool definition in OpenAI's function-calling form.
#[derive(Debug)]
pub struct ToolDefinition {
    /// Always `function`.
    pub tool_type: String,
    pub function: FunctionDefinition,
}

impl ToolDefinition {
    /// The definition of an MCP tool.
    pub fn from_mcp(name: &str, description: Option<&str>, input_schema: Value) -> (r: ToolDefinition)
        ensures
            r.tool_type@ == "function"@,
            r.function.name@ == name@,
            match description {
                Some(d) => r.function.description matches Some(x) && x@ == d@,
                None => r.function.description is None,
            },
            r.function.parameters == input_schema,
    {
        let description = match description {
            Some(d) => Some(owned(d)),
            None => None,
        };
        ToolDefinition {
            tool_type: owned("function"),
            function: FunctionDefinition { name: owned(name), description, parameters: input_schema },
        }
    }
}

/// A parsed function call.
#[derive(Debug)]
pub struct FunctionCall {
    pub id: String,
    pub name: String,
    pub arguments: Value,
}

/// A tool call with its outcome.
#[derive(Debug, Clone)]
pub struct ToolCallRecord {
    pub call_id: String,
    pub name: String,
    pub arguments: Value,
    pub result: Option<Value>,
    pub success: bool,
}

impl ToolCallRecord {
    /// The record of a call that has not run yet.
    pub fn from_call(call: FunctionCall) -> (r: ToolCallRecord)
        ensures
            r.call_id == call.id,
            r.name == call.name,
            r.arguments == call.arguments,
            r.result is None,
            !r.success,
    {
        ToolCallRecord { call_id: call.id, name: call.name, arguments: call.arguments, result: None, success: false }
    }

    /// The call behind the record.
    pub fn into_call(self) -> (r: FunctionCall)
        ensures
            r.id == self.call_id,
            r.name == self.name,
            r.arguments == self.arguments,
    {
        FunctionCall { id: self.call_id, name: self.name, arguments: self.arguments }
    }
}

/// The result of intent recognition with its plan.
#[derive(Debug)]
pub struct IntentPlan {
    /// Whether the request needs the multi-step agent.
    pub need_agent: bool,
    /// Why.
    pub reasoning: String,
    pub steps: Vec<PlanStep>,
}

impl IntentPlan {
    /// A plain conversation: no agent, no steps.
    pub fn simple() -> (r: IntentPlan)
        ensures
            !r.need_agent,
            r.reasoning@ == "简单对话，无需工具调用"@,
            r.steps@.len() == 0,
    {
        IntentPlan { need_agent: false, reasoning: owned("简单对话，无需工具调用"), steps: Vec::new() }
    }

    /// An agent plan with the given steps.
    pub fn agent(steps: Vec<PlanStep>, reasoning: &str) -> (r: IntentPlan)
        ensures
            r.need_agent,
            r.reasoning@ == reasoning@,
            r.steps == steps,
    {
        IntentPlan { need_agent: true, reasoning: owned(reasoning), steps }
    }
}

/// The provider and credentials chosen by the front end.
#[derive(Debug, Clone)]
pub enum ProviderConfigPayload {
    OpenAiCompatible { base_url: String, api_key: String },
    Anthropic { api_key: String },
    Ollama { base_url: String },
}

/// The kind of a content block.
#[derive(Debug, Clone, Copy, PartialEq, Eq, Structural)]
pub enum BlockType {
    Text,
    Thinking,
    Tool,
}

/// The name of a block type.
pub open spec fn block_type_name(b: BlockType) -> Seq<char> {
    match b {
        BlockType::Text => "text"@,
        BlockType::Thinking => "thinking"@,
        BlockType::Tool => "tool"@,
    }
}

/// Whether `c` lowercases (`char::to_lowercase`) to the ASCII lowercase
/// letter `t`: `t` itself, its capital, or for `k` the Kelvin sign.
pub open spec fn lowers_to(c: char, t: char) -> bool {
    ||| c == t
    ||| (('a' as u32) <= (t as u32) <= ('z' as u32) && (c as u32) == (t as u32) - 32)
    ||| (t == 'k' && (c as u32) == 0x212a)
}

/// Whether `s.to_lowercase()` equals the lowercase ASCII word `t`.
pub open spec fn lowercase_eq(s: Seq<char>, t: Seq<char>) -> bool {
    s.len() == t.len() && forall|i: int| 0 <= i < s.len() ==> lowers_to(#[trigger] s[i], t[i])
}

/// The block type named by `s`, ignoring case; unknown names give `Text`.
pub open spec fn block_type_of(s: Seq<char>) -> BlockType {
    if lowercase_eq(s, "text"@) {
        BlockType::Text
    } else if lowercase_eq(s, "thinking"@) {
        BlockType::Thinking
    } else if lowercase_eq(s, "tool"@) {
        BlockType::Tool
    } else {
        BlockType::Text
    }
}

/// Whether `c` lowercases to the ASCII lowercase letter `t`.
pub(crate) fn lowers_to_exec(c: char, t: char) -> (r: bool)
    ensures
        r == lowers_to(c, t),
{
    let cu = c as u32;
    let tu = t as u32;
    cu == tu || ((97 <= tu && tu <= 122) && cu == tu - 32) || (t == 'k' && cu == 0x212a)
}

/// Whether `s` lowercases to the lowercase ASCII word `t`.
pub(crate) fn lowercase_eq_exec(s: &Vec<char>, t: &str) -> (r: bool)
    ensures
        r == lowercase_eq(s@, t@),
{
    let tv = to_chars(t);
    if s.len() != tv.len() {
        return false;
    }
    let mut i: usize = 0;
    while i < s.len()
        invariant
            i <= s.len(),
            s.len() == tv.len(),
            tv@ == t@,
            forall|j: int| 0 <= j < i ==> lowers_to(#[trigger] s@[j], t@[j]),
        decreases s.len() - i,
    {
        if !lowers_to_exec(s[i], tv[i]) {
            return false;
        }
        i += 1;
    }
    true
}

impl BlockType {
    /// The name of the block type.
    pub fn as_str(&self) -> (r: &'static str)
        ensures
            r@ == block_type_name(*self),
    {
        match self {
            BlockType::Text => "text",
            BlockType::Thinking => "thinking",
            BlockType::Tool => "tool",
        }
    }

    /// Reads a block type from its name, ignoring case; unknown names give
    /// `Text`.
    pub fn from_str(s: &str) -> (r: BlockType)
        ensures
            r == block_type_of(s@),
    {
        let v = to_chars(s);
        if lowercase_eq_exec(&v, "text") {
            BlockType::Text
        } else if lowercase_eq_exec(&v, "thinking") {
            BlockType::Thinking
        } else if lowercase_eq_exec(&v, "tool") {
            BlockType::Tool
        } else {
            BlockType::Text
        }
    }
}

/// Law: a block type's name reads back as the same block type.
pub proof fn law_block_type_roundtrip(b: BlockType)
    ensures
        block_type_of(block_type_name(b)) == b,
{
    reveal_strlit("text");
    reveal_strlit("thinking");
    reveal_strlit("tool");
    match b {
        BlockType::Text => {
            assert(lowercase_eq("text"@, "text"@));
        },
        BlockType::Thinking => {
            assert(lowercase_eq("thinking"@, "thinking"@));
            assert(!lowercase_eq("thinking"@, "text"@));
        },
        BlockType::Tool => {
            assert(lowercase_eq("tool"@, "tool"@));
            assert(!lowers_to("tool"@[1], "text"@[1]));
            assert(!lowercase_eq("tool"@, "text"@));
            assert(!lowercase_eq("tool"@, "thinking"@));
        },
    }
}

} // verus!
