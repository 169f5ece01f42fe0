//! What the model providers send and read besides the stream: the message
//! lists of each provider's request, the model to use, and the text of a
//! whole reply.
use vstd::prelude::*;
use vstd::string::StringExecFns;
use serde_json::Value;
use crate::error::LlmError;
use crate::json::{JsonModel, json_parse, parse_json, json_as_array, json_as_str, json_empty_object, json_get, json_insert_str, json_view, obj_get, views};
use crate::intent_prompt::{build_intent_user_message, extract_user_request, intent_system_prompt, last_user_content, INTENT_SYSTEM_PROMPT};
use crate::plans::{build_plans_user_message, plans_system_prompt, PLANS_SYSTEM_PROMPT};
use crate::text::{join, join_strings, owned, to_chars, string_of};
use crate::types::{ChatMessage, Role, ToolCallItem, role_of};

verus! {

// ---------------------------------------------------------------------------
// Copies of messages
// ---------------------------------------------------------------------------

/// A message as plain data.
pub open spec fn message_view(m: ChatMessage) -> (Role, Seq<char>, Option<Seq<char>>, Option<Seq<char>>, Option<Seq<(Seq<char>, Seq<char>, Seq<char>)>>) {
    (
        m.role,
        m.content@,
        match m.tool_call_id {
            Some(s) => Some(s@),
            None => None,
        },
        match m.name {
            Some(s) => Some(s@),
            None => None,
        },
        match m.tool_calls {
            Some(items) => Some(items@.map_values(|t: ToolCallItem| (t.id@, t.name@, t.arguments@))),
            None => None,
        },
    )
}

fn copy_opt_string(o: &Option<String>) -> (r: Option<String>)
    ensures
        match (r, *o) {
            (Some(a), Some(b)) => a@ == b@,
            (None, None) => true,
            _ => false,
        },
{
    match o {
        Some(s) => Some(owned(s.as_str())),
        None => None,
    }
}

/// A copy of a message.
pub fn copy_message(m: &ChatMessage) -> (r: ChatMessage)
    ensures
        message_view(r) == message_view(*m),
{
    let tool_calls = match &m.tool_calls {
        Some(items) => {
            let mut out: Vec<ToolCallItem> = Vec::new();
            let mut i: usize = 0;
            while i < items.len()
                invariant
                    i <= items@.len(),
                    out@.map_values(|t: ToolCallItem| (t.id@, t.name@, t.arguments@)) == items@.take(i as int).map_values(
                        |t: ToolCallItem| (t.id@, t.name@, t.arguments@),
                    ),
                decreases items.len() - i,
            {
                let it = &items[i];
                let c = ToolCallItem { id: owned(it.id.as_str()), name: owned(it.name.as_str()), arguments: owned(it.arguments.as_str()) };
                let ghost before = out@;
                out.push(c);
                assert(items@.take(i + 1) =~= items@.take(i as int).push(items@[i as int]));
                assert(out@.map_values(|t: ToolCallItem| (t.id@, t.name@, t.arguments@)) =~= before.map_values(
                    |t: ToolCallItem| (t.id@, t.name@, t.arguments@),
                ).push((it.id@, it.name@, it.arguments@)));
                i += 1;
            }
            assert(items@.take(i as int) =~= items@);
            Some(out)
        },
        None => None,
    };
    ChatMessage {
        role: m.role,
        content: owned(m.content.as_str()),
        tool_call_id: copy_opt_string(&m.tool_call_id),
        name: copy_opt_string(&m.name),
        tool_calls,
    }
}

// ---------------------------------------------------------------------------
// The model
// ---------------------------------------------------------------------------

/// The model to use: the configured one, else the provider's default; the
/// error says what lacks a model.
pub fn model_or_default(model: &str, provider_default: Option<&str>, missing: &str) -> (r: Result<String, LlmError>)
    ensures
        model@.len() > 0 ==> (r matches Ok(m) && m@ == model@),
        model@.len() == 0 && provider_default is Some ==> (r matches Ok(m) && m@ == provider_default.unwrap()@),
        model@.len() == 0 && provider_default is None ==> (r matches Err(LlmError::Config(m)) && m@ == missing@),
{
    if model.is_empty() {
        match provider_default {
            Some(d) => Ok(owned(d)),
            None => Err(LlmError::Config(owned(missing))),
        }
    } else {
        Ok(owned(model))
    }
}

// ---------------------------------------------------------------------------
// Analyzer requests
// ---------------------------------------------------------------------------

/// The messages of an intent request: the intent prompt, then the last
/// user request.
pub fn intent_request_messages(messages: &[ChatMessage]) -> (r: Vec<ChatMessage>)
    ensures
        r@.len() == 2,
        r@[0].role == Role::System && r@[0].content@ == INTENT_SYSTEM_PROMPT@,
        r@[1].role == Role::User && r@[1].content@ == "【用户请求】\n"@ + last_user_content(messages@),
{
    let request = extract_user_request(messages);
    let user = build_intent_user_message(request.as_str());
    let mut out: Vec<ChatMessage> = Vec::new();
    out.push(ChatMessage::new(Role::System, intent_system_prompt()));
    out.push(ChatMessage::new(Role::User, user.as_str()));
    out
}

/// The messages of a plan request: the plan prompt, then the content to
/// plan for.
pub fn plan_request_messages(content: &str) -> (r: Vec<ChatMessage>)
    ensures
        r@.len() == 2,
        r@[0].role == Role::System && r@[0].content@ == PLANS_SYSTEM_PROMPT@,
        r@[1].role == Role::User && r@[1].content@ == content@,
{
    let user = build_plans_user_message(content);
    let mut out: Vec<ChatMessage> = Vec::new();
    out.push(ChatMessage::new(Role::System, plans_system_prompt()));
    out.push(ChatMessage::new(Role::User, user.as_str()));
    out
}

// ---------------------------------------------------------------------------
// Anthropic
// ---------------------------------------------------------------------------

/// The Anthropic name of a role; system messages go in a field of their
/// own, and tool results travel as user messages.
pub fn anthropic_role(r: Role) -> (res: Result<&'static str, LlmError>)
    ensures
        r == Role::System ==> (res matches Err(LlmError::Config(m)) && m@
            == "Anthropic expects system as top-level field; split in provider"@),
        r == Role::User ==> (res matches Ok(s) && s@ == "user"@),
        r == Role::Assistant ==> (res matches Ok(s) && s@ == "assistant"@),
        r == Role::Tool ==> (res matches Ok(s) && s@ == "user"@),
{
    match r {
        Role::System => Err(LlmError::Config(owned("Anthropic expects system as top-level field; split in provider"))),
        Role::User => Ok("user"),
        Role::Assistant => Ok("assistant"),
        Role::Tool => Ok("user"),
    }
}

/// The non-empty system texts of a conversation.
pub open spec fn system_parts(msgs: Seq<ChatMessage>) -> Seq<Seq<char>>
    decreases msgs.len(),
{
    if msgs.len() == 0 {
        Seq::empty()
    } else {
        let rest = system_parts(msgs.drop_last());
        if msgs.last().role == Role::System && msgs.last().content@.len() > 0 {
            rest.push(msgs.last().content@)
        } else {
            rest
        }
    }
}

/// The messages other than system messages, in order.
pub open spec fn non_system(msgs: Seq<ChatMessage>) -> Seq<ChatMessage>
    decreases msgs.len(),
{
    if msgs.len() == 0 {
        Seq::empty()
    } else {
        let rest = non_system(msgs.drop_last());
        if msgs.last().role == Role::System {
            rest
        } else {
            rest.push(msgs.last())
        }
    }
}

/// Splits the system messages off: their non-empty texts joined by a blank
/// line (none when there are none), and the other messages.
pub fn split_system(messages: &[ChatMessage]) -> (r: (Option<String>, Vec<ChatMessage>))
    ensures
        system_parts(messages@).len() == 0 ==> r.0 is None,
        system_parts(messages@).len() > 0 ==> (r.0 matches Some(s) && s@ == join(system_parts(messages@), "\n\n"@)),
        r.1@.map_values(|m: ChatMessage| message_view(m)) == non_system(messages@).map_values(|m: ChatMessage| message_view(m)),
{
    let mut parts: Vec<String> = Vec::new();
    let mut rest: Vec<ChatMessage> = Vec::new();
    let mut i: usize = 0;
    while i < messages.len()
        invariant
            i <= messages@.len(),
            parts@.map_values(|s: String| s@) == system_parts(messages@.take(i as int)),
            rest@.map_values(|m: ChatMessage| message_view(m)) == non_system(messages@.take(i as int)).map_values(
                |m: ChatMessage| message_view(m),
            ),
        decreases messages.len() - i,
    {
        let m = &messages[i];
        let ghost t = messages@.take(i + 1);
        assert(t.drop_last() =~= messages@.take(i as int));
        assert(t.last() == messages@[i as int]);
        let ghost pv = parts@.map_values(|s: String| s@);
        let ghost rv = rest@.map_values(|m: ChatMessage| message_view(m));
        match m.role {
            Role::System => {
                if !m.content.as_str().is_empty() {
                    parts.push(owned(m.content.as_str()));
                    assert(parts@.map_values(|s: String| s@) =~= pv.push(m.content@));
                }
            },
            _ => {
                let c = copy_message(m);
                rest.push(c);
                assert(rest@.map_values(|m: ChatMessage| message_view(m)) =~= rv.push(message_view(*m)));
                assert(non_system(t).map_values(|m: ChatMessage| message_view(m)) =~= non_system(
                    messages@.take(i as int),
                ).map_values(|m: ChatMessage| message_view(m)).push(message_view(*m)));
            },
        }
        i += 1;
    }
    assert(messages@.take(i as int) =~= messages@);
    let system = if parts.len() == 0 {
        None
    } else {
        Some(join_strings(parts.as_slice(), "\n\n"))
    };
    (system, rest)
}

/// Whether `j` is exactly the object `{"role": role, "content": content}`.
pub open spec fn role_content_object(j: JsonModel, role: Seq<char>, content: Seq<char>) -> bool {
    &&& j is Object
    &&& forall|key: Seq<char>| #[trigger] obj_get(j, key) == (if key == "role"@ {
        Some(JsonModel::Str(role))
    } else if key == "content"@ {
        Some(JsonModel::Str(content))
    } else {
        None
    })
}

/// The Anthropic name of a role other than the system role.
pub open spec fn anthropic_role_name(r: Role) -> Seq<char> {
    if r == Role::Assistant {
        "assistant"@
    } else {
        "user"@
    }
}

/// `{"role": role, "content": content}`.
fn role_content_value(role: &str, content: &str) -> (r: Value)
    ensures
        role_content_object(json_view(r), role@, content@),
{
    let mut obj = json_empty_object();
    json_insert_str(&mut obj, "role", role);
    json_insert_str(&mut obj, "content", content);
    proof {
        reveal_strlit("role");
        reveal_strlit("content");
        assert("role"@.len() != "content"@.len());
    }
    obj
}

/// The messages of an Anthropic request: `{"role": .., "content": ..}` per
/// message; a system message among them is an error.
pub fn anthropic_messages(messages: &[ChatMessage]) -> (r: Result<Vec<Value>, LlmError>)
    ensures
        (exists|k: int| 0 <= k < messages@.len() && #[trigger] messages@[k].role == Role::System) <==> r is Err,
        r matches Ok(v) ==> v@.len() == messages@.len() && forall|k: int| 0 <= k < messages@.len() ==> role_content_object(
            json_view(#[trigger] v@[k]),
            anthropic_role_name(messages@[k].role),
            messages@[k].content@,
        ),
{
    let mut out: Vec<Value> = Vec::new();
    let mut i: usize = 0;
    while i < messages.len()
        invariant
            i <= messages@.len(),
            out@.len() == i,
            forall|k: int| 0 <= k < i ==> #[trigger] messages@[k].role != Role::System,
            forall|k: int| 0 <= k < i ==> role_content_object(
                json_view(#[trigger] out@[k]),
                anthropic_role_name(messages@[k].role),
                messages@[k].content@,
            ),
        decreases messages.len() - i,
    {
        let m = &messages[i];
        let role = match anthropic_role(m.role) {
            Ok(r) => r,
            Err(e) => {
                assert(messages@[i as int].role == Role::System);
                return Err(e);
            },
        };
        proof {
            reveal_strlit("user");
            reveal_strlit("assistant");
        }
        assert(role@ == anthropic_role_name(m.role));
        let obj = role_content_value(role, m.content.as_str());
        out.push(obj);
        i += 1;
    }
    Ok(out)
}

/// The text of a whole Anthropic reply: `content[0].text`; an empty text
/// is an error.
pub open spec fn anthropic_reply(j: JsonModel) -> Option<Seq<char>> {
    match obj_get(j, "content"@) {
        Some(JsonModel::Array(items)) => if items.len() > 0 {
            match obj_get(items[0], "text"@) {
                Some(JsonModel::Str(s)) => if s.len() > 0 {
                    Some(s)
                } else {
                    None
                },
                _ => None,
            }
        } else {
            None
        },
        _ => None,
    }
}

/// Reads the text of a whole Anthropic reply (see [`anthropic_reply`]).
pub fn anthropic_reply_text(v: &Value) -> (r: Result<String, LlmError>)
    ensures
        match anthropic_reply(json_view(*v)) {
            Some(s) => r matches Ok(t) && t@ == s,
            None => r matches Err(LlmError::EmptyResponse),
        },
{
    let items = match json_get(v, "content") {
        Some(c) => match json_as_array(c) {
            Some(a) => a,
            None => return Err(LlmError::EmptyResponse),
        },
        None => return Err(LlmError::EmptyResponse),
    };
    if items.len() == 0 {
        return Err(LlmError::EmptyResponse);
    }
    assert(views(items@)[0] == json_view(items@[0]));
    match json_get(&items[0], "text") {
        Some(t) => match json_as_str(t) {
            Some(s) => if s.is_empty() {
                Err(LlmError::EmptyResponse)
            } else {
                Ok(owned(s))
            },
            None => Err(LlmError::EmptyResponse),
        },
        None => Err(LlmError::EmptyResponse),
    }
}

// ---------------------------------------------------------------------------
// Ollama
// ---------------------------------------------------------------------------

/// `base` without trailing slashes.
pub open spec fn trim_slashes(s: Seq<char>) -> Seq<char>
    decreases s.len(),
{
    if s.len() > 0 && s.last() == '/' {
        trim_slashes(s.drop_last())
    } else {
        s
    }
}

/// The URL of `path` on the server at `base`: `base` without trailing
/// slashes, then `path`.
pub fn join_url(base: &str, path: &str) -> (r: String)
    ensures
        r@ == trim_slashes(base@) + path@,
{
    let v = to_chars(base);
    let mut k = v.len();
    assert(v@.take(k as int) =~= v@);
    while k > 0 && v[k - 1] == '/'
        invariant
            k <= v@.len(),
            trim_slashes(v@) == trim_slashes(v@.take(k as int)),
        decreases k,
    {
        assert(v@.take(k as int).drop_last() =~= v@.take(k - 1));
        k -= 1;
    }
    let mut r = string_of(&v, 0, k);
    assert(r@ =~= v@.take(k as int));
    r.append(path);
    r
}

/// The lowercase name of a role.
pub open spec fn role_name(r: Role) -> Seq<char> {
    match r {
        Role::System => "system"@,
        Role::User => "user"@,
        Role::Assistant => "assistant"@,
        Role::Tool => "tool"@,
    }
}

/// The Ollama name of a role (see [`role_name`]).
pub fn role_str(r: Role) -> (s: &'static str)
    ensures
        s@ == role_name(r),
{
    match r {
        Role::System => "system",
        Role::User => "user",
        Role::Assistant => "assistant",
        Role::Tool => "tool",
    }
}

/// Reading a role's name gives the role back.
pub proof fn law_role_name_roundtrip(r: Role)
    ensures
        role_of(role_name(r)) == r,
{
    reveal_strlit("system");
    reveal_strlit("user");
    reveal_strlit("assistant");
    reveal_strlit("tool");
    assert("user"@.len() != "system"@.len());
    assert("assistant"@.len() != "system"@.len() && "assistant"@.len() != "user"@.len());
    assert("tool"@.len() != "system"@.len() && "tool"@.len() != "assistant"@.len());
    assert("tool"@[0] != "user"@[0]);
}

/// The messages of an Ollama request: `{"role": .., "content": ..}` per
/// message.
pub fn ollama_messages(messages: &[ChatMessage]) -> (r: Vec<Value>)
    ensures
        r@.len() == messages@.len(),
        forall|k: int| 0 <= k < messages@.len() ==> role_content_object(
            json_view(#[trigger] r@[k]),
            role_name(messages@[k].role),
            messages@[k].content@,
        ),
{
    let mut out: Vec<Value> = Vec::new();
    let mut i: usize = 0;
    while i < messages.len()
        invariant
            i <= messages@.len(),
            out@.len() == i,
            forall|k: int| 0 <= k < i ==> role_content_object(
                json_view(#[trigger] out@[k]),
                role_name(messages@[k].role),
                messages@[k].content@,
            ),
        decreases messages.len() - i,
    {
        let m = &messages[i];
        let obj = role_content_value(role_str(m.role), m.content.as_str());
        out.push(obj);
        i += 1;
    }
    out
}

/// The text of a whole Ollama reply: `message.content`; an empty text is
/// an error.
pub open spec fn ollama_reply(j: JsonModel) -> Option<Seq<char>> {
    match obj_get(j, "message"@) {
        Some(m) => match obj_get(m, "content"@) {
            Some(JsonModel::Str(s)) => if s.len() > 0 {
                Some(s)
            } else {
                None
            },
            _ => None,
        },
        None => None,
    }
}

/// Reads the text of a whole Ollama reply (see [`ollama_reply`]).
pub fn ollama_reply_text(v: &Value) -> (r: Result<String, LlmError>)
    ensures
        match ollama_reply(json_view(*v)) {
            Some(s) => r matches Ok(t) && t@ == s,
            None => r matches Err(LlmError::EmptyResponse),
        },
{
    match json_get(v, "message") {
        Some(m) => match json_get(m, "content") {
            Some(c) => match json_as_str(c) {
                Some(s) => if s.is_empty() {
                    Err(LlmError::EmptyResponse)
                } else {
                    Ok(owned(s))
                },
                None => Err(LlmError::EmptyResponse),
            },
            None => Err(LlmError::EmptyResponse),
        },
        None => Err(LlmError::EmptyResponse),
    }
}

// ---------------------------------------------------------------------------
// OpenAI-compatible
// ---------------------------------------------------------------------------

/// The messages sent to an OpenAI-compatible server: tool results are left
/// out, and an assistant message with tool calls but no text says
/// `[tool_calls]`.
pub open spec fn openai_plan(msgs: Seq<ChatMessage>) -> Seq<(Role, Seq<char>)>
    decreases msgs.len(),
{
    if msgs.len() == 0 {
        Seq::empty()
    } else {
        let rest = openai_plan(msgs.drop_last());
        let m = msgs.last();
        if m.role == Role::Tool {
            rest
        } else if m.role == Role::Assistant && m.content@.len() == 0 && m.tool_calls is Some {
            rest.push((m.role, "[tool_calls]"@))
        } else {
            rest.push((m.role, m.content@))
        }
    }
}

/// The role and text of each message an OpenAI-compatible server gets (see
/// [`openai_plan`]).
pub fn openai_messages(messages: &[ChatMessage]) -> (r: Vec<(Role, String)>)
    ensures
        r@.map_values(|p: (Role, String)| (p.0, p.1@)) == openai_plan(messages@),
{
    let mut out: Vec<(Role, String)> = Vec::new();
    let mut i: usize = 0;
    while i < messages.len()
        invariant
            i <= messages@.len(),
            out@.map_values(|p: (Role, String)| (p.0, p.1@)) == openai_plan(messages@.take(i as int)),
        decreases messages.len() - i,
    {
        let m = &messages[i];
        let ghost t = messages@.take(i + 1);
        assert(t.drop_last() =~= messages@.take(i as int));
        assert(t.last() == messages@[i as int]);
        let ghost before = out@.map_values(|p: (Role, String)| (p.0, p.1@));
        match m.role {
            Role::Tool => {},
            Role::Assistant => {
                let text = if !m.content.as_str().is_empty() {
                    owned(m.content.as_str())
                } else if m.tool_calls.is_some() {
                    owned("[tool_calls]")
                } else {
                    let e = String::new();
                    assert(e@ =~= m.content@);
                    e
                };
                let ghost tv = text@;
                assert(openai_plan(t) == openai_plan(messages@.take(i as int)).push((Role::Assistant, tv)));
                out.push((Role::Assistant, text));
                assert(out@.map_values(|p: (Role, String)| (p.0, p.1@)) =~= before.push((Role::Assistant, tv)));
            },
            _ => {
                let text = owned(m.content.as_str());
                let ghost tv = text@;
                out.push((m.role, text));
                assert(out@.map_values(|p: (Role, String)| (p.0, p.1@)) =~= before.push((m.role, tv)));
            },
        }
        i += 1;
    }
    assert(messages@.take(i as int) =~= messages@);
    out
}

/// Reads the body of a whole Anthropic reply: text that is not JSON is a
/// JSON error with the parser's message; otherwise see [`anthropic_reply`].
pub fn anthropic_reply_of(text: &str) -> (r: Result<String, LlmError>)
    ensures
        match json_parse(text@) {
            Err(m) => r matches Err(LlmError::Json(e)) && e@ == m,
            Ok(j) => match anthropic_reply(j) {
                Some(s) => r matches Ok(t) && t@ == s,
                None => r matches Err(LlmError::EmptyResponse),
            },
        },
{
    match parse_json(text) {
        Ok(v) => anthropic_reply_text(&v),
        Err(m) => Err(LlmError::Json(m)),
    }
}

/// Reads the body of a whole Ollama reply: text that is not JSON is a JSON
/// error with the parser's message; otherwise see [`ollama_reply`].
pub fn ollama_reply_of(text: &str) -> (r: Result<String, LlmError>)
    ensures
        match json_parse(text@) {
            Err(m) => r matches Err(LlmError::Json(e)) && e@ == m,
            Ok(j) => match ollama_reply(j) {
                Some(s) => r matches Ok(t) && t@ == s,
                None => r matches Err(LlmError::EmptyResponse),
            },
        },
{
    match parse_json(text) {
        Ok(v) => ollama_reply_text(&v),
        Err(m) => Err(LlmError::Json(m)),
    }
}

} // verus!
