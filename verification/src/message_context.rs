//! The message history of a plan run.
//!
//! Step messages start with `步骤 {order} | ` so that the model can tell which
//! step a message belongs to; plan-level messages start with `计划 | `; the
//! system message has no prefix.
use vstd::prelude::*;
use vstd::string::StringExecFns;
use crate::text::{dec, owned, push_dec, join, join_strings, to_chars, string_of};
use crate::types::{ChatMessage, Role};

verus! {

/// `步骤 {order} | `.
pub open spec fn step_prefix_text(order: u8) -> Seq<char> {
    "步骤 "@ + dec(order as nat) + " | "@
}

/// The prefix of step messages, `步骤 {order} | `.
pub fn step_prefix(order: u8) -> (r: String)
    ensures
        r@ == step_prefix_text(order),
{
    let mut r = owned("步骤 ");
    push_dec(&mut r, order as u64);
    r.append(" | ");
    r
}

/// Whether `m` is a plain message (no tool fields) with this role and content.
pub open spec fn is_plain(m: ChatMessage, role: Role, content: Seq<char>) -> bool {
    &&& m.role == role
    &&& m.content@ == content
    &&& m.tool_call_id is None
    &&& m.name is None
    &&& m.tool_calls is None
}

/// `after` is `before` with one more plain message at the end.
pub open spec fn appended(before: Seq<ChatMessage>, after: Seq<ChatMessage>, role: Role, content: Seq<char>) -> bool {
    &&& after.len() == before.len() + 1
    &&& after.drop_last() == before
    &&& is_plain(after.last(), role, content)
}

/// The text of a tool result message.
pub open spec fn tool_result_text(order: u8, name: Seq<char>, result: Seq<char>) -> Seq<char> {
    step_prefix_text(order) + "工具 "@ + name + " 执行结果: "@ + result
}

/// The text of a goal check message.
pub open spec fn goal_check_text(order: u8, achieved: bool, reason: Seq<char>) -> Seq<char> {
    step_prefix_text(order) + "判断: "@ + (if achieved { "YES"@ } else { "NO"@ }) + " 原因: "@ + reason
}

/// The text of a step goal message.
pub open spec fn step_goal_text(order: u8, goal: Seq<char>, expected: Option<Seq<char>>) -> Seq<char> {
    step_prefix_text(order) + "目标: "@ + goal + match expected {
        Some(out) => "\n期望产出: "@ + out,
        None => Seq::empty(),
    }
}

/// The text of an observation message.
pub open spec fn observation_text(order: u8, success: bool, summary: Seq<char>) -> Seq<char> {
    step_prefix_text(order) + "【观察】结果: "@ + (if success { "成功"@ } else { "失败"@ }) + "\n摘要: "@ + summary
}

/// The text of a replan message.
pub open spec fn replan_text(reason: Seq<char>, summary: Seq<char>) -> Seq<char> {
    "计划 | "@ + "【计划变更】\n原因: "@ + reason + "\n新计划摘要:\n"@ + summary
}

/// The text of a skipped-step message.
pub open spec fn skipped_text(order: u8, reason: Seq<char>) -> Seq<char> {
    step_prefix_text(order) + "【已跳过】原因: "@ + reason
}

/// The default hint of a retry message.
pub open spec fn default_hint() -> Seq<char> {
    "请尝试不同的策略，避免重复已尝试的工具"@
}

/// The text of a retry message.
pub open spec fn retry_text(order: u8, attempt: nat, reason: Seq<char>, tools: Seq<Seq<char>>, hint: Option<Seq<char>>) -> Seq<char> {
    step_prefix_text(order) + "【重试信号】第 "@ + dec(attempt) + " 次尝试\n⚠️ 上次未达成目标\n📋 失败原因: "@ + reason
        + "\n🔧 已尝试工具: "@ + (if tools.len() == 0 { "(无)"@ } else { join(tools, ", "@) }) + "\n💡 建议: "@
        + match hint {
        Some(h) => h,
        None => default_hint(),
    }
}

/// The message history of a plan run; it only grows.
pub struct MessageContext {
    messages: Vec<ChatMessage>,
}

impl View for MessageContext {
    type V = Seq<ChatMessage>;

    closed spec fn view(&self) -> Seq<ChatMessage> {
        self.messages@
    }
}

impl MessageContext {
    /// A history holding only the system prompt.
    pub fn new(re_act_prompt: &str) -> (r: MessageContext)
        ensures
            r@.len() == 1,
            is_plain(r@[0], Role::System, re_act_prompt@),
    {
        let mut messages: Vec<ChatMessage> = Vec::new();
        messages.push(ChatMessage::new(Role::System, re_act_prompt));
        MessageContext { messages }
    }

    /// The messages, oldest first.
    pub fn messages(&self) -> (r: &[ChatMessage])
        ensures
            r@ == self@,
    {
        self.messages.as_slice()
    }

    fn push_plain(&mut self, role: Role, content: String)
        ensures
            appended(old(self)@, final(self)@, role, content@),
    {
        self.messages.push(ChatMessage::new(role, content.as_str()));
        assert(self@.drop_last() =~= old(self)@);
    }

    /// Records a tool result: `步骤 {order} | 工具 {name} 执行结果: {result}`.
    pub fn push_tool_result(&mut self, step_order: u8, name: &str, result: &str)
        ensures
            appended(old(self)@, final(self)@, Role::Tool, tool_result_text(step_order, name@, result@)),
    {
        let mut c = step_prefix(step_order);
        c.append("工具 ");
        c.append(name);
        c.append(" 执行结果: ");
        c.append(result);
        self.push_plain(Role::Tool, c);
    }

    /// Records a goal check: `步骤 {order} | 判断: YES|NO 原因: {reason}`.
    pub fn push_goal_check(&mut self, step_order: u8, achieved: bool, reason: &str)
        ensures
            appended(old(self)@, final(self)@, Role::Assistant, goal_check_text(step_order, achieved, reason@)),
    {
        let mut c = step_prefix(step_order);
        c.append("判断: ");
        if achieved {
            c.append("YES");
        } else {
            c.append("NO");
        }
        c.append(" 原因: ");
        c.append(reason);
        self.push_plain(Role::Assistant, c);
    }

    /// Records the goal of the step now running (a user message); the history
    /// keeps growing across steps.
    pub fn push_step_goal(&mut self, order: u8, step_goal: &str, expected_output: Option<&str>)
        ensures
            appended(
                old(self)@,
                final(self)@,
                Role::User,
                step_goal_text(order, step_goal@, match expected_output {
                    Some(o) => Some(o@),
                    None => None,
                }),
            ),
    {
        let mut c = step_prefix(order);
        c.append("目标: ");
        c.append(step_goal);
        match expected_output {
            Some(out) => {
                c.append("\n期望产出: ");
                c.append(out);
                assert(c@ =~= step_goal_text(order, step_goal@, Some(out@)));
            },
            None => {
                assert(c@ =~= step_goal_text(order, step_goal@, None));
            },
        }
        self.push_plain(Role::User, c);
    }

    /// Records the observation of a step.
    pub fn push_observation(&mut self, step_order: u8, success: bool, summary: &str)
        ensures
            appended(old(self)@, final(self)@, Role::Assistant, observation_text(step_order, success, summary@)),
    {
        let mut c = step_prefix(step_order);
        c.append("【观察】结果: ");
        if success {
            c.append("成功");
        } else {
            c.append("失败");
        }
        c.append("\n摘要: ");
        c.append(summary);
        self.push_plain(Role::Assistant, c);
    }

    /// Records a change of plan (a plan-level message).
    pub fn push_replan_decision(&mut self, reason: &str, new_steps_summary: &str)
        ensures
            appended(old(self)@, final(self)@, Role::Assistant, replan_text(reason@, new_steps_summary@)),
    {
        let mut c = owned("计划 | ");
        c.append("【计划变更】\n原因: ");
        c.append(reason);
        c.append("\n新计划摘要:\n");
        c.append(new_steps_summary);
        self.push_plain(Role::Assistant, c);
    }

    /// Records that a step was skipped.
    pub fn push_step_skipped(&mut self, step_order: u8, reason: &str)
        ensures
            appended(old(self)@, final(self)@, Role::Assistant, skipped_text(step_order, reason@)),
    {
        let mut c = step_prefix(step_order);
        c.append("【已跳过】原因: ");
        c.append(reason);
        self.push_plain(Role::Assistant, c);
    }

    /// Records a retry (a user message): the attempt number, why the last
    /// attempt failed, the tools it tried and a hint.
    pub fn push_retry_attempt(
        &mut self,
        step_order: u8,
        attempt: u16,
        last_reason: &str,
        tried_tools: &[String],
        hint: Option<&str>,
    )
        ensures
            appended(
                old(self)@,
                final(self)@,
                Role::User,
                retry_text(step_order, attempt as nat, last_reason@, tried_tools@.map_values(|s: String| s@), match hint {
                    Some(h) => Some(h@),
                    None => None,
                }),
            ),
    {
        let mut c = step_prefix(step_order);
        c.append("【重试信号】第 ");
        push_dec(&mut c, attempt as u64);
        c.append(" 次尝试\n⚠️ 上次未达成目标\n📋 失败原因: ");
        c.append(last_reason);
        c.append("\n🔧 已尝试工具: ");
        if tried_tools.len() == 0 {
            c.append("(无)");
        } else {
            let j = join_strings(tried_tools, ", ");
            c.append(j.as_str());
        }
        c.append("\n💡 建议: ");
        match hint {
            Some(h) => c.append(h),
            None => c.append("请尝试不同的策略，避免重复已尝试的工具"),
        }
        self.push_plain(Role::User, c);
    }

    /// The lines that describe the whole history, for the log: a header with
    /// the count, one `[NNN] [Role] content` line per message (content cut to
    /// `max_content_len` characters, with a note of the full length) and a
    /// footer.
    pub fn dump_history(&self, max_content_len: usize) -> (r: Vec<String>)
        ensures
            r@.len() == self@.len() + 2,
            r@[0]@ == dump_header(self@.len()),
            forall|i: int| 0 <= i < self@.len() ==> #[trigger] r@[i + 1]@ == dump_line(i as nat, self@[i], max_content_len as nat),
            r@.last()@ == dump_footer(),
    {
        let mut out: Vec<String> = Vec::new();
        let mut h = owned("========== msg_ctx 消息历史 dump 开始 (共 ");
        push_dec(&mut h, self.messages.len() as u64);
        h.append(" 条) ==========");
        out.push(h);
        let mut i: usize = 0;
        while i < self.messages.len()
            invariant
                i <= self.messages.len(),
                out@.len() == i + 1,
                out@[0]@ == dump_header(self@.len()),
                forall|k: int| 0 <= k < i ==> #[trigger] out@[k + 1]@ == dump_line(k as nat, self@[k], max_content_len as nat),
            decreases self.messages.len() - i,
        {
            let line = dump_message_line(i, &self.messages[i], max_content_len);
            out.push(line);
            i += 1;
        }
        out.push(owned("========== msg_ctx 消息历史 dump 结束 =========="));
        out
    }
}

/// The header line of a history dump.
pub open spec fn dump_header(n: nat) -> Seq<char> {
    "========== msg_ctx 消息历史 dump 开始 (共 "@ + dec(n) + " 条) =========="@
}

/// The footer line of a history dump.
pub open spec fn dump_footer() -> Seq<char> {
    "========== msg_ctx 消息历史 dump 结束 =========="@
}

/// `{:03}`: the decimal form of `n`, padded with zeros to three digits.
pub open spec fn pad3(n: nat) -> Seq<char> {
    if n < 10 {
        "00"@ + dec(n)
    } else if n < 100 {
        "0"@ + dec(n)
    } else {
        dec(n)
    }
}

/// The `Debug` name of a role.
pub open spec fn role_debug(r: Role) -> Seq<char> {
    match r {
        Role::System => "System"@,
        Role::User => "User"@,
        Role::Assistant => "Assistant"@,
        Role::Tool => "Tool"@,
    }
}

/// The shown content: cut to `max` characters, with the full length noted.
pub open spec fn preview(content: Seq<char>, max: nat) -> Seq<char> {
    if content.len() > max {
        content.take(max as int) + "... [已截断，共 "@ + dec(content.len()) + " 字符]"@
    } else {
        content
    }
}

/// One line of a history dump.
pub open spec fn dump_line(i: nat, m: ChatMessage, max: nat) -> Seq<char> {
    "["@ + pad3(i) + "] ["@ + role_debug(m.role) + "] "@ + preview(m.content@, max)
}

fn dump_message_line(i: usize, m: &ChatMessage, max_content_len: usize) -> (r: String)
    ensures
        r@ == dump_line(i as nat, *m, max_content_len as nat),
{
    let mut r = owned("[");
    if i < 10 {
        r.append("00");
    } else if i < 100 {
        r.append("0");
    }
    push_dec(&mut r, i as u64);
    r.append("] [");
    match m.role {
        Role::System => r.append("System"),
        Role::User => r.append("User"),
        Role::Assistant => r.append("Assistant"),
        Role::Tool => r.append("Tool"),
    }
    r.append("] ");
    let cs = to_chars(m.content.as_str());
    if cs.len() > max_content_len {
        let head = string_of(&cs, 0, max_content_len);
        r.append(head.as_str());
        r.append("... [已截断，共 ");
        push_dec(&mut r, cs.len() as u64);
        r.append(" 字符]");
        assert(cs@.subrange(0, max_content_len as int) =~= cs@.take(max_content_len as int));
    } else {
        r.append(m.content.as_str());
    }
    r
}

} // verus!
