//! Prompts and messages of the plan executor's steps: ReAct exploration,
//! goal checks, replanning and reasoning steps.
use vstd::prelude::*;
use vstd::string::StringExecFns;
use crate::json::{JsonModel, json_parse, parse_json, json_as_array, views};
use crate::plans::{PlanStep, PlanStepView, SubAction, decode_step, decode_plan_step, steps_view};
use crate::seqs::{try_map, lemma_try_map_empty, lemma_try_map_step, lemma_try_map_prefix_err, lemma_try_map_full};
use crate::text::{lemma_trim_range, dec, owned, push_dec, trim, to_chars, trim_bounds, string_of, push_char, append_chars, is_whitespace, is_ws, has_at, join};
use crate::types::{StepType, step_type_name};

verus! {

/// The system prompt of the ReAct executor.
pub const RE_ACT_SYSTEM_PROMPT: &'static str = r#"You are an autonomous execution agent.

Your responsibility is to execute tasks by following a dynamic execution plan.

You are NOT a simple ReAct agent.

You operate using:

Goal → Plan → Execute → Observe → Replan → Complete

---

# Mission

Given a user request:

1. Understand the objective.
2. Identify dependencies.
3. Determine uncertainty.
4. Build an internal execution plan.
5. Execute only the next justified step.
6. Continuously update the plan based on observations.
7. Stop immediately once the objective has been achieved.

---

# Internal Plan Model

Represent the task internally as a set of steps.

Each step should contain:

* step_goal
* expected_output
* depends_on
* success_criteria

Do NOT expose this plan unless explicitly requested.

---

# Step Classification

Every step belongs to one of three categories:

## deterministic

Use when:

* Required tool is known
* Parameters are known
* Execution path is known

Examples:

* Read file
* Query database
* Call API
* Download URL

---

## reasoning

Use when:

* Summarization
* Classification
* Comparison
* Information extraction
* Report generation
* Decision making

Reasoning steps do not require tools unless external information is missing.

---

## exploratory

Use when:

* Environment is uncertain
* UI structure unknown
* Login flow unknown
* Dynamic identifiers required
* Runtime discovery required

Examples:

* Website navigation
* Browser automation
* Dynamic page interaction
* Searching for unknown objects

---

# Execution Rules

Before executing any tool:

1. Verify current step dependencies are satisfied.
2. Verify required inputs exist.
3. Verify execution contributes to task completion.

Never execute actions that are not justified by the current plan state.

---

# Observation Rules

After every tool result:

1. Evaluate whether the current step succeeded.
2. Update known information.
3. Reassess remaining steps.
4. Decide whether:

* Continue current step
* Move to next step
* Create a new exploratory step
* Finish task

Observations always override assumptions.

Tool outputs are the source of truth.

---

# Replanning Rules

You may modify the internal plan when:

* New information appears
* Assumptions become invalid
* Tool outputs reveal better paths

You must NOT blindly follow an outdated plan.

The plan is adaptive.

---

# Tool Usage Rules

* Prefer the minimum number of tool calls.
* Avoid redundant actions.
* Never repeat identical calls without reason.
* Never fabricate tool results.
* Never ignore observations.

Every tool call must have a clear objective.

---

# Failure Handling

If execution fails:

1. Determine whether failure is temporary.
2. Retry only when justified.
3. Consider alternative approaches.
4. Update the plan.
5. Avoid infinite retry loops.

If the task cannot proceed:

Explain what dependency is missing.

---

# Completion Rules

Stop execution immediately when:

* User objective is satisfied.
* Required deliverable has been produced.
* Additional actions provide no meaningful benefit.

Do not continue exploring after completion criteria are met.

---

# Final Response Rules

When task is complete:

* Provide the final deliverable.
* Include supporting evidence when necessary.
* Do not expose internal reasoning.
* Do not expose hidden planning process.
* Do not output Thought / Action / Observation traces.
"#;

/// The system prompt of goal checks.
pub const GOAL_CHECK_SYSTEM_PROMPT: &'static str = r#"你是一个任务评估助手，负责判断当前步骤目标是否已达成。

## 你的任务
根据执行历史，判断步骤目标是否已达成。

## 判断标准
- 目标已达成：返回 YES
- 目标未达成：返回 NO，并说明原因

## 输出格式
```
判断: YES/NO
原因: <简要说明>
```"#;

/// The system prompt of replanning.
pub const REPLAN_SYSTEM_PROMPT: &'static str = r#"你是一个计划规划助手，负责根据当前执行情况重新规划剩余步骤。

## 你的任务
根据已执行的步骤历史和当前观察，修改剩余的执行计划。

## 你可以：
- 删除不再需要的步骤
- 新增必要的步骤
- 修改现有步骤的目标或参数
- 调整步骤的执行顺序
- 保持部分步骤不变

## 输出格式
输出一个 JSON 数组，包含修改后的步骤列表。每个步骤包含：
```json
[
  {
    "order": 1,
    "step_type": "deterministic" | "reasoning" | "exploratory",
    "step_goal": "步骤目标描述",
    "expected_output": "期望产出（可选）",
    "depends_on": [],
    "success_criteria": ["成功标准"]
  }
]
```

## 规则
- order 必须从 1 开始连续递增
- step_type 只能是 deterministic、reasoning、exploratory 之一
- depends_on 只能引用当前列表中前面的步骤的 order
- 保持计划简洁，不要添加不必要的步骤
- 只输出 JSON，不要输出其他内容
"#;

/// The system prompt of reasoning steps.
pub const REASONING_SYSTEM_PROMPT: &'static str = r#"你是一个推理助手，负责根据提供的上下文信息完成推理任务。

## 你的任务
根据给定的步骤目标和上下文信息，生成推理结果。

## 支持的推理类型
- 摘要：将长文本浓缩为关键信息
- 分类：对内容进行类别判定
- 对比：比较多个信息的异同
- 信息提取：从非结构化文本中提取结构化数据
- 报告生成：综合多源信息生成报告
- 决策：根据条件做出判断

## 规则
- 只输出推理结果，不要输出推理过程
- 结果应简洁、准确、结构化
- 如果上下文信息不足，明确指出缺失的信息
"#;

/// The system prompt of the ReAct executor (Goal → Plan → Execute → Observe
/// → Replan → Complete).
pub fn re_act_system_prompt() -> (r: &'static str)
    ensures
        r@ == RE_ACT_SYSTEM_PROMPT@,
{
    RE_ACT_SYSTEM_PROMPT
}

/// The system prompt of goal checks (`判断: YES/NO`, `原因: ...`).
pub fn goal_check_system_prompt() -> (r: &'static str)
    ensures
        r@ == GOAL_CHECK_SYSTEM_PROMPT@,
{
    GOAL_CHECK_SYSTEM_PROMPT
}

/// The system prompt of replanning (a JSON array of steps).
pub fn replan_system_prompt() -> (r: &'static str)
    ensures
        r@ == REPLAN_SYSTEM_PROMPT@,
{
    REPLAN_SYSTEM_PROMPT
}

/// The system prompt of reasoning steps.
pub fn reasoning_system_prompt() -> (r: &'static str)
    ensures
        r@ == REASONING_SYSTEM_PROMPT@,
{
    REASONING_SYSTEM_PROMPT
}

// ---------------------------------------------------------------------------
// Exploration and history
// ---------------------------------------------------------------------------

/// The first message of an exploratory step.
pub open spec fn initial_message_text(goal: Seq<char>, expected: Option<Seq<char>>, history: Option<Seq<char>>) -> Seq<char> {
    "【当前步骤目标】\n"@ + goal + "\n\n"@
        + match expected {
        Some(e) => "【期望输出】\n"@ + e + "\n\n"@,
        None => Seq::empty(),
    } + match history {
        Some(h) => if h.len() > 0 {
            "【已执行步骤】\n"@ + h + "\n\n"@
        } else {
            Seq::empty()
        },
        None => Seq::empty(),
    } + "请选择合适的工具开始执行。"@
}

/// Builds the first message of an exploratory step: its goal, its expected
/// output when given, and the history of executed steps when not empty.
pub fn build_exploratory_initial_message(step: &PlanStep, history_summary: Option<&str>) -> (r: String)
    ensures
        r@ == initial_message_text(step@.step_goal, step@.expected_output, match history_summary {
            Some(h) => Some(h@),
            None => None,
        }),
{
    let mut m = owned("【当前步骤目标】\n");
    m.append(step.step_goal.as_str());
    m.append("\n\n");
    let ghost a = m@;
    match &step.expected_output {
        Some(e) => {
            m.append("【期望输出】\n");
            m.append(e.as_str());
            m.append("\n\n");
        },
        None => {},
    }
    let ghost b = m@;
    match history_summary {
        Some(h) => {
            if !h.is_empty() {
                m.append("【已执行步骤】\n");
                m.append(h);
                m.append("\n\n");
            }
        },
        None => {},
    }
    let ghost c = m@;
    m.append("请选择合适的工具开始执行。");
    proof {
        let e = match step@.expected_output {
            Some(e) => "【期望输出】\n"@ + e + "\n\n"@,
            None => Seq::<char>::empty(),
        };
        let hh = match history_summary {
            Some(h) => if h@.len() > 0 {
                "【已执行步骤】\n"@ + h@ + "\n\n"@
            } else {
                Seq::<char>::empty()
            },
            None => Seq::<char>::empty(),
        };
        assert(b =~= a + e);
        assert(c =~= b + hh);
    }
    m
}

/// The output shown for a step: its last action's output, else `（无输出）`.
pub open spec fn step_output_text(s: PlanStepView) -> Seq<char> {
    if s.actions.len() > 0 && s.actions.last().output is Some {
        s.actions.last().output.unwrap()
    } else {
        "（无输出）"@
    }
}

/// The tool shown for a step: its first action's tool, else `（无工具）`.
pub open spec fn step_tool_text(s: PlanStepView) -> Seq<char> {
    if s.actions.len() > 0 {
        s.actions[0].tool_name
    } else {
        "（无工具）"@
    }
}

/// One line of a history summary.
pub open spec fn history_line(s: PlanStepView) -> Seq<char> {
    "步骤"@ + dec(s.order as nat) + " ("@ + step_tool_text(s) + "): "@ + s.step_goal + " - 输出: "@ + step_output_text(s)
}

/// The summary of executed steps, one line each.
pub open spec fn history_summary_text(steps: Seq<PlanStepView>) -> Seq<char> {
    join(steps.map_values(|s: PlanStepView| history_line(s)), "\n"@)
}

fn history_line_of(s: &PlanStep) -> (r: String)
    ensures
        r@ == history_line(s@),
{
    let mut m = owned("步骤");
    push_dec(&mut m, s.order as u64);
    m.append(" (");
    if s.actions.len() > 0 {
        m.append(s.actions[0].tool_name.as_str());
    } else {
        m.append("（无工具）");
    }
    m.append("): ");
    m.append(s.step_goal.as_str());
    m.append(" - 输出: ");
    let n = s.actions.len();
    if n > 0 {
        match &s.actions[n - 1].output {
            Some(o) => m.append(o.as_str()),
            None => m.append("（无输出）"),
        }
    } else {
        m.append("（无输出）");
    }
    m
}

/// Summarises executed steps: `步骤{order} ({tool}): {goal} - 输出: {output}`
/// per step, joined by newlines; empty when no step ran.
pub fn build_history_summary(executed_steps: &[PlanStep]) -> (r: String)
    ensures
        r@ == history_summary_text(steps_view(executed_steps@)),
{
    let ghost lines = steps_view(executed_steps@).map_values(|s: PlanStepView| history_line(s));
    let mut r = String::new();
    let mut i: usize = 0;
    while i < executed_steps.len()
        invariant
            i <= executed_steps.len(),
            lines == steps_view(executed_steps@).map_values(|s: PlanStepView| history_line(s)),
            r@ == join(lines.take(i as int), "\n"@),
        decreases executed_steps.len() - i,
    {
        let ghost before = r@;
        if i > 0 {
            r.append("\n");
        }
        let line = history_line_of(&executed_steps[i]);
        r.append(line.as_str());
        proof {
            let p = lines.take(i + 1);
            assert(p.drop_last() =~= lines.take(i as int));
            assert(p.last() == history_line(executed_steps@[i as int]@));
            if i == 0 {
                assert(r@ =~= p[0]);
            } else {
                assert(r@ =~= before + "\n"@ + p.last());
            }
        }
        i += 1;
    }
    assert(lines.take(i as int) =~= lines);
    r
}

/// The goal-check message.
pub open spec fn goal_check_message_text(goal: Seq<char>, history: Seq<(Seq<char>, Seq<char>)>) -> Seq<char> {
    "【当前步骤目标】\n"@ + goal + "\n\n"@ + "【工具执行历史】\n"@ + tool_history_text(history) + "\n请判断目标是否已达成。"@
}

/// `- {tool}: {result}` and a newline per call.
pub open spec fn tool_history_text(history: Seq<(Seq<char>, Seq<char>)>) -> Seq<char>
    decreases history.len(),
{
    if history.len() == 0 {
        Seq::empty()
    } else {
        tool_history_text(history.drop_last()) + "- "@ + history.last().0 + ": "@ + history.last().1 + "\n"@
    }
}

/// The views of `(tool, result)` pairs.
pub open spec fn pairs_view(h: Seq<(String, String)>) -> Seq<(Seq<char>, Seq<char>)> {
    h.map_values(|p: (String, String)| (p.0@, p.1@))
}

/// Builds the message that asks whether the step's goal was reached, with the
/// history of tool calls.
pub fn build_goal_check_message(step_goal: &str, tool_calls_history: &[(String, String)]) -> (r: String)
    ensures
        r@ == goal_check_message_text(step_goal@, pairs_view(tool_calls_history@)),
{
    let mut m = owned("【当前步骤目标】\n");
    m.append(step_goal);
    m.append("\n\n");
    m.append("【工具执行历史】\n");
    let ghost head = m@;
    let ghost h = pairs_view(tool_calls_history@);
    let mut i: usize = 0;
    while i < tool_calls_history.len()
        invariant
            i <= tool_calls_history.len(),
            h == pairs_view(tool_calls_history@),
            m@ == head + tool_history_text(h.take(i as int)),
        decreases tool_calls_history.len() - i,
    {
        m.append("- ");
        m.append(tool_calls_history[i].0.as_str());
        m.append(": ");
        m.append(tool_calls_history[i].1.as_str());
        m.append("\n");
        proof {
            let p = h.take(i + 1);
            assert(p.drop_last() =~= h.take(i as int));
            assert(p.last() == (tool_calls_history@[i as int].0@, tool_calls_history@[i as int].1@));
            assert(m@ =~= head + tool_history_text(p));
        }
        i += 1;
    }
    assert(h.take(i as int) =~= h);
    m.append("\n请判断目标是否已达成。");
    m
}

// ---------------------------------------------------------------------------
// Goal-check replies
// ---------------------------------------------------------------------------

/// The pieces of `s` between `\n` characters (at least one piece).
pub open spec fn split_nl(s: Seq<char>) -> Seq<Seq<char>>
    decreases s.len(),
{
    if s.len() == 0 {
        seq![Seq::empty()]
    } else {
        let rest = split_nl(s.drop_last());
        if s.last() == '\n' {
            rest.push(Seq::empty())
        } else {
            rest.update(rest.len() - 1, rest.last().push(s.last()))
        }
    }
}

/// `split_nl` never gives an empty list.
pub proof fn lemma_split_nl_len(s: Seq<char>)
    ensures
        split_nl(s).len() >= 1,
    decreases s.len(),
{
    if s.len() > 0 {
        lemma_split_nl_len(s.drop_last());
    }
}

/// `str::lines` on a text that neither starts nor ends with whitespace: the
/// pieces between `\n`, none for the empty text. (A `\r` before a `\n`, which
/// `lines` removes, is whitespace that every reader here trims anyway.)
pub open spec fn trimmed_lines(s: Seq<char>) -> Seq<Seq<char>> {
    if s.len() == 0 {
        Seq::empty()
    } else {
        split_nl(s)
    }
}

/// `s` with every leading copy of `p` removed (`str::trim_start_matches`).
pub open spec fn strip_all(s: Seq<char>, p: Seq<char>) -> Seq<char>
    decreases s.len(),
{
    if p.len() > 0 && p.is_prefix_of(s) {
        strip_all(s.skip(p.len() as int), p)
    } else {
        s
    }
}

/// Whether the uppercase form of `s` starts with `Y`: its first character is
/// `y`, `Y` or `ẙ` (whose uppercase form is `Y` and a combining ring).
pub open spec fn upper_starts_with_y(s: Seq<char>) -> bool {
    s.len() > 0 && (s[0] == 'y' || s[0] == 'Y' || (s[0] as u32) == 0x1e99)
}

/// One line of a goal-check reply applied to `(achieved, reason)`.
pub open spec fn goal_check_line(st: (bool, Seq<char>), line: Seq<char>) -> (bool, Seq<char>) {
    let t = trim(line);
    if "判断:"@.is_prefix_of(t) {
        (upper_starts_with_y(trim(strip_all(t, "判断:"@))), st.1)
    } else if "原因:"@.is_prefix_of(t) {
        (st.0, trim(strip_all(t, "原因:"@)))
    } else {
        st
    }
}

/// All lines of a goal-check reply, in order.
pub open spec fn goal_check_fold(lines: Seq<Seq<char>>) -> (bool, Seq<char>)
    decreases lines.len(),
{
    if lines.len() == 0 {
        (false, Seq::empty())
    } else {
        goal_check_line(goal_check_fold(lines.drop_last()), lines.last())
    }
}

/// Whether a line of a goal-check reply gives the verdict (`判断: ...`).
pub open spec fn is_verdict_line(line: Seq<char>) -> bool {
    "判断:"@.is_prefix_of(trim(line))
}

/// Whether a verdict line says yes.
pub open spec fn verdict_says_yes(line: Seq<char>) -> bool {
    upper_starts_with_y(trim(strip_all(trim(line), "判断:"@)))
}

/// The goal is reached exactly when some verdict line says yes and no
/// verdict line follows it: only the last verdict line counts, and no other
/// line (a `原因:` line among them) changes the verdict.
pub proof fn law_goal_check_last_verdict(lines: Seq<Seq<char>>)
    ensures
        goal_check_fold(lines).0 <==> exists|i: int|
            0 <= i < lines.len() && is_verdict_line(#[trigger] lines[i]) && verdict_says_yes(lines[i]) && forall|j: int|
                i < j < lines.len() ==> !is_verdict_line(#[trigger] lines[j]),
    decreases lines.len(),
{
    if lines.len() > 0 {
        let init = lines.drop_last();
        law_goal_check_last_verdict(init);
        let n = lines.len() - 1;
        if is_verdict_line(lines[n]) {
            if verdict_says_yes(lines[n]) {
                assert(0 <= n < lines.len() && is_verdict_line(lines[n]) && verdict_says_yes(lines[n]) && forall|j: int|
                    n < j < lines.len() ==> !is_verdict_line(#[trigger] lines[j]));
            } else {
                if exists|i: int|
                    0 <= i < lines.len() && is_verdict_line(#[trigger] lines[i]) && verdict_says_yes(lines[i]) && forall|j: int|
                        i < j < lines.len() ==> !is_verdict_line(#[trigger] lines[j]) {
                    let i = choose|i: int|
                        0 <= i < lines.len() && is_verdict_line(#[trigger] lines[i]) && verdict_says_yes(lines[i]) && forall|j: int|
                            i < j < lines.len() ==> !is_verdict_line(#[trigger] lines[j]);
                    if i < n {
                        assert(!is_verdict_line(lines[n]));
                    }
                }
            }
        } else {
            if exists|i: int|
                0 <= i < init.len() && is_verdict_line(#[trigger] init[i]) && verdict_says_yes(init[i]) && forall|j: int|
                    i < j < init.len() ==> !is_verdict_line(#[trigger] init[j]) {
                let i = choose|i: int|
                    0 <= i < init.len() && is_verdict_line(#[trigger] init[i]) && verdict_says_yes(init[i]) && forall|j: int|
                        i < j < init.len() ==> !is_verdict_line(#[trigger] init[j]);
                assert(init[i] == lines[i]);
                assert forall|j: int| i < j < lines.len() implies !is_verdict_line(#[trigger] lines[j]) by {
                    if j < n {
                        assert(init[j] == lines[j]);
                    }
                }
            }
            if exists|i: int|
                0 <= i < lines.len() && is_verdict_line(#[trigger] lines[i]) && verdict_says_yes(lines[i]) && forall|j: int|
                    i < j < lines.len() ==> !is_verdict_line(#[trigger] lines[j]) {
                let i = choose|i: int|
                    0 <= i < lines.len() && is_verdict_line(#[trigger] lines[i]) && verdict_says_yes(lines[i]) && forall|j: int|
                        i < j < lines.len() ==> !is_verdict_line(#[trigger] lines[j]);
                assert(i < n);
                assert(init[i] == lines[i]);
                assert forall|j: int| i < j < init.len() implies !is_verdict_line(#[trigger] init[j]) by {
                    assert(init[j] == lines[j]);
                }
            }
        }
    }
}

/// The same of a whole reply: the goal is reached exactly when, among its
/// lines, the last verdict line says yes.
pub proof fn law_goal_check_reply_verdict(response: Seq<char>)
    ensures
        ({
            let lines = trimmed_lines(trim(response));
            spec_goal_check(response).0 <==> exists|i: int|
                0 <= i < lines.len() && is_verdict_line(#[trigger] lines[i]) && verdict_says_yes(lines[i]) && forall|j: int|
                    i < j < lines.len() ==> !is_verdict_line(#[trigger] lines[j])
        }),
{
    law_goal_check_last_verdict(trimmed_lines(trim(response)));
}

/// What a goal-check reply means: whether the goal was reached (the last
/// `判断:` line says yes) and the reason (the last `原因:` line, else a
/// default that matches the verdict).
pub open spec fn spec_goal_check(response: Seq<char>) -> (bool, Seq<char>) {
    let st = goal_check_fold(trimmed_lines(trim(response)));
    (st.0, if st.1.len() == 0 {
        if st.0 {
            "目标达成"@
        } else {
            "目标未达成"@
        }
    } else {
        st.1
    })
}

/// The pieces of `v` between `\n` characters.
fn split_lines(v: &Vec<char>) -> (r: Vec<Vec<char>>)
    ensures
        r@.map_values(|l: Vec<char>| l@) == split_nl(v@),
{
    let mut done: Vec<Vec<char>> = Vec::new();
    let mut cur: Vec<char> = Vec::new();
    let mut i: usize = 0;
    assert(v@.take(0) =~= Seq::<char>::empty());
    assert(done@.map_values(|l: Vec<char>| l@).push(cur@) =~= seq![Seq::<char>::empty()]);
    while i < v.len()
        invariant
            i <= v.len(),
            done@.map_values(|l: Vec<char>| l@).push(cur@) == split_nl(v@.take(i as int)),
        decreases v.len() - i,
    {
        let c = v[i];
        let ghost before = done@.map_values(|l: Vec<char>| l@).push(cur@);
        assert(v@.take(i + 1).drop_last() =~= v@.take(i as int));
        assert(v@.take(i + 1).last() == c);
        if c == '\n' {
            let ghost prev_done = done@;
            let finished = cur;
            cur = Vec::new();
            done.push(finished);
            assert(done@.map_values(|l: Vec<char>| l@) =~= prev_done.map_values(|l: Vec<char>| l@).push(finished@));
            assert(done@.map_values(|l: Vec<char>| l@).push(cur@) =~= before.push(Seq::empty()));
        } else {
            cur.push(c);
            assert(done@.map_values(|l: Vec<char>| l@).push(cur@) =~= before.update(before.len() - 1, before.last().push(c)));
        }
        i += 1;
    }
    assert(v@.take(i as int) =~= v@);
    let ghost prev_done = done@;
    done.push(cur);
    assert(done@.map_values(|l: Vec<char>| l@) =~= prev_done.map_values(|l: Vec<char>| l@).push(done@.last()@));
    done
}

/// `s` with every leading copy of `p` removed.
fn strip_all_exec(s: &Vec<char>, p: &Vec<char>) -> (r: Vec<char>)
    ensures
        r@ == strip_all(s@, p@),
{
    if p.len() == 0 {
        return s.clone();
    }
    let mut i: usize = 0;
    assert(s@.skip(0) =~= s@);
    while has_at(s, i, p)
        invariant
            i <= s.len(),
            p.len() > 0,
            strip_all(s@, p@) == strip_all(s@.skip(i as int), p@),
        decreases s.len() - i,
    {
        proof {
            assert(s@.skip(i as int).take(p.len() as int) =~= s@.subrange(i as int, i + p.len()));
            assert(p@.is_prefix_of(s@.skip(i as int)));
            assert(s@.skip(i as int).skip(p.len() as int) =~= s@.skip(i + p.len()));
        }
        i += p.len();
    }
    proof {
        if p.len() <= s@.skip(i as int).len() {
            assert(s@.skip(i as int).take(p.len() as int) =~= s@.subrange(i as int, i + p.len()));
        }
    }
    let n = s.len();
    let mut out: Vec<char> = Vec::new();
    let mut k = i;
    while k < n
        invariant
            i <= k <= n,
            n == s.len(),
            out@ == s@.subrange(i as int, k as int),
        decreases n - k,
    {
        out.push(s[k]);
        assert(s@.subrange(i as int, k + 1) =~= s@.subrange(i as int, k as int).push(s@[k as int]));
        k += 1;
    }
    assert(s@.subrange(i as int, n as int) =~= s@.skip(i as int));
    out
}

/// The trimmed copy of `v`.
fn trim_vec(v: &Vec<char>) -> (r: Vec<char>)
    ensures
        r@ == trim(v@),
{
    let (a, b) = trim_bounds(v);
    let mut out: Vec<char> = Vec::new();
    let mut k = a;
    while k < b
        invariant
            a <= k <= b <= v.len(),
            out@ == v@.subrange(a as int, k as int),
        decreases b - k,
    {
        out.push(v[k]);
        assert(v@.subrange(a as int, k + 1) =~= v@.subrange(a as int, k as int).push(v@[k as int]));
        k += 1;
    }
    out
}

/// Reads a goal-check reply: `判断: YES|NO` and `原因: ...` lines; the last
/// of each kind wins. A verdict counts as yes when its uppercase form starts
/// with `Y`. Without a reason line the reason is `目标达成` or `目标未达成`.
pub fn parse_goal_check_response(response: &str) -> (r: (bool, String))
    ensures
        r.0 == spec_goal_check(response@).0,
        r.1@ == spec_goal_check(response@).1,
{
    let all = to_chars(response);
    let t = trim_vec(&all);
    let judge = to_chars("判断:");
    let because = to_chars("原因:");
    let mut achieved = false;
    let mut reason: Vec<char> = Vec::new();
    if t.len() > 0 {
        let lines = split_lines(&t);
        let ghost ls = lines@.map_values(|l: Vec<char>| l@);
        let mut k: usize = 0;
        assert(ls.take(0) =~= Seq::<Seq<char>>::empty());
        while k < lines.len()
            invariant
                k <= lines.len(),
                ls == lines@.map_values(|l: Vec<char>| l@),
                judge@ == "判断:"@,
                because@ == "原因:"@,
                goal_check_fold(ls.take(k as int)) == (achieved, reason@),
            decreases lines.len() - k,
        {
            assert(ls.take(k + 1).drop_last() =~= ls.take(k as int));
            assert(ls.take(k + 1).last() == lines@[k as int]@);
            let line = trim_vec(&lines[k]);
            if has_at(&line, 0, &judge) {
                assert(line@.subrange(0, judge@.len() as int) =~= line@.take(judge@.len() as int));
                let v = trim_vec(&strip_all_exec(&line, &judge));
                achieved = v.len() > 0 && (v[0] == 'y' || v[0] == 'Y' || v[0] as u32 == 0x1e99);
            } else if has_at(&line, 0, &because) {
                assert(line@.subrange(0, because@.len() as int) =~= line@.take(because@.len() as int));
                proof {
                    if judge@.len() <= line@.len() {
                        assert(line@.subrange(0, judge@.len() as int) =~= line@.take(judge@.len() as int));
                    }
                }
                reason = trim_vec(&strip_all_exec(&line, &because));
            } else {
                proof {
                    if judge@.len() <= line@.len() {
                        assert(line@.subrange(0, judge@.len() as int) =~= line@.take(judge@.len() as int));
                    }
                    if because@.len() <= line@.len() {
                        assert(line@.subrange(0, because@.len() as int) =~= line@.take(because@.len() as int));
                    }
                }
            }
            k += 1;
        }
        assert(ls.take(k as int) =~= ls);
    } else {
        assert(trimmed_lines(t@).len() == 0);
    }
    if reason.len() == 0 {
        if achieved {
            return (achieved, owned("目标达成"));
        } else {
            return (achieved, owned("目标未达成"));
        }
    }
    let n = reason.len();
    (achieved, string_of(&reason, 0, n))
}


// ---------------------------------------------------------------------------
// Replanning
// ---------------------------------------------------------------------------

/// `{:?}` of a list of step orders: `[1, 2]`.
pub open spec fn deps_debug(deps: Seq<u8>) -> Seq<char> {
    "["@ + join(deps.map_values(|d: u8| dec(d as nat)), ", "@) + "]"@
}

/// One line of the remaining steps in a replan message.
pub open spec fn remaining_line(s: PlanStepView) -> Seq<char> {
    "步骤"@ + dec(s.order as nat) + " ("@ + "\""@ + step_type_name(s.step_type) + "\""@ + "): "@ + s.step_goal + " | 依赖: "@
        + deps_debug(s.depends_on) + "\n"@
}

/// The remaining-step lines, in order.
pub open spec fn remaining_lines(steps: Seq<PlanStepView>) -> Seq<char>
    decreases steps.len(),
{
    if steps.len() == 0 {
        Seq::empty()
    } else {
        remaining_lines(steps.drop_last()) + remaining_line(steps.last())
    }
}

/// The replan message.
pub open spec fn replan_message_text(remaining: Seq<PlanStepView>, observation: Seq<char>, history: Seq<char>) -> Seq<char> {
    "【已执行步骤历史】\n"@ + (if history.len() == 0 {
        "（无）\n\n"@
    } else {
        history + "\n\n"@
    }) + "【最新观察】\n"@ + observation + "\n\n"@ + "【当前剩余步骤】\n"@ + (if remaining.len() == 0 {
        "（无剩余步骤）\n\n"@
    } else {
        remaining_lines(remaining) + "\n"@
    }) + "请根据以上信息重新规划剩余步骤。只输出 JSON 数组。"@
}

fn push_deps_debug(m: &mut String, deps: &Vec<u8>)
    ensures
        final(m)@ == old(m)@ + deps_debug(deps@),
{
    let ghost start = m@;
    m.append("[");
    let ghost parts = deps@.map_values(|d: u8| dec(d as nat));
    let mut i: usize = 0;
    while i < deps.len()
        invariant
            i <= deps.len(),
            parts == deps@.map_values(|d: u8| dec(d as nat)),
            m@ == start + "["@ + join(parts.take(i as int), ", "@),
        decreases deps.len() - i,
    {
        let ghost before = m@;
        if i > 0 {
            m.append(", ");
        }
        push_dec(m, deps[i] as u64);
        proof {
            let p = parts.take(i + 1);
            assert(p.drop_last() =~= parts.take(i as int));
            assert(p.last() == dec(deps@[i as int] as nat));
            if i == 0 {
                assert(m@ =~= start + "["@ + p[0]);
            } else {
                assert(m@ =~= before + ", "@ + p.last());
            }
        }
        i += 1;
    }
    assert(parts.take(i as int) =~= parts);
    m.append("]");
    assert(m@ =~= start + deps_debug(deps@));
}

fn push_remaining_line(m: &mut String, s: &PlanStep)
    ensures
        final(m)@ == old(m)@ + remaining_line(s@),
{
    let ghost start = m@;
    m.append("步骤");
    push_dec(m, s.order as u64);
    m.append(" (");
    m.append("\"");
    m.append(s.step_type.as_str());
    m.append("\"");
    m.append("): ");
    m.append(s.step_goal.as_str());
    m.append(" | 依赖: ");
    let ghost mid = m@;
    push_deps_debug(m, &s.depends_on);
    m.append("\n");
    assert(m@ =~= start + remaining_line(s@));
}

/// Builds the replan message: the history of executed steps, the latest
/// observation and the remaining steps.
pub fn build_replan_message(remaining_steps: &[PlanStep], observation_summary: &str, history_summary: &str) -> (r: String)
    ensures
        r@ == replan_message_text(steps_view(remaining_steps@), observation_summary@, history_summary@),
{
    let mut m = owned("【已执行步骤历史】\n");
    if history_summary.is_empty() {
        m.append("（无）\n\n");
    } else {
        m.append(history_summary);
        m.append("\n\n");
    }
    m.append("【最新观察】\n");
    m.append(observation_summary);
    m.append("\n\n");
    m.append("【当前剩余步骤】\n");
    let ghost head = m@;
    let ghost sv = steps_view(remaining_steps@);
    if remaining_steps.len() == 0 {
        m.append("（无剩余步骤）\n\n");
    } else {
        let mut i: usize = 0;
        while i < remaining_steps.len()
            invariant
                i <= remaining_steps.len(),
                sv == steps_view(remaining_steps@),
                m@ == head + remaining_lines(sv.take(i as int)),
            decreases remaining_steps.len() - i,
        {
            push_remaining_line(&mut m, &remaining_steps[i]);
            proof {
                let p = sv.take(i + 1);
                assert(p.drop_last() =~= sv.take(i as int));
                assert(p.last() == remaining_steps@[i as int]@);
                assert(m@ =~= head + remaining_lines(p));
            }
            i += 1;
        }
        assert(sv.take(i as int) =~= sv);
        push_char(&mut m, '\n');
        assert(m@ =~= head + (remaining_lines(sv) + "\n"@)) by {
            reveal_strlit("\n");
        }
    }
    m.append("请根据以上信息重新规划剩余步骤。只输出 JSON 数组。");
    m
}

/// A line without one trailing `\r` (as `str::lines` gives it).
pub open spec fn strip_cr(l: Seq<char>) -> Seq<char> {
    if l.len() > 0 && l.last() == '\r' {
        l.drop_last()
    } else {
        l
    }
}

/// The lines that do not start with a code fence.
pub open spec fn unfenced(lines: Seq<Seq<char>>) -> Seq<Seq<char>>
    decreases lines.len(),
{
    if lines.len() == 0 {
        Seq::empty()
    } else {
        let rest = unfenced(lines.drop_last());
        if "```"@.is_prefix_of(lines.last()) {
            rest
        } else {
            rest.push(lines.last())
        }
    }
}

/// The JSON text of a replan reply: the trimmed reply, without its fence
/// lines when it starts with a code fence.
pub open spec fn replan_json_text(response: Seq<char>) -> Seq<char> {
    let r = trim(response);
    if "```"@.is_prefix_of(r) {
        join(unfenced(split_nl(r).map_values(|l: Seq<char>| strip_cr(l))), "\n"@)
    } else {
        r
    }
}

/// The lines of a text without `\n` are the text alone.
pub proof fn lemma_split_nl_one_line(s: Seq<char>)
    requires
        !s.contains('\n'),
    ensures
        split_nl(s) == seq![s],
    decreases s.len(),
{
    if s.len() > 0 {
        let init = s.drop_last();
        if init.contains('\n') {
            let k = choose|k: int| 0 <= k < init.len() && init[k] == '\n';
            assert(s[k] == '\n');
        }
        assert(s[s.len() - 1] != '\n');
        lemma_split_nl_one_line(init);
        assert(init.push(s.last()) =~= s);
        assert(seq![init].update(0, init.push(s.last())) =~= seq![s]);
    } else {
        assert(s =~= Seq::<char>::empty());
    }
}

/// The lines of `x`, a `\n` and `y` are the lines of `x`, then those of `y`.
pub proof fn lemma_split_nl_concat(x: Seq<char>, y: Seq<char>)
    ensures
        split_nl(x + seq!['\n'] + y) == split_nl(x) + split_nl(y),
    decreases y.len(),
{
    let xn = x + seq!['\n'];
    assert(xn.drop_last() =~= x);
    assert(xn.last() == '\n');
    lemma_split_nl_len(x);
    if y.len() == 0 {
        assert(x + seq!['\n'] + y =~= xn);
        assert(split_nl(y) == seq![Seq::<char>::empty()]);
        assert(split_nl(x).push(Seq::<char>::empty()) =~= split_nl(x) + seq![Seq::<char>::empty()]);
    } else {
        let y0 = y.drop_last();
        let whole = x + seq!['\n'] + y;
        assert(whole.drop_last() =~= x + seq!['\n'] + y0);
        assert(whole.last() == y.last());
        lemma_split_nl_concat(x, y0);
        lemma_split_nl_len(y0);
        let p = split_nl(x);
        let q = split_nl(y0);
        if y.last() == '\n' {
            assert((p + q).push(Seq::<char>::empty()) =~= p + q.push(Seq::<char>::empty()));
        } else {
            let pq = p + q;
            assert(pq.last() == q.last());
            assert(pq.update(pq.len() - 1, pq.last().push(y.last())) =~= p + q.update(
                q.len() - 1,
                q.last().push(y.last()),
            ));
        }
    }
}

/// Joining the lines of a text with `\n` gives the text back.
pub proof fn lemma_join_split_nl(s: Seq<char>)
    ensures
        join(split_nl(s), "\n"@) == s,
    decreases s.len(),
{
    reveal_strlit("\n");
    if s.len() == 0 {
        assert(split_nl(s) == seq![Seq::<char>::empty()]);
    } else {
        let init = s.drop_last();
        lemma_join_split_nl(init);
        lemma_split_nl_len(init);
        let r = split_nl(init);
        if s.last() == '\n' {
            let ls = r.push(Seq::<char>::empty());
            assert(ls.drop_last() =~= r);
            assert(join(ls, "\n"@) == join(r, "\n"@) + "\n"@ + Seq::<char>::empty());
            assert(s =~= init + "\n"@ + Seq::<char>::empty());
        } else {
            let ls = r.update(r.len() - 1, r.last().push(s.last()));
            if r.len() == 1 {
                assert(join(r, "\n"@) == r[0]);
                assert(s =~= init.push(s.last()));
            } else {
                assert(ls.drop_last() =~= r.drop_last());
                assert(join(r, "\n"@) == join(r.drop_last(), "\n"@) + "\n"@ + r.last());
                assert(s =~= init.push(s.last()));
                assert(join(ls, "\n"@) =~= join(r, "\n"@).push(s.last()));
            }
        }
    }
}

/// Fence lines are dropped one part at a time.
pub proof fn lemma_unfenced_concat(a: Seq<Seq<char>>, b: Seq<Seq<char>>)
    ensures
        unfenced(a + b) == unfenced(a) + unfenced(b),
    decreases b.len(),
{
    if b.len() == 0 {
        assert(a + b =~= a);
        assert(unfenced(a) + unfenced(b) =~= unfenced(a));
    } else {
        assert((a + b).drop_last() =~= a + b.drop_last());
        assert((a + b).last() == b.last());
        lemma_unfenced_concat(a, b.drop_last());
        if !"```"@.is_prefix_of(b.last()) {
            assert((unfenced(a) + unfenced(b.drop_last())).push(b.last()) =~= unfenced(a) + unfenced(b.drop_last()).push(
                b.last(),
            ));
        }
    }
}

/// Lines none of which opens a fence are all kept.
pub proof fn lemma_unfenced_none(ls: Seq<Seq<char>>)
    requires
        forall|k: int| 0 <= k < ls.len() ==> !"```"@.is_prefix_of(#[trigger] ls[k]),
    ensures
        unfenced(ls) == ls,
    decreases ls.len(),
{
    if ls.len() > 0 {
        lemma_unfenced_none(ls.drop_last());
        assert(ls.drop_last().push(ls.last()) =~= ls);
    }
}

/// A reply fenced as a JSON code block is read as the text between its
/// fence lines: for any text `j` whose lines neither open a fence nor end in
/// `\r`, the JSON text of "```json\n" + j + "\n```" is `j` itself.
pub proof fn law_fenced_replan_reply(j: Seq<char>)
    requires
        forall|k: int| 0 <= k < split_nl(j).len() ==> !"```"@.is_prefix_of(#[trigger] split_nl(j)[k]) && strip_cr(
            split_nl(j)[k],
        ) == split_nl(j)[k],
    ensures
        replan_json_text("```json\n"@ + j + "\n```"@) == j,
{
    reveal_strlit("```json\n");
    reveal_strlit("\n```");
    reveal_strlit("```json");
    reveal_strlit("```");
    let a = "```json"@;
    let f = "```"@;
    let r = "```json\n"@ + j + "\n```"@;
    assert(r =~= a + seq!['\n'] + (j + seq!['\n'] + f));
    // trimming keeps the whole reply: it starts and ends with a backquote
    assert(r[0] == '`');
    assert(r[r.len() - 1] == '`');
    assert(!is_ws('`'));
    lemma_trim_range(r, 0, r.len() as int);
    assert(r.subrange(0, r.len() as int) =~= r);
    assert(trim(r) == r);
    assert("```"@.is_prefix_of(r));
    // its lines: the opening fence, the lines of j, the closing fence
    assert(!a.contains('\n')) by {
        if a.contains('\n') {
            let k = choose|k: int| 0 <= k < a.len() && a[k] == '\n';
        }
    }
    assert(!f.contains('\n')) by {
        if f.contains('\n') {
            let k = choose|k: int| 0 <= k < f.len() && f[k] == '\n';
        }
    }
    lemma_split_nl_one_line(a);
    lemma_split_nl_one_line(f);
    lemma_split_nl_concat(a, j + seq!['\n'] + f);
    lemma_split_nl_concat(j, f);
    let lj = split_nl(j);
    let lines = seq![a] + (lj + seq![f]);
    assert(split_nl(r) == lines);
    let cleaned = lines.map_values(|l: Seq<char>| strip_cr(l));
    assert(strip_cr(a) == a);
    assert(strip_cr(f) == f);
    assert(cleaned =~= seq![a] + (lj + seq![f])) by {
        assert forall|k: int| 0 <= k < cleaned.len() implies cleaned[k] == (seq![a] + (lj + seq![f]))[k] by {
            if 1 <= k <= lj.len() {
                assert(lines[k] == lj[k - 1]);
            }
        }
    }
    lemma_unfenced_concat(seq![a], lj + seq![f]);
    lemma_unfenced_concat(lj, seq![f]);
    lemma_unfenced_none(lj);
    assert(a.subrange(0, 3) =~= "```"@);
    assert("```"@.is_prefix_of(a));
    assert(seq![a].drop_last() =~= Seq::<Seq<char>>::empty());
    assert(seq![a].last() == a);
    assert(unfenced(Seq::<Seq<char>>::empty()) == Seq::<Seq<char>>::empty());
    assert(unfenced(seq![a]) =~= Seq::<Seq<char>>::empty());
    assert(seq![f].drop_last() =~= Seq::<Seq<char>>::empty());
    assert(seq![f].last() == f);
    assert(unfenced(seq![f]) =~= Seq::<Seq<char>>::empty());
    assert(unfenced(cleaned) =~= lj);
    lemma_join_split_nl(j);
}

/// Fencing a reply as a JSON code block does not change what it parses to:
/// for a trimmed text `j` that does not open a fence and whose lines neither
/// open a fence nor end in `\r`, "```json\n" + j + "\n```" gives the same
/// steps, or the same error, as `j`.
pub proof fn law_fenced_replan_parses_alike(j: Seq<char>)
    requires
        trim(j) == j,
        !"```"@.is_prefix_of(j),
        forall|k: int| 0 <= k < split_nl(j).len() ==> !"```"@.is_prefix_of(#[trigger] split_nl(j)[k]) && strip_cr(
            split_nl(j)[k],
        ) == split_nl(j)[k],
    ensures
        spec_parse_replan("```json\n"@ + j + "\n```"@) == spec_parse_replan(j),
{
    law_fenced_replan_reply(j);
}

/// `decode_step` as a function of position and value.
pub open spec fn decode_step_fn() -> spec_fn(int, JsonModel) -> Result<PlanStepView, Seq<char>> {
    |i: int, j: JsonModel| decode_step(j)
}

/// What a replan reply yields: the new steps, or an error message.
pub open spec fn spec_parse_replan(response: Seq<char>) -> Result<Seq<PlanStepView>, Seq<char>> {
    match json_parse(replan_json_text(response)) {
        Err(e) => Err("Failed to parse replan response: "@ + e),
        Ok(JsonModel::Array(items)) => match try_map(items, decode_step_fn()) {
            Err(e) => Err("Failed to parse replan response: "@ + e),
            Ok(steps) => Ok(steps),
        },
        Ok(_) => Err("Failed to parse replan response: "@ + "invalid type: expected a sequence of steps"@),
    }
}

/// The JSON text of a replan reply.
fn replan_json(response: &str) -> (r: String)
    ensures
        r@ == replan_json_text(response@),
{
    let all = to_chars(response);
    let t = trim_vec(&all);
    let fence = to_chars("```");
    if !has_at(&t, 0, &fence) {
        proof {
            if fence@.len() <= t@.len() {
                assert(t@.subrange(0, 3) =~= t@.take(3));
            }
        }
        let n = t.len();
        let r = string_of(&t, 0, n);
        assert(t@.subrange(0, n as int) =~= t@);
        return r;
    }
    assert(t@.subrange(0, 3) =~= t@.take(3));
    let lines = split_lines(&t);
    let ghost ls = lines@.map_values(|l: Vec<char>| l@).map_values(|l: Seq<char>| strip_cr(l));
    let mut kept: Vec<String> = Vec::new();
    let mut k: usize = 0;
    assert(ls.take(0) =~= Seq::<Seq<char>>::empty());
    while k < lines.len()
        invariant
            k <= lines.len(),
            ls == lines@.map_values(|l: Vec<char>| l@).map_values(|l: Seq<char>| strip_cr(l)),
            fence@ == "```"@,
            kept@.map_values(|s: String| s@) == unfenced(ls.take(k as int)),
        decreases lines.len() - k,
    {
        let l = &lines[k];
        let n = l.len();
        let end = if n > 0 && l[n - 1] == '\r' { n - 1 } else { n };
        let stripped = string_of(l, 0, end);
        proof {
            assert(ls[k as int] == strip_cr(l@));
            if n > 0 && l@[n - 1] == '\r' {
                assert(l@.subrange(0, end as int) =~= l@.drop_last());
            } else {
                assert(l@.subrange(0, end as int) =~= l@);
            }
            assert(ls.take(k + 1).drop_last() =~= ls.take(k as int));
            assert(ls.take(k + 1).last() == ls[k as int]);
        }
        let sv = to_chars(stripped.as_str());
        let fenced = has_at(&sv, 0, &fence);
        proof {
            if fence@.len() <= sv@.len() {
                assert(sv@.subrange(0, 3) =~= sv@.take(3));
            }
        }
        if !fenced {
            let ghost prev = kept@;
            kept.push(stripped);
            assert(kept@.map_values(|s: String| s@) =~= prev.map_values(|s: String| s@).push(sv@));
        }
        k += 1;
    }
    assert(ls.take(k as int) =~= ls);
    join_strings_vec(&kept)
}

fn join_strings_vec(v: &Vec<String>) -> (r: String)
    ensures
        r@ == join(v@.map_values(|s: String| s@), "\n"@),
{
    crate::text::join_strings(v.as_slice(), "\n")
}

/// Reads the steps of a replan reply: a JSON array of steps, possibly inside
/// a Markdown code fence.
pub fn parse_replan_response(response: &str) -> (r: Result<Vec<PlanStep>, String>)
    ensures
        match spec_parse_replan(response@) {
            Ok(steps) => r matches Ok(v) && steps_view(v@) == steps,
            Err(m) => r matches Err(e) && e@ == m,
        },
{
    let text = replan_json(response);
    let value = match parse_json(text.as_str()) {
        Ok(v) => v,
        Err(e) => {
            let mut m = owned("Failed to parse replan response: ");
            m.append(e.as_str());
            return Err(m);
        },
    };
    let items = match json_as_array(&value) {
        Some(a) => a,
        None => {
            let mut m = owned("Failed to parse replan response: ");
            m.append("invalid type: expected a sequence of steps");
            return Err(m);
        },
    };
    let ghost model = views(items@);
    let ghost f = decode_step_fn();
    let mut steps: Vec<PlanStep> = Vec::new();
    let mut i: usize = 0;
    proof {
        lemma_try_map_empty(model, f);
        assert(steps_view(steps@) =~= Seq::<PlanStepView>::empty());
    }
    while i < items.len()
        invariant
            i <= items.len(),
            model == views(items@),
            f == decode_step_fn(),
            text@ == replan_json_text(response@),
            json_parse(replan_json_text(response@)) == Ok::<JsonModel, Seq<char>>(JsonModel::Array(model)),
            try_map(model.take(i as int), f) == Ok::<Seq<PlanStepView>, Seq<char>>(steps_view(steps@)),
        decreases items.len() - i,
    {
        proof {
            lemma_try_map_step(model, f, i as int);
        }
        assert(model[i as int] == crate::json::json_view(items@[i as int]));
        match decode_plan_step(&items[i]) {
            Ok(s) => {
                let ghost prev = steps@;
                let ghost sv = s@;
                steps.push(s);
                assert(steps_view(steps@) =~= steps_view(prev).push(sv));
            },
            Err(e) => {
                proof {
                    lemma_try_map_prefix_err(model, f, i + 1);
                }
                let mut m = owned("Failed to parse replan response: ");
                m.append(e.as_str());
                return Err(m);
            },
        }
        i += 1;
    }
    proof {
        lemma_try_map_full(model, f);
    }
    Ok(steps)
}

// ---------------------------------------------------------------------------
// Reasoning steps
// ---------------------------------------------------------------------------

/// The message of a reasoning step.
pub open spec fn reasoning_message_text(goal: Seq<char>, context: Seq<char>) -> Seq<char> {
    "【推理目标】\n"@ + goal + "\n\n"@ + (if context.len() > 0 {
        "【上下文信息】\n"@ + context + "\n\n"@
    } else {
        Seq::empty()
    }) + "请根据以上信息完成推理，直接输出结果。"@
}

/// Builds the message of a reasoning step: its goal, the context when not
/// empty, and the instruction to answer directly.
pub fn build_reasoning_message(step_goal: &str, context_inputs: &str) -> (r: String)
    ensures
        r@ == reasoning_message_text(step_goal@, context_inputs@),
{
    let mut m = owned("【推理目标】\n");
    m.append(step_goal);
    m.append("\n\n");
    let ghost a = m@;
    if !context_inputs.is_empty() {
        m.append("【上下文信息】\n");
        m.append(context_inputs);
        m.append("\n\n");
        assert(m@ =~= a + ("【上下文信息】\n"@ + context_inputs@ + "\n\n"@));
    } else {
        assert(m@ =~= a + Seq::<char>::empty());
    }
    m.append("请根据以上信息完成推理，直接输出结果。");
    m
}

} // verus!
