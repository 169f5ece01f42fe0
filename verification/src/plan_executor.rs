//! The decisions of the plan executor.
//!
//! A plan runs as Goal → Plan → Execute → Observe → Replan → Complete. The
//! caller performs the outside work (running a tool or the model, asking for
//! a new plan) and hands the outcome to a [`PlanRun`], which decides what
//! comes next and which events to report.
use vstd::prelude::*;
use vstd::string::StringExecFns;
use vstd::utf8::encode_utf8;
use crate::types::StepType;
use crate::plans::{PlanStep, PlanStepView, steps_view};
use crate::plan_types::{
    Decision, ObserveDecision, PlanError, PlanResult, PlanStopReason, PlanStreamEvent, StepExecResult,
    StepObservation, StepResult, decision_view, plan_error_text,
};
use crate::step_context::{ContextView, StepContext, ctx_duration, ctx_output, step_output, step_tool};
use crate::message_context::{MessageContext, is_plain, observation_text, retry_text, skipped_text};
use crate::types::{ChatMessage, Role, ToolDefinition};
use crate::text::{dec, owned, push_dec};

verus! {

// ---------------------------------------------------------------------------
// Ordering the steps
// ---------------------------------------------------------------------------

/// `s` with `x` inserted after every element whose order is not above
/// `x`'s (the insertion step of a stable sort).
pub open spec fn insert_by_order(s: Seq<PlanStepView>, x: PlanStepView) -> Seq<PlanStepView>
    decreases s.len(),
{
    if s.len() == 0 {
        seq![x]
    } else if s.last().order <= x.order {
        s.push(x)
    } else {
        insert_by_order(s.drop_last(), x).push(s.last())
    }
}

/// The steps sorted by order, steps of equal order kept in the order they
/// were given (`sort_by_key(|s| s.order)`).
pub open spec fn sort_by_order(s: Seq<PlanStepView>) -> Seq<PlanStepView>
    decreases s.len(),
{
    if s.len() == 0 {
        s
    } else {
        insert_by_order(sort_by_order(s.drop_last()), s.last())
    }
}

/// Whether the steps come in non-decreasing order.
pub open spec fn ordered(s: Seq<PlanStepView>) -> bool {
    forall|i: int, j: int| 0 <= i < j < s.len() ==> s[i].order <= s[j].order
}

proof fn lemma_insert_at(s: Seq<PlanStepView>, x: PlanStepView, p: int)
    requires
        0 <= p <= s.len(),
        forall|k: int| p <= k < s.len() ==> #[trigger] s[k].order > x.order,
        p == 0 || s[p - 1].order <= x.order,
    ensures
        insert_by_order(s, x) =~= s.take(p).push(x) + s.skip(p),
    decreases s.len(),
{
    if s.len() == 0 {
    } else if p == s.len() {
        assert(s.skip(p) =~= Seq::<PlanStepView>::empty());
        assert(s.take(p) =~= s);
    } else {
        assert(s.last().order > x.order);
        lemma_insert_at(s.drop_last(), x, p);
        assert(s.drop_last().take(p) =~= s.take(p));
        assert(s.drop_last().skip(p).push(s.last()) =~= s.skip(p));
    }
}

/// Inserting keeps a sequence ordered and adds exactly `x`.
pub proof fn lemma_insert_ordered(s: Seq<PlanStepView>, x: PlanStepView)
    requires
        ordered(s),
    ensures
        ordered(insert_by_order(s, x)),
        insert_by_order(s, x).to_multiset() == s.push(x).to_multiset(),
    decreases s.len(),
{
    broadcast use vstd::seq_lib::group_to_multiset_ensures;

    if s.len() == 0 {
        assert(seq![x] =~= s.push(x));
    } else if s.last().order <= x.order {
    } else {
        let d = s.drop_last();
        assert(ordered(d));
        lemma_insert_ordered(d, x);
        let r = insert_by_order(d, x);
        assert(insert_by_order(s, x) == r.push(s.last()));
        assert(s =~= d.push(s.last()));
        assert(r.push(s.last()).to_multiset() =~= s.push(x).to_multiset());
        assert forall|i: int, j: int| 0 <= i < j < r.push(s.last()).len() implies r.push(s.last())[i].order
            <= r.push(s.last())[j].order by {
            if j == r.len() {
                assert(r.contains(r[i]));
                assert(r.to_multiset().count(r[i]) > 0);
                assert(d.push(x).contains(r[i]));
                if r[i] != x {
                    let k = choose|k: int| 0 <= k < d.push(x).len() && d.push(x)[k] == r[i];
                    assert(k < d.len());
                    assert(s[k] == d[k]);
                }
            }
        }
    }
}

/// The sorted steps are ordered and hold the same steps.
pub proof fn law_sort_by_order(s: Seq<PlanStepView>)
    ensures
        ordered(sort_by_order(s)),
        sort_by_order(s).to_multiset() == s.to_multiset(),
    decreases s.len(),
{
    broadcast use vstd::seq_lib::group_to_multiset_ensures;

    if s.len() > 0 {
        let d = s.drop_last();
        law_sort_by_order(d);
        lemma_insert_ordered(sort_by_order(d), s.last());
        assert(s =~= d.push(s.last()));
        assert(sort_by_order(s).to_multiset() =~= s.to_multiset());
    }
}

/// Sorts the steps by order; steps of equal order keep their relative order.
pub fn sort_steps(steps: Vec<PlanStep>) -> (r: Vec<PlanStep>)
    ensures
        steps_view(r@) == sort_by_order(steps_view(steps@)),
{
    let ghost all = steps_view(steps@);
    let mut rest = steps;
    let mut out: Vec<PlanStep> = Vec::new();
    let ghost mut i: int = 0;
    while rest.len() > 0
        invariant
            0 <= i <= all.len(),
            i + rest@.len() == all.len(),
            steps_view(rest@) == all.skip(i),
            steps_view(out@) == sort_by_order(all.take(i)),
        decreases rest.len(),
    {
        let ghost old_rest = rest@;
        let x = rest.remove(0);
        proof {
            assert(steps_view(old_rest)[0] == x@);
            assert(all.skip(i)[0] == x@);
            assert(steps_view(rest@) =~= steps_view(old_rest).drop_first());
            assert(all.skip(i).drop_first() =~= all.skip(i + 1));
        }
        let mut p = out.len();
        while p > 0 && out[p - 1].order > x.order
            invariant
                p <= out@.len(),
                forall|k: int| p <= k < out@.len() ==> #[trigger] steps_view(out@)[k].order > x@.order,
            decreases p,
        {
            p -= 1;
        }
        let ghost before = steps_view(out@);
        proof {
            lemma_insert_at(before, x@, p as int);
            assert(all.take(i + 1).drop_last() =~= all.take(i));
            assert(all.take(i + 1).last() == x@);
        }
        out.insert(p, x);
        proof {
            assert(steps_view(out@) =~= before.take(p as int).push(x@) + before.skip(p as int));
            i = i + 1;
        }
    }
    proof {
        assert(all.take(i) =~= all);
    }
    out
}

// ---------------------------------------------------------------------------
// The observe phase
// ---------------------------------------------------------------------------

/// The output of a step as text: its last action's output, else empty.
pub open spec fn output_of(s: PlanStepView) -> Seq<char> {
    match step_output(s) {
        Some(o) => o,
        None => Seq::empty(),
    }
}

/// The size of a text in bytes (UTF-8), as `str::len` gives it.
pub open spec fn byte_len(s: Seq<char>) -> usize {
    encode_utf8(s).len() as usize
}

/// The observation of a step's outcome: whether it succeeded, the summary,
/// and the decision. A step succeeds when its output is not empty; a failed
/// step is retried while retries are left; an empty output then skips the
/// step; an error asks for a new plan when `replan_possible` (a model is
/// configured and steps follow), else skips the step.
pub open spec fn observe_spec(outcome: Result<PlanStepView, Seq<char>>, retry: u8, max_retries: u8, replan_possible: bool) -> (bool, Seq<char>, Decision) {
    match outcome {
        Ok(s) => if output_of(s).len() > 0 {
            (true, "输出长度: "@ + dec(byte_len(output_of(s)) as nat) + " 字符"@, Decision::Continue)
        } else {
            (
                false,
                "步骤执行完毕但输出为空"@,
                if retry < max_retries {
                    Decision::Retry
                } else {
                    Decision::Skip("步骤输出为空且重试次数已耗尽"@)
                },
            )
        },
        Err(m) => (
            false,
            m,
            if retry < max_retries {
                Decision::Retry
            } else if replan_possible {
                Decision::Replan(m)
            } else {
                Decision::Skip(m)
            },
        ),
    }
}

/// A step's observation decides to go on exactly when the step succeeded;
/// it retries exactly when the step failed and retries are left; and once
/// they are used up, a failed step is skipped or, for an error with a
/// possible new plan, replanned.
pub proof fn law_observe_decisions(outcome: Result<PlanStepView, Seq<char>>, retry: u8, max_retries: u8, replan_possible: bool)
    ensures
        ({
            let (success, _summary, d) = observe_spec(outcome, retry, max_retries, replan_possible);
            &&& (d == Decision::Continue) == success
            &&& (d == Decision::Retry) == (!success && retry < max_retries)
            &&& success == (outcome matches Ok(st) && output_of(st).len() > 0)
            &&& (!success && retry >= max_retries) ==> (d is Skip || (d is Replan && outcome is Err && replan_possible))
        }),
{
}

/// The plain form of a step's outcome: the executed step, or the error text.
pub open spec fn outcome_view(o: Result<StepExecResult, PlanError>) -> Result<PlanStepView, Seq<char>> {
    match o {
        Ok(r) => Ok(r.step@),
        Err(e) => Err(plan_error_text(e)),
    }
}

/// The output of a step, as text.
fn output_text(s: &PlanStep) -> (r: String)
    ensures
        r@ == output_of(s@),
{
    let n = s.actions.len();
    if n == 0 {
        String::new()
    } else {
        match &s.actions[n - 1].output {
            Some(o) => owned(o.as_str()),
            None => String::new(),
        }
    }
}

/// Observes the outcome of step `step_order` (see [`observe_spec`]).
pub fn observe(
    step_order: u8,
    outcome: &Result<StepExecResult, PlanError>,
    retry_count: u8,
    max_retries: u8,
    replan_possible: bool,
) -> (r: StepObservation)
    ensures
        r.step_order == step_order,
        (r.success, r.summary@, decision_view(r.decision)) == observe_spec(
            outcome_view(*outcome),
            retry_count,
            max_retries,
            replan_possible,
        ),
{
    match outcome {
        Ok(res) => {
            let out = output_text(&res.step);
            if !out.as_str().is_empty() {
                let mut summary = owned("输出长度: ");
                let os = out.as_str();
                let b = os.len();
                assert(os@ == out@);
                assert(b == byte_len(out@));
                push_dec(&mut summary, b as u64);
                summary.append(" 字符");
                StepObservation { step_order, success: true, summary, decision: ObserveDecision::ContinueNext }
            } else {
                let decision = if retry_count < max_retries {
                    ObserveDecision::RetryCurrent
                } else {
                    ObserveDecision::SkipStep { reason: owned("步骤输出为空且重试次数已耗尽") }
                };
                StepObservation { step_order, success: false, summary: owned("步骤执行完毕但输出为空"), decision }
            }
        },
        Err(e) => {
            let reason = e.text();
            let decision = if retry_count < max_retries {
                ObserveDecision::RetryCurrent
            } else if replan_possible {
                ObserveDecision::ReplanRequired { reason: owned(reason.as_str()) }
            } else {
                ObserveDecision::SkipStep { reason: owned(reason.as_str()) }
            };
            StepObservation { step_order, success: false, summary: reason, decision }
        },
    }
}


// ---------------------------------------------------------------------------
// Settings
// ---------------------------------------------------------------------------

/// The limits and tools of a plan executor.
pub struct PlanSettings {
    /// The model for reasoning and exploratory steps; empty when none is set.
    pub model: String,
    /// The tools that deterministic steps may call; empty means any.
    pub tool_names: Vec<String>,
    pub max_steps: u8,
    pub max_retries: u8,
    /// How many tools an exploratory step may call.
    pub max_exploratory_calls: u8,
}

/// Whether a deterministic step may call `name`: any tool when no list is
/// configured, else the listed ones.
pub open spec fn tool_allowed(tools: Seq<Seq<char>>, name: Seq<char>) -> bool {
    tools.len() == 0 || tools.contains(name)
}

impl PlanSettings {
    /// No model, any tool, at most 50 steps, 2 retries and 5 tool calls per
    /// exploratory step.
    pub fn new() -> (r: PlanSettings)
        ensures
            r.model@.len() == 0,
            r.tool_names@.len() == 0,
            r.max_steps == 50,
            r.max_retries == 2,
            r.max_exploratory_calls == 5,
    {
        PlanSettings { model: String::new(), tool_names: Vec::new(), max_steps: 50, max_retries: 2, max_exploratory_calls: 5 }
    }

    /// Sets the model.
    pub fn with_model(self, model: &str) -> (r: PlanSettings)
        ensures
            r.model@ == model@,
            r.tool_names == self.tool_names,
            r.max_steps == self.max_steps,
            r.max_retries == self.max_retries,
            r.max_exploratory_calls == self.max_exploratory_calls,
    {
        PlanSettings { model: owned(model), ..self }
    }

    /// Sets the callable tools to those of `tools`.
    pub fn with_available_tools(self, tools: &[ToolDefinition]) -> (r: PlanSettings)
        ensures
            r.tool_names@.map_values(|n: String| n@) == tools@.map_values(|t: ToolDefinition| t.function.name@),
            r.model == self.model,
            r.max_steps == self.max_steps,
            r.max_retries == self.max_retries,
            r.max_exploratory_calls == self.max_exploratory_calls,
    {
        let mut names: Vec<String> = Vec::new();
        let mut i: usize = 0;
        while i < tools.len()
            invariant
                i <= tools@.len(),
                names@.map_values(|n: String| n@) == tools@.take(i as int).map_values(|t: ToolDefinition| t.function.name@),
            decreases tools.len() - i,
        {
            let ghost prev = names@.map_values(|n: String| n@);
            let nm = owned(tools[i].function.name.as_str());
            let ghost nv = nm@;
            names.push(nm);
            assert(tools@.take(i + 1) =~= tools@.take(i as int).push(tools@[i as int]));
            assert(names@.map_values(|n: String| n@) =~= prev.push(nv));
            i += 1;
        }
        assert(tools@.take(i as int) =~= tools@);
        PlanSettings { tool_names: names, ..self }
    }

    /// Sets the largest number of steps.
    pub fn with_max_steps(self, max: u8) -> (r: PlanSettings)
        ensures
            r.max_steps == max,
            r.model == self.model,
            r.tool_names == self.tool_names,
            r.max_retries == self.max_retries,
            r.max_exploratory_calls == self.max_exploratory_calls,
    {
        PlanSettings { max_steps: max, ..self }
    }

    /// Sets how often a failed step is retried.
    pub fn with_max_retries(self, max: u8) -> (r: PlanSettings)
        ensures
            r.max_retries == max,
            r.model == self.model,
            r.tool_names == self.tool_names,
            r.max_steps == self.max_steps,
            r.max_exploratory_calls == self.max_exploratory_calls,
    {
        PlanSettings { max_retries: max, ..self }
    }

    /// Sets how many tools an exploratory step may call.
    pub fn with_max_exploratory_calls(self, max: u8) -> (r: PlanSettings)
        ensures
            r.max_exploratory_calls == max,
            r.model == self.model,
            r.tool_names == self.tool_names,
            r.max_steps == self.max_steps,
            r.max_retries == self.max_retries,
    {
        PlanSettings { max_exploratory_calls: max, ..self }
    }

    /// Whether a deterministic step may call `tool_name`.
    pub fn tool_exists(&self, tool_name: &str) -> (r: bool)
        ensures
            r == tool_allowed(self.tool_names@.map_values(|n: String| n@), tool_name@),
    {
        let ghost names = self.tool_names@.map_values(|n: String| n@);
        if self.tool_names.len() == 0 {
            return true;
        }
        let key = owned(tool_name);
        let mut i: usize = 0;
        while i < self.tool_names.len()
            invariant
                i <= self.tool_names@.len(),
                names == self.tool_names@.map_values(|n: String| n@),
                key@ == tool_name@,
                forall|k: int| 0 <= k < i ==> names[k] != tool_name@,
            decreases self.tool_names.len() - i,
        {
            if self.tool_names[i] == key {
                assert(names[i as int] == tool_name@);
                return true;
            }
            i += 1;
        }
        false
    }
}

// ---------------------------------------------------------------------------
// The run
// ---------------------------------------------------------------------------

proof fn lemma_steps_len(v: Seq<PlanStep>)
    ensures
        steps_view(v).len() == v.len(),
{
}

/// What the caller does next.
#[derive(Debug, Clone, Copy, PartialEq, Eq, Structural)]
pub enum Advance {
    /// Run the current step, then hand its outcome to [`PlanRun::record_outcome`].
    Execute,
    /// The step was skipped; ask again.
    Skipped,
    /// The run is over; call [`PlanRun::finish`].
    Finished,
}

/// A [`PlanRun`] as plain data.
pub struct PlanRunView {
    /// The steps, sorted by order (later steps may be replaced by a new plan).
    pub steps: Seq<PlanStepView>,
    /// The position of the current step.
    pub idx: int,
    /// Retries of the current step so far.
    pub retry: u8,
    pub ctx: ContextView,
    pub final_reply: Seq<char>,
    pub stop: PlanStopReason,
    pub finished: bool,
    /// Whether the run started with steps (and reported its start).
    pub announced: bool,
    /// Whether a new plan for the remaining steps is awaited.
    pub awaiting_replan: bool,
    /// The number of steps of the plan as given (after the step limit).
    pub total: u8,
    pub max_retries: u8,
    /// Whether a model provider is at hand (a precondition of replanning).
    pub has_llm: bool,
    pub tools: Seq<Seq<char>>,
}

/// The state of one execution of a plan.
pub struct PlanRun {
    steps: Vec<PlanStep>,
    idx: usize,
    retry_count: u8,
    context: StepContext,
    final_reply: String,
    stop_reason: PlanStopReason,
    finished: bool,
    announced: bool,
    awaiting_replan: bool,
    total_steps: u8,
    max_retries: u8,
    has_llm: bool,
    tool_names: Vec<String>,
}

impl View for PlanRun {
    type V = PlanRunView;

    closed spec fn view(&self) -> PlanRunView {
        PlanRunView {
            steps: steps_view(self.steps@),
            idx: self.idx as int,
            retry: self.retry_count,
            ctx: self.context@,
            final_reply: self.final_reply@,
            stop: self.stop_reason,
            finished: self.finished,
            announced: self.announced,
            awaiting_replan: self.awaiting_replan,
            total: self.total_steps,
            max_retries: self.max_retries,
            has_llm: self.has_llm,
            tools: self.tool_names@.map_values(|n: String| n@),
        }
    }
}

/// Whether every dependency ran, produced an output, and was not skipped.
pub open spec fn deps_ready(deps: Seq<u8>, ctx: ContextView) -> bool {
    forall|k: int| 0 <= k < deps.len() ==> !ctx.skipped.contains(#[trigger] deps[k]) && ctx_output(ctx, deps[k]) is Some
}

/// A step waits on all of its dependencies: one that was skipped or gave no
/// output, wherever it stands in the list, makes the step not ready.
pub proof fn law_deps_ready_needs_every_dependency(deps: Seq<u8>, ctx: ContextView, k: int)
    requires
        0 <= k < deps.len(),
        ctx.skipped.contains(deps[k]) || ctx_output(ctx, deps[k]) is None,
    ensures
        !deps_ready(deps, ctx),
{
}

/// Readiness on two lists of dependencies together is readiness on each.
pub proof fn law_deps_ready_concat(a: Seq<u8>, b: Seq<u8>, ctx: ContextView)
    ensures
        deps_ready(a + b, ctx) == (deps_ready(a, ctx) && deps_ready(b, ctx)),
{
    let ab = a + b;
    if deps_ready(a, ctx) && deps_ready(b, ctx) {
        assert forall|k: int| 0 <= k < ab.len() implies !ctx.skipped.contains(#[trigger] ab[k]) && ctx_output(ctx, ab[k]) is Some by {
            if k < a.len() {
                assert(ab[k] == a[k]);
            } else {
                assert(ab[k] == b[k - a.len()]);
            }
        }
    }
    if deps_ready(ab, ctx) {
        assert forall|k: int| 0 <= k < a.len() implies !ctx.skipped.contains(#[trigger] a[k]) && ctx_output(ctx, a[k]) is Some by {
            assert(ab[k] == a[k]);
        }
        assert forall|k: int| 0 <= k < b.len() implies !ctx.skipped.contains(#[trigger] b[k]) && ctx_output(ctx, b[k]) is Some by {
            assert(ab[k + a.len()] == b[k]);
        }
    }
}

/// The step being worked on.
pub open spec fn current(v: PlanRunView) -> PlanStepView {
    v.steps[v.idx]
}

/// The state after skipping the current step (numbered `order`): the last
/// step of the plan ends the run with `stop`, any other moves on.
pub open spec fn skip_current(v: PlanRunView, order: u8, stop: PlanStopReason) -> PlanRunView {
    let ctx = ContextView { skipped: v.ctx.skipped.push(order), ..v.ctx };
    if order == v.total {
        PlanRunView { ctx, finished: true, stop, ..v }
    } else {
        PlanRunView { ctx, idx: v.idx + 1, ..v }
    }
}

/// `Dependency not satisfied for step {order}`.
pub open spec fn dependency_reason(order: u8) -> Seq<char> {
    "Dependency not satisfied for step "@ + dec(order as nat)
}

/// `Tool not found: {tool}`.
pub open spec fn missing_tool_reason(tool: Seq<char>) -> Seq<char> {
    "Tool not found: "@ + tool
}

/// Whether `e` reports that step `order` was skipped for `reason`.
pub open spec fn is_skip_event(e: PlanStreamEvent, order: u8, reason: Seq<char>) -> bool {
    e matches PlanStreamEvent::StepSkipped { step, reason: r } && step == order && r@ == reason
}

/// The names of a step's tools, each once, in the order first used.
pub open spec fn distinct_tools(actions: Seq<crate::plans::SubActionView>) -> Seq<Seq<char>>
    decreases actions.len(),
{
    if actions.len() == 0 {
        Seq::empty()
    } else {
        let d = distinct_tools(actions.drop_last());
        if d.contains(actions.last().tool_name) {
            d
        } else {
            d.push(actions.last().tool_name)
        }
    }
}

/// Whether `after` is `before` with plain messages of these roles and
/// contents appended, in order.
pub open spec fn appended_all(before: Seq<ChatMessage>, after: Seq<ChatMessage>, msgs: Seq<(Role, Seq<char>)>) -> bool {
    &&& after.len() == before.len() + msgs.len()
    &&& after.take(before.len() as int) == before
    &&& forall|k: int| 0 <= k < msgs.len() ==> is_plain(#[trigger] after[before.len() + k], msgs[k].0, msgs[k].1)
}

fn distinct_tool_names(step: &PlanStep) -> (r: Vec<String>)
    ensures
        r@.map_values(|n: String| n@) == distinct_tools(step@.actions),
{
    let mut names: Vec<String> = Vec::new();
    let mut i: usize = 0;
    while i < step.actions.len()
        invariant
            i <= step.actions@.len(),
            names@.map_values(|n: String| n@) == distinct_tools(step@.actions.take(i as int)),
        decreases step.actions.len() - i,
    {
        let ghost before = names@.map_values(|n: String| n@);
        let ghost acts = step@.actions.take(i + 1);
        assert(acts.drop_last() =~= step@.actions.take(i as int));
        assert(acts.last() == step@.actions[i as int]);
        let t = &step.actions[i].tool_name;
        let mut seen = false;
        let mut j: usize = 0;
        while j < names.len()
            invariant
                j <= names@.len(),
                before == names@.map_values(|n: String| n@),
                seen == (exists|k: int| 0 <= k < j && #[trigger] before[k] == t@),
            decreases names.len() - j,
        {
            if names[j] == *t {
                assert(before[j as int] == t@);
                seen = true;
            }
            j += 1;
        }
        if !seen {
            names.push(owned(t.as_str()));
            assert(names@.map_values(|n: String| n@) =~= before.push(t@));
        } else {
            assert(before.contains(t@));
        }
        i += 1;
    }
    assert(step@.actions.take(i as int) =~= step@.actions);
    names
}

impl PlanRun {
    /// Starts a run: sorts the steps by order, keeps the first `max_steps`,
    /// and reports the start. A plan without steps is over at once, with
    /// nothing to report.
    pub fn start(steps: Vec<PlanStep>, settings: &PlanSettings, has_llm: bool) -> (r: (PlanRun, Vec<PlanStreamEvent>))
        ensures
            steps@.len() == 0 ==> {
                &&& r.0@.finished
                &&& !r.0@.announced
                &&& r.0@.total == 0
                &&& r.0@.ctx.records.len() == 0
                &&& r.0@.final_reply.len() == 0
                &&& r.0@.stop == PlanStopReason::Completed
                &&& r.1@.len() == 0
            },
            steps@.len() > 0 ==> {
                &&& r.0@.steps == (if steps@.len() <= settings.max_steps {
                    sort_by_order(steps_view(steps@))
                } else {
                    sort_by_order(steps_view(steps@)).take(settings.max_steps as int)
                })
                &&& r.0@.total == r.0@.steps.len()
                &&& r.0@.idx == 0
                &&& r.0@.retry == 0
                &&& r.0@.ctx.records.len() == 0
                &&& r.0@.ctx.skipped.len() == 0
                &&& r.0@.final_reply.len() == 0
                &&& r.0@.stop == PlanStopReason::Completed
                &&& !r.0@.finished
                &&& r.0@.announced
                &&& !r.0@.awaiting_replan
                &&& r.1@.len() == 1
                &&& r.1@[0] matches PlanStreamEvent::PlanStart { total_steps, reasoning } && total_steps == r.0@.total
                    && reasoning@.len() == 0
            },
            r.0@.max_retries == settings.max_retries,
            r.0@.has_llm == has_llm,
            r.0@.tools == settings.tool_names@.map_values(|n: String| n@),
    {
        let mut names: Vec<String> = Vec::new();
        let mut i: usize = 0;
        while i < settings.tool_names.len()
            invariant
                i <= settings.tool_names@.len(),
                names@.map_values(|n: String| n@) == settings.tool_names@.take(i as int).map_values(|n: String| n@),
            decreases settings.tool_names.len() - i,
        {
            let ghost prev = names@.map_values(|n: String| n@);
            let nm = owned(settings.tool_names[i].as_str());
            let ghost nv = nm@;
            names.push(nm);
            assert(settings.tool_names@.take(i + 1) =~= settings.tool_names@.take(i as int).push(settings.tool_names@[i as int]));
            assert(names@.map_values(|n: String| n@) =~= prev.push(nv));
            i += 1;
        }
        assert(settings.tool_names@.take(i as int) =~= settings.tool_names@);
        let mut events: Vec<PlanStreamEvent> = Vec::new();
        if steps.len() == 0 {
            let run = PlanRun {
                steps: Vec::new(),
                idx: 0,
                retry_count: 0,
                context: StepContext::new(),
                final_reply: String::new(),
                stop_reason: PlanStopReason::Completed,
                finished: true,
                announced: false,
                awaiting_replan: false,
                total_steps: 0,
                max_retries: settings.max_retries,
                has_llm,
                tool_names: names,
            };
            return (run, events);
        }
        let mut sorted = sort_steps(steps);
        let ghost full = steps_view(sorted@);
        sorted.truncate(settings.max_steps as usize);
        assert(steps_view(sorted@) =~= (if full.len() <= settings.max_steps {
            full
        } else {
            full.take(settings.max_steps as int)
        }));
        proof {
            broadcast use vstd::seq_lib::group_to_multiset_ensures;

            law_sort_by_order(steps_view(steps@));
            let sv = steps_view(steps@);
            assert(sort_by_order(sv).to_multiset().len() == sort_by_order(sv).len());
            assert(sv.to_multiset().len() == sv.len());
            assert(full.len() == sv.len());
            assert(steps_view(sorted@).len() == sorted@.len());
        }
        let total = sorted.len() as u8;
        events.push(PlanStreamEvent::PlanStart { total_steps: total, reasoning: String::new() });
        let run = PlanRun {
            steps: sorted,
            idx: 0,
            retry_count: 0,
            context: StepContext::new(),
            final_reply: String::new(),
            stop_reason: PlanStopReason::Completed,
            finished: false,
            announced: true,
            awaiting_replan: false,
            total_steps: total,
            max_retries: settings.max_retries,
            has_llm,
            tool_names: names,
        };
        (run, events)
    }

    /// The step to run when [`PlanRun::advance`] says `Execute`.
    pub fn current_step(&self) -> (r: &PlanStep)
        requires
            0 <= self@.idx < self@.steps.len(),
        ensures
            r@ == current(self@),
    {
        &self.steps[self.idx]
    }

    /// The steps of the run (those after the current one are the remaining
    /// plan).
    pub fn steps(&self) -> (r: &[PlanStep])
        ensures
            steps_view(r@) == self@.steps,
    {
        self.steps.as_slice()
    }

    /// The position of the current step.
    pub fn index(&self) -> (r: usize)
        ensures
            r == self@.idx,
    {
        self.idx
    }

    /// What the executed steps produced so far.
    pub fn context(&self) -> (r: &StepContext)
        ensures
            r@ == self@.ctx,
    {
        &self.context
    }

    /// Whether the run is over.
    pub fn is_finished(&self) -> (r: bool)
        ensures
            r == self@.finished,
    {
        self.finished
    }

    /// Checks the current step before it runs. The run ends when no step is
    /// left or the user aborted; a step whose dependencies were skipped or
    /// gave no output is skipped, and so is a deterministic step whose tool
    /// is unknown; a skipped last step ends the run. Otherwise the step is to
    /// be executed.
    pub fn advance(&mut self, aborted: bool, msg: &mut MessageContext) -> (r: (Advance, Vec<PlanStreamEvent>))
        requires
            !old(self)@.finished,
            !old(self)@.awaiting_replan,
        ensures
            ({
                let v = old(self)@;
                let w = final(self)@;
                if v.idx >= v.steps.len() {
                    &&& r.0 == Advance::Finished
                    &&& r.1@.len() == 0
                    &&& w == PlanRunView { finished: true, ..v }
                    &&& final(msg)@ == old(msg)@
                } else if aborted {
                    &&& r.0 == Advance::Finished
                    &&& r.1@.len() == 1
                    &&& r.1@[0] is PlanAbort
                    &&& w == PlanRunView { finished: true, stop: PlanStopReason::UserAbort, ..v }
                    &&& final(msg)@ == old(msg)@
                } else if !deps_ready(current(v).depends_on, v.ctx) {
                    &&& r.0 == Advance::Skipped
                    &&& r.1@.len() == 1
                    &&& is_skip_event(r.1@[0], current(v).order, dependency_reason(current(v).order))
                    &&& w == skip_current(v, current(v).order, PlanStopReason::DependencyFailed)
                    &&& appended_all(old(msg)@, final(msg)@, seq![(Role::Assistant, skipped_text(current(v).order, dependency_reason(current(v).order)))])
                } else if current(v).step_type == StepType::Deterministic && !tool_allowed(v.tools, step_tool(current(v))) {
                    &&& r.0 == Advance::Skipped
                    &&& r.1@.len() == 1
                    &&& is_skip_event(r.1@[0], current(v).order, missing_tool_reason(step_tool(current(v))))
                    &&& w == skip_current(v, current(v).order, PlanStopReason::ToolNotFound)
                    &&& appended_all(old(msg)@, final(msg)@, seq![(Role::Assistant, skipped_text(current(v).order, missing_tool_reason(step_tool(current(v)))))])
                } else {
                    &&& r.0 == Advance::Execute
                    &&& r.1@.len() == 1
                    &&& r.1@[0] matches PlanStreamEvent::StepStart { step, tool, goal } && step == current(v).order
                        && tool@ == step_tool(current(v)) && goal@ == current(v).step_goal
                    &&& w == v
                    &&& final(msg)@ == old(msg)@
                }
            }),
    {
        let mut events: Vec<PlanStreamEvent> = Vec::new();
        if self.idx >= self.steps.len() {
            self.finished = true;
            return (Advance::Finished, events);
        }
        if aborted {
            self.finished = true;
            self.stop_reason = PlanStopReason::UserAbort;
            events.push(PlanStreamEvent::PlanAbort);
            return (Advance::Finished, events);
        }
        let ghost v = self@;
        let order = self.steps[self.idx].order;
        let deps_ok = self.deps_satisfied();
        if !deps_ok {
            let mut reason = owned("Dependency not satisfied for step ");
            push_dec(&mut reason, order as u64);
            self.skip_current(order, reason, PlanStopReason::DependencyFailed, msg, &mut events);
            return (Advance::Skipped, events);
        }
        let step = &self.steps[self.idx];
        let tool = if step.actions.len() == 0 {
            String::new()
        } else {
            owned(step.actions[0].tool_name.as_str())
        };
        let is_det = match step.step_type {
            StepType::Deterministic => true,
            _ => false,
        };
        if is_det && !self.tool_known(tool.as_str()) {
            let mut reason = owned("Tool not found: ");
            reason.append(tool.as_str());
            self.skip_current(order, reason, PlanStopReason::ToolNotFound, msg, &mut events);
            return (Advance::Skipped, events);
        }
        let goal = owned(self.steps[self.idx].step_goal.as_str());
        events.push(PlanStreamEvent::StepStart { step: order, tool, goal });
        (Advance::Execute, events)
    }

    fn tool_known(&self, tool_name: &str) -> (r: bool)
        ensures
            r == tool_allowed(self@.tools, tool_name@),
    {
        let ghost names = self@.tools;
        if self.tool_names.len() == 0 {
            return true;
        }
        let key = owned(tool_name);
        let mut i: usize = 0;
        while i < self.tool_names.len()
            invariant
                i <= self.tool_names@.len(),
                names == self.tool_names@.map_values(|n: String| n@),
                key@ == tool_name@,
                forall|k: int| 0 <= k < i ==> names[k] != tool_name@,
            decreases self.tool_names.len() - i,
        {
            if self.tool_names[i] == key {
                assert(names[i as int] == tool_name@);
                return true;
            }
            i += 1;
        }
        false
    }

    fn deps_satisfied(&self) -> (r: bool)
        requires
            0 <= self@.idx < self@.steps.len(),
        ensures
            r == deps_ready(current(self@).depends_on, self@.ctx),
    {
        let step = &self.steps[self.idx];
        assert(step@ == current(self@));
        let mut i: usize = 0;
        while i < step.depends_on.len()
            invariant
                i <= step.depends_on@.len(),
                step@ == current(self@),
                forall|k: int| 0 <= k < i ==> !self@.ctx.skipped.contains(#[trigger] step@.depends_on[k]) && ctx_output(self@.ctx, step@.depends_on[k]) is Some,
            decreases step.depends_on.len() - i,
        {
            let d = step.depends_on[i];
            if self.context.is_skipped(d) {
                return false;
            }
            if self.context.get_output(d).is_none() {
                return false;
            }
            i += 1;
        }
        true
    }

    fn skip_current(&mut self, order: u8, reason: String, stop: PlanStopReason, msg: &mut MessageContext, events: &mut Vec<PlanStreamEvent>)
        requires
            0 <= old(self)@.idx < old(self)@.steps.len(),
            old(self).idx < old(self).steps@.len(),
            order == current(old(self)@).order,
            old(events)@.len() == 0,
        ensures
            final(self)@ == skip_current(old(self)@, order, stop),
            final(events)@.len() == 1,
            is_skip_event(final(events)@[0], order, reason@),
            appended_all(old(msg)@, final(msg)@, seq![(Role::Assistant, skipped_text(order, reason@))]),
    {
        let ghost v = self@;
        let idx = self.idx;
        let n = self.steps.len();
        assert(idx < n);
        msg.push_step_skipped(order, reason.as_str());
        events.push(PlanStreamEvent::StepSkipped { step: order, reason });
        self.context.mark_skipped(order);
        if order == self.total_steps {
            self.stop_reason = stop;
            self.finished = true;
        } else {
            self.idx = idx + 1;
        }
        proof {
            assert(final(msg)@.take(old(msg)@.len() as int) =~= old(msg)@);
            assert(self@ =~~= skip_current(v, order, stop));
        }
    }
}


/// Skipping the current step after it ran: like [`skip_current`], and a run
/// that goes on starts the next step without retries.
pub open spec fn skip_after_run(v: PlanRunView, order: u8) -> PlanRunView {
    let s = skip_current(v, order, PlanStopReason::PartialFailure);
    if s.finished {
        s
    } else {
        PlanRunView { retry: 0, ..s }
    }
}

/// The tools the failed attempt used, each once: those of the executed step,
/// none after an error.
pub open spec fn tried_tools(o: Result<PlanStepView, Seq<char>>) -> Seq<Seq<char>> {
    match o {
        Ok(s) => distinct_tools(s.actions),
        Err(_) => Seq::empty(),
    }
}

/// `Replan failed: {error}`.
pub open spec fn replan_failed_reason(e: Seq<char>) -> Seq<char> {
    "Replan failed: "@ + e
}

/// The result entry of an executed step.
pub open spec fn result_matches(r: StepResult, s: PlanStepView, ctx: ContextView) -> bool {
    &&& r.order == s.order
    &&& r.tool_name@ == step_tool(s)
    &&& r.success
    &&& r.output@ == output_of(s)
    &&& r.duration_ms == ctx_duration(ctx, s.order)
}

impl PlanRun {
    /// Observes the outcome of the current step (see [`observe_spec`]) and
    /// acts on the decision: a completed step is recorded (the last step's
    /// output becomes the final reply) and the run moves on; a retry keeps
    /// the step and tells the model what failed; a skipped step is recorded
    /// as skipped (the last one ends the run); a replan waits for
    /// [`PlanRun::apply_replan`].
    pub fn record_outcome(&mut self, outcome: Result<StepExecResult, PlanError>, msg: &mut MessageContext) -> (r: (
        StepObservation,
        Vec<PlanStreamEvent>,
    ))
        requires
            !old(self)@.finished,
            !old(self)@.awaiting_replan,
            0 <= old(self)@.idx < old(self)@.steps.len(),
            old(self)@.retry <= old(self)@.max_retries,
        ensures
            ({
                let v = old(self)@;
                let w = final(self)@;
                let cur = current(v);
                let o = observe_spec(outcome_view(outcome), v.retry, v.max_retries, v.has_llm && v.idx + 1 < v.steps.len());
                &&& r.0.step_order == cur.order
                &&& (r.0.success, r.0.summary@, decision_view(r.0.decision)) == o
                &&& r.1@.len() >= 1
                &&& r.1@[0] matches PlanStreamEvent::StepObserved { step, success, summary } && step == cur.order
                    && success == o.0 && summary@ == o.1
                &&& w.retry <= w.max_retries
                &&& w.max_retries == v.max_retries
                &&& match o.2 {
                    Decision::Continue => outcome matches Ok(res) && {
                        &&& w == PlanRunView {
                            ctx: ContextView { records: v.ctx.records.push((res.step@, res.duration_ms)), ..v.ctx },
                            final_reply: if cur.order == v.total {
                                output_of(res.step@)
                            } else {
                                v.final_reply
                            },
                            retry: 0,
                            idx: v.idx + 1,
                            ..v
                        }
                        &&& r.1@.len() == 2
                        &&& r.1@[1] matches PlanStreamEvent::StepComplete { step, success, duration_ms, output_length }
                            && step == cur.order && success && duration_ms == res.duration_ms && output_length
                            == byte_len(output_of(res.step@))
                        &&& appended_all(old(msg)@, final(msg)@, seq![(Role::Assistant, observation_text(cur.order, o.0, o.1))])
                    },
                    Decision::Retry => {
                        &&& w == PlanRunView { retry: (v.retry + 1) as u8, ..v }
                        &&& r.1@.len() == 2
                        &&& r.1@[1] matches PlanStreamEvent::StepRetry { step, attempt, max_retries } && step == cur.order
                            && attempt == v.retry + 1 && max_retries == v.max_retries
                        &&& appended_all(
                            old(msg)@,
                            final(msg)@,
                            seq![
                                (Role::Assistant, observation_text(cur.order, o.0, o.1)),
                                (Role::User, retry_text(cur.order, (v.retry + 2) as nat, o.1, tried_tools(outcome_view(outcome)), None)),
                            ],
                        )
                    },
                    Decision::Skip(reason) => {
                        &&& w == skip_after_run(v, cur.order)
                        &&& r.1@.len() == 2
                        &&& is_skip_event(r.1@[1], cur.order, reason)
                        &&& appended_all(
                            old(msg)@,
                            final(msg)@,
                            seq![(Role::Assistant, observation_text(cur.order, o.0, o.1)), (Role::Assistant, skipped_text(cur.order, reason))],
                        )
                    },
                    Decision::Replan(_) => {
                        &&& w == PlanRunView { awaiting_replan: true, ..v }
                        &&& r.1@.len() == 1
                        &&& appended_all(old(msg)@, final(msg)@, seq![(Role::Assistant, observation_text(cur.order, o.0, o.1))])
                    },
                    Decision::Complete => false,
                }
            }),
    {
        let ghost v = self@;
        let ghost m0 = msg@;
        proof {
            lemma_steps_len(self.steps@);
            assert(v.idx == self.idx as int);
            assert(v.steps.len() == self.steps@.len());
        }
        let n = self.steps.len();
        let order = self.steps[self.idx].order;
        let replan_possible = self.has_llm && self.idx + 1 < n;
        let obs = observe(order, &outcome, self.retry_count, self.max_retries, replan_possible);
        let mut events: Vec<PlanStreamEvent> = Vec::new();
        msg.push_observation(order, obs.success, obs.summary.as_str());
        let ghost m1 = msg@;
        events.push(PlanStreamEvent::StepObserved { step: order, success: obs.success, summary: owned(obs.summary.as_str()) });
        match &obs.decision {
            ObserveDecision::ContinueNext => {
                match outcome {
                    Ok(res) => {
                        let out = output_text(&res.step);
                        let os = out.as_str();
                        let len = os.len();
                        assert(os@ == out@);
                        let duration_ms = res.duration_ms;
                        self.context.push(res.step, duration_ms);
                        if order == self.total_steps {
                            self.final_reply = out;
                        }
                        events.push(PlanStreamEvent::StepComplete { step: order, success: true, duration_ms, output_length: len });
                        self.retry_count = 0;
                        self.idx = self.idx + 1;
                    },
                    Err(_) => {},
                }
                proof {
                    assert(msg@.take(m0.len() as int) =~= m0);
                }
            },
            ObserveDecision::RetryCurrent => {
                self.retry_count = self.retry_count + 1;
                events.push(PlanStreamEvent::StepRetry { step: order, attempt: self.retry_count, max_retries: self.max_retries });
                let tried = match &outcome {
                    Ok(res) => distinct_tool_names(&res.step),
                    Err(_) => Vec::new(),
                };
                proof {
                    assert(tried@.map_values(|n: String| n@) == tried_tools(outcome_view(outcome))) by {
                        if outcome is Err {
                            assert(tried@.map_values(|n: String| n@) =~= Seq::<Seq<char>>::empty());
                        }
                    }
                }
                msg.push_retry_attempt(order, self.retry_count as u16 + 1, obs.summary.as_str(), tried.as_slice(), None);
                proof {
                    assert(msg@.take(m0.len() as int) =~= m0);
                    assert(msg@[m0.len() as int] == m1[m0.len() as int]);
                }
            },
            ObserveDecision::SkipStep { reason } => {
                msg.push_step_skipped(order, reason.as_str());
                events.push(PlanStreamEvent::StepSkipped { step: order, reason: owned(reason.as_str()) });
                self.context.mark_skipped(order);
                if order == self.total_steps {
                    self.stop_reason = PlanStopReason::PartialFailure;
                    self.finished = true;
                } else {
                    self.retry_count = 0;
                    self.idx = self.idx + 1;
                }
                proof {
                    assert(msg@.take(m0.len() as int) =~= m0);
                    assert(msg@[m0.len() as int] == m1[m0.len() as int]);
                }
            },
            ObserveDecision::ReplanRequired { .. } => {
                self.awaiting_replan = true;
                proof {
                    assert(msg@.take(m0.len() as int) =~= m0);
                }
            },
            ObserveDecision::TaskComplete => {},
        }
        proof {
            assert(self@ =~~= self@);
        }
        (obs, events)
    }

    /// Takes the answer to a replan request. A new plan replaces the steps
    /// after the current one, which counts as skipped, and runs next; a failed
    /// request skips the current step. Either way the run moves on by one
    /// position.
    pub fn apply_replan(&mut self, result: Result<Vec<PlanStep>, PlanError>, reason: &str) -> (r: Vec<PlanStreamEvent>)
        requires
            old(self)@.awaiting_replan,
            !old(self)@.finished,
            0 <= old(self)@.idx < old(self)@.steps.len(),
        ensures
            ({
                let v = old(self)@;
                let w = final(self)@;
                let cur = current(v);
                let ctx = ContextView { skipped: v.ctx.skipped.push(cur.order), ..v.ctx };
                &&& r@.len() == 1
                &&& match result {
                    Ok(new_steps) => {
                        &&& w == PlanRunView {
                            steps: v.steps.take(v.idx + 1) + steps_view(new_steps@),
                            ctx,
                            retry: 0,
                            idx: v.idx + 1,
                            awaiting_replan: false,
                            ..v
                        }
                        &&& r@[0] matches PlanStreamEvent::PlanReplan { reason: rr, new_step_count } && rr@ == reason@
                            && new_step_count == new_steps@.len() as u8
                    },
                    Err(e) => {
                        &&& w == PlanRunView { ctx, retry: 0, idx: v.idx + 1, awaiting_replan: false, ..v }
                        &&& is_skip_event(r@[0], cur.order, replan_failed_reason(plan_error_text(e)))
                    },
                }
            }),
    {
        let ghost v = self@;
        proof {
            lemma_steps_len(self.steps@);
        }
        let n = self.steps.len();
        let order = self.steps[self.idx].order;
        let idx = self.idx;
        assert(idx < n);
        let mut events: Vec<PlanStreamEvent> = Vec::new();
        self.context.mark_skipped(order);
        match result {
            Ok(new_steps) => {
                let mut added = new_steps;
                let ghost added_view = steps_view(added@);
                self.steps.truncate(idx + 1);
                let ghost kept = self.steps@;
                self.steps.append(&mut added);
                let count = self.steps.len() - (idx + 1);
                assert(steps_view(self.steps@) =~= v.steps.take(v.idx + 1) + added_view);
                events.push(PlanStreamEvent::PlanReplan { reason: owned(reason), new_step_count: count as u8 });
            },
            Err(e) => {
                let mut why = owned("Replan failed: ");
                let t = e.text();
                why.append(t.as_str());
                events.push(PlanStreamEvent::StepSkipped { step: order, reason: why });
            },
        }
        self.retry_count = 0;
        self.idx = idx + 1;
        self.awaiting_replan = false;
        events
    }

    /// The result of a finished run: the completed steps, the final reply
    /// and why the run stopped; the completion event and the lines of the
    /// message history (content cut to 200 characters) when the run had
    /// steps.
    pub fn finish(&self, msg: &MessageContext) -> (r: (PlanResult, Vec<PlanStreamEvent>, Vec<String>))
        requires
            self@.finished,
        ensures
            r.0.completed_steps == self@.ctx.records.len() as u8,
            r.0.total_steps == self@.total,
            r.0.final_reply@ == self@.final_reply,
            r.0.stop_reason == self@.stop,
            r.0.step_results@.len() == self@.ctx.records.len(),
            forall|i: int| 0 <= i < self@.ctx.records.len() ==> result_matches(#[trigger] r.0.step_results@[i], self@.ctx.records[i].0, self@.ctx),
            self@.announced ==> {
                &&& r.1@.len() == 1
                &&& r.1@[0] matches PlanStreamEvent::PlanComplete { completed_steps, total_steps, final_reply_length, stop_reason }
                    && completed_steps == r.0.completed_steps && total_steps == self@.total && final_reply_length
                    == byte_len(self@.final_reply) && stop_reason == self@.stop
                &&& r.2@.len() == msg@.len() + 2
            },
            !self@.announced ==> r.1@.len() == 0 && r.2@.len() == 0,
    {
        let n = self.context.executed_count();
        let mut results: Vec<StepResult> = Vec::new();
        let mut i: usize = 0;
        while i < n
            invariant
                n == self@.ctx.records.len(),
                i <= n,
                results@.len() == i,
                forall|k: int| 0 <= k < i ==> result_matches(#[trigger] results@[k], self@.ctx.records[k].0, self@.ctx),
            decreases n - i,
        {
            let s = self.context.executed_step(i);
            let tool_name = if s.actions.len() == 0 {
                String::new()
            } else {
                owned(s.actions[0].tool_name.as_str())
            };
            let output = output_text(s);
            let duration_ms = self.context.get_duration_ms(s.order);
            results.push(StepResult { order: s.order, tool_name, success: true, output, duration_ms });
            i += 1;
        }
        let completed = n as u8;
        let reply = owned(self.final_reply.as_str());
        let mut events: Vec<PlanStreamEvent> = Vec::new();
        let mut lines: Vec<String> = Vec::new();
        if self.announced {
            let rs = reply.as_str();
            let len = rs.len();
            lines = msg.dump_history(200);
            events.push(PlanStreamEvent::PlanComplete {
                completed_steps: completed,
                total_steps: self.total_steps,
                final_reply_length: len,
                stop_reason: self.stop_reason,
            });
        }
        let result = PlanResult {
            completed_steps: completed,
            total_steps: self.total_steps,
            final_reply: reply,
            step_results: results,
            stop_reason: self.stop_reason,
        };
        (result, events, lines)
    }
}

} // verus!
