//! The steps a plan run has executed or skipped, which later steps read.
use vstd::prelude::*;
use vstd::string::StringExecFns;
use crate::plans::{PlanStep, PlanStepView};
use crate::text::{dec, join, join_strings, owned, push_dec, to_chars, string_of};

verus! {

/// The output of a step: that of its last action, if any.
pub open spec fn step_output(s: PlanStepView) -> Option<Seq<char>> {
    if s.actions.len() == 0 {
        None
    } else {
        s.actions.last().output
    }
}

/// The tool of a step: that of its first action, else empty.
pub open spec fn step_tool(s: PlanStepView) -> Seq<char> {
    if s.actions.len() == 0 {
        Seq::empty()
    } else {
        s.actions[0].tool_name
    }
}

/// The first record of the step numbered `order`.
pub open spec fn find_record(records: Seq<(PlanStepView, u64)>, order: u8) -> Option<(PlanStepView, u64)>
    decreases records.len(),
{
    if records.len() == 0 {
        None
    } else if records[0].0.order == order {
        Some(records[0])
    } else {
        find_record(records.drop_first(), order)
    }
}

/// A [`StepContext`] as plain data.
pub struct ContextView {
    /// Executed steps with their durations, in execution order.
    pub records: Seq<(PlanStepView, u64)>,
    /// Orders of the skipped steps, in the order they were skipped.
    pub skipped: Seq<u8>,
}

/// The output recorded for step `order`.
pub open spec fn ctx_output(c: ContextView, order: u8) -> Option<Seq<char>> {
    match find_record(c.records, order) {
        Some(r) => step_output(r.0),
        None => None,
    }
}

/// The duration recorded for step `order`, 0 when it did not run.
pub open spec fn ctx_duration(c: ContextView, order: u8) -> u64 {
    match find_record(c.records, order) {
        Some(r) => r.1,
        None => 0,
    }
}

/// Appending a record leaves every earlier find as it was, and finds the
/// new record for an order that had none.
pub proof fn lemma_find_record_push(records: Seq<(PlanStepView, u64)>, x: (PlanStepView, u64), order: u8)
    ensures
        find_record(records.push(x), order) == (match find_record(records, order) {
            Some(r) => Some(r),
            None => if x.0.order == order {
                Some(x)
            } else {
                None
            },
        }),
    decreases records.len(),
{
    let p = records.push(x);
    if records.len() > 0 {
        assert(p[0] == records[0]);
        assert(p.drop_first() =~= records.drop_first().push(x));
        lemma_find_record_push(records.drop_first(), x, order);
    } else {
        assert(p[0] == x);
        assert(p.drop_first() =~= Seq::<(PlanStepView, u64)>::empty());
        assert(find_record(p.drop_first(), order) is None);
    }
}

/// What a step recorded is what later steps read: once step `s` is
/// recorded (and no step of its order was before), its output and duration
/// are read back for its order, and what is read for any other order is
/// unchanged.
pub proof fn law_recorded_step_read_back(c: ContextView, s: PlanStepView, d: u64, other: u8)
    requires
        find_record(c.records, s.order) is None,
        other != s.order,
    ensures
        ({
            let c2 = ContextView { records: c.records.push((s, d)), ..c };
            &&& ctx_output(c2, s.order) == step_output(s)
            &&& ctx_duration(c2, s.order) == d
            &&& ctx_output(c2, other) == ctx_output(c, other)
            &&& ctx_duration(c2, other) == ctx_duration(c, other)
        }),
{
    lemma_find_record_push(c.records, (s, d), s.order);
    lemma_find_record_push(c.records, (s, d), other);
}

/// The context of one dependency: its block when it has an output, else
/// nothing.
pub proof fn law_dep_parts_single(d: u8, c: ContextView)
    ensures
        dep_parts(seq![d], c) == (match ctx_output(c, d) {
            Some(o) => seq!["步骤"@ + dec(d as nat) + " 输出:\n"@ + o],
            None => Seq::<Seq<char>>::empty(),
        }),
{
    let s = seq![d];
    assert(s.drop_last() =~= Seq::<u8>::empty());
    assert(s.last() == d);
    assert(dep_parts(s.drop_last(), c) == Seq::<Seq<char>>::empty());
    match ctx_output(c, d) {
        Some(o) => {
            assert(Seq::<Seq<char>>::empty().push("步骤"@ + dec(d as nat) + " 输出:\n"@ + o) =~= seq![
                "步骤"@ + dec(d as nat) + " 输出:\n"@ + o,
            ]);
        },
        None => {},
    }
}

/// The context of a list of dependencies is the contexts of its parts, in
/// order: every dependency with an output contributes its block.
pub proof fn law_dep_parts_concat(a: Seq<u8>, b: Seq<u8>, c: ContextView)
    ensures
        dep_parts(a + b, c) == dep_parts(a, c) + dep_parts(b, c),
    decreases b.len(),
{
    if b.len() == 0 {
        assert(a + b =~= a);
        assert(dep_parts(a, c) + dep_parts(b, c) =~= dep_parts(a, c));
    } else {
        assert((a + b).drop_last() =~= a + b.drop_last());
        assert((a + b).last() == b.last());
        law_dep_parts_concat(a, b.drop_last(), c);
        let pa = dep_parts(a, c);
        let pb = dep_parts(b.drop_last(), c);
        match ctx_output(c, b.last()) {
            Some(o) => {
                assert(pa + pb.push("步骤"@ + dec(b.last() as nat) + " 输出:\n"@ + o) =~= (pa + pb).push(
                    "步骤"@ + dec(b.last() as nat) + " 输出:\n"@ + o,
                ));
            },
            None => {},
        }
    }
}

/// At most the first `n` characters of `s`.
pub open spec fn take_chars(s: Seq<char>, n: nat) -> Seq<char> {
    if s.len() <= n {
        s
    } else {
        s.take(n as int)
    }
}

/// One line of the run history: order, tool, goal and the first 50
/// characters of the output.
pub open spec fn summary_line(s: PlanStepView) -> Seq<char> {
    "步骤"@ + dec(s.order as nat) + " ("@ + (if s.actions.len() == 0 {
        "（无工具）"@
    } else {
        s.actions[0].tool_name
    }) + "): "@ + s.step_goal + " - 输出: "@ + take_chars(
        match step_output(s) {
            Some(o) => o,
            None => "（无输出）"@,
        },
        50,
    )
}

/// The history of a run, one [`summary_line`] per executed step.
pub open spec fn history_text(c: ContextView) -> Seq<char> {
    join(c.records.map_values(|r: (PlanStepView, u64)| summary_line(r.0)), "\n"@)
}

/// The parts of a reasoning step's context: `步骤{d} 输出:\n{output}` for
/// each dependency `d` that has an output.
pub open spec fn dep_parts(deps: Seq<u8>, c: ContextView) -> Seq<Seq<char>>
    decreases deps.len(),
{
    if deps.len() == 0 {
        Seq::empty()
    } else {
        let rest = dep_parts(deps.drop_last(), c);
        match ctx_output(c, deps.last()) {
            Some(o) => rest.push("步骤"@ + dec(deps.last() as nat) + " 输出:\n"@ + o),
            None => rest,
        }
    }
}

struct StepRecord {
    step: PlanStep,
    duration_ms: u64,
}

/// The executed steps of a plan run and the skipped ones.
pub struct StepContext {
    records: Vec<StepRecord>,
    skipped_steps: Vec<u8>,
}

impl View for StepContext {
    type V = ContextView;

    closed spec fn view(&self) -> ContextView {
        ContextView {
            records: self.records@.map_values(|r: StepRecord| (r.step@, r.duration_ms)),
            skipped: self.skipped_steps@,
        }
    }
}

/// Looking up past records that hold another order.
proof fn lemma_find_skip(records: Seq<(PlanStepView, u64)>, order: u8, i: int)
    requires
        0 <= i <= records.len(),
        forall|k: int| 0 <= k < i ==> #[trigger] records[k].0.order != order,
    ensures
        find_record(records, order) == find_record(records.skip(i), order),
    decreases i,
{
    if i > 0 {
        let d = records.drop_first();
        assert(records[0].0.order != order);
        assert forall|k: int| 0 <= k < i - 1 implies #[trigger] d[k].0.order != order by {
            assert(d[k] == records[k + 1]);
        }
        lemma_find_skip(d, order, i - 1);
        assert(d.skip(i - 1) =~= records.skip(i));
    } else {
        assert(records.skip(0) =~= records);
    }
}

/// Appending a record leaves the lookups of the earlier orders unchanged.
proof fn lemma_find_push(records: Seq<(PlanStepView, u64)>, r: (PlanStepView, u64), order: u8)
    ensures
        find_record(records.push(r), order) == (match find_record(records, order) {
            Some(x) => Some(x),
            None => if r.0.order == order {
                Some(r)
            } else {
                None
            },
        }),
    decreases records.len(),
{
    let p = records.push(r);
    if records.len() == 0 {
        assert(p[0] == r);
        assert(find_record(records, order) is None);
        if r.0.order != order {
            assert(p.drop_first() =~= Seq::<(PlanStepView, u64)>::empty());
            assert(find_record(p.drop_first(), order) is None);
        }
    } else {
        assert(p[0] == records[0]);
        assert(p.drop_first() =~= records.drop_first().push(r));
        if records[0].0.order != order {
            lemma_find_push(records.drop_first(), r, order);
            assert(find_record(p, order) == find_record(p.drop_first(), order));
            assert(find_record(records, order) == find_record(records.drop_first(), order));
        }
    }
}

impl StepContext {
    /// A context with nothing executed or skipped.
    pub fn new() -> (r: StepContext)
        ensures
            r@.records.len() == 0,
            r@.skipped.len() == 0,
    {
        let r = StepContext { records: Vec::new(), skipped_steps: Vec::new() };
        assert(r@.records =~= Seq::<(PlanStepView, u64)>::empty());
        r
    }

    fn find(&self, order: u8) -> (r: Option<usize>)
        ensures
            match r {
                Some(i) => i < self@.records.len() && find_record(self@.records, order) == Some(self@.records[i as int]),
                None => find_record(self@.records, order) is None,
            },
    {
        let mut i: usize = 0;
        while i < self.records.len()
            invariant
                i <= self.records@.len(),
                forall|k: int| 0 <= k < i ==> #[trigger] self@.records[k].0.order != order,
            decreases self.records.len() - i,
        {
            if self.records[i].step.order == order {
                proof {
                    lemma_find_skip(self@.records, order, i as int);
                    assert(self@.records.skip(i as int)[0] == self@.records[i as int]);
                }
                return Some(i);
            }
            i += 1;
        }
        proof {
            lemma_find_skip(self@.records, order, i as int);
        }
        None
    }

    /// The output of step `order`: its last action's output.
    pub fn get_output(&self, order: u8) -> (r: Option<String>)
        ensures
            match r {
                Some(s) => ctx_output(self@, order) == Some(s@),
                None => ctx_output(self@, order) is None,
            },
    {
        match self.find(order) {
            Some(i) => {
                let acts = &self.records[i].step.actions;
                if acts.len() == 0 {
                    None
                } else {
                    match &acts[acts.len() - 1].output {
                        Some(o) => Some(owned(o.as_str())),
                        None => None,
                    }
                }
            },
            None => None,
        }
    }

    /// Whether step `order` was skipped.
    pub fn is_skipped(&self, order: u8) -> (r: bool)
        ensures
            r == self@.skipped.contains(order),
    {
        let mut i: usize = 0;
        while i < self.skipped_steps.len()
            invariant
                i <= self.skipped_steps@.len(),
                forall|k: int| 0 <= k < i ==> self@.skipped[k] != order,
            decreases self.skipped_steps.len() - i,
        {
            if self.skipped_steps[i] == order {
                assert(self@.skipped[i as int] == order);
                return true;
            }
            i += 1;
        }
        false
    }

    /// The number of executed steps.
    pub fn executed_count(&self) -> (r: usize)
        ensures
            r == self@.records.len(),
    {
        self.records.len()
    }

    /// The `i`-th executed step, oldest first.
    pub fn executed_step(&self, i: usize) -> (r: &PlanStep)
        requires
            i < self@.records.len(),
        ensures
            r@ == self@.records[i as int].0,
    {
        &self.records[i].step
    }

    /// How long step `order` took, 0 when it did not run.
    pub fn get_duration_ms(&self, order: u8) -> (r: u64)
        ensures
            r == ctx_duration(self@, order),
    {
        match self.find(order) {
            Some(i) => self.records[i].duration_ms,
            None => 0,
        }
    }

    /// Records an executed step.
    pub fn push(&mut self, step: PlanStep, duration_ms: u64)
        ensures
            final(self)@.records == old(self)@.records.push((step@, duration_ms)),
            final(self)@.skipped == old(self)@.skipped,
    {
        self.records.push(StepRecord { step, duration_ms });
        assert(self@.records =~= old(self)@.records.push((step@, duration_ms)));
    }

    /// Marks step `order` as skipped.
    pub fn mark_skipped(&mut self, order: u8)
        ensures
            final(self)@.records == old(self)@.records,
            final(self)@.skipped == old(self)@.skipped.push(order),
    {
        self.skipped_steps.push(order);
        assert(self@.records =~= old(self)@.records);
    }

    /// The run history for the model: one line per executed step, with the
    /// first 50 characters of its output; empty when no step ran.
    pub fn get_history_summary(&self) -> (r: String)
        ensures
            r@ == history_text(self@),
    {
        let ghost lines = self@.records.map_values(|r: (PlanStepView, u64)| summary_line(r.0));
        let mut out: Vec<String> = Vec::new();
        let mut i: usize = 0;
        while i < self.records.len()
            invariant
                i <= self.records@.len(),
                lines == self@.records.map_values(|r: (PlanStepView, u64)| summary_line(r.0)),
                out@.map_values(|s: String| s@) == lines.take(i as int),
            decreases self.records.len() - i,
        {
            let line = summary_line_of(&self.records[i].step);
            let ghost before = out@;
            let ghost lv = line@;
            assert(lines[i as int] == lv);
            out.push(line);
            assert(lines.take(i + 1) =~= lines.take(i as int).push(lv));
            assert(out@.map_values(|s: String| s@) =~= before.map_values(|s: String| s@).push(lv));
            i += 1;
        }
        assert(lines.take(i as int) =~= lines);
        join_strings(out.as_slice(), "\n")
    }
}

/// The first `n` characters of `s`, or all of it.
fn take_chars_of(s: &str, n: usize) -> (r: String)
    ensures
        r@ == take_chars(s@, n as nat),
{
    let v = to_chars(s);
    if v.len() <= n {
        string_of(&v, 0, v.len())
    } else {
        string_of(&v, 0, n)
    }
}

fn summary_line_of(s: &PlanStep) -> (r: String)
    ensures
        r@ == summary_line(s@),
{
    let mut m = owned("步骤");
    push_dec(&mut m, s.order as u64);
    m.append(" (");
    if s.actions.len() == 0 {
        m.append("（无工具）");
    } else {
        m.append(s.actions[0].tool_name.as_str());
    }
    m.append("): ");
    m.append(s.step_goal.as_str());
    m.append(" - 输出: ");
    let n = s.actions.len();
    let shown = if n == 0 {
        take_chars_of("（无输出）", 50)
    } else {
        match &s.actions[n - 1].output {
            Some(o) => take_chars_of(o.as_str(), 50),
            None => take_chars_of("（无输出）", 50),
        }
    };
    m.append(shown.as_str());
    m
}

/// The context a reasoning step reads: the outputs of its dependencies, as
/// `步骤{d} 输出:\n{output}` blocks separated by blank lines; dependencies
/// without output are left out.
pub fn collect_dependency_outputs(step: &PlanStep, context: &StepContext) -> (r: String)
    ensures
        r@ == join(dep_parts(step@.depends_on, context@), "\n\n"@),
{
    let mut parts: Vec<String> = Vec::new();
    let mut i: usize = 0;
    while i < step.depends_on.len()
        invariant
            i <= step.depends_on@.len(),
            parts@.map_values(|s: String| s@) == dep_parts(step.depends_on@.take(i as int), context@),
        decreases step.depends_on.len() - i,
    {
        let d = step.depends_on[i];
        let ghost before = parts@;
        assert(step.depends_on@.take(i + 1).drop_last() =~= step.depends_on@.take(i as int));
        match context.get_output(d) {
            Some(o) => {
                let mut p = owned("步骤");
                push_dec(&mut p, d as u64);
                p.append(" 输出:\n");
                p.append(o.as_str());
                parts.push(p);
                assert(parts@.map_values(|s: String| s@) =~= dep_parts(step.depends_on@.take(i as int), context@).push(
                    "步骤"@ + dec(d as nat) + " 输出:\n"@ + o@,
                ));
            },
            None => {},
        }
        i += 1;
    }
    assert(step.depends_on@.take(i as int) =~= step.depends_on@);
    join_strings(parts.as_slice(), "\n\n")
}

} // verus!
