//! The decisions of an exploratory step.
//!
//! An exploratory step is an agent loop of its own: the model picks tools,
//! the tools run, the model judges whether the step's goal is reached, and
//! so on until it is, or the call budget is spent, or the model keeps making
//! the same calls. The caller performs the model and tool calls; an
//! [`ExploreRun`] keeps the history and decides.
use vstd::prelude::*;
use vstd::string::StringExecFns;
use serde_json::Value;
use crate::json::{JsonModel, json_clone, json_debug, json_debug_text, json_view};
use crate::message_context::{MessageContext, goal_check_text, step_goal_text, tool_result_text};
use crate::plan_executor::appended_all;
use crate::plan_types::{PlanError, StepExecResult};
use crate::plans::{PlanStep, PlanStepView, SubAction, SubActionView, actions_view, opt_view};
use crate::step_exec::{missing_provider, result_text, tool_output_text};
use crate::text::{dec, join, join_strings, owned, push_dec};
use crate::types::{FunctionCall, Role};

verus! {

/// The reason given to the model after a round that repeated the previous
/// one's calls.
pub open spec fn repeat_hint() -> Seq<char> {
    "你连续使用了相同的工具调用，请换一种策略，尝试不同的工具或参数来达成目标"@
}

/// The signature of a tool call, to spot repeats: `{name}:{parameters:?}`.
pub open spec fn call_signature(name: Seq<char>, params: JsonModel) -> Seq<char> {
    name + ":"@ + json_debug_text(params)
}

/// An [`ExploreRun`] as plain data.
pub struct ExploreView {
    pub order: u8,
    pub goal: Seq<char>,
    pub max_calls: u8,
    /// Rounds (decide, run, judge) completed without reaching the goal.
    pub rounds: nat,
    /// The tool calls so far: name, parameters, output text.
    pub history: Seq<(Seq<char>, JsonModel, Seq<char>)>,
    /// Signatures of the calls of the current round.
    pub batch: Seq<Seq<char>>,
    /// The signature of the previous round's calls.
    pub last_signature: Option<Seq<char>>,
    /// How many rounds in a row repeated the previous one.
    pub repeats: u8,
    /// Whether repeats ended the loop.
    pub stopped: bool,
}

/// The state of an exploratory step.
pub struct ExploreRun {
    order: u8,
    goal: String,
    max_calls: u8,
    rounds: u8,
    history: Vec<(String, Value, String)>,
    batch: Vec<String>,
    last_signature: Option<String>,
    repeats: u8,
    stopped: bool,
}

/// The plain form of one history entry.
pub open spec fn entry_view(e: (String, Value, String)) -> (Seq<char>, JsonModel, Seq<char>) {
    (e.0@, json_view(e.1), e.2@)
}

impl View for ExploreRun {
    type V = ExploreView;

    closed spec fn view(&self) -> ExploreView {
        ExploreView {
            order: self.order,
            goal: self.goal@,
            max_calls: self.max_calls,
            rounds: self.rounds as nat,
            history: self.history@.map_values(|e: (String, Value, String)| entry_view(e)),
            batch: self.batch@.map_values(|s: String| s@),
            last_signature: opt_view(self.last_signature),
            repeats: self.repeats,
            stopped: self.stopped,
        }
    }
}

/// The error of a step whose goal was not reached:
/// `Step '{goal}' failed after {max_calls} calls: {last output}` (`unknown`
/// when no tool ran).
pub open spec fn exhausted_message(v: ExploreView) -> Seq<char> {
    "Step '"@ + v.goal + "' failed after "@ + dec(v.max_calls as nat) + " calls: "@ + (if v.history.len() == 0 {
        "unknown"@
    } else {
        v.history.last().2
    })
}

/// The actions of a step that reached its goal: one per tool call, numbered
/// from 1, with the call's parameters and output.
pub open spec fn history_actions(h: Seq<(Seq<char>, JsonModel, Seq<char>)>) -> Seq<SubActionView> {
    Seq::new(
        h.len(),
        |i: int| SubActionView { order: (i + 1) as u8, tool_name: h[i].0, parameters: h[i].1, output: Some(h[i].2) },
    )
}

impl ExploreRun {
    /// Starts an exploratory step with a budget of `max_calls` rounds and
    /// records the step's goal in the history.
    pub fn start(step: &PlanStep, max_calls: u8, has_provider: bool, msg: &mut MessageContext) -> (r: Result<ExploreRun, PlanError>)
        ensures
            !has_provider ==> (r matches Err(PlanError::ToolError(t)) && t.name@ == "exploratory"@ && t.message@
                == "Exploratory step requires LLM provider but none configured"@) && final(msg)@ == old(msg)@,
            has_provider ==> (r matches Ok(run) && {
                &&& run@.order == step@.order
                &&& run@.goal == step@.step_goal
                &&& run@.max_calls == max_calls
                &&& run@.rounds == 0
                &&& run@.history.len() == 0
                &&& run@.batch.len() == 0
                &&& run@.last_signature is None
                &&& run@.repeats == 0
                &&& !run@.stopped
            }) && appended_all(
                old(msg)@,
                final(msg)@,
                seq![(Role::User, step_goal_text(step@.order, step@.step_goal, step@.expected_output))],
            ),
    {
        if !has_provider {
            let e = missing_provider("Exploratory step", "exploratory");
            proof {
                reveal_strlit("Exploratory step");
                reveal_strlit(" requires LLM provider but none configured");
                reveal_strlit("Exploratory step requires LLM provider but none configured");
                assert("Exploratory step"@ + " requires LLM provider but none configured"@
                    =~= "Exploratory step requires LLM provider but none configured"@);
            }
            return Err(e);
        }
        let ghost m0 = msg@;
        let expected: Option<&str> = match &step.expected_output {
            Some(e) => Some(e.as_str()),
            None => None,
        };
        msg.push_step_goal(step.order, step.step_goal.as_str(), expected);
        proof {
            assert(msg@.take(m0.len() as int) =~= m0);
        }
        let r = ExploreRun {
            order: step.order,
            goal: owned(step.step_goal.as_str()),
            max_calls,
            rounds: 0,
            history: Vec::new(),
            batch: Vec::new(),
            last_signature: None,
            repeats: 0,
            stopped: false,
        };
        assert(r@.history =~= Seq::<(Seq<char>, JsonModel, Seq<char>)>::empty());
        assert(r@.batch =~= Seq::<Seq<char>>::empty());
        Ok(r)
    }

    /// Whether another round may start: the budget is not spent and repeats
    /// did not end the loop.
    pub fn can_continue(&self) -> (r: bool)
        ensures
            r == (self@.rounds < self@.max_calls && !self@.stopped),
    {
        self.rounds < self.max_calls && !self.stopped
    }

    /// Records a tool call that ran, with its result: the output text (see
    /// [`result_text`]) joins the history and the message history, and the
    /// call's signature joins the current round's.
    pub fn record_tool(&mut self, call: &FunctionCall, result: &Value, msg: &mut MessageContext) -> (r: String)
        ensures
            r@ == result_text(json_view(*result)),
            final(self)@ == (ExploreView {
                history: old(self)@.history.push((call.name@, json_view(call.arguments), r@)),
                batch: old(self)@.batch.push(call_signature(call.name@, json_view(call.arguments))),
                ..old(self)@
            }),
            appended_all(old(msg)@, final(msg)@, seq![(Role::Tool, tool_result_text(old(self)@.order, call.name@, r@))]),
    {
        let ghost m0 = msg@;
        let ghost v = self@;
        let output = tool_output_text(result);
        let mut sig = owned(call.name.as_str());
        sig.append(":");
        let d = json_debug(&call.arguments);
        sig.append(d.as_str());
        let ghost sv = sig@;
        self.batch.push(sig);
        let entry = (owned(call.name.as_str()), json_clone(&call.arguments), owned(output.as_str()));
        let ghost ev = entry_view(entry);
        self.history.push(entry);
        msg.push_tool_result(self.order, call.name.as_str(), output.as_str());
        proof {
            assert(msg@.take(m0.len() as int) =~= m0);
            assert(self@.history =~= v.history.push(ev));
            assert(self@.batch =~= v.batch.push(sv));
        }
        output
    }

    /// Ends a round's tool calls. A round that repeats the previous one's
    /// calls counts as a repeat; the second repeat in a row ends the loop
    /// (`false`), the first one tells the model to change course. A round
    /// that differs resets the count.
    pub fn end_batch(&mut self, msg: &mut MessageContext) -> (r: bool)
        requires
            old(self)@.repeats < 2,
        ensures
            ({
                let v = old(self)@;
                let w = final(self)@;
                let sig = join(v.batch, "|"@);
                &&& w.batch.len() == 0
                &&& w.repeats < 2 || w.stopped
                &&& if v.last_signature == Some(sig) {
                    if v.repeats + 1 >= 2 {
                        &&& !r
                        &&& w == ExploreView { batch: Seq::empty(), repeats: (v.repeats + 1) as u8, stopped: true, ..v }
                        &&& final(msg)@ == old(msg)@
                    } else {
                        &&& r
                        &&& w == ExploreView { batch: Seq::empty(), repeats: (v.repeats + 1) as u8, last_signature: Some(sig), ..v }
                        &&& appended_all(old(msg)@, final(msg)@, seq![(Role::Assistant, goal_check_text(v.order, false, repeat_hint()))])
                    }
                } else {
                    &&& r
                    &&& w == ExploreView { batch: Seq::empty(), repeats: 0, last_signature: Some(sig), ..v }
                    &&& final(msg)@ == old(msg)@
                }
            }),
    {
        let ghost v = self@;
        let ghost m0 = msg@;
        let sig = join_strings(self.batch.as_slice(), "|");
        self.batch = Vec::new();
        let same = match &self.last_signature {
            Some(last) => *last == sig,
            None => false,
        };
        if same {
            self.repeats = self.repeats + 1;
            if self.repeats >= 2 {
                self.stopped = true;
                assert(self@.batch =~= Seq::<Seq<char>>::empty());
                return false;
            }
            msg.push_goal_check(self.order, false, "你连续使用了相同的工具调用，请换一种策略，尝试不同的工具或参数来达成目标");
            proof {
                reveal_strlit("你连续使用了相同的工具调用，请换一种策略，尝试不同的工具或参数来达成目标");
            }
            proof {
                assert(msg@.take(m0.len() as int) =~= m0);
            }
        } else {
            self.repeats = 0;
        }
        self.last_signature = Some(sig);
        assert(self@.batch =~= Seq::<Seq<char>>::empty());
        true
    }

    /// The history the goal check reads: each call's tool and output.
    pub fn goal_check_history(&self) -> (r: Vec<(String, String)>)
        ensures
            r@.len() == self@.history.len(),
            forall|i: int| 0 <= i < r@.len() ==> #[trigger] r@[i].0@ == self@.history[i].0 && r@[i].1@ == self@.history[i].2,
    {
        let mut out: Vec<(String, String)> = Vec::new();
        let mut i: usize = 0;
        while i < self.history.len()
            invariant
                i <= self.history@.len(),
                out@.len() == i,
                forall|k: int| 0 <= k < i ==> #[trigger] out@[k].0@ == self@.history[k].0 && out@[k].1@ == self@.history[k].2,
            decreases self.history.len() - i,
        {
            let e = &self.history[i];
            out.push((owned(e.0.as_str()), owned(e.2.as_str())));
            i += 1;
        }
        out
    }

    /// Records the model's judgement; a round that did not reach the goal is
    /// spent. Returns whether the goal is reached.
    pub fn goal_checked(&mut self, achieved: bool, reason: &str, msg: &mut MessageContext) -> (r: bool)
        requires
            old(self)@.rounds < old(self)@.max_calls,
        ensures
            r == achieved,
            final(self)@ == (if achieved {
                old(self)@
            } else {
                ExploreView { rounds: old(self)@.rounds + 1, ..old(self)@ }
            }),
            appended_all(old(msg)@, final(msg)@, seq![(Role::Assistant, goal_check_text(old(self)@.order, achieved, reason@))]),
    {
        let ghost m0 = msg@;
        msg.push_goal_check(self.order, achieved, reason);
        proof {
            assert(msg@.take(m0.len() as int) =~= m0);
        }
        if !achieved {
            self.rounds = self.rounds + 1;
        }
        achieved
    }

    /// The executed step once the goal is reached: the step with one action
    /// per tool call (see [`history_actions`]).
    pub fn success(&self, step: &PlanStep, duration_ms: u64) -> (r: StepExecResult)
        ensures
            r.duration_ms == duration_ms,
            r.step@ == (PlanStepView { actions: history_actions(self@.history), ..step@ }),
    {
        let mut actions: Vec<SubAction> = Vec::new();
        let mut i: usize = 0;
        while i < self.history.len()
            invariant
                i <= self.history@.len(),
                actions_view(actions@) == history_actions(self@.history).take(i as int),
            decreases self.history.len() - i,
        {
            let e = &self.history[i];
            let a = SubAction {
                order: (i + 1) as u8,
                tool_name: owned(e.0.as_str()),
                parameters: json_clone(&e.1),
                output: Some(owned(e.2.as_str())),
            };
            let ghost prev = actions_view(actions@);
            let ghost av = a@;
            assert(av == history_actions(self@.history)[i as int]);
            actions.push(a);
            assert(actions_view(actions@) =~= prev.push(av));
            assert(history_actions(self@.history).take(i + 1) =~= history_actions(self@.history).take(i as int).push(av));
            i += 1;
        }
        assert(history_actions(self@.history).take(i as int) =~= history_actions(self@.history));
        let copy = crate::step_exec::with_actions(step, actions);
        StepExecResult { step: copy, duration_ms }
    }

    /// The error of a step that did not reach its goal (see
    /// [`exhausted_message`]).
    pub fn failure(&self) -> (r: PlanError)
        ensures
            r matches PlanError::ToolError(t) && t.name@ == "exploratory"@ && t.message@ == exhausted_message(self@),
    {
        let mut m = owned("Step '");
        m.append(self.goal.as_str());
        m.append("' failed after ");
        push_dec(&mut m, self.max_calls as u64);
        m.append(" calls: ");
        let n = self.history.len();
        if n == 0 {
            m.append("unknown");
        } else {
            m.append(self.history[n - 1].2.as_str());
        }
        PlanError::tool("exploratory", m)
    }
}

/// The first tool call the model chose, under an id made from the time:
/// `exploratory_{millis}`; without a call the step fails, quoting the
/// model's text.
pub fn first_tool_call(calls: &[FunctionCall], text: &str, now_millis: u64) -> (r: Result<FunctionCall, PlanError>)
    ensures
        calls@.len() > 0 ==> (r matches Ok(c) && c.id@ == "exploratory_"@ + dec(now_millis as nat) && c.name@
            == calls@[0].name@ && json_view(c.arguments) == json_view(calls@[0].arguments)),
        calls@.len() == 0 ==> (r matches Err(PlanError::ToolError(t)) && t.name@ == "exploratory"@ && t.message@
            == "No tool call from LLM: "@ + text@),
{
    if calls.len() > 0 {
        let mut id = owned("exploratory_");
        push_dec(&mut id, now_millis);
        Ok(FunctionCall { id, name: owned(calls[0].name.as_str()), arguments: json_clone(&calls[0].arguments) })
    } else {
        let mut m = owned("No tool call from LLM: ");
        m.append(text);
        Err(PlanError::tool("exploratory", m))
    }
}

} // verus!
