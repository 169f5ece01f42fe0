//! What the step runners compute around their outside calls: the call of a
//! deterministic step, the text of a tool's result, the executed step that
//! comes back, and the errors that keep a step from running.
use vstd::prelude::*;
use vstd::string::StringExecFns;
use serde_json::Value;
use crate::error::ToolExecError;
use crate::json::{
    JsonModel, json_clone, json_empty_object, json_insert_str, json_is_object, json_to_string, json_to_text,
    json_view, json_as_str, obj_get,
};
use crate::plans::{PlanStep, PlanStepView, SubAction, SubActionView, actions_view, opt_view, steps_view, strs_view};
use crate::plan_types::{PlanError, StepExecResult};
use crate::step_context::{ContextView, StepContext, ctx_output};
use crate::text::{dec, join, join_strings, owned, push_dec};
use crate::types::{FunctionCall, StepType, step_type_name};

verus! {

// ---------------------------------------------------------------------------
// Copies
// ---------------------------------------------------------------------------

fn copy_opt(o: &Option<String>) -> (r: Option<String>)
    ensures
        opt_view(r) == opt_view(*o),
{
    match o {
        Some(s) => Some(owned(s.as_str())),
        None => None,
    }
}

fn copy_strings(v: &Vec<String>) -> (r: Vec<String>)
    ensures
        strs_view(r@) == strs_view(v@),
{
    let mut out: Vec<String> = Vec::new();
    let mut i: usize = 0;
    while i < v.len()
        invariant
            i <= v@.len(),
            strs_view(out@) == strs_view(v@.take(i as int)),
        decreases v.len() - i,
    {
        let ghost prev = strs_view(out@);
        let s = owned(v[i].as_str());
        let ghost sv = s@;
        out.push(s);
        assert(v@.take(i + 1) =~= v@.take(i as int).push(v@[i as int]));
        assert(strs_view(out@) =~= prev.push(sv));
        i += 1;
    }
    assert(v@.take(i as int) =~= v@);
    out
}

fn copy_bytes(v: &Vec<u8>) -> (r: Vec<u8>)
    ensures
        r@ == v@,
{
    let mut out: Vec<u8> = Vec::new();
    let mut i: usize = 0;
    while i < v.len()
        invariant
            i <= v@.len(),
            out@ == v@.take(i as int),
        decreases v.len() - i,
    {
        out.push(v[i]);
        assert(v@.take(i + 1) =~= v@.take(i as int).push(v@[i as int]));
        i += 1;
    }
    assert(v@.take(i as int) =~= v@);
    out
}

fn copy_action(a: &SubAction) -> (r: SubAction)
    ensures
        r@ == a@,
{
    SubAction { order: a.order, tool_name: owned(a.tool_name.as_str()), parameters: json_clone(&a.parameters), output: copy_opt(&a.output) }
}

fn copy_actions(v: &Vec<SubAction>) -> (r: Vec<SubAction>)
    ensures
        actions_view(r@) == actions_view(v@),
{
    let mut out: Vec<SubAction> = Vec::new();
    let mut i: usize = 0;
    while i < v.len()
        invariant
            i <= v@.len(),
            actions_view(out@) == actions_view(v@.take(i as int)),
        decreases v.len() - i,
    {
        let ghost prev = actions_view(out@);
        let a = copy_action(&v[i]);
        let ghost av = a@;
        out.push(a);
        assert(v@.take(i + 1) =~= v@.take(i as int).push(v@[i as int]));
        assert(actions_view(out@) =~= prev.push(av));
        i += 1;
    }
    assert(v@.take(i as int) =~= v@);
    out
}

/// `step` with other actions.
pub(crate) fn with_actions(step: &PlanStep, actions: Vec<SubAction>) -> (r: PlanStep)
    ensures
        r@ == (PlanStepView { actions: actions_view(actions@), ..step@ }),
{
    PlanStep {
        order: step.order,
        step_type: step.step_type,
        step_goal: owned(step.step_goal.as_str()),
        expected_output: copy_opt(&step.expected_output),
        depends_on: copy_bytes(&step.depends_on),
        input: copy_strings(&step.input),
        success_criteria: copy_strings(&step.success_criteria),
        actions,
    }
}

// ---------------------------------------------------------------------------
// Errors
// ---------------------------------------------------------------------------

/// Why a step cannot run with this model setting: reasoning and exploratory
/// steps need a model.
pub fn step_precheck(step_type: StepType, model: &str) -> (r: Option<PlanError>)
    ensures
        step_type == StepType::Deterministic || model@.len() > 0 ==> r is None,
        step_type == StepType::Reasoning && model@.len() == 0 ==> (r matches Some(PlanError::ToolError(t))
            && t.name@ == "reasoning"@ && t.message@ == "Reasoning step requires model to be configured"@),
        step_type == StepType::Exploratory && model@.len() == 0 ==> (r matches Some(PlanError::ToolError(t))
            && t.name@ == "exploratory"@ && t.message@ == "Exploratory step requires model to be configured"@),
{
    if model.is_empty() {
        match step_type {
            StepType::Deterministic => None,
            StepType::Reasoning => Some(PlanError::tool("reasoning", owned("Reasoning step requires model to be configured"))),
            StepType::Exploratory => Some(PlanError::tool("exploratory", owned("Exploratory step requires model to be configured"))),
        }
    } else {
        None
    }
}

/// The error when `subject` needs a model provider and none is configured.
pub fn missing_provider(subject: &str, name: &str) -> (r: PlanError)
    ensures
        r matches PlanError::ToolError(t) && t.name@ == name@ && t.message@ == subject@
            + " requires LLM provider but none configured"@,
{
    let mut m = owned(subject);
    m.append(" requires LLM provider but none configured");
    PlanError::tool(name, m)
}

// ---------------------------------------------------------------------------
// Replanning
// ---------------------------------------------------------------------------

/// One line of the summary of a new plan: `步骤{order} ("{type}"): {goal}`.
pub open spec fn new_plan_line(s: PlanStepView) -> Seq<char> {
    "步骤"@ + dec(s.order as nat) + " (\""@ + step_type_name(s.step_type) + "\"): "@ + s.step_goal
}

/// The summary of a new plan that goes into the history, one line per step.
pub fn replan_summary(new_steps: &[PlanStep]) -> (r: String)
    ensures
        r@ == join(steps_view(new_steps@).map_values(|s: PlanStepView| new_plan_line(s)), "\n"@),
{
    let ghost lines = steps_view(new_steps@).map_values(|s: PlanStepView| new_plan_line(s));
    let mut out: Vec<String> = Vec::new();
    let mut i: usize = 0;
    while i < new_steps.len()
        invariant
            i <= new_steps@.len(),
            lines == steps_view(new_steps@).map_values(|s: PlanStepView| new_plan_line(s)),
            out@.map_values(|s: String| s@) == lines.take(i as int),
        decreases new_steps.len() - i,
    {
        let s = &new_steps[i];
        let mut line = owned("步骤");
        push_dec(&mut line, s.order as u64);
        line.append(" (\"");
        line.append(s.step_type.as_str());
        line.append("\"): ");
        line.append(s.step_goal.as_str());
        let ghost prev = out@.map_values(|s: String| s@);
        let ghost lv = line@;
        assert(lines[i as int] == lv);
        out.push(line);
        assert(lines.take(i + 1) =~= lines.take(i as int).push(lv));
        assert(out@.map_values(|s: String| s@) =~= prev.push(lv));
        i += 1;
    }
    assert(lines.take(i as int) =~= lines);
    join_strings(out.as_slice(), "\n")
}

// ---------------------------------------------------------------------------
// Deterministic steps
// ---------------------------------------------------------------------------

/// The key under which a deterministic step gets the output of step `d`.
pub open spec fn prev_output_key(d: u8) -> Seq<char> {
    "__prev_step_"@ + dec(d as nat) + "_output"@
}

/// The argument `key` of a deterministic step's call: the output of the last
/// dependency `d` (with an output) whose key is `key`, else the member of
/// the step's parameters.
pub open spec fn call_argument(base: JsonModel, deps: Seq<u8>, ctx: ContextView, key: Seq<char>) -> Option<JsonModel>
    decreases deps.len(),
{
    if deps.len() == 0 {
        obj_get(base, key)
    } else {
        let d = deps.last();
        match ctx_output(ctx, d) {
            Some(o) => if key == prev_output_key(d) {
                Some(JsonModel::Str(o))
            } else {
                call_argument(base, deps.drop_last(), ctx, key)
            },
            None => call_argument(base, deps.drop_last(), ctx, key),
        }
    }
}

/// The parameters a deterministic step starts from: its first action's,
/// when they form an object, else an empty object.
pub open spec fn base_parameters(s: PlanStepView) -> JsonModel {
    if s.actions[0].parameters is Object {
        s.actions[0].parameters
    } else {
        JsonModel::Object(Seq::empty())
    }
}

/// The tool call of a deterministic step: its first action's tool, with
/// the action's parameters and, under `__prev_step_{d}_output`, the output
/// of each dependency `d` that has one. A step without actions cannot run.
pub fn deterministic_call(step: &PlanStep, context: &StepContext) -> (r: Result<FunctionCall, PlanError>)
    ensures
        step@.actions.len() == 0 ==> (r matches Err(PlanError::ToolError(t)) && t.name@ == "deterministic"@
            && t.message@ == "Deterministic step must have at least one action"@),
        step@.actions.len() > 0 ==> (r matches Ok(call) && {
            &&& call.id@ == "plan_step_"@ + dec(step@.order as nat)
            &&& call.name@ == step@.actions[0].tool_name
            &&& json_view(call.arguments) is Object
            &&& forall|k: Seq<char>| #[trigger] obj_get(json_view(call.arguments), k) == call_argument(
                base_parameters(step@),
                step@.depends_on,
                context@,
                k,
            )
        }),
{
    if step.actions.len() == 0 {
        return Err(PlanError::tool("deterministic", owned("Deterministic step must have at least one action")));
    }
    let first = &step.actions[0];
    assert(first@ == step@.actions[0]);
    let mut args = if json_is_object(&first.parameters) {
        json_clone(&first.parameters)
    } else {
        json_empty_object()
    };
    let ghost base = base_parameters(step@);
    assert(forall|k: Seq<char>| #[trigger] obj_get(json_view(args), k) == obj_get(base, k));
    let mut i: usize = 0;
    while i < step.depends_on.len()
        invariant
            i <= step.depends_on@.len(),
            json_view(args) is Object,
            forall|k: Seq<char>| #[trigger] obj_get(json_view(args), k) == call_argument(
                base,
                step@.depends_on.take(i as int),
                context@,
                k,
            ),
        decreases step.depends_on.len() - i,
    {
        let d = step.depends_on[i];
        let ghost before = json_view(args);
        let ghost deps = step@.depends_on.take(i + 1);
        assert(deps.drop_last() =~= step@.depends_on.take(i as int));
        assert(deps.last() == d);
        match context.get_output(d) {
            Some(o) => {
                let mut key = owned("__prev_step_");
                push_dec(&mut key, d as u64);
                key.append("_output");
                json_insert_str(&mut args, key.as_str(), o.as_str());
            },
            None => {},
        }
        assert forall|k: Seq<char>| #[trigger] obj_get(json_view(args), k) == call_argument(base, deps, context@, k) by {
            assert(obj_get(json_view(args), k) == obj_get(json_view(args), k));
        }
        i += 1;
    }
    assert(step@.depends_on.take(i as int) =~= step@.depends_on);
    let mut id = owned("plan_step_");
    push_dec(&mut id, step.order as u64);
    Ok(FunctionCall { id, name: owned(first.tool_name.as_str()), arguments: args })
}

/// The text of a tool's result: a JSON string as it is, anything else as
/// JSON text (`{}` should that fail).
pub open spec fn result_text(j: JsonModel) -> Seq<char> {
    match j {
        JsonModel::Str(s) => s,
        _ => match json_to_text(j) {
            Some(t) => t,
            None => "{}"@,
        },
    }
}

/// The text of a tool's result (see [`result_text`]).
pub fn tool_output_text(result: &Value) -> (r: String)
    ensures
        r@ == result_text(json_view(*result)),
{
    match json_as_str(result) {
        Some(s) => owned(s),
        None => match json_to_string(result) {
            Some(t) => t,
            None => owned("{}"),
        },
    }
}

/// The executed deterministic step: the step with `output` as its first
/// action's output.
pub fn deterministic_result(step: &PlanStep, output: String) -> (r: PlanStep)
    requires
        step@.actions.len() > 0,
    ensures
        r@ == (PlanStepView {
            actions: step@.actions.update(0, SubActionView { output: Some(output@), ..step@.actions[0] }),
            ..step@
        }),
{
    let mut actions = copy_actions(&step.actions);
    let first = &actions[0];
    let updated = SubAction {
        order: first.order,
        tool_name: owned(first.tool_name.as_str()),
        parameters: json_clone(&first.parameters),
        output: Some(output),
    };
    let ghost uv = updated@;
    let ghost before = actions@;
    actions.set(0, updated);
    assert(actions_view(actions@) =~= actions_view(before).update(0, uv));
    with_actions(step, actions)
}

// ---------------------------------------------------------------------------
// Reasoning steps
// ---------------------------------------------------------------------------

/// The executed reasoning step: one action `reasoning`, with parameters
/// `{"goal": goal}` and the model's response as its output.
pub fn reasoning_result(step: &PlanStep, response: String, duration_ms: u64) -> (r: StepExecResult)
    ensures
        r.duration_ms == duration_ms,
        r.step@ == (PlanStepView {
            actions: seq![SubActionView {
                order: 1,
                tool_name: "reasoning"@,
                parameters: JsonModel::Object(seq![("goal"@, JsonModel::Str(step@.step_goal))]),
                output: Some(response@),
            }],
            ..step@
        }),
{
    let mut params = json_empty_object();
    json_insert_str(&mut params, "goal", step.step_goal.as_str());
    let action = SubAction { order: 1, tool_name: owned("reasoning"), parameters: params, output: Some(response) };
    let ghost av = action@;
    let mut actions: Vec<SubAction> = Vec::new();
    actions.push(action);
    assert(actions_view(actions@) =~= seq![av]);
    StepExecResult { step: with_actions(step, actions), duration_ms }
}

} // verus!
