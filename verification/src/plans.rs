//! Execution plans: steps, their JSON form and the validation of a plan
//! produced by the LLM.
//!
//! A plan is a list of [`PlanStep`]s. A step is a macro-level goal; a
//! deterministic step lists the [`SubAction`]s (tool calls) that reach it,
//! while reasoning and exploratory steps leave their actions to run time.
use vstd::prelude::*;
use vstd::string::StringExecFns;
use serde_json::Value;
use crate::json::{
    JsonModel, json_view, obj_get, views, json_get, json_as_array, json_as_str, json_as_u64,
    json_is_null, json_is_number, json_is_object, json_empty_object, json_clone, json_to_string, json_to_text,
};
use crate::text::{owned, push_dec, dec, is_blank, blank, find_first, find_last, find_char, rfind_char, to_chars, string_of};
use crate::seqs::{try_map, lemma_try_map_empty, lemma_try_map_step, lemma_try_map_prefix_err, lemma_try_map_full};
use crate::error::LlmError;
use crate::json::{json_parse, parse_json};
use crate::types::{StepType, step_type_name};

verus! {

// ---------------------------------------------------------------------------
// Data
// ---------------------------------------------------------------------------

/// One tool call of a step.
#[derive(Debug, Clone)]
pub struct SubAction {
    /// Position of the action in its step, from 1.
    pub order: u8,
    /// Full tool name, such as `mcp__browser__navigate`.
    pub tool_name: String,
    /// Call parameters (a JSON object).
    pub parameters: Value,
    /// Output, filled in once the action ran.
    pub output: Option<String>,
}

/// A step of a plan.
#[derive(Debug, Clone)]
pub struct PlanStep {
    /// Position of the step, from 1, without gaps.
    pub order: u8,
    pub step_type: StepType,
    /// The goal of the step.
    pub step_goal: String,
    /// What the step produces once it succeeds.
    pub expected_output: Option<String>,
    /// Orders of the steps this one depends on.
    pub depends_on: Vec<u8>,
    /// References to the inputs of the step, such as `{{step_1.output}}`.
    pub input: Vec<String>,
    /// Conditions that tell whether the step succeeded.
    pub success_criteria: Vec<String>,
    /// Tool calls of a deterministic step.
    pub actions: Vec<SubAction>,
}

/// A plan as the LLM gives it: `{"steps": [...]}`.
#[derive(Debug)]
pub struct PlansResponse {
    pub steps: Vec<PlanStep>,
}

/// A [`SubAction`] as plain data.
pub struct SubActionView {
    pub order: u8,
    pub tool_name: Seq<char>,
    pub parameters: JsonModel,
    pub output: Option<Seq<char>>,
}

/// A [`PlanStep`] as plain data.
pub struct PlanStepView {
    pub order: u8,
    pub step_type: StepType,
    pub step_goal: Seq<char>,
    pub expected_output: Option<Seq<char>>,
    pub depends_on: Seq<u8>,
    pub input: Seq<Seq<char>>,
    pub success_criteria: Seq<Seq<char>>,
    pub actions: Seq<SubActionView>,
}

/// The view of an optional string.
pub open spec fn opt_view(o: Option<String>) -> Option<Seq<char>> {
    match o {
        Some(s) => Some(s@),
        None => None,
    }
}

/// The views of a list of strings.
pub open spec fn strs_view(v: Seq<String>) -> Seq<Seq<char>> {
    v.map_values(|s: String| s@)
}

impl View for SubAction {
    type V = SubActionView;

    open spec fn view(&self) -> SubActionView {
        SubActionView {
            order: self.order,
            tool_name: self.tool_name@,
            parameters: json_view(self.parameters),
            output: opt_view(self.output),
        }
    }
}

/// The views of a list of actions.
pub open spec fn actions_view(v: Seq<SubAction>) -> Seq<SubActionView> {
    v.map_values(|a: SubAction| a@)
}

impl View for PlanStep {
    type V = PlanStepView;

    open spec fn view(&self) -> PlanStepView {
        PlanStepView {
            order: self.order,
            step_type: self.step_type,
            step_goal: self.step_goal@,
            expected_output: opt_view(self.expected_output),
            depends_on: self.depends_on@,
            input: strs_view(self.input@),
            success_criteria: strs_view(self.success_criteria@),
            actions: actions_view(self.actions@),
        }
    }
}

/// The views of a list of steps.
pub open spec fn steps_view(v: Seq<PlanStep>) -> Seq<PlanStepView> {
    v.map_values(|s: PlanStep| s@)
}

// ---------------------------------------------------------------------------
// Decoding a step from JSON (the step's JSON form)
// ---------------------------------------------------------------------------

/// "missing field `name`".
pub open spec fn missing_field(name: Seq<char>) -> Seq<char> {
    "missing field `"@ + name + "`"@
}

/// "invalid type for field `name`, expected what".
pub open spec fn invalid_field(name: Seq<char>, what: Seq<char>) -> Seq<char> {
    "invalid value for field `"@ + name + "`, expected "@ + what
}

/// A required `u8` member.
pub open spec fn decode_u8_field(j: JsonModel, name: Seq<char>) -> Result<u8, Seq<char>> {
    match obj_get(j, name) {
        None => Err(missing_field(name)),
        Some(JsonModel::Number(Some(u), _)) => if u <= 255 {
            Ok(u as u8)
        } else {
            Err(invalid_field(name, "u8"@))
        },
        Some(_) => Err(invalid_field(name, "u8"@)),
    }
}

/// A required string member.
pub open spec fn decode_str_field(j: JsonModel, name: Seq<char>) -> Result<Seq<char>, Seq<char>> {
    match obj_get(j, name) {
        None => Err(missing_field(name)),
        Some(JsonModel::Str(s)) => Ok(s),
        Some(_) => Err(invalid_field(name, "a string"@)),
    }
}

/// An optional string member: absent or `null` is `None`.
pub open spec fn decode_opt_str_field(j: JsonModel, name: Seq<char>) -> Result<Option<Seq<char>>, Seq<char>> {
    match obj_get(j, name) {
        None => Ok(None),
        Some(JsonModel::Null) => Ok(None),
        Some(JsonModel::Str(s)) => Ok(Some(s)),
        Some(_) => Err(invalid_field(name, "a string or null"@)),
    }
}

/// Whether every element is a string.
pub open spec fn all_strs(items: Seq<JsonModel>) -> bool {
    forall|i: int| 0 <= i < items.len() ==> #[trigger] items[i] is Str
}

/// A list-of-strings member; absent means empty.
pub open spec fn decode_strs_field(j: JsonModel, name: Seq<char>) -> Result<Seq<Seq<char>>, Seq<char>> {
    match obj_get(j, name) {
        None => Ok(Seq::empty()),
        Some(JsonModel::Array(items)) => if all_strs(items) {
            Ok(items.map_values(|x: JsonModel| x->Str_0))
        } else {
            Err(invalid_field(name, "a sequence of strings"@))
        },
        Some(_) => Err(invalid_field(name, "a sequence of strings"@)),
    }
}

/// The compact JSON text of a value, as `{}` shows it.
pub open spec fn value_text(x: JsonModel) -> Seq<char> {
    match json_to_text(x) {
        Some(t) => t,
        None => Seq::empty(),
    }
}

/// Item `i` of the list member `name`: an integer from 0 to 255; a larger
/// integer, a number that is not a non-negative integer, or anything else
/// is refused with a message that names the item.
pub open spec fn decode_u8_item(name: Seq<char>, i: int, x: JsonModel) -> Result<u8, Seq<char>> {
    match x {
        JsonModel::Number(Some(u), _) => if u <= 255 {
            Ok(u as u8)
        } else {
            Err(name + "["@ + dec(i as nat) + "] = "@ + dec(u as nat) + " exceeds u8::MAX"@)
        },
        JsonModel::Number(None, _) => Err(name + "["@ + dec(i as nat) + "] must be a non-negative integer, got: "@
            + value_text(x)),
        _ => Err(name + "["@ + dec(i as nat) + "] must be an integer, got: "@ + value_text(x)),
    }
}

/// `decode_u8_item` for the member `name`, as a function of position and value.
pub open spec fn decode_u8_item_fn(name: Seq<char>) -> spec_fn(int, JsonModel) -> Result<u8, Seq<char>> {
    |i: int, x: JsonModel| decode_u8_item(name, i, x)
}

/// A list-of-`u8` member; absent means empty (see [`decode_u8_item`]).
pub open spec fn decode_u8s_field(j: JsonModel, name: Seq<char>) -> Result<Seq<u8>, Seq<char>> {
    match obj_get(j, name) {
        None => Ok(Seq::empty()),
        Some(JsonModel::Array(items)) => try_map(items, decode_u8_item_fn(name)),
        Some(_) => Err(invalid_field(name, "a sequence of integers from 0 to 255"@)),
    }
}

/// The `step_type` member; absent means deterministic.
pub open spec fn decode_step_type(j: JsonModel) -> Result<StepType, Seq<char>> {
    match obj_get(j, "step_type"@) {
        None => Ok(StepType::Deterministic),
        Some(JsonModel::Str(s)) => if s == "deterministic"@ {
            Ok(StepType::Deterministic)
        } else if s == "reasoning"@ {
            Ok(StepType::Reasoning)
        } else if s == "exploratory"@ {
            Ok(StepType::Exploratory)
        } else {
            Err(invalid_field("step_type"@, "one of `deterministic`, `reasoning`, `exploratory`"@))
        },
        Some(_) => Err(invalid_field("step_type"@, "one of `deterministic`, `reasoning`, `exploratory`"@)),
    }
}

/// A step type written under its name is read back as itself.
pub proof fn law_step_type_name_roundtrip(t: StepType)
    ensures
        decode_step_type(JsonModel::Object(seq![("step_type"@, JsonModel::Str(step_type_name(t)))])) == Ok::<StepType, Seq<char>>(t),
{
    reveal_strlit("deterministic");
    reveal_strlit("reasoning");
    reveal_strlit("exploratory");
    reveal_strlit("step_type");
    let j = JsonModel::Object(seq![("step_type"@, JsonModel::Str(step_type_name(t)))]);
    assert(seq![("step_type"@, JsonModel::Str(step_type_name(t)))].drop_first().len() == 0);
    assert(obj_get(j, "step_type"@) == Some(JsonModel::Str(step_type_name(t))));
    assert("reasoning"@.len() != "deterministic"@.len());
    assert("exploratory"@.len() != "deterministic"@.len() && "exploratory"@.len() != "reasoning"@.len());
}

/// A [`SubAction`] from its JSON object.
pub open spec fn decode_action(j: JsonModel) -> Result<SubActionView, Seq<char>> {
    if !(j is Object) {
        Err("invalid type: expected an object for SubAction"@)
    } else {
        match decode_u8_field(j, "order"@) {
            Err(e) => Err(e),
            Ok(order) => match decode_str_field(j, "tool_name"@) {
                Err(e) => Err(e),
                Ok(tool_name) => match obj_get(j, "parameters"@) {
                    None => Err(missing_field("parameters"@)),
                    Some(parameters) => match decode_opt_str_field(j, "output"@) {
                        Err(e) => Err(e),
                        Ok(output) => Ok(SubActionView { order, tool_name, parameters, output }),
                    },
                },
            },
        }
    }
}

/// `decode_action` as a function of position and value.
pub open spec fn decode_action_fn() -> spec_fn(int, JsonModel) -> Result<SubActionView, Seq<char>> {
    |i: int, j: JsonModel| decode_action(j)
}

/// The `actions` member; absent means empty.
pub open spec fn decode_actions_field(j: JsonModel) -> Result<Seq<SubActionView>, Seq<char>> {
    match obj_get(j, "actions"@) {
        None => Ok(Seq::empty()),
        Some(JsonModel::Array(items)) => try_map(items, decode_action_fn()),
        Some(_) => Err(invalid_field("actions"@, "a sequence of SubAction objects"@)),
    }
}

/// A [`PlanStep`] from its JSON object.
pub open spec fn decode_step(j: JsonModel) -> Result<PlanStepView, Seq<char>> {
    if !(j is Object) {
        Err("invalid type: expected an object for PlanStep"@)
    } else {
        match decode_u8_field(j, "order"@) {
            Err(e) => Err(e),
            Ok(order) => match decode_step_type(j) {
                Err(e) => Err(e),
                Ok(step_type) => match decode_str_field(j, "step_goal"@) {
                    Err(e) => Err(e),
                    Ok(step_goal) => match decode_opt_str_field(j, "expected_output"@) {
                        Err(e) => Err(e),
                        Ok(expected_output) => match decode_u8s_field(j, "depends_on"@) {
                            Err(e) => Err(e),
                            Ok(depends_on) => match decode_strs_field(j, "input"@) {
                                Err(e) => Err(e),
                                Ok(input) => match decode_strs_field(j, "success_criteria"@) {
                                    Err(e) => Err(e),
                                    Ok(success_criteria) => match decode_actions_field(j) {
                                        Err(e) => Err(e),
                                        Ok(actions) => Ok(PlanStepView {
                                            order,
                                            step_type,
                                            step_goal,
                                            expected_output,
                                            depends_on,
                                            input,
                                            success_criteria,
                                            actions,
                                        }),
                                    },
                                },
                            },
                        },
                    },
                },
            },
        }
    }
}

// ---------------------------------------------------------------------------
// Executable decoding
// ---------------------------------------------------------------------------

fn missing_field_msg(name: &str) -> (r: String)
    ensures
        r@ == missing_field(name@),
{
    let mut r = owned("missing field `");
    r.append(name);
    r.append("`");
    r
}

fn invalid_field_msg(name: &str, what: &str) -> (r: String)
    ensures
        r@ == invalid_field(name@, what@),
{
    let mut r = owned("invalid value for field `");
    r.append(name);
    r.append("`, expected ");
    r.append(what);
    r
}

fn read_u8_field(v: &Value, name: &str) -> (r: Result<u8, String>)
    ensures
        match r {
            Ok(u) => decode_u8_field(json_view(*v), name@) == Ok::<u8, Seq<char>>(u),
            Err(m) => decode_u8_field(json_view(*v), name@) == Err::<u8, Seq<char>>(m@),
        },
{
    match json_get(v, name) {
        None => Err(missing_field_msg(name)),
        Some(x) => match json_as_u64(x) {
            Some(u) => if u <= 255 {
                Ok(u as u8)
            } else {
                Err(invalid_field_msg(name, "u8"))
            },
            None => Err(invalid_field_msg(name, "u8")),
        },
    }
}

fn read_str_field(v: &Value, name: &str) -> (r: Result<String, String>)
    ensures
        match r {
            Ok(s) => decode_str_field(json_view(*v), name@) == Ok::<Seq<char>, Seq<char>>(s@),
            Err(m) => decode_str_field(json_view(*v), name@) == Err::<Seq<char>, Seq<char>>(m@),
        },
{
    match json_get(v, name) {
        None => Err(missing_field_msg(name)),
        Some(x) => match json_as_str(x) {
            Some(s) => Ok(owned(s)),
            None => Err(invalid_field_msg(name, "a string")),
        },
    }
}

fn read_opt_str_field(v: &Value, name: &str) -> (r: Result<Option<String>, String>)
    ensures
        match r {
            Ok(s) => decode_opt_str_field(json_view(*v), name@) == Ok::<Option<Seq<char>>, Seq<char>>(opt_view(s)),
            Err(m) => decode_opt_str_field(json_view(*v), name@) == Err::<Option<Seq<char>>, Seq<char>>(m@),
        },
{
    match json_get(v, name) {
        None => Ok(None),
        Some(x) => {
            if json_is_null(x) {
                Ok(None)
            } else {
                match json_as_str(x) {
                    Some(s) => Ok(Some(owned(s))),
                    None => Err(invalid_field_msg(name, "a string or null")),
                }
            }
        },
    }
}

fn read_strs_field(v: &Value, name: &str) -> (r: Result<Vec<String>, String>)
    ensures
        match r {
            Ok(s) => decode_strs_field(json_view(*v), name@) == Ok::<Seq<Seq<char>>, Seq<char>>(strs_view(s@)),
            Err(m) => decode_strs_field(json_view(*v), name@) == Err::<Seq<Seq<char>>, Seq<char>>(m@),
        },
{
    match json_get(v, name) {
        None => {
            let r: Vec<String> = Vec::new();
            assert(strs_view(r@) =~= Seq::<Seq<char>>::empty());
            Ok(r)
        },
        Some(x) => match json_as_array(x) {
            None => Err(invalid_field_msg(name, "a sequence of strings")),
            Some(items) => {
                let ghost model = views(items@);
                let mut out: Vec<String> = Vec::new();
                let mut i: usize = 0;
                while i < items.len()
                    invariant
                        i <= items.len(),
                        model == views(items@),
                        obj_get(json_view(*v), name@) == Some(JsonModel::Array(model)),
                        forall|k: int| 0 <= k < i ==> #[trigger] model[k] is Str,
                        strs_view(out@) == model.take(i as int).map_values(|x: JsonModel| x->Str_0),
                    decreases items.len() - i,
                {
                    assert(model[i as int] == json_view(items@[i as int]));
                    match json_as_str(&items[i]) {
                        Some(s) => {
                            let ghost prev = out@;
                            out.push(owned(s));
                            assert(strs_view(out@) =~= strs_view(prev).push(s@));
                            assert(model.take(i + 1).map_values(|x: JsonModel| x->Str_0)
                                =~= model.take(i as int).map_values(|x: JsonModel| x->Str_0).push(model[i as int]->Str_0));
                        },
                        None => {
                            assert(!(model[i as int] is Str));
                            return Err(invalid_field_msg(name, "a sequence of strings"));
                        },
                    }
                    i += 1;
                }
                assert(model.take(i as int) =~= model);
                Ok(out)
            },
        },
    }
}

fn u8_item(name: &str, i: usize, x: &Value) -> (r: Result<u8, String>)
    ensures
        match r {
            Ok(u) => decode_u8_item(name@, i as int, json_view(*x)) == Ok::<u8, Seq<char>>(u),
            Err(m) => decode_u8_item(name@, i as int, json_view(*x)) == Err::<u8, Seq<char>>(m@),
        },
{
    let mut m = owned(name);
    m.append("[");
    push_dec(&mut m, i as u64);
    match json_as_u64(x) {
        Some(u) => {
            if u <= 255 {
                return Ok(u as u8);
            }
            m.append("] = ");
            push_dec(&mut m, u);
            m.append(" exceeds u8::MAX");
            return Err(m);
        },
        None => {},
    }
    if json_is_number(x) {
        m.append("] must be a non-negative integer, got: ");
    } else {
        m.append("] must be an integer, got: ");
    }
    match json_to_string(x) {
        Some(t) => m.append(t.as_str()),
        None => {},
    }
    Err(m)
}

fn read_u8s_field(v: &Value, name: &str) -> (r: Result<Vec<u8>, String>)
    ensures
        match r {
            Ok(s) => decode_u8s_field(json_view(*v), name@) == Ok::<Seq<u8>, Seq<char>>(s@),
            Err(m) => decode_u8s_field(json_view(*v), name@) == Err::<Seq<u8>, Seq<char>>(m@),
        },
{
    match json_get(v, name) {
        None => {
            let r: Vec<u8> = Vec::new();
            assert(r@ =~= Seq::<u8>::empty());
            Ok(r)
        },
        Some(x) => match json_as_array(x) {
            None => Err(invalid_field_msg(name, "a sequence of integers from 0 to 255")),
            Some(items) => {
                let ghost model = views(items@);
                let ghost f = decode_u8_item_fn(name@);
                let mut out: Vec<u8> = Vec::new();
                let mut i: usize = 0;
                proof {
                    lemma_try_map_empty(model, f);
                    assert(out@ =~= Seq::<u8>::empty());
                }
                while i < items.len()
                    invariant
                        i <= items.len(),
                        model == views(items@),
                        f == decode_u8_item_fn(name@),
                        obj_get(json_view(*v), name@) == Some(JsonModel::Array(model)),
                        try_map(model.take(i as int), f) == Ok::<Seq<u8>, Seq<char>>(out@),
                    decreases items.len() - i,
                {
                    proof {
                        lemma_try_map_step(model, f, i as int);
                    }
                    assert(model[i as int] == json_view(items@[i as int]));
                    match u8_item(name, i, &items[i]) {
                        Ok(u) => {
                            let ghost prev = out@;
                            out.push(u);
                            assert(out@ =~= prev.push(u));
                        },
                        Err(e) => {
                            proof {
                                lemma_try_map_prefix_err(model, f, i + 1);
                            }
                            return Err(e);
                        },
                    }
                    i += 1;
                }
                proof {
                    lemma_try_map_full(model, f);
                }
                Ok(out)
            },
        },
    }
}

fn read_step_type(v: &Value) -> (r: Result<StepType, String>)
    ensures
        match r {
            Ok(t) => decode_step_type(json_view(*v)) == Ok::<StepType, Seq<char>>(t),
            Err(m) => decode_step_type(json_view(*v)) == Err::<StepType, Seq<char>>(m@),
        },
{
    match json_get(v, "step_type") {
        None => Ok(StepType::Deterministic),
        Some(x) => match json_as_str(x) {
            Some(s) => {
                let cs = crate::text::to_chars(s);
                if crate::text::chars_eq(&cs, &crate::text::to_chars("deterministic")) {
                    Ok(StepType::Deterministic)
                } else if crate::text::chars_eq(&cs, &crate::text::to_chars("reasoning")) {
                    Ok(StepType::Reasoning)
                } else if crate::text::chars_eq(&cs, &crate::text::to_chars("exploratory")) {
                    Ok(StepType::Exploratory)
                } else {
                    Err(invalid_field_msg("step_type", "one of `deterministic`, `reasoning`, `exploratory`"))
                }
            },
            None => Err(invalid_field_msg("step_type", "one of `deterministic`, `reasoning`, `exploratory`")),
        },
    }
}

/// Decodes a [`SubAction`] from its JSON object.
pub fn decode_sub_action(v: &Value) -> (r: Result<SubAction, String>)
    ensures
        match r {
            Ok(a) => decode_action(json_view(*v)) == Ok::<SubActionView, Seq<char>>(a@),
            Err(m) => decode_action(json_view(*v)) == Err::<SubActionView, Seq<char>>(m@),
        },
{
    if !json_is_object(v) {
        return Err(owned("invalid type: expected an object for SubAction"));
    }
    let order = match read_u8_field(v, "order") {
        Ok(o) => o,
        Err(e) => return Err(e),
    };
    let tool_name = match read_str_field(v, "tool_name") {
        Ok(t) => t,
        Err(e) => return Err(e),
    };
    let parameters = match json_get(v, "parameters") {
        Some(p) => json_clone(p),
        None => return Err(missing_field_msg("parameters")),
    };
    let output = match read_opt_str_field(v, "output") {
        Ok(o) => o,
        Err(e) => return Err(e),
    };
    Ok(SubAction { order, tool_name, parameters, output })
}

fn read_actions_field(v: &Value) -> (r: Result<Vec<SubAction>, String>)
    ensures
        match r {
            Ok(s) => decode_actions_field(json_view(*v)) == Ok::<Seq<SubActionView>, Seq<char>>(actions_view(s@)),
            Err(m) => decode_actions_field(json_view(*v)) == Err::<Seq<SubActionView>, Seq<char>>(m@),
        },
{
    match json_get(v, "actions") {
        None => {
            let r: Vec<SubAction> = Vec::new();
            assert(actions_view(r@) =~= Seq::<SubActionView>::empty());
            Ok(r)
        },
        Some(x) => match json_as_array(x) {
            None => Err(invalid_field_msg("actions", "a sequence of SubAction objects")),
            Some(items) => {
                let ghost model = views(items@);
                let ghost f = decode_action_fn();
                let mut out: Vec<SubAction> = Vec::new();
                let mut i: usize = 0;
                proof {
                    crate::seqs::lemma_try_map_empty(model, f);
                    assert(actions_view(out@) =~= Seq::<SubActionView>::empty());
                }
                while i < items.len()
                    invariant
                        i <= items.len(),
                        model == views(items@),
                        obj_get(json_view(*v), "actions"@) == Some(JsonModel::Array(model)),
                        f == decode_action_fn(),
                        crate::seqs::try_map(model.take(i as int), f) == Ok::<Seq<SubActionView>, Seq<char>>(actions_view(out@)),
                    decreases items.len() - i,
                {
                    proof {
                        crate::seqs::lemma_try_map_step(model, f, i as int);
                    }
                    assert(model[i as int] == json_view(items@[i as int]));
                    match decode_sub_action(&items[i]) {
                        Ok(a) => {
                            let ghost prev = out@;
                            let ghost av = a@;
                            out.push(a);
                            assert(actions_view(out@) =~= actions_view(prev).push(av));
                        },
                        Err(e) => {
                            proof {
                                crate::seqs::lemma_try_map_prefix_err(model, f, i + 1);
                            }
                            return Err(e);
                        },
                    }
                    i += 1;
                }
                proof {
                    crate::seqs::lemma_try_map_full(model, f);
                }
                Ok(out)
            },
        },
    }
}

/// Decodes a [`PlanStep`] from its JSON object.
///
/// Members other than the step's fields are ignored; `step_type` defaults to
/// deterministic, `expected_output` to none and the lists to empty.
pub fn decode_plan_step(v: &Value) -> (r: Result<PlanStep, String>)
    ensures
        match r {
            Ok(s) => decode_step(json_view(*v)) == Ok::<PlanStepView, Seq<char>>(s@),
            Err(m) => decode_step(json_view(*v)) == Err::<PlanStepView, Seq<char>>(m@),
        },
{
    if !json_is_object(v) {
        return Err(owned("invalid type: expected an object for PlanStep"));
    }
    let order = match read_u8_field(v, "order") {
        Ok(o) => o,
        Err(e) => return Err(e),
    };
    let step_type = match read_step_type(v) {
        Ok(t) => t,
        Err(e) => return Err(e),
    };
    let step_goal = match read_str_field(v, "step_goal") {
        Ok(t) => t,
        Err(e) => return Err(e),
    };
    let expected_output = match read_opt_str_field(v, "expected_output") {
        Ok(t) => t,
        Err(e) => return Err(e),
    };
    let depends_on = match read_u8s_field(v, "depends_on") {
        Ok(t) => t,
        Err(e) => return Err(e),
    };
    let input = match read_strs_field(v, "input") {
        Ok(t) => t,
        Err(e) => return Err(e),
    };
    let success_criteria = match read_strs_field(v, "success_criteria") {
        Ok(t) => t,
        Err(e) => return Err(e),
    };
    let actions = match read_actions_field(v) {
        Ok(t) => t,
        Err(e) => return Err(e),
    };
    Ok(PlanStep { order, step_type, step_goal, expected_output, depends_on, input, success_criteria, actions })
}


// ---------------------------------------------------------------------------
// Validating a plan
// ---------------------------------------------------------------------------

/// The 1-based number of the step at index `i`.
pub open spec fn step_no(i: int) -> Seq<char> {
    dec((i + 1) as nat)
}

/// Success criteria must not be blank.
pub open spec fn criterion_fn(i: int, order: u8) -> spec_fn(int, Seq<char>) -> Result<(), Seq<char>> {
    |c: int, s: Seq<char>|
        if is_blank(s) {
            Err("step #"@ + step_no(i) + " (order="@ + dec(order as nat) + "): success_criteria["@ + dec(c as nat)
                + "] must not be empty"@)
        } else {
            Ok(())
        }
}

/// The actions of a deterministic step need a tool name and object parameters.
pub open spec fn action_check_fn(i: int) -> spec_fn(int, SubActionView) -> Result<(), Seq<char>> {
    |a: int, x: SubActionView|
        if is_blank(x.tool_name) {
            Err("step #"@ + step_no(i) + " action #"@ + dec((a + 1) as nat) + ": tool_name must not be empty"@)
        } else if !(x.parameters is Object) {
            Err("step #"@ + step_no(i) + " action #"@ + dec((a + 1) as nat) + ": parameters must be a JSON object"@)
        } else {
            Ok(())
        }
}

/// The checks on one decoded step (the step at index `i`).
pub open spec fn check_step(i: int, s: PlanStepView) -> Result<(), Seq<char>> {
    if is_blank(s.step_goal) {
        Err("step #"@ + step_no(i) + ": step_goal must not be empty"@)
    } else {
        match try_map(s.success_criteria, criterion_fn(i, s.order)) {
            Err(e) => Err(e),
            Ok(_) => if s.step_type == StepType::Deterministic {
                if s.actions.len() == 0 {
                    Err("step #"@ + step_no(i) + " (order="@ + dec(s.order as nat)
                        + ", deterministic): actions must not be empty; provide at least one SubAction with tool_name and parameters"@)
                } else {
                    match try_map(s.actions, action_check_fn(i)) {
                        Err(e) => Err(e),
                        Ok(_) => Ok(()),
                    }
                }
            } else {
                Ok(())
            },
        }
    }
}

/// Decodes and checks the step at index `i`.
pub open spec fn read_step(i: int, j: JsonModel) -> Result<PlanStepView, Seq<char>> {
    match decode_step(j) {
        Err(e) => Err("Failed to parse step #"@ + step_no(i) + ": "@ + e),
        Ok(s) => match check_step(i, s) {
            Err(e) => Err(e),
            Ok(_) => Ok(s),
        },
    }
}

/// `read_step` as a function of position and value.
pub open spec fn read_step_fn() -> spec_fn(int, JsonModel) -> Result<PlanStepView, Seq<char>> {
    |i: int, j: JsonModel| read_step(i, j)
}

/// Orders run 1, 2, 3, ... (as `u8`).
pub open spec fn order_check_fn() -> spec_fn(int, PlanStepView) -> Result<(), Seq<char>> {
    |i: int, s: PlanStepView|
        if s.order as int != (i + 1) % 256 {
            Err("step order must be consecutive from 1; expected "@ + dec(((i + 1) % 256) as nat) + ", got "@
                + dec(s.order as nat))
        } else {
            Ok(())
        }
}

/// A dependency names an earlier step.
pub open spec fn dep_check_fn(order: u8) -> spec_fn(int, u8) -> Result<(), Seq<char>> {
    |k: int, d: u8|
        if d == 0 || d >= order {
            Err("step #"@ + dec(order as nat) + " (order="@ + dec(order as nat) + "): depends_on="@ + dec(d as nat)
                + " is invalid (must be in 1.."@ + dec(order as nat) + ")"@)
        } else {
            Ok(())
        }
}

/// Every dependency of every step names an earlier step.
pub open spec fn deps_check_fn() -> spec_fn(int, PlanStepView) -> Result<(), Seq<char>> {
    |i: int, s: PlanStepView|
        match try_map(s.depends_on, dep_check_fn(s.order)) {
            Err(e) => Err(e),
            Ok(_) => Ok(()),
        }
}

/// The checks across steps; `None` when the plan passes them.
pub open spec fn plan_error(steps: Seq<PlanStepView>) -> Option<Seq<char>> {
    match try_map(steps, order_check_fn()) {
        Err(e) => Some(e),
        Ok(_) => match try_map(steps, deps_check_fn()) {
            Err(e) => Some(e),
            Ok(_) => if steps.len() > 0 && steps.last().success_criteria.len() == 0 {
                Some("the last step (order="@ + dec(steps.last().order as nat)
                    + ") must have at least one success_criteria (objective condition(s) to determine task completion)"@)
            } else {
                None
            },
        },
    }
}

/// The part of an LLM reply that holds the JSON: from the first `{` to the
/// last `}` when both occur in that order, else the whole reply.
pub open spec fn json_span(s: Seq<char>) -> Seq<char> {
    match (find_first(s, '{'), find_last(s, '}')) {
        (Some(a), Some(b)) => if b >= a {
            s.subrange(a, b + 1)
        } else {
            s
        },
        _ => s,
    }
}

/// What a plan reply yields: the steps, or the message of the first problem.
pub open spec fn spec_parse_plans(response: Seq<char>) -> Result<Seq<PlanStepView>, Seq<char>> {
    match json_parse(json_span(response)) {
        Err(e) => Err("Failed to parse plans JSON: "@ + e),
        Ok(j) => plans_of_value(j),
    }
}

/// The plan a parsed reply describes (see [`spec_parse_plans`]).
pub open spec fn plans_of_value(j: JsonModel) -> Result<Seq<PlanStepView>, Seq<char>> {
    if !(j is Object) {
        Err("Invalid plans JSON: expected object"@)
    } else {
        match obj_get(j, "steps"@) {
            Some(JsonModel::Array(items)) => if items.len() == 0 {
                Err("steps array is empty"@)
            } else {
                match try_map(items, read_step_fn()) {
                    Err(e) => Err(e),
                    Ok(steps) => match plan_error(steps) {
                        Some(e) => Err(e),
                        None => Ok(steps),
                    },
                }
            },
            _ => Err("steps must be a non-empty array"@),
        }
    }
}

fn step_tag(i: usize) -> (r: String)
    requires
        i < usize::MAX,
    ensures
        r@ == "step #"@ + step_no(i as int),
{
    let mut r = owned("step #");
    push_dec(&mut r, (i + 1) as u64);
    r
}

/// Runs [`check_step`] on a decoded step.
fn check_plan_step(i: usize, s: &PlanStep) -> (r: Result<(), String>)
    requires
        i < usize::MAX,
    ensures
        match r {
            Ok(_) => check_step(i as int, s@) is Ok,
            Err(m) => check_step(i as int, s@) == Err::<(), Seq<char>>(m@),
        },
{
    if blank(s.step_goal.as_str()) {
        let mut m = step_tag(i);
        m.append(": step_goal must not be empty");
        return Err(m);
    }
    let ghost crit = s@.success_criteria;
    let ghost cf = criterion_fn(i as int, s.order);
    let mut c: usize = 0;
    proof {
        lemma_try_map_empty(crit, cf);
    }
    while c < s.success_criteria.len()
        invariant
            c <= s.success_criteria.len(),
            crit == strs_view(s.success_criteria@),
            cf == criterion_fn(i as int, s.order),
            i < usize::MAX,
            !is_blank(s@.step_goal),
            try_map(crit.take(c as int), cf) is Ok,
        decreases s.success_criteria.len() - c,
    {
        proof {
            lemma_try_map_step(crit, cf, c as int);
        }
        assert(crit[c as int] == s.success_criteria@[c as int]@);
        if blank(s.success_criteria[c].as_str()) {
            let mut m = step_tag(i);
            m.append(" (order=");
            push_dec(&mut m, s.order as u64);
            m.append("): success_criteria[");
            push_dec(&mut m, c as u64);
            m.append("] must not be empty");
            proof {
                lemma_try_map_prefix_err(crit, cf, c + 1);
            }
            return Err(m);
        }
        c += 1;
    }
    proof {
        lemma_try_map_full(crit, cf);
    }
    if s.step_type == StepType::Deterministic {
        if s.actions.len() == 0 {
            let mut m = step_tag(i);
            m.append(" (order=");
            push_dec(&mut m, s.order as u64);
            m.append(", deterministic): actions must not be empty; provide at least one SubAction with tool_name and parameters");
            return Err(m);
        }
        let ghost acts = s@.actions;
        let ghost af = action_check_fn(i as int);
        let mut a: usize = 0;
        proof {
            lemma_try_map_empty(acts, af);
        }
        while a < s.actions.len()
            invariant
                a <= s.actions.len(),
                acts == actions_view(s.actions@),
                af == action_check_fn(i as int),
                i < usize::MAX,
                !is_blank(s@.step_goal),
                crit == strs_view(s.success_criteria@),
                cf == criterion_fn(i as int, s.order),
                try_map(crit, cf) is Ok,
                s.step_type == StepType::Deterministic,
                s.actions.len() > 0,
                try_map(acts.take(a as int), af) is Ok,
            decreases s.actions.len() - a,
        {
            proof {
                lemma_try_map_step(acts, af, a as int);
            }
            assert(acts[a as int] == s.actions@[a as int]@);
            let bad_name = blank(s.actions[a].tool_name.as_str());
            let is_obj = json_is_object(&s.actions[a].parameters);
            if bad_name || !is_obj {
                let mut m = step_tag(i);
                m.append(" action #");
                push_dec(&mut m, (a + 1) as u64);
                if bad_name {
                    m.append(": tool_name must not be empty");
                } else {
                    m.append(": parameters must be a JSON object");
                }
                proof {
                    lemma_try_map_prefix_err(acts, af, a + 1);
                }
                return Err(m);
            }
            a += 1;
        }
        proof {
            lemma_try_map_full(acts, af);
        }
    }
    Ok(())
}

/// Decodes and checks the step at index `i` of a plan.
fn read_plan_step(i: usize, v: &Value) -> (r: Result<PlanStep, String>)
    requires
        i < usize::MAX,
    ensures
        match r {
            Ok(s) => read_step(i as int, json_view(*v)) == Ok::<PlanStepView, Seq<char>>(s@),
            Err(m) => read_step(i as int, json_view(*v)) == Err::<PlanStepView, Seq<char>>(m@),
        },
{
    let step = match decode_plan_step(v) {
        Ok(s) => s,
        Err(e) => {
            let mut m = owned("Failed to parse step #");
            push_dec(&mut m, (i + 1) as u64);
            m.append(": ");
            m.append(e.as_str());
            return Err(m);
        },
    };
    match check_plan_step(i, &step) {
        Ok(_) => Ok(step),
        Err(e) => Err(e),
    }
}

/// Runs the checks across steps ([`plan_error`]).
fn check_plan(steps: &Vec<PlanStep>) -> (r: Option<String>)
    ensures
        match r {
            None => plan_error(steps_view(steps@)) is None,
            Some(m) => plan_error(steps_view(steps@)) == Some(m@),
        },
{
    let ghost sv = steps_view(steps@);
    let ghost of = order_check_fn();
    let mut k: usize = 0;
    proof {
        lemma_try_map_empty(sv, of);
    }
    while k < steps.len()
        invariant
            k <= steps.len(),
            sv == steps_view(steps@),
            of == order_check_fn(),
            try_map(sv.take(k as int), of) is Ok,
        decreases steps.len() - k,
    {
        proof {
            lemma_try_map_step(sv, of, k as int);
        }
        let expected: u64 = ((k as u64) + 1) % 256;
        if steps[k].order as u64 != expected {
            let mut m = owned("step order must be consecutive from 1; expected ");
            push_dec(&mut m, expected);
            m.append(", got ");
            push_dec(&mut m, steps[k].order as u64);
            proof {
                lemma_try_map_prefix_err(sv, of, k + 1);
            }
            return Some(m);
        }
        k += 1;
    }
    proof {
        lemma_try_map_full(sv, of);
    }
    let ghost df = deps_check_fn();
    let mut k: usize = 0;
    proof {
        lemma_try_map_empty(sv, df);
    }
    while k < steps.len()
        invariant
            k <= steps.len(),
            sv == steps_view(steps@),
            of == order_check_fn(),
            df == deps_check_fn(),
            try_map(sv, of) is Ok,
            try_map(sv.take(k as int), df) is Ok,
        decreases steps.len() - k,
    {
        proof {
            lemma_try_map_step(sv, df, k as int);
        }
        let order = steps[k].order;
        let ghost deps = steps[k as int].depends_on@;
        let ghost dcf = dep_check_fn(order);
        assert(sv[k as int].depends_on == deps);
        let mut d: usize = 0;
        proof {
            lemma_try_map_empty(deps, dcf);
        }
        while d < steps[k].depends_on.len()
            invariant
                k < steps.len(),
                d <= steps[k as int].depends_on.len(),
                deps == steps[k as int].depends_on@,
                order == steps[k as int].order,
                dcf == dep_check_fn(order),
                try_map(deps.take(d as int), dcf) is Ok,
                sv == steps_view(steps@),
                of == order_check_fn(),
                df == deps_check_fn(),
                try_map(sv, of) is Ok,
                try_map(sv.take(k as int), df) is Ok,
                sv[k as int].depends_on == deps,
                sv[k as int].order == order,
            decreases steps[k as int].depends_on.len() - d,
        {
            proof {
                lemma_try_map_step(deps, dcf, d as int);
            }
            let dep = steps[k].depends_on[d];
            if dep == 0 || dep >= order {
                let mut m = owned("step #");
                push_dec(&mut m, order as u64);
                m.append(" (order=");
                push_dec(&mut m, order as u64);
                m.append("): depends_on=");
                push_dec(&mut m, dep as u64);
                m.append(" is invalid (must be in 1..");
                push_dec(&mut m, order as u64);
                m.append(")");
                proof {
                    lemma_try_map_prefix_err(deps, dcf, d + 1);
                    assert(deps[d as int] == dep);
                    assert(try_map(deps, dcf) == Err::<Seq<()>, Seq<char>>(m@));
                    assert(df(k as int, sv[k as int]) == Err::<(), Seq<char>>(m@));
                    lemma_try_map_step(sv, df, k as int);
                    lemma_try_map_prefix_err(sv, df, k + 1);
                    assert(try_map(sv, df) == Err::<Seq<()>, Seq<char>>(m@));
                }
                return Some(m);
            }
            d += 1;
        }
        proof {
            lemma_try_map_full(deps, dcf);
        }
        k += 1;
    }
    proof {
        lemma_try_map_full(sv, df);
    }
    if steps.len() > 0 && steps[steps.len() - 1].success_criteria.len() == 0 {
        let mut m = owned("the last step (order=");
        push_dec(&mut m, steps[steps.len() - 1].order as u64);
        m.append(") must have at least one success_criteria (objective condition(s) to determine task completion)");
        return Some(m);
    }
    None
}

/// The bounds of [`json_span`] in `v`.
fn json_span_bounds(v: &Vec<char>) -> (r: (usize, usize))
    ensures
        r.0 <= r.1 <= v.len(),
        v@.subrange(r.0 as int, r.1 as int) == json_span(v@),
{
    match (find_char(v, '{'), rfind_char(v, '}')) {
        (Some(a), Some(b)) => {
            if b >= a {
                (a, b + 1)
            } else {
                assert(v@.subrange(0, v.len() as int) =~= v@);
                (0, v.len())
            }
        },
        _ => {
            assert(v@.subrange(0, v.len() as int) =~= v@);
            (0, v.len())
        },
    }
}

/// The JSON part of an LLM reply ([`json_span`]).
pub fn extract_json_span(response: &str) -> (r: String)
    ensures
        r@ == json_span(response@),
{
    let v = to_chars(response);
    let (a, b) = json_span_bounds(&v);
    string_of(&v, a, b)
}

/// Parses and validates the plan an LLM replied with.
///
/// The reply may wrap the JSON in Markdown or other text: the part from the
/// first `{` to the last `}` is parsed. The plan is accepted when `steps` is a
/// non-empty array of well-formed steps, every step has a non-blank goal and
/// non-blank success criteria, every deterministic step has at least one
/// action with a tool name and object parameters, orders run 1, 2, 3, ...,
/// every dependency names an earlier step, and the last step has at least one
/// success criterion. Otherwise the error names the first problem found.
pub fn parse_plans_response(response: &str) -> (r: Result<PlansResponse, LlmError>)
    ensures
        match spec_parse_plans(response@) {
            Ok(steps) => r matches Ok(p) && steps_view(p.steps@) == steps,
            Err(m) => r matches Err(LlmError::ParseError(e)) && e@ == m,
        },
{
    let text = extract_json_span(response);
    match parse_json(text.as_str()) {
        Ok(v) => plans_from_value(&v),
        Err(e) => {
            let mut m = owned("Failed to parse plans JSON: ");
            m.append(e.as_str());
            Err(LlmError::ParseError(m))
        },
    }
}

/// Reads a plan from a parsed reply (see [`plans_of_value`]).
pub fn plans_from_value(value: &Value) -> (r: Result<PlansResponse, LlmError>)
    ensures
        match plans_of_value(json_view(*value)) {
            Ok(steps) => r matches Ok(p) && steps_view(p.steps@) == steps,
            Err(m) => r matches Err(LlmError::ParseError(e)) && e@ == m,
        },
{
    if !json_is_object(value) {
        return Err(LlmError::ParseError(owned("Invalid plans JSON: expected object")));
    }
    let items = match json_get(value, "steps") {
        Some(s) => match json_as_array(s) {
            Some(a) => a,
            None => return Err(LlmError::ParseError(owned("steps must be a non-empty array"))),
        },
        None => return Err(LlmError::ParseError(owned("steps must be a non-empty array"))),
    };
    if items.len() == 0 {
        return Err(LlmError::ParseError(owned("steps array is empty")));
    }
    let ghost model = views(items@);
    let ghost rf = read_step_fn();
    let mut steps: Vec<PlanStep> = Vec::new();
    let mut i: usize = 0;
    proof {
        lemma_try_map_empty(model, rf);
        assert(steps_view(steps@) =~= Seq::<PlanStepView>::empty());
    }
    while i < items.len()
        invariant
            i <= items.len(),
            model == views(items@),
            rf == read_step_fn(),
            try_map(model.take(i as int), rf) == Ok::<Seq<PlanStepView>, Seq<char>>(steps_view(steps@)),
            json_view(*value) is Object,
            obj_get(json_view(*value), "steps"@) == Some(JsonModel::Array(model)),
            model.len() > 0,
        decreases items.len() - i,
    {
        proof {
            lemma_try_map_step(model, rf, i as int);
        }
        assert(model[i as int] == json_view(items@[i as int]));
        match read_plan_step(i, &items[i]) {
            Ok(s) => {
                let ghost prev = steps@;
                let ghost sv = s@;
                steps.push(s);
                assert(steps_view(steps@) =~= steps_view(prev).push(sv));
            },
            Err(e) => {
                proof {
                    lemma_try_map_prefix_err(model, rf, i + 1);
                }
                return Err(LlmError::ParseError(e));
            },
        }
        i += 1;
    }
    proof {
        lemma_try_map_full(model, rf);
    }
    match check_plan(&steps) {
        Some(e) => Err(LlmError::ParseError(e)),
        None => Ok(PlansResponse { steps }),
    }
}


// ---------------------------------------------------------------------------
// Building steps
// ---------------------------------------------------------------------------

/// The views of a slice of string slices.
pub open spec fn str_slices_view(v: Seq<&str>) -> Seq<Seq<char>> {
    v.map_values(|s: &str| s@)
}

/// Owned copies of a slice of string slices.
fn owned_all(items: &[&str]) -> (r: Vec<String>)
    ensures
        strs_view(r@) == str_slices_view(items@),
{
    let mut out: Vec<String> = Vec::new();
    let mut i: usize = 0;
    while i < items.len()
        invariant
            i <= items.len(),
            strs_view(out@) == str_slices_view(items@.take(i as int)),
        decreases items.len() - i,
    {
        let ghost prev = out@;
        out.push(owned(items[i]));
        assert(strs_view(out@) =~= strs_view(prev).push(items@[i as int]@));
        assert(str_slices_view(items@.take(i + 1)) =~= str_slices_view(items@.take(i as int)).push(items@[i as int]@));
        i += 1;
    }
    assert(items@.take(i as int) =~= items@);
    out
}

impl PlanStep {
    /// A deterministic step whose single action calls `tool_name` with empty
    /// parameters.
    pub fn new(order: u8, tool_name: &str, step_goal: &str) -> (r: PlanStep)
        ensures
            r@.order == order,
            r@.step_type == StepType::Deterministic,
            r@.step_goal == step_goal@,
            r@.expected_output is None,
            r@.depends_on.len() == 0,
            r@.input.len() == 0,
            r@.success_criteria.len() == 0,
            r@.actions == seq![SubActionView {
                order: 1,
                tool_name: tool_name@,
                parameters: JsonModel::Object(Seq::empty()),
                output: None,
            }],
    {
        let action = SubAction { order: 1, tool_name: owned(tool_name), parameters: json_empty_object(), output: None };
        let mut actions: Vec<SubAction> = Vec::new();
        actions.push(action);
        let r = PlanStep {
            order,
            step_type: StepType::Deterministic,
            step_goal: owned(step_goal),
            expected_output: None,
            depends_on: Vec::new(),
            input: Vec::new(),
            success_criteria: Vec::new(),
            actions,
        };
        assert(r@.actions =~= seq![SubActionView {
            order: 1,
            tool_name: tool_name@,
            parameters: JsonModel::Object(Seq::empty()),
            output: None,
        }]);
        r
    }

    /// An exploratory step; its actions are chosen at run time.
    pub fn exploratory(order: u8, step_goal: &str) -> (r: PlanStep)
        ensures
            r@ == (PlanStepView {
                order,
                step_type: StepType::Exploratory,
                step_goal: step_goal@,
                expected_output: None,
                depends_on: Seq::empty(),
                input: Seq::empty(),
                success_criteria: Seq::empty(),
                actions: Seq::empty(),
            }),
    {
        let r = PlanStep {
            order,
            step_type: StepType::Exploratory,
            step_goal: owned(step_goal),
            expected_output: None,
            depends_on: Vec::new(),
            input: Vec::new(),
            success_criteria: Vec::new(),
            actions: Vec::new(),
        };
        assert(r@.input =~= Seq::<Seq<char>>::empty());
        assert(r@.success_criteria =~= Seq::<Seq<char>>::empty());
        assert(r@.actions =~= Seq::<SubActionView>::empty());
        r
    }

    /// Sets what the step produces.
    pub fn with_expected_output(self, output: &str) -> (r: PlanStep)
        ensures
            r@ == (PlanStepView { expected_output: Some(output@), ..self@ }),
    {
        let mut s = self;
        s.expected_output = Some(owned(output));
        s
    }

    /// Adds one dependency; repeated calls accumulate.
    pub fn with_dependency(self, depends_on: u8) -> (r: PlanStep)
        ensures
            r@ == (PlanStepView { depends_on: self@.depends_on.push(depends_on), ..self@ }),
    {
        let mut s = self;
        s.depends_on.push(depends_on);
        s
    }

    /// Adds several dependencies, in order.
    pub fn with_dependencies(self, deps: &[u8]) -> (r: PlanStep)
        ensures
            r@ == (PlanStepView { depends_on: self@.depends_on + deps@, ..self@ }),
    {
        let mut s = self;
        let ghost start = s.depends_on@;
        let mut i: usize = 0;
        while i < deps.len()
            invariant
                i <= deps.len(),
                s.depends_on@ == start + deps@.take(i as int),
                start == self.depends_on@,
                s.order == self.order,
                s.step_type == self.step_type,
                s.step_goal == self.step_goal,
                s.expected_output == self.expected_output,
                s.input == self.input,
                s.success_criteria == self.success_criteria,
                s.actions == self.actions,
            decreases deps.len() - i,
        {
            s.depends_on.push(deps[i]);
            assert(start + deps@.take(i + 1) =~= (start + deps@.take(i as int)).push(deps@[i as int]));
            i += 1;
        }
        assert(deps@.take(i as int) =~= deps@);
        s
    }

    /// Sets the input references of the step.
    pub fn with_input(self, input: &[&str]) -> (r: PlanStep)
        ensures
            r@ == (PlanStepView { input: str_slices_view(input@), ..self@ }),
    {
        let mut s = self;
        s.input = owned_all(input);
        s
    }

    /// Sets the success criteria of the step.
    pub fn with_success_criteria(self, criteria: &[&str]) -> (r: PlanStep)
        ensures
            r@ == (PlanStepView { success_criteria: str_slices_view(criteria@), ..self@ }),
    {
        let mut s = self;
        s.success_criteria = owned_all(criteria);
        s
    }
}

// ---------------------------------------------------------------------------
// Prompt
// ---------------------------------------------------------------------------

/// The user message for plan generation: the content is passed through
/// unchanged (it already holds the request and the intent analysis).
pub fn build_plans_user_message(content: &str) -> (r: String)
    ensures
        r@ == content@,
{
    owned(content)
}


/// The system prompt for plan generation.
pub const PLANS_SYSTEM_PROMPT: &'static str = r#"你是一个通用任务计划生成助手（Universal Task Planner）。
你的职责是根据输入内容分析任务目标、依赖关系和不确定因素，并生成可执行的高层任务计划（Execution Plan）。
你只负责规划，不负责执行。
---
# 输入

输入固定为：

```json
{
  "content": "..."
}
```

其中：

* `content` 是任务上下文。
* `content` 可能包含用户原始请求、意图分析结果、推理结果、约束条件、已有信息或其他上下文。
* `content` 的格式不固定。

可能是：

* 自然语言
* Markdown
* XML
* JSON
* 混合文本

你必须自行从 content 中识别：

1. 任务目标
2. 主要执行阶段
3. 步骤依赖关系
4. 不确定因素
5. 最终交付物

不要要求 content 具有固定结构。

---

# 输出

严格输出一个 JSON 对象：

```json
{
  "steps": [...]
}
```

禁止输出：

* Markdown
* 代码块
* 注释
* 解释说明
* 额外文本

输出必须是合法 JSON。

---

# PlanStep Schema

```json
{
  "order": 1,
  "step_type": "deterministic",
  "step_goal": "步骤目标",
  "expected_output": "步骤产出",
  "depends_on": [],
  "input": [],
  "success_criteria": [],
  "actions": []
}
```

---

# 字段说明

## order

类型：

```json
integer
```

要求：

* 从 1 开始
* 连续递增
* 不允许跳号

---

## step_type

类型：

```json
string
```

可选值：

```text
deterministic
reasoning
exploratory
```

默认：

```text
deterministic
```

---

## step_goal

当前步骤的高层目标。

正确示例：

```text
读取配置文件
获取用户列表
统计销售数据
生成最终报告
```

错误示例：

```text
调用 read_file
执行 SQL
点击按钮
```

工具调用属于 actions。

---

## expected_output

当前步骤完成后的预期产出。

示例：

```text
配置对象
用户列表 JSON
统计结果
Markdown 报告
文件路径
```

---

## depends_on

类型：

```json
[]
```

示例：

```json
[]
```

```json
[1]
```

```json
[1,2]
```

规则：

* 支持多个依赖
* 所有依赖序号必须小于当前步骤序号

---

## input

当前步骤所需输入。

类型：

```json
[]
```

示例：

```json
[
  "{{step_1.output}}"
]
```

```json
[
  "{{step_1.user_id}}",
  "{{step_2.token}}"
]
```

没有输入时：

```json
[]
```

---

## success_criteria

步骤成功判定标准。

类型：

```json
[]
```

示例：

```json
[
  "成功获取用户列表",
  "返回结果数量大于0"
]
```

```json
[
  "文件成功写入",
  "返回文件路径"
]
```

最后一个步骤必须包含明确的任务完成标准。

---

## actions

子动作列表。

---

# Action Schema

```json
{
  "order": 1,
  "tool_name": "server__tool",
  "parameters": {}
}
```

---

# tool_name 规范

统一格式：

```text
{server}__{tool}
```

例如：

```text
http__get
http__post

db__query
db__execute

mcp__fs__read_file
mcp__fs__write_file

mcp__browser__navigate
mcp__browser__click
mcp__browser__screenshot
```

不要编造不存在的工具。

如果无法确定具体工具，优先使用 exploratory 步骤。

---

# 参数引用规则

允许 deterministic 步骤引用前序步骤输出。

引用整个输出：

```json
{
  "content": "{{step_2.output}}"
}
```

引用字段：

```json
{
  "user_id": "{{step_1.user_id}}"
}
```

引用嵌套字段：

```json
{
  "url": "{{step_2.result.url}}"
}
```

---

# Step Type 判定规则

## deterministic

满足以下任意条件：

* 工具已知
* 调用顺序已知
* 参数结构已知
* 仅依赖结构化变量注入

即使部分参数来自前序步骤输出，只要调用路径明确，仍属于 deterministic。

示例：

```text
读取配置
获取 endpoint
调用 API
```

属于 deterministic。

---

## reasoning

用于需要模型推理、分析、归纳或内容生成的场景。

典型场景：

* 文本总结
* 信息抽取
* 内容分类
* 数据分析解释
* 报告生成
* 产品对比
* 自然语言回复生成

要求：

```json
{
  "step_type": "reasoning",
  "actions": []
}
```

reasoning 步骤必须为空 actions。

---

## exploratory

用于运行时存在不确定因素，需要动态决策。

典型场景：

* 页面结构未知
* 选择器未知
* 登录流程
* 验证码
* MFA
* 动态弹窗
* 从运行时结果中寻找目标对象
* 提取未知 ID
* 文件状态未知
* 外部环境状态未知

要求：

```json
{
  "step_type": "exploratory",
  "actions": []
}
```

exploratory 步骤必须为空 actions。

---

# Actions 规则

## deterministic

必须满足：

```text
actions.length >= 1
```

每个 action 必须包含：

```json
{
  "order": 1,
  "tool_name": "...",
  "parameters": {}
}
```

---

## reasoning

必须：

```json
[]
```

---

## exploratory

必须：

```json
[]
```

---

# 规划原则

## 原则1

步骤表达的是宏观目标。

不要把每个工具调用拆成独立步骤。

正确：

```text
读取销售数据
统计销售结果
保存统计文件
```

错误：

```text
调用 read_file
调用 group_by
调用 write_file
```

---

## 原则2

优先生成 3~8 个步骤。

任务简单时允许少于 3 个步骤。

不要过度拆分。

---

## 原则3

强依赖必须显式声明。

例如：

```json
{
  "depends_on": [1,2]
}
```

---

## 原则4

尽量将确定路径规划为 deterministic。

不要滥用 exploratory。

---

## 原则5

所有分析、归纳、总结、生成类任务优先使用 reasoning。

不要误标为 exploratory。

---

## 原则6

无法确定具体工具、具体参数或具体操作对象时，使用 exploratory。

---

# 输出校验规则

生成结果前必须满足：

1. 仅输出 JSON。
2. steps 数组不能为空。
3. order 从 1 开始连续递增。
4. depends_on 中所有序号必须存在。
5. deterministic 的 actions 不允许为空。
6. reasoning 的 actions 必须为空数组。
7. exploratory 的 actions 必须为空数组。
8. 每个 action 必须包含：

   * order
   * tool_name
   * parameters
9. parameters 必须是 JSON 对象。
10. 最后一个步骤必须包含明确的 success_criteria。
11. 输出必须是合法 JSON。
12. 不允许输出任何额外内容。

优化提示词"#;

/// The system prompt for plan generation: it asks for `{"steps": [...]}` with
/// macro-level steps typed deterministic, reasoning or exploratory.
pub fn plans_system_prompt() -> (r: &'static str)
    ensures
        r@ == PLANS_SYSTEM_PROMPT@,
{
    PLANS_SYSTEM_PROMPT
}


// ---------------------------------------------------------------------------
// What an accepted plan guarantees
// ---------------------------------------------------------------------------

/// A plan fit to run: at least one step; orders 1, 2, 3, ... (as `u8`);
/// every dependency names an earlier step; every goal and success
/// criterion is non-blank; the last step has a success criterion; every
/// deterministic step has actions, each naming a tool and passing object
/// parameters.
pub open spec fn plan_well_formed(steps: Seq<PlanStepView>) -> bool {
    &&& steps.len() > 0
    &&& forall|i: int| 0 <= i < steps.len() ==> (#[trigger] steps[i]).order as int == (i + 1) % 256
    &&& forall|i: int, k: int|
        0 <= i < steps.len() && 0 <= k < steps[i].depends_on.len() ==> 0 < #[trigger] steps[i].depends_on[k] < steps[i].order
    &&& forall|i: int| 0 <= i < steps.len() ==> !is_blank(#[trigger] steps[i].step_goal)
    &&& forall|i: int, c: int|
        0 <= i < steps.len() && 0 <= c < steps[i].success_criteria.len() ==> !is_blank(#[trigger] steps[i].success_criteria[c])
    &&& steps.last().success_criteria.len() > 0
    &&& forall|i: int| 0 <= i < steps.len() && (#[trigger] steps[i]).step_type == StepType::Deterministic ==> steps[i].actions.len() > 0
    &&& forall|i: int, a: int|
        0 <= i < steps.len() && steps[i].step_type == StepType::Deterministic && 0 <= a < steps[i].actions.len() ==> {
            &&& !is_blank((#[trigger] steps[i].actions[a]).tool_name)
            &&& steps[i].actions[a].parameters is Object
        }
}

proof fn lemma_checked_step(i: int, s: PlanStepView)
    requires
        check_step(i, s) is Ok,
    ensures
        !is_blank(s.step_goal),
        forall|c: int| 0 <= c < s.success_criteria.len() ==> !is_blank(#[trigger] s.success_criteria[c]),
        s.step_type == StepType::Deterministic ==> s.actions.len() > 0,
        s.step_type == StepType::Deterministic ==> forall|a: int| 0 <= a < s.actions.len() ==> {
            &&& !is_blank((#[trigger] s.actions[a]).tool_name)
            &&& s.actions[a].parameters is Object
        },
{
    assert forall|c: int| 0 <= c < s.success_criteria.len() implies !is_blank(#[trigger] s.success_criteria[c]) by {
        crate::seqs::lemma_try_map_ok_at(s.success_criteria, criterion_fn(i, s.order), c);
    }
    if s.step_type == StepType::Deterministic {
        assert forall|a: int| 0 <= a < s.actions.len() implies {
            &&& !is_blank((#[trigger] s.actions[a]).tool_name)
            &&& s.actions[a].parameters is Object
        } by {
            crate::seqs::lemma_try_map_ok_at(s.actions, action_check_fn(i), a);
        }
    }
}

/// Every plan that [`parse_plans_response`] accepts is fit to run (see
/// [`plan_well_formed`]).
pub proof fn law_accepted_plans_are_well_formed(response: Seq<char>)
    requires
        spec_parse_plans(response) is Ok,
    ensures
        plan_well_formed(spec_parse_plans(response)->Ok_0),
{
    let j = json_parse(json_span(response))->Ok_0;
    let items = match obj_get(j, "steps"@) {
        Some(JsonModel::Array(items)) => items,
        _ => Seq::empty(),
    };
    let steps = spec_parse_plans(response)->Ok_0;
    assert(try_map(items, read_step_fn()) == Ok::<Seq<PlanStepView>, Seq<char>>(steps));
    crate::seqs::lemma_try_map_len(items, read_step_fn());
    assert(plan_error(steps) is None);
    assert forall|i: int| 0 <= i < steps.len() implies check_step(i, #[trigger] steps[i]) is Ok by {
        crate::seqs::lemma_try_map_ok_at(items, read_step_fn(), i);
    }
    assert forall|i: int| 0 <= i < steps.len() implies (#[trigger] steps[i]).order as int == (i + 1) % 256 by {
        crate::seqs::lemma_try_map_ok_at(steps, order_check_fn(), i);
    }
    assert forall|i: int, k: int| 0 <= i < steps.len() && 0 <= k < steps[i].depends_on.len() implies 0
        < #[trigger] steps[i].depends_on[k] < steps[i].order by {
        crate::seqs::lemma_try_map_ok_at(steps, deps_check_fn(), i);
        crate::seqs::lemma_try_map_ok_at(steps[i].depends_on, dep_check_fn(steps[i].order), k);
    }
    assert forall|i: int| 0 <= i < steps.len() implies !is_blank(#[trigger] steps[i].step_goal) by {
        lemma_checked_step(i, steps[i]);
    }
    assert forall|i: int, c: int| 0 <= i < steps.len() && 0 <= c < steps[i].success_criteria.len() implies !is_blank(
        #[trigger] steps[i].success_criteria[c],
    ) by {
        lemma_checked_step(i, steps[i]);
    }
    assert forall|i: int| 0 <= i < steps.len() && (#[trigger] steps[i]).step_type == StepType::Deterministic implies steps[i].actions.len()
        > 0 by {
        lemma_checked_step(i, steps[i]);
    }
    assert forall|i: int, a: int|
        0 <= i < steps.len() && steps[i].step_type == StepType::Deterministic && 0 <= a < steps[i].actions.len() implies {
        &&& !is_blank((#[trigger] steps[i].actions[a]).tool_name)
        &&& steps[i].actions[a].parameters is Object
    } by {
        lemma_checked_step(i, steps[i]);
    }
}

} // verus!
