//! What the model may decide after a step failed: retry, skip, change the
//! tool or abort the plan.
use vstd::prelude::*;
use vstd::string::StringExecFns;
use serde_json::Value;
use crate::text::owned;

verus! {

/// The action decided on for the current step.
#[derive(Debug, Clone)]
pub enum StepAction {
    /// Run the step again, with new parameters when given.
    Retry { new_parameters: Option<Value> },
    /// Skip the step and go on.
    Skip { reason: String },
    /// Run another tool instead.
    ChangeTool { tool_name: String, parameters: Value, reason: String },
    /// Stop the plan.
    Abort { reason: String },
}

/// A decision with the model's analysis.
#[derive(Debug, Clone)]
pub struct LlmDecision {
    pub analysis: String,
    pub action: StepAction,
}

impl LlmDecision {
    /// A retry, with the given analysis.
    pub fn retry(analysis: &str, new_parameters: Option<Value>) -> (r: LlmDecision)
        ensures
            r.analysis@ == analysis@,
            r.action == (StepAction::Retry { new_parameters }),
    {
        LlmDecision { analysis: owned(analysis), action: StepAction::Retry { new_parameters } }
    }

    /// A skip: `跳过当前步骤: {reason}`.
    pub fn skip(reason: &str) -> (r: LlmDecision)
        ensures
            r.analysis@ == "跳过当前步骤: "@ + reason@,
            r.action matches StepAction::Skip { reason: x } && x@ == reason@,
    {
        let mut analysis = owned("跳过当前步骤: ");
        analysis.append(reason);
        LlmDecision { analysis, action: StepAction::Skip { reason: owned(reason) } }
    }

    /// A change of tool: `更换工具: {reason}`.
    pub fn change_tool(tool_name: &str, parameters: Value, reason: &str) -> (r: LlmDecision)
        ensures
            r.analysis@ == "更换工具: "@ + reason@,
            r.action matches StepAction::ChangeTool { tool_name: t, parameters: p, reason: x } && t@ == tool_name@
                && p == parameters && x@ == reason@,
    {
        let mut analysis = owned("更换工具: ");
        analysis.append(reason);
        LlmDecision {
            analysis,
            action: StepAction::ChangeTool { tool_name: owned(tool_name), parameters, reason: owned(reason) },
        }
    }

    /// An abort: `中止执行: {reason}`.
    pub fn abort(reason: &str) -> (r: LlmDecision)
        ensures
            r.analysis@ == "中止执行: "@ + reason@,
            r.action matches StepAction::Abort { reason: x } && x@ == reason@,
    {
        let mut analysis = owned("中止执行: ");
        analysis.append(reason);
        LlmDecision { analysis, action: StepAction::Abort { reason: owned(reason) } }
    }
}

} // verus!
