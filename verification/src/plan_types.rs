//! Results, decisions, errors and events of plan execution.
use vstd::prelude::*;
use vstd::string::StringExecFns;
use crate::error::ToolExecError;
use crate::plans::{PlanStep, PlanStepView};
use crate::text::{dec, owned, push_dec};

verus! {

/// A step as executed, with how long it took.
pub struct StepExecResult {
    /// The step with its actions' outputs filled in.
    pub step: PlanStep,
    pub duration_ms: u64,
}

/// The outcome of a whole plan.
#[derive(Debug)]
pub struct PlanResult {
    /// How many steps ran to completion.
    pub completed_steps: u8,
    pub total_steps: u8,
    /// The output of the last step, the answer to the user.
    pub final_reply: String,
    /// One entry per completed step.
    pub step_results: Vec<StepResult>,
    pub stop_reason: PlanStopReason,
}

/// The outcome of one completed step.
#[derive(Debug, Clone)]
pub struct StepResult {
    pub order: u8,
    pub tool_name: String,
    pub success: bool,
    pub output: String,
    pub duration_ms: u64,
}

/// What to do after observing a step.
#[derive(Debug, Clone, PartialEq, Eq)]
pub enum ObserveDecision {
    /// Go on with the next step.
    ContinueNext,
    /// Run the step again (a temporary failure with retries left).
    RetryCurrent,
    /// Leave the step out (graceful degradation).
    SkipStep { reason: String },
    /// Ask the model for new remaining steps.
    ReplanRequired { reason: String },
    /// Every goal is already reached.
    TaskComplete,
}

/// An [`ObserveDecision`] as plain data.
pub enum Decision {
    Continue,
    Retry,
    Skip(Seq<char>),
    Replan(Seq<char>),
    Complete,
}

/// The plain form of a decision.
pub open spec fn decision_view(d: ObserveDecision) -> Decision {
    match d {
        ObserveDecision::ContinueNext => Decision::Continue,
        ObserveDecision::RetryCurrent => Decision::Retry,
        ObserveDecision::SkipStep { reason } => Decision::Skip(reason@),
        ObserveDecision::ReplanRequired { reason } => Decision::Replan(reason@),
        ObserveDecision::TaskComplete => Decision::Complete,
    }
}

/// What was concluded after running a step.
#[derive(Debug, Clone)]
pub struct StepObservation {
    pub step_order: u8,
    pub success: bool,
    pub summary: String,
    pub decision: ObserveDecision,
}

/// How a step failed.
#[derive(Debug, Clone)]
pub enum StepFailure {
    /// A passing failure (a timeout, say); worth retrying.
    Temporary { reason: String, retry_count: u8 },
    /// A lasting failure (an unknown tool, bad parameters).
    Permanent { reason: String },
}

/// Why a plan run stopped.
#[derive(Debug, Clone, Copy, PartialEq, Eq, Structural)]
pub enum PlanStopReason {
    Completed,
    NoFinalReply,
    PartialFailure,
    UserAbort,
    DependencyFailed,
    ToolNotFound,
    MaxRetriesExceeded,
}

/// A failure while executing a plan.
#[derive(Debug)]
pub enum PlanError {
    ToolError(ToolExecError),
    DependencyNotFound(u8),
    ToolNotFound(String),
    Aborted,
}

/// The display text of a tool execution error.
pub open spec fn tool_error_text(e: ToolExecError) -> Seq<char> {
    "Tool '"@ + e.name@ + "' execution failed: "@ + e.message@
}

/// The display text of a [`PlanError`].
pub open spec fn plan_error_text(e: PlanError) -> Seq<char> {
    match e {
        PlanError::ToolError(t) => "Tool error: "@ + tool_error_text(t),
        PlanError::DependencyNotFound(n) => "Dependency step "@ + dec(n as nat) + " not found"@,
        PlanError::ToolNotFound(name) => "Tool not found: "@ + name@,
        PlanError::Aborted => "Execution aborted by user"@,
    }
}

impl PlanError {
    /// The human-readable message of this error.
    pub fn text(&self) -> (r: String)
        ensures
            r@ == plan_error_text(*self),
    {
        match self {
            PlanError::ToolError(t) => {
                let mut r = owned("Tool error: ");
                let m = t.text();
                r.append(m.as_str());
                r
            },
            PlanError::DependencyNotFound(n) => {
                let mut r = owned("Dependency step ");
                push_dec(&mut r, *n as u64);
                r.append(" not found");
                r
            },
            PlanError::ToolNotFound(name) => {
                let mut r = owned("Tool not found: ");
                r.append(name.as_str());
                r
            },
            PlanError::Aborted => owned("Execution aborted by user"),
        }
    }

    /// A tool error becomes a plan error.
    pub fn from_tool_error(e: ToolExecError) -> (r: PlanError)
        ensures
            r == PlanError::ToolError(e),
    {
        PlanError::ToolError(e)
    }

    /// A tool error raised by the part `name` of the executor.
    pub fn tool(name: &str, message: String) -> (r: PlanError)
        ensures
            r matches PlanError::ToolError(t) && t.name@ == name@ && t.message@ == message@,
    {
        PlanError::ToolError(ToolExecError { name: owned(name), message })
    }
}

/// The events of a plan run, pushed to the front end as they happen.
#[derive(Debug, Clone)]
pub enum PlanStreamEvent {
    PlanStart { total_steps: u8, reasoning: String },
    StepStart { step: u8, tool: String, goal: String },
    StepComplete { step: u8, success: bool, duration_ms: u64, output_length: usize },
    /// An unrecoverable failure of a step.
    StepError { step: u8, tool: String, error: String },
    /// What the observe phase concluded.
    StepObserved { step: u8, success: bool, summary: String },
    StepRetry { step: u8, attempt: u8, max_retries: u8 },
    StepSkipped { step: u8, reason: String },
    PlanAbort,
    /// The remaining steps were planned anew.
    PlanReplan { reason: String, new_step_count: u8 },
    PlanComplete { completed_steps: u8, total_steps: u8, final_reply_length: usize, stop_reason: PlanStopReason },
}

} // verus!
