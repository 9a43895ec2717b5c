//! The steps of one submission: a command buffer is recorded anew, its fence reset, and the work
//! handed to the queue.

use vstd::prelude::*;

verus! {

/// Where a submission stands: the step to perform, or its end.
#[derive(Clone, Copy, Debug, PartialEq, Eq, Structural)]
pub enum SubmitStep {
    ResetCommands,
    Begin,
    Record,
    End,
    ResetFence,
    Submit,
    /// Wait for the fence.
    Wait,
    Succeeded,
    Failed,
}

/// The step after `step` succeeded, `waits` saying that the submission is waited for.
pub open spec fn step_after(step: SubmitStep, waits: bool) -> SubmitStep {
    match step {
        SubmitStep::ResetCommands => SubmitStep::Begin,
        SubmitStep::Begin => SubmitStep::Record,
        SubmitStep::Record => SubmitStep::End,
        SubmitStep::End => SubmitStep::ResetFence,
        SubmitStep::ResetFence => SubmitStep::Submit,
        SubmitStep::Submit => if waits {
            SubmitStep::Wait
        } else {
            SubmitStep::Succeeded
        },
        SubmitStep::Wait => SubmitStep::Succeeded,
        SubmitStep::Succeeded => SubmitStep::Succeeded,
        SubmitStep::Failed => SubmitStep::Failed,
    }
}

/// The first step of a submission.
pub fn submit_start() -> (step: SubmitStep)
    ensures
        step == SubmitStep::ResetCommands,
{
    SubmitStep::ResetCommands
}

/// The next step after `step` was performed, with or without success: the first that fails ends
/// the submission.
pub fn submit_next(step: SubmitStep, ok: bool, waits: bool) -> (next: SubmitStep)
    ensures
        next == (if ok || step == SubmitStep::Succeeded {
            step_after(step, waits)
        } else {
            SubmitStep::Failed
        }),
{
    if !ok && step != SubmitStep::Succeeded {
        return SubmitStep::Failed;
    }
    match step {
        SubmitStep::ResetCommands => SubmitStep::Begin,
        SubmitStep::Begin => SubmitStep::Record,
        SubmitStep::Record => SubmitStep::End,
        SubmitStep::End => SubmitStep::ResetFence,
        SubmitStep::ResetFence => SubmitStep::Submit,
        SubmitStep::Submit => if waits {
            SubmitStep::Wait
        } else {
            SubmitStep::Succeeded
        },
        SubmitStep::Wait => SubmitStep::Succeeded,
        SubmitStep::Succeeded => SubmitStep::Succeeded,
        SubmitStep::Failed => SubmitStep::Failed,
    }
}

/// A submission that works performs every step once and in order, the fence being reset only once
/// the recording has ended, and ends after the submit or the wait.
pub proof fn a_submission_runs_in_order(waits: bool)
    ensures
        step_after(step_after(step_after(SubmitStep::ResetCommands, waits), waits), waits) == SubmitStep::End,
        step_after(step_after(SubmitStep::End, waits), waits) == SubmitStep::Submit,
        step_after(SubmitStep::Submit, false) == SubmitStep::Succeeded,
        step_after(step_after(SubmitStep::Submit, true), true) == SubmitStep::Succeeded,
{
}

/// A command buffer is reset, begun, recorded and ended, its fence reset, and the work submitted; it is
/// waited for where that is asked, and not where it is not. What has ended stays so.
pub proof fn a_submission_takes_its_steps(waits: bool)
    ensures
        step_after(SubmitStep::ResetCommands, waits) is Begin,
        step_after(SubmitStep::Begin, waits) is Record,
        step_after(SubmitStep::Record, waits) is End,
        step_after(SubmitStep::End, waits) is ResetFence,
        step_after(SubmitStep::ResetFence, waits) is Submit,
        step_after(SubmitStep::Submit, waits) is Wait <==> waits,
        step_after(SubmitStep::Submit, waits) is Succeeded <==> !waits,
        step_after(SubmitStep::Wait, waits) is Succeeded,
        step_after(SubmitStep::Succeeded, waits) is Succeeded,
        step_after(SubmitStep::Failed, waits) is Failed,
{
}

} // verus!
