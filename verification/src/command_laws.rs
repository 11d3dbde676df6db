//! What holds of every way in which a plan of commands is run.

use crate::command::{goes_on, plan_step, step_end, utf8_lossy, StepEnd, StepModel};
use crate::error::ErrorModel;
use vstd::prelude::*;

verus! {

/// The position in a plan after its steps ended so in turn, or the error that
/// ended the plan.
pub open spec fn plan_reached(steps: Seq<StepModel>, ends: Seq<StepEnd>) -> Result<
    int,
    Option<ErrorModel>,
>
    decreases ends.len(),
{
    if ends.len() == 0 {
        Ok(0)
    } else {
        match plan_reached(steps, ends.drop_last()) {
            Ok(at) => if at < steps.len() {
                plan_step(steps, at, ends.last())
            } else {
                Ok(at)
            },
            Err(e) => Err(e),
        }
    }
}

/// Nothing follows an error: a plan that has ended in one stays there.
pub proof fn nothing_follows_an_error(steps: Seq<StepModel>, ends: Seq<StepEnd>, k: int)
    requires
        0 <= k <= ends.len(),
        plan_reached(steps, ends.take(k)) is Err,
    ensures
        plan_reached(steps, ends) == plan_reached(steps, ends.take(k)),
    decreases ends.len(),
{
    if k < ends.len() {
        assert(ends.drop_last().take(k) =~= ends.take(k));
        nothing_follows_an_error(steps, ends.drop_last(), k);
    } else {
        assert(ends.take(k) =~= ends);
    }
}

/// A plan is run in order and comes to its end exactly if each of its steps is
/// only logged, may fail or succeeds. `ends` holds one end for each step so far.
pub proof fn plans_run_in_order(steps: Seq<StepModel>, ends: Seq<StepEnd>)
    requires
        ends.len() <= steps.len(),
    ensures
        plan_reached(steps, ends) is Ok <==> (forall|i: int|
            0 <= i < ends.len() ==> goes_on(steps[i], #[trigger] ends[i])),
        plan_reached(steps, ends) matches Ok(at) ==> at == ends.len(),
    decreases ends.len(),
{
    if ends.len() > 0 {
        let head = ends.drop_last();
        plans_run_in_order(steps, head);
        assert(forall|i: int| 0 <= i < head.len() ==> head[i] == #[trigger] ends[i]);
        assert(ends[ends.len() - 1] == ends.last());
        if plan_reached(steps, ends) is Ok {
            assert forall|i: int| 0 <= i < ends.len() implies goes_on(
                steps[i],
                #[trigger] ends[i],
            ) by {
                if i < head.len() {
                    assert(goes_on(steps[i], head[i]));
                }
            }
        } else if forall|i: int| 0 <= i < ends.len() ==> goes_on(steps[i], #[trigger] ends[i]) {
            assert forall|i: int| 0 <= i < head.len() implies goes_on(
                steps[i],
                #[trigger] head[i],
            ) by {
                assert(head[i] == ends[i]);
            }
        }
    }
}

/// The step that ends a plan is the first that neither is only logged nor may
/// fail nor succeeds, and the error tells of that step alone.
pub proof fn plans_end_at_the_first_failure(steps: Seq<StepModel>, ends: Seq<StepEnd>, k: int)
    requires
        ends.len() <= steps.len(),
        0 <= k < ends.len(),
        forall|i: int| 0 <= i < k ==> goes_on(steps[i], #[trigger] ends[i]),
        !goes_on(steps[k], ends[k]),
    ensures
        plan_reached(steps, ends) == plan_step(steps, k, ends[k]),
        plan_reached(steps, ends) is Err,
{
    let head = ends.take(k);
    assert forall|i: int| 0 <= i < head.len() implies goes_on(steps[i], #[trigger] head[i]) by {
        assert(head[i] == ends[i]);
    }
    plans_run_in_order(steps, head);
    assert(ends.take(k + 1).drop_last() =~= head);
    assert(ends.take(k + 1).last() == ends[k]);
    nothing_follows_an_error(steps, ends, k + 1);
}

/// A step ends well if its command succeeded or may fail, and else with an error that
/// holds the command's words and what it wrote.
pub proof fn steps_end_as_their_commands(step: StepModel, success: bool, stderr: Seq<char>)
    ensures
        success || step.ignore_failure ==> step_end(step, success, stderr) is Ok,
        !success && !step.ignore_failure ==> step_end(step, success, stderr) == Err::<
            (),
            ErrorModel,
        >(
            ErrorModel::CommandFailed { program: step.program, args: step.args, stderr },
        ),
{
}

/// A plan goes on to the next step if the step is only logged, or may fail, or was
/// carried out with success. Otherwise it ends, with the error of a command that was
/// carried out.
pub proof fn plans_go_on_or_end(steps: Seq<StepModel>, at: int, end: StepEnd)
    ensures
        steps[at].dry_run ==> plan_step(steps, at, end) == Ok::<int, Option<ErrorModel>>(at + 1),
        steps[at].ignore_failure ==> plan_step(steps, at, end) == Ok::<int, Option<ErrorModel>>(
            at + 1,
        ),
        end.started && end.success ==> plan_step(steps, at, end) == Ok::<int, Option<ErrorModel>>(
            at + 1,
        ),
        !steps[at].dry_run && !steps[at].ignore_failure && !end.started ==> plan_step(
            steps,
            at,
            end,
        ) == Err::<int, Option<ErrorModel>>(None),
        !steps[at].dry_run && !steps[at].ignore_failure && end.started && !end.success
            ==> plan_step(steps, at, end) == Err::<int, Option<ErrorModel>>(
            Some(
                ErrorModel::CommandFailed {
                    program: steps[at].program,
                    args: steps[at].args,
                    stderr: utf8_lossy(end.stderr),
                },
            ),
        ),
{
}

} // verus!
