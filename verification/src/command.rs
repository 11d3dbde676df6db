//! Host commands: what is run, and what its end means.

use crate::error::{Error, ErrorModel};
use crate::peers::outcome;
use vstd::prelude::*;
use vstd::utf8::*;

verus! {

/// One command to run on the host.
#[derive(Debug)]
pub struct CommandStep {
    pub program: String,
    pub args: Vec<String>,
    /// What the command reads from its standard input, if anything.
    pub stdin: Option<String>,
    /// Whether the plan goes on when the command fails.
    pub ignore_failure: bool,
    /// Whether the command is only logged.
    pub dry_run: bool,
}

/// The model of a `CommandStep`.
pub struct StepModel {
    pub program: Seq<char>,
    pub args: Seq<Seq<char>>,
    pub stdin: Option<Seq<char>>,
    pub ignore_failure: bool,
    pub dry_run: bool,
}

impl DeepView for CommandStep {
    type V = StepModel;

    open spec fn deep_view(&self) -> StepModel {
        StepModel {
            program: self.program@,
            args: self.args.deep_view(),
            stdin: self.stdin.deep_view(),
            ignore_failure: self.ignore_failure,
            dry_run: self.dry_run,
        }
    }
}

/// The text that `String::from_utf8_lossy` of std makes of bytes.
pub uninterp spec fn utf8_lossy(bytes: Seq<u8>) -> Seq<char>;

/// `String::from_utf8_lossy` of std: valid UTF-8 is decoded as it is; what
/// replaces invalid parts depends on the bytes alone and is named by `utf8_lossy`.
#[verifier::external_body]
fn utf8_lossy_text(bytes: &[u8]) -> (r: String)
    ensures
        r@ == utf8_lossy(bytes@),
        valid_utf8(bytes@) ==> r@ == decode_utf8(bytes@),
{
    String::from_utf8_lossy(bytes).into_owned()
}

/// How a step ends that was run with the given success and standard error text:
/// well if it succeeded or may fail, else with an error that tells all of it.
pub open spec fn step_end(step: StepModel, success: bool, stderr: Seq<char>) -> Result<
    (),
    ErrorModel,
> {
    if success || step.ignore_failure {
        Ok(())
    } else {
        Err(ErrorModel::CommandFailed { program: step.program, args: step.args, stderr })
    }
}

impl CommandStep {
    /// Whether the command is really run: not in a dry run.
    pub fn is_run(&self) -> (r: bool)
        ensures
            r == !self.dry_run,
    {
        !self.dry_run
    }

    /// How the step ends, where `stderr` is the command's decoded standard error.
    pub fn finish(&self, success: bool, stderr: &str) -> (r: Result<(), Error>)
        ensures
            outcome(r) == step_end(self.deep_view(), success, stderr@),
    {
        if success || self.ignore_failure {
            return Ok(());
        }
        let args = self.args.clone();
        proof {
            assert(args.deep_view() =~= self.args.deep_view());
        }
        Err(
            Error::CommandFailed {
                program: self.program.clone(),
                args,
                stderr: stderr.to_owned(),
            },
        )
    }

    /// How the step ends, where `stderr` holds the bytes of the command's
    /// standard error.
    pub fn check_output(&self, success: bool, stderr: &[u8]) -> (r: Result<(), Error>)
        ensures
            outcome(r) == step_end(self.deep_view(), success, utf8_lossy(stderr@)),
    {
        let text = utf8_lossy_text(stderr);
        self.finish(success, text.as_str())
    }
}

/// How one command of a plan ended: whether it could be carried out at all,
/// whether it then succeeded, and what it wrote to its standard error.
pub struct StepEnd {
    pub started: bool,
    pub success: bool,
    pub stderr: Seq<u8>,
}

/// Whether a plan goes on after a step that ended so: if the step is only logged,
/// or may fail, or succeeded.
pub open spec fn goes_on(step: StepModel, end: StepEnd) -> bool {
    step.dry_run || step.ignore_failure || (end.started && end.success)
}

/// The position in a plan after the step at `at` ended so: that of the next step,
/// or the error of the step, which is not told here for a command that could not
/// be carried out.
pub open spec fn plan_step(steps: Seq<StepModel>, at: int, end: StepEnd) -> Result<
    int,
    Option<ErrorModel>,
> {
    if goes_on(steps[at], end) {
        Ok(at + 1)
    } else if end.started {
        Err(
            Some(
                ErrorModel::CommandFailed {
                    program: steps[at].program,
                    args: steps[at].args,
                    stderr: utf8_lossy(end.stderr),
                },
            ),
        )
    } else {
        Err(None)
    }
}

/// Goes on in a plan after the step at `at`: gives the position of the next step,
/// or the error that ends the plan. `started` tells whether the command could be
/// carried out; the error of one that could not is the caller's to tell.
pub fn plan_after(
    steps: &Vec<CommandStep>,
    at: usize,
    started: bool,
    success: bool,
    stderr: &[u8],
) -> (r: Result<usize, Option<Error>>)
    requires
        at < steps@.len(),
    ensures
        plan_step(steps.deep_view(), at as int, StepEnd { started, success, stderr: stderr@ })
            == match r {
            Ok(next) => Ok::<int, Option<ErrorModel>>(next as int),
            Err(e) => Err::<int, Option<ErrorModel>>(e.deep_view()),
        },
{
    proof {
        assert(at < steps.len());
    }
    let step = &steps[at];
    if !step.is_run() {
        return Ok(at + 1);
    }
    if !started {
        return if step.ignore_failure {
            Ok(at + 1)
        } else {
            Err(None)
        };
    }
    match step.check_output(success, stderr) {
        Ok(()) => Ok(at + 1),
        Err(e) => Err(Some(e)),
    }
}

} // verus!
