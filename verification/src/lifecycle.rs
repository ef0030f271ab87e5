//! The life of a scraper's attachment to the kernel.
//!
//! A scraper is started once: its compiled program is opened, loaded into
//! the kernel, and one of its entry points is attached. The caller performs
//! these steps, in the order that `start_steps` gives, and reports how they
//! ended; `settle` decides what becomes of the scraper. A step that fails
//! ends the start, and nothing is attached. An attachment, once made, stays
//! until the scraper is dropped.

use vstd::prelude::*;

verus! {

/// The entry points of the compiled kernel programs.
#[derive(PartialEq, Eq, Structural, Clone, Copy, Debug)]
pub enum Program {
    /// Lists the loaded programs; used by the generic scraper.
    DumpBpfProg,
    /// Lists the IPv4 connections; used by the network scraper.
    DumpTcp4,
    /// Lists the tasks; used by the process scraper.
    IterTasks,
}

impl Program {
    /// The name under which the entry point is found in its program.
    pub open spec fn spec_name(self) -> Seq<char> {
        match self {
            Program::DumpBpfProg => "dump_bpf_prog"@,
            Program::DumpTcp4 => "dump_tcp4"@,
            Program::IterTasks => "iter_tasks"@,
        }
    }

    /// The name under which the entry point is found in its program.
    pub fn name(&self) -> (r: &'static str)
        ensures
            r@ == self.spec_name(),
    {
        match self {
            Program::DumpBpfProg => "dump_bpf_prog",
            Program::DumpTcp4 => "dump_tcp4",
            Program::IterTasks => "iter_tasks",
        }
    }
}

/// The three stages of a start.
#[derive(PartialEq, Eq, Structural, Clone, Copy, Debug)]
pub enum Stage {
    Open,
    Load,
    Attach,
}

/// One step of a start, with what the caller needs to perform it.
#[derive(PartialEq, Eq, Structural, Clone, Copy, Debug)]
pub enum Step {
    /// Open the compiled program; `debug` turns on the diagnostics of the
    /// kernel facility.
    Open { debug: bool },
    /// Load the opened program into the kernel.
    Load,
    /// Attach the entry point `program` of the loaded program.
    Attach { program: Program },
}

impl Step {
    /// The stage that this step belongs to.
    pub open spec fn spec_stage(self) -> Stage {
        match self {
            Step::Open { .. } => Stage::Open,
            Step::Load => Stage::Load,
            Step::Attach { .. } => Stage::Attach,
        }
    }

    /// The stage that this step belongs to.
    pub fn stage(&self) -> (r: Stage)
        ensures
            r == self.spec_stage(),
    {
        match self {
            Step::Open { .. } => Stage::Open,
            Step::Load => Stage::Load,
            Step::Attach { .. } => Stage::Attach,
        }
    }
}

/// The steps of a start, in order: open, load, attach.
pub open spec fn steps_of(debug: bool, program: Program) -> Seq<Step> {
    seq![Step::Open { debug }, Step::Load, Step::Attach { program }]
}

/// The steps that start a scraper for `program`, in the order in which they
/// are to be performed.
pub fn start_steps(debug: bool, program: Program) -> (steps: Vec<Step>)
    ensures
        steps@ == steps_of(debug, program),
{
    let mut steps: Vec<Step> = Vec::new();
    steps.push(Step::Open { debug });
    steps.push(Step::Load);
    steps.push(Step::Attach { program });
    assert(steps@ =~= steps_of(debug, program));
    steps
}

/// How the steps of a start ended: the stage that failed, or the handle of
/// the attachment that the last step made.
pub enum StartOutcome<L> {
    Failed(Stage),
    Attached(L),
}

/// Why a scraper did not start.
#[derive(PartialEq, Eq, Structural, Clone, Copy, Debug)]
pub enum StartError {
    /// The scraper is attached already; its attachment was kept.
    AlreadyStarted,
    /// The step of this stage failed.
    Failed(Stage),
}

/// What becomes of an attachment when a start ends with `outcome`, and what
/// the start returns. An attachment that is there is kept, whatever the
/// outcome. Otherwise a failure leaves none, and a success sets it.
pub open spec fn settled<L>(link: Option<L>, outcome: StartOutcome<L>) -> (
    Option<L>,
    Result<(), StartError>,
) {
    match link {
        Some(_) => (link, Err(StartError::AlreadyStarted)),
        None => match outcome {
            StartOutcome::Attached(handle) => (Some(handle), Ok(())),
            StartOutcome::Failed(stage) => (None, Err(StartError::Failed(stage))),
        },
    }
}

/// Ends a start: takes the new attachment where there was none, and says how
/// the start went.
pub fn settle<L>(link: &mut Option<L>, outcome: StartOutcome<L>) -> (r: Result<(), StartError>)
    ensures
        (*final(link), r) == settled(*old(link), outcome),
{
    if link.is_some() {
        return Err(StartError::AlreadyStarted);
    }
    match outcome {
        StartOutcome::Attached(handle) => {
            *link = Some(handle);
            Ok(())
        },
        StartOutcome::Failed(stage) => Err(StartError::Failed(stage)),
    }
}

/// An attachment is never replaced: whatever a start ends with, a scraper
/// that was attached keeps the handle it had.
pub proof fn lemma_attachment_is_kept<L>(handle: L, outcome: StartOutcome<L>)
    ensures
        settled(Some(handle), outcome).0 == Some(handle),
        settled(Some(handle), outcome).1 is Err,
{
}

/// A start that fails at any stage leaves the scraper unattached, and one
/// that succeeds attaches it.
pub proof fn lemma_start_from_created<L>(outcome: StartOutcome<L>)
    ensures
        settled(None::<L>, outcome).0 is Some <==> outcome is Attached,
        settled(None::<L>, outcome).1 is Ok <==> outcome is Attached,
{
}

} // verus!
