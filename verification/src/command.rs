//! The caller-facing description of one process stage — program, arguments,
//! working directory and the sink of each standard stream — together with the
//! exit-status model and the classification of a finished run.

use vstd::prelude::*;

verus! {

/// A file backing a redirected stream: its path and whether bytes are
/// appended to it or it is created (truncated) first.
#[derive(Clone, Debug)]
pub struct FileDest {
    pub path: String,
    pub append: bool,
}

/// Two file destinations that denote the same opened file.
pub open spec fn same_dest(a: FileDest, b: FileDest) -> bool {
    a.path@ == b.path@ && a.append == b.append
}

impl FileDest {
    /// A copy naming the same destination.
    pub fn duplicate(&self) -> (r: FileDest)
        ensures
            same_dest(r, *self),
    {
        FileDest { path: self.path.clone(), append: self.append }
    }
}

/// Whether one standard stream of a stage reads from or writes to: a null
/// destination, the orchestrator's own stream, a fresh pipe, an opened file,
/// or the previous stage's output pipe.
#[derive(Clone, Debug)]
pub enum SinkSpec {
    /// Bytes are dropped (null destination).
    Discard,
    /// The stream is shared with the orchestrator's own stream.
    Inherit,
    /// A fresh pipe; one end goes to the child, the other stays visible to
    /// the orchestrator or is handed to the next stage.
    CreatePipe,
    /// The stream writes to an opened file.
    ToFile(FileDest),
    /// The stream reads from an opened file.
    FromFile(FileDest),
    /// The stream reads from the previous stage's output pipe; only the
    /// chain itself assigns this.
    FromUpstream,
}

impl SinkSpec {
    /// Whether this sink writes to a file, and which one.
    pub open spec fn spec_to_file(self) -> Option<FileDest> {
        match self {
            SinkSpec::ToFile(d) => Some(d),
            _ => None,
        }
    }
}

/// One stage of work: the program to launch, its ordered arguments, an
/// optional working directory, and one sink per standard stream. The input
/// sink is `None` when the stage leaves it to the chain (every stage after
/// the first must).
#[derive(Clone, Debug)]
pub struct Command {
    pub program: String,
    pub args: Vec<String>,
    pub cwd: Option<String>,
    pub input: Option<SinkSpec>,
    pub output: SinkSpec,
    pub error: SinkSpec,
}

/// How a launched process ended: with an exit code, or terminated by a
/// signal.
#[derive(PartialEq, Eq, Structural, Clone, Copy, Debug)]
pub enum ExitStatus {
    Code(i32),
    Signal(i32),
}

/// The final outcome class of a run.
#[derive(PartialEq, Eq, Structural, Clone, Copy, Debug)]
pub enum Classification {
    Success,
    NonZeroExit,
    SignalTerminated,
    SpawnFailed,
    DecodeFailed,
    IOFailed,
}

/// Captured bytes were not valid text.
#[derive(PartialEq, Eq, Structural, Clone, Copy, Debug)]
pub struct DecodeFailed;

/// The class of an exit status: a zero code is success, a nonzero code a
/// reportable failure, and a signal an abnormal termination.
pub open spec fn spec_classify(st: ExitStatus) -> Classification {
    match st {
        ExitStatus::Code(c) => if c == 0 {
            Classification::Success
        } else {
            Classification::NonZeroExit
        },
        ExitStatus::Signal(_) => Classification::SignalTerminated,
    }
}

/// Classify an exit status; never treats a nonzero code or a signal as
/// success.
pub fn classify(st: ExitStatus) -> (r: Classification)
    ensures
        r == spec_classify(st),
{
    match st {
        ExitStatus::Code(c) => if c == 0 {
            Classification::Success
        } else {
            Classification::NonZeroExit
        },
        ExitStatus::Signal(_) => Classification::SignalTerminated,
    }
}

/// The immutable outcome of a finished run: its classification, the status
/// of the terminal stage if every stage was spawned, the bytes captured from
/// the terminal output, and the bytes captured from the inspected error
/// stream.
#[derive(Clone, Debug)]
pub struct CommandResult {
    pub classification: Classification,
    pub status: Option<ExitStatus>,
    pub output: Vec<u8>,
    pub error_output: Vec<u8>,
}

} // verus!
