//! The orchestrator of a pipeline run. It never touches the operating
//! system itself: it is a state machine that tells a driver what to do next
//! (spawn a stage, read a chunk, wait for an exit, clean up) and consumes
//! what the driver reports back. Its contracts pin down every rule the run
//! must follow: stages spawn strictly in order, the terminal output is
//! drained to end of stream before any stage is waited on (so a writer
//! blocked on a full pipe buffer can never deadlock the chain), captured
//! bytes keep their arrival order, a failed spawn aborts the chain and every
//! already spawned stage is released, and the final classification is
//! exactly the class of the terminal stage's exit status.

use vstd::prelude::*;
use crate::command::{
    Classification,
    Command,
    CommandResult,
    ExitStatus,
    spec_classify,
};

verus! {

/// What the driver must do next.
#[derive(PartialEq, Eq, Structural, Debug, Clone, Copy)]
pub enum Action {
    /// Spawn the stage with this index; for every stage after the first its
    /// input is the previous stage's output pipe, and once both sides are
    /// connected the orchestrator's own copies of that pipe's ends are
    /// closed.
    Spawn(usize),
    /// Read the next chunk from the terminal stage's output or error pipe.
    ReadOutput,
    /// Block until the stage with this index exits.
    Wait(usize),
    /// Release every live handle and pipe endpoint of the stages spawned so
    /// far.
    Cleanup,
    /// Nothing is outstanding; the result can be assembled.
    Finish,
}

/// What the driver reports back for the action it performed.
#[derive(Debug)]
pub enum Event {
    /// The requested stage was spawned.
    Spawned,
    /// The requested stage's program could not be resolved or executed.
    SpawnFailed,
    /// A chunk read from the terminal stage's output pipe.
    Chunk(Vec<u8>),
    /// A chunk read from the inspected error stream.
    ErrChunk(Vec<u8>),
    /// The terminal output pipe reached end of stream.
    OutputEnd,
    /// Reading a pipe failed.
    ReadFailed,
    /// The waited stage exited with this status.
    Exited(ExitStatus),
}

/// Where a run stands.
#[derive(PartialEq, Eq, Structural, Debug, Clone, Copy)]
pub enum Phase {
    /// Stages are being spawned, strictly first to last.
    Spawning,
    /// Every stage runs; the terminal output is drained before anything is
    /// waited on.
    Draining,
    /// The output is exhausted; stages are waited on, first to last.
    Waiting,
    /// Every stage was waited on; the result is ready.
    Finished,
    /// A stage failed to spawn; the stages spawned before it must be
    /// released before a result is reported.
    Aborted,
}

/// A pipeline description that cannot be run.
#[derive(PartialEq, Eq, Structural, Debug, Clone, Copy)]
pub enum BuildError {
    /// No stages were given.
    EmptyPipeline,
    /// The stage with this index specified its own input sink although the
    /// chain supplies it.
    InputSinkSpecified(usize),
}

/// The orchestrator of one pipeline run.
pub struct Orchestrator {
    /// The ordered stage descriptions; immutable for the whole run.
    pub stages: Vec<Command>,
    /// Where the run stands.
    pub phase: Phase,
    /// How many stages hold a live process handle: stages `0..spawned`.
    pub spawned: usize,
    /// How many stages have been waited on: stages `0..waited`.
    pub waited: usize,
    /// The terminal output captured so far, in arrival order.
    pub collected: Vec<u8>,
    /// The captured error stream, in arrival order.
    pub err_collected: Vec<u8>,
    /// The chunks in which the terminal output arrived.
    pub chunks: Ghost<Seq<Seq<u8>>>,
    /// The exit status of each waited stage, in stage order.
    pub statuses: Vec<ExitStatus>,
    /// Whether reading the output failed; the bytes gathered before the
    /// failure are kept.
    pub io_failed: bool,
    /// Whether an aborted run has released the spawned stages.
    pub cleaned: bool,
}

impl Orchestrator {
    /// Process handles still attached to live OS resources.
    pub open spec fn live_handles(self) -> int {
        if self.cleaned {
            0
        } else {
            self.spawned - self.waited
        }
    }

    /// The state invariant: counters fit the phase, the captured output is
    /// exactly the concatenation of the arrived chunks, and every stage
    /// after the first leaves its input sink to the chain.
    pub open spec fn wf(self) -> bool {
        let n = self.stages@.len();
        &&& n >= 1
        &&& forall|i: int| 1 <= i < n ==> (#[trigger] self.stages@[i]).input is None
        &&& self.statuses@.len() == self.waited
        &&& self.collected@ == self.chunks@.flatten()
        &&& match self.phase {
            Phase::Spawning => self.spawned < n && self.waited == 0 && self.chunks@.len() == 0
                && self.err_collected@.len() == 0 && !self.io_failed && !self.cleaned,
            Phase::Draining => self.spawned == n && self.waited == 0 && !self.io_failed
                && !self.cleaned,
            Phase::Waiting => self.spawned == n && self.waited < n && !self.cleaned,
            Phase::Finished => self.spawned == n && self.waited == n && !self.cleaned,
            Phase::Aborted => self.spawned < n && self.waited == 0 && self.chunks@.len() == 0,
        }
    }

    /// Which events the machine is prepared to consume in its current
    /// phase; the driver, having just performed the requested action, can
    /// always supply one of them.
    pub open spec fn expects(self, ev: Event) -> bool {
        match self.phase {
            Phase::Spawning => ev matches Event::Spawned || ev matches Event::SpawnFailed,
            Phase::Draining => ev matches Event::Chunk(_) || ev matches Event::ErrChunk(_)
                || ev matches Event::OutputEnd || ev matches Event::ReadFailed,
            Phase::Waiting => ev matches Event::Exited(_),
            Phase::Finished => false,
            Phase::Aborted => false,
        }
    }

    /// Validate a pipeline description and set up a run. Fails exactly when
    /// no stage is given, or when a stage after the first specifies its own
    /// input sink; on the first such stage the error names it.
    pub fn new(stages: Vec<Command>) -> (r: Result<Orchestrator, BuildError>)
        ensures
            r is Ok <==> (stages@.len() >= 1 && forall|i: int|
                1 <= i < stages@.len() ==> (#[trigger] stages@[i]).input is None),
            r matches Ok(o) ==> {
                &&& o.wf()
                &&& o.stages@ == stages@
                &&& o.phase == Phase::Spawning
                &&& o.spawned == 0
                &&& o.live_handles() == 0
            },
            stages@.len() == 0 ==> r == Err::<Orchestrator, BuildError>(BuildError::EmptyPipeline),
            r matches Err(BuildError::InputSinkSpecified(i)) ==> {
                &&& 1 <= i < stages@.len()
                &&& stages@[i as int].input is Some
                &&& forall|j: int| 1 <= j < i ==> (#[trigger] stages@[j]).input is None
            },
    {
        if stages.len() == 0 {
            return Err(BuildError::EmptyPipeline);
        }
        let mut i: usize = 1;
        while i < stages.len()
            invariant
                1 <= i <= stages@.len(),
                forall|j: int| 1 <= j < i ==> (#[trigger] stages@[j]).input is None,
            decreases stages@.len() - i,
        {
            if stages[i].input.is_some() {
                return Err(BuildError::InputSinkSpecified(i));
            }
            i += 1;
        }
        Ok(Orchestrator {
            stages,
            phase: Phase::Spawning,
            spawned: 0,
            waited: 0,
            collected: Vec::new(),
            err_collected: Vec::new(),
            chunks: Ghost(Seq::empty()),
            statuses: Vec::new(),
            io_failed: false,
            cleaned: false,
        })
    }

    /// The first thing a driver does: spawn stage 0.
    pub fn initial_action(&self) -> (a: Action)
        requires
            self.wf(),
            self.phase == Phase::Spawning,
            self.spawned == 0,
        ensures
            a == Action::Spawn(0usize),
    {
        Action::Spawn(0)
    }

    /// Consume what the driver reported and decide the next action. The
    /// contract is the complete rulebook of a run: spawning is strictly
    /// sequential; the chain switches to draining, never to waiting, once
    /// the last stage is up; chunks are appended in arrival order; a read
    /// failure keeps the partial output; waiting is in stage order and
    /// starts only after end of stream; a spawn failure aborts and asks for
    /// cleanup of exactly the stages spawned so far.
    pub fn step(&mut self, ev: Event) -> (a: Action)
        requires
            old(self).wf(),
            old(self).expects(ev),
        ensures
            final(self).wf(),
            final(self).stages@ == old(self).stages@,
            match (old(self).phase, ev) {
                (Phase::Spawning, Event::Spawned) => {
                    &&& final(self).spawned == old(self).spawned + 1
                    &&& final(self).collected@ == old(self).collected@
                    &&& final(self).err_collected@ == old(self).err_collected@
                    &&& final(self).chunks@ == old(self).chunks@
                    &&& final(self).waited == 0
                    &&& !final(self).io_failed
                    &&& if old(self).spawned + 1 < old(self).stages@.len() {
                        final(self).phase == Phase::Spawning && a == Action::Spawn(
                            (old(self).spawned + 1) as usize,
                        )
                    } else {
                        final(self).phase == Phase::Draining && a == Action::ReadOutput
                    }
                },
                (Phase::Spawning, Event::SpawnFailed) => {
                    &&& final(self).phase == Phase::Aborted
                    &&& final(self).spawned == old(self).spawned
                    &&& final(self).live_handles() == old(self).live_handles()
                    &&& a == Action::Cleanup
                },
                (Phase::Draining, Event::Chunk(c)) => {
                    &&& final(self).phase == Phase::Draining
                    &&& final(self).collected@ == old(self).collected@ + c@
                    &&& final(self).chunks@ == old(self).chunks@.push(c@)
                    &&& final(self).err_collected@ == old(self).err_collected@
                    &&& a == Action::ReadOutput
                },
                (Phase::Draining, Event::ErrChunk(c)) => {
                    &&& final(self).phase == Phase::Draining
                    &&& final(self).err_collected@ == old(self).err_collected@ + c@
                    &&& final(self).collected@ == old(self).collected@
                    &&& final(self).chunks@ == old(self).chunks@
                    &&& a == Action::ReadOutput
                },
                (Phase::Draining, Event::OutputEnd) => {
                    &&& final(self).phase == Phase::Waiting
                    &&& final(self).collected@ == old(self).collected@
                    &&& final(self).err_collected@ == old(self).err_collected@
                    &&& !final(self).io_failed
                    &&& a == Action::Wait(0usize)
                },
                (Phase::Draining, Event::ReadFailed) => {
                    &&& final(self).phase == Phase::Waiting
                    &&& final(self).collected@ == old(self).collected@
                    &&& final(self).err_collected@ == old(self).err_collected@
                    &&& final(self).io_failed
                    &&& a == Action::Wait(0usize)
                },
                (Phase::Waiting, Event::Exited(st)) => {
                    &&& final(self).statuses@ == old(self).statuses@.push(st)
                    &&& final(self).waited == old(self).waited + 1
                    &&& final(self).collected@ == old(self).collected@
                    &&& final(self).err_collected@ == old(self).err_collected@
                    &&& final(self).chunks@ == old(self).chunks@
                    &&& final(self).io_failed == old(self).io_failed
                    &&& if old(self).waited + 1 < old(self).stages@.len() {
                        final(self).phase == Phase::Waiting && a == Action::Wait(
                            (old(self).waited + 1) as usize,
                        )
                    } else {
                        final(self).phase == Phase::Finished && a == Action::Finish
                    }
                },
                _ => false,
            },
    {
        match ev {
            Event::Spawned => {
                proof {
                    assert(self.spawned < self.stages@.len());
                }
                let n = self.stages.len();
                self.spawned = self.spawned + 1;
                if self.spawned < n {
                    Action::Spawn(self.spawned)
                } else {
                    self.phase = Phase::Draining;
                    Action::ReadOutput
                }
            },
            Event::SpawnFailed => {
                self.phase = Phase::Aborted;
                Action::Cleanup
            },
            Event::Chunk(c) => {
                let ghost old_chunks = self.chunks@;
                let ghost cv = c@;
                append_bytes(&mut self.collected, c);
                proof {
                    self.chunks@ = old_chunks.push(cv);
                    old_chunks.lemma_flatten_push(cv);
                }
                Action::ReadOutput
            },
            Event::ErrChunk(c) => {
                append_bytes(&mut self.err_collected, c);
                Action::ReadOutput
            },
            Event::OutputEnd => {
                self.phase = Phase::Waiting;
                Action::Wait(0)
            },
            Event::ReadFailed => {
                self.io_failed = true;
                self.phase = Phase::Waiting;
                Action::Wait(0)
            },
            Event::Exited(st) => {
                proof {
                    assert(self.waited < self.stages@.len());
                }
                let n = self.stages.len();
                self.statuses.push(st);
                self.waited = self.waited + 1;
                if self.waited < n {
                    Action::Wait(self.waited)
                } else {
                    self.phase = Phase::Finished;
                    Action::Finish
                }
            },
        }
    }

    /// The driver has released every handle and pipe endpoint of an aborted
    /// run: nothing live remains.
    pub fn mark_cleaned(&mut self) -> (a: Action)
        requires
            old(self).wf(),
            old(self).phase == Phase::Aborted,
        ensures
            final(self).wf(),
            final(self).phase == Phase::Aborted,
            final(self).cleaned,
            final(self).live_handles() == 0,
            final(self).stages@ == old(self).stages@,
            a == Action::Finish,
    {
        self.cleaned = true;
        Action::Finish
    }

    /// Assemble the immutable outcome of a finished run. An aborted run
    /// reports `SpawnFailed` with nothing captured; a run whose output read
    /// failed reports `IOFailed` but keeps the bytes gathered before the
    /// failure; otherwise the classification is exactly the class of the
    /// terminal stage's exit status, and the output is the captured chunks
    /// in arrival order.
    pub fn into_result(self) -> (r: CommandResult)
        requires
            self.wf(),
            self.phase == Phase::Finished || (self.phase == Phase::Aborted && self.cleaned),
        ensures
            self.phase == Phase::Aborted ==> {
                &&& r.classification == Classification::SpawnFailed
                &&& r.status is None
                &&& r.output@.len() == 0
            },
            self.phase == Phase::Finished ==> {
                &&& r.status == Some(self.statuses@[self.stages@.len() - 1])
                &&& r.output@ == self.collected@
                &&& r.output@ == self.chunks@.flatten()
                &&& r.error_output@ == self.err_collected@
                &&& if self.io_failed {
                    r.classification == Classification::IOFailed
                } else {
                    r.classification == spec_classify(self.statuses@[self.stages@.len() - 1])
                }
            },
    {
        match self.phase {
            Phase::Aborted => CommandResult {
                classification: Classification::SpawnFailed,
                status: None,
                output: Vec::new(),
                error_output: self.err_collected,
            },
            _ => {
                let last = self.stages.len() - 1;
                let st = self.statuses[last];
                let classification = if self.io_failed {
                    Classification::IOFailed
                } else {
                    crate::command::classify(st)
                };
                CommandResult {
                    classification,
                    status: Some(st),
                    output: self.collected,
                    error_output: self.err_collected,
                }
            },
        }
    }
}

/// Append a chunk to a capture buffer, keeping arrival order.
fn append_bytes(buf: &mut Vec<u8>, chunk: Vec<u8>)
    ensures
        final(buf)@ == old(buf)@ + chunk@,
{
    let mut i: usize = 0;
    let mut chunk = chunk;
    while i < chunk.len()
        invariant
            0 <= i <= chunk@.len(),
            buf@ == old(buf)@ + chunk@.take(i as int),
        decreases chunk@.len() - i,
    {
        buf.push(chunk[i]);
        proof {
            assert(old(buf)@ + chunk@.take(i as int + 1) =~= (old(buf)@ + chunk@.take(
                i as int,
            )).push(chunk@[i as int]));
        }
        i += 1;
    }
    proof {
        assert(chunk@.take(chunk@.len() as int) =~= chunk@);
    }
}

/// The transformations of a pipeline's stages applied one after the other,
/// purely in memory: what a reference pipeline computes on `input`.
pub open spec fn chained_output(fs: Seq<spec_fn(Seq<u8>) -> Seq<u8>>, input: Seq<u8>) -> Seq<u8>
    decreases fs.len(),
{
    if fs.len() == 0 {
        input
    } else {
        chained_output(fs.drop_first(), fs[0](input))
    }
}

/// Each stage emitted exactly its transformation of what it was fed: stage
/// 0 was fed `input`, and every later stage the previous stage's emission.
pub open spec fn faithful_emissions(
    fs: Seq<spec_fn(Seq<u8>) -> Seq<u8>>,
    input: Seq<u8>,
    emits: Seq<Seq<u8>>,
) -> bool {
    &&& emits.len() == fs.len()
    &&& (fs.len() > 0 ==> emits[0] == fs[0](input))
    &&& forall|i: int| 1 <= i < emits.len() ==> emits[i] == (#[trigger] fs[i])(emits[i - 1])
}

/// Functional equivalence of a pipeline: when every stage's emission is its
/// own deterministic transformation of the bytes the chain fed it, the
/// terminal stage's emission — the bytes the orchestrator captures — equals
/// the in-memory reference pipeline `chained_output` on the same input.
pub proof fn lemma_pipeline_equivalence(
    fs: Seq<spec_fn(Seq<u8>) -> Seq<u8>>,
    input: Seq<u8>,
    emits: Seq<Seq<u8>>,
)
    requires
        fs.len() > 0,
        faithful_emissions(fs, input, emits),
    ensures
        emits.last() == chained_output(fs, input),
    decreases fs.len(),
{
    if fs.len() == 1 {
        assert(emits.last() == emits[0]);
        assert(fs.drop_first().len() == 0);
        assert(chained_output(fs.drop_first(), fs[0](input)) == fs[0](input));
        assert(chained_output(fs, input) == chained_output(fs.drop_first(), fs[0](input)));
    } else {
        let fs2 = fs.drop_first();
        let emits2 = emits.drop_first();
        assert(emits2[0] == emits[1]);
        assert(emits[1] == fs[1](emits[0]));
        assert(fs2[0] == fs[1]);
        assert(faithful_emissions(fs2, fs[0](input), emits2)) by {
            assert forall|i: int| 1 <= i < emits2.len() implies emits2[i] == (#[trigger] fs2[i])(
                emits2[i - 1],
            ) by {
                assert(emits2[i] == emits[i + 1]);
                assert(fs2[i] == fs[i + 1]);
                assert(emits[i + 1] == fs[i + 1](emits[i]));
                assert(emits2[i - 1] == emits[i]);
            }
        }
        lemma_pipeline_equivalence(fs2, fs[0](input), emits2);
        assert(emits2.last() == emits.last());
        assert(chained_output(fs, input) == chained_output(fs2, fs[0](input)));
    }
}

} // verus!


