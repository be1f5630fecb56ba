//! The user extension point: the six operations the dispatch loop routes
//! incoming actions to, and a simple processor that records what it saw.

use vstd::prelude::*;

use crate::checkpointer::{evolves_by_checkpointing, Checkpointer};
use crate::messages::{records_view, Record, RecordV};
use crate::reader::InputReader;
use crate::writer::OutputWriter;

verus! {

/// One call the dispatch loop made into a processor.
pub enum ProcessorEvent {
    Initialized { shard_id: Seq<char> },
    ProcessedRecords { records: Seq<RecordV> },
    LeaseLostSeen,
    ShardEndedSeen,
    ShutdownRequestedSeen,
}

/// The log of calls the dispatch loop has made into a processor. An
/// implementation that does not keep the log may leave it at its default,
/// the empty log; the dispatch loop's guarantees about the log then say
/// nothing about that processor.
pub trait ProcessorLog: Sized {
    open spec fn events(&self) -> Seq<ProcessorEvent> {
        Seq::empty()
    }
}

/// User-supplied record-processing logic. The dispatch loop calls each
/// operation synchronously, once per incoming action; `events()` is the log
/// of those calls. An operation that is handed the [`Checkpointer`] may use
/// it for checkpoint round trips and must leave the channel moved by nothing
/// else.
pub trait Processor<R: InputReader, W: OutputWriter>: ProcessorLog {
    /// Called once at session start with the shard this worker owns.
    fn initialize(&mut self, shard_id: &str)
        ensures
            final(self).events() == old(self).events().push(
                (ProcessorEvent::Initialized { shard_id: shard_id@ }),
            ),
    ;

    /// Called with each delivered batch, in delivery order; may checkpoint.
    fn process_records(&mut self, data: &[Record], checkpointer: &mut Checkpointer<R, W>)
        ensures
            final(self).events() == old(self).events().push(
                (ProcessorEvent::ProcessedRecords { records: records_view(data@) }),
            ),
            evolves_by_checkpointing(
                old(checkpointer).inputs(),
                old(checkpointer).outputs(),
                final(checkpointer).inputs(),
                final(checkpointer).outputs(),
            ),
    ;

    /// Called when the lease is already gone; no checkpoint is possible.
    fn lease_lost(&mut self)
        ensures
            final(self).events() == old(self).events().push(ProcessorEvent::LeaseLostSeen),
    ;

    /// Called when the shard is permanently closed; expected to checkpoint
    /// at the end-of-shard marker.
    fn shard_ended(&mut self, checkpointer: &mut Checkpointer<R, W>)
        ensures
            final(self).events() == old(self).events().push(ProcessorEvent::ShardEndedSeen),
            evolves_by_checkpointing(
                old(checkpointer).inputs(),
                old(checkpointer).outputs(),
                final(checkpointer).inputs(),
                final(checkpointer).outputs(),
            ),
    ;

    /// Called on graceful shutdown; expected to checkpoint current progress.
    fn shutdown_requested(&mut self, checkpointer: &mut Checkpointer<R, W>)
        ensures
            final(self).events() == old(self).events().push(ProcessorEvent::ShutdownRequestedSeen),
            evolves_by_checkpointing(
                old(checkpointer).inputs(),
                old(checkpointer).outputs(),
                final(checkpointer).inputs(),
                final(checkpointer).outputs(),
            ),
    ;
}

/// A processor that only records what it was told: the shard it was given,
/// every record delivered, and which lifecycle signals arrived. It never
/// checkpoints.
pub struct RecordingProcessor {
    pub shard: Option<String>,
    pub records: Vec<Record>,
    pub lease_lost: bool,
    pub shard_ended: bool,
    pub shutdown_requested: bool,
    pub history: Ghost<Seq<ProcessorEvent>>,
}

impl RecordingProcessor {
    /// A fresh processor with nothing recorded.
    pub fn new() -> (r: RecordingProcessor)
        ensures
            r.history@ == Seq::<ProcessorEvent>::empty(),
            r.shard is None,
            r.records@.len() == 0,
            !r.lease_lost,
            !r.shard_ended,
            !r.shutdown_requested,
    {
        RecordingProcessor {
            shard: None,
            records: Vec::new(),
            lease_lost: false,
            shard_ended: false,
            shutdown_requested: false,
            history: Ghost(Seq::empty()),
        }
    }
}

impl ProcessorLog for RecordingProcessor {
    open spec fn events(&self) -> Seq<ProcessorEvent> {
        self.history@
    }
}

impl<R: InputReader, W: OutputWriter> Processor<R, W> for RecordingProcessor {
    fn initialize(&mut self, shard_id: &str)
        ensures
            final(self).events() == old(self).events().push(
                (ProcessorEvent::Initialized { shard_id: shard_id@ }),
            ),
    {
        self.shard = Some(shard_id.to_owned());
        self.history = Ghost(
            self.history@.push(ProcessorEvent::Initialized { shard_id: shard_id@ }),
        );
    }

    fn process_records(&mut self, data: &[Record], checkpointer: &mut Checkpointer<R, W>)
        ensures
            final(self).events() == old(self).events().push(
                (ProcessorEvent::ProcessedRecords { records: records_view(data@) }),
            ),
            evolves_by_checkpointing(
                old(checkpointer).inputs(),
                old(checkpointer).outputs(),
                final(checkpointer).inputs(),
                final(checkpointer).outputs(),
            ),
    {
        let mut i: usize = 0;
        while i < data.len()
            invariant
                0 <= i <= data@.len(),
                self.history@ == old(self).history@,
            decreases data@.len() - i,
        {
            self.records.push(data[i].clone());
            i = i + 1;
        }
        self.history = Ghost(
            self.history@.push(ProcessorEvent::ProcessedRecords { records: records_view(data@) }),
        );
        proof {
            assert(old(checkpointer).inputs().skip(0) =~= old(checkpointer).inputs());
        }
    }

    fn lease_lost(&mut self)
        ensures
            final(self).events() == old(self).events().push(ProcessorEvent::LeaseLostSeen),
    {
        self.lease_lost = true;
        self.history = Ghost(self.history@.push(ProcessorEvent::LeaseLostSeen));
    }

    fn shard_ended(&mut self, checkpointer: &mut Checkpointer<R, W>)
        ensures
            final(self).events() == old(self).events().push(ProcessorEvent::ShardEndedSeen),
            evolves_by_checkpointing(
                old(checkpointer).inputs(),
                old(checkpointer).outputs(),
                final(checkpointer).inputs(),
                final(checkpointer).outputs(),
            ),
    {
        self.shard_ended = true;
        self.history = Ghost(self.history@.push(ProcessorEvent::ShardEndedSeen));
        proof {
            assert(old(checkpointer).inputs().skip(0) =~= old(checkpointer).inputs());
        }
    }

    fn shutdown_requested(&mut self, checkpointer: &mut Checkpointer<R, W>)
        ensures
            final(self).events() == old(self).events().push(ProcessorEvent::ShutdownRequestedSeen),
            evolves_by_checkpointing(
                old(checkpointer).inputs(),
                old(checkpointer).outputs(),
                final(checkpointer).inputs(),
                final(checkpointer).outputs(),
            ),
    {
        self.shutdown_requested = true;
        self.history = Ghost(self.history@.push(ProcessorEvent::ShutdownRequestedSeen));
        proof {
            assert(old(checkpointer).inputs().skip(0) =~= old(checkpointer).inputs());
        }
    }
}

} // verus!
