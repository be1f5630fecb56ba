//! The dispatch loop: each call of [`tick`] consumes exactly one top-level
//! line, routes it to the matching processor operation, and acknowledges it
//! with exactly one status line after any nested checkpoint exchange has
//! fully completed.

use vstd::prelude::*;

use crate::checkpointer::{evolves_by_checkpointing, is_checkpoint_request_line, Checkpointer};
use crate::codec::{decode_message, line_carries, DecodeError};
use crate::messages::{action_name, Message, MessageV};
use crate::processor::{Processor, ProcessorEvent, ProcessorLog};
use crate::reader::{ChannelError, InputReader};
use crate::responses::{spec_status_line, StatusResponse};
use crate::writer::{write_status, OutputWriter};

verus! {

/// Why a session must end: every one of these is fatal for the run loop.
#[derive(Debug)]
pub enum EngineError {
    /// The line channel failed.
    Channel(ChannelError),
    /// The incoming line is not one of the protocol's messages.
    Malformed(DecodeError),
    /// A checkpoint response arrived with no checkpoint request outstanding.
    UnexpectedCheckpoint,
}

/// The reader only moved forward.
pub open spec fn consumed_only(r0: Seq<Seq<char>>, r1: Seq<Seq<char>>) -> bool {
    exists|n: int| 0 <= n <= r0.len() && r1 == #[trigger] r0.skip(n)
}

/// The writer grew by checkpoint requests alone.
pub open spec fn wrote_requests_only(w0: Seq<Seq<char>>, w1: Seq<Seq<char>>) -> bool {
    &&& w0.is_prefix_of(w1)
    &&& forall|i: int| w0.len() <= i < w1.len() ==> is_checkpoint_request_line(#[trigger] w1[i])
}

/// The writer grew by checkpoint requests and then exactly one closing
/// status line.
pub open spec fn wrote_requests_then_status(
    w0: Seq<Seq<char>>,
    w1: Seq<Seq<char>>,
    status: Seq<char>,
) -> bool {
    &&& w0.len() < w1.len()
    &&& w0.is_prefix_of(w1)
    &&& w1.last() == status
    &&& forall|i: int| w0.len() <= i < w1.len() - 1 ==> is_checkpoint_request_line(#[trigger] w1[i])
}

/// Nothing happened and the channel failure is the result: the shape of a
/// tick whose read failed.
pub open spec fn tick_read_failed<P: ProcessorLog>(
    r: Result<(), EngineError>,
    e0: Seq<ProcessorEvent>,
    e1: Seq<ProcessorEvent>,
    r0: Seq<Seq<char>>,
    r1: Seq<Seq<char>>,
    w0: Seq<Seq<char>>,
    w1: Seq<Seq<char>>,
) -> bool {
    &&& r1 == r0
    &&& w1 == w0
    &&& e1 == e0
    &&& r matches Err(e) && e is Channel
}

/// The first line was read but is no message: the tick rejected it as
/// malformed, touched nothing else, and wrote nothing.
pub open spec fn tick_rejected_line<P: ProcessorLog>(
    r: Result<(), EngineError>,
    e0: Seq<ProcessorEvent>,
    e1: Seq<ProcessorEvent>,
    r0: Seq<Seq<char>>,
    r1: Seq<Seq<char>>,
    w0: Seq<Seq<char>>,
    w1: Seq<Seq<char>>,
) -> bool {
    &&& r1 == r0.drop_first()
    &&& w1 == w0
    &&& e1 == e0
    &&& r matches Err(e) && e is Malformed
}

/// What one tick does once the first line carries the message `mv`: the
/// processor sees exactly the matching operation once, the channel moves by
/// the nested exchanges and the one closing status line, and a top-level
/// checkpoint response is the fatal protocol violation.
pub open spec fn tick_handled(
    mv: MessageV,
    r: Result<(), EngineError>,
    e0: Seq<ProcessorEvent>,
    e1: Seq<ProcessorEvent>,
    r0: Seq<Seq<char>>,
    r1: Seq<Seq<char>>,
    w0: Seq<Seq<char>>,
    w1: Seq<Seq<char>>,
) -> bool {
    match mv {
        MessageV::Initialize { shard_id } => {
            &&& e1 == e0.push((ProcessorEvent::Initialized { shard_id }))
            &&& r1 == r0.drop_first()
            &&& (r is Ok ==> w1 == w0.push(spec_status_line(action_name(mv))))
            &&& (!(r is Ok) ==> w1 == w0 && (r matches Err(e) && e is Channel))
        },
        MessageV::LeaseLost => {
            &&& e1 == e0.push(ProcessorEvent::LeaseLostSeen)
            &&& r1 == r0.drop_first()
            &&& (r is Ok ==> w1 == w0.push(spec_status_line(action_name(mv))))
            &&& (!(r is Ok) ==> w1 == w0 && (r matches Err(e) && e is Channel))
        },
        MessageV::Checkpoint { .. } => {
            &&& e1 == e0
            &&& r1 == r0.drop_first()
            &&& w1 == w0
            &&& (r matches Err(e) && e is UnexpectedCheckpoint)
        },
        MessageV::ProcessRecords { records } => {
            &&& e1 == e0.push((ProcessorEvent::ProcessedRecords { records }))
            &&& consumed_only(r0.drop_first(), r1)
            &&& (r is Ok ==> wrote_requests_then_status(w0, w1, spec_status_line(action_name(mv))))
            &&& (!(r is Ok) ==> wrote_requests_only(w0, w1) && (r matches Err(e) && e is Channel))
        },
        MessageV::ShardEnded { .. } => {
            &&& e1 == e0.push(ProcessorEvent::ShardEndedSeen)
            &&& consumed_only(r0.drop_first(), r1)
            &&& (r is Ok ==> wrote_requests_then_status(w0, w1, spec_status_line(action_name(mv))))
            &&& (!(r is Ok) ==> wrote_requests_only(w0, w1) && (r matches Err(e) && e is Channel))
        },
        MessageV::ShutdownRequested { .. } => {
            &&& e1 == e0.push(ProcessorEvent::ShutdownRequestedSeen)
            &&& consumed_only(r0.drop_first(), r1)
            &&& (r is Ok ==> wrote_requests_then_status(w0, w1, spec_status_line(action_name(mv))))
            &&& (!(r is Ok) ==> wrote_requests_only(w0, w1) && (r matches Err(e) && e is Channel))
        },
    }
}

/// Routes one decoded message to the matching processor operation. A
/// checkpoint response does not belong here: the daemon may only send one
/// while a request is outstanding, so it is the fatal protocol violation.
fn process_message<R: InputReader, W: OutputWriter, P: Processor<R, W>>(
    processor: &mut P,
    message: &Message,
    channel: &mut Checkpointer<R, W>,
) -> (r: Result<(), EngineError>)
    ensures
        (match message@ {
            MessageV::Initialize { shard_id } => {
                &&& r is Ok
                &&& final(processor).events() == old(processor).events().push(
                    (ProcessorEvent::Initialized { shard_id }),
                )
            },
            MessageV::LeaseLost => {
                &&& r is Ok
                &&& final(processor).events() == old(processor).events().push(
                    ProcessorEvent::LeaseLostSeen,
                )
            },
            MessageV::Checkpoint { .. } => {
                &&& (r matches Err(e) && e is UnexpectedCheckpoint)
                &&& final(processor).events() == old(processor).events()
            },
            MessageV::ProcessRecords { records } => {
                &&& r is Ok
                &&& final(processor).events() == old(processor).events().push(
                    (ProcessorEvent::ProcessedRecords { records }),
                )
            },
            MessageV::ShardEnded { .. } => {
                &&& r is Ok
                &&& final(processor).events() == old(processor).events().push(
                    ProcessorEvent::ShardEndedSeen,
                )
            },
            MessageV::ShutdownRequested { .. } => {
                &&& r is Ok
                &&& final(processor).events() == old(processor).events().push(
                    ProcessorEvent::ShutdownRequestedSeen,
                )
            },
        }),
        (message@ matches MessageV::Initialize { .. } || message@ matches MessageV::LeaseLost
            || message@ matches MessageV::Checkpoint { .. }) ==> final(channel).inputs() == old(
            channel,
        ).inputs() && final(channel).outputs() == old(channel).outputs(),
        evolves_by_checkpointing(
            old(channel).inputs(),
            old(channel).outputs(),
            final(channel).inputs(),
            final(channel).outputs(),
        ),
{
    let r = match message {
        Message::Initialize { shard_id } => {
            processor.initialize(shard_id.as_str());
            Ok(())
        },
        Message::ProcessRecords { records } => {
            processor.process_records(records.as_slice(), channel);
            Ok(())
        },
        Message::LeaseLost => {
            processor.lease_lost();
            Ok(())
        },
        Message::ShardEnded { .. } => {
            processor.shard_ended(channel);
            Ok(())
        },
        Message::ShutdownRequested { .. } => {
            processor.shutdown_requested(channel);
            Ok(())
        },
        Message::Checkpoint { .. } => Err(EngineError::UnexpectedCheckpoint),
    };
    proof {
        assert(old(channel).inputs().skip(0) =~= old(channel).inputs());
    }
    r
}

/// One turn of the dispatch loop: reads one line, decodes it, routes it, and
/// acknowledges it with one status line. A channel failure or a line that is
/// no message is fatal and acknowledged with nothing.
pub fn tick<R: InputReader, W: OutputWriter, P: Processor<R, W>>(
    processor: &mut P,
    channel: &mut Checkpointer<R, W>,
) -> (r: Result<(), EngineError>)
    ensures
        consumed_only(old(channel).inputs(), final(channel).inputs()),
        r is Ok ==> old(channel).inputs().len() > 0,
        old(channel).inputs().len() == 0 ==> tick_read_failed::<P>(
            r,
            old(processor).events(),
            final(processor).events(),
            old(channel).inputs(),
            final(channel).inputs(),
            old(channel).outputs(),
            final(channel).outputs(),
        ),
        old(channel).inputs().len() > 0 && (forall|mv: MessageV|
            !line_carries(old(channel).inputs()[0], mv)) ==> (tick_read_failed::<P>(
            r,
            old(processor).events(),
            final(processor).events(),
            old(channel).inputs(),
            final(channel).inputs(),
            old(channel).outputs(),
            final(channel).outputs(),
        ) || tick_rejected_line::<P>(
            r,
            old(processor).events(),
            final(processor).events(),
            old(channel).inputs(),
            final(channel).inputs(),
            old(channel).outputs(),
            final(channel).outputs(),
        )),
        forall|mv: MessageV|
            old(channel).inputs().len() > 0 && #[trigger] line_carries(
                old(channel).inputs()[0],
                mv,
            ) ==> (tick_read_failed::<P>(
                r,
                old(processor).events(),
                final(processor).events(),
                old(channel).inputs(),
                final(channel).inputs(),
                old(channel).outputs(),
                final(channel).outputs(),
            ) || tick_handled(
                mv,
                r,
                old(processor).events(),
                final(processor).events(),
                old(channel).inputs(),
                final(channel).inputs(),
                old(channel).outputs(),
                final(channel).outputs(),
            )),
{
    let next = match self_next(channel) {
        Result::Err(e) => {
            proof {
                assert(old(channel).inputs().skip(0) =~= old(channel).inputs());
            }
            return Err(EngineError::Channel(e));
        },
        Result::Ok(line) => line,
    };
    let message = match decode_message(next.as_str()) {
        Result::Err(e) => {
            proof {
                assert(old(channel).inputs().skip(1) =~= old(channel).inputs().drop_first());
            }
            return Err(EngineError::Malformed(e));
        },
        Result::Ok(m) => m,
    };
    let routed = process_message(processor, &message, channel);
    match routed {
        Result::Err(e) => {
            proof {
                assert(old(channel).inputs().skip(1) =~= old(channel).inputs().drop_first());
            }
            return Err(e);
        },
        Result::Ok(u) => {},
    }
    let status = StatusResponse::for_message(message);
    let ghost mid_inputs = channel.inputs();
    let ghost mid_outputs = channel.outputs();
    let wrote = write_status(&mut channel.writer, status);
    proof {
        assert(channel.inputs() == mid_inputs);
        assert(consumed_only(old(channel).inputs().drop_first(), channel.inputs()));
        lemma_consumed_only_shift(old(channel).inputs(), channel.inputs());
    }
    match wrote {
        Result::Err(e) => Err(EngineError::Channel(e)),
        Result::Ok(u) => Ok(()),
    }
}

/// Reads the next line through the channel.
fn self_next<R: InputReader, W: OutputWriter>(channel: &mut Checkpointer<R, W>) -> (r: Result<
    String,
    ChannelError,
>)
    ensures
        (match r {
            Result::Ok(line) => old(channel).inputs().len() > 0 && line@ == old(
                channel,
            ).inputs()[0] && final(channel).inputs() == old(channel).inputs().drop_first(),
            Result::Err(_) => final(channel).inputs() == old(channel).inputs(),
        }),
        final(channel).outputs() == old(channel).outputs(),
{
    channel.reader.next()
}

/// A tail of the queue, further consumed, is the queue further consumed.
proof fn lemma_consumed_only_shift(r0: Seq<Seq<char>>, r2: Seq<Seq<char>>)
    requires
        r0.len() > 0,
        consumed_only(r0.drop_first(), r2),
    ensures
        consumed_only(r0, r2),
{
    let n = choose|n: int|
        0 <= n <= r0.drop_first().len() && r2 == #[trigger] r0.drop_first().skip(n);
    assert(r2 =~= r0.skip(n + 1));
}

} // verus!
