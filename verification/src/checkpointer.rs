//! The checkpoint sub-protocol: one request line out, one reply line in,
//! classified. The exchange is strictly synchronous; the engine owns both
//! halves of the channel while it runs.

use vstd::prelude::*;

use crate::codec::{decode_message, line_carries, DecodeError};
use crate::json::{jv_member_views, lemma_jv_member_views_index, render_json, Json, JsonValue};
use crate::json_render::render_json_chars;
use crate::messages::{json_opt_str, json_opt_u64, CheckpointError, Message, MessageV};
use crate::reader::InputReader;
use crate::text::{chars_to_string, str_to_chars, u64_to_dec};
use crate::writer::OutputWriter;

verus! {

/// The text of an optional text argument.
pub open spec fn opt_str_view(o: Option<&str>) -> Option<Seq<char>> {
    match o {
        Option::Some(s) => Some(s@),
        Option::None => None,
    }
}

/// The canonical checkpoint request line for the given coordinates; both
/// absent means "checkpoint at the last record of the current batch".
pub open spec fn spec_encode_checkpoint_request(sq: Option<Seq<char>>, sub: Option<u64>) -> Seq<
    char,
> {
    render_json(
        Json::Obj(
            seq![
                (("action")@, Json::Str(("checkpoint")@)),
                (("sequenceNumber")@, json_opt_str(sq)),
                (("subSequenceNumber")@, json_opt_u64(sub)),
            ],
        ),
    ) + seq!['\n']
}

/// A line some checkpoint request could have written.
pub open spec fn is_checkpoint_request_line(line: Seq<char>) -> bool {
    exists|sq: Option<Seq<char>>, sub: Option<u64>|
        line == #[trigger] spec_encode_checkpoint_request(sq, sub)
}

/// The channel moved only by whole checkpoint exchanges: writes are all
/// checkpoint requests, reads only consume.
pub open spec fn evolves_by_checkpointing(
    r0: Seq<Seq<char>>,
    w0: Seq<Seq<char>>,
    r1: Seq<Seq<char>>,
    w1: Seq<Seq<char>>,
) -> bool {
    &&& w0.is_prefix_of(w1)
    &&& forall|i: int| w0.len() <= i < w1.len() ==> is_checkpoint_request_line(#[trigger] w1[i])
    &&& exists|n: int| 0 <= n <= r0.len() && r1 == #[trigger] r0.skip(n)
}

/// One whole exchange happened: exactly the request went out and exactly one
/// reply line came in.
pub open spec fn exchange_completed(
    r0: Seq<Seq<char>>,
    w0: Seq<Seq<char>>,
    r1: Seq<Seq<char>>,
    w1: Seq<Seq<char>>,
    req: Seq<char>,
) -> bool {
    &&& w1 == w0.push(req)
    &&& r0.len() > 0
    &&& r1 == r0.drop_first()
}

/// Writes the canonical checkpoint request line.
fn encode_checkpoint_request(sq: Option<&str>, sub: Option<u64>) -> (r: String)
    ensures
        r@ == spec_encode_checkpoint_request(opt_str_view(sq), sub),
{
    let mut ms: Vec<(Vec<char>, JsonValue)> = Vec::new();
    ms.push((str_to_chars("action"), JsonValue::Str(str_to_chars("checkpoint"))));
    let sqv = match sq {
        Option::Some(s) => JsonValue::Str(str_to_chars(s)),
        Option::None => JsonValue::Null,
    };
    ms.push((str_to_chars("sequenceNumber"), sqv));
    let subv = match sub {
        Option::Some(n) => JsonValue::Num(u64_to_dec(n)),
        Option::None => JsonValue::Null,
    };
    ms.push((str_to_chars("subSequenceNumber"), subv));
    let jv = JsonValue::Obj(ms);
    proof {
        lemma_jv_member_views_index(jv->Obj_0@, 0);
        assert(jv_member_views(jv->Obj_0@, 0) =~~= seq![
            (("action")@, Json::Str(("checkpoint")@)),
            (("sequenceNumber")@, json_opt_str(opt_str_view(sq))),
            (("subSequenceNumber")@, json_opt_u64(sub)),
        ]);
    }
    let mut cs = render_json_chars(&jv);
    cs.push('\n');
    proof {
        assert(cs@ =~= spec_encode_checkpoint_request(opt_str_view(sq), sub));
    }
    chars_to_string(&cs)
}

/// The engine's exclusive hold on the line channel. During record
/// processing, shard end and shutdown it doubles as the checkpoint
/// capability the processor is handed; a processor may call
/// [`Checkpointer::checkpoint`] on it zero or more times, synchronously.
pub struct Checkpointer<R: InputReader, W: OutputWriter> {
    pub reader: R,
    pub writer: W,
}

impl<R: InputReader, W: OutputWriter> Checkpointer<R, W> {
    /// The lines still to be read.
    pub open spec fn inputs(&self) -> Seq<Seq<char>> {
        self.reader.remaining()
    }

    /// The lines written so far.
    pub open spec fn outputs(&self) -> Seq<Seq<char>> {
        self.writer.outputs()
    }

    /// Takes exclusive hold of both channel halves.
    pub fn new(reader: R, writer: W) -> (r: Checkpointer<R, W>)
        ensures
            r.inputs() == reader.remaining(),
            r.outputs() == writer.outputs(),
            r.reader == reader,
            r.writer == writer,
    {
        Checkpointer { reader, writer }
    }

    /// One checkpoint round trip: writes the request line for the given
    /// coordinates, reads exactly one reply line, and classifies it. Success
    /// comes exactly when the reply is a checkpoint response without an
    /// error; a response carrying an error string yields that error; a reply
    /// of any other action kind is the non-retryable protocol violation; a
    /// reply that is no message at all, or a channel failure, is the
    /// catch-all error.
    pub fn checkpoint(&mut self, sequence_number: Option<&str>, sub_sequence_number: Option<u64>)
        -> (r: Result<(), CheckpointError>)
        ensures
            ({
                let req = spec_encode_checkpoint_request(
                    opt_str_view(sequence_number),
                    sub_sequence_number,
                );
                let reply = old(self).inputs()[0];
                let exch = exchange_completed(
                    old(self).inputs(),
                    old(self).outputs(),
                    final(self).inputs(),
                    final(self).outputs(),
                    req,
                );
                &&& final(self).outputs() == old(self).outputs() || final(self).outputs() == old(
                    self,
                ).outputs().push(req)
                &&& final(self).outputs() == old(self).outputs() ==> final(self).inputs() == old(
                    self,
                ).inputs()
                &&& final(self).inputs() == old(self).inputs() || (old(self).inputs().len() > 0
                    && final(self).inputs() == old(self).inputs().drop_first())
                &&& !exch ==> (r matches Err(e) && e is Exception)
                &&& exch ==> {
                    &&& (r is Ok <==> exists|cp: Option<Seq<char>>|
                        #[trigger] line_carries(
                            reply,
                            (MessageV::Checkpoint { checkpoint: cp, error: Option::<crate::messages::CheckpointErrorV>::None }),
                        ))
                    &&& forall|cp: Option<Seq<char>>, ev: crate::messages::CheckpointErrorV|
                        #[trigger] line_carries(
                            reply,
                            (MessageV::Checkpoint { checkpoint: cp, error: Some(ev) }),
                        ) ==> (r matches Err(e) && e@ == ev)
                    &&& forall|mv: MessageV|
                        #[trigger] line_carries(reply, mv) && !(mv is Checkpoint) ==> (
                        r matches Err(e) && e is UnexpectedResponse)
                    &&& (forall|mv: MessageV| !line_carries(reply, mv)) ==> (r matches Err(e)
                        && e is Exception)
                }
                &&& evolves_by_checkpointing(
                    old(self).inputs(),
                    old(self).outputs(),
                    final(self).inputs(),
                    final(self).outputs(),
                )
            }),
    {
        let req = encode_checkpoint_request(sequence_number, sub_sequence_number);
        let r = self.checkpoint_exchange(req);
        proof {
            let r0 = old(self).inputs();
            if self.inputs() == r0 {
                assert(r0.skip(0) =~= r0);
            } else {
                assert(r0.skip(1) =~= r0.drop_first());
            }
            if self.outputs() != old(self).outputs() {
                let reqv = spec_encode_checkpoint_request(
                    opt_str_view(sequence_number),
                    sub_sequence_number,
                );
                assert(is_checkpoint_request_line(reqv)) by {
                    assert(reqv == spec_encode_checkpoint_request(
                        opt_str_view(sequence_number),
                        sub_sequence_number,
                    ));
                }
                assert(old(self).outputs().is_prefix_of(self.outputs()));
            }
        }
        r
    }

    /// Runs the exchange for an already-encoded request line.
    fn checkpoint_exchange(&mut self, req: String) -> (r: Result<(), CheckpointError>)
        ensures
            ({
                let reply = old(self).inputs()[0];
                let exch = exchange_completed(
                    old(self).inputs(),
                    old(self).outputs(),
                    final(self).inputs(),
                    final(self).outputs(),
                    req@,
                );
                &&& final(self).outputs() == old(self).outputs() || final(self).outputs() == old(
                    self,
                ).outputs().push(req@)
                &&& final(self).outputs() == old(self).outputs() ==> final(self).inputs() == old(
                    self,
                ).inputs()
                &&& final(self).inputs() == old(self).inputs() || (old(self).inputs().len() > 0
                    && final(self).inputs() == old(self).inputs().drop_first())
                &&& !exch ==> (r matches Err(e) && e is Exception)
                &&& exch ==> {
                    &&& (r is Ok <==> exists|cp: Option<Seq<char>>|
                        #[trigger] line_carries(
                            reply,
                            (MessageV::Checkpoint { checkpoint: cp, error: Option::<crate::messages::CheckpointErrorV>::None }),
                        ))
                    &&& forall|cp: Option<Seq<char>>, ev: crate::messages::CheckpointErrorV|
                        #[trigger] line_carries(
                            reply,
                            (MessageV::Checkpoint { checkpoint: cp, error: Some(ev) }),
                        ) ==> (r matches Err(e) && e@ == ev)
                    &&& forall|mv: MessageV|
                        #[trigger] line_carries(reply, mv) && !(mv is Checkpoint) ==> (
                        r matches Err(e) && e is UnexpectedResponse)
                    &&& (forall|mv: MessageV| !line_carries(reply, mv)) ==> (r matches Err(e)
                        && e is Exception)
                }
            }),
    {
        let wr = self.writer.write(req.as_str());
        proof {
            assert(self.inputs() == old(self).inputs());
        }
        match wr {
            Result::Err(e) => {
                return Err(CheckpointError::Exception(e.message));
            },
            Result::Ok(u) => {
                proof {
                    assert(self.outputs() == old(self).outputs().push(req@));
                    assert(self.outputs().len() == old(self).outputs().len() + 1);
                }
            },
        }
        let line = match self.reader.next() {
            Result::Err(e) => {
                return Err(CheckpointError::Exception(e.message));
            },
            Result::Ok(l) => l,
        };
        proof {
            assert(self.outputs() == old(self).outputs().push(req@));
            assert(self.inputs() == old(self).inputs().drop_first());
            assert(old(self).inputs().len() > 0);
            assert(line@ == old(self).inputs()[0]);
        }
        let dec = decode_message(line.as_str());
        match dec {
            Result::Err(e) => {
                proof {
                    assert forall|mv: MessageV| !line_carries(line@, mv) by {
                        if line_carries(line@, mv) {
                            assert(dec matches Ok(m2) && m2@ == mv);
                        }
                    }
                }
                Err(CheckpointError::Exception(e.describe()))
            },
            Result::Ok(m) => {
                proof {
                    assert(line_carries(line@, m@));
                }
                match m {
                    Message::Checkpoint { checkpoint: cpv, error } => match error {
                        Option::None => {
                            proof {
                                let ghost cp0 = m@->Checkpoint_checkpoint;
                                assert(line_carries(
                                    line@,
                                    (MessageV::Checkpoint {
                                        checkpoint: cp0,
                                        error: Option::<crate::messages::CheckpointErrorV>::None,
                                    }),
                                ));
                                assert forall|cp: Option<Seq<char>>, ev: crate::messages::CheckpointErrorV|
                                    !line_carries(
                                        line@,
                                        (MessageV::Checkpoint { checkpoint: cp, error: Some(ev) }),
                                    ) by {
                                    if line_carries(
                                        line@,
                                        (MessageV::Checkpoint { checkpoint: cp, error: Some(ev) }),
                                    ) {
                                        assert(dec matches Ok(m2) && m2@ == (MessageV::Checkpoint {
                                            checkpoint: cp,
                                            error: Some(ev),
                                        }));
                                    }
                                }
                            }
                            Ok(())
                        },
                        Option::Some(e) => {
                            proof {
                                assert forall|cp: Option<Seq<char>>, ev: crate::messages::CheckpointErrorV|
                                    #[trigger] line_carries(
                                        line@,
                                        (MessageV::Checkpoint { checkpoint: cp, error: Some(ev) }),
                                    ) implies ev == e@ by {
                                    assert(dec matches Ok(m2) && m2@ == (MessageV::Checkpoint {
                                        checkpoint: cp,
                                        error: Some(ev),
                                    }));
                                }
                                assert forall|cp: Option<Seq<char>>|
                                    !line_carries(
                                        line@,
                                        (MessageV::Checkpoint {
                                            checkpoint: cp,
                                            error: Option::<
                                                crate::messages::CheckpointErrorV,
                                            >::None,
                                        }),
                                    ) by {
                                    if line_carries(
                                        line@,
                                        (MessageV::Checkpoint {
                                            checkpoint: cp,
                                            error: Option::<
                                                crate::messages::CheckpointErrorV,
                                            >::None,
                                        }),
                                    ) {
                                        assert(dec matches Ok(m2) && m2@ == (MessageV::Checkpoint {
                                            checkpoint: cp,
                                            error: Option::<
                                                crate::messages::CheckpointErrorV,
                                            >::None,
                                        }));
                                    }
                                }
                            }
                            Err(e)
                        },
                    },
                    _ => {
                        proof {
                            assert forall|cp: Option<Seq<char>>|
                                !line_carries(
                                    line@,
                                    (MessageV::Checkpoint {
                                        checkpoint: cp,
                                        error: Option::<crate::messages::CheckpointErrorV>::None,
                                    }),
                                ) by {
                                if line_carries(
                                    line@,
                                    (MessageV::Checkpoint {
                                        checkpoint: cp,
                                        error: Option::<crate::messages::CheckpointErrorV>::None,
                                    }),
                                ) {
                                    assert(dec matches Ok(m2) && m2@ == (MessageV::Checkpoint {
                                        checkpoint: cp,
                                        error: Option::<crate::messages::CheckpointErrorV>::None,
                                    }));
                                }
                            }
                            assert forall|cp: Option<Seq<char>>, ev: crate::messages::CheckpointErrorV|
                                !line_carries(
                                    line@,
                                    (MessageV::Checkpoint { checkpoint: cp, error: Some(ev) }),
                                ) by {
                                if line_carries(
                                    line@,
                                    (MessageV::Checkpoint { checkpoint: cp, error: Some(ev) }),
                                ) {
                                    assert(dec matches Ok(m2) && m2@ == (MessageV::Checkpoint {
                                        checkpoint: cp,
                                        error: Some(ev),
                                    }));
                                }
                            }
                        }
                        Err(CheckpointError::UnexpectedResponse)
                    },
                }
            },
        }
    }
}

} // verus!
