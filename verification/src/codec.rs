//! Decoding and encoding of protocol messages, and the codec laws.
//!
//! [`decode_message`] accepts exactly the lines whose parsed JSON stands in
//! the [`msg_json_matches`] relation with some message, and returns that
//! message; [`encode_message`] writes the canonical line
//! [`spec_encode_message`]. Decoding an encoded message gives the message
//! back.

use vstd::prelude::*;

use crate::b64::{b64_decode, b64_encode, b64_of};
use crate::json::{
    is_number_text, jv_member_views, jv_view, jv_views, lemma_jv_member_views_index,
    lemma_jv_views_index, p_number, parse_json, render_json, wf_elems, wf_json, wf_members, Json,
    JsonValue,
};
use crate::json_exec::{chars_eq, p_number_exec, parse_json_chars};
use crate::json_laws::lemma_parse_render_json;
use crate::json_render::render_json_chars;
use crate::messages::{
    action_name, error_of_string, error_wf, field_is, field_val, json_of_message, json_of_record,
    json_opt_str, json_opt_u64, key_count, message_wf, msg_canonical_matches, msg_json_matches,
    opt_str_field_matches, opt_u64_field_matches, record_canonical_matches, record_fields_match,
    record_json_matches, record_wf, spec_encode_message, wire_error_string, CheckpointError,
    CheckpointErrorV, Message, MessageV, Record, RecordV,
};
use crate::text::{
    all_digits, chars_to_string, dec_str, dec_to_u64, dec_val, lemma_dec_str_val, str_to_chars,
    u64_to_dec,
};

verus! {

broadcast use vstd::string::group_string_axioms;

/// Why a line was rejected.
#[derive(Debug, PartialEq, Eq)]
pub enum DecodeError {
    /// The line is not one JSON document.
    MalformedJson,
    /// The document is not one of the protocol's messages.
    InvalidMessage,
}

impl DecodeError {
    /// A short account of the failure.
    pub fn describe(&self) -> (r: String)
        ensures
            self is MalformedJson ==> r@ == ("the line is not valid JSON")@,
            self is InvalidMessage ==> r@ == ("the line is not a protocol message")@,
    {
        match self {
            DecodeError::MalformedJson => ("the line is not valid JSON").to_owned(),
            DecodeError::InvalidMessage => ("the line is not a protocol message").to_owned(),
        }
    }
}

/// A key occurs a non-negative number of times.
proof fn lemma_key_count_nonneg(ms: Seq<(Seq<char>, Json)>, key: Seq<char>, i: int)
    ensures
        key_count(ms, key, i) >= 0,
    decreases ms.len() - i,
{
    if 0 <= i < ms.len() {
        lemma_key_count_nonneg(ms, key, i + 1);
    }
}

/// A key that no member carries occurs zero times from `i` on.
proof fn lemma_count_zero_from(ms: Seq<(Seq<char>, Json)>, key: Seq<char>, i: int)
    requires
        0 <= i <= ms.len(),
        forall|k: int| i <= k < ms.len() ==> (#[trigger] ms[k]).0 != key,
    ensures
        key_count(ms, key, i) == 0,
    decreases ms.len() - i,
{
    if i < ms.len() {
        lemma_count_zero_from(ms, key, i + 1);
    }
}

/// A key carried by exactly the member at `idx` occurs once, with that
/// member's value.
proof fn lemma_lookup_from(ms: Seq<(Seq<char>, Json)>, key: Seq<char>, idx: int, i: int)
    requires
        0 <= i <= idx < ms.len(),
        ms[idx].0 == key,
        forall|k: int| i <= k < ms.len() && k != idx ==> (#[trigger] ms[k]).0 != key,
    ensures
        key_count(ms, key, i) == 1,
        field_val(ms, key, i) == ms[idx].1,
    decreases idx - i,
{
    if i < idx {
        lemma_lookup_from(ms, key, idx, i + 1);
    } else {
        lemma_count_zero_from(ms, key, idx + 1);
    }
}

/// The decimal text of an unsigned number is one well-formed number token.
proof fn lemma_dec_str_number_text(n: u64)
    ensures
        is_number_text(dec_str(n as nat)),
        all_digits(dec_str(n as nat)),
        dec_str(n as nat).len() > 0,
        dec_val(dec_str(n as nat)) == n as int,
{
    lemma_dec_str_val(n as nat);
    let t = dec_str(n as nat);
    let l = t.len() as int;
    if t[0] == '0' {
        assert(n < 10);
        assert(t.len() == 1);
        assert(crate::json::num_int_end(t, 0) == Some(1int));
    } else {
        crate::json_laws::lemma_digits_end_char(t, 0, l);
        assert(crate::json::num_int_end(t, 0) == Some(l));
    }
    assert(crate::json::num_frac_end(t, l) == Some(l));
    assert(crate::json::num_exp_end(t, l) == Some(l));
    assert(t.subrange(0, l) =~= t);
}

/// Looks a key up among an object's members: absent, present once (with its
/// value), or repeated.
fn find_field<'a>(ms: &'a [(Vec<char>, JsonValue)], key: &[char]) -> (r: Result<
    Option<&'a JsonValue>,
    DecodeError,
>)
    ensures
        ({
            let vs = jv_member_views(ms@, 0);
            match r {
                Result::Ok(o) => match o {
                    Option::None => key_count(vs, key@, 0) == 0,
                    Option::Some(v) => key_count(vs, key@, 0) == 1 && field_val(vs, key@, 0) == v@,
                },
                Result::Err(e) => key_count(vs, key@, 0) >= 2 && e is InvalidMessage,
            }
        }),
{
    let ghost vs = jv_member_views(ms@, 0);
    proof {
        lemma_jv_member_views_index(ms@, 0);
    }
    let mut found: Option<&'a JsonValue> = None;
    let mut idx: usize = 0;
    while idx < ms.len()
        invariant
            0 <= idx <= ms@.len(),
            vs == jv_member_views(ms@, 0),
            vs.len() == ms@.len(),
            forall|k: int| 0 <= k < ms@.len() ==> #[trigger] vs[k] == (ms@[k].0@, jv_view(ms@[k].1)),
            match found {
                Option::None => key_count(vs, key@, 0) == key_count(vs, key@, idx as int)
                    && field_val(vs, key@, 0) == field_val(vs, key@, idx as int),
                Option::Some(v) => key_count(vs, key@, 0) == 1 + key_count(vs, key@, idx as int)
                    && field_val(vs, key@, 0) == v@,
            },
        decreases ms@.len() - idx,
    {
        let hit = chars_eq(ms[idx].0.as_slice(), key);
        proof {
            assert(vs[idx as int].0 == ms@[idx as int].0@);
        }
        if hit {
            match found {
                Option::None => {
                    found = Some(&ms[idx].1);
                },
                Option::Some(_) => {
                    proof {
                        lemma_key_count_nonneg(vs, key@, idx + 1 as int);
                    }
                    return Err(DecodeError::InvalidMessage);
                },
            }
        }
        idx = idx + 1;
    }
    Ok(found)
}

/// The checkpoint error named by a wire string, as [`error_of_string`]
/// classifies it.
fn error_from_string(t: &Vec<char>) -> (r: CheckpointError)
    ensures
        r@ == error_of_string(t@),
        !(r is UnexpectedResponse),
{
    let k1 = str_to_chars("KinesisClientLibDependencyException");
    let k2 = str_to_chars("ThrottlingException");
    let k3 = str_to_chars("InvalidStateException");
    let k4 = str_to_chars("ShutdownException");
    if chars_eq(t.as_slice(), k1.as_slice()) {
        CheckpointError::KinesisClientLibDependencyException
    } else if chars_eq(t.as_slice(), k2.as_slice()) {
        CheckpointError::ThrottlingException
    } else if chars_eq(t.as_slice(), k3.as_slice()) {
        CheckpointError::InvalidStateException
    } else if chars_eq(t.as_slice(), k4.as_slice()) {
        CheckpointError::ShutdownException
    } else {
        CheckpointError::Exception(chars_to_string(t))
    }
}

/// Reads one record out of its parsed JSON form. Accepts exactly the
/// documents that carry some record, and then returns that record.
fn decode_record(jv: &JsonValue) -> (r: Result<Record, DecodeError>)
    ensures
        r matches Ok(rec) ==> record_json_matches(jv@, rec@) && record_wf(rec@),
        forall|rv: RecordV| record_json_matches(jv@, rv) ==> (r matches Ok(rec) && rv == rec@),
        forall|rv: RecordV| record_canonical_matches(jv@, rv) ==> (r matches Ok(rec) && rv
            == rec@),
        r matches Err(e) ==> e is InvalidMessage,
{
    let ms = match jv {
        JsonValue::Obj(ms) => ms,
        _ => {
            return Err(DecodeError::InvalidMessage);
        },
    };
    let ghost vs = jv_member_views(ms@, 0);
    let k_data = str_to_chars("data");
    let k_pk = str_to_chars("partitionKey");
    let k_seq = str_to_chars("sequenceNumber");
    let k_sub = str_to_chars("subSequenceNumber");
    let k_ts = str_to_chars("approximateArrivalTimestamp");
    // data: a string holding base64 text
    let data_txt = match find_field(ms.as_slice(), k_data.as_slice()) {
        Err(e) => {
            return Err(e);
        },
        Ok(None) => {
            return Err(DecodeError::InvalidMessage);
        },
        Ok(Some(v)) => match v {
            JsonValue::Str(t) => t,
            _ => {
                return Err(DecodeError::InvalidMessage);
            },
        },
    };
    let data_str = chars_to_string(data_txt);
    let raw_data = match b64_decode(data_str.as_str()) {
        Some(b) => b,
        None => {
            return Err(DecodeError::InvalidMessage);
        },
    };
    // partitionKey, sequenceNumber: strings
    let pk_txt = match find_field(ms.as_slice(), k_pk.as_slice()) {
        Err(e) => {
            return Err(e);
        },
        Ok(None) => {
            return Err(DecodeError::InvalidMessage);
        },
        Ok(Some(v)) => match v {
            JsonValue::Str(t) => t,
            _ => {
                return Err(DecodeError::InvalidMessage);
            },
        },
    };
    let seq_txt = match find_field(ms.as_slice(), k_seq.as_slice()) {
        Err(e) => {
            return Err(e);
        },
        Ok(None) => {
            return Err(DecodeError::InvalidMessage);
        },
        Ok(Some(v)) => match v {
            JsonValue::Str(t) => t,
            _ => {
                return Err(DecodeError::InvalidMessage);
            },
        },
    };
    // subSequenceNumber: absent, null, or an unsigned 64-bit number
    let sub = match find_field(ms.as_slice(), k_sub.as_slice()) {
        Err(e) => {
            return Err(e);
        },
        Ok(None) => None,
        Ok(Some(v)) => match v {
            JsonValue::Null => None,
            JsonValue::Num(t) => match dec_to_u64(t.as_slice()) {
                Some(n) => Some(n),
                None => {
                    return Err(DecodeError::InvalidMessage);
                },
            },
            _ => {
                return Err(DecodeError::InvalidMessage);
            },
        },
    };
    // approximateArrivalTimestamp: one number token
    let ts_txt = match find_field(ms.as_slice(), k_ts.as_slice()) {
        Err(e) => {
            return Err(e);
        },
        Ok(None) => {
            return Err(DecodeError::InvalidMessage);
        },
        Ok(Some(v)) => match v {
            JsonValue::Num(t) => t,
            _ => {
                return Err(DecodeError::InvalidMessage);
            },
        },
    };
    match p_number_exec(ts_txt.as_slice(), 0) {
        Some(ee) if ee == ts_txt.len() => {
            proof {
                assert(ts_txt@.subrange(0, ts_txt@.len() as int) =~= ts_txt@);
            }
        },
        _ => {
            return Err(DecodeError::InvalidMessage);
        },
    }
    let rec = Record {
        raw_data,
        partition_key: chars_to_string(pk_txt),
        sequence_number: chars_to_string(seq_txt),
        sub_sequence_number: sub,
        approximate_arrival_timestamp: chars_to_string(ts_txt),
    };
    proof {
        assert(jv@ == Json::Obj(vs));
        assert(record_json_matches(jv@, rec@)) by {
            assert(field_val(vs, ("data")@, 0) == Json::Str(data_txt@));
            assert(crate::b64::b64_parse(data_txt@) == Some(rec@.raw_data));
        }
        assert forall|rv: RecordV| record_json_matches(jv@, rv) implies rv == rec@ by {
            assert(crate::b64::b64_parse(data_txt@) == Some(rv.raw_data));
            assert(rv.raw_data == rec@.raw_data);
            assert(rv.partition_key == rec@.partition_key);
            assert(rv.sequence_number == rec@.sequence_number);
            assert(rv.sub_sequence_number == rec@.sub_sequence_number);
            assert(rv.approximate_arrival_timestamp == rec@.approximate_arrival_timestamp);
        }
        assert forall|rv: RecordV| record_canonical_matches(jv@, rv) implies rv == rec@ by {
            assert(data_txt@ == crate::b64::b64_of(rv.raw_data));
            assert(rv.raw_data == rec@.raw_data);
            assert(rv.partition_key == rec@.partition_key);
            assert(rv.sequence_number == rec@.sequence_number);
            assert(rv.sub_sequence_number == rec@.sub_sequence_number);
            assert(rv.approximate_arrival_timestamp == rec@.approximate_arrival_timestamp);
        }
    }
    Ok(rec)
}

/// Reads one message out of its parsed JSON form: exactly the documents
/// that carry some message are accepted, and give that message back.
#[verifier::loop_isolation(false)]
fn decode_json_message(jv: &JsonValue) -> (r: Result<Message, DecodeError>)
    ensures
        r matches Ok(m) ==> message_wf(m@) && msg_json_matches(jv@, m@),
        forall|mv: MessageV| msg_json_matches(jv@, mv) ==> (r matches Ok(m2) && m2@ == mv),
        forall|mv: MessageV| msg_canonical_matches(jv@, mv) ==> (r matches Ok(m2) && m2@ == mv),
        r matches Err(e) ==> e is InvalidMessage,
{
    proof {
        reveal_strlit("initialize");
        reveal_strlit("processRecords");
        reveal_strlit("checkpoint");
        reveal_strlit("leaseLost");
        reveal_strlit("shardEnded");
        reveal_strlit("shutdownRequested");
        assert(("initialize")@.len() == 10 && ("initialize")@[0] == 'i');
        assert(("processRecords")@.len() == 14 && ("processRecords")@[0] == 'p');
        assert(("checkpoint")@.len() == 10 && ("checkpoint")@[0] == 'c');
        assert(("leaseLost")@.len() == 9 && ("leaseLost")@[0] == 'l');
        assert(("shardEnded")@.len() == 10 && ("shardEnded")@[0] == 's');
        assert(("shutdownRequested")@.len() == 17 && ("shutdownRequested")@[0] == 's');
        assert(("initialize")@ != ("processRecords")@);
        assert(("initialize")@ != ("checkpoint")@);
        assert(("initialize")@ != ("leaseLost")@);
        assert(("initialize")@ != ("shardEnded")@);
        assert(("initialize")@ != ("shutdownRequested")@);
        assert(("processRecords")@ != ("checkpoint")@);
        assert(("processRecords")@ != ("leaseLost")@);
        assert(("processRecords")@ != ("shardEnded")@);
        assert(("processRecords")@ != ("shutdownRequested")@);
        assert(("checkpoint")@ != ("leaseLost")@);
        assert(("checkpoint")@ != ("shardEnded")@);
        assert(("checkpoint")@ != ("shutdownRequested")@);
        assert(("leaseLost")@ != ("shardEnded")@);
        assert(("leaseLost")@ != ("shutdownRequested")@);
        assert(("shardEnded")@ != ("shutdownRequested")@);
    }
    let ms = match jv {
        JsonValue::Obj(ms) => ms,
        _ => {
            return Err(DecodeError::InvalidMessage);
        },
    };
    let ghost vs = jv_member_views(ms@, 0);
    let k_action = str_to_chars("action");
    let tag = match find_field(ms.as_slice(), k_action.as_slice()) {
        Err(e) => {
            return Err(e);
        },
        Ok(None) => {
            return Err(DecodeError::InvalidMessage);
        },
        Ok(Some(v)) => match v {
            JsonValue::Str(t) => t,
            _ => {
                return Err(DecodeError::InvalidMessage);
            },
        },
    };
    let t_init = str_to_chars("initialize");
    let t_proc = str_to_chars("processRecords");
    let t_ckpt = str_to_chars("checkpoint");
    let t_lease = str_to_chars("leaseLost");
    let t_ended = str_to_chars("shardEnded");
    let t_shut = str_to_chars("shutdownRequested");
    if chars_eq(tag.as_slice(), t_init.as_slice()) {
        let k_shard = str_to_chars("shardId");
        let shard = match find_field(ms.as_slice(), k_shard.as_slice()) {
            Err(e) => {
                return Err(e);
            },
            Ok(None) => {
                return Err(DecodeError::InvalidMessage);
            },
            Ok(Some(v)) => match v {
                JsonValue::Str(t) => t,
                _ => {
                    return Err(DecodeError::InvalidMessage);
                },
            },
        };
        let m = Message::Initialize { shard_id: chars_to_string(shard) };
        proof {
            assert(msg_json_matches(jv@, m@));
        }
        Ok(m)
    } else if chars_eq(tag.as_slice(), t_proc.as_slice()) {
        let k_records = str_to_chars("records");
        let elems = match find_field(ms.as_slice(), k_records.as_slice()) {
            Err(e) => {
                return Err(e);
            },
            Ok(None) => {
                return Err(DecodeError::InvalidMessage);
            },
            Ok(Some(v)) => match v {
                JsonValue::Arr(es) => es,
                _ => {
                    return Err(DecodeError::InvalidMessage);
                },
            },
        };
        let ghost evs = jv_views(elems@, 0);
        proof {
            lemma_jv_views_index(elems@, 0);
        }
        let mut recs: Vec<Record> = Vec::new();
        let mut i: usize = 0;
        while i < elems.len()
            invariant
                0 <= i <= elems@.len(),
                recs@.len() == i,
                evs == jv_views(elems@, 0),
                evs.len() == elems@.len(),
                forall|k: int| 0 <= k < elems@.len() ==> #[trigger] evs[k] == jv_view(elems@[k]),
                forall|k: int|
                    0 <= k < i ==> record_json_matches(#[trigger] evs[k], recs@[k]@) && record_wf(
                        recs@[k]@,
                    ),
                forall|k: int, rv: RecordV|
                    0 <= k < i && #[trigger] record_json_matches(evs[k], rv) ==> rv == recs@[k]@,
                forall|k: int, rv: RecordV|
                    0 <= k < i && #[trigger] record_canonical_matches(evs[k], rv) ==> rv
                        == recs@[k]@,
            decreases elems@.len() - i,
        {
            match decode_record(&elems[i]) {
                Ok(rec) => {
                    proof {
                        assert(elems@[i as int]@ == evs[i as int]);
                    }
                    recs.push(rec);
                },
                Err(e) => {
                    proof {
                        assert(elems@[i as int]@ == evs[i as int]);
                        assert forall|mv: MessageV| msg_json_matches(jv@, mv) implies false by {
                            match mv {
                                MessageV::ProcessRecords { records } => {
                                    assert(record_json_matches(
                                        elems@[i as int]@,
                                        records[i as int],
                                    ));
                                },
                                _ => {},
                            }
                        }
                        assert forall|mv: MessageV| msg_canonical_matches(jv@, mv) implies false by {
                            match mv {
                                MessageV::ProcessRecords { records } => {
                                    assert(record_canonical_matches(
                                        elems@[i as int]@,
                                        records[i as int],
                                    ));
                                },
                                _ => {},
                            }
                        }
                    }
                    return Err(e);
                },
            }
            i = i + 1;
        }
        let m = Message::ProcessRecords { records: recs };
        proof {
            let rvs = m@->ProcessRecords_records;
            assert(rvs.len() == recs@.len());
            assert forall|k: int| 0 <= k < rvs.len() implies record_json_matches(
                #[trigger] evs[k],
                rvs[k],
            ) && record_wf(rvs[k]) by {
                assert(record_json_matches(evs[k], recs@[k]@));
                assert(rvs[k] == recs@[k]@);
            }
            assert forall|k: int| 0 <= k < rvs.len() implies record_wf(#[trigger] rvs[k]) by {
                assert(record_json_matches(evs[k], rvs[k]));
            }
            assert(message_wf(m@));
            assert(msg_json_matches(jv@, m@));
            assert forall|mv: MessageV| msg_json_matches(jv@, mv) implies mv == m@ by {
                match mv {
                    MessageV::ProcessRecords { records } => {
                        assert forall|k: int| 0 <= k < records.len() implies records[k]
                            == rvs[k] by {
                            assert(record_json_matches(evs[k], records[k]));
                        }
                        assert(records =~= rvs);
                    },
                    _ => {},
                }
            }
            assert forall|mv: MessageV| msg_canonical_matches(jv@, mv) implies mv == m@ by {
                match mv {
                    MessageV::ProcessRecords { records } => {
                        assert forall|k: int| 0 <= k < records.len() implies records[k]
                            == rvs[k] by {
                            assert(record_canonical_matches(evs[k], records[k]));
                        }
                        assert(records =~= rvs);
                    },
                    _ => {},
                }
            }
        }
        Ok(m)
    } else if chars_eq(tag.as_slice(), t_ckpt.as_slice()) {
        let k_ckpt = str_to_chars("checkpoint");
        let cp: Option<String> = match find_field(ms.as_slice(), k_ckpt.as_slice()) {
            Err(e) => {
                return Err(e);
            },
            Ok(None) => None,
            Ok(Some(v)) => match v {
                JsonValue::Null => None,
                JsonValue::Str(t) => Some(chars_to_string(t)),
                _ => {
                    return Err(DecodeError::InvalidMessage);
                },
            },
        };
        let k_err = str_to_chars("error");
        let err: Option<CheckpointError> = match find_field(ms.as_slice(), k_err.as_slice()) {
            Err(e) => {
                return Err(e);
            },
            Ok(None) => None,
            Ok(Some(v)) => match v {
                JsonValue::Null => None,
                JsonValue::Str(t) => Some(error_from_string(t)),
                _ => {
                    return Err(DecodeError::InvalidMessage);
                },
            },
        };
        let m = Message::Checkpoint { checkpoint: cp, error: err };
        proof {
            assert(message_wf(m@)) by {
                match err {
                    Option::Some(e) => {
                        assert(error_wf(e@));
                    },
                    Option::None => {},
                }
            }
            assert(msg_json_matches(jv@, m@));
        }
        Ok(m)
    } else if chars_eq(tag.as_slice(), t_lease.as_slice()) {
        let m = Message::LeaseLost;
        proof {
            assert(msg_json_matches(jv@, m@));
        }
        Ok(m)
    } else if chars_eq(tag.as_slice(), t_ended.as_slice()) {
        let k_ckpt = str_to_chars("checkpoint");
        let cp = match find_field(ms.as_slice(), k_ckpt.as_slice()) {
            Err(e) => {
                return Err(e);
            },
            Ok(None) => {
                return Err(DecodeError::InvalidMessage);
            },
            Ok(Some(v)) => match v {
                JsonValue::Str(t) => t,
                _ => {
                    return Err(DecodeError::InvalidMessage);
                },
            },
        };
        let m = Message::ShardEnded { checkpoint: chars_to_string(cp) };
        proof {
            assert(msg_json_matches(jv@, m@));
        }
        Ok(m)
    } else if chars_eq(tag.as_slice(), t_shut.as_slice()) {
        let k_ckpt = str_to_chars("checkpoint");
        let cp = match find_field(ms.as_slice(), k_ckpt.as_slice()) {
            Err(e) => {
                return Err(e);
            },
            Ok(None) => {
                return Err(DecodeError::InvalidMessage);
            },
            Ok(Some(v)) => match v {
                JsonValue::Str(t) => t,
                _ => {
                    return Err(DecodeError::InvalidMessage);
                },
            },
        };
        let m = Message::ShutdownRequested { checkpoint: chars_to_string(cp) };
        proof {
            assert(msg_json_matches(jv@, m@));
        }
        Ok(m)
    } else {
        proof {
            assert forall|mv: MessageV| msg_json_matches(jv@, mv) implies false by {
                assert(action_name(mv) == tag@);
            }
        }
        Err(DecodeError::InvalidMessage)
    }
}

/// Everything but the payload of the canonical JSON form of a record
/// matches the record, and the form is well-formed JSON.
proof fn lemma_json_of_record_canonical(rv: RecordV)
    requires
        record_wf(rv),
    ensures
        record_canonical_matches(json_of_record(rv), rv),
        wf_json(json_of_record(rv)),
{
    reveal_strlit("data");
    reveal_strlit("partitionKey");
    reveal_strlit("sequenceNumber");
    reveal_strlit("subSequenceNumber");
    reveal_strlit("approximateArrivalTimestamp");
    assert(("data")@.len() == 4);
    assert(("partitionKey")@.len() == 12);
    assert(("sequenceNumber")@.len() == 14);
    assert(("subSequenceNumber")@.len() == 17);
    assert(("approximateArrivalTimestamp")@.len() == 27);
    let j = json_of_record(rv);
    let cms = j->Obj_0;
    assert(cms.len() == 5);
    assert(cms[0] == (("data")@, Json::Str(b64_of(rv.raw_data))));
    assert(cms[1] == (("partitionKey")@, Json::Str(rv.partition_key)));
    assert(cms[2] == (("sequenceNumber")@, Json::Str(rv.sequence_number)));
    assert(cms[3] == (("subSequenceNumber")@, json_opt_u64(rv.sub_sequence_number)));
    assert(cms[4] == (("approximateArrivalTimestamp")@, Json::Num(
        rv.approximate_arrival_timestamp,
    )));
    lemma_lookup_from(cms, ("data")@, 0, 0);
    lemma_lookup_from(cms, ("partitionKey")@, 1, 0);
    lemma_lookup_from(cms, ("sequenceNumber")@, 2, 0);
    lemma_lookup_from(cms, ("subSequenceNumber")@, 3, 0);
    lemma_lookup_from(cms, ("approximateArrivalTimestamp")@, 4, 0);
    match rv.sub_sequence_number {
        Option::Some(n) => {
            lemma_dec_str_number_text(n);
        },
        Option::None => {},
    }
    assert(wf_json(j)) by {
        assert(wf_members(cms, 5));
        assert(wf_json(cms[4].1)) by {
            match rv.sub_sequence_number {
                Option::Some(n) => {
                    lemma_dec_str_number_text(n);
                },
                Option::None => {},
            }
        }
        assert(wf_members(cms, 4));
        assert(wf_json(cms[3].1)) by {
            match rv.sub_sequence_number {
                Option::Some(n) => {
                    lemma_dec_str_number_text(n);
                },
                Option::None => {},
            }
        }
        assert(wf_members(cms, 3));
        assert(wf_json(Json::Str(rv.sequence_number)));
        assert(cms[2].1 == Json::Str(rv.sequence_number));
        assert(wf_json(cms[2].1));
        assert(wf_members(cms, 2));
        assert(wf_json(cms[1].1));
        assert(wf_members(cms, 1));
        assert(wf_json(cms[0].1));
        assert(wf_members(cms, 0));
    }
}

proof fn lemma_wf_elems_from_forall(es: Seq<Json>, i: int)
    requires
        0 <= i <= es.len(),
        forall|k: int| i <= k < es.len() ==> wf_json(#[trigger] es[k]),
    ensures
        wf_elems(es, i),
    decreases es.len() - i,
{
    if i < es.len() {
        lemma_wf_elems_from_forall(es, i + 1);
    }
}

/// The canonical JSON form of a wire-valid message matches the message and
/// is well-formed JSON.
pub proof fn lemma_json_of_message_canonical(m: MessageV)
    requires
        message_wf(m),
    ensures
        msg_canonical_matches(json_of_message(m), m),
        wf_json(json_of_message(m)),
{
    reveal_strlit("action");
    reveal_strlit("shardId");
    reveal_strlit("records");
    reveal_strlit("checkpoint");
    reveal_strlit("error");
    assert(("action")@.len() == 6);
    assert(("shardId")@.len() == 7 && ("shardId")@[0] == 's');
    assert(("records")@.len() == 7 && ("records")@[0] == 'r');
    assert(("checkpoint")@.len() == 10);
    assert(("error")@.len() == 5);
    let j = json_of_message(m);
    let cms = j->Obj_0;
    match m {
        MessageV::Initialize { shard_id } => {
            assert(cms[0] == (("action")@, Json::Str(("initialize")@)));
            assert(cms[1] == (("shardId")@, Json::Str(shard_id)));
            lemma_lookup_from(cms, ("action")@, 0, 0);
            lemma_lookup_from(cms, ("shardId")@, 1, 0);
            assert(wf_members(cms, 2));
            assert(wf_json(cms[1].1));
            assert(wf_members(cms, 1));
            assert(wf_json(cms[0].1));
            assert(wf_members(cms, 0));
        },
        MessageV::ProcessRecords { records } => {
            assert(cms[0] == (("action")@, Json::Str(("processRecords")@)));
            assert(cms[1].0 == ("records")@);
            lemma_lookup_from(cms, ("action")@, 0, 0);
            lemma_lookup_from(cms, ("records")@, 1, 0);
            let elems = records.map_values(|r: RecordV| json_of_record(r));
            assert(elems.len() == records.len());
            assert forall|i: int| 0 <= i < records.len() implies record_canonical_matches(
                #[trigger] elems[i],
                records[i],
            ) by {
                assert(record_wf(records[i]));
                lemma_json_of_record_canonical(records[i]);
            }
            assert(wf_elems(elems, 0)) by {
                assert forall|k: int| 0 <= k < elems.len() implies wf_json(#[trigger] elems[k]) by {
                    assert(record_wf(records[k]));
                    lemma_json_of_record_canonical(records[k]);
                }
                lemma_wf_elems_from_forall(elems, 0);
            }
            assert(wf_members(cms, 2));
            assert(wf_json(cms[1].1));
            assert(wf_members(cms, 1));
            assert(wf_json(cms[0].1));
            assert(wf_members(cms, 0));
        },
        MessageV::Checkpoint { checkpoint, error } => {
            assert(cms[0] == (("action")@, Json::Str(("checkpoint")@)));
            assert(cms[1] == (("checkpoint")@, json_opt_str(checkpoint)));
            assert(cms[2].0 == ("error")@);
            lemma_lookup_from(cms, ("action")@, 0, 0);
            lemma_lookup_from(cms, ("checkpoint")@, 1, 0);
            lemma_lookup_from(cms, ("error")@, 2, 0);
            match error {
                Option::Some(e) => {
                    reveal_strlit("KinesisClientLibDependencyException");
                    reveal_strlit("ThrottlingException");
                    reveal_strlit("InvalidStateException");
                    reveal_strlit("ShutdownException");
                    assert(("KinesisClientLibDependencyException")@.len() == 35);
                    assert(("ThrottlingException")@.len() == 19);
                    assert(("InvalidStateException")@.len() == 21);
                    assert(("ShutdownException")@.len() == 17);
                    assert(error_of_string(wire_error_string(e)) == e);
                },
                Option::None => {},
            }
            assert(wf_members(cms, 3));
            assert(wf_json(cms[2].1));
            assert(wf_members(cms, 2));
            assert(wf_json(cms[1].1));
            assert(wf_members(cms, 1));
            assert(wf_json(cms[0].1));
            assert(wf_members(cms, 0));
        },
        MessageV::LeaseLost => {
            assert(cms[0] == (("action")@, Json::Str(("leaseLost")@)));
            lemma_lookup_from(cms, ("action")@, 0, 0);
            assert(wf_members(cms, 1));
            assert(wf_json(cms[0].1));
            assert(wf_members(cms, 0));
        },
        MessageV::ShardEnded { checkpoint } => {
            assert(cms[0] == (("action")@, Json::Str(("shardEnded")@)));
            assert(cms[1] == (("checkpoint")@, Json::Str(checkpoint)));
            lemma_lookup_from(cms, ("action")@, 0, 0);
            lemma_lookup_from(cms, ("checkpoint")@, 1, 0);
            assert(wf_members(cms, 2));
            assert(wf_json(cms[1].1));
            assert(wf_members(cms, 1));
            assert(wf_json(cms[0].1));
            assert(wf_members(cms, 0));
        },
        MessageV::ShutdownRequested { checkpoint } => {
            assert(cms[0] == (("action")@, Json::Str(("shutdownRequested")@)));
            assert(cms[1] == (("checkpoint")@, Json::Str(checkpoint)));
            lemma_lookup_from(cms, ("action")@, 0, 0);
            lemma_lookup_from(cms, ("checkpoint")@, 1, 0);
            assert(wf_members(cms, 2));
            assert(wf_json(cms[1].1));
            assert(wf_members(cms, 1));
            assert(wf_json(cms[0].1));
            assert(wf_members(cms, 0));
        },
    }
}

/// Round trip at the wire level: the canonical line of a wire-valid message
/// parses back to exactly the message's JSON form, which carries exactly
/// that message.
pub proof fn lemma_encode_line_parses(m: MessageV)
    requires
        message_wf(m),
    ensures
        parse_json(spec_encode_message(m)) == Some(json_of_message(m)),
        msg_canonical_matches(json_of_message(m), m),
{
    lemma_json_of_message_canonical(m);
    reveal_strlit("\n");
    assert(crate::text::is_ws_char('\n'));
    lemma_parse_render_json(json_of_message(m), seq!['\n']);
}

/// The parsed JSON of this line carries exactly this message.
pub open spec fn line_carries(line: Seq<char>, mv: MessageV) -> bool {
    parse_json(line) matches Some(j) && msg_json_matches(j, mv)
}

/// Reads one protocol line. Accepts exactly the lines whose JSON carries
/// some message, and returns that message; in particular it inverts
/// [`encode_message`] on every wire-valid message.
pub fn decode_message(line: &str) -> (r: Result<Message, DecodeError>)
    ensures
        r matches Ok(m) ==> message_wf(m@) && line_carries(line@, m@),
        forall|mv: MessageV| #[trigger]
            line_carries(line@, mv) ==> (r matches Ok(m2) && m2@ == mv),
        forall|mv: MessageV|
            message_wf(mv) && line@ == #[trigger] spec_encode_message(mv) ==> (r matches Ok(m2)
                && m2@ == mv),
        r matches Err(e) ==> (e is MalformedJson <==> parse_json(line@) is None),
{
    let cs = str_to_chars(line);
    match parse_json_chars(cs.as_slice()) {
        Option::None => {
            proof {
                assert forall|mv: MessageV|
                    message_wf(mv) && line@ == #[trigger] spec_encode_message(mv) implies false by {
                    lemma_encode_line_parses(mv);
                }
            }
            Err(DecodeError::MalformedJson)
        },
        Option::Some(jv) => {
            let r = decode_json_message(&jv);
            proof {
                assert forall|mv: MessageV| #[trigger]
                    line_carries(line@, mv) implies (r matches Ok(m2) && m2@ == mv) by {
                    assert(msg_json_matches(jv@, mv));
                }
                assert forall|mv: MessageV|
                    message_wf(mv) && line@ == #[trigger] spec_encode_message(mv) implies (
                r matches Ok(m2) && m2@ == mv) by {
                    lemma_encode_line_parses(mv);
                    assert(jv@ == json_of_message(mv));
                    assert(msg_canonical_matches(jv@, mv));
                }
            }
            match r {
                Ok(m) => Ok(m),
                Err(_) => Err(DecodeError::InvalidMessage),
            }
        },
    }
}

/// Builds the canonical JSON form of one record.
fn json_of_record_exec(r: &Record) -> (jv: JsonValue)
    requires
        r.raw_data@.len() <= usize::MAX / 2,
    ensures
        jv@ == json_of_record(r@),
{
    let mut ms: Vec<(Vec<char>, JsonValue)> = Vec::new();
    let data_txt = b64_encode(r.raw_data.as_slice());
    ms.push((str_to_chars("data"), JsonValue::Str(str_to_chars(data_txt.as_str()))));
    ms.push(
        (str_to_chars("partitionKey"), JsonValue::Str(str_to_chars(r.partition_key.as_str()))),
    );
    ms.push(
        (str_to_chars("sequenceNumber"), JsonValue::Str(str_to_chars(r.sequence_number.as_str()))),
    );
    let sub = match r.sub_sequence_number {
        Option::Some(n) => JsonValue::Num(u64_to_dec(n)),
        Option::None => JsonValue::Null,
    };
    ms.push((str_to_chars("subSequenceNumber"), sub));
    ms.push(
        (
            str_to_chars("approximateArrivalTimestamp"),
            JsonValue::Num(str_to_chars(r.approximate_arrival_timestamp.as_str())),
        ),
    );
    let jv = JsonValue::Obj(ms);
    proof {
        let vs = jv_member_views(jv->Obj_0@, 0);
        lemma_jv_member_views_index(jv->Obj_0@, 0);
        let cms = json_of_record(r@)->Obj_0;
        assert(vs =~~= cms);
    }
    jv
}

/// Builds the canonical JSON form of one message.
fn json_of_message_exec(m: &Message) -> (jv: JsonValue)
    requires
        crate::messages::message_sizes_ok(m@),
    ensures
        jv@ == json_of_message(m@),
{
    match m {
        Message::Initialize { shard_id } => {
            let mut ms: Vec<(Vec<char>, JsonValue)> = Vec::new();
            ms.push((str_to_chars("action"), JsonValue::Str(str_to_chars("initialize"))));
            ms.push((str_to_chars("shardId"), JsonValue::Str(str_to_chars(shard_id.as_str()))));
            let jv = JsonValue::Obj(ms);
            proof {
                lemma_jv_member_views_index(jv->Obj_0@, 0);
                assert(jv_member_views(jv->Obj_0@, 0) =~~= json_of_message(m@)->Obj_0);
            }
            jv
        },
        Message::ProcessRecords { records } => {
            let ghost rvs = m@->ProcessRecords_records;
            let mut elems: Vec<JsonValue> = Vec::new();
            let mut i: usize = 0;
            while i < records.len()
                invariant
                    0 <= i <= records@.len(),
                    elems@.len() == i,
                    rvs == m@->ProcessRecords_records,
                    m@ == (MessageV::ProcessRecords { records: rvs }),
                    rvs.len() == records@.len(),
                    forall|k: int| 0 <= k < records@.len() ==> #[trigger] rvs[k] == records@[k]@,
                    crate::messages::message_sizes_ok(m@),
                    forall|k: int| 0 <= k < i ==> #[trigger] elems@[k]@ == json_of_record(rvs[k]),
                decreases records@.len() - i,
            {
                proof {
                    assert(rvs[i as int].raw_data.len() <= usize::MAX / 2);
                }
                let jr = json_of_record_exec(&records[i]);
                elems.push(jr);
                i = i + 1;
            }
            let mut ms: Vec<(Vec<char>, JsonValue)> = Vec::new();
            ms.push((str_to_chars("action"), JsonValue::Str(str_to_chars("processRecords"))));
            ms.push((str_to_chars("records"), JsonValue::Arr(elems)));
            let jv = JsonValue::Obj(ms);
            proof {
                lemma_jv_member_views_index(jv->Obj_0@, 0);
                let es = jv->Obj_0@[1].1->Arr_0;
                lemma_jv_views_index(es@, 0);
                let target = rvs.map_values(|r: RecordV| json_of_record(r));
                assert(es@.len() == rvs.len());
                assert forall|k: int| 0 <= k < rvs.len() implies jv_views(es@, 0)[k]
                    == target[k] by {
                    assert(jv_views(es@, 0)[k] == jv_view(es@[k]));
                    assert(es@[k]@ == json_of_record(rvs[k]));
                }
                assert(jv_views(es@, 0) =~= target);
                assert(jv_member_views(jv->Obj_0@, 0) =~~= json_of_message(m@)->Obj_0);
            }
            jv
        },
        Message::Checkpoint { checkpoint, error } => {
            let mut ms: Vec<(Vec<char>, JsonValue)> = Vec::new();
            ms.push((str_to_chars("action"), JsonValue::Str(str_to_chars("checkpoint"))));
            let cp = match checkpoint {
                Option::Some(c) => JsonValue::Str(str_to_chars(c.as_str())),
                Option::None => JsonValue::Null,
            };
            ms.push((str_to_chars("checkpoint"), cp));
            let ev = match error {
                Option::Some(e) => JsonValue::Str(str_to_chars(e.describe().as_str())),
                Option::None => JsonValue::Null,
            };
            ms.push((str_to_chars("error"), ev));
            let jv = JsonValue::Obj(ms);
            proof {
                lemma_jv_member_views_index(jv->Obj_0@, 0);
                assert(jv_member_views(jv->Obj_0@, 0) =~~= json_of_message(m@)->Obj_0);
            }
            jv
        },
        Message::LeaseLost => {
            let mut ms: Vec<(Vec<char>, JsonValue)> = Vec::new();
            ms.push((str_to_chars("action"), JsonValue::Str(str_to_chars("leaseLost"))));
            let jv = JsonValue::Obj(ms);
            proof {
                lemma_jv_member_views_index(jv->Obj_0@, 0);
                assert(jv_member_views(jv->Obj_0@, 0) =~~= json_of_message(m@)->Obj_0);
            }
            jv
        },
        Message::ShardEnded { checkpoint } => {
            let mut ms: Vec<(Vec<char>, JsonValue)> = Vec::new();
            ms.push((str_to_chars("action"), JsonValue::Str(str_to_chars("shardEnded"))));
            ms.push((str_to_chars("checkpoint"), JsonValue::Str(str_to_chars(checkpoint.as_str()))));
            let jv = JsonValue::Obj(ms);
            proof {
                lemma_jv_member_views_index(jv->Obj_0@, 0);
                assert(jv_member_views(jv->Obj_0@, 0) =~~= json_of_message(m@)->Obj_0);
            }
            jv
        },
        Message::ShutdownRequested { checkpoint } => {
            let mut ms: Vec<(Vec<char>, JsonValue)> = Vec::new();
            ms.push((str_to_chars("action"), JsonValue::Str(str_to_chars("shutdownRequested"))));
            ms.push((str_to_chars("checkpoint"), JsonValue::Str(str_to_chars(checkpoint.as_str()))));
            let jv = JsonValue::Obj(ms);
            proof {
                lemma_jv_member_views_index(jv->Obj_0@, 0);
                assert(jv_member_views(jv->Obj_0@, 0) =~~= json_of_message(m@)->Obj_0);
            }
            jv
        },
    }
}

/// Writes the canonical line of a message: its JSON form in canonical
/// rendering, terminated by one newline.
pub fn encode_message(m: &Message) -> (r: String)
    requires
        crate::messages::message_sizes_ok(m@),
    ensures
        r@ == spec_encode_message(m@),
{
    let jv = json_of_message_exec(m);
    let mut cs = render_json_chars(&jv);
    cs.push('\n');
    proof {
        assert(cs@ =~= render_json(json_of_message(m@)) + seq!['\n']);
    }
    chars_to_string(&cs)
}

} // verus!
