//! The protocol's messages: the six action kinds, their mathematical models,
//! and what their JSON form looks like on the wire.

use vstd::prelude::*;

use crate::b64::b64_of;
use crate::json::{is_number_text, render_json, wf_elems, wf_json, wf_members, Json};
use crate::text::{all_digits, dec_str, dec_val, is_digit_char, lemma_dec_str_val};

verus! {

/// The retry classification table for checkpoint failures: only failures of
/// the daemon's own dependencies and throttling are worth retrying.
#[derive(Debug, PartialEq, Eq)]
pub enum CheckpointError {
    /// The daemon had trouble talking to its dependencies (stream reads,
    /// checkpoint table writes, metrics).
    KinesisClientLibDependencyException,
    /// A service throttled the daemon (for example while storing a
    /// checkpoint).
    ThrottlingException,
    /// The daemon's internal state is broken (for example its lease table is
    /// missing).
    InvalidStateException,
    /// The record processor was already shut down when it tried to
    /// checkpoint.
    ShutdownException,
    /// The daemon answered a checkpoint request with something that is not a
    /// checkpoint response.
    UnexpectedResponse,
    /// Any other failure, carrying the daemon's error string.
    Exception(String),
}

/// The model of a [`CheckpointError`].
pub enum CheckpointErrorV {
    KinesisClientLibDependencyException,
    ThrottlingException,
    InvalidStateException,
    ShutdownException,
    UnexpectedResponse,
    Exception(Seq<char>),
}

impl View for CheckpointError {
    type V = CheckpointErrorV;

    open spec fn view(&self) -> CheckpointErrorV {
        match self {
            CheckpointError::KinesisClientLibDependencyException => CheckpointErrorV::KinesisClientLibDependencyException,
            CheckpointError::ThrottlingException => CheckpointErrorV::ThrottlingException,
            CheckpointError::InvalidStateException => CheckpointErrorV::InvalidStateException,
            CheckpointError::ShutdownException => CheckpointErrorV::ShutdownException,
            CheckpointError::UnexpectedResponse => CheckpointErrorV::UnexpectedResponse,
            CheckpointError::Exception(msg) => CheckpointErrorV::Exception(msg@),
        }
    }
}

impl CheckpointError {
    /// Whether a failed checkpoint may be retried: true exactly for
    /// dependency trouble and throttling.
    pub fn is_retryable(&self) -> (r: bool)
        ensures
            r == (self is KinesisClientLibDependencyException || self is ThrottlingException),
    {
        match self {
            CheckpointError::KinesisClientLibDependencyException => true,
            CheckpointError::ThrottlingException => true,
            _ => false,
        }
    }

    /// The error's wire string: the name the daemon uses for it, or the
    /// carried message for the catch-all.
    pub fn describe(&self) -> (r: String)
        ensures
            r@ == wire_error_string(self@),
    {
        match self {
            CheckpointError::KinesisClientLibDependencyException => (
            "KinesisClientLibDependencyException").to_owned(),
            CheckpointError::ThrottlingException => ("ThrottlingException").to_owned(),
            CheckpointError::InvalidStateException => ("InvalidStateException").to_owned(),
            CheckpointError::ShutdownException => ("ShutdownException").to_owned(),
            CheckpointError::UnexpectedResponse => ("UnexpectedResponse").to_owned(),
            CheckpointError::Exception(msg) => msg.as_str().to_owned(),
        }
    }
}

/// One stream record of a `processRecords` batch. The sequence number is
/// decimal text wider than any machine integer and stays text; the arrival
/// timestamp is kept as the exact number text the wire carried.
#[derive(Clone, Debug, PartialEq)]
pub struct Record {
    pub raw_data: Vec<u8>,
    pub partition_key: String,
    pub sequence_number: String,
    pub sub_sequence_number: Option<u64>,
    pub approximate_arrival_timestamp: String,
}

/// The model of a [`Record`].
pub struct RecordV {
    pub raw_data: Seq<u8>,
    pub partition_key: Seq<char>,
    pub sequence_number: Seq<char>,
    pub sub_sequence_number: Option<u64>,
    pub approximate_arrival_timestamp: Seq<char>,
}

/// The models of a batch of records, in order.
pub open spec fn records_view(rs: Seq<Record>) -> Seq<RecordV> {
    rs.map_values(|r: Record| r@)
}

impl View for Record {
    type V = RecordV;

    open spec fn view(&self) -> RecordV {
        RecordV {
            raw_data: self.raw_data@,
            partition_key: self.partition_key@,
            sequence_number: self.sequence_number@,
            sub_sequence_number: self.sub_sequence_number,
            approximate_arrival_timestamp: self.approximate_arrival_timestamp@,
        }
    }
}

/// One incoming message of the line protocol, discriminated on the wire by
/// its `action` field.
#[derive(Debug, PartialEq)]
pub enum Message {
    Initialize { shard_id: String },
    ProcessRecords { records: Vec<Record> },
    Checkpoint { checkpoint: Option<String>, error: Option<CheckpointError> },
    LeaseLost,
    ShardEnded { checkpoint: String },
    ShutdownRequested { checkpoint: String },
}

/// The model of a [`Message`].
pub enum MessageV {
    Initialize { shard_id: Seq<char> },
    ProcessRecords { records: Seq<RecordV> },
    Checkpoint { checkpoint: Option<Seq<char>>, error: Option<CheckpointErrorV> },
    LeaseLost,
    ShardEnded { checkpoint: Seq<char> },
    ShutdownRequested { checkpoint: Seq<char> },
}

impl View for Message {
    type V = MessageV;

    open spec fn view(&self) -> MessageV {
        match self {
            Message::Initialize { shard_id } => MessageV::Initialize { shard_id: shard_id@ },
            Message::ProcessRecords { records } => MessageV::ProcessRecords {
                records: records_view(records@),
            },
            Message::Checkpoint { checkpoint, error } => MessageV::Checkpoint {
                checkpoint: match checkpoint {
                    Option::Some(c) => Some(c@),
                    Option::None => None,
                },
                error: match error {
                    Option::Some(e) => Some(e@),
                    Option::None => None,
                },
            },
            Message::LeaseLost => MessageV::LeaseLost,
            Message::ShardEnded { checkpoint } => MessageV::ShardEnded { checkpoint: checkpoint@ },
            Message::ShutdownRequested { checkpoint } => MessageV::ShutdownRequested {
                checkpoint: checkpoint@,
            },
        }
    }
}

// ---------------------------------------------------------------------------
// Validity
// ---------------------------------------------------------------------------
/// The wire names of the known checkpoint failures.
pub open spec fn is_reserved_error_string(t: Seq<char>) -> bool {
    ||| t == "KinesisClientLibDependencyException"@
    ||| t == "ThrottlingException"@
    ||| t == "InvalidStateException"@
    ||| t == "ShutdownException"@
}

/// A checkpoint error as it may appear on the wire: the protocol violation
/// never travels, and the catch-all never shadows a known name.
pub open spec fn error_wf(e: CheckpointErrorV) -> bool {
    match e {
        CheckpointErrorV::UnexpectedResponse => false,
        CheckpointErrorV::Exception(t) => !is_reserved_error_string(t),
        _ => true,
    }
}

/// A record whose timestamp text is one well-formed number token.
pub open spec fn record_wf(r: RecordV) -> bool {
    is_number_text(r.approximate_arrival_timestamp)
}

/// Record payloads small enough for the base64 writer's output-size
/// computation; a machine limit, not a protocol rule.
pub open spec fn message_sizes_ok(m: MessageV) -> bool {
    match m {
        MessageV::ProcessRecords { records } => forall|i: int|
            0 <= i < records.len() ==> (#[trigger] records[i]).raw_data.len() <= usize::MAX / 2,
        _ => true,
    }
}

/// A message as it can stand on the wire.
pub open spec fn message_wf(m: MessageV) -> bool {
    match m {
        MessageV::ProcessRecords { records } => forall|i: int|
            0 <= i < records.len() ==> record_wf(#[trigger] records[i]),
        MessageV::Checkpoint { checkpoint, error } => match error {
            Option::Some(e) => error_wf(e),
            Option::None => true,
        },
        _ => true,
    }
}

// ---------------------------------------------------------------------------
// The canonical JSON form
// ---------------------------------------------------------------------------
/// The wire string of a checkpoint error.
pub open spec fn wire_error_string(e: CheckpointErrorV) -> Seq<char> {
    match e {
        CheckpointErrorV::KinesisClientLibDependencyException => (
        "KinesisClientLibDependencyException")@,
        CheckpointErrorV::ThrottlingException => ("ThrottlingException")@,
        CheckpointErrorV::InvalidStateException => ("InvalidStateException")@,
        CheckpointErrorV::ShutdownException => ("ShutdownException")@,
        CheckpointErrorV::UnexpectedResponse => ("UnexpectedResponse")@,
        CheckpointErrorV::Exception(t) => t,
    }
}

/// The checkpoint error a wire string names: one of the four known failures,
/// or the catch-all carrying the string itself.
pub open spec fn error_of_string(t: Seq<char>) -> CheckpointErrorV {
    if t == "KinesisClientLibDependencyException"@ {
        CheckpointErrorV::KinesisClientLibDependencyException
    } else if t == "ThrottlingException"@ {
        CheckpointErrorV::ThrottlingException
    } else if t == "InvalidStateException"@ {
        CheckpointErrorV::InvalidStateException
    } else if t == "ShutdownException"@ {
        CheckpointErrorV::ShutdownException
    } else {
        CheckpointErrorV::Exception(t)
    }
}

/// An optional value, written as `null` when absent.
pub open spec fn json_opt_str(o: Option<Seq<char>>) -> Json {
    match o {
        Option::Some(t) => Json::Str(t),
        Option::None => Json::Null,
    }
}

/// An optional unsigned number, written as `null` when absent.
pub open spec fn json_opt_u64(o: Option<u64>) -> Json {
    match o {
        Option::Some(n) => Json::Num(dec_str(n as nat)),
        Option::None => Json::Null,
    }
}

/// The canonical JSON form of one record.
pub open spec fn json_of_record(r: RecordV) -> Json {
    Json::Obj(
        seq![
            (("data")@, Json::Str(b64_of(r.raw_data))),
            (("partitionKey")@, Json::Str(r.partition_key)),
            (("sequenceNumber")@, Json::Str(r.sequence_number)),
            (("subSequenceNumber")@, json_opt_u64(r.sub_sequence_number)),
            (("approximateArrivalTimestamp")@, Json::Num(r.approximate_arrival_timestamp)),
        ],
    )
}

/// The wire tag of a message.
pub open spec fn action_name(m: MessageV) -> Seq<char> {
    match m {
        MessageV::Initialize { .. } => ("initialize")@,
        MessageV::ProcessRecords { .. } => ("processRecords")@,
        MessageV::Checkpoint { .. } => ("checkpoint")@,
        MessageV::LeaseLost => ("leaseLost")@,
        MessageV::ShardEnded { .. } => ("shardEnded")@,
        MessageV::ShutdownRequested { .. } => ("shutdownRequested")@,
    }
}

/// The canonical JSON form of one message.
pub open spec fn json_of_message(m: MessageV) -> Json {
    match m {
        MessageV::Initialize { shard_id } => Json::Obj(
            seq![
                (("action")@, Json::Str(("initialize")@)),
                (("shardId")@, Json::Str(shard_id)),
            ],
        ),
        MessageV::ProcessRecords { records } => Json::Obj(
            seq![
                (("action")@, Json::Str(("processRecords")@)),
                (("records")@, Json::Arr(records.map_values(|r: RecordV| json_of_record(r)))),
            ],
        ),
        MessageV::Checkpoint { checkpoint, error } => Json::Obj(
            seq![
                (("action")@, Json::Str(("checkpoint")@)),
                (("checkpoint")@, json_opt_str(checkpoint)),
                (
                    ("error")@,
                    match error {
                        Option::Some(e) => Json::Str(wire_error_string(e)),
                        Option::None => Json::Null,
                    },
                ),
            ],
        ),
        MessageV::LeaseLost => Json::Obj(seq![(("action")@, Json::Str(("leaseLost")@))]),
        MessageV::ShardEnded { checkpoint } => Json::Obj(
            seq![
                (("action")@, Json::Str(("shardEnded")@)),
                (("checkpoint")@, Json::Str(checkpoint)),
            ],
        ),
        MessageV::ShutdownRequested { checkpoint } => Json::Obj(
            seq![
                (("action")@, Json::Str(("shutdownRequested")@)),
                (("checkpoint")@, Json::Str(checkpoint)),
            ],
        ),
    }
}

/// The canonical line of a message: its JSON form and the newline
/// terminator.
pub open spec fn spec_encode_message(m: MessageV) -> Seq<char> {
    render_json(json_of_message(m)) + seq!['\n']
}

// ---------------------------------------------------------------------------
// What a parsed document must look like to mean a given message
// ---------------------------------------------------------------------------
/// How often `key` occurs among the members of an object, from `i` on.
pub open spec fn key_count(ms: Seq<(Seq<char>, Json)>, key: Seq<char>, i: int) -> int
    decreases ms.len() - i,
{
    if 0 <= i < ms.len() {
        (if ms[i].0 == key {
            1int
        } else {
            0int
        }) + key_count(ms, key, i + 1)
    } else {
        0
    }
}

/// The value of the first member named `key`, from `i` on.
pub open spec fn field_val(ms: Seq<(Seq<char>, Json)>, key: Seq<char>, i: int) -> Json
    decreases ms.len() - i,
{
    if 0 <= i < ms.len() {
        if ms[i].0 == key {
            ms[i].1
        } else {
            field_val(ms, key, i + 1)
        }
    } else {
        Json::Null
    }
}

/// The object holds `key` exactly once, with this value.
pub open spec fn field_is(ms: Seq<(Seq<char>, Json)>, key: Seq<char>, v: Json) -> bool {
    key_count(ms, key, 0) == 1 && field_val(ms, key, 0) == v
}

/// An optional text field: absent or `null` means none; anything but one
/// string is no match.
pub open spec fn opt_str_field_matches(
    ms: Seq<(Seq<char>, Json)>,
    key: Seq<char>,
    o: Option<Seq<char>>,
) -> bool {
    match o {
        Option::None => key_count(ms, key, 0) == 0 || field_is(ms, key, Json::Null),
        Option::Some(t) => field_is(ms, key, Json::Str(t)),
    }
}

/// An optional unsigned 64-bit field: absent or `null` means none; a number
/// token of plain digits whose value fits means that value.
pub open spec fn opt_u64_field_matches(
    ms: Seq<(Seq<char>, Json)>,
    key: Seq<char>,
    o: Option<u64>,
) -> bool {
    match o {
        Option::None => key_count(ms, key, 0) == 0 || field_is(ms, key, Json::Null),
        Option::Some(n) => key_count(ms, key, 0) == 1 && (field_val(ms, key, 0) matches Json::Num(
            t,
        ) && t.len() > 0 && all_digits(t) && dec_val(t) == n as int),
    }
}

/// The clauses common to every document that carries the record `r`: all
/// fields but the payload.
pub open spec fn record_fields_match(ms: Seq<(Seq<char>, Json)>, r: RecordV) -> bool {
    &&& field_is(ms, ("partitionKey")@, Json::Str(r.partition_key))
    &&& field_is(ms, ("sequenceNumber")@, Json::Str(r.sequence_number))
    &&& opt_u64_field_matches(ms, ("subSequenceNumber")@, r.sub_sequence_number)
    &&& key_count(ms, ("approximateArrivalTimestamp")@, 0) == 1
    &&& field_val(ms, ("approximateArrivalTimestamp")@, 0) == Json::Num(
        r.approximate_arrival_timestamp,
    )
    &&& is_number_text(r.approximate_arrival_timestamp)
}

/// The parsed document `j` carries exactly the record `r`: its fields match
/// and its `data` text is base64 for exactly the record's bytes.
pub open spec fn record_json_matches(j: Json, r: RecordV) -> bool {
    &&& j matches Json::Obj(ms)
    &&& record_fields_match(ms, r)
    &&& key_count(ms, ("data")@, 0) == 1
    &&& (field_val(ms, ("data")@, 0) matches Json::Str(t) && crate::b64::b64_parse(t) == Some(
        r.raw_data,
    ))
}

/// The document `j` carries the record `r` with its payload written as the
/// canonical base64 text. This is what [`json_of_record`] produces.
pub open spec fn record_canonical_matches(j: Json, r: RecordV) -> bool {
    &&& j matches Json::Obj(ms)
    &&& record_fields_match(ms, r)
    &&& key_count(ms, ("data")@, 0) == 1
    &&& field_val(ms, ("data")@, 0) == Json::Str(b64_of(r.raw_data))
}

/// The parsed document `j` carries exactly the message `m`. This is the
/// whole acceptance condition of the decoder: tag and required fields
/// present exactly once and well-typed, optional fields absent, `null`, or
/// well-typed, unknown fields free.
pub open spec fn msg_json_matches(j: Json, m: MessageV) -> bool {
    &&& j matches Json::Obj(ms)
    &&& field_is(ms, ("action")@, Json::Str(action_name(m)))
    &&& match m {
        MessageV::Initialize { shard_id } => field_is(ms, ("shardId")@, Json::Str(shard_id)),
        MessageV::ProcessRecords { records } => {
            &&& key_count(ms, ("records")@, 0) == 1
            &&& field_val(ms, ("records")@, 0) matches Json::Arr(elems)
            &&& elems.len() == records.len()
            &&& forall|i: int|
                0 <= i < records.len() ==> record_json_matches(
                    #[trigger] elems[i],
                    records[i],
                )
        },
        MessageV::Checkpoint { checkpoint, error } => {
            &&& opt_str_field_matches(ms, ("checkpoint")@, checkpoint)
            &&& match error {
                Option::None => key_count(ms, ("error")@, 0) == 0 || field_is(
                    ms,
                    ("error")@,
                    Json::Null,
                ),
                Option::Some(e) => key_count(ms, ("error")@, 0) == 1 && (field_val(
                    ms,
                    ("error")@,
                    0,
                ) matches Json::Str(t) && e == error_of_string(t)),
            }
        },
        MessageV::LeaseLost => true,
        MessageV::ShardEnded { checkpoint } => field_is(ms, ("checkpoint")@, Json::Str(checkpoint)),
        MessageV::ShutdownRequested { checkpoint } => field_is(
            ms,
            ("checkpoint")@,
            Json::Str(checkpoint),
        ),
    }
}

/// Like [`msg_json_matches`], but with every record payload written as its
/// canonical base64 text. This is what [`json_of_message`] produces.
pub open spec fn msg_canonical_matches(j: Json, m: MessageV) -> bool {
    &&& j matches Json::Obj(ms)
    &&& field_is(ms, ("action")@, Json::Str(action_name(m)))
    &&& match m {
        MessageV::Initialize { shard_id } => field_is(ms, ("shardId")@, Json::Str(shard_id)),
        MessageV::ProcessRecords { records } => {
            &&& key_count(ms, ("records")@, 0) == 1
            &&& field_val(ms, ("records")@, 0) matches Json::Arr(elems)
            &&& elems.len() == records.len()
            &&& forall|i: int|
                0 <= i < records.len() ==> record_canonical_matches(
                    #[trigger] elems[i],
                    records[i],
                )
        },
        MessageV::Checkpoint { checkpoint, error } => {
            &&& opt_str_field_matches(ms, ("checkpoint")@, checkpoint)
            &&& match error {
                Option::None => key_count(ms, ("error")@, 0) == 0 || field_is(
                    ms,
                    ("error")@,
                    Json::Null,
                ),
                Option::Some(e) => key_count(ms, ("error")@, 0) == 1 && (field_val(
                    ms,
                    ("error")@,
                    0,
                ) matches Json::Str(t) && e == error_of_string(t)),
            }
        },
        MessageV::LeaseLost => true,
        MessageV::ShardEnded { checkpoint } => field_is(ms, ("checkpoint")@, Json::Str(checkpoint)),
        MessageV::ShutdownRequested { checkpoint } => field_is(
            ms,
            ("checkpoint")@,
            Json::Str(checkpoint),
        ),
    }
}

} // verus!
