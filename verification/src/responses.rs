//! The status acknowledgement: the line that tells the daemon an action was
//! handled and the next line may come.

use vstd::prelude::*;

use crate::json::{jv_member_views, lemma_jv_member_views_index, render_json, Json, JsonValue};
use crate::json_render::render_json_chars;
use crate::messages::{action_name, Message};
use crate::text::{chars_to_string, str_to_chars};

verus! {

/// A status acknowledgement: `action` is always `status`, `response_for`
/// names the action just handled.
pub struct StatusResponse {
    action: String,
    response_for: String,
}

/// The model of a [`StatusResponse`].
pub struct StatusResponseV {
    pub action: Seq<char>,
    pub response_for: Seq<char>,
}

impl View for StatusResponse {
    type V = StatusResponseV;

    closed spec fn view(&self) -> StatusResponseV {
        StatusResponseV { action: self.action@, response_for: self.response_for@ }
    }
}

/// The wire line of an acknowledgement value.
pub open spec fn spec_encode_status(v: StatusResponseV) -> Seq<char> {
    render_json(
        Json::Obj(
            seq![
                (("action")@, Json::Str(v.action)),
                (("responseFor")@, Json::Str(v.response_for)),
            ],
        ),
    ) + seq!['\n']
}

/// The canonical status line acknowledging the named action.
pub open spec fn spec_status_line(response_for: Seq<char>) -> Seq<char> {
    spec_encode_status(StatusResponseV { action: ("status")@, response_for })
}

impl StatusResponse {
    /// The acknowledgement for a just-handled message: it names that
    /// message's action.
    pub fn for_message(message: Message) -> (r: StatusResponse)
        ensures
            r@.action == ("status")@,
            r@.response_for == action_name(message@),
    {
        let response_for = match message {
            Message::Initialize { .. } => "initialize",
            Message::ProcessRecords { .. } => "processRecords",
            Message::Checkpoint { .. } => "checkpoint",
            Message::LeaseLost => "leaseLost",
            Message::ShardEnded { .. } => "shardEnded",
            Message::ShutdownRequested { .. } => "shutdownRequested",
        };
        StatusResponse { action: ("status").to_owned(), response_for: response_for.to_owned() }
    }

    /// The acknowledgement's wire line. The line is a function of the
    /// acknowledgement alone, so re-encoding the same acknowledgement gives
    /// the same bytes, every time.
    pub fn encode(&self) -> (r: String)
        ensures
            r@ == spec_encode_status(self@),
            self@.action == ("status")@ ==> r@ == spec_status_line(self@.response_for),
    {
        let mut ms: Vec<(Vec<char>, JsonValue)> = Vec::new();
        ms.push((str_to_chars("action"), JsonValue::Str(str_to_chars(self.action.as_str()))));
        ms.push(
            (str_to_chars("responseFor"), JsonValue::Str(str_to_chars(self.response_for.as_str()))),
        );
        let jv = JsonValue::Obj(ms);
        proof {
            lemma_jv_member_views_index(jv->Obj_0@, 0);
            assert(jv_member_views(jv->Obj_0@, 0) =~~= seq![
                (("action")@, Json::Str(self.action@)),
                (("responseFor")@, Json::Str(self.response_for@)),
            ]);
        }
        let mut cs = render_json_chars(&jv);
        cs.push('\n');
        proof {
            assert(cs@ =~= spec_encode_status(self@));
        }
        chars_to_string(&cs)
    }
}

} // verus!
