//! Message router.
//!
//! Classifies a decoded inbound payload by its discriminant field and
//! decides the membership or broadcast operation, or the external
//! collaborator call, that the session must perform.  The join/question
//! family is dispatched on its `type` field; a payload without one is
//! tried as a chat-family envelope on its `version` tag.  Anything
//! unrecognized is ignored with a diagnostic, never fatal to the session.

use vstd::prelude::*;
use vstd::string::StringExecFns;
use crate::broadcast::RoomMessage;
use crate::types::CommMessage;
use crate::types::Version;
use crate::types::spec_sender_of;
use crate::types::spec_version_of;

verus! {

/// What the router decides for one inbound payload.
#[derive(Debug)]
pub enum InboundAction {
    /// Add the current connection to this room.
    JoinRoom { room: String },
    /// Call the question-bank collaborator with this contest, question id
    /// and question body (as JSON text); broadcast only on its success.
    AskCollaborator { contest_id: String, question_id: String, question_json: String },
    /// Recognized-but-unhandled or unrecognized payload: dropped, never
    /// fatal.
    Ignore,
}

/// The decision table for the join/question family, keyed on the `type`
/// field.
pub open spec fn spec_classify_app(
    msg_type: String,
    contest_id: Option<String>,
    question_id: Option<String>,
    question_json: Option<String>,
) -> InboundAction {
    if msg_type@ == "joinContest"@ {
        match contest_id {
            Some(cid) => InboundAction::JoinRoom { room: cid },
            None => InboundAction::Ignore,
        }
    } else if msg_type@ == "addQuestion"@ {
        match (contest_id, question_id, question_json) {
            (Some(cid), Some(qid), Some(qj)) => InboundAction::AskCollaborator {
                contest_id: cid,
                question_id: qid,
                question_json: qj,
            },
            _ => InboundAction::Ignore,
        }
    } else {
        InboundAction::Ignore
    }
}

/// Dispatches a join/question-family payload: a `joinContest` with a
/// contest id joins that room; an `addQuestion` with contest id, question
/// id and question body asks the collaborator; everything else is ignored.
pub fn classify_app_message(
    msg_type: &String,
    contest_id: Option<String>,
    question_id: Option<String>,
    question_json: Option<String>,
) -> (a: InboundAction)
    ensures
        a == spec_classify_app(*msg_type, contest_id, question_id, question_json),
{
    if *msg_type == String::from_str("joinContest") {
        match contest_id {
            Some(cid) => InboundAction::JoinRoom { room: cid },
            None => InboundAction::Ignore,
        }
    } else if *msg_type == String::from_str("addQuestion") {
        match (contest_id, question_id, question_json) {
            (Some(cid), Some(qid), Some(qj)) => InboundAction::AskCollaborator {
                contest_id: cid,
                question_id: qid,
                question_json: qj,
            },
            _ => InboundAction::Ignore,
        }
    } else {
        InboundAction::Ignore
    }
}

/// The decision table for the chat family: only a new-chat-room envelope
/// with a non-empty user identity acts, joining the room keyed by that
/// identity; the other variants are acknowledged but left to the excluded
/// response generator.
pub open spec fn spec_classify_comm(version: Version, user_email: Option<String>) -> InboundAction {
    match version {
        Version::NewChatRoom => match user_email {
            Some(e) => if e@.len() > 0 {
                InboundAction::JoinRoom { room: e }
            } else {
                InboundAction::Ignore
            },
            None => InboundAction::Ignore,
        },
        _ => InboundAction::Ignore,
    }
}

/// Dispatches a chat-family envelope by its version tag.
pub fn classify_comm_message(version: Version, user_email: Option<String>) -> (a: InboundAction)
    ensures
        a == spec_classify_comm(version, user_email),
{
    match version {
        Version::NewChatRoom => match user_email {
            Some(e) => if e.as_str().is_empty() {
                InboundAction::Ignore
            } else {
                InboundAction::JoinRoom { room: e }
            },
            None => InboundAction::Ignore,
        },
        _ => InboundAction::Ignore,
    }
}

/// Routes a decoded chat-family envelope.
pub fn route_comm(msg: CommMessage) -> (a: InboundAction)
    ensures
        a == spec_classify_comm(msg.version, msg.user_email),
{
    classify_comm_message(msg.version, msg.user_email)
}

/// The full routing decision over the fields peeked out of one payload:
/// a payload with a `type` field is dispatched as join/question family;
/// otherwise one with a recognized `version` tag and a valid sender is
/// dispatched as chat family; everything else is ignored.
pub open spec fn spec_route(
    msg_type: Option<String>,
    contest_id: Option<String>,
    question_id: Option<String>,
    question_json: Option<String>,
    version: Option<String>,
    sender: Option<String>,
    user_email: Option<String>,
) -> InboundAction {
    match msg_type {
        Some(t) => spec_classify_app(t, contest_id, question_id, question_json),
        None => match (version, sender) {
            (Some(vs), Some(ss)) => match (spec_version_of(vs@), spec_sender_of(ss@)) {
                (Some(v), Some(_)) => spec_classify_comm(v, user_email),
                _ => InboundAction::Ignore,
            },
            _ => InboundAction::Ignore,
        },
    }
}

/// Routes one payload from its peeked fields.
pub fn route_fields(
    msg_type: Option<String>,
    contest_id: Option<String>,
    question_id: Option<String>,
    question_json: Option<String>,
    version: Option<String>,
    sender: Option<String>,
    user_email: Option<String>,
) -> (a: InboundAction)
    ensures
        a == spec_route(
            msg_type,
            contest_id,
            question_id,
            question_json,
            version,
            sender,
            user_email,
        ),
{
    match msg_type {
        Some(t) => classify_app_message(&t, contest_id, question_id, question_json),
        None => match (version, sender) {
            (Some(vs), Some(ss)) => {
                let v = crate::types::parse_version(&vs);
                let s = crate::types::parse_comm_sender(&ss);
                match (v, s) {
                    (Some(v), Some(_)) => classify_comm_message(v, user_email),
                    _ => InboundAction::Ignore,
                }
            },
            _ => InboundAction::Ignore,
        },
    }
}

/// The JSON text of the outbound contest-update envelope: the fixed
/// version tag around the collaborator's result, forwarded verbatim.
pub open spec fn contest_update_text(questions: Seq<char>) -> Seq<char> {
    "{\"version\":\"contest_update\",\"questions\":"@ + questions + "}"@
}

/// Decides the broadcast after a collaborator call: on success with a
/// response body, the contest-update envelope addressed to the contest's
/// room; on a failure status or a missing body, no broadcast at all.
pub fn collaborator_outcome(contest_id: &String, success: bool, body: Option<String>) -> (r: Option<
    RoomMessage,
>)
    ensures
        match r {
            Some(m) => success && match body {
                Some(b) => m.room_id@ == contest_id@ && m.content@ == contest_update_text(b@),
                None => false,
            },
            None => !success || body is None,
        },
{
    if !success {
        return None;
    }
    match body {
        Some(b) => {
            let mut content = String::from_str("{\"version\":\"contest_update\",\"questions\":");
            content.append(b.as_str());
            content.append("}");
            Some(RoomMessage::new(contest_id.clone(), content))
        },
        None => None,
    }
}

/// The `type` field of a payload: the member under `type` when the text
/// parses as a JSON object and that member is a string, absent otherwise.
/// A function of the text alone; named, since stating JSON parsing in
/// full is beyond a contract.
pub uninterp spec fn type_field_of(s: Seq<char>) -> Option<Seq<char>>;

/// The `data.contest_id` member of a payload, when present as a string.
pub uninterp spec fn contest_id_of(s: Seq<char>) -> Option<Seq<char>>;

/// The `data.q.id` member of a payload, when present as a string.
pub uninterp spec fn question_id_of(s: Seq<char>) -> Option<Seq<char>>;

/// The `data.q` member of a payload re-serialized as JSON text, when
/// present.
pub uninterp spec fn question_json_of(s: Seq<char>) -> Option<Seq<char>>;

/// The `version` field of a payload, when present as a string.
pub uninterp spec fn version_field_of(s: Seq<char>) -> Option<Seq<char>>;

/// The `sender` field of a payload, when present as a string.
pub uninterp spec fn sender_field_of(s: Seq<char>) -> Option<Seq<char>>;

/// The `user_email` field of a payload, when present as a string.
pub uninterp spec fn user_email_of(s: Seq<char>) -> Option<Seq<char>>;

/// The texts of an optional peeked field.
pub open spec fn opt_text(o: Option<String>) -> Option<Seq<char>> {
    match o {
        Some(s) => Some(s@),
        None => None,
    }
}

/// Relies on serde_json::from_str::<Value>, Value::get and Value::as_str:
/// peeks the `type` discriminant out of the raw text.
#[verifier::external_body]
fn peek_type(text: &str) -> (r: Option<String>)
    ensures
        match r {
            Some(s) => type_field_of(text@) == Some(s@),
            None => type_field_of(text@) is None,
        },
{
    let v: serde_json::Value = serde_json::from_str(text).ok()?;
    Some(v.get("type")?.as_str()?.to_string())
}

/// Relies on serde_json::from_str::<Value>, Value::get and Value::as_str:
/// peeks `data.contest_id` out of the raw text.
#[verifier::external_body]
fn peek_contest_id(text: &str) -> (r: Option<String>)
    ensures
        match r {
            Some(s) => contest_id_of(text@) == Some(s@),
            None => contest_id_of(text@) is None,
        },
{
    let v: serde_json::Value = serde_json::from_str(text).ok()?;
    Some(v.get("data")?.get("contest_id")?.as_str()?.to_string())
}

/// Relies on serde_json::from_str::<Value>, Value::get and Value::as_str:
/// peeks `data.q.id` out of the raw text.
#[verifier::external_body]
fn peek_question_id(text: &str) -> (r: Option<String>)
    ensures
        match r {
            Some(s) => question_id_of(text@) == Some(s@),
            None => question_id_of(text@) is None,
        },
{
    let v: serde_json::Value = serde_json::from_str(text).ok()?;
    Some(v.get("data")?.get("q")?.get("id")?.as_str()?.to_string())
}

/// Relies on serde_json::from_str::<Value>, Value::get and
/// serde_json::to_string: peeks the `data.q` member out of the raw text,
/// re-serialized as JSON text.
#[verifier::external_body]
fn peek_question_json(text: &str) -> (r: Option<String>)
    ensures
        match r {
            Some(s) => question_json_of(text@) == Some(s@),
            None => question_json_of(text@) is None,
        },
{
    let v: serde_json::Value = serde_json::from_str(text).ok()?;
    serde_json::to_string(v.get("data")?.get("q")?).ok()
}

/// Relies on serde_json::from_str::<Value>, Value::get and Value::as_str:
/// peeks the `version` tag out of the raw text.
#[verifier::external_body]
fn peek_version(text: &str) -> (r: Option<String>)
    ensures
        match r {
            Some(s) => version_field_of(text@) == Some(s@),
            None => version_field_of(text@) is None,
        },
{
    let v: serde_json::Value = serde_json::from_str(text).ok()?;
    Some(v.get("version")?.as_str()?.to_string())
}

/// Relies on serde_json::from_str::<Value>, Value::get and Value::as_str:
/// peeks the `sender` tag out of the raw text.
#[verifier::external_body]
fn peek_sender(text: &str) -> (r: Option<String>)
    ensures
        match r {
            Some(s) => sender_field_of(text@) == Some(s@),
            None => sender_field_of(text@) is None,
        },
{
    let v: serde_json::Value = serde_json::from_str(text).ok()?;
    Some(v.get("sender")?.as_str()?.to_string())
}

/// Relies on serde_json::from_str::<Value>, Value::get and Value::as_str:
/// peeks the `user_email` field out of the raw text.
#[verifier::external_body]
fn peek_user_email(text: &str) -> (r: Option<String>)
    ensures
        match r {
            Some(s) => user_email_of(text@) == Some(s@),
            None => user_email_of(text@) is None,
        },
{
    let v: serde_json::Value = serde_json::from_str(text).ok()?;
    Some(v.get("user_email")?.as_str()?.to_string())
}

/// What the join/question dispatch must decide, over the peeked field
/// texts.
pub open spec fn app_decision(
    a: InboundAction,
    t: Seq<char>,
    cid: Option<Seq<char>>,
    qid: Option<Seq<char>>,
    qj: Option<Seq<char>>,
) -> bool {
    if t == "joinContest"@ {
        match cid {
            Some(c) => a matches InboundAction::JoinRoom { room } && room@ == c,
            None => a is Ignore,
        }
    } else if t == "addQuestion"@ {
        match (cid, qid, qj) {
            (Some(c), Some(q), Some(j)) => a matches InboundAction::AskCollaborator {
                contest_id,
                question_id,
                question_json,
            } && contest_id@ == c && question_id@ == q && question_json@ == j,
            _ => a is Ignore,
        }
    } else {
        a is Ignore
    }
}

/// What the chat dispatch must decide, over the peeked field texts.
pub open spec fn comm_decision(a: InboundAction, v: Version, em: Option<Seq<char>>) -> bool {
    match v {
        Version::NewChatRoom => match em {
            Some(e) => if e.len() > 0 {
                a matches InboundAction::JoinRoom { room } && room@ == e
            } else {
                a is Ignore
            },
            None => a is Ignore,
        },
        _ => a is Ignore,
    }
}

/// What routing must decide, over the named fields of the raw text: a
/// payload with a `type` field is dispatched as join/question family; one
/// with a recognized `version` tag and a valid sender as chat family;
/// everything else — including text that does not parse at all, whose
/// named fields are all absent — is ignored, never fatal.
pub open spec fn route_decision(
    a: InboundAction,
    mt: Option<Seq<char>>,
    cid: Option<Seq<char>>,
    qid: Option<Seq<char>>,
    qj: Option<Seq<char>>,
    vs: Option<Seq<char>>,
    ss: Option<Seq<char>>,
    em: Option<Seq<char>>,
) -> bool {
    match mt {
        Some(t) => app_decision(a, t, cid, qid, qj),
        None => match (vs, ss) {
            (Some(v), Some(s)) => match (spec_version_of(v), spec_sender_of(s)) {
                (Some(ver), Some(_)) => comm_decision(a, ver, em),
                _ => a is Ignore,
            },
            _ => a is Ignore,
        },
    }
}

/// The decision `route_fields` pins on exec values satisfies the
/// view-level routing decision over the same fields.
proof fn lemma_route_matches_decision(
    a: InboundAction,
    mt: Option<String>,
    cid: Option<String>,
    qid: Option<String>,
    qj: Option<String>,
    vs: Option<String>,
    ss: Option<String>,
    em: Option<String>,
)
    requires
        a == spec_route(mt, cid, qid, qj, vs, ss, em),
    ensures
        route_decision(
            a,
            opt_text(mt),
            opt_text(cid),
            opt_text(qid),
            opt_text(qj),
            opt_text(vs),
            opt_text(ss),
            opt_text(em),
        ),
{
}

/// Decodes one inbound text frame and routes it: the dispatch of spec
/// section 4.5 straight off the wire.  The JSON peeking runs through the
/// trusted wrappers above, whose results are the named fields of the
/// text; the decision over those fields is exact, and text that does not
/// decode is ignored, never fatal to the session.
pub fn route_text(text: &String) -> (a: InboundAction)
    ensures
        route_decision(
            a,
            type_field_of(text@),
            contest_id_of(text@),
            question_id_of(text@),
            question_json_of(text@),
            version_field_of(text@),
            sender_field_of(text@),
            user_email_of(text@),
        ),
{
    let msg_type = peek_type(text.as_str());
    let contest_id = peek_contest_id(text.as_str());
    let question_id = peek_question_id(text.as_str());
    let question_json = peek_question_json(text.as_str());
    let version = peek_version(text.as_str());
    let sender = peek_sender(text.as_str());
    let user_email = peek_user_email(text.as_str());
    let ghost g_mt = msg_type;
    let ghost g_cid = contest_id;
    let ghost g_qid = question_id;
    let ghost g_qj = question_json;
    let ghost g_vs = version;
    let ghost g_ss = sender;
    let ghost g_em = user_email;
    let a = route_fields(
        msg_type,
        contest_id,
        question_id,
        question_json,
        version,
        sender,
        user_email,
    );
    proof {
        lemma_route_matches_decision(a, g_mt, g_cid, g_qid, g_qj, g_vs, g_ss, g_em);
        assert(opt_text(g_mt) == type_field_of(text@));
        assert(opt_text(g_cid) == contest_id_of(text@));
        assert(opt_text(g_qid) == question_id_of(text@));
        assert(opt_text(g_qj) == question_json_of(text@));
        assert(opt_text(g_vs) == version_field_of(text@));
        assert(opt_text(g_ss) == sender_field_of(text@));
        assert(opt_text(g_em) == user_email_of(text@));
    }
    a
}

} // verus!
