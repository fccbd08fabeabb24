//! From a notification of the chat transport to the command that it asks for, if any.
//!
//! A notification holds an `envelope` and the `account` of this bridge. The envelope names the
//! `source` and holds either a `syncMessage`, which may report a `sentMessage` of the account
//! itself, or a `dataMessage` from someone else. A sent message counts as a command if it went
//! to the account's own address: a note to self.

use vstd::prelude::*;
use serde_json::Value;
use crate::json::{json_member, member, member_text, text_at, text_or};
use crate::text::same_text;

verus! {

/// The sender that is named where the envelope names none.
pub const UNKNOWN: &'static str = "Unknown";

/// A command text with the two identities that decide what it may do.
#[derive(Debug)]
pub struct Request {
    /// The account of the bridge.
    pub owner: String,
    /// Who sent the text, and who gets the reply.
    pub requestor: String,
    pub text: String,
}

/// A request as texts.
pub struct RequestModel {
    pub owner: Seq<char>,
    pub requestor: Seq<char>,
    pub text: Seq<char>,
}

impl View for Request {
    type V = RequestModel;

    open spec fn view(&self) -> RequestModel {
        RequestModel { owner: self.owner@, requestor: self.requestor@, text: self.text@ }
    }
}

/// The account that the notification `p` names, or the empty text.
pub open spec fn account_of(p: Value) -> Seq<char> {
    text_or(text_at(p, "account"@), ""@)
}

/// The sender that the envelope `e` names, or `UNKNOWN`.
pub open spec fn source_of(e: Value) -> Seq<char> {
    text_or(text_at(e, "source"@), UNKNOWN@)
}

/// The address that the sent message `sent` went to, or the empty text.
pub open spec fn destination_of(sent: Value) -> Seq<char> {
    text_or(text_at(sent, "destination"@), ""@)
}

/// The sent message that the envelope `e` reports under its sync message, if it reports one.
pub open spec fn sent_message(e: Value) -> Option<Value> {
    match json_member(e, "syncMessage"@) {
        Some(sync) => json_member(sync, "sentMessage"@),
        None => None,
    }
}

/// What a sent message asks for: its text as a request of the account to itself, if it went
/// to the account and holds a text; nothing otherwise.
pub open spec fn self_note(sent: Value, account: Seq<char>) -> Option<RequestModel> {
    match text_at(sent, "message"@) {
        Some(t) => if destination_of(sent) == account {
            Some(RequestModel { owner: account, requestor: account, text: t })
        } else {
            None
        },
        None => None,
    }
}

/// What a data message asks for: its text as a request of the source, if it holds a text.
pub open spec fn standard(data: Value, account: Seq<char>, source: Seq<char>) -> Option<
    RequestModel,
> {
    match text_at(data, "message"@) {
        Some(t) => Some(RequestModel { owner: account, requestor: source, text: t }),
        None => None,
    }
}

/// What the envelope `e` of a notification for `account` asks for. An envelope that reports
/// a sent message is decided by that message alone; a data message is looked at only where
/// none is reported.
pub open spec fn asked(e: Value, account: Seq<char>) -> Option<RequestModel> {
    match sent_message(e) {
        Some(sent) => self_note(sent, account),
        None => match json_member(e, "dataMessage"@) {
            Some(data) => standard(data, account, source_of(e)),
            None => None,
        },
    }
}

/// What the notification with the parameters `params` asks for: at most one request.
pub open spec fn routed(params: Option<&Value>) -> Option<RequestModel> {
    match params {
        Some(p) => match json_member(*p, "envelope"@) {
            Some(e) => asked(e, account_of(*p)),
            None => None,
        },
        None => None,
    }
}

/// Finds the request in the parameters of a notification.
pub fn handle_incoming_message(params: Option<&Value>) -> (r: Option<Request>)
    ensures
        match r {
            Some(request) => routed(params) == Some(request@),
            None => routed(params) is None,
        },
{
    let p = match params {
        Some(p) => p,
        None => {
            return None;
        },
    };
    let envelope = match member(p, "envelope") {
        Some(e) => e,
        None => {
            return None;
        },
    };
    let source = match member_text(envelope, "source") {
        Some(s) => s,
        None => UNKNOWN,
    };
    let account = match member_text(p, "account") {
        Some(a) => a,
        None => "",
    };
    let sent = match member(envelope, "syncMessage") {
        Some(sync) => member(sync, "sentMessage"),
        None => None,
    };
    if let Some(sent) = sent {
        let destination = match member_text(sent, "destination") {
            Some(d) => d,
            None => "",
        };
        if same_text(destination, account) {
            if let Some(text) = member_text(sent, "message") {
                return Some(
                    Request {
                        owner: String::from_str(account),
                        requestor: String::from_str(account),
                        text: String::from_str(text),
                    },
                );
            }
        }
        return None;
    }
    if let Some(data) = member(envelope, "dataMessage") {
        if let Some(text) = member_text(data, "message") {
            return Some(
                Request {
                    owner: String::from_str(account),
                    requestor: String::from_str(source),
                    text: String::from_str(text),
                },
            );
        }
    }
    None
}

/// A notification with a data message that holds a text, and with no sync message, asks for
/// exactly one request: that text, from the source of the envelope, with the account as owner.
pub proof fn lemma_data_message_is_routed(p: Value, e: Value, data: Value, t: Seq<char>)
    requires
        json_member(p, "envelope"@) == Some(e),
        json_member(e, "syncMessage"@) is None,
        json_member(e, "dataMessage"@) == Some(data),
        text_at(data, "message"@) == Some(t),
    ensures
        routed(Some(&p)) == Some(
            RequestModel { owner: account_of(p), requestor: source_of(e), text: t },
        ),
{
}

/// A notification of a message that the account sent to its own address asks for that text
/// as a request of the account to itself, whatever data message the envelope holds beside it.
pub proof fn lemma_note_to_self_is_routed(p: Value, e: Value, sync: Value, sent: Value, t: Seq<char>)
    requires
        json_member(p, "envelope"@) == Some(e),
        json_member(e, "syncMessage"@) == Some(sync),
        json_member(sync, "sentMessage"@) == Some(sent),
        destination_of(sent) == account_of(p),
        text_at(sent, "message"@) == Some(t),
    ensures
        routed(Some(&p)) == Some(
            RequestModel { owner: account_of(p), requestor: account_of(p), text: t },
        ),
{
}

/// Where the envelope reports a sent message, the data message is never looked at: whatever
/// is routed is a request of the account to itself, taken from the sent message.
pub proof fn lemma_sent_message_decides(p: Value, e: Value, sent: Value)
    requires
        json_member(p, "envelope"@) == Some(e),
        sent_message(e) == Some(sent),
    ensures
        routed(Some(&p)) == self_note(sent, account_of(p)),
        routed(Some(&p)) matches Some(r) ==> r.owner == account_of(p) && r.requestor == account_of(
            p,
        ),
{
}

} // verus!
