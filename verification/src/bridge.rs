//! The two ends of the bridge: what is done with a line that came from the chat transport, and
//! how a document goes out to it.
//!
//! Documents go out through one queue that holds `QUEUE_CAPACITY` of them at most and hands
//! them on in the order in which they came; whoever offers one more waits until there is room.
//! One writer takes them from the queue and writes each as one line.

use vstd::prelude::*;
use serde_json::Value;
use crate::commands::{optional_text, process_command, step_for, Config, Step, StepModel};
use crate::json::{json_member, text_at};
use crate::router::{
    account_of, destination_of, handle_incoming_message, lemma_data_message_is_routed,
    lemma_note_to_self_is_routed, routed, source_of,
};
use crate::rpc::RpcResponse;
use crate::text::{to_chars, trim, trimmed};

verus! {

/// The number of documents that the outbound queue holds at most.
pub const QUEUE_CAPACITY: usize = 32;

/// Whether a line holds nothing but white space. Such a line is no document and is skipped.
pub open spec fn blank(line: Seq<char>) -> bool {
    trimmed(line).len() == 0
}

/// Tells whether a line that was read is to be skipped.
pub fn is_blank(line: &str) -> (r: bool)
    ensures
        r == blank(line@),
{
    trim(&to_chars(line)).len() == 0
}

/// Ends a document with the line feed that makes it a line. The line is written out as one
/// unit.
pub fn frame_line(doc: String) -> (line: String)
    ensures
        line@ == doc@.push('\n'),
{
    let mut line = doc;
    line.push('\n');
    line
}

/// What is to be done for a document that was read: the step for the command that it asks
/// for, and nothing for a document that reports no received message or asks for no command.
pub open spec fn reaction(
    api_url: Option<Seq<char>>,
    params: Option<Seq<char>>,
    response: RpcResponse,
) -> StepModel {
    let given = match response.params {
        Some(p) => if response.is_receive() {
            Some(&p)
        } else {
            None
        },
        None => None,
    };
    match routed(given) {
        Some(request) => step_for(api_url, params, request.owner, request.requestor, request.text),
        None => StepModel::Done,
    }
}

/// Decides what is to be done for a document that was read.
pub fn react(config: &Config, response: &RpcResponse) -> (step: Step)
    ensures
        step@ == reaction(optional_text(config.api_url), optional_text(config.params), *response),
{
    match handle_incoming_message(response.received()) {
        Some(request) => process_command(
            config,
            request.owner.as_str(),
            request.requestor.as_str(),
            request.text.as_str(),
        ),
        None => Step::Done,
    }
}

/// A notification of a data message that holds a text, in an envelope without a sync message,
/// is answered by one step: the one for that text, asked by the source of the envelope of the
/// account as owner.
pub proof fn lemma_data_message_is_dispatched(
    api_url: Option<Seq<char>>,
    params: Option<Seq<char>>,
    response: RpcResponse,
    p: Value,
    e: Value,
    data: Value,
    t: Seq<char>,
)
    requires
        response.is_receive(),
        response.params == Some(p),
        json_member(p, "envelope"@) == Some(e),
        json_member(e, "syncMessage"@) is None,
        json_member(e, "dataMessage"@) == Some(data),
        text_at(data, "message"@) == Some(t),
    ensures
        reaction(api_url, params, response) == step_for(
            api_url,
            params,
            account_of(p),
            source_of(e),
            t,
        ),
{
    lemma_data_message_is_routed(p, e, data, t);
}

/// A notification of a text that the account sent to its own address is answered by one
/// step: the one for that text, asked by the account of itself. The data message of the
/// envelope, if it holds one, has no part in it.
pub proof fn lemma_note_to_self_is_dispatched(
    api_url: Option<Seq<char>>,
    params: Option<Seq<char>>,
    response: RpcResponse,
    p: Value,
    e: Value,
    sync: Value,
    sent: Value,
    t: Seq<char>,
)
    requires
        response.is_receive(),
        response.params == Some(p),
        json_member(p, "envelope"@) == Some(e),
        json_member(e, "syncMessage"@) == Some(sync),
        json_member(sync, "sentMessage"@) == Some(sent),
        destination_of(sent) == account_of(p),
        text_at(sent, "message"@) == Some(t),
    ensures
        reaction(api_url, params, response) == step_for(
            api_url,
            params,
            account_of(p),
            account_of(p),
            t,
        ),
{
    lemma_note_to_self_is_routed(p, e, sync, sent, t);
}

} // verus!
