//! The documents that go to the chat transport and those that come from it.
//!
//! A request to send a message is written as one JSON object on one line, with its members in
//! the order `jsonrpc`, `method`, `params`, `id`, and those of `params` in the order
//! `recipient`, `message`.

use vstd::prelude::*;
use serde_json::Value;
use crate::decimal::{decimal, push_decimal};
use crate::json::{lemma_unquoted_quoted, push_quoted, quoted, unquoted};
use crate::text::{has_prefix, push_chars, same_text};

verus! {

/// The version of the protocol that every request names.
pub const VERSION: &'static str = "2.0";

/// The method that sends a message.
pub const SEND: &'static str = "send";

/// The method under which the transport reports a message that it received.
pub const RECEIVE: &'static str = "receive";

/// The parameters of a request to send `message` to each of `recipient`.
#[derive(Debug)]
pub struct SendParams {
    pub recipient: Vec<String>,
    pub message: String,
}

/// A request to the chat transport.
#[derive(Debug)]
pub struct RpcRequest {
    pub jsonrpc: &'static str,
    pub method: &'static str,
    pub params: SendParams,
    pub id: i64,
}

/// A document from the chat transport. Only the method and the parameters are looked at.
#[derive(Debug)]
pub struct RpcResponse {
    pub jsonrpc: String,
    pub method: Option<String>,
    pub params: Option<Value>,
    pub result: Option<Value>,
    pub id: Option<i64>,
}

/// The views of the strings in `v`.
pub open spec fn string_texts(v: Seq<String>) -> Seq<Seq<char>> {
    v.map_values(|s: String| s@)
}

/// `n` in decimal, with a minus sign before it if it is negative.
pub open spec fn signed_decimal(n: int) -> Seq<char> {
    if n < 0 {
        seq!['-'] + decimal((-n) as nat)
    } else {
        decimal(n as nat)
    }
}

/// The texts `items` as JSON strings, with a comma between each two neighbours.
pub open spec fn listed(items: Seq<Seq<char>>) -> Seq<char>
    decreases items.len(),
{
    if items.len() == 0 {
        Seq::empty()
    } else if items.len() == 1 {
        quoted(items[0])
    } else {
        listed(items.drop_last()) + seq![','] + quoted(items.last())
    }
}

/// The document for a request with these members.
pub open spec fn frame_text(
    jsonrpc: Seq<char>,
    method: Seq<char>,
    message: Seq<char>,
    recipients: Seq<Seq<char>>,
    id: int,
) -> Seq<char> {
    "{\"jsonrpc\":"@ + quoted(jsonrpc) + ",\"method\":"@ + quoted(method)
        + ",\"params\":{\"recipient\":["@ + listed(recipients) + "],\"message\":"@ + quoted(message)
        + "},\"id\":"@ + signed_decimal(id) + "}"@
}

/// The document for the request `r`.
pub open spec fn request_text(r: RpcRequest) -> Seq<char> {
    frame_text(
        r.jsonrpc@,
        r.method@,
        r.params.message@,
        string_texts(r.params.recipient@),
        r.id as int,
    )
}

/// The document that sends `message` to `recipient`: a request of the method `send`, with the
/// one recipient in a list and with the id 1.
pub open spec fn send_frame(recipient: Seq<char>, message: Seq<char>) -> Seq<char> {
    frame_text(VERSION@, SEND@, message, seq![recipient], 1)
}

/// What follows `literal` at the start of `t`, if `t` starts with it.
pub open spec fn behind(t: Seq<char>, literal: Seq<char>) -> Option<Seq<char>> {
    if has_prefix(t, literal) {
        Some(t.skip(literal.len() as int))
    } else {
        None
    }
}

/// Reads a JSON string behind `literal` at the start of `t`: the text, and what follows.
pub open spec fn string_behind(t: Seq<char>, literal: Seq<char>) -> Option<(Seq<char>, Seq<char>)> {
    match behind(t, literal) {
        Some(rest) => unquoted(rest),
        None => None,
    }
}

/// Reads a document that sends a message to one recipient: the recipient and the message.
/// The document has the members of a request in their order; the version, the method and the
/// id may be any.
pub open spec fn sent(doc: Seq<char>) -> Option<(Seq<char>, Seq<char>)> {
    match string_behind(doc, "{\"jsonrpc\":"@) {
        Some((_, t1)) => match string_behind(t1, ",\"method\":"@) {
            Some((_, t2)) => match string_behind(t2, ",\"params\":{\"recipient\":["@) {
                Some((recipient, t3)) => match string_behind(t3, "],\"message\":"@) {
                    Some((message, t4)) => if has_prefix(t4, "},\"id\":"@) {
                        Some((recipient, message))
                    } else {
                        None
                    },
                    None => None,
                },
                None => None,
            },
            None => None,
        },
        None => None,
    }
}

impl RpcRequest {
    /// The request that sends `message` to `recipient`.
    pub fn send(recipient: &str, message: &str) -> (r: RpcRequest)
        ensures
            r.jsonrpc@ == VERSION@,
            r.method@ == SEND@,
            r.params.message@ == message@,
            string_texts(r.params.recipient@) == seq![recipient@],
            r.id == 1,
    {
        let mut to: Vec<String> = Vec::new();
        to.push(String::from_str(recipient));
        let r = RpcRequest {
            jsonrpc: VERSION,
            method: SEND,
            params: SendParams { recipient: to, message: String::from_str(message) },
            id: 1,
        };
        assert(string_texts(r.params.recipient@) == seq![recipient@]);
        r
    }

    /// Writes the request as a document.
    pub fn to_json(&self) -> (doc: String)
        ensures
            doc@ == request_text(*self),
    {
        let mut doc = String::from_str("{\"jsonrpc\":");
        push_quoted(&mut doc, self.jsonrpc);
        doc.append(",\"method\":");
        push_quoted(&mut doc, self.method);
        doc.append(",\"params\":{\"recipient\":[");
        let ghost head = doc@;
        let ghost items = string_texts(self.params.recipient@);
        let mut i: usize = 0;
        assert(items.take(0) == Seq::<Seq<char>>::empty());
        while i < self.params.recipient.len()
            invariant
                i <= self.params.recipient.len(),
                items == string_texts(self.params.recipient@),
                doc@ == head + listed(items.take(i as int)),
            decreases self.params.recipient.len() - i,
        {
            if i > 0 {
                doc.push(',');
            }
            push_quoted(&mut doc, self.params.recipient[i].as_str());
            assert(items.take(i + 1).drop_last() == items.take(i as int));
            assert(items.take(i + 1).last() == self.params.recipient@[i as int]@);
            i += 1;
        }
        assert(items.take(items.len() as int) == items);
        doc.append("],\"message\":");
        push_quoted(&mut doc, self.params.message.as_str());
        doc.append("},\"id\":");
        let mut digits: Vec<char> = Vec::new();
        if self.id < 0 {
            digits.push('-');
            push_decimal(&mut digits, (-(self.id as i128)) as u64);
        } else {
            push_decimal(&mut digits, self.id as u64);
        }
        push_chars(&mut doc, &digits);
        doc.append("}");
        doc
    }
}

impl RpcResponse {
    /// Whether the document reports a received message.
    pub open spec fn is_receive(&self) -> bool {
        match self.method {
            Some(m) => m@ == RECEIVE@,
            None => false,
        }
    }

    /// The parameters of a document that reports a received message. Every other document
    /// is read and set aside.
    pub fn received(&self) -> (r: Option<&Value>)
        ensures
            match r {
                Some(p) => self.is_receive() && self.params == Some(*p),
                None => !self.is_receive() || self.params is None,
            },
    {
        match &self.method {
            Some(m) => {
                if same_text(m.as_str(), RECEIVE) {
                    self.params.as_ref()
                } else {
                    None
                }
            },
            None => None,
        }
    }
}

/// Writes the document that sends `message` to `recipient`. The document has no line feed:
/// the one that ends its line is added when it is written out.
pub fn send_message(recipient: &str, message: &str) -> (doc: String)
    ensures
        doc@ == send_frame(recipient@, message@),
{
    RpcRequest::send(recipient, message).to_json()
}

/// A text that starts with `literal` has behind it what was put there.
pub proof fn lemma_string_behind(literal: Seq<char>, s: Seq<char>, rest: Seq<char>)
    ensures
        string_behind(literal + quoted(s) + rest, literal) == Some((s, rest)),
{
    let t = literal + quoted(s) + rest;
    assert(t.take(literal.len() as int) == literal);
    assert(t.skip(literal.len() as int) == quoted(s) + rest);
    lemma_unquoted_quoted(s, rest);
}

/// A document that sends `message` to `recipient` and goes on with `tail` is read as one to
/// that recipient with that message, if `tail` starts by closing the parameters and naming the
/// id.
pub proof fn lemma_sent_with_tail(recipient: Seq<char>, message: Seq<char>, tail: Seq<char>)
    requires
        has_prefix(tail, "},\"id\":"@),
    ensures
        sent(
            "{\"jsonrpc\":"@ + quoted(VERSION@) + ",\"method\":"@ + quoted(SEND@)
                + ",\"params\":{\"recipient\":["@ + quoted(recipient) + "],\"message\":"@ + quoted(
                message,
            ) + tail,
        ) == Some((recipient, message)),
{
    let t3 = "],\"message\":"@ + quoted(message) + tail;
    let t2 = ",\"params\":{\"recipient\":["@ + quoted(recipient) + t3;
    let t1 = ",\"method\":"@ + quoted(SEND@) + t2;
    let doc = "{\"jsonrpc\":"@ + quoted(VERSION@) + t1;
    assert(doc == "{\"jsonrpc\":"@ + quoted(VERSION@) + ",\"method\":"@ + quoted(SEND@)
        + ",\"params\":{\"recipient\":["@ + quoted(recipient) + "],\"message\":"@ + quoted(message)
        + tail);
    lemma_string_behind("{\"jsonrpc\":"@, VERSION@, t1);
    lemma_string_behind(",\"method\":"@, SEND@, t2);
    lemma_string_behind(",\"params\":{\"recipient\":["@, recipient, t3);
    lemma_string_behind("],\"message\":"@, message, tail);
}

/// Reading the document that sends `message` to `recipient` gives back that recipient and that
/// message, whatever characters the two hold, and so does reading the line that the document
/// goes out as.
pub proof fn lemma_sent_is_read(recipient: Seq<char>, message: Seq<char>)
    ensures
        sent(send_frame(recipient, message)) == Some((recipient, message)),
        sent(send_frame(recipient, message).push('\n')) == Some((recipient, message)),
{
    let close = "},\"id\":"@;
    let tail = close + signed_decimal(1) + "}"@;
    let head = "{\"jsonrpc\":"@ + quoted(VERSION@) + ",\"method\":"@ + quoted(SEND@)
        + ",\"params\":{\"recipient\":["@ + quoted(recipient) + "],\"message\":"@ + quoted(message);
    assert(listed(seq![recipient]) == quoted(recipient));
    assert(send_frame(recipient, message) == head + tail);
    assert(send_frame(recipient, message).push('\n') == head + tail.push('\n'));
    assert(tail.take(close.len() as int) == close);
    assert(tail.push('\n').take(close.len() as int) == close);
    lemma_sent_with_tail(recipient, message, tail);
    lemma_sent_with_tail(recipient, message, tail.push('\n'));
}

} // verus!
