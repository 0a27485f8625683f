//! What the server answered.

use vstd::prelude::*;
use vstd::string::StringExecFns;

use crate::snapshot::Snapshot;
use crate::text::blank;
use crate::text::is_blank;

verus! {

/// The `result` of a reply.
#[derive(Debug, Clone)]
pub struct Body {
    pub snapshot: Option<Snapshot>,
}

/// A reply as the JSON reader sees it; `error` is the JSON text of the error.
#[derive(Debug, Clone)]
pub struct Envelope {
    pub result: Option<Body>,
    pub error: Option<String>,
}

/// What is said of a reply that is not the JSON that was expected.
pub open spec fn malformed(complaint: Seq<char>) -> Seq<char> {
    "malformed API response: "@ + complaint
}

/// What is said of a reply that carries an error.
pub open spec fn refused(error: Seq<char>) -> Seq<char> {
    "API error: "@ + error
}

fn concat(head: &str, tail: &str) -> (r: String)
    ensures
        r@ == head@ + tail@,
{
    let mut text: String = head.to_string();
    text.append(tail);
    text
}

/// Unwrap the `{"result": {"snapshot": {...}}}` envelope the socket returns.
/// `reply` is what the JSON reader made of the text: the envelope, or its
/// complaint. An error in the reply counts before any snapshot beside it.
pub fn snapshot_from_response(reply: Result<Envelope, String>) -> (r: Result<Snapshot, String>)
    ensures
        match reply {
            Err(complaint) => r matches Err(message) && message@ == malformed(complaint@),
            Ok(envelope) => match (envelope.error, envelope.result) {
                (Some(error), _) => r matches Err(message) && message@ == refused(error@),
                (None, Some(Body { snapshot: Some(snapshot) })) => r == Ok::<Snapshot, String>(
                    snapshot,
                ),
                (None, _) => r matches Err(message) && message@
                    == "API response carried no snapshot"@,
            },
        },
{
    let envelope: Envelope = match reply {
        Ok(envelope) => envelope,
        Err(complaint) => {
            return Err(concat("malformed API response: ", complaint.as_str()));
        },
    };
    match envelope.error {
        Some(error) => {
            return Err(concat("API error: ", error.as_str()));
        },
        None => {},
    }
    match envelope.result {
        Some(body) => match body.snapshot {
            Some(snapshot) => Ok(snapshot),
            None => Err("API response carried no snapshot".to_string()),
        },
        None => Err("API response carried no snapshot".to_string()),
    }
}

/// Surface an `error` object from a response; `Ok(())` otherwise. `reply` is
/// what the JSON reader made of the text: the JSON text of the error, if the
/// reply has one, or the reader's complaint.
pub fn check_response(reply: Result<Option<String>, String>) -> (r: Result<(), String>)
    ensures
        match reply {
            Err(complaint) => r matches Err(message) && message@ == malformed(complaint@),
            Ok(Some(error)) => r matches Err(message) && message@ == refused(error@),
            Ok(None) => r is Ok,
        },
{
    match reply {
        Err(complaint) => Err(concat("malformed API response: ", complaint.as_str())),
        Ok(Some(error)) => Err(concat("API error: ", error.as_str())),
        Ok(None) => Ok(()),
    }
}

/// A line read from the socket, unless it is blank.
pub fn accept_line(line: String) -> (r: Result<String, String>)
    ensures
        match r {
            Ok(text) => !is_blank(line@) && text == line,
            Err(message) => is_blank(line@) && message@ == "empty response from Herdr"@,
        },
{
    if blank(line.as_str()) {
        Err("empty response from Herdr".to_string())
    } else {
        Ok(line)
    }
}

/// What is said of a reply ends in what there is to complain of.
pub proof fn complaints_in_words(complaint: Seq<char>)
    ensures
        malformed(complaint) == "malformed API response: "@ + complaint,
        refused(complaint) == "API error: "@ + complaint,
{
}

} // verus!
