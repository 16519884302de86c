//! What a command-line client of the broker computes: the addresses it
//! calls and the lines it prints. The calls and the printing are the
//! caller's.

use url::Url;
use vstd::prelude::*;
use vstd::string::StringExecFns;

verus! {

/// How an attempt to produce an event ended.
#[derive(Debug, PartialEq, Eq)]
pub enum ProduceOutcome {
    /// The broker answered with a status of success.
    Accepted,
    /// The broker answered with another status, given here as text.
    Refused { status: String },
    /// No answer came; the cause is given as text.
    Failed { cause: String },
}

/// One frame received on a subscription.
#[derive(Debug, PartialEq, Eq)]
pub enum Frame {
    /// A text frame with its payload.
    Text(String),
    /// A frame of any other kind.
    Other,
}

/// A status code of success: from 200 up to and including 299.
pub open spec fn is_success(code: u16) -> bool {
    200 <= code < 300
}

/// The line that reports `outcome`.
pub open spec fn report_of(outcome: ProduceOutcome) -> Seq<char> {
    match outcome {
        ProduceOutcome::Accepted => "Successfully produced event."@,
        ProduceOutcome::Refused { status } => "Error producing event: "@ + status@,
        ProduceOutcome::Failed { cause } => "Failed to produce event: "@ + cause@,
    }
}

/// The URL that `text` parses to, in the form in which the `url` crate
/// writes it out; `None` where `text` is no absolute URL.
pub uninterp spec fn url_of(text: Seq<char>) -> Option<Seq<char>>;

/// Calls `Url::parse` and, where it succeeds, turns the URL into its
/// written form with `String::from`. Parsing depends on the text alone; the
/// contract gives its result that name and claims nothing else of it.
#[verifier::external_body]
fn parse_url(text: &str) -> (url: Option<String>)
    ensures
        match url {
            Some(written) => url_of(text@) == Some(written@),
            None => url_of(text@) is None,
        },
{
    match Url::parse(text) {
        Ok(url) => Some(String::from(url)),
        Err(_) => None,
    }
}

/// The address to which events for `topic` are posted.
pub fn produce_address(topic: &str) -> (address: String)
    ensures
        address@ == "http://127.0.0.1:3030/produce/"@ + topic@,
{
    String::from_str("http://127.0.0.1:3030/produce/").concat(topic)
}

/// The address at which a subscription to `topic` is opened.
pub fn subscribe_address(topic: &str) -> (address: String)
    ensures
        address@ == "ws://127.0.0.1:3030/subscribe/"@ + topic@,
{
    String::from_str("ws://127.0.0.1:3030/subscribe/").concat(topic)
}

/// The URL at which a subscription to `topic` is opened: the address of the
/// subscription as the `url` crate parses it and writes it out again, or
/// `None` if the address is no URL.
pub fn subscribe_target(topic: &str) -> (target: Option<String>)
    ensures
        match target {
            Some(written) => url_of("ws://127.0.0.1:3030/subscribe/"@ + topic@) == Some(written@),
            None => url_of("ws://127.0.0.1:3030/subscribe/"@ + topic@) is None,
        },
{
    let address = subscribe_address(topic);
    parse_url(address.as_str())
}

/// The outcome that an answer with status code `code` stands for; `status`
/// is the status as it is to be shown.
pub fn answered(code: u16, status: String) -> (outcome: ProduceOutcome)
    ensures
        outcome == if is_success(code) {
            ProduceOutcome::Accepted
        } else {
            (ProduceOutcome::Refused { status })
        },
{
    if 200 <= code && code < 300 {
        ProduceOutcome::Accepted
    } else {
        ProduceOutcome::Refused { status }
    }
}

/// The line to print for `outcome`.
pub fn produce_report(outcome: &ProduceOutcome) -> (line: String)
    ensures
        line@ == report_of(*outcome),
{
    match outcome {
        ProduceOutcome::Accepted => String::from_str("Successfully produced event."),
        ProduceOutcome::Refused { status } => String::from_str("Error producing event: ").concat(
            status.as_str(),
        ),
        ProduceOutcome::Failed { cause } => String::from_str("Failed to produce event: ").concat(
            cause.as_str(),
        ),
    }
}

/// The line to print once a subscription to `topic` is open.
pub fn connected_line(topic: &str) -> (line: String)
    ensures
        line@ == "Connected to the '"@ + topic@ + "' topic. Waiting for messages..."@,
{
    String::from_str("Connected to the '").concat(topic).concat(
        "' topic. Waiting for messages...",
    )
}

/// The line to print for a received frame: a text frame is shown with its
/// payload, any other frame is passed over.
pub fn frame_line(frame: &Frame) -> (line: Option<String>)
    ensures
        match *frame {
            Frame::Text(payload) => line is Some && line->0@ == "Received: "@ + payload@,
            Frame::Other => line is None,
        },
{
    match frame {
        Frame::Text(payload) => Some(String::from_str("Received: ").concat(payload.as_str())),
        Frame::Other => None,
    }
}

} // verus!
