//! The response reader: what the reader of one pooled connection does with
//! what it reads.
//!
//! Reading and decoding are left to the caller, who hands each outcome to
//! `task_reader` and acts as it says.

use vstd::prelude::*;
use vstd::string::StringExecFns;
use crate::category::Category;

verus! {

/// A worker endpoint's reply to a request.
#[derive(Debug, PartialEq, Eq)]
pub enum Response {
    /// The endpoint took the item; the flag says whether the item was what its
    /// category promised.
    Accept { matches_expectation: bool },
    /// The endpoint refused the item of this category, for this reason.
    Reject { error_message: String, category: Category },
}

/// What a read on a pooled connection gave.
#[derive(Debug, PartialEq, Eq)]
pub enum ReaderEvent {
    /// No bytes: the endpoint has closed the connection.
    Closed,
    /// The read failed.
    ReadFailed,
    /// Bytes that are no response.
    Undecodable,
    /// A response.
    Frame(Response),
}

/// What the reader does next.
#[derive(Debug, PartialEq, Eq)]
pub enum ReaderAction {
    /// The reader ends, quietly.
    Exit,
    /// The failure is logged and the reader reads on.
    Retry,
    /// The endpoint speaks another protocol: the process ends.
    Fatal,
    /// The response is reported in these words, and the reader reads on.
    Report(String),
}

/// The words in which a response is reported.
pub open spec fn spec_report(response: Response) -> Seq<char> {
    match response {
        Response::Accept { matches_expectation } => "received accept response: "@ + (
        if matches_expectation {
            "true"@
        } else {
            "false"@
        }),
        Response::Reject { error_message, category } => "received reject response: "@
            + error_message@ + " for expression "@ + category.spec_name(),
    }
}

/// The words in which a response is reported.
pub fn report(response: &Response) -> (text: String)
    ensures
        text@ == spec_report(*response),
{
    match response {
        Response::Accept { matches_expectation } => {
            let text = String::from_str("received accept response: ");
            if *matches_expectation {
                text.concat("true")
            } else {
                text.concat("false")
            }
        },
        Response::Reject { error_message, category } => {
            let mut text = String::from_str("received reject response: ");
            text.append(error_message.as_str());
            text.append(" for expression ");
            text.append(category.name());
            text
        },
    }
}

/// Decides on what one read gave: a closed connection ends the reader, a failed
/// read is passed over, bytes that are no response end the process, and a
/// response is reported. Nothing is sent again on a refusal.
pub fn task_reader(event: &ReaderEvent) -> (action: ReaderAction)
    ensures
        match *event {
            ReaderEvent::Closed => action is Exit,
            ReaderEvent::ReadFailed => action is Retry,
            ReaderEvent::Undecodable => action is Fatal,
            ReaderEvent::Frame(response) => action matches ReaderAction::Report(text)
                && text@ == spec_report(response),
        },
{
    match event {
        ReaderEvent::Closed => ReaderAction::Exit,
        ReaderEvent::ReadFailed => ReaderAction::Retry,
        ReaderEvent::Undecodable => ReaderAction::Fatal,
        ReaderEvent::Frame(response) => ReaderAction::Report(report(response)),
    }
}

} // verus!
