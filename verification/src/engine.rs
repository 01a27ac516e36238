//! The request loops. A loop is bound to one replica for its whole life and
//! repeats one operation against it, without pause and without end.

use crate::codec::{
    build_get, build_set, decode_get_response, decode_set_response, GetResponse, PreviousValue,
    RequestSpec, SetResponse,
};
use crate::key::is_key;
use vstd::prelude::*;

verus! {

/// The two operations of the service.
#[derive(Debug, Clone, Copy, PartialEq, Eq, Structural)]
pub enum Operation {
    /// Reading the value of a key.
    Read,
    /// Writing a value to a key.
    Write,
}

/// One request loop and the replica it is bound to.
#[derive(Debug, Clone, Copy, PartialEq, Eq, Structural)]
pub enum Task {
    /// Writes payloads of `payload_size` bytes to the leader.
    Writer { payload_size: usize },
    /// Reads from the follower at position `follower` of the follower list.
    Reader { follower: usize },
}

/// A call that the service or the transport failed, with the message that
/// came with the failure.
#[derive(Debug, PartialEq, Eq)]
pub struct RpcError {
    pub operation: Operation,
    pub message: String,
}

/// The words that a report of a failed call begins with.
pub open spec fn error_tag(operation: Operation) -> Seq<char> {
    match operation {
        Operation::Read => "get error: "@,
        Operation::Write => "set error: "@,
    }
}

impl RpcError {
    /// The report of the failure: the tag of the operation, then the
    /// message.
    pub open spec fn report_text(&self) -> Seq<char> {
        error_tag(self.operation) + self.message@
    }

    /// Writes the report of the failure.
    pub fn report(&self) -> (line: String)
        ensures
            line@ == self.report_text(),
    {
        let tag = match self.operation {
            Operation::Read => "get error: ",
            Operation::Write => "set error: ",
        };
        String::from_str(tag).concat(self.message.as_str())
    }
}

/// Settles a read: the bytes of the reply, or the failure with its message.
pub fn complete_get(reply: Result<GetResponse, String>) -> (outcome: Result<Vec<u8>, RpcError>)
    ensures
        outcome == match reply {
            Ok(response) => Ok::<Vec<u8>, RpcError>(response.value),
            Err(message) => Err(RpcError { operation: Operation::Read, message }),
        },
{
    match reply {
        Ok(response) => Ok(decode_get_response(response)),
        Err(message) => Err(RpcError { operation: Operation::Read, message }),
    }
}

/// Settles a write: the value that it replaced, if there was one, or the
/// failure with its message.
pub fn complete_set(reply: Result<SetResponse, String>) -> (outcome: Result<
    Option<Vec<u8>>,
    RpcError,
>)
    ensures
        outcome == match reply {
            Ok(response) => Ok::<Option<Vec<u8>>, RpcError>(
                match response.previous_value {
                    PreviousValue::Present(bytes) => Some(bytes),
                    PreviousValue::Absent => None,
                },
            ),
            Err(message) => Err(RpcError { operation: Operation::Write, message }),
        },
{
    match reply {
        Ok(response) => Ok(decode_set_response(response)),
        Err(message) => Err(RpcError { operation: Operation::Write, message }),
    }
}

/// What a loop logs after a call: the report of the failure, and nothing
/// after a success. The loop then goes round again at once, whatever the
/// outcome was; it keeps no count of failures and never waits or stops.
pub fn failure_line<T>(outcome: &Result<T, RpcError>) -> (line: Option<String>)
    ensures
        match outcome {
            Ok(_) => line is None,
            Err(error) => line matches Some(text) && text@ == error.report_text(),
        },
{
    match outcome {
        Ok(_) => None,
        Err(error) => Some(error.report()),
    }
}

impl Task {
    /// The request of the next round, built afresh: a writer writes a new
    /// random payload of its size to a random key, a reader reads a random
    /// key.
    pub fn request(&self) -> (request: RequestSpec)
        ensures
            is_key(request@.key),
            match self {
                Task::Writer { payload_size } => request@.value matches Some(bytes)
                    && bytes.len() == payload_size,
                Task::Reader { .. } => request@.value is None,
            },
    {
        match self {
            Task::Writer { payload_size } => build_set(*payload_size),
            Task::Reader { .. } => build_get(),
        }
    }
}

} // verus!
