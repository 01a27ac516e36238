//! Requests and replies of the two operations of the key-value service.
//!
//! A request is built from two random draws, a key index and, for a write, a
//! payload. The draws are the only part left to chance: what is made of them
//! is fixed by `RequestSpec::get` and `RequestSpec::set`.

use crate::key::{decimal, is_key, key_for, KEY_SPACE};
use vstd::prelude::*;

verus! {

/// What a request says, as plain values.
pub struct RequestView {
    pub key: Seq<char>,
    pub value: Option<Seq<u8>>,
}

/// One request to the service: a read when it carries no value, a write of
/// the value otherwise. It cannot be changed once built.
#[derive(Debug, PartialEq, Eq)]
pub struct RequestSpec {
    key: String,
    value: Option<Vec<u8>>,
}

impl View for RequestSpec {
    type V = RequestView;

    closed spec fn view(&self) -> RequestView {
        RequestView {
            key: self.key@,
            value: match self.value {
                Some(bytes) => Some(bytes@),
                None => None,
            },
        }
    }
}

/// The previous value of a key, as a write reports it.
#[derive(Debug, PartialEq, Eq)]
pub enum PreviousValue {
    /// The key held these bytes before the write.
    Present(Vec<u8>),
    /// The key was not set before the write.
    Absent,
}

/// Reply to a read.
#[derive(Debug, PartialEq, Eq)]
pub struct GetResponse {
    pub value: Vec<u8>,
}

/// Reply to a write.
#[derive(Debug, PartialEq, Eq)]
pub struct SetResponse {
    pub previous_value: PreviousValue,
}

/// Draws from `..bound` with `rand::Rng::random_range` on the generator
/// that `rand::rng()` hands out. The draw lies in the range; nothing else is
/// known of it. An empty range makes `random_range` panic, so `bound` is
/// positive.
#[verifier::external_body]
fn random_below(bound: u32) -> (n: u32)
    requires
        bound > 0,
    ensures
        n < bound,
{
    rand::Rng::random_range(&mut rand::rng(), ..bound)
}

/// Overwrites `buf` with `rand::RngCore::fill_bytes` on the generator that
/// `rand::rng()` hands out. The call writes into the slice it is given and
/// cannot change its length; nothing is known of the bytes it leaves.
#[verifier::external_body]
fn fill_random(buf: &mut Vec<u8>)
    ensures
        final(buf)@.len() == old(buf)@.len(),
{
    rand::RngCore::fill_bytes(&mut rand::rng(), buf.as_mut_slice())
}

impl RequestSpec {
    /// The read of key number `index`.
    pub fn get(index: u32) -> (request: RequestSpec)
        ensures
            request@ == (RequestView { key: decimal(index as nat), value: None }),
            index < KEY_SPACE ==> is_key(request@.key),
    {
        RequestSpec { key: key_for(index), value: None }
    }

    /// The write of `value` to key number `index`.
    pub fn set(index: u32, value: Vec<u8>) -> (request: RequestSpec)
        ensures
            request@ == (RequestView { key: decimal(index as nat), value: Some(value@) }),
            index < KEY_SPACE ==> is_key(request@.key),
    {
        RequestSpec { key: key_for(index), value: Some(value) }
    }

    /// The key that the request names.
    pub fn key(&self) -> (key: &str)
        ensures
            key@ == self@.key,
    {
        self.key.as_str()
    }

    /// The bytes to write, or `None` for a read.
    pub fn value(&self) -> (value: Option<&Vec<u8>>)
        ensures
            match value {
                Some(bytes) => self@.value == Some(bytes@),
                None => self@.value is None,
            },
    {
        self.value.as_ref()
    }

    /// Takes the request apart into its key and its value.
    pub fn into_parts(self) -> (parts: (String, Option<Vec<u8>>))
        ensures
            parts.0@ == self@.key,
            match parts.1 {
                Some(bytes) => self@.value == Some(bytes@),
                None => self@.value is None,
            },
    {
        (self.key, self.value)
    }
}

/// A read of a key drawn at random from the key space.
pub fn build_get() -> (request: RequestSpec)
    ensures
        is_key(request@.key),
        request@.value is None,
{
    let index = random_below(KEY_SPACE);
    RequestSpec::get(index)
}

/// A write, to a key drawn at random from the key space, of exactly
/// `payload_size` random bytes. The whole buffer is allocated first and then
/// overwritten, so no byte of the value is left out.
pub fn build_set(payload_size: usize) -> (request: RequestSpec)
    ensures
        is_key(request@.key),
        request@.value matches Some(bytes) && bytes.len() == payload_size,
{
    let index = random_below(KEY_SPACE);
    let mut value: Vec<u8> = vec![0u8; payload_size];
    fill_random(&mut value);
    RequestSpec::set(index, value)
}

/// The bytes that a read returned.
pub fn decode_get_response(raw: GetResponse) -> (value: Vec<u8>)
    ensures
        value == raw.value,
{
    raw.value
}

/// The value that a write replaced: the bytes where the reply is tagged
/// `Present`, nothing where it is tagged `Absent`. Absence is an answer, not
/// a failure.
pub fn decode_set_response(raw: SetResponse) -> (previous: Option<Vec<u8>>)
    ensures
        match raw.previous_value {
            PreviousValue::Present(bytes) => previous == Some(bytes),
            PreviousValue::Absent => previous is None,
        },
{
    match raw.previous_value {
        PreviousValue::Present(bytes) => Some(bytes),
        PreviousValue::Absent => None,
    }
}

} // verus!
