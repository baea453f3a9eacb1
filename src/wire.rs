//! Field encodings of the message payloads, as postcard writes and reads
//! them. Each field of a message is handed to postcard as a plain value, so
//! the bytes are those that postcard gives a message enum: the variant's
//! index as a varint, then its field.
use vstd::prelude::*;

verus! {

/// The bytes that postcard writes for a `u32` (a varint).
pub uninterp spec fn postcard_u32(v: u32) -> Seq<u8>;

/// The bytes that postcard writes for an `i64` (a zigzag varint).
pub uninterp spec fn postcard_i64(v: i64) -> Seq<u8>;

/// The bytes that postcard writes for a string: its byte length as a
/// varint, then its UTF-8 bytes.
pub uninterp spec fn postcard_str(s: Seq<char>) -> Seq<u8>;

/// The bytes that postcard writes for a `char`: the char's UTF-8 bytes,
/// written as a string.
pub uninterp spec fn postcard_char(c: char) -> Seq<u8>;

/// Relies on postcard::to_allocvec for a `u32`; writing into a growable
/// vector does not fail.
#[verifier::external_body]
pub(crate) fn put_u32(v: u32) -> (r: Vec<u8>)
    ensures
        r@ == postcard_u32(v),
{
    match postcard::to_allocvec(&v) {
        Ok(b) => b,
        Err(_) => Vec::new(),
    }
}

/// Relies on postcard::to_allocvec for an `i64`; writing into a growable
/// vector does not fail.
#[verifier::external_body]
pub(crate) fn put_i64(v: i64) -> (r: Vec<u8>)
    ensures
        r@ == postcard_i64(v),
{
    match postcard::to_allocvec(&v) {
        Ok(b) => b,
        Err(_) => Vec::new(),
    }
}

/// Relies on postcard::to_allocvec for a `str`; writing into a growable
/// vector does not fail.
#[verifier::external_body]
pub(crate) fn put_str(s: &str) -> (r: Vec<u8>)
    ensures
        r@ == postcard_str(s@),
{
    match postcard::to_allocvec(s) {
        Ok(b) => b,
        Err(_) => Vec::new(),
    }
}

/// Relies on postcard::to_allocvec for a `char`; writing into a growable
/// vector does not fail.
#[verifier::external_body]
pub(crate) fn put_char(c: char) -> (r: Vec<u8>)
    ensures
        r@ == postcard_char(c),
{
    match postcard::to_allocvec(&c) {
        Ok(b) => b,
        Err(_) => Vec::new(),
    }
}

/// Relies on postcard::take_from_bytes for a `u32`: it reads back what
/// to_allocvec wrote and hands back the bytes after it.
#[verifier::external_body]
pub(crate) fn take_u32(b: &[u8]) -> (r: Option<(u32, Vec<u8>)>)
    ensures
        forall|v: u32, rest: Seq<u8>|
            b@ == #[trigger] (postcard_u32(v) + rest) ==> r is Some && r.unwrap().0 == v && r.unwrap().1@ == rest,
{
    match postcard::take_from_bytes::<u32>(b) {
        Ok((v, tail)) => Some((v, tail.to_vec())),
        Err(_) => None,
    }
}

/// Relies on postcard::take_from_bytes for an `i64`: it reads back what
/// to_allocvec wrote and hands back the bytes after it.
#[verifier::external_body]
pub(crate) fn take_i64(b: &[u8]) -> (r: Option<(i64, Vec<u8>)>)
    ensures
        forall|v: i64, rest: Seq<u8>|
            b@ == #[trigger] (postcard_i64(v) + rest) ==> r is Some && r.unwrap().0 == v && r.unwrap().1@ == rest,
{
    match postcard::take_from_bytes::<i64>(b) {
        Ok((v, tail)) => Some((v, tail.to_vec())),
        Err(_) => None,
    }
}

/// Relies on postcard::take_from_bytes for a `String`: it reads back what
/// to_allocvec wrote and hands back the bytes after it.
#[verifier::external_body]
pub(crate) fn take_string(b: &[u8]) -> (r: Option<(String, Vec<u8>)>)
    ensures
        forall|s: Seq<char>, rest: Seq<u8>|
            b@ == #[trigger] (postcard_str(s) + rest) ==> r is Some && r.unwrap().0@ == s && r.unwrap().1@ == rest,
{
    match postcard::take_from_bytes::<String>(b) {
        Ok((v, tail)) => Some((v, tail.to_vec())),
        Err(_) => None,
    }
}

/// Relies on postcard::take_from_bytes for a `char`: it reads back what
/// to_allocvec wrote and hands back the bytes after it.
#[verifier::external_body]
pub(crate) fn take_char(b: &[u8]) -> (r: Option<(char, Vec<u8>)>)
    ensures
        forall|c: char, rest: Seq<u8>|
            b@ == #[trigger] (postcard_char(c) + rest) ==> r is Some && r.unwrap().0 == c && r.unwrap().1@ == rest,
{
    match postcard::take_from_bytes::<char>(b) {
        Ok((v, tail)) => Some((v, tail.to_vec())),
        Err(_) => None,
    }
}

} // verus!
