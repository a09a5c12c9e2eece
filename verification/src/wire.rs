//! The calls into `borsh` that turn field values into bytes and back.
//!
//! Nothing in this module is proved: each contract states what the `borsh`
//! implementation for the field's type does, and the rest of the crate is
//! verified against these statements.

use vstd::prelude::*;
use vstd::utf8::*;
use crate::layout::{holds_text, le_bytes, le_value, text_frame, text_in};

verus! {

/// Reads a `u32` from the front of `bytes` with
/// `<u32 as borsh::BorshDeserialize>::deserialize`.
///
/// Trusted: `borsh` reads exactly four bytes and takes them as a
/// little-endian number; with fewer than four bytes it reports an error.
#[verifier::external_body]
pub(crate) fn take_u32(bytes: &[u8]) -> (value: Option<u32>)
    ensures
        value is Some <==> bytes@.len() >= 4,
        value matches Some(v) ==> v == le_value(bytes@),
{
    let mut rest: &[u8] = bytes;
    let value: Result<u32, borsh::io::Error> = borsh::BorshDeserialize::deserialize(&mut rest);
    value.ok()
}

/// Reads a `String` from the front of `bytes` with
/// `<String as borsh::BorshDeserialize>::deserialize`.
///
/// Trusted: `borsh` reads a four-byte little-endian length, then that many
/// bytes, and hands them to `String::from_utf8`. It reports an error when the
/// length prefix is cut short, when fewer bytes follow than the prefix
/// announces, or when they are not valid UTF-8.
#[verifier::external_body]
pub(crate) fn take_text(bytes: &[u8]) -> (text: Option<String>)
    ensures
        text is Some <==> holds_text(bytes@),
        text matches Some(t) ==> t@ == text_in(bytes@),
{
    let mut rest: &[u8] = bytes;
    let text: Result<String, borsh::io::Error> = borsh::BorshDeserialize::deserialize(&mut rest);
    text.ok()
}

/// Appends `value` to `out` with `<u32 as borsh::BorshSerialize>::serialize`.
///
/// Trusted: `borsh` writes the four little-endian bytes of `value`, and
/// writing to a `Vec<u8>` appends and does not fail.
#[verifier::external_body]
pub(crate) fn put_u32(value: u32, out: &mut Vec<u8>)
    ensures
        final(out)@ == old(out)@ + le_bytes(value),
{
    let _ = borsh::BorshSerialize::serialize(&value, out);
}

/// Appends `text` to `out` with `<str as borsh::BorshSerialize>::serialize`.
///
/// Trusted: `borsh` writes the byte length of `text` as four little-endian
/// bytes and then the bytes of `text`. Where the length does not fit in a
/// `u32` it reports an error before it writes anything.
#[verifier::external_body]
pub(crate) fn put_text(text: &str, out: &mut Vec<u8>) -> (done: bool)
    ensures
        done == (encode_utf8(text@).len() <= u32::MAX),
        done ==> final(out)@ == old(out)@ + text_frame(text@),
        !done ==> final(out)@ == old(out)@,
{
    borsh::BorshSerialize::serialize(text, out).is_ok()
}

} // verus!
