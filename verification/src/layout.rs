//! The binary layout of a record state, stated over sequences of bytes.
//!
//! A record state lies at the front of a buffer as
//!
//! | bytes          | content                                        |
//! |----------------|------------------------------------------------|
//! | `0..4`         | the counter, little-endian                     |
//! | `4..8`         | the byte length `n` of the message, little-endian |
//! | `8..8 + n`     | the message in UTF-8                           |
//!
//! Whatever follows byte `8 + n` is not part of the record.

use vstd::arithmetic::div_mod::{lemma_fundamental_div_mod, lemma_fundamental_div_mod_converse};
use vstd::prelude::*;
use vstd::utf8::*;

verus! {

/// A record state as a mathematical value: what a
/// [`GreetingAccount`](crate::state::GreetingAccount) stands for.
pub struct RecordState {
    /// How often the record has been greeted.
    pub counter: u32,
    /// The text attached to the record.
    pub message: Seq<char>,
}

/// The four bytes of `value`, least significant first.
pub open spec fn le_bytes(value: u32) -> Seq<u8> {
    seq![
        (value % 256) as u8,
        (value / 256 % 256) as u8,
        (value / 65536 % 256) as u8,
        (value / 16777216) as u8,
    ]
}

/// The number that the first four bytes of `bytes` spell, least significant
/// byte first.
pub open spec fn le_value(bytes: Seq<u8>) -> u32
    recommends
        bytes.len() >= 4,
{
    (bytes[0] + 256 * bytes[1] + 65536 * bytes[2] + 16777216 * bytes[3]) as u32
}

/// A text can be framed when its UTF-8 length fits the four-byte prefix.
pub open spec fn frameable(text: Seq<char>) -> bool {
    encode_utf8(text).len() <= u32::MAX
}

/// A text with its length in front: the length of its UTF-8 form in four
/// little-endian bytes, then the UTF-8 form.
pub open spec fn text_frame(text: Seq<char>) -> Seq<u8>
    recommends
        frameable(text),
{
    le_bytes(encode_utf8(text).len() as u32) + encode_utf8(text)
}

/// `bytes` starts with a framed text: a length prefix, at least that many
/// bytes after it, and those bytes are valid UTF-8.
pub open spec fn holds_text(bytes: Seq<u8>) -> bool {
    &&& bytes.len() >= 4
    &&& 4 + le_value(bytes) <= bytes.len()
    &&& valid_utf8(bytes.subrange(4, 4 + le_value(bytes)))
}

/// The text framed at the front of `bytes`.
pub open spec fn text_in(bytes: Seq<u8>) -> Seq<char>
    recommends
        holds_text(bytes),
{
    decode_utf8(bytes.subrange(4, 4 + le_value(bytes)))
}

impl RecordState {
    /// The state has an encoding when its message can be framed.
    pub open spec fn encodable(self) -> bool {
        frameable(self.message)
    }

    /// The bytes that store this state: the counter, then the framed message.
    pub open spec fn encoding(self) -> Seq<u8>
        recommends
            self.encodable(),
    {
        le_bytes(self.counter) + text_frame(self.message)
    }

    /// The length of the encoding: 4 + 4 + the UTF-8 length of the message.
    pub open spec fn encoded_len(self) -> nat {
        8 + encode_utf8(self.message).len()
    }

    /// The state fits a buffer of `capacity` bytes.
    pub open spec fn fits(self, capacity: nat) -> bool {
        self.encodable() && self.encoded_len() <= capacity
    }

    /// This state greeted once more: the counter one higher, the message
    /// untouched.
    pub open spec fn greeted(self) -> RecordState
        recommends
            self.counter < u32::MAX,
    {
        RecordState { counter: (self.counter + 1) as u32, message: self.message }
    }
}

/// `bytes` starts with the encoding of a record state.
pub open spec fn holds_record(bytes: Seq<u8>) -> bool {
    bytes.len() >= 4 && holds_text(bytes.skip(4))
}

/// The record state encoded at the front of `bytes`.
pub open spec fn record_in(bytes: Seq<u8>) -> RecordState
    recommends
        holds_record(bytes),
{
    RecordState { counter: le_value(bytes), message: text_in(bytes.skip(4)) }
}

/// `buffer` after `bytes` have been copied over its front.
pub open spec fn overlaid(buffer: Seq<u8>, bytes: Seq<u8>) -> Seq<u8>
    recommends
        bytes.len() <= buffer.len(),
{
    bytes + buffer.skip(bytes.len() as int)
}

/// The digits of a number in base 256 are what it was put together from.
proof fn lemma_digits(b0: int, b1: int, b2: int, b3: int)
    requires
        0 <= b0 < 256,
        0 <= b1 < 256,
        0 <= b2 < 256,
        0 <= b3 < 256,
    ensures
        ({
            let value = b0 + 256 * b1 + 65536 * b2 + 16777216 * b3;
            &&& 0 <= value <= u32::MAX
            &&& value % 256 == b0
            &&& value / 256 % 256 == b1
            &&& value / 65536 % 256 == b2
            &&& value / 16777216 == b3
        }),
{
    let value = b0 + 256 * b1 + 65536 * b2 + 16777216 * b3;
    lemma_fundamental_div_mod_converse(value, 256, b1 + 256 * b2 + 65536 * b3, b0);
    lemma_fundamental_div_mod_converse(b1 + 256 * b2 + 65536 * b3, 256, b2 + 256 * b3, b1);
    lemma_fundamental_div_mod_converse(value, 65536, b2 + 256 * b3, b0 + 256 * b1);
    lemma_fundamental_div_mod_converse(b2 + 256 * b3, 256, b3, b2);
    lemma_fundamental_div_mod_converse(value, 16777216, b3, b0 + 256 * b1 + 65536 * b2);
}

/// A number is put together again from its digits in base 256.
proof fn lemma_sum_of_digits(value: int)
    requires
        0 <= value <= u32::MAX,
    ensures
        value == value % 256 + 256 * (value / 256 % 256) + 65536 * (value / 65536 % 256)
            + 16777216 * (value / 16777216),
        0 <= value / 16777216 < 256,
{
    let b3 = value / 16777216;
    let low3 = value % 16777216;
    lemma_fundamental_div_mod(value, 16777216);
    let b2 = low3 / 65536;
    let low2 = low3 % 65536;
    lemma_fundamental_div_mod(low3, 65536);
    let b1 = low2 / 256;
    let b0 = low2 % 256;
    lemma_fundamental_div_mod(low2, 256);
    assert(value == b0 + 256 * b1 + 65536 * b2 + 16777216 * b3);
    lemma_digits(b0, b1, b2, b3);
}

/// Four little-endian bytes spell the number they were made from, whatever
/// follows them.
pub proof fn lemma_le_value_of_bytes(value: u32, tail: Seq<u8>)
    ensures
        le_bytes(value).len() == 4,
        le_value(le_bytes(value) + tail) == value,
{
    let bytes = le_bytes(value) + tail;
    assert(bytes[0] == le_bytes(value)[0]);
    assert(bytes[1] == le_bytes(value)[1]);
    assert(bytes[2] == le_bytes(value)[2]);
    assert(bytes[3] == le_bytes(value)[3]);
    lemma_sum_of_digits(value as int);
}

/// The number that four bytes spell is written with those same four bytes.
pub proof fn lemma_le_bytes_of_value(bytes: Seq<u8>)
    requires
        bytes.len() >= 4,
    ensures
        le_bytes(le_value(bytes)) == bytes.take(4),
{
    lemma_digits(bytes[0] as int, bytes[1] as int, bytes[2] as int, bytes[3] as int);
    assert(le_bytes(le_value(bytes)) =~= bytes.take(4));
}

/// A framed text is read back as it was written, whatever follows it.
pub proof fn lemma_text_round_trip(text: Seq<char>, tail: Seq<u8>)
    requires
        frameable(text),
    ensures
        text_frame(text).len() == 4 + encode_utf8(text).len(),
        holds_text(text_frame(text) + tail),
        text_in(text_frame(text) + tail) == text,
{
    let body = encode_utf8(text);
    let bytes = text_frame(text) + tail;
    lemma_le_value_of_bytes(body.len() as u32, body + tail);
    assert(bytes =~= le_bytes(body.len() as u32) + (body + tail));
    assert(bytes.subrange(4, 4 + body.len() as int) =~= body);
    encode_utf8_valid_utf8(text);
    encode_utf8_decode_utf8(text);
}

/// The text read from a buffer is framed by exactly the bytes it was read
/// from.
pub proof fn lemma_text_reframes(bytes: Seq<u8>)
    requires
        holds_text(bytes),
    ensures
        frameable(text_in(bytes)),
        encode_utf8(text_in(bytes)).len() == le_value(bytes),
        text_frame(text_in(bytes)) == bytes.take(4 + le_value(bytes)),
{
    let body = bytes.subrange(4, 4 + le_value(bytes));
    decode_utf8_encode_utf8(body);
    lemma_le_bytes_of_value(bytes);
    assert(text_frame(text_in(bytes)) =~= bytes.take(4 + le_value(bytes)));
}

/// An encoded record state is read back as it was written, whatever follows
/// it.
pub proof fn lemma_record_round_trip(state: RecordState, tail: Seq<u8>)
    requires
        state.encodable(),
    ensures
        state.encoding().len() == state.encoded_len(),
        holds_record(state.encoding() + tail),
        record_in(state.encoding() + tail) == state,
{
    let bytes = state.encoding() + tail;
    lemma_le_value_of_bytes(state.counter, text_frame(state.message) + tail);
    lemma_text_round_trip(state.message, tail);
    assert(bytes =~= le_bytes(state.counter) + (text_frame(state.message) + tail));
    assert(bytes.skip(4) =~= text_frame(state.message) + tail);
}

/// The record state read from a buffer is encoded by exactly the bytes it was
/// read from, so it fits the buffer it came out of.
pub proof fn lemma_record_reencodes(bytes: Seq<u8>)
    requires
        holds_record(bytes),
    ensures
        record_in(bytes).fits(bytes.len()),
        record_in(bytes).encoding() == bytes.take(record_in(bytes).encoded_len() as int),
{
    let state = record_in(bytes);
    lemma_text_reframes(bytes.skip(4));
    lemma_le_bytes_of_value(bytes);
    assert(state.encoding() =~= bytes.take(state.encoded_len() as int));
}

} // verus!
