//! The record state and its passage to and from bytes.

use vstd::prelude::*;
use vstd::slice::slice_subrange;
use vstd::utf8::*;
use crate::buffer::write_front;
use crate::error::ErrorKind;
use crate::layout::{
    holds_record, lemma_text_reframes, overlaid, record_in, RecordState,
};
use crate::wire::{put_text, put_u32, take_text, take_u32};

verus! {

/// The state kept in a record: how often it was greeted, and a message.
#[derive(Clone, Debug, PartialEq, Eq)]
pub struct GreetingAccount {
    /// Number of greetings.
    pub counter: u32,
    /// The text attached to the record.
    pub message: String,
}

impl View for GreetingAccount {
    type V = RecordState;

    open spec fn view(&self) -> RecordState {
        RecordState { counter: self.counter, message: self.message@ }
    }
}

impl GreetingAccount {
    /// Reads the record state at the front of `bytes`. Bytes after the state
    /// are not looked at.
    ///
    /// Returns `None` exactly when `bytes` does not start with a record
    /// state: the counter or the length prefix is cut short, fewer bytes
    /// follow than the prefix announces, or the message is not valid UTF-8.
    pub fn deserialize(bytes: &[u8]) -> (state: Option<GreetingAccount>)
        ensures
            state is Some <==> holds_record(bytes@),
            state matches Some(s) ==> s@ == record_in(bytes@),
    {
        let counter = match take_u32(bytes) {
            Some(counter) => counter,
            None => {
                return None;
            },
        };
        let rest = slice_subrange(bytes, 4, bytes.len());
        assert(rest@ =~= bytes@.skip(4));
        match take_text(rest) {
            Some(message) => Some(GreetingAccount { counter, message }),
            None => None,
        }
    }

    /// Reads a record state that fills `bytes` from the first byte to the
    /// last.
    ///
    /// Returns `None` where [`GreetingAccount::deserialize`] does, and also
    /// where bytes are left over behind the state.
    pub fn try_from_slice(bytes: &[u8]) -> (state: Option<GreetingAccount>)
        ensures
            state is Some <==> holds_record(bytes@) && record_in(bytes@).encoded_len()
                == bytes@.len(),
            state matches Some(s) ==> s@ == record_in(bytes@),
    {
        match GreetingAccount::deserialize(bytes) {
            Some(state) => {
                proof {
                    lemma_text_reframes(bytes@.skip(4));
                }
                if state.message.as_str().as_bytes().len() == bytes.len() - 8 {
                    Some(state)
                } else {
                    None
                }
            },
            None => None,
        }
    }

    /// The encoding of this state in a vector of its own.
    ///
    /// Returns `None` exactly when the message is longer than its four-byte
    /// length prefix can say.
    pub fn try_to_vec(&self) -> (bytes: Option<Vec<u8>>)
        ensures
            bytes is Some <==> self@.encodable(),
            bytes matches Some(b) ==> b@ == self@.encoding(),
    {
        let mut out: Vec<u8> = Vec::new();
        put_u32(self.counter, &mut out);
        if put_text(self.message.as_str(), &mut out) {
            assert(out@ =~= self@.encoding());
            Some(out)
        } else {
            None
        }
    }

    /// Writes the encoding of this state over the front of `buffer`, if it
    /// fits. The bytes of `buffer` behind the encoding stay as they are, and
    /// the length of the encoding is returned.
    ///
    /// Fails with [`ErrorKind::StateEncodeOverflow`] exactly when the state
    /// does not fit; `buffer` is then untouched.
    pub fn serialize(&self, buffer: &mut [u8]) -> (written: Result<usize, ErrorKind>)
        ensures
            match written {
                Ok(n) => {
                    &&& self@.fits(old(buffer)@.len())
                    &&& n == self@.encoded_len()
                    &&& final(buffer)@ == overlaid(old(buffer)@, self@.encoding())
                },
                Err(kind) => {
                    &&& kind == ErrorKind::StateEncodeOverflow
                    &&& !self@.fits(old(buffer)@.len())
                    &&& final(buffer)@ == old(buffer)@
                },
            },
    {
        match self.try_to_vec() {
            Some(bytes) => {
                assert(bytes@.len() == self@.encoded_len());
                if bytes.len() <= buffer.len() {
                    write_front(buffer, bytes.as_slice());
                    Ok(bytes.len())
                } else {
                    Err(ErrorKind::StateEncodeOverflow)
                }
            },
            None => Err(ErrorKind::StateEncodeOverflow),
        }
    }

    /// Counts one more greeting.
    ///
    /// Fails with [`ErrorKind::CounterOverflow`] exactly when the counter is
    /// at its maximum; the state is then unchanged.
    pub fn increment(&mut self) -> (done: Result<(), ErrorKind>)
        ensures
            match done {
                Ok(_) => old(self).counter < u32::MAX && final(self)@ == old(self)@.greeted(),
                Err(kind) => {
                    &&& kind == ErrorKind::CounterOverflow
                    &&& old(self).counter == u32::MAX
                    &&& *final(self) == *old(self)
                },
            },
    {
        match self.counter.checked_add(1) {
            Some(next) => {
                self.counter = next;
                Ok(())
            },
            None => Err(ErrorKind::CounterOverflow),
        }
    }
}

} // verus!
