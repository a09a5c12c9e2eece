//! The instruction handler.

use vstd::prelude::*;
use crate::account::{Account, Identity};
use crate::buffer::copy_payload;
use crate::error::ErrorKind;
use crate::layout::{holds_record, overlaid, record_in, RecordState};
use crate::state::GreetingAccount;

verus! {

/// What a successful invocation has to tell: the material of its log lines.
#[derive(Clone, Debug, PartialEq, Eq)]
pub struct Receipt {
    /// The counter as it is now stored in the record.
    pub counter: u32,
    /// The record state that the instruction payload spells, or `None` where
    /// the payload does not parse. It is reported, never stored.
    pub greeting: Option<GreetingAccount>,
}

impl Receipt {
    /// The receipt says of `payload` what there is to say: the state it
    /// spells, or that it spells none.
    pub open spec fn reports(self, payload: Seq<u8>) -> bool {
        match self.greeting {
            Some(greeting) => holds_record(payload) && greeting@ == record_in(payload),
            None => !holds_record(payload),
        }
    }

    /// The warning that goes with this receipt:
    /// [`ErrorKind::PayloadDecodeWarning`] where the payload did not parse.
    pub fn warning(&self) -> (warning: Option<ErrorKind>)
        ensures
            warning == (if self.greeting is None {
                Some(ErrorKind::PayloadDecodeWarning)
            } else {
                None::<ErrorKind>
            }),
    {
        match self.greeting {
            Some(_) => None,
            None => Some(ErrorKind::PayloadDecodeWarning),
        }
    }
}

/// What an invocation by `caller` decides on a record owned by `owner` that
/// stores `buffer`, given `payload`: the state to store, or the first check
/// that fails.
pub open spec fn verdict(caller: Seq<u8>, owner: Seq<u8>, buffer: Seq<u8>, payload: Seq<u8>)
    -> Result<RecordState, ErrorKind> {
    if owner != caller {
        Err(ErrorKind::UnauthorizedAccount)
    } else if !holds_record(buffer) {
        Err(ErrorKind::CorruptState)
    } else if record_in(buffer).counter == u32::MAX {
        Err(ErrorKind::CounterOverflow)
    } else if payload.len() > buffer.len() {
        Err(ErrorKind::BufferOverflow)
    } else if !record_in(buffer).greeted().fits(buffer.len()) {
        Err(ErrorKind::StateEncodeOverflow)
    } else {
        Ok(record_in(buffer).greeted())
    }
}

/// What the record stores after that invocation. On success the payload has
/// been copied over the front of the buffer and the new state written over
/// that; a failure before the first write leaves the buffer as it was.
pub open spec fn buffer_after(
    caller: Seq<u8>,
    owner: Seq<u8>,
    buffer: Seq<u8>,
    payload: Seq<u8>,
) -> Seq<u8> {
    match verdict(caller, owner, buffer, payload) {
        Ok(state) => overlaid(overlaid(buffer, payload), state.encoding()),
        Err(ErrorKind::StateEncodeOverflow) => overlaid(buffer, payload),
        Err(_) => buffer,
    }
}

/// Handles one instruction: counts a greeting on the first account.
///
/// In this order: takes the first account; checks that `program_id` owns it;
/// parses `instruction_data` for the receipt; reads the state stored in the
/// account; increments its counter; copies `instruction_data` over the front
/// of the account's buffer; writes the new state over the front of the
/// buffer. The first step that fails ends the invocation with its error.
///
/// No account but the first is touched, and no buffer changes its length.
pub fn process_instruction(
    program_id: &Identity,
    accounts: &mut [Account],
    instruction_data: &[u8],
) -> (result: Result<Receipt, ErrorKind>)
    ensures
        final(accounts)@.len() == old(accounts)@.len(),
        forall|i: int| 1 <= i < old(accounts)@.len() ==> final(accounts)@[i] == old(accounts)@[i],
        old(accounts)@.len() == 0 ==> (result matches Err(kind) && kind
            == ErrorKind::MissingAccount),
        old(accounts)@.len() > 0 ==> ({
            let before = old(accounts)@[0];
            let after = final(accounts)@[0];
            &&& after.owner == before.owner
            &&& after.data@ == buffer_after(
                program_id@,
                before.owner@,
                before.data@,
                instruction_data@,
            )
            &&& match verdict(program_id@, before.owner@, before.data@, instruction_data@) {
                Ok(state) => (result matches Ok(receipt) && receipt.counter == state.counter
                    && receipt.reports(instruction_data@)),
                Err(kind) => (result matches Err(reported) && reported == kind),
            }
        }),
{
    if accounts.len() == 0 {
        return Err(ErrorKind::MissingAccount);
    }
    let account = &mut accounts[0];
    if !account.is_owned_by(program_id) {
        return Err(ErrorKind::UnauthorizedAccount);
    }
    let greeting = GreetingAccount::deserialize(instruction_data);
    let mut state = match GreetingAccount::deserialize(account.data.as_slice()) {
        Some(state) => state,
        None => {
            return Err(ErrorKind::CorruptState);
        },
    };
    match state.increment() {
        Ok(_) => {},
        Err(kind) => {
            return Err(kind);
        },
    }
    match copy_payload(account.data.as_mut_slice(), instruction_data) {
        Ok(_) => {},
        Err(kind) => {
            return Err(kind);
        },
    }
    match state.serialize(account.data.as_mut_slice()) {
        Ok(_) => {},
        Err(kind) => {
            return Err(kind);
        },
    }
    Ok(Receipt { counter: state.counter, greeting })
}

} // verus!
