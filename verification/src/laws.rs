//! What holds of every invocation, proved from the handler's contract.

use vstd::prelude::*;
use crate::error::ErrorKind;
use crate::layout::{
    holds_record, lemma_record_reencodes, lemma_record_round_trip, overlaid, record_in,
    RecordState,
};
use crate::processor::{buffer_after, verdict};

verus! {

/// A caller that does not own the record is turned away with
/// `UnauthorizedAccount`, and the buffer stays as it was, whatever the
/// payload holds.
pub proof fn law_stranger_is_refused(
    caller: Seq<u8>,
    owner: Seq<u8>,
    buffer: Seq<u8>,
    payload: Seq<u8>,
)
    requires
        owner != caller,
    ensures
        verdict(caller, owner, buffer, payload) == Err::<RecordState, ErrorKind>(
            ErrorKind::UnauthorizedAccount,
        ),
        buffer_after(caller, owner, buffer, payload) == buffer,
{
}

/// A record state that fits a buffer is read back from that buffer as it was
/// written there, whatever the buffer held before.
pub proof fn law_encoding_round_trip(state: RecordState, buffer: Seq<u8>)
    requires
        state.fits(buffer.len()),
    ensures
        overlaid(buffer, state.encoding()).len() == buffer.len(),
        holds_record(overlaid(buffer, state.encoding())),
        record_in(overlaid(buffer, state.encoding())) == state,
{
    lemma_record_round_trip(state, buffer.skip(state.encoding().len() as int));
}

/// The state that the handler reads from a buffer always fits that buffer
/// again once it has been greeted: no invocation ends with
/// `StateEncodeOverflow`, and every failure leaves the buffer as it was.
pub proof fn law_state_fits_its_buffer(
    caller: Seq<u8>,
    owner: Seq<u8>,
    buffer: Seq<u8>,
    payload: Seq<u8>,
)
    ensures
        verdict(caller, owner, buffer, payload) != Err::<RecordState, ErrorKind>(
            ErrorKind::StateEncodeOverflow,
        ),
        verdict(caller, owner, buffer, payload) is Err ==> buffer_after(
            caller,
            owner,
            buffer,
            payload,
        ) == buffer,
{
    if holds_record(buffer) {
        lemma_record_reencodes(buffer);
    }
}

/// For an owner's invocation on a buffer that holds a state below the
/// counter's ceiling, the payload decides: one as long as the buffer is
/// accepted, one a byte longer fails with `BufferOverflow`.
pub proof fn law_payload_boundary(
    caller: Seq<u8>,
    owner: Seq<u8>,
    buffer: Seq<u8>,
    payload: Seq<u8>,
)
    requires
        owner == caller,
        holds_record(buffer),
        record_in(buffer).counter < u32::MAX,
    ensures
        payload.len() <= buffer.len() ==> verdict(caller, owner, buffer, payload) is Ok,
        payload.len() > buffer.len() ==> verdict(caller, owner, buffer, payload) == Err::<
            RecordState,
            ErrorKind,
        >(ErrorKind::BufferOverflow) && buffer_after(caller, owner, buffer, payload) == buffer,
{
    lemma_record_reencodes(buffer);
}

/// An owner's invocation on a record whose counter is at its maximum fails
/// with `CounterOverflow`, and the buffer, the counter in it included, stays
/// as it was.
pub proof fn law_counter_ceiling(
    caller: Seq<u8>,
    owner: Seq<u8>,
    buffer: Seq<u8>,
    payload: Seq<u8>,
)
    requires
        owner == caller,
        holds_record(buffer),
        record_in(buffer).counter == u32::MAX,
    ensures
        verdict(caller, owner, buffer, payload) == Err::<RecordState, ErrorKind>(
            ErrorKind::CounterOverflow,
        ),
        buffer_after(caller, owner, buffer, payload) == buffer,
{
}

/// After a successful invocation the buffer holds the state that was there
/// before, greeted once: the counter one higher, the message the same. The
/// payload leaves no trace in the stored state.
pub proof fn law_success_counts_once(
    caller: Seq<u8>,
    owner: Seq<u8>,
    buffer: Seq<u8>,
    payload: Seq<u8>,
)
    requires
        verdict(caller, owner, buffer, payload) is Ok,
    ensures
        buffer_after(caller, owner, buffer, payload).len() == buffer.len(),
        holds_record(buffer_after(caller, owner, buffer, payload)),
        record_in(buffer_after(caller, owner, buffer, payload)) == record_in(buffer).greeted(),
        record_in(buffer_after(caller, owner, buffer, payload)).counter == record_in(
            buffer,
        ).counter + 1,
{
    law_encoding_round_trip(record_in(buffer).greeted(), overlaid(buffer, payload));
}

/// The buffer after one invocation for each of `payloads`, in their order.
pub open spec fn buffer_after_all(
    caller: Seq<u8>,
    owner: Seq<u8>,
    buffer: Seq<u8>,
    payloads: Seq<Seq<u8>>,
) -> Seq<u8>
    decreases payloads.len(),
{
    if payloads.len() == 0 {
        buffer
    } else {
        buffer_after(
            caller,
            owner,
            buffer_after_all(caller, owner, buffer, payloads.drop_last()),
            payloads.last(),
        )
    }
}

/// Each of those invocations succeeds on the buffer that the ones before it
/// have left.
pub open spec fn all_succeed(
    caller: Seq<u8>,
    owner: Seq<u8>,
    buffer: Seq<u8>,
    payloads: Seq<Seq<u8>>,
) -> bool {
    forall|k: int|
        0 <= k < payloads.len() ==> verdict(
            caller,
            owner,
            #[trigger] buffer_after_all(caller, owner, buffer, payloads.take(k)),
            payloads[k],
        ) is Ok
}

/// After `k` successful invocations in a row the counter has grown by `k`:
/// from 0 it stands at `k`. The message is the one the record started with.
pub proof fn law_counter_counts_invocations(
    caller: Seq<u8>,
    owner: Seq<u8>,
    buffer: Seq<u8>,
    payloads: Seq<Seq<u8>>,
    k: int,
)
    requires
        all_succeed(caller, owner, buffer, payloads),
        1 <= k <= payloads.len(),
    ensures
        holds_record(buffer),
        holds_record(buffer_after_all(caller, owner, buffer, payloads.take(k))),
        record_in(buffer_after_all(caller, owner, buffer, payloads.take(k))).counter
            == record_in(buffer).counter + k,
        record_in(buffer_after_all(caller, owner, buffer, payloads.take(k))).message
            == record_in(buffer).message,
    decreases k,
{
    let done = payloads.take(k - 1);
    let before = buffer_after_all(caller, owner, buffer, done);
    assert(verdict(caller, owner, before, payloads[k - 1]) is Ok);
    assert(payloads.take(k).drop_last() =~= done);
    assert(payloads.take(k).last() == payloads[k - 1]);
    law_success_counts_once(caller, owner, before, payloads[k - 1]);
    if k > 1 {
        law_counter_counts_invocations(caller, owner, buffer, payloads, k - 1);
    } else {
        assert(done =~= Seq::<Seq<u8>>::empty());
    }
}

} // verus!
