//! What holds of whole runs of requests.
//!
//! The lemmas here are stated over the state and the functions that the
//! contract of [`crate::dfu::DfuTarget::process`] speaks of, for requests
//! whose flash operation succeeded.

use crate::codec::{DfuRequestView, ObjectType};
use crate::crc::lemma_crc32_empty;
use crate::dfu::DfuTargetView;
use vstd::prelude::*;

verus! {

/// The state after one request whose flash operation succeeded: a write that
/// is out of bounds leaves the state, every other request is carried out.
pub open spec fn step(state: DfuTargetView, request: DfuRequestView) -> DfuTargetView {
    if state.out_of_bounds(request) {
        state
    } else {
        state.next(request)
    }
}

/// The state after one write for each of `payloads`, in order.
pub open spec fn after_writes(state: DfuTargetView, payloads: Seq<Seq<u8>>) -> DfuTargetView
    decreases payloads.len(),
{
    if payloads.len() == 0 {
        state
    } else {
        step(
            after_writes(state, payloads.drop_last()),
            DfuRequestView::Write { data: payloads.last() },
        )
    }
}

/// Whether the write of `payloads[i]`, after the writes before it, is
/// answered with a checksum.
pub open spec fn answered(state: DfuTargetView, payloads: Seq<Seq<u8>>, i: int) -> bool {
    after_writes(state, payloads.take(i)).body(DfuRequestView::Write { data: payloads[i] })
        is Some
}

/// How many of the writes of `payloads` are answered with a checksum.
pub open spec fn answers(state: DfuTargetView, payloads: Seq<Seq<u8>>) -> nat
    decreases payloads.len(),
{
    if payloads.len() == 0 {
        0
    } else {
        let n = payloads.len() - 1;
        answers(state, payloads.drop_last()) + if answered(state, payloads, n) {
            1nat
        } else {
            0nat
        }
    }
}

/// The payloads up to the last, laid end to end with the last, are all the
/// payloads laid end to end.
proof fn lemma_flatten_last(payloads: Seq<Seq<u8>>)
    requires
        payloads.len() > 0,
    ensures
        payloads.flatten() == payloads.drop_last().flatten() + payloads.last(),
{
    payloads.drop_last().lemma_flatten_push(payloads.last());
    assert(payloads.drop_last().push(payloads.last()) =~= payloads);
}

/// Writes that together stay in the 32-bit range are all accepted, and the
/// active object has then received their payloads end to end: its offset has
/// grown by their total length.  The other object, the sizes and which
/// object is active stay as they were.
pub proof fn lemma_writes_accumulate(state: DfuTargetView, payloads: Seq<Seq<u8>>)
    requires
        state.objects.active().received.len() + payloads.flatten().len() <= u32::MAX,
    ensures
        after_writes(state, payloads).objects == state.objects.append(payloads.flatten()),
        after_writes(state, payloads).objects.active().offset() == state.objects.active().offset()
            + payloads.flatten().len(),
        after_writes(state, payloads).crc_receipt_interval == state.crc_receipt_interval,
    decreases payloads.len(),
{
    if payloads.len() == 0 {
        assert(payloads.flatten() =~= Seq::<u8>::empty());
        assert(state.objects.active().received + payloads.flatten()
            =~= state.objects.active().received);
    } else {
        let before = payloads.drop_last();
        lemma_flatten_last(payloads);
        lemma_writes_accumulate(state, before);
        assert(state.objects.active().received + before.flatten() + payloads.last()
            =~= state.objects.active().received + payloads.flatten());
    }
}

/// An offset never shrinks under writes, whether they are accepted or
/// refused.
pub proof fn lemma_writes_never_rewind(state: DfuTargetView, payloads: Seq<Seq<u8>>)
    ensures
        after_writes(state, payloads).objects.current == state.objects.current,
        after_writes(state, payloads).objects.active().offset() >= state.objects.active().offset(),
    decreases payloads.len(),
{
    if payloads.len() > 0 {
        lemma_writes_never_rewind(state, payloads.drop_last());
    }
}

/// After an object was created with `size` declared, writes whose payloads
/// together are no longer than `size` are all accepted and leave the offset
/// at their total length, which is within the declared size.
pub proof fn lemma_offset_after_create(
    state: DfuTargetView,
    kind: ObjectType,
    size: u32,
    payloads: Seq<Seq<u8>>,
)
    requires
        kind.slot() is Some,
        payloads.flatten().len() <= size,
    ensures
        ({
            let created = state.next(DfuRequestView::Create { obj_type: kind, obj_size: size });
            let object = after_writes(created, payloads).objects.active();
            &&& object.kind == kind
            &&& object.size == size
            &&& object.received == payloads.flatten()
            &&& object.offset() == payloads.flatten().len()
            &&& object.within_size()
        }),
{
    let created = state.next(DfuRequestView::Create { obj_type: kind, obj_size: size });
    lemma_writes_accumulate(created, payloads);
    assert(Seq::<u8>::empty() + payloads.flatten() =~= payloads.flatten());
}

/// While the writes after a creation stay within the declared size, so does
/// the offset after each of them.
pub proof fn lemma_offset_within_size_throughout(
    state: DfuTargetView,
    kind: ObjectType,
    size: u32,
    payloads: Seq<Seq<u8>>,
    k: int,
)
    requires
        kind.slot() is Some,
        payloads.flatten().len() <= size,
        0 <= k <= payloads.len(),
    ensures
        ({
            let created = state.next(DfuRequestView::Create { obj_type: kind, obj_size: size });
            after_writes(created, payloads.take(k)).objects.active().within_size()
        }),
{
    lemma_flatten_prefix_len(payloads, k);
    lemma_offset_after_create(state, kind, size, payloads.take(k));
}

/// The first `k` payloads are together no longer than all of them.
pub proof fn lemma_flatten_prefix_len(payloads: Seq<Seq<u8>>, k: int)
    requires
        0 <= k <= payloads.len(),
    ensures
        payloads.take(k).flatten().len() <= payloads.flatten().len(),
    decreases payloads.len() - k,
{
    if k < payloads.len() {
        lemma_flatten_prefix_len(payloads, k + 1);
        lemma_flatten_last(payloads.take(k + 1));
        assert(payloads.take(k + 1).drop_last() =~= payloads.take(k));
    } else {
        assert(payloads.take(k) =~= payloads);
    }
}

/// Without throttling every accepted write is answered with the offset and
/// checksum of the active object as they are after it.
pub proof fn lemma_unthrottled_write_answers(state: DfuTargetView, data: Seq<u8>)
    requires
        state.crc_receipt_interval == 0,
    ensures
        state.body(DfuRequestView::Write { data }) == Some(
            state.next(DfuRequestView::Write { data }).progress(),
        ),
        state.next(DfuRequestView::Write { data }).receipt_count == state.receipt_count,
{
}

/// Without throttling, of writes that are all accepted each one is answered
/// with a checksum.
pub proof fn lemma_unthrottled_answers(state: DfuTargetView, payloads: Seq<Seq<u8>>)
    requires
        state.crc_receipt_interval == 0,
        state.objects.active().received.len() + payloads.flatten().len() <= u32::MAX,
    ensures
        forall|i: int| 0 <= i < payloads.len() ==> #[trigger] answered(state, payloads, i),
        answers(state, payloads) == payloads.len(),
    decreases payloads.len(),
{
    if payloads.len() > 0 {
        let before = payloads.drop_last();
        let last = payloads.len() - 1;
        lemma_flatten_last(payloads);
        lemma_unthrottled_answers(state, before);
        lemma_writes_accumulate(state, before);
        assert(payloads.take(last) =~= before);
        assert forall|i: int| 0 <= i < payloads.len() implies #[trigger] answered(
            state,
            payloads,
            i,
        ) by {
            if i < last {
                assert(payloads.take(i) =~= before.take(i));
                assert(payloads[i] == before[i]);
                assert(answered(state, payloads, i) == answered(state, before, i));
            }
        }
    }
}

/// With an interval of `n > 0` and the counter at zero, of writes that are
/// all accepted exactly every `n`-th is answered with a checksum: the write
/// at index `i` is answered if and only if `n` divides `i + 1`.  After `k`
/// writes the counter stands at `k % n`, and `k / n` writes were answered.
pub proof fn lemma_throttled_answers(state: DfuTargetView, payloads: Seq<Seq<u8>>)
    requires
        state.crc_receipt_interval > 0,
        state.receipt_count == 0,
        state.objects.active().received.len() + payloads.flatten().len() <= u32::MAX,
    ensures
        after_writes(state, payloads).receipt_count == payloads.len() % (
        state.crc_receipt_interval as nat),
        forall|i: int|
            0 <= i < payloads.len() ==> (#[trigger] answered(state, payloads, i) <==> (i + 1) % (
            state.crc_receipt_interval as int) == 0),
        answers(state, payloads) == payloads.len() / (state.crc_receipt_interval as nat),
    decreases payloads.len(),
{
    let n = state.crc_receipt_interval as int;
    if payloads.len() > 0 {
        let before = payloads.drop_last();
        let last = payloads.len() - 1;
        lemma_flatten_last(payloads);
        lemma_throttled_answers(state, before);
        lemma_writes_accumulate(state, before);
        assert(payloads.take(last) =~= before);
        let reached = after_writes(state, before);
        assert(reached.receipt_count == last % n);
        lemma_count_step(last, n);
        assert(answered(state, payloads, last) <==> (last + 1) % n == 0);
        assert forall|i: int| 0 <= i < payloads.len() implies (#[trigger] answered(
            state,
            payloads,
            i,
        ) <==> (i + 1) % n == 0) by {
            if i < last {
                assert(payloads.take(i) =~= before.take(i));
                assert(payloads[i] == before[i]);
                assert(answered(state, payloads, i) == answered(state, before, i));
            }
        }
    } else {
        assert(0int % n == 0 && 0int / n == 0) by (nonlinear_arith)
            requires
                n > 0,
        ;
    }
}

/// How remainder and quotient move from `k` to `k + 1`.
proof fn lemma_count_step(k: int, n: int)
    requires
        0 <= k,
        0 < n,
    ensures
        0 <= k % n < n,
        (k + 1) % n == if k % n + 1 == n {
            0
        } else {
            k % n + 1
        },
        (k + 1) / n == k / n + if (k + 1) % n == 0 {
            1int
        } else {
            0int
        },
{
    vstd::arithmetic::div_mod::lemma_fundamental_div_mod(k, n);
    vstd::arithmetic::div_mod::lemma_fundamental_div_mod(k + 1, n);
    vstd::arithmetic::div_mod::lemma_mod_bound(k, n);
    vstd::arithmetic::div_mod::lemma_mod_bound(k + 1, n);
    let q = k / n;
    let r = k % n;
    let q1 = (k + 1) / n;
    let r1 = (k + 1) % n;
    assert(n * q1 + r1 == n * q + r + 1);
    assert(q1 == q || q1 == q + 1) by (nonlinear_arith)
        requires
            n * q1 + r1 == n * q + r + 1,
            0 <= r < n,
            0 <= r1 < n,
            0 < n,
    ;
    assert(q1 == q ==> n * q1 == n * q);
    assert(q1 == q + 1 ==> n * q1 == n * q + n) by (nonlinear_arith);
}

/// Aborting twice is aborting once, and after an abort both objects have
/// received nothing: their offset is zero and their checksum is that of no
/// bytes, which is zero.
pub proof fn lemma_abort_idempotent(state: DfuTargetView)
    ensures
        state.next(DfuRequestView::Abort).next(DfuRequestView::Abort) == state.next(
            DfuRequestView::Abort,
        ),
        state.next(DfuRequestView::Abort).objects.command == state.objects.command.clear(),
        state.next(DfuRequestView::Abort).objects.data == state.objects.data.clear(),
        state.next(DfuRequestView::Abort).receipt_count == 0,
        state.objects.command.clear().offset() == 0,
        state.objects.data.clear().offset() == 0,
        state.objects.command.clear().checksum() == 0,
        state.objects.data.clear().checksum() == 0,
{
    lemma_crc32_empty();
}

/// A selection changes nothing: the writes after it go where they went
/// before it.
pub proof fn lemma_select_changes_nothing(state: DfuTargetView, kind: ObjectType)
    ensures
        !state.out_of_bounds(DfuRequestView::Select { obj_type: kind }),
        state.next(DfuRequestView::Select { obj_type: kind }) == state,
{
}

/// Every request but a write that is out of bounds is answered, in at most
/// 23 bytes.
pub proof fn lemma_response_size(state: DfuTargetView, request: DfuRequestView)
    ensures
        3 <= state.response(request).wire().len() <= 23,
{
    state.response(request).lemma_wire();
}

/// A state that is valid stays valid under every request.
pub proof fn lemma_step_keeps_valid(state: DfuTargetView, request: DfuRequestView)
    requires
        state.valid(),
    ensures
        step(state, request).valid(),
{
}

} // verus!
