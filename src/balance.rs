//! Matching a call's storage writes against a transfer to recover the
//! balances of its endpoints.
use crate::numeric::{abs, signed_absolute, signed_be, signed_compare, signed_difference};
use crate::preimage::AddressIndex;
use crate::trace::CallTrace;
use core::cmp::Ordering;
use vstd::prelude::*;

verus! {

/// One storage slot write: the slot and its values before and after, as
/// big-endian two's-complement integers.
pub struct StorageWrite {
    pub key: Vec<u8>,
    pub old_value: Vec<u8>,
    pub new_value: Vec<u8>,
}

/// A decoded transfer: the 20-byte endpoint addresses and the amount, a
/// big-endian two's-complement integer.
pub struct TransferEvent {
    pub from: Vec<u8>,
    pub to: Vec<u8>,
    pub value: Vec<u8>,
}

/// The endpoints' balances after the transfer, as big-endian two's-complement
/// integers; the empty string (zero) where no write corroborates one.
pub struct BalanceResult {
    pub from_balance: Vec<u8>,
    pub to_balance: Vec<u8>,
}

/// How much a write changed its slot.
pub open spec fn write_delta(w: StorageWrite) -> int {
    signed_be(w.new_value@) - signed_be(w.old_value@)
}

/// `w` took the transfer's amount from the sender's balance slot.
pub open spec fn is_from_write(w: StorageWrite, index: Map<Seq<u8>, Seq<u8>>, t: TransferEvent) -> bool {
    &&& index.contains_key(w.key@)
    &&& abs(write_delta(w)) == signed_be(t.value@)
    &&& write_delta(w) < 0
    &&& index[w.key@] == t.from@
}

/// `w` added the transfer's amount to the receiver's balance slot.
pub open spec fn is_to_write(w: StorageWrite, index: Map<Seq<u8>, Seq<u8>>, t: TransferEvent) -> bool {
    &&& index.contains_key(w.key@)
    &&& abs(write_delta(w)) == signed_be(t.value@)
    &&& write_delta(w) > 0
    &&& index[w.key@] == t.to@
}

/// The new value of the last write in `ws` that matches the sender; empty
/// where none does.
pub open spec fn from_balance_of(
    ws: Seq<StorageWrite>,
    index: Map<Seq<u8>, Seq<u8>>,
    t: TransferEvent,
) -> Seq<u8>
    decreases ws.len(),
{
    if ws.len() == 0 {
        Seq::empty()
    } else if is_from_write(ws.last(), index, t) {
        ws.last().new_value@
    } else {
        from_balance_of(ws.drop_last(), index, t)
    }
}

/// The new value of the last write in `ws` that matches the receiver; empty
/// where none does.
pub open spec fn to_balance_of(
    ws: Seq<StorageWrite>,
    index: Map<Seq<u8>, Seq<u8>>,
    t: TransferEvent,
) -> Seq<u8>
    decreases ws.len(),
{
    if ws.len() == 0 {
        Seq::empty()
    } else if is_to_write(ws.last(), index, t) {
        ws.last().new_value@
    } else {
        to_balance_of(ws.drop_last(), index, t)
    }
}

fn copy_bytes(b: &Vec<u8>) -> (r: Vec<u8>)
    ensures
        r@ == b@,
{
    let mut r: Vec<u8> = Vec::new();
    let mut i: usize = 0;
    while i < b.len()
        invariant
            0 <= i <= b@.len(),
            r@ == b@.take(i as int),
        decreases b@.len() - i,
    {
        r.push(b[i]);
        proof {
            assert(b@.take(i + 1) =~= b@.take(i as int).push(b@[i as int]));
        }
        i = i + 1;
    }
    proof {
        assert(b@.take(b@.len() as int) =~= b@);
    }
    r
}

/// Recovers the balances of the transfer's endpoints from the call's storage
/// writes: a write whose slot the index resolves to the sender and that took
/// exactly the amount gives the sender's balance, one whose slot resolves to
/// the receiver and that added exactly the amount gives the receiver's; the
/// last such write in trace order wins.
pub fn extract_balances_from_call(
    call: &CallTrace,
    transfer: &TransferEvent,
    hash_to_address: &AddressIndex,
) -> (r: BalanceResult)
    ensures
        r.from_balance@ == from_balance_of(call.storage_changes@, hash_to_address@, *transfer),
        r.to_balance@ == to_balance_of(call.storage_changes@, hash_to_address@, *transfer),
{
    let ws = &call.storage_changes;
    let mut from_balance: Vec<u8> = Vec::new();
    let mut to_balance: Vec<u8> = Vec::new();
    let zero: Vec<u8> = Vec::new();
    let mut i: usize = 0;
    while i < ws.len()
        invariant
            0 <= i <= ws@.len(),
            zero@.len() == 0,
            from_balance@ == from_balance_of(ws@.take(i as int), hash_to_address@, *transfer),
            to_balance@ == to_balance_of(ws@.take(i as int), hash_to_address@, *transfer),
        decreases ws@.len() - i,
    {
        let change = &ws[i];
        let diff = signed_difference(&change.new_value, &change.old_value);
        proof {
            assert(ws@.take(i + 1).drop_last() =~= ws@.take(i as int));
            assert(ws@.take(i + 1).last() == *change);
            assert(signed_be(zero@) == 0);
        }
        match hash_to_address.get(&change.key) {
            Some(address) => {
                let magnitude = signed_absolute(&diff);
                if matches!(signed_compare(&magnitude, &transfer.value), Ordering::Equal) {
                    let sign = signed_compare(&diff, &zero);
                    if matches!(sign, Ordering::Less) && crate::preimage::bytes_equal(address, &transfer.from) {
                        from_balance = copy_bytes(&change.new_value);
                    } else if matches!(sign, Ordering::Greater) && crate::preimage::bytes_equal(address, &transfer.to) {
                        to_balance = copy_bytes(&change.new_value);
                    }
                }
            },
            None => {},
        }
        i = i + 1;
    }
    proof {
        assert(ws@.take(ws@.len() as int) =~= ws@);
    }
    BalanceResult { from_balance, to_balance }
}

/// The matcher reads its inputs' values alone: writes, index and transfer of
/// equal values give equal balances, so that running it again on the same
/// inputs gives the same result.
pub proof fn lemma_matcher_deterministic(
    ws1: Seq<StorageWrite>,
    ws2: Seq<StorageWrite>,
    index: Map<Seq<u8>, Seq<u8>>,
    t1: TransferEvent,
    t2: TransferEvent,
)
    requires
        ws1.len() == ws2.len(),
        forall|i: int|
            0 <= i < ws1.len() ==> {
                &&& (#[trigger] ws1[i]).key@ == ws2[i].key@
                &&& ws1[i].old_value@ == ws2[i].old_value@
                &&& ws1[i].new_value@ == ws2[i].new_value@
            },
        t1.from@ == t2.from@,
        t1.to@ == t2.to@,
        t1.value@ == t2.value@,
    ensures
        from_balance_of(ws1, index, t1) == from_balance_of(ws2, index, t2),
        to_balance_of(ws1, index, t1) == to_balance_of(ws2, index, t2),
    decreases ws1.len(),
{
    if ws1.len() > 0 {
        let n = ws1.len() - 1;
        assert(ws1[n].key@ == ws2[n].key@);
        lemma_matcher_deterministic(ws1.drop_last(), ws2.drop_last(), index, t1, t2);
    }
}

/// Where the index resolves none of the written slots, both balances are
/// zero.
pub proof fn lemma_unresolved_writes_give_zero(
    ws: Seq<StorageWrite>,
    index: Map<Seq<u8>, Seq<u8>>,
    t: TransferEvent,
)
    requires
        forall|i: int| 0 <= i < ws.len() ==> !index.contains_key((#[trigger] ws[i]).key@),
    ensures
        from_balance_of(ws, index, t) == Seq::<u8>::empty(),
        to_balance_of(ws, index, t) == Seq::<u8>::empty(),
        signed_be(from_balance_of(ws, index, t)) == 0,
        signed_be(to_balance_of(ws, index, t)) == 0,
    decreases ws.len(),
{
    if ws.len() > 0 {
        assert(!index.contains_key(ws[ws.len() - 1].key@));
        lemma_unresolved_writes_give_zero(ws.drop_last(), index, t);
    }
}

/// The sender's balance is the new value of the last write that matches the
/// sender.
pub proof fn lemma_last_from_write_wins(
    ws: Seq<StorageWrite>,
    index: Map<Seq<u8>, Seq<u8>>,
    t: TransferEvent,
    i: int,
)
    requires
        0 <= i < ws.len(),
        is_from_write(ws[i], index, t),
        forall|j: int| i < j < ws.len() ==> !is_from_write(#[trigger] ws[j], index, t),
    ensures
        from_balance_of(ws, index, t) == ws[i].new_value@,
    decreases ws.len(),
{
    if i < ws.len() - 1 {
        assert(!is_from_write(ws[ws.len() - 1], index, t));
        lemma_last_from_write_wins(ws.drop_last(), index, t, i);
    }
}

/// The receiver's balance is the new value of the last write that matches
/// the receiver.
pub proof fn lemma_last_to_write_wins(
    ws: Seq<StorageWrite>,
    index: Map<Seq<u8>, Seq<u8>>,
    t: TransferEvent,
    i: int,
)
    requires
        0 <= i < ws.len(),
        is_to_write(ws[i], index, t),
        forall|j: int| i < j < ws.len() ==> !is_to_write(#[trigger] ws[j], index, t),
    ensures
        to_balance_of(ws, index, t) == ws[i].new_value@,
    decreases ws.len(),
{
    if i < ws.len() - 1 {
        assert(!is_to_write(ws[ws.len() - 1], index, t));
        lemma_last_to_write_wins(ws.drop_last(), index, t, i);
    }
}

/// With exactly one write matching the sender and exactly one matching the
/// receiver, the balances are those writes' new values, byte for byte.
pub proof fn lemma_single_matches_give_new_values(
    ws: Seq<StorageWrite>,
    index: Map<Seq<u8>, Seq<u8>>,
    t: TransferEvent,
    f: int,
    r: int,
)
    requires
        0 <= f < ws.len(),
        0 <= r < ws.len(),
        is_from_write(ws[f], index, t),
        is_to_write(ws[r], index, t),
        forall|j: int| 0 <= j < ws.len() && j != f ==> !is_from_write(#[trigger] ws[j], index, t),
        forall|j: int| 0 <= j < ws.len() && j != r ==> !is_to_write(#[trigger] ws[j], index, t),
    ensures
        from_balance_of(ws, index, t) == ws[f].new_value@,
        to_balance_of(ws, index, t) == ws[r].new_value@,
        signed_be(from_balance_of(ws, index, t)) == signed_be(ws[f].new_value@),
        signed_be(to_balance_of(ws, index, t)) == signed_be(ws[r].new_value@),
{
    lemma_last_from_write_wins(ws, index, t, f);
    lemma_last_to_write_wins(ws, index, t, r);
}

/// Of two writes that both match the receiver, the later one gives the
/// receiver's balance.
pub proof fn lemma_later_to_write_wins(
    ws: Seq<StorageWrite>,
    index: Map<Seq<u8>, Seq<u8>>,
    t: TransferEvent,
    i: int,
    j: int,
)
    requires
        0 <= i < j < ws.len(),
        is_to_write(ws[i], index, t),
        is_to_write(ws[j], index, t),
        forall|k: int| 0 <= k < ws.len() && k != i && k != j ==> !is_to_write(#[trigger] ws[k], index, t),
    ensures
        to_balance_of(ws, index, t) == ws[j].new_value@,
{
    lemma_last_to_write_wins(ws, index, t, j);
}

/// For a positive amount the sign of a write's change decides the side it
/// can match: a rise by the amount only the receiver, a fall by the amount
/// only the sender, and a slot of neither endpoint neither side.
pub proof fn lemma_sign_decides_side(w: StorageWrite, index: Map<Seq<u8>, Seq<u8>>, t: TransferEvent)
    requires
        signed_be(t.value@) > 0,
        index.contains_key(w.key@),
    ensures
        write_delta(w) == signed_be(t.value@) ==> !is_from_write(w, index, t) && (is_to_write(
            w,
            index,
            t,
        ) <==> index[w.key@] == t.to@),
        write_delta(w) == -signed_be(t.value@) ==> !is_to_write(w, index, t) && (is_from_write(
            w,
            index,
            t,
        ) <==> index[w.key@] == t.from@),
        index[w.key@] != t.from@ && index[w.key@] != t.to@ ==> !is_from_write(w, index, t)
            && !is_to_write(w, index, t),
{
}

} // verus!
