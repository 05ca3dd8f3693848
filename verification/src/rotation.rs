//! Round-robin selection of an egress client.

use vstd::prelude::*;

verus! {

/// The slot that a worker with starting offset `offset` uses on its call
/// number `call` (counted from zero) into a pool of `len` clients.
pub open spec fn slot_of(len: nat, offset: nat, call: nat) -> nat
    recommends
        len > 0,
{
    (offset + call) % len
}

/// Computes `slot_of` without overflow, whatever the size of the three numbers.
pub fn pick_slot(len: usize, offset: usize, call: usize) -> (slot: usize)
    requires
        len > 0,
    ensures
        slot == slot_of(len as nat, offset as nat, call as nat),
        slot < len,
{
    let a: usize = offset % len;
    let b: usize = call % len;
    proof {
        vstd::arithmetic::div_mod::lemma_add_mod_noop(offset as int, call as int, len as int);
    }
    if a >= len - b {
        proof {
            vstd::arithmetic::div_mod::lemma_mod_sub_multiples_vanish((a + b) as int, len as int);
            vstd::arithmetic::div_mod::lemma_small_mod((a + b - len) as nat, len as nat);
        }
        a - (len - b)
    } else {
        proof {
            vstd::arithmetic::div_mod::lemma_small_mod((a + b) as nat, len as nat);
        }
        a + b
    }
}

/// The slot is always one of the pool.
pub proof fn law_slot_in_pool(len: nat, offset: nat, call: nat)
    requires
        len > 0,
    ensures
        slot_of(len, offset, call) < len,
{
    vstd::arithmetic::div_mod::lemma_mod_bound((offset + call) as int, len as int);
}

/// A pool of one client hands out that client, whatever the offset and the
/// call.
pub proof fn law_single_client(offset: nat, call: nat)
    ensures
        slot_of(1, offset, call) == 0,
{
}

/// The rotation comes back to the same slot after as many calls as the pool
/// has clients.
pub proof fn law_round_repeats(len: nat, offset: nat, call: nat)
    requires
        len > 0,
    ensures
        slot_of(len, offset, call + len) == slot_of(len, offset, call),
{
    vstd::arithmetic::div_mod::lemma_mod_add_multiples_vanish((offset + call) as int, len as int);
    assert(offset + (call + len) == len + (offset + call));
}

/// Within one round, that is among `len` calls in a row, no slot is used
/// twice: two different calls of the round use different slots.
pub proof fn law_round_uses_no_slot_twice(len: nat, offset: nat, first: nat, a: nat, b: nat)
    requires
        len > 0,
        first <= a < first + len,
        first <= b < first + len,
        a != b,
    ensures
        slot_of(len, offset, a) != slot_of(len, offset, b),
{
    let m = len as int;
    if a < b {
        vstd::arithmetic::div_mod::lemma_mod_equivalence((offset + b) as int, (offset + a) as int, m);
        vstd::arithmetic::div_mod::lemma_small_mod((b - a) as nat, len);
        assert((offset + b) - (offset + a) == b - a);
    } else {
        vstd::arithmetic::div_mod::lemma_mod_equivalence((offset + a) as int, (offset + b) as int, m);
        vstd::arithmetic::div_mod::lemma_small_mod((a - b) as nat, len);
        assert((offset + a) - (offset + b) == a - b);
    }
}

/// Within one round every slot is used: for each slot of the pool the round
/// that begins with call `first` has a call that uses it.
pub proof fn law_round_reaches_every_slot(len: nat, offset: nat, first: nat, slot: nat) -> (call:
    nat)
    requires
        len > 0,
        slot < len,
    ensures
        first <= call < first + len,
        slot_of(len, offset, call) == slot,
{
    let m = len as int;
    let base = slot_of(len, offset, first);
    vstd::arithmetic::div_mod::lemma_mod_bound((offset + first) as int, m);
    let ahead: nat = if slot >= base {
        (slot - base) as nat
    } else {
        (slot + len - base) as nat
    };
    let call = first + ahead;
    vstd::arithmetic::div_mod::lemma_add_mod_noop((offset + first) as int, ahead as int, m);
    vstd::arithmetic::div_mod::lemma_small_mod(ahead, len);
    assert(offset + call == (offset + first) + ahead);
    if slot >= base {
        vstd::arithmetic::div_mod::lemma_small_mod(slot, len);
    } else {
        vstd::arithmetic::div_mod::lemma_mod_add_multiples_vanish(slot as int, m);
        vstd::arithmetic::div_mod::lemma_small_mod(slot, len);
        assert(base + ahead == m + slot);
    }
    call
}

/// A full round selects every client exactly once: each slot of the pool is
/// used by one call of the round and by no other.
pub proof fn law_round_selects_each_once(len: nat, offset: nat, first: nat, slot: nat)
    requires
        len > 0,
        slot < len,
    ensures
        exists|call: nat|
            {
                &&& first <= call < first + len
                &&& #[trigger] slot_of(len, offset, call) == slot
                &&& forall|other: nat|
                    first <= other < first + len && other != call ==> #[trigger] slot_of(
                        len,
                        offset,
                        other,
                    ) != slot
            },
{
    let call = law_round_reaches_every_slot(len, offset, first, slot);
    assert forall|other: nat| first <= other < first + len && other != call implies #[trigger] slot_of(
        len,
        offset,
        other,
    ) != slot by {
        law_round_uses_no_slot_twice(len, offset, first, other, call);
    }
    assert(slot_of(len, offset, call) == slot);
}

/// An offset counts only modulo the size of the pool.
pub proof fn lemma_offset_modulo_pool(len: nat, offset: nat, call: nat)
    requires
        len > 0,
    ensures
        slot_of(len, offset % len, call) == slot_of(len, offset, call),
{
    vstd::arithmetic::div_mod::lemma_add_mod_noop(offset as int, call as int, len as int);
    vstd::arithmetic::div_mod::lemma_add_mod_noop((offset % len) as int, call as int, len as int);
    vstd::arithmetic::div_mod::lemma_mod_twice(offset as int, len as int);
}

/// Two workers whose numbers differ by less than the size of the pool, each
/// starting at its number modulo that size, never use one slot on the same
/// call: not on the first, so they do not all start on one client, and not
/// on any later one.
pub proof fn law_neighbours_stay_apart(len: nat, first: nat, second: nat, call: nat)
    requires
        len > 0,
        first != second,
        first - second < len,
        second - first < len,
    ensures
        slot_of(len, first % len, call) != slot_of(len, second % len, call),
{
    lemma_offset_modulo_pool(len, first, call);
    lemma_offset_modulo_pool(len, second, call);
    let low = if first < second {
        first
    } else {
        second
    };
    law_round_uses_no_slot_twice(len, call, low, first, second);
    assert(call + first == first + call);
    assert(call + second == second + call);
}

} // verus!
