//! The arithmetic of a counter cell: a machine word to which amounts are added
//! and which wraps around at the end of its range.

use vstd::prelude::*;

verus! {

/// The value of a 64-bit cell that held `value` once amounts were added to it that
/// come to `amount` in all.
pub open spec fn sum_u64(value: u64, amount: nat) -> u64 {
    ((value + amount) % (u64::MAX + 1)) as u64
}

/// The value of a word-sized cell that held `value` once amounts were added to it
/// that come to `amount` in all.
pub open spec fn sum_usize(value: usize, amount: nat) -> usize {
    ((value + amount) % (usize::MAX + 1)) as usize
}

/// Adds `amount` to a 64-bit cell and returns what the cell held before.
pub fn fetch_add_u64(cell: &mut u64, amount: u64) -> (previous: u64)
    ensures
        previous == *old(cell),
        *final(cell) == old(cell).wrapping_add(amount),
{
    let previous: u64 = *cell;
    *cell = previous.wrapping_add(amount);
    previous
}

/// Adds `amount` to a word-sized cell and returns what the cell held before.
pub fn fetch_add_usize(cell: &mut usize, amount: usize) -> (previous: usize)
    ensures
        previous == *old(cell),
        *final(cell) == old(cell).wrapping_add(amount),
{
    let previous: usize = *cell;
    *cell = previous.wrapping_add(amount);
    previous
}

/// Adding nothing changes nothing, and one more addition adds to what was added
/// before.
pub proof fn lemma_sum_u64(value: u64, before: nat, amount: u64)
    ensures
        sum_u64(value, 0) == value,
        sum_u64(value, before).wrapping_add(amount) == sum_u64(value, before + amount as nat),
{
    let modulus = u64::MAX + 1;
    vstd::arithmetic::div_mod::lemma_add_mod_noop(value + before, amount as int, modulus);
}

/// Adding what amounts come to in a cell of their own is adding the amounts.
pub proof fn lemma_sum_of_sum_u64(value: u64, amount: nat)
    ensures
        value.wrapping_add(sum_u64(0, amount)) == sum_u64(value, amount),
{
    let modulus = u64::MAX + 1;
    vstd::arithmetic::div_mod::lemma_add_mod_noop(value as int, amount as int, modulus);
    vstd::arithmetic::div_mod::lemma_small_mod(value as nat, modulus as nat);
}

/// Adding nothing changes nothing, and one more addition adds to what was added
/// before.
pub proof fn lemma_sum_usize(value: usize, before: nat, amount: usize)
    ensures
        sum_usize(value, 0) == value,
        sum_usize(value, before).wrapping_add(amount) == sum_usize(value, before + amount as nat),
{
    let modulus = usize::MAX + 1;
    let partial = (value + before) % modulus;
    vstd::arithmetic::div_mod::lemma_small_mod(value as nat, modulus as nat);
    vstd::arithmetic::div_mod::lemma_mod_bound(value + before, modulus);
    vstd::arithmetic::div_mod::lemma_small_mod(amount as nat, modulus as nat);
    vstd::arithmetic::div_mod::lemma_add_mod_noop(value + before, amount as int, modulus);
    if partial + amount < modulus {
        vstd::arithmetic::div_mod::lemma_small_mod((partial + amount) as nat, modulus as nat);
    } else {
        vstd::arithmetic::div_mod::lemma_small_mod(
            (partial + amount - modulus) as nat,
            modulus as nat,
        );
        vstd::arithmetic::div_mod::lemma_mod_sub_multiples_vanish(partial + amount, modulus);
    }
}

} // verus!
