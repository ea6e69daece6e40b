//! Compare-and-swap on a word that the caller holds exclusively.
//!
//! A resumption borrows the shared word mutably for as long as it runs, so
//! the exchange below is indivisible with respect to every other resumption.

use vstd::prelude::*;

verus! {

/// Stores `new` if the word holds `current`.
///
/// Returns the previous value: `Ok` when the exchange took place, `Err` with
/// the value actually found when it did not.
pub fn compare_exchange(word: &mut u64, current: u64, new: u64) -> (previous: Result<u64, u64>)
    ensures
        *old(word) == current ==> previous == Ok::<u64, u64>(current) && *final(word) == new,
        *old(word) != current ==> previous == Err::<u64, u64>(*old(word)) && *final(word) == *old(
            word,
        ),
    no_unwind
{
    let found: u64 = *word;
    if found == current {
        *word = new;
        Ok(found)
    } else {
        Err(found)
    }
}

/// [`compare_exchange`] for a pointer-sized counter.
pub fn compare_exchange_usize(word: &mut usize, current: usize, new: usize) -> (previous: Result<
    usize,
    usize,
>)
    ensures
        *old(word) == current ==> previous == Ok::<usize, usize>(current) && *final(word) == new,
        *old(word) != current ==> previous == Err::<usize, usize>(*old(word)) && *final(word)
            == *old(word),
    no_unwind
{
    let found: usize = *word;
    if found == current {
        *word = new;
        Ok(found)
    } else {
        Err(found)
    }
}

} // verus!
