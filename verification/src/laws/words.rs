//! The words of the columns that the tests fill.

use vstd::prelude::*;
use crate::expr::{here, ix, lt, minus, modulo, num, plus, times};
use crate::memory::Contents;

verus! {

/// The numbers below `n`.
pub open spec fn below(n: u64) -> Seq<u64> {
    Seq::new(n as nat, |i: int| i as u64)
}

/// The numbers below `n`, falling.
pub open spec fn falling(n: u64) -> Seq<u64> {
    Seq::new(n as nat, |i: int| (n - 1 - i) as u64)
}

/// The mask of `n` rows that marks the first `count` ones.
pub open spec fn leading(count: u64, n: u64) -> Seq<u64> {
    Seq::new(n as nat, |i: int| crate::expr::truth(i < count))
}

/// The first `n` numbers of a scatter below `limit`.
pub open spec fn scattered(limit: u64, n: u64) -> Seq<u64> {
    Seq::new(n as nat, |i: int| ((i * 1103515245 + 12345) % (limit as int)) as u64)
}

/// The first `n` numbers modulo `limit`.
pub open spec fn cyclic(limit: u64, n: u64) -> Seq<u64> {
    Seq::new(n as nat, |i: int| (i % (limit as int)) as u64)
}

/// The words of a column, multiplied.
pub open spec fn scaled(words: Seq<u64>, factor: u64) -> Seq<u64> {
    Seq::new(words.len(), |i: int| (words[i] * factor) as u64)
}

/// The words of a column, with an offset.
pub open spec fn shifted(words: Seq<u64>, offset: u64) -> Seq<u64> {
    Seq::new(words.len(), |i: int| (words[i] + offset) as u64)
}

/// The same word over and over.
pub open spec fn constant(word: u64, n: u64) -> Seq<u64> {
    Seq::new(n as nat, |i: int| word)
}

/// The words of [`below`].
pub proof fn lemma_below(n: u64, contents: Contents)
    ensures
        forall|i: int|
            0 <= i < n ==> #[trigger] crate::expr::value_of(ix(), contents, i as u64) == Some(
                below(n)[i],
            ),
{
}

/// The words of [`constant`].
pub proof fn lemma_constant(word: u64, n: u64, contents: Contents)
    ensures
        forall|i: int|
            0 <= i < n ==> #[trigger] crate::expr::value_of(num(word), contents, i as u64) == Some(
                constant(word, n)[i],
            ),
{
}

/// The words of [`falling`].
pub proof fn lemma_falling(n: u64, contents: Contents)
    ensures
        forall|i: int|
            0 <= i < n ==> #[trigger] crate::expr::value_of(
                minus(minus(num(n), num(1)), ix()),
                contents,
                i as u64,
            ) == Some(falling(n)[i]),
{
    reveal_with_fuel(crate::expr::value_of, 4);
}

/// The words of [`leading`].
pub proof fn lemma_leading(count: u64, n: u64, contents: Contents)
    ensures
        forall|i: int|
            0 <= i < n ==> #[trigger] crate::expr::value_of(
                lt(ix(), num(count)),
                contents,
                i as u64,
            ) == Some(leading(count, n)[i]),
{
    reveal_with_fuel(crate::expr::value_of, 3);
}

/// The words of [`scattered`].
#[verifier::spinoff_prover]
#[verifier::rlimit(50)]
pub proof fn lemma_scattered(limit: u64, n: u64, contents: Contents)
    requires
        limit > 0,
        n <= 1000000000,
    ensures
        forall|i: int|
            0 <= i < n ==> #[trigger] crate::expr::value_of(
                modulo(plus(times(ix(), num(1103515245)), num(12345)), num(limit)),
                contents,
                i as u64,
            ) == Some(scattered(limit, n)[i]),
{
    reveal_with_fuel(crate::expr::value_of, 5);
}

/// The words of [`cyclic`].
pub proof fn lemma_cyclic(limit: u64, n: u64, contents: Contents)
    requires
        limit > 0,
    ensures
        forall|i: int|
            0 <= i < n ==> #[trigger] crate::expr::value_of(
                modulo(ix(), num(limit)),
                contents,
                i as u64,
            ) == Some(cyclic(limit, n)[i]),
{
    reveal_with_fuel(crate::expr::value_of, 3);
}

/// The words of [`scaled`].
pub proof fn lemma_scaled(slot: u64, factor: u64, contents: Contents)
    requires
        slot < contents.columns.len(),
        contents.columns[slot as int].len() <= u64::MAX,
        forall|i: int|
            0 <= i < contents.columns[slot as int].len() ==> contents.columns[slot as int][i]
                * factor <= u64::MAX,
    ensures
        forall|i: int|
            0 <= i < contents.columns[slot as int].len() ==> #[trigger] crate::expr::value_of(
                times(here(slot), num(factor)),
                contents,
                i as u64,
            ) == Some(scaled(contents.columns[slot as int], factor)[i]),
{
    reveal_with_fuel(crate::expr::value_of, 4);
}

/// The words of [`scaled`], for the numbers from zero on.
pub proof fn lemma_scaled_places(factor: u64, n: u64, contents: Contents)
    requires
        n <= 1000000,
        factor <= 1000000,
    ensures
        forall|i: int|
            0 <= i < n ==> #[trigger] crate::expr::value_of(
                times(ix(), num(factor)),
                contents,
                i as u64,
            ) == Some(scaled(below(n), factor)[i]),
{
    assert forall|i: int| 0 <= i < n implies #[trigger] crate::expr::value_of(
        times(ix(), num(factor)),
        contents,
        i as u64,
    ) == Some(scaled(below(n), factor)[i]) by {
        assert(0 <= i * factor <= 1000000000000) by (nonlinear_arith)
            requires
                0 <= i < 1000000,
                factor <= 1000000,
        ;
        reveal_with_fuel(crate::expr::value_of, 3);
    }
}

/// The words of [`shifted`].
pub proof fn lemma_shifted(slot: u64, offset: u64, contents: Contents)
    requires
        slot < contents.columns.len(),
        contents.columns[slot as int].len() <= u64::MAX,
        forall|i: int|
            0 <= i < contents.columns[slot as int].len() ==> contents.columns[slot as int][i]
                + offset <= u64::MAX,
    ensures
        forall|i: int|
            0 <= i < contents.columns[slot as int].len() ==> #[trigger] crate::expr::value_of(
                plus(here(slot), num(offset)),
                contents,
                i as u64,
            ) == Some(shifted(contents.columns[slot as int], offset)[i]),
{
    reveal_with_fuel(crate::expr::value_of, 4);
}

/// The words of a column, read again.
pub proof fn lemma_copy(slot: u64, contents: Contents)
    requires
        slot < contents.columns.len(),
        contents.columns[slot as int].len() <= u64::MAX,
    ensures
        forall|i: int|
            0 <= i < contents.columns[slot as int].len() ==> #[trigger] crate::expr::value_of(
                here(slot),
                contents,
                i as u64,
            ) == Some(contents.columns[slot as int][i]),
{
    reveal_with_fuel(crate::expr::value_of, 3);
}

} // verus!
