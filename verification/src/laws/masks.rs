//! Laws of the masks that filters use.

use vstd::prelude::*;
use crate::expr::{ix, modulo, num, same_as};
use crate::memory::Contents;

verus! {

/// The mask that marks every `step`th of `n` rows, from the first one on.
pub open spec fn every(step: u64, n: nat) -> Seq<u64> {
    Seq::new(n, |i: int| crate::expr::truth(i % (step as int) == 0))
}

/// Marking every `step`th row of `n` marks as many rows as the tests expect: `n` divided by
/// `step`, rounded up.
pub proof fn law_every_step_marks_the_quotient_rounded_up(step: u64, n: nat)
    requires
        step > 0,
    ensures
        crate::columns::total(every(step, n)) == (n + step - 1) / (step as int),
    decreases n,
{
    let width = step as int;
    if n == 0 {
        vstd::arithmetic::div_mod::lemma_basic_div(width - 1, width);
    } else {
        let last = n - 1;
        law_every_step_marks_the_quotient_rounded_up(step, (n - 1) as nat);
        assert(every(step, n).drop_last() =~= every(step, (n - 1) as nat));
        let quotient = last / width;
        let rest = last % width;
        vstd::arithmetic::div_mod::lemma_fundamental_div_mod(last, width);
        vstd::arithmetic::div_mod::lemma_mod_bound(last, width);
        assert(width * (quotient + 1) == width * quotient + width) by (nonlinear_arith);
        vstd::arithmetic::div_mod::lemma_fundamental_div_mod_converse(
            n + width - 1,
            width,
            quotient + 1,
            rest,
        );
        if rest == 0 {
            vstd::arithmetic::div_mod::lemma_fundamental_div_mod_converse(
                n - 1 + width - 1,
                width,
                quotient,
                width - 1,
            );
        } else {
            vstd::arithmetic::div_mod::lemma_fundamental_div_mod_converse(
                n - 1 + width - 1,
                width,
                quotient + 1,
                rest - 1,
            );
        }
    }
}

/// The words of the mask that the tests fill with `place % step == 0`.
pub proof fn lemma_remainder_words(step: u64, n: u64, contents: Contents)
    requires
        step > 0,
    ensures
        forall|i: int|
            0 <= i < n ==> #[trigger] crate::expr::value_of(
                same_as(modulo(ix(), num(step)), num(0)),
                contents,
                i as u64,
            ) == Some(every(step, n as nat)[i]),
{
    reveal_with_fuel(crate::expr::value_of, 4);
}

/// The mask that the tests fill with `place % step == 0` marks every `step`th row.
pub proof fn law_remainder_mask_marks_every_step(step: u64, n: u64, contents: Contents)
    requires
        step > 0,
    ensures
        crate::machine::filled(
            same_as(modulo(ix(), num(step)), num(0)),
            contents,
            n as nat,
        ) == Some(every(step, n as nat)),
{
    let mask = same_as(modulo(ix(), num(step)), num(0));
    lemma_remainder_words(step, n, contents);
    assert(crate::machine::filled(mask, contents, n as nat)->0 =~= every(step, n as nat));
}

} // verus!
