//! The laws of the tests of doubles that are not numbers, of zeros with a sign, and of extremes.

use vstd::prelude::*;
use crate::expr::{
    and, count_in, differs, found_in, here, len, lt, modulo, not, num, or, pick, plus, reg,
    same_as, sum_of,
};
use crate::laws::number_edges::INFINITE;
use crate::machine::{Answer, Ending, Progress};
use crate::memory::Contents;
use crate::scalar::{Scalar, SIGN};
use crate::script::{Act, Faults, Step};
use crate::tables::Table;

verus! {

/// Whether a word stands for a double that is not a number.
pub open spec fn not_a_number(word: u64) -> bool {
    word % SIGN > INFINITE
}

/// Whether a word stands for a double that is a number.
pub open spec fn number(word: u64) -> bool {
    !not_a_number(word)
}

/// Whether a word stands for zero, of either sign.
pub open spec fn zero(word: u64) -> bool {
    word % SIGN == 0
}

/// The mask of the words that are not numbers.
pub open spec fn nans(words: Seq<u64>) -> Seq<u64> {
    Seq::new(words.len(), |i: int| crate::expr::truth(not_a_number(words[i])))
}

/// One of the words of [`nans`].
proof fn lemma_nans_at(contents: Contents, slot: u64, i: u64)
    requires
        slot < contents.columns.len(),
        i < contents.columns[slot as int].len(),
    ensures
        crate::expr::value_of(
            lt(num(0x7FF0_0000_0000_0000), modulo(here(slot), num(0x8000_0000_0000_0000))),
            contents,
            i,
        ) == Some(crate::expr::truth(not_a_number(contents.columns[slot as int][i as int]))),
{
    reveal_with_fuel(crate::expr::value_of, 4);
}

/// The words of [`nans`].
proof fn lemma_nans(contents: Contents, slot: u64)
    requires
        slot < contents.columns.len(),
        contents.columns[slot as int].len() <= u64::MAX,
    ensures
        forall|i: int|
            0 <= i < contents.columns[slot as int].len() ==> #[trigger] crate::expr::value_of(
                lt(num(0x7FF0_0000_0000_0000), modulo(here(slot), num(0x8000_0000_0000_0000))),
                contents,
                i as u64,
            ) == Some(nans(contents.columns[slot as int])[i]),
{
    assert forall|i: int|
        0 <= i < contents.columns[slot as int].len() implies #[trigger] crate::expr::value_of(
        lt(num(0x7FF0_0000_0000_0000), modulo(here(slot), num(0x8000_0000_0000_0000))),
        contents,
        i as u64,
    ) == Some(nans(contents.columns[slot as int])[i]) by {
        lemma_nans_at(contents, slot, i as u64);
    }
}

/// The mask of the words that are numbers.
pub open spec fn numbers(words: Seq<u64>) -> Seq<u64> {
    Seq::new(words.len(), |i: int| crate::expr::truth(number(words[i])))
}

/// One of the words of [`numbers`].
#[verifier::spinoff_prover]
#[verifier::rlimit(50)]
proof fn lemma_numbers_at(contents: Contents, slot: u64, i: u64)
    requires
        slot < contents.columns.len(),
        i < contents.columns[slot as int].len(),
    ensures
        crate::expr::value_of(
            not(lt(num(0x7FF0_0000_0000_0000), modulo(here(slot), num(0x8000_0000_0000_0000)))),
            contents,
            i,
        ) == Some(crate::expr::truth(number(contents.columns[slot as int][i as int]))),
{
    reveal_with_fuel(crate::expr::value_of, 5);
}

/// The words of [`numbers`].
proof fn lemma_numbers(contents: Contents, slot: u64)
    requires
        slot < contents.columns.len(),
        contents.columns[slot as int].len() <= u64::MAX,
    ensures
        forall|i: int|
            0 <= i < contents.columns[slot as int].len() ==> #[trigger] crate::expr::value_of(
                not(lt(num(0x7FF0_0000_0000_0000), modulo(here(slot), num(0x8000_0000_0000_0000)))),
                contents,
                i as u64,
            ) == Some(numbers(contents.columns[slot as int])[i]),
{
    assert forall|i: int|
        0 <= i < contents.columns[slot as int].len() implies #[trigger] crate::expr::value_of(
        not(lt(num(0x7FF0_0000_0000_0000), modulo(here(slot), num(0x8000_0000_0000_0000)))),
        contents,
        i as u64,
    ) == Some(numbers(contents.columns[slot as int])[i]) by {
        lemma_numbers_at(contents, slot, i as u64);
    }
}

/// The mask of the words that are zeros.
pub open spec fn zeros(words: Seq<u64>) -> Seq<u64> {
    Seq::new(words.len(), |i: int| crate::expr::truth(zero(words[i])))
}

/// One of the words of [`zeros`].
proof fn lemma_zeros_at(contents: Contents, slot: u64, i: u64)
    requires
        slot < contents.columns.len(),
        i < contents.columns[slot as int].len(),
    ensures
        crate::expr::value_of(
            same_as(modulo(here(slot), num(0x8000_0000_0000_0000)), num(0)),
            contents,
            i,
        ) == Some(crate::expr::truth(zero(contents.columns[slot as int][i as int]))),
{
    reveal_with_fuel(crate::expr::value_of, 4);
}

/// The words of [`zeros`].
proof fn lemma_zeros(contents: Contents, slot: u64)
    requires
        slot < contents.columns.len(),
        contents.columns[slot as int].len() <= u64::MAX,
    ensures
        forall|i: int|
            0 <= i < contents.columns[slot as int].len() ==> #[trigger] crate::expr::value_of(
                same_as(modulo(here(slot), num(0x8000_0000_0000_0000)), num(0)),
                contents,
                i as u64,
            ) == Some(zeros(contents.columns[slot as int])[i]),
{
    assert forall|i: int|
        0 <= i < contents.columns[slot as int].len() implies #[trigger] crate::expr::value_of(
        same_as(modulo(here(slot), num(0x8000_0000_0000_0000)), num(0)),
        contents,
        i as u64,
    ) == Some(zeros(contents.columns[slot as int])[i]) by {
        lemma_zeros_at(contents, slot, i as u64);
    }
}

/// Whether the length of a column is not the expected one.
proof fn lemma_length(contents: Contents, expected: u64)
    requires
        contents.full(),
        contents.columns[1].len() <= u64::MAX,
    ensures
        crate::expr::value_of(differs(len(1), num(expected)), contents, 0) == Some(
            crate::expr::truth(contents.columns[1].len() != expected),
        ),
{
    crate::laws::steps::lemma_differs(len(1), num(expected), contents, 0);
}

/// Whether the sums of two masks differ.
proof fn lemma_sums_differ(contents: Contents)
    requires
        contents.full(),
        contents.columns[2].len() <= u64::MAX,
        contents.columns[3].len() <= u64::MAX,
        forall|i: int| 0 <= i < contents.columns[2].len() ==> contents.columns[2][i] <= 1,
        forall|i: int| 0 <= i < contents.columns[3].len() ==> contents.columns[3][i] <= 1,
    ensures
        crate::expr::value_of(differs(sum_of(2), sum_of(3)), contents, 0) == Some(
            crate::expr::truth(
                crate::columns::total(contents.columns[2]) != crate::columns::total(
                    contents.columns[3],
                ),
            ),
        ),
{
    crate::laws::lanes::lemma_mask_sum(contents, 2);
    crate::laws::lanes::lemma_mask_sum(contents, 3);
    crate::laws::steps::lemma_differs(sum_of(2), sum_of(3), contents, 0);
}

/// The numbers among the words of a column, in order.
pub open spec fn numbers_of(words: Seq<u64>) -> Seq<u64> {
    crate::laws::predicates::picked(words, numbers(words), words.len())
}

/// There are no more numbers in a column than words.
proof fn lemma_picked_length(words: Seq<u64>, mask: Seq<u64>, n: nat)
    ensures
        crate::laws::predicates::picked(words, mask, n).len() <= n,
    decreases n,
{
    if n > 0 {
        lemma_picked_length(words, mask, (n - 1) as nat);
    }
}

/// Keeping the numbers of a column.
proof fn lemma_numbers_of(contents: Contents)
    requires
        contents.full(),
        contents.columns[1].len() <= u64::MAX,
    ensures
        crate::machine::selected(
            not(lt(num(0x7FF0_0000_0000_0000), modulo(here(1), num(0x8000_0000_0000_0000)))),
            here(1),
            contents,
            contents.columns[1].len(),
        ) == Some(numbers_of(contents.columns[1])),
        numbers_of(contents.columns[1]).len() <= contents.columns[1].len(),
{
    let words = contents.columns[1];
    lemma_numbers(contents, 1);
    assert forall|i: int| 0 <= i < words.len() implies #[trigger] crate::expr::value_of(
        here(1),
        contents,
        i as u64,
    ) == Some(words[i]) by {
        crate::laws::steps::lemma_here(contents, 1, i as u64);
    }
    crate::laws::predicates::lemma_picked(
        not(lt(num(0x7FF0_0000_0000_0000), modulo(here(1), num(0x8000_0000_0000_0000)))),
        here(1),
        contents,
        words,
        numbers(words),
        words.len(),
    );
    lemma_picked_length(words, numbers(words), words.len());
}

/// The first place that is set is one of the places, or the number of places.
proof fn lemma_first_set(words: Seq<u64>, from: int)
    requires
        0 <= from <= words.len(),
    ensures
        from <= crate::columns::first_set(words, from) <= words.len(),
    decreases words.len() - from,
{
    if from < words.len() && words[from] == 0 {
        lemma_first_set(words, from + 1);
    }
}

/// Whether no word of a column from a place on is a number.
pub open spec fn nans_from(words: Seq<u64>, from: int) -> bool {
    forall|i: int| from <= i < words.len() ==> not_a_number(#[trigger] words[i])
}

/// Looking for numbers after the first word that is none.
proof fn lemma_scan_nans(
    steps: Seq<Step>,
    place: int,
    to: int,
    contents: Contents,
    answers: Seq<Answer>,
    used: int,
)
    requires
        place < to,
        contents.full(),
        contents.columns[1].len() <= u64::MAX,
        contents.columns[2].len() == contents.columns[1].len(),
        crate::machine::taken(steps[place], contents) == Some(true),
        crate::machine::act_of(steps[place]) matches Act::Scan { low, high, by, faults } && {
            &&& low == found_in(2)
            &&& high == len(1)
            &&& by == 1
            &&& faults matches Faults::One(fault, _)
            &&& fault == not(
                lt(num(0x7FF0_0000_0000_0000), modulo(here(1), num(0x8000_0000_0000_0000))),
            )
        },
    ensures
        crate::walk::walked(steps, place, to, contents, answers, used) == (if nans_from(
            contents.columns[1],
            crate::columns::first_set(contents.columns[2], 0),
        ) {
            crate::walk::walked(steps, place + 1, to, contents, answers, used)
        } else {
            None
        }),
{
    let words = contents.columns[1];
    let first = crate::columns::first_set(contents.columns[2], 0);
    lemma_first_set(contents.columns[2], 0);
    match crate::machine::act_of(steps[place]) {
        Act::Scan { faults, .. } => {
            assert(crate::expr::value_of(found_in(2), contents, 0) == Some(first as u64));
            crate::laws::steps::lemma_scan(
                steps,
                place,
                to,
                contents,
                answers,
                used,
                first as u64,
                words.len() as u64,
            );
            assert forall|i: int| first <= i < words.len() implies (#[trigger] crate::walk::shows(
                faults,
                contents,
                i as u64,
            ) <==> !not_a_number(words[i])) by {
                lemma_numbers_at(contents, 1, i as u64);
            }
            if nans_from(words, first) {
                assert forall|i: int| first <= i < words.len() implies !(
                #[trigger] crate::walk::shows(faults, contents, i as u64)) by {
                    assert(not_a_number(words[i]));
                }
            } else {
                let i = choose|i: int|
                    first <= i < words.len() && !not_a_number(#[trigger] words[i]);
                assert(crate::walk::shows(faults, contents, i as u64));
            }
        },
        _ => {},
    }
}

/// Whether there is a zero at a place of a column.
pub open spec fn zero_at(words: Seq<u64>, place: int) -> bool {
    place < words.len() && zero(words[place])
}

/// Whether as many words of a column are zeros from a place on.
pub open spec fn zeros_from(words: Seq<u64>, from: int, count: int) -> bool {
    forall|i: int| from <= i < from + count ==> #[trigger] zero_at(words, i)
}

/// Looking for other words among the zeros.
proof fn lemma_scan_zeros(
    steps: Seq<Step>,
    place: int,
    to: int,
    contents: Contents,
    answers: Seq<Answer>,
    used: int,
)
    requires
        place < to,
        contents.full(),
        contents.columns[1].len() == 10,
        contents.columns[2] == zeros(contents.columns[1]),
        contents.registers[0] == crate::columns::total(contents.columns[2]),
        contents.registers[1] == crate::columns::first_set(contents.columns[2], 0),
        crate::machine::taken(steps[place], contents) == Some(true),
        crate::machine::act_of(steps[place]) matches Act::Scan { low, high, by, faults } && {
            &&& low == reg(1)
            &&& high == pick(lt(reg(1), len(1)), plus(reg(1), reg(0)), reg(1))
            &&& by == 1
            &&& faults matches Faults::One(fault, _)
            &&& fault == not(same_as(modulo(here(1), num(0x8000_0000_0000_0000)), num(0)))
        },
    ensures
        crate::walk::walked(steps, place, to, contents, answers, used) == (if zeros_from(
            contents.columns[1],
            crate::columns::first_set(contents.columns[2], 0),
            crate::columns::total(contents.columns[2]),
        ) {
            crate::walk::walked(steps, place + 1, to, contents, answers, used)
        } else {
            None
        }),
{
    let words = contents.columns[1];
    let marks = contents.columns[2];
    let first = crate::columns::first_set(marks, 0);
    let count = crate::columns::total(marks);
    lemma_first_set(marks, 0);
    crate::columns::law_total_of_zeros_and_ones(marks);
    if first == words.len() {
        lemma_none_set(marks, 0);
        lemma_total_of_zeros(marks);
    }
    let end = first + count;
    match crate::machine::act_of(steps[place]) {
        Act::Scan { faults, .. } => {
            assert(crate::expr::value_of(reg(1), contents, 0) == Some(first as u64));
            assert(crate::expr::value_of(reg(0), contents, 0) == Some(count as u64));
            assert(crate::expr::value_of(len(1), contents, 0) == Some(10u64));
            assert(crate::expr::value_of(lt(reg(1), len(1)), contents, 0) == Some(
                crate::expr::truth(first < 10),
            ));
            assert(crate::expr::value_of(plus(reg(1), reg(0)), contents, 0) == Some(end as u64));
            assert(crate::expr::value_of(
                pick(lt(reg(1), len(1)), plus(reg(1), reg(0)), reg(1)),
                contents,
                0,
            ) == Some(end as u64));
            crate::laws::steps::lemma_scan(
                steps,
                place,
                to,
                contents,
                answers,
                used,
                first as u64,
                end as u64,
            );
            assert forall|i: int| first <= i < end implies (#[trigger] crate::walk::shows(
                faults,
                contents,
                i as u64,
            ) <==> !zero_at(words, i)) by {
                lemma_zero_fault(contents, i as u64);
            }
            if zeros_from(words, first, count) {
                assert forall|i: int| first <= i < end implies !(#[trigger] crate::walk::shows(
                    faults,
                    contents,
                    i as u64,
                )) by {
                    assert(zero_at(words, i));
                }
            } else {
                let i = choose|i: int|
                    first <= i < first + count && !(#[trigger] zero_at(words, i));
                assert(crate::walk::shows(faults, contents, i as u64));
            }
        },
        _ => {},
    }
}

/// Looking for a word that is not a zero.
#[verifier::spinoff_prover]
#[verifier::rlimit(50)]
proof fn lemma_zero_fault(contents: Contents, i: u64)
    requires
        contents.full(),
    ensures
        crate::expr::value_of(
            not(same_as(modulo(here(1), num(0x8000_0000_0000_0000)), num(0))),
            contents,
            i,
        ) == Some(0u64) <==> i < contents.columns[1].len() && zero(contents.columns[1][i as int]),
{
    reveal_with_fuel(crate::expr::value_of, 5);
}

/// Where no place is set, every word is zero.
proof fn lemma_none_set(words: Seq<u64>, from: int)
    requires
        0 <= from <= words.len(),
        crate::columns::first_set(words, from) == words.len(),
    ensures
        forall|i: int| from <= i < words.len() ==> #[trigger] words[i] == 0,
    decreases words.len() - from,
{
    if from < words.len() && words[from] == 0 {
        lemma_none_set(words, from + 1);
    }
}

/// Zeros add up to zero.
proof fn lemma_total_of_zeros(words: Seq<u64>)
    requires
        forall|i: int| 0 <= i < words.len() ==> #[trigger] words[i] == 0,
    ensures
        crate::columns::total(words) == 0,
    decreases words.len(),
{
    if words.len() > 0 {
        let rest = words.drop_last();
        assert forall|i: int| 0 <= i < rest.len() implies #[trigger] rest[i] == 0 by {
            assert(rest[i] == words[i]);
        }
        lemma_total_of_zeros(rest);
    }
}

/// Whether a register is not the sum of a mask.
proof fn lemma_count_differs(contents: Contents, count: int)
    requires
        contents.full(),
        contents.columns[3].len() <= u64::MAX,
        forall|i: int| 0 <= i < contents.columns[3].len() ==> contents.columns[3][i] <= 1,
        contents.registers[0] == count,
    ensures
        crate::expr::value_of(differs(reg(0), sum_of(3)), contents, 0) == Some(
            crate::expr::truth(count != crate::columns::total(contents.columns[3])),
        ),
{
    crate::laws::lanes::lemma_mask_sum(contents, 3);
    assert(crate::expr::value_of(reg(0), contents, 0) == Some(count as u64));
    crate::laws::steps::lemma_differs(reg(0), sum_of(3), contents, 0);
}

/// Whether two columns do not hold a word equally often.
proof fn lemma_occurrences_differ(contents: Contents, word: u64)
    requires
        contents.full(),
        contents.columns[0].len() <= u64::MAX,
        contents.columns[1].len() <= u64::MAX,
    ensures
        crate::expr::value_of(differs(count_in(1, num(word)), count_in(0, num(word))), contents, 0)
            == Some(
            crate::expr::truth(
                crate::columns::occurrences(contents.columns[1], word)
                    != crate::columns::occurrences(contents.columns[0], word),
            ),
        ),
{
    crate::laws::types::lemma_occurrences(contents.columns[0], word);
    crate::laws::types::lemma_occurrences(contents.columns[1], word);
    assert(crate::expr::value_of(num(word), contents, 0) == Some(word));
    assert(crate::expr::value_of(count_in(1, num(word)), contents, 0) == Some(
        crate::columns::occurrences(contents.columns[1], word) as u64,
    ));
    assert(crate::expr::value_of(count_in(0, num(word)), contents, 0) == Some(
        crate::columns::occurrences(contents.columns[0], word) as u64,
    ));
    crate::laws::steps::lemma_differs(count_in(1, num(word)), count_in(0, num(word)), contents, 0);
}

/// Whether a column holds a word; for zero, one of either sign will do.
pub open spec fn present(words: Seq<u64>, word: u64) -> bool {
    words.contains(word) || word == 0 && words.contains(SIGN)
}

/// Looking for a word that is not there.
proof fn lemma_present(contents: Contents, i: u64)
    requires
        contents.full(),
        i < contents.columns[0].len(),
        contents.columns[1].len() <= u64::MAX,
    ensures
        crate::expr::value_of(
            and(
                same_as(count_in(1, here(0)), num(0)),
                or(
                    differs(here(0), num(0)),
                    same_as(count_in(1, num(0x8000_0000_0000_0000)), num(0)),
                ),
            ),
            contents,
            i,
        ) == Some(0u64) <==> present(contents.columns[1], contents.columns[0][i as int]),
{
    let words = contents.columns[1];
    let word = contents.columns[0][i as int];
    crate::laws::types::lemma_occurrences(words, word);
    crate::laws::types::lemma_occurrences(words, SIGN);
    assert(crate::expr::value_of(num(0), contents, i) == Some(0u64));
    assert(crate::expr::value_of(num(0x8000_0000_0000_0000), contents, i) == Some(SIGN));
    crate::laws::steps::lemma_here(contents, 0, i);
    assert(crate::expr::value_of(count_in(1, here(0)), contents, i) == Some(
        crate::columns::occurrences(words, word) as u64,
    ));
    assert(crate::expr::value_of(same_as(count_in(1, here(0)), num(0)), contents, i) == Some(
        crate::expr::truth(!words.contains(word)),
    ));
    assert(crate::expr::value_of(count_in(1, num(0x8000_0000_0000_0000)), contents, i) == Some(
        crate::columns::occurrences(words, SIGN) as u64,
    ));
    assert(crate::expr::value_of(
        same_as(count_in(1, num(0x8000_0000_0000_0000)), num(0)),
        contents,
        i,
    ) == Some(crate::expr::truth(!words.contains(SIGN))));
    crate::laws::steps::lemma_differs(here(0), num(0), contents, i);
    assert(crate::expr::value_of(
        or(differs(here(0), num(0)), same_as(count_in(1, num(0x8000_0000_0000_0000)), num(0))),
        contents,
        i,
    ) == Some(crate::expr::truth(word != 0 || !words.contains(SIGN))));
}

/// Looking for words that are not there.
proof fn lemma_all_present(contents: Contents)
    requires
        contents.full(),
        contents.columns[0].len() <= u64::MAX,
        contents.columns[1].len() <= u64::MAX,
    ensures
        forall|i: int|
            0 <= i < contents.columns[0].len() ==> (#[trigger] crate::expr::value_of(
                and(
                    same_as(count_in(1, here(0)), num(0)),
                    or(
                        differs(here(0), num(0)),
                        same_as(count_in(1, num(0x8000_0000_0000_0000)), num(0)),
                    ),
                ),
                contents,
                i as u64,
            ) == Some(0u64) <==> present(contents.columns[1], contents.columns[0][i])),
{
    assert forall|i: int|
        0 <= i < contents.columns[0].len() implies (#[trigger] crate::expr::value_of(
        and(
            same_as(count_in(1, here(0)), num(0)),
            or(
                differs(here(0), num(0)),
                same_as(count_in(1, num(0x8000_0000_0000_0000)), num(0)),
            ),
        ),
        contents,
        i as u64,
    ) == Some(0u64) <==> present(contents.columns[1], contents.columns[0][i])) by {
        lemma_present(contents, i as u64);
    }
}

/// Whether a column holds all words of another one; for zero, one of either sign will do.
pub open spec fn all_present(words: Seq<u64>, wanted: Seq<u64>) -> bool {
    forall|i: int| 0 <= i < wanted.len() ==> present(words, #[trigger] wanted[i])
}

/// Whether the answers to the downloads of the test are columns or refusals.
pub open spec fn nan_shaped(answers: Seq<Answer>) -> bool {
    &&& answers.len() >= 4
    &&& crate::laws::steps::column_or_refusal(answers[2])
}

/// What the device has to answer.
pub open spec fn nan_answers(answers: Seq<Answer>) -> bool {
    &&& !(answers[0] is Failed)
    &&& !(answers[1] is Failed)
    &&& answers[2] is Words
    &&& answers[2]->Words_0.len() == 10
    &&& crate::columns::total(nans(answers[2]->Words_0)) == crate::columns::total(
        nans(crate::tables::words_of(Table::Nans)),
    )
    &&& crate::laws::steps::rises_in(Scalar::F64, numbers_of(answers[2]->Words_0))
    &&& nans_from(answers[2]->Words_0, crate::columns::first_set(nans(answers[2]->Words_0), 0))
    &&& !(answers[3] is Failed)
}

/// The steps of the test.
proof fn lemma_nan_answers(contents: Contents, answers: Seq<Answer>)
    requires
        contents.full(),
        nan_shaped(answers),
    ensures
        match crate::walk::walked(
            crate::categories::c13_floating_point::f64_nan_handling_steps(),
            0,
            12,
            contents,
            answers,
            0,
        ) {
            Some((after, next)) => {
                &&& nan_answers(answers)
                &&& after.full()
                &&& next == 4
            },
            None => !nan_answers(answers),
        },
        crate::categories::c13_floating_point::f64_nan_handling_steps().len() == 12,
{
    let steps = crate::categories::c13_floating_point::f64_nan_handling_steps();
    crate::laws::numbers::lemma_entries(Table::Nans, contents);
    let words1 = crate::tables::words_of(Table::Nans);
    crate::laws::steps::lemma_fill(steps, 0, 12, contents, answers, 0, words1);
    let next1 = contents.with_column(0, words1);
    crate::laws::steps::lemma_command(steps, 1, 12, next1, answers, 0);
    crate::laws::steps::lemma_command(steps, 2, 12, next1, answers, 1);
    crate::laws::steps::lemma_download(steps, 3, 12, next1, answers, 2);
    if answers[2] is Words {
        let next2 = next1.with_column(1, answers[2]->Words_0);
        lemma_length(next2, 10);
        crate::laws::steps::lemma_check(
            steps,
            4,
            12,
            next2,
            answers,
            3,
            !(answers[2]->Words_0.len() == 10),
        );
        lemma_nans(next2, 1);
        let words3 = nans(answers[2]->Words_0);
        crate::laws::steps::lemma_fill(steps, 5, 12, next2, answers, 3, words3);
        let next3 = next2.with_column(2, words3);
        lemma_nans(next3, 0);
        let words4 = nans(crate::tables::words_of(Table::Nans));
        crate::laws::steps::lemma_fill(steps, 6, 12, next3, answers, 3, words4);
        let next4 = next3.with_column(3, words4);
        lemma_sums_differ(next4);
        crate::laws::steps::lemma_check(
            steps,
            7,
            12,
            next4,
            answers,
            3,
            !(
                crate::columns::total(nans(answers[2]->Words_0)) == crate::columns::total(
                    nans(crate::tables::words_of(Table::Nans)),
                )
            ),
        );
        lemma_numbers_of(next4);
        crate::laws::steps::lemma_select(
            steps,
            8,
            12,
            next4,
            answers,
            3,
            answers[2]->Words_0.len() as u64,
            numbers_of(answers[2]->Words_0),
        );
        let next5 = next4.with_column(4, numbers_of(answers[2]->Words_0));
        crate::laws::steps::lemma_scan_ranks(steps, 9, 12, next5, answers, 3, 4, Scalar::F64);
        lemma_scan_nans(steps, 10, 12, next5, answers, 3);
        crate::laws::steps::lemma_command(steps, 11, 12, next5, answers, 3);
        crate::laws::steps::lemma_end(steps, 12, next5, answers, 4);
    }
}

/// The test has no jumps.
proof fn lemma_nan_straight()
    ensures
        forall|j: int|
            0 <= j < crate::categories::c13_floating_point::f64_nan_handling_steps().len()
                ==> crate::walk::straight(
                #[trigger] crate::categories::c13_floating_point::f64_nan_handling_steps()[j],
            ),
{
}

/// The test of doubles that are not numbers passes exactly when as many words come back as went in,
/// as many of them not numbers, the numbers in their total order, and after the first word that is
/// not a number none that is.
pub proof fn law_nans_pass_exactly_when_they_come_last(answers: Seq<Answer>)
    requires
        nan_shaped(answers),
    ensures
        crate::machine::run_of(
            crate::script::plan(
                "test_f64_nan_handling",
                crate::categories::c13_floating_point::f64_nan_handling_steps(),
            ),
            answers,
        ).progress == Progress::Over(Ending::Passed) <==> nan_answers(answers),
{
    let plan = crate::script::plan(
        "test_f64_nan_handling",
        crate::categories::c13_floating_point::f64_nan_handling_steps(),
    );
    let blank = Contents::blank(plan.texts);
    lemma_nan_answers(blank, answers);
    lemma_nan_straight();
    crate::walk::law_passes_exactly_when_every_step_goes_through(plan, answers);
}

/// Whether the answers to the downloads of the test are columns or refusals.
pub open spec fn zero_signs_shaped(answers: Seq<Answer>) -> bool {
    &&& answers.len() >= 4
    &&& crate::laws::steps::column_or_refusal(answers[2])
}

/// What the device has to answer.
pub open spec fn zero_signs_answers(answers: Seq<Answer>) -> bool {
    &&& !(answers[0] is Failed)
    &&& !(answers[1] is Failed)
    &&& answers[2] is Words
    &&& answers[2]->Words_0.len() == 10
    &&& crate::laws::steps::rises_in(Scalar::F64, answers[2]->Words_0)
    &&& crate::columns::total(zeros(answers[2]->Words_0)) == crate::columns::total(
        zeros(crate::tables::words_of(Table::Zeros)),
    )
    &&& zeros_from(
        answers[2]->Words_0,
        crate::columns::first_set(zeros(answers[2]->Words_0), 0),
        crate::columns::total(zeros(answers[2]->Words_0)),
    )
    &&& crate::columns::occurrences(answers[2]->Words_0, SIGN) == crate::columns::occurrences(
        crate::tables::words_of(Table::Zeros),
        SIGN,
    )
    &&& !(answers[3] is Failed)
}

/// The steps of the test.
proof fn lemma_zero_signs_answers(contents: Contents, answers: Seq<Answer>)
    requires
        contents.full(),
        zero_signs_shaped(answers),
    ensures
        match crate::walk::walked(
            crate::categories::c13_floating_point::f64_zero_signs_steps(),
            0,
            14,
            contents,
            answers,
            0,
        ) {
            Some((after, next)) => {
                &&& zero_signs_answers(answers)
                &&& after.full()
                &&& next == 4
            },
            None => !zero_signs_answers(answers),
        },
        crate::categories::c13_floating_point::f64_zero_signs_steps().len() == 14,
{
    let steps = crate::categories::c13_floating_point::f64_zero_signs_steps();
    crate::laws::numbers::lemma_entries(Table::Zeros, contents);
    let words1 = crate::tables::words_of(Table::Zeros);
    crate::laws::steps::lemma_fill(steps, 0, 14, contents, answers, 0, words1);
    let next1 = contents.with_column(0, words1);
    crate::laws::steps::lemma_command(steps, 1, 14, next1, answers, 0);
    crate::laws::steps::lemma_command(steps, 2, 14, next1, answers, 1);
    crate::laws::steps::lemma_download(steps, 3, 14, next1, answers, 2);
    if answers[2] is Words {
        let next2 = next1.with_column(1, answers[2]->Words_0);
        lemma_length(next2, 10);
        crate::laws::steps::lemma_check(
            steps,
            4,
            14,
            next2,
            answers,
            3,
            !(answers[2]->Words_0.len() == 10),
        );
        crate::laws::steps::lemma_scan_ranks(steps, 5, 14, next2, answers, 3, 1, Scalar::F64);
        lemma_zeros(next2, 1);
        let words3 = zeros(answers[2]->Words_0);
        crate::laws::steps::lemma_fill(steps, 6, 14, next2, answers, 3, words3);
        let next3 = next2.with_column(2, words3);
        lemma_zeros(next3, 0);
        let words4 = zeros(crate::tables::words_of(Table::Zeros));
        crate::laws::steps::lemma_fill(steps, 7, 14, next3, answers, 3, words4);
        let next4 = next3.with_column(3, words4);
        crate::laws::lanes::lemma_mask_sum(next4, 2);
        crate::laws::steps::lemma_put(
            steps,
            8,
            14,
            next4,
            answers,
            3,
            crate::columns::total(zeros(answers[2]->Words_0)) as u64,
        );
        let next5 = next4.with_register(
            0,
            crate::columns::total(zeros(answers[2]->Words_0)) as u64,
        );
        lemma_count_differs(next5, crate::columns::total(zeros(answers[2]->Words_0)));
        crate::laws::steps::lemma_check(
            steps,
            9,
            14,
            next5,
            answers,
            3,
            !(
                crate::columns::total(zeros(answers[2]->Words_0)) == crate::columns::total(
                    zeros(crate::tables::words_of(Table::Zeros)),
                )
            ),
        );
        lemma_first_set(zeros(answers[2]->Words_0), 0);
        crate::laws::steps::lemma_put(
            steps,
            10,
            14,
            next5,
            answers,
            3,
            crate::columns::first_set(zeros(answers[2]->Words_0), 0) as u64,
        );
        let next6 = next5.with_register(
            1,
            crate::columns::first_set(zeros(answers[2]->Words_0), 0) as u64,
        );
        if answers[2]->Words_0.len() == 10 {
            lemma_scan_zeros(steps, 11, 14, next6, answers, 3);
        }
        lemma_occurrences_differ(next6, SIGN);
        crate::laws::steps::lemma_check(
            steps,
            12,
            14,
            next6,
            answers,
            3,
            !(
                crate::columns::occurrences(answers[2]->Words_0, SIGN)
                    == crate::columns::occurrences(
                    crate::tables::words_of(Table::Zeros),
                    SIGN,
                )
            ),
        );
        crate::laws::steps::lemma_command(steps, 13, 14, next6, answers, 3);
        crate::laws::steps::lemma_end(steps, 14, next6, answers, 4);
    }
}

/// The test has no jumps.
proof fn lemma_zero_signs_straight()
    ensures
        forall|j: int|
            0 <= j < crate::categories::c13_floating_point::f64_zero_signs_steps().len()
                ==> crate::walk::straight(
                #[trigger] crate::categories::c13_floating_point::f64_zero_signs_steps()[j],
            ),
{
}

/// The test of zeros passes exactly when the doubles come back in their total order, as many of
/// them zeros as went in, all zeros next to each other, and as many of them negative as went in.
pub proof fn law_zero_signs_pass_exactly_when_ordered_and_kept(answers: Seq<Answer>)
    requires
        zero_signs_shaped(answers),
    ensures
        crate::machine::run_of(
            crate::script::plan(
                "test_f64_zero_signs",
                crate::categories::c13_floating_point::f64_zero_signs_steps(),
            ),
            answers,
        ).progress == Progress::Over(Ending::Passed) <==> zero_signs_answers(answers),
{
    let plan = crate::script::plan(
        "test_f64_zero_signs",
        crate::categories::c13_floating_point::f64_zero_signs_steps(),
    );
    let blank = Contents::blank(plan.texts);
    lemma_zero_signs_answers(blank, answers);
    lemma_zero_signs_straight();
    crate::walk::law_passes_exactly_when_every_step_goes_through(plan, answers);
}

/// Whether the answers to the downloads of the test are columns or refusals.
pub open spec fn extremes_shaped(answers: Seq<Answer>) -> bool {
    &&& answers.len() >= 4
    &&& crate::laws::steps::column_or_refusal(answers[2])
}

/// What the device has to answer.
pub open spec fn extremes_answers(answers: Seq<Answer>) -> bool {
    &&& !(answers[0] is Failed)
    &&& !(answers[1] is Failed)
    &&& answers[2] is Words
    &&& answers[2]->Words_0.len() == 17
    &&& crate::laws::steps::rises_in(Scalar::F64, answers[2]->Words_0)
    &&& crate::laws::types::first_is(answers[2]->Words_0, 0xffef_ffff_ffff_ffff)
    &&& crate::laws::types::last_is(answers[2]->Words_0, 0x7fef_ffff_ffff_ffff)
    &&& all_present(answers[2]->Words_0, crate::tables::words_of(Table::Extremes))
    &&& !(answers[3] is Failed)
}

/// The steps of the test.
proof fn lemma_extremes_answers(contents: Contents, answers: Seq<Answer>)
    requires
        contents.full(),
        extremes_shaped(answers),
    ensures
        match crate::walk::walked(
            crate::categories::c13_floating_point::f64_precision_extremes_steps(),
            0,
            10,
            contents,
            answers,
            0,
        ) {
            Some((after, next)) => {
                &&& extremes_answers(answers)
                &&& after.full()
                &&& next == 4
            },
            None => !extremes_answers(answers),
        },
        crate::categories::c13_floating_point::f64_precision_extremes_steps().len() == 10,
{
    let steps = crate::categories::c13_floating_point::f64_precision_extremes_steps();
    crate::laws::numbers::lemma_entries(Table::Extremes, contents);
    let words1 = crate::tables::words_of(Table::Extremes);
    crate::laws::steps::lemma_fill(steps, 0, 10, contents, answers, 0, words1);
    let next1 = contents.with_column(0, words1);
    crate::laws::steps::lemma_command(steps, 1, 10, next1, answers, 0);
    crate::laws::steps::lemma_command(steps, 2, 10, next1, answers, 1);
    crate::laws::steps::lemma_download(steps, 3, 10, next1, answers, 2);
    if answers[2] is Words {
        let next2 = next1.with_column(1, answers[2]->Words_0);
        lemma_length(next2, 17);
        crate::laws::steps::lemma_check(
            steps,
            4,
            10,
            next2,
            answers,
            3,
            !(answers[2]->Words_0.len() == 17),
        );
        crate::laws::steps::lemma_scan_ranks(steps, 5, 10, next2, answers, 3, 1, Scalar::F64);
        crate::laws::types::lemma_first(next2, 0xffef_ffff_ffff_ffff);
        crate::laws::steps::lemma_check_or_abort(
            steps,
            6,
            10,
            next2,
            answers,
            3,
            crate::laws::types::first_is(answers[2]->Words_0, 0xffef_ffff_ffff_ffff),
        );
        crate::laws::types::lemma_last(next2, 0x7fef_ffff_ffff_ffff);
        crate::laws::steps::lemma_check_or_abort(
            steps,
            7,
            10,
            next2,
            answers,
            3,
            crate::laws::types::last_is(answers[2]->Words_0, 0x7fef_ffff_ffff_ffff),
        );
        assert(next2.columns[0] == crate::tables::words_of(Table::Extremes));
        assert(next2.columns[1] == answers[2]->Words_0);
        lemma_all_present(next2);
        crate::laws::steps::lemma_scan_words(
            steps,
            8,
            10,
            next2,
            answers,
            3,
            0,
            and(
                same_as(count_in(1, here(0)), num(0)),
                or(
                    differs(here(0), num(0)),
                    same_as(count_in(1, num(0x8000_0000_0000_0000)), num(0)),
                ),
            ),
            |word: u64| present(answers[2]->Words_0, word),
        );
        if all_present(answers[2]->Words_0, crate::tables::words_of(Table::Extremes)) {
            assert forall|i: int| 0 <= i < next2.columns[0].len() implies present(
                answers[2]->Words_0,
                #[trigger] next2.columns[0][i],
            ) by {
                assert(present(answers[2]->Words_0, crate::tables::words_of(Table::Extremes)[i]));
            }
        }
        crate::laws::steps::lemma_command(steps, 9, 10, next2, answers, 3);
        crate::laws::steps::lemma_end(steps, 10, next2, answers, 4);
    }
}

/// The test has no jumps.
proof fn lemma_extremes_straight()
    ensures
        forall|j: int|
            0 <= j < crate::categories::c13_floating_point::f64_precision_extremes_steps().len()
                ==> crate::walk::straight(
                #[trigger] crate::categories::c13_floating_point::f64_precision_extremes_steps()[j],
            ),
{
}

/// The test of extreme doubles passes exactly when as many come back as went in, in their total
/// order, from the least to the greatest finite one, and each that went in is there; for zero, one
/// of either sign will do.
pub proof fn law_extremes_pass_exactly_when_ordered_and_present(answers: Seq<Answer>)
    requires
        extremes_shaped(answers),
    ensures
        crate::machine::run_of(
            crate::script::plan(
                "test_f64_precision_extremes",
                crate::categories::c13_floating_point::f64_precision_extremes_steps(),
            ),
            answers,
        ).progress == Progress::Over(Ending::Passed) <==> extremes_answers(answers),
{
    let plan = crate::script::plan(
        "test_f64_precision_extremes",
        crate::categories::c13_floating_point::f64_precision_extremes_steps(),
    );
    let blank = Contents::blank(plan.texts);
    lemma_extremes_answers(blank, answers);
    lemma_extremes_straight();
    crate::walk::law_passes_exactly_when_every_step_goes_through(plan, answers);
}

} // verus!
