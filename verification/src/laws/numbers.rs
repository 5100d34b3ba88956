//! The laws of the tests that sort doubles and signed values.

use vstd::prelude::*;
use crate::expr::{
    at, differs, entry, found_in, here, ix, len, less_or_zero, lt, minus, num, pick, plus, ranked,
    reg,
};
use crate::machine::{Answer, Ending, Progress};
use crate::memory::Contents;
use crate::scalar::{Scalar, SIGN};
use crate::script::{Act, Faults, Step};
use crate::tables::Table;

verus! {

/// Shuffling a column keeps its words.
pub proof fn law_shuffling_keeps_the_words(words: Seq<u64>, rounds: nat)
    requires
        rounds <= words.len(),
    ensures
        crate::machine::shuffled(words, rounds).len() == words.len(),
        crate::machine::shuffled(words, rounds).to_multiset() == words.to_multiset(),
    decreases rounds,
{
    if rounds > 0 {
        let place = rounds - 1;
        let before = crate::machine::shuffled(words, (rounds - 1) as nat);
        let other = (place * 17 + 7) % (words.len() as int);
        law_shuffling_keeps_the_words(words, (rounds - 1) as nat);
        vstd::seq_lib::to_multiset_update(before, place, before[other]);
        let halfway = before.update(place, before[other]);
        vstd::seq_lib::to_multiset_update(halfway, other, before[place]);
        vstd::seq_lib::to_multiset_contains(before, before[place]);
        vstd::seq_lib::to_multiset_contains(before, before[other]);
        assert(before.contains(before[place]));
        assert(before.contains(before[other]));
        assert(halfway[other] == before[other]);
        assert(crate::machine::shuffled(words, rounds).to_multiset() =~= before.to_multiset());
    }
}

/// The words of a table.
pub proof fn lemma_entries(table: Table, contents: Contents)
    ensures
        forall|i: int|
            0 <= i < crate::tables::words_of(table).len() && i <= u64::MAX
                ==> #[trigger] crate::expr::value_of(entry(table, ix()), contents, i as u64)
                == Some(crate::tables::words_of(table)[i]),
{
    reveal_with_fuel(crate::expr::value_of, 2);
}

/// A shuffled copy of a column.
proof fn lemma_shuffle(
    steps: Seq<Step>,
    at: int,
    to: int,
    contents: Contents,
    answers: Seq<Answer>,
    used: int,
    into: u64,
    from: u64,
)
    requires
        at < to,
        crate::machine::taken(steps[at], contents) == Some(true),
        crate::machine::act_of(steps[at]) == (Act::Shuffle { into, from }),
        into < contents.columns.len(),
        from < contents.columns.len(),
    ensures
        crate::walk::walked(steps, at, to, contents, answers, used) == crate::walk::walked(
            steps,
            at + 1,
            to,
            contents.with_column(
                into,
                crate::machine::shuffled(
                    contents.columns[from as int],
                    contents.columns[from as int].len(),
                ),
            ),
            answers,
            used,
        ),
{
    reveal_with_fuel(crate::walk::walked, 2);
    reveal(crate::machine::effect_of);
}

/// Looking for words that rank higher than the one two places on.
#[verifier::spinoff_prover]
#[verifier::rlimit(50)]
proof fn lemma_skip_faults(faults: Faults, contents: Contents)
    requires
        contents.full(),
        contents.columns[1].len() <= u64::MAX,
        faults matches Faults::One(fault, _) && fault == lt(
            ranked(Scalar::F64, at(1, plus(ix(), num(2)))),
            ranked(Scalar::F64, here(1)),
        ),
    ensures
        forall|i: int|
            0 <= i && i + 2 < contents.columns[1].len() ==> (#[trigger] crate::walk::shows(
                faults,
                contents,
                i as u64,
            ) <==> crate::scalar::rank_of(Scalar::F64, contents.columns[1][i + 2])
                < crate::scalar::rank_of(Scalar::F64, contents.columns[1][i])),
{
    reveal_with_fuel(crate::expr::value_of, 6);
}

/// A scan of a rising column for words that rank higher than the one two places on finds none.
proof fn lemma_scan_skips(
    steps: Seq<Step>,
    place: int,
    to: int,
    contents: Contents,
    answers: Seq<Answer>,
    used: int,
)
    requires
        place < to,
        contents.full(),
        contents.columns[1].len() <= u64::MAX,
        crate::laws::steps::rises_in(Scalar::F64, contents.columns[1]),
        crate::machine::taken(steps[place], contents) == Some(true),
        crate::machine::act_of(steps[place]) matches Act::Scan { low, high, by, faults } && {
            &&& low == num(0)
            &&& high == less_or_zero(len(1), num(2))
            &&& by == 1
            &&& faults matches Faults::One(fault, _)
            &&& fault == lt(
                ranked(Scalar::F64, at(1, plus(ix(), num(2)))),
                ranked(Scalar::F64, here(1)),
            )
        },
    ensures
        crate::walk::walked(steps, place, to, contents, answers, used) == crate::walk::walked(
            steps,
            place + 1,
            to,
            contents,
            answers,
            used,
        ),
{
    let words = contents.columns[1];
    let end = if words.len() < 2 {
        0
    } else {
        words.len() - 2
    };
    match crate::machine::act_of(steps[place]) {
        Act::Scan { faults, .. } => {
            assert(crate::expr::value_of(less_or_zero(len(1), num(2)), contents, 0) == Some(
                end as u64,
            )) by {
                reveal_with_fuel(crate::expr::value_of, 3);
            }
            crate::laws::steps::lemma_scan(
                steps,
                place,
                to,
                contents,
                answers,
                used,
                0,
                end as u64,
            );
            lemma_skip_faults(faults, contents);
            assert forall|i: int| 0 <= i < end implies !(#[trigger] crate::walk::shows(
                faults,
                contents,
                i as u64,
            )) by {
                assert(crate::scalar::rank_of(Scalar::F64, words[i + 1 - 1])
                    <= crate::scalar::rank_of(Scalar::F64, words[i + 1]));
                assert(crate::scalar::rank_of(Scalar::F64, words[i + 2 - 1])
                    <= crate::scalar::rank_of(Scalar::F64, words[i + 2]));
            }
        },
        _ => {},
    }
}

/// The test that sorts a ladder of doubles has no jumps.
proof fn lemma_ladder_straight()
    ensures
        forall|j: int|
            0 <= j < crate::categories::c13_floating_point::f64_sort_ordering_steps().len()
                ==> crate::walk::straight(
                #[trigger] crate::categories::c13_floating_point::f64_sort_ordering_steps()[j],
            ),
{
}

/// The test that sorts a ladder of doubles passes exactly when the device takes them in, hands them
/// out in their total order, and is in step with the host in the end.
pub proof fn law_ladder_passes_exactly_when_in_total_order(answers: Seq<Answer>)
    requires
        answers.len() >= 4,
        crate::laws::steps::column_or_refusal(answers[2]),
    ensures
        crate::machine::run_of(
            crate::script::plan(
                "test_f64_sort_ordering",
                crate::categories::c13_floating_point::f64_sort_ordering_steps(),
            ),
            answers,
        ).progress == Progress::Over(Ending::Passed) <==> {
            &&& !(answers[0] is Failed)
            &&& !(answers[1] is Failed)
            &&& answers[2] == Answer::Words(
                crate::columns::sorted(Scalar::F64, crate::tables::words_of(Table::Ladder)),
            )
            &&& !(answers[3] is Failed)
        },
{
    let plan = crate::script::plan(
        "test_f64_sort_ordering",
        crate::categories::c13_floating_point::f64_sort_ordering_steps(),
    );
    let steps = plan.steps;
    let blank = Contents::blank(plan.texts);
    let ladder = crate::tables::words_of(Table::Ladder);
    let sorted = crate::columns::sorted(Scalar::F64, ladder);
    lemma_entries(Table::Ladder, blank);
    crate::laws::steps::lemma_sorted_rises(Scalar::F64, ladder);
    crate::laws::steps::lemma_fill(steps, 0, 11, blank, answers, 0, ladder);
    let filled = blank.with_column(2, ladder);
    lemma_shuffle(steps, 1, 11, filled, answers, 0, 0, 2);
    let mixed = filled.with_column(0, crate::machine::shuffled(ladder, ladder.len()));
    crate::laws::steps::lemma_command(steps, 2, 11, mixed, answers, 0);
    crate::laws::steps::lemma_command(steps, 3, 11, mixed, answers, 1);
    crate::laws::steps::lemma_download(steps, 4, 11, mixed, answers, 2);
    if answers[2] is Words {
        let words = answers[2]->Words_0;
        let after = mixed.with_column(1, words);
        crate::laws::steps::lemma_lengths(after, 2, 1);
        crate::laws::steps::lemma_check(
            steps,
            5,
            11,
            after,
            answers,
            3,
            words.len() != ladder.len(),
        );
        crate::laws::steps::lemma_scan_ranks(steps, 6, 11, after, answers, 3, 1, Scalar::F64);
        crate::laws::steps::lemma_sort_column(steps, 7, 11, after, answers, 3);
        let last = after.with_column(3, sorted);
        crate::laws::steps::lemma_scan_differences(steps, 8, 11, last, answers, 3, 1, 3);
        if words.len() == ladder.len() {
            assert(crate::laws::steps::agree(words, sorted) <==> words =~= sorted);
        }
        if crate::laws::steps::rises_in(Scalar::F64, words) {
            lemma_scan_skips(steps, 9, 11, last, answers, 3);
        }
        crate::laws::steps::lemma_command(steps, 10, 11, last, answers, 3);
        crate::laws::steps::lemma_end(steps, 11, last, answers, 4);
    }
    lemma_ladder_straight();
    crate::walk::law_passes_exactly_when_every_step_goes_through(plan, answers);
}

/// The least signed value comes first in the sorted mix, and the greatest one last.
proof fn lemma_sorted_mix()
    ensures
        crate::columns::sorted(Scalar::I64, crate::tables::words_of(Table::SignedMix)).len() == 11,
        crate::columns::sorted(Scalar::I64, crate::tables::words_of(Table::SignedMix))[0] == SIGN,
        crate::columns::sorted(Scalar::I64, crate::tables::words_of(Table::SignedMix))[10]
            == SIGN - 1,
{
    let mix = crate::tables::words_of(Table::SignedMix);
    let sorted = crate::columns::sorted(Scalar::I64, mix);
    let order = crate::columns::ordered(Scalar::I64);
    crate::laws::steps::lemma_sorted_rises(Scalar::I64, mix);
    crate::columns::law_sorted_is_the_rising_permutation(Scalar::I64, mix, sorted);
    assert(mix[9] == SIGN);
    assert(mix[10] == SIGN - 1);
    vstd::seq_lib::to_multiset_contains(mix, mix[9]);
    vstd::seq_lib::to_multiset_contains(mix, mix[10]);
    vstd::seq_lib::to_multiset_contains(sorted, mix[9]);
    vstd::seq_lib::to_multiset_contains(sorted, mix[10]);
    assert(mix.contains(mix[9]));
    assert(mix.contains(mix[10]));
    let low = choose|i: int| 0 <= i < sorted.len() && sorted[i] == mix[9];
    let high = choose|i: int| 0 <= i < sorted.len() && sorted[i] == mix[10];
    assert(low == 0 || order(sorted[0], sorted[low]));
    assert(high == 10 || order(sorted[high], sorted[10]));
    assert(crate::scalar::rank_of(Scalar::I64, SIGN) == 0);
    assert(crate::scalar::rank_of(Scalar::I64, (SIGN - 1) as u64) == u64::MAX);
}

/// No place before the first one that is set is set.
proof fn lemma_first_set(words: Seq<u64>, from: int)
    requires
        0 <= from <= words.len(),
    ensures
        from <= crate::columns::first_set(words, from) <= words.len(),
        forall|i: int|
            from <= i < crate::columns::first_set(words, from) ==> #[trigger] words[i] == 0,
    decreases words.len() - from,
{
    if from < words.len() && words[from] == 0 {
        lemma_first_set(words, from + 1);
    }
}

/// The mask of the words that are not negative.
spec fn upper(words: Seq<u64>) -> Seq<u64> {
    Seq::new(words.len(), |i: int| crate::expr::truth(words[i] < SIGN))
}

/// What the test that sorts signed values computes from the column that it was handed.
#[verifier::spinoff_prover]
#[verifier::rlimit(50)]
proof fn lemma_mix_values(contents: Contents)
    requires
        contents.full(),
        contents.columns[1].len() == 11,
    ensures
        forall|i: int|
            0 <= i < 11 ==> #[trigger] crate::expr::value_of(
                lt(here(1), num(0x8000_0000_0000_0000)),
                contents,
                i as u64,
            ) == Some(upper(contents.columns[1])[i]),
        crate::expr::value_of(len(1), contents, 0) == Some(11u64),
        crate::expr::value_of(
            differs(at(1, num(0)), num(0x8000_0000_0000_0000)),
            contents,
            0,
        ) == Some(crate::expr::truth(contents.columns[1][0] != SIGN)),
        crate::expr::value_of(
            differs(at(1, minus(len(1), num(1))), num(0x7FFF_FFFF_FFFF_FFFF)),
            contents,
            0,
        ) == Some(crate::expr::truth(contents.columns[1][10] != SIGN - 1)),
{
    reveal_with_fuel(crate::expr::value_of, 5);
}

/// A scan of the places before the first word that is not negative finds none that is not.
proof fn lemma_scan_negatives(
    steps: Seq<Step>,
    place: int,
    to: int,
    contents: Contents,
    answers: Seq<Answer>,
    used: int,
)
    requires
        place < to,
        contents.full(),
        contents.columns[1].len() == 11,
        contents.columns[3] == upper(contents.columns[1]),
        contents.registers[0] == crate::columns::first_set(contents.columns[3], 0),
        crate::machine::taken(steps[place], contents) == Some(true),
        crate::machine::act_of(steps[place]) matches Act::Scan { low, high, by, faults } && {
            &&& low == num(0)
            &&& high == pick(lt(reg(0), len(1)), reg(0), num(0))
            &&& by == 1
            &&& faults matches Faults::One(fault, _)
            &&& fault == lt(here(1), num(0x8000_0000_0000_0000))
        },
    ensures
        crate::walk::walked(steps, place, to, contents, answers, used) == crate::walk::walked(
            steps,
            place + 1,
            to,
            contents,
            answers,
            used,
        ),
{
    let words = contents.columns[1];
    let first = crate::columns::first_set(contents.columns[3], 0);
    lemma_first_set(contents.columns[3], 0);
    let end = if first < 11 {
        first
    } else {
        0
    };
    match crate::machine::act_of(steps[place]) {
        Act::Scan { faults, .. } => {
            assert(crate::expr::value_of(pick(lt(reg(0), len(1)), reg(0), num(0)), contents, 0)
                == Some(end as u64)) by {
                reveal_with_fuel(crate::expr::value_of, 4);
            }
            crate::laws::steps::lemma_scan(
                steps,
                place,
                to,
                contents,
                answers,
                used,
                0,
                end as u64,
            );
            lemma_mix_values(contents);
            assert forall|i: int| 0 <= i < end implies !(#[trigger] crate::walk::shows(
                faults,
                contents,
                i as u64,
            )) by {
                assert(contents.columns[3][i] == 0);
                assert(upper(words)[i] == 0);
            }
        },
        _ => {},
    }
}

/// The test that sorts signed values has no jumps.
proof fn lemma_mix_straight()
    ensures
        forall|j: int|
            0 <= j < crate::categories::c14_integer::i64_signed_comparison_steps().len()
                ==> crate::walk::straight(
                #[trigger] crate::categories::c14_integer::i64_signed_comparison_steps()[j],
            ),
{
}

/// The test that sorts signed values passes exactly when the device takes them in, hands them out
/// by rising value, and is in step with the host in the end.
pub proof fn law_signed_mix_passes_exactly_when_sorted_by_value(answers: Seq<Answer>)
    requires
        answers.len() >= 4,
        crate::laws::steps::column_or_refusal(answers[2]),
    ensures
        crate::machine::run_of(
            crate::script::plan(
                "test_i64_signed_comparison",
                crate::categories::c14_integer::i64_signed_comparison_steps(),
            ),
            answers,
        ).progress == Progress::Over(Ending::Passed) <==> {
            &&& !(answers[0] is Failed)
            &&& !(answers[1] is Failed)
            &&& answers[2] == Answer::Words(
                crate::columns::sorted(Scalar::I64, crate::tables::words_of(Table::SignedMix)),
            )
            &&& !(answers[3] is Failed)
        },
{
    let plan = crate::script::plan(
        "test_i64_signed_comparison",
        crate::categories::c14_integer::i64_signed_comparison_steps(),
    );
    let steps = plan.steps;
    let blank = Contents::blank(plan.texts);
    let mix = crate::tables::words_of(Table::SignedMix);
    let sorted = crate::columns::sorted(Scalar::I64, mix);
    lemma_entries(Table::SignedMix, blank);
    lemma_sorted_mix();
    crate::laws::steps::lemma_sorted_rises(Scalar::I64, mix);
    crate::laws::steps::lemma_fill(steps, 0, 13, blank, answers, 0, mix);
    let filled = blank.with_column(0, mix);
    crate::laws::steps::lemma_command(steps, 1, 13, filled, answers, 0);
    crate::laws::steps::lemma_command(steps, 2, 13, filled, answers, 1);
    crate::laws::steps::lemma_download(steps, 3, 13, filled, answers, 2);
    if answers[2] is Words {
        let words = answers[2]->Words_0;
        let after = filled.with_column(1, words);
        crate::laws::steps::lemma_scan_ranks(steps, 4, 13, after, answers, 3, 1, Scalar::I64);
        crate::laws::steps::lemma_sort_column(steps, 5, 13, after, answers, 3);
        let held = after.with_column(2, sorted);
        crate::laws::steps::lemma_not_alike(held, 1, 2);
        crate::laws::steps::lemma_check(steps, 6, 13, held, answers, 3, words != sorted);
        if words == sorted {
            lemma_mix_values(held);
            crate::laws::steps::lemma_fill(steps, 7, 13, held, answers, 3, upper(words));
            let masked = held.with_column(3, upper(words));
            let first = crate::columns::first_set(upper(words), 0);
            lemma_first_set(upper(words), 0);
            assert(crate::expr::value_of(found_in(3), masked, 0) == Some(first as u64));
            crate::laws::steps::lemma_put(steps, 8, 13, masked, answers, 3, first as u64);
            let last = masked.with_register(0, first as u64);
            lemma_scan_negatives(steps, 9, 13, last, answers, 3);
            lemma_mix_values(last);
            crate::laws::steps::lemma_check(steps, 10, 13, last, answers, 3, false);
            crate::laws::steps::lemma_check(steps, 11, 13, last, answers, 3, false);
            crate::laws::steps::lemma_command(steps, 12, 13, last, answers, 3);
            crate::laws::steps::lemma_end(steps, 13, last, answers, 4);
        }
    }
    lemma_mix_straight();
    crate::walk::law_passes_exactly_when_every_step_goes_through(plan, answers);
}

} // verus!
