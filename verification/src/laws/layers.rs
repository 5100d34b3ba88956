//! The law of the test that filters again and again.

use vstd::prelude::*;
use crate::expr::{differs, here, ix, least, len, num, reg, times};
use crate::machine::{Answer, Ending, Progress};
use crate::memory::Contents;
use crate::script::{Act, Faults, Step};

verus! {

/// Whether the first words of a column, up to five of them, are multiples of forty.
pub open spec fn begins_with_forties(words: Seq<u64>) -> bool {
    forall|i: int| 0 <= i < 5 && i < words.len() ==> #[trigger] words[i] == 40 * i
}

/// Whether a row count is not the expected one.
proof fn lemma_count(contents: Contents, expected: u64)
    requires
        contents.full(),
    ensures
        crate::expr::value_of(differs(reg(0), num(expected)), contents, 0) == Some(
            crate::expr::truth(contents.registers[0] != expected),
        ),
{
    reveal_with_fuel(crate::expr::value_of, 4);
}

/// Looking for words that are not the expected multiples.
#[verifier::spinoff_prover]
#[verifier::rlimit(50)]
proof fn lemma_forty_faults(faults: Faults, contents: Contents)
    requires
        contents.full(),
        faults matches Faults::One(fault, _) && fault == differs(here(2), times(ix(), num(40))),
    ensures
        forall|i: int|
            0 <= i < 5 && i < contents.columns[2].len() ==> (#[trigger] crate::walk::shows(
                faults,
                contents,
                i as u64,
            ) <==> contents.columns[2][i] != 40 * i),
{
    reveal_with_fuel(crate::expr::value_of, 5);
}

/// A scan of the first words.
proof fn lemma_scan_forties(
    steps: Seq<Step>,
    at: int,
    to: int,
    contents: Contents,
    answers: Seq<Answer>,
    used: int,
)
    requires
        at < to,
        contents.full(),
        contents.columns[2].len() <= u64::MAX,
        crate::machine::taken(steps[at], contents) == Some(true),
        crate::machine::act_of(steps[at]) matches Act::Scan { low, high, by, faults } && {
            &&& low == num(0)
            &&& high == least(num(5), len(2))
            &&& by == 1
            &&& faults matches Faults::One(fault, _)
            &&& fault == differs(here(2), times(ix(), num(40)))
        },
    ensures
        crate::walk::walked(steps, at, to, contents, answers, used) == (if begins_with_forties(
            contents.columns[2],
        ) {
            crate::walk::walked(steps, at + 1, to, contents, answers, used)
        } else {
            None
        }),
{
    let words = contents.columns[2];
    let end = if words.len() < 5 {
        words.len()
    } else {
        5
    };
    match crate::machine::act_of(steps[at]) {
        Act::Scan { faults, .. } => {
            assert(
                crate::expr::value_of(least(num(5), len(2)), contents, 0) == Some(end as u64)
            ) by {
                reveal_with_fuel(crate::expr::value_of, 3);
            }
            crate::laws::steps::lemma_scan(
                steps,
                at,
                to,
                contents,
                answers,
                used,
                0,
                end as u64,
            );
            lemma_forty_faults(faults, contents);
            if begins_with_forties(words) {
                assert forall|i: int| 0 <= i < end implies !(#[trigger] crate::walk::shows(
                    faults,
                    contents,
                    i as u64,
                )) by {
                    assert(words[i] == 40 * i);
                }
            } else {
                let i = choose|i: int|
                    0 <= i < 5 && i < words.len() && #[trigger] words[i] != 40 * i;
                assert(crate::walk::shows(faults, contents, i as u64));
            }
        },
        _ => {},
    }
}

/// Whether the answers to the downloads of the test are columns or refusals.
pub open spec fn layers_shaped(answers: Seq<Answer>) -> bool {
    &&& answers.len() >= 9
    &&& answers[2] is Count
    &&& answers[4] is Count
    &&& answers[6] is Count
    &&& crate::laws::steps::column_or_refusal(answers[7])
}

/// What the device has to answer.
pub open spec fn layers_all(answers: Seq<Answer>) -> bool {
    &&& !(answers[0] is Failed)
    &&& !(answers[1] is Failed)
    &&& answers[2]->Count_0 == 50000
    &&& !(answers[3] is Failed)
    &&& answers[4]->Count_0 == 12500
    &&& !(answers[5] is Failed)
    &&& answers[6]->Count_0 == 2500
    &&& answers[7] is Words
    &&& begins_with_forties(answers[7]->Words_0)
    &&& !(answers[8] is Failed)
}

/// The steps of the test.
proof fn lemma_layers_all(contents: Contents, answers: Seq<Answer>)
    requires
        contents.full(),
        layers_shaped(answers),
    ensures
        match crate::walk::walked(
            crate::categories::c07_local_memory::complex_filter_chains_steps(),
            0,
            17,
            contents,
            answers,
            0,
        ) {
            Some((after, next)) => {
                &&& layers_all(answers)
                &&& after.full()
                &&& next == 9
            },
            None => !layers_all(answers),
        },
        crate::categories::c07_local_memory::complex_filter_chains_steps().len() == 17,
{
    let steps = crate::categories::c07_local_memory::complex_filter_chains_steps();
    crate::laws::words::lemma_below(100000, contents);
    let words1 = crate::laws::words::below(100000);
    crate::laws::steps::lemma_fill(steps, 0, 17, contents, answers, 0, words1);
    let next1 = contents.with_column(0, words1);
    crate::laws::steps::lemma_command(steps, 1, 17, next1, answers, 0);
    crate::laws::masks::lemma_remainder_words(2, 100000, next1);
    let words2 = crate::laws::masks::every(2, 100000);
    crate::laws::steps::lemma_fill(steps, 2, 17, next1, answers, 1, words2);
    let next2 = next1.with_column(1, words2);
    crate::laws::steps::lemma_command(steps, 3, 17, next2, answers, 1);
    crate::laws::steps::lemma_number(steps, 4, 17, next2, answers, 2, answers[2]->Count_0);
    let next3 = next2.with_register(0, answers[2]->Count_0);
    lemma_count(next3, 50000);
    crate::laws::steps::lemma_check(
        steps,
        5,
        17,
        next3,
        answers,
        3,
        !(answers[2]->Count_0 == 50000),
    );
    crate::laws::masks::lemma_remainder_words(4, 50000, next3);
    let words4 = crate::laws::masks::every(4, 50000);
    crate::laws::steps::lemma_fill(steps, 6, 17, next3, answers, 3, words4);
    let next4 = next3.with_column(1, words4);
    crate::laws::steps::lemma_command(steps, 7, 17, next4, answers, 3);
    crate::laws::steps::lemma_number(steps, 8, 17, next4, answers, 4, answers[4]->Count_0);
    let next5 = next4.with_register(0, answers[4]->Count_0);
    lemma_count(next5, 12500);
    crate::laws::steps::lemma_check(
        steps,
        9,
        17,
        next5,
        answers,
        5,
        !(answers[4]->Count_0 == 12500),
    );
    crate::laws::masks::lemma_remainder_words(5, 12500, next5);
    let words6 = crate::laws::masks::every(5, 12500);
    crate::laws::steps::lemma_fill(steps, 10, 17, next5, answers, 5, words6);
    let next6 = next5.with_column(1, words6);
    crate::laws::steps::lemma_command(steps, 11, 17, next6, answers, 5);
    crate::laws::steps::lemma_number(steps, 12, 17, next6, answers, 6, answers[6]->Count_0);
    let next7 = next6.with_register(0, answers[6]->Count_0);
    lemma_count(next7, 2500);
    crate::laws::steps::lemma_check(
        steps,
        13,
        17,
        next7,
        answers,
        7,
        !(answers[6]->Count_0 == 2500),
    );
    crate::laws::steps::lemma_download(steps, 14, 17, next7, answers, 7);
    if answers[7] is Words {
        let next8 = next7.with_column(2, answers[7]->Words_0);
        lemma_scan_forties(steps, 15, 17, next8, answers, 8);
        crate::laws::steps::lemma_command(steps, 16, 17, next8, answers, 8);
        crate::laws::steps::lemma_end(steps, 17, next8, answers, 9);
    }
}

/// The test has no jumps.
proof fn lemma_layers_straight()
    ensures
        forall|j: int|
            0 <= j < crate::categories::c07_local_memory::complex_filter_chains_steps().len()
                ==> crate::walk::straight(
            #[trigger] crate::categories::c07_local_memory::complex_filter_chains_steps()[j],
        ),
{
}

/// The test that filters again and again passes exactly when the three filters leave fifty
/// thousand, 12500 and 2500 rows, and the last one begins with multiples of forty.
pub proof fn law_layers_pass_exactly_when_each_filter_counts(answers: Seq<Answer>)
    requires
        layers_shaped(answers),
    ensures
        crate::machine::run_of(
            crate::script::plan(
                "test_complex_filter_chains",
                crate::categories::c07_local_memory::complex_filter_chains_steps(),
            ),
            answers,
        ).progress == Progress::Over(Ending::Passed) <==> layers_all(answers),
{
    let plan = crate::script::plan(
        "test_complex_filter_chains",
        crate::categories::c07_local_memory::complex_filter_chains_steps(),
    );
    let blank = Contents::blank(plan.texts);
    lemma_layers_all(blank, answers);
    lemma_layers_straight();
    crate::walk::law_passes_exactly_when_every_step_goes_through(plan, answers);
}

} // verus!
