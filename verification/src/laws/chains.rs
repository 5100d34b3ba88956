//! The law of the test that chains operations.

use vstd::prelude::*;
use crate::expr::{
    and, at, differs, here, ix, least, len, lt, modulo, narrow, not, num, or, over, reg, same_as,
    times,
};
use crate::machine::{Answer, Ending, Progress};
use crate::memory::Contents;
use crate::script::{Act, Faults, Step};

verus! {

/// Whether all words of a column lie in a range.
pub open spec fn within(words: Seq<u64>, low: u64, high: u64) -> bool {
    forall|i: int| 0 <= i < words.len() ==> low <= #[trigger] words[i] < high
}

/// The mask of the words of a column that lie in a range.
pub open spec fn range_mask(words: Seq<u64>, low: u64, high: u64) -> Seq<u64> {
    Seq::new(words.len(), |i: int| crate::expr::truth(low <= words[i] < high))
}

/// The first numbers, doubled and divided by three.
pub open spec fn two_thirds() -> Seq<u64> {
    Seq::new(15000, |i: int| (2 * i / 3) as u64)
}

/// The mask that leaves out every fifth of `n` rows.
pub open spec fn four_of_five(n: nat) -> Seq<u64> {
    Seq::new(n, |i: int| crate::expr::truth(i % 5 < 4))
}

/// Whether the values of joined rows are twice their keys.
pub open spec fn doubled(keys: Seq<u64>, values: Seq<u64>) -> bool {
    forall|i: int|
        0 <= i < keys.len() && i < values.len() ==> #[trigger] values[i] == 2 * keys[i]
}

/// The words of [`range_mask`].
#[verifier::spinoff_prover]
#[verifier::rlimit(50)]
proof fn lemma_range_mask(contents: Contents)
    requires
        contents.full(),
        contents.columns[1].len() <= u64::MAX,
    ensures
        forall|i: int|
            0 <= i < contents.columns[1].len() ==> #[trigger] crate::expr::value_of(
                and(not(lt(here(1), reg(0))), lt(here(1), reg(1))),
                contents,
                i as u64,
            ) == Some(
                range_mask(
                    contents.columns[1],
                    contents.registers[0],
                    contents.registers[1],
                )[i],
            ),
{
    reveal_with_fuel(crate::expr::value_of, 6);
}

/// The words of [`two_thirds`].
proof fn lemma_two_thirds(contents: Contents)
    ensures
        forall|i: int|
            0 <= i < 15000 ==> #[trigger] crate::expr::value_of(
                over(times(ix(), num(2)), num(3)),
                contents,
                i as u64,
            ) == Some(two_thirds()[i]),
{
    reveal_with_fuel(crate::expr::value_of, 4);
}

/// The words of [`four_of_five`].
proof fn lemma_four_of_five(n: nat, contents: Contents)
    requires
        n <= u64::MAX,
    ensures
        forall|i: int|
            0 <= i < n ==> #[trigger] crate::expr::value_of(
                lt(modulo(ix(), num(5)), num(4)),
                contents,
                i as u64,
            ) == Some(four_of_five(n)[i]),
{
    reveal_with_fuel(crate::expr::value_of, 4);
}

/// A word of a column at a fixed place.
proof fn lemma_at(contents: Contents, place: u64)
    requires
        contents.full(),
        contents.columns[1].len() <= u64::MAX,
    ensures
        crate::expr::value_of(at(1, num(place)), contents, 0) == (if place
            < contents.columns[1].len() {
            Some(contents.columns[1][place as int])
        } else {
            None
        }),
{
    reveal_with_fuel(crate::expr::value_of, 3);
}

/// A scan for words that lie outside of a range.
#[verifier::spinoff_prover]
#[verifier::rlimit(50)]
proof fn lemma_scan_range(
    steps: Seq<Step>,
    at: int,
    to: int,
    contents: Contents,
    answers: Seq<Answer>,
    used: int,
)
    requires
        at < to,
        contents.full(),
        crate::machine::taken(steps[at], contents) == Some(true),
        crate::machine::act_of(steps[at]) matches Act::Scan { low, high, by, faults } && {
            &&& low == num(0)
            &&& high == len(3)
            &&& by == 1
            &&& faults matches Faults::One(fault, _)
            &&& fault == or(lt(here(3), reg(0)), not(lt(here(3), reg(1))))
        },
        contents.columns[3].len() <= u64::MAX,
    ensures
        crate::walk::walked(steps, at, to, contents, answers, used) == (if within(
            contents.columns[3],
            contents.registers[0],
            contents.registers[1],
        ) {
            crate::walk::walked(steps, at + 1, to, contents, answers, used)
        } else {
            None
        }),
{
    let words = contents.columns[3];
    let low = contents.registers[0];
    let high = contents.registers[1];
    match crate::machine::act_of(steps[at]) {
        Act::Scan { faults, .. } => {
            crate::laws::steps::lemma_scan(
                steps,
                at,
                to,
                contents,
                answers,
                used,
                0,
                words.len() as u64,
            );
            assert forall|i: int| 0 <= i < words.len() implies (#[trigger] crate::walk::shows(
                faults,
                contents,
                i as u64,
            ) <==> !(low <= words[i] < high)) by {
                reveal_with_fuel(crate::expr::value_of, 6);
            }
            if !within(words, low, high) {
                let i = choose|i: int| 0 <= i < words.len() && !(low <= #[trigger] words[i] < high);
                assert(crate::walk::shows(faults, contents, i as u64));
            }
        },
        _ => {},
    }
}

/// What looking at one joined row finds.
#[verifier::spinoff_prover]
#[verifier::rlimit(50)]
proof fn lemma_double_faults(faults: Faults, contents: Contents)
    requires
        contents.full(),
        faults matches Faults::One(fault, _) && fault == differs(
            here(10),
            narrow(times(here(9), num(2))),
        ),
        contents.columns[9].len() <= u64::MAX,
        contents.columns[10].len() <= u64::MAX,
        forall|i: int| 0 <= i < contents.columns[9].len() ==> contents.columns[9][i] <= u32::MAX,
        forall|i: int|
            0 <= i < contents.columns[10].len() ==> contents.columns[10][i] <= u32::MAX,
    ensures
        forall|i: int|
            0 <= i < contents.columns[9].len() && i < contents.columns[10].len() ==> (
            #[trigger] crate::walk::shows(faults, contents, i as u64) <==> contents.columns[10][i]
                != 2 * contents.columns[9][i]),
{
    reveal_with_fuel(crate::expr::value_of, 6);
}

/// A scan for joined rows whose value is not twice the key.
proof fn lemma_scan_doubled(
    steps: Seq<Step>,
    at: int,
    to: int,
    contents: Contents,
    answers: Seq<Answer>,
    used: int,
)
    requires
        at < to,
        contents.full(),
        crate::machine::taken(steps[at], contents) == Some(true),
        crate::machine::act_of(steps[at]) matches Act::Scan { low, high, by, faults } && {
            &&& low == num(0)
            &&& high == least(len(9), len(10))
            &&& by == 1
            &&& faults matches Faults::One(fault, _)
            &&& fault == differs(here(10), narrow(times(here(9), num(2))))
        },
        contents.columns[9].len() <= u64::MAX,
        contents.columns[10].len() <= u64::MAX,
        forall|i: int| 0 <= i < contents.columns[9].len() ==> contents.columns[9][i] <= u32::MAX,
        forall|i: int|
            0 <= i < contents.columns[10].len() ==> contents.columns[10][i] <= u32::MAX,
    ensures
        crate::walk::walked(steps, at, to, contents, answers, used) == (if doubled(
            contents.columns[9],
            contents.columns[10],
        ) {
            crate::walk::walked(steps, at + 1, to, contents, answers, used)
        } else {
            None
        }),
{
    let keys = contents.columns[9];
    let values = contents.columns[10];
    let end = if keys.len() < values.len() {
        keys.len()
    } else {
        values.len()
    };
    match crate::machine::act_of(steps[at]) {
        Act::Scan { faults, .. } => {
            assert(crate::expr::value_of(least(len(9), len(10)), contents, 0) == Some(end as u64))
                by {
                reveal_with_fuel(crate::expr::value_of, 3);
            }
            crate::laws::steps::lemma_scan(
                steps,
                at,
                to,
                contents,
                answers,
                used,
                0,
                end as u64,
            );
            lemma_double_faults(faults, contents);
            if !doubled(keys, values) {
                let i = choose|i: int|
                    0 <= i < keys.len() && i < values.len() && #[trigger] values[i] != 2 * keys[i];
                assert(crate::walk::shows(faults, contents, i as u64));
            } else {
                assert forall|i: int| 0 <= i < end implies !(#[trigger] crate::walk::shows(
                    faults,
                    contents,
                    i as u64,
                )) by {
                    assert(values[i] == 2 * keys[i]);
                }
            }
        },
        _ => {},
    }
}

/// Whether a number is zero.
proof fn lemma_no_rows(contents: Contents)
    requires
        contents.full(),
    ensures
        crate::expr::value_of(same_as(reg(2), num(0)), contents, 0) == Some(
            crate::expr::truth(contents.registers[2] == 0),
        ),
{
    reveal_with_fuel(crate::expr::value_of, 3);
}

/// Whether a column is empty.
proof fn lemma_no_words(contents: Contents)
    requires
        contents.full(),
        contents.columns[12].len() <= u64::MAX,
    ensures
        crate::expr::value_of(same_as(len(12), num(0)), contents, 0) == Some(
            crate::expr::truth(contents.columns[12].len() == 0),
        ),
{
    reveal_with_fuel(crate::expr::value_of, 3);
}

/// Whether the answers to the downloads of the test are columns or refusals.
pub open spec fn chain_shaped(answers: Seq<Answer>) -> bool {
    &&& answers.len() >= 38
    &&& crate::laws::steps::column_or_refusal(answers[2])
    &&& crate::laws::steps::column_or_refusal(answers[5])
    &&& answers[12] is Count
    &&& crate::laws::steps::narrow_or_refusal(answers[13])
    &&& crate::laws::steps::narrow_or_refusal(answers[14])
    &&& forall|k: int|
        0 <= k < 5 ==> crate::laws::steps::column_or_refusal(#[trigger] answers[17 + 4 * k])
    &&& crate::laws::steps::column_or_refusal(answers[36])
}

/// What the device has to answer in the part `range`.
pub open spec fn chain_range(answers: Seq<Answer>) -> bool {
    &&& !(answers[0] is Failed)
    &&& !(answers[1] is Failed)
    &&& answers[2] is Words
    &&& answers[2]->Words_0.len() > 12500
    &&& answers[2]->Words_0.len() > 37500
    &&& !(answers[3] is Failed)
    &&& !(answers[4] is Failed)
    &&& answers[5] is Words
    &&& crate::laws::steps::rises(answers[5]->Words_0)
    &&& within(answers[5]->Words_0, answers[2]->Words_0[12500], answers[2]->Words_0[37500])
}

/// What the device has to answer in the part `join`.
pub open spec fn chain_join(answers: Seq<Answer>) -> bool {
    &&& !(answers[6] is Failed)
    &&& !(answers[7] is Failed)
    &&& !(answers[8] is Failed)
    &&& !(answers[9] is Failed)
    &&& !(answers[10] is Failed)
    &&& !(answers[11] is Failed)
    &&& answers[12]->Count_0 != 0
    &&& answers[13] is Words
    &&& answers[14] is Words
    &&& doubled(answers[13]->Words_0, answers[14]->Words_0)
    &&& !(answers[15] is Failed)
}

/// What the device has to answer in round `k` of the part `deepening`, from answer `used` on.
pub open spec fn chain_deepening(k: int, answers: Seq<Answer>, used: int) -> bool {
    &&& !(answers[used] is Failed)
    &&& answers[used + 1] is Words
    &&& !(answers[used + 2] is Failed)
}

/// What the device has to answer in the part `end`.
pub open spec fn chain_end(answers: Seq<Answer>) -> bool {
    &&& answers[36] is Words
    &&& answers[36]->Words_0.len() > 0
    &&& crate::laws::steps::rises(answers[36]->Words_0)
    &&& !(answers[37] is Failed)
}

/// The part `range`.
proof fn lemma_chain_range(contents: Contents, answers: Seq<Answer>)
    requires
        contents.full(),
        chain_shaped(answers),
    ensures
        match crate::walk::walked(
            crate::categories::c19_multi_stream::dependency_chain_range_steps(),
            0,
            12,
            contents,
            answers,
            0,
        ) {
            Some((after, next)) => {
                &&& chain_range(answers)
                &&& after.full()
                &&& next == 6
            },
            None => !chain_range(answers),
        },
        crate::categories::c19_multi_stream::dependency_chain_range_steps().len() == 12,
{
    let steps = crate::categories::c19_multi_stream::dependency_chain_range_steps();
    crate::laws::words::lemma_scattered(1000000, 50000, contents);
    let words1 = crate::laws::words::scattered(1000000, 50000);
    crate::laws::steps::lemma_fill(steps, 0, 12, contents, answers, 0, words1);
    let next1 = contents.with_column(0, words1);
    crate::laws::steps::lemma_command(steps, 1, 12, next1, answers, 0);
    crate::laws::steps::lemma_command(steps, 2, 12, next1, answers, 1);
    crate::laws::steps::lemma_download(steps, 3, 12, next1, answers, 2);
    if answers[2] is Words {
        let next2 = next1.with_column(1, answers[2]->Words_0);
        lemma_at(next2, 12500);
        crate::laws::steps::lemma_put_or_abort(steps, 4, 12, next2, answers, 3);
        if answers[2]->Words_0.len() > 12500 {
            let next3 = next2.with_register(0, answers[2]->Words_0[12500]);
            lemma_at(next3, 37500);
            crate::laws::steps::lemma_put_or_abort(steps, 5, 12, next3, answers, 3);
            if answers[2]->Words_0.len() > 37500 {
                let next4 = next3.with_register(1, answers[2]->Words_0[37500]);
                lemma_range_mask(next4);
                let words5 = range_mask(
                    answers[2]->Words_0,
                    answers[2]->Words_0[12500],
                    answers[2]->Words_0[37500],
                );
                crate::laws::steps::lemma_fill(steps, 6, 12, next4, answers, 3, words5);
                let next5 = next4.with_column(2, words5);
                crate::laws::steps::lemma_command(steps, 7, 12, next5, answers, 3);
                crate::laws::steps::lemma_command(steps, 8, 12, next5, answers, 4);
                crate::laws::steps::lemma_download(steps, 9, 12, next5, answers, 5);
                if answers[5] is Words {
                    let next6 = next5.with_column(3, answers[5]->Words_0);
                    crate::laws::steps::lemma_scan_order(steps, 10, 12, next6, answers, 6, 3);
                    lemma_scan_range(steps, 11, 12, next6, answers, 6);
                    crate::laws::steps::lemma_end(steps, 12, next6, answers, 6);
                }
            }
        }
    }
}

/// The part `join`.
proof fn lemma_chain_join(contents: Contents, answers: Seq<Answer>)
    requires
        contents.full(),
        chain_shaped(answers),
    ensures
        match crate::walk::walked(
            crate::categories::c19_multi_stream::dependency_chain_join_steps(),
            0,
            18,
            contents,
            answers,
            6,
        ) {
            Some((after, next)) => {
                &&& chain_join(answers)
                &&& after.full()
                &&& next == 16
            },
            None => !chain_join(answers),
        },
        crate::categories::c19_multi_stream::dependency_chain_join_steps().len() == 18,
{
    let steps = crate::categories::c19_multi_stream::dependency_chain_join_steps();
    crate::laws::words::lemma_below(10000, contents);
    let words1 = crate::laws::words::below(10000);
    crate::laws::steps::lemma_fill(steps, 0, 18, contents, answers, 6, words1);
    let next1 = contents.with_column(4, words1);
    crate::laws::words::lemma_scaled(4, 2, next1);
    let words2 = crate::laws::words::scaled(crate::laws::words::below(10000), 2);
    crate::laws::steps::lemma_fill(steps, 1, 18, next1, answers, 6, words2);
    let next2 = next1.with_column(5, words2);
    crate::laws::steps::lemma_command(steps, 2, 18, next2, answers, 6);
    crate::laws::steps::lemma_command(steps, 3, 18, next2, answers, 7);
    lemma_two_thirds(next2);
    let words3 = two_thirds();
    crate::laws::steps::lemma_fill(steps, 4, 18, next2, answers, 8, words3);
    let next3 = next2.with_column(6, words3);
    crate::laws::words::lemma_scaled(6, 3, next3);
    let words4 = crate::laws::words::scaled(two_thirds(), 3);
    crate::laws::steps::lemma_fill(steps, 5, 18, next3, answers, 8, words4);
    let next4 = next3.with_column(7, words4);
    crate::laws::steps::lemma_command(steps, 6, 18, next4, answers, 8);
    crate::laws::masks::lemma_remainder_words(2, 15000, next4);
    let words5 = crate::laws::masks::every(2, 15000);
    crate::laws::steps::lemma_fill(steps, 7, 18, next4, answers, 9, words5);
    let next5 = next4.with_column(8, words5);
    crate::laws::steps::lemma_command(steps, 8, 18, next5, answers, 9);
    crate::laws::steps::lemma_command(steps, 9, 18, next5, answers, 10);
    crate::laws::steps::lemma_command(steps, 10, 18, next5, answers, 11);
    crate::laws::steps::lemma_number(steps, 11, 18, next5, answers, 12, answers[12]->Count_0);
    let next6 = next5.with_register(2, answers[12]->Count_0);
    lemma_no_rows(next6);
    crate::laws::steps::lemma_check(
        steps,
        12,
        18,
        next6,
        answers,
        13,
        !(answers[12]->Count_0 != 0),
    );
    crate::laws::steps::lemma_download(steps, 13, 18, next6, answers, 13);
    if answers[13] is Words {
        let next7 = next6.with_column(9, answers[13]->Words_0);
        crate::laws::steps::lemma_download(steps, 14, 18, next7, answers, 14);
        if answers[14] is Words {
            let next8 = next7.with_column(10, answers[14]->Words_0);
            lemma_scan_doubled(steps, 15, 18, next8, answers, 15);
            crate::laws::words::lemma_cyclic(1000, 10000, next8);
            let words9 = crate::laws::words::cyclic(1000, 10000);
            crate::laws::steps::lemma_fill(steps, 16, 18, next8, answers, 15, words9);
            let next9 = next8.with_column(11, words9);
            crate::laws::steps::lemma_command(steps, 17, 18, next9, answers, 15);
            crate::laws::steps::lemma_end(steps, 18, next9, answers, 16);
        }
    }
}

/// One round of the part `deepening`.
proof fn lemma_chain_deepening(k: int, contents: Contents, answers: Seq<Answer>, used: int)
    requires
        0 <= k < 5,
        used == 16 + 4 * k,
        contents.full(),
        chain_shaped(answers),
    ensures
        match crate::walk::walked(
            crate::categories::c19_multi_stream::dependency_chain_deepening_round(k as u64),
            0,
            5,
            contents,
            answers,
            used,
        ) {
            Some((after, next)) => {
                &&& chain_deepening(k, answers, used)
                &&& after.full()
                &&& next == 16 + 4 * (k + 1)
            },
            None => !chain_deepening(k, answers, used),
        },
        crate::categories::c19_multi_stream::dependency_chain_deepening_round(k as u64).len() == 5,
{
    let steps = crate::categories::c19_multi_stream::dependency_chain_deepening_round(k as u64);
    assert(crate::laws::steps::column_or_refusal(answers[17 + 4 * k]));
    crate::laws::steps::lemma_command(steps, 0, 5, contents, answers, used);
    crate::laws::steps::lemma_download(steps, 1, 5, contents, answers, used + 1);
    if answers[used + 1] is Words {
        let next1 = contents.with_column(12, answers[used + 1]->Words_0);
        lemma_four_of_five(answers[used + 1]->Words_0.len(), next1);
        let words2 = four_of_five(answers[used + 1]->Words_0.len());
        crate::laws::steps::lemma_fill(steps, 2, 5, next1, answers, used + 2, words2);
        let next2 = next1.with_column(13, words2);
        crate::laws::steps::lemma_command(steps, 3, 5, next2, answers, used + 2);
        crate::laws::steps::lemma_command(steps, 4, 5, next2, answers, used + 3);
        crate::laws::steps::lemma_end(steps, 5, next2, answers, used + 4);
    }
}

/// All rounds of the part `deepening`.
proof fn lemma_chain_deepening_rounds(contents: Contents, answers: Seq<Answer>)
    requires
        contents.full(),
        chain_shaped(answers),
    ensures
        ({
            let steps = crate::script::rounds(
                5,
                |k: int| crate::categories::c19_multi_stream::dependency_chain_deepening_round(
                    k as u64,
                ),
            );
            match crate::walk::walked(steps, 0, steps.len() as int, contents, answers, 16) {
                Some((after, next)) => {
                    &&& forall|k: int| 0 <= k < 5 ==> #[trigger] chain_deepening(
                        k,
                        answers,
                        16 + 4 * k,
                    )
                    &&& after.full()
                    &&& next == 36
                },
                None => !(forall|k: int|
                    0 <= k < 5 ==> #[trigger] chain_deepening(k, answers, 16 + 4 * k)),
            }
        }),
{
    let round = |k: int| crate::categories::c19_multi_stream::dependency_chain_deepening_round(
        k as u64,
    );
    let start = |k: int| 16 + 4 * k;
    let good = |k: int| chain_deepening(k, answers, start(k));
    let kept = |contents: Contents| contents.full();
    assert forall|k: int, contents: Contents|
        #![trigger good(k), kept(contents)]
        0 <= k < 5 && kept(contents) implies if good(k) {
        crate::walk::goes_to(round(k), contents, answers, start(k), start(k + 1), kept)
    } else {
        crate::walk::walked(round(k), 0, round(k).len() as int, contents, answers, start(k)) is None
    } by {
        lemma_chain_deepening(k, contents, answers, start(k));
    }
    crate::walk::law_rounds_keep_what_each_keeps(5, round, start, good, kept, contents, answers);
    if forall|k: int| 0 <= k < 5 ==> #[trigger] good(k) {
        assert forall|k: int| 0 <= k < 5 implies #[trigger] chain_deepening(
            k,
            answers,
            16 + 4 * k,
        ) by {
            assert(good(k));
        }
    } else {
        let k = choose|k: int| 0 <= k < 5 && !(#[trigger] good(k));
        assert(!chain_deepening(k, answers, 16 + 4 * k));
    }
}

/// The part `end`.
proof fn lemma_chain_end(contents: Contents, answers: Seq<Answer>)
    requires
        contents.full(),
        chain_shaped(answers),
    ensures
        match crate::walk::walked(
            crate::categories::c19_multi_stream::dependency_chain_end_steps(),
            0,
            4,
            contents,
            answers,
            36,
        ) {
            Some((after, next)) => {
                &&& chain_end(answers)
                &&& after.full()
                &&& next == 38
            },
            None => !chain_end(answers),
        },
        crate::categories::c19_multi_stream::dependency_chain_end_steps().len() == 4,
{
    let steps = crate::categories::c19_multi_stream::dependency_chain_end_steps();
    crate::laws::steps::lemma_download(steps, 0, 4, contents, answers, 36);
    if answers[36] is Words {
        let next1 = contents.with_column(12, answers[36]->Words_0);
        lemma_no_words(next1);
        crate::laws::steps::lemma_check(
            steps,
            1,
            4,
            next1,
            answers,
            37,
            !(answers[36]->Words_0.len() > 0),
        );
        crate::laws::steps::lemma_scan_order(steps, 2, 4, next1, answers, 37, 12);
        crate::laws::steps::lemma_command(steps, 3, 4, next1, answers, 37);
        crate::laws::steps::lemma_end(steps, 4, next1, answers, 38);
    }
}

/// The test has no jumps.
proof fn lemma_chain_straight()
    ensures
        forall|j: int|
            0 <= j < crate::categories::c19_multi_stream::dependency_chain_steps().len()
                ==> crate::walk::straight(
            #[trigger] crate::categories::c19_multi_stream::dependency_chain_steps()[j],
        ),
{
    let part1 = crate::categories::c19_multi_stream::dependency_chain_range_steps();
    let part2 = crate::categories::c19_multi_stream::dependency_chain_join_steps();
    let part3 = crate::script::rounds(
        5,
        |k: int| crate::categories::c19_multi_stream::dependency_chain_deepening_round(k as u64),
    );
    let round3 = |k: int| crate::categories::c19_multi_stream::dependency_chain_deepening_round(
        k as u64,
    );
    crate::walk::law_straight_rounds_are_straight(5, round3);
    let part4 = crate::categories::c19_multi_stream::dependency_chain_end_steps();
    let whole1 = part1;
    let whole2 = whole1 + part2;
    crate::walk::law_straight_scripts_make_a_straight_one(whole1, part2);
    let whole3 = whole2 + part3;
    crate::walk::law_straight_scripts_make_a_straight_one(whole2, part3);
    let whole4 = whole3 + part4;
    crate::walk::law_straight_scripts_make_a_straight_one(whole3, part4);
    assert(crate::categories::c19_multi_stream::dependency_chain_steps() == whole4);
}

/// The test that chains operations passes exactly when each link of its three chains holds: the
/// range that was cut out of the sorted column is sorted and within its bounds, the join gives rows
/// whose values are twice their keys, and what is left after five rounds is sorted and not empty.
pub proof fn law_chain_passes_exactly_when_each_link_holds(answers: Seq<Answer>)
    requires
        chain_shaped(answers),
    ensures
        crate::machine::run_of(
            crate::script::plan(
                "test_dependency_chain",
                crate::categories::c19_multi_stream::dependency_chain_steps(),
            ),
            answers,
        ).progress == Progress::Over(Ending::Passed) <==> {
            &&& chain_range(answers)
            &&& chain_join(answers)
            &&& forall|k: int|
                0 <= k < 5 ==> #[trigger] chain_deepening(k, answers, 16 + 4 * k)
            &&& chain_end(answers)
        },
{
    let plan = crate::script::plan(
        "test_dependency_chain",
        crate::categories::c19_multi_stream::dependency_chain_steps(),
    );
    let blank = Contents::blank(plan.texts);
    let part1 = crate::categories::c19_multi_stream::dependency_chain_range_steps();
    let part2 = crate::categories::c19_multi_stream::dependency_chain_join_steps();
    let part3 = crate::script::rounds(
        5,
        |k: int| crate::categories::c19_multi_stream::dependency_chain_deepening_round(k as u64),
    );
    let part4 = crate::categories::c19_multi_stream::dependency_chain_end_steps();
    let whole1 = part1;
    let whole2 = whole1 + part2;
    let whole3 = whole2 + part3;
    let whole4 = whole3 + part4;
    assert(plan.steps == whole4);
    lemma_chain_range(blank, answers);
    crate::walk::law_walks_over_two_scripts_compose(whole1, part2, blank, answers, 0);
    crate::walk::law_walks_over_two_scripts_compose(whole2, part3, blank, answers, 0);
    crate::walk::law_walks_over_two_scripts_compose(whole3, part4, blank, answers, 0);
    match crate::walk::walked(whole1, 0, whole1.len() as int, blank, answers, 0) {
        Some((after, _)) => {
            lemma_chain_join(after, answers);
            match crate::walk::walked(whole2, 0, whole2.len() as int, blank, answers, 0) {
                Some((after, _)) => {
                    lemma_chain_deepening_rounds(after, answers);
                    match crate::walk::walked(whole3, 0, whole3.len() as int, blank, answers, 0) {
                        Some((after, _)) => {
                            lemma_chain_end(after, answers);
                        },
                        None => {},
                    }
                },
                None => {},
            }
        },
        None => {},
    }
    lemma_chain_straight();
    crate::walk::law_passes_exactly_when_every_step_goes_through(plan, answers);
}

} // verus!
