//! The laws of the tests of sizes at which a device may run past the end of a column.

use vstd::prelude::*;
use crate::categories::c03_pointer_bounds::{FILTER_SIZES, SORT_SIZES, TAIL_SIZES};
use crate::expr::{at, count_in, differs, ix, len, lt, minus, num, or, same_as, times};
use crate::machine::{Answer, Ending, Progress};
use crate::memory::Contents;
use crate::script::COUNT;

verus! {

/// The mask of `n` rows that leaves out the last one.
pub open spec fn all_but_last(n: u64) -> Seq<u64> {
    Seq::new(n as nat, |i: int| crate::expr::truth(i != n - 1))
}

/// The words of [`all_but_last`] are computed one by one.
proof fn lemma_but_last(n: u64, contents: Contents, i: u64)
    requires
        n > 0,
        i < n,
    ensures
        crate::expr::value_of(minus(num(n), num(1)), contents, i) == Some((n - 1) as u64),
        crate::expr::value_of(differs(ix(), minus(num(n), num(1))), contents, i) == Some(
            crate::expr::truth(i != n - 1),
        ),
{
    reveal_with_fuel(crate::expr::value_of, 3);
}

/// The words of [`all_but_last`].
proof fn lemma_all_but_last(n: u64, contents: Contents)
    requires
        n > 0,
    ensures
        forall|i: int|
            0 <= i < n ==> #[trigger] crate::expr::value_of(
                differs(ix(), minus(num(n), num(1))),
                contents,
                i as u64,
            ) == Some(all_but_last(n)[i]),
        crate::expr::value_of(minus(num(n), num(1)), contents, 0) == Some((n - 1) as u64),
{
    lemma_but_last(n, contents, 0);
    assert forall|i: int| 0 <= i < n implies #[trigger] crate::expr::value_of(
        differs(ix(), minus(num(n), num(1))),
        contents,
        i as u64,
    ) == Some(all_but_last(n)[i]) by {
        lemma_but_last(n, contents, i as u64);
    }
}

/// Looking for the last number in a column.
proof fn lemma_left_out(contents: Contents, n: u64)
    requires
        contents.full(),
        n > 0,
        contents.columns[2].len() <= u64::MAX,
    ensures
        crate::expr::value_of(lt(num(0), count_in(2, minus(num(n), num(1)))), contents, 0) == Some(
            0u64,
        ) <==> !contents.columns[2].contains((n - 1) as u64),
{
    crate::laws::types::lemma_occurrences(contents.columns[2], (n - 1) as u64);
    reveal_with_fuel(crate::expr::value_of, 4);
}

/// The sizes of the tests are not zero.
proof fn lemma_filter_sizes(k: int)
    requires
        0 <= k < 12,
    ensures
        0 < FILTER_SIZES@[k] < 1000000,
{
}

/// The sizes of the tests are not zero.
proof fn lemma_sort_sizes(k: int)
    requires
        0 <= k < 9,
    ensures
        0 < SORT_SIZES@[k] < 1000000,
{
}

/// The values that fall in steps of ten from `10 * (n - 1)` on.
pub open spec fn falling_tens(n: u64) -> Seq<u64> {
    Seq::new(n as nat, |i: int| ((n - 1 - i) * 10) as u64)
}

/// The words of [`falling_tens`], and the first of them.
#[verifier::spinoff_prover]
#[verifier::rlimit(50)]
proof fn lemma_falling_tens(n: u64, contents: Contents)
    requires
        0 < n < 1000000,
    ensures
        forall|i: int|
            0 <= i < n ==> #[trigger] crate::expr::value_of(
                times(minus(minus(num(n), num(1)), ix()), num(10)),
                contents,
                i as u64,
            ) == Some(falling_tens(n)[i]),
{
    reveal_with_fuel(crate::expr::value_of, 5);
}

/// Looking at the first value.
#[verifier::spinoff_prover]
#[verifier::rlimit(50)]
proof fn lemma_first_value(contents: Contents, n: u64)
    requires
        contents.full(),
        0 < n < 1000000,
    ensures
        crate::expr::value_of(
            differs(at(3, num(0)), times(minus(num(n), num(1)), num(10))),
            contents,
            0,
        ) == Some(0u64) <==> contents.columns[3].len() > 0 && contents.columns[3][0] == (n - 1)
            * 10,
{
    reveal_with_fuel(crate::expr::value_of, 5);
}

/// The mask of a thousand rows that marks one of them.
pub open spec fn single(place: int) -> Seq<u64> {
    Seq::new(1000, |i: int| crate::expr::truth(i == place))
}

/// The words of the masks that mark the first and the last of a thousand rows.
proof fn lemma_single(contents: Contents)
    ensures
        forall|i: int|
            0 <= i < 1000 ==> #[trigger] crate::expr::value_of(
                same_as(ix(), num(0)),
                contents,
                i as u64,
            ) == Some(single(0)[i]),
        forall|i: int|
            0 <= i < 1000 ==> #[trigger] crate::expr::value_of(
                same_as(ix(), minus(num(1000), num(1))),
                contents,
                i as u64,
            ) == Some(single(999)[i]),
{
    reveal_with_fuel(crate::expr::value_of, 3);
}

/// Looking for a column that is not one certain word.
#[verifier::spinoff_prover]
#[verifier::rlimit(50)]
pub proof fn lemma_lone(contents: Contents, slot: u64, word: u64)
    requires
        contents.full(),
        slot < contents.columns.len(),
        contents.columns[slot as int].len() <= u64::MAX,
    ensures
        crate::expr::value_of(
            or(differs(len(slot), num(1)), differs(at(slot, num(0)), num(word))),
            contents,
            0,
        ) == Some(0u64) <==> contents.columns[slot as int] == seq![word],
{
    reveal_with_fuel(crate::expr::value_of, 5);
    if contents.columns[slot as int].len() == 1 && contents.columns[slot as int][0] == word {
        assert(contents.columns[slot as int] =~= seq![word]);
    }
}

/// Whether the answers to the downloads of the test are columns or refusals.
pub open spec fn off_by_one_shaped(answers: Seq<Answer>) -> bool {
    &&& answers.len() >= 61
    &&& forall|k: int|
        0 <= k < 12 ==> crate::laws::steps::column_or_refusal(#[trigger] answers[3 + 5 * k])
}

/// What the device has to answer in round `k` of the part `sizes`, from answer `used` on.
pub open spec fn off_by_one_sizes(k: int, answers: Seq<Answer>, used: int) -> bool {
    &&& !(answers[used] is Failed)
    &&& !(answers[used + 1] is Failed)
    &&& answers[used + 2] == Answer::Count((FILTER_SIZES@[k] - 1) as u64)
    &&& answers[used + 3] is Words
    &&& !answers[used + 3]->Words_0.contains((FILTER_SIZES@[k] - 1) as u64)
    &&& crate::laws::steps::begins_with(
        answers[used + 3]->Words_0,
        crate::laws::words::below((FILTER_SIZES@[k] - 1) as u64),
    )
}

/// What the device has to answer in the part `end`.
pub open spec fn off_by_one_end(answers: Seq<Answer>) -> bool {
    !(answers[60] is Failed)
}

/// One round of the part `sizes`.
proof fn lemma_off_by_one_sizes(k: int, contents: Contents, answers: Seq<Answer>, used: int)
    requires
        0 <= k < 12,
        used == 5 * k,
        contents.full(),
        off_by_one_shaped(answers),
    ensures
        match crate::walk::walked(
            crate::categories::c03_pointer_bounds::off_by_one_filter_sizes_round(k as u64),
            0,
            9,
            contents,
            answers,
            used,
        ) {
            Some((after, next)) => {
                &&& off_by_one_sizes(k, answers, used)
                &&& after.full()
                &&& next == 5 * (k + 1)
            },
            None => !off_by_one_sizes(k, answers, used),
        },
        crate::categories::c03_pointer_bounds::off_by_one_filter_sizes_round(k as u64).len() == 9,
{
    let steps = crate::categories::c03_pointer_bounds::off_by_one_filter_sizes_round(k as u64);
    assert(crate::laws::steps::column_or_refusal(answers[3 + 5 * k]));
    lemma_filter_sizes(k);
    crate::laws::words::lemma_below(FILTER_SIZES@[k], contents);
    let words1 = crate::laws::words::below(FILTER_SIZES@[k]);
    crate::laws::steps::lemma_fill(steps, 0, 9, contents, answers, used, words1);
    let next1 = contents.with_column(0, words1);
    crate::laws::steps::lemma_command(steps, 1, 9, next1, answers, used);
    lemma_all_but_last(FILTER_SIZES@[k], next1);
    let words2 = all_but_last(FILTER_SIZES@[k]);
    crate::laws::steps::lemma_fill(steps, 2, 9, next1, answers, used + 1, words2);
    let next2 = next1.with_column(1, words2);
    crate::laws::steps::lemma_command(steps, 3, 9, next2, answers, used + 1);
    lemma_all_but_last(FILTER_SIZES@[k], next2);
    crate::laws::steps::lemma_match(
        steps,
        4,
        9,
        next2,
        answers,
        used + 2,
        (FILTER_SIZES@[k] - 1) as u64,
    );
    let next3 = next2.with_register(COUNT, (FILTER_SIZES@[k] - 1) as u64);
    crate::laws::steps::lemma_download(steps, 5, 9, next3, answers, used + 3);
    if answers[used + 3] is Words {
        let next4 = next3.with_column(2, answers[used + 3]->Words_0);
        lemma_left_out(next4, FILTER_SIZES@[k]);
        crate::laws::steps::lemma_check_or_abort(
            steps,
            6,
            9,
            next4,
            answers,
            used + 4,
            !answers[used + 3]->Words_0.contains((FILTER_SIZES@[k] - 1) as u64),
        );
        lemma_all_but_last(FILTER_SIZES@[k], next4);
        crate::laws::words::lemma_below((FILTER_SIZES@[k] - 1) as u64, next4);
        crate::laws::steps::lemma_scan_expected(
            steps,
            7,
            9,
            next4,
            answers,
            used + 4,
            2,
            ix(),
            crate::laws::words::below((FILTER_SIZES@[k] - 1) as u64),
        );
        crate::laws::steps::lemma_command(steps, 8, 9, next4, answers, used + 4);
        crate::laws::steps::lemma_end(steps, 9, next4, answers, used + 5);
    }
}

/// All rounds of the part `sizes`.
proof fn lemma_off_by_one_sizes_rounds(contents: Contents, answers: Seq<Answer>)
    requires
        contents.full(),
        off_by_one_shaped(answers),
    ensures
        ({
            let steps = crate::script::rounds(
                12,
                |k: int| crate::categories::c03_pointer_bounds::off_by_one_filter_sizes_round(
                    k as u64,
                ),
            );
            match crate::walk::walked(steps, 0, steps.len() as int, contents, answers, 0) {
                Some((after, next)) => {
                    &&& forall|k: int|
                        0 <= k < 12 ==> #[trigger] off_by_one_sizes(k, answers, 5 * k)
                    &&& after.full()
                    &&& next == 60
                },
                None => !(forall|k: int|
                    0 <= k < 12 ==> #[trigger] off_by_one_sizes(k, answers, 5 * k)),
            }
        }),
{
    let round = |k: int| crate::categories::c03_pointer_bounds::off_by_one_filter_sizes_round(
        k as u64,
    );
    let start = |k: int| 5 * k;
    let good = |k: int| off_by_one_sizes(k, answers, start(k));
    let kept = |contents: Contents| contents.full();
    assert forall|k: int, contents: Contents|
        #![trigger good(k), kept(contents)]
        0 <= k < 12 && kept(contents) implies if good(k) {
        crate::walk::goes_to(round(k), contents, answers, start(k), start(k + 1), kept)
    } else {
        crate::walk::walked(round(k), 0, round(k).len() as int, contents, answers, start(k)) is None
    } by {
        lemma_off_by_one_sizes(k, contents, answers, start(k));
    }
    crate::walk::law_rounds_keep_what_each_keeps(12, round, start, good, kept, contents, answers);
    if forall|k: int| 0 <= k < 12 ==> #[trigger] good(k) {
        assert forall|k: int| 0 <= k < 12 implies #[trigger] off_by_one_sizes(
            k,
            answers,
            5 * k,
        ) by {
            assert(good(k));
        }
    } else {
        let k = choose|k: int| 0 <= k < 12 && !(#[trigger] good(k));
        assert(!off_by_one_sizes(k, answers, 5 * k));
    }
}

/// The part `end`.
proof fn lemma_off_by_one_end(contents: Contents, answers: Seq<Answer>)
    requires
        contents.full(),
        off_by_one_shaped(answers),
    ensures
        match crate::walk::walked(
            crate::categories::c03_pointer_bounds::off_by_one_filter_end_steps(),
            0,
            1,
            contents,
            answers,
            60,
        ) {
            Some((after, next)) => {
                &&& off_by_one_end(answers)
                &&& after.full()
                &&& next == 61
            },
            None => !off_by_one_end(answers),
        },
        crate::categories::c03_pointer_bounds::off_by_one_filter_end_steps().len() == 1,
{
    let steps = crate::categories::c03_pointer_bounds::off_by_one_filter_end_steps();
    crate::laws::steps::lemma_command(steps, 0, 1, contents, answers, 60);
    crate::laws::steps::lemma_end(steps, 1, contents, answers, 61);
}

/// The test has no jumps.
proof fn lemma_off_by_one_straight()
    ensures
        forall|j: int|
            0 <= j < crate::categories::c03_pointer_bounds::off_by_one_filter_steps().len()
                ==> crate::walk::straight(
                #[trigger] crate::categories::c03_pointer_bounds::off_by_one_filter_steps()[j],
            ),
{
    let part1 = crate::script::rounds(
        12,
        |k: int| crate::categories::c03_pointer_bounds::off_by_one_filter_sizes_round(k as u64),
    );
    let round1 = |k: int| crate::categories::c03_pointer_bounds::off_by_one_filter_sizes_round(
        k as u64,
    );
    crate::walk::law_straight_rounds_are_straight(12, round1);
    let part2 = crate::categories::c03_pointer_bounds::off_by_one_filter_end_steps();
    let whole1 = part1;
    let whole2 = whole1 + part2;
    crate::walk::law_straight_scripts_make_a_straight_one(whole1, part2);
    assert(crate::categories::c03_pointer_bounds::off_by_one_filter_steps() == whole2);
}

/// The test that filters all rows but the last one passes exactly when, for each size, the device
/// keeps one row less, leaves the last number out, and keeps the others at their places.
pub proof fn law_off_by_one_filter_passes_exactly_when_only_the_last_is_left_out(
    answers: Seq<Answer>,
)
    requires
        off_by_one_shaped(answers),
    ensures
        crate::machine::run_of(
            crate::script::plan(
                "test_off_by_one_filter",
                crate::categories::c03_pointer_bounds::off_by_one_filter_steps(),
            ),
            answers,
        ).progress == Progress::Over(Ending::Passed) <==> {
            &&& forall|k: int|
                0 <= k < 12 ==> #[trigger] off_by_one_sizes(k, answers, 5 * k)
            &&& off_by_one_end(answers)
        },
{
    let plan = crate::script::plan(
        "test_off_by_one_filter",
        crate::categories::c03_pointer_bounds::off_by_one_filter_steps(),
    );
    let blank = Contents::blank(plan.texts);
    let part1 = crate::script::rounds(
        12,
        |k: int| crate::categories::c03_pointer_bounds::off_by_one_filter_sizes_round(k as u64),
    );
    let part2 = crate::categories::c03_pointer_bounds::off_by_one_filter_end_steps();
    let whole1 = part1;
    let whole2 = whole1 + part2;
    assert(plan.steps == whole2);
    lemma_off_by_one_sizes_rounds(blank, answers);
    crate::walk::law_walks_over_two_scripts_compose(whole1, part2, blank, answers, 0);
    match crate::walk::walked(whole1, 0, whole1.len() as int, blank, answers, 0) {
        Some((after, _)) => {
            lemma_off_by_one_end(after, answers);
        },
        None => {},
    }
    lemma_off_by_one_straight();
    crate::walk::law_passes_exactly_when_every_step_goes_through(plan, answers);
}

/// Whether the answers to the downloads of the test are columns or refusals.
pub open spec fn pairs_shaped(answers: Seq<Answer>) -> bool {
    &&& answers.len() >= 55
    &&& forall|k: int|
        0 <= k < 9 ==> crate::laws::steps::column_or_refusal(#[trigger] answers[3 + 6 * k])
    &&& forall|k: int|
        0 <= k < 9 ==> crate::laws::steps::column_or_refusal(#[trigger] answers[4 + 6 * k])
}

/// What the device has to answer in round `k` of the part `sizes`, from answer `used` on.
pub open spec fn pairs_sizes(k: int, answers: Seq<Answer>, used: int) -> bool {
    &&& !(answers[used] is Failed)
    &&& !(answers[used + 1] is Failed)
    &&& answers[used + 2] == Answer::Count(SORT_SIZES@[k])
    &&& answers[used + 3] is Words
    &&& answers[used + 4] is Words
    &&& crate::laws::steps::counts_up(answers[used + 3]->Words_0)
    &&& crate::laws::steps::begins_with(answers[used + 4]->Words_0, falling_tens(SORT_SIZES@[k]))
}

/// What the device has to answer in the part `end`.
pub open spec fn pairs_end(answers: Seq<Answer>) -> bool {
    !(answers[54] is Failed)
}

/// One round of the part `sizes`.
proof fn lemma_pairs_sizes(k: int, contents: Contents, answers: Seq<Answer>, used: int)
    requires
        0 <= k < 9,
        used == 6 * k,
        contents.full(),
        pairs_shaped(answers),
    ensures
        match crate::walk::walked(
            crate::categories::c03_pointer_bounds::off_by_one_sort_sizes_round(k as u64),
            0,
            11,
            contents,
            answers,
            used,
        ) {
            Some((after, next)) => {
                &&& pairs_sizes(k, answers, used)
                &&& after.full()
                &&& next == 6 * (k + 1)
            },
            None => !pairs_sizes(k, answers, used),
        },
        crate::categories::c03_pointer_bounds::off_by_one_sort_sizes_round(k as u64).len() == 11,
{
    let steps = crate::categories::c03_pointer_bounds::off_by_one_sort_sizes_round(k as u64);
    assert(crate::laws::steps::column_or_refusal(answers[3 + 6 * k]));
    assert(crate::laws::steps::column_or_refusal(answers[4 + 6 * k]));
    lemma_sort_sizes(k);
    crate::laws::words::lemma_falling(SORT_SIZES@[k], contents);
    let words1 = crate::laws::words::falling(SORT_SIZES@[k]);
    crate::laws::steps::lemma_fill(steps, 0, 11, contents, answers, used, words1);
    let next1 = contents.with_column(0, words1);
    crate::laws::words::lemma_scaled_places(10, SORT_SIZES@[k], next1);
    let words2 = crate::laws::words::scaled(crate::laws::words::below(SORT_SIZES@[k]), 10);
    crate::laws::steps::lemma_fill(steps, 1, 11, next1, answers, used, words2);
    let next2 = next1.with_column(1, words2);
    crate::laws::steps::lemma_command(steps, 2, 11, next2, answers, used);
    crate::laws::steps::lemma_command(steps, 3, 11, next2, answers, used + 1);
    crate::laws::steps::lemma_match(steps, 4, 11, next2, answers, used + 2, SORT_SIZES@[k]);
    let next3 = next2.with_register(COUNT, SORT_SIZES@[k]);
    crate::laws::steps::lemma_download(steps, 5, 11, next3, answers, used + 3);
    if answers[used + 3] is Words {
        let next4 = next3.with_column(2, answers[used + 3]->Words_0);
        crate::laws::steps::lemma_download(steps, 6, 11, next4, answers, used + 4);
        if answers[used + 4] is Words {
            let next5 = next4.with_column(3, answers[used + 4]->Words_0);
            crate::laws::steps::lemma_scan_places(steps, 7, 11, next5, answers, used + 5, 2);
            lemma_falling_tens(SORT_SIZES@[k], next5);
            crate::laws::steps::lemma_scan_expected(
                steps,
                8,
                11,
                next5,
                answers,
                used + 5,
                3,
                times(minus(minus(num(SORT_SIZES@[k]), num(1)), ix()), num(10)),
                falling_tens(SORT_SIZES@[k]),
            );
            lemma_first_value(next5, SORT_SIZES@[k]);
            if crate::laws::steps::begins_with(
                answers[used + 4]->Words_0,
                falling_tens(SORT_SIZES@[k]),
            ) {
            assert(
                crate::laws::steps::holds_at(
                    answers[used + 4]->Words_0,
                    falling_tens(SORT_SIZES@[k]),
                    0,
                )
            );
        crate::laws::steps::lemma_check_or_abort(steps, 9, 11, next5, answers, used + 5, true);
        }
            crate::laws::steps::lemma_command(steps, 10, 11, next5, answers, used + 5);
            crate::laws::steps::lemma_end(steps, 11, next5, answers, used + 6);
        }
    }
}

/// All rounds of the part `sizes`.
proof fn lemma_pairs_sizes_rounds(contents: Contents, answers: Seq<Answer>)
    requires
        contents.full(),
        pairs_shaped(answers),
    ensures
        ({
            let steps = crate::script::rounds(
                9,
                |k: int| crate::categories::c03_pointer_bounds::off_by_one_sort_sizes_round(
                    k as u64,
                ),
            );
            match crate::walk::walked(steps, 0, steps.len() as int, contents, answers, 0) {
                Some((after, next)) => {
                    &&& forall|k: int| 0 <= k < 9 ==> #[trigger] pairs_sizes(k, answers, 6 * k)
                    &&& after.full()
                    &&& next == 54
                },
                None => !(forall|k: int|
                    0 <= k < 9 ==> #[trigger] pairs_sizes(k, answers, 6 * k)),
            }
        }),
{
    let round = |k: int| crate::categories::c03_pointer_bounds::off_by_one_sort_sizes_round(
        k as u64,
    );
    let start = |k: int| 6 * k;
    let good = |k: int| pairs_sizes(k, answers, start(k));
    let kept = |contents: Contents| contents.full();
    assert forall|k: int, contents: Contents|
        #![trigger good(k), kept(contents)]
        0 <= k < 9 && kept(contents) implies if good(k) {
        crate::walk::goes_to(round(k), contents, answers, start(k), start(k + 1), kept)
    } else {
        crate::walk::walked(round(k), 0, round(k).len() as int, contents, answers, start(k)) is None
    } by {
        lemma_pairs_sizes(k, contents, answers, start(k));
    }
    crate::walk::law_rounds_keep_what_each_keeps(9, round, start, good, kept, contents, answers);
    if forall|k: int| 0 <= k < 9 ==> #[trigger] good(k) {
        assert forall|k: int| 0 <= k < 9 implies #[trigger] pairs_sizes(k, answers, 6 * k) by {
            assert(good(k));
        }
    } else {
        let k = choose|k: int| 0 <= k < 9 && !(#[trigger] good(k));
        assert(!pairs_sizes(k, answers, 6 * k));
    }
}

/// The part `end`.
proof fn lemma_pairs_end(contents: Contents, answers: Seq<Answer>)
    requires
        contents.full(),
        pairs_shaped(answers),
    ensures
        match crate::walk::walked(
            crate::categories::c03_pointer_bounds::off_by_one_sort_end_steps(),
            0,
            1,
            contents,
            answers,
            54,
        ) {
            Some((after, next)) => {
                &&& pairs_end(answers)
                &&& after.full()
                &&& next == 55
            },
            None => !pairs_end(answers),
        },
        crate::categories::c03_pointer_bounds::off_by_one_sort_end_steps().len() == 1,
{
    let steps = crate::categories::c03_pointer_bounds::off_by_one_sort_end_steps();
    crate::laws::steps::lemma_command(steps, 0, 1, contents, answers, 54);
    crate::laws::steps::lemma_end(steps, 1, contents, answers, 55);
}

/// The test has no jumps.
proof fn lemma_pairs_straight()
    ensures
        forall|j: int|
            0 <= j < crate::categories::c03_pointer_bounds::off_by_one_sort_steps().len()
                ==> crate::walk::straight(
                #[trigger] crate::categories::c03_pointer_bounds::off_by_one_sort_steps()[j],
            ),
{
    let part1 = crate::script::rounds(
        9,
        |k: int| crate::categories::c03_pointer_bounds::off_by_one_sort_sizes_round(k as u64),
    );
    let round1 = |k: int| crate::categories::c03_pointer_bounds::off_by_one_sort_sizes_round(
        k as u64,
    );
    crate::walk::law_straight_rounds_are_straight(9, round1);
    let part2 = crate::categories::c03_pointer_bounds::off_by_one_sort_end_steps();
    let whole1 = part1;
    let whole2 = whole1 + part2;
    crate::walk::law_straight_scripts_make_a_straight_one(whole1, part2);
    assert(crate::categories::c03_pointer_bounds::off_by_one_sort_steps() == whole2);
}

/// The test that sorts keys with values passes exactly when, for each size, all rows are left, the
/// keys come back each at its place, and the values follow them.
pub proof fn law_off_by_one_sort_passes_exactly_when_values_follow_their_keys(answers: Seq<Answer>)
    requires
        pairs_shaped(answers),
    ensures
        crate::machine::run_of(
            crate::script::plan(
                "test_off_by_one_sort",
                crate::categories::c03_pointer_bounds::off_by_one_sort_steps(),
            ),
            answers,
        ).progress == Progress::Over(Ending::Passed) <==> {
            &&& forall|k: int|
                0 <= k < 9 ==> #[trigger] pairs_sizes(k, answers, 6 * k)
            &&& pairs_end(answers)
        },
{
    let plan = crate::script::plan(
        "test_off_by_one_sort",
        crate::categories::c03_pointer_bounds::off_by_one_sort_steps(),
    );
    let blank = Contents::blank(plan.texts);
    let part1 = crate::script::rounds(
        9,
        |k: int| crate::categories::c03_pointer_bounds::off_by_one_sort_sizes_round(k as u64),
    );
    let part2 = crate::categories::c03_pointer_bounds::off_by_one_sort_end_steps();
    let whole1 = part1;
    let whole2 = whole1 + part2;
    assert(plan.steps == whole2);
    lemma_pairs_sizes_rounds(blank, answers);
    crate::walk::law_walks_over_two_scripts_compose(whole1, part2, blank, answers, 0);
    match crate::walk::walked(whole1, 0, whole1.len() as int, blank, answers, 0) {
        Some((after, _)) => {
            lemma_pairs_end(after, answers);
        },
        None => {},
    }
    lemma_pairs_straight();
    crate::walk::law_passes_exactly_when_every_step_goes_through(plan, answers);
}

/// Whether the answers to the downloads of the test are columns or refusals.
pub open spec fn kept_tails_shaped(answers: Seq<Answer>) -> bool {
    &&& answers.len() >= 31
    &&& forall|k: int|
        0 <= k < 6 ==> crate::laws::steps::column_or_refusal(#[trigger] answers[3 + 5 * k])
}

/// What the device has to answer in round `k` of the part `sizes`, from answer `used` on.
pub open spec fn kept_tails_sizes(k: int, answers: Seq<Answer>, used: int) -> bool {
    &&& !(answers[used] is Failed)
    &&& !(answers[used + 1] is Failed)
    &&& answers[used + 2] == Answer::Count(TAIL_SIZES@[k])
    &&& answers[used + 3] is Words
    &&& crate::laws::steps::counts_up(answers[used + 3]->Words_0)
}

/// What the device has to answer in the part `end`.
pub open spec fn kept_tails_end(answers: Seq<Answer>) -> bool {
    !(answers[30] is Failed)
}

/// One round of the part `sizes`.
proof fn lemma_kept_tails_sizes(k: int, contents: Contents, answers: Seq<Answer>, used: int)
    requires
        0 <= k < 6,
        used == 5 * k,
        contents.full(),
        kept_tails_shaped(answers),
    ensures
        match crate::walk::walked(
            crate::categories::c03_pointer_bounds::tail_handling_filter_sizes_round(k as u64),
            0,
            8,
            contents,
            answers,
            used,
        ) {
            Some((after, next)) => {
                &&& kept_tails_sizes(k, answers, used)
                &&& after.full()
                &&& next == 5 * (k + 1)
            },
            None => !kept_tails_sizes(k, answers, used),
        },
        crate::categories::c03_pointer_bounds::tail_handling_filter_sizes_round(
            k as u64,
        ).len() == 8,
{
    let steps = crate::categories::c03_pointer_bounds::tail_handling_filter_sizes_round(k as u64);
    assert(crate::laws::steps::column_or_refusal(answers[3 + 5 * k]));
    crate::laws::words::lemma_below(TAIL_SIZES@[k], contents);
    let words1 = crate::laws::words::below(TAIL_SIZES@[k]);
    crate::laws::steps::lemma_fill(steps, 0, 8, contents, answers, used, words1);
    let next1 = contents.with_column(0, words1);
    crate::laws::steps::lemma_command(steps, 1, 8, next1, answers, used);
    crate::laws::words::lemma_constant(1, TAIL_SIZES@[k], next1);
    let words2 = crate::laws::words::constant(1, TAIL_SIZES@[k]);
    crate::laws::steps::lemma_fill(steps, 2, 8, next1, answers, used + 1, words2);
    let next2 = next1.with_column(1, words2);
    crate::laws::steps::lemma_command(steps, 3, 8, next2, answers, used + 1);
    crate::laws::steps::lemma_match(steps, 4, 8, next2, answers, used + 2, TAIL_SIZES@[k]);
    let next3 = next2.with_register(COUNT, TAIL_SIZES@[k]);
    crate::laws::steps::lemma_download(steps, 5, 8, next3, answers, used + 3);
    if answers[used + 3] is Words {
        let next4 = next3.with_column(2, answers[used + 3]->Words_0);
        crate::laws::steps::lemma_scan_places(steps, 6, 8, next4, answers, used + 4, 2);
        crate::laws::steps::lemma_command(steps, 7, 8, next4, answers, used + 4);
        crate::laws::steps::lemma_end(steps, 8, next4, answers, used + 5);
    }
}

/// All rounds of the part `sizes`.
proof fn lemma_kept_tails_sizes_rounds(contents: Contents, answers: Seq<Answer>)
    requires
        contents.full(),
        kept_tails_shaped(answers),
    ensures
        ({
            let steps = crate::script::rounds(
                6,
                |k: int| crate::categories::c03_pointer_bounds::tail_handling_filter_sizes_round(
                    k as u64,
                ),
            );
            match crate::walk::walked(steps, 0, steps.len() as int, contents, answers, 0) {
                Some((after, next)) => {
                    &&& forall|k: int|
                        0 <= k < 6 ==> #[trigger] kept_tails_sizes(k, answers, 5 * k)
                    &&& after.full()
                    &&& next == 30
                },
                None => !(forall|k: int|
                    0 <= k < 6 ==> #[trigger] kept_tails_sizes(k, answers, 5 * k)),
            }
        }),
{
    let round = |k: int| crate::categories::c03_pointer_bounds::tail_handling_filter_sizes_round(
        k as u64,
    );
    let start = |k: int| 5 * k;
    let good = |k: int| kept_tails_sizes(k, answers, start(k));
    let kept = |contents: Contents| contents.full();
    assert forall|k: int, contents: Contents|
        #![trigger good(k), kept(contents)]
        0 <= k < 6 && kept(contents) implies if good(k) {
        crate::walk::goes_to(round(k), contents, answers, start(k), start(k + 1), kept)
    } else {
        crate::walk::walked(round(k), 0, round(k).len() as int, contents, answers, start(k)) is None
    } by {
        lemma_kept_tails_sizes(k, contents, answers, start(k));
    }
    crate::walk::law_rounds_keep_what_each_keeps(6, round, start, good, kept, contents, answers);
    if forall|k: int| 0 <= k < 6 ==> #[trigger] good(k) {
        assert forall|k: int| 0 <= k < 6 implies #[trigger] kept_tails_sizes(
            k,
            answers,
            5 * k,
        ) by {
            assert(good(k));
        }
    } else {
        let k = choose|k: int| 0 <= k < 6 && !(#[trigger] good(k));
        assert(!kept_tails_sizes(k, answers, 5 * k));
    }
}

/// The part `end`.
proof fn lemma_kept_tails_end(contents: Contents, answers: Seq<Answer>)
    requires
        contents.full(),
        kept_tails_shaped(answers),
    ensures
        match crate::walk::walked(
            crate::categories::c03_pointer_bounds::tail_handling_filter_end_steps(),
            0,
            1,
            contents,
            answers,
            30,
        ) {
            Some((after, next)) => {
                &&& kept_tails_end(answers)
                &&& after.full()
                &&& next == 31
            },
            None => !kept_tails_end(answers),
        },
        crate::categories::c03_pointer_bounds::tail_handling_filter_end_steps().len() == 1,
{
    let steps = crate::categories::c03_pointer_bounds::tail_handling_filter_end_steps();
    crate::laws::steps::lemma_command(steps, 0, 1, contents, answers, 30);
    crate::laws::steps::lemma_end(steps, 1, contents, answers, 31);
}

/// The test has no jumps.
proof fn lemma_kept_tails_straight()
    ensures
        forall|j: int|
            0 <= j < crate::categories::c03_pointer_bounds::tail_handling_filter_steps().len()
                ==> crate::walk::straight(
                #[trigger] crate::categories::c03_pointer_bounds::tail_handling_filter_steps()[j],
            ),
{
    let part1 = crate::script::rounds(
        6,
        |k: int| crate::categories::c03_pointer_bounds::tail_handling_filter_sizes_round(k as u64),
    );
    let round1 = |k: int| crate::categories::c03_pointer_bounds::tail_handling_filter_sizes_round(
        k as u64,
    );
    crate::walk::law_straight_rounds_are_straight(6, round1);
    let part2 = crate::categories::c03_pointer_bounds::tail_handling_filter_end_steps();
    let whole1 = part1;
    let whole2 = whole1 + part2;
    crate::walk::law_straight_scripts_make_a_straight_one(whole1, part2);
    assert(crate::categories::c03_pointer_bounds::tail_handling_filter_steps() == whole2);
}

/// The test that filters nothing out passes exactly when, for each size, all rows are kept and
/// every number is at its place.
pub proof fn law_tails_are_kept_exactly_when_every_number_stays(answers: Seq<Answer>)
    requires
        kept_tails_shaped(answers),
    ensures
        crate::machine::run_of(
            crate::script::plan(
                "test_tail_handling_filter",
                crate::categories::c03_pointer_bounds::tail_handling_filter_steps(),
            ),
            answers,
        ).progress == Progress::Over(Ending::Passed) <==> {
            &&& forall|k: int|
                0 <= k < 6 ==> #[trigger] kept_tails_sizes(k, answers, 5 * k)
            &&& kept_tails_end(answers)
        },
{
    let plan = crate::script::plan(
        "test_tail_handling_filter",
        crate::categories::c03_pointer_bounds::tail_handling_filter_steps(),
    );
    let blank = Contents::blank(plan.texts);
    let part1 = crate::script::rounds(
        6,
        |k: int| crate::categories::c03_pointer_bounds::tail_handling_filter_sizes_round(k as u64),
    );
    let part2 = crate::categories::c03_pointer_bounds::tail_handling_filter_end_steps();
    let whole1 = part1;
    let whole2 = whole1 + part2;
    assert(plan.steps == whole2);
    lemma_kept_tails_sizes_rounds(blank, answers);
    crate::walk::law_walks_over_two_scripts_compose(whole1, part2, blank, answers, 0);
    match crate::walk::walked(whole1, 0, whole1.len() as int, blank, answers, 0) {
        Some((after, _)) => {
            lemma_kept_tails_end(after, answers);
        },
        None => {},
    }
    lemma_kept_tails_straight();
    crate::walk::law_passes_exactly_when_every_step_goes_through(plan, answers);
}

/// Whether the answers to the downloads of the test are columns or refusals.
pub open spec fn sorted_tails_shaped(answers: Seq<Answer>) -> bool {
    &&& answers.len() >= 31
    &&& forall|k: int|
        0 <= k < 6 ==> crate::laws::steps::column_or_refusal(#[trigger] answers[3 + 5 * k])
}

/// What the device has to answer in round `k` of the part `sizes`, from answer `used` on.
pub open spec fn sorted_tails_sizes(k: int, answers: Seq<Answer>, used: int) -> bool {
    &&& !(answers[used] is Failed)
    &&& !(answers[used + 1] is Failed)
    &&& answers[used + 2] == Answer::Count(TAIL_SIZES@[k])
    &&& answers[used + 3] is Words
    &&& crate::laws::steps::counts_up(answers[used + 3]->Words_0)
}

/// What the device has to answer in the part `end`.
pub open spec fn sorted_tails_end(answers: Seq<Answer>) -> bool {
    !(answers[30] is Failed)
}

/// One round of the part `sizes`.
proof fn lemma_sorted_tails_sizes(k: int, contents: Contents, answers: Seq<Answer>, used: int)
    requires
        0 <= k < 6,
        used == 5 * k,
        contents.full(),
        sorted_tails_shaped(answers),
    ensures
        match crate::walk::walked(
            crate::categories::c03_pointer_bounds::tail_handling_sort_sizes_round(k as u64),
            0,
            7,
            contents,
            answers,
            used,
        ) {
            Some((after, next)) => {
                &&& sorted_tails_sizes(k, answers, used)
                &&& after.full()
                &&& next == 5 * (k + 1)
            },
            None => !sorted_tails_sizes(k, answers, used),
        },
        crate::categories::c03_pointer_bounds::tail_handling_sort_sizes_round(k as u64).len() == 7,
{
    let steps = crate::categories::c03_pointer_bounds::tail_handling_sort_sizes_round(k as u64);
    assert(crate::laws::steps::column_or_refusal(answers[3 + 5 * k]));
    crate::laws::words::lemma_falling(TAIL_SIZES@[k], contents);
    let words1 = crate::laws::words::falling(TAIL_SIZES@[k]);
    crate::laws::steps::lemma_fill(steps, 0, 7, contents, answers, used, words1);
    let next1 = contents.with_column(0, words1);
    crate::laws::steps::lemma_command(steps, 1, 7, next1, answers, used);
    crate::laws::steps::lemma_command(steps, 2, 7, next1, answers, used + 1);
    crate::laws::steps::lemma_match(steps, 3, 7, next1, answers, used + 2, TAIL_SIZES@[k]);
    let next2 = next1.with_register(COUNT, TAIL_SIZES@[k]);
    crate::laws::steps::lemma_download(steps, 4, 7, next2, answers, used + 3);
    if answers[used + 3] is Words {
        let next3 = next2.with_column(2, answers[used + 3]->Words_0);
        crate::laws::steps::lemma_scan_places(steps, 5, 7, next3, answers, used + 4, 2);
        crate::laws::steps::lemma_command(steps, 6, 7, next3, answers, used + 4);
        crate::laws::steps::lemma_end(steps, 7, next3, answers, used + 5);
    }
}

/// All rounds of the part `sizes`.
proof fn lemma_sorted_tails_sizes_rounds(contents: Contents, answers: Seq<Answer>)
    requires
        contents.full(),
        sorted_tails_shaped(answers),
    ensures
        ({
            let steps = crate::script::rounds(
                6,
                |k: int| crate::categories::c03_pointer_bounds::tail_handling_sort_sizes_round(
                    k as u64,
                ),
            );
            match crate::walk::walked(steps, 0, steps.len() as int, contents, answers, 0) {
                Some((after, next)) => {
                    &&& forall|k: int|
                        0 <= k < 6 ==> #[trigger] sorted_tails_sizes(k, answers, 5 * k)
                    &&& after.full()
                    &&& next == 30
                },
                None => !(forall|k: int|
                    0 <= k < 6 ==> #[trigger] sorted_tails_sizes(k, answers, 5 * k)),
            }
        }),
{
    let round = |k: int| crate::categories::c03_pointer_bounds::tail_handling_sort_sizes_round(
        k as u64,
    );
    let start = |k: int| 5 * k;
    let good = |k: int| sorted_tails_sizes(k, answers, start(k));
    let kept = |contents: Contents| contents.full();
    assert forall|k: int, contents: Contents|
        #![trigger good(k), kept(contents)]
        0 <= k < 6 && kept(contents) implies if good(k) {
        crate::walk::goes_to(round(k), contents, answers, start(k), start(k + 1), kept)
    } else {
        crate::walk::walked(round(k), 0, round(k).len() as int, contents, answers, start(k)) is None
    } by {
        lemma_sorted_tails_sizes(k, contents, answers, start(k));
    }
    crate::walk::law_rounds_keep_what_each_keeps(6, round, start, good, kept, contents, answers);
    if forall|k: int| 0 <= k < 6 ==> #[trigger] good(k) {
        assert forall|k: int| 0 <= k < 6 implies #[trigger] sorted_tails_sizes(
            k,
            answers,
            5 * k,
        ) by {
            assert(good(k));
        }
    } else {
        let k = choose|k: int| 0 <= k < 6 && !(#[trigger] good(k));
        assert(!sorted_tails_sizes(k, answers, 5 * k));
    }
}

/// The part `end`.
proof fn lemma_sorted_tails_end(contents: Contents, answers: Seq<Answer>)
    requires
        contents.full(),
        sorted_tails_shaped(answers),
    ensures
        match crate::walk::walked(
            crate::categories::c03_pointer_bounds::tail_handling_sort_end_steps(),
            0,
            1,
            contents,
            answers,
            30,
        ) {
            Some((after, next)) => {
                &&& sorted_tails_end(answers)
                &&& after.full()
                &&& next == 31
            },
            None => !sorted_tails_end(answers),
        },
        crate::categories::c03_pointer_bounds::tail_handling_sort_end_steps().len() == 1,
{
    let steps = crate::categories::c03_pointer_bounds::tail_handling_sort_end_steps();
    crate::laws::steps::lemma_command(steps, 0, 1, contents, answers, 30);
    crate::laws::steps::lemma_end(steps, 1, contents, answers, 31);
}

/// The test has no jumps.
proof fn lemma_sorted_tails_straight()
    ensures
        forall|j: int|
            0 <= j < crate::categories::c03_pointer_bounds::tail_handling_sort_steps().len()
                ==> crate::walk::straight(
                #[trigger] crate::categories::c03_pointer_bounds::tail_handling_sort_steps()[j],
            ),
{
    let part1 = crate::script::rounds(
        6,
        |k: int| crate::categories::c03_pointer_bounds::tail_handling_sort_sizes_round(k as u64),
    );
    let round1 = |k: int| crate::categories::c03_pointer_bounds::tail_handling_sort_sizes_round(
        k as u64,
    );
    crate::walk::law_straight_rounds_are_straight(6, round1);
    let part2 = crate::categories::c03_pointer_bounds::tail_handling_sort_end_steps();
    let whole1 = part1;
    let whole2 = whole1 + part2;
    crate::walk::law_straight_scripts_make_a_straight_one(whole1, part2);
    assert(crate::categories::c03_pointer_bounds::tail_handling_sort_steps() == whole2);
}

/// The test that sorts falling numbers passes exactly when, for each size, all rows are left and
/// every number is at its place.
pub proof fn law_tails_are_sorted_exactly_when_every_number_is_at_its_place(answers: Seq<Answer>)
    requires
        sorted_tails_shaped(answers),
    ensures
        crate::machine::run_of(
            crate::script::plan(
                "test_tail_handling_sort",
                crate::categories::c03_pointer_bounds::tail_handling_sort_steps(),
            ),
            answers,
        ).progress == Progress::Over(Ending::Passed) <==> {
            &&& forall|k: int|
                0 <= k < 6 ==> #[trigger] sorted_tails_sizes(k, answers, 5 * k)
            &&& sorted_tails_end(answers)
        },
{
    let plan = crate::script::plan(
        "test_tail_handling_sort",
        crate::categories::c03_pointer_bounds::tail_handling_sort_steps(),
    );
    let blank = Contents::blank(plan.texts);
    let part1 = crate::script::rounds(
        6,
        |k: int| crate::categories::c03_pointer_bounds::tail_handling_sort_sizes_round(k as u64),
    );
    let part2 = crate::categories::c03_pointer_bounds::tail_handling_sort_end_steps();
    let whole1 = part1;
    let whole2 = whole1 + part2;
    assert(plan.steps == whole2);
    lemma_sorted_tails_sizes_rounds(blank, answers);
    crate::walk::law_walks_over_two_scripts_compose(whole1, part2, blank, answers, 0);
    match crate::walk::walked(whole1, 0, whole1.len() as int, blank, answers, 0) {
        Some((after, _)) => {
            lemma_sorted_tails_end(after, answers);
        },
        None => {},
    }
    lemma_sorted_tails_straight();
    crate::walk::law_passes_exactly_when_every_step_goes_through(plan, answers);
}

/// Whether the answers to the downloads of the test are columns or refusals.
pub open spec fn boundaries_shaped(answers: Seq<Answer>) -> bool {
    &&& answers.len() >= 8
    &&& crate::laws::steps::column_or_refusal(answers[3])
    &&& crate::laws::steps::column_or_refusal(answers[6])
}

/// What the device has to answer.
pub open spec fn boundaries_answers(answers: Seq<Answer>) -> bool {
    &&& !(answers[0] is Failed)
    &&& !(answers[1] is Failed)
    &&& answers[2] == Answer::Count(1)
    &&& answers[3] is Words
    &&& answers[3]->Words_0 == seq![0u64]
    &&& !(answers[4] is Failed)
    &&& answers[5] == Answer::Count(1)
    &&& answers[6] is Words
    &&& answers[6]->Words_0 == seq![999u64]
    &&& !(answers[7] is Failed)
}

/// The steps of the test.
proof fn lemma_boundaries_answers(contents: Contents, answers: Seq<Answer>)
    requires
        contents.full(),
        boundaries_shaped(answers),
    ensures
        match crate::walk::walked(
            crate::categories::c03_pointer_bounds::boundary_indices_steps(),
            0,
            13,
            contents,
            answers,
            0,
        ) {
            Some((after, next)) => {
                &&& boundaries_answers(answers)
                &&& after.full()
                &&& next == 8
            },
            None => !boundaries_answers(answers),
        },
        crate::categories::c03_pointer_bounds::boundary_indices_steps().len() == 13,
{
    let steps = crate::categories::c03_pointer_bounds::boundary_indices_steps();
    crate::laws::words::lemma_below(1000, contents);
    let words1 = crate::laws::words::below(1000);
    crate::laws::steps::lemma_fill(steps, 0, 13, contents, answers, 0, words1);
    let next1 = contents.with_column(0, words1);
    crate::laws::steps::lemma_command(steps, 1, 13, next1, answers, 0);
    lemma_single(next1);
    let words2 = single(0);
    crate::laws::steps::lemma_fill(steps, 2, 13, next1, answers, 1, words2);
    let next2 = next1.with_column(1, words2);
    crate::laws::steps::lemma_command(steps, 3, 13, next2, answers, 1);
    crate::laws::steps::lemma_match(steps, 4, 13, next2, answers, 2, 1);
    let next3 = next2.with_register(COUNT, 1);
    crate::laws::steps::lemma_download(steps, 5, 13, next3, answers, 3);
    if answers[3] is Words {
        let next4 = next3.with_column(2, answers[3]->Words_0);
        lemma_lone(next4, 2, 0);
        crate::laws::steps::lemma_check_or_abort(
            steps,
            6,
            13,
            next4,
            answers,
            4,
            answers[3]->Words_0 == seq![0u64],
        );
        lemma_single(next4);
        let words5 = single(999);
        crate::laws::steps::lemma_fill(steps, 7, 13, next4, answers, 4, words5);
        let next5 = next4.with_column(3, words5);
        crate::laws::steps::lemma_command(steps, 8, 13, next5, answers, 4);
        crate::laws::steps::lemma_match(steps, 9, 13, next5, answers, 5, 1);
        let next6 = next5.with_register(COUNT, 1);
        crate::laws::steps::lemma_download(steps, 10, 13, next6, answers, 6);
        if answers[6] is Words {
            let next7 = next6.with_column(4, answers[6]->Words_0);
            lemma_lone(next7, 4, 999);
            crate::laws::steps::lemma_check_or_abort(
                steps,
                11,
                13,
                next7,
                answers,
                7,
                answers[6]->Words_0 == seq![999u64],
            );
            crate::laws::steps::lemma_command(steps, 12, 13, next7, answers, 7);
            crate::laws::steps::lemma_end(steps, 13, next7, answers, 8);
        }
    }
}

/// The test has no jumps.
proof fn lemma_boundaries_straight()
    ensures
        forall|j: int|
            0 <= j < crate::categories::c03_pointer_bounds::boundary_indices_steps().len()
                ==> crate::walk::straight(
                #[trigger] crate::categories::c03_pointer_bounds::boundary_indices_steps()[j],
            ),
{
}

/// The test of the first and the last row passes exactly when a filter that marks one of them keeps
/// just that one.
pub proof fn law_boundaries_pass_exactly_when_first_and_last_are_kept(answers: Seq<Answer>)
    requires
        boundaries_shaped(answers),
    ensures
        crate::machine::run_of(
            crate::script::plan(
                "test_boundary_indices",
                crate::categories::c03_pointer_bounds::boundary_indices_steps(),
            ),
            answers,
        ).progress == Progress::Over(Ending::Passed) <==> boundaries_answers(answers),
{
    let plan = crate::script::plan(
        "test_boundary_indices",
        crate::categories::c03_pointer_bounds::boundary_indices_steps(),
    );
    let blank = Contents::blank(plan.texts);
    lemma_boundaries_answers(blank, answers);
    lemma_boundaries_straight();
    crate::walk::law_passes_exactly_when_every_step_goes_through(plan, answers);
}

} // verus!
