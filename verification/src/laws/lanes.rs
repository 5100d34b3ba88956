//! The laws of the tests of sizes around a warp.

use vstd::prelude::*;
use crate::categories::c09_warp_level::{COORDINATION_SIZES, WARP_SIZES};
use crate::expr::{ix, lt, minus, modulo, num, over, pick, plus, reg, same_as, sum_of, times};
use crate::machine::{Answer, Ending, Progress};
use crate::memory::Contents;

verus! {

/// Half of a number, rounded up.
pub proof fn lemma_half(n: u64, contents: Contents)
    requires
        n < u64::MAX,
    ensures
        crate::expr::value_of(over(plus(num(n), num(1)), num(2)), contents, 0) == Some(
            ((n + 1) / 2) as u64,
        ),
{
    reveal_with_fuel(crate::expr::value_of, 4);
}

/// The sizes are those of columns.
proof fn lemma_warp_sizes(k: int)
    requires
        0 <= k < 6,
    ensures
        0 < WARP_SIZES@[k] < 1000000,
{
}

/// The sizes are those of columns.
proof fn lemma_coordinated_sizes(k: int)
    requires
        0 <= k < 3,
    ensures
        0 < COORDINATION_SIZES@[k] < 1000000,
{
}

/// Numbers that take turns in rising and falling.
pub open spec fn turning() -> Seq<u64> {
    Seq::new(
        1024,
        |i: int| if i % 2 == 0 {
            i as u64
        } else {
            (1024 - i) as u64
        },
    )
}

/// Numbers that differ from lane to lane and from warp to warp.
pub open spec fn diverging() -> Seq<u64> {
    Seq::new(1024, |i: int| (((i % 32) * 7 + (i / 32) * 13 + i * 17) % 1000) as u64)
}

/// Numbers that rise in one warp and fall in the next one.
pub open spec fn swinging() -> Seq<u64> {
    Seq::new(
        1024,
        |i: int| if i % 64 < 32 {
            (i % 64) as u64
        } else {
            (63 - i % 64) as u64
        },
    )
}

/// The words of [`turning`].
proof fn lemma_turning(contents: Contents)
    ensures
        forall|i: int|
            0 <= i < 1024 ==> #[trigger] crate::expr::value_of(
                pick(same_as(modulo(ix(), num(2)), num(0)), ix(), minus(num(1024), ix())),
                contents,
                i as u64,
            ) == Some(turning()[i]),
{
    reveal_with_fuel(crate::expr::value_of, 4);
}

/// One of the words of [`diverging`].
#[verifier::spinoff_prover]
#[verifier::rlimit(50)]
proof fn lemma_diverging_at(contents: Contents, i: u64)
    requires
        i < 1024,
    ensures
        crate::expr::value_of(
            modulo(
                plus(
                    plus(
                        times(modulo(ix(), num(32)), num(7)),
                        times(over(ix(), num(32)), num(13)),
                    ),
                    times(ix(), num(17)),
                ),
                num(1000),
            ),
            contents,
            i,
        ) == Some(diverging()[i as int]),
{
    reveal_with_fuel(crate::expr::value_of, 6);
}

/// The words of [`diverging`].
proof fn lemma_diverging(contents: Contents)
    ensures
        forall|i: int|
            0 <= i < 1024 ==> #[trigger] crate::expr::value_of(
                modulo(
                    plus(
                        plus(
                            times(modulo(ix(), num(32)), num(7)),
                            times(over(ix(), num(32)), num(13)),
                        ),
                        times(ix(), num(17)),
                    ),
                    num(1000),
                ),
                contents,
                i as u64,
            ) == Some(diverging()[i]),
{
    assert forall|i: int| 0 <= i < 1024 implies #[trigger] crate::expr::value_of(
        modulo(
            plus(
                plus(times(modulo(ix(), num(32)), num(7)), times(over(ix(), num(32)), num(13))),
                times(ix(), num(17)),
            ),
            num(1000),
        ),
        contents,
        i as u64,
    ) == Some(diverging()[i]) by {
        lemma_diverging_at(contents, i as u64);
    }
}

/// The words of [`swinging`].
#[verifier::spinoff_prover]
#[verifier::rlimit(50)]
proof fn lemma_swinging(contents: Contents)
    ensures
        forall|i: int|
            0 <= i < 1024 ==> #[trigger] crate::expr::value_of(
                pick(
                    lt(modulo(ix(), num(64)), num(32)),
                    modulo(ix(), num(64)),
                    minus(num(63), modulo(ix(), num(64))),
                ),
                contents,
                i as u64,
            ) == Some(swinging()[i]),
{
    reveal_with_fuel(crate::expr::value_of, 5);
}

/// The mask that marks every third row in one warp, and the first half of the next one.
pub open spec fn warp_mask(n: u64) -> Seq<u64> {
    Seq::new(
        n as nat,
        |i: int| crate::expr::truth(
            if (i / 32) % 2 == 0 {
                i % 3 == 0
            } else {
                i % 32 < 16
            },
        ),
    )
}

/// One of the words of [`warp_mask`].
#[verifier::spinoff_prover]
#[verifier::rlimit(50)]
proof fn lemma_warp_mask_at(n: u64, contents: Contents, i: u64)
    requires
        i < n,
    ensures
        crate::expr::value_of(
            pick(
                same_as(modulo(over(ix(), num(32)), num(2)), num(0)),
                same_as(modulo(ix(), num(3)), num(0)),
                lt(modulo(ix(), num(32)), num(16)),
            ),
            contents,
            i,
        ) == Some(warp_mask(n)[i as int]),
{
    reveal_with_fuel(crate::expr::value_of, 6);
}

/// The words of [`warp_mask`].
proof fn lemma_warp_mask(n: u64, contents: Contents)
    ensures
        forall|i: int|
            0 <= i < n ==> #[trigger] crate::expr::value_of(
                pick(
                    same_as(modulo(over(ix(), num(32)), num(2)), num(0)),
                    same_as(modulo(ix(), num(3)), num(0)),
                    lt(modulo(ix(), num(32)), num(16)),
                ),
                contents,
                i as u64,
            ) == Some(warp_mask(n)[i]),
{
    assert forall|i: int| 0 <= i < n implies #[trigger] crate::expr::value_of(
        pick(
            same_as(modulo(over(ix(), num(32)), num(2)), num(0)),
            same_as(modulo(ix(), num(3)), num(0)),
            lt(modulo(ix(), num(32)), num(16)),
        ),
        contents,
        i as u64,
    ) == Some(warp_mask(n)[i]) by {
        lemma_warp_mask_at(n, contents, i as u64);
    }
}

/// The sum of a mask.
pub proof fn lemma_mask_sum(contents: Contents, slot: u64)
    requires
        slot < contents.columns.len(),
        contents.columns[slot as int].len() <= u64::MAX,
        forall|i: int|
            0 <= i < contents.columns[slot as int].len() ==> contents.columns[slot as int][i] <= 1,
    ensures
        0 <= crate::columns::total(contents.columns[slot as int]) <= u64::MAX,
        crate::expr::value_of(sum_of(slot), contents, 0) == Some(
            crate::columns::total(contents.columns[slot as int]) as u64,
        ),
{
    crate::columns::law_total_of_zeros_and_ones(contents.columns[slot as int]);
}

/// Whether the answers to the downloads of the test are columns or refusals.
pub open spec fn warp_sizes_shaped(answers: Seq<Answer>) -> bool {
    &&& answers.len() >= 43
    &&& forall|k: int| 0 <= k < 6 ==> #[trigger] answers[2 + 7 * k] is Count
    &&& forall|k: int|
        0 <= k < 6 ==> crate::laws::steps::column_or_refusal(#[trigger] answers[3 + 7 * k])
    &&& forall|k: int| 0 <= k < 6 ==> #[trigger] answers[5 + 7 * k] is Count
}

/// What the device has to answer in round `k` of the part `sizes`, from answer `used` on.
pub open spec fn warp_sizes_sizes(k: int, answers: Seq<Answer>, used: int) -> bool {
    &&& !(answers[used] is Failed)
    &&& !(answers[used + 1] is Failed)
    &&& answers[used + 2]->Count_0 == WARP_SIZES@[k]
    &&& answers[used + 3] is Words
    &&& crate::laws::steps::counts_up(answers[used + 3]->Words_0)
    &&& !(answers[used + 4] is Failed)
    &&& answers[used + 5]->Count_0 == (WARP_SIZES@[k] + 1) / 2
}

/// What the device has to answer in the part `end`.
pub open spec fn warp_sizes_end(answers: Seq<Answer>) -> bool {
    !(answers[42] is Failed)
}

/// One round of the part `sizes`.
proof fn lemma_warp_sizes_sizes(k: int, contents: Contents, answers: Seq<Answer>, used: int)
    requires
        0 <= k < 6,
        used == 7 * k,
        contents.full(),
        warp_sizes_shaped(answers),
    ensures
        match crate::walk::walked(
            crate::categories::c09_warp_level::warp_size_operations_sizes_round(k as u64),
            0,
            12,
            contents,
            answers,
            used,
        ) {
            Some((after, next)) => {
                &&& warp_sizes_sizes(k, answers, used)
                &&& after.full()
                &&& next == 7 * (k + 1)
            },
            None => !warp_sizes_sizes(k, answers, used),
        },
        crate::categories::c09_warp_level::warp_size_operations_sizes_round(k as u64).len() == 12,
{
    let steps = crate::categories::c09_warp_level::warp_size_operations_sizes_round(k as u64);
    assert(answers[2 + 7 * k] is Count);
    assert(crate::laws::steps::column_or_refusal(answers[3 + 7 * k]));
    assert(answers[5 + 7 * k] is Count);
    lemma_warp_sizes(k);
    crate::laws::words::lemma_falling(WARP_SIZES@[k], contents);
    let words1 = crate::laws::words::falling(WARP_SIZES@[k]);
    crate::laws::steps::lemma_fill(steps, 0, 12, contents, answers, used, words1);
    let next1 = contents.with_column(0, words1);
    crate::laws::steps::lemma_command(steps, 1, 12, next1, answers, used);
    crate::laws::steps::lemma_command(steps, 2, 12, next1, answers, used + 1);
    crate::laws::steps::lemma_number(
        steps,
        3,
        12,
        next1,
        answers,
        used + 2,
        answers[used + 2]->Count_0,
    );
    let next2 = next1.with_register(0, answers[used + 2]->Count_0);
    crate::laws::steps::lemma_register(next2, 0, num(WARP_SIZES@[k]), WARP_SIZES@[k]);
    crate::laws::steps::lemma_check(
        steps,
        4,
        12,
        next2,
        answers,
        used + 3,
        !(answers[used + 2]->Count_0 == WARP_SIZES@[k]),
    );
    crate::laws::steps::lemma_download(steps, 5, 12, next2, answers, used + 3);
    if answers[used + 3] is Words {
        let next3 = next2.with_column(1, answers[used + 3]->Words_0);
        crate::laws::steps::lemma_scan_places(steps, 6, 12, next3, answers, used + 4, 1);
        crate::laws::masks::lemma_remainder_words(2, WARP_SIZES@[k], next3);
        let words4 = crate::laws::masks::every(2, WARP_SIZES@[k] as nat);
        crate::laws::steps::lemma_fill(steps, 7, 12, next3, answers, used + 4, words4);
        let next4 = next3.with_column(2, words4);
        crate::laws::steps::lemma_command(steps, 8, 12, next4, answers, used + 4);
        crate::laws::steps::lemma_number(
            steps,
            9,
            12,
            next4,
            answers,
            used + 5,
            answers[used + 5]->Count_0,
        );
        let next5 = next4.with_register(0, answers[used + 5]->Count_0);
        lemma_half(WARP_SIZES@[k], next5);
        crate::laws::steps::lemma_register(
            next5,
            0,
            over(plus(num(WARP_SIZES@[k]), num(1)), num(2)),
            ((WARP_SIZES@[k] + 1) / 2) as u64,
        );
        crate::laws::steps::lemma_check(
            steps,
            10,
            12,
            next5,
            answers,
            used + 6,
            !(answers[used + 5]->Count_0 == (WARP_SIZES@[k] + 1) / 2),
        );
        crate::laws::steps::lemma_command(steps, 11, 12, next5, answers, used + 6);
        crate::laws::steps::lemma_end(steps, 12, next5, answers, used + 7);
    }
}

/// All rounds of the part `sizes`.
proof fn lemma_warp_sizes_sizes_rounds(contents: Contents, answers: Seq<Answer>)
    requires
        contents.full(),
        warp_sizes_shaped(answers),
    ensures
        ({
            let steps = crate::script::rounds(
                6,
                |k: int| crate::categories::c09_warp_level::warp_size_operations_sizes_round(
                    k as u64,
                ),
            );
            match crate::walk::walked(steps, 0, steps.len() as int, contents, answers, 0) {
                Some((after, next)) => {
                    &&& forall|k: int|
                        0 <= k < 6 ==> #[trigger] warp_sizes_sizes(k, answers, 7 * k)
                    &&& after.full()
                    &&& next == 42
                },
                None => !(forall|k: int|
                    0 <= k < 6 ==> #[trigger] warp_sizes_sizes(k, answers, 7 * k)),
            }
        }),
{
    let round = |k: int| crate::categories::c09_warp_level::warp_size_operations_sizes_round(
        k as u64,
    );
    let start = |k: int| 7 * k;
    let good = |k: int| warp_sizes_sizes(k, answers, start(k));
    let kept = |contents: Contents| contents.full();
    assert forall|k: int, contents: Contents|
        #![trigger good(k), kept(contents)]
        0 <= k < 6 && kept(contents) implies if good(k) {
        crate::walk::goes_to(round(k), contents, answers, start(k), start(k + 1), kept)
    } else {
        crate::walk::walked(round(k), 0, round(k).len() as int, contents, answers, start(k)) is None
    } by {
        lemma_warp_sizes_sizes(k, contents, answers, start(k));
    }
    crate::walk::law_rounds_keep_what_each_keeps(6, round, start, good, kept, contents, answers);
    if forall|k: int| 0 <= k < 6 ==> #[trigger] good(k) {
        assert forall|k: int| 0 <= k < 6 implies #[trigger] warp_sizes_sizes(
            k,
            answers,
            7 * k,
        ) by {
            assert(good(k));
        }
    } else {
        let k = choose|k: int| 0 <= k < 6 && !(#[trigger] good(k));
        assert(!warp_sizes_sizes(k, answers, 7 * k));
    }
}

/// The part `end`.
proof fn lemma_warp_sizes_end(contents: Contents, answers: Seq<Answer>)
    requires
        contents.full(),
        warp_sizes_shaped(answers),
    ensures
        match crate::walk::walked(
            crate::categories::c09_warp_level::warp_size_operations_end_steps(),
            0,
            1,
            contents,
            answers,
            42,
        ) {
            Some((after, next)) => {
                &&& warp_sizes_end(answers)
                &&& after.full()
                &&& next == 43
            },
            None => !warp_sizes_end(answers),
        },
        crate::categories::c09_warp_level::warp_size_operations_end_steps().len() == 1,
{
    let steps = crate::categories::c09_warp_level::warp_size_operations_end_steps();
    crate::laws::steps::lemma_command(steps, 0, 1, contents, answers, 42);
    crate::laws::steps::lemma_end(steps, 1, contents, answers, 43);
}

/// The test has no jumps.
proof fn lemma_warp_sizes_straight()
    ensures
        forall|j: int|
            0 <= j < crate::categories::c09_warp_level::warp_size_operations_steps().len()
                ==> crate::walk::straight(
                #[trigger] crate::categories::c09_warp_level::warp_size_operations_steps()[j],
            ),
{
    let part1 = crate::script::rounds(
        6,
        |k: int| crate::categories::c09_warp_level::warp_size_operations_sizes_round(k as u64),
    );
    let round1 = |k: int| crate::categories::c09_warp_level::warp_size_operations_sizes_round(
        k as u64,
    );
    crate::walk::law_straight_rounds_are_straight(6, round1);
    let part2 = crate::categories::c09_warp_level::warp_size_operations_end_steps();
    let whole1 = part1;
    let whole2 = whole1 + part2;
    crate::walk::law_straight_scripts_make_a_straight_one(whole1, part2);
    assert(crate::categories::c09_warp_level::warp_size_operations_steps() == whole2);
}

/// The test of sizes around a warp passes exactly when, for each size, a sort leaves all rows, with
/// every number at its place, and a filter of every other row leaves half of them, rounded up.
pub proof fn law_warp_sizes_pass_exactly_when_sorted_and_filtered(answers: Seq<Answer>)
    requires
        warp_sizes_shaped(answers),
    ensures
        crate::machine::run_of(
            crate::script::plan(
                "test_warp_size_operations",
                crate::categories::c09_warp_level::warp_size_operations_steps(),
            ),
            answers,
        ).progress == Progress::Over(Ending::Passed) <==> {
            &&& forall|k: int|
                0 <= k < 6 ==> #[trigger] warp_sizes_sizes(k, answers, 7 * k)
            &&& warp_sizes_end(answers)
        },
{
    let plan = crate::script::plan(
        "test_warp_size_operations",
        crate::categories::c09_warp_level::warp_size_operations_steps(),
    );
    let blank = Contents::blank(plan.texts);
    let part1 = crate::script::rounds(
        6,
        |k: int| crate::categories::c09_warp_level::warp_size_operations_sizes_round(k as u64),
    );
    let part2 = crate::categories::c09_warp_level::warp_size_operations_end_steps();
    let whole1 = part1;
    let whole2 = whole1 + part2;
    assert(plan.steps == whole2);
    lemma_warp_sizes_sizes_rounds(blank, answers);
    crate::walk::law_walks_over_two_scripts_compose(whole1, part2, blank, answers, 0);
    match crate::walk::walked(whole1, 0, whole1.len() as int, blank, answers, 0) {
        Some((after, _)) => {
            lemma_warp_sizes_end(after, answers);
        },
        None => {},
    }
    lemma_warp_sizes_straight();
    crate::walk::law_passes_exactly_when_every_step_goes_through(plan, answers);
}

/// Whether the answers to the downloads of the test are columns or refusals.
pub open spec fn partial_shaped(answers: Seq<Answer>) -> bool {
    &&& answers.len() >= 218
    &&& forall|k: int| 0 <= k < 31 ==> #[trigger] answers[2 + 7 * k] is Count
    &&& forall|k: int|
        0 <= k < 31 ==> crate::laws::steps::column_or_refusal(#[trigger] answers[3 + 7 * k])
    &&& forall|k: int| 0 <= k < 31 ==> #[trigger] answers[5 + 7 * k] is Count
}

/// What the device has to answer in round `k` of the part `sizes`, from answer `used` on.
pub open spec fn partial_sizes(k: int, answers: Seq<Answer>, used: int) -> bool {
    &&& !(answers[used] is Failed)
    &&& !(answers[used + 1] is Failed)
    &&& answers[used + 2]->Count_0 == ((k + 1) as u64)
    &&& answers[used + 3] is Words
    &&& crate::laws::steps::counts_up(answers[used + 3]->Words_0)
    &&& !(answers[used + 4] is Failed)
    &&& answers[used + 5]->Count_0 == ((k + 1) as u64)
}

/// What the device has to answer in the part `end`.
pub open spec fn partial_end(answers: Seq<Answer>) -> bool {
    !(answers[217] is Failed)
}

/// One round of the part `sizes`.
proof fn lemma_partial_sizes(k: int, contents: Contents, answers: Seq<Answer>, used: int)
    requires
        0 <= k < 31,
        used == 7 * k,
        contents.full(),
        partial_shaped(answers),
    ensures
        match crate::walk::walked(
            crate::categories::c09_warp_level::partial_warp_correctness_sizes_round(k as u64),
            0,
            11,
            contents,
            answers,
            used,
        ) {
            Some((after, next)) => {
                &&& partial_sizes(k, answers, used)
                &&& after.full()
                &&& next == 7 * (k + 1)
            },
            None => !partial_sizes(k, answers, used),
        },
        crate::categories::c09_warp_level::partial_warp_correctness_sizes_round(
            k as u64,
        ).len() == 11,
{
    let steps = crate::categories::c09_warp_level::partial_warp_correctness_sizes_round(k as u64);
    assert(answers[2 + 7 * k] is Count);
    assert(crate::laws::steps::column_or_refusal(answers[3 + 7 * k]));
    assert(answers[5 + 7 * k] is Count);
    crate::laws::words::lemma_falling(((k + 1) as u64), contents);
    let words1 = crate::laws::words::falling(((k + 1) as u64));
    crate::laws::steps::lemma_fill(steps, 0, 11, contents, answers, used, words1);
    let next1 = contents.with_column(0, words1);
    crate::laws::steps::lemma_command(steps, 1, 11, next1, answers, used);
    crate::laws::steps::lemma_command(steps, 2, 11, next1, answers, used + 1);
    crate::laws::steps::lemma_number(
        steps,
        3,
        11,
        next1,
        answers,
        used + 2,
        answers[used + 2]->Count_0,
    );
    let next2 = next1.with_register(0, answers[used + 2]->Count_0);
    crate::laws::steps::lemma_register(next2, 0, num(((k + 1) as u64)), ((k + 1) as u64));
    crate::laws::steps::lemma_check(
        steps,
        4,
        11,
        next2,
        answers,
        used + 3,
        !(answers[used + 2]->Count_0 == ((k + 1) as u64)),
    );
    crate::laws::steps::lemma_download(steps, 5, 11, next2, answers, used + 3);
    if answers[used + 3] is Words {
        let next3 = next2.with_column(1, answers[used + 3]->Words_0);
        crate::laws::steps::lemma_scan_places(steps, 6, 11, next3, answers, used + 4, 1);
        crate::laws::steps::lemma_command(steps, 7, 11, next3, answers, used + 4);
        crate::laws::steps::lemma_number(
            steps,
            8,
            11,
            next3,
            answers,
            used + 5,
            answers[used + 5]->Count_0,
        );
        let next4 = next3.with_register(0, answers[used + 5]->Count_0);
        crate::laws::steps::lemma_register(next4, 0, num(((k + 1) as u64)), ((k + 1) as u64));
        crate::laws::steps::lemma_check(
            steps,
            9,
            11,
            next4,
            answers,
            used + 6,
            !(answers[used + 5]->Count_0 == ((k + 1) as u64)),
        );
        crate::laws::steps::lemma_command(steps, 10, 11, next4, answers, used + 6);
        crate::laws::steps::lemma_end(steps, 11, next4, answers, used + 7);
    }
}

/// All rounds of the part `sizes`.
proof fn lemma_partial_sizes_rounds(contents: Contents, answers: Seq<Answer>)
    requires
        contents.full(),
        partial_shaped(answers),
    ensures
        ({
            let steps = crate::script::rounds(
                31,
                |k: int| crate::categories::c09_warp_level::partial_warp_correctness_sizes_round(
                    k as u64,
                ),
            );
            match crate::walk::walked(steps, 0, steps.len() as int, contents, answers, 0) {
                Some((after, next)) => {
                    &&& forall|k: int|
                        0 <= k < 31 ==> #[trigger] partial_sizes(k, answers, 7 * k)
                    &&& after.full()
                    &&& next == 217
                },
                None => !(forall|k: int|
                    0 <= k < 31 ==> #[trigger] partial_sizes(k, answers, 7 * k)),
            }
        }),
{
    let round = |k: int| crate::categories::c09_warp_level::partial_warp_correctness_sizes_round(
        k as u64,
    );
    let start = |k: int| 7 * k;
    let good = |k: int| partial_sizes(k, answers, start(k));
    let kept = |contents: Contents| contents.full();
    assert forall|k: int, contents: Contents|
        #![trigger good(k), kept(contents)]
        0 <= k < 31 && kept(contents) implies if good(k) {
        crate::walk::goes_to(round(k), contents, answers, start(k), start(k + 1), kept)
    } else {
        crate::walk::walked(round(k), 0, round(k).len() as int, contents, answers, start(k)) is None
    } by {
        lemma_partial_sizes(k, contents, answers, start(k));
    }
    crate::walk::law_rounds_keep_what_each_keeps(31, round, start, good, kept, contents, answers);
    if forall|k: int| 0 <= k < 31 ==> #[trigger] good(k) {
        assert forall|k: int| 0 <= k < 31 implies #[trigger] partial_sizes(
            k,
            answers,
            7 * k,
        ) by {
            assert(good(k));
        }
    } else {
        let k = choose|k: int| 0 <= k < 31 && !(#[trigger] good(k));
        assert(!partial_sizes(k, answers, 7 * k));
    }
}

/// The part `end`.
proof fn lemma_partial_end(contents: Contents, answers: Seq<Answer>)
    requires
        contents.full(),
        partial_shaped(answers),
    ensures
        match crate::walk::walked(
            crate::categories::c09_warp_level::partial_warp_correctness_end_steps(),
            0,
            1,
            contents,
            answers,
            217,
        ) {
            Some((after, next)) => {
                &&& partial_end(answers)
                &&& after.full()
                &&& next == 218
            },
            None => !partial_end(answers),
        },
        crate::categories::c09_warp_level::partial_warp_correctness_end_steps().len() == 1,
{
    let steps = crate::categories::c09_warp_level::partial_warp_correctness_end_steps();
    crate::laws::steps::lemma_command(steps, 0, 1, contents, answers, 217);
    crate::laws::steps::lemma_end(steps, 1, contents, answers, 218);
}

/// The test has no jumps.
proof fn lemma_partial_straight()
    ensures
        forall|j: int|
            0 <= j < crate::categories::c09_warp_level::partial_warp_correctness_steps().len()
                ==> crate::walk::straight(
                #[trigger] crate::categories::c09_warp_level::partial_warp_correctness_steps()[j],
            ),
{
    let part1 = crate::script::rounds(
        31,
        |k: int| crate::categories::c09_warp_level::partial_warp_correctness_sizes_round(k as u64),
    );
    let round1 = |k: int| crate::categories::c09_warp_level::partial_warp_correctness_sizes_round(
        k as u64,
    );
    crate::walk::law_straight_rounds_are_straight(31, round1);
    let part2 = crate::categories::c09_warp_level::partial_warp_correctness_end_steps();
    let whole1 = part1;
    let whole2 = whole1 + part2;
    crate::walk::law_straight_scripts_make_a_straight_one(whole1, part2);
    assert(crate::categories::c09_warp_level::partial_warp_correctness_steps() == whole2);
}

/// The test of sizes below a warp passes exactly when, for each size, a sort leaves all rows, with
/// every number at its place, and removing duplicates leaves all rows.
pub proof fn law_partial_warps_pass_exactly_when_nothing_is_lost(answers: Seq<Answer>)
    requires
        partial_shaped(answers),
    ensures
        crate::machine::run_of(
            crate::script::plan(
                "test_partial_warp_correctness",
                crate::categories::c09_warp_level::partial_warp_correctness_steps(),
            ),
            answers,
        ).progress == Progress::Over(Ending::Passed) <==> {
            &&& forall|k: int|
                0 <= k < 31 ==> #[trigger] partial_sizes(k, answers, 7 * k)
            &&& partial_end(answers)
        },
{
    let plan = crate::script::plan(
        "test_partial_warp_correctness",
        crate::categories::c09_warp_level::partial_warp_correctness_steps(),
    );
    let blank = Contents::blank(plan.texts);
    let part1 = crate::script::rounds(
        31,
        |k: int| crate::categories::c09_warp_level::partial_warp_correctness_sizes_round(k as u64),
    );
    let part2 = crate::categories::c09_warp_level::partial_warp_correctness_end_steps();
    let whole1 = part1;
    let whole2 = whole1 + part2;
    assert(plan.steps == whole2);
    lemma_partial_sizes_rounds(blank, answers);
    crate::walk::law_walks_over_two_scripts_compose(whole1, part2, blank, answers, 0);
    match crate::walk::walked(whole1, 0, whole1.len() as int, blank, answers, 0) {
        Some((after, _)) => {
            lemma_partial_end(after, answers);
        },
        None => {},
    }
    lemma_partial_straight();
    crate::walk::law_passes_exactly_when_every_step_goes_through(plan, answers);
}

/// Whether the answers to the downloads of the test are columns or refusals.
pub open spec fn divergence_shaped(answers: Seq<Answer>) -> bool {
    &&& answers.len() >= 10
    &&& crate::laws::steps::column_or_refusal(answers[2])
    &&& crate::laws::steps::column_or_refusal(answers[5])
    &&& crate::laws::steps::column_or_refusal(answers[8])
}

/// What the device has to answer.
pub open spec fn divergence_answers(answers: Seq<Answer>) -> bool {
    &&& !(answers[0] is Failed)
    &&& !(answers[1] is Failed)
    &&& answers[2] is Words
    &&& crate::laws::steps::rises_to(answers[2]->Words_0, 1024)
    &&& !(answers[3] is Failed)
    &&& !(answers[4] is Failed)
    &&& answers[5] is Words
    &&& crate::laws::steps::rises_to(answers[5]->Words_0, 1024)
    &&& !(answers[6] is Failed)
    &&& !(answers[7] is Failed)
    &&& answers[8] is Words
    &&& crate::laws::steps::rises_to(answers[8]->Words_0, 1024)
    &&& !(answers[9] is Failed)
}

/// The steps of the test.
proof fn lemma_divergence_answers(contents: Contents, answers: Seq<Answer>)
    requires
        contents.full(),
        divergence_shaped(answers),
    ensures
        match crate::walk::walked(
            crate::categories::c09_warp_level::warp_divergence_patterns_steps(),
            0,
            16,
            contents,
            answers,
            0,
        ) {
            Some((after, next)) => {
                &&& divergence_answers(answers)
                &&& after.full()
                &&& next == 10
            },
            None => !divergence_answers(answers),
        },
        crate::categories::c09_warp_level::warp_divergence_patterns_steps().len() == 16,
{
    let steps = crate::categories::c09_warp_level::warp_divergence_patterns_steps();
    lemma_turning(contents);
    let words1 = turning();
    crate::laws::steps::lemma_fill(steps, 0, 16, contents, answers, 0, words1);
    let next1 = contents.with_column(0, words1);
    crate::laws::steps::lemma_command(steps, 1, 16, next1, answers, 0);
    crate::laws::steps::lemma_command(steps, 2, 16, next1, answers, 1);
    crate::laws::steps::lemma_download(steps, 3, 16, next1, answers, 2);
    if answers[2] is Words {
        let next2 = next1.with_column(1, answers[2]->Words_0);
        crate::laws::steps::lemma_scan_order_to(steps, 4, 16, next2, answers, 3, 1, 1024);
        lemma_diverging(next2);
        let words3 = diverging();
        crate::laws::steps::lemma_fill(steps, 5, 16, next2, answers, 3, words3);
        let next3 = next2.with_column(2, words3);
        crate::laws::steps::lemma_command(steps, 6, 16, next3, answers, 3);
        crate::laws::steps::lemma_command(steps, 7, 16, next3, answers, 4);
        crate::laws::steps::lemma_download(steps, 8, 16, next3, answers, 5);
        if answers[5] is Words {
            let next4 = next3.with_column(3, answers[5]->Words_0);
            crate::laws::steps::lemma_scan_order_to(steps, 9, 16, next4, answers, 6, 3, 1024);
            lemma_swinging(next4);
            let words5 = swinging();
            crate::laws::steps::lemma_fill(steps, 10, 16, next4, answers, 6, words5);
            let next5 = next4.with_column(4, words5);
            crate::laws::steps::lemma_command(steps, 11, 16, next5, answers, 6);
            crate::laws::steps::lemma_command(steps, 12, 16, next5, answers, 7);
            crate::laws::steps::lemma_download(steps, 13, 16, next5, answers, 8);
            if answers[8] is Words {
                let next6 = next5.with_column(5, answers[8]->Words_0);
                crate::laws::steps::lemma_scan_order_to(steps, 14, 16, next6, answers, 9, 5, 1024);
                crate::laws::steps::lemma_command(steps, 15, 16, next6, answers, 9);
                crate::laws::steps::lemma_end(steps, 16, next6, answers, 10);
            }
        }
    }
}

/// The test has no jumps.
proof fn lemma_divergence_straight()
    ensures
        forall|j: int|
            0 <= j < crate::categories::c09_warp_level::warp_divergence_patterns_steps().len()
                ==> crate::walk::straight(
                #[trigger] crate::categories::c09_warp_level::warp_divergence_patterns_steps()[j],
            ),
{
}

/// The test of diverging lanes passes exactly when each of its three columns comes back in rising
/// order.
pub proof fn law_divergence_passes_exactly_when_sorted(answers: Seq<Answer>)
    requires
        divergence_shaped(answers),
    ensures
        crate::machine::run_of(
            crate::script::plan(
                "test_warp_divergence_patterns",
                crate::categories::c09_warp_level::warp_divergence_patterns_steps(),
            ),
            answers,
        ).progress == Progress::Over(Ending::Passed) <==> divergence_answers(answers),
{
    let plan = crate::script::plan(
        "test_warp_divergence_patterns",
        crate::categories::c09_warp_level::warp_divergence_patterns_steps(),
    );
    let blank = Contents::blank(plan.texts);
    lemma_divergence_answers(blank, answers);
    lemma_divergence_straight();
    crate::walk::law_passes_exactly_when_every_step_goes_through(plan, answers);
}

/// Whether the answers to the downloads of the test are columns or refusals.
pub open spec fn coordination_shaped(answers: Seq<Answer>) -> bool {
    &&& answers.len() >= 25
    &&& forall|k: int| 0 <= k < 3 ==> #[trigger] answers[2 + 8 * k] is Count
    &&& forall|k: int|
        0 <= k < 3 ==> crate::laws::steps::column_or_refusal(#[trigger] answers[3 + 8 * k])
    &&& forall|k: int|
        0 <= k < 3 ==> crate::laws::steps::column_or_refusal(#[trigger] answers[4 + 8 * k])
    &&& forall|k: int| 0 <= k < 3 ==> #[trigger] answers[6 + 8 * k] is Count
}

/// What the device has to answer in round `k` of the part `sizes`, from answer `used` on.
pub open spec fn coordination_sizes(k: int, answers: Seq<Answer>, used: int) -> bool {
    &&& !(answers[used] is Failed)
    &&& !(answers[used + 1] is Failed)
    &&& answers[used + 2]->Count_0 == COORDINATION_SIZES@[k]
    &&& answers[used + 3] is Words
    &&& answers[used + 4] is Words
    &&& crate::laws::steps::counts_up(answers[used + 3]->Words_0)
    &&& crate::laws::steps::begins_with(
        answers[used + 4]->Words_0,
        crate::laws::words::falling(COORDINATION_SIZES@[k]),
    )
    &&& !(answers[used + 5] is Failed)
    &&& answers[used + 6]->Count_0 == crate::columns::total(warp_mask(COORDINATION_SIZES@[k]))
}

/// What the device has to answer in the part `end`.
pub open spec fn coordination_end(answers: Seq<Answer>) -> bool {
    !(answers[24] is Failed)
}

/// One round of the part `sizes`.
proof fn lemma_coordination_sizes(k: int, contents: Contents, answers: Seq<Answer>, used: int)
    requires
        0 <= k < 3,
        used == 8 * k,
        contents.full(),
        coordination_shaped(answers),
    ensures
        match crate::walk::walked(
            crate::categories::c09_warp_level::multi_warp_coordination_sizes_round(k as u64),
            0,
            16,
            contents,
            answers,
            used,
        ) {
            Some((after, next)) => {
                &&& coordination_sizes(k, answers, used)
                &&& after.full()
                &&& next == 8 * (k + 1)
            },
            None => !coordination_sizes(k, answers, used),
        },
        crate::categories::c09_warp_level::multi_warp_coordination_sizes_round(
            k as u64,
        ).len() == 16,
{
    let steps = crate::categories::c09_warp_level::multi_warp_coordination_sizes_round(k as u64);
    assert(answers[2 + 8 * k] is Count);
    assert(crate::laws::steps::column_or_refusal(answers[3 + 8 * k]));
    assert(crate::laws::steps::column_or_refusal(answers[4 + 8 * k]));
    assert(answers[6 + 8 * k] is Count);
    lemma_coordinated_sizes(k);
    crate::laws::words::lemma_falling(COORDINATION_SIZES@[k], contents);
    let words1 = crate::laws::words::falling(COORDINATION_SIZES@[k]);
    crate::laws::steps::lemma_fill(steps, 0, 16, contents, answers, used, words1);
    let next1 = contents.with_column(0, words1);
    crate::laws::words::lemma_below(COORDINATION_SIZES@[k], next1);
    let words2 = crate::laws::words::below(COORDINATION_SIZES@[k]);
    crate::laws::steps::lemma_fill(steps, 1, 16, next1, answers, used, words2);
    let next2 = next1.with_column(1, words2);
    crate::laws::steps::lemma_command(steps, 2, 16, next2, answers, used);
    crate::laws::steps::lemma_command(steps, 3, 16, next2, answers, used + 1);
    crate::laws::steps::lemma_number(
        steps,
        4,
        16,
        next2,
        answers,
        used + 2,
        answers[used + 2]->Count_0,
    );
    let next3 = next2.with_register(0, answers[used + 2]->Count_0);
    crate::laws::steps::lemma_register(
        next3,
        0,
        num(COORDINATION_SIZES@[k]),
        COORDINATION_SIZES@[k],
    );
    crate::laws::steps::lemma_check(
        steps,
        5,
        16,
        next3,
        answers,
        used + 3,
        !(answers[used + 2]->Count_0 == COORDINATION_SIZES@[k]),
    );
    crate::laws::steps::lemma_download(steps, 6, 16, next3, answers, used + 3);
    if answers[used + 3] is Words {
        let next4 = next3.with_column(2, answers[used + 3]->Words_0);
        crate::laws::steps::lemma_download(steps, 7, 16, next4, answers, used + 4);
        if answers[used + 4] is Words {
            let next5 = next4.with_column(3, answers[used + 4]->Words_0);
            crate::laws::steps::lemma_scan_places(steps, 8, 16, next5, answers, used + 5, 2);
            crate::laws::words::lemma_falling(COORDINATION_SIZES@[k], next5);
            crate::laws::steps::lemma_scan_expected(
                steps,
                9,
                16,
                next5,
                answers,
                used + 5,
                3,
                minus(minus(num(COORDINATION_SIZES@[k]), num(1)), ix()),
                crate::laws::words::falling(COORDINATION_SIZES@[k]),
            );
            lemma_warp_mask(COORDINATION_SIZES@[k], next5);
            let words6 = warp_mask(COORDINATION_SIZES@[k]);
            crate::laws::steps::lemma_fill(steps, 10, 16, next5, answers, used + 5, words6);
            let next6 = next5.with_column(4, words6);
            lemma_mask_sum(next6, 4);
            crate::laws::steps::lemma_put(
                steps,
                11,
                16,
                next6,
                answers,
                used + 5,
                crate::columns::total(warp_mask(COORDINATION_SIZES@[k])) as u64,
            );
            let next7 = next6.with_register(
                1,
                crate::columns::total(warp_mask(COORDINATION_SIZES@[k])) as u64,
            );
            crate::laws::steps::lemma_command(steps, 12, 16, next7, answers, used + 5);
            crate::laws::steps::lemma_number(
                steps,
                13,
                16,
                next7,
                answers,
                used + 6,
                answers[used + 6]->Count_0,
            );
            let next8 = next7.with_register(0, answers[used + 6]->Count_0);
            lemma_mask_sum(next8, 4);
            crate::laws::steps::lemma_register(
                next8,
                0,
                reg(1),
                crate::columns::total(warp_mask(COORDINATION_SIZES@[k])) as u64,
            );
            crate::laws::steps::lemma_check(
                steps,
                14,
                16,
                next8,
                answers,
                used + 7,
                !(
                    answers[used + 6]->Count_0 == crate::columns::total(
                        warp_mask(COORDINATION_SIZES@[k]),
                    )
                ),
            );
            crate::laws::steps::lemma_command(steps, 15, 16, next8, answers, used + 7);
            crate::laws::steps::lemma_end(steps, 16, next8, answers, used + 8);
        }
    }
}

/// All rounds of the part `sizes`.
proof fn lemma_coordination_sizes_rounds(contents: Contents, answers: Seq<Answer>)
    requires
        contents.full(),
        coordination_shaped(answers),
    ensures
        ({
            let steps = crate::script::rounds(
                3,
                |k: int| crate::categories::c09_warp_level::multi_warp_coordination_sizes_round(
                    k as u64,
                ),
            );
            match crate::walk::walked(steps, 0, steps.len() as int, contents, answers, 0) {
                Some((after, next)) => {
                    &&& forall|k: int|
                        0 <= k < 3 ==> #[trigger] coordination_sizes(k, answers, 8 * k)
                    &&& after.full()
                    &&& next == 24
                },
                None => !(forall|k: int|
                    0 <= k < 3 ==> #[trigger] coordination_sizes(k, answers, 8 * k)),
            }
        }),
{
    let round = |k: int| crate::categories::c09_warp_level::multi_warp_coordination_sizes_round(
        k as u64,
    );
    let start = |k: int| 8 * k;
    let good = |k: int| coordination_sizes(k, answers, start(k));
    let kept = |contents: Contents| contents.full();
    assert forall|k: int, contents: Contents|
        #![trigger good(k), kept(contents)]
        0 <= k < 3 && kept(contents) implies if good(k) {
        crate::walk::goes_to(round(k), contents, answers, start(k), start(k + 1), kept)
    } else {
        crate::walk::walked(round(k), 0, round(k).len() as int, contents, answers, start(k)) is None
    } by {
        lemma_coordination_sizes(k, contents, answers, start(k));
    }
    crate::walk::law_rounds_keep_what_each_keeps(3, round, start, good, kept, contents, answers);
    if forall|k: int| 0 <= k < 3 ==> #[trigger] good(k) {
        assert forall|k: int| 0 <= k < 3 implies #[trigger] coordination_sizes(
            k,
            answers,
            8 * k,
        ) by {
            assert(good(k));
        }
    } else {
        let k = choose|k: int| 0 <= k < 3 && !(#[trigger] good(k));
        assert(!coordination_sizes(k, answers, 8 * k));
    }
}

/// The part `end`.
proof fn lemma_coordination_end(contents: Contents, answers: Seq<Answer>)
    requires
        contents.full(),
        coordination_shaped(answers),
    ensures
        match crate::walk::walked(
            crate::categories::c09_warp_level::multi_warp_coordination_end_steps(),
            0,
            1,
            contents,
            answers,
            24,
        ) {
            Some((after, next)) => {
                &&& coordination_end(answers)
                &&& after.full()
                &&& next == 25
            },
            None => !coordination_end(answers),
        },
        crate::categories::c09_warp_level::multi_warp_coordination_end_steps().len() == 1,
{
    let steps = crate::categories::c09_warp_level::multi_warp_coordination_end_steps();
    crate::laws::steps::lemma_command(steps, 0, 1, contents, answers, 24);
    crate::laws::steps::lemma_end(steps, 1, contents, answers, 25);
}

/// The test has no jumps.
proof fn lemma_coordination_straight()
    ensures
        forall|j: int|
            0 <= j < crate::categories::c09_warp_level::multi_warp_coordination_steps().len()
                ==> crate::walk::straight(
                #[trigger] crate::categories::c09_warp_level::multi_warp_coordination_steps()[j],
            ),
{
    let part1 = crate::script::rounds(
        3,
        |k: int| crate::categories::c09_warp_level::multi_warp_coordination_sizes_round(k as u64),
    );
    let round1 = |k: int| crate::categories::c09_warp_level::multi_warp_coordination_sizes_round(
        k as u64,
    );
    crate::walk::law_straight_rounds_are_straight(3, round1);
    let part2 = crate::categories::c09_warp_level::multi_warp_coordination_end_steps();
    let whole1 = part1;
    let whole2 = whole1 + part2;
    crate::walk::law_straight_scripts_make_a_straight_one(whole1, part2);
    assert(crate::categories::c09_warp_level::multi_warp_coordination_steps() == whole2);
}

/// The test of several warps passes exactly when, for each size, a sort leaves all rows, with the
/// keys each at its place and the values following them, and a filter leaves as many rows as its
/// mask marks.
pub proof fn law_coordination_passes_exactly_when_sorted_and_filtered(answers: Seq<Answer>)
    requires
        coordination_shaped(answers),
    ensures
        crate::machine::run_of(
            crate::script::plan(
                "test_multi_warp_coordination",
                crate::categories::c09_warp_level::multi_warp_coordination_steps(),
            ),
            answers,
        ).progress == Progress::Over(Ending::Passed) <==> {
            &&& forall|k: int|
                0 <= k < 3 ==> #[trigger] coordination_sizes(k, answers, 8 * k)
            &&& coordination_end(answers)
        },
{
    let plan = crate::script::plan(
        "test_multi_warp_coordination",
        crate::categories::c09_warp_level::multi_warp_coordination_steps(),
    );
    let blank = Contents::blank(plan.texts);
    let part1 = crate::script::rounds(
        3,
        |k: int| crate::categories::c09_warp_level::multi_warp_coordination_sizes_round(k as u64),
    );
    let part2 = crate::categories::c09_warp_level::multi_warp_coordination_end_steps();
    let whole1 = part1;
    let whole2 = whole1 + part2;
    assert(plan.steps == whole2);
    lemma_coordination_sizes_rounds(blank, answers);
    crate::walk::law_walks_over_two_scripts_compose(whole1, part2, blank, answers, 0);
    match crate::walk::walked(whole1, 0, whole1.len() as int, blank, answers, 0) {
        Some((after, _)) => {
            lemma_coordination_end(after, answers);
        },
        None => {},
    }
    lemma_coordination_straight();
    crate::walk::law_passes_exactly_when_every_step_goes_through(plan, answers);
}

} // verus!
