//! The laws of the tests of hundreds of operations in a row.

use vstd::prelude::*;
use crate::categories::c07_local_memory::SMALL_SIZES;
use crate::expr::{
    and, ix, less_or_zero, lt, modulo, num, or, over, plus, reg, same_as, times,
};
use crate::machine::{Answer, Ending, Progress};
use crate::memory::Contents;
use crate::script::COUNT;

verus! {

/// The sizes of the test of small columns.
proof fn lemma_small_size(k: int)
    requires
        0 <= k < 250,
    ensures
        ((k as u64) % 5) as int == k % 5,
        64 <= SMALL_SIZES@[k % 5] <= 1024,
{
}

/// The mask of the first half of `n` rows.
pub open spec fn first_half(n: u64) -> Seq<u64> {
    Seq::new(n as nat, |i: int| crate::expr::truth(i < n / 2))
}

/// The half of a number.
proof fn lemma_half(n: u64, contents: Contents, i: u64)
    ensures
        crate::expr::value_of(over(num(n), num(2)), contents, i) == Some((n / 2) as u64),
{
    reveal_with_fuel(crate::expr::value_of, 2);
}

/// The words of [`first_half`].
proof fn lemma_first_half(n: u64, contents: Contents)
    ensures
        forall|i: int|
            0 <= i < n ==> #[trigger] crate::expr::value_of(
                lt(ix(), over(num(n), num(2))),
                contents,
                i as u64,
            ) == Some(first_half(n)[i]),
{
    assert forall|i: int| 0 <= i < n implies #[trigger] crate::expr::value_of(
        lt(ix(), over(num(n), num(2))),
        contents,
        i as u64,
    ) == Some(first_half(n)[i]) by {
        lemma_half(n, contents, i as u64);
        assert(crate::expr::value_of(ix(), contents, i as u64) == Some(i as u64));
    }
}

/// Whether the device is waited for after round `k` of the test of small columns.
pub open spec fn waits(k: int) -> bool {
    k % 5 == 4 && (k / 5) % 10 == 9
}

/// The condition of [`waits`].
proof fn lemma_waits(k: int, contents: Contents)
    requires
        0 <= k < 250,
    ensures
        crate::expr::value_of(
            and(
                same_as(modulo(num(k as u64), num(5)), num(4)),
                same_as(modulo(num((k as u64) / 5), num(10)), num(9)),
            ),
            contents,
            0,
        ) == Some(crate::expr::truth(waits(k))),
{
    assert(crate::expr::value_of(
        same_as(modulo(num(k as u64), num(5)), num(4)),
        contents,
        0,
    ) == Some(crate::expr::truth(k % 5 == 4))) by {
        reveal_with_fuel(crate::expr::value_of, 3);
    }
    assert(crate::expr::value_of(
        same_as(modulo(num((k as u64) / 5), num(10)), num(9)),
        contents,
        0,
    ) == Some(crate::expr::truth((k / 5) % 10 == 9))) by {
        reveal_with_fuel(crate::expr::value_of, 3);
    }
}

/// The keys of round `k` of the sorts.
pub open spec fn stressed(k: int) -> Seq<u64> {
    Seq::new(10000, |i: int| ((i * (k + 1) * 1103515245 + 12345) % 10000) as u64)
}

/// One of the words of [`stressed`].
proof fn lemma_stressed_at(k: int, contents: Contents, i: u64)
    requires
        0 <= k < 200,
        i < 10000,
    ensures
        crate::expr::value_of(
            modulo(
                plus(
                    times(times(ix(), plus(num(k as u64), num(1))), num(1103515245)),
                    num(12345),
                ),
                num(10000),
            ),
            contents,
            i,
        ) == Some(stressed(k)[i as int]),
{
    assert(0 <= i * (k + 1) <= 10000 * 200) by (nonlinear_arith)
        requires
            0 <= k < 200,
            0 <= i < 10000,
    ;
    let factor = plus(num(k as u64), num(1));
    assert(crate::expr::value_of(num(k as u64), contents, i) == Some(k as u64));
    assert(crate::expr::value_of(num(1), contents, i) == Some(1u64));
    assert(crate::expr::value_of(factor, contents, i) == Some((k + 1) as u64));
    assert(crate::expr::value_of(ix(), contents, i) == Some(i));
    let product = times(ix(), factor);
    assert(crate::expr::value_of(product, contents, i) == Some((i * (k + 1)) as u64));
    assert(crate::expr::value_of(num(1103515245), contents, i) == Some(1103515245u64));
    let spread = times(product, num(1103515245));
    assert(crate::expr::value_of(spread, contents, i) == Some(
        (i * (k + 1) * 1103515245) as u64,
    ));
    assert(crate::expr::value_of(num(12345), contents, i) == Some(12345u64));
    assert(crate::expr::value_of(plus(spread, num(12345)), contents, i) == Some(
        (i * (k + 1) * 1103515245 + 12345) as u64,
    ));
    assert(crate::expr::value_of(num(10000), contents, i) == Some(10000u64));
}

/// The words of [`stressed`].
proof fn lemma_stressed(k: int, contents: Contents)
    requires
        0 <= k < 200,
    ensures
        forall|i: int|
            0 <= i < 10000 ==> #[trigger] crate::expr::value_of(
                modulo(
                    plus(
                        times(times(ix(), plus(num(k as u64), num(1))), num(1103515245)),
                        num(12345),
                    ),
                    num(10000),
                ),
                contents,
                i as u64,
            ) == Some(stressed(k)[i]),
{
    assert forall|i: int| 0 <= i < 10000 implies #[trigger] crate::expr::value_of(
        modulo(
            plus(times(times(ix(), plus(num(k as u64), num(1))), num(1103515245)), num(12345)),
            num(10000),
        ),
        contents,
        i as u64,
    ) == Some(stressed(k)[i]) by {
        lemma_stressed_at(k, contents, i as u64);
    }
}

/// The share of the rows, in percent, that round `k` of the filters keeps.
pub open spec fn share(k: int) -> int {
    (k % 10 + 1) * 10
}

/// The number of [`share`].
proof fn lemma_share(k: int, contents: Contents)
    requires
        0 <= k < 200,
    ensures
        crate::expr::value_of(
            times(plus(modulo(num(k as u64), num(10)), num(1)), num(10)),
            contents,
            0,
        ) == Some(share(k) as u64),
{
    reveal_with_fuel(crate::expr::value_of, 4);
}

/// The mask of the rows that round `k` of the filters keeps.
pub open spec fn shares(k: int) -> Seq<u64> {
    Seq::new(10000, |i: int| crate::expr::truth(i * 100 / 10000 < share(k)))
}

/// One of the words of [`shares`].
proof fn lemma_shares_at(k: int, contents: Contents, i: u64)
    requires
        0 <= k < 200,
        contents.full(),
        contents.registers[0] == share(k),
        i < 10000,
    ensures
        crate::expr::value_of(
            lt(over(times(ix(), num(100)), num(10000)), reg(0)),
            contents,
            i,
        ) == Some(shares(k)[i as int]),
{
    assert(crate::expr::value_of(reg(0), contents, i) == Some(share(k) as u64));
    assert(crate::expr::value_of(over(times(ix(), num(100)), num(10000)), contents, i) == Some(
        (i * 100 / 10000) as u64,
    )) by {
        reveal_with_fuel(crate::expr::value_of, 3);
    }
}

/// The words of [`shares`].
proof fn lemma_shares(k: int, contents: Contents)
    requires
        0 <= k < 200,
        contents.full(),
        contents.registers[0] == share(k),
    ensures
        forall|i: int|
            0 <= i < 10000 ==> #[trigger] crate::expr::value_of(
                lt(over(times(ix(), num(100)), num(10000)), reg(0)),
                contents,
                i as u64,
            ) == Some(shares(k)[i]),
{
    assert forall|i: int| 0 <= i < 10000 implies #[trigger] crate::expr::value_of(
        lt(over(times(ix(), num(100)), num(10000)), reg(0)),
        contents,
        i as u64,
    ) == Some(shares(k)[i]) by {
        lemma_shares_at(k, contents, i as u64);
    }
}

/// How many rows a share of the rows is.
proof fn lemma_share_of_rows(k: int, contents: Contents)
    requires
        contents.full(),
        contents.registers[0] == share(k),
    ensures
        crate::expr::value_of(over(times(num(10000), reg(0)), num(100)), contents, 0) == Some(
            (share(k) * 100) as u64,
        ),
{
    assert(crate::expr::value_of(reg(0), contents, 0) == Some(share(k) as u64));
    assert(crate::expr::value_of(num(10000), contents, 0) == Some(10000u64));
    assert(crate::expr::value_of(num(100), contents, 0) == Some(100u64));
    assert(crate::expr::value_of(times(num(10000), reg(0)), contents, 0) == Some(
        (10000 * share(k)) as u64,
    ));
}

/// Whether a number of rows is near the expected one.
pub open spec fn near(rows: int, expected: int) -> bool {
    expected - 500 <= rows <= expected + 501
}

/// Looking for a number of rows that is not near the expected one.
proof fn lemma_near(contents: Contents, rows: u64, expected: u64)
    requires
        contents.full(),
        contents.registers[1] == expected,
        contents.registers[2] == rows,
        expected <= 10000,
    ensures
        crate::expr::value_of(
            or(
                lt(reg(2), less_or_zero(reg(1), num(500))),
                lt(plus(plus(reg(1), num(500)), num(1)), reg(2)),
            ),
            contents,
            0,
        ) == Some(crate::expr::truth(!near(rows as int, expected as int))),
{
    assert(crate::expr::value_of(reg(1), contents, 0) == Some(expected));
    assert(crate::expr::value_of(reg(2), contents, 0) == Some(rows));
    assert(crate::expr::value_of(num(500), contents, 0) == Some(500u64));
    assert(crate::expr::value_of(num(1), contents, 0) == Some(1u64));
    let low = less_or_zero(reg(1), num(500));
    assert(crate::expr::value_of(low, contents, 0) == Some(
        (if expected < 500 {
            0
        } else {
            expected - 500
        }) as u64,
    ));
    let high = plus(plus(reg(1), num(500)), num(1));
    assert(crate::expr::value_of(plus(reg(1), num(500)), contents, 0) == Some(
        (expected + 500) as u64,
    ));
    assert(crate::expr::value_of(high, contents, 0) == Some((expected + 501) as u64));
    assert(crate::expr::value_of(lt(reg(2), low), contents, 0) == Some(
        crate::expr::truth(rows < expected - 500),
    ));
    assert(crate::expr::value_of(lt(high, reg(2)), contents, 0) == Some(
        crate::expr::truth(expected + 501 < rows),
    ));
}

/// Whether the answers to the downloads of the test are columns or refusals.
pub open spec fn small_shaped(answers: Seq<Answer>) -> bool {
    &&& answers.len() >= 1506
    &&& forall|k: int|
        #![trigger small_rounds_start(k)]
        0 <= k < 250 ==> answers[small_rounds_start(k) + 2] is Count
    &&& forall|k: int|
        #![trigger small_rounds_start(k)]
        0 <= k < 250 ==> answers[small_rounds_start(k) + 4] is Count
}

/// What the device has to answer in round `k` of the part `rounds`, from answer `used` on.
pub open spec fn small_rounds(k: int, answers: Seq<Answer>, used: int) -> bool {
    &&& !(answers[used] is Failed)
    &&& !(answers[used + 1] is Failed)
    &&& answers[used + 2]->Count_0 == SMALL_SIZES@[k % 5]
    &&& !(answers[used + 3] is Failed)
    &&& answers[used + 4]->Count_0 == SMALL_SIZES@[k % 5] / 2
    &&& waits(k) ==> !(answers[used + 6] is Failed)
}

/// What the device has to answer in the part `end`.
pub open spec fn small_end(answers: Seq<Answer>) -> bool {
    !(answers[1505] is Failed)
}

/// Where round `k` of the part `rounds` starts among the answers.
pub open spec fn small_rounds_start(k: int) -> int {
    6 * k + k / 50
}

/// One round of the part `rounds`.
proof fn lemma_small_rounds(k: int, contents: Contents, answers: Seq<Answer>, used: int)
    requires
        0 <= k < 250,
        used == small_rounds_start(k),
        contents.full(),
        small_shaped(answers),
    ensures
        match crate::walk::walked(
            crate::categories::c07_local_memory::local_memory_stress_rounds_round(k as u64),
            0,
            11,
            contents,
            answers,
            used,
        ) {
            Some((after, next)) => {
                &&& small_rounds(k, answers, used)
                &&& after.full()
                &&& next == small_rounds_start(k + 1)
            },
            None => !small_rounds(k, answers, used),
        },
        crate::categories::c07_local_memory::local_memory_stress_rounds_round(k as u64).len() == 11,
{
    let steps = crate::categories::c07_local_memory::local_memory_stress_rounds_round(k as u64);
    if waits(k) {
        lemma_small_size(k);
        crate::laws::words::lemma_falling(SMALL_SIZES@[k % 5], contents);
        let words1 = crate::laws::words::falling(SMALL_SIZES@[k % 5]);
        crate::laws::steps::lemma_fill(steps, 0, 11, contents, answers, used, words1);
        let next1 = contents.with_column(0, words1);
        crate::laws::steps::lemma_command(steps, 1, 11, next1, answers, used);
        crate::laws::steps::lemma_command(steps, 2, 11, next1, answers, used + 1);
        crate::laws::steps::lemma_number(
            steps,
            3,
            11,
            next1,
            answers,
            used + 2,
            answers[used + 2]->Count_0,
        );
        let next2 = next1.with_register(0, answers[used + 2]->Count_0);
        crate::laws::steps::lemma_register(next2, 0, num(SMALL_SIZES@[k % 5]), SMALL_SIZES@[k % 5]);
        crate::laws::steps::lemma_check(
            steps,
            4,
            11,
            next2,
            answers,
            used + 3,
            !(answers[used + 2]->Count_0 == SMALL_SIZES@[k % 5]),
        );
        lemma_first_half(SMALL_SIZES@[k % 5], next2);
        let words3 = first_half(SMALL_SIZES@[k % 5]);
        crate::laws::steps::lemma_fill(steps, 5, 11, next2, answers, used + 3, words3);
        let next3 = next2.with_column(1, words3);
        crate::laws::steps::lemma_command(steps, 6, 11, next3, answers, used + 3);
        crate::laws::steps::lemma_number(
            steps,
            7,
            11,
            next3,
            answers,
            used + 4,
            answers[used + 4]->Count_0,
        );
        let next4 = next3.with_register(0, answers[used + 4]->Count_0);
        lemma_half(SMALL_SIZES@[k % 5], next4, 0);
        crate::laws::steps::lemma_register(
            next4,
            0,
            over(num(SMALL_SIZES@[k % 5]), num(2)),
            (SMALL_SIZES@[k % 5] / 2) as u64,
        );
        crate::laws::steps::lemma_check(
            steps,
            8,
            11,
            next4,
            answers,
            used + 5,
            !(answers[used + 4]->Count_0 == SMALL_SIZES@[k % 5] / 2),
        );
        crate::laws::steps::lemma_command(steps, 9, 11, next4, answers, used + 5);
        lemma_waits(k, next4);
        crate::laws::steps::lemma_command(steps, 10, 11, next4, answers, used + 6);
        crate::laws::steps::lemma_end(steps, 11, next4, answers, used + 7);
    } else {
        lemma_small_size(k);
        crate::laws::words::lemma_falling(SMALL_SIZES@[k % 5], contents);
        let words1 = crate::laws::words::falling(SMALL_SIZES@[k % 5]);
        crate::laws::steps::lemma_fill(steps, 0, 11, contents, answers, used, words1);
        let next1 = contents.with_column(0, words1);
        crate::laws::steps::lemma_command(steps, 1, 11, next1, answers, used);
        crate::laws::steps::lemma_command(steps, 2, 11, next1, answers, used + 1);
        crate::laws::steps::lemma_number(
            steps,
            3,
            11,
            next1,
            answers,
            used + 2,
            answers[used + 2]->Count_0,
        );
        let next2 = next1.with_register(0, answers[used + 2]->Count_0);
        crate::laws::steps::lemma_register(next2, 0, num(SMALL_SIZES@[k % 5]), SMALL_SIZES@[k % 5]);
        crate::laws::steps::lemma_check(
            steps,
            4,
            11,
            next2,
            answers,
            used + 3,
            !(answers[used + 2]->Count_0 == SMALL_SIZES@[k % 5]),
        );
        lemma_first_half(SMALL_SIZES@[k % 5], next2);
        let words3 = first_half(SMALL_SIZES@[k % 5]);
        crate::laws::steps::lemma_fill(steps, 5, 11, next2, answers, used + 3, words3);
        let next3 = next2.with_column(1, words3);
        crate::laws::steps::lemma_command(steps, 6, 11, next3, answers, used + 3);
        crate::laws::steps::lemma_number(
            steps,
            7,
            11,
            next3,
            answers,
            used + 4,
            answers[used + 4]->Count_0,
        );
        let next4 = next3.with_register(0, answers[used + 4]->Count_0);
        lemma_half(SMALL_SIZES@[k % 5], next4, 0);
        crate::laws::steps::lemma_register(
            next4,
            0,
            over(num(SMALL_SIZES@[k % 5]), num(2)),
            (SMALL_SIZES@[k % 5] / 2) as u64,
        );
        crate::laws::steps::lemma_check(
            steps,
            8,
            11,
            next4,
            answers,
            used + 5,
            !(answers[used + 4]->Count_0 == SMALL_SIZES@[k % 5] / 2),
        );
        crate::laws::steps::lemma_command(steps, 9, 11, next4, answers, used + 5);
        lemma_waits(k, next4);
        crate::laws::steps::lemma_not_taken(steps, 10, 11, next4, answers, used + 6);
        crate::laws::steps::lemma_end(steps, 11, next4, answers, used + 6);
    }
}

/// All rounds of the part `rounds`.
proof fn lemma_small_rounds_rounds(contents: Contents, answers: Seq<Answer>)
    requires
        contents.full(),
        small_shaped(answers),
    ensures
        ({
            let steps = crate::script::rounds(
                250,
                |k: int| crate::categories::c07_local_memory::local_memory_stress_rounds_round(
                    k as u64,
                ),
            );
            match crate::walk::walked(steps, 0, steps.len() as int, contents, answers, 0) {
                Some((after, next)) => {
                    &&& forall|k: int|
                        0 <= k < 250 ==> #[trigger] small_rounds(k, answers, small_rounds_start(k))
                    &&& after.full()
                    &&& next == 1505
                },
                None => !(forall|k: int|
                    0 <= k < 250 ==> #[trigger] small_rounds(k, answers, small_rounds_start(k))),
            }
        }),
{
    let round = |k: int| crate::categories::c07_local_memory::local_memory_stress_rounds_round(
        k as u64,
    );
    let start = |k: int| small_rounds_start(k);
    let good = |k: int| small_rounds(k, answers, start(k));
    let kept = |contents: Contents| contents.full();
    assert forall|k: int, contents: Contents|
        #![trigger good(k), kept(contents)]
        0 <= k < 250 && kept(contents) implies if good(k) {
        crate::walk::goes_to(round(k), contents, answers, start(k), start(k + 1), kept)
    } else {
        crate::walk::walked(round(k), 0, round(k).len() as int, contents, answers, start(k)) is None
    } by {
        lemma_small_rounds(k, contents, answers, start(k));
    }
    crate::walk::law_rounds_keep_what_each_keeps(250, round, start, good, kept, contents, answers);
    if forall|k: int| 0 <= k < 250 ==> #[trigger] good(k) {
        assert forall|k: int| 0 <= k < 250 implies #[trigger] small_rounds(
            k,
            answers,
            small_rounds_start(k),
        ) by {
            assert(good(k));
        }
    } else {
        let k = choose|k: int| 0 <= k < 250 && !(#[trigger] good(k));
        assert(!small_rounds(k, answers, small_rounds_start(k)));
    }
}

/// The part `end`.
proof fn lemma_small_end(contents: Contents, answers: Seq<Answer>)
    requires
        contents.full(),
        small_shaped(answers),
    ensures
        match crate::walk::walked(
            crate::categories::c07_local_memory::local_memory_stress_end_steps(),
            0,
            1,
            contents,
            answers,
            1505,
        ) {
            Some((after, next)) => {
                &&& small_end(answers)
                &&& after.full()
                &&& next == 1506
            },
            None => !small_end(answers),
        },
        crate::categories::c07_local_memory::local_memory_stress_end_steps().len() == 1,
{
    let steps = crate::categories::c07_local_memory::local_memory_stress_end_steps();
    crate::laws::steps::lemma_command(steps, 0, 1, contents, answers, 1505);
    crate::laws::steps::lemma_end(steps, 1, contents, answers, 1506);
}

/// The test has no jumps.
proof fn lemma_small_straight()
    ensures
        forall|j: int|
            0 <= j < crate::categories::c07_local_memory::local_memory_stress_steps().len()
                ==> crate::walk::straight(
                #[trigger] crate::categories::c07_local_memory::local_memory_stress_steps()[j],
            ),
{
    let part1 = crate::script::rounds(
        250,
        |k: int| crate::categories::c07_local_memory::local_memory_stress_rounds_round(k as u64),
    );
    let round1 = |k: int| crate::categories::c07_local_memory::local_memory_stress_rounds_round(
        k as u64,
    );
    crate::walk::law_straight_rounds_are_straight(250, round1);
    let part2 = crate::categories::c07_local_memory::local_memory_stress_end_steps();
    let whole1 = part1;
    let whole2 = whole1 + part2;
    crate::walk::law_straight_scripts_make_a_straight_one(whole1, part2);
    assert(crate::categories::c07_local_memory::local_memory_stress_steps() == whole2);
}

/// The test of hundreds of small columns passes exactly when each sort leaves all rows, each filter
/// leaves the first half of them, and the device is found at rest after every fiftieth round.
pub proof fn law_small_columns_pass_exactly_when_every_round_does(answers: Seq<Answer>)
    requires
        small_shaped(answers),
    ensures
        crate::machine::run_of(
            crate::script::plan(
                "test_local_memory_stress",
                crate::categories::c07_local_memory::local_memory_stress_steps(),
            ),
            answers,
        ).progress == Progress::Over(Ending::Passed) <==> {
            &&& forall|k: int|
                0 <= k < 250 ==> #[trigger] small_rounds(k, answers, small_rounds_start(k))
            &&& small_end(answers)
        },
{
    let plan = crate::script::plan(
        "test_local_memory_stress",
        crate::categories::c07_local_memory::local_memory_stress_steps(),
    );
    let blank = Contents::blank(plan.texts);
    let part1 = crate::script::rounds(
        250,
        |k: int| crate::categories::c07_local_memory::local_memory_stress_rounds_round(k as u64),
    );
    let part2 = crate::categories::c07_local_memory::local_memory_stress_end_steps();
    let whole1 = part1;
    let whole2 = whole1 + part2;
    assert(plan.steps == whole2);
    lemma_small_rounds_rounds(blank, answers);
    crate::walk::law_walks_over_two_scripts_compose(whole1, part2, blank, answers, 0);
    match crate::walk::walked(whole1, 0, whole1.len() as int, blank, answers, 0) {
        Some((after, _)) => {
            lemma_small_end(after, answers);
        },
        None => {},
    }
    lemma_small_straight();
    crate::walk::law_passes_exactly_when_every_step_goes_through(plan, answers);
}

/// Whether the answers to the downloads of the test are columns or refusals.
pub open spec fn stress_shaped(answers: Seq<Answer>) -> bool {
    &&& answers.len() >= 1447
    &&& forall|k: int|
        #![trigger stress_sorts_start(k)]
        0 <= k < 200 && k % 20 == 0 ==> crate::laws::steps::column_or_refusal(
            answers[stress_sorts_start(k) + 2],
        )
    &&& forall|k: int|
        #![trigger stress_filters_start(k)]
        0 <= k < 200 && k % 20 == 0 ==> answers[stress_filters_start(k) + 1] is Count
}

/// What the device has to answer in round `k` of the part `sorts`, from answer `used` on.
pub open spec fn stress_sorts(k: int, answers: Seq<Answer>, used: int) -> bool {
    &&& !(answers[used] is Failed)
    &&& !(answers[used + 1] is Failed)
    &&& k % 20 == 0 ==> {
        &&& answers[used + 2] is Words
        &&& crate::laws::steps::rises(answers[used + 2]->Words_0)
        &&& !(answers[used + 3] is Failed)
    }
}

/// What the device has to answer in the part `filter_source`.
pub open spec fn stress_filter_source(answers: Seq<Answer>) -> bool {
    !(answers[620] is Failed)
}

/// What the device has to answer in round `k` of the part `filters`, from answer `used` on.
pub open spec fn stress_filters(k: int, answers: Seq<Answer>, used: int) -> bool {
    &&& !(answers[used] is Failed)
    &&& k % 20 == 0 ==> {
        &&& near(answers[used + 1]->Count_0 as int, share(k) * 100)
        &&& !(answers[used + 2] is Failed)
    }
}

/// What the device has to answer in round `k` of the part `dedups`, from answer `used` on.
pub open spec fn stress_dedups(k: int, answers: Seq<Answer>, used: int) -> bool {
    &&& !(answers[used] is Failed)
    &&& !(answers[used + 1] is Failed)
    &&& answers[used + 2] == Answer::Count(100)
    &&& k % 20 == 0 ==> !(answers[used + 3] is Failed)
}

/// What the device has to answer in the part `end`.
pub open spec fn stress_end(answers: Seq<Answer>) -> bool {
    !(answers[1446] is Failed)
}

/// Where round `k` of the part `sorts` starts among the answers.
pub open spec fn stress_sorts_start(k: int) -> int {
    3 * k + 2 * ((k + 19) / 20)
}

/// One round of the part `sorts`.
proof fn lemma_stress_sorts(k: int, contents: Contents, answers: Seq<Answer>, used: int)
    requires
        0 <= k < 200,
        used == stress_sorts_start(k),
        contents.full(),
        stress_shaped(answers),
    ensures
        match crate::walk::walked(
            crate::categories::c21_hardware::stress_operations_sorts_round(k as u64),
            0,
            7,
            contents,
            answers,
            used,
        ) {
            Some((after, next)) => {
                &&& stress_sorts(k, answers, used)
                &&& after.full()
                &&& next == stress_sorts_start(k + 1)
            },
            None => !stress_sorts(k, answers, used),
        },
        crate::categories::c21_hardware::stress_operations_sorts_round(k as u64).len() == 7,
{
    let steps = crate::categories::c21_hardware::stress_operations_sorts_round(k as u64);
    if k % 20 == 0 {
        let first = stress_sorts_start(k);
        lemma_stressed(k, contents);
        let words1 = stressed(k);
        crate::laws::steps::lemma_fill(steps, 0, 7, contents, answers, used, words1);
        let next1 = contents.with_column(0, words1);
        crate::laws::steps::lemma_command(steps, 1, 7, next1, answers, used);
        crate::laws::steps::lemma_command(steps, 2, 7, next1, answers, used + 1);
        crate::laws::samples::lemma_looked_at(k, 20, next1);
        crate::laws::steps::lemma_download(steps, 3, 7, next1, answers, used + 2);
        if answers[used + 2] is Words {
            let next2 = next1.with_column(1, answers[used + 2]->Words_0);
            crate::laws::samples::lemma_looked_at(k, 20, next2);
            crate::laws::steps::lemma_scan_order(steps, 4, 7, next2, answers, used + 3, 1);
            crate::laws::samples::lemma_looked_at(k, 20, next2);
            crate::laws::steps::lemma_command(steps, 5, 7, next2, answers, used + 3);
            crate::laws::steps::lemma_command(steps, 6, 7, next2, answers, used + 4);
            crate::laws::steps::lemma_end(steps, 7, next2, answers, used + 5);
        }
    } else {
        lemma_stressed(k, contents);
        let words1 = stressed(k);
        crate::laws::steps::lemma_fill(steps, 0, 7, contents, answers, used, words1);
        let next1 = contents.with_column(0, words1);
        crate::laws::steps::lemma_command(steps, 1, 7, next1, answers, used);
        crate::laws::steps::lemma_command(steps, 2, 7, next1, answers, used + 1);
        crate::laws::samples::lemma_looked_at(k, 20, next1);
        crate::laws::steps::lemma_not_taken(steps, 3, 7, next1, answers, used + 2);
        crate::laws::samples::lemma_looked_at(k, 20, next1);
        crate::laws::steps::lemma_not_taken(steps, 4, 7, next1, answers, used + 2);
        crate::laws::samples::lemma_looked_at(k, 20, next1);
        crate::laws::steps::lemma_not_taken(steps, 5, 7, next1, answers, used + 2);
        crate::laws::steps::lemma_command(steps, 6, 7, next1, answers, used + 2);
        crate::laws::steps::lemma_end(steps, 7, next1, answers, used + 3);
    }
}

/// All rounds of the part `sorts`.
proof fn lemma_stress_sorts_rounds(contents: Contents, answers: Seq<Answer>)
    requires
        contents.full(),
        stress_shaped(answers),
    ensures
        ({
            let steps = crate::script::rounds(
                200,
                |k: int| crate::categories::c21_hardware::stress_operations_sorts_round(k as u64),
            );
            match crate::walk::walked(steps, 0, steps.len() as int, contents, answers, 0) {
                Some((after, next)) => {
                    &&& forall|k: int|
                        0 <= k < 200 ==> #[trigger] stress_sorts(k, answers, stress_sorts_start(k))
                    &&& after.full()
                    &&& next == 620
                },
                None => !(forall|k: int|
                    0 <= k < 200 ==> #[trigger] stress_sorts(k, answers, stress_sorts_start(k))),
            }
        }),
{
    let round = |k: int| crate::categories::c21_hardware::stress_operations_sorts_round(k as u64);
    let start = |k: int| stress_sorts_start(k);
    let good = |k: int| stress_sorts(k, answers, start(k));
    let kept = |contents: Contents| contents.full();
    assert forall|k: int, contents: Contents|
        #![trigger good(k), kept(contents)]
        0 <= k < 200 && kept(contents) implies if good(k) {
        crate::walk::goes_to(round(k), contents, answers, start(k), start(k + 1), kept)
    } else {
        crate::walk::walked(round(k), 0, round(k).len() as int, contents, answers, start(k)) is None
    } by {
        lemma_stress_sorts(k, contents, answers, start(k));
    }
    crate::walk::law_rounds_keep_what_each_keeps(200, round, start, good, kept, contents, answers);
    if forall|k: int| 0 <= k < 200 ==> #[trigger] good(k) {
        assert forall|k: int| 0 <= k < 200 implies #[trigger] stress_sorts(
            k,
            answers,
            stress_sorts_start(k),
        ) by {
            assert(good(k));
        }
    } else {
        let k = choose|k: int| 0 <= k < 200 && !(#[trigger] good(k));
        assert(!stress_sorts(k, answers, stress_sorts_start(k)));
    }
}

/// The part `filter_source`.
proof fn lemma_stress_filter_source(contents: Contents, answers: Seq<Answer>)
    requires
        contents.full(),
        stress_shaped(answers),
    ensures
        match crate::walk::walked(
            crate::categories::c21_hardware::stress_operations_filter_source_steps(),
            0,
            2,
            contents,
            answers,
            620,
        ) {
            Some((after, next)) => {
                &&& stress_filter_source(answers)
                &&& after.full()
                &&& next == 621
            },
            None => !stress_filter_source(answers),
        },
        crate::categories::c21_hardware::stress_operations_filter_source_steps().len() == 2,
{
    let steps = crate::categories::c21_hardware::stress_operations_filter_source_steps();
    crate::laws::words::lemma_below(10000, contents);
    let words1 = crate::laws::words::below(10000);
    crate::laws::steps::lemma_fill(steps, 0, 2, contents, answers, 620, words1);
    let next1 = contents.with_column(0, words1);
    crate::laws::steps::lemma_command(steps, 1, 2, next1, answers, 620);
    crate::laws::steps::lemma_end(steps, 2, next1, answers, 621);
}

/// Where round `k` of the part `filters` starts among the answers.
pub open spec fn stress_filters_start(k: int) -> int {
    621 + 2 * k + 2 * ((k + 19) / 20)
}

/// One round of the part `filters`.
proof fn lemma_stress_filters(k: int, contents: Contents, answers: Seq<Answer>, used: int)
    requires
        0 <= k < 200,
        used == stress_filters_start(k),
        contents.full(),
        stress_shaped(answers),
    ensures
        match crate::walk::walked(
            crate::categories::c21_hardware::stress_operations_filters_round(k as u64),
            0,
            8,
            contents,
            answers,
            used,
        ) {
            Some((after, next)) => {
                &&& stress_filters(k, answers, used)
                &&& after.full()
                &&& next == stress_filters_start(k + 1)
            },
            None => !stress_filters(k, answers, used),
        },
        crate::categories::c21_hardware::stress_operations_filters_round(k as u64).len() == 8,
{
    let steps = crate::categories::c21_hardware::stress_operations_filters_round(k as u64);
    if k % 20 == 0 {
        lemma_share(k, contents);
        crate::laws::steps::lemma_put(steps, 0, 8, contents, answers, used, share(k) as u64);
        let next1 = contents.with_register(0, share(k) as u64);
        lemma_shares(k, next1);
        let words2 = shares(k);
        crate::laws::steps::lemma_fill(steps, 1, 8, next1, answers, used, words2);
        let next2 = next1.with_column(1, words2);
        crate::laws::steps::lemma_command(steps, 2, 8, next2, answers, used);
        crate::laws::samples::lemma_looked_at(k, 20, next2);
        lemma_share_of_rows(k, next2);
        crate::laws::steps::lemma_put(
            steps,
            3,
            8,
            next2,
            answers,
            used + 1,
            (share(k) * 100) as u64,
        );
        let next3 = next2.with_register(1, (share(k) * 100) as u64);
        crate::laws::samples::lemma_looked_at(k, 20, next3);
        crate::laws::steps::lemma_number(
            steps,
            4,
            8,
            next3,
            answers,
            used + 1,
            answers[used + 1]->Count_0,
        );
        let next4 = next3.with_register(2, answers[used + 1]->Count_0);
        crate::laws::samples::lemma_looked_at(k, 20, next4);
        lemma_near(next4, answers[used + 1]->Count_0, (share(k) * 100) as u64);
        crate::laws::steps::lemma_check(
            steps,
            5,
            8,
            next4,
            answers,
            used + 2,
            !(near(answers[used + 1]->Count_0 as int, share(k) * 100)),
        );
        crate::laws::samples::lemma_looked_at(k, 20, next4);
        crate::laws::steps::lemma_command(steps, 6, 8, next4, answers, used + 2);
        crate::laws::steps::lemma_command(steps, 7, 8, next4, answers, used + 3);
        crate::laws::steps::lemma_end(steps, 8, next4, answers, used + 4);
    } else {
        lemma_share(k, contents);
        crate::laws::steps::lemma_put(steps, 0, 8, contents, answers, used, share(k) as u64);
        let next1 = contents.with_register(0, share(k) as u64);
        lemma_shares(k, next1);
        let words2 = shares(k);
        crate::laws::steps::lemma_fill(steps, 1, 8, next1, answers, used, words2);
        let next2 = next1.with_column(1, words2);
        crate::laws::steps::lemma_command(steps, 2, 8, next2, answers, used);
        crate::laws::samples::lemma_looked_at(k, 20, next2);
        crate::laws::steps::lemma_not_taken(steps, 3, 8, next2, answers, used + 1);
        crate::laws::samples::lemma_looked_at(k, 20, next2);
        crate::laws::steps::lemma_not_taken(steps, 4, 8, next2, answers, used + 1);
        crate::laws::samples::lemma_looked_at(k, 20, next2);
        crate::laws::steps::lemma_not_taken(steps, 5, 8, next2, answers, used + 1);
        crate::laws::samples::lemma_looked_at(k, 20, next2);
        crate::laws::steps::lemma_not_taken(steps, 6, 8, next2, answers, used + 1);
        crate::laws::steps::lemma_command(steps, 7, 8, next2, answers, used + 1);
        crate::laws::steps::lemma_end(steps, 8, next2, answers, used + 2);
    }
}

/// All rounds of the part `filters`.
proof fn lemma_stress_filters_rounds(contents: Contents, answers: Seq<Answer>)
    requires
        contents.full(),
        stress_shaped(answers),
    ensures
        ({
            let steps = crate::script::rounds(
                200,
                |k: int| crate::categories::c21_hardware::stress_operations_filters_round(k as u64),
            );
            match crate::walk::walked(steps, 0, steps.len() as int, contents, answers, 621) {
                Some((after, next)) => {
                    &&& forall|k: int|
                        0 <= k < 200 ==> #[trigger] stress_filters(
                            k,
                            answers,
                            stress_filters_start(k),
                        )
                    &&& after.full()
                    &&& next == 1041
                },
                None => !(forall|k: int|
                    0 <= k < 200
                        ==> #[trigger] stress_filters(k, answers, stress_filters_start(k))),
            }
        }),
{
    let round = |k: int| crate::categories::c21_hardware::stress_operations_filters_round(k as u64);
    let start = |k: int| stress_filters_start(k);
    let good = |k: int| stress_filters(k, answers, start(k));
    let kept = |contents: Contents| contents.full();
    assert forall|k: int, contents: Contents|
        #![trigger good(k), kept(contents)]
        0 <= k < 200 && kept(contents) implies if good(k) {
        crate::walk::goes_to(round(k), contents, answers, start(k), start(k + 1), kept)
    } else {
        crate::walk::walked(round(k), 0, round(k).len() as int, contents, answers, start(k)) is None
    } by {
        lemma_stress_filters(k, contents, answers, start(k));
    }
    crate::walk::law_rounds_keep_what_each_keeps(200, round, start, good, kept, contents, answers);
    if forall|k: int| 0 <= k < 200 ==> #[trigger] good(k) {
        assert forall|k: int| 0 <= k < 200 implies #[trigger] stress_filters(
            k,
            answers,
            stress_filters_start(k),
        ) by {
            assert(good(k));
        }
    } else {
        let k = choose|k: int| 0 <= k < 200 && !(#[trigger] good(k));
        assert(!stress_filters(k, answers, stress_filters_start(k)));
    }
}

/// Where round `k` of the part `dedups` starts among the answers.
pub open spec fn stress_dedups_start(k: int) -> int {
    1041 + 4 * k + (k + 19) / 20
}

/// One round of the part `dedups`.
proof fn lemma_stress_dedups(k: int, contents: Contents, answers: Seq<Answer>, used: int)
    requires
        0 <= k < 100,
        used == stress_dedups_start(k),
        contents.full(),
        stress_shaped(answers),
    ensures
        match crate::walk::walked(
            crate::categories::c21_hardware::stress_operations_dedups_round(k as u64),
            0,
            7,
            contents,
            answers,
            used,
        ) {
            Some((after, next)) => {
                &&& stress_dedups(k, answers, used)
                &&& after.full()
                &&& next == stress_dedups_start(k + 1)
            },
            None => !stress_dedups(k, answers, used),
        },
        crate::categories::c21_hardware::stress_operations_dedups_round(k as u64).len() == 7,
{
    let steps = crate::categories::c21_hardware::stress_operations_dedups_round(k as u64);
    if k % 20 == 0 {
        crate::laws::words::lemma_cyclic(100, 10000, contents);
        let words1 = crate::laws::words::cyclic(100, 10000);
        crate::laws::steps::lemma_fill(steps, 0, 7, contents, answers, used, words1);
        let next1 = contents.with_column(2, words1);
        crate::laws::words::lemma_below(10000, next1);
        let words2 = crate::laws::words::below(10000);
        crate::laws::steps::lemma_fill(steps, 1, 7, next1, answers, used, words2);
        let next2 = next1.with_column(3, words2);
        crate::laws::steps::lemma_command(steps, 2, 7, next2, answers, used);
        crate::laws::steps::lemma_command(steps, 3, 7, next2, answers, used + 1);
        crate::laws::steps::lemma_match(steps, 4, 7, next2, answers, used + 2, 100);
        let next3 = next2.with_register(COUNT, 100);
        crate::laws::samples::lemma_looked_at(k, 20, next3);
        crate::laws::steps::lemma_command(steps, 5, 7, next3, answers, used + 3);
        crate::laws::steps::lemma_command(steps, 6, 7, next3, answers, used + 4);
        crate::laws::steps::lemma_end(steps, 7, next3, answers, used + 5);
    } else {
        crate::laws::words::lemma_cyclic(100, 10000, contents);
        let words1 = crate::laws::words::cyclic(100, 10000);
        crate::laws::steps::lemma_fill(steps, 0, 7, contents, answers, used, words1);
        let next1 = contents.with_column(2, words1);
        crate::laws::words::lemma_below(10000, next1);
        let words2 = crate::laws::words::below(10000);
        crate::laws::steps::lemma_fill(steps, 1, 7, next1, answers, used, words2);
        let next2 = next1.with_column(3, words2);
        crate::laws::steps::lemma_command(steps, 2, 7, next2, answers, used);
        crate::laws::steps::lemma_command(steps, 3, 7, next2, answers, used + 1);
        crate::laws::steps::lemma_match(steps, 4, 7, next2, answers, used + 2, 100);
        let next3 = next2.with_register(COUNT, 100);
        crate::laws::samples::lemma_looked_at(k, 20, next3);
        crate::laws::steps::lemma_not_taken(steps, 5, 7, next3, answers, used + 3);
        crate::laws::steps::lemma_command(steps, 6, 7, next3, answers, used + 3);
        crate::laws::steps::lemma_end(steps, 7, next3, answers, used + 4);
    }
}

/// All rounds of the part `dedups`.
proof fn lemma_stress_dedups_rounds(contents: Contents, answers: Seq<Answer>)
    requires
        contents.full(),
        stress_shaped(answers),
    ensures
        ({
            let steps = crate::script::rounds(
                100,
                |k: int| crate::categories::c21_hardware::stress_operations_dedups_round(k as u64),
            );
            match crate::walk::walked(steps, 0, steps.len() as int, contents, answers, 1041) {
                Some((after, next)) => {
                    &&& forall|k: int|
                        0 <= k < 100 ==> #[trigger] stress_dedups(
                            k,
                            answers,
                            stress_dedups_start(k),
                        )
                    &&& after.full()
                    &&& next == 1446
                },
                None => !(forall|k: int|
                    0 <= k < 100 ==> #[trigger] stress_dedups(k, answers, stress_dedups_start(k))),
            }
        }),
{
    let round = |k: int| crate::categories::c21_hardware::stress_operations_dedups_round(k as u64);
    let start = |k: int| stress_dedups_start(k);
    let good = |k: int| stress_dedups(k, answers, start(k));
    let kept = |contents: Contents| contents.full();
    assert forall|k: int, contents: Contents|
        #![trigger good(k), kept(contents)]
        0 <= k < 100 && kept(contents) implies if good(k) {
        crate::walk::goes_to(round(k), contents, answers, start(k), start(k + 1), kept)
    } else {
        crate::walk::walked(round(k), 0, round(k).len() as int, contents, answers, start(k)) is None
    } by {
        lemma_stress_dedups(k, contents, answers, start(k));
    }
    crate::walk::law_rounds_keep_what_each_keeps(100, round, start, good, kept, contents, answers);
    if forall|k: int| 0 <= k < 100 ==> #[trigger] good(k) {
        assert forall|k: int| 0 <= k < 100 implies #[trigger] stress_dedups(
            k,
            answers,
            stress_dedups_start(k),
        ) by {
            assert(good(k));
        }
    } else {
        let k = choose|k: int| 0 <= k < 100 && !(#[trigger] good(k));
        assert(!stress_dedups(k, answers, stress_dedups_start(k)));
    }
}

/// The part `end`.
proof fn lemma_stress_end(contents: Contents, answers: Seq<Answer>)
    requires
        contents.full(),
        stress_shaped(answers),
    ensures
        match crate::walk::walked(
            crate::categories::c21_hardware::stress_operations_end_steps(),
            0,
            1,
            contents,
            answers,
            1446,
        ) {
            Some((after, next)) => {
                &&& stress_end(answers)
                &&& after.full()
                &&& next == 1447
            },
            None => !stress_end(answers),
        },
        crate::categories::c21_hardware::stress_operations_end_steps().len() == 1,
{
    let steps = crate::categories::c21_hardware::stress_operations_end_steps();
    crate::laws::steps::lemma_command(steps, 0, 1, contents, answers, 1446);
    crate::laws::steps::lemma_end(steps, 1, contents, answers, 1447);
}

/// The test has no jumps.
proof fn lemma_stress_straight()
    ensures
        forall|j: int|
            0 <= j < crate::categories::c21_hardware::stress_operations_steps().len()
                ==> crate::walk::straight(
                #[trigger] crate::categories::c21_hardware::stress_operations_steps()[j],
            ),
{
    let part1 = crate::script::rounds(
        200,
        |k: int| crate::categories::c21_hardware::stress_operations_sorts_round(k as u64),
    );
    let round1 = |k: int| crate::categories::c21_hardware::stress_operations_sorts_round(k as u64);
    crate::walk::law_straight_rounds_are_straight(200, round1);
    let part2 = crate::categories::c21_hardware::stress_operations_filter_source_steps();
    let part3 = crate::script::rounds(
        200,
        |k: int| crate::categories::c21_hardware::stress_operations_filters_round(k as u64),
    );
    let round3 = |k: int| crate::categories::c21_hardware::stress_operations_filters_round(
        k as u64,
    );
    crate::walk::law_straight_rounds_are_straight(200, round3);
    let part4 = crate::script::rounds(
        100,
        |k: int| crate::categories::c21_hardware::stress_operations_dedups_round(k as u64),
    );
    let round4 = |k: int| crate::categories::c21_hardware::stress_operations_dedups_round(k as u64);
    crate::walk::law_straight_rounds_are_straight(100, round4);
    let part5 = crate::categories::c21_hardware::stress_operations_end_steps();
    let whole1 = part1;
    let whole2 = whole1 + part2;
    crate::walk::law_straight_scripts_make_a_straight_one(whole1, part2);
    let whole3 = whole2 + part3;
    crate::walk::law_straight_scripts_make_a_straight_one(whole2, part3);
    let whole4 = whole3 + part4;
    crate::walk::law_straight_scripts_make_a_straight_one(whole3, part4);
    let whole5 = whole4 + part5;
    crate::walk::law_straight_scripts_make_a_straight_one(whole4, part5);
    assert(crate::categories::c21_hardware::stress_operations_steps() == whole5);
}

/// The test of five hundred operations passes exactly when each sort is carried out, every
/// twentieth with the words in rising order, each filter is carried out, every twentieth with about
/// as many rows as its share of them, each removal of duplicates leaves a hundred rows, and the
/// device is found at rest after every twentieth operation.
pub proof fn law_stress_passes_exactly_when_every_round_does(answers: Seq<Answer>)
    requires
        stress_shaped(answers),
    ensures
        crate::machine::run_of(
            crate::script::plan(
                "test_stress_operations",
                crate::categories::c21_hardware::stress_operations_steps(),
            ),
            answers,
        ).progress == Progress::Over(Ending::Passed) <==> {
            &&& forall|k: int|
                0 <= k < 200 ==> #[trigger] stress_sorts(k, answers, stress_sorts_start(k))
            &&& stress_filter_source(answers)
            &&& forall|k: int|
                0 <= k < 200 ==> #[trigger] stress_filters(k, answers, stress_filters_start(k))
            &&& forall|k: int|
                0 <= k < 100 ==> #[trigger] stress_dedups(k, answers, stress_dedups_start(k))
            &&& stress_end(answers)
        },
{
    let plan = crate::script::plan(
        "test_stress_operations",
        crate::categories::c21_hardware::stress_operations_steps(),
    );
    let blank = Contents::blank(plan.texts);
    let part1 = crate::script::rounds(
        200,
        |k: int| crate::categories::c21_hardware::stress_operations_sorts_round(k as u64),
    );
    let part2 = crate::categories::c21_hardware::stress_operations_filter_source_steps();
    let part3 = crate::script::rounds(
        200,
        |k: int| crate::categories::c21_hardware::stress_operations_filters_round(k as u64),
    );
    let part4 = crate::script::rounds(
        100,
        |k: int| crate::categories::c21_hardware::stress_operations_dedups_round(k as u64),
    );
    let part5 = crate::categories::c21_hardware::stress_operations_end_steps();
    let whole1 = part1;
    let whole2 = whole1 + part2;
    let whole3 = whole2 + part3;
    let whole4 = whole3 + part4;
    let whole5 = whole4 + part5;
    assert(plan.steps == whole5);
    lemma_stress_sorts_rounds(blank, answers);
    crate::walk::law_walks_over_two_scripts_compose(whole1, part2, blank, answers, 0);
    crate::walk::law_walks_over_two_scripts_compose(whole2, part3, blank, answers, 0);
    crate::walk::law_walks_over_two_scripts_compose(whole3, part4, blank, answers, 0);
    crate::walk::law_walks_over_two_scripts_compose(whole4, part5, blank, answers, 0);
    match crate::walk::walked(whole1, 0, whole1.len() as int, blank, answers, 0) {
        Some((after, _)) => {
            lemma_stress_filter_source(after, answers);
            match crate::walk::walked(whole2, 0, whole2.len() as int, blank, answers, 0) {
                Some((after, _)) => {
                    lemma_stress_filters_rounds(after, answers);
                    match crate::walk::walked(whole3, 0, whole3.len() as int, blank, answers, 0) {
                        Some((after, _)) => {
                            lemma_stress_dedups_rounds(after, answers);
                            match crate::walk::walked(
                                whole4,
                                0,
                                whole4.len() as int,
                                blank,
                                answers,
                                0,
                            ) {
                                Some((after, _)) => {
                                    lemma_stress_end(after, answers);
                                },
                                None => {},
                            }
                        },
                        None => {},
                    }
                },
                None => {},
            }
        },
        None => {},
    }
    lemma_stress_straight();
    crate::walk::law_passes_exactly_when_every_step_goes_through(plan, answers);
}

} // verus!
