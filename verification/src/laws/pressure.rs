//! The laws of the test that fills the memory of the device.

use vstd::prelude::*;
use crate::expr::{ix, least, lt, modulo, num, over, plus, reg, same_as, times};
use crate::machine::{Answer, Ending, Progress};
use crate::memory::Contents;
use crate::script::{Plan, Step, COUNT};

verus! {

/// How many rows each buffer gets: a twentieth of the budget, in words of four bytes, and at most
/// five million.
pub open spec fn rows_for(budget: u64) -> u64 {
    if budget / 20 / 4 <= 5000000 {
        (budget / 20 / 4) as u64
    } else {
        5000000
    }
}

/// The script of the test.
pub open spec fn pressure() -> Plan {
    crate::script::plan(
        "test_memory_pressure",
        crate::categories::c21_hardware::memory_pressure_steps(),
    )
}

/// What the registers hold after `n` buffers have been allocated.
pub open spec fn standing(contents: Contents, rows: u64, n: int) -> bool {
    &&& contents.full()
    &&& contents.registers[1] == rows
    &&& contents.registers[2] == n
}

/// Whether the device allocates `n` buffers and no more: it refuses the next one, if one more is
/// asked for.
pub open spec fn allocates(answers: Seq<Answer>, n: int) -> bool {
    &&& 0 <= n <= 5
    &&& forall|k: int| 1 <= k <= n ==> !(#[trigger] answers[k] is Failed)
    &&& n < 5 ==> answers[n + 1] is Failed
}

/// The number of the first answer after the allocations.
pub open spec fn first_after(n: int) -> int {
    if n < 5 {
        n + 2
    } else {
        6
    }
}

/// Whether the device sorts a buffer, and hands out a column that rises where it is looked at.
pub open spec fn sorts_under_pressure(answers: Seq<Answer>, used: int) -> bool {
    &&& !(answers[used] is Failed)
    &&& answers[used + 1] matches Answer::Words(words)
    &&& crate::laws::steps::rises_by(words, 10000)
}

/// Whether the device filters a buffer, and leaves half of its rows, rounded up.
pub open spec fn filters_under_pressure(answers: Seq<Answer>, used: int, rows: u64) -> bool {
    &&& !(answers[used] is Failed)
    &&& answers[used + 1] == Answer::Count(((rows + 1) / 2) as u64)
}

/// Whether the device works again after its buffers have been freed.
pub open spec fn works_again(answers: Seq<Answer>, used: int) -> bool {
    &&& !(answers[used + 1] is Failed)
    &&& !(answers[used + 2] is Failed)
    &&& !(answers[used + 3] is Failed)
    &&& answers[used + 4] == Answer::Count(10000)
    &&& !(answers[used + 5] is Failed)
}

/// The first of five rounds of requests that is not asked, counted in threes.
pub open spec fn threes(k: int, n: int) -> int {
    if k < n {
        3 * k
    } else {
        3 * n
    }
}

/// How many rows there are is computed from the budget.
proof fn lemma_rows(contents: Contents, budget: u64)
    requires
        contents.full(),
        contents.registers[0] == budget,
    ensures
        crate::expr::value_of(
            least(over(over(reg(0), num(20)), num(4)), num(5000000)),
            contents,
            0,
        ) == Some(rows_for(budget)),
{
    reveal_with_fuel(crate::expr::value_of, 4);
}

/// Whether there are too few rows.
proof fn lemma_few(contents: Contents)
    requires
        contents.full(),
    ensures
        crate::expr::value_of(lt(reg(1), num(1000)), contents, 0) == Some(
            crate::expr::truth(contents.registers[1] < 1000),
        ),
{
    reveal_with_fuel(crate::expr::value_of, 2);
}

/// The first two steps.
proof fn lemma_opening(to: int, answers: Seq<Answer>, budget: u64)
    requires
        2 <= to <= 4,
        answers.len() > 0,
        answers[0] == Answer::Count(budget),
    ensures
        ({
            let steps = crate::categories::c21_hardware::memory_pressure_start_steps();
            let blank = Contents::blank(pressure().texts);
            crate::walk::walked(steps, 0, to, blank, answers, 0) == crate::walk::walked(
                steps,
                2,
                to,
                blank.with_register(0, budget).with_register(1, rows_for(budget)),
                answers,
                1,
            )
        }),
{
    let steps = crate::categories::c21_hardware::memory_pressure_start_steps();
    let blank = Contents::blank(pressure().texts);
    crate::laws::steps::lemma_number(steps, 0, to, blank, answers, 0, budget);
    let told = blank.with_register(0, budget);
    lemma_rows(told, budget);
    crate::laws::steps::lemma_put(steps, 1, to, told, answers, 1, rows_for(budget));
}

/// The test of memory pressure is given up where a buffer would get less than a thousand rows, which
/// is where the budget is below eighty thousand bytes.
pub proof fn law_pressure_is_given_up_with_a_small_budget(answers: Seq<Answer>, budget: u64)
    requires
        answers.len() > 0,
        answers[0] == Answer::Count(budget),
        budget < 80000,
    ensures
        crate::machine::run_of(pressure(), answers).progress == Progress::Over(
            Ending::Skipped("Memory budget too small for pressure test"),
        ),
{
    let plan = pressure();
    let start = crate::categories::c21_hardware::memory_pressure_start_steps();
    let blank = Contents::blank(plan.texts);
    let after = blank.with_register(0, budget).with_register(1, rows_for(budget));
    lemma_opening(2, answers, budget);
    crate::laws::steps::lemma_end(start, 2, after, answers, 1);
    let opening = start.subrange(0, 2);
    assert(plan.steps.subrange(0, 2) =~= opening);
    crate::walk::law_walks_are_local(start, opening, 0, 0, blank, answers, 0);
    crate::walk::law_walks_are_local(plan.steps, opening, 0, 0, blank, answers, 0);
    crate::walk::law_steps_are_taken_in_order(plan, 2, answers);
    lemma_few(after);
    assert(plan.steps[2] == start[2]);
    assert(crate::machine::settled(plan.steps, 2, after).progress == Progress::Over(
        Ending::Skipped("Memory budget too small for pressure test"),
    )) by {
        reveal(crate::machine::effect_of);
    }
    assert(answers =~= answers.take(1) + answers.skip(1));
    crate::walk::law_ends_are_final(plan, answers.take(1), answers.skip(1));
}

/// The steps up to the allocations.
proof fn lemma_start(answers: Seq<Answer>, budget: u64)
    requires
        answers.len() > 0,
        answers[0] == Answer::Count(budget),
        rows_for(budget) >= 1000,
    ensures
        ({
            let steps = crate::categories::c21_hardware::memory_pressure_start_steps();
            match crate::walk::walked(
                steps,
                0,
                4,
                Contents::blank(pressure().texts),
                answers,
                0,
            ) {
                Some((after, next)) => standing(after, rows_for(budget), 0) && next == 1,
                None => false,
            }
        }),
{
    let steps = crate::categories::c21_hardware::memory_pressure_start_steps();
    let blank = Contents::blank(pressure().texts);
    lemma_opening(4, answers, budget);
    let told = blank.with_register(0, budget).with_register(1, rows_for(budget));
    lemma_few(told);
    assert(crate::walk::walked(steps, 2, 4, told, answers, 1) == crate::walk::walked(
        steps,
        3,
        4,
        told,
        answers,
        1,
    )) by {
        reveal_with_fuel(crate::walk::walked, 2);
        reveal(crate::machine::effect_of);
    }
    crate::laws::steps::lemma_put(steps, 3, 4, told, answers, 1, 0);
    crate::laws::steps::lemma_end(steps, 4, told.with_register(2, 0), answers, 1);
}

/// The words of buffer `k`.
pub open spec fn buffer_words(k: int, rows: u64) -> Seq<u64> {
    Seq::new(rows as nat, |i: int| ((i + k * rows) % (rows as int)) as u64)
}

/// One of the words of [`buffer_words`].
proof fn lemma_buffer_word(k: int, rows: u64, contents: Contents, i: u64)
    requires
        0 <= k < 5,
        0 < rows <= 5000000,
        i < rows,
        contents.full(),
        contents.registers[1] == rows,
    ensures
        crate::expr::value_of(
            modulo(plus(ix(), times(num(k as u64), reg(1))), reg(1)),
            contents,
            i,
        ) == Some(buffer_words(k, rows)[i as int]),
{
    let shift = times(num(k as u64), reg(1));
    assert(0 <= k * rows <= 25000000) by (nonlinear_arith)
        requires
            0 <= k < 5,
            0 < rows <= 5000000,
    ;
    assert(crate::expr::value_of(reg(1), contents, i) == Some(rows));
    assert(crate::expr::value_of(num(k as u64), contents, i) == Some(k as u64));
    assert(crate::expr::value_of(ix(), contents, i) == Some(i));
    assert(crate::expr::value_of(shift, contents, i) == Some((k * rows) as u64));
    assert(crate::expr::value_of(plus(ix(), shift), contents, i) == Some((i + k * rows) as u64));
}

/// One allocation, up to the request.
proof fn lemma_fill_buffer(
    k: int,
    to: int,
    rows: u64,
    contents: Contents,
    answers: Seq<Answer>,
    used: int,
)
    requires
        0 <= k < 5,
        1 <= to <= 3,
        0 < rows <= 5000000,
        standing(contents, rows, k),
    ensures
        crate::walk::walked(
            crate::categories::c21_hardware::memory_pressure_allocations_round(k as u64),
            0,
            to,
            contents,
            answers,
            used,
        ) == crate::walk::walked(
            crate::categories::c21_hardware::memory_pressure_allocations_round(k as u64),
            1,
            to,
            contents.with_column(0, buffer_words(k, rows)),
            answers,
            used,
        ),
{
    let steps = crate::categories::c21_hardware::memory_pressure_allocations_round(k as u64);
    let words = buffer_words(k, rows);
    assert forall|i: int| 0 <= i < words.len() implies #[trigger] crate::expr::value_of(
        modulo(plus(ix(), times(num(k as u64), reg(1))), reg(1)),
        contents,
        i as u64,
    ) == Some(words[i]) by {
        lemma_buffer_word(k, rows, contents, i as u64);
    }
    crate::laws::steps::lemma_fill(steps, 0, to, contents, answers, used, words);
}

/// One allocation that succeeds.
proof fn lemma_allocation(
    k: int,
    rows: u64,
    contents: Contents,
    answers: Seq<Answer>,
    used: int,
)
    requires
        0 <= k < 5,
        0 < rows <= 5000000,
        standing(contents, rows, k),
        0 <= used < answers.len(),
        !(answers[used] is Failed),
    ensures
        match crate::walk::walked(
            crate::categories::c21_hardware::memory_pressure_allocations_round(k as u64),
            0,
            3,
            contents,
            answers,
            used,
        ) {
            Some((after, next)) => standing(after, rows, k + 1) && next == used + 1,
            None => false,
        },
{
    let steps = crate::categories::c21_hardware::memory_pressure_allocations_round(k as u64);
    lemma_fill_buffer(k, 3, rows, contents, answers, used);
    let filled = contents.with_column(0, buffer_words(k, rows));
    assert(crate::walk::walked(steps, 1, 3, filled, answers, used) == crate::walk::walked(
        steps,
        2,
        3,
        filled,
        answers,
        used + 1,
    )) by {
        reveal_with_fuel(crate::walk::walked, 2);
        reveal(crate::machine::effect_of);
        reveal(crate::machine::stored);
    }
    assert(crate::expr::value_of(plus(reg(2), num(1)), filled, 0) == Some((k + 1) as u64)) by {
        reveal_with_fuel(crate::expr::value_of, 2);
    }
    crate::laws::steps::lemma_put(steps, 2, 3, filled, answers, used + 1, (k + 1) as u64);
    crate::laws::steps::lemma_end(
        steps,
        3,
        filled.with_register(2, (k + 1) as u64),
        answers,
        used + 1,
    );
}

/// The first `n` allocations of the test.
spec fn allocations(n: int) -> Seq<Step> {
    crate::script::rounds(
        n,
        |i: int| crate::categories::c21_hardware::memory_pressure_allocations_round(i as u64),
    )
}

/// The first `n` allocations are 3 steps each, and stand at the front of the others.
proof fn lemma_allocations_in_front(n: int, all: int)
    requires
        0 <= n <= all,
    ensures
        allocations(n).len() == 3 * n,
        allocations(all).len() == 3 * all,
        allocations(all).subrange(0, 3 * n) == allocations(n),
    decreases all,
{
    if all == 0 {
        assert(allocations(all).subrange(0, 0) =~= allocations(n));
    } else if n < all {
        lemma_allocations_in_front(n, all - 1);
        assert(allocations(all).subrange(0, 3 * n) =~= allocations(all - 1).subrange(0, 3 * n));
    } else {
        lemma_allocations_in_front(n - 1, all - 1);
        assert(allocations(all).subrange(0, 3 * n) =~= allocations(n));
    }
}

/// The first `n` allocations, where they succeed.
proof fn lemma_allocations(
    n: int,
    rows: u64,
    contents: Contents,
    answers: Seq<Answer>,
)
    requires
        0 <= n <= 5,
        0 < rows <= 5000000,
        standing(contents, rows, 0),
        n < answers.len(),
        forall|k: int| 1 <= k <= n ==> !(#[trigger] answers[k] is Failed),
    ensures
        match crate::walk::walked(allocations(n), 0, 3 * n, contents, answers, 1) {
            Some((after, next)) => standing(after, rows, n) && next == n + 1,
            None => false,
        },
    decreases n,
{
    lemma_allocations_in_front(n, n);
    if n == 0 {
        crate::laws::steps::lemma_end(allocations(0), 0, contents, answers, 1);
    } else {
        let last = crate::categories::c21_hardware::memory_pressure_allocations_round(
            (n - 1) as u64,
        );
        lemma_allocations_in_front(n - 1, n - 1);
        lemma_allocations(n - 1, rows, contents, answers);
        crate::walk::law_walks_over_two_scripts_compose(
            allocations(n - 1),
            last,
            contents,
            answers,
            1,
        );
        assert(allocations(n) == allocations(n - 1) + last);
        let (after, next) = crate::walk::walked(
            allocations(n - 1),
            0,
            3 * (n - 1),
            contents,
            answers,
            1,
        )->0;
        assert(!(answers[n] is Failed));
        lemma_allocation(n - 1, rows, after, answers, next);
    }
}

/// The steps of the test up to its first `n` allocations.
proof fn lemma_front(n: int)
    requires
        0 <= n <= 5,
    ensures
        ({
            let start = crate::categories::c21_hardware::memory_pressure_start_steps();
            &&& pressure().steps.len() == 68
            &&& start.len() == 4
            &&& pressure().steps.subrange(0, 4 + 3 * n) == start + allocations(n)
        }),
{
    let start = crate::categories::c21_hardware::memory_pressure_start_steps();
    lemma_allocations_in_front(n, 5);
    lemma_rest_is_behind();
    assert(pressure().steps.subrange(0, 4 + 3 * n) =~= start + allocations(5).subrange(0, 3 * n));
}

/// The steps of the test after its allocations.
spec fn rest() -> Seq<Step> {
    crate::categories::c21_hardware::memory_pressure_allocated_steps()
        + sorts()
        + crate::categories::c21_hardware::memory_pressure_between_steps()
        + filters()
        + crate::categories::c21_hardware::memory_pressure_end_steps()
}

/// The sorts of the test.
spec fn sorts() -> Seq<Step> {
    crate::script::rounds(
        5,
        |i: int| crate::categories::c21_hardware::memory_pressure_sorts_round(i as u64),
    )
}

/// The filters of the test.
spec fn filters() -> Seq<Step> {
    crate::script::rounds(
        5,
        |i: int| crate::categories::c21_hardware::memory_pressure_filters_round(i as u64),
    )
}

/// Five rounds of four steps each.
proof fn lemma_five_fours(round: spec_fn(int) -> Seq<Step>)
    requires
        forall|k: int| 0 <= k < 5 ==> (#[trigger] round(k)).len() == 4,
    ensures
        crate::script::rounds(5, round).len() == 20,
{
    reveal_with_fuel(crate::script::rounds, 6);
}

/// The rest of the test stands behind its allocations, and has no jumps.
proof fn lemma_rest_is_behind()
    ensures
        pressure().steps.len() == 68,
        rest().len() == 49,
        pressure().steps.subrange(19, 68) == rest(),
        forall|j: int| 0 <= j < rest().len() ==> crate::walk::straight(#[trigger] rest()[j]),
{
    let start = crate::categories::c21_hardware::memory_pressure_start_steps();
    let sort = |i: int| crate::categories::c21_hardware::memory_pressure_sorts_round(i as u64);
    let filter = |i: int| crate::categories::c21_hardware::memory_pressure_filters_round(i as u64);
    lemma_allocations_in_front(5, 5);
    lemma_five_fours(sort);
    lemma_five_fours(filter);
    crate::walk::law_straight_rounds_are_straight(5, sort);
    crate::walk::law_straight_rounds_are_straight(5, filter);
    let one = crate::categories::c21_hardware::memory_pressure_allocated_steps();
    let three = crate::categories::c21_hardware::memory_pressure_between_steps();
    let five = crate::categories::c21_hardware::memory_pressure_end_steps();
    crate::walk::law_straight_scripts_make_a_straight_one(one, sorts());
    crate::walk::law_straight_scripts_make_a_straight_one(one + sorts(), three);
    crate::walk::law_straight_scripts_make_a_straight_one(one + sorts() + three, filters());
    crate::walk::law_straight_scripts_make_a_straight_one(
        one + sorts() + three + filters(),
        five,
    );
    assert(pressure().steps =~= start + allocations(5) + rest());
    assert(pressure().steps.subrange(19, 68) =~= rest());
}

/// Once the device allocates no more, the test stands before its other steps.
proof fn lemma_allocated(answers: Seq<Answer>, budget: u64, n: int) -> (contents: Contents)
    requires
        answers.len() > first_after(n),
        answers[0] == Answer::Count(budget),
        rows_for(budget) >= 1000,
        allocates(answers, n),
    ensures
        standing(contents, rows_for(budget), n),
        crate::machine::run_of(pressure(), answers.take(first_after(n)))
            == crate::machine::settled(pressure().steps, 19, contents),
{
    let plan = pressure();
    let blank = Contents::blank(plan.texts);
    let rows = rows_for(budget);
    let start = crate::categories::c21_hardware::memory_pressure_start_steps();
    lemma_start(answers, budget);
    lemma_front(n);
    lemma_allocations_in_front(n, n);
    let (begun, one) = crate::walk::walked(start, 0, 4, blank, answers, 0)->0;
    lemma_allocations(n, rows, begun, answers);
    let (after, next) = crate::walk::walked(allocations(n), 0, 3 * n, begun, answers, 1)->0;
    let front = start + allocations(n);
    crate::walk::law_walks_over_two_scripts_compose(start, allocations(n), blank, answers, 0);
    crate::walk::law_walks_are_local(plan.steps, front, 0, 0, blank, answers, 0);
    let at = 4 + 3 * n;
    assert(crate::walk::walked(plan.steps, 0, at, blank, answers, 0) == Some((after, next)));
    if n == 5 {
        crate::walk::law_steps_are_taken_in_order(plan, 19, answers);
        after
    } else {
        let round = crate::categories::c21_hardware::memory_pressure_allocations_round(n as u64);
        let filled = after.with_column(0, buffer_words(n, rows));
        lemma_front(n + 1);
        assert(allocations(n + 1) == allocations(n) + round);
        assert(plan.steps.subrange(at, at + 3) =~= round) by {
            let longer = plan.steps.subrange(0, 4 + 3 * (n + 1));
            assert(longer == start + allocations(n + 1));
            assert(plan.steps.subrange(at, at + 3) =~= longer.subrange(at, at + 3));
        }
        let opening = round.subrange(0, 1);
        lemma_fill_buffer(n, 1, rows, after, answers, next);
        crate::laws::steps::lemma_end(round, 1, filled, answers, next);
        crate::walk::law_walks_are_local(round, opening, 0, 0, after, answers, next);
        assert(plan.steps.subrange(at, at + 1) =~= opening);
        crate::walk::law_walks_are_local(plan.steps, opening, at, 0, after, answers, next);
        crate::walk::law_walks_compose(plan.steps, 0, at, at + 1, blank, answers, 0);
        assert(plan.steps[at + 1] == round[1]);
        assert(crate::machine::moved(plan.steps[at + 1], filled) is Ask) by {
            reveal(crate::machine::effect_of);
        }
        crate::walk::law_refused_requests_leave_to_their_step(plan, at + 1, answers, 19);
        filled
    }
}

/// Whether round `k` is taken.
proof fn lemma_turn(k: int, contents: Contents, n: int)
    requires
        0 <= k < 5,
        contents.full(),
        contents.registers[2] == n,
    ensures
        crate::expr::value_of(lt(num(k as u64), reg(2)), contents, 0) == Some(
            crate::expr::truth(k < n),
        ),
{
    reveal_with_fuel(crate::expr::value_of, 2);
}

/// One sort.
proof fn lemma_sort(k: int, rows: u64, n: int, contents: Contents, answers: Seq<Answer>, used: int)
    requires
        0 <= k < 5,
        0 <= n <= 5,
        standing(contents, rows, n),
        0 <= used,
        k < n ==> used + 3 <= answers.len() && crate::laws::steps::column_or_refusal(
            answers[used + 1],
        ),
    ensures
        match crate::walk::walked(
            crate::categories::c21_hardware::memory_pressure_sorts_round(k as u64),
            0,
            4,
            contents,
            answers,
            used,
        ) {
            Some((after, next)) => {
                &&& k < n ==> sorts_under_pressure(answers, used)
                &&& standing(after, rows, n)
                &&& next == if k < n {
                    used + 3
                } else {
                    used
                }
            },
            None => k < n && !sorts_under_pressure(answers, used),
        },
{
    let steps = crate::categories::c21_hardware::memory_pressure_sorts_round(k as u64);
    lemma_turn(k, contents, n);
    if k < n {
        crate::laws::steps::lemma_command(steps, 0, 4, contents, answers, used);
        crate::laws::steps::lemma_download(steps, 1, 4, contents, answers, used + 1);
        if answers[used + 1] is Words {
            let after = contents.with_column(1, answers[used + 1]->Words_0);
            lemma_turn(k, after, n);
            crate::laws::steps::lemma_scan_order_by(
                steps,
                2,
                4,
                after,
                answers,
                used + 2,
                1,
                10000,
            );
            crate::laws::steps::lemma_command(steps, 3, 4, after, answers, used + 2);
            crate::laws::steps::lemma_end(steps, 4, after, answers, used + 3);
        }
    } else {
        crate::laws::steps::lemma_not_taken(steps, 0, 4, contents, answers, used);
        crate::laws::steps::lemma_not_taken(steps, 1, 4, contents, answers, used);
        crate::laws::steps::lemma_not_taken(steps, 2, 4, contents, answers, used);
        crate::laws::steps::lemma_not_taken(steps, 3, 4, contents, answers, used);
        crate::laws::steps::lemma_end(steps, 4, contents, answers, used);
    }
}

/// Half of the rows, rounded up.
proof fn lemma_half(contents: Contents, rows: u64)
    requires
        contents.full(),
        contents.registers[1] == rows,
        rows <= 5000000,
    ensures
        crate::expr::value_of(over(plus(reg(1), num(1)), num(2)), contents, 0) == Some(
            ((rows + 1) / 2) as u64,
        ),
{
    reveal_with_fuel(crate::expr::value_of, 3);
}

/// One filter.
proof fn lemma_filter(
    k: int,
    rows: u64,
    n: int,
    contents: Contents,
    answers: Seq<Answer>,
    used: int,
)
    requires
        0 <= k < 5,
        0 <= n <= 5,
        rows <= 5000000,
        standing(contents, rows, n),
        0 <= used,
        k < n ==> used + 3 <= answers.len(),
    ensures
        match crate::walk::walked(
            crate::categories::c21_hardware::memory_pressure_filters_round(k as u64),
            0,
            4,
            contents,
            answers,
            used,
        ) {
            Some((after, next)) => {
                &&& k < n ==> filters_under_pressure(answers, used, rows)
                &&& standing(after, rows, n)
                &&& next == if k < n {
                    used + 3
                } else {
                    used
                }
            },
            None => k < n && !filters_under_pressure(answers, used, rows),
        },
{
    let steps = crate::categories::c21_hardware::memory_pressure_filters_round(k as u64);
    lemma_turn(k, contents, n);
    if k < n {
        let mask = crate::laws::masks::every(2, rows as nat);
        crate::laws::masks::lemma_remainder_words(2, rows, contents);
        crate::laws::steps::lemma_fill(steps, 0, 4, contents, answers, used, mask);
        let masked = contents.with_column(2, mask);
        lemma_turn(k, masked, n);
        crate::laws::steps::lemma_command(steps, 1, 4, masked, answers, used);
        lemma_half(masked, rows);
        let half = ((rows + 1) / 2) as u64;
        crate::laws::steps::lemma_match(steps, 2, 4, masked, answers, used + 1, half);
        let counted = masked.with_register(COUNT, half);
        lemma_turn(k, counted, n);
        crate::laws::steps::lemma_command(steps, 3, 4, counted, answers, used + 2);
        crate::laws::steps::lemma_end(steps, 4, counted, answers, used + 3);
    } else {
        crate::laws::steps::lemma_not_taken(steps, 0, 4, contents, answers, used);
        crate::laws::steps::lemma_not_taken(steps, 1, 4, contents, answers, used);
        crate::laws::steps::lemma_not_taken(steps, 2, 4, contents, answers, used);
        crate::laws::steps::lemma_not_taken(steps, 3, 4, contents, answers, used);
        crate::laws::steps::lemma_end(steps, 4, contents, answers, used);
    }
}

/// Whether each of the buffers is sorted.
pub open spec fn all_sorted(answers: Seq<Answer>, used: int, n: int) -> bool {
    forall|k: int| 0 <= k < n ==> #[trigger] sorts_under_pressure(answers, used + 3 * k)
}

/// Whether each of the buffers is filtered.
pub open spec fn all_filtered(answers: Seq<Answer>, used: int, n: int, rows: u64) -> bool {
    forall|k: int| 0 <= k < n ==> #[trigger] filters_under_pressure(answers, used + 3 * k, rows)
}

/// All sorts.
proof fn lemma_sorts(rows: u64, n: int, contents: Contents, answers: Seq<Answer>, used: int)
    requires
        0 <= n <= 5,
        standing(contents, rows, n),
        0 <= used,
        used + 3 * n <= answers.len(),
        forall|k: int|
            0 <= k < n ==> #[trigger] crate::laws::steps::column_or_refusal(
                answers[used + 3 * k + 1],
            ),
    ensures
        match crate::walk::walked(sorts(), 0, sorts().len() as int, contents, answers, used) {
            Some((after, next)) => {
                &&& all_sorted(answers, used, n)
                &&& standing(after, rows, n)
                &&& next == used + 3 * n
            },
            None => !all_sorted(answers, used, n),
        },
{
    let round = |i: int| crate::categories::c21_hardware::memory_pressure_sorts_round(i as u64);
    let start = |k: int| used + threes(k, n);
    let good = |k: int| k < n ==> sorts_under_pressure(answers, used + 3 * k);
    let kept = |contents: Contents| standing(contents, rows, n);
    assert forall|k: int, contents: Contents|
        #![trigger good(k), kept(contents)]
        0 <= k < 5 && kept(contents) implies if good(k) {
        crate::walk::goes_to(round(k), contents, answers, start(k), start(k + 1), kept)
    } else {
        crate::walk::walked(round(k), 0, round(k).len() as int, contents, answers, start(k)) is None
    } by {
        if k < n {
            assert(crate::laws::steps::column_or_refusal(answers[used + 3 * k + 1]));
        }
        lemma_sort(k, rows, n, contents, answers, start(k));
    }
    crate::walk::law_rounds_keep_what_each_keeps(5, round, start, good, kept, contents, answers);
    if forall|k: int| 0 <= k < 5 ==> #[trigger] good(k) {
        assert forall|k: int| 0 <= k < n implies #[trigger] sorts_under_pressure(
            answers,
            used + 3 * k,
        ) by {
            assert(good(k));
        }
    } else {
        let k = choose|k: int| 0 <= k < 5 && !(#[trigger] good(k));
        assert(!sorts_under_pressure(answers, used + 3 * k));
    }
}

/// All filters.
proof fn lemma_filters(rows: u64, n: int, contents: Contents, answers: Seq<Answer>, used: int)
    requires
        0 <= n <= 5,
        rows <= 5000000,
        standing(contents, rows, n),
        0 <= used,
        used + 3 * n <= answers.len(),
    ensures
        match crate::walk::walked(filters(), 0, filters().len() as int, contents, answers, used) {
            Some((after, next)) => {
                &&& all_filtered(answers, used, n, rows)
                &&& standing(after, rows, n)
                &&& next == used + 3 * n
            },
            None => !all_filtered(answers, used, n, rows),
        },
{
    let round = |i: int| crate::categories::c21_hardware::memory_pressure_filters_round(i as u64);
    let start = |k: int| used + threes(k, n);
    let good = |k: int| k < n ==> filters_under_pressure(answers, used + 3 * k, rows);
    let kept = |contents: Contents| standing(contents, rows, n);
    assert forall|k: int, contents: Contents|
        #![trigger good(k), kept(contents)]
        0 <= k < 5 && kept(contents) implies if good(k) {
        crate::walk::goes_to(round(k), contents, answers, start(k), start(k + 1), kept)
    } else {
        crate::walk::walked(round(k), 0, round(k).len() as int, contents, answers, start(k)) is None
    } by {
        lemma_filter(k, rows, n, contents, answers, start(k));
    }
    crate::walk::law_rounds_keep_what_each_keeps(5, round, start, good, kept, contents, answers);
    if forall|k: int| 0 <= k < 5 ==> #[trigger] good(k) {
        assert forall|k: int| 0 <= k < n implies #[trigger] filters_under_pressure(
            answers,
            used + 3 * k,
            rows,
        ) by {
            assert(good(k));
        }
    } else {
        let k = choose|k: int| 0 <= k < 5 && !(#[trigger] good(k));
        assert(!filters_under_pressure(answers, used + 3 * k, rows));
    }
}

/// Whether no buffer has been allocated.
proof fn lemma_none_allocated(contents: Contents, rows: u64, n: int, answers: Seq<Answer>, used: int)
    requires
        0 <= n <= 5,
        standing(contents, rows, n),
    ensures
        crate::walk::walked(
            crate::categories::c21_hardware::memory_pressure_allocated_steps(),
            0,
            1,
            contents,
            answers,
            used,
        ) == (if n == 0 {
            None
        } else {
            Some((contents, used))
        }),
{
    let steps = crate::categories::c21_hardware::memory_pressure_allocated_steps();
    assert(crate::expr::value_of(same_as(reg(2), num(0)), contents, 0) == Some(
        crate::expr::truth(n == 0),
    )) by {
        reveal_with_fuel(crate::expr::value_of, 2);
    }
    crate::laws::steps::lemma_check(steps, 0, 1, contents, answers, used, n == 0);
    crate::laws::steps::lemma_end(steps, 1, contents, answers, used);
}

/// The sync between the sorts and the filters.
proof fn lemma_between(contents: Contents, answers: Seq<Answer>, used: int)
    requires
        0 <= used < answers.len(),
    ensures
        crate::walk::walked(
            crate::categories::c21_hardware::memory_pressure_between_steps(),
            0,
            1,
            contents,
            answers,
            used,
        ) == (if answers[used] is Failed {
            None
        } else {
            Some((contents, used + 1))
        }),
{
    let steps = crate::categories::c21_hardware::memory_pressure_between_steps();
    crate::laws::steps::lemma_command(steps, 0, 1, contents, answers, used);
    crate::laws::steps::lemma_end(steps, 1, contents, answers, used + 1);
}

/// The last steps.
proof fn lemma_last(contents: Contents, answers: Seq<Answer>, used: int)
    requires
        contents.full(),
        0 <= used,
        used + 6 <= answers.len(),
    ensures
        crate::walk::walked(
            crate::categories::c21_hardware::memory_pressure_end_steps(),
            0,
            7,
            contents,
            answers,
            used,
        ) is Some <==> works_again(answers, used),
{
    let steps = crate::categories::c21_hardware::memory_pressure_end_steps();
    let words = crate::laws::words::below(10000);
    crate::laws::steps::lemma_command(steps, 0, 7, contents, answers, used);
    crate::laws::steps::lemma_command(steps, 1, 7, contents, answers, used + 1);
    crate::laws::words::lemma_below(10000, contents);
    crate::laws::steps::lemma_fill(steps, 2, 7, contents, answers, used + 2, words);
    let filled = contents.with_column(3, words);
    crate::laws::steps::lemma_command(steps, 3, 7, filled, answers, used + 2);
    crate::laws::steps::lemma_command(steps, 4, 7, filled, answers, used + 3);
    crate::laws::steps::lemma_match(steps, 5, 7, filled, answers, used + 4, 10000);
    let counted = filled.with_register(COUNT, 10000);
    crate::laws::steps::lemma_command(steps, 6, 7, counted, answers, used + 5);
    crate::laws::steps::lemma_end(steps, 7, counted, answers, used + 6);
}

/// The test of memory pressure passes exactly when the device allocates at least one buffer, each
/// buffer that it allocated is sorted and filtered, and the device works again after all of them
/// have been freed. A refused allocation ends the allocations, not the test.
pub proof fn law_pressure_passes_exactly_when_allocated_buffers_work(
    answers: Seq<Answer>,
    budget: u64,
    n: int,
)
    requires
        budget >= 80000,
        allocates(answers, n),
        answers.len() >= first_after(n) + 6 * n + 7,
        answers[0] == Answer::Count(budget),
        forall|k: int|
            0 <= k < n ==> #[trigger] crate::laws::steps::column_or_refusal(
                answers[first_after(n) + 3 * k + 1],
            ),
    ensures
        crate::machine::run_of(pressure(), answers).progress == Progress::Over(Ending::Passed) <==> {
            &&& n > 0
            &&& all_sorted(answers, first_after(n), n)
            &&& !(answers[first_after(n) + 3 * n] is Failed)
            &&& all_filtered(answers, first_after(n) + 3 * n + 1, n, rows_for(budget))
            &&& works_again(answers, first_after(n) + 6 * n + 1)
        },
{
    let plan = pressure();
    let rows = rows_for(budget);
    let used = first_after(n);
    let contents = lemma_allocated(answers, budget, n);
    lemma_rest_is_behind();
    assert forall|k: int| 19 <= k < plan.steps.len() implies crate::walk::straight(
        #[trigger] plan.steps[k],
    ) by {
        assert(rest()[k - 19] == plan.steps.subrange(19, 68)[k - 19]);
        assert(crate::walk::straight(rest()[k - 19]));
    }
    crate::walk::law_rest_passes_exactly_when_it_goes_through(plan, 19, contents, answers, used);
    crate::walk::law_walks_are_local(plan.steps, rest(), 19, 0, contents, answers, used);
    let one = crate::categories::c21_hardware::memory_pressure_allocated_steps();
    let three = crate::categories::c21_hardware::memory_pressure_between_steps();
    let five = crate::categories::c21_hardware::memory_pressure_end_steps();
    let whole2 = one + sorts();
    let whole3 = whole2 + three;
    let whole4 = whole3 + filters();
    assert(rest() == whole4 + five);
    lemma_none_allocated(contents, rows, n, answers, used);
    crate::walk::law_walks_over_two_scripts_compose(one, sorts(), contents, answers, used);
    crate::walk::law_walks_over_two_scripts_compose(whole2, three, contents, answers, used);
    crate::walk::law_walks_over_two_scripts_compose(whole3, filters(), contents, answers, used);
    crate::walk::law_walks_over_two_scripts_compose(whole4, five, contents, answers, used);
    if n > 0 {
        lemma_sorts(rows, n, contents, answers, used);
        match crate::walk::walked(sorts(), 0, sorts().len() as int, contents, answers, used) {
            Some((sorted, second)) => {
                lemma_between(sorted, answers, second);
                if !(answers[second] is Failed) {
                    lemma_filters(rows, n, sorted, answers, second + 1);
                    match crate::walk::walked(
                        filters(),
                        0,
                        filters().len() as int,
                        sorted,
                        answers,
                        second + 1,
                    ) {
                        Some((filtered, fourth)) => {
                            lemma_last(filtered, answers, fourth);
                        },
                        None => {},
                    }
                }
            },
            None => {},
        }
    }
}

} // verus!
