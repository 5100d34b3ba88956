//! The law of the test that allocates up to the memory budget.

use vstd::prelude::*;
use crate::expr::{ix, least, lt, modulo, num, over, plus, reg, times};
use crate::machine::{Answer, Ending, Progress};
use crate::memory::Contents;
use crate::script::{Plan, Step, COUNT};

verus! {

/// How many rows the first buffer gets: a sixteenth of the budget, and at most ten million.
pub open spec fn first_rows(budget: u64) -> u64 {
    if budget / 16 <= 10000000 {
        (budget / 16) as u64
    } else {
        10000000
    }
}

/// How many rows each further buffer gets: a sixteenth of the budget, and at most five million.
pub open spec fn further_rows(budget: u64) -> u64 {
    if budget / 16 <= 5000000 {
        (budget / 16) as u64
    } else {
        5000000
    }
}

/// The script of the test.
pub open spec fn limits() -> Plan {
    crate::script::plan(
        "test_memory_budget_limits",
        crate::categories::c18_host_device::memory_budget_limits_steps(),
    )
}

/// What the registers hold after `n` further buffers have been allocated.
pub open spec fn standing(contents: Contents, rows: u64, n: int) -> bool {
    &&& contents.full()
    &&& contents.registers[4] == rows
    &&& contents.registers[5] == n
}

/// Whether the device takes the first buffer in, sorts it, and hands out a column that rises where
/// it is looked at.
pub open spec fn sorts_first(answers: Seq<Answer>) -> bool {
    &&& !(answers[2] is Failed)
    &&& !(answers[3] is Failed)
    &&& answers[4] matches Answer::Words(words)
    &&& crate::laws::steps::rises_by(words, 10000)
}

/// Whether the device allocates `n` further buffers and no more: it refuses the next one, if one
/// more is asked for.
pub open spec fn allocates(answers: Seq<Answer>, n: int) -> bool {
    &&& 0 <= n <= 3
    &&& forall|k: int| 5 <= k < 5 + n ==> !(#[trigger] answers[k] is Failed)
    &&& n < 3 ==> answers[5 + n] is Failed
}

/// The number of the first answer after the allocations.
pub open spec fn first_after(n: int) -> int {
    if n < 3 {
        n + 6
    } else {
        8
    }
}

/// Whether the device filters a buffer, and leaves half of its rows, rounded up.
pub open spec fn keeps_half(answers: Seq<Answer>, used: int, rows: u64) -> bool {
    &&& !(answers[used] is Failed)
    &&& answers[used + 1] == Answer::Count(((rows + 1) / 2) as u64)
}

/// Whether each of the further buffers is filtered.
pub open spec fn all_filtered(answers: Seq<Answer>, used: int, n: int, rows: u64) -> bool {
    forall|k: int| 0 <= k < n ==> #[trigger] keeps_half(answers, used + 3 * k, rows)
}

/// Whether the device allocates and sorts again after the further buffers have been freed.
pub open spec fn allocates_again(answers: Seq<Answer>, used: int, rows: u64) -> bool {
    &&& !(answers[used + 1] is Failed)
    &&& !(answers[used + 2] is Failed)
    &&& !(answers[used + 3] is Failed)
    &&& answers[used + 4] == Answer::Count(rows)
    &&& !(answers[used + 5] is Failed)
}

/// The rows of the buffers are computed from the budget.
proof fn lemma_rows(contents: Contents, budget: u64)
    requires
        contents.full(),
    ensures
        contents.registers[0] == budget ==> crate::expr::value_of(
            over(reg(0), num(16)),
            contents,
            0,
        ) == Some((budget / 16) as u64),
        contents.registers[2] == budget / 16 ==> crate::expr::value_of(
            least(reg(2), num(10000000)),
            contents,
            0,
        ) == Some(first_rows(budget)),
        contents.registers[2] == budget / 16 ==> crate::expr::value_of(
            least(reg(2), num(5000000)),
            contents,
            0,
        ) == Some(further_rows(budget)),
{
    reveal_with_fuel(crate::expr::value_of, 2);
}

/// The words of the first buffer.
pub open spec fn first_words(rows: u64) -> Seq<u64> {
    Seq::new(rows as nat, |i: int| ((i * 1103515245 + 12345) % (rows as int)) as u64)
}

/// One of the words of [`first_words`].
proof fn lemma_first_word(rows: u64, contents: Contents, i: u64)
    requires
        i < rows <= 10000000,
        contents.full(),
        contents.registers[3] == rows,
    ensures
        crate::expr::value_of(
            modulo(plus(times(ix(), num(1103515245)), num(12345)), reg(3)),
            contents,
            i,
        ) == Some(first_words(rows)[i as int]),
{
    let product = times(ix(), num(1103515245));
    assert(crate::expr::value_of(product, contents, i) == Some((i * 1103515245) as u64)) by {
        reveal_with_fuel(crate::expr::value_of, 2);
    }
    assert(crate::expr::value_of(num(12345), contents, i) == Some(12345u64));
    assert(crate::expr::value_of(plus(product, num(12345)), contents, i) == Some(
        (i * 1103515245 + 12345) as u64,
    ));
    assert(crate::expr::value_of(reg(3), contents, i) == Some(rows));
}

/// The steps up to the allocations.
proof fn lemma_start(answers: Seq<Answer>, budget: u64)
    requires
        answers.len() >= 5,
        answers[0] == Answer::Count(budget),
        answers[1] is Count,
        crate::laws::steps::column_or_refusal(answers[4]),
    ensures
        match crate::walk::walked(
            crate::categories::c18_host_device::memory_budget_limits_start_steps(),
            0,
            11,
            Contents::blank(limits().texts),
            answers,
            0,
        ) {
            Some((after, next)) => {
                &&& sorts_first(answers)
                &&& standing(after, further_rows(budget), 0)
                &&& next == 5
            },
            None => !sorts_first(answers),
        },
{
    let steps = crate::categories::c18_host_device::memory_budget_limits_start_steps();
    let blank = Contents::blank(limits().texts);
    let rows = first_rows(budget);
    crate::laws::steps::lemma_number(steps, 0, 11, blank, answers, 0, budget);
    let told = blank.with_register(0, budget);
    crate::laws::steps::lemma_number(steps, 1, 11, told, answers, 1, answers[1]->Count_0);
    let known = told.with_register(1, answers[1]->Count_0);
    lemma_rows(known, budget);
    crate::laws::steps::lemma_put(steps, 2, 11, known, answers, 2, (budget / 16) as u64);
    let shared = known.with_register(2, (budget / 16) as u64);
    lemma_rows(shared, budget);
    crate::laws::steps::lemma_put(steps, 3, 11, shared, answers, 2, rows);
    let sized = shared.with_register(3, rows);
    let words = first_words(rows);
    assert forall|i: int| 0 <= i < words.len() implies #[trigger] crate::expr::value_of(
        modulo(plus(times(ix(), num(1103515245)), num(12345)), reg(3)),
        sized,
        i as u64,
    ) == Some(words[i]) by {
        lemma_first_word(rows, sized, i as u64);
    }
    crate::laws::steps::lemma_fill(steps, 4, 11, sized, answers, 2, words);
    let filled = sized.with_column(0, words);
    crate::laws::steps::lemma_command(steps, 5, 11, filled, answers, 2);
    crate::laws::steps::lemma_command(steps, 6, 11, filled, answers, 3);
    crate::laws::steps::lemma_download(steps, 7, 11, filled, answers, 4);
    if answers[4] is Words {
        let sorted = filled.with_column(1, answers[4]->Words_0);
        crate::laws::steps::lemma_scan_order_by(steps, 8, 11, sorted, answers, 5, 1, 10000);
        lemma_rows(sorted, budget);
        crate::laws::steps::lemma_put(steps, 9, 11, sorted, answers, 5, further_rows(budget));
        let further = sorted.with_register(4, further_rows(budget));
        crate::laws::steps::lemma_put(steps, 10, 11, further, answers, 5, 0);
        crate::laws::steps::lemma_end(steps, 11, further.with_register(5, 0), answers, 5);
    }
}

/// The words of buffer `k`.
pub open spec fn buffer_words(k: int, rows: u64) -> Seq<u64> {
    Seq::new(rows as nat, |i: int| ((i + k * rows) % (rows as int)) as u64)
}

/// One of the words of [`buffer_words`].
proof fn lemma_buffer_word(k: int, rows: u64, contents: Contents, i: u64)
    requires
        0 <= k < 3,
        i < rows <= 5000000,
        contents.full(),
        contents.registers[4] == rows,
    ensures
        crate::expr::value_of(
            modulo(plus(ix(), times(num(k as u64), reg(4))), reg(4)),
            contents,
            i,
        ) == Some(buffer_words(k, rows)[i as int]),
{
    let shift = times(num(k as u64), reg(4));
    assert(0 <= k * rows <= 25000000) by (nonlinear_arith)
        requires
            0 <= k < 3,
            0 < rows <= 5000000,
    ;
    assert(crate::expr::value_of(reg(4), contents, i) == Some(rows));
    assert(crate::expr::value_of(num(k as u64), contents, i) == Some(k as u64));
    assert(crate::expr::value_of(ix(), contents, i) == Some(i));
    assert(crate::expr::value_of(shift, contents, i) == Some((k * rows) as u64));
    assert(crate::expr::value_of(plus(ix(), shift), contents, i) == Some((i + k * rows) as u64));
}

/// One allocation, up to the request.
proof fn lemma_fill_buffer(
    k: int,
    to: int,
    rows: u64,
    contents: Contents,
    answers: Seq<Answer>,
    used: int,
)
    requires
        0 <= k < 3,
        1 <= to <= 3,
        rows <= 5000000,
        standing(contents, rows, k),
    ensures
        crate::walk::walked(
            crate::categories::c18_host_device::memory_budget_limits_allocations_round(k as u64),
            0,
            to,
            contents,
            answers,
            used,
        ) == crate::walk::walked(
            crate::categories::c18_host_device::memory_budget_limits_allocations_round(k as u64),
            1,
            to,
            contents.with_column(2, buffer_words(k, rows)),
            answers,
            used,
        ),
{
    let steps = crate::categories::c18_host_device::memory_budget_limits_allocations_round(
        k as u64,
    );
    let words = buffer_words(k, rows);
    assert forall|i: int| 0 <= i < words.len() implies #[trigger] crate::expr::value_of(
        modulo(plus(ix(), times(num(k as u64), reg(4))), reg(4)),
        contents,
        i as u64,
    ) == Some(words[i]) by {
        lemma_buffer_word(k, rows, contents, i as u64);
    }
    crate::laws::steps::lemma_fill(steps, 0, to, contents, answers, used, words);
}

/// One allocation that succeeds.
proof fn lemma_allocation(
    k: int,
    rows: u64,
    contents: Contents,
    answers: Seq<Answer>,
    used: int,
)
    requires
        0 <= k < 3,
        rows <= 5000000,
        standing(contents, rows, k),
        0 <= used < answers.len(),
        !(answers[used] is Failed),
    ensures
        match crate::walk::walked(
            crate::categories::c18_host_device::memory_budget_limits_allocations_round(k as u64),
            0,
            3,
            contents,
            answers,
            used,
        ) {
            Some((after, next)) => standing(after, rows, k + 1) && next == used + 1,
            None => false,
        },
{
    let steps = crate::categories::c18_host_device::memory_budget_limits_allocations_round(
        k as u64,
    );
    lemma_fill_buffer(k, 3, rows, contents, answers, used);
    let filled = contents.with_column(2, buffer_words(k, rows));
    assert(crate::walk::walked(steps, 1, 3, filled, answers, used) == crate::walk::walked(
        steps,
        2,
        3,
        filled,
        answers,
        used + 1,
    )) by {
        reveal_with_fuel(crate::walk::walked, 2);
        reveal(crate::machine::effect_of);
        reveal(crate::machine::stored);
    }
    assert(crate::expr::value_of(plus(reg(5), num(1)), filled, 0) == Some((k + 1) as u64)) by {
        reveal_with_fuel(crate::expr::value_of, 2);
    }
    crate::laws::steps::lemma_put(steps, 2, 3, filled, answers, used + 1, (k + 1) as u64);
    crate::laws::steps::lemma_end(
        steps,
        3,
        filled.with_register(5, (k + 1) as u64),
        answers,
        used + 1,
    );
}

/// The first `n` allocations of the test.
spec fn allocations(n: int) -> Seq<Step> {
    crate::script::rounds(
        n,
        |i: int| crate::categories::c18_host_device::memory_budget_limits_allocations_round(
            i as u64,
        ),
    )
}

/// The first `n` allocations are 3 steps each, and stand at the front of the others.
proof fn lemma_allocations_in_front(n: int, all: int)
    requires
        0 <= n <= all,
    ensures
        allocations(n).len() == 3 * n,
        allocations(all).len() == 3 * all,
        allocations(all).subrange(0, 3 * n) == allocations(n),
    decreases all,
{
    if all == 0 {
        assert(allocations(all).subrange(0, 0) =~= allocations(n));
    } else if n < all {
        lemma_allocations_in_front(n, all - 1);
        assert(allocations(all).subrange(0, 3 * n) =~= allocations(all - 1).subrange(0, 3 * n));
    } else {
        lemma_allocations_in_front(n - 1, all - 1);
        assert(allocations(all).subrange(0, 3 * n) =~= allocations(n));
    }
}

/// The first `n` allocations, where they succeed.
proof fn lemma_allocations(
    n: int,
    rows: u64,
    contents: Contents,
    answers: Seq<Answer>,
)
    requires
        0 <= n <= 3,
        rows <= 5000000,
        standing(contents, rows, 0),
        5 + n <= answers.len(),
        forall|k: int| 5 <= k < 5 + n ==> !(#[trigger] answers[k] is Failed),
    ensures
        match crate::walk::walked(allocations(n), 0, 3 * n, contents, answers, 5) {
            Some((after, next)) => standing(after, rows, n) && next == n + 5,
            None => false,
        },
    decreases n,
{
    lemma_allocations_in_front(n, n);
    if n == 0 {
        crate::laws::steps::lemma_end(allocations(0), 0, contents, answers, 5);
    } else {
        let last = crate::categories::c18_host_device::memory_budget_limits_allocations_round(
            (n - 1) as u64,
        );
        lemma_allocations_in_front(n - 1, n - 1);
        lemma_allocations(n - 1, rows, contents, answers);
        crate::walk::law_walks_over_two_scripts_compose(
            allocations(n - 1),
            last,
            contents,
            answers,
            5,
        );
        assert(allocations(n) == allocations(n - 1) + last);
        let (after, next) = crate::walk::walked(
            allocations(n - 1),
            0,
            3 * (n - 1),
            contents,
            answers,
            5,
        )->0;
        assert(!(answers[n + 4] is Failed));
        lemma_allocation(n - 1, rows, after, answers, next);
    }
}

/// The steps of the test up to its first `n` allocations.
proof fn lemma_front(n: int)
    requires
        0 <= n <= 3,
    ensures
        ({
            let start = crate::categories::c18_host_device::memory_budget_limits_start_steps();
            &&& limits().steps.len() == 39
            &&& start.len() == 11
            &&& limits().steps.subrange(0, 11 + 3 * n) == start + allocations(n)
        }),
{
    let start = crate::categories::c18_host_device::memory_budget_limits_start_steps();
    lemma_allocations_in_front(n, 3);
    lemma_rest_is_behind();
    assert(limits().steps.subrange(0, 11 + 3 * n) =~= start + allocations(3).subrange(0, 3 * n));
}

/// The filters of the test.
spec fn filters() -> Seq<Step> {
    crate::script::rounds(
        3,
        |i: int| crate::categories::c18_host_device::memory_budget_limits_filters_round(i as u64),
    )
}

/// The steps of the test after its allocations.
spec fn rest() -> Seq<Step> {
    filters() + crate::categories::c18_host_device::memory_budget_limits_end_steps()
}

/// Three rounds of four steps each.
proof fn lemma_three_fours(round: spec_fn(int) -> Seq<Step>)
    requires
        forall|k: int| 0 <= k < 3 ==> (#[trigger] round(k)).len() == 4,
    ensures
        crate::script::rounds(3, round).len() == 12,
{
    reveal_with_fuel(crate::script::rounds, 4);
}

/// The rest of the test stands behind its allocations, and has no jumps.
proof fn lemma_rest_is_behind()
    ensures
        limits().steps.len() == 39,
        rest().len() == 19,
        limits().steps.subrange(20, 39) == rest(),
        forall|j: int| 0 <= j < rest().len() ==> crate::walk::straight(#[trigger] rest()[j]),
{
    let start = crate::categories::c18_host_device::memory_budget_limits_start_steps();
    let end = crate::categories::c18_host_device::memory_budget_limits_end_steps();
    let filter = |i: int|
        crate::categories::c18_host_device::memory_budget_limits_filters_round(i as u64);
    lemma_allocations_in_front(3, 3);
    lemma_three_fours(filter);
    crate::walk::law_straight_rounds_are_straight(3, filter);
    crate::walk::law_straight_scripts_make_a_straight_one(filters(), end);
    assert(limits().steps =~= start + allocations(3) + rest());
    assert(limits().steps.subrange(20, 39) =~= rest());
}

/// Once the device allocates no more, the test stands before its other steps.
proof fn lemma_allocated(answers: Seq<Answer>, budget: u64, n: int) -> (contents: Contents)
    requires
        answers.len() > first_after(n),
        answers[0] == Answer::Count(budget),
        answers[1] is Count,
        crate::laws::steps::column_or_refusal(answers[4]),
        sorts_first(answers),
        allocates(answers, n),
    ensures
        standing(contents, further_rows(budget), n),
        crate::machine::run_of(limits(), answers.take(first_after(n)))
            == crate::machine::settled(limits().steps, 20, contents),
{
    let plan = limits();
    let blank = Contents::blank(plan.texts);
    let rows = further_rows(budget);
    let start = crate::categories::c18_host_device::memory_budget_limits_start_steps();
    lemma_start(answers, budget);
    lemma_front(n);
    lemma_allocations_in_front(n, n);
    let (begun, one) = crate::walk::walked(start, 0, 11, blank, answers, 0)->0;
    lemma_allocations(n, rows, begun, answers);
    let (after, next) = crate::walk::walked(allocations(n), 0, 3 * n, begun, answers, 5)->0;
    let front = start + allocations(n);
    crate::walk::law_walks_over_two_scripts_compose(start, allocations(n), blank, answers, 0);
    crate::walk::law_walks_are_local(plan.steps, front, 0, 0, blank, answers, 0);
    let at = 11 + 3 * n;
    assert(crate::walk::walked(plan.steps, 0, at, blank, answers, 0) == Some((after, next)));
    if n == 3 {
        crate::walk::law_steps_are_taken_in_order(plan, 20, answers);
        after
    } else {
        let round = crate::categories::c18_host_device::memory_budget_limits_allocations_round(
            n as u64,
        );
        let filled = after.with_column(2, buffer_words(n, rows));
        lemma_front(n + 1);
        assert(allocations(n + 1) == allocations(n) + round);
        assert(plan.steps.subrange(at, at + 3) =~= round) by {
            let longer = plan.steps.subrange(0, 11 + 3 * (n + 1));
            assert(longer == start + allocations(n + 1));
            assert(plan.steps.subrange(at, at + 3) =~= longer.subrange(at, at + 3));
        }
        let opening = round.subrange(0, 1);
        lemma_fill_buffer(n, 1, rows, after, answers, next);
        crate::laws::steps::lemma_end(round, 1, filled, answers, next);
        crate::walk::law_walks_are_local(round, opening, 0, 0, after, answers, next);
        assert(plan.steps.subrange(at, at + 1) =~= opening);
        crate::walk::law_walks_are_local(plan.steps, opening, at, 0, after, answers, next);
        crate::walk::law_walks_compose(plan.steps, 0, at, at + 1, blank, answers, 0);
        assert(plan.steps[at + 1] == round[1]);
        assert(crate::machine::moved(plan.steps[at + 1], filled) is Ask) by {
            reveal(crate::machine::effect_of);
        }
        crate::walk::law_refused_requests_leave_to_their_step(plan, at + 1, answers, 20);
        filled
    }
}

/// Whether round `k` is taken.
proof fn lemma_turn(k: int, contents: Contents, n: int)
    requires
        0 <= k < 3,
        contents.full(),
        contents.registers[5] == n,
    ensures
        crate::expr::value_of(lt(num(k as u64), reg(5)), contents, 0) == Some(
            crate::expr::truth(k < n),
        ),
{
    reveal_with_fuel(crate::expr::value_of, 2);
}

/// Half of the rows, rounded up.
proof fn lemma_half(contents: Contents, rows: u64)
    requires
        contents.full(),
        contents.registers[4] == rows,
        rows <= 5000000,
    ensures
        crate::expr::value_of(over(plus(reg(4), num(1)), num(2)), contents, 0) == Some(
            ((rows + 1) / 2) as u64,
        ),
{
    reveal_with_fuel(crate::expr::value_of, 3);
}

/// One filter.
proof fn lemma_filter(
    k: int,
    rows: u64,
    n: int,
    contents: Contents,
    answers: Seq<Answer>,
    used: int,
)
    requires
        0 <= k < 3,
        0 <= n <= 3,
        rows <= 5000000,
        standing(contents, rows, n),
        0 <= used,
        k < n ==> used + 3 <= answers.len(),
    ensures
        match crate::walk::walked(
            crate::categories::c18_host_device::memory_budget_limits_filters_round(k as u64),
            0,
            4,
            contents,
            answers,
            used,
        ) {
            Some((after, next)) => {
                &&& k < n ==> keeps_half(answers, used, rows)
                &&& standing(after, rows, n)
                &&& next == if k < n {
                    used + 3
                } else {
                    used
                }
            },
            None => k < n && !keeps_half(answers, used, rows),
        },
{
    let steps = crate::categories::c18_host_device::memory_budget_limits_filters_round(k as u64);
    lemma_turn(k, contents, n);
    if k < n {
        let mask = crate::laws::masks::every(2, rows as nat);
        crate::laws::masks::lemma_remainder_words(2, rows, contents);
        crate::laws::steps::lemma_fill(steps, 0, 4, contents, answers, used, mask);
        let masked = contents.with_column(3, mask);
        lemma_turn(k, masked, n);
        crate::laws::steps::lemma_command(steps, 1, 4, masked, answers, used);
        lemma_half(masked, rows);
        let half = ((rows + 1) / 2) as u64;
        crate::laws::steps::lemma_match(steps, 2, 4, masked, answers, used + 1, half);
        let counted = masked.with_register(COUNT, half);
        lemma_turn(k, counted, n);
        crate::laws::steps::lemma_command(steps, 3, 4, counted, answers, used + 2);
        crate::laws::steps::lemma_end(steps, 4, counted, answers, used + 3);
    } else {
        crate::laws::steps::lemma_not_taken(steps, 0, 4, contents, answers, used);
        crate::laws::steps::lemma_not_taken(steps, 1, 4, contents, answers, used);
        crate::laws::steps::lemma_not_taken(steps, 2, 4, contents, answers, used);
        crate::laws::steps::lemma_not_taken(steps, 3, 4, contents, answers, used);
        crate::laws::steps::lemma_end(steps, 4, contents, answers, used);
    }
}

/// All filters.
proof fn lemma_filters(rows: u64, n: int, contents: Contents, answers: Seq<Answer>, used: int)
    requires
        0 <= n <= 3,
        rows <= 5000000,
        standing(contents, rows, n),
        0 <= used,
        used + 3 * n <= answers.len(),
    ensures
        match crate::walk::walked(filters(), 0, filters().len() as int, contents, answers, used) {
            Some((after, next)) => {
                &&& all_filtered(answers, used, n, rows)
                &&& standing(after, rows, n)
                &&& next == used + 3 * n
            },
            None => !all_filtered(answers, used, n, rows),
        },
{
    let round = |i: int|
        crate::categories::c18_host_device::memory_budget_limits_filters_round(i as u64);
    let start = |k: int| used + crate::laws::pressure::threes(k, n);
    let good = |k: int| k < n ==> keeps_half(answers, used + 3 * k, rows);
    let kept = |contents: Contents| standing(contents, rows, n);
    assert forall|k: int, contents: Contents|
        #![trigger good(k), kept(contents)]
        0 <= k < 3 && kept(contents) implies if good(k) {
        crate::walk::goes_to(round(k), contents, answers, start(k), start(k + 1), kept)
    } else {
        crate::walk::walked(round(k), 0, round(k).len() as int, contents, answers, start(k)) is None
    } by {
        lemma_filter(k, rows, n, contents, answers, start(k));
    }
    crate::walk::law_rounds_keep_what_each_keeps(3, round, start, good, kept, contents, answers);
    if forall|k: int| 0 <= k < 3 ==> #[trigger] good(k) {
        assert forall|k: int| 0 <= k < n implies #[trigger] keeps_half(
            answers,
            used + 3 * k,
            rows,
        ) by {
            assert(good(k));
        }
    } else {
        let k = choose|k: int| 0 <= k < 3 && !(#[trigger] good(k));
        assert(!keeps_half(answers, used + 3 * k, rows));
    }
}

/// The last steps.
proof fn lemma_last(contents: Contents, rows: u64, n: int, answers: Seq<Answer>, used: int)
    requires
        standing(contents, rows, n),
        0 <= used,
        used + 6 <= answers.len(),
    ensures
        crate::walk::walked(
            crate::categories::c18_host_device::memory_budget_limits_end_steps(),
            0,
            7,
            contents,
            answers,
            used,
        ) is Some <==> allocates_again(answers, used, rows),
{
    let steps = crate::categories::c18_host_device::memory_budget_limits_end_steps();
    let words = crate::laws::words::below(rows);
    crate::laws::steps::lemma_command(steps, 0, 7, contents, answers, used);
    crate::laws::steps::lemma_command(steps, 1, 7, contents, answers, used + 1);
    crate::laws::words::lemma_below(rows, contents);
    crate::laws::steps::lemma_fill(steps, 2, 7, contents, answers, used + 2, words);
    let filled = contents.with_column(4, words);
    crate::laws::steps::lemma_command(steps, 3, 7, filled, answers, used + 2);
    crate::laws::steps::lemma_command(steps, 4, 7, filled, answers, used + 3);
    crate::laws::steps::lemma_match(steps, 5, 7, filled, answers, used + 4, rows);
    let counted = filled.with_register(COUNT, rows);
    crate::laws::steps::lemma_command(steps, 6, 7, counted, answers, used + 5);
    crate::laws::steps::lemma_end(steps, 7, counted, answers, used + 6);
}

/// The test of the memory budget passes exactly when the first buffer is sorted, each further
/// buffer that the device allocated is filtered, and the device allocates and sorts again after
/// they have been freed. A refused allocation ends the allocations, not the test.
pub proof fn law_budget_passes_exactly_when_allocated_buffers_work(
    answers: Seq<Answer>,
    budget: u64,
    n: int,
)
    requires
        allocates(answers, n),
        answers.len() >= first_after(n) + 3 * n + 6,
        answers[0] == Answer::Count(budget),
        answers[1] is Count,
        crate::laws::steps::column_or_refusal(answers[4]),
    ensures
        crate::machine::run_of(limits(), answers).progress == Progress::Over(Ending::Passed) <==> {
            &&& sorts_first(answers)
            &&& all_filtered(answers, first_after(n), n, further_rows(budget))
            &&& allocates_again(answers, first_after(n) + 3 * n, further_rows(budget))
        },
{
    let plan = limits();
    let blank = Contents::blank(plan.texts);
    let rows = further_rows(budget);
    let used = first_after(n);
    let start = crate::categories::c18_host_device::memory_budget_limits_start_steps();
    lemma_rest_is_behind();
    lemma_start(answers, budget);
    lemma_front(0);
    lemma_allocations_in_front(0, 0);
    assert(plan.steps.subrange(0, 11) =~= start);
    crate::walk::law_walks_are_local(plan.steps, start, 0, 0, blank, answers, 0);
    if !sorts_first(answers) {
        assert forall|k: int| 0 <= k < 11 implies crate::walk::straight(
            #[trigger] plan.steps[k],
        ) by {
            assert(start[k] == plan.steps.subrange(0, 11)[k]);
        }
        crate::walk::law_scripts_that_fall_short_do_not_pass(plan, 11, answers);
    } else {
        let contents = lemma_allocated(answers, budget, n);
        assert forall|k: int| 20 <= k < plan.steps.len() implies crate::walk::straight(
            #[trigger] plan.steps[k],
        ) by {
            assert(rest()[k - 20] == plan.steps.subrange(20, 39)[k - 20]);
            assert(crate::walk::straight(rest()[k - 20]));
        }
        crate::walk::law_rest_passes_exactly_when_it_goes_through(
            plan,
            20,
            contents,
            answers,
            used,
        );
        crate::walk::law_walks_are_local(plan.steps, rest(), 20, 0, contents, answers, used);
        crate::walk::law_walks_over_two_scripts_compose(
            filters(),
            crate::categories::c18_host_device::memory_budget_limits_end_steps(),
            contents,
            answers,
            used,
        );
        lemma_filters(rows, n, contents, answers, used);
        match crate::walk::walked(filters(), 0, filters().len() as int, contents, answers, used) {
            Some((filtered, next)) => {
                lemma_last(filtered, rows, n, answers, next);
            },
            None => {},
        }
    }
}

} // verus!
