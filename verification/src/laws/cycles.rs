//! The laws of the tests that go through many sizes, tables and cycles of buffers.

use vstd::prelude::*;
use crate::categories::c02_launch_config::SAMPLING_COUNTS;
use crate::categories::c03_pointer_bounds::TABLE_SIZES;
use crate::categories::c18_host_device::VARYING_SIZES;
use crate::expr::{differs, here, ix, len, lt, modulo, not, num, over, plus, same_as, times};
use crate::machine::{Answer, Ending, Progress};
use crate::memory::Contents;
use crate::message::note0;
use crate::scalar::Scalar;
use crate::script::{release, sync, Act, Faults, Layout, Step, COUNT};

verus! {

/// The words of turn `k` of the cycles.
pub open spec fn cycled(k: int) -> Seq<u64> {
    Seq::new(
        100000,
        |i: int| ((i + (k % 5 * 100000 + k / 10 * 100000 * 5)) % 1000000) as u64,
    )
}

/// One of the words of [`cycled`].
proof fn lemma_cycled_at(k: int, contents: Contents, i: u64)
    requires
        0 <= k < 100,
        i < 100000,
    ensures
        crate::expr::value_of(
            modulo(
                plus(
                    ix(),
                    plus(
                        times(num((k as u64) % 5), num(100000)),
                        times(times(num((k as u64) / 10), num(100000)), num(5)),
                    ),
                ),
                num(1000000),
            ),
            contents,
            i,
        ) == Some(cycled(k)[i as int]),
{
    let low = times(num((k as u64) % 5), num(100000));
    let high = times(times(num((k as u64) / 10), num(100000)), num(5));
    assert(crate::expr::value_of(low, contents, i) == Some((k % 5 * 100000) as u64)) by {
        reveal_with_fuel(crate::expr::value_of, 2);
    }
    assert(crate::expr::value_of(high, contents, i) == Some((k / 10 * 100000 * 5) as u64)) by {
        reveal_with_fuel(crate::expr::value_of, 3);
    }
    assert(crate::expr::value_of(plus(low, high), contents, i) == Some(
        (k % 5 * 100000 + k / 10 * 100000 * 5) as u64,
    ));
    assert(crate::expr::value_of(ix(), contents, i) == Some(i));
    assert(crate::expr::value_of(plus(ix(), plus(low, high)), contents, i) == Some(
        (i + (k % 5 * 100000 + k / 10 * 100000 * 5)) as u64,
    ));
    assert(crate::expr::value_of(num(1000000), contents, i) == Some(1000000u64));
}

/// The words of [`cycled`].
proof fn lemma_cycled(k: int, contents: Contents)
    requires
        0 <= k < 100,
    ensures
        forall|i: int|
            0 <= i < 100000 ==> #[trigger] crate::expr::value_of(
                modulo(
                    plus(
                        ix(),
                        plus(
                            times(num((k as u64) % 5), num(100000)),
                            times(times(num((k as u64) / 10), num(100000)), num(5)),
                        ),
                    ),
                    num(1000000),
                ),
                contents,
                i as u64,
            ) == Some(cycled(k)[i]),
{
    assert forall|i: int| 0 <= i < 100000 implies #[trigger] crate::expr::value_of(
        modulo(
            plus(
                ix(),
                plus(
                    times(num((k as u64) % 5), num(100000)),
                    times(times(num((k as u64) / 10), num(100000)), num(5)),
                ),
            ),
            num(1000000),
        ),
        contents,
        i as u64,
    ) == Some(cycled(k)[i]) by {
        lemma_cycled_at(k, contents, i as u64);
    }
}

/// Which part of a cycle turn `k` is.
proof fn lemma_turn(k: int, contents: Contents)
    requires
        0 <= k < 100,
    ensures
        crate::expr::value_of(lt(num((k as u64) % 10), num(5)), contents, 0) == Some(
            crate::expr::truth(k % 10 < 5),
        ),
        crate::expr::value_of(not(lt(num((k as u64) % 10), num(5))), contents, 0) == Some(
            crate::expr::truth(k % 10 >= 5),
        ),
        crate::expr::value_of(same_as(num((k as u64) % 10), num(9)), contents, 0) == Some(
            crate::expr::truth(k % 10 == 9),
        ),
{
    reveal_with_fuel(crate::expr::value_of, 3);
}

/// The sizes of the columns of varying length.
proof fn lemma_varying_size(k: int)
    requires
        0 <= k < 7,
    ensures
        1000 <= VARYING_SIZES@[k] <= 100000,
{
}

/// How many variables round `k` of the sampling has.
pub open spec fn variables(k: int) -> u64 {
    SAMPLING_COUNTS@[k / 8]
}

/// How many samples round `k` of the sampling takes.
pub open spec fn samples(k: int) -> u64 {
    SAMPLING_COUNTS@[k % 8]
}

/// The counts of the sampling.
proof fn lemma_sampling(k: int)
    requires
        0 <= k < 64,
    ensures
        ((k as u64) / 8) as int == k / 8,
        ((k as u64) % 8) as int == k % 8,
        0 <= variables(k) <= 257,
        0 <= samples(k) <= 257,
        0 <= variables(k) * samples(k) <= 257 * 257,
{
    let count = variables(k);
    let taken = samples(k);
    assert(0 <= count * taken <= 257 * 257) by (nonlinear_arith)
        requires
            0 <= count <= 257,
            0 <= taken <= 257,
    ;
}

/// Which part of the sampling of one number of variables round `k` is.
proof fn lemma_sampled(k: int, contents: Contents)
    requires
        0 <= k < 64,
    ensures
        crate::expr::value_of(same_as(num((k as u64) % 8), num(0)), contents, 0) == Some(
            crate::expr::truth(k % 8 == 0),
        ),
        crate::expr::value_of(same_as(num((k as u64) % 8), num(7)), contents, 0) == Some(
            crate::expr::truth(k % 8 == 7),
        ),
{
    reveal_with_fuel(crate::expr::value_of, 2);
}

/// Whether there are not as many bits as variables and samples.
proof fn lemma_bits(k: int, contents: Contents)
    requires
        0 <= k < 64,
        contents.full(),
        contents.columns[1].len() <= u64::MAX,
    ensures
        crate::expr::value_of(
            differs(len(1), times(num(variables(k)), num(samples(k)))),
            contents,
            0,
        ) == Some(
            crate::expr::truth(contents.columns[1].len() != variables(k) * samples(k)),
        ),
{
    lemma_sampling(k);
    let product = times(num(variables(k)), num(samples(k)));
    assert(crate::expr::value_of(num(variables(k)), contents, 0) == Some(variables(k)));
    assert(crate::expr::value_of(num(samples(k)), contents, 0) == Some(samples(k)));
    assert(crate::expr::value_of(product, contents, 0) == Some(
        (variables(k) * samples(k)) as u64,
    ));
    crate::laws::steps::lemma_differs(len(1), product, contents, 0);
}

/// Whether every word of a column is zero or one.
pub open spec fn bits(words: Seq<u64>) -> bool {
    forall|i: int| 0 <= i < words.len() ==> #[trigger] words[i] <= 1
}

/// Looking for words that are not bits.
proof fn lemma_not_bits(contents: Contents)
    requires
        contents.full(),
        contents.columns[1].len() <= u64::MAX,
    ensures
        forall|i: int|
            0 <= i < contents.columns[1].len() ==> (#[trigger] crate::expr::value_of(
                lt(num(1), here(1)),
                contents,
                i as u64,
            ) == Some(0u64) <==> contents.columns[1][i] <= 1),
{
    assert forall|i: int|
        0 <= i < contents.columns[1].len() implies (#[trigger] crate::expr::value_of(
        lt(num(1), here(1)),
        contents,
        i as u64,
    ) == Some(0u64) <==> contents.columns[1][i] <= 1) by {
        crate::laws::steps::lemma_here(contents, 1, i as u64);
        assert(crate::expr::value_of(num(1), contents, i as u64) == Some(1u64));
    }
}

/// The words of one of the columns of a table.
pub open spec fn offset(base: u64, n: u64) -> Seq<u64> {
    Seq::new(n as nat, |i: int| (base + i) as u64)
}

/// The words of [`offset`].
proof fn lemma_offset(base: u64, n: u64, contents: Contents)
    requires
        base <= 3000,
        n <= 1000,
    ensures
        forall|i: int|
            0 <= i < n ==> #[trigger] crate::expr::value_of(
                plus(num(base), ix()),
                contents,
                i as u64,
            ) == Some(offset(base, n)[i]),
{
    assert forall|i: int| 0 <= i < n implies #[trigger] crate::expr::value_of(
        plus(num(base), ix()),
        contents,
        i as u64,
    ) == Some(offset(base, n)[i]) by {
        assert(crate::expr::value_of(num(base), contents, i as u64) == Some(base));
        assert(crate::expr::value_of(ix(), contents, i as u64) == Some(i as u64));
    }
}

/// The sizes of the tables.
proof fn lemma_table_size(k: int)
    requires
        0 <= k < 3,
    ensures
        100 <= TABLE_SIZES@[k] <= 1000,
{
}

/// Half of the rows, rounded up.
proof fn lemma_half(n: u64, contents: Contents)
    requires
        n <= 1000,
    ensures
        crate::expr::value_of(over(plus(num(n), num(1)), num(2)), contents, 0) == Some(
            ((n + 1) / 2) as u64,
        ),
{
    reveal_with_fuel(crate::expr::value_of, 3);
}

/// Whether the word at a place of a column of a table is that of every other row.
pub open spec fn kept_at(words: Seq<u64>, column: int, place: int) -> bool {
    words[place] == column * 1000 + 2 * place
}

/// Whether a column of a table holds the words of every other row, as far as it goes.
pub open spec fn every_other(words: Seq<u64>, column: int) -> bool {
    crate::laws::traffic::at_each(
        0,
        words.len() as int,
        1,
        |i: int| kept_at(words, column, i) && column * 1000 + 2 * i <= u64::MAX,
    )
}

/// Looking at a word of a column of a table.
proof fn lemma_kept_at(contents: Contents, column: u64, i: u64)
    requires
        contents.full(),
        column < 4,
        i < contents.columns[9].len(),
    ensures
        crate::expr::value_of(
            differs(here(9), plus(times(num(column), num(1000)), times(ix(), num(2)))),
            contents,
            i,
        ) == Some(0u64) <==> kept_at(contents.columns[9], column as int, i as int) && column * 1000
            + 2 * i <= u64::MAX,
{
    let words = contents.columns[9];
    crate::laws::steps::lemma_here(contents, 9, i);
    assert(crate::expr::value_of(times(num(column), num(1000)), contents, i) == Some(
        (column * 1000) as u64,
    )) by {
        reveal_with_fuel(crate::expr::value_of, 2);
    }
    assert(crate::expr::value_of(times(ix(), num(2)), contents, i) == (if 2 * i <= u64::MAX {
        Some((2 * i) as u64)
    } else {
        None
    })) by {
        reveal_with_fuel(crate::expr::value_of, 2);
    }
    let expected = plus(times(num(column), num(1000)), times(ix(), num(2)));
    assert(crate::expr::value_of(expected, contents, i) == (if column * 1000 + 2 * i <= u64::MAX {
        Some((column * 1000 + 2 * i) as u64)
    } else {
        None
    }));
    crate::laws::steps::lemma_differs(here(9), expected, contents, i);
}

/// A scan of a column of a table.
proof fn lemma_scan_column(
    steps: Seq<Step>,
    place: int,
    to: int,
    contents: Contents,
    answers: Seq<Answer>,
    used: int,
    column: u64,
)
    requires
        place < to,
        contents.full(),
        column < 4,
        contents.columns[9].len() <= u64::MAX,
        crate::machine::taken(steps[place], contents) == Some(true),
        crate::machine::act_of(steps[place]) matches Act::Scan { low, high, by, faults } && {
            &&& low == num(0)
            &&& high == len(9)
            &&& by == 1
            &&& faults matches Faults::One(fault, _)
            &&& fault == differs(
                here(9),
                plus(times(num(column), num(1000)), times(ix(), num(2))),
            )
        },
    ensures
        crate::walk::walked(steps, place, to, contents, answers, used) == (if every_other(
            contents.columns[9],
            column as int,
        ) {
            crate::walk::walked(steps, place + 1, to, contents, answers, used)
        } else {
            None
        }),
{
    let words = contents.columns[9];
    let fine = |i: int|
        kept_at(words, column as int, i) && column as int * 1000 + 2 * i <= u64::MAX;
    let fault = differs(here(9), plus(times(num(column), num(1000)), times(ix(), num(2))));
    assert forall|i: int| 0 <= i < words.len() implies (#[trigger] crate::expr::value_of(
        fault,
        contents,
        i as u64,
    ) == Some(0u64) <==> fine(i)) by {
        lemma_kept_at(contents, column, i as u64);
    }
    assert(crate::expr::value_of(num(0), contents, 0) == Some(0u64));
    assert(crate::expr::value_of(len(9), contents, 0) == Some(words.len() as u64));
    crate::laws::traffic::lemma_scan_each(
        steps,
        place,
        to,
        contents,
        answers,
        used,
        0,
        words.len() as u64,
        1,
        fault,
        fine,
    );
}

/// The steps for one table have no jumps.
proof fn lemma_table_straight(width: u64, n: u64, layout: Layout)
    ensures
        forall|j: int|
            0 <= j < crate::categories::c03_pointer_bounds::table_round(width, n, layout).len()
                ==> crate::walk::straight(
                #[trigger] crate::categories::c03_pointer_bounds::table_round(width, n, layout)[j],
            ),
{
    let round = |c: int| crate::categories::c03_pointer_bounds::table_column_steps(
        width,
        n,
        c as u64,
    );
    let first = crate::categories::c03_pointer_bounds::filtered_table_steps(width, n, layout);
    let columns = crate::script::rounds(width as int, round);
    let last = seq![release(0)];
    crate::walk::law_straight_rounds_are_straight(width as int, round);
    crate::walk::law_straight_scripts_make_a_straight_one(first, columns);
    crate::walk::law_straight_scripts_make_a_straight_one(first + columns, last);
}

/// The end of the test of tables.
pub open spec fn last_wait() -> Seq<Step> {
    seq![sync(note0("Sync failed: {}"))]
}

/// Whether the answers to the downloads of the test are columns or refusals.
pub open spec fn lifecycle_shaped(answers: Seq<Answer>) -> bool {
    &&& answers.len() >= 330
    &&& answers[0] is Count
    &&& forall|k: int|
        #![trigger lifecycle_cycles_start(k)]
        0 <= k < 100 && k % 10 >= 5 ==> crate::laws::steps::column_or_refusal(
            answers[lifecycle_cycles_start(k) + 1],
        )
}

/// What the device has to answer in round `k` of the part `cycles`, from answer `used` on.
pub open spec fn lifecycle_cycles(k: int, answers: Seq<Answer>, used: int) -> bool {
    &&& !(answers[used] is Failed)
    &&& k % 10 >= 5 ==> {
        &&& answers[used + 1] is Words
        &&& crate::laws::steps::rises(answers[used + 1]->Words_0)
        &&& answers[used + 1]->Words_0 == crate::columns::sorted(Scalar::U32, cycled(k))
    }
    &&& k % 10 == 9 ==> !(answers[used + 4] is Failed)
}

/// What the device has to answer in round `k` of the part `reallocations`, from answer `used` on.
pub open spec fn lifecycle_reallocations(k: int, answers: Seq<Answer>, used: int) -> bool {
    &&& !(answers[used] is Failed)
    &&& !(answers[used + 1] is Failed)
    &&& answers[used + 2] == Answer::Count(100000)
}

/// What the device has to answer in round `k` of the part `varying`, from answer `used` on.
pub open spec fn lifecycle_varying(k: int, answers: Seq<Answer>, used: int) -> bool {
    &&& !(answers[used] is Failed)
    &&& !(answers[used + 1] is Failed)
    &&& answers[used + 2] == Answer::Count(VARYING_SIZES@[k])
}

/// What the device has to answer in the part `end`.
pub open spec fn lifecycle_end(answers: Seq<Answer>) -> bool {
    !(answers[329] is Failed)
}

/// The part `start`.
proof fn lemma_lifecycle_start(contents: Contents, answers: Seq<Answer>)
    requires
        contents.full(),
        lifecycle_shaped(answers),
    ensures
        match crate::walk::walked(
            crate::categories::c18_host_device::memory_lifecycle_start_steps(),
            0,
            1,
            contents,
            answers,
            0,
        ) {
            Some((after, next)) => {
                &&& after.full()
                &&& next == 1
            },
            None => false,
        },
        crate::categories::c18_host_device::memory_lifecycle_start_steps().len() == 1,
{
    let steps = crate::categories::c18_host_device::memory_lifecycle_start_steps();
    crate::laws::steps::lemma_number(steps, 0, 1, contents, answers, 0, answers[0]->Count_0);
    let next1 = contents.with_register(0, answers[0]->Count_0);
    crate::laws::steps::lemma_end(steps, 1, next1, answers, 1);
}

/// Where round `k` of the part `cycles` starts among the answers.
pub open spec fn lifecycle_cycles_start(k: int) -> int {
    1 + 22 * (k / 10) + if k % 10 < 5 {
        k % 10
    } else {
        3 * (k % 10) - 10
    }
}

/// One round of the part `cycles`.
#[verifier::spinoff_prover]
#[verifier::rlimit(100)]
proof fn lemma_lifecycle_cycles(k: int, contents: Contents, answers: Seq<Answer>, used: int)
    requires
        0 <= k < 100,
        used == lifecycle_cycles_start(k),
        contents.full(),
        lifecycle_shaped(answers),
    ensures
        match crate::walk::walked(
            crate::categories::c18_host_device::memory_lifecycle_cycles_round(k as u64),
            0,
            11,
            contents,
            answers,
            used,
        ) {
            Some((after, next)) => {
                &&& lifecycle_cycles(k, answers, used)
                &&& after.full()
                &&& next == lifecycle_cycles_start(k + 1)
            },
            None => !lifecycle_cycles(k, answers, used),
        },
        crate::categories::c18_host_device::memory_lifecycle_cycles_round(k as u64).len() == 11,
{
    let steps = crate::categories::c18_host_device::memory_lifecycle_cycles_round(k as u64);
    if k % 10 < 5 {
        lemma_turn(k, contents);
        lemma_cycled(k, contents);
        let words1 = cycled(k);
        crate::laws::steps::lemma_fill(steps, 0, 11, contents, answers, used, words1);
        let next1 = contents.with_column(0, words1);
        lemma_turn(k, next1);
        crate::laws::steps::lemma_command(steps, 1, 11, next1, answers, used);
        lemma_turn(k, next1);
        crate::laws::steps::lemma_not_taken(steps, 2, 11, next1, answers, used + 1);
        lemma_turn(k, next1);
        crate::laws::steps::lemma_not_taken(steps, 3, 11, next1, answers, used + 1);
        lemma_turn(k, next1);
        crate::laws::steps::lemma_not_taken(steps, 4, 11, next1, answers, used + 1);
        lemma_turn(k, next1);
        crate::laws::steps::lemma_not_taken(steps, 5, 11, next1, answers, used + 1);
        lemma_turn(k, next1);
        crate::laws::steps::lemma_not_taken(steps, 6, 11, next1, answers, used + 1);
        lemma_turn(k, next1);
        crate::laws::steps::lemma_not_taken(steps, 7, 11, next1, answers, used + 1);
        lemma_turn(k, next1);
        crate::laws::steps::lemma_not_taken(steps, 8, 11, next1, answers, used + 1);
        lemma_turn(k, next1);
        crate::laws::steps::lemma_not_taken(steps, 9, 11, next1, answers, used + 1);
        lemma_turn(k, next1);
        crate::laws::steps::lemma_not_taken(steps, 10, 11, next1, answers, used + 1);
        crate::laws::steps::lemma_end(steps, 11, next1, answers, used + 1);
    } else if k % 10 < 9 {
        let first = lifecycle_cycles_start(k);
        lemma_turn(k, contents);
        crate::laws::steps::lemma_not_taken(steps, 0, 11, contents, answers, used);
        lemma_turn(k, contents);
        crate::laws::steps::lemma_not_taken(steps, 1, 11, contents, answers, used);
        lemma_turn(k, contents);
        crate::laws::steps::lemma_command(steps, 2, 11, contents, answers, used);
        lemma_turn(k, contents);
        crate::laws::steps::lemma_download(steps, 3, 11, contents, answers, used + 1);
        if answers[used + 1] is Words {
            let next1 = contents.with_column(1, answers[used + 1]->Words_0);
            lemma_turn(k, next1);
            crate::laws::steps::lemma_scan_order(steps, 4, 11, next1, answers, used + 2, 1);
            lemma_turn(k, next1);
            lemma_cycled(k, next1);
            let words2 = cycled(k);
            crate::laws::steps::lemma_fill(steps, 5, 11, next1, answers, used + 2, words2);
            let next2 = next1.with_column(0, words2);
            lemma_turn(k, next2);
            crate::laws::steps::lemma_sort_column(steps, 6, 11, next2, answers, used + 2);
            let next3 = next2.with_column(2, crate::columns::sorted(Scalar::U32, cycled(k)));
            lemma_turn(k, next3);
            crate::laws::steps::lemma_not_alike(next3, 1, 2);
            crate::laws::steps::lemma_check(
                steps,
                7,
                11,
                next3,
                answers,
                used + 2,
                !(answers[used + 1]->Words_0 == crate::columns::sorted(Scalar::U32, cycled(k))),
            );
            lemma_turn(k, next3);
            crate::laws::steps::lemma_command(steps, 8, 11, next3, answers, used + 2);
            lemma_turn(k, next3);
            crate::laws::steps::lemma_not_taken(steps, 9, 11, next3, answers, used + 3);
            lemma_turn(k, next3);
            crate::laws::steps::lemma_not_taken(steps, 10, 11, next3, answers, used + 3);
            crate::laws::steps::lemma_end(steps, 11, next3, answers, used + 3);
        }
    } else {
        let first = lifecycle_cycles_start(k);
        lemma_turn(k, contents);
        crate::laws::steps::lemma_not_taken(steps, 0, 11, contents, answers, used);
        lemma_turn(k, contents);
        crate::laws::steps::lemma_not_taken(steps, 1, 11, contents, answers, used);
        lemma_turn(k, contents);
        crate::laws::steps::lemma_command(steps, 2, 11, contents, answers, used);
        lemma_turn(k, contents);
        crate::laws::steps::lemma_download(steps, 3, 11, contents, answers, used + 1);
        if answers[used + 1] is Words {
            let next1 = contents.with_column(1, answers[used + 1]->Words_0);
            lemma_turn(k, next1);
            crate::laws::steps::lemma_scan_order(steps, 4, 11, next1, answers, used + 2, 1);
            lemma_turn(k, next1);
            lemma_cycled(k, next1);
            let words2 = cycled(k);
            crate::laws::steps::lemma_fill(steps, 5, 11, next1, answers, used + 2, words2);
            let next2 = next1.with_column(0, words2);
            lemma_turn(k, next2);
            crate::laws::steps::lemma_sort_column(steps, 6, 11, next2, answers, used + 2);
            let next3 = next2.with_column(2, crate::columns::sorted(Scalar::U32, cycled(k)));
            lemma_turn(k, next3);
            crate::laws::steps::lemma_not_alike(next3, 1, 2);
            crate::laws::steps::lemma_check(
                steps,
                7,
                11,
                next3,
                answers,
                used + 2,
                !(answers[used + 1]->Words_0 == crate::columns::sorted(Scalar::U32, cycled(k))),
            );
            lemma_turn(k, next3);
            crate::laws::steps::lemma_command(steps, 8, 11, next3, answers, used + 2);
            lemma_turn(k, next3);
            crate::laws::steps::lemma_command(steps, 9, 11, next3, answers, used + 3);
            lemma_turn(k, next3);
            crate::laws::steps::lemma_command(steps, 10, 11, next3, answers, used + 4);
            crate::laws::steps::lemma_end(steps, 11, next3, answers, used + 5);
        }
    }
}

/// All rounds of the part `cycles`.
proof fn lemma_lifecycle_cycles_rounds(contents: Contents, answers: Seq<Answer>)
    requires
        contents.full(),
        lifecycle_shaped(answers),
    ensures
        ({
            let steps = crate::script::rounds(
                100,
                |k: int| crate::categories::c18_host_device::memory_lifecycle_cycles_round(
                    k as u64,
                ),
            );
            match crate::walk::walked(steps, 0, steps.len() as int, contents, answers, 1) {
                Some((after, next)) => {
                    &&& forall|k: int|
                        0 <= k < 100 ==> #[trigger] lifecycle_cycles(
                            k,
                            answers,
                            lifecycle_cycles_start(k),
                        )
                    &&& after.full()
                    &&& next == 221
                },
                None => !(forall|k: int|
                    0 <= k < 100
                        ==> #[trigger] lifecycle_cycles(k, answers, lifecycle_cycles_start(k))),
            }
        }),
{
    let round = |k: int| crate::categories::c18_host_device::memory_lifecycle_cycles_round(
        k as u64,
    );
    let start = |k: int| lifecycle_cycles_start(k);
    let good = |k: int| lifecycle_cycles(k, answers, start(k));
    let kept = |contents: Contents| contents.full();
    assert forall|k: int, contents: Contents|
        #![trigger good(k), kept(contents)]
        0 <= k < 100 && kept(contents) implies if good(k) {
        crate::walk::goes_to(round(k), contents, answers, start(k), start(k + 1), kept)
    } else {
        crate::walk::walked(round(k), 0, round(k).len() as int, contents, answers, start(k)) is None
    } by {
        lemma_lifecycle_cycles(k, contents, answers, start(k));
    }
    crate::walk::law_rounds_keep_what_each_keeps(100, round, start, good, kept, contents, answers);
    if forall|k: int| 0 <= k < 100 ==> #[trigger] good(k) {
        assert forall|k: int| 0 <= k < 100 implies #[trigger] lifecycle_cycles(
            k,
            answers,
            lifecycle_cycles_start(k),
        ) by {
            assert(good(k));
        }
    } else {
        let k = choose|k: int| 0 <= k < 100 && !(#[trigger] good(k));
        assert(!lifecycle_cycles(k, answers, lifecycle_cycles_start(k)));
    }
}

/// One round of the part `reallocations`.
proof fn lemma_lifecycle_reallocations(k: int, contents: Contents, answers: Seq<Answer>, used: int)
    requires
        0 <= k < 20,
        used == 221 + 4 * k,
        contents.full(),
        lifecycle_shaped(answers),
    ensures
        match crate::walk::walked(
            crate::categories::c18_host_device::memory_lifecycle_reallocations_round(k as u64),
            0,
            5,
            contents,
            answers,
            used,
        ) {
            Some((after, next)) => {
                &&& lifecycle_reallocations(k, answers, used)
                &&& after.full()
                &&& next == 221 + 4 * (k + 1)
            },
            None => !lifecycle_reallocations(k, answers, used),
        },
        crate::categories::c18_host_device::memory_lifecycle_reallocations_round(
            k as u64,
        ).len() == 5,
{
    let steps = crate::categories::c18_host_device::memory_lifecycle_reallocations_round(k as u64);
    crate::laws::words::lemma_below(100000, contents);
    let words1 = crate::laws::words::below(100000);
    crate::laws::steps::lemma_fill(steps, 0, 5, contents, answers, used, words1);
    let next1 = contents.with_column(0, words1);
    crate::laws::steps::lemma_command(steps, 1, 5, next1, answers, used);
    crate::laws::steps::lemma_command(steps, 2, 5, next1, answers, used + 1);
    crate::laws::steps::lemma_match(steps, 3, 5, next1, answers, used + 2, 100000);
    let next2 = next1.with_register(COUNT, 100000);
    crate::laws::steps::lemma_command(steps, 4, 5, next2, answers, used + 3);
    crate::laws::steps::lemma_end(steps, 5, next2, answers, used + 4);
}

/// All rounds of the part `reallocations`.
proof fn lemma_lifecycle_reallocations_rounds(contents: Contents, answers: Seq<Answer>)
    requires
        contents.full(),
        lifecycle_shaped(answers),
    ensures
        ({
            let steps = crate::script::rounds(
                20,
                |k: int| crate::categories::c18_host_device::memory_lifecycle_reallocations_round(
                    k as u64,
                ),
            );
            match crate::walk::walked(steps, 0, steps.len() as int, contents, answers, 221) {
                Some((after, next)) => {
                    &&& forall|k: int|
                        0 <= k < 20 ==> #[trigger] lifecycle_reallocations(k, answers, 221 + 4 * k)
                    &&& after.full()
                    &&& next == 301
                },
                None => !(forall|k: int|
                    0 <= k < 20 ==> #[trigger] lifecycle_reallocations(k, answers, 221 + 4 * k)),
            }
        }),
{
    let round = |k: int| crate::categories::c18_host_device::memory_lifecycle_reallocations_round(
        k as u64,
    );
    let start = |k: int| 221 + 4 * k;
    let good = |k: int| lifecycle_reallocations(k, answers, start(k));
    let kept = |contents: Contents| contents.full();
    assert forall|k: int, contents: Contents|
        #![trigger good(k), kept(contents)]
        0 <= k < 20 && kept(contents) implies if good(k) {
        crate::walk::goes_to(round(k), contents, answers, start(k), start(k + 1), kept)
    } else {
        crate::walk::walked(round(k), 0, round(k).len() as int, contents, answers, start(k)) is None
    } by {
        lemma_lifecycle_reallocations(k, contents, answers, start(k));
    }
    crate::walk::law_rounds_keep_what_each_keeps(20, round, start, good, kept, contents, answers);
    if forall|k: int| 0 <= k < 20 ==> #[trigger] good(k) {
        assert forall|k: int| 0 <= k < 20 implies #[trigger] lifecycle_reallocations(
            k,
            answers,
            221 + 4 * k,
        ) by {
            assert(good(k));
        }
    } else {
        let k = choose|k: int| 0 <= k < 20 && !(#[trigger] good(k));
        assert(!lifecycle_reallocations(k, answers, 221 + 4 * k));
    }
}

/// One round of the part `varying`.
proof fn lemma_lifecycle_varying(k: int, contents: Contents, answers: Seq<Answer>, used: int)
    requires
        0 <= k < 7,
        used == 301 + 4 * k,
        contents.full(),
        lifecycle_shaped(answers),
    ensures
        match crate::walk::walked(
            crate::categories::c18_host_device::memory_lifecycle_varying_sizes_round(k as u64),
            0,
            5,
            contents,
            answers,
            used,
        ) {
            Some((after, next)) => {
                &&& lifecycle_varying(k, answers, used)
                &&& after.full()
                &&& next == 301 + 4 * (k + 1)
            },
            None => !lifecycle_varying(k, answers, used),
        },
        crate::categories::c18_host_device::memory_lifecycle_varying_sizes_round(
            k as u64,
        ).len() == 5,
{
    let steps = crate::categories::c18_host_device::memory_lifecycle_varying_sizes_round(k as u64);
    lemma_varying_size(k);
    crate::laws::words::lemma_below(VARYING_SIZES@[k], contents);
    let words1 = crate::laws::words::below(VARYING_SIZES@[k]);
    crate::laws::steps::lemma_fill(steps, 0, 5, contents, answers, used, words1);
    let next1 = contents.with_column(0, words1);
    crate::laws::steps::lemma_command(steps, 1, 5, next1, answers, used);
    crate::laws::steps::lemma_command(steps, 2, 5, next1, answers, used + 1);
    crate::laws::steps::lemma_match(steps, 3, 5, next1, answers, used + 2, VARYING_SIZES@[k]);
    let next2 = next1.with_register(COUNT, VARYING_SIZES@[k]);
    crate::laws::steps::lemma_command(steps, 4, 5, next2, answers, used + 3);
    crate::laws::steps::lemma_end(steps, 5, next2, answers, used + 4);
}

/// All rounds of the part `varying`.
proof fn lemma_lifecycle_varying_rounds(contents: Contents, answers: Seq<Answer>)
    requires
        contents.full(),
        lifecycle_shaped(answers),
    ensures
        ({
            let steps = crate::script::rounds(
                7,
                |k: int| crate::categories::c18_host_device::memory_lifecycle_varying_sizes_round(
                    k as u64,
                ),
            );
            match crate::walk::walked(steps, 0, steps.len() as int, contents, answers, 301) {
                Some((after, next)) => {
                    &&& forall|k: int|
                        0 <= k < 7 ==> #[trigger] lifecycle_varying(k, answers, 301 + 4 * k)
                    &&& after.full()
                    &&& next == 329
                },
                None => !(forall|k: int|
                    0 <= k < 7 ==> #[trigger] lifecycle_varying(k, answers, 301 + 4 * k)),
            }
        }),
{
    let round = |k: int| crate::categories::c18_host_device::memory_lifecycle_varying_sizes_round(
        k as u64,
    );
    let start = |k: int| 301 + 4 * k;
    let good = |k: int| lifecycle_varying(k, answers, start(k));
    let kept = |contents: Contents| contents.full();
    assert forall|k: int, contents: Contents|
        #![trigger good(k), kept(contents)]
        0 <= k < 7 && kept(contents) implies if good(k) {
        crate::walk::goes_to(round(k), contents, answers, start(k), start(k + 1), kept)
    } else {
        crate::walk::walked(round(k), 0, round(k).len() as int, contents, answers, start(k)) is None
    } by {
        lemma_lifecycle_varying(k, contents, answers, start(k));
    }
    crate::walk::law_rounds_keep_what_each_keeps(7, round, start, good, kept, contents, answers);
    if forall|k: int| 0 <= k < 7 ==> #[trigger] good(k) {
        assert forall|k: int| 0 <= k < 7 implies #[trigger] lifecycle_varying(
            k,
            answers,
            301 + 4 * k,
        ) by {
            assert(good(k));
        }
    } else {
        let k = choose|k: int| 0 <= k < 7 && !(#[trigger] good(k));
        assert(!lifecycle_varying(k, answers, 301 + 4 * k));
    }
}

/// The part `end`.
proof fn lemma_lifecycle_end(contents: Contents, answers: Seq<Answer>)
    requires
        contents.full(),
        lifecycle_shaped(answers),
    ensures
        match crate::walk::walked(
            crate::categories::c18_host_device::memory_lifecycle_end_steps(),
            0,
            1,
            contents,
            answers,
            329,
        ) {
            Some((after, next)) => {
                &&& lifecycle_end(answers)
                &&& after.full()
                &&& next == 330
            },
            None => !lifecycle_end(answers),
        },
        crate::categories::c18_host_device::memory_lifecycle_end_steps().len() == 1,
{
    let steps = crate::categories::c18_host_device::memory_lifecycle_end_steps();
    crate::laws::steps::lemma_command(steps, 0, 1, contents, answers, 329);
    crate::laws::steps::lemma_end(steps, 1, contents, answers, 330);
}

/// The test has no jumps.
proof fn lemma_lifecycle_straight()
    ensures
        forall|j: int|
            0 <= j < crate::categories::c18_host_device::memory_lifecycle_steps().len()
                ==> crate::walk::straight(
                #[trigger] crate::categories::c18_host_device::memory_lifecycle_steps()[j],
            ),
{
    let part1 = crate::categories::c18_host_device::memory_lifecycle_start_steps();
    let part2 = crate::script::rounds(
        100,
        |k: int| crate::categories::c18_host_device::memory_lifecycle_cycles_round(k as u64),
    );
    let round2 = |k: int| crate::categories::c18_host_device::memory_lifecycle_cycles_round(
        k as u64,
    );
    crate::walk::law_straight_rounds_are_straight(100, round2);
    let part3 = crate::script::rounds(
        20,
        |k: int| crate::categories::c18_host_device::memory_lifecycle_reallocations_round(k as u64),
    );
    let round3 = |k: int| crate::categories::c18_host_device::memory_lifecycle_reallocations_round(
        k as u64,
    );
    crate::walk::law_straight_rounds_are_straight(20, round3);
    let part4 = crate::script::rounds(
        7,
        |k: int| crate::categories::c18_host_device::memory_lifecycle_varying_sizes_round(k as u64),
    );
    let round4 = |k: int| crate::categories::c18_host_device::memory_lifecycle_varying_sizes_round(
        k as u64,
    );
    crate::walk::law_straight_rounds_are_straight(7, round4);
    let part5 = crate::categories::c18_host_device::memory_lifecycle_end_steps();
    let whole1 = part1;
    let whole2 = whole1 + part2;
    crate::walk::law_straight_scripts_make_a_straight_one(whole1, part2);
    let whole3 = whole2 + part3;
    crate::walk::law_straight_scripts_make_a_straight_one(whole2, part3);
    let whole4 = whole3 + part4;
    crate::walk::law_straight_scripts_make_a_straight_one(whole3, part4);
    let whole5 = whole4 + part5;
    crate::walk::law_straight_scripts_make_a_straight_one(whole4, part5);
    assert(crate::categories::c18_host_device::memory_lifecycle_steps() == whole5);
}

/// The test of the life of buffers passes exactly when, in each of ten cycles, five buffers can be
/// created and each of them is sorted, each of twenty columns that take the place of another one
/// leaves all rows when sorted, and so does each column of varying length.
pub proof fn law_lifecycle_passes_exactly_when_every_buffer_works(answers: Seq<Answer>)
    requires
        lifecycle_shaped(answers),
    ensures
        crate::machine::run_of(
            crate::script::plan(
                "test_memory_lifecycle",
                crate::categories::c18_host_device::memory_lifecycle_steps(),
            ),
            answers,
        ).progress == Progress::Over(Ending::Passed) <==> {
            &&& forall|k: int|
                0 <= k < 100 ==> #[trigger] lifecycle_cycles(k, answers, lifecycle_cycles_start(k))
            &&& forall|k: int|
                0 <= k < 20 ==> #[trigger] lifecycle_reallocations(k, answers, 221 + 4 * k)
            &&& forall|k: int|
                0 <= k < 7 ==> #[trigger] lifecycle_varying(k, answers, 301 + 4 * k)
            &&& lifecycle_end(answers)
        },
{
    let plan = crate::script::plan(
        "test_memory_lifecycle",
        crate::categories::c18_host_device::memory_lifecycle_steps(),
    );
    let blank = Contents::blank(plan.texts);
    let part1 = crate::categories::c18_host_device::memory_lifecycle_start_steps();
    let part2 = crate::script::rounds(
        100,
        |k: int| crate::categories::c18_host_device::memory_lifecycle_cycles_round(k as u64),
    );
    let part3 = crate::script::rounds(
        20,
        |k: int| crate::categories::c18_host_device::memory_lifecycle_reallocations_round(k as u64),
    );
    let part4 = crate::script::rounds(
        7,
        |k: int| crate::categories::c18_host_device::memory_lifecycle_varying_sizes_round(k as u64),
    );
    let part5 = crate::categories::c18_host_device::memory_lifecycle_end_steps();
    let whole1 = part1;
    let whole2 = whole1 + part2;
    let whole3 = whole2 + part3;
    let whole4 = whole3 + part4;
    let whole5 = whole4 + part5;
    assert(plan.steps == whole5);
    lemma_lifecycle_start(blank, answers);
    crate::walk::law_walks_over_two_scripts_compose(whole1, part2, blank, answers, 0);
    crate::walk::law_walks_over_two_scripts_compose(whole2, part3, blank, answers, 0);
    crate::walk::law_walks_over_two_scripts_compose(whole3, part4, blank, answers, 0);
    crate::walk::law_walks_over_two_scripts_compose(whole4, part5, blank, answers, 0);
    match crate::walk::walked(whole1, 0, whole1.len() as int, blank, answers, 0) {
        Some((after, _)) => {
            lemma_lifecycle_cycles_rounds(after, answers);
            match crate::walk::walked(whole2, 0, whole2.len() as int, blank, answers, 0) {
                Some((after, _)) => {
                    lemma_lifecycle_reallocations_rounds(after, answers);
                    match crate::walk::walked(whole3, 0, whole3.len() as int, blank, answers, 0) {
                        Some((after, _)) => {
                            lemma_lifecycle_varying_rounds(after, answers);
                            match crate::walk::walked(
                                whole4,
                                0,
                                whole4.len() as int,
                                blank,
                                answers,
                                0,
                            ) {
                                Some((after, _)) => {
                                    lemma_lifecycle_end(after, answers);
                                },
                                None => {},
                            }
                        },
                        None => {},
                    }
                },
                None => {},
            }
        },
        None => {},
    }
    lemma_lifecycle_straight();
    crate::walk::law_passes_exactly_when_every_step_goes_through(plan, answers);
}

/// Whether the answers to the downloads of the test are columns or refusals.
pub open spec fn sampling_shaped(answers: Seq<Answer>) -> bool {
    &&& answers.len() >= 89
    &&& forall|k: int|
        #![trigger sampling_sizes_start(k)]
        0 <= k < 64 && k % 8 == 0 ==> crate::laws::steps::column_or_refusal(
            answers[sampling_sizes_start(k) + 2],
        )
    &&& forall|k: int|
        0 <= k < 64 && k % 8 != 0 ==> crate::laws::steps::column_or_refusal(
            answers[#[trigger] sampling_sizes_start(k)],
        )
}

/// What the device has to answer in round `k` of the part `sizes`, from answer `used` on.
pub open spec fn sampling_sizes(k: int, answers: Seq<Answer>, used: int) -> bool {
    if k % 8 == 0 {
        &&& answers[used + 2] is Words
        &&& answers[used + 2]->Words_0.len() == variables(k) * samples(k)
        &&& bits(answers[used + 2]->Words_0)
    } else {
        &&& answers[used] is Words
        &&& answers[used]->Words_0.len() == variables(k) * samples(k)
        &&& bits(answers[used]->Words_0)
    }
}

/// What the device has to answer in the part `end`.
pub open spec fn sampling_end(answers: Seq<Answer>) -> bool {
    !(answers[88] is Failed)
}

/// Where round `k` of the part `sizes` starts among the answers.
pub open spec fn sampling_sizes_start(k: int) -> int {
    11 * (k / 8) + if k % 8 == 0 {
        0
    } else {
        k % 8 + 2
    }
}

/// One round of the part `sizes`.
proof fn lemma_sampling_sizes(k: int, contents: Contents, answers: Seq<Answer>, used: int)
    requires
        0 <= k < 64,
        used == sampling_sizes_start(k),
        contents.full(),
        sampling_shaped(answers),
    ensures
        match crate::walk::walked(
            crate::categories::c02_launch_config::mc_sample_edge_sizes_sizes_round(k as u64),
            0,
            7,
            contents,
            answers,
            used,
        ) {
            Some((after, next)) => {
                &&& sampling_sizes(k, answers, used)
                &&& after.full()
                &&& next == sampling_sizes_start(k + 1)
            },
            None => !sampling_sizes(k, answers, used),
        },
        crate::categories::c02_launch_config::mc_sample_edge_sizes_sizes_round(k as u64).len() == 7,
{
    let steps = crate::categories::c02_launch_config::mc_sample_edge_sizes_sizes_round(k as u64);
    if k % 8 == 0 {
        let first = sampling_sizes_start(k);
        lemma_sampling(k);
        lemma_sampled(k, contents);
        crate::laws::words::lemma_constant(1056964608, variables(k), contents);
        let words1 = crate::laws::words::constant(1056964608, variables(k));
        crate::laws::steps::lemma_fill(steps, 0, 7, contents, answers, used, words1);
        let next1 = contents.with_column(0, words1);
        lemma_sampled(k, next1);
        crate::laws::steps::lemma_command(steps, 1, 7, next1, answers, used);
        lemma_sampled(k, next1);
        crate::laws::steps::lemma_command(steps, 2, 7, next1, answers, used + 1);
        crate::laws::steps::lemma_download(steps, 3, 7, next1, answers, used + 2);
        if answers[used + 2] is Words {
            let next2 = next1.with_column(1, answers[used + 2]->Words_0);
            lemma_bits(k, next2);
            crate::laws::steps::lemma_check(
                steps,
                4,
                7,
                next2,
                answers,
                used + 3,
                !(answers[used + 2]->Words_0.len() == variables(k) * samples(k)),
            );
            lemma_not_bits(next2);
            crate::laws::steps::lemma_scan_words(
                steps,
                5,
                7,
                next2,
                answers,
                used + 3,
                1,
                lt(num(1), here(1)),
                |word: u64| word <= 1,
            );
            lemma_sampled(k, next2);
            crate::laws::steps::lemma_not_taken(steps, 6, 7, next2, answers, used + 3);
            crate::laws::steps::lemma_end(steps, 7, next2, answers, used + 3);
        }
    } else if k % 8 < 7 {
        let first = sampling_sizes_start(k);
        lemma_sampling(k);
        lemma_sampled(k, contents);
        crate::laws::steps::lemma_not_taken(steps, 0, 7, contents, answers, used);
        lemma_sampled(k, contents);
        crate::laws::steps::lemma_not_taken(steps, 1, 7, contents, answers, used);
        lemma_sampled(k, contents);
        crate::laws::steps::lemma_not_taken(steps, 2, 7, contents, answers, used);
        crate::laws::steps::lemma_download(steps, 3, 7, contents, answers, used);
        if answers[used] is Words {
            let next1 = contents.with_column(1, answers[used]->Words_0);
            lemma_bits(k, next1);
            crate::laws::steps::lemma_check(
                steps,
                4,
                7,
                next1,
                answers,
                used + 1,
                !(answers[used]->Words_0.len() == variables(k) * samples(k)),
            );
            lemma_not_bits(next1);
            crate::laws::steps::lemma_scan_words(
                steps,
                5,
                7,
                next1,
                answers,
                used + 1,
                1,
                lt(num(1), here(1)),
                |word: u64| word <= 1,
            );
            lemma_sampled(k, next1);
            crate::laws::steps::lemma_not_taken(steps, 6, 7, next1, answers, used + 1);
            crate::laws::steps::lemma_end(steps, 7, next1, answers, used + 1);
        }
    } else {
        let first = sampling_sizes_start(k);
        lemma_sampling(k);
        lemma_sampled(k, contents);
        crate::laws::steps::lemma_not_taken(steps, 0, 7, contents, answers, used);
        lemma_sampled(k, contents);
        crate::laws::steps::lemma_not_taken(steps, 1, 7, contents, answers, used);
        lemma_sampled(k, contents);
        crate::laws::steps::lemma_not_taken(steps, 2, 7, contents, answers, used);
        crate::laws::steps::lemma_download(steps, 3, 7, contents, answers, used);
        if answers[used] is Words {
            let next1 = contents.with_column(1, answers[used]->Words_0);
            lemma_bits(k, next1);
            crate::laws::steps::lemma_check(
                steps,
                4,
                7,
                next1,
                answers,
                used + 1,
                !(answers[used]->Words_0.len() == variables(k) * samples(k)),
            );
            lemma_not_bits(next1);
            crate::laws::steps::lemma_scan_words(
                steps,
                5,
                7,
                next1,
                answers,
                used + 1,
                1,
                lt(num(1), here(1)),
                |word: u64| word <= 1,
            );
            lemma_sampled(k, next1);
            crate::laws::steps::lemma_command(steps, 6, 7, next1, answers, used + 1);
            crate::laws::steps::lemma_end(steps, 7, next1, answers, used + 2);
        }
    }
}

/// All rounds of the part `sizes`.
proof fn lemma_sampling_sizes_rounds(contents: Contents, answers: Seq<Answer>)
    requires
        contents.full(),
        sampling_shaped(answers),
    ensures
        ({
            let steps = crate::script::rounds(
                64,
                |k: int| crate::categories::c02_launch_config::mc_sample_edge_sizes_sizes_round(
                    k as u64,
                ),
            );
            match crate::walk::walked(steps, 0, steps.len() as int, contents, answers, 0) {
                Some((after, next)) => {
                    &&& forall|k: int|
                        0 <= k < 64 ==> #[trigger] sampling_sizes(
                            k,
                            answers,
                            sampling_sizes_start(k),
                        )
                    &&& after.full()
                    &&& next == 88
                },
                None => !(forall|k: int|
                    0 <= k < 64 ==> #[trigger] sampling_sizes(k, answers, sampling_sizes_start(k))),
            }
        }),
{
    let round = |k: int| crate::categories::c02_launch_config::mc_sample_edge_sizes_sizes_round(
        k as u64,
    );
    let start = |k: int| sampling_sizes_start(k);
    let good = |k: int| sampling_sizes(k, answers, start(k));
    let kept = |contents: Contents| contents.full();
    assert forall|k: int, contents: Contents|
        #![trigger good(k), kept(contents)]
        0 <= k < 64 && kept(contents) implies if good(k) {
        crate::walk::goes_to(round(k), contents, answers, start(k), start(k + 1), kept)
    } else {
        crate::walk::walked(round(k), 0, round(k).len() as int, contents, answers, start(k)) is None
    } by {
        lemma_sampling_sizes(k, contents, answers, start(k));
    }
    crate::walk::law_rounds_keep_what_each_keeps(64, round, start, good, kept, contents, answers);
    if forall|k: int| 0 <= k < 64 ==> #[trigger] good(k) {
        assert forall|k: int| 0 <= k < 64 implies #[trigger] sampling_sizes(
            k,
            answers,
            sampling_sizes_start(k),
        ) by {
            assert(good(k));
        }
    } else {
        let k = choose|k: int| 0 <= k < 64 && !(#[trigger] good(k));
        assert(!sampling_sizes(k, answers, sampling_sizes_start(k)));
    }
}

/// The part `end`.
proof fn lemma_sampling_end(contents: Contents, answers: Seq<Answer>)
    requires
        contents.full(),
        sampling_shaped(answers),
    ensures
        match crate::walk::walked(
            crate::categories::c02_launch_config::mc_sample_edge_sizes_end_steps(),
            0,
            1,
            contents,
            answers,
            88,
        ) {
            Some((after, next)) => {
                &&& sampling_end(answers)
                &&& after.full()
                &&& next == 89
            },
            None => !sampling_end(answers),
        },
        crate::categories::c02_launch_config::mc_sample_edge_sizes_end_steps().len() == 1,
{
    let steps = crate::categories::c02_launch_config::mc_sample_edge_sizes_end_steps();
    crate::laws::steps::lemma_command(steps, 0, 1, contents, answers, 88);
    crate::laws::steps::lemma_end(steps, 1, contents, answers, 89);
}

/// The test has no jumps.
proof fn lemma_sampling_straight()
    ensures
        forall|j: int|
            0 <= j < crate::categories::c02_launch_config::mc_sample_edge_sizes_steps().len()
                ==> crate::walk::straight(
                #[trigger] crate::categories::c02_launch_config::mc_sample_edge_sizes_steps()[j],
            ),
{
    let part1 = crate::script::rounds(
        64,
        |k: int| crate::categories::c02_launch_config::mc_sample_edge_sizes_sizes_round(k as u64),
    );
    let round1 = |k: int| crate::categories::c02_launch_config::mc_sample_edge_sizes_sizes_round(
        k as u64,
    );
    crate::walk::law_straight_rounds_are_straight(64, round1);
    let part2 = crate::categories::c02_launch_config::mc_sample_edge_sizes_end_steps();
    let whole1 = part1;
    let whole2 = whole1 + part2;
    crate::walk::law_straight_scripts_make_a_straight_one(whole1, part2);
    assert(crate::categories::c02_launch_config::mc_sample_edge_sizes_steps() == whole2);
}

/// The test of sampling passes exactly when, for each number of variables and each number of
/// samples, one bit comes back for each variable of each sample.
pub proof fn law_sampling_passes_exactly_when_all_bits_are_drawn(answers: Seq<Answer>)
    requires
        sampling_shaped(answers),
    ensures
        crate::machine::run_of(
            crate::script::plan(
                "test_mc_sample_edge_sizes",
                crate::categories::c02_launch_config::mc_sample_edge_sizes_steps(),
            ),
            answers,
        ).progress == Progress::Over(Ending::Passed) <==> {
            &&& forall|k: int|
                0 <= k < 64 ==> #[trigger] sampling_sizes(k, answers, sampling_sizes_start(k))
            &&& sampling_end(answers)
        },
{
    let plan = crate::script::plan(
        "test_mc_sample_edge_sizes",
        crate::categories::c02_launch_config::mc_sample_edge_sizes_steps(),
    );
    let blank = Contents::blank(plan.texts);
    let part1 = crate::script::rounds(
        64,
        |k: int| crate::categories::c02_launch_config::mc_sample_edge_sizes_sizes_round(k as u64),
    );
    let part2 = crate::categories::c02_launch_config::mc_sample_edge_sizes_end_steps();
    let whole1 = part1;
    let whole2 = whole1 + part2;
    assert(plan.steps == whole2);
    lemma_sampling_sizes_rounds(blank, answers);
    crate::walk::law_walks_over_two_scripts_compose(whole1, part2, blank, answers, 0);
    match crate::walk::walked(whole1, 0, whole1.len() as int, blank, answers, 0) {
        Some((after, _)) => {
            lemma_sampling_end(after, answers);
        },
        None => {},
    }
    lemma_sampling_straight();
    crate::walk::law_passes_exactly_when_every_step_goes_through(plan, answers);
}

/// Whether the answers to the downloads of the test are columns or refusals.
pub open spec fn tables_shaped(answers: Seq<Answer>) -> bool {
    &&& answers.len() >= 64
    &&& forall|k: int|
        0 <= k < 3 ==> crate::laws::steps::column_or_refusal(#[trigger] answers[3 + 6 * k])
    &&& forall|k: int|
        0 <= k < 3 ==> crate::laws::steps::column_or_refusal(#[trigger] answers[4 + 6 * k])
    &&& forall|k: int|
        0 <= k < 3 ==> crate::laws::steps::column_or_refusal(#[trigger] answers[21 + 7 * k])
    &&& forall|k: int|
        0 <= k < 3 ==> crate::laws::steps::column_or_refusal(#[trigger] answers[22 + 7 * k])
    &&& forall|k: int|
        0 <= k < 3 ==> crate::laws::steps::column_or_refusal(#[trigger] answers[23 + 7 * k])
    &&& forall|k: int|
        0 <= k < 3 ==> crate::laws::steps::column_or_refusal(#[trigger] answers[42 + 8 * k])
    &&& forall|k: int|
        0 <= k < 3 ==> crate::laws::steps::column_or_refusal(#[trigger] answers[43 + 8 * k])
    &&& forall|k: int|
        0 <= k < 3 ==> crate::laws::steps::column_or_refusal(#[trigger] answers[44 + 8 * k])
    &&& forall|k: int|
        0 <= k < 3 ==> crate::laws::steps::column_or_refusal(#[trigger] answers[45 + 8 * k])
}

/// What the device has to answer in round `k` of the part `two`, from answer `used` on.
pub open spec fn tables_two(k: int, answers: Seq<Answer>, used: int) -> bool {
    &&& !(answers[used] is Failed)
    &&& !(answers[used + 1] is Failed)
    &&& answers[used + 2] == Answer::Count(((TABLE_SIZES@[k] + 1) / 2) as u64)
    &&& answers[used + 3] is Words
    &&& every_other(answers[used + 3]->Words_0, 0)
    &&& answers[used + 4] is Words
    &&& every_other(answers[used + 4]->Words_0, 1)
}

/// What the device has to answer in round `k` of the part `three`, from answer `used` on.
pub open spec fn tables_three(k: int, answers: Seq<Answer>, used: int) -> bool {
    &&& !(answers[used] is Failed)
    &&& !(answers[used + 1] is Failed)
    &&& answers[used + 2] == Answer::Count(((TABLE_SIZES@[k] + 1) / 2) as u64)
    &&& answers[used + 3] is Words
    &&& every_other(answers[used + 3]->Words_0, 0)
    &&& answers[used + 4] is Words
    &&& every_other(answers[used + 4]->Words_0, 1)
    &&& answers[used + 5] is Words
    &&& every_other(answers[used + 5]->Words_0, 2)
}

/// What the device has to answer in round `k` of the part `four`, from answer `used` on.
pub open spec fn tables_four(k: int, answers: Seq<Answer>, used: int) -> bool {
    &&& !(answers[used] is Failed)
    &&& !(answers[used + 1] is Failed)
    &&& answers[used + 2] == Answer::Count(((TABLE_SIZES@[k] + 1) / 2) as u64)
    &&& answers[used + 3] is Words
    &&& every_other(answers[used + 3]->Words_0, 0)
    &&& answers[used + 4] is Words
    &&& every_other(answers[used + 4]->Words_0, 1)
    &&& answers[used + 5] is Words
    &&& every_other(answers[used + 5]->Words_0, 2)
    &&& answers[used + 6] is Words
    &&& every_other(answers[used + 6]->Words_0, 3)
}

/// What the device has to answer in the part `end`.
pub open spec fn tables_end(answers: Seq<Answer>) -> bool {
    !(answers[63] is Failed)
}

/// One round of the part `two`.
proof fn lemma_tables_two(k: int, contents: Contents, answers: Seq<Answer>, used: int)
    requires
        0 <= k < 3,
        used == 6 * k,
        contents.full(),
        tables_shaped(answers),
    ensures
        match crate::walk::walked(
            crate::categories::c03_pointer_bounds::table_round(2, TABLE_SIZES@[k], Layout::Two),
            0,
            13,
            contents,
            answers,
            used,
        ) {
            Some((after, next)) => {
                &&& tables_two(k, answers, used)
                &&& after.full()
                &&& next == 6 * (k + 1)
            },
            None => !tables_two(k, answers, used),
        },
        crate::categories::c03_pointer_bounds::table_round(
            2,
            TABLE_SIZES@[k],
            Layout::Two,
        ).len() == 13,
{
    let steps = crate::categories::c03_pointer_bounds::table_round(2, TABLE_SIZES@[k], Layout::Two);
    assert(crate::laws::steps::column_or_refusal(answers[3 + 6 * k]));
    assert(crate::laws::steps::column_or_refusal(answers[4 + 6 * k]));
    lemma_table_size(k);
    reveal_with_fuel(crate::script::rounds, 3);
    crate::laws::words::lemma_below(TABLE_SIZES@[k], contents);
    let words1 = crate::laws::words::below(TABLE_SIZES@[k]);
    crate::laws::steps::lemma_fill(steps, 0, 13, contents, answers, used, words1);
    let next1 = contents.with_column(0, words1);
    lemma_offset(1000, TABLE_SIZES@[k], next1);
    let words2 = offset(1000, TABLE_SIZES@[k]);
    crate::laws::steps::lemma_fill(steps, 1, 13, next1, answers, used, words2);
    let next2 = next1.with_column(1, words2);
    lemma_offset(2000, TABLE_SIZES@[k], next2);
    let words3 = offset(2000, TABLE_SIZES@[k]);
    crate::laws::steps::lemma_fill(steps, 2, 13, next2, answers, used, words3);
    let next3 = next2.with_column(2, words3);
    lemma_offset(3000, TABLE_SIZES@[k], next3);
    let words4 = offset(3000, TABLE_SIZES@[k]);
    crate::laws::steps::lemma_fill(steps, 3, 13, next3, answers, used, words4);
    let next4 = next3.with_column(3, words4);
    crate::laws::steps::lemma_command(steps, 4, 13, next4, answers, used);
    crate::laws::masks::lemma_remainder_words(2, TABLE_SIZES@[k], next4);
    let words5 = crate::laws::masks::every(2, TABLE_SIZES@[k] as nat);
    crate::laws::steps::lemma_fill(steps, 5, 13, next4, answers, used + 1, words5);
    let next5 = next4.with_column(8, words5);
    crate::laws::steps::lemma_command(steps, 6, 13, next5, answers, used + 1);
    lemma_half(TABLE_SIZES@[k], next5);
    crate::laws::steps::lemma_match(
        steps,
        7,
        13,
        next5,
        answers,
        used + 2,
        ((TABLE_SIZES@[k] + 1) / 2) as u64,
    );
    let next6 = next5.with_register(COUNT, ((TABLE_SIZES@[k] + 1) / 2) as u64);
    crate::laws::steps::lemma_download(steps, 8, 13, next6, answers, used + 3);
    if answers[used + 3] is Words {
        let next7 = next6.with_column(9, answers[used + 3]->Words_0);
        lemma_scan_column(steps, 9, 13, next7, answers, used + 4, 0);
        crate::laws::steps::lemma_download(steps, 10, 13, next7, answers, used + 4);
        if answers[used + 4] is Words {
            let next8 = next7.with_column(9, answers[used + 4]->Words_0);
            lemma_scan_column(steps, 11, 13, next8, answers, used + 5, 1);
            crate::laws::steps::lemma_command(steps, 12, 13, next8, answers, used + 5);
            crate::laws::steps::lemma_end(steps, 13, next8, answers, used + 6);
        }
    }
}

/// All rounds of the part `two`.
proof fn lemma_tables_two_rounds(contents: Contents, answers: Seq<Answer>)
    requires
        contents.full(),
        tables_shaped(answers),
    ensures
        ({
            let steps = crate::script::rounds(
                3,
                |k: int| crate::categories::c03_pointer_bounds::table_round(
                    2,
                    TABLE_SIZES@[k],
                    Layout::Two,
                ),
            );
            match crate::walk::walked(steps, 0, steps.len() as int, contents, answers, 0) {
                Some((after, next)) => {
                    &&& forall|k: int| 0 <= k < 3 ==> #[trigger] tables_two(k, answers, 6 * k)
                    &&& after.full()
                    &&& next == 18
                },
                None => !(forall|k: int|
                    0 <= k < 3 ==> #[trigger] tables_two(k, answers, 6 * k)),
            }
        }),
{
    let round = |k: int| crate::categories::c03_pointer_bounds::table_round(
        2,
        TABLE_SIZES@[k],
        Layout::Two,
    );
    let start = |k: int| 6 * k;
    let good = |k: int| tables_two(k, answers, start(k));
    let kept = |contents: Contents| contents.full();
    assert forall|k: int, contents: Contents|
        #![trigger good(k), kept(contents)]
        0 <= k < 3 && kept(contents) implies if good(k) {
        crate::walk::goes_to(round(k), contents, answers, start(k), start(k + 1), kept)
    } else {
        crate::walk::walked(round(k), 0, round(k).len() as int, contents, answers, start(k)) is None
    } by {
        lemma_tables_two(k, contents, answers, start(k));
    }
    crate::walk::law_rounds_keep_what_each_keeps(3, round, start, good, kept, contents, answers);
    if forall|k: int| 0 <= k < 3 ==> #[trigger] good(k) {
        assert forall|k: int| 0 <= k < 3 implies #[trigger] tables_two(k, answers, 6 * k) by {
            assert(good(k));
        }
    } else {
        let k = choose|k: int| 0 <= k < 3 && !(#[trigger] good(k));
        assert(!tables_two(k, answers, 6 * k));
    }
}

/// One round of the part `three`.
proof fn lemma_tables_three(k: int, contents: Contents, answers: Seq<Answer>, used: int)
    requires
        0 <= k < 3,
        used == 18 + 7 * k,
        contents.full(),
        tables_shaped(answers),
    ensures
        match crate::walk::walked(
            crate::categories::c03_pointer_bounds::table_round(3, TABLE_SIZES@[k], Layout::Three),
            0,
            15,
            contents,
            answers,
            used,
        ) {
            Some((after, next)) => {
                &&& tables_three(k, answers, used)
                &&& after.full()
                &&& next == 18 + 7 * (k + 1)
            },
            None => !tables_three(k, answers, used),
        },
        crate::categories::c03_pointer_bounds::table_round(
            3,
            TABLE_SIZES@[k],
            Layout::Three,
        ).len() == 15,
{
    let steps = crate::categories::c03_pointer_bounds::table_round(
        3,
        TABLE_SIZES@[k],
        Layout::Three,
    );
    assert(crate::laws::steps::column_or_refusal(answers[21 + 7 * k]));
    assert(crate::laws::steps::column_or_refusal(answers[22 + 7 * k]));
    assert(crate::laws::steps::column_or_refusal(answers[23 + 7 * k]));
    lemma_table_size(k);
    reveal_with_fuel(crate::script::rounds, 4);
    crate::laws::words::lemma_below(TABLE_SIZES@[k], contents);
    let words1 = crate::laws::words::below(TABLE_SIZES@[k]);
    crate::laws::steps::lemma_fill(steps, 0, 15, contents, answers, used, words1);
    let next1 = contents.with_column(0, words1);
    lemma_offset(1000, TABLE_SIZES@[k], next1);
    let words2 = offset(1000, TABLE_SIZES@[k]);
    crate::laws::steps::lemma_fill(steps, 1, 15, next1, answers, used, words2);
    let next2 = next1.with_column(1, words2);
    lemma_offset(2000, TABLE_SIZES@[k], next2);
    let words3 = offset(2000, TABLE_SIZES@[k]);
    crate::laws::steps::lemma_fill(steps, 2, 15, next2, answers, used, words3);
    let next3 = next2.with_column(2, words3);
    lemma_offset(3000, TABLE_SIZES@[k], next3);
    let words4 = offset(3000, TABLE_SIZES@[k]);
    crate::laws::steps::lemma_fill(steps, 3, 15, next3, answers, used, words4);
    let next4 = next3.with_column(3, words4);
    crate::laws::steps::lemma_command(steps, 4, 15, next4, answers, used);
    crate::laws::masks::lemma_remainder_words(2, TABLE_SIZES@[k], next4);
    let words5 = crate::laws::masks::every(2, TABLE_SIZES@[k] as nat);
    crate::laws::steps::lemma_fill(steps, 5, 15, next4, answers, used + 1, words5);
    let next5 = next4.with_column(8, words5);
    crate::laws::steps::lemma_command(steps, 6, 15, next5, answers, used + 1);
    lemma_half(TABLE_SIZES@[k], next5);
    crate::laws::steps::lemma_match(
        steps,
        7,
        15,
        next5,
        answers,
        used + 2,
        ((TABLE_SIZES@[k] + 1) / 2) as u64,
    );
    let next6 = next5.with_register(COUNT, ((TABLE_SIZES@[k] + 1) / 2) as u64);
    crate::laws::steps::lemma_download(steps, 8, 15, next6, answers, used + 3);
    if answers[used + 3] is Words {
        let next7 = next6.with_column(9, answers[used + 3]->Words_0);
        lemma_scan_column(steps, 9, 15, next7, answers, used + 4, 0);
        crate::laws::steps::lemma_download(steps, 10, 15, next7, answers, used + 4);
        if answers[used + 4] is Words {
            let next8 = next7.with_column(9, answers[used + 4]->Words_0);
            lemma_scan_column(steps, 11, 15, next8, answers, used + 5, 1);
            crate::laws::steps::lemma_download(steps, 12, 15, next8, answers, used + 5);
            if answers[used + 5] is Words {
                let next9 = next8.with_column(9, answers[used + 5]->Words_0);
                lemma_scan_column(steps, 13, 15, next9, answers, used + 6, 2);
                crate::laws::steps::lemma_command(steps, 14, 15, next9, answers, used + 6);
                crate::laws::steps::lemma_end(steps, 15, next9, answers, used + 7);
            }
        }
    }
}

/// All rounds of the part `three`.
proof fn lemma_tables_three_rounds(contents: Contents, answers: Seq<Answer>)
    requires
        contents.full(),
        tables_shaped(answers),
    ensures
        ({
            let steps = crate::script::rounds(
                3,
                |k: int| crate::categories::c03_pointer_bounds::table_round(
                    3,
                    TABLE_SIZES@[k],
                    Layout::Three,
                ),
            );
            match crate::walk::walked(steps, 0, steps.len() as int, contents, answers, 18) {
                Some((after, next)) => {
                    &&& forall|k: int|
                        0 <= k < 3 ==> #[trigger] tables_three(k, answers, 18 + 7 * k)
                    &&& after.full()
                    &&& next == 39
                },
                None => !(forall|k: int|
                    0 <= k < 3 ==> #[trigger] tables_three(k, answers, 18 + 7 * k)),
            }
        }),
{
    let round = |k: int| crate::categories::c03_pointer_bounds::table_round(
        3,
        TABLE_SIZES@[k],
        Layout::Three,
    );
    let start = |k: int| 18 + 7 * k;
    let good = |k: int| tables_three(k, answers, start(k));
    let kept = |contents: Contents| contents.full();
    assert forall|k: int, contents: Contents|
        #![trigger good(k), kept(contents)]
        0 <= k < 3 && kept(contents) implies if good(k) {
        crate::walk::goes_to(round(k), contents, answers, start(k), start(k + 1), kept)
    } else {
        crate::walk::walked(round(k), 0, round(k).len() as int, contents, answers, start(k)) is None
    } by {
        lemma_tables_three(k, contents, answers, start(k));
    }
    crate::walk::law_rounds_keep_what_each_keeps(3, round, start, good, kept, contents, answers);
    if forall|k: int| 0 <= k < 3 ==> #[trigger] good(k) {
        assert forall|k: int| 0 <= k < 3 implies #[trigger] tables_three(
            k,
            answers,
            18 + 7 * k,
        ) by {
            assert(good(k));
        }
    } else {
        let k = choose|k: int| 0 <= k < 3 && !(#[trigger] good(k));
        assert(!tables_three(k, answers, 18 + 7 * k));
    }
}

/// One round of the part `four`.
proof fn lemma_tables_four(k: int, contents: Contents, answers: Seq<Answer>, used: int)
    requires
        0 <= k < 3,
        used == 39 + 8 * k,
        contents.full(),
        tables_shaped(answers),
    ensures
        match crate::walk::walked(
            crate::categories::c03_pointer_bounds::table_round(4, TABLE_SIZES@[k], Layout::Four),
            0,
            17,
            contents,
            answers,
            used,
        ) {
            Some((after, next)) => {
                &&& tables_four(k, answers, used)
                &&& after.full()
                &&& next == 39 + 8 * (k + 1)
            },
            None => !tables_four(k, answers, used),
        },
        crate::categories::c03_pointer_bounds::table_round(
            4,
            TABLE_SIZES@[k],
            Layout::Four,
        ).len() == 17,
{
    let steps = crate::categories::c03_pointer_bounds::table_round(
        4,
        TABLE_SIZES@[k],
        Layout::Four,
    );
    assert(crate::laws::steps::column_or_refusal(answers[42 + 8 * k]));
    assert(crate::laws::steps::column_or_refusal(answers[43 + 8 * k]));
    assert(crate::laws::steps::column_or_refusal(answers[44 + 8 * k]));
    assert(crate::laws::steps::column_or_refusal(answers[45 + 8 * k]));
    lemma_table_size(k);
    reveal_with_fuel(crate::script::rounds, 5);
    crate::laws::words::lemma_below(TABLE_SIZES@[k], contents);
    let words1 = crate::laws::words::below(TABLE_SIZES@[k]);
    crate::laws::steps::lemma_fill(steps, 0, 17, contents, answers, used, words1);
    let next1 = contents.with_column(0, words1);
    lemma_offset(1000, TABLE_SIZES@[k], next1);
    let words2 = offset(1000, TABLE_SIZES@[k]);
    crate::laws::steps::lemma_fill(steps, 1, 17, next1, answers, used, words2);
    let next2 = next1.with_column(1, words2);
    lemma_offset(2000, TABLE_SIZES@[k], next2);
    let words3 = offset(2000, TABLE_SIZES@[k]);
    crate::laws::steps::lemma_fill(steps, 2, 17, next2, answers, used, words3);
    let next3 = next2.with_column(2, words3);
    lemma_offset(3000, TABLE_SIZES@[k], next3);
    let words4 = offset(3000, TABLE_SIZES@[k]);
    crate::laws::steps::lemma_fill(steps, 3, 17, next3, answers, used, words4);
    let next4 = next3.with_column(3, words4);
    crate::laws::steps::lemma_command(steps, 4, 17, next4, answers, used);
    crate::laws::masks::lemma_remainder_words(2, TABLE_SIZES@[k], next4);
    let words5 = crate::laws::masks::every(2, TABLE_SIZES@[k] as nat);
    crate::laws::steps::lemma_fill(steps, 5, 17, next4, answers, used + 1, words5);
    let next5 = next4.with_column(8, words5);
    crate::laws::steps::lemma_command(steps, 6, 17, next5, answers, used + 1);
    lemma_half(TABLE_SIZES@[k], next5);
    crate::laws::steps::lemma_match(
        steps,
        7,
        17,
        next5,
        answers,
        used + 2,
        ((TABLE_SIZES@[k] + 1) / 2) as u64,
    );
    let next6 = next5.with_register(COUNT, ((TABLE_SIZES@[k] + 1) / 2) as u64);
    crate::laws::steps::lemma_download(steps, 8, 17, next6, answers, used + 3);
    if answers[used + 3] is Words {
        let next7 = next6.with_column(9, answers[used + 3]->Words_0);
        lemma_scan_column(steps, 9, 17, next7, answers, used + 4, 0);
        crate::laws::steps::lemma_download(steps, 10, 17, next7, answers, used + 4);
        if answers[used + 4] is Words {
            let next8 = next7.with_column(9, answers[used + 4]->Words_0);
            lemma_scan_column(steps, 11, 17, next8, answers, used + 5, 1);
            crate::laws::steps::lemma_download(steps, 12, 17, next8, answers, used + 5);
            if answers[used + 5] is Words {
                let next9 = next8.with_column(9, answers[used + 5]->Words_0);
                lemma_scan_column(steps, 13, 17, next9, answers, used + 6, 2);
                crate::laws::steps::lemma_download(steps, 14, 17, next9, answers, used + 6);
                if answers[used + 6] is Words {
                    let next10 = next9.with_column(9, answers[used + 6]->Words_0);
                    lemma_scan_column(steps, 15, 17, next10, answers, used + 7, 3);
                    crate::laws::steps::lemma_command(steps, 16, 17, next10, answers, used + 7);
                    crate::laws::steps::lemma_end(steps, 17, next10, answers, used + 8);
                }
            }
        }
    }
}

/// All rounds of the part `four`.
proof fn lemma_tables_four_rounds(contents: Contents, answers: Seq<Answer>)
    requires
        contents.full(),
        tables_shaped(answers),
    ensures
        ({
            let steps = crate::script::rounds(
                3,
                |k: int| crate::categories::c03_pointer_bounds::table_round(
                    4,
                    TABLE_SIZES@[k],
                    Layout::Four,
                ),
            );
            match crate::walk::walked(steps, 0, steps.len() as int, contents, answers, 39) {
                Some((after, next)) => {
                    &&& forall|k: int| 0 <= k < 3 ==> #[trigger] tables_four(k, answers, 39 + 8 * k)
                    &&& after.full()
                    &&& next == 63
                },
                None => !(forall|k: int|
                    0 <= k < 3 ==> #[trigger] tables_four(k, answers, 39 + 8 * k)),
            }
        }),
{
    let round = |k: int| crate::categories::c03_pointer_bounds::table_round(
        4,
        TABLE_SIZES@[k],
        Layout::Four,
    );
    let start = |k: int| 39 + 8 * k;
    let good = |k: int| tables_four(k, answers, start(k));
    let kept = |contents: Contents| contents.full();
    assert forall|k: int, contents: Contents|
        #![trigger good(k), kept(contents)]
        0 <= k < 3 && kept(contents) implies if good(k) {
        crate::walk::goes_to(round(k), contents, answers, start(k), start(k + 1), kept)
    } else {
        crate::walk::walked(round(k), 0, round(k).len() as int, contents, answers, start(k)) is None
    } by {
        lemma_tables_four(k, contents, answers, start(k));
    }
    crate::walk::law_rounds_keep_what_each_keeps(3, round, start, good, kept, contents, answers);
    if forall|k: int| 0 <= k < 3 ==> #[trigger] good(k) {
        assert forall|k: int| 0 <= k < 3 implies #[trigger] tables_four(k, answers, 39 + 8 * k) by {
            assert(good(k));
        }
    } else {
        let k = choose|k: int| 0 <= k < 3 && !(#[trigger] good(k));
        assert(!tables_four(k, answers, 39 + 8 * k));
    }
}

/// The part `end`.
proof fn lemma_tables_end(contents: Contents, answers: Seq<Answer>)
    requires
        contents.full(),
        tables_shaped(answers),
    ensures
        match crate::walk::walked(last_wait(), 0, 1, contents, answers, 63) {
            Some((after, next)) => {
                &&& tables_end(answers)
                &&& after.full()
                &&& next == 64
            },
            None => !tables_end(answers),
        },
        last_wait().len() == 1,
{
    let steps = last_wait();
    crate::laws::steps::lemma_command(steps, 0, 1, contents, answers, 63);
    crate::laws::steps::lemma_end(steps, 1, contents, answers, 64);
}

/// The test has no jumps.
proof fn lemma_tables_straight()
    ensures
        forall|j: int|
            0 <= j < crate::categories::c03_pointer_bounds::multi_column_strides_steps().len()
                ==> crate::walk::straight(
                #[trigger] crate::categories::c03_pointer_bounds::multi_column_strides_steps()[j],
            ),
{
    let part1 = crate::script::rounds(
        3,
        |k: int| crate::categories::c03_pointer_bounds::table_round(
            2,
            TABLE_SIZES@[k],
            Layout::Two,
        ),
    );
    let round1 = |k: int| crate::categories::c03_pointer_bounds::table_round(
        2,
        TABLE_SIZES@[k],
        Layout::Two,
    );
    assert forall|k: int, j: int| 0 <= k < 3
        && 0 <= j < round1(k).len() implies crate::walk::straight(
        #[trigger] round1(k)[j],
    ) by {
        lemma_table_straight(2, TABLE_SIZES@[k], Layout::Two);
    }
    crate::walk::law_straight_rounds_are_straight(3, round1);
    let part2 = crate::script::rounds(
        3,
        |k: int| crate::categories::c03_pointer_bounds::table_round(
            3,
            TABLE_SIZES@[k],
            Layout::Three,
        ),
    );
    let round2 = |k: int| crate::categories::c03_pointer_bounds::table_round(
        3,
        TABLE_SIZES@[k],
        Layout::Three,
    );
    assert forall|k: int, j: int| 0 <= k < 3
        && 0 <= j < round2(k).len() implies crate::walk::straight(
        #[trigger] round2(k)[j],
    ) by {
        lemma_table_straight(3, TABLE_SIZES@[k], Layout::Three);
    }
    crate::walk::law_straight_rounds_are_straight(3, round2);
    let part3 = crate::script::rounds(
        3,
        |k: int| crate::categories::c03_pointer_bounds::table_round(
            4,
            TABLE_SIZES@[k],
            Layout::Four,
        ),
    );
    let round3 = |k: int| crate::categories::c03_pointer_bounds::table_round(
        4,
        TABLE_SIZES@[k],
        Layout::Four,
    );
    assert forall|k: int, j: int| 0 <= k < 3
        && 0 <= j < round3(k).len() implies crate::walk::straight(
        #[trigger] round3(k)[j],
    ) by {
        lemma_table_straight(4, TABLE_SIZES@[k], Layout::Four);
    }
    crate::walk::law_straight_rounds_are_straight(3, round3);
    let part4 = last_wait();
    let whole1 = part1;
    let whole2 = whole1 + part2;
    crate::walk::law_straight_scripts_make_a_straight_one(whole1, part2);
    let whole3 = whole2 + part3;
    crate::walk::law_straight_scripts_make_a_straight_one(whole2, part3);
    let whole4 = whole3 + part4;
    crate::walk::law_straight_scripts_make_a_straight_one(whole3, part4);
    assert(crate::categories::c03_pointer_bounds::multi_column_strides_steps() == whole4);
}

/// The test of tables with two, three and four columns passes exactly when, for each size, a filter
/// leaves every other row, and each column holds the words of those rows.
pub proof fn law_tables_pass_exactly_when_every_other_row_is_kept(answers: Seq<Answer>)
    requires
        tables_shaped(answers),
    ensures
        crate::machine::run_of(
            crate::script::plan(
                "test_multi_column_strides",
                crate::categories::c03_pointer_bounds::multi_column_strides_steps(),
            ),
            answers,
        ).progress == Progress::Over(Ending::Passed) <==> {
            &&& forall|k: int|
                0 <= k < 3 ==> #[trigger] tables_two(k, answers, 6 * k)
            &&& forall|k: int|
                0 <= k < 3 ==> #[trigger] tables_three(k, answers, 18 + 7 * k)
            &&& forall|k: int|
                0 <= k < 3 ==> #[trigger] tables_four(k, answers, 39 + 8 * k)
            &&& tables_end(answers)
        },
{
    let plan = crate::script::plan(
        "test_multi_column_strides",
        crate::categories::c03_pointer_bounds::multi_column_strides_steps(),
    );
    let blank = Contents::blank(plan.texts);
    let part1 = crate::script::rounds(
        3,
        |k: int| crate::categories::c03_pointer_bounds::table_round(
            2,
            TABLE_SIZES@[k],
            Layout::Two,
        ),
    );
    let part2 = crate::script::rounds(
        3,
        |k: int| crate::categories::c03_pointer_bounds::table_round(
            3,
            TABLE_SIZES@[k],
            Layout::Three,
        ),
    );
    let part3 = crate::script::rounds(
        3,
        |k: int| crate::categories::c03_pointer_bounds::table_round(
            4,
            TABLE_SIZES@[k],
            Layout::Four,
        ),
    );
    let part4 = last_wait();
    let whole1 = part1;
    let whole2 = whole1 + part2;
    let whole3 = whole2 + part3;
    let whole4 = whole3 + part4;
    assert(plan.steps == whole4);
    lemma_tables_two_rounds(blank, answers);
    crate::walk::law_walks_over_two_scripts_compose(whole1, part2, blank, answers, 0);
    crate::walk::law_walks_over_two_scripts_compose(whole2, part3, blank, answers, 0);
    crate::walk::law_walks_over_two_scripts_compose(whole3, part4, blank, answers, 0);
    match crate::walk::walked(whole1, 0, whole1.len() as int, blank, answers, 0) {
        Some((after, _)) => {
            lemma_tables_three_rounds(after, answers);
            match crate::walk::walked(whole2, 0, whole2.len() as int, blank, answers, 0) {
                Some((after, _)) => {
                    lemma_tables_four_rounds(after, answers);
                    match crate::walk::walked(whole3, 0, whole3.len() as int, blank, answers, 0) {
                        Some((after, _)) => {
                            lemma_tables_end(after, answers);
                        },
                        None => {},
                    }
                },
                None => {},
            }
        },
        None => {},
    }
    lemma_tables_straight();
    crate::walk::law_passes_exactly_when_every_step_goes_through(plan, answers);
}

} // verus!
