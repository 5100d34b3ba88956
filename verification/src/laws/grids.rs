//! The laws of the tests of many blocks and of loops over the grid.

use vstd::prelude::*;
use crate::categories::c03_pointer_bounds::STRIDE_SIZES;
use crate::categories::c10_block_grid::{GRID_SIZES, MULTI_SIZES};
use crate::expr::{
    and, at, differs, len, lt, minus, modulo, num, over, pick, plus, reg, same_as, times, Expr,
};
use crate::machine::{Answer, Ending, Progress};
use crate::memory::Contents;
use crate::script::COUNT;

verus! {

/// The sizes of the test of many blocks.
proof fn lemma_size_of_multi(k: int)
    requires
        0 <= k < 4,
    ensures
        1000 <= MULTI_SIZES@[k] <= 1000000,
{
}

/// The sizes of the test of loops over the grid.
proof fn lemma_size_of_grid(k: int)
    requires
        0 <= k < 2,
    ensures
        5000000 <= GRID_SIZES@[k] <= 10000000,
{
}

/// The sizes of the test of loops that stride over the grid.
proof fn lemma_size_of_stride(k: int)
    requires
        0 <= k < 3,
    ensures
        100000 <= STRIDE_SIZES@[k] <= 1000000,
        STRIDE_SIZES@[k] % 2 == 0,
{
}

/// The places that are looked at.
proof fn lemma_places(n: u64, contents: Contents)
    requires
        1000 <= n <= 10000000,
    ensures
        crate::expr::value_of(over(num(n), num(2)), contents, 0) == Some((n / 2) as u64),
        crate::expr::value_of(over(num(n), num(4)), contents, 0) == Some((n / 4) as u64),
        crate::expr::value_of(over(times(num(n), num(3)), num(4)), contents, 0) == Some(
            (n * 3 / 4) as u64,
        ),
        crate::expr::value_of(over(num(n), num(10000)), contents, 0) == Some((n / 10000) as u64),
        crate::expr::value_of(minus(num(n), num(1000)), contents, 0) == Some((n - 1000) as u64),
        crate::expr::value_of(minus(num(n), num(100)), contents, 0) == Some((n - 100) as u64),
        crate::expr::value_of(minus(num(n), num(1)), contents, 0) == Some((n - 1) as u64),
        crate::expr::value_of(over(plus(num(n), num(9)), num(10)), contents, 0) == Some(
            ((n + 9) / 10) as u64,
        ),
        crate::expr::value_of(over(plus(num(n), num(99)), num(100)), contents, 0) == Some(
            ((n + 99) / 100) as u64,
        ),
        crate::expr::value_of(over(over(num(n), num(2)), num(2)), contents, 0) == Some(
            (n / 2 / 2) as u64,
        ),
        crate::expr::value_of(minus(over(num(n), num(2)), num(1)), contents, 0) == Some(
            (n / 2 - 1) as u64,
        ),
{
    reveal_with_fuel(crate::expr::value_of, 3);
}

/// Looking at the words at two places.
proof fn lemma_ordered(contents: Contents, early: Expr, late: Expr, first: u64, second: u64)
    requires
        contents.full(),
        crate::expr::value_of(early, contents, 0) == Some(first),
        crate::expr::value_of(late, contents, 0) == Some(second),
    ensures
        crate::expr::value_of(lt(at(1, late), at(1, early)), contents, 0) == Some(0u64)
            <==> crate::laws::samples::ordered_at(contents.columns[1], first as int, second as int),
{
    let words = contents.columns[1];
    assert(crate::expr::value_of(at(1, early), contents, 0) == (if first < words.len() {
        Some(words[first as int])
    } else {
        None
    }));
    assert(crate::expr::value_of(at(1, late), contents, 0) == (if second < words.len() {
        Some(words[second as int])
    } else {
        None
    }));
}

/// Looking at the word at place one thousand, where there are more.
proof fn lemma_ordered_beyond(contents: Contents, n: u64)
    requires
        contents.full(),
    ensures
        crate::expr::value_of(
            and(lt(num(1000), num(n)), lt(at(1, num(1000)), at(1, num(100)))),
            contents,
            0,
        ) == Some(0u64) <==> (1000 < n
            ==> crate::laws::samples::ordered_at(contents.columns[1], 100, 1000)),
{
    assert(crate::expr::value_of(num(100), contents, 0) == Some(100u64));
    assert(crate::expr::value_of(num(1000), contents, 0) == Some(1000u64));
    assert(crate::expr::value_of(num(n), contents, 0) == Some(n));
    lemma_ordered(contents, num(100), num(1000), 100, 1000);
    assert(crate::expr::value_of(lt(num(1000), num(n)), contents, 0) == Some(
        crate::expr::truth(1000 < n),
    ));
}

/// The last of the low places that are looked at.
pub open spec fn low_place(n: u64) -> int {
    if 1000 < n {
        1000
    } else {
        100
    }
}

/// The word at the last of the low places.
proof fn lemma_low(contents: Contents, n: u64)
    requires
        contents.full(),
    ensures
        crate::expr::value_of(
            pick(lt(num(1000), num(n)), at(1, num(1000)), at(1, num(100))),
            contents,
            0,
        ) == (if low_place(n) < contents.columns[1].len() {
            Some(contents.columns[1][low_place(n)])
        } else {
            None
        }),
{
    reveal_with_fuel(crate::expr::value_of, 3);
}

/// Looking at a word and at the one at the last of the low places.
proof fn lemma_above_low(contents: Contents, n: u64)
    requires
        contents.full(),
        1000 <= n <= 10000000,
        low_place(n) < contents.columns[1].len(),
        contents.registers[1] == contents.columns[1][low_place(n)],
    ensures
        crate::expr::value_of(lt(at(1, over(num(n), num(4))), reg(1)), contents, 0) == Some(0u64)
            <==> crate::laws::samples::ordered_at(
                contents.columns[1],
                low_place(n),
                (n / 4) as int,
            ),
{
    lemma_places(n, contents);
    let words = contents.columns[1];
    assert(crate::expr::value_of(reg(1), contents, 0) == Some(words[low_place(n)]));
    assert(crate::expr::value_of(at(1, over(num(n), num(4))), contents, 0) == (if n / 4
        < words.len() {
        Some(words[(n / 4) as int])
    } else {
        None
    }));
}

/// Whether there is a word at a place, and it is at most one.
pub open spec fn at_most_one(words: Seq<u64>, place: int) -> bool {
    place < words.len() && words[place] <= 1
}

/// Looking for a word greater than one.
proof fn lemma_at_most_one(contents: Contents, n: u64)
    requires
        contents.full(),
        1000 <= n <= 10000000,
    ensures
        crate::expr::value_of(lt(num(1), at(1, over(num(n), num(10000)))), contents, 0) == Some(
            0u64,
        ) <==> at_most_one(contents.columns[1], (n / 10000) as int),
{
    lemma_places(n, contents);
    let words = contents.columns[1];
    assert(crate::expr::value_of(num(1), contents, 0) == Some(1u64));
    assert(crate::expr::value_of(at(1, over(num(n), num(10000))), contents, 0) == (if n / 10000
        < words.len() {
        Some(words[(n / 10000) as int])
    } else {
        None
    }));
}

/// Whether the word at a place, if there is one, is the odd number with that index.
pub open spec fn odd_at(words: Seq<u64>, place: int) -> bool {
    place < words.len() ==> words[place] == 2 * place + 1
}

/// Looking for a word that is not the odd number with its index.
proof fn lemma_odd(contents: Contents, place: Expr, found: u64)
    requires
        contents.full(),
        contents.columns[2].len() <= u64::MAX,
        crate::expr::value_of(place, contents, 0) == Some(found),
        found <= 10000000,
    ensures
        crate::expr::value_of(
            and(
                lt(place, len(2)),
                differs(at(2, place), plus(times(place, num(2)), num(1))),
            ),
            contents,
            0,
        ) == Some(0u64) <==> odd_at(contents.columns[2], found as int),
{
    let words = contents.columns[2];
    assert(crate::expr::value_of(len(2), contents, 0) == Some(words.len() as u64));
    assert(crate::expr::value_of(lt(place, len(2)), contents, 0) == Some(
        crate::expr::truth(found < words.len()),
    ));
    assert(crate::expr::value_of(num(2), contents, 0) == Some(2u64));
    assert(crate::expr::value_of(num(1), contents, 0) == Some(1u64));
    assert(crate::expr::value_of(times(place, num(2)), contents, 0) == Some((found * 2) as u64));
    let expected = plus(times(place, num(2)), num(1));
    assert(crate::expr::value_of(expected, contents, 0) == Some((found * 2 + 1) as u64));
    crate::laws::steps::lemma_word_at(contents, 2, place, expected, found, (found * 2 + 1) as u64);
    crate::laws::steps::lemma_differs(at(2, place), expected, contents, 0);
    assert(crate::expr::value_of(at(2, place), contents, 0) == (if found < words.len() {
        Some(words[found as int])
    } else {
        None
    }));
}

/// Looking at the last word.
proof fn lemma_last_odd(contents: Contents, n: u64)
    requires
        contents.full(),
        contents.columns[2].len() <= u64::MAX,
        1000 <= n <= 10000000,
        n % 2 == 0,
    ensures
        crate::expr::value_of(
            differs(
                at(2, minus(len(2), num(1))),
                pick(
                    same_as(modulo(num(n), num(2)), num(0)),
                    minus(num(n), num(1)),
                    minus(num(n), num(2)),
                ),
            ),
            contents,
            0,
        ) == Some(0u64) <==> contents.columns[2].len() > 0 && contents.columns[2].last() == n - 1,
{
    let words = contents.columns[2];
    let expected = pick(
        same_as(modulo(num(n), num(2)), num(0)),
        minus(num(n), num(1)),
        minus(num(n), num(2)),
    );
    assert(crate::expr::value_of(expected, contents, 0) == Some((n - 1) as u64)) by {
        reveal_with_fuel(crate::expr::value_of, 4);
    }
    let place = minus(len(2), num(1));
    assert(crate::expr::value_of(place, contents, 0) == (if words.len() > 0 {
        Some((words.len() - 1) as u64)
    } else {
        None
    })) by {
        reveal_with_fuel(crate::expr::value_of, 2);
    }
    if words.len() > 0 {
        crate::laws::steps::lemma_word_at(
            contents,
            2,
            place,
            expected,
            (words.len() - 1) as u64,
            (n - 1) as u64,
        );
    } else {
        assert(crate::expr::value_of(at(2, place), contents, 0) is None);
        assert(crate::expr::value_of(differs(at(2, place), expected), contents, 0) is None) by {
            reveal_with_fuel(crate::expr::value_of, 3);
        }
    }
}

/// Whether the answers to the downloads of the test are columns or refusals.
pub open spec fn multi_shaped(answers: Seq<Answer>) -> bool {
    &&& answers.len() >= 29
    &&& forall|k: int| 0 <= k < 4 ==> #[trigger] answers[2 + 7 * k] is Count
    &&& forall|k: int|
        0 <= k < 4 ==> crate::laws::steps::column_or_refusal(#[trigger] answers[3 + 7 * k])
    &&& forall|k: int| 0 <= k < 4 ==> #[trigger] answers[5 + 7 * k] is Count
}

/// What the device has to answer in round `k` of the part `sizes`, from answer `used` on.
pub open spec fn multi_sizes(k: int, answers: Seq<Answer>, used: int) -> bool {
    &&& !(answers[used] is Failed)
    &&& !(answers[used + 1] is Failed)
    &&& answers[used + 2]->Count_0 == MULTI_SIZES@[k]
    &&& answers[used + 3] is Words
    &&& crate::laws::samples::word_is(answers[used + 3]->Words_0, 0, 0)
    &&& crate::laws::samples::word_is(
        answers[used + 3]->Words_0,
        (MULTI_SIZES@[k] / 2) as int,
        (MULTI_SIZES@[k] / 2) as int,
    )
    &&& crate::laws::samples::word_is(
        answers[used + 3]->Words_0,
        (MULTI_SIZES@[k] - 1) as int,
        (MULTI_SIZES@[k] - 1) as int,
    )
    &&& crate::laws::samples::ordered_at(answers[used + 3]->Words_0, 0, 100)
    &&& (
        1000 < MULTI_SIZES@[k] ==> crate::laws::samples::ordered_at(
            answers[used + 3]->Words_0,
            100,
            1000,
        )
    )
    &&& low_place(MULTI_SIZES@[k]) < answers[used + 3]->Words_0.len()
    &&& crate::laws::samples::ordered_at(
        answers[used + 3]->Words_0,
        low_place(MULTI_SIZES@[k]),
        (MULTI_SIZES@[k] / 4) as int,
    )
    &&& crate::laws::samples::ordered_at(
        answers[used + 3]->Words_0,
        (MULTI_SIZES@[k] / 4) as int,
        (MULTI_SIZES@[k] / 2) as int,
    )
    &&& crate::laws::samples::ordered_at(
        answers[used + 3]->Words_0,
        (MULTI_SIZES@[k] / 2) as int,
        (MULTI_SIZES@[k] * 3 / 4) as int,
    )
    &&& crate::laws::samples::ordered_at(
        answers[used + 3]->Words_0,
        (MULTI_SIZES@[k] * 3 / 4) as int,
        (MULTI_SIZES@[k] - 100) as int,
    )
    &&& crate::laws::samples::ordered_at(
        answers[used + 3]->Words_0,
        (MULTI_SIZES@[k] - 100) as int,
        (MULTI_SIZES@[k] - 1) as int,
    )
    &&& !(answers[used + 4] is Failed)
    &&& answers[used + 5]->Count_0 == (MULTI_SIZES@[k] + 9) / 10
}

/// What the device has to answer in the part `end`.
pub open spec fn multi_end(answers: Seq<Answer>) -> bool {
    !(answers[28] is Failed)
}

/// One round of the part `sizes`.
proof fn lemma_multi_sizes(k: int, contents: Contents, answers: Seq<Answer>, used: int)
    requires
        0 <= k < 4,
        used == 7 * k,
        contents.full(),
        multi_shaped(answers),
    ensures
        match crate::walk::walked(
            crate::categories::c10_block_grid::multi_block_operations_sizes_round(k as u64),
            0,
            22,
            contents,
            answers,
            used,
        ) {
            Some((after, next)) => {
                &&& multi_sizes(k, answers, used)
                &&& after.full()
                &&& next == 7 * (k + 1)
            },
            None => !multi_sizes(k, answers, used),
        },
        crate::categories::c10_block_grid::multi_block_operations_sizes_round(k as u64).len() == 22,
{
    let steps = crate::categories::c10_block_grid::multi_block_operations_sizes_round(k as u64);
    assert(answers[2 + 7 * k] is Count);
    assert(crate::laws::steps::column_or_refusal(answers[3 + 7 * k]));
    assert(answers[5 + 7 * k] is Count);
    lemma_size_of_multi(k);
    crate::laws::words::lemma_falling(MULTI_SIZES@[k], contents);
    let words1 = crate::laws::words::falling(MULTI_SIZES@[k]);
    crate::laws::steps::lemma_fill(steps, 0, 22, contents, answers, used, words1);
    let next1 = contents.with_column(0, words1);
    crate::laws::steps::lemma_command(steps, 1, 22, next1, answers, used);
    crate::laws::steps::lemma_command(steps, 2, 22, next1, answers, used + 1);
    crate::laws::steps::lemma_number(
        steps,
        3,
        22,
        next1,
        answers,
        used + 2,
        answers[used + 2]->Count_0,
    );
    let next2 = next1.with_register(0, answers[used + 2]->Count_0);
    crate::laws::steps::lemma_register(next2, 0, num(MULTI_SIZES@[k]), MULTI_SIZES@[k]);
    crate::laws::steps::lemma_check(
        steps,
        4,
        22,
        next2,
        answers,
        used + 3,
        !(answers[used + 2]->Count_0 == MULTI_SIZES@[k]),
    );
    crate::laws::steps::lemma_download(steps, 5, 22, next2, answers, used + 3);
    if answers[used + 3] is Words {
        let next3 = next2.with_column(1, answers[used + 3]->Words_0);
        crate::laws::steps::lemma_word_at(next3, 1, num(0), num(0), 0, 0);
        crate::laws::steps::lemma_check_or_abort(
            steps,
            6,
            22,
            next3,
            answers,
            used + 4,
            crate::laws::samples::word_is(answers[used + 3]->Words_0, 0, 0),
        );
        lemma_places(MULTI_SIZES@[k], next3);
        crate::laws::steps::lemma_word_at(
            next3,
            1,
            over(num(MULTI_SIZES@[k]), num(2)),
            over(num(MULTI_SIZES@[k]), num(2)),
            ((MULTI_SIZES@[k] / 2) as int) as u64,
            ((MULTI_SIZES@[k] / 2) as int) as u64,
        );
        crate::laws::steps::lemma_check_or_abort(
            steps,
            7,
            22,
            next3,
            answers,
            used + 4,
            crate::laws::samples::word_is(
                answers[used + 3]->Words_0,
                (MULTI_SIZES@[k] / 2) as int,
                (MULTI_SIZES@[k] / 2) as int,
            ),
        );
        lemma_places(MULTI_SIZES@[k], next3);
        crate::laws::steps::lemma_word_at(
            next3,
            1,
            minus(num(MULTI_SIZES@[k]), num(1)),
            minus(num(MULTI_SIZES@[k]), num(1)),
            ((MULTI_SIZES@[k] - 1) as int) as u64,
            ((MULTI_SIZES@[k] - 1) as int) as u64,
        );
        crate::laws::steps::lemma_check_or_abort(
            steps,
            8,
            22,
            next3,
            answers,
            used + 4,
            crate::laws::samples::word_is(
                answers[used + 3]->Words_0,
                (MULTI_SIZES@[k] - 1) as int,
                (MULTI_SIZES@[k] - 1) as int,
            ),
        );
        lemma_places(MULTI_SIZES@[k], next3);
        assert(crate::expr::value_of(num(0), next3, 0) == Some(0u64));
        assert(crate::expr::value_of(num(100), next3, 0) == Some(100u64));
        lemma_ordered(next3, num(0), num(100), 0, 100);
        crate::laws::steps::lemma_check_or_abort(
            steps,
            9,
            22,
            next3,
            answers,
            used + 4,
            crate::laws::samples::ordered_at(answers[used + 3]->Words_0, 0, 100),
        );
        lemma_ordered_beyond(next3, MULTI_SIZES@[k]);
        crate::laws::steps::lemma_check_or_abort(
            steps,
            10,
            22,
            next3,
            answers,
            used + 4,
            (
                1000 < MULTI_SIZES@[k] ==> crate::laws::samples::ordered_at(
                    answers[used + 3]->Words_0,
                    100,
                    1000,
                )
            ),
        );
        lemma_low(next3, MULTI_SIZES@[k]);
        crate::laws::steps::lemma_put_or_abort(steps, 11, 22, next3, answers, used + 4);
        if low_place(MULTI_SIZES@[k]) < answers[used + 3]->Words_0.len() {
            let next4 = next3.with_register(
                1,
                answers[used + 3]->Words_0[low_place(MULTI_SIZES@[k])],
            );
            lemma_above_low(next4, MULTI_SIZES@[k]);
            crate::laws::steps::lemma_check_or_abort(
                steps,
                12,
                22,
                next4,
                answers,
                used + 4,
                crate::laws::samples::ordered_at(
                    answers[used + 3]->Words_0,
                    low_place(MULTI_SIZES@[k]),
                    (MULTI_SIZES@[k] / 4) as int,
                ),
            );
            lemma_places(MULTI_SIZES@[k], next4);
            assert(crate::expr::value_of(num(0), next4, 0) == Some(0u64));
            assert(crate::expr::value_of(num(100), next4, 0) == Some(100u64));
            lemma_ordered(
                next4,
                over(num(MULTI_SIZES@[k]), num(4)),
                over(num(MULTI_SIZES@[k]), num(2)),
                ((MULTI_SIZES@[k] / 4) as int) as u64,
                ((MULTI_SIZES@[k] / 2) as int) as u64,
            );
            crate::laws::steps::lemma_check_or_abort(
                steps,
                13,
                22,
                next4,
                answers,
                used + 4,
                crate::laws::samples::ordered_at(
                    answers[used + 3]->Words_0,
                    (MULTI_SIZES@[k] / 4) as int,
                    (MULTI_SIZES@[k] / 2) as int,
                ),
            );
            lemma_places(MULTI_SIZES@[k], next4);
            assert(crate::expr::value_of(num(0), next4, 0) == Some(0u64));
            assert(crate::expr::value_of(num(100), next4, 0) == Some(100u64));
            lemma_ordered(
                next4,
                over(num(MULTI_SIZES@[k]), num(2)),
                over(times(num(MULTI_SIZES@[k]), num(3)), num(4)),
                ((MULTI_SIZES@[k] / 2) as int) as u64,
                ((MULTI_SIZES@[k] * 3 / 4) as int) as u64,
            );
            crate::laws::steps::lemma_check_or_abort(
                steps,
                14,
                22,
                next4,
                answers,
                used + 4,
                crate::laws::samples::ordered_at(
                    answers[used + 3]->Words_0,
                    (MULTI_SIZES@[k] / 2) as int,
                    (MULTI_SIZES@[k] * 3 / 4) as int,
                ),
            );
            lemma_places(MULTI_SIZES@[k], next4);
            assert(crate::expr::value_of(num(0), next4, 0) == Some(0u64));
            assert(crate::expr::value_of(num(100), next4, 0) == Some(100u64));
            lemma_ordered(
                next4,
                over(times(num(MULTI_SIZES@[k]), num(3)), num(4)),
                minus(num(MULTI_SIZES@[k]), num(100)),
                ((MULTI_SIZES@[k] * 3 / 4) as int) as u64,
                ((MULTI_SIZES@[k] - 100) as int) as u64,
            );
            crate::laws::steps::lemma_check_or_abort(
                steps,
                15,
                22,
                next4,
                answers,
                used + 4,
                crate::laws::samples::ordered_at(
                    answers[used + 3]->Words_0,
                    (MULTI_SIZES@[k] * 3 / 4) as int,
                    (MULTI_SIZES@[k] - 100) as int,
                ),
            );
            lemma_places(MULTI_SIZES@[k], next4);
            assert(crate::expr::value_of(num(0), next4, 0) == Some(0u64));
            assert(crate::expr::value_of(num(100), next4, 0) == Some(100u64));
            lemma_ordered(
                next4,
                minus(num(MULTI_SIZES@[k]), num(100)),
                minus(num(MULTI_SIZES@[k]), num(1)),
                ((MULTI_SIZES@[k] - 100) as int) as u64,
                ((MULTI_SIZES@[k] - 1) as int) as u64,
            );
            crate::laws::steps::lemma_check_or_abort(
                steps,
                16,
                22,
                next4,
                answers,
                used + 4,
                crate::laws::samples::ordered_at(
                    answers[used + 3]->Words_0,
                    (MULTI_SIZES@[k] - 100) as int,
                    (MULTI_SIZES@[k] - 1) as int,
                ),
            );
            crate::laws::masks::lemma_remainder_words(10, MULTI_SIZES@[k], next4);
            let words5 = crate::laws::masks::every(10, MULTI_SIZES@[k] as nat);
            crate::laws::steps::lemma_fill(steps, 17, 22, next4, answers, used + 4, words5);
            let next5 = next4.with_column(2, words5);
            crate::laws::steps::lemma_command(steps, 18, 22, next5, answers, used + 4);
            crate::laws::steps::lemma_number(
                steps,
                19,
                22,
                next5,
                answers,
                used + 5,
                answers[used + 5]->Count_0,
            );
            let next6 = next5.with_register(0, answers[used + 5]->Count_0);
            lemma_places(MULTI_SIZES@[k], next6);
            crate::laws::steps::lemma_register(
                next6,
                0,
                over(plus(num(MULTI_SIZES@[k]), num(9)), num(10)),
                ((MULTI_SIZES@[k] + 9) / 10) as u64,
            );
            crate::laws::steps::lemma_check(
                steps,
                20,
                22,
                next6,
                answers,
                used + 6,
                !(answers[used + 5]->Count_0 == (MULTI_SIZES@[k] + 9) / 10),
            );
            crate::laws::steps::lemma_command(steps, 21, 22, next6, answers, used + 6);
            crate::laws::steps::lemma_end(steps, 22, next6, answers, used + 7);
        }
    }
}

/// All rounds of the part `sizes`.
proof fn lemma_multi_sizes_rounds(contents: Contents, answers: Seq<Answer>)
    requires
        contents.full(),
        multi_shaped(answers),
    ensures
        ({
            let steps = crate::script::rounds(
                4,
                |k: int| crate::categories::c10_block_grid::multi_block_operations_sizes_round(
                    k as u64,
                ),
            );
            match crate::walk::walked(steps, 0, steps.len() as int, contents, answers, 0) {
                Some((after, next)) => {
                    &&& forall|k: int| 0 <= k < 4 ==> #[trigger] multi_sizes(k, answers, 7 * k)
                    &&& after.full()
                    &&& next == 28
                },
                None => !(forall|k: int|
                    0 <= k < 4 ==> #[trigger] multi_sizes(k, answers, 7 * k)),
            }
        }),
{
    let round = |k: int| crate::categories::c10_block_grid::multi_block_operations_sizes_round(
        k as u64,
    );
    let start = |k: int| 7 * k;
    let good = |k: int| multi_sizes(k, answers, start(k));
    let kept = |contents: Contents| contents.full();
    assert forall|k: int, contents: Contents|
        #![trigger good(k), kept(contents)]
        0 <= k < 4 && kept(contents) implies if good(k) {
        crate::walk::goes_to(round(k), contents, answers, start(k), start(k + 1), kept)
    } else {
        crate::walk::walked(round(k), 0, round(k).len() as int, contents, answers, start(k)) is None
    } by {
        lemma_multi_sizes(k, contents, answers, start(k));
    }
    crate::walk::law_rounds_keep_what_each_keeps(4, round, start, good, kept, contents, answers);
    if forall|k: int| 0 <= k < 4 ==> #[trigger] good(k) {
        assert forall|k: int| 0 <= k < 4 implies #[trigger] multi_sizes(k, answers, 7 * k) by {
            assert(good(k));
        }
    } else {
        let k = choose|k: int| 0 <= k < 4 && !(#[trigger] good(k));
        assert(!multi_sizes(k, answers, 7 * k));
    }
}

/// The part `end`.
proof fn lemma_multi_end(contents: Contents, answers: Seq<Answer>)
    requires
        contents.full(),
        multi_shaped(answers),
    ensures
        match crate::walk::walked(
            crate::categories::c10_block_grid::multi_block_operations_end_steps(),
            0,
            1,
            contents,
            answers,
            28,
        ) {
            Some((after, next)) => {
                &&& multi_end(answers)
                &&& after.full()
                &&& next == 29
            },
            None => !multi_end(answers),
        },
        crate::categories::c10_block_grid::multi_block_operations_end_steps().len() == 1,
{
    let steps = crate::categories::c10_block_grid::multi_block_operations_end_steps();
    crate::laws::steps::lemma_command(steps, 0, 1, contents, answers, 28);
    crate::laws::steps::lemma_end(steps, 1, contents, answers, 29);
}

/// The test has no jumps.
proof fn lemma_multi_straight()
    ensures
        forall|j: int|
            0 <= j < crate::categories::c10_block_grid::multi_block_operations_steps().len()
                ==> crate::walk::straight(
                #[trigger] crate::categories::c10_block_grid::multi_block_operations_steps()[j],
            ),
{
    let part1 = crate::script::rounds(
        4,
        |k: int| crate::categories::c10_block_grid::multi_block_operations_sizes_round(k as u64),
    );
    let round1 = |k: int| crate::categories::c10_block_grid::multi_block_operations_sizes_round(
        k as u64,
    );
    crate::walk::law_straight_rounds_are_straight(4, round1);
    let part2 = crate::categories::c10_block_grid::multi_block_operations_end_steps();
    let whole1 = part1;
    let whole2 = whole1 + part2;
    crate::walk::law_straight_scripts_make_a_straight_one(whole1, part2);
    assert(crate::categories::c10_block_grid::multi_block_operations_steps() == whole2);
}

/// The test of many blocks passes exactly when, for each size, a sort leaves all rows, with the
/// first, the middle and the last number at their places and the words at the places looked at in
/// rising order, and a filter of every tenth row leaves a tenth of them, rounded up.
pub proof fn law_many_blocks_pass_exactly_when_sorted_and_filtered(answers: Seq<Answer>)
    requires
        multi_shaped(answers),
    ensures
        crate::machine::run_of(
            crate::script::plan(
                "test_multi_block_operations",
                crate::categories::c10_block_grid::multi_block_operations_steps(),
            ),
            answers,
        ).progress == Progress::Over(Ending::Passed) <==> {
            &&& forall|k: int|
                0 <= k < 4 ==> #[trigger] multi_sizes(k, answers, 7 * k)
            &&& multi_end(answers)
        },
{
    let plan = crate::script::plan(
        "test_multi_block_operations",
        crate::categories::c10_block_grid::multi_block_operations_steps(),
    );
    let blank = Contents::blank(plan.texts);
    let part1 = crate::script::rounds(
        4,
        |k: int| crate::categories::c10_block_grid::multi_block_operations_sizes_round(k as u64),
    );
    let part2 = crate::categories::c10_block_grid::multi_block_operations_end_steps();
    let whole1 = part1;
    let whole2 = whole1 + part2;
    assert(plan.steps == whole2);
    lemma_multi_sizes_rounds(blank, answers);
    crate::walk::law_walks_over_two_scripts_compose(whole1, part2, blank, answers, 0);
    match crate::walk::walked(whole1, 0, whole1.len() as int, blank, answers, 0) {
        Some((after, _)) => {
            lemma_multi_end(after, answers);
        },
        None => {},
    }
    lemma_multi_straight();
    crate::walk::law_passes_exactly_when_every_step_goes_through(plan, answers);
}

/// Whether the answers to the downloads of the test are columns or refusals.
pub open spec fn grid_shaped(answers: Seq<Answer>) -> bool {
    &&& answers.len() >= 15
    &&& forall|k: int| 0 <= k < 2 ==> #[trigger] answers[2 + 7 * k] is Count
    &&& forall|k: int|
        0 <= k < 2 ==> crate::laws::steps::column_or_refusal(#[trigger] answers[3 + 7 * k])
    &&& forall|k: int| 0 <= k < 2 ==> #[trigger] answers[5 + 7 * k] is Count
}

/// What the device has to answer in round `k` of the part `sizes`, from answer `used` on.
pub open spec fn grid_sizes(k: int, answers: Seq<Answer>, used: int) -> bool {
    &&& !(answers[used] is Failed)
    &&& !(answers[used + 1] is Failed)
    &&& answers[used + 2]->Count_0 == GRID_SIZES@[k]
    &&& answers[used + 3] is Words
    &&& crate::laws::samples::word_is(answers[used + 3]->Words_0, 0, 0)
    &&& crate::laws::samples::word_is(answers[used + 3]->Words_0, (GRID_SIZES@[k] - 1) as int, 9999)
    &&& crate::laws::samples::ordered_at(answers[used + 3]->Words_0, 0, 1000)
    &&& crate::laws::samples::ordered_at(answers[used + 3]->Words_0, 1000, 100000)
    &&& crate::laws::samples::ordered_at(answers[used + 3]->Words_0, 100000, 1000000)
    &&& crate::laws::samples::ordered_at(answers[used + 3]->Words_0, 1000000, 2500000)
    &&& crate::laws::samples::ordered_at(answers[used + 3]->Words_0, 2500000, 4000000)
    &&& crate::laws::samples::ordered_at(
        answers[used + 3]->Words_0,
        4000000,
        (GRID_SIZES@[k] - 1000) as int,
    )
    &&& crate::laws::samples::ordered_at(
        answers[used + 3]->Words_0,
        (GRID_SIZES@[k] - 1000) as int,
        (GRID_SIZES@[k] - 1) as int,
    )
    &&& at_most_one(answers[used + 3]->Words_0, (GRID_SIZES@[k] / 10000) as int)
    &&& !(answers[used + 4] is Failed)
    &&& answers[used + 5]->Count_0 == (GRID_SIZES@[k] + 99) / 100
}

/// What the device has to answer in the part `end`.
pub open spec fn grid_end(answers: Seq<Answer>) -> bool {
    !(answers[14] is Failed)
}

/// One round of the part `sizes`.
proof fn lemma_grid_sizes(k: int, contents: Contents, answers: Seq<Answer>, used: int)
    requires
        0 <= k < 2,
        used == 7 * k,
        contents.full(),
        grid_shaped(answers),
    ensures
        match crate::walk::walked(
            crate::categories::c10_block_grid::grid_stride_correctness_sizes_round(k as u64),
            0,
            21,
            contents,
            answers,
            used,
        ) {
            Some((after, next)) => {
                &&& grid_sizes(k, answers, used)
                &&& after.full()
                &&& next == 7 * (k + 1)
            },
            None => !grid_sizes(k, answers, used),
        },
        crate::categories::c10_block_grid::grid_stride_correctness_sizes_round(
            k as u64,
        ).len() == 21,
{
    let steps = crate::categories::c10_block_grid::grid_stride_correctness_sizes_round(k as u64);
    assert(answers[2 + 7 * k] is Count);
    assert(crate::laws::steps::column_or_refusal(answers[3 + 7 * k]));
    assert(answers[5 + 7 * k] is Count);
    lemma_size_of_grid(k);
    crate::laws::words::lemma_cyclic(10000, GRID_SIZES@[k], contents);
    let words1 = crate::laws::words::cyclic(10000, GRID_SIZES@[k]);
    crate::laws::steps::lemma_fill(steps, 0, 21, contents, answers, used, words1);
    let next1 = contents.with_column(0, words1);
    crate::laws::steps::lemma_command(steps, 1, 21, next1, answers, used);
    crate::laws::steps::lemma_command(steps, 2, 21, next1, answers, used + 1);
    crate::laws::steps::lemma_number(
        steps,
        3,
        21,
        next1,
        answers,
        used + 2,
        answers[used + 2]->Count_0,
    );
    let next2 = next1.with_register(0, answers[used + 2]->Count_0);
    crate::laws::steps::lemma_register(next2, 0, num(GRID_SIZES@[k]), GRID_SIZES@[k]);
    crate::laws::steps::lemma_check(
        steps,
        4,
        21,
        next2,
        answers,
        used + 3,
        !(answers[used + 2]->Count_0 == GRID_SIZES@[k]),
    );
    crate::laws::steps::lemma_download(steps, 5, 21, next2, answers, used + 3);
    if answers[used + 3] is Words {
        let next3 = next2.with_column(1, answers[used + 3]->Words_0);
        crate::laws::steps::lemma_word_at(next3, 1, num(0), num(0), 0, 0);
        crate::laws::steps::lemma_check_or_abort(
            steps,
            6,
            21,
            next3,
            answers,
            used + 4,
            crate::laws::samples::word_is(answers[used + 3]->Words_0, 0, 0),
        );
        lemma_places(GRID_SIZES@[k], next3);
        crate::laws::steps::lemma_word_at(
            next3,
            1,
            minus(num(GRID_SIZES@[k]), num(1)),
            num(9999),
            ((GRID_SIZES@[k] - 1) as int) as u64,
            9999,
        );
        crate::laws::steps::lemma_check_or_abort(
            steps,
            7,
            21,
            next3,
            answers,
            used + 4,
            crate::laws::samples::word_is(
                answers[used + 3]->Words_0,
                (GRID_SIZES@[k] - 1) as int,
                9999,
            ),
        );
        lemma_places(GRID_SIZES@[k], next3);
        assert(crate::expr::value_of(num(0), next3, 0) == Some(0u64));
        assert(crate::expr::value_of(num(1000), next3, 0) == Some(1000u64));
        lemma_ordered(next3, num(0), num(1000), 0, 1000);
        crate::laws::steps::lemma_check_or_abort(
            steps,
            8,
            21,
            next3,
            answers,
            used + 4,
            crate::laws::samples::ordered_at(answers[used + 3]->Words_0, 0, 1000),
        );
        lemma_places(GRID_SIZES@[k], next3);
        assert(crate::expr::value_of(num(1000), next3, 0) == Some(1000u64));
        assert(crate::expr::value_of(num(100000), next3, 0) == Some(100000u64));
        lemma_ordered(next3, num(1000), num(100000), 1000, 100000);
        crate::laws::steps::lemma_check_or_abort(
            steps,
            9,
            21,
            next3,
            answers,
            used + 4,
            crate::laws::samples::ordered_at(answers[used + 3]->Words_0, 1000, 100000),
        );
        lemma_places(GRID_SIZES@[k], next3);
        assert(crate::expr::value_of(num(100000), next3, 0) == Some(100000u64));
        assert(crate::expr::value_of(num(1000000), next3, 0) == Some(1000000u64));
        lemma_ordered(next3, num(100000), num(1000000), 100000, 1000000);
        crate::laws::steps::lemma_check_or_abort(
            steps,
            10,
            21,
            next3,
            answers,
            used + 4,
            crate::laws::samples::ordered_at(answers[used + 3]->Words_0, 100000, 1000000),
        );
        lemma_places(GRID_SIZES@[k], next3);
        assert(crate::expr::value_of(num(1000000), next3, 0) == Some(1000000u64));
        assert(crate::expr::value_of(num(2500000), next3, 0) == Some(2500000u64));
        lemma_ordered(next3, num(1000000), num(2500000), 1000000, 2500000);
        crate::laws::steps::lemma_check_or_abort(
            steps,
            11,
            21,
            next3,
            answers,
            used + 4,
            crate::laws::samples::ordered_at(answers[used + 3]->Words_0, 1000000, 2500000),
        );
        lemma_places(GRID_SIZES@[k], next3);
        assert(crate::expr::value_of(num(2500000), next3, 0) == Some(2500000u64));
        assert(crate::expr::value_of(num(4000000), next3, 0) == Some(4000000u64));
        lemma_ordered(next3, num(2500000), num(4000000), 2500000, 4000000);
        crate::laws::steps::lemma_check_or_abort(
            steps,
            12,
            21,
            next3,
            answers,
            used + 4,
            crate::laws::samples::ordered_at(answers[used + 3]->Words_0, 2500000, 4000000),
        );
        lemma_places(GRID_SIZES@[k], next3);
        assert(crate::expr::value_of(num(4000000), next3, 0) == Some(4000000u64));
        lemma_ordered(
            next3,
            num(4000000),
            minus(num(GRID_SIZES@[k]), num(1000)),
            4000000,
            ((GRID_SIZES@[k] - 1000) as int) as u64,
        );
        crate::laws::steps::lemma_check_or_abort(
            steps,
            13,
            21,
            next3,
            answers,
            used + 4,
            crate::laws::samples::ordered_at(
                answers[used + 3]->Words_0,
                4000000,
                (GRID_SIZES@[k] - 1000) as int,
            ),
        );
        lemma_places(GRID_SIZES@[k], next3);
        lemma_ordered(
            next3,
            minus(num(GRID_SIZES@[k]), num(1000)),
            minus(num(GRID_SIZES@[k]), num(1)),
            ((GRID_SIZES@[k] - 1000) as int) as u64,
            ((GRID_SIZES@[k] - 1) as int) as u64,
        );
        crate::laws::steps::lemma_check_or_abort(
            steps,
            14,
            21,
            next3,
            answers,
            used + 4,
            crate::laws::samples::ordered_at(
                answers[used + 3]->Words_0,
                (GRID_SIZES@[k] - 1000) as int,
                (GRID_SIZES@[k] - 1) as int,
            ),
        );
        lemma_at_most_one(next3, GRID_SIZES@[k]);
        crate::laws::steps::lemma_check_or_abort(
            steps,
            15,
            21,
            next3,
            answers,
            used + 4,
            at_most_one(answers[used + 3]->Words_0, (GRID_SIZES@[k] / 10000) as int),
        );
        crate::laws::masks::lemma_remainder_words(100, GRID_SIZES@[k], next3);
        let words4 = crate::laws::masks::every(100, GRID_SIZES@[k] as nat);
        crate::laws::steps::lemma_fill(steps, 16, 21, next3, answers, used + 4, words4);
        let next4 = next3.with_column(2, words4);
        crate::laws::steps::lemma_command(steps, 17, 21, next4, answers, used + 4);
        crate::laws::steps::lemma_number(
            steps,
            18,
            21,
            next4,
            answers,
            used + 5,
            answers[used + 5]->Count_0,
        );
        let next5 = next4.with_register(0, answers[used + 5]->Count_0);
        lemma_places(GRID_SIZES@[k], next5);
        crate::laws::steps::lemma_register(
            next5,
            0,
            over(plus(num(GRID_SIZES@[k]), num(99)), num(100)),
            ((GRID_SIZES@[k] + 99) / 100) as u64,
        );
        crate::laws::steps::lemma_check(
            steps,
            19,
            21,
            next5,
            answers,
            used + 6,
            !(answers[used + 5]->Count_0 == (GRID_SIZES@[k] + 99) / 100),
        );
        crate::laws::steps::lemma_command(steps, 20, 21, next5, answers, used + 6);
        crate::laws::steps::lemma_end(steps, 21, next5, answers, used + 7);
    }
}

/// All rounds of the part `sizes`.
proof fn lemma_grid_sizes_rounds(contents: Contents, answers: Seq<Answer>)
    requires
        contents.full(),
        grid_shaped(answers),
    ensures
        ({
            let steps = crate::script::rounds(
                2,
                |k: int| crate::categories::c10_block_grid::grid_stride_correctness_sizes_round(
                    k as u64,
                ),
            );
            match crate::walk::walked(steps, 0, steps.len() as int, contents, answers, 0) {
                Some((after, next)) => {
                    &&& forall|k: int| 0 <= k < 2 ==> #[trigger] grid_sizes(k, answers, 7 * k)
                    &&& after.full()
                    &&& next == 14
                },
                None => !(forall|k: int|
                    0 <= k < 2 ==> #[trigger] grid_sizes(k, answers, 7 * k)),
            }
        }),
{
    let round = |k: int| crate::categories::c10_block_grid::grid_stride_correctness_sizes_round(
        k as u64,
    );
    let start = |k: int| 7 * k;
    let good = |k: int| grid_sizes(k, answers, start(k));
    let kept = |contents: Contents| contents.full();
    assert forall|k: int, contents: Contents|
        #![trigger good(k), kept(contents)]
        0 <= k < 2 && kept(contents) implies if good(k) {
        crate::walk::goes_to(round(k), contents, answers, start(k), start(k + 1), kept)
    } else {
        crate::walk::walked(round(k), 0, round(k).len() as int, contents, answers, start(k)) is None
    } by {
        lemma_grid_sizes(k, contents, answers, start(k));
    }
    crate::walk::law_rounds_keep_what_each_keeps(2, round, start, good, kept, contents, answers);
    if forall|k: int| 0 <= k < 2 ==> #[trigger] good(k) {
        assert forall|k: int| 0 <= k < 2 implies #[trigger] grid_sizes(k, answers, 7 * k) by {
            assert(good(k));
        }
    } else {
        let k = choose|k: int| 0 <= k < 2 && !(#[trigger] good(k));
        assert(!grid_sizes(k, answers, 7 * k));
    }
}

/// The part `end`.
proof fn lemma_grid_end(contents: Contents, answers: Seq<Answer>)
    requires
        contents.full(),
        grid_shaped(answers),
    ensures
        match crate::walk::walked(
            crate::categories::c10_block_grid::grid_stride_correctness_end_steps(),
            0,
            1,
            contents,
            answers,
            14,
        ) {
            Some((after, next)) => {
                &&& grid_end(answers)
                &&& after.full()
                &&& next == 15
            },
            None => !grid_end(answers),
        },
        crate::categories::c10_block_grid::grid_stride_correctness_end_steps().len() == 1,
{
    let steps = crate::categories::c10_block_grid::grid_stride_correctness_end_steps();
    crate::laws::steps::lemma_command(steps, 0, 1, contents, answers, 14);
    crate::laws::steps::lemma_end(steps, 1, contents, answers, 15);
}

/// The test has no jumps.
proof fn lemma_grid_straight()
    ensures
        forall|j: int|
            0 <= j < crate::categories::c10_block_grid::grid_stride_correctness_steps().len()
                ==> crate::walk::straight(
                #[trigger] crate::categories::c10_block_grid::grid_stride_correctness_steps()[j],
            ),
{
    let part1 = crate::script::rounds(
        2,
        |k: int| crate::categories::c10_block_grid::grid_stride_correctness_sizes_round(k as u64),
    );
    let round1 = |k: int| crate::categories::c10_block_grid::grid_stride_correctness_sizes_round(
        k as u64,
    );
    crate::walk::law_straight_rounds_are_straight(2, round1);
    let part2 = crate::categories::c10_block_grid::grid_stride_correctness_end_steps();
    let whole1 = part1;
    let whole2 = whole1 + part2;
    crate::walk::law_straight_scripts_make_a_straight_one(whole1, part2);
    assert(crate::categories::c10_block_grid::grid_stride_correctness_steps() == whole2);
}

/// The test of loops over the grid passes exactly when, for each size, a sort leaves all rows, with
/// the first and the last number right, the words at the places looked at in rising order and the
/// one at a ten thousandth of the size at most one, and a filter of every hundredth row leaves a
/// hundredth of them, rounded up.
pub proof fn law_grid_loops_pass_exactly_when_sorted_and_filtered(answers: Seq<Answer>)
    requires
        grid_shaped(answers),
    ensures
        crate::machine::run_of(
            crate::script::plan(
                "test_grid_stride_correctness",
                crate::categories::c10_block_grid::grid_stride_correctness_steps(),
            ),
            answers,
        ).progress == Progress::Over(Ending::Passed) <==> {
            &&& forall|k: int|
                0 <= k < 2 ==> #[trigger] grid_sizes(k, answers, 7 * k)
            &&& grid_end(answers)
        },
{
    let plan = crate::script::plan(
        "test_grid_stride_correctness",
        crate::categories::c10_block_grid::grid_stride_correctness_steps(),
    );
    let blank = Contents::blank(plan.texts);
    let part1 = crate::script::rounds(
        2,
        |k: int| crate::categories::c10_block_grid::grid_stride_correctness_sizes_round(k as u64),
    );
    let part2 = crate::categories::c10_block_grid::grid_stride_correctness_end_steps();
    let whole1 = part1;
    let whole2 = whole1 + part2;
    assert(plan.steps == whole2);
    lemma_grid_sizes_rounds(blank, answers);
    crate::walk::law_walks_over_two_scripts_compose(whole1, part2, blank, answers, 0);
    match crate::walk::walked(whole1, 0, whole1.len() as int, blank, answers, 0) {
        Some((after, _)) => {
            lemma_grid_end(after, answers);
        },
        None => {},
    }
    lemma_grid_straight();
    crate::walk::law_passes_exactly_when_every_step_goes_through(plan, answers);
}

/// Whether the answers to the downloads of the test are columns or refusals.
pub open spec fn stride_shaped(answers: Seq<Answer>) -> bool {
    &&& answers.len() >= 16
    &&& forall|k: int|
        0 <= k < 3 ==> crate::laws::steps::column_or_refusal(#[trigger] answers[3 + 5 * k])
}

/// What the device has to answer in round `k` of the part `sizes`, from answer `used` on.
pub open spec fn stride_sizes(k: int, answers: Seq<Answer>, used: int) -> bool {
    &&& !(answers[used] is Failed)
    &&& !(answers[used + 1] is Failed)
    &&& answers[used + 2] == Answer::Count((STRIDE_SIZES@[k] / 2))
    &&& answers[used + 3] is Words
    &&& crate::laws::samples::word_is(answers[used + 3]->Words_0, 0, 1)
    &&& answers[used + 3]->Words_0.len() > 0
        && answers[used + 3]->Words_0.last() == STRIDE_SIZES@[k] - 1
    &&& odd_at(answers[used + 3]->Words_0, 0)
    &&& odd_at(answers[used + 3]->Words_0, 100)
    &&& odd_at(answers[used + 3]->Words_0, 1000)
    &&& odd_at(answers[used + 3]->Words_0, (STRIDE_SIZES@[k] / 2 / 2) as int)
    &&& odd_at(answers[used + 3]->Words_0, (STRIDE_SIZES@[k] / 2 - 1) as int)
}

/// What the device has to answer in the part `end`.
pub open spec fn stride_end(answers: Seq<Answer>) -> bool {
    !(answers[15] is Failed)
}

/// One round of the part `sizes`.
proof fn lemma_stride_sizes(k: int, contents: Contents, answers: Seq<Answer>, used: int)
    requires
        0 <= k < 3,
        used == 5 * k,
        contents.full(),
        stride_shaped(answers),
    ensures
        match crate::walk::walked(
            crate::categories::c03_pointer_bounds::grid_stride_loop_sizes_round(k as u64),
            0,
            14,
            contents,
            answers,
            used,
        ) {
            Some((after, next)) => {
                &&& stride_sizes(k, answers, used)
                &&& after.full()
                &&& next == 5 * (k + 1)
            },
            None => !stride_sizes(k, answers, used),
        },
        crate::categories::c03_pointer_bounds::grid_stride_loop_sizes_round(k as u64).len() == 14,
{
    let steps = crate::categories::c03_pointer_bounds::grid_stride_loop_sizes_round(k as u64);
    assert(crate::laws::steps::column_or_refusal(answers[3 + 5 * k]));
    lemma_size_of_stride(k);
    crate::laws::words::lemma_below(STRIDE_SIZES@[k], contents);
    let words1 = crate::laws::words::below(STRIDE_SIZES@[k]);
    crate::laws::steps::lemma_fill(steps, 0, 14, contents, answers, used, words1);
    let next1 = contents.with_column(0, words1);
    crate::laws::steps::lemma_command(steps, 1, 14, next1, answers, used);
    crate::laws::words::lemma_cyclic(2, STRIDE_SIZES@[k], next1);
    let words2 = crate::laws::words::cyclic(2, STRIDE_SIZES@[k]);
    crate::laws::steps::lemma_fill(steps, 2, 14, next1, answers, used + 1, words2);
    let next2 = next1.with_column(1, words2);
    crate::laws::steps::lemma_command(steps, 3, 14, next2, answers, used + 1);
    lemma_places(STRIDE_SIZES@[k], next2);
    crate::laws::steps::lemma_match(steps, 4, 14, next2, answers, used + 2, (STRIDE_SIZES@[k] / 2));
    let next3 = next2.with_register(COUNT, (STRIDE_SIZES@[k] / 2));
    crate::laws::steps::lemma_download(steps, 5, 14, next3, answers, used + 3);
    if answers[used + 3] is Words {
        let next4 = next3.with_column(2, answers[used + 3]->Words_0);
        crate::laws::steps::lemma_word_at(next4, 2, num(0), num(1), 0, 1);
        crate::laws::steps::lemma_check_or_abort(
            steps,
            6,
            14,
            next4,
            answers,
            used + 4,
            crate::laws::samples::word_is(answers[used + 3]->Words_0, 0, 1),
        );
        lemma_last_odd(next4, STRIDE_SIZES@[k]);
        crate::laws::steps::lemma_check_or_abort(
            steps,
            7,
            14,
            next4,
            answers,
            used + 4,
            answers[used + 3]->Words_0.len() > 0
                && answers[used + 3]->Words_0.last() == STRIDE_SIZES@[k] - 1,
        );
        lemma_places(STRIDE_SIZES@[k], next4);
        assert(crate::expr::value_of(num(0), next4, 0) == Some(0u64));
        lemma_odd(next4, num(0), 0);
        crate::laws::steps::lemma_check_or_abort(
            steps,
            8,
            14,
            next4,
            answers,
            used + 4,
            odd_at(answers[used + 3]->Words_0, 0),
        );
        lemma_places(STRIDE_SIZES@[k], next4);
        assert(crate::expr::value_of(num(100), next4, 0) == Some(100u64));
        lemma_odd(next4, num(100), 100);
        crate::laws::steps::lemma_check_or_abort(
            steps,
            9,
            14,
            next4,
            answers,
            used + 4,
            odd_at(answers[used + 3]->Words_0, 100),
        );
        lemma_places(STRIDE_SIZES@[k], next4);
        assert(crate::expr::value_of(num(1000), next4, 0) == Some(1000u64));
        lemma_odd(next4, num(1000), 1000);
        crate::laws::steps::lemma_check_or_abort(
            steps,
            10,
            14,
            next4,
            answers,
            used + 4,
            odd_at(answers[used + 3]->Words_0, 1000),
        );
        lemma_places(STRIDE_SIZES@[k], next4);
        lemma_odd(
            next4,
            over(over(num(STRIDE_SIZES@[k]), num(2)), num(2)),
            (STRIDE_SIZES@[k] / 2 / 2) as u64,
        );
        crate::laws::steps::lemma_check_or_abort(
            steps,
            11,
            14,
            next4,
            answers,
            used + 4,
            odd_at(answers[used + 3]->Words_0, (STRIDE_SIZES@[k] / 2 / 2) as int),
        );
        lemma_places(STRIDE_SIZES@[k], next4);
        lemma_odd(
            next4,
            minus(over(num(STRIDE_SIZES@[k]), num(2)), num(1)),
            (STRIDE_SIZES@[k] / 2 - 1) as u64,
        );
        crate::laws::steps::lemma_check_or_abort(
            steps,
            12,
            14,
            next4,
            answers,
            used + 4,
            odd_at(answers[used + 3]->Words_0, (STRIDE_SIZES@[k] / 2 - 1) as int),
        );
        crate::laws::steps::lemma_command(steps, 13, 14, next4, answers, used + 4);
        crate::laws::steps::lemma_end(steps, 14, next4, answers, used + 5);
    }
}

/// All rounds of the part `sizes`.
proof fn lemma_stride_sizes_rounds(contents: Contents, answers: Seq<Answer>)
    requires
        contents.full(),
        stride_shaped(answers),
    ensures
        ({
            let steps = crate::script::rounds(
                3,
                |k: int| crate::categories::c03_pointer_bounds::grid_stride_loop_sizes_round(
                    k as u64,
                ),
            );
            match crate::walk::walked(steps, 0, steps.len() as int, contents, answers, 0) {
                Some((after, next)) => {
                    &&& forall|k: int| 0 <= k < 3 ==> #[trigger] stride_sizes(k, answers, 5 * k)
                    &&& after.full()
                    &&& next == 15
                },
                None => !(forall|k: int|
                    0 <= k < 3 ==> #[trigger] stride_sizes(k, answers, 5 * k)),
            }
        }),
{
    let round = |k: int| crate::categories::c03_pointer_bounds::grid_stride_loop_sizes_round(
        k as u64,
    );
    let start = |k: int| 5 * k;
    let good = |k: int| stride_sizes(k, answers, start(k));
    let kept = |contents: Contents| contents.full();
    assert forall|k: int, contents: Contents|
        #![trigger good(k), kept(contents)]
        0 <= k < 3 && kept(contents) implies if good(k) {
        crate::walk::goes_to(round(k), contents, answers, start(k), start(k + 1), kept)
    } else {
        crate::walk::walked(round(k), 0, round(k).len() as int, contents, answers, start(k)) is None
    } by {
        lemma_stride_sizes(k, contents, answers, start(k));
    }
    crate::walk::law_rounds_keep_what_each_keeps(3, round, start, good, kept, contents, answers);
    if forall|k: int| 0 <= k < 3 ==> #[trigger] good(k) {
        assert forall|k: int| 0 <= k < 3 implies #[trigger] stride_sizes(k, answers, 5 * k) by {
            assert(good(k));
        }
    } else {
        let k = choose|k: int| 0 <= k < 3 && !(#[trigger] good(k));
        assert(!stride_sizes(k, answers, 5 * k));
    }
}

/// The part `end`.
proof fn lemma_stride_end(contents: Contents, answers: Seq<Answer>)
    requires
        contents.full(),
        stride_shaped(answers),
    ensures
        match crate::walk::walked(
            crate::categories::c03_pointer_bounds::grid_stride_loop_end_steps(),
            0,
            1,
            contents,
            answers,
            15,
        ) {
            Some((after, next)) => {
                &&& stride_end(answers)
                &&& after.full()
                &&& next == 16
            },
            None => !stride_end(answers),
        },
        crate::categories::c03_pointer_bounds::grid_stride_loop_end_steps().len() == 1,
{
    let steps = crate::categories::c03_pointer_bounds::grid_stride_loop_end_steps();
    crate::laws::steps::lemma_command(steps, 0, 1, contents, answers, 15);
    crate::laws::steps::lemma_end(steps, 1, contents, answers, 16);
}

/// The test has no jumps.
proof fn lemma_stride_straight()
    ensures
        forall|j: int|
            0 <= j < crate::categories::c03_pointer_bounds::grid_stride_loop_steps().len()
                ==> crate::walk::straight(
                #[trigger] crate::categories::c03_pointer_bounds::grid_stride_loop_steps()[j],
            ),
{
    let part1 = crate::script::rounds(
        3,
        |k: int| crate::categories::c03_pointer_bounds::grid_stride_loop_sizes_round(k as u64),
    );
    let round1 = |k: int| crate::categories::c03_pointer_bounds::grid_stride_loop_sizes_round(
        k as u64,
    );
    crate::walk::law_straight_rounds_are_straight(3, round1);
    let part2 = crate::categories::c03_pointer_bounds::grid_stride_loop_end_steps();
    let whole1 = part1;
    let whole2 = whole1 + part2;
    crate::walk::law_straight_scripts_make_a_straight_one(whole1, part2);
    assert(crate::categories::c03_pointer_bounds::grid_stride_loop_steps() == whole2);
}

/// The test of loops that stride over the grid passes exactly when, for each size, a filter leaves
/// half of the rows, from one to the last odd number, with the odd numbers at the places looked at.
pub proof fn law_strides_pass_exactly_when_odd_numbers_are_kept(answers: Seq<Answer>)
    requires
        stride_shaped(answers),
    ensures
        crate::machine::run_of(
            crate::script::plan(
                "test_grid_stride_loop",
                crate::categories::c03_pointer_bounds::grid_stride_loop_steps(),
            ),
            answers,
        ).progress == Progress::Over(Ending::Passed) <==> {
            &&& forall|k: int|
                0 <= k < 3 ==> #[trigger] stride_sizes(k, answers, 5 * k)
            &&& stride_end(answers)
        },
{
    let plan = crate::script::plan(
        "test_grid_stride_loop",
        crate::categories::c03_pointer_bounds::grid_stride_loop_steps(),
    );
    let blank = Contents::blank(plan.texts);
    let part1 = crate::script::rounds(
        3,
        |k: int| crate::categories::c03_pointer_bounds::grid_stride_loop_sizes_round(k as u64),
    );
    let part2 = crate::categories::c03_pointer_bounds::grid_stride_loop_end_steps();
    let whole1 = part1;
    let whole2 = whole1 + part2;
    assert(plan.steps == whole2);
    lemma_stride_sizes_rounds(blank, answers);
    crate::walk::law_walks_over_two_scripts_compose(whole1, part2, blank, answers, 0);
    match crate::walk::walked(whole1, 0, whole1.len() as int, blank, answers, 0) {
        Some((after, _)) => {
            lemma_stride_end(after, answers);
        },
        None => {},
    }
    lemma_stride_straight();
    crate::walk::law_passes_exactly_when_every_step_goes_through(plan, answers);
}

} // verus!
