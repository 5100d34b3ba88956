//! The laws of the tests that do the same again and look for the same result.

use vstd::prelude::*;
use crate::expr::{
    alike_rows, differs, here, ix, less_or_zero, lt, modulo, not, num, or, over, plus, reg,
    same_as, times,
};
use crate::machine::{Answer, Ending, Progress};
use crate::memory::Contents;
use crate::script::COUNT;

verus! {

/// Whether a round is the first one.
proof fn lemma_is_first(k: u64, contents: Contents)
    ensures
        crate::expr::value_of(same_as(num(k), num(0)), contents, 0) == Some(
            crate::expr::truth(k == 0),
        ),
        crate::expr::value_of(differs(num(k), num(0)), contents, 0) == Some(
            crate::expr::truth(k != 0),
        ),
{
    reveal_with_fuel(crate::expr::value_of, 3);
}

/// The keys of the column that is sorted again.
pub open spec fn reused() -> Seq<u64> {
    Seq::new(10000, |i: int| ((i * 17 + 13) % 10000) as u64)
}

/// One of the words of [`reused`].
proof fn lemma_reused_at(contents: Contents, i: u64)
    requires
        i < 10000,
    ensures
        crate::expr::value_of(
            modulo(plus(times(ix(), num(17)), num(13)), num(10000)),
            contents,
            i,
        ) == Some(reused()[i as int]),
{
    reveal_with_fuel(crate::expr::value_of, 4);
}

/// The words of [`reused`].
proof fn lemma_reused(contents: Contents)
    ensures
        forall|i: int|
            0 <= i < 10000 ==> #[trigger] crate::expr::value_of(
                modulo(plus(times(ix(), num(17)), num(13)), num(10000)),
                contents,
                i as u64,
            ) == Some(reused()[i]),
{
    assert forall|i: int| 0 <= i < 10000 implies #[trigger] crate::expr::value_of(
        modulo(plus(times(ix(), num(17)), num(13)), num(10000)),
        contents,
        i as u64,
    ) == Some(reused()[i]) by {
        lemma_reused_at(contents, i as u64);
    }
}

/// The keys of the left table.
pub open spec fn left_keys() -> Seq<u64> {
    Seq::new(5000, |i: int| (i * 3) as u64)
}

/// One of the words of [`left_keys`].
proof fn lemma_left_keys_at(contents: Contents, i: u64)
    requires
        i < 5000,
    ensures
        crate::expr::value_of(times(ix(), num(3)), contents, i) == Some(left_keys()[i as int]),
{
    reveal_with_fuel(crate::expr::value_of, 2);
}

/// The words of [`left_keys`].
proof fn lemma_left_keys(contents: Contents)
    ensures
        forall|i: int|
            0 <= i < 5000 ==> #[trigger] crate::expr::value_of(
                times(ix(), num(3)),
                contents,
                i as u64,
            ) == Some(left_keys()[i]),
{
    assert forall|i: int| 0 <= i < 5000 implies #[trigger] crate::expr::value_of(
        times(ix(), num(3)),
        contents,
        i as u64,
    ) == Some(left_keys()[i]) by {
        lemma_left_keys_at(contents, i as u64);
    }
}

/// The keys of the right table.
pub open spec fn right_keys() -> Seq<u64> {
    Seq::new(3000, |i: int| (i * 5) as u64)
}

/// One of the words of [`right_keys`].
proof fn lemma_right_keys_at(contents: Contents, i: u64)
    requires
        i < 3000,
    ensures
        crate::expr::value_of(times(ix(), num(5)), contents, i) == Some(right_keys()[i as int]),
{
    reveal_with_fuel(crate::expr::value_of, 2);
}

/// The words of [`right_keys`].
proof fn lemma_right_keys(contents: Contents)
    ensures
        forall|i: int|
            0 <= i < 3000 ==> #[trigger] crate::expr::value_of(
                times(ix(), num(5)),
                contents,
                i as u64,
            ) == Some(right_keys()[i]),
{
    assert forall|i: int| 0 <= i < 3000 implies #[trigger] crate::expr::value_of(
        times(ix(), num(5)),
        contents,
        i as u64,
    ) == Some(right_keys()[i]) by {
        lemma_right_keys_at(contents, i as u64);
    }
}

/// Whether the rows of two joins are not the same.
proof fn lemma_not_alike_rows(contents: Contents)
    requires
        contents.full(),
    ensures
        crate::expr::value_of(not(alike_rows(4, 7)), contents, 0) == Some(
            crate::expr::truth(
                crate::columns::rows(
                    contents.columns[4],
                    contents.columns[5],
                    contents.columns[6],
                ).to_set() != crate::columns::rows(
                    contents.columns[7],
                    contents.columns[8],
                    contents.columns[9],
                ).to_set(),
            ),
        ),
{
    reveal_with_fuel(crate::expr::value_of, 2);
}

/// The share of the rows, in percent, that turn `k` keeps.
pub open spec fn share(k: int) -> int {
    (k + 1) * 5
}

/// The mask of the rows that turn `k` keeps.
pub open spec fn shares(k: int) -> Seq<u64> {
    Seq::new(10000, |i: int| crate::expr::truth(i * 100 / 10000 < share(k)))
}

/// The number of [`share`].
proof fn lemma_share(k: int, contents: Contents, i: u64)
    requires
        0 <= k < 20,
    ensures
        crate::expr::value_of(
            times(plus(num(k as u64), num(1)), num(5)),
            contents,
            i,
        ) == Some(share(k) as u64),
{
    reveal_with_fuel(crate::expr::value_of, 3);
}

/// The words of [`shares`].
proof fn lemma_shares(k: int, contents: Contents)
    requires
        0 <= k < 20,
    ensures
        forall|i: int|
            0 <= i < 10000 ==> #[trigger] crate::expr::value_of(
                lt(
                    over(times(ix(), num(100)), num(10000)),
                    times(plus(num(k as u64), num(1)), num(5)),
                ),
                contents,
                i as u64,
            ) == Some(shares(k)[i]),
{
    assert forall|i: int| 0 <= i < 10000 implies #[trigger] crate::expr::value_of(
        lt(over(times(ix(), num(100)), num(10000)), times(plus(num(k as u64), num(1)), num(5))),
        contents,
        i as u64,
    ) == Some(shares(k)[i]) by {
        lemma_share(k, contents, i as u64);
        assert(crate::expr::value_of(over(times(ix(), num(100)), num(10000)), contents, i as u64)
            == Some((i * 100 / 10000) as u64)) by {
            reveal_with_fuel(crate::expr::value_of, 3);
        }
    }
}

/// How many rows a share of the rows is.
proof fn lemma_share_of_rows(k: int, contents: Contents)
    requires
        0 <= k < 20,
    ensures
        crate::expr::value_of(
            over(times(num(10000), times(plus(num(k as u64), num(1)), num(5))), num(100)),
            contents,
            0,
        ) == Some((share(k) * 100) as u64),
{
    lemma_share(k, contents, 0);
    let percent = times(plus(num(k as u64), num(1)), num(5));
    assert(crate::expr::value_of(num(10000), contents, 0) == Some(10000u64));
    assert(crate::expr::value_of(num(100), contents, 0) == Some(100u64));
    assert(crate::expr::value_of(times(num(10000), percent), contents, 0) == Some(
        (10000 * share(k)) as u64,
    ));
}

/// Looking for a number of rows that is not near the expected one.
proof fn lemma_near(contents: Contents, rows: u64, expected: u64)
    requires
        contents.full(),
        contents.registers[0] == expected,
        contents.registers[1] == rows,
        expected <= 10000,
    ensures
        crate::expr::value_of(
            or(
                lt(reg(1), less_or_zero(reg(0), num(500))),
                lt(plus(plus(reg(0), num(500)), num(1)), reg(1)),
            ),
            contents,
            0,
        ) == Some(
            crate::expr::truth(!crate::laws::stress::near(rows as int, expected as int)),
        ),
{
    assert(crate::expr::value_of(reg(0), contents, 0) == Some(expected));
    assert(crate::expr::value_of(reg(1), contents, 0) == Some(rows));
    assert(crate::expr::value_of(num(500), contents, 0) == Some(500u64));
    assert(crate::expr::value_of(num(1), contents, 0) == Some(1u64));
    let low = less_or_zero(reg(0), num(500));
    assert(crate::expr::value_of(low, contents, 0) == Some(
        (if expected < 500 {
            0
        } else {
            expected - 500
        }) as u64,
    ));
    let high = plus(plus(reg(0), num(500)), num(1));
    assert(crate::expr::value_of(plus(reg(0), num(500)), contents, 0) == Some(
        (expected + 500) as u64,
    ));
    assert(crate::expr::value_of(high, contents, 0) == Some((expected + 501) as u64));
    assert(crate::expr::value_of(lt(reg(1), low), contents, 0) == Some(
        crate::expr::truth(rows < expected - 500),
    ));
    assert(crate::expr::value_of(lt(high, reg(1)), contents, 0) == Some(
        crate::expr::truth(expected + 501 < rows),
    ));
}

/// Whether the answers to the downloads of the test are columns or refusals.
pub open spec fn reuse_shaped(answers: Seq<Answer>) -> bool {
    &&& answers.len() >= 93
    &&& crate::laws::steps::column_or_refusal(answers[2])
    &&& forall|k: int|
        0 <= k < 9 ==> crate::laws::steps::column_or_refusal(#[trigger] answers[5 + 3 * k])
}

/// What the device has to answer in the part `start`.
pub open spec fn reuse_start(answers: Seq<Answer>) -> bool {
    !(answers[0] is Failed)
}

/// What the device has to answer in the part `first_sort`.
pub open spec fn reuse_first_sort(answers: Seq<Answer>) -> bool {
    &&& !(answers[1] is Failed)
    &&& answers[2] is Words
    &&& crate::laws::steps::rises(answers[2]->Words_0)
}

/// What the device has to answer in round `k` of the part `later_sorts`, from answer `used` on.
pub open spec fn reuse_later_sorts(k: int, answers: Seq<Answer>, used: int) -> bool {
    &&& !(answers[used] is Failed)
    &&& answers[used + 1] is Words
    &&& crate::laws::steps::rises(answers[used + 1]->Words_0)
    &&& answers[used + 1]->Words_0 == answers[2]->Words_0
}

/// What the device has to answer in round `k` of the part `filters`, from answer `used` on.
pub open spec fn reuse_filters(k: int, answers: Seq<Answer>, used: int) -> bool {
    &&& !(answers[used] is Failed)
    &&& answers[used + 1] == Answer::Count(3334)
}

/// What the device has to answer in the part `table`.
pub open spec fn reuse_table(answers: Seq<Answer>) -> bool {
    !(answers[61] is Failed)
}

/// What the device has to answer in round `k` of the part `dedups`, from answer `used` on.
pub open spec fn reuse_dedups(k: int, answers: Seq<Answer>, used: int) -> bool {
    &&& !(answers[used] is Failed)
    &&& answers[used + 1] == Answer::Count(1000)
}

/// What the device has to answer in the part `end`.
pub open spec fn reuse_end(answers: Seq<Answer>) -> bool {
    !(answers[92] is Failed)
}

/// The part `start`.
proof fn lemma_reuse_start(contents: Contents, answers: Seq<Answer>)
    requires
        contents.full(),
        reuse_shaped(answers),
    ensures
        match crate::walk::walked(
            crate::categories::c17_caching::cache_reuse_start_steps(),
            0,
            2,
            contents,
            answers,
            0,
        ) {
            Some((after, next)) => {
                &&& reuse_start(answers)
                &&& after.full()
                &&& next == 1
            },
            None => !reuse_start(answers),
        },
        crate::categories::c17_caching::cache_reuse_start_steps().len() == 2,
{
    let steps = crate::categories::c17_caching::cache_reuse_start_steps();
    lemma_reused(contents);
    let words1 = reused();
    crate::laws::steps::lemma_fill(steps, 0, 2, contents, answers, 0, words1);
    let next1 = contents.with_column(0, words1);
    crate::laws::steps::lemma_command(steps, 1, 2, next1, answers, 0);
    crate::laws::steps::lemma_end(steps, 2, next1, answers, 1);
}

/// The part `first_sort`.
proof fn lemma_reuse_first_sort(contents: Contents, answers: Seq<Answer>)
    requires
        contents.full(),
        reuse_shaped(answers),
    ensures
        match crate::walk::walked(
            crate::categories::c17_caching::cache_reuse_sorts_round(0),
            0,
            6,
            contents,
            answers,
            1,
        ) {
            Some((after, next)) => {
                &&& reuse_first_sort(answers)
                &&& after.full()
                &&& next == 4
                &&& after.columns[1] == answers[2]->Words_0
                &&& answers[2] is Words
                &&& crate::laws::steps::column_or_refusal(answers[2])
            },
            None => !reuse_first_sort(answers),
        },
        crate::categories::c17_caching::cache_reuse_sorts_round(0).len() == 6,
{
    let steps = crate::categories::c17_caching::cache_reuse_sorts_round(0);
    crate::laws::steps::lemma_command(steps, 0, 6, contents, answers, 1);
    crate::laws::steps::lemma_download(steps, 1, 6, contents, answers, 2);
    if answers[2] is Words {
        let next1 = contents.with_column(2, answers[2]->Words_0);
        crate::laws::steps::lemma_scan_order(steps, 2, 6, next1, answers, 3, 2);
        lemma_is_first(0, next1);
        crate::laws::words::lemma_copy(2, next1);
        let words2 = answers[2]->Words_0;
        crate::laws::steps::lemma_fill(steps, 3, 6, next1, answers, 3, words2);
        let next2 = next1.with_column(1, words2);
        lemma_is_first(0, next2);
        crate::laws::steps::lemma_not_taken(steps, 4, 6, next2, answers, 3);
        crate::laws::steps::lemma_command(steps, 5, 6, next2, answers, 3);
        crate::laws::steps::lemma_end(steps, 6, next2, answers, 4);
    }
}

/// One round of the part `later_sorts`.
proof fn lemma_reuse_later_sorts(k: int, contents: Contents, answers: Seq<Answer>, used: int)
    requires
        0 <= k < 9,
        used == 4 + 3 * k,
        contents.full(),
        reuse_shaped(answers),
        contents.columns[1] == answers[2]->Words_0,
        answers[2] is Words,
        crate::laws::steps::column_or_refusal(answers[2]),
    ensures
        match crate::walk::walked(
            crate::categories::c17_caching::cache_reuse_sorts_round((k + 1) as u64),
            0,
            6,
            contents,
            answers,
            used,
        ) {
            Some((after, next)) => {
                &&& reuse_later_sorts(k, answers, used)
                &&& after.full()
                &&& next == 4 + 3 * (k + 1)
                &&& after.columns[1] == answers[2]->Words_0
                &&& answers[2] is Words
                &&& crate::laws::steps::column_or_refusal(answers[2])
            },
            None => !reuse_later_sorts(k, answers, used),
        },
        crate::categories::c17_caching::cache_reuse_sorts_round((k + 1) as u64).len() == 6,
{
    let steps = crate::categories::c17_caching::cache_reuse_sorts_round((k + 1) as u64);
    assert(crate::laws::steps::column_or_refusal(answers[5 + 3 * k]));
    crate::laws::steps::lemma_command(steps, 0, 6, contents, answers, used);
    crate::laws::steps::lemma_download(steps, 1, 6, contents, answers, used + 1);
    if answers[used + 1] is Words {
        let next1 = contents.with_column(2, answers[used + 1]->Words_0);
        crate::laws::steps::lemma_scan_order(steps, 2, 6, next1, answers, used + 2, 2);
        lemma_is_first((k + 1) as u64, next1);
        crate::laws::steps::lemma_not_taken(steps, 3, 6, next1, answers, used + 2);
        lemma_is_first((k + 1) as u64, next1);
        crate::laws::steps::lemma_not_alike(next1, 2, 1);
        crate::laws::steps::lemma_check(
            steps,
            4,
            6,
            next1,
            answers,
            used + 2,
            !(answers[used + 1]->Words_0 == answers[2]->Words_0),
        );
        crate::laws::steps::lemma_command(steps, 5, 6, next1, answers, used + 2);
        crate::laws::steps::lemma_end(steps, 6, next1, answers, used + 3);
    }
}

/// All rounds of the part `later_sorts`.
proof fn lemma_reuse_later_sorts_rounds(contents: Contents, answers: Seq<Answer>)
    requires
        contents.full(),
        reuse_shaped(answers),
        contents.columns[1] == answers[2]->Words_0,
        answers[2] is Words,
        crate::laws::steps::column_or_refusal(answers[2]),
    ensures
        ({
            let steps = crate::script::rounds(
                9,
                |k: int| crate::categories::c17_caching::cache_reuse_sorts_round((k + 1) as u64),
            );
            match crate::walk::walked(steps, 0, steps.len() as int, contents, answers, 4) {
                Some((after, next)) => {
                    &&& forall|k: int|
                        0 <= k < 9 ==> #[trigger] reuse_later_sorts(k, answers, 4 + 3 * k)
                    &&& after.full()
                    &&& next == 31
                    &&& after.columns[1] == answers[2]->Words_0
                    &&& answers[2] is Words
                    &&& crate::laws::steps::column_or_refusal(answers[2])
                },
                None => !(forall|k: int|
                    0 <= k < 9 ==> #[trigger] reuse_later_sorts(k, answers, 4 + 3 * k)),
            }
        }),
{
    let round = |k: int| crate::categories::c17_caching::cache_reuse_sorts_round((k + 1) as u64);
    let start = |k: int| 4 + 3 * k;
    let good = |k: int| reuse_later_sorts(k, answers, start(k));
    let kept = |contents: Contents| contents.full()
        && contents.columns[1] == answers[2]->Words_0 && answers[2] is Words
        && crate::laws::steps::column_or_refusal(
        answers[2],
    );
    assert forall|k: int, contents: Contents|
        #![trigger good(k), kept(contents)]
        0 <= k < 9 && kept(contents) implies if good(k) {
        crate::walk::goes_to(round(k), contents, answers, start(k), start(k + 1), kept)
    } else {
        crate::walk::walked(round(k), 0, round(k).len() as int, contents, answers, start(k)) is None
    } by {
        lemma_reuse_later_sorts(k, contents, answers, start(k));
    }
    crate::walk::law_rounds_keep_what_each_keeps(9, round, start, good, kept, contents, answers);
    if forall|k: int| 0 <= k < 9 ==> #[trigger] good(k) {
        assert forall|k: int| 0 <= k < 9 implies #[trigger] reuse_later_sorts(
            k,
            answers,
            4 + 3 * k,
        ) by {
            assert(good(k));
        }
    } else {
        let k = choose|k: int| 0 <= k < 9 && !(#[trigger] good(k));
        assert(!reuse_later_sorts(k, answers, 4 + 3 * k));
    }
}

/// The part `mask`.
proof fn lemma_reuse_mask(contents: Contents, answers: Seq<Answer>)
    requires
        contents.full(),
        reuse_shaped(answers),
        contents.columns[1] == answers[2]->Words_0,
        answers[2] is Words,
        crate::laws::steps::column_or_refusal(answers[2]),
    ensures
        match crate::walk::walked(
            crate::categories::c17_caching::cache_reuse_mask_steps(),
            0,
            1,
            contents,
            answers,
            31,
        ) {
            Some((after, next)) => {
                &&& after.full()
                &&& next == 31
            },
            None => false,
        },
        crate::categories::c17_caching::cache_reuse_mask_steps().len() == 1,
{
    let steps = crate::categories::c17_caching::cache_reuse_mask_steps();
    crate::laws::masks::lemma_remainder_words(3, 10000, contents);
    let words1 = crate::laws::masks::every(3, 10000);
    crate::laws::steps::lemma_fill(steps, 0, 1, contents, answers, 31, words1);
    let next1 = contents.with_column(3, words1);
    crate::laws::steps::lemma_end(steps, 1, next1, answers, 31);
}

/// One round of the part `filters`.
proof fn lemma_reuse_filters(k: int, contents: Contents, answers: Seq<Answer>, used: int)
    requires
        0 <= k < 10,
        used == 31 + 3 * k,
        contents.full(),
        reuse_shaped(answers),
    ensures
        match crate::walk::walked(
            crate::categories::c17_caching::cache_reuse_filters_round(k as u64),
            0,
            3,
            contents,
            answers,
            used,
        ) {
            Some((after, next)) => {
                &&& reuse_filters(k, answers, used)
                &&& after.full()
                &&& next == 31 + 3 * (k + 1)
            },
            None => !reuse_filters(k, answers, used),
        },
        crate::categories::c17_caching::cache_reuse_filters_round(k as u64).len() == 3,
{
    let steps = crate::categories::c17_caching::cache_reuse_filters_round(k as u64);
    crate::laws::steps::lemma_command(steps, 0, 3, contents, answers, used);
    crate::laws::steps::lemma_match(steps, 1, 3, contents, answers, used + 1, 3334);
    let next1 = contents.with_register(COUNT, 3334);
    crate::laws::steps::lemma_command(steps, 2, 3, next1, answers, used + 2);
    crate::laws::steps::lemma_end(steps, 3, next1, answers, used + 3);
}

/// All rounds of the part `filters`.
proof fn lemma_reuse_filters_rounds(contents: Contents, answers: Seq<Answer>)
    requires
        contents.full(),
        reuse_shaped(answers),
    ensures
        ({
            let steps = crate::script::rounds(
                10,
                |k: int| crate::categories::c17_caching::cache_reuse_filters_round(k as u64),
            );
            match crate::walk::walked(steps, 0, steps.len() as int, contents, answers, 31) {
                Some((after, next)) => {
                    &&& forall|k: int|
                        0 <= k < 10 ==> #[trigger] reuse_filters(k, answers, 31 + 3 * k)
                    &&& after.full()
                    &&& next == 61
                },
                None => !(forall|k: int|
                    0 <= k < 10 ==> #[trigger] reuse_filters(k, answers, 31 + 3 * k)),
            }
        }),
{
    let round = |k: int| crate::categories::c17_caching::cache_reuse_filters_round(k as u64);
    let start = |k: int| 31 + 3 * k;
    let good = |k: int| reuse_filters(k, answers, start(k));
    let kept = |contents: Contents| contents.full();
    assert forall|k: int, contents: Contents|
        #![trigger good(k), kept(contents)]
        0 <= k < 10 && kept(contents) implies if good(k) {
        crate::walk::goes_to(round(k), contents, answers, start(k), start(k + 1), kept)
    } else {
        crate::walk::walked(round(k), 0, round(k).len() as int, contents, answers, start(k)) is None
    } by {
        lemma_reuse_filters(k, contents, answers, start(k));
    }
    crate::walk::law_rounds_keep_what_each_keeps(10, round, start, good, kept, contents, answers);
    if forall|k: int| 0 <= k < 10 ==> #[trigger] good(k) {
        assert forall|k: int| 0 <= k < 10 implies #[trigger] reuse_filters(
            k,
            answers,
            31 + 3 * k,
        ) by {
            assert(good(k));
        }
    } else {
        let k = choose|k: int| 0 <= k < 10 && !(#[trigger] good(k));
        assert(!reuse_filters(k, answers, 31 + 3 * k));
    }
}

/// The part `table`.
proof fn lemma_reuse_table(contents: Contents, answers: Seq<Answer>)
    requires
        contents.full(),
        reuse_shaped(answers),
    ensures
        match crate::walk::walked(
            crate::categories::c17_caching::cache_reuse_table_steps(),
            0,
            3,
            contents,
            answers,
            61,
        ) {
            Some((after, next)) => {
                &&& reuse_table(answers)
                &&& after.full()
                &&& next == 62
            },
            None => !reuse_table(answers),
        },
        crate::categories::c17_caching::cache_reuse_table_steps().len() == 3,
{
    let steps = crate::categories::c17_caching::cache_reuse_table_steps();
    crate::laws::words::lemma_cyclic(1000, 10000, contents);
    let words1 = crate::laws::words::cyclic(1000, 10000);
    crate::laws::steps::lemma_fill(steps, 0, 3, contents, answers, 61, words1);
    let next1 = contents.with_column(4, words1);
    crate::laws::words::lemma_below(10000, next1);
    let words2 = crate::laws::words::below(10000);
    crate::laws::steps::lemma_fill(steps, 1, 3, next1, answers, 61, words2);
    let next2 = next1.with_column(5, words2);
    crate::laws::steps::lemma_command(steps, 2, 3, next2, answers, 61);
    crate::laws::steps::lemma_end(steps, 3, next2, answers, 62);
}

/// One round of the part `dedups`.
proof fn lemma_reuse_dedups(k: int, contents: Contents, answers: Seq<Answer>, used: int)
    requires
        0 <= k < 10,
        used == 62 + 3 * k,
        contents.full(),
        reuse_shaped(answers),
    ensures
        match crate::walk::walked(
            crate::categories::c17_caching::cache_reuse_dedups_round(k as u64),
            0,
            3,
            contents,
            answers,
            used,
        ) {
            Some((after, next)) => {
                &&& reuse_dedups(k, answers, used)
                &&& after.full()
                &&& next == 62 + 3 * (k + 1)
            },
            None => !reuse_dedups(k, answers, used),
        },
        crate::categories::c17_caching::cache_reuse_dedups_round(k as u64).len() == 3,
{
    let steps = crate::categories::c17_caching::cache_reuse_dedups_round(k as u64);
    crate::laws::steps::lemma_command(steps, 0, 3, contents, answers, used);
    crate::laws::steps::lemma_match(steps, 1, 3, contents, answers, used + 1, 1000);
    let next1 = contents.with_register(COUNT, 1000);
    crate::laws::steps::lemma_command(steps, 2, 3, next1, answers, used + 2);
    crate::laws::steps::lemma_end(steps, 3, next1, answers, used + 3);
}

/// All rounds of the part `dedups`.
proof fn lemma_reuse_dedups_rounds(contents: Contents, answers: Seq<Answer>)
    requires
        contents.full(),
        reuse_shaped(answers),
    ensures
        ({
            let steps = crate::script::rounds(
                10,
                |k: int| crate::categories::c17_caching::cache_reuse_dedups_round(k as u64),
            );
            match crate::walk::walked(steps, 0, steps.len() as int, contents, answers, 62) {
                Some((after, next)) => {
                    &&& forall|k: int|
                        0 <= k < 10 ==> #[trigger] reuse_dedups(k, answers, 62 + 3 * k)
                    &&& after.full()
                    &&& next == 92
                },
                None => !(forall|k: int|
                    0 <= k < 10 ==> #[trigger] reuse_dedups(k, answers, 62 + 3 * k)),
            }
        }),
{
    let round = |k: int| crate::categories::c17_caching::cache_reuse_dedups_round(k as u64);
    let start = |k: int| 62 + 3 * k;
    let good = |k: int| reuse_dedups(k, answers, start(k));
    let kept = |contents: Contents| contents.full();
    assert forall|k: int, contents: Contents|
        #![trigger good(k), kept(contents)]
        0 <= k < 10 && kept(contents) implies if good(k) {
        crate::walk::goes_to(round(k), contents, answers, start(k), start(k + 1), kept)
    } else {
        crate::walk::walked(round(k), 0, round(k).len() as int, contents, answers, start(k)) is None
    } by {
        lemma_reuse_dedups(k, contents, answers, start(k));
    }
    crate::walk::law_rounds_keep_what_each_keeps(10, round, start, good, kept, contents, answers);
    if forall|k: int| 0 <= k < 10 ==> #[trigger] good(k) {
        assert forall|k: int| 0 <= k < 10 implies #[trigger] reuse_dedups(
            k,
            answers,
            62 + 3 * k,
        ) by {
            assert(good(k));
        }
    } else {
        let k = choose|k: int| 0 <= k < 10 && !(#[trigger] good(k));
        assert(!reuse_dedups(k, answers, 62 + 3 * k));
    }
}

/// The part `end`.
proof fn lemma_reuse_end(contents: Contents, answers: Seq<Answer>)
    requires
        contents.full(),
        reuse_shaped(answers),
    ensures
        match crate::walk::walked(
            crate::categories::c17_caching::cache_reuse_end_steps(),
            0,
            1,
            contents,
            answers,
            92,
        ) {
            Some((after, next)) => {
                &&& reuse_end(answers)
                &&& after.full()
                &&& next == 93
            },
            None => !reuse_end(answers),
        },
        crate::categories::c17_caching::cache_reuse_end_steps().len() == 1,
{
    let steps = crate::categories::c17_caching::cache_reuse_end_steps();
    crate::laws::steps::lemma_command(steps, 0, 1, contents, answers, 92);
    crate::laws::steps::lemma_end(steps, 1, contents, answers, 93);
}

/// The test has no jumps.
proof fn lemma_reuse_straight()
    ensures
        forall|j: int|
            0 <= j < crate::categories::c17_caching::cache_reuse_steps().len()
                ==> crate::walk::straight(
                #[trigger] crate::categories::c17_caching::cache_reuse_steps()[j],
            ),
{
    let part1 = crate::categories::c17_caching::cache_reuse_start_steps();
    let part2 = crate::categories::c17_caching::cache_reuse_sorts_round(0);
    let part3 = crate::script::rounds(
        9,
        |k: int| crate::categories::c17_caching::cache_reuse_sorts_round((k + 1) as u64),
    );
    let round3 = |k: int| crate::categories::c17_caching::cache_reuse_sorts_round((k + 1) as u64);
    crate::walk::law_straight_rounds_are_straight(9, round3);
    let part4 = crate::categories::c17_caching::cache_reuse_mask_steps();
    let part5 = crate::script::rounds(
        10,
        |k: int| crate::categories::c17_caching::cache_reuse_filters_round(k as u64),
    );
    let round5 = |k: int| crate::categories::c17_caching::cache_reuse_filters_round(k as u64);
    crate::walk::law_straight_rounds_are_straight(10, round5);
    let part6 = crate::categories::c17_caching::cache_reuse_table_steps();
    let part7 = crate::script::rounds(
        10,
        |k: int| crate::categories::c17_caching::cache_reuse_dedups_round(k as u64),
    );
    let round7 = |k: int| crate::categories::c17_caching::cache_reuse_dedups_round(k as u64);
    crate::walk::law_straight_rounds_are_straight(10, round7);
    let part8 = crate::categories::c17_caching::cache_reuse_end_steps();
    let whole1 = part1;
    let whole2 = whole1 + part2;
    crate::walk::law_straight_scripts_make_a_straight_one(whole1, part2);
    let whole3 = whole2 + part3;
    crate::walk::law_straight_scripts_make_a_straight_one(whole2, part3);
    let whole4 = whole3 + part4;
    crate::walk::law_straight_scripts_make_a_straight_one(whole3, part4);
    let whole5 = whole4 + part5;
    crate::walk::law_straight_scripts_make_a_straight_one(whole4, part5);
    let whole6 = whole5 + part6;
    crate::walk::law_straight_scripts_make_a_straight_one(whole5, part6);
    let whole7 = whole6 + part7;
    crate::walk::law_straight_scripts_make_a_straight_one(whole6, part7);
    let whole8 = whole7 + part8;
    crate::walk::law_straight_scripts_make_a_straight_one(whole7, part8);
    let every_round = |i: int| crate::categories::c17_caching::cache_reuse_sorts_round(i as u64);
    let later_round = |k: int| crate::categories::c17_caching::cache_reuse_sorts_round(
        (k + 1) as u64,
    );
    crate::laws::steps::lemma_first_round(10, every_round, later_round);
    assert(crate::categories::c17_caching::cache_reuse_steps() == whole8);
}

/// The test of one column in use again and again passes exactly when each of ten sorts leaves its
/// words in rising order, the same ones each time, each of ten filters leaves every third row, and
/// each of ten removals of duplicates leaves a thousand rows.
pub proof fn law_reuse_passes_exactly_when_results_stay_the_same(answers: Seq<Answer>)
    requires
        reuse_shaped(answers),
    ensures
        crate::machine::run_of(
            crate::script::plan(
                "test_cache_reuse",
                crate::categories::c17_caching::cache_reuse_steps(),
            ),
            answers,
        ).progress == Progress::Over(Ending::Passed) <==> {
            &&& reuse_start(answers)
            &&& reuse_first_sort(answers)
            &&& forall|k: int|
                0 <= k < 9 ==> #[trigger] reuse_later_sorts(k, answers, 4 + 3 * k)
            &&& forall|k: int|
                0 <= k < 10 ==> #[trigger] reuse_filters(k, answers, 31 + 3 * k)
            &&& reuse_table(answers)
            &&& forall|k: int|
                0 <= k < 10 ==> #[trigger] reuse_dedups(k, answers, 62 + 3 * k)
            &&& reuse_end(answers)
        },
{
    let plan = crate::script::plan(
        "test_cache_reuse",
        crate::categories::c17_caching::cache_reuse_steps(),
    );
    let blank = Contents::blank(plan.texts);
    let part1 = crate::categories::c17_caching::cache_reuse_start_steps();
    let part2 = crate::categories::c17_caching::cache_reuse_sorts_round(0);
    let part3 = crate::script::rounds(
        9,
        |k: int| crate::categories::c17_caching::cache_reuse_sorts_round((k + 1) as u64),
    );
    let part4 = crate::categories::c17_caching::cache_reuse_mask_steps();
    let part5 = crate::script::rounds(
        10,
        |k: int| crate::categories::c17_caching::cache_reuse_filters_round(k as u64),
    );
    let part6 = crate::categories::c17_caching::cache_reuse_table_steps();
    let part7 = crate::script::rounds(
        10,
        |k: int| crate::categories::c17_caching::cache_reuse_dedups_round(k as u64),
    );
    let part8 = crate::categories::c17_caching::cache_reuse_end_steps();
    let whole1 = part1;
    let whole2 = whole1 + part2;
    let whole3 = whole2 + part3;
    let whole4 = whole3 + part4;
    let whole5 = whole4 + part5;
    let whole6 = whole5 + part6;
    let whole7 = whole6 + part7;
    let whole8 = whole7 + part8;
    let every_round = |i: int| crate::categories::c17_caching::cache_reuse_sorts_round(i as u64);
    let later_round = |k: int| crate::categories::c17_caching::cache_reuse_sorts_round(
        (k + 1) as u64,
    );
    crate::laws::steps::lemma_first_round(10, every_round, later_round);
    assert(plan.steps == whole8);
    lemma_reuse_start(blank, answers);
    crate::walk::law_walks_over_two_scripts_compose(whole1, part2, blank, answers, 0);
    crate::walk::law_walks_over_two_scripts_compose(whole2, part3, blank, answers, 0);
    crate::walk::law_walks_over_two_scripts_compose(whole3, part4, blank, answers, 0);
    crate::walk::law_walks_over_two_scripts_compose(whole4, part5, blank, answers, 0);
    crate::walk::law_walks_over_two_scripts_compose(whole5, part6, blank, answers, 0);
    crate::walk::law_walks_over_two_scripts_compose(whole6, part7, blank, answers, 0);
    crate::walk::law_walks_over_two_scripts_compose(whole7, part8, blank, answers, 0);
    match crate::walk::walked(whole1, 0, whole1.len() as int, blank, answers, 0) {
        Some((after, _)) => {
            lemma_reuse_first_sort(after, answers);
            match crate::walk::walked(whole2, 0, whole2.len() as int, blank, answers, 0) {
                Some((after, _)) => {
                    lemma_reuse_later_sorts_rounds(after, answers);
                    match crate::walk::walked(whole3, 0, whole3.len() as int, blank, answers, 0) {
                        Some((after, _)) => {
                            lemma_reuse_mask(after, answers);
                            match crate::walk::walked(
                                whole4,
                                0,
                                whole4.len() as int,
                                blank,
                                answers,
                                0,
                            ) {
                                Some((after, _)) => {
                                    lemma_reuse_filters_rounds(after, answers);
                                    match crate::walk::walked(
                                        whole5,
                                        0,
                                        whole5.len() as int,
                                        blank,
                                        answers,
                                        0,
                                    ) {
                                        Some((after, _)) => {
                                            lemma_reuse_table(after, answers);
                                            match crate::walk::walked(
                                                whole6,
                                                0,
                                                whole6.len() as int,
                                                blank,
                                                answers,
                                                0,
                                            ) {
                                                Some((after, _)) => {
                                                    lemma_reuse_dedups_rounds(after, answers);
                                                    match crate::walk::walked(
                                                        whole7,
                                                        0,
                                                        whole7.len() as int,
                                                        blank,
                                                        answers,
                                                        0,
                                                    ) {
                                                        Some((after, _)) => {
                                                            lemma_reuse_end(after, answers);
                                                        },
                                                        None => {},
                                                    }
                                                },
                                                None => {},
                                            }
                                        },
                                        None => {},
                                    }
                                },
                                None => {},
                            }
                        },
                        None => {},
                    }
                },
                None => {},
            }
        },
        None => {},
    }
    lemma_reuse_straight();
    crate::walk::law_passes_exactly_when_every_step_goes_through(plan, answers);
}

/// Whether the answers to the downloads of the test are columns or refusals.
pub open spec fn turns_shaped(answers: Seq<Answer>) -> bool {
    &&& answers.len() >= 83
    &&& crate::laws::steps::column_or_refusal(answers[42])
    &&& forall|k: int|
        0 <= k < 19 ==> crate::laws::steps::column_or_refusal(#[trigger] answers[43 + 1 * k])
    &&& forall|k: int| 0 <= k < 20 ==> #[trigger] answers[62 + 1 * k] is Count
}

/// What the device has to answer in the part `start`.
pub open spec fn turns_start(answers: Seq<Answer>) -> bool {
    &&& !(answers[0] is Failed)
    &&& !(answers[1] is Failed)
}

/// What the device has to answer in round `k` of the part `turns`, from answer `used` on.
pub open spec fn turns_turns(k: int, answers: Seq<Answer>, used: int) -> bool {
    &&& !(answers[used] is Failed)
    &&& !(answers[used + 1] is Failed)
}

/// What the device has to answer in the part `first_sort`.
pub open spec fn turns_first_sort(answers: Seq<Answer>) -> bool {
    &&& answers[42] is Words
    &&& crate::laws::steps::rises(answers[42]->Words_0)
}

/// What the device has to answer in round `k` of the part `later_sorts`, from answer `used` on.
pub open spec fn turns_later_sorts(k: int, answers: Seq<Answer>, used: int) -> bool {
    &&& answers[used] is Words
    &&& crate::laws::steps::rises(answers[used]->Words_0)
    &&& answers[used]->Words_0 == answers[42]->Words_0
}

/// What the device has to answer in round `k` of the part `filtered`, from answer `used` on.
pub open spec fn turns_filtered(k: int, answers: Seq<Answer>, used: int) -> bool {
    crate::laws::stress::near(answers[used]->Count_0 as int, share(k) * 100)
}

/// What the device has to answer in the part `end`.
pub open spec fn turns_end(answers: Seq<Answer>) -> bool {
    !(answers[82] is Failed)
}

/// The part `start`.
proof fn lemma_turns_start(contents: Contents, answers: Seq<Answer>)
    requires
        contents.full(),
        turns_shaped(answers),
    ensures
        match crate::walk::walked(
            crate::categories::c19_multi_stream::interleaved_operations_start_steps(),
            0,
            4,
            contents,
            answers,
            0,
        ) {
            Some((after, next)) => {
                &&& turns_start(answers)
                &&& after.full()
                &&& next == 2
            },
            None => !turns_start(answers),
        },
        crate::categories::c19_multi_stream::interleaved_operations_start_steps().len() == 4,
{
    let steps = crate::categories::c19_multi_stream::interleaved_operations_start_steps();
    crate::laws::words::lemma_scattered(10000, 10000, contents);
    let words1 = crate::laws::words::scattered(10000, 10000);
    crate::laws::steps::lemma_fill(steps, 0, 4, contents, answers, 0, words1);
    let next1 = contents.with_column(0, words1);
    crate::laws::words::lemma_below(10000, next1);
    let words2 = crate::laws::words::below(10000);
    crate::laws::steps::lemma_fill(steps, 1, 4, next1, answers, 0, words2);
    let next2 = next1.with_column(1, words2);
    crate::laws::steps::lemma_command(steps, 2, 4, next2, answers, 0);
    crate::laws::steps::lemma_command(steps, 3, 4, next2, answers, 1);
    crate::laws::steps::lemma_end(steps, 4, next2, answers, 2);
}

/// One round of the part `turns`.
proof fn lemma_turns_turns(k: int, contents: Contents, answers: Seq<Answer>, used: int)
    requires
        0 <= k < 20,
        used == 2 + 2 * k,
        contents.full(),
        turns_shaped(answers),
    ensures
        match crate::walk::walked(
            crate::categories::c19_multi_stream::interleaved_operations_turns_round(k as u64),
            0,
            3,
            contents,
            answers,
            used,
        ) {
            Some((after, next)) => {
                &&& turns_turns(k, answers, used)
                &&& after.full()
                &&& next == 2 + 2 * (k + 1)
            },
            None => !turns_turns(k, answers, used),
        },
        crate::categories::c19_multi_stream::interleaved_operations_turns_round(
            k as u64,
        ).len() == 3,
{
    let steps = crate::categories::c19_multi_stream::interleaved_operations_turns_round(k as u64);
    crate::laws::steps::lemma_command(steps, 0, 3, contents, answers, used);
    lemma_shares(k, contents);
    let words1 = shares(k);
    crate::laws::steps::lemma_fill(steps, 1, 3, contents, answers, used + 1, words1);
    let next1 = contents.with_column(2, words1);
    crate::laws::steps::lemma_command(steps, 2, 3, next1, answers, used + 1);
    crate::laws::steps::lemma_end(steps, 3, next1, answers, used + 2);
}

/// All rounds of the part `turns`.
proof fn lemma_turns_turns_rounds(contents: Contents, answers: Seq<Answer>)
    requires
        contents.full(),
        turns_shaped(answers),
    ensures
        ({
            let steps = crate::script::rounds(
                20,
                |k: int| crate::categories::c19_multi_stream::interleaved_operations_turns_round(
                    k as u64,
                ),
            );
            match crate::walk::walked(steps, 0, steps.len() as int, contents, answers, 2) {
                Some((after, next)) => {
                    &&& forall|k: int| 0 <= k < 20 ==> #[trigger] turns_turns(k, answers, 2 + 2 * k)
                    &&& after.full()
                    &&& next == 42
                },
                None => !(forall|k: int|
                    0 <= k < 20 ==> #[trigger] turns_turns(k, answers, 2 + 2 * k)),
            }
        }),
{
    let round = |k: int| crate::categories::c19_multi_stream::interleaved_operations_turns_round(
        k as u64,
    );
    let start = |k: int| 2 + 2 * k;
    let good = |k: int| turns_turns(k, answers, start(k));
    let kept = |contents: Contents| contents.full();
    assert forall|k: int, contents: Contents|
        #![trigger good(k), kept(contents)]
        0 <= k < 20 && kept(contents) implies if good(k) {
        crate::walk::goes_to(round(k), contents, answers, start(k), start(k + 1), kept)
    } else {
        crate::walk::walked(round(k), 0, round(k).len() as int, contents, answers, start(k)) is None
    } by {
        lemma_turns_turns(k, contents, answers, start(k));
    }
    crate::walk::law_rounds_keep_what_each_keeps(20, round, start, good, kept, contents, answers);
    if forall|k: int| 0 <= k < 20 ==> #[trigger] good(k) {
        assert forall|k: int| 0 <= k < 20 implies #[trigger] turns_turns(k, answers, 2 + 2 * k) by {
            assert(good(k));
        }
    } else {
        let k = choose|k: int| 0 <= k < 20 && !(#[trigger] good(k));
        assert(!turns_turns(k, answers, 2 + 2 * k));
    }
}

/// The part `first_sort`.
proof fn lemma_turns_first_sort(contents: Contents, answers: Seq<Answer>)
    requires
        contents.full(),
        turns_shaped(answers),
    ensures
        match crate::walk::walked(
            crate::categories::c19_multi_stream::interleaved_operations_sorted_round(0),
            0,
            4,
            contents,
            answers,
            42,
        ) {
            Some((after, next)) => {
                &&& turns_first_sort(answers)
                &&& after.full()
                &&& next == 43
                &&& after.columns[4] == answers[42]->Words_0
                &&& answers[42] is Words
                &&& crate::laws::steps::column_or_refusal(answers[42])
            },
            None => !turns_first_sort(answers),
        },
        crate::categories::c19_multi_stream::interleaved_operations_sorted_round(0).len() == 4,
{
    let steps = crate::categories::c19_multi_stream::interleaved_operations_sorted_round(0);
    crate::laws::steps::lemma_download(steps, 0, 4, contents, answers, 42);
    if answers[42] is Words {
        let next1 = contents.with_column(3, answers[42]->Words_0);
        crate::laws::steps::lemma_scan_order(steps, 1, 4, next1, answers, 43, 3);
        lemma_is_first(0, next1);
        crate::laws::words::lemma_copy(3, next1);
        let words2 = answers[42]->Words_0;
        crate::laws::steps::lemma_fill(steps, 2, 4, next1, answers, 43, words2);
        let next2 = next1.with_column(4, words2);
        lemma_is_first(0, next2);
        crate::laws::steps::lemma_not_taken(steps, 3, 4, next2, answers, 43);
        crate::laws::steps::lemma_end(steps, 4, next2, answers, 43);
    }
}

/// One round of the part `later_sorts`.
proof fn lemma_turns_later_sorts(k: int, contents: Contents, answers: Seq<Answer>, used: int)
    requires
        0 <= k < 19,
        used == 43 + 1 * k,
        contents.full(),
        turns_shaped(answers),
        contents.columns[4] == answers[42]->Words_0,
        answers[42] is Words,
        crate::laws::steps::column_or_refusal(answers[42]),
    ensures
        match crate::walk::walked(
            crate::categories::c19_multi_stream::interleaved_operations_sorted_round(
                (k + 1) as u64,
            ),
            0,
            4,
            contents,
            answers,
            used,
        ) {
            Some((after, next)) => {
                &&& turns_later_sorts(k, answers, used)
                &&& after.full()
                &&& next == 43 + 1 * (k + 1)
                &&& after.columns[4] == answers[42]->Words_0
                &&& answers[42] is Words
                &&& crate::laws::steps::column_or_refusal(answers[42])
            },
            None => !turns_later_sorts(k, answers, used),
        },
        crate::categories::c19_multi_stream::interleaved_operations_sorted_round(
            (k + 1) as u64,
        ).len() == 4,
{
    let steps = crate::categories::c19_multi_stream::interleaved_operations_sorted_round(
        (k + 1) as u64,
    );
    assert(crate::laws::steps::column_or_refusal(answers[43 + 1 * k]));
    crate::laws::steps::lemma_download(steps, 0, 4, contents, answers, used);
    if answers[used] is Words {
        let next1 = contents.with_column(3, answers[used]->Words_0);
        crate::laws::steps::lemma_scan_order(steps, 1, 4, next1, answers, used + 1, 3);
        lemma_is_first((k + 1) as u64, next1);
        crate::laws::steps::lemma_not_taken(steps, 2, 4, next1, answers, used + 1);
        lemma_is_first((k + 1) as u64, next1);
        crate::laws::steps::lemma_not_alike(next1, 3, 4);
        crate::laws::steps::lemma_check(
            steps,
            3,
            4,
            next1,
            answers,
            used + 1,
            !(answers[used]->Words_0 == answers[42]->Words_0),
        );
        crate::laws::steps::lemma_end(steps, 4, next1, answers, used + 1);
    }
}

/// All rounds of the part `later_sorts`.
proof fn lemma_turns_later_sorts_rounds(contents: Contents, answers: Seq<Answer>)
    requires
        contents.full(),
        turns_shaped(answers),
        contents.columns[4] == answers[42]->Words_0,
        answers[42] is Words,
        crate::laws::steps::column_or_refusal(answers[42]),
    ensures
        ({
            let steps = crate::script::rounds(
                19,
                |k: int| crate::categories::c19_multi_stream::interleaved_operations_sorted_round(
                    (k + 1) as u64,
                ),
            );
            match crate::walk::walked(steps, 0, steps.len() as int, contents, answers, 43) {
                Some((after, next)) => {
                    &&& forall|k: int|
                        0 <= k < 19 ==> #[trigger] turns_later_sorts(k, answers, 43 + 1 * k)
                    &&& after.full()
                    &&& next == 62
                    &&& after.columns[4] == answers[42]->Words_0
                    &&& answers[42] is Words
                    &&& crate::laws::steps::column_or_refusal(answers[42])
                },
                None => !(forall|k: int|
                    0 <= k < 19 ==> #[trigger] turns_later_sorts(k, answers, 43 + 1 * k)),
            }
        }),
{
    let round = |k: int| crate::categories::c19_multi_stream::interleaved_operations_sorted_round(
        (k + 1) as u64,
    );
    let start = |k: int| 43 + 1 * k;
    let good = |k: int| turns_later_sorts(k, answers, start(k));
    let kept = |contents: Contents| contents.full()
        && contents.columns[4] == answers[42]->Words_0 && answers[42] is Words
        && crate::laws::steps::column_or_refusal(
        answers[42],
    );
    assert forall|k: int, contents: Contents|
        #![trigger good(k), kept(contents)]
        0 <= k < 19 && kept(contents) implies if good(k) {
        crate::walk::goes_to(round(k), contents, answers, start(k), start(k + 1), kept)
    } else {
        crate::walk::walked(round(k), 0, round(k).len() as int, contents, answers, start(k)) is None
    } by {
        lemma_turns_later_sorts(k, contents, answers, start(k));
    }
    crate::walk::law_rounds_keep_what_each_keeps(19, round, start, good, kept, contents, answers);
    if forall|k: int| 0 <= k < 19 ==> #[trigger] good(k) {
        assert forall|k: int| 0 <= k < 19 implies #[trigger] turns_later_sorts(
            k,
            answers,
            43 + 1 * k,
        ) by {
            assert(good(k));
        }
    } else {
        let k = choose|k: int| 0 <= k < 19 && !(#[trigger] good(k));
        assert(!turns_later_sorts(k, answers, 43 + 1 * k));
    }
}

/// One round of the part `filtered`.
proof fn lemma_turns_filtered(k: int, contents: Contents, answers: Seq<Answer>, used: int)
    requires
        0 <= k < 20,
        used == 62 + 1 * k,
        contents.full(),
        turns_shaped(answers),
    ensures
        match crate::walk::walked(
            crate::categories::c19_multi_stream::interleaved_operations_filtered_round(k as u64),
            0,
            3,
            contents,
            answers,
            used,
        ) {
            Some((after, next)) => {
                &&& turns_filtered(k, answers, used)
                &&& after.full()
                &&& next == 62 + 1 * (k + 1)
            },
            None => !turns_filtered(k, answers, used),
        },
        crate::categories::c19_multi_stream::interleaved_operations_filtered_round(
            k as u64,
        ).len() == 3,
{
    let steps = crate::categories::c19_multi_stream::interleaved_operations_filtered_round(
        k as u64,
    );
    assert(answers[62 + 1 * k] is Count);
    lemma_share_of_rows(k, contents);
    crate::laws::steps::lemma_put(steps, 0, 3, contents, answers, used, (share(k) * 100) as u64);
    let next1 = contents.with_register(0, (share(k) * 100) as u64);
    crate::laws::steps::lemma_number(steps, 1, 3, next1, answers, used, answers[used]->Count_0);
    let next2 = next1.with_register(1, answers[used]->Count_0);
    lemma_near(next2, answers[used]->Count_0, (share(k) * 100) as u64);
    crate::laws::steps::lemma_check(
        steps,
        2,
        3,
        next2,
        answers,
        used + 1,
        !(crate::laws::stress::near(answers[used]->Count_0 as int, share(k) * 100)),
    );
    crate::laws::steps::lemma_end(steps, 3, next2, answers, used + 1);
}

/// All rounds of the part `filtered`.
proof fn lemma_turns_filtered_rounds(contents: Contents, answers: Seq<Answer>)
    requires
        contents.full(),
        turns_shaped(answers),
    ensures
        ({
            let steps = crate::script::rounds(
                20,
                |k: int| crate::categories::c19_multi_stream::interleaved_operations_filtered_round(
                    k as u64,
                ),
            );
            match crate::walk::walked(steps, 0, steps.len() as int, contents, answers, 62) {
                Some((after, next)) => {
                    &&& forall|k: int|
                        0 <= k < 20 ==> #[trigger] turns_filtered(k, answers, 62 + 1 * k)
                    &&& after.full()
                    &&& next == 82
                },
                None => !(forall|k: int|
                    0 <= k < 20 ==> #[trigger] turns_filtered(k, answers, 62 + 1 * k)),
            }
        }),
{
    let round = |k: int| crate::categories::c19_multi_stream::interleaved_operations_filtered_round(
        k as u64,
    );
    let start = |k: int| 62 + 1 * k;
    let good = |k: int| turns_filtered(k, answers, start(k));
    let kept = |contents: Contents| contents.full();
    assert forall|k: int, contents: Contents|
        #![trigger good(k), kept(contents)]
        0 <= k < 20 && kept(contents) implies if good(k) {
        crate::walk::goes_to(round(k), contents, answers, start(k), start(k + 1), kept)
    } else {
        crate::walk::walked(round(k), 0, round(k).len() as int, contents, answers, start(k)) is None
    } by {
        lemma_turns_filtered(k, contents, answers, start(k));
    }
    crate::walk::law_rounds_keep_what_each_keeps(20, round, start, good, kept, contents, answers);
    if forall|k: int| 0 <= k < 20 ==> #[trigger] good(k) {
        assert forall|k: int| 0 <= k < 20 implies #[trigger] turns_filtered(
            k,
            answers,
            62 + 1 * k,
        ) by {
            assert(good(k));
        }
    } else {
        let k = choose|k: int| 0 <= k < 20 && !(#[trigger] good(k));
        assert(!turns_filtered(k, answers, 62 + 1 * k));
    }
}

/// The part `end`.
proof fn lemma_turns_end(contents: Contents, answers: Seq<Answer>)
    requires
        contents.full(),
        turns_shaped(answers),
    ensures
        match crate::walk::walked(
            crate::categories::c19_multi_stream::interleaved_operations_end_steps(),
            0,
            1,
            contents,
            answers,
            82,
        ) {
            Some((after, next)) => {
                &&& turns_end(answers)
                &&& after.full()
                &&& next == 83
            },
            None => !turns_end(answers),
        },
        crate::categories::c19_multi_stream::interleaved_operations_end_steps().len() == 1,
{
    let steps = crate::categories::c19_multi_stream::interleaved_operations_end_steps();
    crate::laws::steps::lemma_command(steps, 0, 1, contents, answers, 82);
    crate::laws::steps::lemma_end(steps, 1, contents, answers, 83);
}

/// The test has no jumps.
proof fn lemma_turns_straight()
    ensures
        forall|j: int|
            0 <= j < crate::categories::c19_multi_stream::interleaved_operations_steps().len()
                ==> crate::walk::straight(
                #[trigger] crate::categories::c19_multi_stream::interleaved_operations_steps()[j],
            ),
{
    let part1 = crate::categories::c19_multi_stream::interleaved_operations_start_steps();
    let part2 = crate::script::rounds(
        20,
        |k: int| crate::categories::c19_multi_stream::interleaved_operations_turns_round(k as u64),
    );
    let round2 = |k: int| crate::categories::c19_multi_stream::interleaved_operations_turns_round(
        k as u64,
    );
    crate::walk::law_straight_rounds_are_straight(20, round2);
    let part3 = crate::categories::c19_multi_stream::interleaved_operations_sorted_round(0);
    let part4 = crate::script::rounds(
        19,
        |k: int| crate::categories::c19_multi_stream::interleaved_operations_sorted_round(
            (k + 1) as u64,
        ),
    );
    let round4 = |k: int| crate::categories::c19_multi_stream::interleaved_operations_sorted_round(
        (k + 1) as u64,
    );
    crate::walk::law_straight_rounds_are_straight(19, round4);
    let part5 = crate::script::rounds(
        20,
        |k: int| crate::categories::c19_multi_stream::interleaved_operations_filtered_round(
            k as u64,
        ),
    );
    let round5 = |k: int| crate::categories::c19_multi_stream::interleaved_operations_filtered_round(
        k as u64,
    );
    crate::walk::law_straight_rounds_are_straight(20, round5);
    let part6 = crate::categories::c19_multi_stream::interleaved_operations_end_steps();
    let whole1 = part1;
    let whole2 = whole1 + part2;
    crate::walk::law_straight_scripts_make_a_straight_one(whole1, part2);
    let whole3 = whole2 + part3;
    crate::walk::law_straight_scripts_make_a_straight_one(whole2, part3);
    let whole4 = whole3 + part4;
    crate::walk::law_straight_scripts_make_a_straight_one(whole3, part4);
    let whole5 = whole4 + part5;
    crate::walk::law_straight_scripts_make_a_straight_one(whole4, part5);
    let whole6 = whole5 + part6;
    crate::walk::law_straight_scripts_make_a_straight_one(whole5, part6);
    let every_round = |i: int| crate::categories::c19_multi_stream::interleaved_operations_sorted_round(
        i as u64,
    );
    let later_round = |k: int| crate::categories::c19_multi_stream::interleaved_operations_sorted_round(
        (k + 1) as u64,
    );
    crate::laws::steps::lemma_first_round(20, every_round, later_round);
    assert(crate::categories::c19_multi_stream::interleaved_operations_steps() == whole6);
}

/// The test of sorts and filters in turn passes exactly when each of twenty sorts leaves its words
/// in rising order, the same ones each time, and each of twenty filters leaves about as many rows
/// as its share of them.
pub proof fn law_turns_pass_exactly_when_results_stay_the_same(answers: Seq<Answer>)
    requires
        turns_shaped(answers),
    ensures
        crate::machine::run_of(
            crate::script::plan(
                "test_interleaved_operations",
                crate::categories::c19_multi_stream::interleaved_operations_steps(),
            ),
            answers,
        ).progress == Progress::Over(Ending::Passed) <==> {
            &&& turns_start(answers)
            &&& forall|k: int|
                0 <= k < 20 ==> #[trigger] turns_turns(k, answers, 2 + 2 * k)
            &&& turns_first_sort(answers)
            &&& forall|k: int|
                0 <= k < 19 ==> #[trigger] turns_later_sorts(k, answers, 43 + 1 * k)
            &&& forall|k: int|
                0 <= k < 20 ==> #[trigger] turns_filtered(k, answers, 62 + 1 * k)
            &&& turns_end(answers)
        },
{
    let plan = crate::script::plan(
        "test_interleaved_operations",
        crate::categories::c19_multi_stream::interleaved_operations_steps(),
    );
    let blank = Contents::blank(plan.texts);
    let part1 = crate::categories::c19_multi_stream::interleaved_operations_start_steps();
    let part2 = crate::script::rounds(
        20,
        |k: int| crate::categories::c19_multi_stream::interleaved_operations_turns_round(k as u64),
    );
    let part3 = crate::categories::c19_multi_stream::interleaved_operations_sorted_round(0);
    let part4 = crate::script::rounds(
        19,
        |k: int| crate::categories::c19_multi_stream::interleaved_operations_sorted_round(
            (k + 1) as u64,
        ),
    );
    let part5 = crate::script::rounds(
        20,
        |k: int| crate::categories::c19_multi_stream::interleaved_operations_filtered_round(
            k as u64,
        ),
    );
    let part6 = crate::categories::c19_multi_stream::interleaved_operations_end_steps();
    let whole1 = part1;
    let whole2 = whole1 + part2;
    let whole3 = whole2 + part3;
    let whole4 = whole3 + part4;
    let whole5 = whole4 + part5;
    let whole6 = whole5 + part6;
    let every_round = |i: int| crate::categories::c19_multi_stream::interleaved_operations_sorted_round(
        i as u64,
    );
    let later_round = |k: int| crate::categories::c19_multi_stream::interleaved_operations_sorted_round(
        (k + 1) as u64,
    );
    crate::laws::steps::lemma_first_round(20, every_round, later_round);
    assert(plan.steps == whole6);
    lemma_turns_start(blank, answers);
    crate::walk::law_walks_over_two_scripts_compose(whole1, part2, blank, answers, 0);
    crate::walk::law_walks_over_two_scripts_compose(whole2, part3, blank, answers, 0);
    crate::walk::law_walks_over_two_scripts_compose(whole3, part4, blank, answers, 0);
    crate::walk::law_walks_over_two_scripts_compose(whole4, part5, blank, answers, 0);
    crate::walk::law_walks_over_two_scripts_compose(whole5, part6, blank, answers, 0);
    match crate::walk::walked(whole1, 0, whole1.len() as int, blank, answers, 0) {
        Some((after, _)) => {
            lemma_turns_turns_rounds(after, answers);
            match crate::walk::walked(whole2, 0, whole2.len() as int, blank, answers, 0) {
                Some((after, _)) => {
                    lemma_turns_first_sort(after, answers);
                    match crate::walk::walked(whole3, 0, whole3.len() as int, blank, answers, 0) {
                        Some((after, _)) => {
                            lemma_turns_later_sorts_rounds(after, answers);
                            match crate::walk::walked(
                                whole4,
                                0,
                                whole4.len() as int,
                                blank,
                                answers,
                                0,
                            ) {
                                Some((after, _)) => {
                                    lemma_turns_filtered_rounds(after, answers);
                                    match crate::walk::walked(
                                        whole5,
                                        0,
                                        whole5.len() as int,
                                        blank,
                                        answers,
                                        0,
                                    ) {
                                        Some((after, _)) => {
                                            lemma_turns_end(after, answers);
                                        },
                                        None => {},
                                    }
                                },
                                None => {},
                            }
                        },
                        None => {},
                    }
                },
                None => {},
            }
        },
        None => {},
    }
    lemma_turns_straight();
    crate::walk::law_passes_exactly_when_every_step_goes_through(plan, answers);
}

/// Whether the answers to the downloads of the test are columns or refusals.
pub open spec fn joins_shaped(answers: Seq<Answer>) -> bool {
    &&& answers.len() >= 35
    &&& crate::laws::steps::column_or_refusal(answers[3])
    &&& crate::laws::steps::column_or_refusal(answers[4])
    &&& crate::laws::steps::column_or_refusal(answers[5])
    &&& forall|k: int| 0 <= k < 4 ==> #[trigger] answers[7 + 7 * k] is Count
    &&& forall|k: int| 0 <= k < 4 ==> #[trigger] answers[8 + 7 * k] is Count
    &&& forall|k: int|
        0 <= k < 4 ==> crate::laws::steps::column_or_refusal(#[trigger] answers[9 + 7 * k])
    &&& forall|k: int|
        0 <= k < 4 ==> crate::laws::steps::column_or_refusal(#[trigger] answers[10 + 7 * k])
    &&& forall|k: int|
        0 <= k < 4 ==> crate::laws::steps::column_or_refusal(#[trigger] answers[11 + 7 * k])
}

/// What the device has to answer in the part `first`.
pub open spec fn joins_first(answers: Seq<Answer>) -> bool {
    &&& !(answers[0] is Failed)
    &&& !(answers[1] is Failed)
    &&& !(answers[2] is Failed)
    &&& answers[3] is Words
    &&& answers[4] is Words
    &&& answers[5] is Words
}

/// What the device has to answer in round `k` of the part `repeats`, from answer `used` on.
pub open spec fn joins_repeats(k: int, answers: Seq<Answer>, used: int) -> bool {
    &&& !(answers[used] is Failed)
    &&& answers[used + 1]->Count_0 == answers[used + 2]->Count_0
    &&& answers[used + 3] is Words
    &&& answers[used + 4] is Words
    &&& answers[used + 5] is Words
    &&& crate::columns::rows(answers[3]->Words_0, answers[4]->Words_0, answers[5]->Words_0).to_set() == crate::columns::rows(
        answers[used + 3]->Words_0,
        answers[used + 4]->Words_0,
        answers[used + 5]->Words_0,
    ).to_set()
}

/// What the device has to answer in the part `end`.
pub open spec fn joins_end(answers: Seq<Answer>) -> bool {
    !(answers[34] is Failed)
}

/// The part `first`.
proof fn lemma_joins_first(contents: Contents, answers: Seq<Answer>)
    requires
        contents.full(),
        joins_shaped(answers),
    ensures
        match crate::walk::walked(
            crate::categories::c15_determinism::join_reproducibility_first_steps(),
            0,
            10,
            contents,
            answers,
            0,
        ) {
            Some((after, next)) => {
                &&& joins_first(answers)
                &&& after.full()
                &&& next == 6
                &&& after.columns[4] == answers[3]->Words_0
                &&& after.columns[5] == answers[4]->Words_0
                &&& after.columns[6] == answers[5]->Words_0
                &&& answers[3] is Words
                &&& answers[4] is Words
                &&& answers[5] is Words
            },
            None => !joins_first(answers),
        },
        crate::categories::c15_determinism::join_reproducibility_first_steps().len() == 10,
{
    let steps = crate::categories::c15_determinism::join_reproducibility_first_steps();
    lemma_left_keys(contents);
    let words1 = left_keys();
    crate::laws::steps::lemma_fill(steps, 0, 10, contents, answers, 0, words1);
    let next1 = contents.with_column(0, words1);
    crate::laws::words::lemma_scaled(0, 10, next1);
    let words2 = crate::laws::words::scaled(left_keys(), 10);
    crate::laws::steps::lemma_fill(steps, 1, 10, next1, answers, 0, words2);
    let next2 = next1.with_column(1, words2);
    lemma_right_keys(next2);
    let words3 = right_keys();
    crate::laws::steps::lemma_fill(steps, 2, 10, next2, answers, 0, words3);
    let next3 = next2.with_column(2, words3);
    crate::laws::words::lemma_scaled(2, 100, next3);
    let words4 = crate::laws::words::scaled(right_keys(), 100);
    crate::laws::steps::lemma_fill(steps, 3, 10, next3, answers, 0, words4);
    let next4 = next3.with_column(3, words4);
    crate::laws::steps::lemma_command(steps, 4, 10, next4, answers, 0);
    crate::laws::steps::lemma_command(steps, 5, 10, next4, answers, 1);
    crate::laws::steps::lemma_command(steps, 6, 10, next4, answers, 2);
    crate::laws::steps::lemma_download(steps, 7, 10, next4, answers, 3);
    if answers[3] is Words {
        let next5 = next4.with_column(4, answers[3]->Words_0);
        crate::laws::steps::lemma_download(steps, 8, 10, next5, answers, 4);
        if answers[4] is Words {
            let next6 = next5.with_column(5, answers[4]->Words_0);
            crate::laws::steps::lemma_download(steps, 9, 10, next6, answers, 5);
            if answers[5] is Words {
                let next7 = next6.with_column(6, answers[5]->Words_0);
                crate::laws::steps::lemma_end(steps, 10, next7, answers, 6);
            }
        }
    }
}

/// One round of the part `repeats`.
proof fn lemma_joins_repeats(k: int, contents: Contents, answers: Seq<Answer>, used: int)
    requires
        0 <= k < 4,
        used == 6 + 7 * k,
        contents.full(),
        joins_shaped(answers),
        contents.columns[4] == answers[3]->Words_0,
        contents.columns[5] == answers[4]->Words_0,
        contents.columns[6] == answers[5]->Words_0,
        answers[3] is Words,
        answers[4] is Words,
        answers[5] is Words,
    ensures
        match crate::walk::walked(
            crate::categories::c15_determinism::join_reproducibility_repeats_round(k as u64),
            0,
            11,
            contents,
            answers,
            used,
        ) {
            Some((after, next)) => {
                &&& joins_repeats(k, answers, used)
                &&& after.full()
                &&& next == 6 + 7 * (k + 1)
                &&& after.columns[4] == answers[3]->Words_0
                &&& after.columns[5] == answers[4]->Words_0
                &&& after.columns[6] == answers[5]->Words_0
                &&& answers[3] is Words
                &&& answers[4] is Words
                &&& answers[5] is Words
            },
            None => !joins_repeats(k, answers, used),
        },
        crate::categories::c15_determinism::join_reproducibility_repeats_round(
            k as u64,
        ).len() == 11,
{
    let steps = crate::categories::c15_determinism::join_reproducibility_repeats_round(k as u64);
    assert(answers[7 + 7 * k] is Count);
    assert(answers[8 + 7 * k] is Count);
    assert(crate::laws::steps::column_or_refusal(answers[9 + 7 * k]));
    assert(crate::laws::steps::column_or_refusal(answers[10 + 7 * k]));
    assert(crate::laws::steps::column_or_refusal(answers[11 + 7 * k]));
    crate::laws::steps::lemma_command(steps, 0, 11, contents, answers, used);
    crate::laws::steps::lemma_number(
        steps,
        1,
        11,
        contents,
        answers,
        used + 1,
        answers[used + 1]->Count_0,
    );
    let next1 = contents.with_register(0, answers[used + 1]->Count_0);
    crate::laws::steps::lemma_number(
        steps,
        2,
        11,
        next1,
        answers,
        used + 2,
        answers[used + 2]->Count_0,
    );
    let next2 = next1.with_register(1, answers[used + 2]->Count_0);
    crate::laws::repeats::lemma_counts_agree(steps, 3, 11, next2, answers, used + 3, 3, 2);
    crate::laws::steps::lemma_download(steps, 6, 11, next2, answers, used + 3);
    if answers[used + 3] is Words {
        let next3 = next2.with_column(7, answers[used + 3]->Words_0);
        crate::laws::steps::lemma_download(steps, 7, 11, next3, answers, used + 4);
        if answers[used + 4] is Words {
            let next4 = next3.with_column(8, answers[used + 4]->Words_0);
            crate::laws::steps::lemma_download(steps, 8, 11, next4, answers, used + 5);
            if answers[used + 5] is Words {
                let next5 = next4.with_column(9, answers[used + 5]->Words_0);
                lemma_not_alike_rows(next5);
                crate::laws::steps::lemma_check(
                    steps,
                    9,
                    11,
                    next5,
                    answers,
                    used + 6,
                    !(
                        crate::columns::rows(answers[3]->Words_0, answers[4]->Words_0, answers[5]->Words_0).to_set() == crate::columns::rows(
                            answers[used + 3]->Words_0,
                            answers[used + 4]->Words_0,
                            answers[used + 5]->Words_0,
                        ).to_set()
                    ),
                );
                crate::laws::steps::lemma_command(steps, 10, 11, next5, answers, used + 6);
                crate::laws::steps::lemma_end(steps, 11, next5, answers, used + 7);
            }
        }
    }
}

/// All rounds of the part `repeats`.
proof fn lemma_joins_repeats_rounds(contents: Contents, answers: Seq<Answer>)
    requires
        contents.full(),
        joins_shaped(answers),
        contents.columns[4] == answers[3]->Words_0,
        contents.columns[5] == answers[4]->Words_0,
        contents.columns[6] == answers[5]->Words_0,
        answers[3] is Words,
        answers[4] is Words,
        answers[5] is Words,
    ensures
        ({
            let steps = crate::script::rounds(
                4,
                |k: int| crate::categories::c15_determinism::join_reproducibility_repeats_round(
                    k as u64,
                ),
            );
            match crate::walk::walked(steps, 0, steps.len() as int, contents, answers, 6) {
                Some((after, next)) => {
                    &&& forall|k: int|
                        0 <= k < 4 ==> #[trigger] joins_repeats(k, answers, 6 + 7 * k)
                    &&& after.full()
                    &&& next == 34
                    &&& after.columns[4] == answers[3]->Words_0
                    &&& after.columns[5] == answers[4]->Words_0
                    &&& after.columns[6] == answers[5]->Words_0
                    &&& answers[3] is Words
                    &&& answers[4] is Words
                    &&& answers[5] is Words
                },
                None => !(forall|k: int|
                    0 <= k < 4 ==> #[trigger] joins_repeats(k, answers, 6 + 7 * k)),
            }
        }),
{
    let round = |k: int| crate::categories::c15_determinism::join_reproducibility_repeats_round(
        k as u64,
    );
    let start = |k: int| 6 + 7 * k;
    let good = |k: int| joins_repeats(k, answers, start(k));
    let kept = |contents: Contents| contents.full()
        && contents.columns[4] == answers[3]->Words_0
        && contents.columns[5] == answers[4]->Words_0
        && contents.columns[6] == answers[5]->Words_0 && answers[3] is Words
        && answers[4] is Words && answers[5] is Words;
    assert forall|k: int, contents: Contents|
        #![trigger good(k), kept(contents)]
        0 <= k < 4 && kept(contents) implies if good(k) {
        crate::walk::goes_to(round(k), contents, answers, start(k), start(k + 1), kept)
    } else {
        crate::walk::walked(round(k), 0, round(k).len() as int, contents, answers, start(k)) is None
    } by {
        lemma_joins_repeats(k, contents, answers, start(k));
    }
    crate::walk::law_rounds_keep_what_each_keeps(4, round, start, good, kept, contents, answers);
    if forall|k: int| 0 <= k < 4 ==> #[trigger] good(k) {
        assert forall|k: int| 0 <= k < 4 implies #[trigger] joins_repeats(
            k,
            answers,
            6 + 7 * k,
        ) by {
            assert(good(k));
        }
    } else {
        let k = choose|k: int| 0 <= k < 4 && !(#[trigger] good(k));
        assert(!joins_repeats(k, answers, 6 + 7 * k));
    }
}

/// The part `end`.
proof fn lemma_joins_end(contents: Contents, answers: Seq<Answer>)
    requires
        contents.full(),
        joins_shaped(answers),
        contents.columns[4] == answers[3]->Words_0,
        contents.columns[5] == answers[4]->Words_0,
        contents.columns[6] == answers[5]->Words_0,
        answers[3] is Words,
        answers[4] is Words,
        answers[5] is Words,
    ensures
        match crate::walk::walked(
            crate::categories::c15_determinism::join_reproducibility_end_steps(),
            0,
            1,
            contents,
            answers,
            34,
        ) {
            Some((after, next)) => {
                &&& joins_end(answers)
                &&& after.full()
                &&& next == 35
            },
            None => !joins_end(answers),
        },
        crate::categories::c15_determinism::join_reproducibility_end_steps().len() == 1,
{
    let steps = crate::categories::c15_determinism::join_reproducibility_end_steps();
    crate::laws::steps::lemma_command(steps, 0, 1, contents, answers, 34);
    crate::laws::steps::lemma_end(steps, 1, contents, answers, 35);
}

/// The test has no jumps.
proof fn lemma_joins_straight()
    ensures
        forall|j: int|
            0 <= j < crate::categories::c15_determinism::join_reproducibility_steps().len()
                ==> crate::walk::straight(
                #[trigger] crate::categories::c15_determinism::join_reproducibility_steps()[j],
            ),
{
    let part1 = crate::categories::c15_determinism::join_reproducibility_first_steps();
    let part2 = crate::script::rounds(
        4,
        |k: int| crate::categories::c15_determinism::join_reproducibility_repeats_round(k as u64),
    );
    let round2 = |k: int| crate::categories::c15_determinism::join_reproducibility_repeats_round(
        k as u64,
    );
    crate::walk::law_straight_rounds_are_straight(4, round2);
    let part3 = crate::categories::c15_determinism::join_reproducibility_end_steps();
    let whole1 = part1;
    let whole2 = whole1 + part2;
    crate::walk::law_straight_scripts_make_a_straight_one(whole1, part2);
    let whole3 = whole2 + part3;
    crate::walk::law_straight_scripts_make_a_straight_one(whole2, part3);
    assert(crate::categories::c15_determinism::join_reproducibility_steps() == whole3);
}

/// The test of joins passes exactly when a first join hands out its columns, and each of four more
/// has as many rows as the first one and hands out the same rows, in whatever order.
pub proof fn law_joins_pass_exactly_when_reproduced(answers: Seq<Answer>)
    requires
        joins_shaped(answers),
    ensures
        crate::machine::run_of(
            crate::script::plan(
                "test_join_reproducibility",
                crate::categories::c15_determinism::join_reproducibility_steps(),
            ),
            answers,
        ).progress == Progress::Over(Ending::Passed) <==> {
            &&& joins_first(answers)
            &&& forall|k: int|
                0 <= k < 4 ==> #[trigger] joins_repeats(k, answers, 6 + 7 * k)
            &&& joins_end(answers)
        },
{
    let plan = crate::script::plan(
        "test_join_reproducibility",
        crate::categories::c15_determinism::join_reproducibility_steps(),
    );
    let blank = Contents::blank(plan.texts);
    let part1 = crate::categories::c15_determinism::join_reproducibility_first_steps();
    let part2 = crate::script::rounds(
        4,
        |k: int| crate::categories::c15_determinism::join_reproducibility_repeats_round(k as u64),
    );
    let part3 = crate::categories::c15_determinism::join_reproducibility_end_steps();
    let whole1 = part1;
    let whole2 = whole1 + part2;
    let whole3 = whole2 + part3;
    assert(plan.steps == whole3);
    lemma_joins_first(blank, answers);
    crate::walk::law_walks_over_two_scripts_compose(whole1, part2, blank, answers, 0);
    crate::walk::law_walks_over_two_scripts_compose(whole2, part3, blank, answers, 0);
    match crate::walk::walked(whole1, 0, whole1.len() as int, blank, answers, 0) {
        Some((after, _)) => {
            lemma_joins_repeats_rounds(after, answers);
            match crate::walk::walked(whole2, 0, whole2.len() as int, blank, answers, 0) {
                Some((after, _)) => {
                    lemma_joins_end(after, answers);
                },
                None => {},
            }
        },
        None => {},
    }
    lemma_joins_straight();
    crate::walk::law_passes_exactly_when_every_step_goes_through(plan, answers);
}

} // verus!
