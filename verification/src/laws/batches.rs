//! The law of the test that runs batches.

use vstd::prelude::*;
use crate::expr::{here, ix, len, lt, minus, modulo, not, num, over, plus, same_as, times};
use crate::machine::{Answer, Ending, Progress};
use crate::memory::Contents;
use crate::script::COUNT;

verus! {

/// The keys of round `k` of the sorts.
pub open spec fn batch_keys(k: int) -> Seq<u64> {
    Seq::new(5000, |i: int| (i * (k + 1) * 7 % 100000) as u64)
}

/// The mask of round `k` of the filters.
pub open spec fn batch_mask(k: int) -> Seq<u64> {
    Seq::new(5000, |i: int| crate::expr::truth(i >= k * 5000 / 100))
}

/// The words of [`batch_keys`].
proof fn lemma_batch_keys(k: int, contents: Contents)
    requires
        0 <= k < 100,
    ensures
        forall|i: int|
            0 <= i < 5000 ==> #[trigger] crate::expr::value_of(
                modulo(
                    times(times(ix(), plus(num(k as u64), num(1))), num(7)),
                    num(100000),
                ),
                contents,
                i as u64,
            ) == Some(batch_keys(k)[i]),
{
    assert forall|i: int| 0 <= i < 5000 implies #[trigger] crate::expr::value_of(
        modulo(times(times(ix(), plus(num(k as u64), num(1))), num(7)), num(100000)),
        contents,
        i as u64,
    ) == Some(batch_keys(k)[i]) by {
        let place = i as u64;
        assert(0 <= i * (k + 1) <= 500000) by (nonlinear_arith)
            requires
                0 <= i < 5000,
                0 <= k < 100,
        ;
        assert(crate::expr::value_of(num(k as u64), contents, place) == Some(k as u64));
        assert(crate::expr::value_of(num(1), contents, place) == Some(1u64));
        assert(crate::expr::value_of(num(7), contents, place) == Some(7u64));
        assert(crate::expr::value_of(num(100000), contents, place) == Some(100000u64));
        assert(crate::expr::value_of(ix(), contents, place) == Some(place));
        let factor = plus(num(k as u64), num(1));
        assert(crate::expr::value_of(factor, contents, place) == Some((k + 1) as u64));
        let product = times(ix(), factor);
        assert(crate::expr::value_of(product, contents, place) == Some((i * (k + 1)) as u64));
        let seven = times(product, num(7));
        assert(crate::expr::value_of(seven, contents, place) == Some((i * (k + 1) * 7) as u64));
    }
}

/// The words of [`batch_mask`].
#[verifier::spinoff_prover]
#[verifier::rlimit(50)]
proof fn lemma_batch_mask(k: int, contents: Contents)
    requires
        0 <= k < 100,
        contents.full(),
        contents.columns[0] == crate::laws::words::below(5000),
    ensures
        forall|i: int|
            0 <= i < 5000 ==> #[trigger] crate::expr::value_of(
                not(lt(here(0), over(times(num(k as u64), num(5000)), num(100)))),
                contents,
                i as u64,
            ) == Some(batch_mask(k)[i]),
{
    reveal_with_fuel(crate::expr::value_of, 6);
}

/// How many rows a round of filters or of duplicate removals leaves.
#[verifier::spinoff_prover]
#[verifier::rlimit(50)]
proof fn lemma_batch_counts(k: int, contents: Contents)
    requires
        0 <= k < 100,
    ensures
        crate::expr::value_of(
            minus(num(5000), over(times(num(k as u64), num(5000)), num(100))),
            contents,
            0,
        ) == Some((5000 - k * 50) as u64),
        crate::expr::value_of(
            plus(num(100), times(num(k as u64), num(10))),
            contents,
            0,
        ) == Some((100 + k * 10) as u64),
{
    reveal_with_fuel(crate::expr::value_of, 5);
}

/// The words of the keys of round `k` of the duplicate removals.
#[verifier::spinoff_prover]
#[verifier::rlimit(50)]
proof fn lemma_batch_cycle(k: int, contents: Contents)
    requires
        0 <= k < 50,
    ensures
        forall|i: int|
            0 <= i < 5000 ==> #[trigger] crate::expr::value_of(
                modulo(ix(), plus(num(100), times(num(k as u64), num(10)))),
                contents,
                i as u64,
            ) == Some(crate::laws::words::cyclic((100 + k * 10) as u64, 5000)[i]),
{
    reveal_with_fuel(crate::expr::value_of, 5);
}

/// The words of the left values of round `k` of the joins.
#[verifier::spinoff_prover]
#[verifier::rlimit(50)]
proof fn lemma_batch_values(k: int, contents: Contents)
    requires
        0 <= k < 25,
        contents.full(),
        contents.columns[1] == crate::laws::words::below(500),
    ensures
        forall|i: int|
            0 <= i < 500 ==> #[trigger] crate::expr::value_of(
                plus(here(1), times(num(k as u64), num(1000))),
                contents,
                i as u64,
            ) == Some(
                crate::laws::words::shifted(
                    crate::laws::words::below(500),
                    (k * 1000) as u64,
                )[i],
            ),
{
    reveal_with_fuel(crate::expr::value_of, 5);
}

/// Whether round `k` is one of those that are looked at.
proof fn lemma_batch_guard(k: int, contents: Contents)
    requires
        0 <= k < 100,
    ensures
        crate::expr::value_of(
            same_as(modulo(num(k as u64), num(10)), num(0)),
            contents,
            0,
        ) == Some(crate::expr::truth(k % 10 == 0)),
{
    reveal_with_fuel(crate::expr::value_of, 4);
}

/// Whether the answers to the downloads of the test are columns or refusals.
pub open spec fn batches_shaped(answers: Seq<Answer>) -> bool {
    &&& answers.len() >= 940
    &&& forall|k: int|
        #![trigger batches_sorts_start(k)]
        0 <= k < 100 && k % 10 == 0 ==> crate::laws::steps::column_or_refusal(
            answers[batches_sorts_start(k) + 2],
        )
}

/// What the device has to answer in round `k` of the part `sorts`, from answer `used` on.
pub open spec fn batches_sorts(k: int, answers: Seq<Answer>, used: int) -> bool {
    &&& !(answers[used] is Failed)
    &&& !(answers[used + 1] is Failed)
    &&& k % 10 == 0 ==> {
        &&& answers[used + 2] is Words
        &&& crate::laws::steps::rises(answers[used + 2]->Words_0)
    }
}

/// What the device has to answer in the part `filter_source`.
pub open spec fn batches_filter_source(answers: Seq<Answer>) -> bool {
    &&& !(answers[310] is Failed)
    &&& !(answers[311] is Failed)
}

/// What the device has to answer in round `k` of the part `filters`, from answer `used` on.
pub open spec fn batches_filters(k: int, answers: Seq<Answer>, used: int) -> bool {
    &&& !(answers[used] is Failed)
    &&& answers[used + 1] == Answer::Count((5000 - k * 50) as u64)
}

/// What the device has to answer in the part `after_filters`.
pub open spec fn batches_after_filters(answers: Seq<Answer>) -> bool {
    !(answers[612] is Failed)
}

/// What the device has to answer in round `k` of the part `dedups`, from answer `used` on.
pub open spec fn batches_dedups(k: int, answers: Seq<Answer>, used: int) -> bool {
    &&& !(answers[used] is Failed)
    &&& !(answers[used + 1] is Failed)
    &&& answers[used + 2] == Answer::Count((100 + k * 10) as u64)
}

/// What the device has to answer in the part `after_dedups`.
pub open spec fn batches_after_dedups(answers: Seq<Answer>) -> bool {
    !(answers[813] is Failed)
}

/// What the device has to answer in round `k` of the part `joins`, from answer `used` on.
pub open spec fn batches_joins(k: int, answers: Seq<Answer>, used: int) -> bool {
    &&& !(answers[used] is Failed)
    &&& !(answers[used + 1] is Failed)
    &&& !(answers[used + 2] is Failed)
    &&& answers[used + 3] == Answer::Count(250)
}

/// What the device has to answer in the part `end`.
pub open spec fn batches_end(answers: Seq<Answer>) -> bool {
    !(answers[939] is Failed)
}

/// Where round `k` of the part `sorts` starts among the answers.
pub open spec fn batches_sorts_start(k: int) -> int {
    3 * k + (k + 9) / 10
}

/// One round of the part `sorts`.
proof fn lemma_batches_sorts(k: int, contents: Contents, answers: Seq<Answer>, used: int)
    requires
        0 <= k < 100,
        used == batches_sorts_start(k),
        contents.full(),
        batches_shaped(answers),
    ensures
        match crate::walk::walked(
            crate::categories::c16_async_pipeline::large_batch_operations_sorts_round(k as u64),
            0,
            6,
            contents,
            answers,
            used,
        ) {
            Some((after, next)) => {
                &&& batches_sorts(k, answers, used)
                &&& after.full()
                &&& next == batches_sorts_start(k + 1)
            },
            None => !batches_sorts(k, answers, used),
        },
        crate::categories::c16_async_pipeline::large_batch_operations_sorts_round(
            k as u64,
        ).len() == 6,
{
    let steps = crate::categories::c16_async_pipeline::large_batch_operations_sorts_round(k as u64);
    if k % 10 == 0 {
        let first = batches_sorts_start(k);
        lemma_batch_keys(k, contents);
        let words1 = batch_keys(k);
        crate::laws::steps::lemma_fill(steps, 0, 6, contents, answers, used, words1);
        let next1 = contents.with_column(0, words1);
        crate::laws::steps::lemma_command(steps, 1, 6, next1, answers, used);
        crate::laws::steps::lemma_command(steps, 2, 6, next1, answers, used + 1);
        lemma_batch_guard(k, next1);
        crate::laws::steps::lemma_download(steps, 3, 6, next1, answers, used + 2);
        if answers[used + 2] is Words {
            let next2 = next1.with_column(1, answers[used + 2]->Words_0);
            lemma_batch_guard(k, next2);
            crate::laws::steps::lemma_scan_order(steps, 4, 6, next2, answers, used + 3, 1);
            crate::laws::steps::lemma_command(steps, 5, 6, next2, answers, used + 3);
            crate::laws::steps::lemma_end(steps, 6, next2, answers, used + 4);
        }
    } else {
        lemma_batch_keys(k, contents);
        let words1 = batch_keys(k);
        crate::laws::steps::lemma_fill(steps, 0, 6, contents, answers, used, words1);
        let next1 = contents.with_column(0, words1);
        crate::laws::steps::lemma_command(steps, 1, 6, next1, answers, used);
        crate::laws::steps::lemma_command(steps, 2, 6, next1, answers, used + 1);
        lemma_batch_guard(k, next1);
        crate::laws::steps::lemma_not_taken(steps, 3, 6, next1, answers, used + 2);
        lemma_batch_guard(k, next1);
        crate::laws::steps::lemma_not_taken(steps, 4, 6, next1, answers, used + 2);
        crate::laws::steps::lemma_command(steps, 5, 6, next1, answers, used + 2);
        crate::laws::steps::lemma_end(steps, 6, next1, answers, used + 3);
    }
}

/// All rounds of the part `sorts`.
proof fn lemma_batches_sorts_rounds(contents: Contents, answers: Seq<Answer>)
    requires
        contents.full(),
        batches_shaped(answers),
    ensures
        ({
            let steps = crate::script::rounds(
                100,
                |k: int| crate::categories::c16_async_pipeline::large_batch_operations_sorts_round(
                    k as u64,
                ),
            );
            match crate::walk::walked(steps, 0, steps.len() as int, contents, answers, 0) {
                Some((after, next)) => {
                    &&& forall|k: int| 0 <= k < 100 ==> #[trigger] batches_sorts(
                        k,
                        answers,
                        batches_sorts_start(k),
                    )
                    &&& after.full()
                    &&& next == 310
                },
                None => !(forall|k: int|
                    0 <= k < 100 ==> #[trigger] batches_sorts(k, answers, batches_sorts_start(k))),
            }
        }),
{
    let round = |k: int| crate::categories::c16_async_pipeline::large_batch_operations_sorts_round(
        k as u64,
    );
    let start = |k: int| batches_sorts_start(k);
    let good = |k: int| batches_sorts(k, answers, start(k));
    let kept = |contents: Contents| contents.full();
    assert forall|k: int, contents: Contents|
        #![trigger good(k), kept(contents)]
        0 <= k < 100 && kept(contents) implies if good(k) {
        crate::walk::goes_to(round(k), contents, answers, start(k), start(k + 1), kept)
    } else {
        crate::walk::walked(round(k), 0, round(k).len() as int, contents, answers, start(k)) is None
    } by {
        lemma_batches_sorts(k, contents, answers, start(k));
    }
    crate::walk::law_rounds_keep_what_each_keeps(100, round, start, good, kept, contents, answers);
    if forall|k: int| 0 <= k < 100 ==> #[trigger] good(k) {
        assert forall|k: int| 0 <= k < 100 implies #[trigger] batches_sorts(
            k,
            answers,
            batches_sorts_start(k),
        ) by {
            assert(good(k));
        }
    } else {
        let k = choose|k: int| 0 <= k < 100 && !(#[trigger] good(k));
        assert(!batches_sorts(k, answers, batches_sorts_start(k)));
    }
}

/// The part `filter_source`.
proof fn lemma_batches_filter_source(contents: Contents, answers: Seq<Answer>)
    requires
        contents.full(),
        batches_shaped(answers),
    ensures
        match crate::walk::walked(
            crate::categories::c16_async_pipeline::large_batch_operations_filter_source_steps(),
            0,
            3,
            contents,
            answers,
            310,
        ) {
            Some((after, next)) => {
                &&& batches_filter_source(answers)
                &&& after.full()
                &&& next == 312
                &&& after.columns[0] == crate::laws::words::below(5000)
            },
            None => !batches_filter_source(answers),
        },
        crate::categories::c16_async_pipeline::large_batch_operations_filter_source_steps().len() == 3,
{
    let steps = crate::categories::c16_async_pipeline::large_batch_operations_filter_source_steps();
    crate::laws::steps::lemma_command(steps, 0, 3, contents, answers, 310);
    crate::laws::words::lemma_below(5000, contents);
    let words1 = crate::laws::words::below(5000);
    crate::laws::steps::lemma_fill(steps, 1, 3, contents, answers, 311, words1);
    let next1 = contents.with_column(0, words1);
    crate::laws::steps::lemma_command(steps, 2, 3, next1, answers, 311);
    crate::laws::steps::lemma_end(steps, 3, next1, answers, 312);
}

/// One round of the part `filters`.
proof fn lemma_batches_filters(k: int, contents: Contents, answers: Seq<Answer>, used: int)
    requires
        0 <= k < 100,
        used == 312 + 3 * k,
        contents.full(),
        batches_shaped(answers),
        contents.columns[0] == crate::laws::words::below(5000),
    ensures
        match crate::walk::walked(
            crate::categories::c16_async_pipeline::large_batch_operations_filters_round(k as u64),
            0,
            4,
            contents,
            answers,
            used,
        ) {
            Some((after, next)) => {
                &&& batches_filters(k, answers, used)
                &&& after.full()
                &&& next == 312 + 3 * (k + 1)
                &&& after.columns[0] == crate::laws::words::below(5000)
            },
            None => !batches_filters(k, answers, used),
        },
        crate::categories::c16_async_pipeline::large_batch_operations_filters_round(
            k as u64,
        ).len() == 4,
{
    let steps = crate::categories::c16_async_pipeline::large_batch_operations_filters_round(
        k as u64,
    );
    lemma_batch_mask(k, contents);
    let words1 = batch_mask(k);
    crate::laws::steps::lemma_fill(steps, 0, 4, contents, answers, used, words1);
    let next1 = contents.with_column(1, words1);
    crate::laws::steps::lemma_command(steps, 1, 4, next1, answers, used);
    lemma_batch_counts(k, next1);
    crate::laws::steps::lemma_match(steps, 2, 4, next1, answers, used + 1, (5000 - k * 50) as u64);
    let next2 = next1.with_register(COUNT, (5000 - k * 50) as u64);
    crate::laws::steps::lemma_command(steps, 3, 4, next2, answers, used + 2);
    crate::laws::steps::lemma_end(steps, 4, next2, answers, used + 3);
}

/// All rounds of the part `filters`.
proof fn lemma_batches_filters_rounds(contents: Contents, answers: Seq<Answer>)
    requires
        contents.full(),
        batches_shaped(answers),
        contents.columns[0] == crate::laws::words::below(5000),
    ensures
        ({
            let steps = crate::script::rounds(
                100,
                |k: int|
                    crate::categories::c16_async_pipeline::large_batch_operations_filters_round(
                    k as u64,
                ),
            );
            match crate::walk::walked(steps, 0, steps.len() as int, contents, answers, 312) {
                Some((after, next)) => {
                    &&& forall|k: int| 0 <= k < 100 ==> #[trigger] batches_filters(
                        k,
                        answers,
                        312 + 3 * k,
                    )
                    &&& after.full()
                    &&& next == 612
                    &&& after.columns[0] == crate::laws::words::below(5000)
                },
                None => !(forall|k: int|
                    0 <= k < 100 ==> #[trigger] batches_filters(k, answers, 312 + 3 * k)),
            }
        }),
{
    let round = |k: int|
        crate::categories::c16_async_pipeline::large_batch_operations_filters_round(
        k as u64,
    );
    let start = |k: int| 312 + 3 * k;
    let good = |k: int| batches_filters(k, answers, start(k));
    let kept = |contents: Contents|
        contents.full() && contents.columns[0] == crate::laws::words::below(
        5000,
    );
    assert forall|k: int, contents: Contents|
        #![trigger good(k), kept(contents)]
        0 <= k < 100 && kept(contents) implies if good(k) {
        crate::walk::goes_to(round(k), contents, answers, start(k), start(k + 1), kept)
    } else {
        crate::walk::walked(round(k), 0, round(k).len() as int, contents, answers, start(k)) is None
    } by {
        lemma_batches_filters(k, contents, answers, start(k));
    }
    crate::walk::law_rounds_keep_what_each_keeps(100, round, start, good, kept, contents, answers);
    if forall|k: int| 0 <= k < 100 ==> #[trigger] good(k) {
        assert forall|k: int| 0 <= k < 100 implies #[trigger] batches_filters(
            k,
            answers,
            312 + 3 * k,
        ) by {
            assert(good(k));
        }
    } else {
        let k = choose|k: int| 0 <= k < 100 && !(#[trigger] good(k));
        assert(!batches_filters(k, answers, 312 + 3 * k));
    }
}

/// The part `after_filters`.
proof fn lemma_batches_after_filters(contents: Contents, answers: Seq<Answer>)
    requires
        contents.full(),
        batches_shaped(answers),
        contents.columns[0] == crate::laws::words::below(5000),
    ensures
        match crate::walk::walked(
            crate::categories::c16_async_pipeline::large_batch_operations_after_filters_steps(),
            0,
            1,
            contents,
            answers,
            612,
        ) {
            Some((after, next)) => {
                &&& batches_after_filters(answers)
                &&& after.full()
                &&& next == 613
            },
            None => !batches_after_filters(answers),
        },
        crate::categories::c16_async_pipeline::large_batch_operations_after_filters_steps().len() == 1,
{
    let steps = crate::categories::c16_async_pipeline::large_batch_operations_after_filters_steps();
    crate::laws::steps::lemma_command(steps, 0, 1, contents, answers, 612);
    crate::laws::steps::lemma_end(steps, 1, contents, answers, 613);
}

/// One round of the part `dedups`.
proof fn lemma_batches_dedups(k: int, contents: Contents, answers: Seq<Answer>, used: int)
    requires
        0 <= k < 50,
        used == 613 + 4 * k,
        contents.full(),
        batches_shaped(answers),
    ensures
        match crate::walk::walked(
            crate::categories::c16_async_pipeline::large_batch_operations_dedups_round(k as u64),
            0,
            6,
            contents,
            answers,
            used,
        ) {
            Some((after, next)) => {
                &&& batches_dedups(k, answers, used)
                &&& after.full()
                &&& next == 613 + 4 * (k + 1)
            },
            None => !batches_dedups(k, answers, used),
        },
        crate::categories::c16_async_pipeline::large_batch_operations_dedups_round(
            k as u64,
        ).len() == 6,
{
    let steps = crate::categories::c16_async_pipeline::large_batch_operations_dedups_round(
        k as u64,
    );
    lemma_batch_cycle(k, contents);
    let words1 = crate::laws::words::cyclic((100 + k * 10) as u64, 5000);
    crate::laws::steps::lemma_fill(steps, 0, 6, contents, answers, used, words1);
    let next1 = contents.with_column(1, words1);
    crate::laws::words::lemma_below(5000, next1);
    let words2 = crate::laws::words::below(5000);
    crate::laws::steps::lemma_fill(steps, 1, 6, next1, answers, used, words2);
    let next2 = next1.with_column(2, words2);
    crate::laws::steps::lemma_command(steps, 2, 6, next2, answers, used);
    crate::laws::steps::lemma_command(steps, 3, 6, next2, answers, used + 1);
    lemma_batch_counts(k, next2);
    crate::laws::steps::lemma_match(steps, 4, 6, next2, answers, used + 2, (100 + k * 10) as u64);
    let next3 = next2.with_register(COUNT, (100 + k * 10) as u64);
    crate::laws::steps::lemma_command(steps, 5, 6, next3, answers, used + 3);
    crate::laws::steps::lemma_end(steps, 6, next3, answers, used + 4);
}

/// All rounds of the part `dedups`.
proof fn lemma_batches_dedups_rounds(contents: Contents, answers: Seq<Answer>)
    requires
        contents.full(),
        batches_shaped(answers),
    ensures
        ({
            let steps = crate::script::rounds(
                50,
                |k: int| crate::categories::c16_async_pipeline::large_batch_operations_dedups_round(
                    k as u64,
                ),
            );
            match crate::walk::walked(steps, 0, steps.len() as int, contents, answers, 613) {
                Some((after, next)) => {
                    &&& forall|k: int| 0 <= k < 50 ==> #[trigger] batches_dedups(
                        k,
                        answers,
                        613 + 4 * k,
                    )
                    &&& after.full()
                    &&& next == 813
                },
                None => !(forall|k: int|
                    0 <= k < 50 ==> #[trigger] batches_dedups(k, answers, 613 + 4 * k)),
            }
        }),
{
    let round = |k: int| crate::categories::c16_async_pipeline::large_batch_operations_dedups_round(
        k as u64,
    );
    let start = |k: int| 613 + 4 * k;
    let good = |k: int| batches_dedups(k, answers, start(k));
    let kept = |contents: Contents| contents.full();
    assert forall|k: int, contents: Contents|
        #![trigger good(k), kept(contents)]
        0 <= k < 50 && kept(contents) implies if good(k) {
        crate::walk::goes_to(round(k), contents, answers, start(k), start(k + 1), kept)
    } else {
        crate::walk::walked(round(k), 0, round(k).len() as int, contents, answers, start(k)) is None
    } by {
        lemma_batches_dedups(k, contents, answers, start(k));
    }
    crate::walk::law_rounds_keep_what_each_keeps(50, round, start, good, kept, contents, answers);
    if forall|k: int| 0 <= k < 50 ==> #[trigger] good(k) {
        assert forall|k: int| 0 <= k < 50 implies #[trigger] batches_dedups(
            k,
            answers,
            613 + 4 * k,
        ) by {
            assert(good(k));
        }
    } else {
        let k = choose|k: int| 0 <= k < 50 && !(#[trigger] good(k));
        assert(!batches_dedups(k, answers, 613 + 4 * k));
    }
}

/// The part `after_dedups`.
proof fn lemma_batches_after_dedups(contents: Contents, answers: Seq<Answer>)
    requires
        contents.full(),
        batches_shaped(answers),
    ensures
        match crate::walk::walked(
            crate::categories::c16_async_pipeline::large_batch_operations_after_dedups_steps(),
            0,
            1,
            contents,
            answers,
            813,
        ) {
            Some((after, next)) => {
                &&& batches_after_dedups(answers)
                &&& after.full()
                &&& next == 814
            },
            None => !batches_after_dedups(answers),
        },
        crate::categories::c16_async_pipeline::large_batch_operations_after_dedups_steps().len() == 1,
{
    let steps = crate::categories::c16_async_pipeline::large_batch_operations_after_dedups_steps();
    crate::laws::steps::lemma_command(steps, 0, 1, contents, answers, 813);
    crate::laws::steps::lemma_end(steps, 1, contents, answers, 814);
}

/// One round of the part `joins`.
proof fn lemma_batches_joins(k: int, contents: Contents, answers: Seq<Answer>, used: int)
    requires
        0 <= k < 25,
        used == 814 + 5 * k,
        contents.full(),
        batches_shaped(answers),
    ensures
        match crate::walk::walked(
            crate::categories::c16_async_pipeline::large_batch_operations_joins_round(k as u64),
            0,
            9,
            contents,
            answers,
            used,
        ) {
            Some((after, next)) => {
                &&& batches_joins(k, answers, used)
                &&& after.full()
                &&& next == 814 + 5 * (k + 1)
            },
            None => !batches_joins(k, answers, used),
        },
        crate::categories::c16_async_pipeline::large_batch_operations_joins_round(
            k as u64,
        ).len() == 9,
{
    let steps = crate::categories::c16_async_pipeline::large_batch_operations_joins_round(k as u64);
    crate::laws::words::lemma_below(500, contents);
    let words1 = crate::laws::words::below(500);
    crate::laws::steps::lemma_fill(steps, 0, 9, contents, answers, used, words1);
    let next1 = contents.with_column(1, words1);
    lemma_batch_values(k, next1);
    let words2 = crate::laws::words::shifted(crate::laws::words::below(500), (k * 1000) as u64);
    crate::laws::steps::lemma_fill(steps, 1, 9, next1, answers, used, words2);
    let next2 = next1.with_column(2, words2);
    crate::laws::words::lemma_scaled_places(2, 300, next2);
    let words3 = crate::laws::words::scaled(crate::laws::words::below(300), 2);
    crate::laws::steps::lemma_fill(steps, 2, 9, next2, answers, used, words3);
    let next3 = next2.with_column(3, words3);
    crate::laws::words::lemma_scaled(3, 10, next3);
    let words4 = crate::laws::words::scaled(
        crate::laws::words::scaled(crate::laws::words::below(300), 2),
        10,
    );
    crate::laws::steps::lemma_fill(steps, 3, 9, next3, answers, used, words4);
    let next4 = next3.with_column(4, words4);
    crate::laws::steps::lemma_command(steps, 4, 9, next4, answers, used);
    crate::laws::steps::lemma_command(steps, 5, 9, next4, answers, used + 1);
    crate::laws::steps::lemma_command(steps, 6, 9, next4, answers, used + 2);
    crate::laws::steps::lemma_match(steps, 7, 9, next4, answers, used + 3, 250);
    let next5 = next4.with_register(COUNT, 250);
    crate::laws::steps::lemma_command(steps, 8, 9, next5, answers, used + 4);
    crate::laws::steps::lemma_end(steps, 9, next5, answers, used + 5);
}

/// All rounds of the part `joins`.
proof fn lemma_batches_joins_rounds(contents: Contents, answers: Seq<Answer>)
    requires
        contents.full(),
        batches_shaped(answers),
    ensures
        ({
            let steps = crate::script::rounds(
                25,
                |k: int| crate::categories::c16_async_pipeline::large_batch_operations_joins_round(
                    k as u64,
                ),
            );
            match crate::walk::walked(steps, 0, steps.len() as int, contents, answers, 814) {
                Some((after, next)) => {
                    &&& forall|k: int| 0 <= k < 25 ==> #[trigger] batches_joins(
                        k,
                        answers,
                        814 + 5 * k,
                    )
                    &&& after.full()
                    &&& next == 939
                },
                None => !(forall|k: int|
                    0 <= k < 25 ==> #[trigger] batches_joins(k, answers, 814 + 5 * k)),
            }
        }),
{
    let round = |k: int| crate::categories::c16_async_pipeline::large_batch_operations_joins_round(
        k as u64,
    );
    let start = |k: int| 814 + 5 * k;
    let good = |k: int| batches_joins(k, answers, start(k));
    let kept = |contents: Contents| contents.full();
    assert forall|k: int, contents: Contents|
        #![trigger good(k), kept(contents)]
        0 <= k < 25 && kept(contents) implies if good(k) {
        crate::walk::goes_to(round(k), contents, answers, start(k), start(k + 1), kept)
    } else {
        crate::walk::walked(round(k), 0, round(k).len() as int, contents, answers, start(k)) is None
    } by {
        lemma_batches_joins(k, contents, answers, start(k));
    }
    crate::walk::law_rounds_keep_what_each_keeps(25, round, start, good, kept, contents, answers);
    if forall|k: int| 0 <= k < 25 ==> #[trigger] good(k) {
        assert forall|k: int| 0 <= k < 25 implies #[trigger] batches_joins(
            k,
            answers,
            814 + 5 * k,
        ) by {
            assert(good(k));
        }
    } else {
        let k = choose|k: int| 0 <= k < 25 && !(#[trigger] good(k));
        assert(!batches_joins(k, answers, 814 + 5 * k));
    }
}

/// The part `end`.
proof fn lemma_batches_end(contents: Contents, answers: Seq<Answer>)
    requires
        contents.full(),
        batches_shaped(answers),
    ensures
        match crate::walk::walked(
            crate::categories::c16_async_pipeline::large_batch_operations_end_steps(),
            0,
            1,
            contents,
            answers,
            939,
        ) {
            Some((after, next)) => {
                &&& batches_end(answers)
                &&& after.full()
                &&& next == 940
            },
            None => !batches_end(answers),
        },
        crate::categories::c16_async_pipeline::large_batch_operations_end_steps().len() == 1,
{
    let steps = crate::categories::c16_async_pipeline::large_batch_operations_end_steps();
    crate::laws::steps::lemma_command(steps, 0, 1, contents, answers, 939);
    crate::laws::steps::lemma_end(steps, 1, contents, answers, 940);
}

/// The test has no jumps.
proof fn lemma_batches_straight()
    ensures
        forall|j: int|
            0 <= j < crate::categories::c16_async_pipeline::large_batch_operations_steps().len()
                ==> crate::walk::straight(
            #[trigger] crate::categories::c16_async_pipeline::large_batch_operations_steps()[j],
        ),
{
    let part1 = crate::script::rounds(
        100,
        |k: int| crate::categories::c16_async_pipeline::large_batch_operations_sorts_round(
            k as u64,
        ),
    );
    let round1 = |k: int| crate::categories::c16_async_pipeline::large_batch_operations_sorts_round(
        k as u64,
    );
    crate::walk::law_straight_rounds_are_straight(100, round1);
    let part2 = crate::categories::c16_async_pipeline::large_batch_operations_filter_source_steps();
    let part3 = crate::script::rounds(
        100,
        |k: int| crate::categories::c16_async_pipeline::large_batch_operations_filters_round(
            k as u64,
        ),
    );
    let round3 = |k: int|
        crate::categories::c16_async_pipeline::large_batch_operations_filters_round(
        k as u64,
    );
    crate::walk::law_straight_rounds_are_straight(100, round3);
    let part4 = crate::categories::c16_async_pipeline::large_batch_operations_after_filters_steps();
    let part5 = crate::script::rounds(
        50,
        |k: int| crate::categories::c16_async_pipeline::large_batch_operations_dedups_round(
            k as u64,
        ),
    );
    let round5 = |k: int|
        crate::categories::c16_async_pipeline::large_batch_operations_dedups_round(
        k as u64,
    );
    crate::walk::law_straight_rounds_are_straight(50, round5);
    let part6 = crate::categories::c16_async_pipeline::large_batch_operations_after_dedups_steps();
    let part7 = crate::script::rounds(
        25,
        |k: int| crate::categories::c16_async_pipeline::large_batch_operations_joins_round(
            k as u64,
        ),
    );
    let round7 = |k: int| crate::categories::c16_async_pipeline::large_batch_operations_joins_round(
        k as u64,
    );
    crate::walk::law_straight_rounds_are_straight(25, round7);
    let part8 = crate::categories::c16_async_pipeline::large_batch_operations_end_steps();
    let whole1 = part1;
    let whole2 = whole1 + part2;
    crate::walk::law_straight_scripts_make_a_straight_one(whole1, part2);
    let whole3 = whole2 + part3;
    crate::walk::law_straight_scripts_make_a_straight_one(whole2, part3);
    let whole4 = whole3 + part4;
    crate::walk::law_straight_scripts_make_a_straight_one(whole3, part4);
    let whole5 = whole4 + part5;
    crate::walk::law_straight_scripts_make_a_straight_one(whole4, part5);
    let whole6 = whole5 + part6;
    crate::walk::law_straight_scripts_make_a_straight_one(whole5, part6);
    let whole7 = whole6 + part7;
    crate::walk::law_straight_scripts_make_a_straight_one(whole6, part7);
    let whole8 = whole7 + part8;
    crate::walk::law_straight_scripts_make_a_straight_one(whole7, part8);
    assert(crate::categories::c16_async_pipeline::large_batch_operations_steps() == whole8);
}

/// The test that runs batches passes exactly when every round of them does: each sort, and in every
/// tenth round its result is in rising order; each filter, with fifty rows less than the one
/// before; each removal of duplicates, with ten keys more than the one before; and each join, with
/// 250 rows.
pub proof fn law_batches_pass_exactly_when_every_round_does(answers: Seq<Answer>)
    requires
        batches_shaped(answers),
    ensures
        crate::machine::run_of(
            crate::script::plan(
                "test_large_batch_operations",
                crate::categories::c16_async_pipeline::large_batch_operations_steps(),
            ),
            answers,
        ).progress == Progress::Over(Ending::Passed) <==> {
            &&& forall|k: int|
                0 <= k < 100 ==> #[trigger] batches_sorts(k, answers, batches_sorts_start(k))
            &&& batches_filter_source(answers)
            &&& forall|k: int|
                0 <= k < 100 ==> #[trigger] batches_filters(k, answers, 312 + 3 * k)
            &&& batches_after_filters(answers)
            &&& forall|k: int|
                0 <= k < 50 ==> #[trigger] batches_dedups(k, answers, 613 + 4 * k)
            &&& batches_after_dedups(answers)
            &&& forall|k: int|
                0 <= k < 25 ==> #[trigger] batches_joins(k, answers, 814 + 5 * k)
            &&& batches_end(answers)
        },
{
    let plan = crate::script::plan(
        "test_large_batch_operations",
        crate::categories::c16_async_pipeline::large_batch_operations_steps(),
    );
    let blank = Contents::blank(plan.texts);
    let part1 = crate::script::rounds(
        100,
        |k: int| crate::categories::c16_async_pipeline::large_batch_operations_sorts_round(
            k as u64,
        ),
    );
    let part2 = crate::categories::c16_async_pipeline::large_batch_operations_filter_source_steps();
    let part3 = crate::script::rounds(
        100,
        |k: int| crate::categories::c16_async_pipeline::large_batch_operations_filters_round(
            k as u64,
        ),
    );
    let part4 = crate::categories::c16_async_pipeline::large_batch_operations_after_filters_steps();
    let part5 = crate::script::rounds(
        50,
        |k: int| crate::categories::c16_async_pipeline::large_batch_operations_dedups_round(
            k as u64,
        ),
    );
    let part6 = crate::categories::c16_async_pipeline::large_batch_operations_after_dedups_steps();
    let part7 = crate::script::rounds(
        25,
        |k: int| crate::categories::c16_async_pipeline::large_batch_operations_joins_round(
            k as u64,
        ),
    );
    let part8 = crate::categories::c16_async_pipeline::large_batch_operations_end_steps();
    let whole1 = part1;
    let whole2 = whole1 + part2;
    let whole3 = whole2 + part3;
    let whole4 = whole3 + part4;
    let whole5 = whole4 + part5;
    let whole6 = whole5 + part6;
    let whole7 = whole6 + part7;
    let whole8 = whole7 + part8;
    assert(plan.steps == whole8);
    lemma_batches_sorts_rounds(blank, answers);
    crate::walk::law_walks_over_two_scripts_compose(whole1, part2, blank, answers, 0);
    crate::walk::law_walks_over_two_scripts_compose(whole2, part3, blank, answers, 0);
    crate::walk::law_walks_over_two_scripts_compose(whole3, part4, blank, answers, 0);
    crate::walk::law_walks_over_two_scripts_compose(whole4, part5, blank, answers, 0);
    crate::walk::law_walks_over_two_scripts_compose(whole5, part6, blank, answers, 0);
    crate::walk::law_walks_over_two_scripts_compose(whole6, part7, blank, answers, 0);
    crate::walk::law_walks_over_two_scripts_compose(whole7, part8, blank, answers, 0);
    match crate::walk::walked(whole1, 0, whole1.len() as int, blank, answers, 0) {
        Some((after, _)) => {
            lemma_batches_filter_source(after, answers);
            match crate::walk::walked(whole2, 0, whole2.len() as int, blank, answers, 0) {
                Some((after, _)) => {
                    lemma_batches_filters_rounds(after, answers);
                    match crate::walk::walked(whole3, 0, whole3.len() as int, blank, answers, 0) {
                        Some((after, _)) => {
                            lemma_batches_after_filters(after, answers);
                            match crate::walk::walked(
                                whole4,
                                0,
                                whole4.len() as int,
                                blank,
                                answers,
                                0,
                            ) {
                                Some((after, _)) => {
                                    lemma_batches_dedups_rounds(after, answers);
                                    match crate::walk::walked(
                                        whole5,
                                        0,
                                        whole5.len() as int,
                                        blank,
                                        answers,
                                        0,
                                    ) {
                                        Some((after, _)) => {
                                            lemma_batches_after_dedups(after, answers);
                                            match crate::walk::walked(
                                                whole6,
                                                0,
                                                whole6.len() as int,
                                                blank,
                                                answers,
                                                0,
                                            ) {
                                                Some((after, _)) => {
                                                    lemma_batches_joins_rounds(after, answers);
                                                    match crate::walk::walked(
                                                        whole7,
                                                        0,
                                                        whole7.len() as int,
                                                        blank,
                                                        answers,
                                                        0,
                                                    ) {
                                                        Some((after, _)) => {
                                                            lemma_batches_end(after, answers);
                                                        },
                                                        None => {},
                                                    }
                                                },
                                                None => {},
                                            }
                                        },
                                        None => {},
                                    }
                                },
                                None => {},
                            }
                        },
                        None => {},
                    }
                },
                None => {},
            }
        },
        None => {},
    }
    lemma_batches_straight();
    crate::walk::law_passes_exactly_when_every_step_goes_through(plan, answers);
}

} // verus!
