//! The law of the test that runs operations side by side.

use vstd::prelude::*;
use crate::categories::c08_synchronization::SORTED_BUFFERS;
use crate::expr::{ix, modulo, num, plus, times};
use crate::machine::{Answer, Ending, Progress};
use crate::memory::Contents;
use crate::scalar::Scalar;
use crate::script::COUNT;

verus! {

/// The keys of buffer `b`.
pub open spec fn source_keys(b: int) -> Seq<u64> {
    Seq::new(10000, |i: int| ((i * (b + 1) * 7 + b * 13) % 10000) as u64)
}

/// The words of [`source_keys`].
proof fn lemma_source_keys(b: int, contents: Contents)
    requires
        0 <= b < 5,
    ensures
        forall|i: int|
            0 <= i < 10000 ==> #[trigger] crate::expr::value_of(
                modulo(
                    plus(
                        times(times(ix(), plus(num(b as u64), num(1))), num(7)),
                        times(num(b as u64), num(13)),
                    ),
                    num(10000),
                ),
                contents,
                i as u64,
            ) == Some(source_keys(b)[i]),
{
    assert forall|i: int| 0 <= i < 10000 implies #[trigger] crate::expr::value_of(
        modulo(
            plus(
                times(times(ix(), plus(num(b as u64), num(1))), num(7)),
                times(num(b as u64), num(13)),
            ),
            num(10000),
        ),
        contents,
        i as u64,
    ) == Some(source_keys(b)[i]) by {
        let place = i as u64;
        assert(0 <= i * (b + 1) <= 50000) by (nonlinear_arith)
            requires
                0 <= i < 10000,
                0 <= b < 5,
        ;
        assert(crate::expr::value_of(num(b as u64), contents, place) == Some(b as u64));
        assert(crate::expr::value_of(num(1), contents, place) == Some(1u64));
        assert(crate::expr::value_of(num(7), contents, place) == Some(7u64));
        assert(crate::expr::value_of(num(13), contents, place) == Some(13u64));
        assert(crate::expr::value_of(num(10000), contents, place) == Some(10000u64));
        assert(crate::expr::value_of(ix(), contents, place) == Some(place));
        let factor = plus(num(b as u64), num(1));
        assert(crate::expr::value_of(factor, contents, place) == Some((b + 1) as u64));
        let product = times(ix(), factor);
        assert(crate::expr::value_of(product, contents, place) == Some((i * (b + 1)) as u64));
        let seven = times(product, num(7));
        assert(crate::expr::value_of(seven, contents, place) == Some((i * (b + 1) * 7) as u64));
        let offset = times(num(b as u64), num(13));
        assert(crate::expr::value_of(offset, contents, place) == Some((b * 13) as u64));
        let sum = plus(seven, offset);
        assert(crate::expr::value_of(sum, contents, place) == Some(
            (i * (b + 1) * 7 + b * 13) as u64,
        ));
    }
}

/// Whether the answers to the downloads of the test are columns or refusals.
pub open spec fn concurrent_shaped(answers: Seq<Answer>) -> bool {
    &&& answers.len() >= 24
    &&& forall|k: int|
        0 <= k < 3 ==> crate::laws::steps::column_or_refusal(#[trigger] answers[11 + 2 * k])
    &&& forall|k: int|
        0 <= k < 5 ==> crate::laws::steps::column_or_refusal(#[trigger] answers[18 + 1 * k])
}

/// What the device has to answer in round `k` of the part `buffers`, from answer `used` on.
pub open spec fn concurrent_buffers(k: int, answers: Seq<Answer>, used: int) -> bool {
    !(answers[used] is Failed)
}

/// What the device has to answer in the part `operations`.
pub open spec fn concurrent_operations(answers: Seq<Answer>) -> bool {
    &&& !(answers[5] is Failed)
    &&& !(answers[6] is Failed)
    &&& !(answers[7] is Failed)
    &&& !(answers[8] is Failed)
    &&& !(answers[9] is Failed)
}

/// What the device has to answer in round `k` of the part `sorted`, from answer `used` on.
pub open spec fn concurrent_sorted(k: int, answers: Seq<Answer>, used: int) -> bool {
    &&& answers[used] == Answer::Count(10000)
    &&& answers[used + 1] is Words
    &&& crate::laws::steps::rises_to(answers[used + 1]->Words_0, 10000)
    &&& answers[used + 1]->Words_0 == crate::columns::sorted(
        Scalar::U32,
        source_keys(SORTED_BUFFERS@[k] as int),
    )
}

/// What the device has to answer in the part `filtered`.
pub open spec fn concurrent_filtered(answers: Seq<Answer>) -> bool {
    &&& answers[16] == Answer::Count(5000)
    &&& answers[17] == Answer::Count(5000)
}

/// What the device has to answer in round `k` of the part `sources`, from answer `used` on.
pub open spec fn concurrent_sources(k: int, answers: Seq<Answer>, used: int) -> bool {
    &&& answers[used] is Words
    &&& answers[used]->Words_0 == source_keys(k)
}

/// What the device has to answer in the part `end`.
pub open spec fn concurrent_end(answers: Seq<Answer>) -> bool {
    !(answers[23] is Failed)
}

/// One round of the part `buffers`.
proof fn lemma_concurrent_buffers(k: int, contents: Contents, answers: Seq<Answer>, used: int)
    requires
        0 <= k < 5,
        used == k,
        contents.full(),
        concurrent_shaped(answers),
    ensures
        match crate::walk::walked(
            crate::categories::c08_synchronization::concurrent_operations_buffers_round(k as u64),
            0,
            2,
            contents,
            answers,
            used,
        ) {
            Some((after, next)) => {
                &&& concurrent_buffers(k, answers, used)
                &&& after.full()
                &&& next == k + 1
            },
            None => !concurrent_buffers(k, answers, used),
        },
        crate::categories::c08_synchronization::concurrent_operations_buffers_round(
            k as u64,
        ).len() == 2,
{
    let steps = crate::categories::c08_synchronization::concurrent_operations_buffers_round(
        k as u64,
    );
    lemma_source_keys(k, contents);
    let words1 = source_keys(k);
    crate::laws::steps::lemma_fill(steps, 0, 2, contents, answers, used, words1);
    let next1 = contents.with_column(0, words1);
    crate::laws::steps::lemma_command(steps, 1, 2, next1, answers, used);
    crate::laws::steps::lemma_end(steps, 2, next1, answers, used + 1);
}

/// All rounds of the part `buffers`.
proof fn lemma_concurrent_buffers_rounds(contents: Contents, answers: Seq<Answer>)
    requires
        contents.full(),
        concurrent_shaped(answers),
    ensures
        ({
            let steps = crate::script::rounds(
                5,
                |k: int|
                    crate::categories::c08_synchronization::concurrent_operations_buffers_round(
                    k as u64,
                ),
            );
            match crate::walk::walked(steps, 0, steps.len() as int, contents, answers, 0) {
                Some((after, next)) => {
                    &&& forall|k: int| 0 <= k < 5 ==> #[trigger] concurrent_buffers(
                        k,
                        answers,
                        k,
                    )
                    &&& after.full()
                    &&& next == 5
                },
                None => !(forall|k: int|
                    0 <= k < 5 ==> #[trigger] concurrent_buffers(k, answers, k)),
            }
        }),
{
    let round = |k: int|
        crate::categories::c08_synchronization::concurrent_operations_buffers_round(
        k as u64,
    );
    let start = |k: int| k;
    let good = |k: int| concurrent_buffers(k, answers, start(k));
    let kept = |contents: Contents| contents.full();
    assert forall|k: int, contents: Contents|
        #![trigger good(k), kept(contents)]
        0 <= k < 5 && kept(contents) implies if good(k) {
        crate::walk::goes_to(round(k), contents, answers, start(k), start(k + 1), kept)
    } else {
        crate::walk::walked(round(k), 0, round(k).len() as int, contents, answers, start(k)) is None
    } by {
        lemma_concurrent_buffers(k, contents, answers, start(k));
    }
    crate::walk::law_rounds_keep_what_each_keeps(5, round, start, good, kept, contents, answers);
    if forall|k: int| 0 <= k < 5 ==> #[trigger] good(k) {
        assert forall|k: int| 0 <= k < 5 implies #[trigger] concurrent_buffers(
            k,
            answers,
            k,
        ) by {
            assert(good(k));
        }
    } else {
        let k = choose|k: int| 0 <= k < 5 && !(#[trigger] good(k));
        assert(!concurrent_buffers(k, answers, k));
    }
}

/// The part `operations`.
proof fn lemma_concurrent_operations(contents: Contents, answers: Seq<Answer>)
    requires
        contents.full(),
        concurrent_shaped(answers),
    ensures
        match crate::walk::walked(
            crate::categories::c08_synchronization::concurrent_operations_operations_steps(),
            0,
            7,
            contents,
            answers,
            5,
        ) {
            Some((after, next)) => {
                &&& concurrent_operations(answers)
                &&& after.full()
                &&& next == 10
            },
            None => !concurrent_operations(answers),
        },
        crate::categories::c08_synchronization::concurrent_operations_operations_steps().len() == 7,
{
    let steps = crate::categories::c08_synchronization::concurrent_operations_operations_steps();
    crate::laws::steps::lemma_command(steps, 0, 7, contents, answers, 5);
    crate::laws::words::lemma_leading(5000, 10000, contents);
    let words1 = crate::laws::words::leading(5000, 10000);
    crate::laws::steps::lemma_fill(steps, 1, 7, contents, answers, 6, words1);
    let next1 = contents.with_column(1, words1);
    crate::laws::steps::lemma_command(steps, 2, 7, next1, answers, 6);
    crate::laws::steps::lemma_command(steps, 3, 7, next1, answers, 7);
    crate::laws::masks::lemma_remainder_words(2, 10000, next1);
    let words2 = crate::laws::masks::every(2, 10000);
    crate::laws::steps::lemma_fill(steps, 4, 7, next1, answers, 8, words2);
    let next2 = next1.with_column(1, words2);
    crate::laws::steps::lemma_command(steps, 5, 7, next2, answers, 8);
    crate::laws::steps::lemma_command(steps, 6, 7, next2, answers, 9);
    crate::laws::steps::lemma_end(steps, 7, next2, answers, 10);
}

/// One round of the part `sorted`.
proof fn lemma_concurrent_sorted(k: int, contents: Contents, answers: Seq<Answer>, used: int)
    requires
        0 <= k < 3,
        used == 10 + 2 * k,
        contents.full(),
        concurrent_shaped(answers),
    ensures
        match crate::walk::walked(
            crate::categories::c08_synchronization::concurrent_operations_sorted_round(k as u64),
            0,
            6,
            contents,
            answers,
            used,
        ) {
            Some((after, next)) => {
                &&& concurrent_sorted(k, answers, used)
                &&& after.full()
                &&& next == 10 + 2 * (k + 1)
            },
            None => !concurrent_sorted(k, answers, used),
        },
        crate::categories::c08_synchronization::concurrent_operations_sorted_round(
            k as u64,
        ).len() == 6,
{
    let steps = crate::categories::c08_synchronization::concurrent_operations_sorted_round(
        k as u64,
    );
    assert(crate::laws::steps::column_or_refusal(answers[11 + 2 * k]));
    crate::laws::steps::lemma_match(steps, 0, 6, contents, answers, used, 10000);
    let next1 = contents.with_register(COUNT, 10000);
    crate::laws::steps::lemma_download(steps, 1, 6, next1, answers, used + 1);
    if answers[used + 1] is Words {
        let next2 = next1.with_column(2, answers[used + 1]->Words_0);
        crate::laws::steps::lemma_scan_order_to(steps, 2, 6, next2, answers, used + 2, 2, 10000);
        lemma_source_keys(SORTED_BUFFERS@[k] as int, next2);
        let words3 = source_keys(SORTED_BUFFERS@[k] as int);
        crate::laws::steps::lemma_fill(steps, 3, 6, next2, answers, used + 2, words3);
        let next3 = next2.with_column(0, words3);
        crate::laws::steps::lemma_sort_column(steps, 4, 6, next3, answers, used + 2);
        let next4 = next3.with_column(
            3,
            crate::columns::sorted(Scalar::U32, source_keys(SORTED_BUFFERS@[k] as int)),
        );
        crate::laws::steps::lemma_not_alike(next4, 2, 3);
        crate::laws::steps::lemma_check(
            steps,
            5,
            6,
            next4,
            answers,
            used + 2,
            !(
                answers[used + 1]->Words_0 == crate::columns::sorted(
                    Scalar::U32,
                    source_keys(SORTED_BUFFERS@[k] as int),
                )
            ),
        );
        crate::laws::steps::lemma_end(steps, 6, next4, answers, used + 2);
    }
}

/// All rounds of the part `sorted`.
proof fn lemma_concurrent_sorted_rounds(contents: Contents, answers: Seq<Answer>)
    requires
        contents.full(),
        concurrent_shaped(answers),
    ensures
        ({
            let steps = crate::script::rounds(
                3,
                |k: int| crate::categories::c08_synchronization::concurrent_operations_sorted_round(
                    k as u64,
                ),
            );
            match crate::walk::walked(steps, 0, steps.len() as int, contents, answers, 10) {
                Some((after, next)) => {
                    &&& forall|k: int| 0 <= k < 3 ==> #[trigger] concurrent_sorted(
                        k,
                        answers,
                        10 + 2 * k,
                    )
                    &&& after.full()
                    &&& next == 16
                },
                None => !(forall|k: int|
                    0 <= k < 3 ==> #[trigger] concurrent_sorted(k, answers, 10 + 2 * k)),
            }
        }),
{
    let round = |k: int| crate::categories::c08_synchronization::concurrent_operations_sorted_round(
        k as u64,
    );
    let start = |k: int| 10 + 2 * k;
    let good = |k: int| concurrent_sorted(k, answers, start(k));
    let kept = |contents: Contents| contents.full();
    assert forall|k: int, contents: Contents|
        #![trigger good(k), kept(contents)]
        0 <= k < 3 && kept(contents) implies if good(k) {
        crate::walk::goes_to(round(k), contents, answers, start(k), start(k + 1), kept)
    } else {
        crate::walk::walked(round(k), 0, round(k).len() as int, contents, answers, start(k)) is None
    } by {
        lemma_concurrent_sorted(k, contents, answers, start(k));
    }
    crate::walk::law_rounds_keep_what_each_keeps(3, round, start, good, kept, contents, answers);
    if forall|k: int| 0 <= k < 3 ==> #[trigger] good(k) {
        assert forall|k: int| 0 <= k < 3 implies #[trigger] concurrent_sorted(
            k,
            answers,
            10 + 2 * k,
        ) by {
            assert(good(k));
        }
    } else {
        let k = choose|k: int| 0 <= k < 3 && !(#[trigger] good(k));
        assert(!concurrent_sorted(k, answers, 10 + 2 * k));
    }
}

/// The part `filtered`.
proof fn lemma_concurrent_filtered(contents: Contents, answers: Seq<Answer>)
    requires
        contents.full(),
        concurrent_shaped(answers),
    ensures
        match crate::walk::walked(
            crate::categories::c08_synchronization::concurrent_operations_filtered_steps(),
            0,
            2,
            contents,
            answers,
            16,
        ) {
            Some((after, next)) => {
                &&& concurrent_filtered(answers)
                &&& after.full()
                &&& next == 18
            },
            None => !concurrent_filtered(answers),
        },
        crate::categories::c08_synchronization::concurrent_operations_filtered_steps().len() == 2,
{
    let steps = crate::categories::c08_synchronization::concurrent_operations_filtered_steps();
    crate::laws::steps::lemma_match(steps, 0, 2, contents, answers, 16, 5000);
    let next1 = contents.with_register(COUNT, 5000);
    crate::laws::steps::lemma_match(steps, 1, 2, next1, answers, 17, 5000);
    let next2 = next1.with_register(COUNT, 5000);
    crate::laws::steps::lemma_end(steps, 2, next2, answers, 18);
}

/// One round of the part `sources`.
proof fn lemma_concurrent_sources(k: int, contents: Contents, answers: Seq<Answer>, used: int)
    requires
        0 <= k < 5,
        used == 18 + 1 * k,
        contents.full(),
        concurrent_shaped(answers),
    ensures
        match crate::walk::walked(
            crate::categories::c08_synchronization::concurrent_operations_sources_round(k as u64),
            0,
            3,
            contents,
            answers,
            used,
        ) {
            Some((after, next)) => {
                &&& concurrent_sources(k, answers, used)
                &&& after.full()
                &&& next == 18 + 1 * (k + 1)
            },
            None => !concurrent_sources(k, answers, used),
        },
        crate::categories::c08_synchronization::concurrent_operations_sources_round(
            k as u64,
        ).len() == 3,
{
    let steps = crate::categories::c08_synchronization::concurrent_operations_sources_round(
        k as u64,
    );
    assert(crate::laws::steps::column_or_refusal(answers[18 + 1 * k]));
    crate::laws::steps::lemma_download(steps, 0, 3, contents, answers, used);
    if answers[used] is Words {
        let next1 = contents.with_column(2, answers[used]->Words_0);
        lemma_source_keys(k, next1);
        let words2 = source_keys(k);
        crate::laws::steps::lemma_fill(steps, 1, 3, next1, answers, used + 1, words2);
        let next2 = next1.with_column(0, words2);
        crate::laws::steps::lemma_not_alike(next2, 2, 0);
        crate::laws::steps::lemma_check(
            steps,
            2,
            3,
            next2,
            answers,
            used + 1,
            !(answers[used]->Words_0 == source_keys(k)),
        );
        crate::laws::steps::lemma_end(steps, 3, next2, answers, used + 1);
    }
}

/// All rounds of the part `sources`.
proof fn lemma_concurrent_sources_rounds(contents: Contents, answers: Seq<Answer>)
    requires
        contents.full(),
        concurrent_shaped(answers),
    ensures
        ({
            let steps = crate::script::rounds(
                5,
                |k: int|
                    crate::categories::c08_synchronization::concurrent_operations_sources_round(
                    k as u64,
                ),
            );
            match crate::walk::walked(steps, 0, steps.len() as int, contents, answers, 18) {
                Some((after, next)) => {
                    &&& forall|k: int| 0 <= k < 5 ==> #[trigger] concurrent_sources(
                        k,
                        answers,
                        18 + 1 * k,
                    )
                    &&& after.full()
                    &&& next == 23
                },
                None => !(forall|k: int|
                    0 <= k < 5 ==> #[trigger] concurrent_sources(k, answers, 18 + 1 * k)),
            }
        }),
{
    let round = |k: int|
        crate::categories::c08_synchronization::concurrent_operations_sources_round(
        k as u64,
    );
    let start = |k: int| 18 + 1 * k;
    let good = |k: int| concurrent_sources(k, answers, start(k));
    let kept = |contents: Contents| contents.full();
    assert forall|k: int, contents: Contents|
        #![trigger good(k), kept(contents)]
        0 <= k < 5 && kept(contents) implies if good(k) {
        crate::walk::goes_to(round(k), contents, answers, start(k), start(k + 1), kept)
    } else {
        crate::walk::walked(round(k), 0, round(k).len() as int, contents, answers, start(k)) is None
    } by {
        lemma_concurrent_sources(k, contents, answers, start(k));
    }
    crate::walk::law_rounds_keep_what_each_keeps(5, round, start, good, kept, contents, answers);
    if forall|k: int| 0 <= k < 5 ==> #[trigger] good(k) {
        assert forall|k: int| 0 <= k < 5 implies #[trigger] concurrent_sources(
            k,
            answers,
            18 + 1 * k,
        ) by {
            assert(good(k));
        }
    } else {
        let k = choose|k: int| 0 <= k < 5 && !(#[trigger] good(k));
        assert(!concurrent_sources(k, answers, 18 + 1 * k));
    }
}

/// The part `end`.
proof fn lemma_concurrent_end(contents: Contents, answers: Seq<Answer>)
    requires
        contents.full(),
        concurrent_shaped(answers),
    ensures
        match crate::walk::walked(
            crate::categories::c08_synchronization::concurrent_operations_end_steps(),
            0,
            1,
            contents,
            answers,
            23,
        ) {
            Some((after, next)) => {
                &&& concurrent_end(answers)
                &&& after.full()
                &&& next == 24
            },
            None => !concurrent_end(answers),
        },
        crate::categories::c08_synchronization::concurrent_operations_end_steps().len() == 1,
{
    let steps = crate::categories::c08_synchronization::concurrent_operations_end_steps();
    crate::laws::steps::lemma_command(steps, 0, 1, contents, answers, 23);
    crate::laws::steps::lemma_end(steps, 1, contents, answers, 24);
}

/// The test has no jumps.
proof fn lemma_concurrent_straight()
    ensures
        forall|j: int|
            0 <= j < crate::categories::c08_synchronization::concurrent_operations_steps().len()
                ==> crate::walk::straight(
            #[trigger] crate::categories::c08_synchronization::concurrent_operations_steps()[j],
        ),
{
    let part1 = crate::script::rounds(
        5,
        |k: int| crate::categories::c08_synchronization::concurrent_operations_buffers_round(
            k as u64,
        ),
    );
    let round1 = |k: int|
        crate::categories::c08_synchronization::concurrent_operations_buffers_round(
        k as u64,
    );
    crate::walk::law_straight_rounds_are_straight(5, round1);
    let part2 = crate::categories::c08_synchronization::concurrent_operations_operations_steps();
    let part3 = crate::script::rounds(
        3,
        |k: int| crate::categories::c08_synchronization::concurrent_operations_sorted_round(
            k as u64,
        ),
    );
    let round3 = |k: int|
        crate::categories::c08_synchronization::concurrent_operations_sorted_round(
        k as u64,
    );
    crate::walk::law_straight_rounds_are_straight(3, round3);
    let part4 = crate::categories::c08_synchronization::concurrent_operations_filtered_steps();
    let part5 = crate::script::rounds(
        5,
        |k: int| crate::categories::c08_synchronization::concurrent_operations_sources_round(
            k as u64,
        ),
    );
    let round5 = |k: int|
        crate::categories::c08_synchronization::concurrent_operations_sources_round(
        k as u64,
    );
    crate::walk::law_straight_rounds_are_straight(5, round5);
    let part6 = crate::categories::c08_synchronization::concurrent_operations_end_steps();
    let whole1 = part1;
    let whole2 = whole1 + part2;
    crate::walk::law_straight_scripts_make_a_straight_one(whole1, part2);
    let whole3 = whole2 + part3;
    crate::walk::law_straight_scripts_make_a_straight_one(whole2, part3);
    let whole4 = whole3 + part4;
    crate::walk::law_straight_scripts_make_a_straight_one(whole3, part4);
    let whole5 = whole4 + part5;
    crate::walk::law_straight_scripts_make_a_straight_one(whole4, part5);
    let whole6 = whole5 + part6;
    crate::walk::law_straight_scripts_make_a_straight_one(whole5, part6);
    assert(crate::categories::c08_synchronization::concurrent_operations_steps() == whole6);
}

/// The test that runs operations side by side passes exactly when three buffers come back sorted,
/// two filters keep half of their rows, and all five buffers still hold what was uploaded.
pub proof fn law_concurrent_operations_pass_exactly_when_none_disturbs_another(answers: Seq<Answer>)
    requires
        concurrent_shaped(answers),
    ensures
        crate::machine::run_of(
            crate::script::plan(
                "test_concurrent_operations",
                crate::categories::c08_synchronization::concurrent_operations_steps(),
            ),
            answers,
        ).progress == Progress::Over(Ending::Passed) <==> {
            &&& forall|k: int|
                0 <= k < 5 ==> #[trigger] concurrent_buffers(k, answers, k)
            &&& concurrent_operations(answers)
            &&& forall|k: int|
                0 <= k < 3 ==> #[trigger] concurrent_sorted(k, answers, 10 + 2 * k)
            &&& concurrent_filtered(answers)
            &&& forall|k: int|
                0 <= k < 5 ==> #[trigger] concurrent_sources(k, answers, 18 + 1 * k)
            &&& concurrent_end(answers)
        },
{
    let plan = crate::script::plan(
        "test_concurrent_operations",
        crate::categories::c08_synchronization::concurrent_operations_steps(),
    );
    let blank = Contents::blank(plan.texts);
    let part1 = crate::script::rounds(
        5,
        |k: int| crate::categories::c08_synchronization::concurrent_operations_buffers_round(
            k as u64,
        ),
    );
    let part2 = crate::categories::c08_synchronization::concurrent_operations_operations_steps();
    let part3 = crate::script::rounds(
        3,
        |k: int| crate::categories::c08_synchronization::concurrent_operations_sorted_round(
            k as u64,
        ),
    );
    let part4 = crate::categories::c08_synchronization::concurrent_operations_filtered_steps();
    let part5 = crate::script::rounds(
        5,
        |k: int| crate::categories::c08_synchronization::concurrent_operations_sources_round(
            k as u64,
        ),
    );
    let part6 = crate::categories::c08_synchronization::concurrent_operations_end_steps();
    let whole1 = part1;
    let whole2 = whole1 + part2;
    let whole3 = whole2 + part3;
    let whole4 = whole3 + part4;
    let whole5 = whole4 + part5;
    let whole6 = whole5 + part6;
    assert(plan.steps == whole6);
    lemma_concurrent_buffers_rounds(blank, answers);
    crate::walk::law_walks_over_two_scripts_compose(whole1, part2, blank, answers, 0);
    crate::walk::law_walks_over_two_scripts_compose(whole2, part3, blank, answers, 0);
    crate::walk::law_walks_over_two_scripts_compose(whole3, part4, blank, answers, 0);
    crate::walk::law_walks_over_two_scripts_compose(whole4, part5, blank, answers, 0);
    crate::walk::law_walks_over_two_scripts_compose(whole5, part6, blank, answers, 0);
    match crate::walk::walked(whole1, 0, whole1.len() as int, blank, answers, 0) {
        Some((after, _)) => {
            lemma_concurrent_operations(after, answers);
            match crate::walk::walked(whole2, 0, whole2.len() as int, blank, answers, 0) {
                Some((after, _)) => {
                    lemma_concurrent_sorted_rounds(after, answers);
                    match crate::walk::walked(whole3, 0, whole3.len() as int, blank, answers, 0) {
                        Some((after, _)) => {
                            lemma_concurrent_filtered(after, answers);
                            match crate::walk::walked(
                                whole4,
                                0,
                                whole4.len() as int,
                                blank,
                                answers,
                                0,
                            ) {
                                Some((after, _)) => {
                                    lemma_concurrent_sources_rounds(after, answers);
                                    match crate::walk::walked(
                                        whole5,
                                        0,
                                        whole5.len() as int,
                                        blank,
                                        answers,
                                        0,
                                    ) {
                                        Some((after, _)) => {
                                            lemma_concurrent_end(after, answers);
                                        },
                                        None => {},
                                    }
                                },
                                None => {},
                            }
                        },
                        None => {},
                    }
                },
                None => {},
            }
        },
        None => {},
    }
    lemma_concurrent_straight();
    crate::walk::law_passes_exactly_when_every_step_goes_through(plan, answers);
}

} // verus!
