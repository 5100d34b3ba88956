//! The law of the test of cache sizes.

use vstd::prelude::*;
use crate::expr::{ix, modulo, num, plus, times};
use crate::machine::{Answer, Ending, Progress};
use crate::memory::Contents;
use crate::script::COUNT;

verus! {

/// The keys of the small column.
pub open spec fn small_keys() -> Seq<u64> {
    Seq::new(64000, |i: int| ((i * 17 + 13) % 64000) as u64)
}

/// The keys of the column of middle size.
pub open spec fn middle_keys() -> Seq<u64> {
    Seq::new(512000, |i: int| (i * 31337 % 512000) as u64)
}

/// The words of [`small_keys`].
#[verifier::spinoff_prover]
#[verifier::rlimit(50)]
proof fn lemma_small_keys(contents: Contents)
    ensures
        forall|i: int|
            0 <= i < 64000 ==> #[trigger] crate::expr::value_of(
                modulo(plus(times(ix(), num(17)), num(13)), num(64000)),
                contents,
                i as u64,
            ) == Some(small_keys()[i]),
{
    reveal_with_fuel(crate::expr::value_of, 5);
}

/// The words of [`middle_keys`].
proof fn lemma_middle_keys(contents: Contents)
    ensures
        forall|i: int|
            0 <= i < 512000 ==> #[trigger] crate::expr::value_of(
                modulo(times(ix(), num(31337)), num(512000)),
                contents,
                i as u64,
            ) == Some(middle_keys()[i]),
{
    reveal_with_fuel(crate::expr::value_of, 4);
}

/// Whether the answers to the downloads of the test are columns or refusals.
pub open spec fn caches_shaped(answers: Seq<Answer>) -> bool {
    &&& answers.len() >= 33
    &&& forall|k: int|
        0 <= k < 3 ==> crate::laws::steps::column_or_refusal(#[trigger] answers[2 + 3 * k])
    &&& crate::laws::steps::column_or_refusal(answers[12])
    &&& crate::laws::steps::column_or_refusal(answers[15])
}

/// What the device has to answer in the part `small`.
pub open spec fn caches_small(answers: Seq<Answer>) -> bool {
    !(answers[0] is Failed)
}

/// What the device has to answer in round `k` of the part `small_sorts`, from answer `used` on.
pub open spec fn caches_small_sorts(k: int, answers: Seq<Answer>, used: int) -> bool {
    &&& !(answers[used] is Failed)
    &&& answers[used + 1] is Words
    &&& crate::laws::steps::rises(answers[used + 1]->Words_0)
}

/// What the device has to answer in the part `larger`.
pub open spec fn caches_larger(answers: Seq<Answer>) -> bool {
    &&& !(answers[10] is Failed)
    &&& !(answers[11] is Failed)
    &&& answers[12] is Words
    &&& crate::laws::steps::rises_by(answers[12]->Words_0, 1000)
    &&& !(answers[13] is Failed)
    &&& !(answers[14] is Failed)
    &&& answers[15] is Words
    &&& crate::laws::steps::rises_by(answers[15]->Words_0, 10000)
    &&& !(answers[16] is Failed)
}

/// What the device has to answer in round `k` of the part `interleaved`, from answer `used` on.
pub open spec fn caches_interleaved(k: int, answers: Seq<Answer>, used: int) -> bool {
    &&& !(answers[used] is Failed)
    &&& !(answers[used + 1] is Failed)
    &&& answers[used + 2] == Answer::Count(64000)
    &&& answers[used + 3] == Answer::Count(512000)
}

/// What the device has to answer in the part `end`.
pub open spec fn caches_end(answers: Seq<Answer>) -> bool {
    !(answers[32] is Failed)
}

/// The part `small`.
proof fn lemma_caches_small(contents: Contents, answers: Seq<Answer>)
    requires
        contents.full(),
        caches_shaped(answers),
    ensures
        match crate::walk::walked(
            crate::categories::c17_caching::l2_cache_effects_small_steps(),
            0,
            2,
            contents,
            answers,
            0,
        ) {
            Some((after, next)) => {
                &&& caches_small(answers)
                &&& after.full()
                &&& next == 1
            },
            None => !caches_small(answers),
        },
        crate::categories::c17_caching::l2_cache_effects_small_steps().len() == 2,
{
    let steps = crate::categories::c17_caching::l2_cache_effects_small_steps();
    lemma_small_keys(contents);
    let words1 = small_keys();
    crate::laws::steps::lemma_fill(steps, 0, 2, contents, answers, 0, words1);
    let next1 = contents.with_column(0, words1);
    crate::laws::steps::lemma_command(steps, 1, 2, next1, answers, 0);
    crate::laws::steps::lemma_end(steps, 2, next1, answers, 1);
}

/// One round of the part `small_sorts`.
proof fn lemma_caches_small_sorts(k: int, contents: Contents, answers: Seq<Answer>, used: int)
    requires
        0 <= k < 3,
        used == 1 + 3 * k,
        contents.full(),
        caches_shaped(answers),
    ensures
        match crate::walk::walked(
            crate::categories::c17_caching::l2_cache_effects_small_sorts_round(k as u64),
            0,
            4,
            contents,
            answers,
            used,
        ) {
            Some((after, next)) => {
                &&& caches_small_sorts(k, answers, used)
                &&& after.full()
                &&& next == 1 + 3 * (k + 1)
            },
            None => !caches_small_sorts(k, answers, used),
        },
        crate::categories::c17_caching::l2_cache_effects_small_sorts_round(k as u64).len() == 4,
{
    let steps = crate::categories::c17_caching::l2_cache_effects_small_sorts_round(k as u64);
    assert(crate::laws::steps::column_or_refusal(answers[2 + 3 * k]));
    crate::laws::steps::lemma_command(steps, 0, 4, contents, answers, used);
    crate::laws::steps::lemma_download(steps, 1, 4, contents, answers, used + 1);
    if answers[used + 1] is Words {
        let next1 = contents.with_column(1, answers[used + 1]->Words_0);
        crate::laws::steps::lemma_scan_order(steps, 2, 4, next1, answers, used + 2, 1);
        crate::laws::steps::lemma_command(steps, 3, 4, next1, answers, used + 2);
        crate::laws::steps::lemma_end(steps, 4, next1, answers, used + 3);
    }
}

/// All rounds of the part `small_sorts`.
proof fn lemma_caches_small_sorts_rounds(contents: Contents, answers: Seq<Answer>)
    requires
        contents.full(),
        caches_shaped(answers),
    ensures
        ({
            let steps = crate::script::rounds(
                3,
                |k: int| crate::categories::c17_caching::l2_cache_effects_small_sorts_round(
                    k as u64,
                ),
            );
            match crate::walk::walked(steps, 0, steps.len() as int, contents, answers, 1) {
                Some((after, next)) => {
                    &&& forall|k: int| 0 <= k < 3 ==> #[trigger] caches_small_sorts(
                        k,
                        answers,
                        1 + 3 * k,
                    )
                    &&& after.full()
                    &&& next == 10
                },
                None => !(forall|k: int|
                    0 <= k < 3 ==> #[trigger] caches_small_sorts(k, answers, 1 + 3 * k)),
            }
        }),
{
    let round = |k: int| crate::categories::c17_caching::l2_cache_effects_small_sorts_round(
        k as u64,
    );
    let start = |k: int| 1 + 3 * k;
    let good = |k: int| caches_small_sorts(k, answers, start(k));
    let kept = |contents: Contents| contents.full();
    assert forall|k: int, contents: Contents|
        #![trigger good(k), kept(contents)]
        0 <= k < 3 && kept(contents) implies if good(k) {
        crate::walk::goes_to(round(k), contents, answers, start(k), start(k + 1), kept)
    } else {
        crate::walk::walked(round(k), 0, round(k).len() as int, contents, answers, start(k)) is None
    } by {
        lemma_caches_small_sorts(k, contents, answers, start(k));
    }
    crate::walk::law_rounds_keep_what_each_keeps(3, round, start, good, kept, contents, answers);
    if forall|k: int| 0 <= k < 3 ==> #[trigger] good(k) {
        assert forall|k: int| 0 <= k < 3 implies #[trigger] caches_small_sorts(
            k,
            answers,
            1 + 3 * k,
        ) by {
            assert(good(k));
        }
    } else {
        let k = choose|k: int| 0 <= k < 3 && !(#[trigger] good(k));
        assert(!caches_small_sorts(k, answers, 1 + 3 * k));
    }
}

/// The part `larger`.
proof fn lemma_caches_larger(contents: Contents, answers: Seq<Answer>)
    requires
        contents.full(),
        caches_shaped(answers),
    ensures
        match crate::walk::walked(
            crate::categories::c17_caching::l2_cache_effects_larger_steps(),
            0,
            12,
            contents,
            answers,
            10,
        ) {
            Some((after, next)) => {
                &&& caches_larger(answers)
                &&& after.full()
                &&& next == 17
            },
            None => !caches_larger(answers),
        },
        crate::categories::c17_caching::l2_cache_effects_larger_steps().len() == 12,
{
    let steps = crate::categories::c17_caching::l2_cache_effects_larger_steps();
    lemma_middle_keys(contents);
    let words1 = middle_keys();
    crate::laws::steps::lemma_fill(steps, 0, 12, contents, answers, 10, words1);
    let next1 = contents.with_column(2, words1);
    crate::laws::steps::lemma_command(steps, 1, 12, next1, answers, 10);
    crate::laws::steps::lemma_command(steps, 2, 12, next1, answers, 11);
    crate::laws::steps::lemma_download(steps, 3, 12, next1, answers, 12);
    if answers[12] is Words {
        let next2 = next1.with_column(3, answers[12]->Words_0);
        crate::laws::steps::lemma_scan_order_by(steps, 4, 12, next2, answers, 13, 3, 1000);
        crate::laws::words::lemma_scattered(2000000, 2000000, next2);
        let words3 = crate::laws::words::scattered(2000000, 2000000);
        crate::laws::steps::lemma_fill(steps, 5, 12, next2, answers, 13, words3);
        let next3 = next2.with_column(4, words3);
        crate::laws::steps::lemma_command(steps, 6, 12, next3, answers, 13);
        crate::laws::steps::lemma_command(steps, 7, 12, next3, answers, 14);
        crate::laws::steps::lemma_download(steps, 8, 12, next3, answers, 15);
        if answers[15] is Words {
            let next4 = next3.with_column(5, answers[15]->Words_0);
            crate::laws::steps::lemma_scan_order_by(steps, 9, 12, next4, answers, 16, 5, 10000);
            crate::laws::words::lemma_scaled_places(3, 64000, next4);
            let words5 = crate::laws::words::scaled(crate::laws::words::below(64000), 3);
            crate::laws::steps::lemma_fill(steps, 10, 12, next4, answers, 16, words5);
            let next5 = next4.with_column(6, words5);
            crate::laws::steps::lemma_command(steps, 11, 12, next5, answers, 16);
            crate::laws::steps::lemma_end(steps, 12, next5, answers, 17);
        }
    }
}

/// One round of the part `interleaved`.
proof fn lemma_caches_interleaved(k: int, contents: Contents, answers: Seq<Answer>, used: int)
    requires
        0 <= k < 3,
        used == 17 + 5 * k,
        contents.full(),
        caches_shaped(answers),
    ensures
        match crate::walk::walked(
            crate::categories::c17_caching::l2_cache_effects_interleaved_round(k as u64),
            0,
            5,
            contents,
            answers,
            used,
        ) {
            Some((after, next)) => {
                &&& caches_interleaved(k, answers, used)
                &&& after.full()
                &&& next == 17 + 5 * (k + 1)
            },
            None => !caches_interleaved(k, answers, used),
        },
        crate::categories::c17_caching::l2_cache_effects_interleaved_round(k as u64).len() == 5,
{
    let steps = crate::categories::c17_caching::l2_cache_effects_interleaved_round(k as u64);
    crate::laws::steps::lemma_command(steps, 0, 5, contents, answers, used);
    crate::laws::steps::lemma_command(steps, 1, 5, contents, answers, used + 1);
    crate::laws::steps::lemma_match(steps, 2, 5, contents, answers, used + 2, 64000);
    let next1 = contents.with_register(COUNT, 64000);
    crate::laws::steps::lemma_match(steps, 3, 5, next1, answers, used + 3, 512000);
    let next2 = next1.with_register(COUNT, 512000);
    crate::laws::steps::lemma_command(steps, 4, 5, next2, answers, used + 4);
    crate::laws::steps::lemma_end(steps, 5, next2, answers, used + 5);
}

/// All rounds of the part `interleaved`.
proof fn lemma_caches_interleaved_rounds(contents: Contents, answers: Seq<Answer>)
    requires
        contents.full(),
        caches_shaped(answers),
    ensures
        ({
            let steps = crate::script::rounds(
                3,
                |k: int| crate::categories::c17_caching::l2_cache_effects_interleaved_round(
                    k as u64,
                ),
            );
            match crate::walk::walked(steps, 0, steps.len() as int, contents, answers, 17) {
                Some((after, next)) => {
                    &&& forall|k: int| 0 <= k < 3 ==> #[trigger] caches_interleaved(
                        k,
                        answers,
                        17 + 5 * k,
                    )
                    &&& after.full()
                    &&& next == 32
                },
                None => !(forall|k: int|
                    0 <= k < 3 ==> #[trigger] caches_interleaved(k, answers, 17 + 5 * k)),
            }
        }),
{
    let round = |k: int| crate::categories::c17_caching::l2_cache_effects_interleaved_round(
        k as u64,
    );
    let start = |k: int| 17 + 5 * k;
    let good = |k: int| caches_interleaved(k, answers, start(k));
    let kept = |contents: Contents| contents.full();
    assert forall|k: int, contents: Contents|
        #![trigger good(k), kept(contents)]
        0 <= k < 3 && kept(contents) implies if good(k) {
        crate::walk::goes_to(round(k), contents, answers, start(k), start(k + 1), kept)
    } else {
        crate::walk::walked(round(k), 0, round(k).len() as int, contents, answers, start(k)) is None
    } by {
        lemma_caches_interleaved(k, contents, answers, start(k));
    }
    crate::walk::law_rounds_keep_what_each_keeps(3, round, start, good, kept, contents, answers);
    if forall|k: int| 0 <= k < 3 ==> #[trigger] good(k) {
        assert forall|k: int| 0 <= k < 3 implies #[trigger] caches_interleaved(
            k,
            answers,
            17 + 5 * k,
        ) by {
            assert(good(k));
        }
    } else {
        let k = choose|k: int| 0 <= k < 3 && !(#[trigger] good(k));
        assert(!caches_interleaved(k, answers, 17 + 5 * k));
    }
}

/// The part `end`.
proof fn lemma_caches_end(contents: Contents, answers: Seq<Answer>)
    requires
        contents.full(),
        caches_shaped(answers),
    ensures
        match crate::walk::walked(
            crate::categories::c17_caching::l2_cache_effects_end_steps(),
            0,
            1,
            contents,
            answers,
            32,
        ) {
            Some((after, next)) => {
                &&& caches_end(answers)
                &&& after.full()
                &&& next == 33
            },
            None => !caches_end(answers),
        },
        crate::categories::c17_caching::l2_cache_effects_end_steps().len() == 1,
{
    let steps = crate::categories::c17_caching::l2_cache_effects_end_steps();
    crate::laws::steps::lemma_command(steps, 0, 1, contents, answers, 32);
    crate::laws::steps::lemma_end(steps, 1, contents, answers, 33);
}

/// The test has no jumps.
proof fn lemma_caches_straight()
    ensures
        forall|j: int|
            0 <= j < crate::categories::c17_caching::l2_cache_effects_steps().len()
                ==> crate::walk::straight(
            #[trigger] crate::categories::c17_caching::l2_cache_effects_steps()[j],
        ),
{
    let part1 = crate::categories::c17_caching::l2_cache_effects_small_steps();
    let part2 = crate::script::rounds(
        3,
        |k: int| crate::categories::c17_caching::l2_cache_effects_small_sorts_round(k as u64),
    );
    let round2 = |k: int| crate::categories::c17_caching::l2_cache_effects_small_sorts_round(
        k as u64,
    );
    crate::walk::law_straight_rounds_are_straight(3, round2);
    let part3 = crate::categories::c17_caching::l2_cache_effects_larger_steps();
    let part4 = crate::script::rounds(
        3,
        |k: int| crate::categories::c17_caching::l2_cache_effects_interleaved_round(k as u64),
    );
    let round4 = |k: int| crate::categories::c17_caching::l2_cache_effects_interleaved_round(
        k as u64,
    );
    crate::walk::law_straight_rounds_are_straight(3, round4);
    let part5 = crate::categories::c17_caching::l2_cache_effects_end_steps();
    let whole1 = part1;
    let whole2 = whole1 + part2;
    crate::walk::law_straight_scripts_make_a_straight_one(whole1, part2);
    let whole3 = whole2 + part3;
    crate::walk::law_straight_scripts_make_a_straight_one(whole2, part3);
    let whole4 = whole3 + part4;
    crate::walk::law_straight_scripts_make_a_straight_one(whole3, part4);
    let whole5 = whole4 + part5;
    crate::walk::law_straight_scripts_make_a_straight_one(whole4, part5);
    assert(crate::categories::c17_caching::l2_cache_effects_steps() == whole5);
}

/// The test of cache sizes passes exactly when the small column comes back in rising order three
/// times, the larger ones in rising order at the places looked at, and the sorts in turn leave all
/// rows.
pub proof fn law_caches_pass_exactly_when_sorted_alike(answers: Seq<Answer>)
    requires
        caches_shaped(answers),
    ensures
        crate::machine::run_of(
            crate::script::plan(
                "test_l2_cache_effects",
                crate::categories::c17_caching::l2_cache_effects_steps(),
            ),
            answers,
        ).progress == Progress::Over(Ending::Passed) <==> {
            &&& caches_small(answers)
            &&& forall|k: int|
                0 <= k < 3 ==> #[trigger] caches_small_sorts(k, answers, 1 + 3 * k)
            &&& caches_larger(answers)
            &&& forall|k: int|
                0 <= k < 3 ==> #[trigger] caches_interleaved(k, answers, 17 + 5 * k)
            &&& caches_end(answers)
        },
{
    let plan = crate::script::plan(
        "test_l2_cache_effects",
        crate::categories::c17_caching::l2_cache_effects_steps(),
    );
    let blank = Contents::blank(plan.texts);
    let part1 = crate::categories::c17_caching::l2_cache_effects_small_steps();
    let part2 = crate::script::rounds(
        3,
        |k: int| crate::categories::c17_caching::l2_cache_effects_small_sorts_round(k as u64),
    );
    let part3 = crate::categories::c17_caching::l2_cache_effects_larger_steps();
    let part4 = crate::script::rounds(
        3,
        |k: int| crate::categories::c17_caching::l2_cache_effects_interleaved_round(k as u64),
    );
    let part5 = crate::categories::c17_caching::l2_cache_effects_end_steps();
    let whole1 = part1;
    let whole2 = whole1 + part2;
    let whole3 = whole2 + part3;
    let whole4 = whole3 + part4;
    let whole5 = whole4 + part5;
    assert(plan.steps == whole5);
    lemma_caches_small(blank, answers);
    crate::walk::law_walks_over_two_scripts_compose(whole1, part2, blank, answers, 0);
    crate::walk::law_walks_over_two_scripts_compose(whole2, part3, blank, answers, 0);
    crate::walk::law_walks_over_two_scripts_compose(whole3, part4, blank, answers, 0);
    crate::walk::law_walks_over_two_scripts_compose(whole4, part5, blank, answers, 0);
    match crate::walk::walked(whole1, 0, whole1.len() as int, blank, answers, 0) {
        Some((after, _)) => {
            lemma_caches_small_sorts_rounds(after, answers);
            match crate::walk::walked(whole2, 0, whole2.len() as int, blank, answers, 0) {
                Some((after, _)) => {
                    lemma_caches_larger(after, answers);
                    match crate::walk::walked(whole3, 0, whole3.len() as int, blank, answers, 0) {
                        Some((after, _)) => {
                            lemma_caches_interleaved_rounds(after, answers);
                            match crate::walk::walked(
                                whole4,
                                0,
                                whole4.len() as int,
                                blank,
                                answers,
                                0,
                            ) {
                                Some((after, _)) => {
                                    lemma_caches_end(after, answers);
                                },
                                None => {},
                            }
                        },
                        None => {},
                    }
                },
                None => {},
            }
        },
        None => {},
    }
    lemma_caches_straight();
    crate::walk::law_passes_exactly_when_every_step_goes_through(plan, answers);
}

} // verus!
