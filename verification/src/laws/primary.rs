//! The law of the test of the primary device.

use vstd::prelude::*;
use crate::expr::{here, ix, len, lt, modulo, not, num, plus, times};
use crate::machine::{Answer, Ending, Progress};
use crate::memory::Contents;
use crate::script::{Act, Faults, Step};

verus! {

/// The mask of the words of a column that are below a limit.
pub open spec fn low_mask(words: Seq<u64>, limit: u64) -> Seq<u64> {
    Seq::new(words.len(), |i: int| crate::expr::truth(words[i] < limit))
}

/// Whether all words of a column are below a limit.
pub open spec fn all_below(words: Seq<u64>, limit: u64) -> bool {
    forall|i: int| 0 <= i < words.len() ==> #[trigger] words[i] < limit
}

/// The keys of buffer `k`.
pub open spec fn buffer_keys(k: int) -> Seq<u64> {
    Seq::new(5000, |i: int| ((i + k * 5000) % 10000) as u64)
}

/// The words of [`low_mask`].
proof fn lemma_low_mask(contents: Contents)
    requires
        contents.full(),
        contents.columns[3].len() <= u64::MAX,
    ensures
        forall|i: int|
            0 <= i < contents.columns[3].len() ==> #[trigger] crate::expr::value_of(
                lt(here(3), num(500)),
                contents,
                i as u64,
            ) == Some(low_mask(contents.columns[3], 500)[i]),
{
    reveal_with_fuel(crate::expr::value_of, 4);
}

/// The words of [`buffer_keys`].
#[verifier::spinoff_prover]
#[verifier::rlimit(50)]
proof fn lemma_buffer_keys(k: int, contents: Contents)
    requires
        0 <= k < 5,
    ensures
        forall|i: int|
            0 <= i < 5000 ==> #[trigger] crate::expr::value_of(
                modulo(plus(ix(), times(num(k as u64), num(5000))), num(10000)),
                contents,
                i as u64,
            ) == Some(buffer_keys(k)[i]),
{
    reveal_with_fuel(crate::expr::value_of, 5);
}

/// A scan for words that are not below the limit.
#[verifier::spinoff_prover]
#[verifier::rlimit(50)]
proof fn lemma_scan_below(
    steps: Seq<Step>,
    at: int,
    to: int,
    contents: Contents,
    answers: Seq<Answer>,
    used: int,
)
    requires
        at < to,
        contents.full(),
        contents.columns[5].len() <= u64::MAX,
        crate::machine::taken(steps[at], contents) == Some(true),
        crate::machine::act_of(steps[at]) matches Act::Scan { low, high, by, faults } && {
            &&& low == num(0)
            &&& high == len(5)
            &&& by == 1
            &&& faults matches Faults::One(fault, _)
            &&& fault == not(lt(here(5), num(500)))
        },
    ensures
        crate::walk::walked(steps, at, to, contents, answers, used) == (if all_below(
            contents.columns[5],
            500,
        ) {
            crate::walk::walked(steps, at + 1, to, contents, answers, used)
        } else {
            None
        }),
{
    let words = contents.columns[5];
    match crate::machine::act_of(steps[at]) {
        Act::Scan { faults, .. } => {
            crate::laws::steps::lemma_scan(
                steps,
                at,
                to,
                contents,
                answers,
                used,
                0,
                words.len() as u64,
            );
            assert forall|i: int| 0 <= i < words.len() implies (#[trigger] crate::walk::shows(
                faults,
                contents,
                i as u64,
            ) <==> !(words[i] < 500)) by {
                reveal_with_fuel(crate::expr::value_of, 5);
            }
            if !all_below(words, 500) {
                let i = choose|i: int| 0 <= i < words.len() && !(#[trigger] words[i] < 500);
                assert(crate::walk::shows(faults, contents, i as u64));
            }
        },
        _ => {},
    }
}

/// Whether the answers to the downloads of the test are columns or refusals.
pub open spec fn primary_shaped(answers: Seq<Answer>) -> bool {
    &&& answers.len() >= 30
    &&& crate::laws::steps::column_or_refusal(answers[2])
    &&& crate::laws::steps::column_or_refusal(answers[5])
    &&& crate::laws::steps::column_or_refusal(answers[8])
    &&& forall|k: int|
        0 <= k < 5 ==> crate::laws::steps::column_or_refusal(#[trigger] answers[24 + 1 * k])
}

/// What the device has to answer in the part `large`.
pub open spec fn primary_large(answers: Seq<Answer>) -> bool {
    &&& !(answers[0] is Failed)
    &&& !(answers[1] is Failed)
    &&& answers[2] is Words
    &&& crate::laws::steps::rises_by(answers[2]->Words_0, 1000)
}

/// What the device has to answer in the part `chain`.
pub open spec fn primary_chain(answers: Seq<Answer>) -> bool {
    &&& !(answers[3] is Failed)
    &&& !(answers[4] is Failed)
    &&& answers[5] is Words
    &&& !(answers[6] is Failed)
    &&& !(answers[7] is Failed)
    &&& answers[8] is Words
    &&& crate::laws::steps::rises(answers[8]->Words_0)
    &&& all_below(answers[8]->Words_0, 500)
}

/// What the device has to answer in round `k` of the part `buffers`, from answer `used` on.
pub open spec fn primary_buffers(k: int, answers: Seq<Answer>, used: int) -> bool {
    &&& !(answers[used] is Failed)
    &&& !(answers[used + 1] is Failed)
}

/// What the device has to answer in round `k` of the part `results`, from answer `used` on.
pub open spec fn primary_results(k: int, answers: Seq<Answer>, used: int) -> bool {
    &&& answers[used] is Words
    &&& crate::laws::steps::rises(answers[used]->Words_0)
}

/// What the device has to answer in the part `end`.
pub open spec fn primary_end(answers: Seq<Answer>) -> bool {
    !(answers[29] is Failed)
}

/// The part `large`.
proof fn lemma_primary_large(contents: Contents, answers: Seq<Answer>)
    requires
        contents.full(),
        primary_shaped(answers),
    ensures
        match crate::walk::walked(
            crate::categories::c20_multi_gpu::primary_device_operations_large_steps(),
            0,
            5,
            contents,
            answers,
            0,
        ) {
            Some((after, next)) => {
                &&& primary_large(answers)
                &&& after.full()
                &&& next == 3
            },
            None => !primary_large(answers),
        },
        crate::categories::c20_multi_gpu::primary_device_operations_large_steps().len() == 5,
{
    let steps = crate::categories::c20_multi_gpu::primary_device_operations_large_steps();
    crate::laws::words::lemma_scattered(10000000, 500000, contents);
    let words1 = crate::laws::words::scattered(10000000, 500000);
    crate::laws::steps::lemma_fill(steps, 0, 5, contents, answers, 0, words1);
    let next1 = contents.with_column(0, words1);
    crate::laws::steps::lemma_command(steps, 1, 5, next1, answers, 0);
    crate::laws::steps::lemma_command(steps, 2, 5, next1, answers, 1);
    crate::laws::steps::lemma_download(steps, 3, 5, next1, answers, 2);
    if answers[2] is Words {
        let next2 = next1.with_column(1, answers[2]->Words_0);
        crate::laws::steps::lemma_scan_order_by(steps, 4, 5, next2, answers, 3, 1, 1000);
        crate::laws::steps::lemma_end(steps, 5, next2, answers, 3);
    }
}

/// The part `chain`.
proof fn lemma_primary_chain(contents: Contents, answers: Seq<Answer>)
    requires
        contents.full(),
        primary_shaped(answers),
    ensures
        match crate::walk::walked(
            crate::categories::c20_multi_gpu::primary_device_operations_chain_steps(),
            0,
            10,
            contents,
            answers,
            3,
        ) {
            Some((after, next)) => {
                &&& primary_chain(answers)
                &&& after.full()
                &&& next == 9
            },
            None => !primary_chain(answers),
        },
        crate::categories::c20_multi_gpu::primary_device_operations_chain_steps().len() == 10,
{
    let steps = crate::categories::c20_multi_gpu::primary_device_operations_chain_steps();
    crate::laws::words::lemma_cyclic(1000, 10000, contents);
    let words1 = crate::laws::words::cyclic(1000, 10000);
    crate::laws::steps::lemma_fill(steps, 0, 10, contents, answers, 3, words1);
    let next1 = contents.with_column(2, words1);
    crate::laws::steps::lemma_command(steps, 1, 10, next1, answers, 3);
    crate::laws::steps::lemma_command(steps, 2, 10, next1, answers, 4);
    crate::laws::steps::lemma_download(steps, 3, 10, next1, answers, 5);
    if answers[5] is Words {
        let next2 = next1.with_column(3, answers[5]->Words_0);
        lemma_low_mask(next2);
        let words3 = low_mask(answers[5]->Words_0, 500);
        crate::laws::steps::lemma_fill(steps, 4, 10, next2, answers, 6, words3);
        let next3 = next2.with_column(4, words3);
        crate::laws::steps::lemma_command(steps, 5, 10, next3, answers, 6);
        crate::laws::steps::lemma_command(steps, 6, 10, next3, answers, 7);
        crate::laws::steps::lemma_download(steps, 7, 10, next3, answers, 8);
        if answers[8] is Words {
            let next4 = next3.with_column(5, answers[8]->Words_0);
            crate::laws::steps::lemma_scan_order(steps, 8, 10, next4, answers, 9, 5);
            lemma_scan_below(steps, 9, 10, next4, answers, 9);
            crate::laws::steps::lemma_end(steps, 10, next4, answers, 9);
        }
    }
}

/// One round of the part `buffers`.
proof fn lemma_primary_buffers(k: int, contents: Contents, answers: Seq<Answer>, used: int)
    requires
        0 <= k < 5,
        used == 9 + 3 * k,
        contents.full(),
        primary_shaped(answers),
    ensures
        match crate::walk::walked(
            crate::categories::c20_multi_gpu::primary_device_operations_buffers_round(k as u64),
            0,
            4,
            contents,
            answers,
            used,
        ) {
            Some((after, next)) => {
                &&& primary_buffers(k, answers, used)
                &&& after.full()
                &&& next == 9 + 3 * (k + 1)
            },
            None => !primary_buffers(k, answers, used),
        },
        crate::categories::c20_multi_gpu::primary_device_operations_buffers_round(
            k as u64,
        ).len() == 4,
{
    let steps = crate::categories::c20_multi_gpu::primary_device_operations_buffers_round(k as u64);
    lemma_buffer_keys(k, contents);
    let words1 = buffer_keys(k);
    crate::laws::steps::lemma_fill(steps, 0, 4, contents, answers, used, words1);
    let next1 = contents.with_column(6, words1);
    crate::laws::steps::lemma_command(steps, 1, 4, next1, answers, used);
    crate::laws::steps::lemma_command(steps, 2, 4, next1, answers, used + 1);
    crate::laws::steps::lemma_command(steps, 3, 4, next1, answers, used + 2);
    crate::laws::steps::lemma_end(steps, 4, next1, answers, used + 3);
}

/// All rounds of the part `buffers`.
proof fn lemma_primary_buffers_rounds(contents: Contents, answers: Seq<Answer>)
    requires
        contents.full(),
        primary_shaped(answers),
    ensures
        ({
            let steps = crate::script::rounds(
                5,
                |k: int| crate::categories::c20_multi_gpu::primary_device_operations_buffers_round(
                    k as u64,
                ),
            );
            match crate::walk::walked(steps, 0, steps.len() as int, contents, answers, 9) {
                Some((after, next)) => {
                    &&& forall|k: int| 0 <= k < 5 ==> #[trigger] primary_buffers(
                        k,
                        answers,
                        9 + 3 * k,
                    )
                    &&& after.full()
                    &&& next == 24
                },
                None => !(forall|k: int|
                    0 <= k < 5 ==> #[trigger] primary_buffers(k, answers, 9 + 3 * k)),
            }
        }),
{
    let round = |k: int| crate::categories::c20_multi_gpu::primary_device_operations_buffers_round(
        k as u64,
    );
    let start = |k: int| 9 + 3 * k;
    let good = |k: int| primary_buffers(k, answers, start(k));
    let kept = |contents: Contents| contents.full();
    assert forall|k: int, contents: Contents|
        #![trigger good(k), kept(contents)]
        0 <= k < 5 && kept(contents) implies if good(k) {
        crate::walk::goes_to(round(k), contents, answers, start(k), start(k + 1), kept)
    } else {
        crate::walk::walked(round(k), 0, round(k).len() as int, contents, answers, start(k)) is None
    } by {
        lemma_primary_buffers(k, contents, answers, start(k));
    }
    crate::walk::law_rounds_keep_what_each_keeps(5, round, start, good, kept, contents, answers);
    if forall|k: int| 0 <= k < 5 ==> #[trigger] good(k) {
        assert forall|k: int| 0 <= k < 5 implies #[trigger] primary_buffers(
            k,
            answers,
            9 + 3 * k,
        ) by {
            assert(good(k));
        }
    } else {
        let k = choose|k: int| 0 <= k < 5 && !(#[trigger] good(k));
        assert(!primary_buffers(k, answers, 9 + 3 * k));
    }
}

/// One round of the part `results`.
proof fn lemma_primary_results(k: int, contents: Contents, answers: Seq<Answer>, used: int)
    requires
        0 <= k < 5,
        used == 24 + 1 * k,
        contents.full(),
        primary_shaped(answers),
    ensures
        match crate::walk::walked(
            crate::categories::c20_multi_gpu::primary_device_operations_results_round(k as u64),
            0,
            2,
            contents,
            answers,
            used,
        ) {
            Some((after, next)) => {
                &&& primary_results(k, answers, used)
                &&& after.full()
                &&& next == 24 + 1 * (k + 1)
            },
            None => !primary_results(k, answers, used),
        },
        crate::categories::c20_multi_gpu::primary_device_operations_results_round(
            k as u64,
        ).len() == 2,
{
    let steps = crate::categories::c20_multi_gpu::primary_device_operations_results_round(k as u64);
    assert(crate::laws::steps::column_or_refusal(answers[24 + 1 * k]));
    crate::laws::steps::lemma_download(steps, 0, 2, contents, answers, used);
    if answers[used] is Words {
        let next1 = contents.with_column(7, answers[used]->Words_0);
        crate::laws::steps::lemma_scan_order(steps, 1, 2, next1, answers, used + 1, 7);
        crate::laws::steps::lemma_end(steps, 2, next1, answers, used + 1);
    }
}

/// All rounds of the part `results`.
proof fn lemma_primary_results_rounds(contents: Contents, answers: Seq<Answer>)
    requires
        contents.full(),
        primary_shaped(answers),
    ensures
        ({
            let steps = crate::script::rounds(
                5,
                |k: int| crate::categories::c20_multi_gpu::primary_device_operations_results_round(
                    k as u64,
                ),
            );
            match crate::walk::walked(steps, 0, steps.len() as int, contents, answers, 24) {
                Some((after, next)) => {
                    &&& forall|k: int| 0 <= k < 5 ==> #[trigger] primary_results(
                        k,
                        answers,
                        24 + 1 * k,
                    )
                    &&& after.full()
                    &&& next == 29
                },
                None => !(forall|k: int|
                    0 <= k < 5 ==> #[trigger] primary_results(k, answers, 24 + 1 * k)),
            }
        }),
{
    let round = |k: int| crate::categories::c20_multi_gpu::primary_device_operations_results_round(
        k as u64,
    );
    let start = |k: int| 24 + 1 * k;
    let good = |k: int| primary_results(k, answers, start(k));
    let kept = |contents: Contents| contents.full();
    assert forall|k: int, contents: Contents|
        #![trigger good(k), kept(contents)]
        0 <= k < 5 && kept(contents) implies if good(k) {
        crate::walk::goes_to(round(k), contents, answers, start(k), start(k + 1), kept)
    } else {
        crate::walk::walked(round(k), 0, round(k).len() as int, contents, answers, start(k)) is None
    } by {
        lemma_primary_results(k, contents, answers, start(k));
    }
    crate::walk::law_rounds_keep_what_each_keeps(5, round, start, good, kept, contents, answers);
    if forall|k: int| 0 <= k < 5 ==> #[trigger] good(k) {
        assert forall|k: int| 0 <= k < 5 implies #[trigger] primary_results(
            k,
            answers,
            24 + 1 * k,
        ) by {
            assert(good(k));
        }
    } else {
        let k = choose|k: int| 0 <= k < 5 && !(#[trigger] good(k));
        assert(!primary_results(k, answers, 24 + 1 * k));
    }
}

/// The part `end`.
proof fn lemma_primary_end(contents: Contents, answers: Seq<Answer>)
    requires
        contents.full(),
        primary_shaped(answers),
    ensures
        match crate::walk::walked(
            crate::categories::c20_multi_gpu::primary_device_operations_end_steps(),
            0,
            1,
            contents,
            answers,
            29,
        ) {
            Some((after, next)) => {
                &&& primary_end(answers)
                &&& after.full()
                &&& next == 30
            },
            None => !primary_end(answers),
        },
        crate::categories::c20_multi_gpu::primary_device_operations_end_steps().len() == 1,
{
    let steps = crate::categories::c20_multi_gpu::primary_device_operations_end_steps();
    crate::laws::steps::lemma_command(steps, 0, 1, contents, answers, 29);
    crate::laws::steps::lemma_end(steps, 1, contents, answers, 30);
}

/// The test has no jumps.
proof fn lemma_primary_straight()
    ensures
        forall|j: int|
            0 <= j < crate::categories::c20_multi_gpu::primary_device_operations_steps().len()
                ==> crate::walk::straight(
            #[trigger] crate::categories::c20_multi_gpu::primary_device_operations_steps()[j],
        ),
{
    let part1 = crate::categories::c20_multi_gpu::primary_device_operations_large_steps();
    let part2 = crate::categories::c20_multi_gpu::primary_device_operations_chain_steps();
    let part3 = crate::script::rounds(
        5,
        |k: int| crate::categories::c20_multi_gpu::primary_device_operations_buffers_round(
            k as u64,
        ),
    );
    let round3 = |k: int| crate::categories::c20_multi_gpu::primary_device_operations_buffers_round(
        k as u64,
    );
    crate::walk::law_straight_rounds_are_straight(5, round3);
    let part4 = crate::script::rounds(
        5,
        |k: int| crate::categories::c20_multi_gpu::primary_device_operations_results_round(
            k as u64,
        ),
    );
    let round4 = |k: int| crate::categories::c20_multi_gpu::primary_device_operations_results_round(
        k as u64,
    );
    crate::walk::law_straight_rounds_are_straight(5, round4);
    let part5 = crate::categories::c20_multi_gpu::primary_device_operations_end_steps();
    let whole1 = part1;
    let whole2 = whole1 + part2;
    crate::walk::law_straight_scripts_make_a_straight_one(whole1, part2);
    let whole3 = whole2 + part3;
    crate::walk::law_straight_scripts_make_a_straight_one(whole2, part3);
    let whole4 = whole3 + part4;
    crate::walk::law_straight_scripts_make_a_straight_one(whole3, part4);
    let whole5 = whole4 + part5;
    crate::walk::law_straight_scripts_make_a_straight_one(whole4, part5);
    assert(crate::categories::c20_multi_gpu::primary_device_operations_steps() == whole5);
}

/// The test of the primary device passes exactly when the large column is in rising order at the
/// places looked at, the chain leaves words below the limit in rising order, and each of five
/// buffers comes back in rising order.
pub proof fn law_primary_device_passes_exactly_when_it_works(answers: Seq<Answer>)
    requires
        primary_shaped(answers),
    ensures
        crate::machine::run_of(
            crate::script::plan(
                "test_primary_device_operations",
                crate::categories::c20_multi_gpu::primary_device_operations_steps(),
            ),
            answers,
        ).progress == Progress::Over(Ending::Passed) <==> {
            &&& primary_large(answers)
            &&& primary_chain(answers)
            &&& forall|k: int|
                0 <= k < 5 ==> #[trigger] primary_buffers(k, answers, 9 + 3 * k)
            &&& forall|k: int|
                0 <= k < 5 ==> #[trigger] primary_results(k, answers, 24 + 1 * k)
            &&& primary_end(answers)
        },
{
    let plan = crate::script::plan(
        "test_primary_device_operations",
        crate::categories::c20_multi_gpu::primary_device_operations_steps(),
    );
    let blank = Contents::blank(plan.texts);
    let part1 = crate::categories::c20_multi_gpu::primary_device_operations_large_steps();
    let part2 = crate::categories::c20_multi_gpu::primary_device_operations_chain_steps();
    let part3 = crate::script::rounds(
        5,
        |k: int| crate::categories::c20_multi_gpu::primary_device_operations_buffers_round(
            k as u64,
        ),
    );
    let part4 = crate::script::rounds(
        5,
        |k: int| crate::categories::c20_multi_gpu::primary_device_operations_results_round(
            k as u64,
        ),
    );
    let part5 = crate::categories::c20_multi_gpu::primary_device_operations_end_steps();
    let whole1 = part1;
    let whole2 = whole1 + part2;
    let whole3 = whole2 + part3;
    let whole4 = whole3 + part4;
    let whole5 = whole4 + part5;
    assert(plan.steps == whole5);
    lemma_primary_large(blank, answers);
    crate::walk::law_walks_over_two_scripts_compose(whole1, part2, blank, answers, 0);
    crate::walk::law_walks_over_two_scripts_compose(whole2, part3, blank, answers, 0);
    crate::walk::law_walks_over_two_scripts_compose(whole3, part4, blank, answers, 0);
    crate::walk::law_walks_over_two_scripts_compose(whole4, part5, blank, answers, 0);
    match crate::walk::walked(whole1, 0, whole1.len() as int, blank, answers, 0) {
        Some((after, _)) => {
            lemma_primary_chain(after, answers);
            match crate::walk::walked(whole2, 0, whole2.len() as int, blank, answers, 0) {
                Some((after, _)) => {
                    lemma_primary_buffers_rounds(after, answers);
                    match crate::walk::walked(whole3, 0, whole3.len() as int, blank, answers, 0) {
                        Some((after, _)) => {
                            lemma_primary_results_rounds(after, answers);
                            match crate::walk::walked(
                                whole4,
                                0,
                                whole4.len() as int,
                                blank,
                                answers,
                                0,
                            ) {
                                Some((after, _)) => {
                                    lemma_primary_end(after, answers);
                                },
                                None => {},
                            }
                        },
                        None => {},
                    }
                },
                None => {},
            }
        },
        None => {},
    }
    lemma_primary_straight();
    crate::walk::law_passes_exactly_when_every_step_goes_through(plan, answers);
}

} // verus!
