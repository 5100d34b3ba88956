//! The law of the test that uploads columns and downloads them again.

use vstd::prelude::*;
use crate::expr::{ix, len, minus, modulo, num, pick, plus, same_as, times, Expr};
use crate::machine::{Answer, Ending, Progress};
use crate::memory::Contents;
use crate::scalar::Scalar;

verus! {

/// Whether the device, from answer `used` on, takes a column in, hands the same column out, and
/// hands it out sorted.
pub open spec fn comes_back(words: Seq<u64>, answers: Seq<Answer>, used: int) -> bool {
    &&& !(answers[used] is Failed)
    &&& answers[used + 1] == Answer::Words(words)
    &&& !(answers[used + 2] is Failed)
    &&& answers[used + 3] == Answer::Words(crate::columns::sorted(Scalar::U32, words))
}

/// Whether a word that can be computed at every place gives a column.
pub open spec fn gives(value: Expr, words: Seq<u64>) -> bool {
    forall|contents: Contents, i: int|
        0 <= i < words.len() ==> #[trigger] crate::expr::value_of(value, contents, i as u64)
            == Some(words[i])
}

/// The steps that upload a column and download it again go through exactly when the device hands
/// out what it took in, as it was and sorted.
pub proof fn law_transfer_goes_through_exactly_when_the_column_comes_back(
    name: &'static str,
    value: Expr,
    words: Seq<u64>,
    contents: Contents,
    answers: Seq<Answer>,
    used: int,
)
    requires
        contents.full(),
        words.len() == 10000,
        gives(value, words),
        0 <= used,
        used + 5 <= answers.len(),
        crate::laws::steps::column_or_refusal(answers[used + 1]),
        crate::laws::steps::column_or_refusal(answers[used + 3]),
    ensures
        comes_back(words, answers, used) ==> crate::walk::goes_through(
            crate::categories::c18_host_device::transferred_pattern_steps(name, value),
            contents,
            answers,
            used,
            5,
        ),
        !comes_back(words, answers, used) ==> crate::walk::walked(
            crate::categories::c18_host_device::transferred_pattern_steps(name, value),
            0,
            11,
            contents,
            answers,
            used,
        ) is None,
{
    let steps = crate::categories::c18_host_device::transferred_pattern_steps(name, value);
    let sorted = crate::columns::sorted(Scalar::U32, words);
    crate::laws::steps::lemma_sorted_rises(Scalar::U32, words);
    assert(crate::laws::steps::rises(sorted)) by {
        assert forall|i: int| 1 <= i < sorted.len() implies sorted[i - 1] <= #[trigger] sorted[
            i
        ] by {
            assert(crate::scalar::rank_of(Scalar::U32, sorted[i - 1]) <= crate::scalar::rank_of(
                Scalar::U32,
                sorted[i],
            ));
        }
    }
    assert forall|i: int| 0 <= i < words.len() implies #[trigger] crate::expr::value_of(
        value,
        contents,
        i as u64,
    ) == Some(words[i]) by {}
    crate::laws::steps::lemma_fill(steps, 0, 11, contents, answers, used, words);
    let filled = contents.with_column(0, words);
    crate::laws::steps::lemma_command(steps, 1, 11, filled, answers, used);
    crate::laws::steps::lemma_download(steps, 2, 11, filled, answers, used + 1);
    if answers[used + 1] is Words {
        let back = answers[used + 1]->Words_0;
        let after = filled.with_column(1, back);
        crate::laws::steps::lemma_lengths(after, 0, 1);
        crate::laws::steps::lemma_check(
            steps,
            3,
            11,
            after,
            answers,
            used + 2,
            back.len() != words.len(),
        );
        crate::laws::steps::lemma_scan_differences(steps, 4, 11, after, answers, used + 2, 0, 1);
        if back.len() == words.len() {
            assert(crate::laws::steps::agree(words, back) <==> words =~= back);
        }
        crate::laws::steps::lemma_command(steps, 5, 11, after, answers, used + 2);
        crate::laws::steps::lemma_download(steps, 6, 11, after, answers, used + 3);
        if answers[used + 3] is Words {
            let risen = answers[used + 3]->Words_0;
            let later = after.with_column(2, risen);
            crate::laws::steps::lemma_scan_order(steps, 7, 11, later, answers, used + 4, 2);
            crate::laws::steps::lemma_sort_column(steps, 8, 11, later, answers, used + 4);
            let last = later.with_column(3, sorted);
            crate::laws::steps::lemma_not_alike(last, 2, 3);
            crate::laws::steps::lemma_check(
                steps,
                9,
                11,
                last,
                answers,
                used + 4,
                risen != sorted,
            );
            crate::laws::steps::lemma_command(steps, 10, 11, last, answers, used + 4);
            crate::laws::steps::lemma_end(steps, 11, last, answers, used + 5);
        }
    }
}

/// The column of pattern `k` that the test uploads: zeros, ones, the greatest words, rising ones,
/// falling ones, alternating ones, and scattered ones.
pub open spec fn pattern(k: int) -> Seq<u64> {
    if k == 0 {
        crate::laws::words::constant(0, 10000)
    } else if k == 1 {
        crate::laws::words::constant(1, 10000)
    } else if k == 2 {
        crate::laws::words::constant(0xffff_ffff, 10000)
    } else if k == 3 {
        crate::laws::words::below(10000)
    } else if k == 4 {
        crate::laws::words::falling(10000)
    } else if k == 5 {
        Seq::new(
            10000,
            |i: int| if i % 2 == 0 {
                0u64
            } else {
                0xffff_ffff
            },
        )
    } else {
        Seq::new(10000, |i: int| ((i * 1103515245 + 12345) % 0x1_0000_0000) as u64)
    }
}

/// The words of the patterns that are the same at every place, or count up or down.
proof fn lemma_plain_patterns()
    ensures
        gives(num(0), pattern(0)),
        gives(num(1), pattern(1)),
        gives(num(4294967295), pattern(2)),
        gives(ix(), pattern(3)),
        gives(minus(minus(num(10000), num(1)), ix()), pattern(4)),
{
    reveal_with_fuel(crate::expr::value_of, 4);
}

/// The words of the pattern that alternates.
#[verifier::spinoff_prover]
#[verifier::rlimit(50)]
proof fn lemma_alternating_pattern()
    ensures
        gives(pick(same_as(modulo(ix(), num(2)), num(0)), num(0), num(4294967295)), pattern(5)),
{
    reveal_with_fuel(crate::expr::value_of, 5);
}

/// The words of the pattern that is scattered.
#[verifier::spinoff_prover]
#[verifier::rlimit(50)]
proof fn lemma_scattered_pattern()
    ensures
        gives(
            modulo(plus(times(ix(), num(1103515245)), num(12345)), num(4294967296)),
            pattern(6),
        ),
{
    reveal_with_fuel(crate::expr::value_of, 5);
}

/// The wide words that the test uploads last.
pub open spec fn wide_words() -> Seq<u64> {
    Seq::new(5000, |i: int| (i * 1000000000) as u64)
}

/// Whether the device takes the wide words in and hands them out again, as far as it hands out any.
pub open spec fn wide_comes_back(answers: Seq<Answer>, used: int) -> bool {
    &&& !(answers[used] is Failed)
    &&& answers[used + 1] is Words
    &&& crate::laws::steps::agree(wide_words(), answers[used + 1]->Words_0)
    &&& !(answers[used + 2] is Failed)
}

/// The steps for the wide words.
proof fn lemma_wide(contents: Contents, answers: Seq<Answer>, used: int)
    requires
        contents.full(),
        0 <= used,
        used + 3 <= answers.len(),
        crate::laws::steps::column_or_refusal(answers[used + 1]),
    ensures
        wide_comes_back(answers, used) ==> crate::walk::goes_through(
            crate::categories::c18_host_device::upload_download_integrity_wide_steps(),
            contents,
            answers,
            used,
            3,
        ),
        !wide_comes_back(answers, used) ==> crate::walk::walked(
            crate::categories::c18_host_device::upload_download_integrity_wide_steps(),
            0,
            5,
            contents,
            answers,
            used,
        ) is None,
{
    let steps = crate::categories::c18_host_device::upload_download_integrity_wide_steps();
    assert forall|i: int| 0 <= i < wide_words().len() implies #[trigger] crate::expr::value_of(
        times(ix(), num(1000000000)),
        contents,
        i as u64,
    ) == Some(wide_words()[i]) by {
        reveal_with_fuel(crate::expr::value_of, 2);
    }
    crate::laws::steps::lemma_fill(steps, 0, 5, contents, answers, used, wide_words());
    let filled = contents.with_column(0, wide_words());
    crate::laws::steps::lemma_command(steps, 1, 5, filled, answers, used);
    crate::laws::steps::lemma_download(steps, 2, 5, filled, answers, used + 1);
    if answers[used + 1] is Words {
        let after = filled.with_column(1, answers[used + 1]->Words_0);
        crate::laws::steps::lemma_scan_differences(steps, 3, 5, after, answers, used + 2, 0, 1);
        crate::laws::steps::lemma_command(steps, 4, 5, after, answers, used + 2);
        crate::laws::steps::lemma_end(steps, 5, after, answers, used + 3);
    }
}

/// The test has no jumps.
proof fn lemma_transfers_are_straight()
    ensures
        forall|j: int|
            0 <= j
                < crate::categories::c18_host_device::upload_download_integrity_steps().len()
                ==> crate::walk::straight(
                #[trigger] crate::categories::c18_host_device::upload_download_integrity_steps()[j],
            ),
{
    let value0 = num(0);
    let part0 = crate::categories::c18_host_device::transferred_pattern_steps("zeros", value0);
    let value1 = num(1);
    let part1 = crate::categories::c18_host_device::transferred_pattern_steps("ones", value1);
    let value2 = num(4294967295);
    let part2 = crate::categories::c18_host_device::transferred_pattern_steps("max_values", value2);
    let value3 = ix();
    let part3 = crate::categories::c18_host_device::transferred_pattern_steps("sequential", value3);
    let value4 = minus(minus(num(10000), num(1)), ix());
    let part4 = crate::categories::c18_host_device::transferred_pattern_steps("reverse", value4);
    let value5 = pick(same_as(modulo(ix(), num(2)), num(0)), num(0), num(4294967295));
    let part5 = crate::categories::c18_host_device::transferred_pattern_steps(
        "alternating",
        value5,
    );
    let value6 = modulo(plus(times(ix(), num(1103515245)), num(12345)), num(4294967296));
    let part6 = crate::categories::c18_host_device::transferred_pattern_steps("random_lcg", value6);
    let part7 = crate::categories::c18_host_device::upload_download_integrity_wide_steps();
    let whole0 = part0;
    let whole1 = whole0 + part1;
    let whole2 = whole1 + part2;
    let whole3 = whole2 + part3;
    let whole4 = whole3 + part4;
    let whole5 = whole4 + part5;
    let whole6 = whole5 + part6;
    let whole7 = whole6 + part7;
    crate::walk::law_straight_scripts_make_a_straight_one(whole0, part1);
    crate::walk::law_straight_scripts_make_a_straight_one(whole1, part2);
    crate::walk::law_straight_scripts_make_a_straight_one(whole2, part3);
    crate::walk::law_straight_scripts_make_a_straight_one(whole3, part4);
    crate::walk::law_straight_scripts_make_a_straight_one(whole4, part5);
    crate::walk::law_straight_scripts_make_a_straight_one(whole5, part6);
    crate::walk::law_straight_scripts_make_a_straight_one(whole6, part7);
    assert(crate::categories::c18_host_device::upload_download_integrity_steps() == whole7);
}

/// Whether the answers to the downloads of the test are columns or refusals.
pub open spec fn transfers_shaped(answers: Seq<Answer>) -> bool {
    &&& answers.len() >= 38
    &&& forall|k: int|
        0 <= k < 8 ==> crate::laws::steps::column_or_refusal(#[trigger] answers[5 * k + 1])
    &&& forall|k: int|
        0 <= k < 7 ==> crate::laws::steps::column_or_refusal(#[trigger] answers[5 * k + 3])
}

/// The answers to the downloads of one pattern.
proof fn lemma_transfer_shape(answers: Seq<Answer>, k: int)
    requires
        transfers_shaped(answers),
        0 <= k < 8,
    ensures
        crate::laws::steps::column_or_refusal(answers[5 * k + 1]),
        k < 7 ==> crate::laws::steps::column_or_refusal(answers[5 * k + 3]),
{
}

/// The test that uploads columns and downloads them again passes exactly when every pattern comes
/// back as it was and sorted, and the wide words come back.
#[verifier::spinoff_prover]
#[verifier::rlimit(60)]
pub proof fn law_transfers_pass_exactly_when_every_column_comes_back(answers: Seq<Answer>)
    requires
        transfers_shaped(answers),
    ensures
        crate::machine::run_of(
            crate::script::plan(
                "test_upload_download_integrity",
                crate::categories::c18_host_device::upload_download_integrity_steps(),
            ),
            answers,
        ).progress == Progress::Over(Ending::Passed) <==> {
            &&& forall|k: int| 0 <= k < 7 ==> #[trigger] comes_back(pattern(k), answers, 5 * k)
            &&& wide_comes_back(answers, 35)
        },
{
    let plan = crate::script::plan(
        "test_upload_download_integrity",
        crate::categories::c18_host_device::upload_download_integrity_steps(),
    );
    let blank = Contents::blank(plan.texts);
    let value0 = num(0);
    let part0 = crate::categories::c18_host_device::transferred_pattern_steps("zeros", value0);
    let value1 = num(1);
    let part1 = crate::categories::c18_host_device::transferred_pattern_steps("ones", value1);
    let value2 = num(4294967295);
    let part2 = crate::categories::c18_host_device::transferred_pattern_steps("max_values", value2);
    let value3 = ix();
    let part3 = crate::categories::c18_host_device::transferred_pattern_steps("sequential", value3);
    let value4 = minus(minus(num(10000), num(1)), ix());
    let part4 = crate::categories::c18_host_device::transferred_pattern_steps("reverse", value4);
    let value5 = pick(same_as(modulo(ix(), num(2)), num(0)), num(0), num(4294967295));
    let part5 = crate::categories::c18_host_device::transferred_pattern_steps(
        "alternating",
        value5,
    );
    let value6 = modulo(plus(times(ix(), num(1103515245)), num(12345)), num(4294967296));
    let part6 = crate::categories::c18_host_device::transferred_pattern_steps("random_lcg", value6);
    let part7 = crate::categories::c18_host_device::upload_download_integrity_wide_steps();
    let whole0 = part0;
    let whole1 = whole0 + part1;
    let whole2 = whole1 + part2;
    let whole3 = whole2 + part3;
    let whole4 = whole3 + part4;
    let whole5 = whole4 + part5;
    let whole6 = whole5 + part6;
    let whole7 = whole6 + part7;
    assert(plan.steps == whole7);
    lemma_plain_patterns();
    lemma_alternating_pattern();
    lemma_scattered_pattern();
    lemma_transfer_shape(answers, 0);
    lemma_transfer_shape(answers, 1);
    lemma_transfer_shape(answers, 2);
    lemma_transfer_shape(answers, 3);
    lemma_transfer_shape(answers, 4);
    lemma_transfer_shape(answers, 5);
    lemma_transfer_shape(answers, 6);
    lemma_transfer_shape(answers, 7);
    law_transfer_goes_through_exactly_when_the_column_comes_back(
        "zeros",
        value0,
        pattern(0),
        blank,
        answers,
        0,
    );
    crate::walk::law_walks_over_two_scripts_compose(whole0, part1, blank, answers, 0);
    crate::walk::law_walks_over_two_scripts_compose(whole1, part2, blank, answers, 0);
    crate::walk::law_walks_over_two_scripts_compose(whole2, part3, blank, answers, 0);
    crate::walk::law_walks_over_two_scripts_compose(whole3, part4, blank, answers, 0);
    crate::walk::law_walks_over_two_scripts_compose(whole4, part5, blank, answers, 0);
    crate::walk::law_walks_over_two_scripts_compose(whole5, part6, blank, answers, 0);
    crate::walk::law_walks_over_two_scripts_compose(whole6, part7, blank, answers, 0);
    match crate::walk::walked(whole0, 0, whole0.len() as int, blank, answers, 0) {
        Some((after, _)) => {
            law_transfer_goes_through_exactly_when_the_column_comes_back(
                "ones",
                value1,
                pattern(1),
                after,
                answers,
                5,
            );
            match crate::walk::walked(whole1, 0, whole1.len() as int, blank, answers, 0) {
                Some((after, _)) => {
                    law_transfer_goes_through_exactly_when_the_column_comes_back(
                        "max_values",
                        value2,
                        pattern(2),
                        after,
                        answers,
                        10,
                    );
                    match crate::walk::walked(whole2, 0, whole2.len() as int, blank, answers, 0) {
                        Some((after, _)) => {
                            law_transfer_goes_through_exactly_when_the_column_comes_back(
                                "sequential",
                                value3,
                                pattern(3),
                                after,
                                answers,
                                15,
                            );
                            match crate::walk::walked(
                                whole3,
                                0,
                                whole3.len() as int,
                                blank,
                                answers,
                                0,
                            ) {
                                Some((after, _)) => {
                                    law_transfer_goes_through_exactly_when_the_column_comes_back(
                                        "reverse",
                                        value4,
                                        pattern(4),
                                        after,
                                        answers,
                                        20,
                                    );
                                    match crate::walk::walked(
                                        whole4,
                                        0,
                                        whole4.len() as int,
                                        blank,
                                        answers,
                                        0,
                                    ) {
                                        Some((after, _)) => {
                                            law_transfer_goes_through_exactly_when_the_column_comes_back(
                                                "alternating",
                                                value5,
                                                pattern(5),
                                                after,
                                                answers,
                                                25,
                                            );
                                            match crate::walk::walked(
                                                whole5,
                                                0,
                                                whole5.len() as int,
                                                blank,
                                                answers,
                                                0,
                                            ) {
                                                Some((after, _)) => {
                                                    law_transfer_goes_through_exactly_when_the_column_comes_back(
                                                        "random_lcg",
                                                        value6,
                                                        pattern(6),
                                                        after,
                                                        answers,
                                                        30,
                                                    );
                                                    match crate::walk::walked(
                                                        whole6,
                                                        0,
                                                        whole6.len() as int,
                                                        blank,
                                                        answers,
                                                        0,
                                                    ) {
                                                        Some((after, _)) => {
                                                            lemma_wide(after, answers, 35);
                                                        },
                                                        None => {},
                                                    }
                                                },
                                                None => {},
                                            }
                                        },
                                        None => {},
                                    }
                                },
                                None => {},
                            }
                        },
                        None => {},
                    }
                },
                None => {},
            }
        },
        None => {},
    }
    lemma_transfers_are_straight();
    crate::walk::law_passes_exactly_when_every_step_goes_through(plan, answers);
}

} // verus!
