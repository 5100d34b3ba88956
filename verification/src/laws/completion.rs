//! The law of the test of batches that are waited for.

use vstd::prelude::*;
use crate::categories::c19_multi_stream::{FILTER_COUNTS, SORT_COUNTS};
use crate::expr::{ix, modulo, num, plus, reg, same_as, times};
use crate::machine::{Answer, Ending, Progress};
use crate::memory::Contents;
use crate::scalar::Scalar;
use crate::script::Step;

verus! {

/// The keys of operation `k` of the batch.
pub open spec fn batch(k: int) -> Seq<u64> {
    Seq::new(50000, |i: int| ((i * (k + 1) * 31337) % 1000000) as u64)
}

/// One of the words of [`batch`].
proof fn lemma_batch_at(k: int, contents: Contents, i: u64)
    requires
        0 <= k < 20,
        i < 50000,
    ensures
        crate::expr::value_of(
            modulo(times(times(ix(), plus(num(k as u64), num(1))), num(31337)), num(1000000)),
            contents,
            i,
        ) == Some(batch(k)[i as int]),
{
    assert(0 <= i * (k + 1) <= 50000 * 20) by (nonlinear_arith)
        requires
            0 <= k < 20,
            0 <= i < 50000,
    ;
    let factor = plus(num(k as u64), num(1));
    assert(crate::expr::value_of(num(k as u64), contents, i) == Some(k as u64));
    assert(crate::expr::value_of(num(1), contents, i) == Some(1u64));
    assert(crate::expr::value_of(factor, contents, i) == Some((k + 1) as u64));
    assert(crate::expr::value_of(ix(), contents, i) == Some(i));
    let product = times(ix(), factor);
    assert(crate::expr::value_of(product, contents, i) == Some((i * (k + 1)) as u64));
    assert(crate::expr::value_of(num(31337), contents, i) == Some(31337u64));
    assert(crate::expr::value_of(times(product, num(31337)), contents, i) == Some(
        (i * (k + 1) * 31337) as u64,
    ));
    assert(crate::expr::value_of(num(1000000), contents, i) == Some(1000000u64));
}

/// The words of [`batch`].
proof fn lemma_batch(k: int, contents: Contents)
    requires
        0 <= k < 20,
    ensures
        forall|i: int|
            0 <= i < 50000 ==> #[trigger] crate::expr::value_of(
                modulo(times(times(ix(), plus(num(k as u64), num(1))), num(31337)), num(1000000)),
                contents,
                i as u64,
            ) == Some(batch(k)[i]),
{
    assert forall|i: int| 0 <= i < 50000 implies #[trigger] crate::expr::value_of(
        modulo(times(times(ix(), plus(num(k as u64), num(1))), num(31337)), num(1000000)),
        contents,
        i as u64,
    ) == Some(batch(k)[i]) by {
        lemma_batch_at(k, contents, i as u64);
    }
}

/// The keys of round `k` of the mixed operations.
pub open spec fn mixed_keys(k: u64) -> Seq<u64> {
    Seq::new(50000, |i: int| (i * k % 50000) as u64)
}

/// The words of [`mixed_keys`].
proof fn lemma_mixed_keys(k: u64, contents: Contents)
    requires
        k < 5,
    ensures
        forall|i: int|
            0 <= i < 50000 ==> #[trigger] crate::expr::value_of(
                modulo(times(ix(), num(k)), num(50000)),
                contents,
                i as u64,
            ) == Some(mixed_keys(k)[i]),
{
    assert forall|i: int| 0 <= i < 50000 implies #[trigger] crate::expr::value_of(
        modulo(times(ix(), num(k)), num(50000)),
        contents,
        i as u64,
    ) == Some(mixed_keys(k)[i]) by {
        assert(0 <= i * k <= 50000 * 5) by (nonlinear_arith)
            requires
                0 <= i < 50000,
                0 <= k < 5,
        ;
        assert(crate::expr::value_of(ix(), contents, i as u64) == Some(i as u64));
        assert(crate::expr::value_of(num(k), contents, i as u64) == Some(k));
        assert(crate::expr::value_of(times(ix(), num(k)), contents, i as u64) == Some(
            (i * k) as u64,
        ));
        assert(crate::expr::value_of(num(50000), contents, i as u64) == Some(50000u64));
    }
}

/// The words of the mask of round `k` of the mixed operations.
proof fn lemma_mixed_mask(k: u64, contents: Contents)
    requires
        k < 5,
    ensures
        forall|i: int|
            0 <= i < 50000 ==> #[trigger] crate::expr::value_of(
                same_as(modulo(ix(), plus(num(k), num(2))), num(0)),
                contents,
                i as u64,
            ) == Some(crate::laws::masks::every((k + 2) as u64, 50000)[i]),
{
    assert forall|i: int| 0 <= i < 50000 implies #[trigger] crate::expr::value_of(
        same_as(modulo(ix(), plus(num(k), num(2))), num(0)),
        contents,
        i as u64,
    ) == Some(crate::laws::masks::every((k + 2) as u64, 50000)[i]) by {
        assert(crate::expr::value_of(ix(), contents, i as u64) == Some(i as u64));
        assert(crate::expr::value_of(num(k), contents, i as u64) == Some(k));
        assert(crate::expr::value_of(num(2), contents, i as u64) == Some(2u64));
        assert(crate::expr::value_of(num(0), contents, i as u64) == Some(0u64));
        assert(crate::expr::value_of(plus(num(k), num(2)), contents, i as u64) == Some(
            (k + 2) as u64,
        ));
        assert(crate::expr::value_of(modulo(ix(), plus(num(k), num(2))), contents, i as u64)
            == Some((i % (k + 2)) as u64));
    }
}

/// Five rounds, one after the other.
proof fn lemma_five_rounds(round: spec_fn(int) -> Seq<Step>)
    ensures
        crate::script::rounds(5, round) == round(0) + round(1) + round(2) + round(3) + round(4),
{
    reveal_with_fuel(crate::script::rounds, 6);
    assert(crate::script::rounds(1, round) =~= round(0));
}

/// Whether the answers to the downloads of the test are columns or refusals.
pub open spec fn completion_shaped(answers: Seq<Answer>) -> bool {
    &&& answers.len() >= 114
    &&& forall|k: int|
        0 <= k < 20 ==> crate::laws::steps::column_or_refusal(#[trigger] answers[61 + 1 * k])
    &&& answers[84] is Count
    &&& answers[86] is Count
    &&& answers[90] is Count
    &&& answers[92] is Count
    &&& answers[96] is Count
    &&& answers[98] is Count
    &&& answers[102] is Count
    &&& answers[104] is Count
    &&& answers[108] is Count
    &&& answers[110] is Count
}

/// What the device has to answer in round `k` of the part `operations`, from answer `used` on.
pub open spec fn completion_operations(k: int, answers: Seq<Answer>, used: int) -> bool {
    &&& !(answers[used] is Failed)
    &&& !(answers[used + 1] is Failed)
}

/// What the device has to answer in the part `completion`.
pub open spec fn completion_completion(answers: Seq<Answer>) -> bool {
    !(answers[60] is Failed)
}

/// What the device has to answer in round `k` of the part `results`, from answer `used` on.
pub open spec fn completion_results(k: int, answers: Seq<Answer>, used: int) -> bool {
    &&& answers[used] is Words
    &&& crate::laws::steps::rises(answers[used]->Words_0)
    &&& answers[used]->Words_0 == crate::columns::sorted(Scalar::U32, batch(k))
}

/// What the device has to answer in the part `base`.
pub open spec fn completion_base(answers: Seq<Answer>) -> bool {
    !(answers[81] is Failed)
}

/// What the device has to answer in the part `first_mix`.
pub open spec fn completion_first_mix(answers: Seq<Answer>) -> bool {
    &&& !(answers[82] is Failed)
    &&& !(answers[83] is Failed)
    &&& !(answers[85] is Failed)
}

/// What the device has to answer in the part `second_mix`.
pub open spec fn completion_second_mix(answers: Seq<Answer>) -> bool {
    &&& !(answers[88] is Failed)
    &&& !(answers[89] is Failed)
    &&& !(answers[91] is Failed)
}

/// What the device has to answer in the part `third_mix`.
pub open spec fn completion_third_mix(answers: Seq<Answer>) -> bool {
    &&& !(answers[94] is Failed)
    &&& !(answers[95] is Failed)
    &&& !(answers[97] is Failed)
}

/// What the device has to answer in the part `fourth_mix`.
pub open spec fn completion_fourth_mix(answers: Seq<Answer>) -> bool {
    &&& !(answers[100] is Failed)
    &&& !(answers[101] is Failed)
    &&& !(answers[103] is Failed)
}

/// What the device has to answer in the part `fifth_mix`.
pub open spec fn completion_fifth_mix(answers: Seq<Answer>) -> bool {
    &&& !(answers[106] is Failed)
    &&& !(answers[107] is Failed)
    &&& !(answers[109] is Failed)
}

/// What the device has to answer in the part `mixed_completion`.
pub open spec fn completion_mixed_completion(answers: Seq<Answer>) -> bool {
    !(answers[112] is Failed)
}

/// What the device has to answer in the part `first_counts`.
pub open spec fn completion_first_counts(answers: Seq<Answer>) -> bool {
    &&& answers[84]->Count_0 == 50000
    &&& answers[86]->Count_0 == crate::columns::total(crate::laws::masks::every(2, 50000))
}

/// What the device has to answer in the part `second_counts`.
pub open spec fn completion_second_counts(answers: Seq<Answer>) -> bool {
    &&& answers[90]->Count_0 == 50000
    &&& answers[92]->Count_0 == crate::columns::total(crate::laws::masks::every(3, 50000))
}

/// What the device has to answer in the part `third_counts`.
pub open spec fn completion_third_counts(answers: Seq<Answer>) -> bool {
    &&& answers[96]->Count_0 == 50000
    &&& answers[98]->Count_0 == crate::columns::total(crate::laws::masks::every(4, 50000))
}

/// What the device has to answer in the part `fourth_counts`.
pub open spec fn completion_fourth_counts(answers: Seq<Answer>) -> bool {
    &&& answers[102]->Count_0 == 50000
    &&& answers[104]->Count_0 == crate::columns::total(crate::laws::masks::every(5, 50000))
}

/// What the device has to answer in the part `fifth_counts`.
pub open spec fn completion_fifth_counts(answers: Seq<Answer>) -> bool {
    &&& answers[108]->Count_0 == 50000
    &&& answers[110]->Count_0 == crate::columns::total(crate::laws::masks::every(6, 50000))
}

/// What the device has to answer in the part `end`.
pub open spec fn completion_end(answers: Seq<Answer>) -> bool {
    !(answers[113] is Failed)
}

/// One round of the part `operations`.
proof fn lemma_completion_operations(k: int, contents: Contents, answers: Seq<Answer>, used: int)
    requires
        0 <= k < 20,
        used == 3 * k,
        contents.full(),
        completion_shaped(answers),
    ensures
        match crate::walk::walked(
            crate::categories::c19_multi_stream::batch_completion_operations_round(k as u64),
            0,
            4,
            contents,
            answers,
            used,
        ) {
            Some((after, next)) => {
                &&& completion_operations(k, answers, used)
                &&& after.full()
                &&& next == 3 * (k + 1)
            },
            None => !completion_operations(k, answers, used),
        },
        crate::categories::c19_multi_stream::batch_completion_operations_round(k as u64).len() == 4,
{
    let steps = crate::categories::c19_multi_stream::batch_completion_operations_round(k as u64);
    lemma_batch(k, contents);
    let words1 = batch(k);
    crate::laws::steps::lemma_fill(steps, 0, 4, contents, answers, used, words1);
    let next1 = contents.with_column(0, words1);
    crate::laws::steps::lemma_command(steps, 1, 4, next1, answers, used);
    crate::laws::steps::lemma_command(steps, 2, 4, next1, answers, used + 1);
    crate::laws::steps::lemma_command(steps, 3, 4, next1, answers, used + 2);
    crate::laws::steps::lemma_end(steps, 4, next1, answers, used + 3);
}

/// All rounds of the part `operations`.
proof fn lemma_completion_operations_rounds(contents: Contents, answers: Seq<Answer>)
    requires
        contents.full(),
        completion_shaped(answers),
    ensures
        ({
            let steps = crate::script::rounds(
                20,
                |k: int| crate::categories::c19_multi_stream::batch_completion_operations_round(
                    k as u64,
                ),
            );
            match crate::walk::walked(steps, 0, steps.len() as int, contents, answers, 0) {
                Some((after, next)) => {
                    &&& forall|k: int|
                        0 <= k < 20 ==> #[trigger] completion_operations(k, answers, 3 * k)
                    &&& after.full()
                    &&& next == 60
                },
                None => !(forall|k: int|
                    0 <= k < 20 ==> #[trigger] completion_operations(k, answers, 3 * k)),
            }
        }),
{
    let round = |k: int| crate::categories::c19_multi_stream::batch_completion_operations_round(
        k as u64,
    );
    let start = |k: int| 3 * k;
    let good = |k: int| completion_operations(k, answers, start(k));
    let kept = |contents: Contents| contents.full();
    assert forall|k: int, contents: Contents|
        #![trigger good(k), kept(contents)]
        0 <= k < 20 && kept(contents) implies if good(k) {
        crate::walk::goes_to(round(k), contents, answers, start(k), start(k + 1), kept)
    } else {
        crate::walk::walked(round(k), 0, round(k).len() as int, contents, answers, start(k)) is None
    } by {
        lemma_completion_operations(k, contents, answers, start(k));
    }
    crate::walk::law_rounds_keep_what_each_keeps(20, round, start, good, kept, contents, answers);
    if forall|k: int| 0 <= k < 20 ==> #[trigger] good(k) {
        assert forall|k: int| 0 <= k < 20 implies #[trigger] completion_operations(
            k,
            answers,
            3 * k,
        ) by {
            assert(good(k));
        }
    } else {
        let k = choose|k: int| 0 <= k < 20 && !(#[trigger] good(k));
        assert(!completion_operations(k, answers, 3 * k));
    }
}

/// The part `completion`.
proof fn lemma_completion_completion(contents: Contents, answers: Seq<Answer>)
    requires
        contents.full(),
        completion_shaped(answers),
    ensures
        match crate::walk::walked(
            crate::categories::c19_multi_stream::batch_completion_completion_steps(),
            0,
            1,
            contents,
            answers,
            60,
        ) {
            Some((after, next)) => {
                &&& completion_completion(answers)
                &&& after.full()
                &&& next == 61
            },
            None => !completion_completion(answers),
        },
        crate::categories::c19_multi_stream::batch_completion_completion_steps().len() == 1,
{
    let steps = crate::categories::c19_multi_stream::batch_completion_completion_steps();
    crate::laws::steps::lemma_command(steps, 0, 1, contents, answers, 60);
    crate::laws::steps::lemma_end(steps, 1, contents, answers, 61);
}

/// One round of the part `results`.
proof fn lemma_completion_results(k: int, contents: Contents, answers: Seq<Answer>, used: int)
    requires
        0 <= k < 20,
        used == 61 + 1 * k,
        contents.full(),
        completion_shaped(answers),
    ensures
        match crate::walk::walked(
            crate::categories::c19_multi_stream::batch_completion_results_round(k as u64),
            0,
            5,
            contents,
            answers,
            used,
        ) {
            Some((after, next)) => {
                &&& completion_results(k, answers, used)
                &&& after.full()
                &&& next == 61 + 1 * (k + 1)
            },
            None => !completion_results(k, answers, used),
        },
        crate::categories::c19_multi_stream::batch_completion_results_round(k as u64).len() == 5,
{
    let steps = crate::categories::c19_multi_stream::batch_completion_results_round(k as u64);
    assert(crate::laws::steps::column_or_refusal(answers[61 + 1 * k]));
    crate::laws::steps::lemma_download(steps, 0, 5, contents, answers, used);
    if answers[used] is Words {
        let next1 = contents.with_column(1, answers[used]->Words_0);
        crate::laws::steps::lemma_scan_order(steps, 1, 5, next1, answers, used + 1, 1);
        lemma_batch(k, next1);
        let words2 = batch(k);
        crate::laws::steps::lemma_fill(steps, 2, 5, next1, answers, used + 1, words2);
        let next2 = next1.with_column(0, words2);
        crate::laws::steps::lemma_sort_column(steps, 3, 5, next2, answers, used + 1);
        let next3 = next2.with_column(2, crate::columns::sorted(Scalar::U32, batch(k)));
        crate::laws::steps::lemma_not_alike(next3, 1, 2);
        crate::laws::steps::lemma_check(
            steps,
            4,
            5,
            next3,
            answers,
            used + 1,
            !(answers[used]->Words_0 == crate::columns::sorted(Scalar::U32, batch(k))),
        );
        crate::laws::steps::lemma_end(steps, 5, next3, answers, used + 1);
    }
}

/// All rounds of the part `results`.
proof fn lemma_completion_results_rounds(contents: Contents, answers: Seq<Answer>)
    requires
        contents.full(),
        completion_shaped(answers),
    ensures
        ({
            let steps = crate::script::rounds(
                20,
                |k: int| crate::categories::c19_multi_stream::batch_completion_results_round(
                    k as u64,
                ),
            );
            match crate::walk::walked(steps, 0, steps.len() as int, contents, answers, 61) {
                Some((after, next)) => {
                    &&& forall|k: int|
                        0 <= k < 20 ==> #[trigger] completion_results(k, answers, 61 + 1 * k)
                    &&& after.full()
                    &&& next == 81
                },
                None => !(forall|k: int|
                    0 <= k < 20 ==> #[trigger] completion_results(k, answers, 61 + 1 * k)),
            }
        }),
{
    let round = |k: int| crate::categories::c19_multi_stream::batch_completion_results_round(
        k as u64,
    );
    let start = |k: int| 61 + 1 * k;
    let good = |k: int| completion_results(k, answers, start(k));
    let kept = |contents: Contents| contents.full();
    assert forall|k: int, contents: Contents|
        #![trigger good(k), kept(contents)]
        0 <= k < 20 && kept(contents) implies if good(k) {
        crate::walk::goes_to(round(k), contents, answers, start(k), start(k + 1), kept)
    } else {
        crate::walk::walked(round(k), 0, round(k).len() as int, contents, answers, start(k)) is None
    } by {
        lemma_completion_results(k, contents, answers, start(k));
    }
    crate::walk::law_rounds_keep_what_each_keeps(20, round, start, good, kept, contents, answers);
    if forall|k: int| 0 <= k < 20 ==> #[trigger] good(k) {
        assert forall|k: int| 0 <= k < 20 implies #[trigger] completion_results(
            k,
            answers,
            61 + 1 * k,
        ) by {
            assert(good(k));
        }
    } else {
        let k = choose|k: int| 0 <= k < 20 && !(#[trigger] good(k));
        assert(!completion_results(k, answers, 61 + 1 * k));
    }
}

/// The part `base`.
proof fn lemma_completion_base(contents: Contents, answers: Seq<Answer>)
    requires
        contents.full(),
        completion_shaped(answers),
    ensures
        match crate::walk::walked(
            crate::categories::c19_multi_stream::batch_completion_base_steps(),
            0,
            2,
            contents,
            answers,
            81,
        ) {
            Some((after, next)) => {
                &&& completion_base(answers)
                &&& after.full()
                &&& next == 82
            },
            None => !completion_base(answers),
        },
        crate::categories::c19_multi_stream::batch_completion_base_steps().len() == 2,
{
    let steps = crate::categories::c19_multi_stream::batch_completion_base_steps();
    crate::laws::words::lemma_below(50000, contents);
    let words1 = crate::laws::words::below(50000);
    crate::laws::steps::lemma_fill(steps, 0, 2, contents, answers, 81, words1);
    let next1 = contents.with_column(0, words1);
    crate::laws::steps::lemma_command(steps, 1, 2, next1, answers, 81);
    crate::laws::steps::lemma_end(steps, 2, next1, answers, 82);
}

/// The part `first_mix`.
proof fn lemma_completion_first_mix(contents: Contents, answers: Seq<Answer>)
    requires
        contents.full(),
        completion_shaped(answers),
    ensures
        match crate::walk::walked(
            crate::categories::c19_multi_stream::batch_completion_mixed_round(0),
            0,
            8,
            contents,
            answers,
            82,
        ) {
            Some((after, next)) => {
                &&& completion_first_mix(answers)
                &&& after.full()
                &&& next == 88
                &&& after.registers[0] == answers[84]->Count_0
                &&& after.registers[1] == answers[86]->Count_0
            },
            None => !completion_first_mix(answers),
        },
        crate::categories::c19_multi_stream::batch_completion_mixed_round(0).len() == 8,
{
    let steps = crate::categories::c19_multi_stream::batch_completion_mixed_round(0);
    lemma_mixed_keys(0, contents);
    let words1 = mixed_keys(0);
    crate::laws::steps::lemma_fill(steps, 0, 8, contents, answers, 82, words1);
    let next1 = contents.with_column(1, words1);
    crate::laws::steps::lemma_command(steps, 1, 8, next1, answers, 82);
    crate::laws::steps::lemma_command(steps, 2, 8, next1, answers, 83);
    assert(SORT_COUNTS@[0] == 0);
    crate::laws::steps::lemma_number(steps, 3, 8, next1, answers, 84, answers[84]->Count_0);
    let next2 = next1.with_register(0, answers[84]->Count_0);
    lemma_mixed_mask(0, next2);
    let words3 = crate::laws::masks::every(2, 50000);
    crate::laws::steps::lemma_fill(steps, 4, 8, next2, answers, 85, words3);
    let next3 = next2.with_column(2, words3);
    crate::laws::steps::lemma_command(steps, 5, 8, next3, answers, 85);
    assert(FILTER_COUNTS@[0] == 1);
    crate::laws::steps::lemma_number(steps, 6, 8, next3, answers, 86, answers[86]->Count_0);
    let next4 = next3.with_register(1, answers[86]->Count_0);
    crate::laws::steps::lemma_command(steps, 7, 8, next4, answers, 87);
    crate::laws::steps::lemma_end(steps, 8, next4, answers, 88);
}

/// The part `second_mix`.
proof fn lemma_completion_second_mix(contents: Contents, answers: Seq<Answer>)
    requires
        contents.full(),
        completion_shaped(answers),
        contents.registers[0] == answers[84]->Count_0,
        contents.registers[1] == answers[86]->Count_0,
    ensures
        match crate::walk::walked(
            crate::categories::c19_multi_stream::batch_completion_mixed_round(1),
            0,
            8,
            contents,
            answers,
            88,
        ) {
            Some((after, next)) => {
                &&& completion_second_mix(answers)
                &&& after.full()
                &&& next == 94
                &&& after.registers[0] == answers[84]->Count_0
                &&& after.registers[1] == answers[86]->Count_0
                &&& after.registers[2] == answers[90]->Count_0
                &&& after.registers[3] == answers[92]->Count_0
            },
            None => !completion_second_mix(answers),
        },
        crate::categories::c19_multi_stream::batch_completion_mixed_round(1).len() == 8,
{
    let steps = crate::categories::c19_multi_stream::batch_completion_mixed_round(1);
    lemma_mixed_keys(1, contents);
    let words1 = mixed_keys(1);
    crate::laws::steps::lemma_fill(steps, 0, 8, contents, answers, 88, words1);
    let next1 = contents.with_column(1, words1);
    crate::laws::steps::lemma_command(steps, 1, 8, next1, answers, 88);
    crate::laws::steps::lemma_command(steps, 2, 8, next1, answers, 89);
    assert(SORT_COUNTS@[1] == 2);
    crate::laws::steps::lemma_number(steps, 3, 8, next1, answers, 90, answers[90]->Count_0);
    let next2 = next1.with_register(2, answers[90]->Count_0);
    lemma_mixed_mask(1, next2);
    let words3 = crate::laws::masks::every(3, 50000);
    crate::laws::steps::lemma_fill(steps, 4, 8, next2, answers, 91, words3);
    let next3 = next2.with_column(2, words3);
    crate::laws::steps::lemma_command(steps, 5, 8, next3, answers, 91);
    assert(FILTER_COUNTS@[1] == 3);
    crate::laws::steps::lemma_number(steps, 6, 8, next3, answers, 92, answers[92]->Count_0);
    let next4 = next3.with_register(3, answers[92]->Count_0);
    crate::laws::steps::lemma_command(steps, 7, 8, next4, answers, 93);
    crate::laws::steps::lemma_end(steps, 8, next4, answers, 94);
}

/// The part `third_mix`.
proof fn lemma_completion_third_mix(contents: Contents, answers: Seq<Answer>)
    requires
        contents.full(),
        completion_shaped(answers),
        contents.registers[0] == answers[84]->Count_0,
        contents.registers[1] == answers[86]->Count_0,
        contents.registers[2] == answers[90]->Count_0,
        contents.registers[3] == answers[92]->Count_0,
    ensures
        match crate::walk::walked(
            crate::categories::c19_multi_stream::batch_completion_mixed_round(2),
            0,
            8,
            contents,
            answers,
            94,
        ) {
            Some((after, next)) => {
                &&& completion_third_mix(answers)
                &&& after.full()
                &&& next == 100
                &&& after.registers[0] == answers[84]->Count_0
                &&& after.registers[1] == answers[86]->Count_0
                &&& after.registers[2] == answers[90]->Count_0
                &&& after.registers[3] == answers[92]->Count_0
                &&& after.registers[4] == answers[96]->Count_0
                &&& after.registers[5] == answers[98]->Count_0
            },
            None => !completion_third_mix(answers),
        },
        crate::categories::c19_multi_stream::batch_completion_mixed_round(2).len() == 8,
{
    let steps = crate::categories::c19_multi_stream::batch_completion_mixed_round(2);
    lemma_mixed_keys(2, contents);
    let words1 = mixed_keys(2);
    crate::laws::steps::lemma_fill(steps, 0, 8, contents, answers, 94, words1);
    let next1 = contents.with_column(1, words1);
    crate::laws::steps::lemma_command(steps, 1, 8, next1, answers, 94);
    crate::laws::steps::lemma_command(steps, 2, 8, next1, answers, 95);
    assert(SORT_COUNTS@[2] == 4);
    crate::laws::steps::lemma_number(steps, 3, 8, next1, answers, 96, answers[96]->Count_0);
    let next2 = next1.with_register(4, answers[96]->Count_0);
    lemma_mixed_mask(2, next2);
    let words3 = crate::laws::masks::every(4, 50000);
    crate::laws::steps::lemma_fill(steps, 4, 8, next2, answers, 97, words3);
    let next3 = next2.with_column(2, words3);
    crate::laws::steps::lemma_command(steps, 5, 8, next3, answers, 97);
    assert(FILTER_COUNTS@[2] == 5);
    crate::laws::steps::lemma_number(steps, 6, 8, next3, answers, 98, answers[98]->Count_0);
    let next4 = next3.with_register(5, answers[98]->Count_0);
    crate::laws::steps::lemma_command(steps, 7, 8, next4, answers, 99);
    crate::laws::steps::lemma_end(steps, 8, next4, answers, 100);
}

/// The part `fourth_mix`.
proof fn lemma_completion_fourth_mix(contents: Contents, answers: Seq<Answer>)
    requires
        contents.full(),
        completion_shaped(answers),
        contents.registers[0] == answers[84]->Count_0,
        contents.registers[1] == answers[86]->Count_0,
        contents.registers[2] == answers[90]->Count_0,
        contents.registers[3] == answers[92]->Count_0,
        contents.registers[4] == answers[96]->Count_0,
        contents.registers[5] == answers[98]->Count_0,
    ensures
        match crate::walk::walked(
            crate::categories::c19_multi_stream::batch_completion_mixed_round(3),
            0,
            8,
            contents,
            answers,
            100,
        ) {
            Some((after, next)) => {
                &&& completion_fourth_mix(answers)
                &&& after.full()
                &&& next == 106
                &&& after.registers[0] == answers[84]->Count_0
                &&& after.registers[1] == answers[86]->Count_0
                &&& after.registers[2] == answers[90]->Count_0
                &&& after.registers[3] == answers[92]->Count_0
                &&& after.registers[4] == answers[96]->Count_0
                &&& after.registers[5] == answers[98]->Count_0
                &&& after.registers[6] == answers[102]->Count_0
                &&& after.registers[7] == answers[104]->Count_0
            },
            None => !completion_fourth_mix(answers),
        },
        crate::categories::c19_multi_stream::batch_completion_mixed_round(3).len() == 8,
{
    let steps = crate::categories::c19_multi_stream::batch_completion_mixed_round(3);
    lemma_mixed_keys(3, contents);
    let words1 = mixed_keys(3);
    crate::laws::steps::lemma_fill(steps, 0, 8, contents, answers, 100, words1);
    let next1 = contents.with_column(1, words1);
    crate::laws::steps::lemma_command(steps, 1, 8, next1, answers, 100);
    crate::laws::steps::lemma_command(steps, 2, 8, next1, answers, 101);
    assert(SORT_COUNTS@[3] == 6);
    crate::laws::steps::lemma_number(steps, 3, 8, next1, answers, 102, answers[102]->Count_0);
    let next2 = next1.with_register(6, answers[102]->Count_0);
    lemma_mixed_mask(3, next2);
    let words3 = crate::laws::masks::every(5, 50000);
    crate::laws::steps::lemma_fill(steps, 4, 8, next2, answers, 103, words3);
    let next3 = next2.with_column(2, words3);
    crate::laws::steps::lemma_command(steps, 5, 8, next3, answers, 103);
    assert(FILTER_COUNTS@[3] == 7);
    crate::laws::steps::lemma_number(steps, 6, 8, next3, answers, 104, answers[104]->Count_0);
    let next4 = next3.with_register(7, answers[104]->Count_0);
    crate::laws::steps::lemma_command(steps, 7, 8, next4, answers, 105);
    crate::laws::steps::lemma_end(steps, 8, next4, answers, 106);
}

/// The part `fifth_mix`.
proof fn lemma_completion_fifth_mix(contents: Contents, answers: Seq<Answer>)
    requires
        contents.full(),
        completion_shaped(answers),
        contents.registers[0] == answers[84]->Count_0,
        contents.registers[1] == answers[86]->Count_0,
        contents.registers[2] == answers[90]->Count_0,
        contents.registers[3] == answers[92]->Count_0,
        contents.registers[4] == answers[96]->Count_0,
        contents.registers[5] == answers[98]->Count_0,
        contents.registers[6] == answers[102]->Count_0,
        contents.registers[7] == answers[104]->Count_0,
    ensures
        match crate::walk::walked(
            crate::categories::c19_multi_stream::batch_completion_mixed_round(4),
            0,
            8,
            contents,
            answers,
            106,
        ) {
            Some((after, next)) => {
                &&& completion_fifth_mix(answers)
                &&& after.full()
                &&& next == 112
                &&& after.registers[0] == answers[84]->Count_0
                &&& after.registers[1] == answers[86]->Count_0
                &&& after.registers[2] == answers[90]->Count_0
                &&& after.registers[3] == answers[92]->Count_0
                &&& after.registers[4] == answers[96]->Count_0
                &&& after.registers[5] == answers[98]->Count_0
                &&& after.registers[6] == answers[102]->Count_0
                &&& after.registers[7] == answers[104]->Count_0
                &&& after.registers[8] == answers[108]->Count_0
                &&& after.registers[9] == answers[110]->Count_0
            },
            None => !completion_fifth_mix(answers),
        },
        crate::categories::c19_multi_stream::batch_completion_mixed_round(4).len() == 8,
{
    let steps = crate::categories::c19_multi_stream::batch_completion_mixed_round(4);
    lemma_mixed_keys(4, contents);
    let words1 = mixed_keys(4);
    crate::laws::steps::lemma_fill(steps, 0, 8, contents, answers, 106, words1);
    let next1 = contents.with_column(1, words1);
    crate::laws::steps::lemma_command(steps, 1, 8, next1, answers, 106);
    crate::laws::steps::lemma_command(steps, 2, 8, next1, answers, 107);
    assert(SORT_COUNTS@[4] == 8);
    crate::laws::steps::lemma_number(steps, 3, 8, next1, answers, 108, answers[108]->Count_0);
    let next2 = next1.with_register(8, answers[108]->Count_0);
    lemma_mixed_mask(4, next2);
    let words3 = crate::laws::masks::every(6, 50000);
    crate::laws::steps::lemma_fill(steps, 4, 8, next2, answers, 109, words3);
    let next3 = next2.with_column(2, words3);
    crate::laws::steps::lemma_command(steps, 5, 8, next3, answers, 109);
    assert(FILTER_COUNTS@[4] == 9);
    crate::laws::steps::lemma_number(steps, 6, 8, next3, answers, 110, answers[110]->Count_0);
    let next4 = next3.with_register(9, answers[110]->Count_0);
    crate::laws::steps::lemma_command(steps, 7, 8, next4, answers, 111);
    crate::laws::steps::lemma_end(steps, 8, next4, answers, 112);
}

/// The part `mixed_completion`.
proof fn lemma_completion_mixed_completion(contents: Contents, answers: Seq<Answer>)
    requires
        contents.full(),
        completion_shaped(answers),
        contents.registers[0] == answers[84]->Count_0,
        contents.registers[1] == answers[86]->Count_0,
        contents.registers[2] == answers[90]->Count_0,
        contents.registers[3] == answers[92]->Count_0,
        contents.registers[4] == answers[96]->Count_0,
        contents.registers[5] == answers[98]->Count_0,
        contents.registers[6] == answers[102]->Count_0,
        contents.registers[7] == answers[104]->Count_0,
        contents.registers[8] == answers[108]->Count_0,
        contents.registers[9] == answers[110]->Count_0,
    ensures
        match crate::walk::walked(
            crate::categories::c19_multi_stream::batch_completion_mixed_completion_steps(),
            0,
            1,
            contents,
            answers,
            112,
        ) {
            Some((after, next)) => {
                &&& completion_mixed_completion(answers)
                &&& after.full()
                &&& next == 113
                &&& after.registers[0] == answers[84]->Count_0
                &&& after.registers[1] == answers[86]->Count_0
                &&& after.registers[2] == answers[90]->Count_0
                &&& after.registers[3] == answers[92]->Count_0
                &&& after.registers[4] == answers[96]->Count_0
                &&& after.registers[5] == answers[98]->Count_0
                &&& after.registers[6] == answers[102]->Count_0
                &&& after.registers[7] == answers[104]->Count_0
                &&& after.registers[8] == answers[108]->Count_0
                &&& after.registers[9] == answers[110]->Count_0
            },
            None => !completion_mixed_completion(answers),
        },
        crate::categories::c19_multi_stream::batch_completion_mixed_completion_steps().len() == 1,
{
    let steps = crate::categories::c19_multi_stream::batch_completion_mixed_completion_steps();
    crate::laws::steps::lemma_command(steps, 0, 1, contents, answers, 112);
    crate::laws::steps::lemma_end(steps, 1, contents, answers, 113);
}

/// The part `first_counts`.
proof fn lemma_completion_first_counts(contents: Contents, answers: Seq<Answer>)
    requires
        contents.full(),
        completion_shaped(answers),
        contents.registers[0] == answers[84]->Count_0,
        contents.registers[1] == answers[86]->Count_0,
        contents.registers[2] == answers[90]->Count_0,
        contents.registers[3] == answers[92]->Count_0,
        contents.registers[4] == answers[96]->Count_0,
        contents.registers[5] == answers[98]->Count_0,
        contents.registers[6] == answers[102]->Count_0,
        contents.registers[7] == answers[104]->Count_0,
        contents.registers[8] == answers[108]->Count_0,
        contents.registers[9] == answers[110]->Count_0,
    ensures
        match crate::walk::walked(
            crate::categories::c19_multi_stream::batch_completion_counts_round(0),
            0,
            4,
            contents,
            answers,
            113,
        ) {
            Some((after, next)) => {
                &&& completion_first_counts(answers)
                &&& after.full()
                &&& next == 113
                &&& after.registers[0] == answers[84]->Count_0
                &&& after.registers[1] == answers[86]->Count_0
                &&& after.registers[2] == answers[90]->Count_0
                &&& after.registers[3] == answers[92]->Count_0
                &&& after.registers[4] == answers[96]->Count_0
                &&& after.registers[5] == answers[98]->Count_0
                &&& after.registers[6] == answers[102]->Count_0
                &&& after.registers[7] == answers[104]->Count_0
                &&& after.registers[8] == answers[108]->Count_0
                &&& after.registers[9] == answers[110]->Count_0
            },
            None => !completion_first_counts(answers),
        },
        crate::categories::c19_multi_stream::batch_completion_counts_round(0).len() == 4,
{
    let steps = crate::categories::c19_multi_stream::batch_completion_counts_round(0);
    assert(SORT_COUNTS@[0] == 0);
    assert(FILTER_COUNTS@[0] == 1);
    crate::laws::steps::lemma_register(contents, 0, num(50000), 50000);
    crate::laws::steps::lemma_check(
        steps,
        0,
        4,
        contents,
        answers,
        113,
        !(answers[84]->Count_0 == 50000),
    );
    lemma_mixed_mask(0, contents);
    let words1 = crate::laws::masks::every(2, 50000);
    crate::laws::steps::lemma_fill(steps, 1, 4, contents, answers, 113, words1);
    let next1 = contents.with_column(2, words1);
    crate::laws::lanes::lemma_mask_sum(next1, 2);
    crate::laws::steps::lemma_put(
        steps,
        2,
        4,
        next1,
        answers,
        113,
        crate::columns::total(crate::laws::masks::every(2, 50000)) as u64,
    );
    let next2 = next1.with_register(
        10,
        crate::columns::total(crate::laws::masks::every(2, 50000)) as u64,
    );
    crate::laws::lanes::lemma_mask_sum(next2, 2);
    assert(
        crate::expr::value_of(reg(10), next2, 0) == Some(
            crate::columns::total(crate::laws::masks::every(2, 50000)) as u64,
        )
    );
    crate::laws::steps::lemma_register(
        next2,
        1,
        reg(10),
        crate::columns::total(crate::laws::masks::every(2, 50000)) as u64,
    );
    crate::laws::steps::lemma_check(
        steps,
        3,
        4,
        next2,
        answers,
        113,
        !(answers[86]->Count_0 == crate::columns::total(crate::laws::masks::every(2, 50000))),
    );
    crate::laws::steps::lemma_end(steps, 4, next2, answers, 113);
}

/// The part `second_counts`.
proof fn lemma_completion_second_counts(contents: Contents, answers: Seq<Answer>)
    requires
        contents.full(),
        completion_shaped(answers),
        contents.registers[0] == answers[84]->Count_0,
        contents.registers[1] == answers[86]->Count_0,
        contents.registers[2] == answers[90]->Count_0,
        contents.registers[3] == answers[92]->Count_0,
        contents.registers[4] == answers[96]->Count_0,
        contents.registers[5] == answers[98]->Count_0,
        contents.registers[6] == answers[102]->Count_0,
        contents.registers[7] == answers[104]->Count_0,
        contents.registers[8] == answers[108]->Count_0,
        contents.registers[9] == answers[110]->Count_0,
    ensures
        match crate::walk::walked(
            crate::categories::c19_multi_stream::batch_completion_counts_round(1),
            0,
            4,
            contents,
            answers,
            113,
        ) {
            Some((after, next)) => {
                &&& completion_second_counts(answers)
                &&& after.full()
                &&& next == 113
                &&& after.registers[0] == answers[84]->Count_0
                &&& after.registers[1] == answers[86]->Count_0
                &&& after.registers[2] == answers[90]->Count_0
                &&& after.registers[3] == answers[92]->Count_0
                &&& after.registers[4] == answers[96]->Count_0
                &&& after.registers[5] == answers[98]->Count_0
                &&& after.registers[6] == answers[102]->Count_0
                &&& after.registers[7] == answers[104]->Count_0
                &&& after.registers[8] == answers[108]->Count_0
                &&& after.registers[9] == answers[110]->Count_0
            },
            None => !completion_second_counts(answers),
        },
        crate::categories::c19_multi_stream::batch_completion_counts_round(1).len() == 4,
{
    let steps = crate::categories::c19_multi_stream::batch_completion_counts_round(1);
    assert(SORT_COUNTS@[1] == 2);
    assert(FILTER_COUNTS@[1] == 3);
    crate::laws::steps::lemma_register(contents, 2, num(50000), 50000);
    crate::laws::steps::lemma_check(
        steps,
        0,
        4,
        contents,
        answers,
        113,
        !(answers[90]->Count_0 == 50000),
    );
    lemma_mixed_mask(1, contents);
    let words1 = crate::laws::masks::every(3, 50000);
    crate::laws::steps::lemma_fill(steps, 1, 4, contents, answers, 113, words1);
    let next1 = contents.with_column(2, words1);
    crate::laws::lanes::lemma_mask_sum(next1, 2);
    crate::laws::steps::lemma_put(
        steps,
        2,
        4,
        next1,
        answers,
        113,
        crate::columns::total(crate::laws::masks::every(3, 50000)) as u64,
    );
    let next2 = next1.with_register(
        10,
        crate::columns::total(crate::laws::masks::every(3, 50000)) as u64,
    );
    crate::laws::lanes::lemma_mask_sum(next2, 2);
    assert(
        crate::expr::value_of(reg(10), next2, 0) == Some(
            crate::columns::total(crate::laws::masks::every(3, 50000)) as u64,
        )
    );
    crate::laws::steps::lemma_register(
        next2,
        3,
        reg(10),
        crate::columns::total(crate::laws::masks::every(3, 50000)) as u64,
    );
    crate::laws::steps::lemma_check(
        steps,
        3,
        4,
        next2,
        answers,
        113,
        !(answers[92]->Count_0 == crate::columns::total(crate::laws::masks::every(3, 50000))),
    );
    crate::laws::steps::lemma_end(steps, 4, next2, answers, 113);
}

/// The part `third_counts`.
proof fn lemma_completion_third_counts(contents: Contents, answers: Seq<Answer>)
    requires
        contents.full(),
        completion_shaped(answers),
        contents.registers[0] == answers[84]->Count_0,
        contents.registers[1] == answers[86]->Count_0,
        contents.registers[2] == answers[90]->Count_0,
        contents.registers[3] == answers[92]->Count_0,
        contents.registers[4] == answers[96]->Count_0,
        contents.registers[5] == answers[98]->Count_0,
        contents.registers[6] == answers[102]->Count_0,
        contents.registers[7] == answers[104]->Count_0,
        contents.registers[8] == answers[108]->Count_0,
        contents.registers[9] == answers[110]->Count_0,
    ensures
        match crate::walk::walked(
            crate::categories::c19_multi_stream::batch_completion_counts_round(2),
            0,
            4,
            contents,
            answers,
            113,
        ) {
            Some((after, next)) => {
                &&& completion_third_counts(answers)
                &&& after.full()
                &&& next == 113
                &&& after.registers[0] == answers[84]->Count_0
                &&& after.registers[1] == answers[86]->Count_0
                &&& after.registers[2] == answers[90]->Count_0
                &&& after.registers[3] == answers[92]->Count_0
                &&& after.registers[4] == answers[96]->Count_0
                &&& after.registers[5] == answers[98]->Count_0
                &&& after.registers[6] == answers[102]->Count_0
                &&& after.registers[7] == answers[104]->Count_0
                &&& after.registers[8] == answers[108]->Count_0
                &&& after.registers[9] == answers[110]->Count_0
            },
            None => !completion_third_counts(answers),
        },
        crate::categories::c19_multi_stream::batch_completion_counts_round(2).len() == 4,
{
    let steps = crate::categories::c19_multi_stream::batch_completion_counts_round(2);
    assert(SORT_COUNTS@[2] == 4);
    assert(FILTER_COUNTS@[2] == 5);
    crate::laws::steps::lemma_register(contents, 4, num(50000), 50000);
    crate::laws::steps::lemma_check(
        steps,
        0,
        4,
        contents,
        answers,
        113,
        !(answers[96]->Count_0 == 50000),
    );
    lemma_mixed_mask(2, contents);
    let words1 = crate::laws::masks::every(4, 50000);
    crate::laws::steps::lemma_fill(steps, 1, 4, contents, answers, 113, words1);
    let next1 = contents.with_column(2, words1);
    crate::laws::lanes::lemma_mask_sum(next1, 2);
    crate::laws::steps::lemma_put(
        steps,
        2,
        4,
        next1,
        answers,
        113,
        crate::columns::total(crate::laws::masks::every(4, 50000)) as u64,
    );
    let next2 = next1.with_register(
        10,
        crate::columns::total(crate::laws::masks::every(4, 50000)) as u64,
    );
    crate::laws::lanes::lemma_mask_sum(next2, 2);
    assert(
        crate::expr::value_of(reg(10), next2, 0) == Some(
            crate::columns::total(crate::laws::masks::every(4, 50000)) as u64,
        )
    );
    crate::laws::steps::lemma_register(
        next2,
        5,
        reg(10),
        crate::columns::total(crate::laws::masks::every(4, 50000)) as u64,
    );
    crate::laws::steps::lemma_check(
        steps,
        3,
        4,
        next2,
        answers,
        113,
        !(answers[98]->Count_0 == crate::columns::total(crate::laws::masks::every(4, 50000))),
    );
    crate::laws::steps::lemma_end(steps, 4, next2, answers, 113);
}

/// The part `fourth_counts`.
proof fn lemma_completion_fourth_counts(contents: Contents, answers: Seq<Answer>)
    requires
        contents.full(),
        completion_shaped(answers),
        contents.registers[0] == answers[84]->Count_0,
        contents.registers[1] == answers[86]->Count_0,
        contents.registers[2] == answers[90]->Count_0,
        contents.registers[3] == answers[92]->Count_0,
        contents.registers[4] == answers[96]->Count_0,
        contents.registers[5] == answers[98]->Count_0,
        contents.registers[6] == answers[102]->Count_0,
        contents.registers[7] == answers[104]->Count_0,
        contents.registers[8] == answers[108]->Count_0,
        contents.registers[9] == answers[110]->Count_0,
    ensures
        match crate::walk::walked(
            crate::categories::c19_multi_stream::batch_completion_counts_round(3),
            0,
            4,
            contents,
            answers,
            113,
        ) {
            Some((after, next)) => {
                &&& completion_fourth_counts(answers)
                &&& after.full()
                &&& next == 113
                &&& after.registers[0] == answers[84]->Count_0
                &&& after.registers[1] == answers[86]->Count_0
                &&& after.registers[2] == answers[90]->Count_0
                &&& after.registers[3] == answers[92]->Count_0
                &&& after.registers[4] == answers[96]->Count_0
                &&& after.registers[5] == answers[98]->Count_0
                &&& after.registers[6] == answers[102]->Count_0
                &&& after.registers[7] == answers[104]->Count_0
                &&& after.registers[8] == answers[108]->Count_0
                &&& after.registers[9] == answers[110]->Count_0
            },
            None => !completion_fourth_counts(answers),
        },
        crate::categories::c19_multi_stream::batch_completion_counts_round(3).len() == 4,
{
    let steps = crate::categories::c19_multi_stream::batch_completion_counts_round(3);
    assert(SORT_COUNTS@[3] == 6);
    assert(FILTER_COUNTS@[3] == 7);
    crate::laws::steps::lemma_register(contents, 6, num(50000), 50000);
    crate::laws::steps::lemma_check(
        steps,
        0,
        4,
        contents,
        answers,
        113,
        !(answers[102]->Count_0 == 50000),
    );
    lemma_mixed_mask(3, contents);
    let words1 = crate::laws::masks::every(5, 50000);
    crate::laws::steps::lemma_fill(steps, 1, 4, contents, answers, 113, words1);
    let next1 = contents.with_column(2, words1);
    crate::laws::lanes::lemma_mask_sum(next1, 2);
    crate::laws::steps::lemma_put(
        steps,
        2,
        4,
        next1,
        answers,
        113,
        crate::columns::total(crate::laws::masks::every(5, 50000)) as u64,
    );
    let next2 = next1.with_register(
        10,
        crate::columns::total(crate::laws::masks::every(5, 50000)) as u64,
    );
    crate::laws::lanes::lemma_mask_sum(next2, 2);
    assert(
        crate::expr::value_of(reg(10), next2, 0) == Some(
            crate::columns::total(crate::laws::masks::every(5, 50000)) as u64,
        )
    );
    crate::laws::steps::lemma_register(
        next2,
        7,
        reg(10),
        crate::columns::total(crate::laws::masks::every(5, 50000)) as u64,
    );
    crate::laws::steps::lemma_check(
        steps,
        3,
        4,
        next2,
        answers,
        113,
        !(answers[104]->Count_0 == crate::columns::total(crate::laws::masks::every(5, 50000))),
    );
    crate::laws::steps::lemma_end(steps, 4, next2, answers, 113);
}

/// The part `fifth_counts`.
proof fn lemma_completion_fifth_counts(contents: Contents, answers: Seq<Answer>)
    requires
        contents.full(),
        completion_shaped(answers),
        contents.registers[0] == answers[84]->Count_0,
        contents.registers[1] == answers[86]->Count_0,
        contents.registers[2] == answers[90]->Count_0,
        contents.registers[3] == answers[92]->Count_0,
        contents.registers[4] == answers[96]->Count_0,
        contents.registers[5] == answers[98]->Count_0,
        contents.registers[6] == answers[102]->Count_0,
        contents.registers[7] == answers[104]->Count_0,
        contents.registers[8] == answers[108]->Count_0,
        contents.registers[9] == answers[110]->Count_0,
    ensures
        match crate::walk::walked(
            crate::categories::c19_multi_stream::batch_completion_counts_round(4),
            0,
            4,
            contents,
            answers,
            113,
        ) {
            Some((after, next)) => {
                &&& completion_fifth_counts(answers)
                &&& after.full()
                &&& next == 113
                &&& after.registers[0] == answers[84]->Count_0
                &&& after.registers[1] == answers[86]->Count_0
                &&& after.registers[2] == answers[90]->Count_0
                &&& after.registers[3] == answers[92]->Count_0
                &&& after.registers[4] == answers[96]->Count_0
                &&& after.registers[5] == answers[98]->Count_0
                &&& after.registers[6] == answers[102]->Count_0
                &&& after.registers[7] == answers[104]->Count_0
                &&& after.registers[8] == answers[108]->Count_0
                &&& after.registers[9] == answers[110]->Count_0
            },
            None => !completion_fifth_counts(answers),
        },
        crate::categories::c19_multi_stream::batch_completion_counts_round(4).len() == 4,
{
    let steps = crate::categories::c19_multi_stream::batch_completion_counts_round(4);
    assert(SORT_COUNTS@[4] == 8);
    assert(FILTER_COUNTS@[4] == 9);
    crate::laws::steps::lemma_register(contents, 8, num(50000), 50000);
    crate::laws::steps::lemma_check(
        steps,
        0,
        4,
        contents,
        answers,
        113,
        !(answers[108]->Count_0 == 50000),
    );
    lemma_mixed_mask(4, contents);
    let words1 = crate::laws::masks::every(6, 50000);
    crate::laws::steps::lemma_fill(steps, 1, 4, contents, answers, 113, words1);
    let next1 = contents.with_column(2, words1);
    crate::laws::lanes::lemma_mask_sum(next1, 2);
    crate::laws::steps::lemma_put(
        steps,
        2,
        4,
        next1,
        answers,
        113,
        crate::columns::total(crate::laws::masks::every(6, 50000)) as u64,
    );
    let next2 = next1.with_register(
        10,
        crate::columns::total(crate::laws::masks::every(6, 50000)) as u64,
    );
    crate::laws::lanes::lemma_mask_sum(next2, 2);
    assert(
        crate::expr::value_of(reg(10), next2, 0) == Some(
            crate::columns::total(crate::laws::masks::every(6, 50000)) as u64,
        )
    );
    crate::laws::steps::lemma_register(
        next2,
        9,
        reg(10),
        crate::columns::total(crate::laws::masks::every(6, 50000)) as u64,
    );
    crate::laws::steps::lemma_check(
        steps,
        3,
        4,
        next2,
        answers,
        113,
        !(answers[110]->Count_0 == crate::columns::total(crate::laws::masks::every(6, 50000))),
    );
    crate::laws::steps::lemma_end(steps, 4, next2, answers, 113);
}

/// The part `end`.
proof fn lemma_completion_end(contents: Contents, answers: Seq<Answer>)
    requires
        contents.full(),
        completion_shaped(answers),
        contents.registers[0] == answers[84]->Count_0,
        contents.registers[1] == answers[86]->Count_0,
        contents.registers[2] == answers[90]->Count_0,
        contents.registers[3] == answers[92]->Count_0,
        contents.registers[4] == answers[96]->Count_0,
        contents.registers[5] == answers[98]->Count_0,
        contents.registers[6] == answers[102]->Count_0,
        contents.registers[7] == answers[104]->Count_0,
        contents.registers[8] == answers[108]->Count_0,
        contents.registers[9] == answers[110]->Count_0,
    ensures
        match crate::walk::walked(
            crate::categories::c19_multi_stream::batch_completion_end_steps(),
            0,
            1,
            contents,
            answers,
            113,
        ) {
            Some((after, next)) => {
                &&& completion_end(answers)
                &&& after.full()
                &&& next == 114
            },
            None => !completion_end(answers),
        },
        crate::categories::c19_multi_stream::batch_completion_end_steps().len() == 1,
{
    let steps = crate::categories::c19_multi_stream::batch_completion_end_steps();
    crate::laws::steps::lemma_command(steps, 0, 1, contents, answers, 113);
    crate::laws::steps::lemma_end(steps, 1, contents, answers, 114);
}

/// The test has no jumps.
proof fn lemma_completion_straight()
    ensures
        forall|j: int|
            0 <= j < crate::categories::c19_multi_stream::batch_completion_steps().len()
                ==> crate::walk::straight(
                #[trigger] crate::categories::c19_multi_stream::batch_completion_steps()[j],
            ),
{
    let part1 = crate::script::rounds(
        20,
        |k: int| crate::categories::c19_multi_stream::batch_completion_operations_round(k as u64),
    );
    let round1 = |k: int| crate::categories::c19_multi_stream::batch_completion_operations_round(
        k as u64,
    );
    crate::walk::law_straight_rounds_are_straight(20, round1);
    let part2 = crate::categories::c19_multi_stream::batch_completion_completion_steps();
    let part3 = crate::script::rounds(
        20,
        |k: int| crate::categories::c19_multi_stream::batch_completion_results_round(k as u64),
    );
    let round3 = |k: int| crate::categories::c19_multi_stream::batch_completion_results_round(
        k as u64,
    );
    crate::walk::law_straight_rounds_are_straight(20, round3);
    let part4 = crate::categories::c19_multi_stream::batch_completion_base_steps();
    let part5 = crate::categories::c19_multi_stream::batch_completion_mixed_round(0);
    let part6 = crate::categories::c19_multi_stream::batch_completion_mixed_round(1);
    let part7 = crate::categories::c19_multi_stream::batch_completion_mixed_round(2);
    let part8 = crate::categories::c19_multi_stream::batch_completion_mixed_round(3);
    let part9 = crate::categories::c19_multi_stream::batch_completion_mixed_round(4);
    let part10 = crate::categories::c19_multi_stream::batch_completion_mixed_completion_steps();
    let part11 = crate::categories::c19_multi_stream::batch_completion_counts_round(0);
    let part12 = crate::categories::c19_multi_stream::batch_completion_counts_round(1);
    let part13 = crate::categories::c19_multi_stream::batch_completion_counts_round(2);
    let part14 = crate::categories::c19_multi_stream::batch_completion_counts_round(3);
    let part15 = crate::categories::c19_multi_stream::batch_completion_counts_round(4);
    let part16 = crate::categories::c19_multi_stream::batch_completion_end_steps();
    let whole1 = part1;
    let whole2 = whole1 + part2;
    crate::walk::law_straight_scripts_make_a_straight_one(whole1, part2);
    let whole3 = whole2 + part3;
    crate::walk::law_straight_scripts_make_a_straight_one(whole2, part3);
    let whole4 = whole3 + part4;
    crate::walk::law_straight_scripts_make_a_straight_one(whole3, part4);
    let whole5 = whole4 + part5;
    crate::walk::law_straight_scripts_make_a_straight_one(whole4, part5);
    let whole6 = whole5 + part6;
    crate::walk::law_straight_scripts_make_a_straight_one(whole5, part6);
    let whole7 = whole6 + part7;
    crate::walk::law_straight_scripts_make_a_straight_one(whole6, part7);
    let whole8 = whole7 + part8;
    crate::walk::law_straight_scripts_make_a_straight_one(whole7, part8);
    let whole9 = whole8 + part9;
    crate::walk::law_straight_scripts_make_a_straight_one(whole8, part9);
    let whole10 = whole9 + part10;
    crate::walk::law_straight_scripts_make_a_straight_one(whole9, part10);
    let whole11 = whole10 + part11;
    crate::walk::law_straight_scripts_make_a_straight_one(whole10, part11);
    let whole12 = whole11 + part12;
    crate::walk::law_straight_scripts_make_a_straight_one(whole11, part12);
    let whole13 = whole12 + part13;
    crate::walk::law_straight_scripts_make_a_straight_one(whole12, part13);
    let whole14 = whole13 + part14;
    crate::walk::law_straight_scripts_make_a_straight_one(whole13, part14);
    let whole15 = whole14 + part15;
    crate::walk::law_straight_scripts_make_a_straight_one(whole14, part15);
    let whole16 = whole15 + part16;
    crate::walk::law_straight_scripts_make_a_straight_one(whole15, part16);
    lemma_five_rounds(
        |i: int| crate::categories::c19_multi_stream::batch_completion_mixed_round(i as u64),
    );
    lemma_five_rounds(
        |i: int| crate::categories::c19_multi_stream::batch_completion_counts_round(i as u64),
    );
    assert(crate::categories::c19_multi_stream::batch_completion_steps() == whole16);
}

/// The test of batches that are waited for passes exactly when each of twenty sorts that were under
/// way hands out its words in order, and of five sorts and five filters in turn each sort leaves
/// all rows and each filter as many as are marked.
pub proof fn law_completion_passes_exactly_when_every_result_is_right(answers: Seq<Answer>)
    requires
        completion_shaped(answers),
    ensures
        crate::machine::run_of(
            crate::script::plan(
                "test_batch_completion",
                crate::categories::c19_multi_stream::batch_completion_steps(),
            ),
            answers,
        ).progress == Progress::Over(Ending::Passed) <==> {
            &&& forall|k: int|
                0 <= k < 20 ==> #[trigger] completion_operations(k, answers, 3 * k)
            &&& completion_completion(answers)
            &&& forall|k: int|
                0 <= k < 20 ==> #[trigger] completion_results(k, answers, 61 + 1 * k)
            &&& completion_base(answers)
            &&& completion_first_mix(answers)
            &&& completion_second_mix(answers)
            &&& completion_third_mix(answers)
            &&& completion_fourth_mix(answers)
            &&& completion_fifth_mix(answers)
            &&& completion_mixed_completion(answers)
            &&& completion_first_counts(answers)
            &&& completion_second_counts(answers)
            &&& completion_third_counts(answers)
            &&& completion_fourth_counts(answers)
            &&& completion_fifth_counts(answers)
            &&& completion_end(answers)
        },
{
    let plan = crate::script::plan(
        "test_batch_completion",
        crate::categories::c19_multi_stream::batch_completion_steps(),
    );
    let blank = Contents::blank(plan.texts);
    let part1 = crate::script::rounds(
        20,
        |k: int| crate::categories::c19_multi_stream::batch_completion_operations_round(k as u64),
    );
    let part2 = crate::categories::c19_multi_stream::batch_completion_completion_steps();
    let part3 = crate::script::rounds(
        20,
        |k: int| crate::categories::c19_multi_stream::batch_completion_results_round(k as u64),
    );
    let part4 = crate::categories::c19_multi_stream::batch_completion_base_steps();
    let part5 = crate::categories::c19_multi_stream::batch_completion_mixed_round(0);
    let part6 = crate::categories::c19_multi_stream::batch_completion_mixed_round(1);
    let part7 = crate::categories::c19_multi_stream::batch_completion_mixed_round(2);
    let part8 = crate::categories::c19_multi_stream::batch_completion_mixed_round(3);
    let part9 = crate::categories::c19_multi_stream::batch_completion_mixed_round(4);
    let part10 = crate::categories::c19_multi_stream::batch_completion_mixed_completion_steps();
    let part11 = crate::categories::c19_multi_stream::batch_completion_counts_round(0);
    let part12 = crate::categories::c19_multi_stream::batch_completion_counts_round(1);
    let part13 = crate::categories::c19_multi_stream::batch_completion_counts_round(2);
    let part14 = crate::categories::c19_multi_stream::batch_completion_counts_round(3);
    let part15 = crate::categories::c19_multi_stream::batch_completion_counts_round(4);
    let part16 = crate::categories::c19_multi_stream::batch_completion_end_steps();
    let whole1 = part1;
    let whole2 = whole1 + part2;
    let whole3 = whole2 + part3;
    let whole4 = whole3 + part4;
    let whole5 = whole4 + part5;
    let whole6 = whole5 + part6;
    let whole7 = whole6 + part7;
    let whole8 = whole7 + part8;
    let whole9 = whole8 + part9;
    let whole10 = whole9 + part10;
    let whole11 = whole10 + part11;
    let whole12 = whole11 + part12;
    let whole13 = whole12 + part13;
    let whole14 = whole13 + part14;
    let whole15 = whole14 + part15;
    let whole16 = whole15 + part16;
    lemma_five_rounds(
        |i: int| crate::categories::c19_multi_stream::batch_completion_mixed_round(i as u64),
    );
    lemma_five_rounds(
        |i: int| crate::categories::c19_multi_stream::batch_completion_counts_round(i as u64),
    );
    assert(plan.steps == whole16);
    lemma_completion_operations_rounds(blank, answers);
    crate::walk::law_walks_over_two_scripts_compose(whole1, part2, blank, answers, 0);
    crate::walk::law_walks_over_two_scripts_compose(whole2, part3, blank, answers, 0);
    crate::walk::law_walks_over_two_scripts_compose(whole3, part4, blank, answers, 0);
    crate::walk::law_walks_over_two_scripts_compose(whole4, part5, blank, answers, 0);
    crate::walk::law_walks_over_two_scripts_compose(whole5, part6, blank, answers, 0);
    crate::walk::law_walks_over_two_scripts_compose(whole6, part7, blank, answers, 0);
    crate::walk::law_walks_over_two_scripts_compose(whole7, part8, blank, answers, 0);
    crate::walk::law_walks_over_two_scripts_compose(whole8, part9, blank, answers, 0);
    crate::walk::law_walks_over_two_scripts_compose(whole9, part10, blank, answers, 0);
    crate::walk::law_walks_over_two_scripts_compose(whole10, part11, blank, answers, 0);
    crate::walk::law_walks_over_two_scripts_compose(whole11, part12, blank, answers, 0);
    crate::walk::law_walks_over_two_scripts_compose(whole12, part13, blank, answers, 0);
    crate::walk::law_walks_over_two_scripts_compose(whole13, part14, blank, answers, 0);
    crate::walk::law_walks_over_two_scripts_compose(whole14, part15, blank, answers, 0);
    crate::walk::law_walks_over_two_scripts_compose(whole15, part16, blank, answers, 0);
    let walk1 = crate::walk::walked(whole1, 0, whole1.len() as int, blank, answers, 0);
    if walk1 is Some {
        lemma_completion_completion((walk1->0).0, answers);
    }
    let walk2 = crate::walk::walked(whole2, 0, whole2.len() as int, blank, answers, 0);
    if walk2 is Some {
        lemma_completion_results_rounds((walk2->0).0, answers);
    }
    let walk3 = crate::walk::walked(whole3, 0, whole3.len() as int, blank, answers, 0);
    if walk3 is Some {
        lemma_completion_base((walk3->0).0, answers);
    }
    let walk4 = crate::walk::walked(whole4, 0, whole4.len() as int, blank, answers, 0);
    if walk4 is Some {
        lemma_completion_first_mix((walk4->0).0, answers);
    }
    let walk5 = crate::walk::walked(whole5, 0, whole5.len() as int, blank, answers, 0);
    if walk5 is Some {
        lemma_completion_second_mix((walk5->0).0, answers);
    }
    let walk6 = crate::walk::walked(whole6, 0, whole6.len() as int, blank, answers, 0);
    if walk6 is Some {
        lemma_completion_third_mix((walk6->0).0, answers);
    }
    let walk7 = crate::walk::walked(whole7, 0, whole7.len() as int, blank, answers, 0);
    if walk7 is Some {
        lemma_completion_fourth_mix((walk7->0).0, answers);
    }
    let walk8 = crate::walk::walked(whole8, 0, whole8.len() as int, blank, answers, 0);
    if walk8 is Some {
        lemma_completion_fifth_mix((walk8->0).0, answers);
    }
    let walk9 = crate::walk::walked(whole9, 0, whole9.len() as int, blank, answers, 0);
    if walk9 is Some {
        lemma_completion_mixed_completion((walk9->0).0, answers);
    }
    let walk10 = crate::walk::walked(whole10, 0, whole10.len() as int, blank, answers, 0);
    if walk10 is Some {
        lemma_completion_first_counts((walk10->0).0, answers);
    }
    let walk11 = crate::walk::walked(whole11, 0, whole11.len() as int, blank, answers, 0);
    if walk11 is Some {
        lemma_completion_second_counts((walk11->0).0, answers);
    }
    let walk12 = crate::walk::walked(whole12, 0, whole12.len() as int, blank, answers, 0);
    if walk12 is Some {
        lemma_completion_third_counts((walk12->0).0, answers);
    }
    let walk13 = crate::walk::walked(whole13, 0, whole13.len() as int, blank, answers, 0);
    if walk13 is Some {
        lemma_completion_fourth_counts((walk13->0).0, answers);
    }
    let walk14 = crate::walk::walked(whole14, 0, whole14.len() as int, blank, answers, 0);
    if walk14 is Some {
        lemma_completion_fifth_counts((walk14->0).0, answers);
    }
    let walk15 = crate::walk::walked(whole15, 0, whole15.len() as int, blank, answers, 0);
    if walk15 is Some {
        lemma_completion_end((walk15->0).0, answers);
    }
    lemma_completion_straight();
    crate::walk::law_passes_exactly_when_every_step_goes_through(plan, answers);
}

} // verus!
