//! The laws of the tests that carry out many operations in a row.

use vstd::prelude::*;
use crate::categories::c17_caching::{LINE_SIZES, ODD_SIZES};
use crate::expr::{differs, ix, len, lt, minus, modulo, not, num, plus, times};
use crate::machine::{Answer, Ending, Progress};
use crate::memory::Contents;
use crate::scalar::Scalar;
use crate::script::COUNT;

verus! {

/// A thousand numbers that go on from round to round, below ten thousand.
pub open spec fn rolling(k: int) -> Seq<u64> {
    Seq::new(1000, |i: int| ((i + k * 1000) % 10000) as u64)
}

/// One of the words of [`rolling`].
proof fn lemma_rolling_at(k: int, contents: Contents, i: u64)
    requires
        0 <= k < 100,
        i < 1000,
    ensures
        crate::expr::value_of(
            modulo(plus(ix(), times(num(k as u64), num(1000))), num(10000)),
            contents,
            i,
        ) == Some(rolling(k)[i as int]),
{
    reveal_with_fuel(crate::expr::value_of, 4);
}

/// The words of [`rolling`].
proof fn lemma_rolling(k: int, contents: Contents)
    requires
        0 <= k < 100,
    ensures
        forall|i: int|
            0 <= i < 1000 ==> #[trigger] crate::expr::value_of(
                modulo(plus(ix(), times(num(k as u64), num(1000))), num(10000)),
                contents,
                i as u64,
            ) == Some(rolling(k)[i]),
{
    assert forall|i: int| 0 <= i < 1000 implies #[trigger] crate::expr::value_of(
        modulo(plus(ix(), times(num(k as u64), num(1000))), num(10000)),
        contents,
        i as u64,
    ) == Some(rolling(k)[i]) by {
        lemma_rolling_at(k, contents, i as u64);
    }
}

/// How many of a thousand rows round `k` leaves out.
pub open spec fn dropped(k: int) -> int {
    (k * 10) % 1000
}

/// The mask of a thousand rows that leaves out the first ones.
pub open spec fn rest(k: int) -> Seq<u64> {
    Seq::new(1000, |i: int| crate::expr::truth(i >= dropped(k)))
}

/// One of the words of [`rest`], and how many of them mark.
#[verifier::spinoff_prover]
#[verifier::rlimit(50)]
proof fn lemma_rest_at(k: int, contents: Contents, i: u64)
    requires
        0 <= k < 100,
    ensures
        crate::expr::value_of(
            not(lt(ix(), modulo(times(num(k as u64), num(10)), num(1000)))),
            contents,
            i,
        ) == Some(crate::expr::truth(i >= dropped(k))),
        crate::expr::value_of(
            minus(num(1000), modulo(times(num(k as u64), num(10)), num(1000))),
            contents,
            i,
        ) == Some((1000 - dropped(k)) as u64),
{
    reveal_with_fuel(crate::expr::value_of, 5);
}

/// The words of [`rest`], and how many of them mark.
proof fn lemma_rest(k: int, contents: Contents)
    requires
        0 <= k < 100,
    ensures
        forall|i: int|
            0 <= i < 1000 ==> #[trigger] crate::expr::value_of(
                not(lt(ix(), modulo(times(num(k as u64), num(10)), num(1000)))),
                contents,
                i as u64,
            ) == Some(rest(k)[i]),
        crate::expr::value_of(
            minus(num(1000), modulo(times(num(k as u64), num(10)), num(1000))),
            contents,
            0,
        ) == Some((1000 - dropped(k)) as u64),
{
    lemma_rest_at(k, contents, 0);
    assert forall|i: int| 0 <= i < 1000 implies #[trigger] crate::expr::value_of(
        not(lt(ix(), modulo(times(num(k as u64), num(10)), num(1000)))),
        contents,
        i as u64,
    ) == Some(rest(k)[i]) by {
        lemma_rest_at(k, contents, i as u64);
    }
}

/// Ten thousand numbers that start a thousand further on in every round.
pub open spec fn sliding(k: int) -> Seq<u64> {
    Seq::new(10000, |i: int| (i + k * 1000) as u64)
}

/// One of the words of [`sliding`].
proof fn lemma_sliding_at(k: int, contents: Contents, i: u64)
    requires
        0 <= k < 100,
        i < 10000,
    ensures
        crate::expr::value_of(plus(ix(), times(num(k as u64), num(1000))), contents, i) == Some(
            sliding(k)[i as int],
        ),
{
    reveal_with_fuel(crate::expr::value_of, 3);
}

/// The words of [`sliding`].
proof fn lemma_sliding(k: int, contents: Contents)
    requires
        0 <= k < 100,
    ensures
        forall|i: int|
            0 <= i < 10000 ==> #[trigger] crate::expr::value_of(
                plus(ix(), times(num(k as u64), num(1000))),
                contents,
                i as u64,
            ) == Some(sliding(k)[i]),
{
    assert forall|i: int| 0 <= i < 10000 implies #[trigger] crate::expr::value_of(
        plus(ix(), times(num(k as u64), num(1000))),
        contents,
        i as u64,
    ) == Some(sliding(k)[i]) by {
        lemma_sliding_at(k, contents, i as u64);
    }
}

/// The sizes are those of columns.
proof fn lemma_line_sizes(k: int)
    requires
        0 <= k < 6,
    ensures
        0 < LINE_SIZES@[k] < 1000000,
{
}

/// The sizes are those of columns.
proof fn lemma_odd_sizes(k: int)
    requires
        0 <= k < 4,
    ensures
        0 < ODD_SIZES@[k] < 1000000,
{
}

/// The first `n` multiples of 31337, modulo a hundred thousand.
pub open spec fn strided(n: u64) -> Seq<u64> {
    Seq::new(n as nat, |i: int| ((i * 31337) % 100000) as u64)
}

/// One of the words of [`strided`].
proof fn lemma_strided_at(n: u64, contents: Contents, i: u64)
    requires
        i < n < 1000000,
    ensures
        crate::expr::value_of(modulo(times(ix(), num(31337)), num(100000)), contents, i) == Some(
            strided(n)[i as int],
        ),
{
    reveal_with_fuel(crate::expr::value_of, 3);
}

/// The words of [`strided`].
proof fn lemma_strided(n: u64, contents: Contents)
    requires
        n < 1000000,
    ensures
        forall|i: int|
            0 <= i < n ==> #[trigger] crate::expr::value_of(
                modulo(times(ix(), num(31337)), num(100000)),
                contents,
                i as u64,
            ) == Some(strided(n)[i]),
{
    assert forall|i: int| 0 <= i < n implies #[trigger] crate::expr::value_of(
        modulo(times(ix(), num(31337)), num(100000)),
        contents,
        i as u64,
    ) == Some(strided(n)[i]) by {
        lemma_strided_at(n, contents, i as u64);
    }
}

/// Whether the length of a column is not the expected one.
proof fn lemma_length(contents: Contents, slot: u64, expected: u64)
    requires
        slot < contents.columns.len(),
        contents.columns[slot as int].len() <= u64::MAX,
    ensures
        crate::expr::value_of(differs(len(slot), num(expected)), contents, 0) == Some(
            crate::expr::truth(contents.columns[slot as int].len() != expected),
        ),
{
    crate::laws::steps::lemma_differs(len(slot), num(expected), contents, 0);
}

/// Whether the answers to the downloads of the test are columns or refusals.
pub open spec fn sequence_shaped(answers: Seq<Answer>) -> bool {
    &&& answers.len() >= 352
    &&& forall|k: int|
        0 <= k < 50 ==> crate::laws::steps::column_or_refusal(#[trigger] answers[2 + 4 * k])
}

/// What the device has to answer in round `k` of the part `sorts`, from answer `used` on.
pub open spec fn sequence_sorts(k: int, answers: Seq<Answer>, used: int) -> bool {
    &&& !(answers[used] is Failed)
    &&& !(answers[used + 1] is Failed)
    &&& answers[used + 2] is Words
    &&& crate::laws::steps::rises(answers[used + 2]->Words_0)
}

/// What the device has to answer in the part `between`.
pub open spec fn sequence_between(answers: Seq<Answer>) -> bool {
    !(answers[200] is Failed)
}

/// What the device has to answer in round `k` of the part `filters`, from answer `used` on.
pub open spec fn sequence_filters(k: int, answers: Seq<Answer>, used: int) -> bool {
    &&& !(answers[used] is Failed)
    &&& answers[used + 1] == Answer::Count((1000 - dropped(k)) as u64)
}

/// What the device has to answer in the part `end`.
pub open spec fn sequence_end(answers: Seq<Answer>) -> bool {
    !(answers[351] is Failed)
}

/// One round of the part `sorts`.
proof fn lemma_sequence_sorts(k: int, contents: Contents, answers: Seq<Answer>, used: int)
    requires
        0 <= k < 50,
        used == 4 * k,
        contents.full(),
        sequence_shaped(answers),
    ensures
        match crate::walk::walked(
            crate::categories::c16_async_pipeline::sequential_operations_sorts_round(k as u64),
            0,
            6,
            contents,
            answers,
            used,
        ) {
            Some((after, next)) => {
                &&& sequence_sorts(k, answers, used)
                &&& after.full()
                &&& next == 4 * (k + 1)
            },
            None => !sequence_sorts(k, answers, used),
        },
        crate::categories::c16_async_pipeline::sequential_operations_sorts_round(
            k as u64,
        ).len() == 6,
{
    let steps = crate::categories::c16_async_pipeline::sequential_operations_sorts_round(k as u64);
    assert(crate::laws::steps::column_or_refusal(answers[2 + 4 * k]));
    lemma_rolling(k, contents);
    let words1 = rolling(k);
    crate::laws::steps::lemma_fill(steps, 0, 6, contents, answers, used, words1);
    let next1 = contents.with_column(0, words1);
    crate::laws::steps::lemma_command(steps, 1, 6, next1, answers, used);
    crate::laws::steps::lemma_command(steps, 2, 6, next1, answers, used + 1);
    crate::laws::steps::lemma_download(steps, 3, 6, next1, answers, used + 2);
    if answers[used + 2] is Words {
        let next2 = next1.with_column(1, answers[used + 2]->Words_0);
        crate::laws::steps::lemma_scan_order(steps, 4, 6, next2, answers, used + 3, 1);
        crate::laws::steps::lemma_command(steps, 5, 6, next2, answers, used + 3);
        crate::laws::steps::lemma_end(steps, 6, next2, answers, used + 4);
    }
}

/// All rounds of the part `sorts`.
proof fn lemma_sequence_sorts_rounds(contents: Contents, answers: Seq<Answer>)
    requires
        contents.full(),
        sequence_shaped(answers),
    ensures
        ({
            let steps = crate::script::rounds(
                50,
                |k: int| crate::categories::c16_async_pipeline::sequential_operations_sorts_round(
                    k as u64,
                ),
            );
            match crate::walk::walked(steps, 0, steps.len() as int, contents, answers, 0) {
                Some((after, next)) => {
                    &&& forall|k: int|
                        0 <= k < 50 ==> #[trigger] sequence_sorts(k, answers, 4 * k)
                    &&& after.full()
                    &&& next == 200
                },
                None => !(forall|k: int|
                    0 <= k < 50 ==> #[trigger] sequence_sorts(k, answers, 4 * k)),
            }
        }),
{
    let round = |k: int| crate::categories::c16_async_pipeline::sequential_operations_sorts_round(
        k as u64,
    );
    let start = |k: int| 4 * k;
    let good = |k: int| sequence_sorts(k, answers, start(k));
    let kept = |contents: Contents| contents.full();
    assert forall|k: int, contents: Contents|
        #![trigger good(k), kept(contents)]
        0 <= k < 50 && kept(contents) implies if good(k) {
        crate::walk::goes_to(round(k), contents, answers, start(k), start(k + 1), kept)
    } else {
        crate::walk::walked(round(k), 0, round(k).len() as int, contents, answers, start(k)) is None
    } by {
        lemma_sequence_sorts(k, contents, answers, start(k));
    }
    crate::walk::law_rounds_keep_what_each_keeps(50, round, start, good, kept, contents, answers);
    if forall|k: int| 0 <= k < 50 ==> #[trigger] good(k) {
        assert forall|k: int| 0 <= k < 50 implies #[trigger] sequence_sorts(
            k,
            answers,
            4 * k,
        ) by {
            assert(good(k));
        }
    } else {
        let k = choose|k: int| 0 <= k < 50 && !(#[trigger] good(k));
        assert(!sequence_sorts(k, answers, 4 * k));
    }
}

/// The part `between`.
proof fn lemma_sequence_between(contents: Contents, answers: Seq<Answer>)
    requires
        contents.full(),
        sequence_shaped(answers),
    ensures
        match crate::walk::walked(
            crate::categories::c16_async_pipeline::sequential_operations_between_steps(),
            0,
            2,
            contents,
            answers,
            200,
        ) {
            Some((after, next)) => {
                &&& sequence_between(answers)
                &&& after.full()
                &&& next == 201
            },
            None => !sequence_between(answers),
        },
        crate::categories::c16_async_pipeline::sequential_operations_between_steps().len() == 2,
{
    let steps = crate::categories::c16_async_pipeline::sequential_operations_between_steps();
    crate::laws::words::lemma_below(1000, contents);
    let words1 = crate::laws::words::below(1000);
    crate::laws::steps::lemma_fill(steps, 0, 2, contents, answers, 200, words1);
    let next1 = contents.with_column(0, words1);
    crate::laws::steps::lemma_command(steps, 1, 2, next1, answers, 200);
    crate::laws::steps::lemma_end(steps, 2, next1, answers, 201);
}

/// One round of the part `filters`.
proof fn lemma_sequence_filters(k: int, contents: Contents, answers: Seq<Answer>, used: int)
    requires
        0 <= k < 50,
        used == 201 + 3 * k,
        contents.full(),
        sequence_shaped(answers),
    ensures
        match crate::walk::walked(
            crate::categories::c16_async_pipeline::sequential_operations_filters_round(k as u64),
            0,
            4,
            contents,
            answers,
            used,
        ) {
            Some((after, next)) => {
                &&& sequence_filters(k, answers, used)
                &&& after.full()
                &&& next == 201 + 3 * (k + 1)
            },
            None => !sequence_filters(k, answers, used),
        },
        crate::categories::c16_async_pipeline::sequential_operations_filters_round(
            k as u64,
        ).len() == 4,
{
    let steps = crate::categories::c16_async_pipeline::sequential_operations_filters_round(
        k as u64,
    );
    lemma_rest(k, contents);
    let words1 = rest(k);
    crate::laws::steps::lemma_fill(steps, 0, 4, contents, answers, used, words1);
    let next1 = contents.with_column(1, words1);
    crate::laws::steps::lemma_command(steps, 1, 4, next1, answers, used);
    lemma_rest(k, next1);
    crate::laws::steps::lemma_match(
        steps,
        2,
        4,
        next1,
        answers,
        used + 1,
        (1000 - dropped(k)) as u64,
    );
    let next2 = next1.with_register(COUNT, (1000 - dropped(k)) as u64);
    crate::laws::steps::lemma_command(steps, 3, 4, next2, answers, used + 2);
    crate::laws::steps::lemma_end(steps, 4, next2, answers, used + 3);
}

/// All rounds of the part `filters`.
proof fn lemma_sequence_filters_rounds(contents: Contents, answers: Seq<Answer>)
    requires
        contents.full(),
        sequence_shaped(answers),
    ensures
        ({
            let steps = crate::script::rounds(
                50,
                |k: int| crate::categories::c16_async_pipeline::sequential_operations_filters_round(
                    k as u64,
                ),
            );
            match crate::walk::walked(steps, 0, steps.len() as int, contents, answers, 201) {
                Some((after, next)) => {
                    &&& forall|k: int|
                        0 <= k < 50 ==> #[trigger] sequence_filters(k, answers, 201 + 3 * k)
                    &&& after.full()
                    &&& next == 351
                },
                None => !(forall|k: int|
                    0 <= k < 50 ==> #[trigger] sequence_filters(k, answers, 201 + 3 * k)),
            }
        }),
{
    let round = |k: int| crate::categories::c16_async_pipeline::sequential_operations_filters_round(
        k as u64,
    );
    let start = |k: int| 201 + 3 * k;
    let good = |k: int| sequence_filters(k, answers, start(k));
    let kept = |contents: Contents| contents.full();
    assert forall|k: int, contents: Contents|
        #![trigger good(k), kept(contents)]
        0 <= k < 50 && kept(contents) implies if good(k) {
        crate::walk::goes_to(round(k), contents, answers, start(k), start(k + 1), kept)
    } else {
        crate::walk::walked(round(k), 0, round(k).len() as int, contents, answers, start(k)) is None
    } by {
        lemma_sequence_filters(k, contents, answers, start(k));
    }
    crate::walk::law_rounds_keep_what_each_keeps(50, round, start, good, kept, contents, answers);
    if forall|k: int| 0 <= k < 50 ==> #[trigger] good(k) {
        assert forall|k: int| 0 <= k < 50 implies #[trigger] sequence_filters(
            k,
            answers,
            201 + 3 * k,
        ) by {
            assert(good(k));
        }
    } else {
        let k = choose|k: int| 0 <= k < 50 && !(#[trigger] good(k));
        assert(!sequence_filters(k, answers, 201 + 3 * k));
    }
}

/// The part `end`.
proof fn lemma_sequence_end(contents: Contents, answers: Seq<Answer>)
    requires
        contents.full(),
        sequence_shaped(answers),
    ensures
        match crate::walk::walked(
            crate::categories::c16_async_pipeline::sequential_operations_end_steps(),
            0,
            1,
            contents,
            answers,
            351,
        ) {
            Some((after, next)) => {
                &&& sequence_end(answers)
                &&& after.full()
                &&& next == 352
            },
            None => !sequence_end(answers),
        },
        crate::categories::c16_async_pipeline::sequential_operations_end_steps().len() == 1,
{
    let steps = crate::categories::c16_async_pipeline::sequential_operations_end_steps();
    crate::laws::steps::lemma_command(steps, 0, 1, contents, answers, 351);
    crate::laws::steps::lemma_end(steps, 1, contents, answers, 352);
}

/// The test has no jumps.
proof fn lemma_sequence_straight()
    ensures
        forall|j: int|
            0 <= j < crate::categories::c16_async_pipeline::sequential_operations_steps().len()
                ==> crate::walk::straight(
                #[trigger] crate::categories::c16_async_pipeline::sequential_operations_steps()[j],
            ),
{
    let part1 = crate::script::rounds(
        50,
        |k: int| crate::categories::c16_async_pipeline::sequential_operations_sorts_round(k as u64),
    );
    let round1 = |k: int| crate::categories::c16_async_pipeline::sequential_operations_sorts_round(
        k as u64,
    );
    crate::walk::law_straight_rounds_are_straight(50, round1);
    let part2 = crate::categories::c16_async_pipeline::sequential_operations_between_steps();
    let part3 = crate::script::rounds(
        50,
        |k: int| crate::categories::c16_async_pipeline::sequential_operations_filters_round(
            k as u64,
        ),
    );
    let round3 = |k: int|
        crate::categories::c16_async_pipeline::sequential_operations_filters_round(
        k as u64,
    );
    crate::walk::law_straight_rounds_are_straight(50, round3);
    let part4 = crate::categories::c16_async_pipeline::sequential_operations_end_steps();
    let whole1 = part1;
    let whole2 = whole1 + part2;
    crate::walk::law_straight_scripts_make_a_straight_one(whole1, part2);
    let whole3 = whole2 + part3;
    crate::walk::law_straight_scripts_make_a_straight_one(whole2, part3);
    let whole4 = whole3 + part4;
    crate::walk::law_straight_scripts_make_a_straight_one(whole3, part4);
    assert(crate::categories::c16_async_pipeline::sequential_operations_steps() == whole4);
}

/// The test of a hundred operations in a row passes exactly when each of fifty sorts comes back in
/// rising order and each of fifty filters leaves as many rows as its round keeps.
pub proof fn law_sequence_passes_exactly_when_every_round_does(answers: Seq<Answer>)
    requires
        sequence_shaped(answers),
    ensures
        crate::machine::run_of(
            crate::script::plan(
                "test_sequential_operations",
                crate::categories::c16_async_pipeline::sequential_operations_steps(),
            ),
            answers,
        ).progress == Progress::Over(Ending::Passed) <==> {
            &&& forall|k: int|
                0 <= k < 50 ==> #[trigger] sequence_sorts(k, answers, 4 * k)
            &&& sequence_between(answers)
            &&& forall|k: int|
                0 <= k < 50 ==> #[trigger] sequence_filters(k, answers, 201 + 3 * k)
            &&& sequence_end(answers)
        },
{
    let plan = crate::script::plan(
        "test_sequential_operations",
        crate::categories::c16_async_pipeline::sequential_operations_steps(),
    );
    let blank = Contents::blank(plan.texts);
    let part1 = crate::script::rounds(
        50,
        |k: int| crate::categories::c16_async_pipeline::sequential_operations_sorts_round(k as u64),
    );
    let part2 = crate::categories::c16_async_pipeline::sequential_operations_between_steps();
    let part3 = crate::script::rounds(
        50,
        |k: int| crate::categories::c16_async_pipeline::sequential_operations_filters_round(
            k as u64,
        ),
    );
    let part4 = crate::categories::c16_async_pipeline::sequential_operations_end_steps();
    let whole1 = part1;
    let whole2 = whole1 + part2;
    let whole3 = whole2 + part3;
    let whole4 = whole3 + part4;
    assert(plan.steps == whole4);
    lemma_sequence_sorts_rounds(blank, answers);
    crate::walk::law_walks_over_two_scripts_compose(whole1, part2, blank, answers, 0);
    crate::walk::law_walks_over_two_scripts_compose(whole2, part3, blank, answers, 0);
    crate::walk::law_walks_over_two_scripts_compose(whole3, part4, blank, answers, 0);
    match crate::walk::walked(whole1, 0, whole1.len() as int, blank, answers, 0) {
        Some((after, _)) => {
            lemma_sequence_between(after, answers);
            match crate::walk::walked(whole2, 0, whole2.len() as int, blank, answers, 0) {
                Some((after, _)) => {
                    lemma_sequence_filters_rounds(after, answers);
                    match crate::walk::walked(whole3, 0, whole3.len() as int, blank, answers, 0) {
                        Some((after, _)) => {
                            lemma_sequence_end(after, answers);
                        },
                        None => {},
                    }
                },
                None => {},
            }
        },
        None => {},
    }
    lemma_sequence_straight();
    crate::walk::law_passes_exactly_when_every_step_goes_through(plan, answers);
}

/// Whether the answers to the downloads of the test are columns or refusals.
pub open spec fn updates_shaped(answers: Seq<Answer>) -> bool {
    &&& answers.len() >= 56
    &&& forall|k: int|
        0 <= k < 5 ==> crate::laws::steps::column_or_refusal(#[trigger] answers[7 + 11 * k])
}

/// What the device has to answer in round `k` of the part `iterations`, from answer `used` on.
pub open spec fn updates_iterations(k: int, answers: Seq<Answer>, used: int) -> bool {
    &&& !(answers[used] is Failed)
    &&& !(answers[used + 1] is Failed)
    &&& answers[used + 2] == Answer::Count(10000)
    &&& !(answers[used + 3] is Failed)
    &&& answers[used + 4] == Answer::Count(3334)
    &&& !(answers[used + 5] is Failed)
    &&& answers[used + 6] == Answer::Count(10000)
    &&& answers[used + 7] is Words
    &&& answers[used + 7]->Words_0.to_set() == sliding(k).to_set()
    &&& !(answers[used + 8] is Failed)
    &&& answers[used + 9] == Answer::Count(10000)
}

/// What the device has to answer in the part `end`.
pub open spec fn updates_end(answers: Seq<Answer>) -> bool {
    !(answers[55] is Failed)
}

/// One round of the part `iterations`.
proof fn lemma_updates_iterations(k: int, contents: Contents, answers: Seq<Answer>, used: int)
    requires
        0 <= k < 5,
        used == 11 * k,
        contents.full(),
        updates_shaped(answers),
    ensures
        match crate::walk::walked(
            crate::categories::c12_atomics::concurrent_atomic_updates_iterations_round(k as u64),
            0,
            15,
            contents,
            answers,
            used,
        ) {
            Some((after, next)) => {
                &&& updates_iterations(k, answers, used)
                &&& after.full()
                &&& next == 11 * (k + 1)
            },
            None => !updates_iterations(k, answers, used),
        },
        crate::categories::c12_atomics::concurrent_atomic_updates_iterations_round(
            k as u64,
        ).len() == 15,
{
    let steps = crate::categories::c12_atomics::concurrent_atomic_updates_iterations_round(
        k as u64,
    );
    assert(crate::laws::steps::column_or_refusal(answers[7 + 11 * k]));
    lemma_sliding(k, contents);
    let words1 = sliding(k);
    crate::laws::steps::lemma_fill(steps, 0, 15, contents, answers, used, words1);
    let next1 = contents.with_column(0, words1);
    crate::laws::words::lemma_scaled(0, 10, next1);
    let words2 = crate::laws::words::scaled(sliding(k), 10);
    crate::laws::steps::lemma_fill(steps, 1, 15, next1, answers, used, words2);
    let next2 = next1.with_column(1, words2);
    crate::laws::steps::lemma_command(steps, 2, 15, next2, answers, used);
    crate::laws::steps::lemma_command(steps, 3, 15, next2, answers, used + 1);
    crate::laws::steps::lemma_match(steps, 4, 15, next2, answers, used + 2, 10000);
    let next3 = next2.with_register(COUNT, 10000);
    crate::laws::masks::lemma_remainder_words(3, 10000, next3);
    let words4 = crate::laws::masks::every(3, 10000);
    crate::laws::steps::lemma_fill(steps, 5, 15, next3, answers, used + 3, words4);
    let next4 = next3.with_column(2, words4);
    crate::laws::steps::lemma_command(steps, 6, 15, next4, answers, used + 3);
    crate::laws::steps::lemma_match(steps, 7, 15, next4, answers, used + 4, 3334);
    let next5 = next4.with_register(COUNT, 3334);
    crate::laws::steps::lemma_command(steps, 8, 15, next5, answers, used + 5);
    crate::laws::steps::lemma_match(steps, 9, 15, next5, answers, used + 6, 10000);
    let next6 = next5.with_register(COUNT, 10000);
    crate::laws::steps::lemma_download(steps, 10, 15, next6, answers, used + 7);
    if answers[used + 7] is Words {
        let next7 = next6.with_column(3, answers[used + 7]->Words_0);
        crate::laws::joins::lemma_not_alike_sets(next7, 3, 0);
        crate::laws::steps::lemma_check(
            steps,
            11,
            15,
            next7,
            answers,
            used + 8,
            !(answers[used + 7]->Words_0.to_set() == sliding(k).to_set()),
        );
        crate::laws::steps::lemma_command(steps, 12, 15, next7, answers, used + 8);
        crate::laws::steps::lemma_match(steps, 13, 15, next7, answers, used + 9, 10000);
        let next8 = next7.with_register(COUNT, 10000);
        crate::laws::steps::lemma_command(steps, 14, 15, next8, answers, used + 10);
        crate::laws::steps::lemma_end(steps, 15, next8, answers, used + 11);
    }
}

/// All rounds of the part `iterations`.
proof fn lemma_updates_iterations_rounds(contents: Contents, answers: Seq<Answer>)
    requires
        contents.full(),
        updates_shaped(answers),
    ensures
        ({
            let steps = crate::script::rounds(
                5,
                |k: int| crate::categories::c12_atomics::concurrent_atomic_updates_iterations_round(
                    k as u64,
                ),
            );
            match crate::walk::walked(steps, 0, steps.len() as int, contents, answers, 0) {
                Some((after, next)) => {
                    &&& forall|k: int|
                        0 <= k < 5 ==> #[trigger] updates_iterations(k, answers, 11 * k)
                    &&& after.full()
                    &&& next == 55
                },
                None => !(forall|k: int|
                    0 <= k < 5 ==> #[trigger] updates_iterations(k, answers, 11 * k)),
            }
        }),
{
    let round = |k: int| crate::categories::c12_atomics::concurrent_atomic_updates_iterations_round(
        k as u64,
    );
    let start = |k: int| 11 * k;
    let good = |k: int| updates_iterations(k, answers, start(k));
    let kept = |contents: Contents| contents.full();
    assert forall|k: int, contents: Contents|
        #![trigger good(k), kept(contents)]
        0 <= k < 5 && kept(contents) implies if good(k) {
        crate::walk::goes_to(round(k), contents, answers, start(k), start(k + 1), kept)
    } else {
        crate::walk::walked(round(k), 0, round(k).len() as int, contents, answers, start(k)) is None
    } by {
        lemma_updates_iterations(k, contents, answers, start(k));
    }
    crate::walk::law_rounds_keep_what_each_keeps(5, round, start, good, kept, contents, answers);
    if forall|k: int| 0 <= k < 5 ==> #[trigger] good(k) {
        assert forall|k: int| 0 <= k < 5 implies #[trigger] updates_iterations(
            k,
            answers,
            11 * k,
        ) by {
            assert(good(k));
        }
    } else {
        let k = choose|k: int| 0 <= k < 5 && !(#[trigger] good(k));
        assert(!updates_iterations(k, answers, 11 * k));
    }
}

/// The part `end`.
proof fn lemma_updates_end(contents: Contents, answers: Seq<Answer>)
    requires
        contents.full(),
        updates_shaped(answers),
    ensures
        match crate::walk::walked(
            crate::categories::c12_atomics::concurrent_atomic_updates_end_steps(),
            0,
            1,
            contents,
            answers,
            55,
        ) {
            Some((after, next)) => {
                &&& updates_end(answers)
                &&& after.full()
                &&& next == 56
            },
            None => !updates_end(answers),
        },
        crate::categories::c12_atomics::concurrent_atomic_updates_end_steps().len() == 1,
{
    let steps = crate::categories::c12_atomics::concurrent_atomic_updates_end_steps();
    crate::laws::steps::lemma_command(steps, 0, 1, contents, answers, 55);
    crate::laws::steps::lemma_end(steps, 1, contents, answers, 56);
}

/// The test has no jumps.
proof fn lemma_updates_straight()
    ensures
        forall|j: int|
            0 <= j < crate::categories::c12_atomics::concurrent_atomic_updates_steps().len()
                ==> crate::walk::straight(
                #[trigger] crate::categories::c12_atomics::concurrent_atomic_updates_steps()[j],
            ),
{
    let part1 = crate::script::rounds(
        5,
        |k: int| crate::categories::c12_atomics::concurrent_atomic_updates_iterations_round(
            k as u64,
        ),
    );
    let round1 = |k: int|
        crate::categories::c12_atomics::concurrent_atomic_updates_iterations_round(
        k as u64,
    );
    crate::walk::law_straight_rounds_are_straight(5, round1);
    let part2 = crate::categories::c12_atomics::concurrent_atomic_updates_end_steps();
    let whole1 = part1;
    let whole2 = whole1 + part2;
    crate::walk::law_straight_scripts_make_a_straight_one(whole1, part2);
    assert(crate::categories::c12_atomics::concurrent_atomic_updates_steps() == whole2);
}

/// The test of repeated updates passes exactly when, in each round, removing duplicates leaves all
/// rows both times, a filter leaves every third one, and a join with itself leaves all rows and all
/// keys.
pub proof fn law_updates_pass_exactly_when_nothing_is_lost(answers: Seq<Answer>)
    requires
        updates_shaped(answers),
    ensures
        crate::machine::run_of(
            crate::script::plan(
                "test_concurrent_atomic_updates",
                crate::categories::c12_atomics::concurrent_atomic_updates_steps(),
            ),
            answers,
        ).progress == Progress::Over(Ending::Passed) <==> {
            &&& forall|k: int|
                0 <= k < 5 ==> #[trigger] updates_iterations(k, answers, 11 * k)
            &&& updates_end(answers)
        },
{
    let plan = crate::script::plan(
        "test_concurrent_atomic_updates",
        crate::categories::c12_atomics::concurrent_atomic_updates_steps(),
    );
    let blank = Contents::blank(plan.texts);
    let part1 = crate::script::rounds(
        5,
        |k: int| crate::categories::c12_atomics::concurrent_atomic_updates_iterations_round(
            k as u64,
        ),
    );
    let part2 = crate::categories::c12_atomics::concurrent_atomic_updates_end_steps();
    let whole1 = part1;
    let whole2 = whole1 + part2;
    assert(plan.steps == whole2);
    lemma_updates_iterations_rounds(blank, answers);
    crate::walk::law_walks_over_two_scripts_compose(whole1, part2, blank, answers, 0);
    match crate::walk::walked(whole1, 0, whole1.len() as int, blank, answers, 0) {
        Some((after, _)) => {
            lemma_updates_end(after, answers);
        },
        None => {},
    }
    lemma_updates_straight();
    crate::walk::law_passes_exactly_when_every_step_goes_through(plan, answers);
}

/// Whether the answers to the downloads of the test are columns or refusals.
pub open spec fn cache_lines_shaped(answers: Seq<Answer>) -> bool {
    &&& answers.len() >= 53
    &&& forall|k: int|
        0 <= k < 6 ==> crate::laws::steps::column_or_refusal(#[trigger] answers[2 + 6 * k])
    &&& forall|k: int|
        0 <= k < 4 ==> crate::laws::steps::column_or_refusal(#[trigger] answers[38 + 4 * k])
}

/// What the device has to answer in round `k` of the part `lines`, from answer `used` on.
pub open spec fn cache_lines_lines(k: int, answers: Seq<Answer>, used: int) -> bool {
    &&& !(answers[used] is Failed)
    &&& !(answers[used + 1] is Failed)
    &&& answers[used + 2] is Words
    &&& answers[used + 2]->Words_0.len() == LINE_SIZES@[k]
    &&& crate::laws::steps::rises(answers[used + 2]->Words_0)
    &&& !(answers[used + 3] is Failed)
    &&& answers[used + 4] == Answer::Count(((LINE_SIZES@[k] + 1) / 2) as u64)
}

/// What the device has to answer in round `k` of the part `odd`, from answer `used` on.
pub open spec fn cache_lines_odd(k: int, answers: Seq<Answer>, used: int) -> bool {
    &&& !(answers[used] is Failed)
    &&& !(answers[used + 1] is Failed)
    &&& answers[used + 2] is Words
    &&& crate::laws::steps::rises(answers[used + 2]->Words_0)
}

/// What the device has to answer in the part `end`.
pub open spec fn cache_lines_end(answers: Seq<Answer>) -> bool {
    !(answers[52] is Failed)
}

/// One round of the part `lines`.
proof fn lemma_cache_lines_lines(k: int, contents: Contents, answers: Seq<Answer>, used: int)
    requires
        0 <= k < 6,
        used == 6 * k,
        contents.full(),
        cache_lines_shaped(answers),
    ensures
        match crate::walk::walked(
            crate::categories::c17_caching::cache_line_access_lines_round(k as u64),
            0,
            10,
            contents,
            answers,
            used,
        ) {
            Some((after, next)) => {
                &&& cache_lines_lines(k, answers, used)
                &&& after.full()
                &&& next == 6 * (k + 1)
            },
            None => !cache_lines_lines(k, answers, used),
        },
        crate::categories::c17_caching::cache_line_access_lines_round(k as u64).len() == 10,
{
    let steps = crate::categories::c17_caching::cache_line_access_lines_round(k as u64);
    assert(crate::laws::steps::column_or_refusal(answers[2 + 6 * k]));
    lemma_line_sizes(k);
    crate::laws::words::lemma_scattered(1000000, LINE_SIZES@[k], contents);
    let words1 = crate::laws::words::scattered(1000000, LINE_SIZES@[k]);
    crate::laws::steps::lemma_fill(steps, 0, 10, contents, answers, used, words1);
    let next1 = contents.with_column(0, words1);
    crate::laws::steps::lemma_command(steps, 1, 10, next1, answers, used);
    crate::laws::steps::lemma_command(steps, 2, 10, next1, answers, used + 1);
    crate::laws::steps::lemma_download(steps, 3, 10, next1, answers, used + 2);
    if answers[used + 2] is Words {
        let next2 = next1.with_column(1, answers[used + 2]->Words_0);
        lemma_length(next2, 1, LINE_SIZES@[k]);
        crate::laws::steps::lemma_check(
            steps,
            4,
            10,
            next2,
            answers,
            used + 3,
            !(answers[used + 2]->Words_0.len() == LINE_SIZES@[k]),
        );
        crate::laws::steps::lemma_scan_order(steps, 5, 10, next2, answers, used + 3, 1);
        crate::laws::masks::lemma_remainder_words(2, LINE_SIZES@[k], next2);
        let words3 = crate::laws::masks::every(2, LINE_SIZES@[k] as nat);
        crate::laws::steps::lemma_fill(steps, 6, 10, next2, answers, used + 3, words3);
        let next3 = next2.with_column(2, words3);
        crate::laws::steps::lemma_command(steps, 7, 10, next3, answers, used + 3);
        crate::laws::lanes::lemma_half(LINE_SIZES@[k], next3);
        crate::laws::steps::lemma_match(
            steps,
            8,
            10,
            next3,
            answers,
            used + 4,
            ((LINE_SIZES@[k] + 1) / 2) as u64,
        );
        let next4 = next3.with_register(COUNT, ((LINE_SIZES@[k] + 1) / 2) as u64);
        crate::laws::steps::lemma_command(steps, 9, 10, next4, answers, used + 5);
        crate::laws::steps::lemma_end(steps, 10, next4, answers, used + 6);
    }
}

/// All rounds of the part `lines`.
proof fn lemma_cache_lines_lines_rounds(contents: Contents, answers: Seq<Answer>)
    requires
        contents.full(),
        cache_lines_shaped(answers),
    ensures
        ({
            let steps = crate::script::rounds(
                6,
                |k: int| crate::categories::c17_caching::cache_line_access_lines_round(k as u64),
            );
            match crate::walk::walked(steps, 0, steps.len() as int, contents, answers, 0) {
                Some((after, next)) => {
                    &&& forall|k: int|
                        0 <= k < 6 ==> #[trigger] cache_lines_lines(k, answers, 6 * k)
                    &&& after.full()
                    &&& next == 36
                },
                None => !(forall|k: int|
                    0 <= k < 6 ==> #[trigger] cache_lines_lines(k, answers, 6 * k)),
            }
        }),
{
    let round = |k: int| crate::categories::c17_caching::cache_line_access_lines_round(k as u64);
    let start = |k: int| 6 * k;
    let good = |k: int| cache_lines_lines(k, answers, start(k));
    let kept = |contents: Contents| contents.full();
    assert forall|k: int, contents: Contents|
        #![trigger good(k), kept(contents)]
        0 <= k < 6 && kept(contents) implies if good(k) {
        crate::walk::goes_to(round(k), contents, answers, start(k), start(k + 1), kept)
    } else {
        crate::walk::walked(round(k), 0, round(k).len() as int, contents, answers, start(k)) is None
    } by {
        lemma_cache_lines_lines(k, contents, answers, start(k));
    }
    crate::walk::law_rounds_keep_what_each_keeps(6, round, start, good, kept, contents, answers);
    if forall|k: int| 0 <= k < 6 ==> #[trigger] good(k) {
        assert forall|k: int| 0 <= k < 6 implies #[trigger] cache_lines_lines(
            k,
            answers,
            6 * k,
        ) by {
            assert(good(k));
        }
    } else {
        let k = choose|k: int| 0 <= k < 6 && !(#[trigger] good(k));
        assert(!cache_lines_lines(k, answers, 6 * k));
    }
}

/// One round of the part `odd`.
proof fn lemma_cache_lines_odd(k: int, contents: Contents, answers: Seq<Answer>, used: int)
    requires
        0 <= k < 4,
        used == 36 + 4 * k,
        contents.full(),
        cache_lines_shaped(answers),
    ensures
        match crate::walk::walked(
            crate::categories::c17_caching::cache_line_access_odd_sizes_round(k as u64),
            0,
            6,
            contents,
            answers,
            used,
        ) {
            Some((after, next)) => {
                &&& cache_lines_odd(k, answers, used)
                &&& after.full()
                &&& next == 36 + 4 * (k + 1)
            },
            None => !cache_lines_odd(k, answers, used),
        },
        crate::categories::c17_caching::cache_line_access_odd_sizes_round(k as u64).len() == 6,
{
    let steps = crate::categories::c17_caching::cache_line_access_odd_sizes_round(k as u64);
    assert(crate::laws::steps::column_or_refusal(answers[38 + 4 * k]));
    lemma_odd_sizes(k);
    lemma_strided(ODD_SIZES@[k], contents);
    let words1 = strided(ODD_SIZES@[k]);
    crate::laws::steps::lemma_fill(steps, 0, 6, contents, answers, used, words1);
    let next1 = contents.with_column(0, words1);
    crate::laws::steps::lemma_command(steps, 1, 6, next1, answers, used);
    crate::laws::steps::lemma_command(steps, 2, 6, next1, answers, used + 1);
    crate::laws::steps::lemma_download(steps, 3, 6, next1, answers, used + 2);
    if answers[used + 2] is Words {
        let next2 = next1.with_column(1, answers[used + 2]->Words_0);
        crate::laws::steps::lemma_scan_order(steps, 4, 6, next2, answers, used + 3, 1);
        crate::laws::steps::lemma_command(steps, 5, 6, next2, answers, used + 3);
        crate::laws::steps::lemma_end(steps, 6, next2, answers, used + 4);
    }
}

/// All rounds of the part `odd`.
proof fn lemma_cache_lines_odd_rounds(contents: Contents, answers: Seq<Answer>)
    requires
        contents.full(),
        cache_lines_shaped(answers),
    ensures
        ({
            let steps = crate::script::rounds(
                4,
                |k: int| crate::categories::c17_caching::cache_line_access_odd_sizes_round(
                    k as u64,
                ),
            );
            match crate::walk::walked(steps, 0, steps.len() as int, contents, answers, 36) {
                Some((after, next)) => {
                    &&& forall|k: int|
                        0 <= k < 4 ==> #[trigger] cache_lines_odd(k, answers, 36 + 4 * k)
                    &&& after.full()
                    &&& next == 52
                },
                None => !(forall|k: int|
                    0 <= k < 4 ==> #[trigger] cache_lines_odd(k, answers, 36 + 4 * k)),
            }
        }),
{
    let round = |k: int| crate::categories::c17_caching::cache_line_access_odd_sizes_round(
        k as u64,
    );
    let start = |k: int| 36 + 4 * k;
    let good = |k: int| cache_lines_odd(k, answers, start(k));
    let kept = |contents: Contents| contents.full();
    assert forall|k: int, contents: Contents|
        #![trigger good(k), kept(contents)]
        0 <= k < 4 && kept(contents) implies if good(k) {
        crate::walk::goes_to(round(k), contents, answers, start(k), start(k + 1), kept)
    } else {
        crate::walk::walked(round(k), 0, round(k).len() as int, contents, answers, start(k)) is None
    } by {
        lemma_cache_lines_odd(k, contents, answers, start(k));
    }
    crate::walk::law_rounds_keep_what_each_keeps(4, round, start, good, kept, contents, answers);
    if forall|k: int| 0 <= k < 4 ==> #[trigger] good(k) {
        assert forall|k: int| 0 <= k < 4 implies #[trigger] cache_lines_odd(
            k,
            answers,
            36 + 4 * k,
        ) by {
            assert(good(k));
        }
    } else {
        let k = choose|k: int| 0 <= k < 4 && !(#[trigger] good(k));
        assert(!cache_lines_odd(k, answers, 36 + 4 * k));
    }
}

/// The part `end`.
proof fn lemma_cache_lines_end(contents: Contents, answers: Seq<Answer>)
    requires
        contents.full(),
        cache_lines_shaped(answers),
    ensures
        match crate::walk::walked(
            crate::categories::c17_caching::cache_line_access_end_steps(),
            0,
            1,
            contents,
            answers,
            52,
        ) {
            Some((after, next)) => {
                &&& cache_lines_end(answers)
                &&& after.full()
                &&& next == 53
            },
            None => !cache_lines_end(answers),
        },
        crate::categories::c17_caching::cache_line_access_end_steps().len() == 1,
{
    let steps = crate::categories::c17_caching::cache_line_access_end_steps();
    crate::laws::steps::lemma_command(steps, 0, 1, contents, answers, 52);
    crate::laws::steps::lemma_end(steps, 1, contents, answers, 53);
}

/// The test has no jumps.
proof fn lemma_cache_lines_straight()
    ensures
        forall|j: int|
            0 <= j < crate::categories::c17_caching::cache_line_access_steps().len()
                ==> crate::walk::straight(
                #[trigger] crate::categories::c17_caching::cache_line_access_steps()[j],
            ),
{
    let part1 = crate::script::rounds(
        6,
        |k: int| crate::categories::c17_caching::cache_line_access_lines_round(k as u64),
    );
    let round1 = |k: int| crate::categories::c17_caching::cache_line_access_lines_round(k as u64);
    crate::walk::law_straight_rounds_are_straight(6, round1);
    let part2 = crate::script::rounds(
        4,
        |k: int| crate::categories::c17_caching::cache_line_access_odd_sizes_round(k as u64),
    );
    let round2 = |k: int| crate::categories::c17_caching::cache_line_access_odd_sizes_round(
        k as u64,
    );
    crate::walk::law_straight_rounds_are_straight(4, round2);
    let part3 = crate::categories::c17_caching::cache_line_access_end_steps();
    let whole1 = part1;
    let whole2 = whole1 + part2;
    crate::walk::law_straight_scripts_make_a_straight_one(whole1, part2);
    let whole3 = whole2 + part3;
    crate::walk::law_straight_scripts_make_a_straight_one(whole2, part3);
    assert(crate::categories::c17_caching::cache_line_access_steps() == whole3);
}

/// The test of cache lines passes exactly when, for each size of whole lines, all rows come back in
/// rising order and a filter of every other row leaves half of them, rounded up, and for each odd
/// size the rows come back in rising order.
pub proof fn law_cache_lines_pass_exactly_when_sorted_and_filtered(answers: Seq<Answer>)
    requires
        cache_lines_shaped(answers),
    ensures
        crate::machine::run_of(
            crate::script::plan(
                "test_cache_line_access",
                crate::categories::c17_caching::cache_line_access_steps(),
            ),
            answers,
        ).progress == Progress::Over(Ending::Passed) <==> {
            &&& forall|k: int|
                0 <= k < 6 ==> #[trigger] cache_lines_lines(k, answers, 6 * k)
            &&& forall|k: int|
                0 <= k < 4 ==> #[trigger] cache_lines_odd(k, answers, 36 + 4 * k)
            &&& cache_lines_end(answers)
        },
{
    let plan = crate::script::plan(
        "test_cache_line_access",
        crate::categories::c17_caching::cache_line_access_steps(),
    );
    let blank = Contents::blank(plan.texts);
    let part1 = crate::script::rounds(
        6,
        |k: int| crate::categories::c17_caching::cache_line_access_lines_round(k as u64),
    );
    let part2 = crate::script::rounds(
        4,
        |k: int| crate::categories::c17_caching::cache_line_access_odd_sizes_round(k as u64),
    );
    let part3 = crate::categories::c17_caching::cache_line_access_end_steps();
    let whole1 = part1;
    let whole2 = whole1 + part2;
    let whole3 = whole2 + part3;
    assert(plan.steps == whole3);
    lemma_cache_lines_lines_rounds(blank, answers);
    crate::walk::law_walks_over_two_scripts_compose(whole1, part2, blank, answers, 0);
    crate::walk::law_walks_over_two_scripts_compose(whole2, part3, blank, answers, 0);
    match crate::walk::walked(whole1, 0, whole1.len() as int, blank, answers, 0) {
        Some((after, _)) => {
            lemma_cache_lines_odd_rounds(after, answers);
            match crate::walk::walked(whole2, 0, whole2.len() as int, blank, answers, 0) {
                Some((after, _)) => {
                    lemma_cache_lines_end(after, answers);
                },
                None => {},
            }
        },
        None => {},
    }
    lemma_cache_lines_straight();
    crate::walk::law_passes_exactly_when_every_step_goes_through(plan, answers);
}

/// Whether the answers to the downloads of the test are columns or refusals.
pub open spec fn baseline_shaped(answers: Seq<Answer>) -> bool {
    &&& answers.len() >= 13
    &&& crate::laws::steps::column_or_refusal(answers[2])
}

/// What the device has to answer in the part `column`.
pub open spec fn baseline_column(answers: Seq<Answer>) -> bool {
    &&& !(answers[0] is Failed)
    &&& !(answers[1] is Failed)
    &&& answers[2] is Words
    &&& crate::laws::steps::rises(answers[2]->Words_0)
    &&& answers[2]->Words_0 == crate::columns::sorted(
        Scalar::U32,
        crate::laws::words::scattered(1000000, 100000),
    )
    &&& !(answers[3] is Failed)
    &&& answers[4] == Answer::Count(33334)
}

/// What the device has to answer in the part `tables`.
pub open spec fn baseline_tables(answers: Seq<Answer>) -> bool {
    &&& !(answers[5] is Failed)
    &&& !(answers[6] is Failed)
    &&& answers[7] == Answer::Count(1000)
    &&& !(answers[8] is Failed)
    &&& !(answers[9] is Failed)
    &&& !(answers[10] is Failed)
    &&& answers[11] == Answer::Count(500)
    &&& !(answers[12] is Failed)
}

/// The part `column`.
proof fn lemma_baseline_column(contents: Contents, answers: Seq<Answer>)
    requires
        contents.full(),
        baseline_shaped(answers),
    ensures
        match crate::walk::walked(
            crate::categories::c20_multi_gpu::single_gpu_baseline_column_steps(),
            0,
            10,
            contents,
            answers,
            0,
        ) {
            Some((after, next)) => {
                &&& baseline_column(answers)
                &&& after.full()
                &&& next == 5
            },
            None => !baseline_column(answers),
        },
        crate::categories::c20_multi_gpu::single_gpu_baseline_column_steps().len() == 10,
{
    let steps = crate::categories::c20_multi_gpu::single_gpu_baseline_column_steps();
    crate::laws::words::lemma_scattered(1000000, 100000, contents);
    let words1 = crate::laws::words::scattered(1000000, 100000);
    crate::laws::steps::lemma_fill(steps, 0, 10, contents, answers, 0, words1);
    let next1 = contents.with_column(0, words1);
    crate::laws::steps::lemma_command(steps, 1, 10, next1, answers, 0);
    crate::laws::steps::lemma_command(steps, 2, 10, next1, answers, 1);
    crate::laws::steps::lemma_download(steps, 3, 10, next1, answers, 2);
    if answers[2] is Words {
        let next2 = next1.with_column(1, answers[2]->Words_0);
        crate::laws::steps::lemma_scan_order(steps, 4, 10, next2, answers, 3, 1);
        crate::laws::steps::lemma_sort_column(steps, 5, 10, next2, answers, 3);
        let next3 = next2.with_column(
            2,
            crate::columns::sorted(Scalar::U32, crate::laws::words::scattered(1000000, 100000)),
        );
        crate::laws::steps::lemma_not_alike(next3, 1, 2);
        crate::laws::steps::lemma_check(
            steps,
            6,
            10,
            next3,
            answers,
            3,
            !(
                answers[2]->Words_0 == crate::columns::sorted(
                    Scalar::U32,
                    crate::laws::words::scattered(1000000, 100000),
                )
            ),
        );
        crate::laws::masks::lemma_remainder_words(3, 100000, next3);
        let words4 = crate::laws::masks::every(3, 100000);
        crate::laws::steps::lemma_fill(steps, 7, 10, next3, answers, 3, words4);
        let next4 = next3.with_column(3, words4);
        crate::laws::steps::lemma_command(steps, 8, 10, next4, answers, 3);
        crate::laws::steps::lemma_match(steps, 9, 10, next4, answers, 4, 33334);
        let next5 = next4.with_register(COUNT, 33334);
        crate::laws::steps::lemma_end(steps, 10, next5, answers, 5);
    }
}

/// The part `tables`.
proof fn lemma_baseline_tables(contents: Contents, answers: Seq<Answer>)
    requires
        contents.full(),
        baseline_shaped(answers),
    ensures
        match crate::walk::walked(
            crate::categories::c20_multi_gpu::single_gpu_baseline_tables_steps(),
            0,
            14,
            contents,
            answers,
            5,
        ) {
            Some((after, next)) => {
                &&& baseline_tables(answers)
                &&& after.full()
                &&& next == 13
            },
            None => !baseline_tables(answers),
        },
        crate::categories::c20_multi_gpu::single_gpu_baseline_tables_steps().len() == 14,
{
    let steps = crate::categories::c20_multi_gpu::single_gpu_baseline_tables_steps();
    crate::laws::words::lemma_cyclic(1000, 100000, contents);
    let words1 = crate::laws::words::cyclic(1000, 100000);
    crate::laws::steps::lemma_fill(steps, 0, 14, contents, answers, 5, words1);
    let next1 = contents.with_column(4, words1);
    crate::laws::words::lemma_below(100000, next1);
    let words2 = crate::laws::words::below(100000);
    crate::laws::steps::lemma_fill(steps, 1, 14, next1, answers, 5, words2);
    let next2 = next1.with_column(5, words2);
    crate::laws::steps::lemma_command(steps, 2, 14, next2, answers, 5);
    crate::laws::steps::lemma_command(steps, 3, 14, next2, answers, 6);
    crate::laws::steps::lemma_match(steps, 4, 14, next2, answers, 7, 1000);
    let next3 = next2.with_register(COUNT, 1000);
    crate::laws::words::lemma_below(1000, next3);
    let words4 = crate::laws::words::below(1000);
    crate::laws::steps::lemma_fill(steps, 5, 14, next3, answers, 8, words4);
    let next4 = next3.with_column(6, words4);
    crate::laws::words::lemma_scaled(6, 2, next4);
    let words5 = crate::laws::words::scaled(crate::laws::words::below(1000), 2);
    crate::laws::steps::lemma_fill(steps, 6, 14, next4, answers, 8, words5);
    let next5 = next4.with_column(7, words5);
    crate::laws::words::lemma_scaled_places(2, 500, next5);
    let words6 = crate::laws::words::scaled(crate::laws::words::below(500), 2);
    crate::laws::steps::lemma_fill(steps, 7, 14, next5, answers, 8, words6);
    let next6 = next5.with_column(8, words6);
    crate::laws::words::lemma_scaled(8, 3, next6);
    let words7 = crate::laws::words::scaled(
        crate::laws::words::scaled(crate::laws::words::below(500), 2),
        3,
    );
    crate::laws::steps::lemma_fill(steps, 8, 14, next6, answers, 8, words7);
    let next7 = next6.with_column(9, words7);
    crate::laws::steps::lemma_command(steps, 9, 14, next7, answers, 8);
    crate::laws::steps::lemma_command(steps, 10, 14, next7, answers, 9);
    crate::laws::steps::lemma_command(steps, 11, 14, next7, answers, 10);
    crate::laws::steps::lemma_match(steps, 12, 14, next7, answers, 11, 500);
    let next8 = next7.with_register(COUNT, 500);
    crate::laws::steps::lemma_command(steps, 13, 14, next8, answers, 12);
    crate::laws::steps::lemma_end(steps, 14, next8, answers, 13);
}

/// The test has no jumps.
proof fn lemma_baseline_straight()
    ensures
        forall|j: int|
            0 <= j < crate::categories::c20_multi_gpu::single_gpu_baseline_steps().len()
                ==> crate::walk::straight(
                #[trigger] crate::categories::c20_multi_gpu::single_gpu_baseline_steps()[j],
            ),
{
    let part1 = crate::categories::c20_multi_gpu::single_gpu_baseline_column_steps();
    let part2 = crate::categories::c20_multi_gpu::single_gpu_baseline_tables_steps();
    let whole1 = part1;
    let whole2 = whole1 + part2;
    crate::walk::law_straight_scripts_make_a_straight_one(whole1, part2);
    assert(crate::categories::c20_multi_gpu::single_gpu_baseline_steps() == whole2);
}

/// The baseline of one device passes exactly when a sort hands out the sorted column, a filter
/// leaves every third row, removing duplicates leaves the thousand keys, and a join leaves the five
/// hundred common rows.
pub proof fn law_baseline_passes_exactly_when_every_operation_is_right(answers: Seq<Answer>)
    requires
        baseline_shaped(answers),
    ensures
        crate::machine::run_of(
            crate::script::plan(
                "test_single_gpu_baseline",
                crate::categories::c20_multi_gpu::single_gpu_baseline_steps(),
            ),
            answers,
        ).progress == Progress::Over(Ending::Passed) <==> {
            &&& baseline_column(answers)
            &&& baseline_tables(answers)
        },
{
    let plan = crate::script::plan(
        "test_single_gpu_baseline",
        crate::categories::c20_multi_gpu::single_gpu_baseline_steps(),
    );
    let blank = Contents::blank(plan.texts);
    let part1 = crate::categories::c20_multi_gpu::single_gpu_baseline_column_steps();
    let part2 = crate::categories::c20_multi_gpu::single_gpu_baseline_tables_steps();
    let whole1 = part1;
    let whole2 = whole1 + part2;
    assert(plan.steps == whole2);
    lemma_baseline_column(blank, answers);
    crate::walk::law_walks_over_two_scripts_compose(whole1, part2, blank, answers, 0);
    match crate::walk::walked(whole1, 0, whole1.len() as int, blank, answers, 0) {
        Some((after, _)) => {
            lemma_baseline_tables(after, answers);
        },
        None => {},
    }
    lemma_baseline_straight();
    crate::walk::law_passes_exactly_when_every_step_goes_through(plan, answers);
}

} // verus!
