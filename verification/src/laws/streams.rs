//! The laws of the tests that keep the results of several operations apart.

use vstd::prelude::*;
use crate::expr::{
    differs, here, ix, len, lt, modulo, not, num, or, plus, reg, same_as, sum_of, times,
};
use crate::machine::{Answer, Ending, Progress};
use crate::memory::Contents;
use crate::scalar::Scalar;
use crate::script::{Act, Faults, Step, COUNT};

verus! {

/// The ten thousand numbers of buffer `k`.
pub open spec fn window(k: int) -> Seq<u64> {
    Seq::new(10000, |i: int| (k * 10000 + i % 10000) as u64)
}

/// One of the words of [`window`].
proof fn lemma_window_at(k: int, contents: Contents, i: u64)
    requires
        0 <= k < 5,
        i < 10000,
    ensures
        crate::expr::value_of(
            plus(times(num(k as u64), num(10000)), modulo(ix(), num(10000))),
            contents,
            i,
        ) == Some(window(k)[i as int]),
{
    reveal_with_fuel(crate::expr::value_of, 4);
}

/// The words of [`window`].
proof fn lemma_window(k: int, contents: Contents)
    requires
        0 <= k < 5,
    ensures
        forall|i: int|
            0 <= i < 10000 ==> #[trigger] crate::expr::value_of(
                plus(times(num(k as u64), num(10000)), modulo(ix(), num(10000))),
                contents,
                i as u64,
            ) == Some(window(k)[i]),
{
    assert forall|i: int| 0 <= i < 10000 implies #[trigger] crate::expr::value_of(
        plus(times(num(k as u64), num(10000)), modulo(ix(), num(10000))),
        contents,
        i as u64,
    ) == Some(window(k)[i]) by {
        lemma_window_at(k, contents, i as u64);
    }
}

/// A column of numbers below a bound adds up to less than the bound for each of them.
proof fn lemma_total_bound(words: Seq<u64>, bound: int)
    requires
        forall|i: int| 0 <= i < words.len() ==> words[i] <= bound,
    ensures
        0 <= crate::columns::total(words) <= words.len() * bound,
    decreases words.len(),
{
    if words.len() > 0 {
        let rest = words.drop_last();
        assert forall|i: int| 0 <= i < rest.len() implies rest[i] <= bound by {
            assert(words[i] <= bound);
        }
        lemma_total_bound(rest, bound);
        assert(words[words.len() - 1] <= bound);
        assert(words.len() * bound == rest.len() * bound + bound) by (nonlinear_arith)
            requires
                words.len() == rest.len() + 1,
        ;
    } else {
        assert(words.len() * bound == 0) by (nonlinear_arith)
            requires
                words.len() == 0,
        ;
    }
}

/// The sum of the numbers of a buffer.
proof fn lemma_window_total(k: int, contents: Contents)
    requires
        0 <= k < 5,
        contents.full(),
        contents.columns[0] == window(k),
    ensures
        0 <= crate::columns::total(window(k)) <= u64::MAX,
        crate::expr::value_of(sum_of(0), contents, 0) == Some(
            crate::columns::total(window(k)) as u64,
        ),
{
    lemma_total_bound(window(k), 60000);
}

/// Whether all words of a column lie between two numbers.
pub open spec fn within(words: Seq<u64>, low: int, high: int) -> bool {
    forall|i: int| 0 <= i < words.len() ==> low <= #[trigger] words[i] < high
}

/// Whether a word lies outside of the window of buffer `k`.
#[verifier::spinoff_prover]
#[verifier::rlimit(50)]
proof fn lemma_outside(k: int, contents: Contents, i: u64)
    requires
        0 <= k < 5,
        contents.full(),
        i < contents.columns[1].len(),
    ensures
        crate::expr::value_of(
            or(
                lt(here(1), times(num(k as u64), num(10000))),
                not(lt(here(1), plus(times(num(k as u64), num(10000)), num(10000)))),
            ),
            contents,
            i,
        ) == Some(
            crate::expr::truth(
                !(k * 10000 <= contents.columns[1][i as int] < k * 10000 + 10000),
            ),
        ),
{
    reveal_with_fuel(crate::expr::value_of, 6);
}

/// A scan for words outside of the window of buffer `k`.
proof fn lemma_scan_within(
    steps: Seq<Step>,
    at: int,
    to: int,
    contents: Contents,
    answers: Seq<Answer>,
    used: int,
    k: int,
)
    requires
        at < to,
        0 <= k < 5,
        contents.full(),
        contents.columns[1].len() <= u64::MAX,
        crate::machine::taken(steps[at], contents) == Some(true),
        crate::machine::act_of(steps[at]) matches Act::Scan { low, high, by, faults } && {
            &&& low == num(0)
            &&& high == len(1)
            &&& by == 1
            &&& faults matches Faults::One(fault, _)
            &&& fault == or(
                lt(here(1), times(num(k as u64), num(10000))),
                not(lt(here(1), plus(times(num(k as u64), num(10000)), num(10000)))),
            )
        },
    ensures
        crate::walk::walked(steps, at, to, contents, answers, used) == (if within(
            contents.columns[1],
            k * 10000,
            k * 10000 + 10000,
        ) {
            crate::walk::walked(steps, at + 1, to, contents, answers, used)
        } else {
            None
        }),
{
    let words = contents.columns[1];
    match crate::machine::act_of(steps[at]) {
        Act::Scan { faults, .. } => {
            crate::laws::steps::lemma_scan(
                steps,
                at,
                to,
                contents,
                answers,
                used,
                0,
                words.len() as u64,
            );
            assert forall|i: int| 0 <= i < words.len() implies (#[trigger] crate::walk::shows(
                faults,
                contents,
                i as u64,
            ) <==> !(k * 10000 <= words[i] < k * 10000 + 10000)) by {
                lemma_outside(k, contents, i as u64);
            }
            if within(words, k * 10000, k * 10000 + 10000) {
                assert forall|i: int| 0 <= i < words.len() implies !(#[trigger] crate::walk::shows(
                    faults,
                    contents,
                    i as u64,
                )) by {
                    assert(k * 10000 <= words[i] < k * 10000 + 10000);
                }
            } else {
                let i = choose|i: int|
                    0 <= i < words.len() && !(k * 10000 <= #[trigger] words[i] < k * 10000 + 10000);
                assert(crate::walk::shows(faults, contents, i as u64));
            }
        },
        _ => {},
    }
}

/// Whether the length of a column is not the expected one.
proof fn lemma_length(contents: Contents, slot: u64, expected: u64)
    requires
        slot < contents.columns.len(),
        contents.columns[slot as int].len() <= u64::MAX,
    ensures
        crate::expr::value_of(differs(len(slot), num(expected)), contents, 0) == Some(
            crate::expr::truth(contents.columns[slot as int].len() != expected),
        ),
{
    crate::laws::steps::lemma_differs(len(slot), num(expected), contents, 0);
}

/// The ten thousand keys of buffer `k` of a batch.
pub open spec fn batch_keys(k: int) -> Seq<u64> {
    Seq::new(10000, |i: int| ((i * (k + 1) * 17 + 13) % 100000) as u64)
}

/// One of the words of [`batch_keys`].
proof fn lemma_batch_key(k: int, contents: Contents, i: u64)
    requires
        0 <= k < 10,
        i < 10000,
    ensures
        crate::expr::value_of(
            modulo(
                plus(times(times(ix(), plus(num(k as u64), num(1))), num(17)), num(13)),
                num(100000),
            ),
            contents,
            i,
        ) == Some(batch_keys(k)[i as int]),
{
    let factor = (k + 1) as u64;
    assert(crate::expr::value_of(plus(num(k as u64), num(1)), contents, i) == Some(factor)) by {
        reveal_with_fuel(crate::expr::value_of, 2);
    }
    assert(0 <= i * factor <= 100000) by (nonlinear_arith)
        requires
            i < 10000,
            0 < factor <= 10,
    ;
    let product = times(ix(), plus(num(k as u64), num(1)));
    assert(crate::expr::value_of(ix(), contents, i) == Some(i));
    assert(crate::expr::value_of(product, contents, i) == Some((i * factor) as u64));
    let value = (i * factor) as u64;
    assert(crate::expr::value_of(times(product, num(17)), contents, i) == Some((value * 17) as u64))
        by {
        assert(crate::expr::value_of(num(17), contents, i) == Some(17u64));
    }
    assert(crate::expr::value_of(plus(times(product, num(17)), num(13)), contents, i) == Some(
        (value * 17 + 13) as u64,
    )) by {
        assert(crate::expr::value_of(num(13), contents, i) == Some(13u64));
    }
    assert(crate::expr::value_of(num(100000), contents, i) == Some(100000u64));
}

/// The words of [`batch_keys`].
proof fn lemma_batch_keys(k: int, contents: Contents)
    requires
        0 <= k < 10,
    ensures
        forall|i: int|
            0 <= i < 10000 ==> #[trigger] crate::expr::value_of(
                modulo(
                    plus(times(times(ix(), plus(num(k as u64), num(1))), num(17)), num(13)),
                    num(100000),
                ),
                contents,
                i as u64,
            ) == Some(batch_keys(k)[i]),
{
    assert forall|i: int| 0 <= i < 10000 implies #[trigger] crate::expr::value_of(
        modulo(
            plus(times(times(ix(), plus(num(k as u64), num(1))), num(17)), num(13)),
            num(100000),
        ),
        contents,
        i as u64,
    ) == Some(batch_keys(k)[i]) by {
        lemma_batch_key(k, contents, i as u64);
    }
}

/// The mask of batch `k`: every third row, shifted.
pub open spec fn batch_mask(k: int) -> Seq<u64> {
    Seq::new(10000, |i: int| crate::expr::truth((i + k) % 3 == 0))
}

/// One of the words of [`batch_mask`].
proof fn lemma_batch_mark(k: int, contents: Contents, i: u64)
    requires
        0 <= k < 10,
        i < 10000,
    ensures
        crate::expr::value_of(
            same_as(modulo(plus(ix(), num(k as u64)), num(3)), num(0)),
            contents,
            i,
        ) == Some(batch_mask(k)[i as int]),
{
    reveal_with_fuel(crate::expr::value_of, 4);
}

/// The words of [`batch_mask`].
proof fn lemma_batch_mask(k: int, contents: Contents)
    requires
        0 <= k < 10,
    ensures
        forall|i: int|
            0 <= i < 10000 ==> #[trigger] crate::expr::value_of(
                same_as(modulo(plus(ix(), num(k as u64)), num(3)), num(0)),
                contents,
                i as u64,
            ) == Some(batch_mask(k)[i]),
{
    assert forall|i: int| 0 <= i < 10000 implies #[trigger] crate::expr::value_of(
        same_as(modulo(plus(ix(), num(k as u64)), num(3)), num(0)),
        contents,
        i as u64,
    ) == Some(batch_mask(k)[i]) by {
        lemma_batch_mark(k, contents, i as u64);
    }
}

/// Whether the answers to the downloads of the test are columns or refusals.
pub open spec fn apart_shaped(answers: Seq<Answer>) -> bool {
    &&& answers.len() >= 26
    &&& forall|k: int|
        0 <= k < 5 ==> crate::laws::steps::column_or_refusal(#[trigger] answers[10 + 1 * k])
    &&& forall|k: int|
        0 <= k < 5 ==> crate::laws::steps::column_or_refusal(#[trigger] answers[20 + 1 * k])
}

/// What the device has to answer in round `k` of the part `buffers`, from answer `used` on.
pub open spec fn apart_buffers(k: int, answers: Seq<Answer>, used: int) -> bool {
    !(answers[used] is Failed)
}

/// What the device has to answer in round `k` of the part `sorts`, from answer `used` on.
pub open spec fn apart_sorts(k: int, answers: Seq<Answer>, used: int) -> bool {
    !(answers[used] is Failed)
}

/// What the device has to answer in round `k` of the part `sorted`, from answer `used` on.
pub open spec fn apart_sorted(k: int, answers: Seq<Answer>, used: int) -> bool {
    &&& answers[used] is Words
    &&& answers[used]->Words_0.len() == 10000
    &&& 0 <= crate::columns::total(answers[used]->Words_0) <= u64::MAX
    &&& crate::columns::total(answers[used]->Words_0) == crate::columns::total(window(k))
    &&& within(answers[used]->Words_0, k * 10000, k * 10000 + 10000)
    &&& crate::laws::steps::rises(answers[used]->Words_0)
}

/// What the device has to answer in round `k` of the part `filters`, from answer `used` on.
pub open spec fn apart_filters(k: int, answers: Seq<Answer>, used: int) -> bool {
    !(answers[used] is Failed)
}

/// What the device has to answer in round `k` of the part `filtered`, from answer `used` on.
pub open spec fn apart_filtered(k: int, answers: Seq<Answer>, used: int) -> bool {
    &&& answers[used] is Words
    &&& answers[used]->Words_0.len() == 5000
    &&& within(answers[used]->Words_0, k * 10000, k * 10000 + 10000)
}

/// What the device has to answer in the part `end`.
pub open spec fn apart_end(answers: Seq<Answer>) -> bool {
    !(answers[25] is Failed)
}

/// One round of the part `buffers`.
proof fn lemma_apart_buffers(k: int, contents: Contents, answers: Seq<Answer>, used: int)
    requires
        0 <= k < 5,
        used == k,
        contents.full(),
        apart_shaped(answers),
    ensures
        match crate::walk::walked(
            crate::categories::c19_multi_stream::operation_isolation_buffers_round(k as u64),
            0,
            2,
            contents,
            answers,
            used,
        ) {
            Some((after, next)) => {
                &&& apart_buffers(k, answers, used)
                &&& after.full()
                &&& next == k + 1
            },
            None => !apart_buffers(k, answers, used),
        },
        crate::categories::c19_multi_stream::operation_isolation_buffers_round(k as u64).len() == 2,
{
    let steps = crate::categories::c19_multi_stream::operation_isolation_buffers_round(k as u64);
    lemma_window(k, contents);
    let words1 = window(k);
    crate::laws::steps::lemma_fill(steps, 0, 2, contents, answers, used, words1);
    let next1 = contents.with_column(0, words1);
    crate::laws::steps::lemma_command(steps, 1, 2, next1, answers, used);
    crate::laws::steps::lemma_end(steps, 2, next1, answers, used + 1);
}

/// All rounds of the part `buffers`.
proof fn lemma_apart_buffers_rounds(contents: Contents, answers: Seq<Answer>)
    requires
        contents.full(),
        apart_shaped(answers),
    ensures
        ({
            let steps = crate::script::rounds(
                5,
                |k: int| crate::categories::c19_multi_stream::operation_isolation_buffers_round(
                    k as u64,
                ),
            );
            match crate::walk::walked(steps, 0, steps.len() as int, contents, answers, 0) {
                Some((after, next)) => {
                    &&& forall|k: int|
                        0 <= k < 5 ==> #[trigger] apart_buffers(k, answers, k)
                    &&& after.full()
                    &&& next == 5
                },
                None => !(forall|k: int|
                    0 <= k < 5 ==> #[trigger] apart_buffers(k, answers, k)),
            }
        }),
{
    let round = |k: int| crate::categories::c19_multi_stream::operation_isolation_buffers_round(
        k as u64,
    );
    let start = |k: int| k;
    let good = |k: int| apart_buffers(k, answers, start(k));
    let kept = |contents: Contents| contents.full();
    assert forall|k: int, contents: Contents|
        #![trigger good(k), kept(contents)]
        0 <= k < 5 && kept(contents) implies if good(k) {
        crate::walk::goes_to(round(k), contents, answers, start(k), start(k + 1), kept)
    } else {
        crate::walk::walked(round(k), 0, round(k).len() as int, contents, answers, start(k)) is None
    } by {
        lemma_apart_buffers(k, contents, answers, start(k));
    }
    crate::walk::law_rounds_keep_what_each_keeps(5, round, start, good, kept, contents, answers);
    if forall|k: int| 0 <= k < 5 ==> #[trigger] good(k) {
        assert forall|k: int| 0 <= k < 5 implies #[trigger] apart_buffers(
            k,
            answers,
            k,
        ) by {
            assert(good(k));
        }
    } else {
        let k = choose|k: int| 0 <= k < 5 && !(#[trigger] good(k));
        assert(!apart_buffers(k, answers, k));
    }
}

/// One round of the part `sorts`.
proof fn lemma_apart_sorts(k: int, contents: Contents, answers: Seq<Answer>, used: int)
    requires
        0 <= k < 5,
        used == 5 + 1 * k,
        contents.full(),
        apart_shaped(answers),
    ensures
        match crate::walk::walked(
            crate::categories::c19_multi_stream::operation_isolation_sorts_round(k as u64),
            0,
            1,
            contents,
            answers,
            used,
        ) {
            Some((after, next)) => {
                &&& apart_sorts(k, answers, used)
                &&& after.full()
                &&& next == 5 + 1 * (k + 1)
            },
            None => !apart_sorts(k, answers, used),
        },
        crate::categories::c19_multi_stream::operation_isolation_sorts_round(k as u64).len() == 1,
{
    let steps = crate::categories::c19_multi_stream::operation_isolation_sorts_round(k as u64);
    crate::laws::steps::lemma_command(steps, 0, 1, contents, answers, used);
    crate::laws::steps::lemma_end(steps, 1, contents, answers, used + 1);
}

/// All rounds of the part `sorts`.
proof fn lemma_apart_sorts_rounds(contents: Contents, answers: Seq<Answer>)
    requires
        contents.full(),
        apart_shaped(answers),
    ensures
        ({
            let steps = crate::script::rounds(
                5,
                |k: int| crate::categories::c19_multi_stream::operation_isolation_sorts_round(
                    k as u64,
                ),
            );
            match crate::walk::walked(steps, 0, steps.len() as int, contents, answers, 5) {
                Some((after, next)) => {
                    &&& forall|k: int| 0 <= k < 5 ==> #[trigger] apart_sorts(k, answers, 5 + 1 * k)
                    &&& after.full()
                    &&& next == 10
                },
                None => !(forall|k: int|
                    0 <= k < 5 ==> #[trigger] apart_sorts(k, answers, 5 + 1 * k)),
            }
        }),
{
    let round = |k: int| crate::categories::c19_multi_stream::operation_isolation_sorts_round(
        k as u64,
    );
    let start = |k: int| 5 + 1 * k;
    let good = |k: int| apart_sorts(k, answers, start(k));
    let kept = |contents: Contents| contents.full();
    assert forall|k: int, contents: Contents|
        #![trigger good(k), kept(contents)]
        0 <= k < 5 && kept(contents) implies if good(k) {
        crate::walk::goes_to(round(k), contents, answers, start(k), start(k + 1), kept)
    } else {
        crate::walk::walked(round(k), 0, round(k).len() as int, contents, answers, start(k)) is None
    } by {
        lemma_apart_sorts(k, contents, answers, start(k));
    }
    crate::walk::law_rounds_keep_what_each_keeps(5, round, start, good, kept, contents, answers);
    if forall|k: int| 0 <= k < 5 ==> #[trigger] good(k) {
        assert forall|k: int| 0 <= k < 5 implies #[trigger] apart_sorts(k, answers, 5 + 1 * k) by {
            assert(good(k));
        }
    } else {
        let k = choose|k: int| 0 <= k < 5 && !(#[trigger] good(k));
        assert(!apart_sorts(k, answers, 5 + 1 * k));
    }
}

/// One round of the part `sorted`.
proof fn lemma_apart_sorted(k: int, contents: Contents, answers: Seq<Answer>, used: int)
    requires
        0 <= k < 5,
        used == 10 + 1 * k,
        contents.full(),
        apart_shaped(answers),
    ensures
        match crate::walk::walked(
            crate::categories::c19_multi_stream::operation_isolation_sorted_round(k as u64),
            0,
            8,
            contents,
            answers,
            used,
        ) {
            Some((after, next)) => {
                &&& apart_sorted(k, answers, used)
                &&& after.full()
                &&& next == 10 + 1 * (k + 1)
            },
            None => !apart_sorted(k, answers, used),
        },
        crate::categories::c19_multi_stream::operation_isolation_sorted_round(k as u64).len() == 8,
{
    let steps = crate::categories::c19_multi_stream::operation_isolation_sorted_round(k as u64);
    assert(crate::laws::steps::column_or_refusal(answers[10 + 1 * k]));
    crate::laws::steps::lemma_download(steps, 0, 8, contents, answers, used);
    if answers[used] is Words {
        let next1 = contents.with_column(1, answers[used]->Words_0);
        lemma_length(next1, 1, 10000);
        crate::laws::steps::lemma_check(
            steps,
            1,
            8,
            next1,
            answers,
            used + 1,
            !(answers[used]->Words_0.len() == 10000),
        );
        lemma_window(k, next1);
        let words2 = window(k);
        crate::laws::steps::lemma_fill(steps, 2, 8, next1, answers, used + 1, words2);
        let next2 = next1.with_column(0, words2);
        lemma_window_total(k, next2);
        crate::laws::steps::lemma_put(
            steps,
            3,
            8,
            next2,
            answers,
            used + 1,
            crate::columns::total(window(k)) as u64,
        );
        let next3 = next2.with_register(0, crate::columns::total(window(k)) as u64);
        crate::laws::steps::lemma_put_or_abort(steps, 4, 8, next3, answers, used + 1);
        if 0 <= crate::columns::total(answers[used]->Words_0) <= u64::MAX {
            let next4 = next3.with_register(
                1,
                crate::columns::total(answers[used]->Words_0) as u64,
            );
            lemma_window_total(k, next4);
            crate::laws::steps::lemma_register(
                next4,
                1,
                reg(0),
                crate::columns::total(window(k)) as u64,
            );
            crate::laws::steps::lemma_check(
                steps,
                5,
                8,
                next4,
                answers,
                used + 1,
                !(
                    crate::columns::total(
                        answers[used]->Words_0,
                    ) == crate::columns::total(window(k))
                ),
            );
            lemma_scan_within(steps, 6, 8, next4, answers, used + 1, k);
            crate::laws::steps::lemma_scan_order(steps, 7, 8, next4, answers, used + 1, 1);
            crate::laws::steps::lemma_end(steps, 8, next4, answers, used + 1);
        }
    }
}

/// All rounds of the part `sorted`.
proof fn lemma_apart_sorted_rounds(contents: Contents, answers: Seq<Answer>)
    requires
        contents.full(),
        apart_shaped(answers),
    ensures
        ({
            let steps = crate::script::rounds(
                5,
                |k: int| crate::categories::c19_multi_stream::operation_isolation_sorted_round(
                    k as u64,
                ),
            );
            match crate::walk::walked(steps, 0, steps.len() as int, contents, answers, 10) {
                Some((after, next)) => {
                    &&& forall|k: int|
                        0 <= k < 5 ==> #[trigger] apart_sorted(k, answers, 10 + 1 * k)
                    &&& after.full()
                    &&& next == 15
                },
                None => !(forall|k: int|
                    0 <= k < 5 ==> #[trigger] apart_sorted(k, answers, 10 + 1 * k)),
            }
        }),
{
    let round = |k: int| crate::categories::c19_multi_stream::operation_isolation_sorted_round(
        k as u64,
    );
    let start = |k: int| 10 + 1 * k;
    let good = |k: int| apart_sorted(k, answers, start(k));
    let kept = |contents: Contents| contents.full();
    assert forall|k: int, contents: Contents|
        #![trigger good(k), kept(contents)]
        0 <= k < 5 && kept(contents) implies if good(k) {
        crate::walk::goes_to(round(k), contents, answers, start(k), start(k + 1), kept)
    } else {
        crate::walk::walked(round(k), 0, round(k).len() as int, contents, answers, start(k)) is None
    } by {
        lemma_apart_sorted(k, contents, answers, start(k));
    }
    crate::walk::law_rounds_keep_what_each_keeps(5, round, start, good, kept, contents, answers);
    if forall|k: int| 0 <= k < 5 ==> #[trigger] good(k) {
        assert forall|k: int| 0 <= k < 5 implies #[trigger] apart_sorted(
            k,
            answers,
            10 + 1 * k,
        ) by {
            assert(good(k));
        }
    } else {
        let k = choose|k: int| 0 <= k < 5 && !(#[trigger] good(k));
        assert(!apart_sorted(k, answers, 10 + 1 * k));
    }
}

/// One round of the part `filters`.
proof fn lemma_apart_filters(k: int, contents: Contents, answers: Seq<Answer>, used: int)
    requires
        0 <= k < 5,
        used == 15 + 1 * k,
        contents.full(),
        apart_shaped(answers),
    ensures
        match crate::walk::walked(
            crate::categories::c19_multi_stream::operation_isolation_filters_round(k as u64),
            0,
            2,
            contents,
            answers,
            used,
        ) {
            Some((after, next)) => {
                &&& apart_filters(k, answers, used)
                &&& after.full()
                &&& next == 15 + 1 * (k + 1)
            },
            None => !apart_filters(k, answers, used),
        },
        crate::categories::c19_multi_stream::operation_isolation_filters_round(k as u64).len() == 2,
{
    let steps = crate::categories::c19_multi_stream::operation_isolation_filters_round(k as u64);
    crate::laws::words::lemma_leading(5000, 10000, contents);
    let words1 = crate::laws::words::leading(5000, 10000);
    crate::laws::steps::lemma_fill(steps, 0, 2, contents, answers, used, words1);
    let next1 = contents.with_column(2, words1);
    crate::laws::steps::lemma_command(steps, 1, 2, next1, answers, used);
    crate::laws::steps::lemma_end(steps, 2, next1, answers, used + 1);
}

/// All rounds of the part `filters`.
proof fn lemma_apart_filters_rounds(contents: Contents, answers: Seq<Answer>)
    requires
        contents.full(),
        apart_shaped(answers),
    ensures
        ({
            let steps = crate::script::rounds(
                5,
                |k: int| crate::categories::c19_multi_stream::operation_isolation_filters_round(
                    k as u64,
                ),
            );
            match crate::walk::walked(steps, 0, steps.len() as int, contents, answers, 15) {
                Some((after, next)) => {
                    &&& forall|k: int|
                        0 <= k < 5 ==> #[trigger] apart_filters(k, answers, 15 + 1 * k)
                    &&& after.full()
                    &&& next == 20
                },
                None => !(forall|k: int|
                    0 <= k < 5 ==> #[trigger] apart_filters(k, answers, 15 + 1 * k)),
            }
        }),
{
    let round = |k: int| crate::categories::c19_multi_stream::operation_isolation_filters_round(
        k as u64,
    );
    let start = |k: int| 15 + 1 * k;
    let good = |k: int| apart_filters(k, answers, start(k));
    let kept = |contents: Contents| contents.full();
    assert forall|k: int, contents: Contents|
        #![trigger good(k), kept(contents)]
        0 <= k < 5 && kept(contents) implies if good(k) {
        crate::walk::goes_to(round(k), contents, answers, start(k), start(k + 1), kept)
    } else {
        crate::walk::walked(round(k), 0, round(k).len() as int, contents, answers, start(k)) is None
    } by {
        lemma_apart_filters(k, contents, answers, start(k));
    }
    crate::walk::law_rounds_keep_what_each_keeps(5, round, start, good, kept, contents, answers);
    if forall|k: int| 0 <= k < 5 ==> #[trigger] good(k) {
        assert forall|k: int| 0 <= k < 5 implies #[trigger] apart_filters(
            k,
            answers,
            15 + 1 * k,
        ) by {
            assert(good(k));
        }
    } else {
        let k = choose|k: int| 0 <= k < 5 && !(#[trigger] good(k));
        assert(!apart_filters(k, answers, 15 + 1 * k));
    }
}

/// One round of the part `filtered`.
proof fn lemma_apart_filtered(k: int, contents: Contents, answers: Seq<Answer>, used: int)
    requires
        0 <= k < 5,
        used == 20 + 1 * k,
        contents.full(),
        apart_shaped(answers),
    ensures
        match crate::walk::walked(
            crate::categories::c19_multi_stream::operation_isolation_filtered_round(k as u64),
            0,
            3,
            contents,
            answers,
            used,
        ) {
            Some((after, next)) => {
                &&& apart_filtered(k, answers, used)
                &&& after.full()
                &&& next == 20 + 1 * (k + 1)
            },
            None => !apart_filtered(k, answers, used),
        },
        crate::categories::c19_multi_stream::operation_isolation_filtered_round(
            k as u64,
        ).len() == 3,
{
    let steps = crate::categories::c19_multi_stream::operation_isolation_filtered_round(k as u64);
    assert(crate::laws::steps::column_or_refusal(answers[20 + 1 * k]));
    crate::laws::steps::lemma_download(steps, 0, 3, contents, answers, used);
    if answers[used] is Words {
        let next1 = contents.with_column(1, answers[used]->Words_0);
        lemma_length(next1, 1, 5000);
        crate::laws::steps::lemma_check(
            steps,
            1,
            3,
            next1,
            answers,
            used + 1,
            !(answers[used]->Words_0.len() == 5000),
        );
        lemma_scan_within(steps, 2, 3, next1, answers, used + 1, k);
        crate::laws::steps::lemma_end(steps, 3, next1, answers, used + 1);
    }
}

/// All rounds of the part `filtered`.
proof fn lemma_apart_filtered_rounds(contents: Contents, answers: Seq<Answer>)
    requires
        contents.full(),
        apart_shaped(answers),
    ensures
        ({
            let steps = crate::script::rounds(
                5,
                |k: int| crate::categories::c19_multi_stream::operation_isolation_filtered_round(
                    k as u64,
                ),
            );
            match crate::walk::walked(steps, 0, steps.len() as int, contents, answers, 20) {
                Some((after, next)) => {
                    &&& forall|k: int|
                        0 <= k < 5 ==> #[trigger] apart_filtered(k, answers, 20 + 1 * k)
                    &&& after.full()
                    &&& next == 25
                },
                None => !(forall|k: int|
                    0 <= k < 5 ==> #[trigger] apart_filtered(k, answers, 20 + 1 * k)),
            }
        }),
{
    let round = |k: int| crate::categories::c19_multi_stream::operation_isolation_filtered_round(
        k as u64,
    );
    let start = |k: int| 20 + 1 * k;
    let good = |k: int| apart_filtered(k, answers, start(k));
    let kept = |contents: Contents| contents.full();
    assert forall|k: int, contents: Contents|
        #![trigger good(k), kept(contents)]
        0 <= k < 5 && kept(contents) implies if good(k) {
        crate::walk::goes_to(round(k), contents, answers, start(k), start(k + 1), kept)
    } else {
        crate::walk::walked(round(k), 0, round(k).len() as int, contents, answers, start(k)) is None
    } by {
        lemma_apart_filtered(k, contents, answers, start(k));
    }
    crate::walk::law_rounds_keep_what_each_keeps(5, round, start, good, kept, contents, answers);
    if forall|k: int| 0 <= k < 5 ==> #[trigger] good(k) {
        assert forall|k: int| 0 <= k < 5 implies #[trigger] apart_filtered(
            k,
            answers,
            20 + 1 * k,
        ) by {
            assert(good(k));
        }
    } else {
        let k = choose|k: int| 0 <= k < 5 && !(#[trigger] good(k));
        assert(!apart_filtered(k, answers, 20 + 1 * k));
    }
}

/// The part `end`.
proof fn lemma_apart_end(contents: Contents, answers: Seq<Answer>)
    requires
        contents.full(),
        apart_shaped(answers),
    ensures
        match crate::walk::walked(
            crate::categories::c19_multi_stream::operation_isolation_end_steps(),
            0,
            1,
            contents,
            answers,
            25,
        ) {
            Some((after, next)) => {
                &&& apart_end(answers)
                &&& after.full()
                &&& next == 26
            },
            None => !apart_end(answers),
        },
        crate::categories::c19_multi_stream::operation_isolation_end_steps().len() == 1,
{
    let steps = crate::categories::c19_multi_stream::operation_isolation_end_steps();
    crate::laws::steps::lemma_command(steps, 0, 1, contents, answers, 25);
    crate::laws::steps::lemma_end(steps, 1, contents, answers, 26);
}

/// The test has no jumps.
proof fn lemma_apart_straight()
    ensures
        forall|j: int|
            0 <= j < crate::categories::c19_multi_stream::operation_isolation_steps().len()
                ==> crate::walk::straight(
                #[trigger] crate::categories::c19_multi_stream::operation_isolation_steps()[j],
            ),
{
    let part1 = crate::script::rounds(
        5,
        |k: int| crate::categories::c19_multi_stream::operation_isolation_buffers_round(k as u64),
    );
    let round1 = |k: int| crate::categories::c19_multi_stream::operation_isolation_buffers_round(
        k as u64,
    );
    crate::walk::law_straight_rounds_are_straight(5, round1);
    let part2 = crate::script::rounds(
        5,
        |k: int| crate::categories::c19_multi_stream::operation_isolation_sorts_round(k as u64),
    );
    let round2 = |k: int| crate::categories::c19_multi_stream::operation_isolation_sorts_round(
        k as u64,
    );
    crate::walk::law_straight_rounds_are_straight(5, round2);
    let part3 = crate::script::rounds(
        5,
        |k: int| crate::categories::c19_multi_stream::operation_isolation_sorted_round(k as u64),
    );
    let round3 = |k: int| crate::categories::c19_multi_stream::operation_isolation_sorted_round(
        k as u64,
    );
    crate::walk::law_straight_rounds_are_straight(5, round3);
    let part4 = crate::script::rounds(
        5,
        |k: int| crate::categories::c19_multi_stream::operation_isolation_filters_round(k as u64),
    );
    let round4 = |k: int| crate::categories::c19_multi_stream::operation_isolation_filters_round(
        k as u64,
    );
    crate::walk::law_straight_rounds_are_straight(5, round4);
    let part5 = crate::script::rounds(
        5,
        |k: int| crate::categories::c19_multi_stream::operation_isolation_filtered_round(k as u64),
    );
    let round5 = |k: int| crate::categories::c19_multi_stream::operation_isolation_filtered_round(
        k as u64,
    );
    crate::walk::law_straight_rounds_are_straight(5, round5);
    let part6 = crate::categories::c19_multi_stream::operation_isolation_end_steps();
    let whole1 = part1;
    let whole2 = whole1 + part2;
    crate::walk::law_straight_scripts_make_a_straight_one(whole1, part2);
    let whole3 = whole2 + part3;
    crate::walk::law_straight_scripts_make_a_straight_one(whole2, part3);
    let whole4 = whole3 + part4;
    crate::walk::law_straight_scripts_make_a_straight_one(whole3, part4);
    let whole5 = whole4 + part5;
    crate::walk::law_straight_scripts_make_a_straight_one(whole4, part5);
    let whole6 = whole5 + part6;
    crate::walk::law_straight_scripts_make_a_straight_one(whole5, part6);
    assert(crate::categories::c19_multi_stream::operation_isolation_steps() == whole6);
}

/// The test of five buffers passes exactly when each sort hands out ten thousand words of its own
/// buffer in rising order that add up to the same sum, and each filter five thousand words of its
/// own buffer.
pub proof fn law_isolation_passes_exactly_when_buffers_stay_apart(answers: Seq<Answer>)
    requires
        apart_shaped(answers),
    ensures
        crate::machine::run_of(
            crate::script::plan(
                "test_operation_isolation",
                crate::categories::c19_multi_stream::operation_isolation_steps(),
            ),
            answers,
        ).progress == Progress::Over(Ending::Passed) <==> {
            &&& forall|k: int|
                0 <= k < 5 ==> #[trigger] apart_buffers(k, answers, k)
            &&& forall|k: int|
                0 <= k < 5 ==> #[trigger] apart_sorts(k, answers, 5 + 1 * k)
            &&& forall|k: int|
                0 <= k < 5 ==> #[trigger] apart_sorted(k, answers, 10 + 1 * k)
            &&& forall|k: int|
                0 <= k < 5 ==> #[trigger] apart_filters(k, answers, 15 + 1 * k)
            &&& forall|k: int|
                0 <= k < 5 ==> #[trigger] apart_filtered(k, answers, 20 + 1 * k)
            &&& apart_end(answers)
        },
{
    let plan = crate::script::plan(
        "test_operation_isolation",
        crate::categories::c19_multi_stream::operation_isolation_steps(),
    );
    let blank = Contents::blank(plan.texts);
    let part1 = crate::script::rounds(
        5,
        |k: int| crate::categories::c19_multi_stream::operation_isolation_buffers_round(k as u64),
    );
    let part2 = crate::script::rounds(
        5,
        |k: int| crate::categories::c19_multi_stream::operation_isolation_sorts_round(k as u64),
    );
    let part3 = crate::script::rounds(
        5,
        |k: int| crate::categories::c19_multi_stream::operation_isolation_sorted_round(k as u64),
    );
    let part4 = crate::script::rounds(
        5,
        |k: int| crate::categories::c19_multi_stream::operation_isolation_filters_round(k as u64),
    );
    let part5 = crate::script::rounds(
        5,
        |k: int| crate::categories::c19_multi_stream::operation_isolation_filtered_round(k as u64),
    );
    let part6 = crate::categories::c19_multi_stream::operation_isolation_end_steps();
    let whole1 = part1;
    let whole2 = whole1 + part2;
    let whole3 = whole2 + part3;
    let whole4 = whole3 + part4;
    let whole5 = whole4 + part5;
    let whole6 = whole5 + part6;
    assert(plan.steps == whole6);
    lemma_apart_buffers_rounds(blank, answers);
    crate::walk::law_walks_over_two_scripts_compose(whole1, part2, blank, answers, 0);
    crate::walk::law_walks_over_two_scripts_compose(whole2, part3, blank, answers, 0);
    crate::walk::law_walks_over_two_scripts_compose(whole3, part4, blank, answers, 0);
    crate::walk::law_walks_over_two_scripts_compose(whole4, part5, blank, answers, 0);
    crate::walk::law_walks_over_two_scripts_compose(whole5, part6, blank, answers, 0);
    match crate::walk::walked(whole1, 0, whole1.len() as int, blank, answers, 0) {
        Some((after, _)) => {
            lemma_apart_sorts_rounds(after, answers);
            match crate::walk::walked(whole2, 0, whole2.len() as int, blank, answers, 0) {
                Some((after, _)) => {
                    lemma_apart_sorted_rounds(after, answers);
                    match crate::walk::walked(whole3, 0, whole3.len() as int, blank, answers, 0) {
                        Some((after, _)) => {
                            lemma_apart_filters_rounds(after, answers);
                            match crate::walk::walked(
                                whole4,
                                0,
                                whole4.len() as int,
                                blank,
                                answers,
                                0,
                            ) {
                                Some((after, _)) => {
                                    lemma_apart_filtered_rounds(after, answers);
                                    match crate::walk::walked(
                                        whole5,
                                        0,
                                        whole5.len() as int,
                                        blank,
                                        answers,
                                        0,
                                    ) {
                                        Some((after, _)) => {
                                            lemma_apart_end(after, answers);
                                        },
                                        None => {},
                                    }
                                },
                                None => {},
                            }
                        },
                        None => {},
                    }
                },
                None => {},
            }
        },
        None => {},
    }
    lemma_apart_straight();
    crate::walk::law_passes_exactly_when_every_step_goes_through(plan, answers);
}

/// Whether the answers to the downloads of the test are columns or refusals.
pub open spec fn batch_shaped(answers: Seq<Answer>) -> bool {
    &&& answers.len() >= 51
    &&& forall|k: int|
        0 <= k < 10 ==> crate::laws::steps::column_or_refusal(#[trigger] answers[20 + 1 * k])
}

/// What the device has to answer in round `k` of the part `buffers`, from answer `used` on.
pub open spec fn batch_buffers(k: int, answers: Seq<Answer>, used: int) -> bool {
    !(answers[used] is Failed)
}

/// What the device has to answer in round `k` of the part `sorts`, from answer `used` on.
pub open spec fn batch_sorts(k: int, answers: Seq<Answer>, used: int) -> bool {
    !(answers[used] is Failed)
}

/// What the device has to answer in round `k` of the part `sorted`, from answer `used` on.
pub open spec fn batch_sorted(k: int, answers: Seq<Answer>, used: int) -> bool {
    &&& answers[used] is Words
    &&& crate::laws::steps::rises(answers[used]->Words_0)
    &&& answers[used]->Words_0 == crate::columns::sorted(Scalar::U32, batch_keys(k))
}

/// What the device has to answer in round `k` of the part `filters`, from answer `used` on.
pub open spec fn batch_filters(k: int, answers: Seq<Answer>, used: int) -> bool {
    !(answers[used] is Failed)
}

/// What the device has to answer in round `k` of the part `filtered`, from answer `used` on.
pub open spec fn batch_filtered(k: int, answers: Seq<Answer>, used: int) -> bool {
    answers[used] == Answer::Count(crate::columns::total(batch_mask(k)) as u64)
}

/// What the device has to answer in the part `end`.
pub open spec fn batch_end(answers: Seq<Answer>) -> bool {
    !(answers[50] is Failed)
}

/// One round of the part `buffers`.
proof fn lemma_batch_buffers(k: int, contents: Contents, answers: Seq<Answer>, used: int)
    requires
        0 <= k < 10,
        used == k,
        contents.full(),
        batch_shaped(answers),
    ensures
        match crate::walk::walked(
            crate::categories::c19_multi_stream::sequential_batch_operations_buffers_round(
                k as u64,
            ),
            0,
            2,
            contents,
            answers,
            used,
        ) {
            Some((after, next)) => {
                &&& batch_buffers(k, answers, used)
                &&& after.full()
                &&& next == k + 1
            },
            None => !batch_buffers(k, answers, used),
        },
        crate::categories::c19_multi_stream::sequential_batch_operations_buffers_round(
            k as u64,
        ).len() == 2,
{
    let steps = crate::categories::c19_multi_stream::sequential_batch_operations_buffers_round(
        k as u64,
    );
    lemma_batch_keys(k, contents);
    let words1 = batch_keys(k);
    crate::laws::steps::lemma_fill(steps, 0, 2, contents, answers, used, words1);
    let next1 = contents.with_column(0, words1);
    crate::laws::steps::lemma_command(steps, 1, 2, next1, answers, used);
    crate::laws::steps::lemma_end(steps, 2, next1, answers, used + 1);
}

/// All rounds of the part `buffers`.
proof fn lemma_batch_buffers_rounds(contents: Contents, answers: Seq<Answer>)
    requires
        contents.full(),
        batch_shaped(answers),
    ensures
        ({
            let steps = crate::script::rounds(
                10,
                |k: int|
                    crate::categories::c19_multi_stream::sequential_batch_operations_buffers_round(
                    k as u64,
                ),
            );
            match crate::walk::walked(steps, 0, steps.len() as int, contents, answers, 0) {
                Some((after, next)) => {
                    &&& forall|k: int|
                        0 <= k < 10 ==> #[trigger] batch_buffers(k, answers, k)
                    &&& after.full()
                    &&& next == 10
                },
                None => !(forall|k: int|
                    0 <= k < 10 ==> #[trigger] batch_buffers(k, answers, k)),
            }
        }),
{
    let round = |k: int|
        crate::categories::c19_multi_stream::sequential_batch_operations_buffers_round(
        k as u64,
    );
    let start = |k: int| k;
    let good = |k: int| batch_buffers(k, answers, start(k));
    let kept = |contents: Contents| contents.full();
    assert forall|k: int, contents: Contents|
        #![trigger good(k), kept(contents)]
        0 <= k < 10 && kept(contents) implies if good(k) {
        crate::walk::goes_to(round(k), contents, answers, start(k), start(k + 1), kept)
    } else {
        crate::walk::walked(round(k), 0, round(k).len() as int, contents, answers, start(k)) is None
    } by {
        lemma_batch_buffers(k, contents, answers, start(k));
    }
    crate::walk::law_rounds_keep_what_each_keeps(10, round, start, good, kept, contents, answers);
    if forall|k: int| 0 <= k < 10 ==> #[trigger] good(k) {
        assert forall|k: int| 0 <= k < 10 implies #[trigger] batch_buffers(
            k,
            answers,
            k,
        ) by {
            assert(good(k));
        }
    } else {
        let k = choose|k: int| 0 <= k < 10 && !(#[trigger] good(k));
        assert(!batch_buffers(k, answers, k));
    }
}

/// One round of the part `sorts`.
proof fn lemma_batch_sorts(k: int, contents: Contents, answers: Seq<Answer>, used: int)
    requires
        0 <= k < 10,
        used == 10 + 1 * k,
        contents.full(),
        batch_shaped(answers),
    ensures
        match crate::walk::walked(
            crate::categories::c19_multi_stream::sequential_batch_operations_sorts_round(
                k as u64,
            ),
            0,
            1,
            contents,
            answers,
            used,
        ) {
            Some((after, next)) => {
                &&& batch_sorts(k, answers, used)
                &&& after.full()
                &&& next == 10 + 1 * (k + 1)
            },
            None => !batch_sorts(k, answers, used),
        },
        crate::categories::c19_multi_stream::sequential_batch_operations_sorts_round(
            k as u64,
        ).len() == 1,
{
    let steps = crate::categories::c19_multi_stream::sequential_batch_operations_sorts_round(
        k as u64,
    );
    crate::laws::steps::lemma_command(steps, 0, 1, contents, answers, used);
    crate::laws::steps::lemma_end(steps, 1, contents, answers, used + 1);
}

/// All rounds of the part `sorts`.
proof fn lemma_batch_sorts_rounds(contents: Contents, answers: Seq<Answer>)
    requires
        contents.full(),
        batch_shaped(answers),
    ensures
        ({
            let steps = crate::script::rounds(
                10,
                |k: int|
                    crate::categories::c19_multi_stream::sequential_batch_operations_sorts_round(
                    k as u64,
                ),
            );
            match crate::walk::walked(steps, 0, steps.len() as int, contents, answers, 10) {
                Some((after, next)) => {
                    &&& forall|k: int|
                        0 <= k < 10 ==> #[trigger] batch_sorts(k, answers, 10 + 1 * k)
                    &&& after.full()
                    &&& next == 20
                },
                None => !(forall|k: int|
                    0 <= k < 10 ==> #[trigger] batch_sorts(k, answers, 10 + 1 * k)),
            }
        }),
{
    let round = |k: int|
        crate::categories::c19_multi_stream::sequential_batch_operations_sorts_round(
        k as u64,
    );
    let start = |k: int| 10 + 1 * k;
    let good = |k: int| batch_sorts(k, answers, start(k));
    let kept = |contents: Contents| contents.full();
    assert forall|k: int, contents: Contents|
        #![trigger good(k), kept(contents)]
        0 <= k < 10 && kept(contents) implies if good(k) {
        crate::walk::goes_to(round(k), contents, answers, start(k), start(k + 1), kept)
    } else {
        crate::walk::walked(round(k), 0, round(k).len() as int, contents, answers, start(k)) is None
    } by {
        lemma_batch_sorts(k, contents, answers, start(k));
    }
    crate::walk::law_rounds_keep_what_each_keeps(10, round, start, good, kept, contents, answers);
    if forall|k: int| 0 <= k < 10 ==> #[trigger] good(k) {
        assert forall|k: int| 0 <= k < 10 implies #[trigger] batch_sorts(
            k,
            answers,
            10 + 1 * k,
        ) by {
            assert(good(k));
        }
    } else {
        let k = choose|k: int| 0 <= k < 10 && !(#[trigger] good(k));
        assert(!batch_sorts(k, answers, 10 + 1 * k));
    }
}

/// One round of the part `sorted`.
proof fn lemma_batch_sorted(k: int, contents: Contents, answers: Seq<Answer>, used: int)
    requires
        0 <= k < 10,
        used == 20 + 1 * k,
        contents.full(),
        batch_shaped(answers),
    ensures
        match crate::walk::walked(
            crate::categories::c19_multi_stream::sequential_batch_operations_sorted_round(
                k as u64,
            ),
            0,
            5,
            contents,
            answers,
            used,
        ) {
            Some((after, next)) => {
                &&& batch_sorted(k, answers, used)
                &&& after.full()
                &&& next == 20 + 1 * (k + 1)
            },
            None => !batch_sorted(k, answers, used),
        },
        crate::categories::c19_multi_stream::sequential_batch_operations_sorted_round(
            k as u64,
        ).len() == 5,
{
    let steps = crate::categories::c19_multi_stream::sequential_batch_operations_sorted_round(
        k as u64,
    );
    assert(crate::laws::steps::column_or_refusal(answers[20 + 1 * k]));
    crate::laws::steps::lemma_download(steps, 0, 5, contents, answers, used);
    if answers[used] is Words {
        let next1 = contents.with_column(1, answers[used]->Words_0);
        crate::laws::steps::lemma_scan_order(steps, 1, 5, next1, answers, used + 1, 1);
        lemma_batch_keys(k, next1);
        let words2 = batch_keys(k);
        crate::laws::steps::lemma_fill(steps, 2, 5, next1, answers, used + 1, words2);
        let next2 = next1.with_column(0, words2);
        crate::laws::steps::lemma_sort_column(steps, 3, 5, next2, answers, used + 1);
        let next3 = next2.with_column(2, crate::columns::sorted(Scalar::U32, batch_keys(k)));
        crate::laws::steps::lemma_not_alike(next3, 1, 2);
        crate::laws::steps::lemma_check(
            steps,
            4,
            5,
            next3,
            answers,
            used + 1,
            !(answers[used]->Words_0 == crate::columns::sorted(Scalar::U32, batch_keys(k))),
        );
        crate::laws::steps::lemma_end(steps, 5, next3, answers, used + 1);
    }
}

/// All rounds of the part `sorted`.
proof fn lemma_batch_sorted_rounds(contents: Contents, answers: Seq<Answer>)
    requires
        contents.full(),
        batch_shaped(answers),
    ensures
        ({
            let steps = crate::script::rounds(
                10,
                |k: int|
                    crate::categories::c19_multi_stream::sequential_batch_operations_sorted_round(
                    k as u64,
                ),
            );
            match crate::walk::walked(steps, 0, steps.len() as int, contents, answers, 20) {
                Some((after, next)) => {
                    &&& forall|k: int|
                        0 <= k < 10 ==> #[trigger] batch_sorted(k, answers, 20 + 1 * k)
                    &&& after.full()
                    &&& next == 30
                },
                None => !(forall|k: int|
                    0 <= k < 10 ==> #[trigger] batch_sorted(k, answers, 20 + 1 * k)),
            }
        }),
{
    let round = |k: int|
        crate::categories::c19_multi_stream::sequential_batch_operations_sorted_round(
        k as u64,
    );
    let start = |k: int| 20 + 1 * k;
    let good = |k: int| batch_sorted(k, answers, start(k));
    let kept = |contents: Contents| contents.full();
    assert forall|k: int, contents: Contents|
        #![trigger good(k), kept(contents)]
        0 <= k < 10 && kept(contents) implies if good(k) {
        crate::walk::goes_to(round(k), contents, answers, start(k), start(k + 1), kept)
    } else {
        crate::walk::walked(round(k), 0, round(k).len() as int, contents, answers, start(k)) is None
    } by {
        lemma_batch_sorted(k, contents, answers, start(k));
    }
    crate::walk::law_rounds_keep_what_each_keeps(10, round, start, good, kept, contents, answers);
    if forall|k: int| 0 <= k < 10 ==> #[trigger] good(k) {
        assert forall|k: int| 0 <= k < 10 implies #[trigger] batch_sorted(
            k,
            answers,
            20 + 1 * k,
        ) by {
            assert(good(k));
        }
    } else {
        let k = choose|k: int| 0 <= k < 10 && !(#[trigger] good(k));
        assert(!batch_sorted(k, answers, 20 + 1 * k));
    }
}

/// One round of the part `filters`.
proof fn lemma_batch_filters(k: int, contents: Contents, answers: Seq<Answer>, used: int)
    requires
        0 <= k < 10,
        used == 30 + 1 * k,
        contents.full(),
        batch_shaped(answers),
    ensures
        match crate::walk::walked(
            crate::categories::c19_multi_stream::sequential_batch_operations_filters_round(
                k as u64,
            ),
            0,
            2,
            contents,
            answers,
            used,
        ) {
            Some((after, next)) => {
                &&& batch_filters(k, answers, used)
                &&& after.full()
                &&& next == 30 + 1 * (k + 1)
            },
            None => !batch_filters(k, answers, used),
        },
        crate::categories::c19_multi_stream::sequential_batch_operations_filters_round(
            k as u64,
        ).len() == 2,
{
    let steps = crate::categories::c19_multi_stream::sequential_batch_operations_filters_round(
        k as u64,
    );
    lemma_batch_mask(k, contents);
    let words1 = batch_mask(k);
    crate::laws::steps::lemma_fill(steps, 0, 2, contents, answers, used, words1);
    let next1 = contents.with_column(3, words1);
    crate::laws::steps::lemma_command(steps, 1, 2, next1, answers, used);
    crate::laws::steps::lemma_end(steps, 2, next1, answers, used + 1);
}

/// All rounds of the part `filters`.
proof fn lemma_batch_filters_rounds(contents: Contents, answers: Seq<Answer>)
    requires
        contents.full(),
        batch_shaped(answers),
    ensures
        ({
            let steps = crate::script::rounds(
                10,
                |k: int|
                    crate::categories::c19_multi_stream::sequential_batch_operations_filters_round(
                    k as u64,
                ),
            );
            match crate::walk::walked(steps, 0, steps.len() as int, contents, answers, 30) {
                Some((after, next)) => {
                    &&& forall|k: int|
                        0 <= k < 10 ==> #[trigger] batch_filters(k, answers, 30 + 1 * k)
                    &&& after.full()
                    &&& next == 40
                },
                None => !(forall|k: int|
                    0 <= k < 10 ==> #[trigger] batch_filters(k, answers, 30 + 1 * k)),
            }
        }),
{
    let round = |k: int|
        crate::categories::c19_multi_stream::sequential_batch_operations_filters_round(
        k as u64,
    );
    let start = |k: int| 30 + 1 * k;
    let good = |k: int| batch_filters(k, answers, start(k));
    let kept = |contents: Contents| contents.full();
    assert forall|k: int, contents: Contents|
        #![trigger good(k), kept(contents)]
        0 <= k < 10 && kept(contents) implies if good(k) {
        crate::walk::goes_to(round(k), contents, answers, start(k), start(k + 1), kept)
    } else {
        crate::walk::walked(round(k), 0, round(k).len() as int, contents, answers, start(k)) is None
    } by {
        lemma_batch_filters(k, contents, answers, start(k));
    }
    crate::walk::law_rounds_keep_what_each_keeps(10, round, start, good, kept, contents, answers);
    if forall|k: int| 0 <= k < 10 ==> #[trigger] good(k) {
        assert forall|k: int| 0 <= k < 10 implies #[trigger] batch_filters(
            k,
            answers,
            30 + 1 * k,
        ) by {
            assert(good(k));
        }
    } else {
        let k = choose|k: int| 0 <= k < 10 && !(#[trigger] good(k));
        assert(!batch_filters(k, answers, 30 + 1 * k));
    }
}

/// One round of the part `filtered`.
proof fn lemma_batch_filtered(k: int, contents: Contents, answers: Seq<Answer>, used: int)
    requires
        0 <= k < 10,
        used == 40 + 1 * k,
        contents.full(),
        batch_shaped(answers),
    ensures
        match crate::walk::walked(
            crate::categories::c19_multi_stream::sequential_batch_operations_filtered_round(
                k as u64,
            ),
            0,
            3,
            contents,
            answers,
            used,
        ) {
            Some((after, next)) => {
                &&& batch_filtered(k, answers, used)
                &&& after.full()
                &&& next == 40 + 1 * (k + 1)
            },
            None => !batch_filtered(k, answers, used),
        },
        crate::categories::c19_multi_stream::sequential_batch_operations_filtered_round(
            k as u64,
        ).len() == 3,
{
    let steps = crate::categories::c19_multi_stream::sequential_batch_operations_filtered_round(
        k as u64,
    );
    lemma_batch_mask(k, contents);
    let words1 = batch_mask(k);
    crate::laws::steps::lemma_fill(steps, 0, 3, contents, answers, used, words1);
    let next1 = contents.with_column(3, words1);
    crate::laws::lanes::lemma_mask_sum(next1, 3);
    crate::laws::steps::lemma_put(
        steps,
        1,
        3,
        next1,
        answers,
        used,
        crate::columns::total(batch_mask(k)) as u64,
    );
    let next2 = next1.with_register(0, crate::columns::total(batch_mask(k)) as u64);
    crate::laws::steps::lemma_match(
        steps,
        2,
        3,
        next2,
        answers,
        used,
        crate::columns::total(batch_mask(k)) as u64,
    );
    let next3 = next2.with_register(COUNT, crate::columns::total(batch_mask(k)) as u64);
    crate::laws::steps::lemma_end(steps, 3, next3, answers, used + 1);
}

/// All rounds of the part `filtered`.
proof fn lemma_batch_filtered_rounds(contents: Contents, answers: Seq<Answer>)
    requires
        contents.full(),
        batch_shaped(answers),
    ensures
        ({
            let steps = crate::script::rounds(
                10,
                |k: int|
                    crate::categories::c19_multi_stream::sequential_batch_operations_filtered_round(
                    k as u64,
                ),
            );
            match crate::walk::walked(steps, 0, steps.len() as int, contents, answers, 40) {
                Some((after, next)) => {
                    &&& forall|k: int|
                        0 <= k < 10 ==> #[trigger] batch_filtered(k, answers, 40 + 1 * k)
                    &&& after.full()
                    &&& next == 50
                },
                None => !(forall|k: int|
                    0 <= k < 10 ==> #[trigger] batch_filtered(k, answers, 40 + 1 * k)),
            }
        }),
{
    let round = |k: int|
        crate::categories::c19_multi_stream::sequential_batch_operations_filtered_round(
        k as u64,
    );
    let start = |k: int| 40 + 1 * k;
    let good = |k: int| batch_filtered(k, answers, start(k));
    let kept = |contents: Contents| contents.full();
    assert forall|k: int, contents: Contents|
        #![trigger good(k), kept(contents)]
        0 <= k < 10 && kept(contents) implies if good(k) {
        crate::walk::goes_to(round(k), contents, answers, start(k), start(k + 1), kept)
    } else {
        crate::walk::walked(round(k), 0, round(k).len() as int, contents, answers, start(k)) is None
    } by {
        lemma_batch_filtered(k, contents, answers, start(k));
    }
    crate::walk::law_rounds_keep_what_each_keeps(10, round, start, good, kept, contents, answers);
    if forall|k: int| 0 <= k < 10 ==> #[trigger] good(k) {
        assert forall|k: int| 0 <= k < 10 implies #[trigger] batch_filtered(
            k,
            answers,
            40 + 1 * k,
        ) by {
            assert(good(k));
        }
    } else {
        let k = choose|k: int| 0 <= k < 10 && !(#[trigger] good(k));
        assert(!batch_filtered(k, answers, 40 + 1 * k));
    }
}

/// The part `end`.
proof fn lemma_batch_end(contents: Contents, answers: Seq<Answer>)
    requires
        contents.full(),
        batch_shaped(answers),
    ensures
        match crate::walk::walked(
            crate::categories::c19_multi_stream::sequential_batch_operations_end_steps(),
            0,
            1,
            contents,
            answers,
            50,
        ) {
            Some((after, next)) => {
                &&& batch_end(answers)
                &&& after.full()
                &&& next == 51
            },
            None => !batch_end(answers),
        },
        crate::categories::c19_multi_stream::sequential_batch_operations_end_steps().len() == 1,
{
    let steps = crate::categories::c19_multi_stream::sequential_batch_operations_end_steps();
    crate::laws::steps::lemma_command(steps, 0, 1, contents, answers, 50);
    crate::laws::steps::lemma_end(steps, 1, contents, answers, 51);
}

/// The test has no jumps.
proof fn lemma_batch_straight()
    ensures
        forall|j: int|
            0 <= j < crate::categories::c19_multi_stream::sequential_batch_operations_steps().len()
                ==> crate::walk::straight(
                #[trigger] crate::categories::c19_multi_stream::sequential_batch_operations_steps()[j],
            ),
{
    let part1 = crate::script::rounds(
        10,
        |k: int| crate::categories::c19_multi_stream::sequential_batch_operations_buffers_round(
            k as u64,
        ),
    );
    let round1 = |k: int|
        crate::categories::c19_multi_stream::sequential_batch_operations_buffers_round(
        k as u64,
    );
    crate::walk::law_straight_rounds_are_straight(10, round1);
    let part2 = crate::script::rounds(
        10,
        |k: int| crate::categories::c19_multi_stream::sequential_batch_operations_sorts_round(
            k as u64,
        ),
    );
    let round2 = |k: int|
        crate::categories::c19_multi_stream::sequential_batch_operations_sorts_round(
        k as u64,
    );
    crate::walk::law_straight_rounds_are_straight(10, round2);
    let part3 = crate::script::rounds(
        10,
        |k: int| crate::categories::c19_multi_stream::sequential_batch_operations_sorted_round(
            k as u64,
        ),
    );
    let round3 = |k: int|
        crate::categories::c19_multi_stream::sequential_batch_operations_sorted_round(
        k as u64,
    );
    crate::walk::law_straight_rounds_are_straight(10, round3);
    let part4 = crate::script::rounds(
        10,
        |k: int| crate::categories::c19_multi_stream::sequential_batch_operations_filters_round(
            k as u64,
        ),
    );
    let round4 = |k: int|
        crate::categories::c19_multi_stream::sequential_batch_operations_filters_round(
        k as u64,
    );
    crate::walk::law_straight_rounds_are_straight(10, round4);
    let part5 = crate::script::rounds(
        10,
        |k: int| crate::categories::c19_multi_stream::sequential_batch_operations_filtered_round(
            k as u64,
        ),
    );
    let round5 = |k: int|
        crate::categories::c19_multi_stream::sequential_batch_operations_filtered_round(
        k as u64,
    );
    crate::walk::law_straight_rounds_are_straight(10, round5);
    let part6 = crate::categories::c19_multi_stream::sequential_batch_operations_end_steps();
    let whole1 = part1;
    let whole2 = whole1 + part2;
    crate::walk::law_straight_scripts_make_a_straight_one(whole1, part2);
    let whole3 = whole2 + part3;
    crate::walk::law_straight_scripts_make_a_straight_one(whole2, part3);
    let whole4 = whole3 + part4;
    crate::walk::law_straight_scripts_make_a_straight_one(whole3, part4);
    let whole5 = whole4 + part5;
    crate::walk::law_straight_scripts_make_a_straight_one(whole4, part5);
    let whole6 = whole5 + part6;
    crate::walk::law_straight_scripts_make_a_straight_one(whole5, part6);
    assert(crate::categories::c19_multi_stream::sequential_batch_operations_steps() == whole6);
}

/// The test of a batch of ten buffers passes exactly when each sort hands out its own keys sorted,
/// and each filter leaves as many rows as its own mask marks.
pub proof fn law_batch_passes_exactly_when_every_result_is_right(answers: Seq<Answer>)
    requires
        batch_shaped(answers),
    ensures
        crate::machine::run_of(
            crate::script::plan(
                "test_sequential_batch_operations",
                crate::categories::c19_multi_stream::sequential_batch_operations_steps(),
            ),
            answers,
        ).progress == Progress::Over(Ending::Passed) <==> {
            &&& forall|k: int|
                0 <= k < 10 ==> #[trigger] batch_buffers(k, answers, k)
            &&& forall|k: int|
                0 <= k < 10 ==> #[trigger] batch_sorts(k, answers, 10 + 1 * k)
            &&& forall|k: int|
                0 <= k < 10 ==> #[trigger] batch_sorted(k, answers, 20 + 1 * k)
            &&& forall|k: int|
                0 <= k < 10 ==> #[trigger] batch_filters(k, answers, 30 + 1 * k)
            &&& forall|k: int|
                0 <= k < 10 ==> #[trigger] batch_filtered(k, answers, 40 + 1 * k)
            &&& batch_end(answers)
        },
{
    let plan = crate::script::plan(
        "test_sequential_batch_operations",
        crate::categories::c19_multi_stream::sequential_batch_operations_steps(),
    );
    let blank = Contents::blank(plan.texts);
    let part1 = crate::script::rounds(
        10,
        |k: int| crate::categories::c19_multi_stream::sequential_batch_operations_buffers_round(
            k as u64,
        ),
    );
    let part2 = crate::script::rounds(
        10,
        |k: int| crate::categories::c19_multi_stream::sequential_batch_operations_sorts_round(
            k as u64,
        ),
    );
    let part3 = crate::script::rounds(
        10,
        |k: int| crate::categories::c19_multi_stream::sequential_batch_operations_sorted_round(
            k as u64,
        ),
    );
    let part4 = crate::script::rounds(
        10,
        |k: int| crate::categories::c19_multi_stream::sequential_batch_operations_filters_round(
            k as u64,
        ),
    );
    let part5 = crate::script::rounds(
        10,
        |k: int| crate::categories::c19_multi_stream::sequential_batch_operations_filtered_round(
            k as u64,
        ),
    );
    let part6 = crate::categories::c19_multi_stream::sequential_batch_operations_end_steps();
    let whole1 = part1;
    let whole2 = whole1 + part2;
    let whole3 = whole2 + part3;
    let whole4 = whole3 + part4;
    let whole5 = whole4 + part5;
    let whole6 = whole5 + part6;
    assert(plan.steps == whole6);
    lemma_batch_buffers_rounds(blank, answers);
    crate::walk::law_walks_over_two_scripts_compose(whole1, part2, blank, answers, 0);
    crate::walk::law_walks_over_two_scripts_compose(whole2, part3, blank, answers, 0);
    crate::walk::law_walks_over_two_scripts_compose(whole3, part4, blank, answers, 0);
    crate::walk::law_walks_over_two_scripts_compose(whole4, part5, blank, answers, 0);
    crate::walk::law_walks_over_two_scripts_compose(whole5, part6, blank, answers, 0);
    match crate::walk::walked(whole1, 0, whole1.len() as int, blank, answers, 0) {
        Some((after, _)) => {
            lemma_batch_sorts_rounds(after, answers);
            match crate::walk::walked(whole2, 0, whole2.len() as int, blank, answers, 0) {
                Some((after, _)) => {
                    lemma_batch_sorted_rounds(after, answers);
                    match crate::walk::walked(whole3, 0, whole3.len() as int, blank, answers, 0) {
                        Some((after, _)) => {
                            lemma_batch_filters_rounds(after, answers);
                            match crate::walk::walked(
                                whole4,
                                0,
                                whole4.len() as int,
                                blank,
                                answers,
                                0,
                            ) {
                                Some((after, _)) => {
                                    lemma_batch_filtered_rounds(after, answers);
                                    match crate::walk::walked(
                                        whole5,
                                        0,
                                        whole5.len() as int,
                                        blank,
                                        answers,
                                        0,
                                    ) {
                                        Some((after, _)) => {
                                            lemma_batch_end(after, answers);
                                        },
                                        None => {},
                                    }
                                },
                                None => {},
                            }
                        },
                        None => {},
                    }
                },
                None => {},
            }
        },
        None => {},
    }
    lemma_batch_straight();
    crate::walk::law_passes_exactly_when_every_step_goes_through(plan, answers);
}

} // verus!
