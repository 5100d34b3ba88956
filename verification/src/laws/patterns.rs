//! The laws of the tests that sort tables, and remove duplicates from them, by patterns of keys.

use vstd::prelude::*;
use crate::expr::{ix, minus, modulo, num, over, pick, plus, same_as, times, Expr};
use crate::machine::{Answer, Ending, Progress};
use crate::memory::Contents;
use crate::scalar::Scalar;
use crate::script::{Step, COUNT};

verus! {

/// Whether the device, from answer `used` on, takes a table in, sorts it, leaves ten thousand
/// rows, and hands the keys out sorted.
pub open spec fn sorts_keys(keys: Seq<u64>, answers: Seq<Answer>, used: int) -> bool {
    &&& !(answers[used] is Failed)
    &&& !(answers[used + 1] is Failed)
    &&& answers[used + 2] == Answer::Count(10000)
    &&& answers[used + 3] == Answer::Words(crate::columns::sorted(Scalar::U32, keys))
}

/// The steps that sort a table by a pattern of keys go through exactly when the device hands the
/// keys out sorted.
pub proof fn law_sort_goes_through_exactly_when_the_keys_are_sorted(
    name: &'static str,
    key: Expr,
    keys: Seq<u64>,
    contents: Contents,
    answers: Seq<Answer>,
    used: int,
)
    requires
        contents.full(),
        keys.len() == 10000,
        crate::laws::transfers::gives(key, keys),
        0 <= used,
        used + 5 <= answers.len(),
        crate::laws::steps::column_or_refusal(answers[used + 3]),
    ensures
        sorts_keys(keys, answers, used) ==> crate::walk::goes_through(
            crate::categories::c08_synchronization::sorted_pattern_steps(name, key),
            contents,
            answers,
            used,
            5,
        ),
        !sorts_keys(keys, answers, used) ==> crate::walk::walked(
            crate::categories::c08_synchronization::sorted_pattern_steps(name, key),
            0,
            10,
            contents,
            answers,
            used,
        ) is None,
{
    let steps = crate::categories::c08_synchronization::sorted_pattern_steps(name, key);
    let sorted = crate::columns::sorted(Scalar::U32, keys);
    crate::laws::steps::lemma_sorted_rises(Scalar::U32, keys);
    assert(crate::laws::steps::rises_to(sorted, 10000)) by {
        assert forall|i: int| 1 <= i < 10000 implies #[trigger] crate::laws::steps::in_order_at(
            sorted,
            i,
        ) by {
            assert(crate::scalar::rank_of(Scalar::U32, sorted[i - 1]) <= crate::scalar::rank_of(
                Scalar::U32,
                sorted[i],
            ));
        }
    }
    assert forall|i: int| 0 <= i < keys.len() implies #[trigger] crate::expr::value_of(
        key,
        contents,
        i as u64,
    ) == Some(keys[i]) by {}
    crate::laws::steps::lemma_fill(steps, 0, 10, contents, answers, used, keys);
    let keyed = contents.with_column(0, keys);
    let places = crate::laws::words::below(10000);
    crate::laws::words::lemma_below(10000, keyed);
    crate::laws::steps::lemma_fill(steps, 1, 10, keyed, answers, used, places);
    let filled = keyed.with_column(1, places);
    crate::laws::steps::lemma_command(steps, 2, 10, filled, answers, used);
    crate::laws::steps::lemma_command(steps, 3, 10, filled, answers, used + 1);
    crate::laws::steps::lemma_match(steps, 4, 10, filled, answers, used + 2, 10000);
    let counted = filled.with_register(COUNT, 10000);
    crate::laws::steps::lemma_download(steps, 5, 10, counted, answers, used + 3);
    if answers[used + 3] is Words {
        let words = answers[used + 3]->Words_0;
        let after = counted.with_column(2, words);
        crate::laws::steps::lemma_scan_order_to(steps, 6, 10, after, answers, used + 4, 2, 10000);
        crate::laws::steps::lemma_sort_column(steps, 7, 10, after, answers, used + 4);
        let last = after.with_column(3, sorted);
        crate::laws::steps::lemma_not_alike(last, 2, 3);
        crate::laws::steps::lemma_check(steps, 8, 10, last, answers, used + 4, words != sorted);
        crate::laws::steps::lemma_command(steps, 9, 10, last, answers, used + 4);
        crate::laws::steps::lemma_end(steps, 10, last, answers, used + 5);
    }
}

/// Numbers that rise at even places and fall at odd ones.
pub open spec fn crossing(n: u64) -> Seq<u64> {
    Seq::new(
        n as nat,
        |i: int| if i % 2 == 0 {
            i as u64
        } else {
            (n - i) as u64
        },
    )
}

/// Numbers that fall within each block of 256.
pub open spec fn reversed_blocks(n: u64) -> Seq<u64> {
    Seq::new(n as nat, |i: int| ((i / 256) * 256 + (255 - i % 256)) as u64)
}

/// The words of the patterns that fall, cycle, or are scattered.
#[verifier::spinoff_prover]
#[verifier::rlimit(50)]
proof fn lemma_plain_keys()
    ensures
        crate::laws::transfers::gives(
            minus(minus(num(10000), num(1)), ix()),
            crate::laws::words::falling(10000),
        ),
        crate::laws::transfers::gives(
            modulo(ix(), num(100)),
            crate::laws::words::cyclic(100, 10000),
        ),
        crate::laws::transfers::gives(
            modulo(plus(times(ix(), num(1103515245)), num(12345)), num(10000)),
            crate::laws::words::scattered(10000, 10000),
        ),
{
    reveal_with_fuel(crate::expr::value_of, 5);
}

/// The words of [`crossing`] and [`reversed_blocks`].
#[verifier::spinoff_prover]
#[verifier::rlimit(50)]
proof fn lemma_mixed_keys()
    ensures
        crate::laws::transfers::gives(
            pick(same_as(modulo(ix(), num(2)), num(0)), ix(), minus(num(10000), ix())),
            crossing(10000),
        ),
        crate::laws::transfers::gives(
            plus(
                times(over(ix(), num(256)), num(256)),
                minus(num(255), modulo(ix(), num(256))),
            ),
            reversed_blocks(10000),
        ),
{
    reveal_with_fuel(crate::expr::value_of, 5);
}

/// Numbers of which every hundredth is zero.
pub open spec fn dotted(n: u64) -> Seq<u64> {
    Seq::new(
        n as nat,
        |i: int| if i % 100 == 0 {
            0u64
        } else {
            i as u64
        },
    )
}

/// The words of [`dotted`].
#[verifier::spinoff_prover]
#[verifier::rlimit(50)]
proof fn lemma_dotted(contents: Contents)
    ensures
        forall|i: int|
            0 <= i < 10000 ==> #[trigger] crate::expr::value_of(
                pick(same_as(modulo(ix(), num(100)), num(0)), num(0), ix()),
                contents,
                i as u64,
            ) == Some(dotted(10000)[i]),
{
    reveal_with_fuel(crate::expr::value_of, 5);
}

/// The keys of the patterns of the barrier test.
pub open spec fn barrier_keys(k: int) -> Seq<u64> {
    if k == 0 {
        crate::laws::words::falling(10000)
    } else if k == 1 {
        crossing(10000)
    } else if k == 2 {
        crate::laws::words::cyclic(100, 10000)
    } else if k == 3 {
        crate::laws::words::scattered(10000, 10000)
    } else {
        reversed_blocks(10000)
    }
}

/// The steps for one pattern of the barrier test.
spec fn barrier_round(k: int) -> Seq<Step> {
    if k == 0 {
        crate::categories::c08_synchronization::sorted_pattern_steps(
            "reverse",
            minus(minus(num(10000), num(1)), ix()),
        )
    } else if k == 1 {
        crate::categories::c08_synchronization::sorted_pattern_steps(
            "alternating",
            pick(same_as(modulo(ix(), num(2)), num(0)), ix(), minus(num(10000), ix())),
        )
    } else if k == 2 {
        crate::categories::c08_synchronization::sorted_pattern_steps(
            "sawtooth",
            modulo(ix(), num(100)),
        )
    } else if k == 3 {
        crate::categories::c08_synchronization::sorted_pattern_steps(
            "random_lcg",
            modulo(plus(times(ix(), num(1103515245)), num(12345)), num(10000)),
        )
    } else {
        crate::categories::c08_synchronization::sorted_pattern_steps(
            "blocks_reversed",
            plus(times(over(ix(), num(256)), num(256)), minus(num(255), modulo(ix(), num(256)))),
        )
    }
}

/// One pattern of the barrier test.
proof fn lemma_barrier_round(k: int, contents: Contents, answers: Seq<Answer>, used: int)
    requires
        0 <= k < 5,
        contents.full(),
        0 <= used,
        used + 5 <= answers.len(),
        crate::laws::steps::column_or_refusal(answers[used + 3]),
    ensures
        sorts_keys(barrier_keys(k), answers, used) ==> crate::walk::goes_through(
            barrier_round(k),
            contents,
            answers,
            used,
            5,
        ),
        !sorts_keys(barrier_keys(k), answers, used) ==> crate::walk::walked(
            barrier_round(k),
            0,
            10,
            contents,
            answers,
            used,
        ) is None,
        barrier_round(k).len() == 10,
{
    let keys = barrier_keys(k);
    if k == 0 {
        lemma_plain_keys();
        law_sort_goes_through_exactly_when_the_keys_are_sorted(
            "reverse",
            minus(minus(num(10000), num(1)), ix()),
            keys,
            contents,
            answers,
            used,
        );
    } else if k == 1 {
        lemma_mixed_keys();
        law_sort_goes_through_exactly_when_the_keys_are_sorted(
            "alternating",
            pick(same_as(modulo(ix(), num(2)), num(0)), ix(), minus(num(10000), ix())),
            keys,
            contents,
            answers,
            used,
        );
    } else if k == 2 {
        lemma_plain_keys();
        law_sort_goes_through_exactly_when_the_keys_are_sorted(
            "sawtooth",
            modulo(ix(), num(100)),
            keys,
            contents,
            answers,
            used,
        );
    } else if k == 3 {
        lemma_plain_keys();
        law_sort_goes_through_exactly_when_the_keys_are_sorted(
            "random_lcg",
            modulo(plus(times(ix(), num(1103515245)), num(12345)), num(10000)),
            keys,
            contents,
            answers,
            used,
        );
    } else {
        lemma_mixed_keys();
        law_sort_goes_through_exactly_when_the_keys_are_sorted(
            "blocks_reversed",
            plus(times(over(ix(), num(256)), num(256)), minus(num(255), modulo(ix(), num(256)))),
            keys,
            contents,
            answers,
            used,
        );
    }
}

/// The barrier test is made of its patterns.
proof fn lemma_barrier_rounds()
    ensures
        crate::categories::c08_synchronization::sort_barrier_correctness_steps() == crate::script::rounds(
            5,
            |k: int| barrier_round(k),
        )
            + crate::categories::c08_synchronization::sort_barrier_correctness_end_steps(),
        forall|k: int, j: int|
            0 <= k < 5 && 0 <= j < barrier_round(k).len() ==> crate::walk::straight(
                #[trigger] barrier_round(k)[j],
            ),
{
    let round = |k: int| barrier_round(k);
    reveal_with_fuel(crate::script::rounds, 6);
    assert(crate::script::rounds(0, round) =~= Seq::empty());
    assert(crate::script::rounds(1, round) =~= barrier_round(0));
    assert(
        crate::script::rounds(
            5,
            round,
        ) == barrier_round(0) + barrier_round(1) + barrier_round(2) + barrier_round(3) + barrier_round(4)
    );
}

/// The test of the barriers of a sort passes exactly when each of its patterns of keys comes back
/// sorted, and the device reports no fault in the end.
pub proof fn law_barriers_pass_exactly_when_every_pattern_is_sorted(answers: Seq<Answer>)
    requires
        answers.len() > 25,
        forall|k: int|
            0 <= k < 5 ==> #[trigger] crate::laws::steps::column_or_refusal(answers[5 * k + 3]),
    ensures
        crate::machine::run_of(
            crate::script::plan(
                "test_sort_barrier_correctness",
                crate::categories::c08_synchronization::sort_barrier_correctness_steps(),
            ),
            answers,
        ).progress == Progress::Over(Ending::Passed) <==> {
            &&& forall|k: int| 0 <= k < 5 ==> #[trigger] sorts_keys(barrier_keys(k), answers, 5 * k)
            &&& !(answers[25] is Failed)
        },
{
    let round = |k: int| barrier_round(k);
    let good = |k: int| sorts_keys(barrier_keys(k), answers, 5 * k);
    assert forall|k: int, contents: Contents|
        #![trigger good(k), contents.full()]
        0 <= k < 5 && contents.full() implies if good(k) {
        crate::walk::goes_through(round(k), contents, answers, 5 * k, 5)
    } else {
        crate::walk::walked(round(k), 0, round(k).len() as int, contents, answers, 5 * k)
            is None
    } by {
        assert(crate::laws::steps::column_or_refusal(answers[5 * k + 3]));
        lemma_barrier_round(k, contents, answers, 5 * k);
    }
    lemma_barrier_rounds();
    assert forall|k: int, j: int|
        0 <= k < 5 && 0 <= j < round(k).len() implies crate::walk::straight(
            #[trigger] round(k)[j],
        ) by {
        assert(crate::walk::straight(barrier_round(k)[j]));
    }
    crate::laws::steps::lemma_rounds_and_sync(
        crate::script::plan(
            "test_sort_barrier_correctness",
            crate::categories::c08_synchronization::sort_barrier_correctness_steps(),
        ),
        5,
        round,
        5,
        good,
        crate::categories::c08_synchronization::sort_barrier_correctness_end_steps(),
        answers,
    );
    assert forall|k: int| 0 <= k < 5 implies (
        #[trigger] good(k) <==> sorts_keys(barrier_keys(k), answers, 5 * k)
    ) by {}
    if exists|k: int| 0 <= k < 5 && !(#[trigger] sorts_keys(barrier_keys(k), answers, 5 * k)) {
        let k = choose|k: int| 0 <= k < 5 && !(
            #[trigger] sorts_keys(barrier_keys(k), answers, 5 * k)
        );
        assert(!good(k));
    }
}

/// The keys of the patterns of the removal test.
pub open spec fn removal_keys(k: int) -> Seq<u64> {
    if k == 0 {
        crate::laws::words::constant(42, 10000)
    } else if k == 1 {
        crate::laws::duplicates::grouped(2, 10000)
    } else if k == 2 {
        crate::laws::words::scattered(1000, 10000)
    } else if k == 3 {
        crate::laws::duplicates::grouped(10, 10000)
    } else {
        dotted(10000)
    }
}

/// The steps for one pattern of the removal test.
spec fn removal_round(k: int) -> Seq<Step> {
    if k == 0 {
        crate::categories::c08_synchronization::unique_pattern_steps("all_same", 10000, num(42))
    } else if k == 1 {
        crate::categories::c08_synchronization::unique_pattern_steps(
            "pairs",
            10000,
            over(ix(), num(2)),
        )
    } else if k == 2 {
        crate::categories::c08_synchronization::unique_pattern_steps(
            "random_dups",
            10000,
            modulo(plus(times(ix(), num(1103515245)), num(12345)), num(1000)),
        )
    } else if k == 3 {
        crate::categories::c08_synchronization::unique_pattern_steps(
            "clustered_dups",
            10000,
            over(ix(), num(10)),
        )
    } else {
        crate::categories::c08_synchronization::unique_pattern_steps(
            "sparse_dups",
            10000,
            pick(same_as(modulo(ix(), num(100)), num(0)), num(0), ix()),
        )
    }
}

/// One pattern of the removal test.
proof fn lemma_removal_round(k: int, contents: Contents, answers: Seq<Answer>, used: int)
    requires
        0 <= k < 5,
        contents.full(),
        0 <= used,
        used + 5 <= answers.len(),
        crate::laws::steps::column_or_refusal(answers[used + 3]),
    ensures
        crate::laws::duplicates::leaves_each_once(removal_keys(k), answers, used)
            ==> crate::walk::goes_through(
            removal_round(k),
            contents,
            answers,
            used,
            5,
        ),
        !crate::laws::duplicates::leaves_each_once(removal_keys(k), answers, used)
            ==> crate::walk::walked(
            removal_round(k),
            0,
            11,
            contents,
            answers,
            used,
        ) is None,
        removal_round(k).len() == 11,
{
    let keys = removal_keys(k);
    if k == 0 {
        crate::laws::words::lemma_constant(42, 10000, contents);
        crate::laws::duplicates::law_removal_goes_through_exactly_when_each_is_left_once(
            "all_same",
            num(42),
            keys,
            contents,
            answers,
            used,
        );
    } else if k == 1 {
        crate::laws::duplicates::lemma_grouped(2, 10000, contents);
        crate::laws::duplicates::law_removal_goes_through_exactly_when_each_is_left_once(
            "pairs",
            over(ix(), num(2)),
            keys,
            contents,
            answers,
            used,
        );
    } else if k == 2 {
        crate::laws::words::lemma_scattered(1000, 10000, contents);
        crate::laws::duplicates::law_removal_goes_through_exactly_when_each_is_left_once(
            "random_dups",
            modulo(plus(times(ix(), num(1103515245)), num(12345)), num(1000)),
            keys,
            contents,
            answers,
            used,
        );
    } else if k == 3 {
        crate::laws::duplicates::lemma_grouped(10, 10000, contents);
        crate::laws::duplicates::law_removal_goes_through_exactly_when_each_is_left_once(
            "clustered_dups",
            over(ix(), num(10)),
            keys,
            contents,
            answers,
            used,
        );
    } else {
        lemma_dotted(contents);
        crate::laws::duplicates::law_removal_goes_through_exactly_when_each_is_left_once(
            "sparse_dups",
            pick(same_as(modulo(ix(), num(100)), num(0)), num(0), ix()),
            keys,
            contents,
            answers,
            used,
        );
    }
}

/// The removal test is made of its patterns.
proof fn lemma_removal_rounds()
    ensures
        crate::categories::c12_atomics::dedup_atomic_correctness_steps() == crate::script::rounds(
            5,
            |k: int| removal_round(k),
        )
            + crate::categories::c12_atomics::dedup_atomic_correctness_end_steps(),
        forall|k: int, j: int|
            0 <= k < 5 && 0 <= j < removal_round(k).len() ==> crate::walk::straight(
                #[trigger] removal_round(k)[j],
            ),
{
    let round = |k: int| removal_round(k);
    reveal_with_fuel(crate::script::rounds, 6);
    assert(crate::script::rounds(0, round) =~= Seq::empty());
    assert(crate::script::rounds(1, round) =~= removal_round(0));
    assert(
        crate::script::rounds(
            5,
            round,
        ) == removal_round(0) + removal_round(1) + removal_round(2) + removal_round(3) + removal_round(4)
    );
}

/// The test that removes duplicates passes exactly when, for each of its patterns, every key is
/// left once, and the device reports no fault in the end.
pub proof fn law_removal_passes_exactly_when_each_is_left_once(answers: Seq<Answer>)
    requires
        answers.len() > 25,
        forall|k: int|
            0 <= k < 5 ==> #[trigger] crate::laws::steps::column_or_refusal(answers[5 * k + 3]),
    ensures
        crate::machine::run_of(
            crate::script::plan(
                "test_dedup_atomic_correctness",
                crate::categories::c12_atomics::dedup_atomic_correctness_steps(),
            ),
            answers,
        ).progress == Progress::Over(Ending::Passed) <==> {
            &&& forall|k: int|
                0 <= k < 5 ==> #[trigger] crate::laws::duplicates::leaves_each_once(
                    removal_keys(k),
                    answers,
                    5 * k,
                )
            &&& !(answers[25] is Failed)
        },
{
    let round = |k: int| removal_round(k);
    let good = |k: int| crate::laws::duplicates::leaves_each_once(removal_keys(k), answers, 5 * k);
    assert forall|k: int, contents: Contents|
        #![trigger good(k), contents.full()]
        0 <= k < 5 && contents.full() implies if good(k) {
        crate::walk::goes_through(round(k), contents, answers, 5 * k, 5)
    } else {
        crate::walk::walked(round(k), 0, round(k).len() as int, contents, answers, 5 * k)
            is None
    } by {
        assert(crate::laws::steps::column_or_refusal(answers[5 * k + 3]));
        lemma_removal_round(k, contents, answers, 5 * k);
    }
    lemma_removal_rounds();
    assert forall|k: int, j: int|
        0 <= k < 5 && 0 <= j < round(k).len() implies crate::walk::straight(
            #[trigger] round(k)[j],
        ) by {
        assert(crate::walk::straight(removal_round(k)[j]));
    }
    crate::laws::steps::lemma_rounds_and_sync(
        crate::script::plan(
            "test_dedup_atomic_correctness",
            crate::categories::c12_atomics::dedup_atomic_correctness_steps(),
        ),
        5,
        round,
        5,
        good,
        crate::categories::c12_atomics::dedup_atomic_correctness_end_steps(),
        answers,
    );
    assert forall|k: int| 0 <= k < 5 implies (
        #[trigger] good(k) <==> crate::laws::duplicates::leaves_each_once(
            removal_keys(k),
            answers,
            5 * k,
        )
    ) by {}
    if exists|k: int| 0 <= k < 5 && !(
        #[trigger] crate::laws::duplicates::leaves_each_once(removal_keys(k), answers, 5 * k)
    ) {
        let k = choose|k: int| 0 <= k < 5 && !(
            #[trigger] crate::laws::duplicates::leaves_each_once(removal_keys(k), answers, 5 * k)
        );
        assert(!good(k));
    }
}

} // verus!
