//! Laws of the tests that remove duplicates.

use vstd::prelude::*;
use crate::expr::{
    alike_sets, distinct_in, ix, len, lt, modulo, not, num, over, reg, repeat_in, Expr,
};
use crate::machine::{Answer, Ending, Progress};
use crate::memory::Contents;
use crate::script::{fill, put, release, Act, Otherwise, Request, Step, COUNT};

verus! {

/// Whether the device leaves each of some keys once: it does what it is asked, counts as many rows
/// as there are different keys, and hands out all of these keys and none of them twice.
pub open spec fn leaves_each_once(keys: Seq<u64>, answers: Seq<Answer>, used: int) -> bool {
    &&& !(answers[used] is Failed)
    &&& !(answers[used + 1] is Failed)
    &&& answers[used + 2] == Answer::Count(keys.to_set().len() as u64)
    &&& answers[used + 3] matches Answer::Words(left)
    &&& left.no_duplicates()
    &&& left.to_set() == keys.to_set()
}

/// No word of a column occurs before its place exactly when none occurs twice.
proof fn lemma_first_repeat(words: Seq<u64>, at: int)
    requires
        0 <= at <= words.len(),
        forall|i: int, j: int| 0 <= i < j < at ==> words[i] != words[j],
    ensures
        at <= crate::columns::first_repeat(words, at) <= words.len(),
        crate::columns::first_repeat(words, at) == words.len() <==> words.no_duplicates(),
    decreases words.len() - at,
{
    if at < words.len() {
        if words.take(at).contains(words[at]) {
            let i = choose|i: int| 0 <= i < at && words.take(at)[i] == words[at];
            assert(words[i] == words[at]);
        } else {
            assert forall|i: int| 0 <= i < at implies words[i] != words[at] by {
                assert(words.take(at)[i] == words[i]);
            }
            lemma_first_repeat(words, at + 1);
        }
    }
}

/// How many different words a column holds, and where the first repeated one is.
proof fn lemma_counts(contents: Contents, slot: u64)
    requires
        slot < contents.columns.len(),
        contents.columns[slot as int].len() <= u64::MAX,
    ensures
        crate::expr::value_of(distinct_in(slot), contents, 0) == Some(
            contents.columns[slot as int].to_set().len() as u64,
        ),
        crate::expr::value_of(repeat_in(slot), contents, 0) == Some(
            crate::columns::first_repeat(contents.columns[slot as int], 0) as u64,
        ),
{
    vstd::seq_lib::seq_to_set_is_finite(contents.columns[slot as int]);
    contents.columns[slot as int].lemma_cardinality_of_set();
    lemma_first_repeat(contents.columns[slot as int], 0);
}

/// Whether a repeated word was found.
proof fn lemma_repeat_check(contents: Contents)
    requires
        contents.full(),
        contents.columns[2].len() <= u64::MAX,
        contents.registers[1] == crate::columns::first_repeat(contents.columns[2], 0),
    ensures
        crate::expr::value_of(lt(reg(1), len(2)), contents, 0) == Some(
            crate::expr::truth(!contents.columns[2].no_duplicates()),
        ),
{
    lemma_first_repeat(contents.columns[2], 0);
    reveal_with_fuel(crate::expr::value_of, 3);
}

/// Removing the duplicates of some keys goes through exactly when each of them is left once.
pub proof fn law_removal_goes_through_exactly_when_each_is_left_once(
    name: &'static str,
    key: Expr,
    keys: Seq<u64>,
    contents: Contents,
    answers: Seq<Answer>,
    used: int,
)
    requires
        contents.full(),
        keys.len() <= u64::MAX,
        forall|i: int|
            0 <= i < keys.len() ==> #[trigger] crate::expr::value_of(key, contents, i as u64)
                == Some(keys[i]),
        0 <= used,
        used + 5 <= answers.len(),
        crate::laws::steps::column_or_refusal(answers[used + 3]),
    ensures
        leaves_each_once(keys, answers, used) ==> crate::walk::goes_through(
            crate::categories::c08_synchronization::unique_pattern_steps(
                name,
                keys.len() as u64,
                key,
            ),
            contents,
            answers,
            used,
            5,
        ),
        !leaves_each_once(keys, answers, used) ==> crate::walk::walked(
            crate::categories::c08_synchronization::unique_pattern_steps(
                name,
                keys.len() as u64,
                key,
            ),
            0,
            11,
            contents,
            answers,
            used,
        ) is None,
{
    let steps = crate::categories::c08_synchronization::unique_pattern_steps(
        name,
        keys.len() as u64,
        key,
    );
    lemma_removal(steps, key, keys, contents, answers, used);
}

/// The steps that remove duplicates.
proof fn lemma_removal(
    steps: Seq<Step>,
    key: Expr,
    keys: Seq<u64>,
    contents: Contents,
    answers: Seq<Answer>,
    used: int,
)
    requires
        steps.len() == 11,
        steps[0] == fill(0, num(keys.len() as u64), key),
        steps[1] == fill(1, num(keys.len() as u64), ix()),
        steps[2] matches Step::Do(Act::Ask(Request::Create { .. }, Otherwise::Fail(_))),
        steps[3] matches Step::Do(Act::Ask(Request::Dedup { .. }, Otherwise::Fail(_))),
        steps[4] == put(0, distinct_in(0)),
        steps[5] matches Step::Do(Act::Match { expected, .. }) && expected == reg(0),
        steps[6] matches Step::Do(Act::Ask(request, Otherwise::Fail(_)))
            && crate::laws::steps::column_of(request) == Some(2u64),
        steps[7] == put(1, repeat_in(2)),
        steps[8] matches Step::Do(Act::Check { fault, .. }) && fault == lt(reg(1), len(2)),
        steps[9] matches Step::Do(Act::Check { fault, .. }) && fault == not(alike_sets(2, 0)),
        steps[10] == release(0),
        contents.full(),
        keys.len() <= u64::MAX,
        forall|i: int|
            0 <= i < keys.len() ==> #[trigger] crate::expr::value_of(key, contents, i as u64)
                == Some(keys[i]),
        0 <= used,
        used + 5 <= answers.len(),
        crate::laws::steps::column_or_refusal(answers[used + 3]),
    ensures
        leaves_each_once(keys, answers, used) ==> crate::walk::goes_through(
            steps,
            contents,
            answers,
            used,
            5,
        ),
        !leaves_each_once(keys, answers, used) ==> crate::walk::walked(
            steps,
            0,
            11,
            contents,
            answers,
            used,
        ) is None,
{
    let count = keys.to_set().len() as u64;
    let places = crate::laws::words::below(keys.len() as u64);
    crate::laws::steps::lemma_fill(steps, 0, 11, contents, answers, used, keys);
    let first = contents.with_column(0, keys);
    crate::laws::words::lemma_below(keys.len() as u64, first);
    crate::laws::steps::lemma_fill(steps, 1, 11, first, answers, used, places);
    let second = first.with_column(1, places);
    crate::laws::steps::lemma_command(steps, 2, 11, second, answers, used);
    crate::laws::steps::lemma_command(steps, 3, 11, second, answers, used + 1);
    lemma_counts(second, 0);
    crate::laws::steps::lemma_put(steps, 4, 11, second, answers, used + 2, count);
    let third = second.with_register(0, count);
    crate::laws::steps::lemma_match(steps, 5, 11, third, answers, used + 2, count);
    let fourth = third.with_register(COUNT, count);
    crate::laws::steps::lemma_download(steps, 6, 11, fourth, answers, used + 3);
    if answers[used + 3] is Words {
        let left = answers[used + 3]->Words_0;
        let fifth = fourth.with_column(2, left);
        lemma_counts(fifth, 2);
        let repeat = crate::columns::first_repeat(left, 0) as u64;
        crate::laws::steps::lemma_put(steps, 7, 11, fifth, answers, used + 4, repeat);
        let sixth = fifth.with_register(1, repeat);
        lemma_first_repeat(left, 0);
        lemma_repeat_check(sixth);
        let repeated = !left.no_duplicates();
        crate::laws::steps::lemma_check(steps, 8, 11, sixth, answers, used + 4, repeated);
        crate::laws::joins::lemma_not_alike_sets(sixth, 2, 0);
        let other = left.to_set() != keys.to_set();
        crate::laws::steps::lemma_check(steps, 9, 11, sixth, answers, used + 4, other);
        crate::laws::steps::lemma_command(steps, 10, 11, sixth, answers, used + 4);
        crate::laws::steps::lemma_end(steps, 11, sixth, answers, used + 5);
    }
}

/// The first `n` numbers divided by `divisor`.
pub open spec fn grouped(divisor: u64, n: u64) -> Seq<u64> {
    Seq::new(n as nat, |i: int| (i / (divisor as int)) as u64)
}

/// The words of [`grouped`].
pub proof fn lemma_grouped(divisor: u64, n: u64, contents: Contents)
    requires
        divisor > 0,
    ensures
        forall|i: int|
            0 <= i < n ==> #[trigger] crate::expr::value_of(
                over(ix(), num(divisor)),
                contents,
                i as u64,
            ) == Some(grouped(divisor, n)[i]),
{
    reveal_with_fuel(crate::expr::value_of, 3);
}

/// The keys of the patterns of the marking test.
pub open spec fn marking_keys(k: int) -> Seq<u64> {
    if k == 0 {
        crate::laws::words::constant(42, 10000)
    } else if k == 1 {
        grouped(2, 10000)
    } else if k == 2 {
        grouped(3, 9999)
    } else if k == 3 {
        crate::laws::words::below(10000)
    } else {
        crate::laws::words::cyclic(100, 10000)
    }
}

/// The steps for one pattern of the marking test.
spec fn marking_round(k: int) -> Seq<Step> {
    if k == 0 {
        crate::categories::c08_synchronization::unique_pattern_steps("all_same", 10000, num(42))
    } else if k == 1 {
        crate::categories::c08_synchronization::unique_pattern_steps(
            "pairs",
            10000,
            over(ix(), num(2)),
        )
    } else if k == 2 {
        crate::categories::c08_synchronization::unique_pattern_steps(
            "triples",
            9999,
            over(ix(), num(3)),
        )
    } else if k == 3 {
        crate::categories::c08_synchronization::unique_pattern_steps("no_dups", 10000, ix())
    } else {
        crate::categories::c08_synchronization::unique_pattern_steps(
            "many_dups",
            10000,
            modulo(ix(), num(100)),
        )
    }
}

/// One pattern of the marking test.
proof fn lemma_marking_round(k: int, contents: Contents, answers: Seq<Answer>, used: int)
    requires
        0 <= k < 5,
        contents.full(),
        0 <= used,
        used + 5 <= answers.len(),
        crate::laws::steps::column_or_refusal(answers[used + 3]),
    ensures
        leaves_each_once(marking_keys(k), answers, used) ==> crate::walk::goes_through(
            marking_round(k),
            contents,
            answers,
            used,
            5,
        ),
        !leaves_each_once(marking_keys(k), answers, used) ==> crate::walk::walked(
            marking_round(k),
            0,
            11,
            contents,
            answers,
            used,
        ) is None,
        marking_round(k).len() == 11,
{
    let keys = marking_keys(k);
    if k == 0 {
        crate::laws::words::lemma_constant(42, 10000, contents);
        law_removal_goes_through_exactly_when_each_is_left_once(
            "all_same",
            num(42),
            keys,
            contents,
            answers,
            used,
        );
    } else if k == 1 {
        lemma_grouped(2, 10000, contents);
        law_removal_goes_through_exactly_when_each_is_left_once(
            "pairs",
            over(ix(), num(2)),
            keys,
            contents,
            answers,
            used,
        );
    } else if k == 2 {
        lemma_grouped(3, 9999, contents);
        law_removal_goes_through_exactly_when_each_is_left_once(
            "triples",
            over(ix(), num(3)),
            keys,
            contents,
            answers,
            used,
        );
    } else if k == 3 {
        crate::laws::words::lemma_below(10000, contents);
        law_removal_goes_through_exactly_when_each_is_left_once(
            "no_dups",
            ix(),
            keys,
            contents,
            answers,
            used,
        );
    } else {
        crate::laws::words::lemma_cyclic(100, 10000, contents);
        law_removal_goes_through_exactly_when_each_is_left_once(
            "many_dups",
            modulo(ix(), num(100)),
            keys,
            contents,
            answers,
            used,
        );
    }
}

/// The marking test is made of five patterns.
proof fn lemma_marking_rounds()
    ensures
        crate::categories::c08_synchronization::dedup_atomic_marking_steps()
            == crate::script::rounds(5, |k: int| marking_round(k))
            + crate::categories::c08_synchronization::dedup_atomic_marking_end_steps(),
        forall|k: int, j: int|
            0 <= k < 5 && 0 <= j < marking_round(k).len() ==> crate::walk::straight(
                #[trigger] marking_round(k)[j],
            ),
{
    let round = |k: int| marking_round(k);
    reveal_with_fuel(crate::script::rounds, 6);
    assert(crate::script::rounds(0, round) =~= Seq::empty());
    assert(crate::script::rounds(1, round) =~= marking_round(0));
    assert(crate::script::rounds(5, round) == marking_round(0) + marking_round(1) + marking_round(
        2,
    ) + marking_round(3) + marking_round(4));
}

/// The marking test passes exactly when, for each of its patterns, every key is left once, and
/// the device reports no fault in the end.
pub proof fn law_marking_passes_exactly_when_each_is_left_once(answers: Seq<Answer>)
    requires
        answers.len() > 25,
        forall|k: int|
            0 <= k < 5 ==> #[trigger] crate::laws::steps::column_or_refusal(answers[5 * k + 3]),
    ensures
        crate::machine::run_of(
            crate::script::plan(
                "test_dedup_atomic_marking",
                crate::categories::c08_synchronization::dedup_atomic_marking_steps(),
            ),
            answers,
        ).progress == Progress::Over(Ending::Passed) <==> {
            &&& forall|k: int|
                0 <= k < 5 ==> #[trigger] leaves_each_once(marking_keys(k), answers, 5 * k)
            &&& !(answers[25] is Failed)
        },
{
    let round = |k: int| marking_round(k);
    let good = |k: int| leaves_each_once(marking_keys(k), answers, 5 * k);
    assert forall|k: int, contents: Contents|
        #![trigger good(k), contents.full()]
        0 <= k < 5 && contents.full() implies if good(k) {
        crate::walk::goes_through(round(k), contents, answers, 5 * k, 5)
    } else {
        crate::walk::walked(round(k), 0, round(k).len() as int, contents, answers, 5 * k)
            is None
    } by {
        assert(crate::laws::steps::column_or_refusal(answers[5 * k + 3]));
        lemma_marking_round(k, contents, answers, 5 * k);
    }
    lemma_marking_rounds();
    assert forall|k: int, j: int|
        0 <= k < 5 && 0 <= j < round(k).len() implies crate::walk::straight(
        #[trigger] round(k)[j],
    ) by {
        assert(crate::walk::straight(marking_round(k)[j]));
    }
    crate::laws::steps::lemma_rounds_and_sync(
        crate::script::plan(
            "test_dedup_atomic_marking",
            crate::categories::c08_synchronization::dedup_atomic_marking_steps(),
        ),
        5,
        round,
        5,
        good,
        crate::categories::c08_synchronization::dedup_atomic_marking_end_steps(),
        answers,
    );
    assert forall|k: int| 0 <= k < 5 implies (#[trigger] good(k) <==> leaves_each_once(
        marking_keys(k),
        answers,
        5 * k,
    )) by {}
    if exists|k: int| 0 <= k < 5 && !(
        #[trigger] leaves_each_once(marking_keys(k), answers, 5 * k)
    ) {
        let k = choose|k: int|
            0 <= k < 5 && !(#[trigger] leaves_each_once(marking_keys(k), answers, 5 * k));
        assert(!good(k));
    }
}

} // verus!
