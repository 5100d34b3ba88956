//! The laws of the tests of filters that keep some of the rows.

use vstd::prelude::*;
use crate::categories::c11_control_flow::{LONG_SIZES, SIZES};
use crate::expr::{differs, here, ix, len, lt, modulo, num, over, plus, same_as, times, Expr};
use crate::machine::{Answer, Ending, Progress};
use crate::memory::Contents;
use crate::script::{Act, Faults, Step, COUNT};

verus! {

/// The words at those of the first `n` places that a mask marks.
pub open spec fn picked(words: Seq<u64>, mask: Seq<u64>, n: nat) -> Seq<u64>
    decreases n,
{
    if n == 0 {
        Seq::empty()
    } else if mask[n - 1] != 0 {
        picked(words, mask, (n - 1) as nat).push(words[n - 1])
    } else {
        picked(words, mask, (n - 1) as nat)
    }
}

/// A filter keeps as many rows as its mask marks.
pub proof fn law_as_many_are_picked_as_are_marked(words: Seq<u64>, mask: Seq<u64>, n: nat)
    requires
        n <= mask.len(),
        n <= words.len(),
        forall|i: int| 0 <= i < mask.len() ==> mask[i] <= 1,
    ensures
        picked(words, mask, n).len() == crate::columns::total(mask.take(n as int)),
    decreases n,
{
    if n > 0 {
        let before = (n - 1) as nat;
        law_as_many_are_picked_as_are_marked(words, mask, before);
        assert(mask.take(n as int).drop_last() =~= mask.take(before as int));
        assert(mask.take(n as int).last() == mask[before as int]);
        assert(mask[before as int] <= 1);
    } else {
        assert(mask.take(0) =~= Seq::empty());
    }
}

/// Keeping the words at the places that a mask marks.
pub proof fn lemma_picked(
    keep: Expr,
    word: Expr,
    contents: Contents,
    words: Seq<u64>,
    mask: Seq<u64>,
    n: nat,
)
    requires
        n <= mask.len() <= u64::MAX,
        n <= words.len(),
        forall|i: int|
            0 <= i < mask.len() ==> #[trigger] crate::expr::value_of(keep, contents, i as u64)
                == Some(mask[i]),
        forall|i: int|
            0 <= i < words.len() ==> #[trigger] crate::expr::value_of(word, contents, i as u64)
                == Some(words[i]),
    ensures
        crate::machine::selected(keep, word, contents, n) == Some(picked(words, mask, n)),
    decreases n,
{
    if n > 0 {
        let before = (n - 1) as nat;
        lemma_picked(keep, word, contents, words, mask, before);
        assert(crate::expr::value_of(keep, contents, before as u64) == Some(mask[before as int]));
        assert(crate::expr::value_of(word, contents, before as u64) == Some(words[before as int]));
    }
}

/// The sizes are those of columns.
proof fn lemma_sizes(k: int)
    requires
        0 <= k < 4,
    ensures
        0 < SIZES@[k] <= 100000,
{
}

/// The sizes are those of columns.
proof fn lemma_long_sizes(k: int)
    requires
        0 <= k < 3,
    ensures
        0 < LONG_SIZES@[k] <= 100000,
{
}

/// The first half of a column.
proof fn lemma_first_half(n: u64, contents: Contents)
    ensures
        forall|i: int|
            0 <= i < n ==> #[trigger] crate::expr::value_of(
                lt(ix(), over(num(n), num(2))),
                contents,
                i as u64,
            ) == Some(crate::laws::words::leading((n / 2) as u64, n)[i]),
        crate::expr::value_of(over(num(n), num(2)), contents, 0) == Some((n / 2) as u64),
{
    lemma_lower_half(n, contents, 0);
    assert forall|i: int| 0 <= i < n implies #[trigger] crate::expr::value_of(
        lt(ix(), over(num(n), num(2))),
        contents,
        i as u64,
    ) == Some(crate::laws::words::leading((n / 2) as u64, n)[i]) by {
        lemma_lower_half(n, contents, i as u64);
    }
}

/// Whether a place lies in the first half of a column.
proof fn lemma_lower_half(n: u64, contents: Contents, i: u64)
    ensures
        crate::expr::value_of(over(num(n), num(2)), contents, i) == Some((n / 2) as u64),
        crate::expr::value_of(lt(ix(), over(num(n), num(2))), contents, i) == Some(
            crate::expr::truth(i < n / 2),
        ),
{
    reveal_with_fuel(crate::expr::value_of, 3);
}

/// The mask of `n` rows that leaves out every `step`-th one.
pub open spec fn but_every(step: u64, n: u64) -> Seq<u64> {
    Seq::new(n as nat, |i: int| crate::expr::truth(i % (step as int) != 0))
}

/// Whether a place is left out by [`but_every`].
proof fn lemma_left_out(step: u64, contents: Contents, i: u64)
    requires
        step > 0,
    ensures
        crate::expr::value_of(differs(modulo(ix(), num(step)), num(0)), contents, i) == Some(
            crate::expr::truth(i % step != 0),
        ),
{
    let remainder = modulo(ix(), num(step));
    assert(crate::expr::value_of(remainder, contents, i) == Some((i % step) as u64)) by {
        reveal_with_fuel(crate::expr::value_of, 2);
    }
    assert(crate::expr::value_of(num(0), contents, i) == Some(0u64));
    assert(crate::expr::value_of(same_as(remainder, num(0)), contents, i) == Some(
        crate::expr::truth(i % step == 0),
    ));
}

/// The words of [`but_every`].
pub proof fn lemma_but_every(step: u64, n: u64, contents: Contents)
    requires
        step > 0,
    ensures
        forall|i: int|
            0 <= i < n ==> #[trigger] crate::expr::value_of(
                differs(modulo(ix(), num(step)), num(0)),
                contents,
                i as u64,
            ) == Some(but_every(step, n)[i]),
{
    assert forall|i: int| 0 <= i < n implies #[trigger] crate::expr::value_of(
        differs(modulo(ix(), num(step)), num(0)),
        contents,
        i as u64,
    ) == Some(but_every(step, n)[i]) by {
        lemma_left_out(step, contents, i as u64);
    }
}

/// Whether the words of a column are the multiples of `step`.
pub open spec fn counts_by(step: u64, words: Seq<u64>) -> bool {
    forall|i: int| 0 <= i < words.len() ==> #[trigger] words[i] == i * step
}

/// Whether the words of a column are the odd numbers.
pub open spec fn counts_odd(words: Seq<u64>) -> bool {
    forall|i: int| 0 <= i < words.len() ==> #[trigger] words[i] == 2 * i + 1
}

/// Whether no word of a column is a multiple of a hundred.
pub open spec fn no_hundreds(words: Seq<u64>) -> bool {
    forall|i: int| 0 <= i < words.len() ==> #[trigger] words[i] % 100 != 0
}

/// The multiples of `step`, computed at the places of a column.
proof fn lemma_multiples(step: u64, contents: Contents, slot: u64)
    requires
        slot < contents.columns.len(),
        contents.columns[slot as int].len() <= u64::MAX,
    ensures
        crate::laws::steps::each_is(contents, slot, times(ix(), num(step))) <==> counts_by(
            step,
            contents.columns[slot as int],
        ),
{
    let words = contents.columns[slot as int];
    let expected = times(ix(), num(step));
    assert forall|i: int| 0 <= i < words.len() implies (#[trigger] crate::expr::value_of(
        expected,
        contents,
        i as u64,
    ) == Some(words[i]) <==> words[i] == i * step) by {
        lemma_multiple(step, contents, i as u64);
        assert(0 <= i * step) by (nonlinear_arith)
            requires
                0 <= i,
                0 <= step,
        ;
    }
    if counts_by(step, words) {
        assert forall|i: int| 0 <= i < words.len() implies #[trigger] crate::expr::value_of(
            expected,
            contents,
            i as u64,
        ) == Some(words[i]) by {
            assert(words[i] == i * step);
        }
    } else {
        let i = choose|i: int| 0 <= i < words.len() && #[trigger] words[i] != i * step;
        assert(crate::expr::value_of(expected, contents, i as u64) != Some(words[i]));
    }
}

/// A multiple, if it fits.
proof fn lemma_multiple(step: u64, contents: Contents, i: u64)
    ensures
        crate::expr::value_of(times(ix(), num(step)), contents, i) == crate::expr::fitting(
            i * step,
        ),
{
    reveal_with_fuel(crate::expr::value_of, 2);
}

/// The odd numbers, computed at the places of a column.
proof fn lemma_odds(contents: Contents, slot: u64)
    requires
        slot < contents.columns.len(),
        contents.columns[slot as int].len() <= u64::MAX,
    ensures
        crate::laws::steps::each_is(contents, slot, plus(times(ix(), num(2)), num(1)))
            <==> counts_odd(contents.columns[slot as int]),
{
    let words = contents.columns[slot as int];
    let expected = plus(times(ix(), num(2)), num(1));
    assert forall|i: int| 0 <= i < words.len() implies (#[trigger] crate::expr::value_of(
        expected,
        contents,
        i as u64,
    ) == Some(words[i]) <==> words[i] == 2 * i + 1) by {
        lemma_odd(contents, i as u64);
    }
    if counts_odd(words) {
        assert forall|i: int| 0 <= i < words.len() implies #[trigger] crate::expr::value_of(
            expected,
            contents,
            i as u64,
        ) == Some(words[i]) by {
            assert(words[i] == 2 * i + 1);
        }
    } else {
        let i = choose|i: int| 0 <= i < words.len() && #[trigger] words[i] != 2 * i + 1;
        assert(crate::expr::value_of(expected, contents, i as u64) != Some(words[i]));
    }
}

/// An odd number, if it fits.
proof fn lemma_odd(contents: Contents, i: u64)
    ensures
        crate::expr::value_of(plus(times(ix(), num(2)), num(1)), contents, i)
            == crate::expr::fitting(2 * i + 1),
{
    reveal_with_fuel(crate::expr::value_of, 3);
}

/// Whether the answers to the downloads of the test are columns or refusals.
pub open spec fn half_shaped(answers: Seq<Answer>) -> bool {
    &&& answers.len() >= 21
    &&& forall|k: int|
        0 <= k < 4 ==> crate::laws::steps::column_or_refusal(#[trigger] answers[3 + 5 * k])
}

/// What the device has to answer in round `k` of the part `sizes`, from answer `used` on.
pub open spec fn half_sizes(k: int, answers: Seq<Answer>, used: int) -> bool {
    &&& !(answers[used] is Failed)
    &&& !(answers[used + 1] is Failed)
    &&& answers[used + 2] == Answer::Count((SIZES@[k] / 2) as u64)
    &&& answers[used + 3] is Words
    &&& crate::laws::steps::counts_up(answers[used + 3]->Words_0)
}

/// What the device has to answer in the part `end`.
pub open spec fn half_end(answers: Seq<Answer>) -> bool {
    !(answers[20] is Failed)
}

/// One round of the part `sizes`.
proof fn lemma_half_sizes(k: int, contents: Contents, answers: Seq<Answer>, used: int)
    requires
        0 <= k < 4,
        used == 5 * k,
        contents.full(),
        half_shaped(answers),
    ensures
        match crate::walk::walked(
            crate::categories::c11_control_flow::filter_half_pass_sizes_round(k as u64),
            0,
            8,
            contents,
            answers,
            used,
        ) {
            Some((after, next)) => {
                &&& half_sizes(k, answers, used)
                &&& after.full()
                &&& next == 5 * (k + 1)
            },
            None => !half_sizes(k, answers, used),
        },
        crate::categories::c11_control_flow::filter_half_pass_sizes_round(k as u64).len() == 8,
{
    let steps = crate::categories::c11_control_flow::filter_half_pass_sizes_round(k as u64);
    assert(crate::laws::steps::column_or_refusal(answers[3 + 5 * k]));
    crate::laws::words::lemma_below(SIZES@[k], contents);
    let words1 = crate::laws::words::below(SIZES@[k]);
    crate::laws::steps::lemma_fill(steps, 0, 8, contents, answers, used, words1);
    let next1 = contents.with_column(0, words1);
    crate::laws::steps::lemma_command(steps, 1, 8, next1, answers, used);
    lemma_first_half(SIZES@[k], next1);
    let words2 = crate::laws::words::leading((SIZES@[k] / 2) as u64, SIZES@[k]);
    crate::laws::steps::lemma_fill(steps, 2, 8, next1, answers, used + 1, words2);
    let next2 = next1.with_column(1, words2);
    crate::laws::steps::lemma_command(steps, 3, 8, next2, answers, used + 1);
    lemma_first_half(SIZES@[k], next2);
    crate::laws::steps::lemma_match(steps, 4, 8, next2, answers, used + 2, (SIZES@[k] / 2) as u64);
    let next3 = next2.with_register(COUNT, (SIZES@[k] / 2) as u64);
    crate::laws::steps::lemma_download(steps, 5, 8, next3, answers, used + 3);
    if answers[used + 3] is Words {
        let next4 = next3.with_column(2, answers[used + 3]->Words_0);
        crate::laws::steps::lemma_scan_places(steps, 6, 8, next4, answers, used + 4, 2);
        crate::laws::steps::lemma_command(steps, 7, 8, next4, answers, used + 4);
        crate::laws::steps::lemma_end(steps, 8, next4, answers, used + 5);
    }
}

/// All rounds of the part `sizes`.
proof fn lemma_half_sizes_rounds(contents: Contents, answers: Seq<Answer>)
    requires
        contents.full(),
        half_shaped(answers),
    ensures
        ({
            let steps = crate::script::rounds(
                4,
                |k: int| crate::categories::c11_control_flow::filter_half_pass_sizes_round(
                    k as u64,
                ),
            );
            match crate::walk::walked(steps, 0, steps.len() as int, contents, answers, 0) {
                Some((after, next)) => {
                    &&& forall|k: int| 0 <= k < 4 ==> #[trigger] half_sizes(k, answers, 5 * k)
                    &&& after.full()
                    &&& next == 20
                },
                None => !(forall|k: int|
                    0 <= k < 4 ==> #[trigger] half_sizes(k, answers, 5 * k)),
            }
        }),
{
    let round = |k: int| crate::categories::c11_control_flow::filter_half_pass_sizes_round(
        k as u64,
    );
    let start = |k: int| 5 * k;
    let good = |k: int| half_sizes(k, answers, start(k));
    let kept = |contents: Contents| contents.full();
    assert forall|k: int, contents: Contents|
        #![trigger good(k), kept(contents)]
        0 <= k < 4 && kept(contents) implies if good(k) {
        crate::walk::goes_to(round(k), contents, answers, start(k), start(k + 1), kept)
    } else {
        crate::walk::walked(round(k), 0, round(k).len() as int, contents, answers, start(k)) is None
    } by {
        lemma_half_sizes(k, contents, answers, start(k));
    }
    crate::walk::law_rounds_keep_what_each_keeps(4, round, start, good, kept, contents, answers);
    if forall|k: int| 0 <= k < 4 ==> #[trigger] good(k) {
        assert forall|k: int| 0 <= k < 4 implies #[trigger] half_sizes(k, answers, 5 * k) by {
            assert(good(k));
        }
    } else {
        let k = choose|k: int| 0 <= k < 4 && !(#[trigger] good(k));
        assert(!half_sizes(k, answers, 5 * k));
    }
}

/// The part `end`.
proof fn lemma_half_end(contents: Contents, answers: Seq<Answer>)
    requires
        contents.full(),
        half_shaped(answers),
    ensures
        match crate::walk::walked(
            crate::categories::c11_control_flow::filter_half_pass_end_steps(),
            0,
            1,
            contents,
            answers,
            20,
        ) {
            Some((after, next)) => {
                &&& half_end(answers)
                &&& after.full()
                &&& next == 21
            },
            None => !half_end(answers),
        },
        crate::categories::c11_control_flow::filter_half_pass_end_steps().len() == 1,
{
    let steps = crate::categories::c11_control_flow::filter_half_pass_end_steps();
    crate::laws::steps::lemma_command(steps, 0, 1, contents, answers, 20);
    crate::laws::steps::lemma_end(steps, 1, contents, answers, 21);
}

/// The test has no jumps.
proof fn lemma_half_straight()
    ensures
        forall|j: int|
            0 <= j < crate::categories::c11_control_flow::filter_half_pass_steps().len()
                ==> crate::walk::straight(
                #[trigger] crate::categories::c11_control_flow::filter_half_pass_steps()[j],
            ),
{
    let part1 = crate::script::rounds(
        4,
        |k: int| crate::categories::c11_control_flow::filter_half_pass_sizes_round(k as u64),
    );
    let round1 = |k: int| crate::categories::c11_control_flow::filter_half_pass_sizes_round(
        k as u64,
    );
    crate::walk::law_straight_rounds_are_straight(4, round1);
    let part2 = crate::categories::c11_control_flow::filter_half_pass_end_steps();
    let whole1 = part1;
    let whole2 = whole1 + part2;
    crate::walk::law_straight_scripts_make_a_straight_one(whole1, part2);
    assert(crate::categories::c11_control_flow::filter_half_pass_steps() == whole2);
}

/// The test that keeps the first half of the rows passes exactly when, for each size, half of them
/// are kept, each number at its place.
pub proof fn law_keeping_half_passes_exactly_when_the_first_half_is_kept(answers: Seq<Answer>)
    requires
        half_shaped(answers),
    ensures
        crate::machine::run_of(
            crate::script::plan(
                "test_filter_half_pass",
                crate::categories::c11_control_flow::filter_half_pass_steps(),
            ),
            answers,
        ).progress == Progress::Over(Ending::Passed) <==> {
            &&& forall|k: int|
                0 <= k < 4 ==> #[trigger] half_sizes(k, answers, 5 * k)
            &&& half_end(answers)
        },
{
    let plan = crate::script::plan(
        "test_filter_half_pass",
        crate::categories::c11_control_flow::filter_half_pass_steps(),
    );
    let blank = Contents::blank(plan.texts);
    let part1 = crate::script::rounds(
        4,
        |k: int| crate::categories::c11_control_flow::filter_half_pass_sizes_round(k as u64),
    );
    let part2 = crate::categories::c11_control_flow::filter_half_pass_end_steps();
    let whole1 = part1;
    let whole2 = whole1 + part2;
    assert(plan.steps == whole2);
    lemma_half_sizes_rounds(blank, answers);
    crate::walk::law_walks_over_two_scripts_compose(whole1, part2, blank, answers, 0);
    match crate::walk::walked(whole1, 0, whole1.len() as int, blank, answers, 0) {
        Some((after, _)) => {
            lemma_half_end(after, answers);
        },
        None => {},
    }
    lemma_half_straight();
    crate::walk::law_passes_exactly_when_every_step_goes_through(plan, answers);
}

/// Whether the answers to the downloads of the test are columns or refusals.
pub open spec fn sparse_shaped(answers: Seq<Answer>) -> bool {
    &&& answers.len() >= 16
    &&& forall|k: int|
        0 <= k < 3 ==> crate::laws::steps::column_or_refusal(#[trigger] answers[3 + 5 * k])
}

/// What the device has to answer in round `k` of the part `sizes`, from answer `used` on.
pub open spec fn sparse_sizes(k: int, answers: Seq<Answer>, used: int) -> bool {
    &&& !(answers[used] is Failed)
    &&& !(answers[used + 1] is Failed)
    &&& answers[used + 2] == Answer::Count(
        crate::columns::total(crate::laws::masks::every(100, LONG_SIZES@[k] as nat)) as u64,
    )
    &&& answers[used + 3] is Words
    &&& counts_by(100, answers[used + 3]->Words_0)
}

/// What the device has to answer in the part `end`.
pub open spec fn sparse_end(answers: Seq<Answer>) -> bool {
    !(answers[15] is Failed)
}

/// One round of the part `sizes`.
proof fn lemma_sparse_sizes(k: int, contents: Contents, answers: Seq<Answer>, used: int)
    requires
        0 <= k < 3,
        used == 5 * k,
        contents.full(),
        sparse_shaped(answers),
    ensures
        match crate::walk::walked(
            crate::categories::c11_control_flow::sparse_predicate_sizes_round(k as u64),
            0,
            9,
            contents,
            answers,
            used,
        ) {
            Some((after, next)) => {
                &&& sparse_sizes(k, answers, used)
                &&& after.full()
                &&& next == 5 * (k + 1)
            },
            None => !sparse_sizes(k, answers, used),
        },
        crate::categories::c11_control_flow::sparse_predicate_sizes_round(k as u64).len() == 9,
{
    let steps = crate::categories::c11_control_flow::sparse_predicate_sizes_round(k as u64);
    assert(crate::laws::steps::column_or_refusal(answers[3 + 5 * k]));
    lemma_long_sizes(k);
    crate::laws::words::lemma_below(LONG_SIZES@[k], contents);
    let words1 = crate::laws::words::below(LONG_SIZES@[k]);
    crate::laws::steps::lemma_fill(steps, 0, 9, contents, answers, used, words1);
    let next1 = contents.with_column(0, words1);
    crate::laws::steps::lemma_command(steps, 1, 9, next1, answers, used);
    crate::laws::masks::lemma_remainder_words(100, LONG_SIZES@[k], next1);
    let words2 = crate::laws::masks::every(100, LONG_SIZES@[k] as nat);
    crate::laws::steps::lemma_fill(steps, 2, 9, next1, answers, used + 1, words2);
    let next2 = next1.with_column(1, words2);
    crate::laws::lanes::lemma_mask_sum(next2, 1);
    crate::laws::steps::lemma_put(
        steps,
        3,
        9,
        next2,
        answers,
        used + 1,
        crate::columns::total(crate::laws::masks::every(100, LONG_SIZES@[k] as nat)) as u64,
    );
    let next3 = next2.with_register(
        0,
        crate::columns::total(crate::laws::masks::every(100, LONG_SIZES@[k] as nat)) as u64,
    );
    crate::laws::steps::lemma_command(steps, 4, 9, next3, answers, used + 1);
    crate::laws::steps::lemma_match(
        steps,
        5,
        9,
        next3,
        answers,
        used + 2,
        crate::columns::total(crate::laws::masks::every(100, LONG_SIZES@[k] as nat)) as u64,
    );
    let next4 = next3.with_register(
        COUNT,
        crate::columns::total(crate::laws::masks::every(100, LONG_SIZES@[k] as nat)) as u64,
    );
    crate::laws::steps::lemma_download(steps, 6, 9, next4, answers, used + 3);
    if answers[used + 3] is Words {
        let next5 = next4.with_column(2, answers[used + 3]->Words_0);
        lemma_multiples(100, next5, 2);
        crate::laws::steps::lemma_scan_each(
            steps,
            7,
            9,
            next5,
            answers,
            used + 4,
            2,
            times(ix(), num(100)),
        );
        crate::laws::steps::lemma_command(steps, 8, 9, next5, answers, used + 4);
        crate::laws::steps::lemma_end(steps, 9, next5, answers, used + 5);
    }
}

/// All rounds of the part `sizes`.
proof fn lemma_sparse_sizes_rounds(contents: Contents, answers: Seq<Answer>)
    requires
        contents.full(),
        sparse_shaped(answers),
    ensures
        ({
            let steps = crate::script::rounds(
                3,
                |k: int| crate::categories::c11_control_flow::sparse_predicate_sizes_round(
                    k as u64,
                ),
            );
            match crate::walk::walked(steps, 0, steps.len() as int, contents, answers, 0) {
                Some((after, next)) => {
                    &&& forall|k: int| 0 <= k < 3 ==> #[trigger] sparse_sizes(k, answers, 5 * k)
                    &&& after.full()
                    &&& next == 15
                },
                None => !(forall|k: int|
                    0 <= k < 3 ==> #[trigger] sparse_sizes(k, answers, 5 * k)),
            }
        }),
{
    let round = |k: int| crate::categories::c11_control_flow::sparse_predicate_sizes_round(
        k as u64,
    );
    let start = |k: int| 5 * k;
    let good = |k: int| sparse_sizes(k, answers, start(k));
    let kept = |contents: Contents| contents.full();
    assert forall|k: int, contents: Contents|
        #![trigger good(k), kept(contents)]
        0 <= k < 3 && kept(contents) implies if good(k) {
        crate::walk::goes_to(round(k), contents, answers, start(k), start(k + 1), kept)
    } else {
        crate::walk::walked(round(k), 0, round(k).len() as int, contents, answers, start(k)) is None
    } by {
        lemma_sparse_sizes(k, contents, answers, start(k));
    }
    crate::walk::law_rounds_keep_what_each_keeps(3, round, start, good, kept, contents, answers);
    if forall|k: int| 0 <= k < 3 ==> #[trigger] good(k) {
        assert forall|k: int| 0 <= k < 3 implies #[trigger] sparse_sizes(k, answers, 5 * k) by {
            assert(good(k));
        }
    } else {
        let k = choose|k: int| 0 <= k < 3 && !(#[trigger] good(k));
        assert(!sparse_sizes(k, answers, 5 * k));
    }
}

/// The part `end`.
proof fn lemma_sparse_end(contents: Contents, answers: Seq<Answer>)
    requires
        contents.full(),
        sparse_shaped(answers),
    ensures
        match crate::walk::walked(
            crate::categories::c11_control_flow::sparse_predicate_end_steps(),
            0,
            1,
            contents,
            answers,
            15,
        ) {
            Some((after, next)) => {
                &&& sparse_end(answers)
                &&& after.full()
                &&& next == 16
            },
            None => !sparse_end(answers),
        },
        crate::categories::c11_control_flow::sparse_predicate_end_steps().len() == 1,
{
    let steps = crate::categories::c11_control_flow::sparse_predicate_end_steps();
    crate::laws::steps::lemma_command(steps, 0, 1, contents, answers, 15);
    crate::laws::steps::lemma_end(steps, 1, contents, answers, 16);
}

/// The test has no jumps.
proof fn lemma_sparse_straight()
    ensures
        forall|j: int|
            0 <= j < crate::categories::c11_control_flow::sparse_predicate_steps().len()
                ==> crate::walk::straight(
                #[trigger] crate::categories::c11_control_flow::sparse_predicate_steps()[j],
            ),
{
    let part1 = crate::script::rounds(
        3,
        |k: int| crate::categories::c11_control_flow::sparse_predicate_sizes_round(k as u64),
    );
    let round1 = |k: int| crate::categories::c11_control_flow::sparse_predicate_sizes_round(
        k as u64,
    );
    crate::walk::law_straight_rounds_are_straight(3, round1);
    let part2 = crate::categories::c11_control_flow::sparse_predicate_end_steps();
    let whole1 = part1;
    let whole2 = whole1 + part2;
    crate::walk::law_straight_scripts_make_a_straight_one(whole1, part2);
    assert(crate::categories::c11_control_flow::sparse_predicate_steps() == whole2);
}

/// The test that keeps every hundredth row passes exactly when, for each size, as many rows are
/// kept as are marked, and they are multiples of a hundred in order.
pub proof fn law_sparse_predicate_passes_exactly_when_every_hundredth_is_kept(answers: Seq<Answer>)
    requires
        sparse_shaped(answers),
    ensures
        crate::machine::run_of(
            crate::script::plan(
                "test_sparse_predicate",
                crate::categories::c11_control_flow::sparse_predicate_steps(),
            ),
            answers,
        ).progress == Progress::Over(Ending::Passed) <==> {
            &&& forall|k: int|
                0 <= k < 3 ==> #[trigger] sparse_sizes(k, answers, 5 * k)
            &&& sparse_end(answers)
        },
{
    let plan = crate::script::plan(
        "test_sparse_predicate",
        crate::categories::c11_control_flow::sparse_predicate_steps(),
    );
    let blank = Contents::blank(plan.texts);
    let part1 = crate::script::rounds(
        3,
        |k: int| crate::categories::c11_control_flow::sparse_predicate_sizes_round(k as u64),
    );
    let part2 = crate::categories::c11_control_flow::sparse_predicate_end_steps();
    let whole1 = part1;
    let whole2 = whole1 + part2;
    assert(plan.steps == whole2);
    lemma_sparse_sizes_rounds(blank, answers);
    crate::walk::law_walks_over_two_scripts_compose(whole1, part2, blank, answers, 0);
    match crate::walk::walked(whole1, 0, whole1.len() as int, blank, answers, 0) {
        Some((after, _)) => {
            lemma_sparse_end(after, answers);
        },
        None => {},
    }
    lemma_sparse_straight();
    crate::walk::law_passes_exactly_when_every_step_goes_through(plan, answers);
}

/// Looking for multiples of a hundred in a column of places.
proof fn lemma_scan_hundreds(
    steps: Seq<Step>,
    at: int,
    to: int,
    contents: Contents,
    answers: Seq<Answer>,
    used: int,
)
    requires
        at < to,
        contents.full(),
        contents.columns[2].len() <= u64::MAX,
        crate::machine::taken(steps[at], contents) == Some(true),
        crate::machine::act_of(steps[at]) matches Act::Scan { low, high, by, faults } && {
            &&& low == num(0)
            &&& high == len(2)
            &&& by == 1
            &&& faults matches Faults::One(fault, _)
            &&& fault == same_as(modulo(here(2), num(100)), num(0))
        },
    ensures
        crate::walk::walked(steps, at, to, contents, answers, used) == (if no_hundreds(
            contents.columns[2],
        ) {
            crate::walk::walked(steps, at + 1, to, contents, answers, used)
        } else {
            None
        }),
{
    let words = contents.columns[2];
    match crate::machine::act_of(steps[at]) {
        Act::Scan { faults, .. } => {
            crate::laws::steps::lemma_scan(
                steps,
                at,
                to,
                contents,
                answers,
                used,
                0,
                words.len() as u64,
            );
            assert forall|i: int| 0 <= i < words.len() implies (#[trigger] crate::walk::shows(
                faults,
                contents,
                i as u64,
            ) <==> words[i] % 100 == 0) by {
                reveal_with_fuel(crate::expr::value_of, 4);
            }
            if no_hundreds(words) {
                assert forall|i: int| 0 <= i < words.len() implies !(#[trigger] crate::walk::shows(
                    faults,
                    contents,
                    i as u64,
                )) by {
                    assert(words[i] % 100 != 0);
                }
            } else {
                let i = choose|i: int| 0 <= i < words.len() && #[trigger] words[i] % 100 == 0;
                assert(crate::walk::shows(faults, contents, i as u64));
            }
        },
        _ => {},
    }
}

/// Whether the answers to the downloads of the test are columns or refusals.
pub open spec fn dense_shaped(answers: Seq<Answer>) -> bool {
    &&& answers.len() >= 16
    &&& forall|k: int|
        0 <= k < 3 ==> crate::laws::steps::column_or_refusal(#[trigger] answers[3 + 5 * k])
}

/// What the device has to answer in round `k` of the part `sizes`, from answer `used` on.
pub open spec fn dense_sizes(k: int, answers: Seq<Answer>, used: int) -> bool {
    &&& !(answers[used] is Failed)
    &&& !(answers[used + 1] is Failed)
    &&& answers[used + 2] == Answer::Count(
        crate::columns::total(but_every(100, LONG_SIZES@[k])) as u64,
    )
    &&& answers[used + 3] is Words
    &&& no_hundreds(answers[used + 3]->Words_0)
    &&& answers[used + 3]->Words_0 == picked(
        crate::laws::words::below(LONG_SIZES@[k]),
        but_every(100, LONG_SIZES@[k]),
        LONG_SIZES@[k] as nat,
    )
}

/// What the device has to answer in the part `end`.
pub open spec fn dense_end(answers: Seq<Answer>) -> bool {
    !(answers[15] is Failed)
}

/// One round of the part `sizes`.
proof fn lemma_dense_sizes(k: int, contents: Contents, answers: Seq<Answer>, used: int)
    requires
        0 <= k < 3,
        used == 5 * k,
        contents.full(),
        dense_shaped(answers),
    ensures
        match crate::walk::walked(
            crate::categories::c11_control_flow::dense_predicate_sizes_round(k as u64),
            0,
            11,
            contents,
            answers,
            used,
        ) {
            Some((after, next)) => {
                &&& dense_sizes(k, answers, used)
                &&& after.full()
                &&& next == 5 * (k + 1)
            },
            None => !dense_sizes(k, answers, used),
        },
        crate::categories::c11_control_flow::dense_predicate_sizes_round(k as u64).len() == 11,
{
    let steps = crate::categories::c11_control_flow::dense_predicate_sizes_round(k as u64);
    assert(crate::laws::steps::column_or_refusal(answers[3 + 5 * k]));
    lemma_long_sizes(k);
    crate::laws::words::lemma_below(LONG_SIZES@[k], contents);
    let words1 = crate::laws::words::below(LONG_SIZES@[k]);
    crate::laws::steps::lemma_fill(steps, 0, 11, contents, answers, used, words1);
    let next1 = contents.with_column(0, words1);
    crate::laws::steps::lemma_command(steps, 1, 11, next1, answers, used);
    lemma_but_every(100, LONG_SIZES@[k], next1);
    let words2 = but_every(100, LONG_SIZES@[k]);
    crate::laws::steps::lemma_fill(steps, 2, 11, next1, answers, used + 1, words2);
    let next2 = next1.with_column(1, words2);
    crate::laws::lanes::lemma_mask_sum(next2, 1);
    crate::laws::steps::lemma_put(
        steps,
        3,
        11,
        next2,
        answers,
        used + 1,
        crate::columns::total(but_every(100, LONG_SIZES@[k])) as u64,
    );
    let next3 = next2.with_register(
        0,
        crate::columns::total(but_every(100, LONG_SIZES@[k])) as u64,
    );
    crate::laws::steps::lemma_command(steps, 4, 11, next3, answers, used + 1);
    crate::laws::steps::lemma_match(
        steps,
        5,
        11,
        next3,
        answers,
        used + 2,
        crate::columns::total(but_every(100, LONG_SIZES@[k])) as u64,
    );
    let next4 = next3.with_register(
        COUNT,
        crate::columns::total(but_every(100, LONG_SIZES@[k])) as u64,
    );
    crate::laws::steps::lemma_download(steps, 6, 11, next4, answers, used + 3);
    if answers[used + 3] is Words {
        let next5 = next4.with_column(2, answers[used + 3]->Words_0);
        lemma_scan_hundreds(steps, 7, 11, next5, answers, used + 4);
        lemma_but_every(100, LONG_SIZES@[k], next5);
        crate::laws::words::lemma_below(LONG_SIZES@[k], next5);
        lemma_picked(
            differs(modulo(ix(), num(100)), num(0)),
            ix(),
            next5,
            crate::laws::words::below(LONG_SIZES@[k]),
            but_every(100, LONG_SIZES@[k]),
            LONG_SIZES@[k] as nat,
        );
        crate::laws::steps::lemma_select(
            steps,
            8,
            11,
            next5,
            answers,
            used + 4,
            LONG_SIZES@[k],
            picked(
                crate::laws::words::below(LONG_SIZES@[k]),
                but_every(100, LONG_SIZES@[k]),
                LONG_SIZES@[k] as nat,
            ),
        );
        let next6 = next5.with_column(
            3,
            picked(
                crate::laws::words::below(LONG_SIZES@[k]),
                but_every(100, LONG_SIZES@[k]),
                LONG_SIZES@[k] as nat,
            ),
        );
        crate::laws::steps::lemma_not_alike(next6, 2, 3);
        crate::laws::steps::lemma_check(
            steps,
            9,
            11,
            next6,
            answers,
            used + 4,
            !(
                answers[used + 3]->Words_0 == picked(
                    crate::laws::words::below(LONG_SIZES@[k]),
                    but_every(100, LONG_SIZES@[k]),
                    LONG_SIZES@[k] as nat,
                )
            ),
        );
        crate::laws::steps::lemma_command(steps, 10, 11, next6, answers, used + 4);
        crate::laws::steps::lemma_end(steps, 11, next6, answers, used + 5);
    }
}

/// All rounds of the part `sizes`.
proof fn lemma_dense_sizes_rounds(contents: Contents, answers: Seq<Answer>)
    requires
        contents.full(),
        dense_shaped(answers),
    ensures
        ({
            let steps = crate::script::rounds(
                3,
                |k: int| crate::categories::c11_control_flow::dense_predicate_sizes_round(k as u64),
            );
            match crate::walk::walked(steps, 0, steps.len() as int, contents, answers, 0) {
                Some((after, next)) => {
                    &&& forall|k: int| 0 <= k < 3 ==> #[trigger] dense_sizes(k, answers, 5 * k)
                    &&& after.full()
                    &&& next == 15
                },
                None => !(forall|k: int|
                    0 <= k < 3 ==> #[trigger] dense_sizes(k, answers, 5 * k)),
            }
        }),
{
    let round = |k: int| crate::categories::c11_control_flow::dense_predicate_sizes_round(k as u64);
    let start = |k: int| 5 * k;
    let good = |k: int| dense_sizes(k, answers, start(k));
    let kept = |contents: Contents| contents.full();
    assert forall|k: int, contents: Contents|
        #![trigger good(k), kept(contents)]
        0 <= k < 3 && kept(contents) implies if good(k) {
        crate::walk::goes_to(round(k), contents, answers, start(k), start(k + 1), kept)
    } else {
        crate::walk::walked(round(k), 0, round(k).len() as int, contents, answers, start(k)) is None
    } by {
        lemma_dense_sizes(k, contents, answers, start(k));
    }
    crate::walk::law_rounds_keep_what_each_keeps(3, round, start, good, kept, contents, answers);
    if forall|k: int| 0 <= k < 3 ==> #[trigger] good(k) {
        assert forall|k: int| 0 <= k < 3 implies #[trigger] dense_sizes(k, answers, 5 * k) by {
            assert(good(k));
        }
    } else {
        let k = choose|k: int| 0 <= k < 3 && !(#[trigger] good(k));
        assert(!dense_sizes(k, answers, 5 * k));
    }
}

/// The part `end`.
proof fn lemma_dense_end(contents: Contents, answers: Seq<Answer>)
    requires
        contents.full(),
        dense_shaped(answers),
    ensures
        match crate::walk::walked(
            crate::categories::c11_control_flow::dense_predicate_end_steps(),
            0,
            1,
            contents,
            answers,
            15,
        ) {
            Some((after, next)) => {
                &&& dense_end(answers)
                &&& after.full()
                &&& next == 16
            },
            None => !dense_end(answers),
        },
        crate::categories::c11_control_flow::dense_predicate_end_steps().len() == 1,
{
    let steps = crate::categories::c11_control_flow::dense_predicate_end_steps();
    crate::laws::steps::lemma_command(steps, 0, 1, contents, answers, 15);
    crate::laws::steps::lemma_end(steps, 1, contents, answers, 16);
}

/// The test has no jumps.
proof fn lemma_dense_straight()
    ensures
        forall|j: int|
            0 <= j < crate::categories::c11_control_flow::dense_predicate_steps().len()
                ==> crate::walk::straight(
                #[trigger] crate::categories::c11_control_flow::dense_predicate_steps()[j],
            ),
{
    let part1 = crate::script::rounds(
        3,
        |k: int| crate::categories::c11_control_flow::dense_predicate_sizes_round(k as u64),
    );
    let round1 = |k: int| crate::categories::c11_control_flow::dense_predicate_sizes_round(
        k as u64,
    );
    crate::walk::law_straight_rounds_are_straight(3, round1);
    let part2 = crate::categories::c11_control_flow::dense_predicate_end_steps();
    let whole1 = part1;
    let whole2 = whole1 + part2;
    crate::walk::law_straight_scripts_make_a_straight_one(whole1, part2);
    assert(crate::categories::c11_control_flow::dense_predicate_steps() == whole2);
}

/// The test that leaves out every hundredth row passes exactly when, for each size, as many rows
/// are kept as are marked, none is a multiple of a hundred, and they are the marked ones in order.
pub proof fn law_dense_predicate_passes_exactly_when_the_others_are_kept(answers: Seq<Answer>)
    requires
        dense_shaped(answers),
    ensures
        crate::machine::run_of(
            crate::script::plan(
                "test_dense_predicate",
                crate::categories::c11_control_flow::dense_predicate_steps(),
            ),
            answers,
        ).progress == Progress::Over(Ending::Passed) <==> {
            &&& forall|k: int|
                0 <= k < 3 ==> #[trigger] dense_sizes(k, answers, 5 * k)
            &&& dense_end(answers)
        },
{
    let plan = crate::script::plan(
        "test_dense_predicate",
        crate::categories::c11_control_flow::dense_predicate_steps(),
    );
    let blank = Contents::blank(plan.texts);
    let part1 = crate::script::rounds(
        3,
        |k: int| crate::categories::c11_control_flow::dense_predicate_sizes_round(k as u64),
    );
    let part2 = crate::categories::c11_control_flow::dense_predicate_end_steps();
    let whole1 = part1;
    let whole2 = whole1 + part2;
    assert(plan.steps == whole2);
    lemma_dense_sizes_rounds(blank, answers);
    crate::walk::law_walks_over_two_scripts_compose(whole1, part2, blank, answers, 0);
    match crate::walk::walked(whole1, 0, whole1.len() as int, blank, answers, 0) {
        Some((after, _)) => {
            lemma_dense_end(after, answers);
        },
        None => {},
    }
    lemma_dense_straight();
    crate::walk::law_passes_exactly_when_every_step_goes_through(plan, answers);
}

/// Whether the answers to the downloads of the test are columns or refusals.
pub open spec fn alternating_shaped(answers: Seq<Answer>) -> bool {
    &&& answers.len() >= 33
    &&& forall|k: int|
        0 <= k < 4 ==> crate::laws::steps::column_or_refusal(#[trigger] answers[3 + 8 * k])
    &&& forall|k: int|
        0 <= k < 4 ==> crate::laws::steps::column_or_refusal(#[trigger] answers[6 + 8 * k])
}

/// What the device has to answer in round `k` of the part `sizes`, from answer `used` on.
pub open spec fn alternating_sizes(k: int, answers: Seq<Answer>, used: int) -> bool {
    &&& !(answers[used] is Failed)
    &&& !(answers[used + 1] is Failed)
    &&& answers[used + 2] == Answer::Count(((SIZES@[k] + 1) / 2) as u64)
    &&& answers[used + 3] is Words
    &&& counts_by(2, answers[used + 3]->Words_0)
    &&& !(answers[used + 4] is Failed)
    &&& answers[used + 5] == Answer::Count((SIZES@[k] / 2) as u64)
    &&& answers[used + 6] is Words
    &&& counts_odd(answers[used + 6]->Words_0)
}

/// What the device has to answer in the part `end`.
pub open spec fn alternating_end(answers: Seq<Answer>) -> bool {
    !(answers[32] is Failed)
}

/// One round of the part `sizes`.
proof fn lemma_alternating_sizes(k: int, contents: Contents, answers: Seq<Answer>, used: int)
    requires
        0 <= k < 4,
        used == 8 * k,
        contents.full(),
        alternating_shaped(answers),
    ensures
        match crate::walk::walked(
            crate::categories::c11_control_flow::alternating_predicate_sizes_round(k as u64),
            0,
            13,
            contents,
            answers,
            used,
        ) {
            Some((after, next)) => {
                &&& alternating_sizes(k, answers, used)
                &&& after.full()
                &&& next == 8 * (k + 1)
            },
            None => !alternating_sizes(k, answers, used),
        },
        crate::categories::c11_control_flow::alternating_predicate_sizes_round(
            k as u64,
        ).len() == 13,
{
    let steps = crate::categories::c11_control_flow::alternating_predicate_sizes_round(k as u64);
    assert(crate::laws::steps::column_or_refusal(answers[3 + 8 * k]));
    assert(crate::laws::steps::column_or_refusal(answers[6 + 8 * k]));
    lemma_sizes(k);
    crate::laws::words::lemma_below(SIZES@[k], contents);
    let words1 = crate::laws::words::below(SIZES@[k]);
    crate::laws::steps::lemma_fill(steps, 0, 13, contents, answers, used, words1);
    let next1 = contents.with_column(0, words1);
    crate::laws::steps::lemma_command(steps, 1, 13, next1, answers, used);
    crate::laws::masks::lemma_remainder_words(2, SIZES@[k], next1);
    let words2 = crate::laws::masks::every(2, SIZES@[k] as nat);
    crate::laws::steps::lemma_fill(steps, 2, 13, next1, answers, used + 1, words2);
    let next2 = next1.with_column(1, words2);
    crate::laws::steps::lemma_command(steps, 3, 13, next2, answers, used + 1);
    crate::laws::lanes::lemma_half(SIZES@[k], next2);
    crate::laws::steps::lemma_match(
        steps,
        4,
        13,
        next2,
        answers,
        used + 2,
        ((SIZES@[k] + 1) / 2) as u64,
    );
    let next3 = next2.with_register(COUNT, ((SIZES@[k] + 1) / 2) as u64);
    crate::laws::steps::lemma_download(steps, 5, 13, next3, answers, used + 3);
    if answers[used + 3] is Words {
        let next4 = next3.with_column(2, answers[used + 3]->Words_0);
        lemma_multiples(2, next4, 2);
        crate::laws::steps::lemma_scan_each(
            steps,
            6,
            13,
            next4,
            answers,
            used + 4,
            2,
            times(ix(), num(2)),
        );
        lemma_but_every(2, SIZES@[k], next4);
        let words5 = but_every(2, SIZES@[k]);
        crate::laws::steps::lemma_fill(steps, 7, 13, next4, answers, used + 4, words5);
        let next5 = next4.with_column(1, words5);
        crate::laws::steps::lemma_command(steps, 8, 13, next5, answers, used + 4);
        lemma_first_half(SIZES@[k], next5);
        crate::laws::steps::lemma_match(
            steps,
            9,
            13,
            next5,
            answers,
            used + 5,
            (SIZES@[k] / 2) as u64,
        );
        let next6 = next5.with_register(COUNT, (SIZES@[k] / 2) as u64);
        crate::laws::steps::lemma_download(steps, 10, 13, next6, answers, used + 6);
        if answers[used + 6] is Words {
            let next7 = next6.with_column(3, answers[used + 6]->Words_0);
            lemma_odds(next7, 3);
            crate::laws::steps::lemma_scan_each(
                steps,
                11,
                13,
                next7,
                answers,
                used + 7,
                3,
                plus(times(ix(), num(2)), num(1)),
            );
            crate::laws::steps::lemma_command(steps, 12, 13, next7, answers, used + 7);
            crate::laws::steps::lemma_end(steps, 13, next7, answers, used + 8);
        }
    }
}

/// All rounds of the part `sizes`.
proof fn lemma_alternating_sizes_rounds(contents: Contents, answers: Seq<Answer>)
    requires
        contents.full(),
        alternating_shaped(answers),
    ensures
        ({
            let steps = crate::script::rounds(
                4,
                |k: int| crate::categories::c11_control_flow::alternating_predicate_sizes_round(
                    k as u64,
                ),
            );
            match crate::walk::walked(steps, 0, steps.len() as int, contents, answers, 0) {
                Some((after, next)) => {
                    &&& forall|k: int|
                        0 <= k < 4 ==> #[trigger] alternating_sizes(k, answers, 8 * k)
                    &&& after.full()
                    &&& next == 32
                },
                None => !(forall|k: int|
                    0 <= k < 4 ==> #[trigger] alternating_sizes(k, answers, 8 * k)),
            }
        }),
{
    let round = |k: int| crate::categories::c11_control_flow::alternating_predicate_sizes_round(
        k as u64,
    );
    let start = |k: int| 8 * k;
    let good = |k: int| alternating_sizes(k, answers, start(k));
    let kept = |contents: Contents| contents.full();
    assert forall|k: int, contents: Contents|
        #![trigger good(k), kept(contents)]
        0 <= k < 4 && kept(contents) implies if good(k) {
        crate::walk::goes_to(round(k), contents, answers, start(k), start(k + 1), kept)
    } else {
        crate::walk::walked(round(k), 0, round(k).len() as int, contents, answers, start(k)) is None
    } by {
        lemma_alternating_sizes(k, contents, answers, start(k));
    }
    crate::walk::law_rounds_keep_what_each_keeps(4, round, start, good, kept, contents, answers);
    if forall|k: int| 0 <= k < 4 ==> #[trigger] good(k) {
        assert forall|k: int| 0 <= k < 4 implies #[trigger] alternating_sizes(
            k,
            answers,
            8 * k,
        ) by {
            assert(good(k));
        }
    } else {
        let k = choose|k: int| 0 <= k < 4 && !(#[trigger] good(k));
        assert(!alternating_sizes(k, answers, 8 * k));
    }
}

/// The part `end`.
proof fn lemma_alternating_end(contents: Contents, answers: Seq<Answer>)
    requires
        contents.full(),
        alternating_shaped(answers),
    ensures
        match crate::walk::walked(
            crate::categories::c11_control_flow::alternating_predicate_end_steps(),
            0,
            1,
            contents,
            answers,
            32,
        ) {
            Some((after, next)) => {
                &&& alternating_end(answers)
                &&& after.full()
                &&& next == 33
            },
            None => !alternating_end(answers),
        },
        crate::categories::c11_control_flow::alternating_predicate_end_steps().len() == 1,
{
    let steps = crate::categories::c11_control_flow::alternating_predicate_end_steps();
    crate::laws::steps::lemma_command(steps, 0, 1, contents, answers, 32);
    crate::laws::steps::lemma_end(steps, 1, contents, answers, 33);
}

/// The test has no jumps.
proof fn lemma_alternating_straight()
    ensures
        forall|j: int|
            0 <= j < crate::categories::c11_control_flow::alternating_predicate_steps().len()
                ==> crate::walk::straight(
                #[trigger] crate::categories::c11_control_flow::alternating_predicate_steps()[j],
            ),
{
    let part1 = crate::script::rounds(
        4,
        |k: int| crate::categories::c11_control_flow::alternating_predicate_sizes_round(k as u64),
    );
    let round1 = |k: int| crate::categories::c11_control_flow::alternating_predicate_sizes_round(
        k as u64,
    );
    crate::walk::law_straight_rounds_are_straight(4, round1);
    let part2 = crate::categories::c11_control_flow::alternating_predicate_end_steps();
    let whole1 = part1;
    let whole2 = whole1 + part2;
    crate::walk::law_straight_scripts_make_a_straight_one(whole1, part2);
    assert(crate::categories::c11_control_flow::alternating_predicate_steps() == whole2);
}

/// The test of alternating rows passes exactly when, for each size, one filter keeps the even
/// numbers and the other one the odd numbers, in order.
pub proof fn law_alternating_predicate_passes_exactly_when_evens_and_odds_are_kept(
    answers: Seq<Answer>,
)
    requires
        alternating_shaped(answers),
    ensures
        crate::machine::run_of(
            crate::script::plan(
                "test_alternating_predicate",
                crate::categories::c11_control_flow::alternating_predicate_steps(),
            ),
            answers,
        ).progress == Progress::Over(Ending::Passed) <==> {
            &&& forall|k: int|
                0 <= k < 4 ==> #[trigger] alternating_sizes(k, answers, 8 * k)
            &&& alternating_end(answers)
        },
{
    let plan = crate::script::plan(
        "test_alternating_predicate",
        crate::categories::c11_control_flow::alternating_predicate_steps(),
    );
    let blank = Contents::blank(plan.texts);
    let part1 = crate::script::rounds(
        4,
        |k: int| crate::categories::c11_control_flow::alternating_predicate_sizes_round(k as u64),
    );
    let part2 = crate::categories::c11_control_flow::alternating_predicate_end_steps();
    let whole1 = part1;
    let whole2 = whole1 + part2;
    assert(plan.steps == whole2);
    lemma_alternating_sizes_rounds(blank, answers);
    crate::walk::law_walks_over_two_scripts_compose(whole1, part2, blank, answers, 0);
    match crate::walk::walked(whole1, 0, whole1.len() as int, blank, answers, 0) {
        Some((after, _)) => {
            lemma_alternating_end(after, answers);
        },
        None => {},
    }
    lemma_alternating_straight();
    crate::walk::law_passes_exactly_when_every_step_goes_through(plan, answers);
}

} // verus!
