//! Laws of the test that works on several buffers.

use vstd::prelude::*;
use crate::expr::{here, ix, len, modulo, num, plus, same_as, times};
use crate::machine::{Answer, Ending, Progress};
use crate::memory::Contents;
use crate::scalar::Scalar;
use crate::script::Step;

verus! {

/// The column of the multiples of `factor`, each with `offset` added.
pub open spec fn line(factor: int, offset: int) -> Seq<u64> {
    Seq::new(1000, |i: int| (i * factor + offset) as u64)
}

/// The words at the even places of a column of `n` words.
pub open spec fn at_even_places(words: Seq<u64>, n: nat) -> Seq<u64> {
    Seq::new((n + 1) / 2, |k: int| words[2 * k])
}

/// The words of a line through zero.
proof fn lemma_multiples(contents: Contents)
    ensures
        forall|i: int|
            0 <= i < 1000 ==> #[trigger] crate::expr::value_of(
                times(ix(), num(3)),
                contents,
                i as u64,
            ) == Some(line(3, 0)[i]),
{
    reveal_with_fuel(crate::expr::value_of, 3);
}

/// The words of a line.
proof fn lemma_line_words(contents: Contents, factor: u64, offset: u64)
    requires
        factor <= 7,
        offset <= 7,
    ensures
        forall|i: int|
            0 <= i < 1000 ==> #[trigger] crate::expr::value_of(
                plus(times(ix(), num(factor)), num(offset)),
                contents,
                i as u64,
            ) == Some(line(factor as int, offset as int)[i]),
{
    assert forall|i: int| 0 <= i < 1000 implies #[trigger] crate::expr::value_of(
        plus(times(ix(), num(factor)), num(offset)),
        contents,
        i as u64,
    ) == Some(line(factor as int, offset as int)[i]) by {
        assert(0 <= i * factor <= 7000) by (nonlinear_arith)
            requires
                0 <= i < 1000,
                factor <= 7,
        ;
        reveal_with_fuel(crate::expr::value_of, 4);
    }
}

/// Keeping the even places of a column keeps every other word.
proof fn lemma_even_places(contents: Contents, n: nat)
    requires
        contents.full(),
        n <= contents.columns[0].len() <= u64::MAX,
    ensures
        crate::machine::selected(
            same_as(modulo(ix(), num(2)), num(0)),
            here(0),
            contents,
            n,
        ) == Some(at_even_places(contents.columns[0], n)),
    decreases n,
{
    let words = contents.columns[0];
    let keep = same_as(modulo(ix(), num(2)), num(0));
    if n == 0 {
        assert(at_even_places(words, 0) =~= Seq::empty());
    } else {
        let before = (n - 1) as nat;
        let place = before as u64;
        lemma_even_places(contents, before);
        assert(crate::expr::value_of(keep, contents, place) == Some(
            crate::expr::truth(before % 2 == 0),
        )) by {
            reveal_with_fuel(crate::expr::value_of, 4);
        }
        assert(crate::expr::value_of(here(0), contents, place) == Some(words[before as int])) by {
            reveal_with_fuel(crate::expr::value_of, 2);
        }
        if before % 2 == 0 {
            assert(at_even_places(words, n) =~= at_even_places(words, before).push(
                words[before as int],
            ));
        } else {
            assert(at_even_places(words, n) =~= at_even_places(words, before));
        }
    }
}

/// A rising line is its own sorted copy.
proof fn lemma_line_is_sorted()
    ensures
        crate::columns::sorted(Scalar::U32, line(5, 1)) == line(5, 1),
{
    crate::columns::law_sorted_is_the_rising_permutation(Scalar::U32, line(5, 1), line(5, 1));
}

/// The test that works on several buffers passes exactly when the device does what it is asked,
/// hands out the first and the third buffer as they were uploaded, the second one sorted, and the
/// first one filtered, and reports no fault in the end.
pub proof fn law_isolation_passes_exactly_when_nothing_else_changed(answers: Seq<Answer>)
    requires
        answers.len() >= 11,
        forall|k: int|
            k == 4 || k == 5 || k == 6 || k == 8 || k == 9 ==> #[trigger] answers[k] is Words
                || answers[k] is Failed,
    ensures
        crate::machine::run_of(
            crate::script::plan(
                "test_multi_buffer_isolation",
                crate::categories::c04_address_space::multi_buffer_isolation_steps(),
            ),
            answers,
        ).progress == Progress::Over(Ending::Passed) <==> {
            &&& !(answers[0] is Failed)
            &&& !(answers[1] is Failed)
            &&& !(answers[2] is Failed)
            &&& !(answers[3] is Failed)
            &&& answers[4] == Answer::Words(line(3, 0))
            &&& answers[5] == Answer::Words(line(7, 2))
            &&& answers[6] == Answer::Words(line(5, 1))
            &&& !(answers[7] is Failed)
            &&& answers[8] == Answer::Words(line(7, 2))
            &&& answers[9] == Answer::Words(at_even_places(line(3, 0), 1000))
            &&& !(answers[10] is Failed)
        },
{
    let steps = crate::categories::c04_address_space::multi_buffer_isolation_steps();
    let plan = crate::script::plan("test_multi_buffer_isolation", steps);
    let blank = Contents::blank(plan.texts);
    crate::walk::law_passes_exactly_when_every_step_goes_through(plan, answers);
    let a = line(3, 0);
    let b = line(5, 1);
    let c = line(7, 2);
    lemma_uploads(steps, blank, answers);
    let first = blank.with_column(0, a).with_column(1, b).with_column(2, c);
    crate::laws::steps::lemma_fetch_same(steps, 7, 22, first, answers, 4, 3, 0);
    let second = first.with_column(3, a);
    crate::laws::steps::lemma_fetch_same(steps, 9, 22, second, answers, 5, 3, 2);
    let third = second.with_column(3, c);
    lemma_rest(steps, third, answers);
}

/// The first steps: three columns are uploaded and one of the buffers is sorted.
proof fn lemma_uploads(steps: Seq<Step>, contents: Contents, answers: Seq<Answer>)
    requires
        steps == crate::categories::c04_address_space::multi_buffer_isolation_steps(),
        contents.full(),
        answers.len() >= 11,
    ensures
        crate::walk::walked(steps, 0, 22, contents, answers, 0) == (if answers[0] is Failed
            || answers[1] is Failed || answers[2] is Failed || answers[3] is Failed {
            None
        } else {
            crate::walk::walked(
                steps,
                7,
                22,
                contents.with_column(0, line(3, 0)).with_column(1, line(5, 1)).with_column(
                    2,
                    line(7, 2),
                ),
                answers,
                4,
            )
        }),
{
    let first = contents.with_column(0, line(3, 0));
    let second = first.with_column(1, line(5, 1));
    let third = second.with_column(2, line(7, 2));
    lemma_multiples(contents);
    crate::laws::steps::lemma_fill(steps, 0, 22, contents, answers, 0, line(3, 0));
    lemma_line_words(first, 5, 1);
    crate::laws::steps::lemma_fill(steps, 1, 22, first, answers, 0, line(5, 1));
    lemma_line_words(second, 7, 2);
    crate::laws::steps::lemma_fill(steps, 2, 22, second, answers, 0, line(7, 2));
    crate::laws::steps::lemma_command(steps, 3, 22, third, answers, 0);
    crate::laws::steps::lemma_command(steps, 4, 22, third, answers, 1);
    crate::laws::steps::lemma_command(steps, 5, 22, third, answers, 2);
    crate::laws::steps::lemma_command(steps, 6, 22, third, answers, 3);
}

/// The last steps: the sorted buffer, the filtered one, and one that was not touched.
proof fn lemma_rest(steps: Seq<Step>, contents: Contents, answers: Seq<Answer>)
    requires
        steps == crate::categories::c04_address_space::multi_buffer_isolation_steps(),
        contents.full(),
        contents.columns[0] == line(3, 0),
        contents.columns[1] == line(5, 1),
        contents.columns[2] == line(7, 2),
        answers.len() >= 11,
        forall|k: int|
            k == 4 || k == 5 || k == 6 || k == 8 || k == 9 ==> #[trigger] answers[k] is Words
                || answers[k] is Failed,
    ensures
        crate::walk::walked(steps, 11, 22, contents, answers, 6) is Some <==> {
            &&& answers[6] == Answer::Words(line(5, 1))
            &&& !(answers[7] is Failed)
            &&& answers[8] == Answer::Words(line(7, 2))
            &&& answers[9] == Answer::Words(at_even_places(line(3, 0), 1000))
            &&& !(answers[10] is Failed)
        },
{
    let a = line(3, 0);
    let b = line(5, 1);
    let c = line(7, 2);
    crate::laws::steps::lemma_download(steps, 11, 22, contents, answers, 6);
    if answers[6] is Words {
        let words = answers[6]->Words_0;
        let first = contents.with_column(3, words);
        crate::laws::steps::lemma_sort_column(steps, 12, 22, first, answers, 7);
        lemma_line_is_sorted();
        let second = first.with_column(4, b);
        crate::laws::steps::lemma_not_alike(second, 3, 4);
        crate::laws::steps::lemma_check(steps, 13, 22, second, answers, 7, words != b);
        let mask = crate::laws::masks::every(2, 1000);
        crate::laws::masks::lemma_remainder_words(2, 1000, second);
        assert(crate::expr::value_of(len(0), second, 0) == Some(1000u64));
        crate::laws::steps::lemma_fill(steps, 14, 22, second, answers, 7, mask);
        let third = second.with_column(5, mask);
        crate::laws::steps::lemma_command(steps, 15, 22, third, answers, 7);
        crate::laws::steps::lemma_fetch_same(steps, 16, 22, third, answers, 8, 3, 2);
        let fourth = third.with_column(3, c);
        crate::laws::steps::lemma_download(steps, 18, 22, fourth, answers, 9);
        if answers[9] is Words {
            let kept = answers[9]->Words_0;
            let fifth = fourth.with_column(3, kept);
            lemma_even_places(fifth, 1000);
            assert(crate::expr::value_of(len(0), fifth, 0) == Some(1000u64));
            let evens = at_even_places(a, 1000);
            crate::laws::steps::lemma_select(steps, 19, 22, fifth, answers, 10, 1000, evens);
            let sixth = fifth.with_column(6, evens);
            crate::laws::steps::lemma_not_alike(sixth, 3, 6);
            crate::laws::steps::lemma_check(steps, 20, 22, sixth, answers, 10, kept != evens);
            crate::laws::steps::lemma_command(steps, 21, 22, sixth, answers, 10);
            crate::laws::steps::lemma_end(steps, 22, sixth, answers, 11);
        }
    }
}

} // verus!
