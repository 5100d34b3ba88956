//! The law of the test that uses a buffer again.

use vstd::prelude::*;
use crate::expr::{here, ix, modulo, num, same_as};
use crate::machine::{Answer, Ending, Progress};
use crate::memory::Contents;

verus! {

/// Every third one of the first `n` numbers.
pub open spec fn thirds(n: nat) -> Seq<u64> {
    Seq::new((n + 2) / 3, |k: int| (3 * k) as u64)
}

/// Keeping every third place of a column that counts up keeps every third number.
proof fn lemma_thirds(contents: Contents, n: nat)
    requires
        contents.full(),
        contents.columns[0] == crate::laws::words::below(5000),
        n <= 5000,
    ensures
        crate::machine::selected(
            same_as(modulo(ix(), num(3)), num(0)),
            here(0),
            contents,
            n,
        ) == Some(thirds(n)),
    decreases n,
{
    let keep = same_as(modulo(ix(), num(3)), num(0));
    if n == 0 {
        assert(thirds(0) =~= Seq::empty());
    } else {
        let before = (n - 1) as nat;
        let place = before as u64;
        lemma_thirds(contents, before);
        assert(crate::expr::value_of(keep, contents, place) == Some(
            crate::expr::truth(before % 3 == 0),
        )) by {
            reveal_with_fuel(crate::expr::value_of, 4);
        }
        assert(crate::expr::value_of(here(0), contents, place) == Some(place)) by {
            reveal_with_fuel(crate::expr::value_of, 2);
        }
        if before % 3 == 0 {
            assert(thirds(n) =~= thirds(before).push(place));
        } else {
            assert(thirds(n) =~= thirds(before));
        }
    }
}

/// Whether the answers to the downloads of the test are columns or refusals.
pub open spec fn reuse_shaped(answers: Seq<Answer>) -> bool {
    &&& answers.len() >= 9
    &&& crate::laws::steps::column_or_refusal(answers[1])
    &&& crate::laws::steps::column_or_refusal(answers[3])
    &&& crate::laws::steps::column_or_refusal(answers[5])
    &&& crate::laws::steps::column_or_refusal(answers[6])
    &&& crate::laws::steps::column_or_refusal(answers[7])
}

/// What the device has to answer.
pub open spec fn reuse_all(answers: Seq<Answer>) -> bool {
    &&& !(answers[0] is Failed)
    &&& answers[1] is Words
    &&& answers[1]->Words_0 == crate::laws::words::below(5000)
    &&& !(answers[2] is Failed)
    &&& answers[3] is Words
    &&& answers[3]->Words_0 == crate::laws::words::below(5000)
    &&& !(answers[4] is Failed)
    &&& answers[5] is Words
    &&& answers[5]->Words_0 == crate::laws::words::below(5000)
    &&& answers[6] is Words
    &&& answers[6]->Words_0 == crate::laws::words::below(5000)
    &&& answers[7] is Words
    &&& answers[7]->Words_0 == thirds(5000)
    &&& !(answers[8] is Failed)
}

/// The steps of the test.
proof fn lemma_reuse_all(contents: Contents, answers: Seq<Answer>)
    requires
        contents.full(),
        reuse_shaped(answers),
    ensures
        match crate::walk::walked(
            crate::categories::c05_global_memory::buffer_reuse_steps(),
            0,
            17,
            contents,
            answers,
            0,
        ) {
            Some((after, next)) => {
                &&& reuse_all(answers)
                &&& after.full()
                &&& next == 9
            },
            None => !reuse_all(answers),
        },
        crate::categories::c05_global_memory::buffer_reuse_steps().len() == 17,
{
    let steps = crate::categories::c05_global_memory::buffer_reuse_steps();
    crate::laws::words::lemma_below(5000, contents);
    let words1 = crate::laws::words::below(5000);
    crate::laws::steps::lemma_fill(steps, 0, 17, contents, answers, 0, words1);
    let next1 = contents.with_column(0, words1);
    crate::laws::steps::lemma_command(steps, 1, 17, next1, answers, 0);
    crate::laws::steps::lemma_download(steps, 2, 17, next1, answers, 1);
    if answers[1] is Words {
        let next2 = next1.with_column(1, answers[1]->Words_0);
        crate::laws::steps::lemma_not_alike(next2, 1, 0);
        crate::laws::steps::lemma_check(
            steps,
            3,
            17,
            next2,
            answers,
            2,
            !(answers[1]->Words_0 == crate::laws::words::below(5000)),
        );
        crate::laws::steps::lemma_command(steps, 4, 17, next2, answers, 2);
        crate::laws::steps::lemma_download(steps, 5, 17, next2, answers, 3);
        if answers[3] is Words {
            let next3 = next2.with_column(1, answers[3]->Words_0);
            crate::laws::steps::lemma_not_alike(next3, 1, 0);
            crate::laws::steps::lemma_check(
                steps,
                6,
                17,
                next3,
                answers,
                4,
                !(answers[3]->Words_0 == crate::laws::words::below(5000)),
            );
            crate::laws::masks::lemma_remainder_words(3, 5000, next3);
            let words4 = crate::laws::masks::every(3, 5000);
            crate::laws::steps::lemma_fill(steps, 7, 17, next3, answers, 4, words4);
            let next4 = next3.with_column(2, words4);
            crate::laws::steps::lemma_command(steps, 8, 17, next4, answers, 4);
            crate::laws::steps::lemma_download(steps, 9, 17, next4, answers, 5);
            if answers[5] is Words {
                let next5 = next4.with_column(1, answers[5]->Words_0);
                crate::laws::steps::lemma_not_alike(next5, 1, 0);
                crate::laws::steps::lemma_check(
                    steps,
                    10,
                    17,
                    next5,
                    answers,
                    6,
                    !(answers[5]->Words_0 == crate::laws::words::below(5000)),
                );
                crate::laws::steps::lemma_download(steps, 11, 17, next5, answers, 6);
                if answers[6] is Words {
                    let next6 = next5.with_column(1, answers[6]->Words_0);
                    crate::laws::steps::lemma_not_alike(next6, 1, 0);
                    crate::laws::steps::lemma_check(
                        steps,
                        12,
                        17,
                        next6,
                        answers,
                        7,
                        !(answers[6]->Words_0 == crate::laws::words::below(5000)),
                    );
                    crate::laws::steps::lemma_download(steps, 13, 17, next6, answers, 7);
                    if answers[7] is Words {
                        let next7 = next6.with_column(1, answers[7]->Words_0);
                        lemma_thirds(next7, 5000);
                        crate::laws::steps::lemma_select(
                            steps,
                            14,
                            17,
                            next7,
                            answers,
                            8,
                            5000,
                            thirds(5000),
                        );
                        let next8 = next7.with_column(3, thirds(5000));
                        crate::laws::steps::lemma_not_alike(next8, 1, 3);
                        crate::laws::steps::lemma_check(
                            steps,
                            15,
                            17,
                            next8,
                            answers,
                            8,
                            !(answers[7]->Words_0 == thirds(5000)),
                        );
                        crate::laws::steps::lemma_command(steps, 16, 17, next8, answers, 8);
                        crate::laws::steps::lemma_end(steps, 17, next8, answers, 9);
                    }
                }
            }
        }
    }
}

/// The test has no jumps.
proof fn lemma_reuse_straight()
    ensures
        forall|j: int|
            0 <= j < crate::categories::c05_global_memory::buffer_reuse_steps().len()
                ==> crate::walk::straight(
            #[trigger] crate::categories::c05_global_memory::buffer_reuse_steps()[j],
        ),
{
}

/// The test that uses a buffer again passes exactly when the buffer reads the same before and after
/// a sort and a filter, and these give the same column again and every third word of it.
pub proof fn law_reuse_passes_exactly_when_the_buffer_stays_the_same(answers: Seq<Answer>)
    requires
        reuse_shaped(answers),
    ensures
        crate::machine::run_of(
            crate::script::plan(
                "test_buffer_reuse",
                crate::categories::c05_global_memory::buffer_reuse_steps(),
            ),
            answers,
        ).progress == Progress::Over(Ending::Passed) <==> reuse_all(answers),
{
    let plan = crate::script::plan(
        "test_buffer_reuse",
        crate::categories::c05_global_memory::buffer_reuse_steps(),
    );
    let blank = Contents::blank(plan.texts);
    lemma_reuse_all(blank, answers);
    lemma_reuse_straight();
    crate::walk::law_passes_exactly_when_every_step_goes_through(plan, answers);
}

} // verus!
