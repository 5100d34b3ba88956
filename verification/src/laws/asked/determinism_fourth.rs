//! What these tests ask the device in runs that pass: `test_mc_sample_reproducibility`,
//! `test_xgcf_forward_reproducibility`, `test_xgcf_backward_reproducibility`.

use vstd::prelude::*;
use crate::expr::{entry, ix, num};
use crate::machine::Answer;
use crate::script::{Request, Step};
use crate::stage::{Ask, Moment, Thing};
use crate::tables::Table;

verus! {

/// What the device is asked in the part `all` of `test_mc_sample_reproducibility`.
pub open spec fn mc_sample_reproducibility_all_asks() -> Seq<Ask> {
    let words1 = crate::stage::column(
        3,
        |i: int| crate::tables::words_of(Table::Probabilities)[i] as int,
    );
    let zeros1 = Thing::Zeros { count: 3, turn: 0 };
    let zeros2 = Thing::Zeros { count: 3, turn: 1 };
    seq![
        Ask::Make(zeros1),
        Ask::Make(zeros2),
        Ask::Samples { chances: words1, samples: 4096, seed: 424242, mask: zeros1, forced: zeros2 },
        Ask::Samples { chances: words1, samples: 4096, seed: 424242, mask: zeros1, forced: zeros2 },
    ]
}

/// The part `all` of `test_mc_sample_reproducibility` asks what it should.
proof fn lemma_mc_sample_reproducibility_all(m: Moment, steps: Seq<Step>) -> (n: Moment)
    requires
        m.holds(),
        m.at == 0,
        m.used == 0,
        0 + 6 <= m.plan.steps.len(),
        forall|j: int| 0 <= j < 6 ==> m.plan.steps[0 + j] == #[trigger] steps[j],
        crate::stage::fills(steps[0], 0, num(3), entry(Table::Probabilities, ix())),
        crate::stage::inquires(steps[1], Request::Zeroed { count: 3, into: 0 }),
        crate::stage::inquires(steps[2], Request::Zeroed { count: 3, into: 1 }),
        crate::stage::demands(
            steps[3],
            Request::Sample { from: 0, samples: 4096, seed: 424242, mask: 0, forced: 1, into: 1 },
        ),
        crate::stage::demands(
            steps[4],
            Request::Sample { from: 0, samples: 4096, seed: 424242, mask: 0, forced: 1, into: 2 },
        ),
        crate::stage::looks(steps[5]),
    ensures
        n.holds(),
        n.plan == m.plan,
        n.answers == m.answers,
        n.at == 0 + 6,
        n.used == m.used + 4,
        crate::stage::asks(m.plan, m.answers, 0, mc_sample_reproducibility_all_asks()),
{
    crate::stage::lemma_full(m);
    crate::stage::lemma_asks_none(m, 0);
    let list0 = Seq::<Ask>::empty();
    let words1 = crate::stage::column(
        3,
        |i: int| crate::tables::words_of(Table::Probabilities)[i] as int,
    );
    crate::stage::lemma_entry_of(Table::Probabilities);
    let word1 = entry(Table::Probabilities, ix());
    assert forall|i: int| 0 <= i < words1.len() implies crate::stage::meaning(
        word1,
        m.contents,
        i,
    ) as u64 == #[trigger] words1[i] by {
        reveal_with_fuel(crate::stage::meaning, 2);
    }
    let m1 = crate::stage::lemma_filled(m, steps[0], 0, num(3), word1, words1);
    let zeros1 = Thing::Zeros { count: 3, turn: 0 };
    let m2 = crate::stage::lemma_make(m1, steps[1], zeros1);
    crate::stage::lemma_asks_more(m, 0, list0, Ask::Make(zeros1));
    let list1 = list0.push(Ask::Make(zeros1));
    let zeros2 = Thing::Zeros { count: 3, turn: 1 };
    let m3 = crate::stage::lemma_make(m2, steps[2], zeros2);
    crate::stage::lemma_asks_more(m, 0, list1, Ask::Make(zeros2));
    let list2 = list1.push(Ask::Make(zeros2));
    let m4 = crate::stage::lemma_words(
        m3,
        steps[3],
        Ask::Samples { chances: words1, samples: 4096, seed: 424242, mask: zeros1, forced: zeros2 },
    );
    crate::stage::lemma_asks_more(
        m,
        0,
        list2,
        Ask::Samples { chances: words1, samples: 4096, seed: 424242, mask: zeros1, forced: zeros2 },
    );
    let list3 = list2.push(
        Ask::Samples { chances: words1, samples: 4096, seed: 424242, mask: zeros1, forced: zeros2 },
    );
    let m5 = crate::stage::lemma_words(
        m4,
        steps[4],
        Ask::Samples { chances: words1, samples: 4096, seed: 424242, mask: zeros1, forced: zeros2 },
    );
    crate::stage::lemma_asks_more(
        m,
        0,
        list3,
        Ask::Samples { chances: words1, samples: 4096, seed: 424242, mask: zeros1, forced: zeros2 },
    );
    let list4 = list3.push(
        Ask::Samples { chances: words1, samples: 4096, seed: 424242, mask: zeros1, forced: zeros2 },
    );
    let m6 = crate::stage::lemma_look(m5, steps[5]);
    assert(mc_sample_reproducibility_all_asks() == list4);
    m6
}

/// The steps of the part `all` of `test_mc_sample_reproducibility`.
proof fn lemma_mc_sample_reproducibility_all_steps()
    ensures
        ({
            let steps = crate::categories::c15_determinism::mc_sample_reproducibility_steps();
            &&& steps.len() == 6
            &&& crate::stage::fills(steps[0], 0, num(3), entry(Table::Probabilities, ix()))
            &&& crate::stage::inquires(steps[1], Request::Zeroed { count: 3, into: 0 })
            &&& crate::stage::inquires(steps[2], Request::Zeroed { count: 3, into: 1 })
            &&& crate::stage::demands(
                steps[3],
                Request::Sample {
                    from: 0,
                    samples: 4096,
                    seed: 424242,
                    mask: 0,
                    forced: 1,
                    into: 1,
                },
            )
            &&& crate::stage::demands(
                steps[4],
                Request::Sample {
                    from: 0,
                    samples: 4096,
                    seed: 424242,
                    mask: 0,
                    forced: 1,
                    into: 2,
                },
            )
            &&& crate::stage::looks(steps[5])
        }),
{
}

/// In a run of `test_mc_sample_reproducibility` that passes the device is asked this, in this
/// order, and nothing else: each request about what an earlier one made is about that, and about
/// what was uploaded for it.
pub proof fn law_mc_sample_reproducibility_asks_about_what_it_made(answers: Seq<Answer>)
    requires
        crate::stage::passes(
            crate::script::plan(
                "test_mc_sample_reproducibility",
                crate::categories::c15_determinism::mc_sample_reproducibility_steps(),
            ),
            answers,
        ),
    ensures
        crate::stage::asks(
            crate::script::plan(
                "test_mc_sample_reproducibility",
                crate::categories::c15_determinism::mc_sample_reproducibility_steps(),
            ),
            answers,
            0,
            mc_sample_reproducibility_all_asks(),
        ),
        crate::stage::asked(
            crate::script::plan(
                "test_mc_sample_reproducibility",
                crate::categories::c15_determinism::mc_sample_reproducibility_steps(),
            ),
            answers,
            4,
        ) is None,
{
    let plan = crate::script::plan(
        "test_mc_sample_reproducibility",
        crate::categories::c15_determinism::mc_sample_reproducibility_steps(),
    );
    let part1 = crate::categories::c15_determinism::mc_sample_reproducibility_steps();
    lemma_mc_sample_reproducibility_all_steps();
    let whole1 = part1;
    assert(plan.steps == whole1);
    let m0 = crate::stage::lemma_start(plan, answers);
    assert forall|j: int| 0 <= j < 6 implies plan.steps[0 + j] == #[trigger] part1[j] by {}
    let m1 = lemma_mc_sample_reproducibility_all(m0, part1);
    crate::stage::lemma_end(m1);
}

/// What the device is asked in the part `all` of `test_xgcf_forward_reproducibility`.
pub open spec fn xgcf_forward_reproducibility_all_asks() -> Seq<Ask> {
    seq![Ask::Other(Request::Forward { into: 0 }), Ask::Other(Request::Forward { into: 1 })]
}

/// The part `all` of `test_xgcf_forward_reproducibility` asks what it should.
proof fn lemma_xgcf_forward_reproducibility_all(m: Moment, steps: Seq<Step>) -> (n: Moment)
    requires
        m.holds(),
        m.at == 0,
        m.used == 0,
        0 + 4 <= m.plan.steps.len(),
        forall|j: int| 0 <= j < 4 ==> m.plan.steps[0 + j] == #[trigger] steps[j],
        crate::stage::demands(steps[0], Request::Forward { into: 0 }),
        crate::stage::demands(steps[1], Request::Forward { into: 1 }),
        crate::stage::works(steps[2], 2),
        crate::stage::looks(steps[3]),
    ensures
        n.holds(),
        n.plan == m.plan,
        n.answers == m.answers,
        n.at == 0 + 4,
        n.used == m.used + 2,
        crate::stage::asks(m.plan, m.answers, 0, xgcf_forward_reproducibility_all_asks()),
{
    crate::stage::lemma_full(m);
    crate::stage::lemma_asks_none(m, 0);
    let list0 = Seq::<Ask>::empty();
    let m1 = crate::stage::lemma_words(m, steps[0], Ask::Other(Request::Forward { into: 0 }));
    crate::stage::lemma_asks_more(m, 0, list0, Ask::Other(Request::Forward { into: 0 }));
    let list1 = list0.push(Ask::Other(Request::Forward { into: 0 }));
    let m2 = crate::stage::lemma_words(m1, steps[1], Ask::Other(Request::Forward { into: 1 }));
    crate::stage::lemma_asks_more(m, 0, list1, Ask::Other(Request::Forward { into: 1 }));
    let list2 = list1.push(Ask::Other(Request::Forward { into: 1 }));
    let m3 = crate::stage::lemma_work(m2, steps[2], 2);
    let m4 = crate::stage::lemma_look(m3, steps[3]);
    assert(xgcf_forward_reproducibility_all_asks() == list2);
    m4
}

/// The steps of the part `all` of `test_xgcf_forward_reproducibility`.
proof fn lemma_xgcf_forward_reproducibility_all_steps()
    ensures
        ({
            let steps = crate::categories::c15_determinism::xgcf_forward_reproducibility_steps();
            &&& steps.len() == 4
            &&& crate::stage::demands(steps[0], Request::Forward { into: 0 })
            &&& crate::stage::demands(steps[1], Request::Forward { into: 1 })
            &&& crate::stage::works(steps[2], 2)
            &&& crate::stage::looks(steps[3])
        }),
{
}

/// In a run of `test_xgcf_forward_reproducibility` that passes the device is asked this, in this
/// order, and nothing else: each request about what an earlier one made is about that, and about
/// what was uploaded for it.
pub proof fn law_xgcf_forward_reproducibility_asks_about_what_it_made(answers: Seq<Answer>)
    requires
        crate::stage::passes(
            crate::script::plan(
                "test_xgcf_forward_reproducibility",
                crate::categories::c15_determinism::xgcf_forward_reproducibility_steps(),
            ),
            answers,
        ),
    ensures
        crate::stage::asks(
            crate::script::plan(
                "test_xgcf_forward_reproducibility",
                crate::categories::c15_determinism::xgcf_forward_reproducibility_steps(),
            ),
            answers,
            0,
            xgcf_forward_reproducibility_all_asks(),
        ),
        crate::stage::asked(
            crate::script::plan(
                "test_xgcf_forward_reproducibility",
                crate::categories::c15_determinism::xgcf_forward_reproducibility_steps(),
            ),
            answers,
            2,
        ) is None,
{
    let plan = crate::script::plan(
        "test_xgcf_forward_reproducibility",
        crate::categories::c15_determinism::xgcf_forward_reproducibility_steps(),
    );
    let part1 = crate::categories::c15_determinism::xgcf_forward_reproducibility_steps();
    lemma_xgcf_forward_reproducibility_all_steps();
    let whole1 = part1;
    assert(plan.steps == whole1);
    let m0 = crate::stage::lemma_start(plan, answers);
    assert forall|j: int| 0 <= j < 4 implies plan.steps[0 + j] == #[trigger] part1[j] by {}
    let m1 = lemma_xgcf_forward_reproducibility_all(m0, part1);
    crate::stage::lemma_end(m1);
}

/// What the device is asked in the part `all` of `test_xgcf_backward_reproducibility`.
pub open spec fn xgcf_backward_reproducibility_all_asks() -> Seq<Ask> {
    seq![Ask::Other(Request::Backward { into: 0 }), Ask::Other(Request::Backward { into: 4 })]
}

/// The part `all` of `test_xgcf_backward_reproducibility` asks what it should.
proof fn lemma_xgcf_backward_reproducibility_all(m: Moment, steps: Seq<Step>) -> (n: Moment)
    requires
        m.holds(),
        m.at == 0,
        m.used == 0,
        0 + 7 <= m.plan.steps.len(),
        forall|j: int| 0 <= j < 7 ==> m.plan.steps[0 + j] == #[trigger] steps[j],
        crate::stage::demands(steps[0], Request::Backward { into: 0 }),
        crate::stage::demands(steps[1], Request::Backward { into: 4 }),
        crate::stage::works(steps[2], 8),
        crate::stage::works(steps[3], 9),
        crate::stage::works(steps[4], 10),
        crate::stage::works(steps[5], 11),
        crate::stage::looks(steps[6]),
    ensures
        n.holds(),
        n.plan == m.plan,
        n.answers == m.answers,
        n.at == 0 + 7,
        n.used == m.used + 2,
        crate::stage::asks(m.plan, m.answers, 0, xgcf_backward_reproducibility_all_asks()),
{
    crate::stage::lemma_full(m);
    crate::stage::lemma_asks_none(m, 0);
    let list0 = Seq::<Ask>::empty();
    let m1 = crate::stage::lemma_columns(m, steps[0], Ask::Other(Request::Backward { into: 0 }));
    crate::stage::lemma_asks_more(m, 0, list0, Ask::Other(Request::Backward { into: 0 }));
    let list1 = list0.push(Ask::Other(Request::Backward { into: 0 }));
    let m2 = crate::stage::lemma_columns(m1, steps[1], Ask::Other(Request::Backward { into: 4 }));
    crate::stage::lemma_asks_more(m, 0, list1, Ask::Other(Request::Backward { into: 4 }));
    let list2 = list1.push(Ask::Other(Request::Backward { into: 4 }));
    let m3 = crate::stage::lemma_work(m2, steps[2], 8);
    let m4 = crate::stage::lemma_work(m3, steps[3], 9);
    let m5 = crate::stage::lemma_work(m4, steps[4], 10);
    let m6 = crate::stage::lemma_work(m5, steps[5], 11);
    let m7 = crate::stage::lemma_look(m6, steps[6]);
    assert(xgcf_backward_reproducibility_all_asks() == list2);
    m7
}

/// The steps of the part `all` of `test_xgcf_backward_reproducibility`.
proof fn lemma_xgcf_backward_reproducibility_all_steps()
    ensures
        ({
            let steps = crate::categories::c15_determinism::xgcf_backward_reproducibility_steps();
            &&& steps.len() == 7
            &&& crate::stage::demands(steps[0], Request::Backward { into: 0 })
            &&& crate::stage::demands(steps[1], Request::Backward { into: 4 })
            &&& crate::stage::works(steps[2], 8)
            &&& crate::stage::works(steps[3], 9)
            &&& crate::stage::works(steps[4], 10)
            &&& crate::stage::works(steps[5], 11)
            &&& crate::stage::looks(steps[6])
        }),
{
}

/// In a run of `test_xgcf_backward_reproducibility` that passes the device is asked this, in this
/// order, and nothing else: each request about what an earlier one made is about that, and about
/// what was uploaded for it.
pub proof fn law_xgcf_backward_reproducibility_asks_about_what_it_made(answers: Seq<Answer>)
    requires
        crate::stage::passes(
            crate::script::plan(
                "test_xgcf_backward_reproducibility",
                crate::categories::c15_determinism::xgcf_backward_reproducibility_steps(),
            ),
            answers,
        ),
    ensures
        crate::stage::asks(
            crate::script::plan(
                "test_xgcf_backward_reproducibility",
                crate::categories::c15_determinism::xgcf_backward_reproducibility_steps(),
            ),
            answers,
            0,
            xgcf_backward_reproducibility_all_asks(),
        ),
        crate::stage::asked(
            crate::script::plan(
                "test_xgcf_backward_reproducibility",
                crate::categories::c15_determinism::xgcf_backward_reproducibility_steps(),
            ),
            answers,
            2,
        ) is None,
{
    let plan = crate::script::plan(
        "test_xgcf_backward_reproducibility",
        crate::categories::c15_determinism::xgcf_backward_reproducibility_steps(),
    );
    let part1 = crate::categories::c15_determinism::xgcf_backward_reproducibility_steps();
    lemma_xgcf_backward_reproducibility_all_steps();
    let whole1 = part1;
    assert(plan.steps == whole1);
    let m0 = crate::stage::lemma_start(plan, answers);
    assert forall|j: int| 0 <= j < 7 implies plan.steps[0 + j] == #[trigger] part1[j] by {}
    let m1 = lemma_xgcf_backward_reproducibility_all(m0, part1);
    crate::stage::lemma_end(m1);
}

} // verus!
