//! What these tests ask the device in runs that pass: `test_repeated_jit_compilation`.

use vstd::prelude::*;
use crate::expr::{ix, num, plus, times};
use crate::machine::Answer;
use crate::scalar::Scalar;
use crate::script::{Request, Step};
use crate::stage::{Ask, Moment, Thing};

verus! {

/// What the device is asked in round `k` of the part `iterations` of
/// `test_repeated_jit_compilation`.
pub open spec fn repeated_jit_compilation_iterations_asks(k: int) -> Seq<Ask> {
    let words1 = crate::stage::column(1024, |i: int| i + (k * 1000));
    let raw1 = Thing::Raw { scalar: Scalar::U32, count: 1024, turn: 0 + 5 * k };
    let written1 = Thing::Written { to: Box::new(raw1), words: words1, turn: 1 + 5 * k };
    seq![
        Ask::Make(raw1),
        Ask::Make(written1),
        Ask::Words { of: written1, column: 0, scalar: Scalar::U32 },
        Ask::Other(Request::Sync),
        Ask::Other(Request::Release { from: 0 }),
    ]
}

/// Round `k` of the part `iterations` of `test_repeated_jit_compilation` asks what it should.
proof fn lemma_repeated_jit_compilation_iterations(
    m: Moment,
    steps: Seq<Step>,
    k: int,
) -> (n: Moment)
    requires
        0 <= k < 15,
        m.holds(),
        m.at == 0 + 7 * k,
        m.used == 0 + 5 * k,
        0 + 7 * k + 7 <= m.plan.steps.len(),
        forall|j: int| 0 <= j < 7 ==> m.plan.steps[0 + 7 * k + j] == #[trigger] steps[j],
        crate::stage::fills(steps[0], 0, num(1024), plus(ix(), times(num(k as u64), num(1000)))),
        crate::stage::demands(
            steps[1],
            Request::Alloc { scalar: Scalar::U32, count: 1024, into: 0 },
        ),
        crate::stage::demands(steps[2], Request::CopyIn { from: 0, to: 0 }),
        crate::stage::demands(steps[3], Request::CopyOut { of: 0, scalar: Scalar::U32, into: 1 }),
        crate::stage::looks(steps[4]),
        crate::stage::demands(steps[5], Request::Sync),
        crate::stage::inquires(steps[6], Request::Release { from: 0 }),
    ensures
        n.holds(),
        n.plan == m.plan,
        n.answers == m.answers,
        n.at == 0 + 7 * k + 7,
        n.used == m.used + 5,
        crate::stage::asks(
            m.plan,
            m.answers,
            0 + 5 * k,
            repeated_jit_compilation_iterations_asks(k),
        ),
{
    crate::stage::lemma_full(m);
    crate::stage::lemma_asks_none(m, 0 + 5 * k);
    let list0 = Seq::<Ask>::empty();
    let words1 = crate::stage::column(1024, |i: int| i + (k * 1000));
    let word1 = plus(ix(), times(num(k as u64), num(1000)));
    assert forall|i: int| 0 <= i < words1.len() implies crate::stage::meaning(
        word1,
        m.contents,
        i,
    ) as u64 == #[trigger] words1[i] by {
        reveal_with_fuel(crate::stage::meaning, 4);
    }
    let m1 = crate::stage::lemma_filled(m, steps[0], 0, num(1024), word1, words1);
    let raw1 = Thing::Raw { scalar: Scalar::U32, count: 1024, turn: 0 + 5 * k };
    let m2 = crate::stage::lemma_make(m1, steps[1], raw1);
    crate::stage::lemma_asks_more(m, 0 + 5 * k, list0, Ask::Make(raw1));
    let list1 = list0.push(Ask::Make(raw1));
    let written1 = Thing::Written { to: Box::new(raw1), words: words1, turn: 1 + 5 * k };
    let m3 = crate::stage::lemma_make(m2, steps[2], written1);
    crate::stage::lemma_asks_more(m, 0 + 5 * k, list1, Ask::Make(written1));
    let list2 = list1.push(Ask::Make(written1));
    let m4 = crate::stage::lemma_words(
        m3,
        steps[3],
        Ask::Words { of: written1, column: 0, scalar: Scalar::U32 },
    );
    crate::stage::lemma_asks_more(
        m,
        0 + 5 * k,
        list2,
        Ask::Words { of: written1, column: 0, scalar: Scalar::U32 },
    );
    let list3 = list2.push(Ask::Words { of: written1, column: 0, scalar: Scalar::U32 });
    let m5 = crate::stage::lemma_look(m4, steps[4]);
    let m6 = crate::stage::lemma_sync(m5, steps[5]);
    crate::stage::lemma_asks_more(m, 0 + 5 * k, list3, Ask::Other(Request::Sync));
    let list4 = list3.push(Ask::Other(Request::Sync));
    let m7 = crate::stage::lemma_release(m6, steps[6], 0);
    crate::stage::lemma_asks_more(m, 0 + 5 * k, list4, Ask::Other(Request::Release { from: 0 }));
    let list5 = list4.push(Ask::Other(Request::Release { from: 0 }));
    assert(repeated_jit_compilation_iterations_asks(k) == list5);
    m7
}

/// The steps of the part `iterations` of `test_repeated_jit_compilation`.
proof fn lemma_repeated_jit_compilation_iterations_steps(k: int)
    ensures
        ({
            let steps = crate::categories::c01_toolchain::repeated_jit_compilation_iterations_round(
                k as u64,
            );
            &&& steps.len() == 7
            &&& crate::stage::fills(
                steps[0],
                0,
                num(1024),
                plus(ix(), times(num(k as u64), num(1000))),
            )
            &&& crate::stage::demands(
                steps[1],
                Request::Alloc { scalar: Scalar::U32, count: 1024, into: 0 },
            )
            &&& crate::stage::demands(steps[2], Request::CopyIn { from: 0, to: 0 })
            &&& crate::stage::demands(
                steps[3],
                Request::CopyOut { of: 0, scalar: Scalar::U32, into: 1 },
            )
            &&& crate::stage::looks(steps[4])
            &&& crate::stage::demands(steps[5], Request::Sync)
            &&& crate::stage::inquires(steps[6], Request::Release { from: 0 })
        }),
{
}

/// The first `k` rounds of the part `iterations` of `test_repeated_jit_compilation` ask what they
/// should.
proof fn lemma_repeated_jit_compilation_iterations_rounds(
    m: Moment,
    part: Seq<Step>,
    k: int,
) -> (n: Moment)
    requires
        0 <= k <= 15,
        m.holds(),
        m.at == 0,
        m.used == 0 + 5 * 0,
        m.at + 105 <= m.plan.steps.len(),
        part == crate::script::rounds(
            15,
            |k: int| crate::categories::c01_toolchain::repeated_jit_compilation_iterations_round(
                k as u64,
            ),
        ),
        forall|j: int| 0 <= j < 105 ==> m.plan.steps[0 + j] == #[trigger] part[j],
    ensures
        n.holds(),
        n.plan == m.plan,
        n.answers == m.answers,
        n.at == 0 + 7 * k,
        n.used == 0 + 5 * k,
        forall|j: int|
            0 <= j < k ==> crate::stage::asks(
                m.plan,
                m.answers,
                0 + 5 * j,
                #[trigger] repeated_jit_compilation_iterations_asks(j),
            ),
    decreases k,
{
    if k == 0 {
        m
    } else {
        let round = |k: int| crate::categories::c01_toolchain::repeated_jit_compilation_iterations_round(
            k as u64,
        );
        let before = lemma_repeated_jit_compilation_iterations_rounds(m, part, k - 1);
        assert forall|j: int| 0 <= j < 7 implies m.plan.steps[before.at + j] == #[trigger] crate::categories::c01_toolchain::repeated_jit_compilation_iterations_round(
            (k - 1) as u64,
        )[j] by {
            assert forall|k: int| 0 <= k < 15 implies (#[trigger] round(k)).len() == 7 by {
                lemma_repeated_jit_compilation_iterations_steps(k);
            }
            crate::stage::lemma_round_place(15, round, 7, k - 1, j);
            assert(part[(k - 1) * 7 + j] == round(k - 1)[j]);
        }
        lemma_repeated_jit_compilation_iterations_steps(k - 1);
        lemma_repeated_jit_compilation_iterations(
            before,
            crate::categories::c01_toolchain::repeated_jit_compilation_iterations_round(
                (k - 1) as u64,
            ),
            k - 1,
        )
    }
}

/// What the device is asked in the part `end` of `test_repeated_jit_compilation`.
pub open spec fn repeated_jit_compilation_end_asks() -> Seq<Ask> {
    seq![Ask::Other(Request::KernelKnown { into: 0 }), Ask::Other(Request::Sync)]
}

/// The part `end` of `test_repeated_jit_compilation` asks what it should.
proof fn lemma_repeated_jit_compilation_end(m: Moment, steps: Seq<Step>) -> (n: Moment)
    requires
        m.holds(),
        m.at == 105,
        m.used == 75,
        105 + 3 <= m.plan.steps.len(),
        forall|j: int| 0 <= j < 3 ==> m.plan.steps[105 + j] == #[trigger] steps[j],
        crate::stage::inquires(steps[0], Request::KernelKnown { into: 0 }),
        crate::stage::looks(steps[1]),
        crate::stage::demands(steps[2], Request::Sync),
    ensures
        n.holds(),
        n.plan == m.plan,
        n.answers == m.answers,
        n.at == 105 + 3,
        n.used == m.used + 2,
        crate::stage::asks(m.plan, m.answers, 75, repeated_jit_compilation_end_asks()),
{
    crate::stage::lemma_full(m);
    crate::stage::lemma_asks_none(m, 75);
    let list0 = Seq::<Ask>::empty();
    let m1 = crate::stage::lemma_told(
        m,
        steps[0],
        Request::KernelKnown { into: 0 },
        0,
        Ask::Other(Request::KernelKnown { into: 0 }),
    );
    crate::stage::lemma_asks_more(m, 75, list0, Ask::Other(Request::KernelKnown { into: 0 }));
    let list1 = list0.push(Ask::Other(Request::KernelKnown { into: 0 }));
    let m2 = crate::stage::lemma_look(m1, steps[1]);
    let m3 = crate::stage::lemma_sync(m2, steps[2]);
    crate::stage::lemma_asks_more(m, 75, list1, Ask::Other(Request::Sync));
    let list2 = list1.push(Ask::Other(Request::Sync));
    assert(repeated_jit_compilation_end_asks() == list2);
    m3
}

/// The steps of the part `end` of `test_repeated_jit_compilation`.
proof fn lemma_repeated_jit_compilation_end_steps()
    ensures
        ({
            let steps = crate::categories::c01_toolchain::repeated_jit_compilation_end_steps();
            &&& steps.len() == 3
            &&& crate::stage::inquires(steps[0], Request::KernelKnown { into: 0 })
            &&& crate::stage::looks(steps[1])
            &&& crate::stage::demands(steps[2], Request::Sync)
        }),
{
}

/// In a run of `test_repeated_jit_compilation` that passes the device is asked this, in this order,
/// and nothing else: each request about what an earlier one made is about that, and about what was
/// uploaded for it.
pub proof fn law_repeated_jit_compilation_asks_about_what_it_made(answers: Seq<Answer>)
    requires
        crate::stage::passes(
            crate::script::plan(
                "test_repeated_jit_compilation",
                crate::categories::c01_toolchain::repeated_jit_compilation_steps(),
            ),
            answers,
        ),
    ensures
        forall|k: int|
            0 <= k < 15 ==> crate::stage::asks(
                crate::script::plan(
                    "test_repeated_jit_compilation",
                    crate::categories::c01_toolchain::repeated_jit_compilation_steps(),
                ),
                answers,
                0 + 5 * k,
                #[trigger] repeated_jit_compilation_iterations_asks(k),
            ),
        crate::stage::asks(
            crate::script::plan(
                "test_repeated_jit_compilation",
                crate::categories::c01_toolchain::repeated_jit_compilation_steps(),
            ),
            answers,
            75,
            repeated_jit_compilation_end_asks(),
        ),
        crate::stage::asked(
            crate::script::plan(
                "test_repeated_jit_compilation",
                crate::categories::c01_toolchain::repeated_jit_compilation_steps(),
            ),
            answers,
            77,
        ) is None,
{
    let plan = crate::script::plan(
        "test_repeated_jit_compilation",
        crate::categories::c01_toolchain::repeated_jit_compilation_steps(),
    );
    let round1 = |k: int| crate::categories::c01_toolchain::repeated_jit_compilation_iterations_round(
        k as u64,
    );
    let part1 = crate::script::rounds(15, round1);
    assert forall|k: int| 0 <= k < 15 implies (#[trigger] round1(k)).len() == 7 by {
        lemma_repeated_jit_compilation_iterations_steps(k);
    }
    crate::stage::lemma_rounds_length(15, round1, 7);
    let part2 = crate::categories::c01_toolchain::repeated_jit_compilation_end_steps();
    lemma_repeated_jit_compilation_end_steps();
    let whole1 = part1;
    let whole2 = whole1 + part2;
    assert(plan.steps == whole2);
    let m0 = crate::stage::lemma_start(plan, answers);
    assert forall|j: int| 0 <= j < 105 implies plan.steps[0 + j] == #[trigger] part1[j] by {}
    let m1 = lemma_repeated_jit_compilation_iterations_rounds(m0, part1, 15);
    assert forall|j: int| 0 <= j < 3 implies plan.steps[105 + j] == #[trigger] part2[j] by {}
    let m2 = lemma_repeated_jit_compilation_end(m1, part2);
    crate::stage::lemma_end(m2);
}

} // verus!
