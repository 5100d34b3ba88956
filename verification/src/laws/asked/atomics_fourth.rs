//! What these tests ask the device in runs that pass: `test_concurrent_atomic_updates`.

use vstd::prelude::*;
use crate::expr::{here, ix, modulo, num, plus, same_as, times};
use crate::machine::Answer;
use crate::scalar::Scalar;
use crate::script::{Layout, Request, Step};
use crate::stage::{Ask, Moment, Thing};

verus! {

/// A buffer that is uploaded in round `k` of the part `iterations` of
/// `test_concurrent_atomic_updates`.
pub open spec fn concurrent_atomic_updates_iterations_table1(k: int) -> Thing {
    Thing::Table {
        layout: Layout::KeyVal,
        scalar: Scalar::U32,
        columns: seq![
            crate::stage::column(10000, |i: int| i + (k * 1000)),
            crate::stage::column(
                10000,
                |i: int| (crate::stage::column(10000, |i: int| i + (k * 1000))[i] as int) * 10,
            ),
        ],
        turn: 0 + 11 * k,
    }
}

/// What the device is asked in piece 1 of round `k` of the part `iterations` of
/// `test_concurrent_atomic_updates`.
pub open spec fn concurrent_atomic_updates_iterations_1_asks(k: int) -> Seq<Ask> {
    let unique1 = Thing::Unique {
        of: Box::new(concurrent_atomic_updates_iterations_table1(k)),
        turn: 1 + 11 * k,
    };
    let words3 = crate::stage::column(10000, |i: int| crate::stage::flag(((i % 3) == 0)));
    let kept1 = Thing::Kept {
        of: Box::new(concurrent_atomic_updates_iterations_table1(k)),
        mask: words3,
        turn: 3 + 11 * k,
    };
    seq![
        Ask::Make(concurrent_atomic_updates_iterations_table1(k)),
        Ask::Make(unique1),
        Ask::Rows(unique1),
        Ask::Make(kept1),
        Ask::Rows(kept1),
    ]
}

/// Piece 1 of round `k` of the part `iterations` of `test_concurrent_atomic_updates` asks what it
/// should.
proof fn lemma_concurrent_atomic_updates_iterations_1(
    m: Moment,
    steps: Seq<Step>,
    k: int,
) -> (n: Moment)
    requires
        0 <= k < 5,
        m.holds(),
        m.at == 0 + 15 * k,
        m.used == 0 + 11 * k,
        0 + 15 * k + 15 <= m.plan.steps.len(),
        forall|j: int| 0 <= j < 15 ==> m.plan.steps[0 + 15 * k + j] == #[trigger] steps[j],
        crate::stage::fills(steps[0], 0, num(10000), plus(ix(), times(num(k as u64), num(1000)))),
        crate::stage::fills(steps[1], 1, num(10000), times(here(0), num(10))),
        crate::stage::demands(
            steps[2],
            Request::Create { into: 0, layout: Layout::KeyVal, scalar: Scalar::U32, from: 0 },
        ),
        crate::stage::demands(steps[3], Request::Dedup { of: 0, into: 1 }),
        crate::stage::counts(steps[4], 1),
        crate::stage::fills(steps[5], 2, num(10000), same_as(modulo(ix(), num(3)), num(0))),
        crate::stage::demands(steps[6], Request::Filter { of: 0, mask: 2, into: 2 }),
        crate::stage::counts(steps[7], 2),
    ensures
        n.holds(),
        n.plan == m.plan,
        n.answers == m.answers,
        n.at == 0 + 15 * k + 8,
        n.used == m.used + 5,
        n.scene.buffer(0) == concurrent_atomic_updates_iterations_table1(k),
        crate::stage::asks(
            m.plan,
            m.answers,
            0 + 11 * k,
            concurrent_atomic_updates_iterations_1_asks(k),
        ),
{
    crate::stage::lemma_full(m);
    crate::stage::lemma_asks_none(m, 0 + 11 * k);
    let list0 = Seq::<Ask>::empty();
    let words1 = crate::stage::column(10000, |i: int| i + (k * 1000));
    let word1 = plus(ix(), times(num(k as u64), num(1000)));
    assert forall|i: int| 0 <= i < words1.len() implies crate::stage::meaning(
        word1,
        m.contents,
        i,
    ) as u64 == #[trigger] words1[i] by {
        reveal_with_fuel(crate::stage::meaning, 4);
    }
    let m1 = crate::stage::lemma_filled(m, steps[0], 0, num(10000), word1, words1);
    let words2 = crate::stage::column(10000, |i: int| (words1[i] as int) * 10);
    let word2 = times(here(0), num(10));
    assert forall|i: int| 0 <= i < words2.len() implies crate::stage::meaning(
        word2,
        m1.contents,
        i,
    ) as u64 == #[trigger] words2[i] by {
        reveal_with_fuel(crate::stage::meaning, 4);
    }
    let m2 = crate::stage::lemma_filled(m1, steps[1], 1, num(10000), word2, words2);
    let m3 = crate::stage::lemma_create(
        m2,
        steps[2],
        0,
        Layout::KeyVal,
        Scalar::U32,
        0,
        concurrent_atomic_updates_iterations_table1(k),
    );
    crate::stage::lemma_asks_more(
        m,
        0 + 11 * k,
        list0,
        Ask::Make(concurrent_atomic_updates_iterations_table1(k)),
    );
    let list1 = list0.push(Ask::Make(concurrent_atomic_updates_iterations_table1(k)));
    let unique1 = Thing::Unique {
        of: Box::new(concurrent_atomic_updates_iterations_table1(k)),
        turn: 1 + 11 * k,
    };
    let m4 = crate::stage::lemma_dedup(
        m3,
        steps[3],
        0,
        1,
        concurrent_atomic_updates_iterations_table1(k),
        unique1,
    );
    crate::stage::lemma_asks_more(m, 0 + 11 * k, list1, Ask::Make(unique1));
    let list2 = list1.push(Ask::Make(unique1));
    let m5 = crate::stage::lemma_count(m4, steps[4], 1, unique1);
    crate::stage::lemma_asks_more(m, 0 + 11 * k, list2, Ask::Rows(unique1));
    let list3 = list2.push(Ask::Rows(unique1));
    let words3 = crate::stage::column(10000, |i: int| crate::stage::flag(((i % 3) == 0)));
    let word6 = same_as(modulo(ix(), num(3)), num(0));
    assert forall|i: int| 0 <= i < words3.len() implies crate::stage::meaning(
        word6,
        m5.contents,
        i,
    ) as u64 == #[trigger] words3[i] by {
        reveal_with_fuel(crate::stage::meaning, 4);
    }
    let m6 = crate::stage::lemma_filled(m5, steps[5], 2, num(10000), word6, words3);
    let kept1 = Thing::Kept {
        of: Box::new(concurrent_atomic_updates_iterations_table1(k)),
        mask: words3,
        turn: 3 + 11 * k,
    };
    let m7 = crate::stage::lemma_filter(
        m6,
        steps[6],
        0,
        2,
        2,
        concurrent_atomic_updates_iterations_table1(k),
        words3,
        kept1,
    );
    crate::stage::lemma_asks_more(m, 0 + 11 * k, list3, Ask::Make(kept1));
    let list4 = list3.push(Ask::Make(kept1));
    let m8 = crate::stage::lemma_count(m7, steps[7], 2, kept1);
    crate::stage::lemma_asks_more(m, 0 + 11 * k, list4, Ask::Rows(kept1));
    let list5 = list4.push(Ask::Rows(kept1));
    assert(concurrent_atomic_updates_iterations_1_asks(k) == list5);
    m8
}

/// What the device is asked in piece 2 of round `k` of the part `iterations` of
/// `test_concurrent_atomic_updates`.
pub open spec fn concurrent_atomic_updates_iterations_2_asks(k: int) -> Seq<Ask> {
    let joined1 = Thing::Joined {
        left: Box::new(concurrent_atomic_updates_iterations_table1(k)),
        right: Box::new(concurrent_atomic_updates_iterations_table1(k)),
        turn: 5 + 11 * k,
    };
    let unique2 = Thing::Unique {
        of: Box::new(concurrent_atomic_updates_iterations_table1(k)),
        turn: 8 + 11 * k,
    };
    seq![
        Ask::Make(joined1),
        Ask::Rows(joined1),
        Ask::Words { of: joined1, column: 0, scalar: Scalar::U32 },
        Ask::Make(unique2),
        Ask::Rows(unique2),
        Ask::Other(Request::Release { from: 0 }),
    ]
}

/// Piece 2 of round `k` of the part `iterations` of `test_concurrent_atomic_updates` asks what it
/// should.
proof fn lemma_concurrent_atomic_updates_iterations_2(
    m: Moment,
    steps: Seq<Step>,
    k: int,
) -> (n: Moment)
    requires
        0 <= k < 5,
        m.holds(),
        m.at == 0 + 15 * k + 8,
        m.used == 5 + 11 * k,
        0 + 15 * k + 15 <= m.plan.steps.len(),
        forall|j: int| 0 <= j < 15 ==> m.plan.steps[0 + 15 * k + j] == #[trigger] steps[j],
        crate::stage::demands(steps[8], Request::Join { left: 0, right: 0, into: 3 }),
        crate::stage::counts(steps[9], 3),
        crate::stage::demands(
            steps[10],
            Request::Download { of: 3, column: 0, scalar: Scalar::U32, into: 3 },
        ),
        crate::stage::looks(steps[11]),
        crate::stage::demands(steps[12], Request::Dedup { of: 0, into: 4 }),
        crate::stage::counts(steps[13], 4),
        crate::stage::inquires(steps[14], Request::Release { from: 0 }),
        m.scene.buffer(0) == concurrent_atomic_updates_iterations_table1(k),
    ensures
        n.holds(),
        n.plan == m.plan,
        n.answers == m.answers,
        n.at == 0 + 15 * k + 15,
        n.used == m.used + 6,
        crate::stage::asks(
            m.plan,
            m.answers,
            5 + 11 * k,
            concurrent_atomic_updates_iterations_2_asks(k),
        ),
{
    crate::stage::lemma_full(m);
    crate::stage::lemma_asks_none(m, 5 + 11 * k);
    let list0 = Seq::<Ask>::empty();
    let joined1 = Thing::Joined {
        left: Box::new(concurrent_atomic_updates_iterations_table1(k)),
        right: Box::new(concurrent_atomic_updates_iterations_table1(k)),
        turn: 5 + 11 * k,
    };
    let m1 = crate::stage::lemma_join(
        m,
        steps[8],
        0,
        0,
        3,
        concurrent_atomic_updates_iterations_table1(k),
        concurrent_atomic_updates_iterations_table1(k),
        joined1,
    );
    crate::stage::lemma_asks_more(m, 5 + 11 * k, list0, Ask::Make(joined1));
    let list1 = list0.push(Ask::Make(joined1));
    let m2 = crate::stage::lemma_count(m1, steps[9], 3, joined1);
    crate::stage::lemma_asks_more(m, 5 + 11 * k, list1, Ask::Rows(joined1));
    let list2 = list1.push(Ask::Rows(joined1));
    let m3 = crate::stage::lemma_download(m2, steps[10], 3, 0, Scalar::U32, 3, joined1);
    crate::stage::lemma_asks_more(
        m,
        5 + 11 * k,
        list2,
        Ask::Words { of: joined1, column: 0, scalar: Scalar::U32 },
    );
    let list3 = list2.push(Ask::Words { of: joined1, column: 0, scalar: Scalar::U32 });
    let m4 = crate::stage::lemma_look(m3, steps[11]);
    let unique2 = Thing::Unique {
        of: Box::new(concurrent_atomic_updates_iterations_table1(k)),
        turn: 8 + 11 * k,
    };
    let m5 = crate::stage::lemma_dedup(
        m4,
        steps[12],
        0,
        4,
        concurrent_atomic_updates_iterations_table1(k),
        unique2,
    );
    crate::stage::lemma_asks_more(m, 5 + 11 * k, list3, Ask::Make(unique2));
    let list4 = list3.push(Ask::Make(unique2));
    let m6 = crate::stage::lemma_count(m5, steps[13], 4, unique2);
    crate::stage::lemma_asks_more(m, 5 + 11 * k, list4, Ask::Rows(unique2));
    let list5 = list4.push(Ask::Rows(unique2));
    let m7 = crate::stage::lemma_release(m6, steps[14], 0);
    crate::stage::lemma_asks_more(m, 5 + 11 * k, list5, Ask::Other(Request::Release { from: 0 }));
    let list6 = list5.push(Ask::Other(Request::Release { from: 0 }));
    assert(concurrent_atomic_updates_iterations_2_asks(k) == list6);
    m7
}

/// The steps of the part `iterations` of `test_concurrent_atomic_updates`.
proof fn lemma_concurrent_atomic_updates_iterations_steps(k: int)
    ensures
        ({
            let steps = crate::categories::c12_atomics::concurrent_atomic_updates_iterations_round(
                k as u64,
            );
            &&& steps.len() == 15
            &&& crate::stage::fills(
                steps[0],
                0,
                num(10000),
                plus(ix(), times(num(k as u64), num(1000))),
            )
            &&& crate::stage::fills(steps[1], 1, num(10000), times(here(0), num(10)))
            &&& crate::stage::demands(
                steps[2],
                Request::Create { into: 0, layout: Layout::KeyVal, scalar: Scalar::U32, from: 0 },
            )
            &&& crate::stage::demands(steps[3], Request::Dedup { of: 0, into: 1 })
            &&& crate::stage::counts(steps[4], 1)
            &&& crate::stage::fills(steps[5], 2, num(10000), same_as(modulo(ix(), num(3)), num(0)))
            &&& crate::stage::demands(steps[6], Request::Filter { of: 0, mask: 2, into: 2 })
            &&& crate::stage::counts(steps[7], 2)
            &&& crate::stage::demands(steps[8], Request::Join { left: 0, right: 0, into: 3 })
            &&& crate::stage::counts(steps[9], 3)
            &&& crate::stage::demands(
                steps[10],
                Request::Download { of: 3, column: 0, scalar: Scalar::U32, into: 3 },
            )
            &&& crate::stage::looks(steps[11])
            &&& crate::stage::demands(steps[12], Request::Dedup { of: 0, into: 4 })
            &&& crate::stage::counts(steps[13], 4)
            &&& crate::stage::inquires(steps[14], Request::Release { from: 0 })
        }),
{
}

/// Round `k` of the part `iterations` of `test_concurrent_atomic_updates` asks what it should.
proof fn lemma_concurrent_atomic_updates_iterations_round(m: Moment, k: int) -> (n: Moment)
    requires
        0 <= k < 5,
        m.holds(),
        m.at == 0 + 15 * k,
        m.used == 0 + 11 * k,
        m.at + 15 <= m.plan.steps.len(),
        forall|j: int|
            0 <= j < 15 ==> m.plan.steps[0 + 15 * k + j] == #[trigger] crate::categories::c12_atomics::concurrent_atomic_updates_iterations_round(
                k as u64,
            )[j],
    ensures
        n.holds(),
        n.plan == m.plan,
        n.answers == m.answers,
        n.at == 0 + 15 * (k + 1),
        n.used == 0 + 11 * (k + 1),
        crate::stage::asks(
            m.plan,
            m.answers,
            0 + 11 * k,
            concurrent_atomic_updates_iterations_1_asks(k),
        ),
        crate::stage::asks(
            m.plan,
            m.answers,
            5 + 11 * k,
            concurrent_atomic_updates_iterations_2_asks(k),
        ),
{
    let steps = crate::categories::c12_atomics::concurrent_atomic_updates_iterations_round(
        k as u64,
    );
    lemma_concurrent_atomic_updates_iterations_steps(k);
    let m1 = lemma_concurrent_atomic_updates_iterations_1(m, steps, k);
    lemma_concurrent_atomic_updates_iterations_2(m1, steps, k)
}

/// The first `k` rounds of the part `iterations` of `test_concurrent_atomic_updates` ask what they
/// should.
proof fn lemma_concurrent_atomic_updates_iterations_rounds(
    m: Moment,
    part: Seq<Step>,
    k: int,
) -> (n: Moment)
    requires
        0 <= k <= 5,
        m.holds(),
        m.at == 0,
        m.used == 0 + 11 * 0,
        m.at + 75 <= m.plan.steps.len(),
        part == crate::script::rounds(
            5,
            |k: int| crate::categories::c12_atomics::concurrent_atomic_updates_iterations_round(
                k as u64,
            ),
        ),
        forall|j: int| 0 <= j < 75 ==> m.plan.steps[0 + j] == #[trigger] part[j],
    ensures
        n.holds(),
        n.plan == m.plan,
        n.answers == m.answers,
        n.at == 0 + 15 * k,
        n.used == 0 + 11 * k,
        forall|j: int|
            0 <= j < k ==> crate::stage::asks(
                m.plan,
                m.answers,
                0 + 11 * j,
                #[trigger] concurrent_atomic_updates_iterations_1_asks(j),
            ),
        forall|j: int|
            0 <= j < k ==> crate::stage::asks(
                m.plan,
                m.answers,
                5 + 11 * j,
                #[trigger] concurrent_atomic_updates_iterations_2_asks(j),
            ),
    decreases k,
{
    if k == 0 {
        m
    } else {
        let round = |k: int| crate::categories::c12_atomics::concurrent_atomic_updates_iterations_round(
            k as u64,
        );
        let before = lemma_concurrent_atomic_updates_iterations_rounds(m, part, k - 1);
        assert forall|j: int| 0 <= j < 15 implies m.plan.steps[before.at + j] == #[trigger] crate::categories::c12_atomics::concurrent_atomic_updates_iterations_round(
            (k - 1) as u64,
        )[j] by {
            assert forall|k: int| 0 <= k < 5 implies (#[trigger] round(k)).len() == 15 by {
                lemma_concurrent_atomic_updates_iterations_steps(k);
            }
            crate::stage::lemma_round_place(5, round, 15, k - 1, j);
            assert(part[(k - 1) * 15 + j] == round(k - 1)[j]);
        }
        lemma_concurrent_atomic_updates_iterations_round(before, k - 1)
    }
}

/// What the device is asked in the part `end` of `test_concurrent_atomic_updates`.
pub open spec fn concurrent_atomic_updates_end_asks() -> Seq<Ask> {
    seq![Ask::Other(Request::Sync)]
}

/// The part `end` of `test_concurrent_atomic_updates` asks what it should.
proof fn lemma_concurrent_atomic_updates_end(m: Moment, steps: Seq<Step>) -> (n: Moment)
    requires
        m.holds(),
        m.at == 75,
        m.used == 55,
        75 + 1 <= m.plan.steps.len(),
        forall|j: int| 0 <= j < 1 ==> m.plan.steps[75 + j] == #[trigger] steps[j],
        crate::stage::demands(steps[0], Request::Sync),
    ensures
        n.holds(),
        n.plan == m.plan,
        n.answers == m.answers,
        n.at == 75 + 1,
        n.used == m.used + 1,
        crate::stage::asks(m.plan, m.answers, 55, concurrent_atomic_updates_end_asks()),
{
    crate::stage::lemma_full(m);
    crate::stage::lemma_asks_none(m, 55);
    let list0 = Seq::<Ask>::empty();
    let m1 = crate::stage::lemma_sync(m, steps[0]);
    crate::stage::lemma_asks_more(m, 55, list0, Ask::Other(Request::Sync));
    let list1 = list0.push(Ask::Other(Request::Sync));
    assert(concurrent_atomic_updates_end_asks() == list1);
    m1
}

/// The steps of the part `end` of `test_concurrent_atomic_updates`.
proof fn lemma_concurrent_atomic_updates_end_steps()
    ensures
        ({
            let steps = crate::categories::c12_atomics::concurrent_atomic_updates_end_steps();
            &&& steps.len() == 1
            &&& crate::stage::demands(steps[0], Request::Sync)
        }),
{
}

/// In a run of `test_concurrent_atomic_updates` that passes the device is asked this, in this
/// order, and nothing else: each request about what an earlier one made is about that, and about
/// what was uploaded for it.
pub proof fn law_concurrent_atomic_updates_asks_about_what_it_made(answers: Seq<Answer>)
    requires
        crate::stage::passes(
            crate::script::plan(
                "test_concurrent_atomic_updates",
                crate::categories::c12_atomics::concurrent_atomic_updates_steps(),
            ),
            answers,
        ),
    ensures
        forall|k: int|
            0 <= k < 5 ==> crate::stage::asks(
                crate::script::plan(
                    "test_concurrent_atomic_updates",
                    crate::categories::c12_atomics::concurrent_atomic_updates_steps(),
                ),
                answers,
                0 + 11 * k,
                #[trigger] concurrent_atomic_updates_iterations_1_asks(k),
            ),
        forall|k: int|
            0 <= k < 5 ==> crate::stage::asks(
                crate::script::plan(
                    "test_concurrent_atomic_updates",
                    crate::categories::c12_atomics::concurrent_atomic_updates_steps(),
                ),
                answers,
                5 + 11 * k,
                #[trigger] concurrent_atomic_updates_iterations_2_asks(k),
            ),
        crate::stage::asks(
            crate::script::plan(
                "test_concurrent_atomic_updates",
                crate::categories::c12_atomics::concurrent_atomic_updates_steps(),
            ),
            answers,
            55,
            concurrent_atomic_updates_end_asks(),
        ),
        crate::stage::asked(
            crate::script::plan(
                "test_concurrent_atomic_updates",
                crate::categories::c12_atomics::concurrent_atomic_updates_steps(),
            ),
            answers,
            56,
        ) is None,
{
    let plan = crate::script::plan(
        "test_concurrent_atomic_updates",
        crate::categories::c12_atomics::concurrent_atomic_updates_steps(),
    );
    let round1 = |k: int| crate::categories::c12_atomics::concurrent_atomic_updates_iterations_round(
        k as u64,
    );
    let part1 = crate::script::rounds(5, round1);
    assert forall|k: int| 0 <= k < 5 implies (#[trigger] round1(k)).len() == 15 by {
        lemma_concurrent_atomic_updates_iterations_steps(k);
    }
    crate::stage::lemma_rounds_length(5, round1, 15);
    let part2 = crate::categories::c12_atomics::concurrent_atomic_updates_end_steps();
    lemma_concurrent_atomic_updates_end_steps();
    let whole1 = part1;
    let whole2 = whole1 + part2;
    assert(plan.steps == whole2);
    let m0 = crate::stage::lemma_start(plan, answers);
    assert forall|j: int| 0 <= j < 75 implies plan.steps[0 + j] == #[trigger] part1[j] by {}
    let m1 = lemma_concurrent_atomic_updates_iterations_rounds(m0, part1, 5);
    assert forall|j: int| 0 <= j < 1 implies plan.steps[75 + j] == #[trigger] part2[j] by {}
    let m2 = lemma_concurrent_atomic_updates_end(m1, part2);
    crate::stage::lemma_end(m2);
}

} // verus!
