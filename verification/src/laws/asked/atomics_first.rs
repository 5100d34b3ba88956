//! What these tests ask the device in runs that pass: `test_hash_join_atomic_correctness`.

use vstd::prelude::*;
use crate::expr::{here, ix, lt, num, over, pick, plus, times};
use crate::machine::Answer;
use crate::scalar::Scalar;
use crate::script::{Layout, Request, Step};
use crate::stage::{Ask, Moment, Thing};

verus! {

/// What is joined in round `k` of the part `joins` of `test_hash_join_atomic_correctness`.
pub open spec fn hash_join_atomic_correctness_joins_joined1(k: int) -> Thing {
    Thing::Joined {
        left: Box::new(
            Thing::Table {
                layout: Layout::KeyLval,
                scalar: Scalar::U32,
                columns: seq![
                    crate::stage::column(
                        (crate::categories::c12_atomics::LEFT_SIZES@[k] as int),
                        |i: int| i,
                    ),
                    crate::stage::column(
                        (crate::categories::c12_atomics::LEFT_SIZES@[k] as int),
                        |i: int| (crate::stage::column((crate::categories::c12_atomics::LEFT_SIZES@[k] as int), |i: int| i)[i] as int) * 10,
                    ),
                ],
                turn: 0 + 9 * k,
            },
        ),
        right: Box::new(
            Thing::Table {
                layout: Layout::KeyRval,
                scalar: Scalar::U32,
                columns: seq![
                    crate::stage::column(
                        (crate::categories::c12_atomics::RIGHT_SIZES@[k] as int),
                        |i: int| if (i < (crate::categories::c12_atomics::MATCHES@[k] as int)) { ((i * (crate::categories::c12_atomics::LEFT_SIZES@[k] as int)) / (crate::categories::c12_atomics::MATCHES@[k] as int)) } else { ((crate::categories::c12_atomics::LEFT_SIZES@[k] as int) + i) },
                    ),
                    crate::stage::column(
                        (crate::categories::c12_atomics::RIGHT_SIZES@[k] as int),
                        |i: int| (crate::stage::column((crate::categories::c12_atomics::RIGHT_SIZES@[k] as int), |i: int| if (i < (crate::categories::c12_atomics::MATCHES@[k] as int)) { ((i * (crate::categories::c12_atomics::LEFT_SIZES@[k] as int)) / (crate::categories::c12_atomics::MATCHES@[k] as int)) } else { ((crate::categories::c12_atomics::LEFT_SIZES@[k] as int) + i) })[i] as int) * 100,
                    ),
                ],
                turn: 1 + 9 * k,
            },
        ),
        turn: 2 + 9 * k,
    }
}

/// What the device is asked in piece 1 of round `k` of the part `joins` of
/// `test_hash_join_atomic_correctness`.
pub open spec fn hash_join_atomic_correctness_joins_1_asks(k: int) -> Seq<Ask> {
    let words1 = crate::stage::column(
        (crate::categories::c12_atomics::LEFT_SIZES@[k] as int),
        |i: int| i,
    );
    let words2 = crate::stage::column(
        (crate::categories::c12_atomics::LEFT_SIZES@[k] as int),
        |i: int| (words1[i] as int) * 10,
    );
    let words3 = crate::stage::column(
        (crate::categories::c12_atomics::RIGHT_SIZES@[k] as int),
        |i: int| if (
            i < (crate::categories::c12_atomics::MATCHES@[k] as int)
        ) { ((i * (crate::categories::c12_atomics::LEFT_SIZES@[k] as int)) / (crate::categories::c12_atomics::MATCHES@[k] as int)) } else { ((crate::categories::c12_atomics::LEFT_SIZES@[k] as int) + i) },
    );
    let words4 = crate::stage::column(
        (crate::categories::c12_atomics::RIGHT_SIZES@[k] as int),
        |i: int| (words3[i] as int) * 100,
    );
    let table1 = Thing::Table {
        layout: Layout::KeyLval,
        scalar: Scalar::U32,
        columns: seq![words1, words2],
        turn: 0 + 9 * k,
    };
    let table2 = Thing::Table {
        layout: Layout::KeyRval,
        scalar: Scalar::U32,
        columns: seq![words3, words4],
        turn: 1 + 9 * k,
    };
    seq![
        Ask::Make(table1),
        Ask::Make(table2),
        Ask::Make(hash_join_atomic_correctness_joins_joined1(k)),
        Ask::Rows(hash_join_atomic_correctness_joins_joined1(k)),
    ]
}

/// Piece 1 of round `k` of the part `joins` of `test_hash_join_atomic_correctness` asks what it
/// should.
proof fn lemma_hash_join_atomic_correctness_joins_1(
    m: Moment,
    steps: Seq<Step>,
    k: int,
) -> (n: Moment)
    requires
        0 <= k < 4,
        m.holds(),
        m.at == 0 + 14 * k,
        m.used == 0 + 9 * k,
        0 + 14 * k + 14 <= m.plan.steps.len(),
        forall|j: int| 0 <= j < 14 ==> m.plan.steps[0 + 14 * k + j] == #[trigger] steps[j],
        crate::stage::fills(
            steps[0],
            0,
            num(crate::categories::c12_atomics::LEFT_SIZES@[k as u64 as int]),
            ix(),
        ),
        crate::stage::fills(
            steps[1],
            1,
            num(crate::categories::c12_atomics::LEFT_SIZES@[k as u64 as int]),
            times(here(0), num(10)),
        ),
        crate::stage::fills(
            steps[2],
            2,
            num(crate::categories::c12_atomics::RIGHT_SIZES@[k as u64 as int]),
            pick(
                lt(ix(), num(crate::categories::c12_atomics::MATCHES@[k as u64 as int])),
                over(
                    times(ix(), num(crate::categories::c12_atomics::LEFT_SIZES@[k as u64 as int])),
                    num(crate::categories::c12_atomics::MATCHES@[k as u64 as int]),
                ),
                plus(num(crate::categories::c12_atomics::LEFT_SIZES@[k as u64 as int]), ix()),
            ),
        ),
        crate::stage::fills(
            steps[3],
            3,
            num(crate::categories::c12_atomics::RIGHT_SIZES@[k as u64 as int]),
            times(here(2), num(100)),
        ),
        crate::stage::demands(
            steps[4],
            Request::Create { into: 0, layout: Layout::KeyLval, scalar: Scalar::U32, from: 0 },
        ),
        crate::stage::demands(
            steps[5],
            Request::Create { into: 1, layout: Layout::KeyRval, scalar: Scalar::U32, from: 2 },
        ),
        crate::stage::demands(steps[6], Request::Join { left: 0, right: 1, into: 2 }),
        crate::stage::counts(steps[7], 2),
    ensures
        n.holds(),
        n.plan == m.plan,
        n.answers == m.answers,
        n.at == 0 + 14 * k + 8,
        n.used == m.used + 4,
        n.scene.buffer(2) == hash_join_atomic_correctness_joins_joined1(k),
        crate::stage::asks(
            m.plan,
            m.answers,
            0 + 9 * k,
            hash_join_atomic_correctness_joins_1_asks(k),
        ),
{
    crate::stage::lemma_full(m);
    crate::stage::lemma_asks_none(m, 0 + 9 * k);
    let list0 = Seq::<Ask>::empty();
    let words1 = crate::stage::column(
        (crate::categories::c12_atomics::LEFT_SIZES@[k] as int),
        |i: int| i,
    );
    let word1 = ix();
    assert forall|i: int| 0 <= i < words1.len() implies crate::stage::meaning(
        word1,
        m.contents,
        i,
    ) as u64 == #[trigger] words1[i] by {
        reveal_with_fuel(crate::stage::meaning, 1);
    }
    let m1 = crate::stage::lemma_filled(
        m,
        steps[0],
        0,
        num(crate::categories::c12_atomics::LEFT_SIZES@[k as u64 as int]),
        word1,
        words1,
    );
    let words2 = crate::stage::column(
        (crate::categories::c12_atomics::LEFT_SIZES@[k] as int),
        |i: int| (words1[i] as int) * 10,
    );
    let word2 = times(here(0), num(10));
    assert forall|i: int| 0 <= i < words2.len() implies crate::stage::meaning(
        word2,
        m1.contents,
        i,
    ) as u64 == #[trigger] words2[i] by {
        reveal_with_fuel(crate::stage::meaning, 4);
    }
    let m2 = crate::stage::lemma_filled(
        m1,
        steps[1],
        1,
        num(crate::categories::c12_atomics::LEFT_SIZES@[k as u64 as int]),
        word2,
        words2,
    );
    let words3 = crate::stage::column(
        (crate::categories::c12_atomics::RIGHT_SIZES@[k] as int),
        |i: int| if (
            i < (crate::categories::c12_atomics::MATCHES@[k] as int)
        ) { ((i * (crate::categories::c12_atomics::LEFT_SIZES@[k] as int)) / (crate::categories::c12_atomics::MATCHES@[k] as int)) } else { ((crate::categories::c12_atomics::LEFT_SIZES@[k] as int) + i) },
    );
    let word3 = pick(
        lt(ix(), num(crate::categories::c12_atomics::MATCHES@[k as u64 as int])),
        over(
            times(ix(), num(crate::categories::c12_atomics::LEFT_SIZES@[k as u64 as int])),
            num(crate::categories::c12_atomics::MATCHES@[k as u64 as int]),
        ),
        plus(num(crate::categories::c12_atomics::LEFT_SIZES@[k as u64 as int]), ix()),
    );
    assert forall|i: int| 0 <= i < words3.len() implies crate::stage::meaning(
        word3,
        m2.contents,
        i,
    ) as u64 == #[trigger] words3[i] by {
        reveal_with_fuel(crate::stage::meaning, 5);
    }
    let m3 = crate::stage::lemma_filled(
        m2,
        steps[2],
        2,
        num(crate::categories::c12_atomics::RIGHT_SIZES@[k as u64 as int]),
        word3,
        words3,
    );
    let words4 = crate::stage::column(
        (crate::categories::c12_atomics::RIGHT_SIZES@[k] as int),
        |i: int| (words3[i] as int) * 100,
    );
    let word4 = times(here(2), num(100));
    assert forall|i: int| 0 <= i < words4.len() implies crate::stage::meaning(
        word4,
        m3.contents,
        i,
    ) as u64 == #[trigger] words4[i] by {
        reveal_with_fuel(crate::stage::meaning, 4);
    }
    let m4 = crate::stage::lemma_filled(
        m3,
        steps[3],
        3,
        num(crate::categories::c12_atomics::RIGHT_SIZES@[k as u64 as int]),
        word4,
        words4,
    );
    let table1 = Thing::Table {
        layout: Layout::KeyLval,
        scalar: Scalar::U32,
        columns: seq![words1, words2],
        turn: 0 + 9 * k,
    };
    let m5 = crate::stage::lemma_create(m4, steps[4], 0, Layout::KeyLval, Scalar::U32, 0, table1);
    crate::stage::lemma_asks_more(m, 0 + 9 * k, list0, Ask::Make(table1));
    let list1 = list0.push(Ask::Make(table1));
    let table2 = Thing::Table {
        layout: Layout::KeyRval,
        scalar: Scalar::U32,
        columns: seq![words3, words4],
        turn: 1 + 9 * k,
    };
    let m6 = crate::stage::lemma_create(m5, steps[5], 1, Layout::KeyRval, Scalar::U32, 2, table2);
    crate::stage::lemma_asks_more(m, 0 + 9 * k, list1, Ask::Make(table2));
    let list2 = list1.push(Ask::Make(table2));
    let m7 = crate::stage::lemma_join(
        m6,
        steps[6],
        0,
        1,
        2,
        table1,
        table2,
        hash_join_atomic_correctness_joins_joined1(k),
    );
    crate::stage::lemma_asks_more(
        m,
        0 + 9 * k,
        list2,
        Ask::Make(hash_join_atomic_correctness_joins_joined1(k)),
    );
    let list3 = list2.push(Ask::Make(hash_join_atomic_correctness_joins_joined1(k)));
    let m8 = crate::stage::lemma_count(
        m7,
        steps[7],
        2,
        hash_join_atomic_correctness_joins_joined1(k),
    );
    crate::stage::lemma_asks_more(
        m,
        0 + 9 * k,
        list3,
        Ask::Rows(hash_join_atomic_correctness_joins_joined1(k)),
    );
    let list4 = list3.push(Ask::Rows(hash_join_atomic_correctness_joins_joined1(k)));
    assert(hash_join_atomic_correctness_joins_1_asks(k) == list4);
    m8
}

/// What the device is asked in piece 2 of round `k` of the part `joins` of
/// `test_hash_join_atomic_correctness`.
pub open spec fn hash_join_atomic_correctness_joins_2_asks(k: int) -> Seq<Ask> {
    seq![
        Ask::Words {
            of: hash_join_atomic_correctness_joins_joined1(k),
            column: 0,
            scalar: Scalar::U32,
        },
        Ask::Words {
            of: hash_join_atomic_correctness_joins_joined1(k),
            column: 1,
            scalar: Scalar::U32,
        },
        Ask::Words {
            of: hash_join_atomic_correctness_joins_joined1(k),
            column: 2,
            scalar: Scalar::U32,
        },
        Ask::Rows(hash_join_atomic_correctness_joins_joined1(k)),
        Ask::Other(Request::Release { from: 0 }),
    ]
}

/// Piece 2 of round `k` of the part `joins` of `test_hash_join_atomic_correctness` asks what it
/// should.
proof fn lemma_hash_join_atomic_correctness_joins_2(
    m: Moment,
    steps: Seq<Step>,
    k: int,
) -> (n: Moment)
    requires
        0 <= k < 4,
        m.holds(),
        m.at == 0 + 14 * k + 8,
        m.used == 4 + 9 * k,
        0 + 14 * k + 14 <= m.plan.steps.len(),
        forall|j: int| 0 <= j < 14 ==> m.plan.steps[0 + 14 * k + j] == #[trigger] steps[j],
        crate::stage::demands(
            steps[8],
            Request::Download { of: 2, column: 0, scalar: Scalar::U32, into: 4 },
        ),
        crate::stage::demands(
            steps[9],
            Request::Download { of: 2, column: 1, scalar: Scalar::U32, into: 5 },
        ),
        crate::stage::demands(
            steps[10],
            Request::Download { of: 2, column: 2, scalar: Scalar::U32, into: 6 },
        ),
        crate::stage::inquires(steps[11], Request::Rows { of: 2, into: 0 }),
        crate::stage::looks(steps[12]),
        crate::stage::inquires(steps[13], Request::Release { from: 0 }),
        m.scene.buffer(2) == hash_join_atomic_correctness_joins_joined1(k),
    ensures
        n.holds(),
        n.plan == m.plan,
        n.answers == m.answers,
        n.at == 0 + 14 * k + 14,
        n.used == m.used + 5,
        crate::stage::asks(
            m.plan,
            m.answers,
            4 + 9 * k,
            hash_join_atomic_correctness_joins_2_asks(k),
        ),
{
    crate::stage::lemma_full(m);
    crate::stage::lemma_asks_none(m, 4 + 9 * k);
    let list0 = Seq::<Ask>::empty();
    let m1 = crate::stage::lemma_download(
        m,
        steps[8],
        2,
        0,
        Scalar::U32,
        4,
        hash_join_atomic_correctness_joins_joined1(k),
    );
    crate::stage::lemma_asks_more(
        m,
        4 + 9 * k,
        list0,
        Ask::Words {
            of: hash_join_atomic_correctness_joins_joined1(k),
            column: 0,
            scalar: Scalar::U32,
        },
    );
    let list1 = list0.push(
        Ask::Words {
            of: hash_join_atomic_correctness_joins_joined1(k),
            column: 0,
            scalar: Scalar::U32,
        },
    );
    let m2 = crate::stage::lemma_download(
        m1,
        steps[9],
        2,
        1,
        Scalar::U32,
        5,
        hash_join_atomic_correctness_joins_joined1(k),
    );
    crate::stage::lemma_asks_more(
        m,
        4 + 9 * k,
        list1,
        Ask::Words {
            of: hash_join_atomic_correctness_joins_joined1(k),
            column: 1,
            scalar: Scalar::U32,
        },
    );
    let list2 = list1.push(
        Ask::Words {
            of: hash_join_atomic_correctness_joins_joined1(k),
            column: 1,
            scalar: Scalar::U32,
        },
    );
    let m3 = crate::stage::lemma_download(
        m2,
        steps[10],
        2,
        2,
        Scalar::U32,
        6,
        hash_join_atomic_correctness_joins_joined1(k),
    );
    crate::stage::lemma_asks_more(
        m,
        4 + 9 * k,
        list2,
        Ask::Words {
            of: hash_join_atomic_correctness_joins_joined1(k),
            column: 2,
            scalar: Scalar::U32,
        },
    );
    let list3 = list2.push(
        Ask::Words {
            of: hash_join_atomic_correctness_joins_joined1(k),
            column: 2,
            scalar: Scalar::U32,
        },
    );
    let m4 = crate::stage::lemma_rows(
        m3,
        steps[11],
        2,
        0,
        hash_join_atomic_correctness_joins_joined1(k),
    );
    crate::stage::lemma_asks_more(
        m,
        4 + 9 * k,
        list3,
        Ask::Rows(hash_join_atomic_correctness_joins_joined1(k)),
    );
    let list4 = list3.push(Ask::Rows(hash_join_atomic_correctness_joins_joined1(k)));
    let m5 = crate::stage::lemma_look(m4, steps[12]);
    let m6 = crate::stage::lemma_release(m5, steps[13], 0);
    crate::stage::lemma_asks_more(m, 4 + 9 * k, list4, Ask::Other(Request::Release { from: 0 }));
    let list5 = list4.push(Ask::Other(Request::Release { from: 0 }));
    assert(hash_join_atomic_correctness_joins_2_asks(k) == list5);
    m6
}

/// The steps of the part `joins` of `test_hash_join_atomic_correctness`.
proof fn lemma_hash_join_atomic_correctness_joins_steps(k: int)
    ensures
        ({
            let steps = crate::categories::c12_atomics::hash_join_atomic_correctness_joins_round(
                k as u64,
            );
            &&& steps.len() == 14
            &&& crate::stage::fills(
                steps[0],
                0,
                num(crate::categories::c12_atomics::LEFT_SIZES@[k as u64 as int]),
                ix(),
            )
            &&& crate::stage::fills(
                steps[1],
                1,
                num(crate::categories::c12_atomics::LEFT_SIZES@[k as u64 as int]),
                times(here(0), num(10)),
            )
            &&& crate::stage::fills(
                steps[2],
                2,
                num(crate::categories::c12_atomics::RIGHT_SIZES@[k as u64 as int]),
                pick(
                    lt(ix(), num(crate::categories::c12_atomics::MATCHES@[k as u64 as int])),
                    over(
                        times(
                            ix(),
                            num(crate::categories::c12_atomics::LEFT_SIZES@[k as u64 as int]),
                        ),
                        num(crate::categories::c12_atomics::MATCHES@[k as u64 as int]),
                    ),
                    plus(num(crate::categories::c12_atomics::LEFT_SIZES@[k as u64 as int]), ix()),
                ),
            )
            &&& crate::stage::fills(
                steps[3],
                3,
                num(crate::categories::c12_atomics::RIGHT_SIZES@[k as u64 as int]),
                times(here(2), num(100)),
            )
            &&& crate::stage::demands(
                steps[4],
                Request::Create { into: 0, layout: Layout::KeyLval, scalar: Scalar::U32, from: 0 },
            )
            &&& crate::stage::demands(
                steps[5],
                Request::Create { into: 1, layout: Layout::KeyRval, scalar: Scalar::U32, from: 2 },
            )
            &&& crate::stage::demands(steps[6], Request::Join { left: 0, right: 1, into: 2 })
            &&& crate::stage::counts(steps[7], 2)
            &&& crate::stage::demands(
                steps[8],
                Request::Download { of: 2, column: 0, scalar: Scalar::U32, into: 4 },
            )
            &&& crate::stage::demands(
                steps[9],
                Request::Download { of: 2, column: 1, scalar: Scalar::U32, into: 5 },
            )
            &&& crate::stage::demands(
                steps[10],
                Request::Download { of: 2, column: 2, scalar: Scalar::U32, into: 6 },
            )
            &&& crate::stage::inquires(steps[11], Request::Rows { of: 2, into: 0 })
            &&& crate::stage::looks(steps[12])
            &&& crate::stage::inquires(steps[13], Request::Release { from: 0 })
        }),
{
}

/// Round `k` of the part `joins` of `test_hash_join_atomic_correctness` asks what it should.
proof fn lemma_hash_join_atomic_correctness_joins_round(m: Moment, k: int) -> (n: Moment)
    requires
        0 <= k < 4,
        m.holds(),
        m.at == 0 + 14 * k,
        m.used == 0 + 9 * k,
        m.at + 14 <= m.plan.steps.len(),
        forall|j: int|
            0 <= j < 14 ==> m.plan.steps[0 + 14 * k + j] == #[trigger] crate::categories::c12_atomics::hash_join_atomic_correctness_joins_round(
                k as u64,
            )[j],
    ensures
        n.holds(),
        n.plan == m.plan,
        n.answers == m.answers,
        n.at == 0 + 14 * (k + 1),
        n.used == 0 + 9 * (k + 1),
        crate::stage::asks(
            m.plan,
            m.answers,
            0 + 9 * k,
            hash_join_atomic_correctness_joins_1_asks(k),
        ),
        crate::stage::asks(
            m.plan,
            m.answers,
            4 + 9 * k,
            hash_join_atomic_correctness_joins_2_asks(k),
        ),
{
    let steps = crate::categories::c12_atomics::hash_join_atomic_correctness_joins_round(k as u64);
    lemma_hash_join_atomic_correctness_joins_steps(k);
    let m1 = lemma_hash_join_atomic_correctness_joins_1(m, steps, k);
    lemma_hash_join_atomic_correctness_joins_2(m1, steps, k)
}

/// The first `k` rounds of the part `joins` of `test_hash_join_atomic_correctness` ask what they
/// should.
proof fn lemma_hash_join_atomic_correctness_joins_rounds(
    m: Moment,
    part: Seq<Step>,
    k: int,
) -> (n: Moment)
    requires
        0 <= k <= 4,
        m.holds(),
        m.at == 0,
        m.used == 0 + 9 * 0,
        m.at + 56 <= m.plan.steps.len(),
        part == crate::script::rounds(
            4,
            |k: int| crate::categories::c12_atomics::hash_join_atomic_correctness_joins_round(
                k as u64,
            ),
        ),
        forall|j: int| 0 <= j < 56 ==> m.plan.steps[0 + j] == #[trigger] part[j],
    ensures
        n.holds(),
        n.plan == m.plan,
        n.answers == m.answers,
        n.at == 0 + 14 * k,
        n.used == 0 + 9 * k,
        forall|j: int|
            0 <= j < k ==> crate::stage::asks(
                m.plan,
                m.answers,
                0 + 9 * j,
                #[trigger] hash_join_atomic_correctness_joins_1_asks(j),
            ),
        forall|j: int|
            0 <= j < k ==> crate::stage::asks(
                m.plan,
                m.answers,
                4 + 9 * j,
                #[trigger] hash_join_atomic_correctness_joins_2_asks(j),
            ),
    decreases k,
{
    if k == 0 {
        m
    } else {
        let round = |k: int| crate::categories::c12_atomics::hash_join_atomic_correctness_joins_round(
            k as u64,
        );
        let before = lemma_hash_join_atomic_correctness_joins_rounds(m, part, k - 1);
        assert forall|j: int| 0 <= j < 14 implies m.plan.steps[before.at + j] == #[trigger] crate::categories::c12_atomics::hash_join_atomic_correctness_joins_round(
            (k - 1) as u64,
        )[j] by {
            assert forall|k: int| 0 <= k < 4 implies (#[trigger] round(k)).len() == 14 by {
                lemma_hash_join_atomic_correctness_joins_steps(k);
            }
            crate::stage::lemma_round_place(4, round, 14, k - 1, j);
            assert(part[(k - 1) * 14 + j] == round(k - 1)[j]);
        }
        lemma_hash_join_atomic_correctness_joins_round(before, k - 1)
    }
}

/// What the device is asked in the part `end` of `test_hash_join_atomic_correctness`.
pub open spec fn hash_join_atomic_correctness_end_asks() -> Seq<Ask> {
    seq![Ask::Other(Request::Sync)]
}

/// The part `end` of `test_hash_join_atomic_correctness` asks what it should.
proof fn lemma_hash_join_atomic_correctness_end(m: Moment, steps: Seq<Step>) -> (n: Moment)
    requires
        m.holds(),
        m.at == 56,
        m.used == 36,
        56 + 1 <= m.plan.steps.len(),
        forall|j: int| 0 <= j < 1 ==> m.plan.steps[56 + j] == #[trigger] steps[j],
        crate::stage::demands(steps[0], Request::Sync),
    ensures
        n.holds(),
        n.plan == m.plan,
        n.answers == m.answers,
        n.at == 56 + 1,
        n.used == m.used + 1,
        crate::stage::asks(m.plan, m.answers, 36, hash_join_atomic_correctness_end_asks()),
{
    crate::stage::lemma_full(m);
    crate::stage::lemma_asks_none(m, 36);
    let list0 = Seq::<Ask>::empty();
    let m1 = crate::stage::lemma_sync(m, steps[0]);
    crate::stage::lemma_asks_more(m, 36, list0, Ask::Other(Request::Sync));
    let list1 = list0.push(Ask::Other(Request::Sync));
    assert(hash_join_atomic_correctness_end_asks() == list1);
    m1
}

/// The steps of the part `end` of `test_hash_join_atomic_correctness`.
proof fn lemma_hash_join_atomic_correctness_end_steps()
    ensures
        ({
            let steps = crate::categories::c12_atomics::hash_join_atomic_correctness_end_steps();
            &&& steps.len() == 1
            &&& crate::stage::demands(steps[0], Request::Sync)
        }),
{
}

/// In a run of `test_hash_join_atomic_correctness` that passes the device is asked this, in this
/// order, and nothing else: each request about what an earlier one made is about that, and about
/// what was uploaded for it.
pub proof fn law_hash_join_atomic_correctness_asks_about_what_it_made(answers: Seq<Answer>)
    requires
        crate::stage::passes(
            crate::script::plan(
                "test_hash_join_atomic_correctness",
                crate::categories::c12_atomics::hash_join_atomic_correctness_steps(),
            ),
            answers,
        ),
    ensures
        forall|k: int|
            0 <= k < 4 ==> crate::stage::asks(
                crate::script::plan(
                    "test_hash_join_atomic_correctness",
                    crate::categories::c12_atomics::hash_join_atomic_correctness_steps(),
                ),
                answers,
                0 + 9 * k,
                #[trigger] hash_join_atomic_correctness_joins_1_asks(k),
            ),
        forall|k: int|
            0 <= k < 4 ==> crate::stage::asks(
                crate::script::plan(
                    "test_hash_join_atomic_correctness",
                    crate::categories::c12_atomics::hash_join_atomic_correctness_steps(),
                ),
                answers,
                4 + 9 * k,
                #[trigger] hash_join_atomic_correctness_joins_2_asks(k),
            ),
        crate::stage::asks(
            crate::script::plan(
                "test_hash_join_atomic_correctness",
                crate::categories::c12_atomics::hash_join_atomic_correctness_steps(),
            ),
            answers,
            36,
            hash_join_atomic_correctness_end_asks(),
        ),
        crate::stage::asked(
            crate::script::plan(
                "test_hash_join_atomic_correctness",
                crate::categories::c12_atomics::hash_join_atomic_correctness_steps(),
            ),
            answers,
            37,
        ) is None,
{
    let plan = crate::script::plan(
        "test_hash_join_atomic_correctness",
        crate::categories::c12_atomics::hash_join_atomic_correctness_steps(),
    );
    let round1 = |k: int| crate::categories::c12_atomics::hash_join_atomic_correctness_joins_round(
        k as u64,
    );
    let part1 = crate::script::rounds(4, round1);
    assert forall|k: int| 0 <= k < 4 implies (#[trigger] round1(k)).len() == 14 by {
        lemma_hash_join_atomic_correctness_joins_steps(k);
    }
    crate::stage::lemma_rounds_length(4, round1, 14);
    let part2 = crate::categories::c12_atomics::hash_join_atomic_correctness_end_steps();
    lemma_hash_join_atomic_correctness_end_steps();
    let whole1 = part1;
    let whole2 = whole1 + part2;
    assert(plan.steps == whole2);
    let m0 = crate::stage::lemma_start(plan, answers);
    assert forall|j: int| 0 <= j < 56 implies plan.steps[0 + j] == #[trigger] part1[j] by {}
    let m1 = lemma_hash_join_atomic_correctness_joins_rounds(m0, part1, 4);
    assert forall|j: int| 0 <= j < 1 implies plan.steps[56 + j] == #[trigger] part2[j] by {}
    let m2 = lemma_hash_join_atomic_correctness_end(m1, part2);
    crate::stage::lemma_end(m2);
}

} // verus!
