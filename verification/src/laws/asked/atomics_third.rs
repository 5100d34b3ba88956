//! What these tests ask the device in runs that pass: `test_high_contention_join`,
//! `test_atomic_counting`.

use vstd::prelude::*;
use crate::expr::{here, ix, lt, modulo, num, plus, same_as, times};
use crate::machine::Answer;
use crate::scalar::Scalar;
use crate::script::{Layout, Request, Step};
use crate::stage::{Ask, Moment, Thing};

verus! {

/// What is joined in the part `collisions` of `test_high_contention_join`.
pub open spec fn high_contention_join_collisions_joined1() -> Thing {
    Thing::Joined {
        left: Box::new(
            Thing::Table {
                layout: Layout::KeyLval,
                scalar: Scalar::U32,
                columns: seq![
                    crate::stage::column(5000, |i: int| i * 256),
                    crate::stage::column(
                        5000,
                        |i: int| (crate::stage::column(5000, |i: int| i * 256)[i] as int) + 1,
                    ),
                ],
                turn: 0,
            },
        ),
        right: Box::new(
            Thing::Table {
                layout: Layout::KeyRval,
                scalar: Scalar::U32,
                columns: seq![
                    crate::stage::column(
                        5000,
                        |i: int| (crate::stage::column(5000, |i: int| i * 256)[i] as int),
                    ),
                    crate::stage::column(
                        5000,
                        |i: int| (crate::stage::column(5000, |i: int| i * 256)[i] as int) + 2,
                    ),
                ],
                turn: 1,
            },
        ),
        turn: 2,
    }
}

/// What is joined in the part `single_key` of `test_high_contention_join`.
pub open spec fn high_contention_join_single_key_joined1() -> Thing {
    Thing::Joined {
        left: Box::new(
            Thing::Table {
                layout: Layout::KeyLval,
                scalar: Scalar::U32,
                columns: seq![
                    crate::stage::column(1000, |i: int| 12345),
                    crate::stage::column(1000, |i: int| i),
                ],
                turn: 8,
            },
        ),
        right: Box::new(
            Thing::Table {
                layout: Layout::KeyRval,
                scalar: Scalar::U32,
                columns: seq![
                    crate::stage::column(100, |i: int| 12345),
                    crate::stage::column(100, |i: int| i * 1000),
                ],
                turn: 9,
            },
        ),
        turn: 10,
    }
}

/// What the device is asked in piece 1 of the part `collisions` of `test_high_contention_join`.
pub open spec fn high_contention_join_collisions_1_asks() -> Seq<Ask> {
    let words1 = crate::stage::column(5000, |i: int| i * 256);
    let words2 = crate::stage::column(5000, |i: int| (words1[i] as int) + 1);
    let words3 = crate::stage::column(5000, |i: int| (words1[i] as int));
    let words4 = crate::stage::column(5000, |i: int| (words1[i] as int) + 2);
    let table1 = Thing::Table {
        layout: Layout::KeyLval,
        scalar: Scalar::U32,
        columns: seq![words1, words2],
        turn: 0,
    };
    let table2 = Thing::Table {
        layout: Layout::KeyRval,
        scalar: Scalar::U32,
        columns: seq![words3, words4],
        turn: 1,
    };
    seq![
        Ask::Make(table1),
        Ask::Make(table2),
        Ask::Make(high_contention_join_collisions_joined1()),
        Ask::Rows(high_contention_join_collisions_joined1()),
    ]
}

/// Piece 1 of the part `collisions` of `test_high_contention_join` asks what it should.
proof fn lemma_high_contention_join_collisions_1(m: Moment, steps: Seq<Step>) -> (n: Moment)
    requires
        m.holds(),
        m.at == 0,
        m.used == 0,
        0 + 14 <= m.plan.steps.len(),
        forall|j: int| 0 <= j < 14 ==> m.plan.steps[0 + j] == #[trigger] steps[j],
        crate::stage::fills(steps[0], 0, num(5000), times(ix(), num(256))),
        crate::stage::fills(steps[1], 1, num(5000), plus(here(0), num(1))),
        crate::stage::fills(steps[2], 2, num(5000), here(0)),
        crate::stage::fills(steps[3], 3, num(5000), plus(here(0), num(2))),
        crate::stage::demands(
            steps[4],
            Request::Create { into: 0, layout: Layout::KeyLval, scalar: Scalar::U32, from: 0 },
        ),
        crate::stage::demands(
            steps[5],
            Request::Create { into: 1, layout: Layout::KeyRval, scalar: Scalar::U32, from: 2 },
        ),
        crate::stage::demands(steps[6], Request::Join { left: 0, right: 1, into: 2 }),
        crate::stage::counts(steps[7], 2),
    ensures
        n.holds(),
        n.plan == m.plan,
        n.answers == m.answers,
        n.at == 0 + 8,
        n.used == m.used + 4,
        n.scene.buffer(2) == high_contention_join_collisions_joined1(),
        crate::stage::asks(m.plan, m.answers, 0, high_contention_join_collisions_1_asks()),
{
    crate::stage::lemma_full(m);
    crate::stage::lemma_asks_none(m, 0);
    let list0 = Seq::<Ask>::empty();
    let words1 = crate::stage::column(5000, |i: int| i * 256);
    let word1 = times(ix(), num(256));
    assert forall|i: int| 0 <= i < words1.len() implies crate::stage::meaning(
        word1,
        m.contents,
        i,
    ) as u64 == #[trigger] words1[i] by {
        reveal_with_fuel(crate::stage::meaning, 3);
    }
    let m1 = crate::stage::lemma_filled(m, steps[0], 0, num(5000), word1, words1);
    let words2 = crate::stage::column(5000, |i: int| (words1[i] as int) + 1);
    let word2 = plus(here(0), num(1));
    assert forall|i: int| 0 <= i < words2.len() implies crate::stage::meaning(
        word2,
        m1.contents,
        i,
    ) as u64 == #[trigger] words2[i] by {
        reveal_with_fuel(crate::stage::meaning, 4);
    }
    let m2 = crate::stage::lemma_filled(m1, steps[1], 1, num(5000), word2, words2);
    let words3 = crate::stage::column(5000, |i: int| (words1[i] as int));
    let word3 = here(0);
    assert forall|i: int| 0 <= i < words3.len() implies crate::stage::meaning(
        word3,
        m2.contents,
        i,
    ) as u64 == #[trigger] words3[i] by {
        reveal_with_fuel(crate::stage::meaning, 3);
    }
    let m3 = crate::stage::lemma_filled(m2, steps[2], 2, num(5000), word3, words3);
    let words4 = crate::stage::column(5000, |i: int| (words1[i] as int) + 2);
    let word4 = plus(here(0), num(2));
    assert forall|i: int| 0 <= i < words4.len() implies crate::stage::meaning(
        word4,
        m3.contents,
        i,
    ) as u64 == #[trigger] words4[i] by {
        reveal_with_fuel(crate::stage::meaning, 4);
    }
    let m4 = crate::stage::lemma_filled(m3, steps[3], 3, num(5000), word4, words4);
    let table1 = Thing::Table {
        layout: Layout::KeyLval,
        scalar: Scalar::U32,
        columns: seq![words1, words2],
        turn: 0,
    };
    let m5 = crate::stage::lemma_create(m4, steps[4], 0, Layout::KeyLval, Scalar::U32, 0, table1);
    crate::stage::lemma_asks_more(m, 0, list0, Ask::Make(table1));
    let list1 = list0.push(Ask::Make(table1));
    let table2 = Thing::Table {
        layout: Layout::KeyRval,
        scalar: Scalar::U32,
        columns: seq![words3, words4],
        turn: 1,
    };
    let m6 = crate::stage::lemma_create(m5, steps[5], 1, Layout::KeyRval, Scalar::U32, 2, table2);
    crate::stage::lemma_asks_more(m, 0, list1, Ask::Make(table2));
    let list2 = list1.push(Ask::Make(table2));
    let m7 = crate::stage::lemma_join(
        m6,
        steps[6],
        0,
        1,
        2,
        table1,
        table2,
        high_contention_join_collisions_joined1(),
    );
    crate::stage::lemma_asks_more(
        m,
        0,
        list2,
        Ask::Make(high_contention_join_collisions_joined1()),
    );
    let list3 = list2.push(Ask::Make(high_contention_join_collisions_joined1()));
    let m8 = crate::stage::lemma_count(m7, steps[7], 2, high_contention_join_collisions_joined1());
    crate::stage::lemma_asks_more(
        m,
        0,
        list3,
        Ask::Rows(high_contention_join_collisions_joined1()),
    );
    let list4 = list3.push(Ask::Rows(high_contention_join_collisions_joined1()));
    assert(high_contention_join_collisions_1_asks() == list4);
    m8
}

/// What the device is asked in piece 2 of the part `collisions` of `test_high_contention_join`.
pub open spec fn high_contention_join_collisions_2_asks() -> Seq<Ask> {
    seq![
        Ask::Words {
            of: high_contention_join_collisions_joined1(),
            column: 0,
            scalar: Scalar::U32,
        },
        Ask::Words {
            of: high_contention_join_collisions_joined1(),
            column: 1,
            scalar: Scalar::U32,
        },
        Ask::Words {
            of: high_contention_join_collisions_joined1(),
            column: 2,
            scalar: Scalar::U32,
        },
        Ask::Rows(high_contention_join_collisions_joined1()),
    ]
}

/// Piece 2 of the part `collisions` of `test_high_contention_join` asks what it should.
proof fn lemma_high_contention_join_collisions_2(m: Moment, steps: Seq<Step>) -> (n: Moment)
    requires
        m.holds(),
        m.at == 0 + 8,
        m.used == 4,
        0 + 14 <= m.plan.steps.len(),
        forall|j: int| 0 <= j < 14 ==> m.plan.steps[0 + j] == #[trigger] steps[j],
        crate::stage::demands(
            steps[8],
            Request::Download { of: 2, column: 0, scalar: Scalar::U32, into: 4 },
        ),
        crate::stage::demands(
            steps[9],
            Request::Download { of: 2, column: 1, scalar: Scalar::U32, into: 5 },
        ),
        crate::stage::demands(
            steps[10],
            Request::Download { of: 2, column: 2, scalar: Scalar::U32, into: 6 },
        ),
        crate::stage::inquires(steps[11], Request::Rows { of: 2, into: 0 }),
        crate::stage::looks(steps[12]),
        crate::stage::looks(steps[13]),
        m.scene.buffer(2) == high_contention_join_collisions_joined1(),
    ensures
        n.holds(),
        n.plan == m.plan,
        n.answers == m.answers,
        n.at == 0 + 14,
        n.used == m.used + 4,
        crate::stage::asks(m.plan, m.answers, 4, high_contention_join_collisions_2_asks()),
{
    crate::stage::lemma_full(m);
    crate::stage::lemma_asks_none(m, 4);
    let list0 = Seq::<Ask>::empty();
    let m1 = crate::stage::lemma_download(
        m,
        steps[8],
        2,
        0,
        Scalar::U32,
        4,
        high_contention_join_collisions_joined1(),
    );
    crate::stage::lemma_asks_more(
        m,
        4,
        list0,
        Ask::Words {
            of: high_contention_join_collisions_joined1(),
            column: 0,
            scalar: Scalar::U32,
        },
    );
    let list1 = list0.push(
        Ask::Words {
            of: high_contention_join_collisions_joined1(),
            column: 0,
            scalar: Scalar::U32,
        },
    );
    let m2 = crate::stage::lemma_download(
        m1,
        steps[9],
        2,
        1,
        Scalar::U32,
        5,
        high_contention_join_collisions_joined1(),
    );
    crate::stage::lemma_asks_more(
        m,
        4,
        list1,
        Ask::Words {
            of: high_contention_join_collisions_joined1(),
            column: 1,
            scalar: Scalar::U32,
        },
    );
    let list2 = list1.push(
        Ask::Words {
            of: high_contention_join_collisions_joined1(),
            column: 1,
            scalar: Scalar::U32,
        },
    );
    let m3 = crate::stage::lemma_download(
        m2,
        steps[10],
        2,
        2,
        Scalar::U32,
        6,
        high_contention_join_collisions_joined1(),
    );
    crate::stage::lemma_asks_more(
        m,
        4,
        list2,
        Ask::Words {
            of: high_contention_join_collisions_joined1(),
            column: 2,
            scalar: Scalar::U32,
        },
    );
    let list3 = list2.push(
        Ask::Words {
            of: high_contention_join_collisions_joined1(),
            column: 2,
            scalar: Scalar::U32,
        },
    );
    let m4 = crate::stage::lemma_rows(
        m3,
        steps[11],
        2,
        0,
        high_contention_join_collisions_joined1(),
    );
    crate::stage::lemma_asks_more(
        m,
        4,
        list3,
        Ask::Rows(high_contention_join_collisions_joined1()),
    );
    let list4 = list3.push(Ask::Rows(high_contention_join_collisions_joined1()));
    let m5 = crate::stage::lemma_look(m4, steps[12]);
    let m6 = crate::stage::lemma_look(m5, steps[13]);
    assert(high_contention_join_collisions_2_asks() == list4);
    m6
}

/// The steps of the part `collisions` of `test_high_contention_join`.
proof fn lemma_high_contention_join_collisions_steps()
    ensures
        ({
            let steps = crate::categories::c12_atomics::high_contention_join_collisions_steps();
            &&& steps.len() == 14
            &&& crate::stage::fills(steps[0], 0, num(5000), times(ix(), num(256)))
            &&& crate::stage::fills(steps[1], 1, num(5000), plus(here(0), num(1)))
            &&& crate::stage::fills(steps[2], 2, num(5000), here(0))
            &&& crate::stage::fills(steps[3], 3, num(5000), plus(here(0), num(2)))
            &&& crate::stage::demands(
                steps[4],
                Request::Create { into: 0, layout: Layout::KeyLval, scalar: Scalar::U32, from: 0 },
            )
            &&& crate::stage::demands(
                steps[5],
                Request::Create { into: 1, layout: Layout::KeyRval, scalar: Scalar::U32, from: 2 },
            )
            &&& crate::stage::demands(steps[6], Request::Join { left: 0, right: 1, into: 2 })
            &&& crate::stage::counts(steps[7], 2)
            &&& crate::stage::demands(
                steps[8],
                Request::Download { of: 2, column: 0, scalar: Scalar::U32, into: 4 },
            )
            &&& crate::stage::demands(
                steps[9],
                Request::Download { of: 2, column: 1, scalar: Scalar::U32, into: 5 },
            )
            &&& crate::stage::demands(
                steps[10],
                Request::Download { of: 2, column: 2, scalar: Scalar::U32, into: 6 },
            )
            &&& crate::stage::inquires(steps[11], Request::Rows { of: 2, into: 0 })
            &&& crate::stage::looks(steps[12])
            &&& crate::stage::looks(steps[13])
        }),
{
}

/// What the device is asked in piece 1 of the part `single_key` of `test_high_contention_join`.
pub open spec fn high_contention_join_single_key_1_asks() -> Seq<Ask> {
    let words1 = crate::stage::column(1000, |i: int| 12345);
    let words2 = crate::stage::column(1000, |i: int| i);
    let words3 = crate::stage::column(100, |i: int| 12345);
    let words4 = crate::stage::column(100, |i: int| i * 1000);
    let table1 = Thing::Table {
        layout: Layout::KeyLval,
        scalar: Scalar::U32,
        columns: seq![words1, words2],
        turn: 8,
    };
    let table2 = Thing::Table {
        layout: Layout::KeyRval,
        scalar: Scalar::U32,
        columns: seq![words3, words4],
        turn: 9,
    };
    seq![
        Ask::Make(table1),
        Ask::Make(table2),
        Ask::Make(high_contention_join_single_key_joined1()),
        Ask::Rows(high_contention_join_single_key_joined1()),
    ]
}

/// Piece 1 of the part `single_key` of `test_high_contention_join` asks what it should.
proof fn lemma_high_contention_join_single_key_1(m: Moment, steps: Seq<Step>) -> (n: Moment)
    requires
        m.holds(),
        m.at == 14,
        m.used == 8,
        14 + 11 <= m.plan.steps.len(),
        forall|j: int| 0 <= j < 11 ==> m.plan.steps[14 + j] == #[trigger] steps[j],
        crate::stage::fills(steps[0], 7, num(1000), num(12345)),
        crate::stage::fills(steps[1], 8, num(1000), ix()),
        crate::stage::fills(steps[2], 9, num(100), num(12345)),
        crate::stage::fills(steps[3], 10, num(100), times(ix(), num(1000))),
        crate::stage::demands(
            steps[4],
            Request::Create { into: 3, layout: Layout::KeyLval, scalar: Scalar::U32, from: 7 },
        ),
        crate::stage::demands(
            steps[5],
            Request::Create { into: 4, layout: Layout::KeyRval, scalar: Scalar::U32, from: 9 },
        ),
        crate::stage::demands(steps[6], Request::Join { left: 3, right: 4, into: 5 }),
        crate::stage::counts(steps[7], 5),
    ensures
        n.holds(),
        n.plan == m.plan,
        n.answers == m.answers,
        n.at == 14 + 8,
        n.used == m.used + 4,
        n.scene.buffer(5) == high_contention_join_single_key_joined1(),
        crate::stage::asks(m.plan, m.answers, 8, high_contention_join_single_key_1_asks()),
{
    crate::stage::lemma_full(m);
    crate::stage::lemma_asks_none(m, 8);
    let list0 = Seq::<Ask>::empty();
    let words1 = crate::stage::column(1000, |i: int| 12345);
    let word1 = num(12345);
    assert forall|i: int| 0 <= i < words1.len() implies crate::stage::meaning(
        word1,
        m.contents,
        i,
    ) as u64 == #[trigger] words1[i] by {
        reveal_with_fuel(crate::stage::meaning, 2);
    }
    let m1 = crate::stage::lemma_filled(m, steps[0], 7, num(1000), word1, words1);
    let words2 = crate::stage::column(1000, |i: int| i);
    let word2 = ix();
    assert forall|i: int| 0 <= i < words2.len() implies crate::stage::meaning(
        word2,
        m1.contents,
        i,
    ) as u64 == #[trigger] words2[i] by {
        reveal_with_fuel(crate::stage::meaning, 1);
    }
    let m2 = crate::stage::lemma_filled(m1, steps[1], 8, num(1000), word2, words2);
    let words3 = crate::stage::column(100, |i: int| 12345);
    let word3 = num(12345);
    assert forall|i: int| 0 <= i < words3.len() implies crate::stage::meaning(
        word3,
        m2.contents,
        i,
    ) as u64 == #[trigger] words3[i] by {
        reveal_with_fuel(crate::stage::meaning, 2);
    }
    let m3 = crate::stage::lemma_filled(m2, steps[2], 9, num(100), word3, words3);
    let words4 = crate::stage::column(100, |i: int| i * 1000);
    let word4 = times(ix(), num(1000));
    assert forall|i: int| 0 <= i < words4.len() implies crate::stage::meaning(
        word4,
        m3.contents,
        i,
    ) as u64 == #[trigger] words4[i] by {
        reveal_with_fuel(crate::stage::meaning, 3);
    }
    let m4 = crate::stage::lemma_filled(m3, steps[3], 10, num(100), word4, words4);
    let table1 = Thing::Table {
        layout: Layout::KeyLval,
        scalar: Scalar::U32,
        columns: seq![words1, words2],
        turn: 8,
    };
    let m5 = crate::stage::lemma_create(m4, steps[4], 3, Layout::KeyLval, Scalar::U32, 7, table1);
    crate::stage::lemma_asks_more(m, 8, list0, Ask::Make(table1));
    let list1 = list0.push(Ask::Make(table1));
    let table2 = Thing::Table {
        layout: Layout::KeyRval,
        scalar: Scalar::U32,
        columns: seq![words3, words4],
        turn: 9,
    };
    let m6 = crate::stage::lemma_create(m5, steps[5], 4, Layout::KeyRval, Scalar::U32, 9, table2);
    crate::stage::lemma_asks_more(m, 8, list1, Ask::Make(table2));
    let list2 = list1.push(Ask::Make(table2));
    let m7 = crate::stage::lemma_join(
        m6,
        steps[6],
        3,
        4,
        5,
        table1,
        table2,
        high_contention_join_single_key_joined1(),
    );
    crate::stage::lemma_asks_more(
        m,
        8,
        list2,
        Ask::Make(high_contention_join_single_key_joined1()),
    );
    let list3 = list2.push(Ask::Make(high_contention_join_single_key_joined1()));
    let m8 = crate::stage::lemma_count(m7, steps[7], 5, high_contention_join_single_key_joined1());
    crate::stage::lemma_asks_more(
        m,
        8,
        list3,
        Ask::Rows(high_contention_join_single_key_joined1()),
    );
    let list4 = list3.push(Ask::Rows(high_contention_join_single_key_joined1()));
    assert(high_contention_join_single_key_1_asks() == list4);
    m8
}

/// What the device is asked in piece 2 of the part `single_key` of `test_high_contention_join`.
pub open spec fn high_contention_join_single_key_2_asks() -> Seq<Ask> {
    seq![
        Ask::Words {
            of: high_contention_join_single_key_joined1(),
            column: 0,
            scalar: Scalar::U32,
        },
        Ask::Other(Request::Sync),
    ]
}

/// Piece 2 of the part `single_key` of `test_high_contention_join` asks what it should.
proof fn lemma_high_contention_join_single_key_2(m: Moment, steps: Seq<Step>) -> (n: Moment)
    requires
        m.holds(),
        m.at == 14 + 8,
        m.used == 12,
        14 + 11 <= m.plan.steps.len(),
        forall|j: int| 0 <= j < 11 ==> m.plan.steps[14 + j] == #[trigger] steps[j],
        crate::stage::demands(
            steps[8],
            Request::Download { of: 5, column: 0, scalar: Scalar::U32, into: 11 },
        ),
        crate::stage::looks(steps[9]),
        crate::stage::demands(steps[10], Request::Sync),
        m.scene.buffer(5) == high_contention_join_single_key_joined1(),
    ensures
        n.holds(),
        n.plan == m.plan,
        n.answers == m.answers,
        n.at == 14 + 11,
        n.used == m.used + 2,
        crate::stage::asks(m.plan, m.answers, 12, high_contention_join_single_key_2_asks()),
{
    crate::stage::lemma_full(m);
    crate::stage::lemma_asks_none(m, 12);
    let list0 = Seq::<Ask>::empty();
    let m1 = crate::stage::lemma_download(
        m,
        steps[8],
        5,
        0,
        Scalar::U32,
        11,
        high_contention_join_single_key_joined1(),
    );
    crate::stage::lemma_asks_more(
        m,
        12,
        list0,
        Ask::Words {
            of: high_contention_join_single_key_joined1(),
            column: 0,
            scalar: Scalar::U32,
        },
    );
    let list1 = list0.push(
        Ask::Words {
            of: high_contention_join_single_key_joined1(),
            column: 0,
            scalar: Scalar::U32,
        },
    );
    let m2 = crate::stage::lemma_look(m1, steps[9]);
    let m3 = crate::stage::lemma_sync(m2, steps[10]);
    crate::stage::lemma_asks_more(m, 12, list1, Ask::Other(Request::Sync));
    let list2 = list1.push(Ask::Other(Request::Sync));
    assert(high_contention_join_single_key_2_asks() == list2);
    m3
}

/// The steps of the part `single_key` of `test_high_contention_join`.
proof fn lemma_high_contention_join_single_key_steps()
    ensures
        ({
            let steps = crate::categories::c12_atomics::high_contention_join_single_key_steps();
            &&& steps.len() == 11
            &&& crate::stage::fills(steps[0], 7, num(1000), num(12345))
            &&& crate::stage::fills(steps[1], 8, num(1000), ix())
            &&& crate::stage::fills(steps[2], 9, num(100), num(12345))
            &&& crate::stage::fills(steps[3], 10, num(100), times(ix(), num(1000)))
            &&& crate::stage::demands(
                steps[4],
                Request::Create { into: 3, layout: Layout::KeyLval, scalar: Scalar::U32, from: 7 },
            )
            &&& crate::stage::demands(
                steps[5],
                Request::Create { into: 4, layout: Layout::KeyRval, scalar: Scalar::U32, from: 9 },
            )
            &&& crate::stage::demands(steps[6], Request::Join { left: 3, right: 4, into: 5 })
            &&& crate::stage::counts(steps[7], 5)
            &&& crate::stage::demands(
                steps[8],
                Request::Download { of: 5, column: 0, scalar: Scalar::U32, into: 11 },
            )
            &&& crate::stage::looks(steps[9])
            &&& crate::stage::demands(steps[10], Request::Sync)
        }),
{
}

/// In a run of `test_high_contention_join` that passes the device is asked this, in this order, and
/// nothing else: each request about what an earlier one made is about that, and about what was
/// uploaded for it.
pub proof fn law_high_contention_join_asks_about_what_it_made(answers: Seq<Answer>)
    requires
        crate::stage::passes(
            crate::script::plan(
                "test_high_contention_join",
                crate::categories::c12_atomics::high_contention_join_steps(),
            ),
            answers,
        ),
    ensures
        crate::stage::asks(
            crate::script::plan(
                "test_high_contention_join",
                crate::categories::c12_atomics::high_contention_join_steps(),
            ),
            answers,
            0,
            high_contention_join_collisions_1_asks(),
        ),
        crate::stage::asks(
            crate::script::plan(
                "test_high_contention_join",
                crate::categories::c12_atomics::high_contention_join_steps(),
            ),
            answers,
            4,
            high_contention_join_collisions_2_asks(),
        ),
        crate::stage::asks(
            crate::script::plan(
                "test_high_contention_join",
                crate::categories::c12_atomics::high_contention_join_steps(),
            ),
            answers,
            8,
            high_contention_join_single_key_1_asks(),
        ),
        crate::stage::asks(
            crate::script::plan(
                "test_high_contention_join",
                crate::categories::c12_atomics::high_contention_join_steps(),
            ),
            answers,
            12,
            high_contention_join_single_key_2_asks(),
        ),
        crate::stage::asked(
            crate::script::plan(
                "test_high_contention_join",
                crate::categories::c12_atomics::high_contention_join_steps(),
            ),
            answers,
            14,
        ) is None,
{
    let plan = crate::script::plan(
        "test_high_contention_join",
        crate::categories::c12_atomics::high_contention_join_steps(),
    );
    let part1 = crate::categories::c12_atomics::high_contention_join_collisions_steps();
    lemma_high_contention_join_collisions_steps();
    let part2 = crate::categories::c12_atomics::high_contention_join_single_key_steps();
    lemma_high_contention_join_single_key_steps();
    let whole1 = part1;
    let whole2 = whole1 + part2;
    assert(plan.steps == whole2);
    let m0 = crate::stage::lemma_start(plan, answers);
    assert forall|j: int| 0 <= j < 14 implies plan.steps[0 + j] == #[trigger] part1[j] by {}
    let m1 = lemma_high_contention_join_collisions_1(m0, part1);
    let m2 = lemma_high_contention_join_collisions_2(m1, part1);
    assert forall|j: int| 0 <= j < 11 implies plan.steps[14 + j] == #[trigger] part2[j] by {}
    let m3 = lemma_high_contention_join_single_key_1(m2, part2);
    let m4 = lemma_high_contention_join_single_key_2(m3, part2);
    crate::stage::lemma_end(m4);
}

/// A column that is filled in the part `part1` of `test_atomic_counting`.
pub open spec fn atomic_counting_part1_words1() -> Seq<u64> {
    crate::stage::column(1000, |i: int| crate::stage::flag(((i % 2) == 0)))
}

/// A column that is filled in the part `part1` of `test_atomic_counting`.
pub open spec fn atomic_counting_part1_words2() -> Seq<u64> {
    crate::stage::column(1000, |i: int| i)
}

/// A column that is filled in the part `part2` of `test_atomic_counting`.
pub open spec fn atomic_counting_part2_words1() -> Seq<u64> {
    crate::stage::column(10000, |i: int| crate::stage::flag(((i % 10) == 0)))
}

/// A column that is filled in the part `part2` of `test_atomic_counting`.
pub open spec fn atomic_counting_part2_words2() -> Seq<u64> {
    crate::stage::column(10000, |i: int| i)
}

/// A column that is filled in the part `part3` of `test_atomic_counting`.
pub open spec fn atomic_counting_part3_words1() -> Seq<u64> {
    crate::stage::column(50000, |i: int| crate::stage::flag((i < 10000)))
}

/// A column that is filled in the part `part3` of `test_atomic_counting`.
pub open spec fn atomic_counting_part3_words2() -> Seq<u64> {
    crate::stage::column(50000, |i: int| i)
}

/// A column that is filled in the part `part4` of `test_atomic_counting`.
pub open spec fn atomic_counting_part4_words1() -> Seq<u64> {
    crate::stage::column(100000, |i: int| crate::stage::flag(((i % 7) == 0)))
}

/// A column that is filled in the part `part4` of `test_atomic_counting`.
pub open spec fn atomic_counting_part4_words2() -> Seq<u64> {
    crate::stage::column(100000, |i: int| i)
}

/// What the device is asked in piece 1 of the part `part1` of `test_atomic_counting`.
pub open spec fn atomic_counting_part1_1_asks() -> Seq<Ask> {
    seq![Ask::Sums(atomic_counting_part1_words1())]
}

/// Piece 1 of the part `part1` of `test_atomic_counting` asks what it should.
proof fn lemma_atomic_counting_part1_1(m: Moment, steps: Seq<Step>) -> (n: Moment)
    requires
        m.holds(),
        m.at == 0,
        m.used == 0,
        0 + 15 <= m.plan.steps.len(),
        forall|j: int| 0 <= j < 15 ==> m.plan.steps[0 + j] == #[trigger] steps[j],
        crate::stage::fills(steps[0], 0, num(1000), same_as(modulo(ix(), num(2)), num(0))),
        crate::stage::reckons(steps[1], 0),
        crate::stage::demands(steps[2], Request::PrefixSum { mask: 0, sums: 1, sum: 1 }),
        crate::stage::looks(steps[3]),
        crate::stage::works(steps[4], 2),
        crate::stage::looks(steps[5]),
        crate::stage::looks(steps[6]),
        crate::stage::fills(steps[7], 3, num(1000), ix()),
    ensures
        n.holds(),
        n.plan == m.plan,
        n.answers == m.answers,
        n.at == 0 + 8,
        n.used == m.used + 1,
        n.contents.columns[0] == atomic_counting_part1_words1(),
        n.contents.columns[3] == atomic_counting_part1_words2(),
        crate::stage::asks(m.plan, m.answers, 0, atomic_counting_part1_1_asks()),
{
    crate::stage::lemma_full(m);
    crate::stage::lemma_asks_none(m, 0);
    let list0 = Seq::<Ask>::empty();
    let words1 = atomic_counting_part1_words1();
    let word1 = same_as(modulo(ix(), num(2)), num(0));
    assert forall|i: int| 0 <= i < words1.len() implies crate::stage::meaning(
        word1,
        m.contents,
        i,
    ) as u64 == #[trigger] words1[i] by {
        reveal_with_fuel(crate::stage::meaning, 4);
    }
    let m1 = crate::stage::lemma_filled(m, steps[0], 0, num(1000), word1, words1);
    let m2 = crate::stage::lemma_reckon(m1, steps[1], 0);
    let m3 = crate::stage::lemma_columns(m2, steps[2], Ask::Sums(atomic_counting_part1_words1()));
    crate::stage::lemma_asks_more(m, 0, list0, Ask::Sums(atomic_counting_part1_words1()));
    let list1 = list0.push(Ask::Sums(atomic_counting_part1_words1()));
    let m4 = crate::stage::lemma_look(m3, steps[3]);
    let m5 = crate::stage::lemma_work(m4, steps[4], 2);
    let m6 = crate::stage::lemma_look(m5, steps[5]);
    let m7 = crate::stage::lemma_look(m6, steps[6]);
    let words2 = atomic_counting_part1_words2();
    let word8 = ix();
    assert forall|i: int| 0 <= i < words2.len() implies crate::stage::meaning(
        word8,
        m7.contents,
        i,
    ) as u64 == #[trigger] words2[i] by {
        reveal_with_fuel(crate::stage::meaning, 1);
    }
    let m8 = crate::stage::lemma_filled(m7, steps[7], 3, num(1000), word8, words2);
    assert(atomic_counting_part1_1_asks() == list1);
    m8
}

/// What the device is asked in piece 2 of the part `part1` of `test_atomic_counting`.
pub open spec fn atomic_counting_part1_2_asks() -> Seq<Ask> {
    let table1 = Thing::Table {
        layout: Layout::Val,
        scalar: Scalar::U32,
        columns: seq![atomic_counting_part1_words2()],
        turn: 1,
    };
    let kept1 = Thing::Kept { of: Box::new(table1), mask: atomic_counting_part1_words1(), turn: 2 };
    seq![
        Ask::Make(table1),
        Ask::Make(kept1),
        Ask::Rows(kept1),
        Ask::Words { of: kept1, column: 0, scalar: Scalar::U32 },
        Ask::Other(Request::Release { from: 0 }),
    ]
}

/// Piece 2 of the part `part1` of `test_atomic_counting` asks what it should.
proof fn lemma_atomic_counting_part1_2(m: Moment, steps: Seq<Step>) -> (n: Moment)
    requires
        m.holds(),
        m.at == 0 + 8,
        m.used == 1,
        0 + 15 <= m.plan.steps.len(),
        forall|j: int| 0 <= j < 15 ==> m.plan.steps[0 + j] == #[trigger] steps[j],
        crate::stage::demands(
            steps[8],
            Request::Create { into: 0, layout: Layout::Val, scalar: Scalar::U32, from: 3 },
        ),
        crate::stage::demands(steps[9], Request::Filter { of: 0, mask: 0, into: 1 }),
        crate::stage::counts(steps[10], 1),
        crate::stage::demands(
            steps[11],
            Request::Download { of: 1, column: 0, scalar: Scalar::U32, into: 4 },
        ),
        crate::stage::works(steps[12], 5),
        crate::stage::looks(steps[13]),
        crate::stage::inquires(steps[14], Request::Release { from: 0 }),
        m.contents.columns[0] == atomic_counting_part1_words1(),
        m.contents.columns[3] == atomic_counting_part1_words2(),
    ensures
        n.holds(),
        n.plan == m.plan,
        n.answers == m.answers,
        n.at == 0 + 15,
        n.used == m.used + 5,
        crate::stage::asks(m.plan, m.answers, 1, atomic_counting_part1_2_asks()),
{
    crate::stage::lemma_full(m);
    crate::stage::lemma_asks_none(m, 1);
    let list0 = Seq::<Ask>::empty();
    let table1 = Thing::Table {
        layout: Layout::Val,
        scalar: Scalar::U32,
        columns: seq![atomic_counting_part1_words2()],
        turn: 1,
    };
    let m1 = crate::stage::lemma_create(m, steps[8], 0, Layout::Val, Scalar::U32, 3, table1);
    crate::stage::lemma_asks_more(m, 1, list0, Ask::Make(table1));
    let list1 = list0.push(Ask::Make(table1));
    let kept1 = Thing::Kept { of: Box::new(table1), mask: atomic_counting_part1_words1(), turn: 2 };
    let m2 = crate::stage::lemma_filter(
        m1,
        steps[9],
        0,
        0,
        1,
        table1,
        atomic_counting_part1_words1(),
        kept1,
    );
    crate::stage::lemma_asks_more(m, 1, list1, Ask::Make(kept1));
    let list2 = list1.push(Ask::Make(kept1));
    let m3 = crate::stage::lemma_count(m2, steps[10], 1, kept1);
    crate::stage::lemma_asks_more(m, 1, list2, Ask::Rows(kept1));
    let list3 = list2.push(Ask::Rows(kept1));
    let m4 = crate::stage::lemma_download(m3, steps[11], 1, 0, Scalar::U32, 4, kept1);
    crate::stage::lemma_asks_more(
        m,
        1,
        list3,
        Ask::Words { of: kept1, column: 0, scalar: Scalar::U32 },
    );
    let list4 = list3.push(Ask::Words { of: kept1, column: 0, scalar: Scalar::U32 });
    let m5 = crate::stage::lemma_work(m4, steps[12], 5);
    let m6 = crate::stage::lemma_look(m5, steps[13]);
    let m7 = crate::stage::lemma_release(m6, steps[14], 0);
    crate::stage::lemma_asks_more(m, 1, list4, Ask::Other(Request::Release { from: 0 }));
    let list5 = list4.push(Ask::Other(Request::Release { from: 0 }));
    assert(atomic_counting_part1_2_asks() == list5);
    m7
}

/// The steps of the part `part1` of `test_atomic_counting`.
proof fn lemma_atomic_counting_part1_steps()
    ensures
        ({
            let steps = crate::categories::c12_atomics::counted_filter_steps(
                1000,
                same_as(modulo(ix(), num(2)), num(0)),
            );
            &&& steps.len() == 15
            &&& crate::stage::fills(steps[0], 0, num(1000), same_as(modulo(ix(), num(2)), num(0)))
            &&& crate::stage::reckons(steps[1], 0)
            &&& crate::stage::demands(steps[2], Request::PrefixSum { mask: 0, sums: 1, sum: 1 })
            &&& crate::stage::looks(steps[3])
            &&& crate::stage::works(steps[4], 2)
            &&& crate::stage::looks(steps[5])
            &&& crate::stage::looks(steps[6])
            &&& crate::stage::fills(steps[7], 3, num(1000), ix())
            &&& crate::stage::demands(
                steps[8],
                Request::Create { into: 0, layout: Layout::Val, scalar: Scalar::U32, from: 3 },
            )
            &&& crate::stage::demands(steps[9], Request::Filter { of: 0, mask: 0, into: 1 })
            &&& crate::stage::counts(steps[10], 1)
            &&& crate::stage::demands(
                steps[11],
                Request::Download { of: 1, column: 0, scalar: Scalar::U32, into: 4 },
            )
            &&& crate::stage::works(steps[12], 5)
            &&& crate::stage::looks(steps[13])
            &&& crate::stage::inquires(steps[14], Request::Release { from: 0 })
        }),
{
}

/// What the device is asked in piece 1 of the part `part2` of `test_atomic_counting`.
pub open spec fn atomic_counting_part2_1_asks() -> Seq<Ask> {
    seq![Ask::Sums(atomic_counting_part2_words1())]
}

/// Piece 1 of the part `part2` of `test_atomic_counting` asks what it should.
proof fn lemma_atomic_counting_part2_1(m: Moment, steps: Seq<Step>) -> (n: Moment)
    requires
        m.holds(),
        m.at == 15,
        m.used == 6,
        15 + 15 <= m.plan.steps.len(),
        forall|j: int| 0 <= j < 15 ==> m.plan.steps[15 + j] == #[trigger] steps[j],
        crate::stage::fills(steps[0], 0, num(10000), same_as(modulo(ix(), num(10)), num(0))),
        crate::stage::reckons(steps[1], 0),
        crate::stage::demands(steps[2], Request::PrefixSum { mask: 0, sums: 1, sum: 1 }),
        crate::stage::looks(steps[3]),
        crate::stage::works(steps[4], 2),
        crate::stage::looks(steps[5]),
        crate::stage::looks(steps[6]),
        crate::stage::fills(steps[7], 3, num(10000), ix()),
    ensures
        n.holds(),
        n.plan == m.plan,
        n.answers == m.answers,
        n.at == 15 + 8,
        n.used == m.used + 1,
        n.contents.columns[0] == atomic_counting_part2_words1(),
        n.contents.columns[3] == atomic_counting_part2_words2(),
        crate::stage::asks(m.plan, m.answers, 6, atomic_counting_part2_1_asks()),
{
    crate::stage::lemma_full(m);
    crate::stage::lemma_asks_none(m, 6);
    let list0 = Seq::<Ask>::empty();
    let words1 = atomic_counting_part2_words1();
    let word1 = same_as(modulo(ix(), num(10)), num(0));
    assert forall|i: int| 0 <= i < words1.len() implies crate::stage::meaning(
        word1,
        m.contents,
        i,
    ) as u64 == #[trigger] words1[i] by {
        reveal_with_fuel(crate::stage::meaning, 4);
    }
    let m1 = crate::stage::lemma_filled(m, steps[0], 0, num(10000), word1, words1);
    let m2 = crate::stage::lemma_reckon(m1, steps[1], 0);
    let m3 = crate::stage::lemma_columns(m2, steps[2], Ask::Sums(atomic_counting_part2_words1()));
    crate::stage::lemma_asks_more(m, 6, list0, Ask::Sums(atomic_counting_part2_words1()));
    let list1 = list0.push(Ask::Sums(atomic_counting_part2_words1()));
    let m4 = crate::stage::lemma_look(m3, steps[3]);
    let m5 = crate::stage::lemma_work(m4, steps[4], 2);
    let m6 = crate::stage::lemma_look(m5, steps[5]);
    let m7 = crate::stage::lemma_look(m6, steps[6]);
    let words2 = atomic_counting_part2_words2();
    let word8 = ix();
    assert forall|i: int| 0 <= i < words2.len() implies crate::stage::meaning(
        word8,
        m7.contents,
        i,
    ) as u64 == #[trigger] words2[i] by {
        reveal_with_fuel(crate::stage::meaning, 1);
    }
    let m8 = crate::stage::lemma_filled(m7, steps[7], 3, num(10000), word8, words2);
    assert(atomic_counting_part2_1_asks() == list1);
    m8
}

/// What the device is asked in piece 2 of the part `part2` of `test_atomic_counting`.
pub open spec fn atomic_counting_part2_2_asks() -> Seq<Ask> {
    let table1 = Thing::Table {
        layout: Layout::Val,
        scalar: Scalar::U32,
        columns: seq![atomic_counting_part2_words2()],
        turn: 7,
    };
    let kept1 = Thing::Kept { of: Box::new(table1), mask: atomic_counting_part2_words1(), turn: 8 };
    seq![
        Ask::Make(table1),
        Ask::Make(kept1),
        Ask::Rows(kept1),
        Ask::Words { of: kept1, column: 0, scalar: Scalar::U32 },
        Ask::Other(Request::Release { from: 0 }),
    ]
}

/// Piece 2 of the part `part2` of `test_atomic_counting` asks what it should.
proof fn lemma_atomic_counting_part2_2(m: Moment, steps: Seq<Step>) -> (n: Moment)
    requires
        m.holds(),
        m.at == 15 + 8,
        m.used == 7,
        15 + 15 <= m.plan.steps.len(),
        forall|j: int| 0 <= j < 15 ==> m.plan.steps[15 + j] == #[trigger] steps[j],
        crate::stage::demands(
            steps[8],
            Request::Create { into: 0, layout: Layout::Val, scalar: Scalar::U32, from: 3 },
        ),
        crate::stage::demands(steps[9], Request::Filter { of: 0, mask: 0, into: 1 }),
        crate::stage::counts(steps[10], 1),
        crate::stage::demands(
            steps[11],
            Request::Download { of: 1, column: 0, scalar: Scalar::U32, into: 4 },
        ),
        crate::stage::works(steps[12], 5),
        crate::stage::looks(steps[13]),
        crate::stage::inquires(steps[14], Request::Release { from: 0 }),
        m.contents.columns[0] == atomic_counting_part2_words1(),
        m.contents.columns[3] == atomic_counting_part2_words2(),
    ensures
        n.holds(),
        n.plan == m.plan,
        n.answers == m.answers,
        n.at == 15 + 15,
        n.used == m.used + 5,
        crate::stage::asks(m.plan, m.answers, 7, atomic_counting_part2_2_asks()),
{
    crate::stage::lemma_full(m);
    crate::stage::lemma_asks_none(m, 7);
    let list0 = Seq::<Ask>::empty();
    let table1 = Thing::Table {
        layout: Layout::Val,
        scalar: Scalar::U32,
        columns: seq![atomic_counting_part2_words2()],
        turn: 7,
    };
    let m1 = crate::stage::lemma_create(m, steps[8], 0, Layout::Val, Scalar::U32, 3, table1);
    crate::stage::lemma_asks_more(m, 7, list0, Ask::Make(table1));
    let list1 = list0.push(Ask::Make(table1));
    let kept1 = Thing::Kept { of: Box::new(table1), mask: atomic_counting_part2_words1(), turn: 8 };
    let m2 = crate::stage::lemma_filter(
        m1,
        steps[9],
        0,
        0,
        1,
        table1,
        atomic_counting_part2_words1(),
        kept1,
    );
    crate::stage::lemma_asks_more(m, 7, list1, Ask::Make(kept1));
    let list2 = list1.push(Ask::Make(kept1));
    let m3 = crate::stage::lemma_count(m2, steps[10], 1, kept1);
    crate::stage::lemma_asks_more(m, 7, list2, Ask::Rows(kept1));
    let list3 = list2.push(Ask::Rows(kept1));
    let m4 = crate::stage::lemma_download(m3, steps[11], 1, 0, Scalar::U32, 4, kept1);
    crate::stage::lemma_asks_more(
        m,
        7,
        list3,
        Ask::Words { of: kept1, column: 0, scalar: Scalar::U32 },
    );
    let list4 = list3.push(Ask::Words { of: kept1, column: 0, scalar: Scalar::U32 });
    let m5 = crate::stage::lemma_work(m4, steps[12], 5);
    let m6 = crate::stage::lemma_look(m5, steps[13]);
    let m7 = crate::stage::lemma_release(m6, steps[14], 0);
    crate::stage::lemma_asks_more(m, 7, list4, Ask::Other(Request::Release { from: 0 }));
    let list5 = list4.push(Ask::Other(Request::Release { from: 0 }));
    assert(atomic_counting_part2_2_asks() == list5);
    m7
}

/// The steps of the part `part2` of `test_atomic_counting`.
proof fn lemma_atomic_counting_part2_steps()
    ensures
        ({
            let steps = crate::categories::c12_atomics::counted_filter_steps(
                10000,
                same_as(modulo(ix(), num(10)), num(0)),
            );
            &&& steps.len() == 15
            &&& crate::stage::fills(steps[0], 0, num(10000), same_as(modulo(ix(), num(10)), num(0)))
            &&& crate::stage::reckons(steps[1], 0)
            &&& crate::stage::demands(steps[2], Request::PrefixSum { mask: 0, sums: 1, sum: 1 })
            &&& crate::stage::looks(steps[3])
            &&& crate::stage::works(steps[4], 2)
            &&& crate::stage::looks(steps[5])
            &&& crate::stage::looks(steps[6])
            &&& crate::stage::fills(steps[7], 3, num(10000), ix())
            &&& crate::stage::demands(
                steps[8],
                Request::Create { into: 0, layout: Layout::Val, scalar: Scalar::U32, from: 3 },
            )
            &&& crate::stage::demands(steps[9], Request::Filter { of: 0, mask: 0, into: 1 })
            &&& crate::stage::counts(steps[10], 1)
            &&& crate::stage::demands(
                steps[11],
                Request::Download { of: 1, column: 0, scalar: Scalar::U32, into: 4 },
            )
            &&& crate::stage::works(steps[12], 5)
            &&& crate::stage::looks(steps[13])
            &&& crate::stage::inquires(steps[14], Request::Release { from: 0 })
        }),
{
}

/// What the device is asked in piece 1 of the part `part3` of `test_atomic_counting`.
pub open spec fn atomic_counting_part3_1_asks() -> Seq<Ask> {
    seq![Ask::Sums(atomic_counting_part3_words1())]
}

/// Piece 1 of the part `part3` of `test_atomic_counting` asks what it should.
proof fn lemma_atomic_counting_part3_1(m: Moment, steps: Seq<Step>) -> (n: Moment)
    requires
        m.holds(),
        m.at == 30,
        m.used == 12,
        30 + 15 <= m.plan.steps.len(),
        forall|j: int| 0 <= j < 15 ==> m.plan.steps[30 + j] == #[trigger] steps[j],
        crate::stage::fills(steps[0], 0, num(50000), lt(ix(), num(10000))),
        crate::stage::reckons(steps[1], 0),
        crate::stage::demands(steps[2], Request::PrefixSum { mask: 0, sums: 1, sum: 1 }),
        crate::stage::looks(steps[3]),
        crate::stage::works(steps[4], 2),
        crate::stage::looks(steps[5]),
        crate::stage::looks(steps[6]),
        crate::stage::fills(steps[7], 3, num(50000), ix()),
    ensures
        n.holds(),
        n.plan == m.plan,
        n.answers == m.answers,
        n.at == 30 + 8,
        n.used == m.used + 1,
        n.contents.columns[0] == atomic_counting_part3_words1(),
        n.contents.columns[3] == atomic_counting_part3_words2(),
        crate::stage::asks(m.plan, m.answers, 12, atomic_counting_part3_1_asks()),
{
    crate::stage::lemma_full(m);
    crate::stage::lemma_asks_none(m, 12);
    let list0 = Seq::<Ask>::empty();
    let words1 = atomic_counting_part3_words1();
    let word1 = lt(ix(), num(10000));
    assert forall|i: int| 0 <= i < words1.len() implies crate::stage::meaning(
        word1,
        m.contents,
        i,
    ) as u64 == #[trigger] words1[i] by {
        reveal_with_fuel(crate::stage::meaning, 3);
    }
    let m1 = crate::stage::lemma_filled(m, steps[0], 0, num(50000), word1, words1);
    let m2 = crate::stage::lemma_reckon(m1, steps[1], 0);
    let m3 = crate::stage::lemma_columns(m2, steps[2], Ask::Sums(atomic_counting_part3_words1()));
    crate::stage::lemma_asks_more(m, 12, list0, Ask::Sums(atomic_counting_part3_words1()));
    let list1 = list0.push(Ask::Sums(atomic_counting_part3_words1()));
    let m4 = crate::stage::lemma_look(m3, steps[3]);
    let m5 = crate::stage::lemma_work(m4, steps[4], 2);
    let m6 = crate::stage::lemma_look(m5, steps[5]);
    let m7 = crate::stage::lemma_look(m6, steps[6]);
    let words2 = atomic_counting_part3_words2();
    let word8 = ix();
    assert forall|i: int| 0 <= i < words2.len() implies crate::stage::meaning(
        word8,
        m7.contents,
        i,
    ) as u64 == #[trigger] words2[i] by {
        reveal_with_fuel(crate::stage::meaning, 1);
    }
    let m8 = crate::stage::lemma_filled(m7, steps[7], 3, num(50000), word8, words2);
    assert(atomic_counting_part3_1_asks() == list1);
    m8
}

/// What the device is asked in piece 2 of the part `part3` of `test_atomic_counting`.
pub open spec fn atomic_counting_part3_2_asks() -> Seq<Ask> {
    let table1 = Thing::Table {
        layout: Layout::Val,
        scalar: Scalar::U32,
        columns: seq![atomic_counting_part3_words2()],
        turn: 13,
    };
    let kept1 = Thing::Kept {
        of: Box::new(table1),
        mask: atomic_counting_part3_words1(),
        turn: 14,
    };
    seq![
        Ask::Make(table1),
        Ask::Make(kept1),
        Ask::Rows(kept1),
        Ask::Words { of: kept1, column: 0, scalar: Scalar::U32 },
        Ask::Other(Request::Release { from: 0 }),
    ]
}

/// Piece 2 of the part `part3` of `test_atomic_counting` asks what it should.
proof fn lemma_atomic_counting_part3_2(m: Moment, steps: Seq<Step>) -> (n: Moment)
    requires
        m.holds(),
        m.at == 30 + 8,
        m.used == 13,
        30 + 15 <= m.plan.steps.len(),
        forall|j: int| 0 <= j < 15 ==> m.plan.steps[30 + j] == #[trigger] steps[j],
        crate::stage::demands(
            steps[8],
            Request::Create { into: 0, layout: Layout::Val, scalar: Scalar::U32, from: 3 },
        ),
        crate::stage::demands(steps[9], Request::Filter { of: 0, mask: 0, into: 1 }),
        crate::stage::counts(steps[10], 1),
        crate::stage::demands(
            steps[11],
            Request::Download { of: 1, column: 0, scalar: Scalar::U32, into: 4 },
        ),
        crate::stage::works(steps[12], 5),
        crate::stage::looks(steps[13]),
        crate::stage::inquires(steps[14], Request::Release { from: 0 }),
        m.contents.columns[0] == atomic_counting_part3_words1(),
        m.contents.columns[3] == atomic_counting_part3_words2(),
    ensures
        n.holds(),
        n.plan == m.plan,
        n.answers == m.answers,
        n.at == 30 + 15,
        n.used == m.used + 5,
        crate::stage::asks(m.plan, m.answers, 13, atomic_counting_part3_2_asks()),
{
    crate::stage::lemma_full(m);
    crate::stage::lemma_asks_none(m, 13);
    let list0 = Seq::<Ask>::empty();
    let table1 = Thing::Table {
        layout: Layout::Val,
        scalar: Scalar::U32,
        columns: seq![atomic_counting_part3_words2()],
        turn: 13,
    };
    let m1 = crate::stage::lemma_create(m, steps[8], 0, Layout::Val, Scalar::U32, 3, table1);
    crate::stage::lemma_asks_more(m, 13, list0, Ask::Make(table1));
    let list1 = list0.push(Ask::Make(table1));
    let kept1 = Thing::Kept {
        of: Box::new(table1),
        mask: atomic_counting_part3_words1(),
        turn: 14,
    };
    let m2 = crate::stage::lemma_filter(
        m1,
        steps[9],
        0,
        0,
        1,
        table1,
        atomic_counting_part3_words1(),
        kept1,
    );
    crate::stage::lemma_asks_more(m, 13, list1, Ask::Make(kept1));
    let list2 = list1.push(Ask::Make(kept1));
    let m3 = crate::stage::lemma_count(m2, steps[10], 1, kept1);
    crate::stage::lemma_asks_more(m, 13, list2, Ask::Rows(kept1));
    let list3 = list2.push(Ask::Rows(kept1));
    let m4 = crate::stage::lemma_download(m3, steps[11], 1, 0, Scalar::U32, 4, kept1);
    crate::stage::lemma_asks_more(
        m,
        13,
        list3,
        Ask::Words { of: kept1, column: 0, scalar: Scalar::U32 },
    );
    let list4 = list3.push(Ask::Words { of: kept1, column: 0, scalar: Scalar::U32 });
    let m5 = crate::stage::lemma_work(m4, steps[12], 5);
    let m6 = crate::stage::lemma_look(m5, steps[13]);
    let m7 = crate::stage::lemma_release(m6, steps[14], 0);
    crate::stage::lemma_asks_more(m, 13, list4, Ask::Other(Request::Release { from: 0 }));
    let list5 = list4.push(Ask::Other(Request::Release { from: 0 }));
    assert(atomic_counting_part3_2_asks() == list5);
    m7
}

/// The steps of the part `part3` of `test_atomic_counting`.
proof fn lemma_atomic_counting_part3_steps()
    ensures
        ({
            let steps = crate::categories::c12_atomics::counted_filter_steps(
                50000,
                lt(ix(), num(10000)),
            );
            &&& steps.len() == 15
            &&& crate::stage::fills(steps[0], 0, num(50000), lt(ix(), num(10000)))
            &&& crate::stage::reckons(steps[1], 0)
            &&& crate::stage::demands(steps[2], Request::PrefixSum { mask: 0, sums: 1, sum: 1 })
            &&& crate::stage::looks(steps[3])
            &&& crate::stage::works(steps[4], 2)
            &&& crate::stage::looks(steps[5])
            &&& crate::stage::looks(steps[6])
            &&& crate::stage::fills(steps[7], 3, num(50000), ix())
            &&& crate::stage::demands(
                steps[8],
                Request::Create { into: 0, layout: Layout::Val, scalar: Scalar::U32, from: 3 },
            )
            &&& crate::stage::demands(steps[9], Request::Filter { of: 0, mask: 0, into: 1 })
            &&& crate::stage::counts(steps[10], 1)
            &&& crate::stage::demands(
                steps[11],
                Request::Download { of: 1, column: 0, scalar: Scalar::U32, into: 4 },
            )
            &&& crate::stage::works(steps[12], 5)
            &&& crate::stage::looks(steps[13])
            &&& crate::stage::inquires(steps[14], Request::Release { from: 0 })
        }),
{
}

/// What the device is asked in piece 1 of the part `part4` of `test_atomic_counting`.
pub open spec fn atomic_counting_part4_1_asks() -> Seq<Ask> {
    seq![Ask::Sums(atomic_counting_part4_words1())]
}

/// Piece 1 of the part `part4` of `test_atomic_counting` asks what it should.
proof fn lemma_atomic_counting_part4_1(m: Moment, steps: Seq<Step>) -> (n: Moment)
    requires
        m.holds(),
        m.at == 45,
        m.used == 18,
        45 + 15 <= m.plan.steps.len(),
        forall|j: int| 0 <= j < 15 ==> m.plan.steps[45 + j] == #[trigger] steps[j],
        crate::stage::fills(steps[0], 0, num(100000), same_as(modulo(ix(), num(7)), num(0))),
        crate::stage::reckons(steps[1], 0),
        crate::stage::demands(steps[2], Request::PrefixSum { mask: 0, sums: 1, sum: 1 }),
        crate::stage::looks(steps[3]),
        crate::stage::works(steps[4], 2),
        crate::stage::looks(steps[5]),
        crate::stage::looks(steps[6]),
        crate::stage::fills(steps[7], 3, num(100000), ix()),
    ensures
        n.holds(),
        n.plan == m.plan,
        n.answers == m.answers,
        n.at == 45 + 8,
        n.used == m.used + 1,
        n.contents.columns[0] == atomic_counting_part4_words1(),
        n.contents.columns[3] == atomic_counting_part4_words2(),
        crate::stage::asks(m.plan, m.answers, 18, atomic_counting_part4_1_asks()),
{
    crate::stage::lemma_full(m);
    crate::stage::lemma_asks_none(m, 18);
    let list0 = Seq::<Ask>::empty();
    let words1 = atomic_counting_part4_words1();
    let word1 = same_as(modulo(ix(), num(7)), num(0));
    assert forall|i: int| 0 <= i < words1.len() implies crate::stage::meaning(
        word1,
        m.contents,
        i,
    ) as u64 == #[trigger] words1[i] by {
        reveal_with_fuel(crate::stage::meaning, 4);
    }
    let m1 = crate::stage::lemma_filled(m, steps[0], 0, num(100000), word1, words1);
    let m2 = crate::stage::lemma_reckon(m1, steps[1], 0);
    let m3 = crate::stage::lemma_columns(m2, steps[2], Ask::Sums(atomic_counting_part4_words1()));
    crate::stage::lemma_asks_more(m, 18, list0, Ask::Sums(atomic_counting_part4_words1()));
    let list1 = list0.push(Ask::Sums(atomic_counting_part4_words1()));
    let m4 = crate::stage::lemma_look(m3, steps[3]);
    let m5 = crate::stage::lemma_work(m4, steps[4], 2);
    let m6 = crate::stage::lemma_look(m5, steps[5]);
    let m7 = crate::stage::lemma_look(m6, steps[6]);
    let words2 = atomic_counting_part4_words2();
    let word8 = ix();
    assert forall|i: int| 0 <= i < words2.len() implies crate::stage::meaning(
        word8,
        m7.contents,
        i,
    ) as u64 == #[trigger] words2[i] by {
        reveal_with_fuel(crate::stage::meaning, 1);
    }
    let m8 = crate::stage::lemma_filled(m7, steps[7], 3, num(100000), word8, words2);
    assert(atomic_counting_part4_1_asks() == list1);
    m8
}

/// What the device is asked in piece 2 of the part `part4` of `test_atomic_counting`.
pub open spec fn atomic_counting_part4_2_asks() -> Seq<Ask> {
    let table1 = Thing::Table {
        layout: Layout::Val,
        scalar: Scalar::U32,
        columns: seq![atomic_counting_part4_words2()],
        turn: 19,
    };
    let kept1 = Thing::Kept {
        of: Box::new(table1),
        mask: atomic_counting_part4_words1(),
        turn: 20,
    };
    seq![
        Ask::Make(table1),
        Ask::Make(kept1),
        Ask::Rows(kept1),
        Ask::Words { of: kept1, column: 0, scalar: Scalar::U32 },
        Ask::Other(Request::Release { from: 0 }),
    ]
}

/// Piece 2 of the part `part4` of `test_atomic_counting` asks what it should.
proof fn lemma_atomic_counting_part4_2(m: Moment, steps: Seq<Step>) -> (n: Moment)
    requires
        m.holds(),
        m.at == 45 + 8,
        m.used == 19,
        45 + 15 <= m.plan.steps.len(),
        forall|j: int| 0 <= j < 15 ==> m.plan.steps[45 + j] == #[trigger] steps[j],
        crate::stage::demands(
            steps[8],
            Request::Create { into: 0, layout: Layout::Val, scalar: Scalar::U32, from: 3 },
        ),
        crate::stage::demands(steps[9], Request::Filter { of: 0, mask: 0, into: 1 }),
        crate::stage::counts(steps[10], 1),
        crate::stage::demands(
            steps[11],
            Request::Download { of: 1, column: 0, scalar: Scalar::U32, into: 4 },
        ),
        crate::stage::works(steps[12], 5),
        crate::stage::looks(steps[13]),
        crate::stage::inquires(steps[14], Request::Release { from: 0 }),
        m.contents.columns[0] == atomic_counting_part4_words1(),
        m.contents.columns[3] == atomic_counting_part4_words2(),
    ensures
        n.holds(),
        n.plan == m.plan,
        n.answers == m.answers,
        n.at == 45 + 15,
        n.used == m.used + 5,
        crate::stage::asks(m.plan, m.answers, 19, atomic_counting_part4_2_asks()),
{
    crate::stage::lemma_full(m);
    crate::stage::lemma_asks_none(m, 19);
    let list0 = Seq::<Ask>::empty();
    let table1 = Thing::Table {
        layout: Layout::Val,
        scalar: Scalar::U32,
        columns: seq![atomic_counting_part4_words2()],
        turn: 19,
    };
    let m1 = crate::stage::lemma_create(m, steps[8], 0, Layout::Val, Scalar::U32, 3, table1);
    crate::stage::lemma_asks_more(m, 19, list0, Ask::Make(table1));
    let list1 = list0.push(Ask::Make(table1));
    let kept1 = Thing::Kept {
        of: Box::new(table1),
        mask: atomic_counting_part4_words1(),
        turn: 20,
    };
    let m2 = crate::stage::lemma_filter(
        m1,
        steps[9],
        0,
        0,
        1,
        table1,
        atomic_counting_part4_words1(),
        kept1,
    );
    crate::stage::lemma_asks_more(m, 19, list1, Ask::Make(kept1));
    let list2 = list1.push(Ask::Make(kept1));
    let m3 = crate::stage::lemma_count(m2, steps[10], 1, kept1);
    crate::stage::lemma_asks_more(m, 19, list2, Ask::Rows(kept1));
    let list3 = list2.push(Ask::Rows(kept1));
    let m4 = crate::stage::lemma_download(m3, steps[11], 1, 0, Scalar::U32, 4, kept1);
    crate::stage::lemma_asks_more(
        m,
        19,
        list3,
        Ask::Words { of: kept1, column: 0, scalar: Scalar::U32 },
    );
    let list4 = list3.push(Ask::Words { of: kept1, column: 0, scalar: Scalar::U32 });
    let m5 = crate::stage::lemma_work(m4, steps[12], 5);
    let m6 = crate::stage::lemma_look(m5, steps[13]);
    let m7 = crate::stage::lemma_release(m6, steps[14], 0);
    crate::stage::lemma_asks_more(m, 19, list4, Ask::Other(Request::Release { from: 0 }));
    let list5 = list4.push(Ask::Other(Request::Release { from: 0 }));
    assert(atomic_counting_part4_2_asks() == list5);
    m7
}

/// The steps of the part `part4` of `test_atomic_counting`.
proof fn lemma_atomic_counting_part4_steps()
    ensures
        ({
            let steps = crate::categories::c12_atomics::counted_filter_steps(
                100000,
                same_as(modulo(ix(), num(7)), num(0)),
            );
            &&& steps.len() == 15
            &&& crate::stage::fills(steps[0], 0, num(100000), same_as(modulo(ix(), num(7)), num(0)))
            &&& crate::stage::reckons(steps[1], 0)
            &&& crate::stage::demands(steps[2], Request::PrefixSum { mask: 0, sums: 1, sum: 1 })
            &&& crate::stage::looks(steps[3])
            &&& crate::stage::works(steps[4], 2)
            &&& crate::stage::looks(steps[5])
            &&& crate::stage::looks(steps[6])
            &&& crate::stage::fills(steps[7], 3, num(100000), ix())
            &&& crate::stage::demands(
                steps[8],
                Request::Create { into: 0, layout: Layout::Val, scalar: Scalar::U32, from: 3 },
            )
            &&& crate::stage::demands(steps[9], Request::Filter { of: 0, mask: 0, into: 1 })
            &&& crate::stage::counts(steps[10], 1)
            &&& crate::stage::demands(
                steps[11],
                Request::Download { of: 1, column: 0, scalar: Scalar::U32, into: 4 },
            )
            &&& crate::stage::works(steps[12], 5)
            &&& crate::stage::looks(steps[13])
            &&& crate::stage::inquires(steps[14], Request::Release { from: 0 })
        }),
{
}

/// What the device is asked in the part `end` of `test_atomic_counting`.
pub open spec fn atomic_counting_end_asks() -> Seq<Ask> {
    seq![Ask::Other(Request::Sync)]
}

/// The part `end` of `test_atomic_counting` asks what it should.
proof fn lemma_atomic_counting_end(m: Moment, steps: Seq<Step>) -> (n: Moment)
    requires
        m.holds(),
        m.at == 60,
        m.used == 24,
        60 + 1 <= m.plan.steps.len(),
        forall|j: int| 0 <= j < 1 ==> m.plan.steps[60 + j] == #[trigger] steps[j],
        crate::stage::demands(steps[0], Request::Sync),
    ensures
        n.holds(),
        n.plan == m.plan,
        n.answers == m.answers,
        n.at == 60 + 1,
        n.used == m.used + 1,
        crate::stage::asks(m.plan, m.answers, 24, atomic_counting_end_asks()),
{
    crate::stage::lemma_full(m);
    crate::stage::lemma_asks_none(m, 24);
    let list0 = Seq::<Ask>::empty();
    let m1 = crate::stage::lemma_sync(m, steps[0]);
    crate::stage::lemma_asks_more(m, 24, list0, Ask::Other(Request::Sync));
    let list1 = list0.push(Ask::Other(Request::Sync));
    assert(atomic_counting_end_asks() == list1);
    m1
}

/// The steps of the part `end` of `test_atomic_counting`.
proof fn lemma_atomic_counting_end_steps()
    ensures
        ({
            let steps = crate::categories::c12_atomics::atomic_counting_end_steps();
            &&& steps.len() == 1
            &&& crate::stage::demands(steps[0], Request::Sync)
        }),
{
}

/// In a run of `test_atomic_counting` that passes the device is asked this, in this order, and
/// nothing else: each request about what an earlier one made is about that, and about what was
/// uploaded for it.
pub proof fn law_atomic_counting_asks_about_what_it_made(answers: Seq<Answer>)
    requires
        crate::stage::passes(
            crate::script::plan(
                "test_atomic_counting",
                crate::categories::c12_atomics::atomic_counting_steps(),
            ),
            answers,
        ),
    ensures
        crate::stage::asks(
            crate::script::plan(
                "test_atomic_counting",
                crate::categories::c12_atomics::atomic_counting_steps(),
            ),
            answers,
            0,
            atomic_counting_part1_1_asks(),
        ),
        crate::stage::asks(
            crate::script::plan(
                "test_atomic_counting",
                crate::categories::c12_atomics::atomic_counting_steps(),
            ),
            answers,
            1,
            atomic_counting_part1_2_asks(),
        ),
        crate::stage::asks(
            crate::script::plan(
                "test_atomic_counting",
                crate::categories::c12_atomics::atomic_counting_steps(),
            ),
            answers,
            6,
            atomic_counting_part2_1_asks(),
        ),
        crate::stage::asks(
            crate::script::plan(
                "test_atomic_counting",
                crate::categories::c12_atomics::atomic_counting_steps(),
            ),
            answers,
            7,
            atomic_counting_part2_2_asks(),
        ),
        crate::stage::asks(
            crate::script::plan(
                "test_atomic_counting",
                crate::categories::c12_atomics::atomic_counting_steps(),
            ),
            answers,
            12,
            atomic_counting_part3_1_asks(),
        ),
        crate::stage::asks(
            crate::script::plan(
                "test_atomic_counting",
                crate::categories::c12_atomics::atomic_counting_steps(),
            ),
            answers,
            13,
            atomic_counting_part3_2_asks(),
        ),
        crate::stage::asks(
            crate::script::plan(
                "test_atomic_counting",
                crate::categories::c12_atomics::atomic_counting_steps(),
            ),
            answers,
            18,
            atomic_counting_part4_1_asks(),
        ),
        crate::stage::asks(
            crate::script::plan(
                "test_atomic_counting",
                crate::categories::c12_atomics::atomic_counting_steps(),
            ),
            answers,
            19,
            atomic_counting_part4_2_asks(),
        ),
        crate::stage::asks(
            crate::script::plan(
                "test_atomic_counting",
                crate::categories::c12_atomics::atomic_counting_steps(),
            ),
            answers,
            24,
            atomic_counting_end_asks(),
        ),
        crate::stage::asked(
            crate::script::plan(
                "test_atomic_counting",
                crate::categories::c12_atomics::atomic_counting_steps(),
            ),
            answers,
            25,
        ) is None,
{
    let plan = crate::script::plan(
        "test_atomic_counting",
        crate::categories::c12_atomics::atomic_counting_steps(),
    );
    let part1 = crate::categories::c12_atomics::counted_filter_steps(
        1000,
        same_as(modulo(ix(), num(2)), num(0)),
    );
    lemma_atomic_counting_part1_steps();
    let part2 = crate::categories::c12_atomics::counted_filter_steps(
        10000,
        same_as(modulo(ix(), num(10)), num(0)),
    );
    lemma_atomic_counting_part2_steps();
    let part3 = crate::categories::c12_atomics::counted_filter_steps(50000, lt(ix(), num(10000)));
    lemma_atomic_counting_part3_steps();
    let part4 = crate::categories::c12_atomics::counted_filter_steps(
        100000,
        same_as(modulo(ix(), num(7)), num(0)),
    );
    lemma_atomic_counting_part4_steps();
    let part5 = crate::categories::c12_atomics::atomic_counting_end_steps();
    lemma_atomic_counting_end_steps();
    let whole1 = part1;
    let whole2 = whole1 + part2;
    let whole3 = whole2 + part3;
    let whole4 = whole3 + part4;
    let whole5 = whole4 + part5;
    assert(plan.steps == whole5);
    let m0 = crate::stage::lemma_start(plan, answers);
    assert forall|j: int| 0 <= j < 15 implies plan.steps[0 + j] == #[trigger] part1[j] by {}
    let m1 = lemma_atomic_counting_part1_1(m0, part1);
    let m2 = lemma_atomic_counting_part1_2(m1, part1);
    assert forall|j: int| 0 <= j < 15 implies plan.steps[15 + j] == #[trigger] part2[j] by {}
    let m3 = lemma_atomic_counting_part2_1(m2, part2);
    let m4 = lemma_atomic_counting_part2_2(m3, part2);
    assert forall|j: int| 0 <= j < 15 implies plan.steps[30 + j] == #[trigger] part3[j] by {}
    let m5 = lemma_atomic_counting_part3_1(m4, part3);
    let m6 = lemma_atomic_counting_part3_2(m5, part3);
    assert forall|j: int| 0 <= j < 15 implies plan.steps[45 + j] == #[trigger] part4[j] by {}
    let m7 = lemma_atomic_counting_part4_1(m6, part4);
    let m8 = lemma_atomic_counting_part4_2(m7, part4);
    assert forall|j: int| 0 <= j < 1 implies plan.steps[60 + j] == #[trigger] part5[j] by {}
    let m9 = lemma_atomic_counting_end(m8, part5);
    crate::stage::lemma_end(m9);
}

} // verus!
