//! What these tests ask the device in runs that pass: `test_hash_join_atomics`,
//! `test_filter_scan_sync`.

use vstd::prelude::*;
use crate::expr::{ix, lt, modulo, num, over, same_as, times};
use crate::machine::Answer;
use crate::scalar::Scalar;
use crate::script::{Layout, Request, Step};
use crate::stage::{Ask, Moment, Thing};

verus! {

/// What is joined in the part `all` of `test_hash_join_atomics`.
pub open spec fn hash_join_atomics_all_joined1() -> Thing {
    Thing::Joined {
        left: Box::new(
            Thing::Table {
                layout: Layout::KeyLval,
                scalar: Scalar::U32,
                columns: seq![
                    crate::stage::column(10000, |i: int| i),
                    crate::stage::column(10000, |i: int| i * 10),
                ],
                turn: 0,
            },
        ),
        right: Box::new(
            Thing::Table {
                layout: Layout::KeyRval,
                scalar: Scalar::U32,
                columns: seq![
                    crate::stage::column(5000, |i: int| i * 2),
                    crate::stage::column(5000, |i: int| i * 100),
                ],
                turn: 1,
            },
        ),
        turn: 2,
    }
}

/// What the device is asked in piece 1 of the part `all` of `test_hash_join_atomics`.
pub open spec fn hash_join_atomics_all_1_asks() -> Seq<Ask> {
    let words1 = crate::stage::column(10000, |i: int| i);
    let words2 = crate::stage::column(10000, |i: int| i * 10);
    let words3 = crate::stage::column(5000, |i: int| i * 2);
    let words4 = crate::stage::column(5000, |i: int| i * 100);
    let table1 = Thing::Table {
        layout: Layout::KeyLval,
        scalar: Scalar::U32,
        columns: seq![words1, words2],
        turn: 0,
    };
    let table2 = Thing::Table {
        layout: Layout::KeyRval,
        scalar: Scalar::U32,
        columns: seq![words3, words4],
        turn: 1,
    };
    seq![
        Ask::Make(table1),
        Ask::Make(table2),
        Ask::Make(hash_join_atomics_all_joined1()),
        Ask::Rows(hash_join_atomics_all_joined1()),
    ]
}

/// Piece 1 of the part `all` of `test_hash_join_atomics` asks what it should.
proof fn lemma_hash_join_atomics_all_1(m: Moment, steps: Seq<Step>) -> (n: Moment)
    requires
        m.holds(),
        m.at == 0,
        m.used == 0,
        0 + 14 <= m.plan.steps.len(),
        forall|j: int| 0 <= j < 14 ==> m.plan.steps[0 + j] == #[trigger] steps[j],
        crate::stage::fills(steps[0], 0, num(10000), ix()),
        crate::stage::fills(steps[1], 1, num(10000), times(ix(), num(10))),
        crate::stage::fills(steps[2], 2, num(5000), times(ix(), num(2))),
        crate::stage::fills(steps[3], 3, num(5000), times(ix(), num(100))),
        crate::stage::demands(
            steps[4],
            Request::Create { into: 0, layout: Layout::KeyLval, scalar: Scalar::U32, from: 0 },
        ),
        crate::stage::demands(
            steps[5],
            Request::Create { into: 1, layout: Layout::KeyRval, scalar: Scalar::U32, from: 2 },
        ),
        crate::stage::demands(steps[6], Request::Join { left: 0, right: 1, into: 2 }),
        crate::stage::counts(steps[7], 2),
    ensures
        n.holds(),
        n.plan == m.plan,
        n.answers == m.answers,
        n.at == 0 + 8,
        n.used == m.used + 4,
        n.scene.buffer(2) == hash_join_atomics_all_joined1(),
        crate::stage::asks(m.plan, m.answers, 0, hash_join_atomics_all_1_asks()),
{
    crate::stage::lemma_full(m);
    crate::stage::lemma_asks_none(m, 0);
    let list0 = Seq::<Ask>::empty();
    let words1 = crate::stage::column(10000, |i: int| i);
    let word1 = ix();
    assert forall|i: int| 0 <= i < words1.len() implies crate::stage::meaning(
        word1,
        m.contents,
        i,
    ) as u64 == #[trigger] words1[i] by {
        reveal_with_fuel(crate::stage::meaning, 1);
    }
    let m1 = crate::stage::lemma_filled(m, steps[0], 0, num(10000), word1, words1);
    let words2 = crate::stage::column(10000, |i: int| i * 10);
    let word2 = times(ix(), num(10));
    assert forall|i: int| 0 <= i < words2.len() implies crate::stage::meaning(
        word2,
        m1.contents,
        i,
    ) as u64 == #[trigger] words2[i] by {
        reveal_with_fuel(crate::stage::meaning, 3);
    }
    let m2 = crate::stage::lemma_filled(m1, steps[1], 1, num(10000), word2, words2);
    let words3 = crate::stage::column(5000, |i: int| i * 2);
    let word3 = times(ix(), num(2));
    assert forall|i: int| 0 <= i < words3.len() implies crate::stage::meaning(
        word3,
        m2.contents,
        i,
    ) as u64 == #[trigger] words3[i] by {
        reveal_with_fuel(crate::stage::meaning, 3);
    }
    let m3 = crate::stage::lemma_filled(m2, steps[2], 2, num(5000), word3, words3);
    let words4 = crate::stage::column(5000, |i: int| i * 100);
    let word4 = times(ix(), num(100));
    assert forall|i: int| 0 <= i < words4.len() implies crate::stage::meaning(
        word4,
        m3.contents,
        i,
    ) as u64 == #[trigger] words4[i] by {
        reveal_with_fuel(crate::stage::meaning, 3);
    }
    let m4 = crate::stage::lemma_filled(m3, steps[3], 3, num(5000), word4, words4);
    let table1 = Thing::Table {
        layout: Layout::KeyLval,
        scalar: Scalar::U32,
        columns: seq![words1, words2],
        turn: 0,
    };
    let m5 = crate::stage::lemma_create(m4, steps[4], 0, Layout::KeyLval, Scalar::U32, 0, table1);
    crate::stage::lemma_asks_more(m, 0, list0, Ask::Make(table1));
    let list1 = list0.push(Ask::Make(table1));
    let table2 = Thing::Table {
        layout: Layout::KeyRval,
        scalar: Scalar::U32,
        columns: seq![words3, words4],
        turn: 1,
    };
    let m6 = crate::stage::lemma_create(m5, steps[5], 1, Layout::KeyRval, Scalar::U32, 2, table2);
    crate::stage::lemma_asks_more(m, 0, list1, Ask::Make(table2));
    let list2 = list1.push(Ask::Make(table2));
    let m7 = crate::stage::lemma_join(
        m6,
        steps[6],
        0,
        1,
        2,
        table1,
        table2,
        hash_join_atomics_all_joined1(),
    );
    crate::stage::lemma_asks_more(m, 0, list2, Ask::Make(hash_join_atomics_all_joined1()));
    let list3 = list2.push(Ask::Make(hash_join_atomics_all_joined1()));
    let m8 = crate::stage::lemma_count(m7, steps[7], 2, hash_join_atomics_all_joined1());
    crate::stage::lemma_asks_more(m, 0, list3, Ask::Rows(hash_join_atomics_all_joined1()));
    let list4 = list3.push(Ask::Rows(hash_join_atomics_all_joined1()));
    assert(hash_join_atomics_all_1_asks() == list4);
    m8
}

/// What the device is asked in piece 2 of the part `all` of `test_hash_join_atomics`.
pub open spec fn hash_join_atomics_all_2_asks() -> Seq<Ask> {
    seq![
        Ask::Words { of: hash_join_atomics_all_joined1(), column: 0, scalar: Scalar::U32 },
        Ask::Words { of: hash_join_atomics_all_joined1(), column: 1, scalar: Scalar::U32 },
        Ask::Words { of: hash_join_atomics_all_joined1(), column: 2, scalar: Scalar::U32 },
        Ask::Rows(hash_join_atomics_all_joined1()),
        Ask::Other(Request::Sync),
    ]
}

/// Piece 2 of the part `all` of `test_hash_join_atomics` asks what it should.
proof fn lemma_hash_join_atomics_all_2(m: Moment, steps: Seq<Step>) -> (n: Moment)
    requires
        m.holds(),
        m.at == 0 + 8,
        m.used == 4,
        0 + 14 <= m.plan.steps.len(),
        forall|j: int| 0 <= j < 14 ==> m.plan.steps[0 + j] == #[trigger] steps[j],
        crate::stage::demands(
            steps[8],
            Request::Download { of: 2, column: 0, scalar: Scalar::U32, into: 4 },
        ),
        crate::stage::demands(
            steps[9],
            Request::Download { of: 2, column: 1, scalar: Scalar::U32, into: 5 },
        ),
        crate::stage::demands(
            steps[10],
            Request::Download { of: 2, column: 2, scalar: Scalar::U32, into: 6 },
        ),
        crate::stage::inquires(steps[11], Request::Rows { of: 2, into: 0 }),
        crate::stage::looks(steps[12]),
        crate::stage::demands(steps[13], Request::Sync),
        m.scene.buffer(2) == hash_join_atomics_all_joined1(),
    ensures
        n.holds(),
        n.plan == m.plan,
        n.answers == m.answers,
        n.at == 0 + 14,
        n.used == m.used + 5,
        crate::stage::asks(m.plan, m.answers, 4, hash_join_atomics_all_2_asks()),
{
    crate::stage::lemma_full(m);
    crate::stage::lemma_asks_none(m, 4);
    let list0 = Seq::<Ask>::empty();
    let m1 = crate::stage::lemma_download(
        m,
        steps[8],
        2,
        0,
        Scalar::U32,
        4,
        hash_join_atomics_all_joined1(),
    );
    crate::stage::lemma_asks_more(
        m,
        4,
        list0,
        Ask::Words { of: hash_join_atomics_all_joined1(), column: 0, scalar: Scalar::U32 },
    );
    let list1 = list0.push(
        Ask::Words { of: hash_join_atomics_all_joined1(), column: 0, scalar: Scalar::U32 },
    );
    let m2 = crate::stage::lemma_download(
        m1,
        steps[9],
        2,
        1,
        Scalar::U32,
        5,
        hash_join_atomics_all_joined1(),
    );
    crate::stage::lemma_asks_more(
        m,
        4,
        list1,
        Ask::Words { of: hash_join_atomics_all_joined1(), column: 1, scalar: Scalar::U32 },
    );
    let list2 = list1.push(
        Ask::Words { of: hash_join_atomics_all_joined1(), column: 1, scalar: Scalar::U32 },
    );
    let m3 = crate::stage::lemma_download(
        m2,
        steps[10],
        2,
        2,
        Scalar::U32,
        6,
        hash_join_atomics_all_joined1(),
    );
    crate::stage::lemma_asks_more(
        m,
        4,
        list2,
        Ask::Words { of: hash_join_atomics_all_joined1(), column: 2, scalar: Scalar::U32 },
    );
    let list3 = list2.push(
        Ask::Words { of: hash_join_atomics_all_joined1(), column: 2, scalar: Scalar::U32 },
    );
    let m4 = crate::stage::lemma_rows(m3, steps[11], 2, 0, hash_join_atomics_all_joined1());
    crate::stage::lemma_asks_more(m, 4, list3, Ask::Rows(hash_join_atomics_all_joined1()));
    let list4 = list3.push(Ask::Rows(hash_join_atomics_all_joined1()));
    let m5 = crate::stage::lemma_look(m4, steps[12]);
    let m6 = crate::stage::lemma_sync(m5, steps[13]);
    crate::stage::lemma_asks_more(m, 4, list4, Ask::Other(Request::Sync));
    let list5 = list4.push(Ask::Other(Request::Sync));
    assert(hash_join_atomics_all_2_asks() == list5);
    m6
}

/// The steps of the part `all` of `test_hash_join_atomics`.
proof fn lemma_hash_join_atomics_all_steps()
    ensures
        ({
            let steps = crate::categories::c08_synchronization::hash_join_atomics_steps();
            &&& steps.len() == 14
            &&& crate::stage::fills(steps[0], 0, num(10000), ix())
            &&& crate::stage::fills(steps[1], 1, num(10000), times(ix(), num(10)))
            &&& crate::stage::fills(steps[2], 2, num(5000), times(ix(), num(2)))
            &&& crate::stage::fills(steps[3], 3, num(5000), times(ix(), num(100)))
            &&& crate::stage::demands(
                steps[4],
                Request::Create { into: 0, layout: Layout::KeyLval, scalar: Scalar::U32, from: 0 },
            )
            &&& crate::stage::demands(
                steps[5],
                Request::Create { into: 1, layout: Layout::KeyRval, scalar: Scalar::U32, from: 2 },
            )
            &&& crate::stage::demands(steps[6], Request::Join { left: 0, right: 1, into: 2 })
            &&& crate::stage::counts(steps[7], 2)
            &&& crate::stage::demands(
                steps[8],
                Request::Download { of: 2, column: 0, scalar: Scalar::U32, into: 4 },
            )
            &&& crate::stage::demands(
                steps[9],
                Request::Download { of: 2, column: 1, scalar: Scalar::U32, into: 5 },
            )
            &&& crate::stage::demands(
                steps[10],
                Request::Download { of: 2, column: 2, scalar: Scalar::U32, into: 6 },
            )
            &&& crate::stage::inquires(steps[11], Request::Rows { of: 2, into: 0 })
            &&& crate::stage::looks(steps[12])
            &&& crate::stage::demands(steps[13], Request::Sync)
        }),
{
}

/// In a run of `test_hash_join_atomics` that passes the device is asked this, in this order, and
/// nothing else: each request about what an earlier one made is about that, and about what was
/// uploaded for it.
pub proof fn law_hash_join_atomics_asks_about_what_it_made(answers: Seq<Answer>)
    requires
        crate::stage::passes(
            crate::script::plan(
                "test_hash_join_atomics",
                crate::categories::c08_synchronization::hash_join_atomics_steps(),
            ),
            answers,
        ),
    ensures
        crate::stage::asks(
            crate::script::plan(
                "test_hash_join_atomics",
                crate::categories::c08_synchronization::hash_join_atomics_steps(),
            ),
            answers,
            0,
            hash_join_atomics_all_1_asks(),
        ),
        crate::stage::asks(
            crate::script::plan(
                "test_hash_join_atomics",
                crate::categories::c08_synchronization::hash_join_atomics_steps(),
            ),
            answers,
            4,
            hash_join_atomics_all_2_asks(),
        ),
        crate::stage::asked(
            crate::script::plan(
                "test_hash_join_atomics",
                crate::categories::c08_synchronization::hash_join_atomics_steps(),
            ),
            answers,
            9,
        ) is None,
{
    let plan = crate::script::plan(
        "test_hash_join_atomics",
        crate::categories::c08_synchronization::hash_join_atomics_steps(),
    );
    let part1 = crate::categories::c08_synchronization::hash_join_atomics_steps();
    lemma_hash_join_atomics_all_steps();
    let whole1 = part1;
    assert(plan.steps == whole1);
    let m0 = crate::stage::lemma_start(plan, answers);
    assert forall|j: int| 0 <= j < 14 implies plan.steps[0 + j] == #[trigger] part1[j] by {}
    let m1 = lemma_hash_join_atomics_all_1(m0, part1);
    let m2 = lemma_hash_join_atomics_all_2(m1, part1);
    crate::stage::lemma_end(m2);
}

/// What the device is asked in piece 1 of the part `part1` of `test_filter_scan_sync`.
pub open spec fn filter_scan_sync_part1_1_asks() -> Seq<Ask> {
    let words1 = crate::stage::column(1000, |i: int| i);
    let table1 = Thing::Table {
        layout: Layout::Val,
        scalar: Scalar::U32,
        columns: seq![words1],
        turn: 0,
    };
    let words2 = crate::stage::column(1000, |i: int| crate::stage::flag(((i % 2) == 0)));
    let kept1 = Thing::Kept { of: Box::new(table1), mask: words2, turn: 1 };
    seq![
        Ask::Make(table1),
        Ask::Make(kept1),
        Ask::Rows(kept1),
        Ask::Words { of: kept1, column: 0, scalar: Scalar::U32 },
    ]
}

/// Piece 1 of the part `part1` of `test_filter_scan_sync` asks what it should.
proof fn lemma_filter_scan_sync_part1_1(m: Moment, steps: Seq<Step>) -> (n: Moment)
    requires
        m.holds(),
        m.at == 0,
        m.used == 0,
        0 + 10 <= m.plan.steps.len(),
        forall|j: int| 0 <= j < 10 ==> m.plan.steps[0 + j] == #[trigger] steps[j],
        crate::stage::fills(steps[0], 0, num(1000), ix()),
        crate::stage::demands(
            steps[1],
            Request::Create { into: 0, layout: Layout::Val, scalar: Scalar::U32, from: 0 },
        ),
        crate::stage::fills(steps[2], 1, num(1000), same_as(modulo(ix(), num(2)), num(0))),
        crate::stage::reckons(steps[3], 0),
        crate::stage::demands(steps[4], Request::Filter { of: 0, mask: 1, into: 1 }),
        crate::stage::counts(steps[5], 1),
        crate::stage::demands(
            steps[6],
            Request::Download { of: 1, column: 0, scalar: Scalar::U32, into: 2 },
        ),
        crate::stage::works(steps[7], 3),
    ensures
        n.holds(),
        n.plan == m.plan,
        n.answers == m.answers,
        n.at == 0 + 8,
        n.used == m.used + 4,
        crate::stage::asks(m.plan, m.answers, 0, filter_scan_sync_part1_1_asks()),
{
    crate::stage::lemma_full(m);
    crate::stage::lemma_asks_none(m, 0);
    let list0 = Seq::<Ask>::empty();
    let words1 = crate::stage::column(1000, |i: int| i);
    let word1 = ix();
    assert forall|i: int| 0 <= i < words1.len() implies crate::stage::meaning(
        word1,
        m.contents,
        i,
    ) as u64 == #[trigger] words1[i] by {
        reveal_with_fuel(crate::stage::meaning, 1);
    }
    let m1 = crate::stage::lemma_filled(m, steps[0], 0, num(1000), word1, words1);
    let table1 = Thing::Table {
        layout: Layout::Val,
        scalar: Scalar::U32,
        columns: seq![words1],
        turn: 0,
    };
    let m2 = crate::stage::lemma_create(m1, steps[1], 0, Layout::Val, Scalar::U32, 0, table1);
    crate::stage::lemma_asks_more(m, 0, list0, Ask::Make(table1));
    let list1 = list0.push(Ask::Make(table1));
    let words2 = crate::stage::column(1000, |i: int| crate::stage::flag(((i % 2) == 0)));
    let word3 = same_as(modulo(ix(), num(2)), num(0));
    assert forall|i: int| 0 <= i < words2.len() implies crate::stage::meaning(
        word3,
        m2.contents,
        i,
    ) as u64 == #[trigger] words2[i] by {
        reveal_with_fuel(crate::stage::meaning, 4);
    }
    let m3 = crate::stage::lemma_filled(m2, steps[2], 1, num(1000), word3, words2);
    let m4 = crate::stage::lemma_reckon(m3, steps[3], 0);
    let kept1 = Thing::Kept { of: Box::new(table1), mask: words2, turn: 1 };
    let m5 = crate::stage::lemma_filter(m4, steps[4], 0, 1, 1, table1, words2, kept1);
    crate::stage::lemma_asks_more(m, 0, list1, Ask::Make(kept1));
    let list2 = list1.push(Ask::Make(kept1));
    let m6 = crate::stage::lemma_count(m5, steps[5], 1, kept1);
    crate::stage::lemma_asks_more(m, 0, list2, Ask::Rows(kept1));
    let list3 = list2.push(Ask::Rows(kept1));
    let m7 = crate::stage::lemma_download(m6, steps[6], 1, 0, Scalar::U32, 2, kept1);
    crate::stage::lemma_asks_more(
        m,
        0,
        list3,
        Ask::Words { of: kept1, column: 0, scalar: Scalar::U32 },
    );
    let list4 = list3.push(Ask::Words { of: kept1, column: 0, scalar: Scalar::U32 });
    let m8 = crate::stage::lemma_work(m7, steps[7], 3);
    assert(filter_scan_sync_part1_1_asks() == list4);
    m8
}

/// What the device is asked in piece 2 of the part `part1` of `test_filter_scan_sync`.
pub open spec fn filter_scan_sync_part1_2_asks() -> Seq<Ask> {
    seq![Ask::Other(Request::Release { from: 0 })]
}

/// Piece 2 of the part `part1` of `test_filter_scan_sync` asks what it should.
proof fn lemma_filter_scan_sync_part1_2(m: Moment, steps: Seq<Step>) -> (n: Moment)
    requires
        m.holds(),
        m.at == 0 + 8,
        m.used == 4,
        0 + 10 <= m.plan.steps.len(),
        forall|j: int| 0 <= j < 10 ==> m.plan.steps[0 + j] == #[trigger] steps[j],
        crate::stage::looks(steps[8]),
        crate::stage::inquires(steps[9], Request::Release { from: 0 }),
    ensures
        n.holds(),
        n.plan == m.plan,
        n.answers == m.answers,
        n.at == 0 + 10,
        n.used == m.used + 1,
        crate::stage::asks(m.plan, m.answers, 4, filter_scan_sync_part1_2_asks()),
{
    crate::stage::lemma_full(m);
    crate::stage::lemma_asks_none(m, 4);
    let list0 = Seq::<Ask>::empty();
    let m1 = crate::stage::lemma_look(m, steps[8]);
    let m2 = crate::stage::lemma_release(m1, steps[9], 0);
    crate::stage::lemma_asks_more(m, 4, list0, Ask::Other(Request::Release { from: 0 }));
    let list1 = list0.push(Ask::Other(Request::Release { from: 0 }));
    assert(filter_scan_sync_part1_2_asks() == list1);
    m2
}

/// The steps of the part `part1` of `test_filter_scan_sync`.
proof fn lemma_filter_scan_sync_part1_steps()
    ensures
        ({
            let steps = crate::categories::c08_synchronization::scanned_filter_steps(
                1000,
                same_as(modulo(ix(), num(2)), num(0)),
            );
            &&& steps.len() == 10
            &&& crate::stage::fills(steps[0], 0, num(1000), ix())
            &&& crate::stage::demands(
                steps[1],
                Request::Create { into: 0, layout: Layout::Val, scalar: Scalar::U32, from: 0 },
            )
            &&& crate::stage::fills(steps[2], 1, num(1000), same_as(modulo(ix(), num(2)), num(0)))
            &&& crate::stage::reckons(steps[3], 0)
            &&& crate::stage::demands(steps[4], Request::Filter { of: 0, mask: 1, into: 1 })
            &&& crate::stage::counts(steps[5], 1)
            &&& crate::stage::demands(
                steps[6],
                Request::Download { of: 1, column: 0, scalar: Scalar::U32, into: 2 },
            )
            &&& crate::stage::works(steps[7], 3)
            &&& crate::stage::looks(steps[8])
            &&& crate::stage::inquires(steps[9], Request::Release { from: 0 })
        }),
{
}

/// What the device is asked in piece 1 of the part `part2` of `test_filter_scan_sync`.
pub open spec fn filter_scan_sync_part2_1_asks() -> Seq<Ask> {
    let words1 = crate::stage::column(10000, |i: int| i);
    let table1 = Thing::Table {
        layout: Layout::Val,
        scalar: Scalar::U32,
        columns: seq![words1],
        turn: 5,
    };
    let words2 = crate::stage::column(10000, |i: int| crate::stage::flag(((i % 3) == 0)));
    let kept1 = Thing::Kept { of: Box::new(table1), mask: words2, turn: 6 };
    seq![
        Ask::Make(table1),
        Ask::Make(kept1),
        Ask::Rows(kept1),
        Ask::Words { of: kept1, column: 0, scalar: Scalar::U32 },
    ]
}

/// Piece 1 of the part `part2` of `test_filter_scan_sync` asks what it should.
proof fn lemma_filter_scan_sync_part2_1(m: Moment, steps: Seq<Step>) -> (n: Moment)
    requires
        m.holds(),
        m.at == 10,
        m.used == 5,
        10 + 10 <= m.plan.steps.len(),
        forall|j: int| 0 <= j < 10 ==> m.plan.steps[10 + j] == #[trigger] steps[j],
        crate::stage::fills(steps[0], 0, num(10000), ix()),
        crate::stage::demands(
            steps[1],
            Request::Create { into: 0, layout: Layout::Val, scalar: Scalar::U32, from: 0 },
        ),
        crate::stage::fills(steps[2], 1, num(10000), same_as(modulo(ix(), num(3)), num(0))),
        crate::stage::reckons(steps[3], 0),
        crate::stage::demands(steps[4], Request::Filter { of: 0, mask: 1, into: 1 }),
        crate::stage::counts(steps[5], 1),
        crate::stage::demands(
            steps[6],
            Request::Download { of: 1, column: 0, scalar: Scalar::U32, into: 2 },
        ),
        crate::stage::works(steps[7], 3),
    ensures
        n.holds(),
        n.plan == m.plan,
        n.answers == m.answers,
        n.at == 10 + 8,
        n.used == m.used + 4,
        crate::stage::asks(m.plan, m.answers, 5, filter_scan_sync_part2_1_asks()),
{
    crate::stage::lemma_full(m);
    crate::stage::lemma_asks_none(m, 5);
    let list0 = Seq::<Ask>::empty();
    let words1 = crate::stage::column(10000, |i: int| i);
    let word1 = ix();
    assert forall|i: int| 0 <= i < words1.len() implies crate::stage::meaning(
        word1,
        m.contents,
        i,
    ) as u64 == #[trigger] words1[i] by {
        reveal_with_fuel(crate::stage::meaning, 1);
    }
    let m1 = crate::stage::lemma_filled(m, steps[0], 0, num(10000), word1, words1);
    let table1 = Thing::Table {
        layout: Layout::Val,
        scalar: Scalar::U32,
        columns: seq![words1],
        turn: 5,
    };
    let m2 = crate::stage::lemma_create(m1, steps[1], 0, Layout::Val, Scalar::U32, 0, table1);
    crate::stage::lemma_asks_more(m, 5, list0, Ask::Make(table1));
    let list1 = list0.push(Ask::Make(table1));
    let words2 = crate::stage::column(10000, |i: int| crate::stage::flag(((i % 3) == 0)));
    let word3 = same_as(modulo(ix(), num(3)), num(0));
    assert forall|i: int| 0 <= i < words2.len() implies crate::stage::meaning(
        word3,
        m2.contents,
        i,
    ) as u64 == #[trigger] words2[i] by {
        reveal_with_fuel(crate::stage::meaning, 4);
    }
    let m3 = crate::stage::lemma_filled(m2, steps[2], 1, num(10000), word3, words2);
    let m4 = crate::stage::lemma_reckon(m3, steps[3], 0);
    let kept1 = Thing::Kept { of: Box::new(table1), mask: words2, turn: 6 };
    let m5 = crate::stage::lemma_filter(m4, steps[4], 0, 1, 1, table1, words2, kept1);
    crate::stage::lemma_asks_more(m, 5, list1, Ask::Make(kept1));
    let list2 = list1.push(Ask::Make(kept1));
    let m6 = crate::stage::lemma_count(m5, steps[5], 1, kept1);
    crate::stage::lemma_asks_more(m, 5, list2, Ask::Rows(kept1));
    let list3 = list2.push(Ask::Rows(kept1));
    let m7 = crate::stage::lemma_download(m6, steps[6], 1, 0, Scalar::U32, 2, kept1);
    crate::stage::lemma_asks_more(
        m,
        5,
        list3,
        Ask::Words { of: kept1, column: 0, scalar: Scalar::U32 },
    );
    let list4 = list3.push(Ask::Words { of: kept1, column: 0, scalar: Scalar::U32 });
    let m8 = crate::stage::lemma_work(m7, steps[7], 3);
    assert(filter_scan_sync_part2_1_asks() == list4);
    m8
}

/// What the device is asked in piece 2 of the part `part2` of `test_filter_scan_sync`.
pub open spec fn filter_scan_sync_part2_2_asks() -> Seq<Ask> {
    seq![Ask::Other(Request::Release { from: 0 })]
}

/// Piece 2 of the part `part2` of `test_filter_scan_sync` asks what it should.
proof fn lemma_filter_scan_sync_part2_2(m: Moment, steps: Seq<Step>) -> (n: Moment)
    requires
        m.holds(),
        m.at == 10 + 8,
        m.used == 9,
        10 + 10 <= m.plan.steps.len(),
        forall|j: int| 0 <= j < 10 ==> m.plan.steps[10 + j] == #[trigger] steps[j],
        crate::stage::looks(steps[8]),
        crate::stage::inquires(steps[9], Request::Release { from: 0 }),
    ensures
        n.holds(),
        n.plan == m.plan,
        n.answers == m.answers,
        n.at == 10 + 10,
        n.used == m.used + 1,
        crate::stage::asks(m.plan, m.answers, 9, filter_scan_sync_part2_2_asks()),
{
    crate::stage::lemma_full(m);
    crate::stage::lemma_asks_none(m, 9);
    let list0 = Seq::<Ask>::empty();
    let m1 = crate::stage::lemma_look(m, steps[8]);
    let m2 = crate::stage::lemma_release(m1, steps[9], 0);
    crate::stage::lemma_asks_more(m, 9, list0, Ask::Other(Request::Release { from: 0 }));
    let list1 = list0.push(Ask::Other(Request::Release { from: 0 }));
    assert(filter_scan_sync_part2_2_asks() == list1);
    m2
}

/// The steps of the part `part2` of `test_filter_scan_sync`.
proof fn lemma_filter_scan_sync_part2_steps()
    ensures
        ({
            let steps = crate::categories::c08_synchronization::scanned_filter_steps(
                10000,
                same_as(modulo(ix(), num(3)), num(0)),
            );
            &&& steps.len() == 10
            &&& crate::stage::fills(steps[0], 0, num(10000), ix())
            &&& crate::stage::demands(
                steps[1],
                Request::Create { into: 0, layout: Layout::Val, scalar: Scalar::U32, from: 0 },
            )
            &&& crate::stage::fills(steps[2], 1, num(10000), same_as(modulo(ix(), num(3)), num(0)))
            &&& crate::stage::reckons(steps[3], 0)
            &&& crate::stage::demands(steps[4], Request::Filter { of: 0, mask: 1, into: 1 })
            &&& crate::stage::counts(steps[5], 1)
            &&& crate::stage::demands(
                steps[6],
                Request::Download { of: 1, column: 0, scalar: Scalar::U32, into: 2 },
            )
            &&& crate::stage::works(steps[7], 3)
            &&& crate::stage::looks(steps[8])
            &&& crate::stage::inquires(steps[9], Request::Release { from: 0 })
        }),
{
}

/// What the device is asked in piece 1 of the part `part3` of `test_filter_scan_sync`.
pub open spec fn filter_scan_sync_part3_1_asks() -> Seq<Ask> {
    let words1 = crate::stage::column(50000, |i: int| i);
    let table1 = Thing::Table {
        layout: Layout::Val,
        scalar: Scalar::U32,
        columns: seq![words1],
        turn: 10,
    };
    let words2 = crate::stage::column(50000, |i: int| crate::stage::flag((i < 25000)));
    let kept1 = Thing::Kept { of: Box::new(table1), mask: words2, turn: 11 };
    seq![
        Ask::Make(table1),
        Ask::Make(kept1),
        Ask::Rows(kept1),
        Ask::Words { of: kept1, column: 0, scalar: Scalar::U32 },
    ]
}

/// Piece 1 of the part `part3` of `test_filter_scan_sync` asks what it should.
proof fn lemma_filter_scan_sync_part3_1(m: Moment, steps: Seq<Step>) -> (n: Moment)
    requires
        m.holds(),
        m.at == 20,
        m.used == 10,
        20 + 10 <= m.plan.steps.len(),
        forall|j: int| 0 <= j < 10 ==> m.plan.steps[20 + j] == #[trigger] steps[j],
        crate::stage::fills(steps[0], 0, num(50000), ix()),
        crate::stage::demands(
            steps[1],
            Request::Create { into: 0, layout: Layout::Val, scalar: Scalar::U32, from: 0 },
        ),
        crate::stage::fills(steps[2], 1, num(50000), lt(ix(), num(25000))),
        crate::stage::reckons(steps[3], 0),
        crate::stage::demands(steps[4], Request::Filter { of: 0, mask: 1, into: 1 }),
        crate::stage::counts(steps[5], 1),
        crate::stage::demands(
            steps[6],
            Request::Download { of: 1, column: 0, scalar: Scalar::U32, into: 2 },
        ),
        crate::stage::works(steps[7], 3),
    ensures
        n.holds(),
        n.plan == m.plan,
        n.answers == m.answers,
        n.at == 20 + 8,
        n.used == m.used + 4,
        crate::stage::asks(m.plan, m.answers, 10, filter_scan_sync_part3_1_asks()),
{
    crate::stage::lemma_full(m);
    crate::stage::lemma_asks_none(m, 10);
    let list0 = Seq::<Ask>::empty();
    let words1 = crate::stage::column(50000, |i: int| i);
    let word1 = ix();
    assert forall|i: int| 0 <= i < words1.len() implies crate::stage::meaning(
        word1,
        m.contents,
        i,
    ) as u64 == #[trigger] words1[i] by {
        reveal_with_fuel(crate::stage::meaning, 1);
    }
    let m1 = crate::stage::lemma_filled(m, steps[0], 0, num(50000), word1, words1);
    let table1 = Thing::Table {
        layout: Layout::Val,
        scalar: Scalar::U32,
        columns: seq![words1],
        turn: 10,
    };
    let m2 = crate::stage::lemma_create(m1, steps[1], 0, Layout::Val, Scalar::U32, 0, table1);
    crate::stage::lemma_asks_more(m, 10, list0, Ask::Make(table1));
    let list1 = list0.push(Ask::Make(table1));
    let words2 = crate::stage::column(50000, |i: int| crate::stage::flag((i < 25000)));
    let word3 = lt(ix(), num(25000));
    assert forall|i: int| 0 <= i < words2.len() implies crate::stage::meaning(
        word3,
        m2.contents,
        i,
    ) as u64 == #[trigger] words2[i] by {
        reveal_with_fuel(crate::stage::meaning, 3);
    }
    let m3 = crate::stage::lemma_filled(m2, steps[2], 1, num(50000), word3, words2);
    let m4 = crate::stage::lemma_reckon(m3, steps[3], 0);
    let kept1 = Thing::Kept { of: Box::new(table1), mask: words2, turn: 11 };
    let m5 = crate::stage::lemma_filter(m4, steps[4], 0, 1, 1, table1, words2, kept1);
    crate::stage::lemma_asks_more(m, 10, list1, Ask::Make(kept1));
    let list2 = list1.push(Ask::Make(kept1));
    let m6 = crate::stage::lemma_count(m5, steps[5], 1, kept1);
    crate::stage::lemma_asks_more(m, 10, list2, Ask::Rows(kept1));
    let list3 = list2.push(Ask::Rows(kept1));
    let m7 = crate::stage::lemma_download(m6, steps[6], 1, 0, Scalar::U32, 2, kept1);
    crate::stage::lemma_asks_more(
        m,
        10,
        list3,
        Ask::Words { of: kept1, column: 0, scalar: Scalar::U32 },
    );
    let list4 = list3.push(Ask::Words { of: kept1, column: 0, scalar: Scalar::U32 });
    let m8 = crate::stage::lemma_work(m7, steps[7], 3);
    assert(filter_scan_sync_part3_1_asks() == list4);
    m8
}

/// What the device is asked in piece 2 of the part `part3` of `test_filter_scan_sync`.
pub open spec fn filter_scan_sync_part3_2_asks() -> Seq<Ask> {
    seq![Ask::Other(Request::Release { from: 0 })]
}

/// Piece 2 of the part `part3` of `test_filter_scan_sync` asks what it should.
proof fn lemma_filter_scan_sync_part3_2(m: Moment, steps: Seq<Step>) -> (n: Moment)
    requires
        m.holds(),
        m.at == 20 + 8,
        m.used == 14,
        20 + 10 <= m.plan.steps.len(),
        forall|j: int| 0 <= j < 10 ==> m.plan.steps[20 + j] == #[trigger] steps[j],
        crate::stage::looks(steps[8]),
        crate::stage::inquires(steps[9], Request::Release { from: 0 }),
    ensures
        n.holds(),
        n.plan == m.plan,
        n.answers == m.answers,
        n.at == 20 + 10,
        n.used == m.used + 1,
        crate::stage::asks(m.plan, m.answers, 14, filter_scan_sync_part3_2_asks()),
{
    crate::stage::lemma_full(m);
    crate::stage::lemma_asks_none(m, 14);
    let list0 = Seq::<Ask>::empty();
    let m1 = crate::stage::lemma_look(m, steps[8]);
    let m2 = crate::stage::lemma_release(m1, steps[9], 0);
    crate::stage::lemma_asks_more(m, 14, list0, Ask::Other(Request::Release { from: 0 }));
    let list1 = list0.push(Ask::Other(Request::Release { from: 0 }));
    assert(filter_scan_sync_part3_2_asks() == list1);
    m2
}

/// The steps of the part `part3` of `test_filter_scan_sync`.
proof fn lemma_filter_scan_sync_part3_steps()
    ensures
        ({
            let steps = crate::categories::c08_synchronization::scanned_filter_steps(
                50000,
                lt(ix(), num(25000)),
            );
            &&& steps.len() == 10
            &&& crate::stage::fills(steps[0], 0, num(50000), ix())
            &&& crate::stage::demands(
                steps[1],
                Request::Create { into: 0, layout: Layout::Val, scalar: Scalar::U32, from: 0 },
            )
            &&& crate::stage::fills(steps[2], 1, num(50000), lt(ix(), num(25000)))
            &&& crate::stage::reckons(steps[3], 0)
            &&& crate::stage::demands(steps[4], Request::Filter { of: 0, mask: 1, into: 1 })
            &&& crate::stage::counts(steps[5], 1)
            &&& crate::stage::demands(
                steps[6],
                Request::Download { of: 1, column: 0, scalar: Scalar::U32, into: 2 },
            )
            &&& crate::stage::works(steps[7], 3)
            &&& crate::stage::looks(steps[8])
            &&& crate::stage::inquires(steps[9], Request::Release { from: 0 })
        }),
{
}

/// What the device is asked in piece 1 of the part `part4` of `test_filter_scan_sync`.
pub open spec fn filter_scan_sync_part4_1_asks() -> Seq<Ask> {
    let words1 = crate::stage::column(100000, |i: int| i);
    let table1 = Thing::Table {
        layout: Layout::Val,
        scalar: Scalar::U32,
        columns: seq![words1],
        turn: 15,
    };
    let words2 = crate::stage::column(100000, |i: int| crate::stage::flag(((i % 7) == 0)));
    let kept1 = Thing::Kept { of: Box::new(table1), mask: words2, turn: 16 };
    seq![
        Ask::Make(table1),
        Ask::Make(kept1),
        Ask::Rows(kept1),
        Ask::Words { of: kept1, column: 0, scalar: Scalar::U32 },
    ]
}

/// Piece 1 of the part `part4` of `test_filter_scan_sync` asks what it should.
proof fn lemma_filter_scan_sync_part4_1(m: Moment, steps: Seq<Step>) -> (n: Moment)
    requires
        m.holds(),
        m.at == 30,
        m.used == 15,
        30 + 10 <= m.plan.steps.len(),
        forall|j: int| 0 <= j < 10 ==> m.plan.steps[30 + j] == #[trigger] steps[j],
        crate::stage::fills(steps[0], 0, num(100000), ix()),
        crate::stage::demands(
            steps[1],
            Request::Create { into: 0, layout: Layout::Val, scalar: Scalar::U32, from: 0 },
        ),
        crate::stage::fills(steps[2], 1, num(100000), same_as(modulo(ix(), num(7)), num(0))),
        crate::stage::reckons(steps[3], 0),
        crate::stage::demands(steps[4], Request::Filter { of: 0, mask: 1, into: 1 }),
        crate::stage::counts(steps[5], 1),
        crate::stage::demands(
            steps[6],
            Request::Download { of: 1, column: 0, scalar: Scalar::U32, into: 2 },
        ),
        crate::stage::works(steps[7], 3),
    ensures
        n.holds(),
        n.plan == m.plan,
        n.answers == m.answers,
        n.at == 30 + 8,
        n.used == m.used + 4,
        crate::stage::asks(m.plan, m.answers, 15, filter_scan_sync_part4_1_asks()),
{
    crate::stage::lemma_full(m);
    crate::stage::lemma_asks_none(m, 15);
    let list0 = Seq::<Ask>::empty();
    let words1 = crate::stage::column(100000, |i: int| i);
    let word1 = ix();
    assert forall|i: int| 0 <= i < words1.len() implies crate::stage::meaning(
        word1,
        m.contents,
        i,
    ) as u64 == #[trigger] words1[i] by {
        reveal_with_fuel(crate::stage::meaning, 1);
    }
    let m1 = crate::stage::lemma_filled(m, steps[0], 0, num(100000), word1, words1);
    let table1 = Thing::Table {
        layout: Layout::Val,
        scalar: Scalar::U32,
        columns: seq![words1],
        turn: 15,
    };
    let m2 = crate::stage::lemma_create(m1, steps[1], 0, Layout::Val, Scalar::U32, 0, table1);
    crate::stage::lemma_asks_more(m, 15, list0, Ask::Make(table1));
    let list1 = list0.push(Ask::Make(table1));
    let words2 = crate::stage::column(100000, |i: int| crate::stage::flag(((i % 7) == 0)));
    let word3 = same_as(modulo(ix(), num(7)), num(0));
    assert forall|i: int| 0 <= i < words2.len() implies crate::stage::meaning(
        word3,
        m2.contents,
        i,
    ) as u64 == #[trigger] words2[i] by {
        reveal_with_fuel(crate::stage::meaning, 4);
    }
    let m3 = crate::stage::lemma_filled(m2, steps[2], 1, num(100000), word3, words2);
    let m4 = crate::stage::lemma_reckon(m3, steps[3], 0);
    let kept1 = Thing::Kept { of: Box::new(table1), mask: words2, turn: 16 };
    let m5 = crate::stage::lemma_filter(m4, steps[4], 0, 1, 1, table1, words2, kept1);
    crate::stage::lemma_asks_more(m, 15, list1, Ask::Make(kept1));
    let list2 = list1.push(Ask::Make(kept1));
    let m6 = crate::stage::lemma_count(m5, steps[5], 1, kept1);
    crate::stage::lemma_asks_more(m, 15, list2, Ask::Rows(kept1));
    let list3 = list2.push(Ask::Rows(kept1));
    let m7 = crate::stage::lemma_download(m6, steps[6], 1, 0, Scalar::U32, 2, kept1);
    crate::stage::lemma_asks_more(
        m,
        15,
        list3,
        Ask::Words { of: kept1, column: 0, scalar: Scalar::U32 },
    );
    let list4 = list3.push(Ask::Words { of: kept1, column: 0, scalar: Scalar::U32 });
    let m8 = crate::stage::lemma_work(m7, steps[7], 3);
    assert(filter_scan_sync_part4_1_asks() == list4);
    m8
}

/// What the device is asked in piece 2 of the part `part4` of `test_filter_scan_sync`.
pub open spec fn filter_scan_sync_part4_2_asks() -> Seq<Ask> {
    seq![Ask::Other(Request::Release { from: 0 })]
}

/// Piece 2 of the part `part4` of `test_filter_scan_sync` asks what it should.
proof fn lemma_filter_scan_sync_part4_2(m: Moment, steps: Seq<Step>) -> (n: Moment)
    requires
        m.holds(),
        m.at == 30 + 8,
        m.used == 19,
        30 + 10 <= m.plan.steps.len(),
        forall|j: int| 0 <= j < 10 ==> m.plan.steps[30 + j] == #[trigger] steps[j],
        crate::stage::looks(steps[8]),
        crate::stage::inquires(steps[9], Request::Release { from: 0 }),
    ensures
        n.holds(),
        n.plan == m.plan,
        n.answers == m.answers,
        n.at == 30 + 10,
        n.used == m.used + 1,
        crate::stage::asks(m.plan, m.answers, 19, filter_scan_sync_part4_2_asks()),
{
    crate::stage::lemma_full(m);
    crate::stage::lemma_asks_none(m, 19);
    let list0 = Seq::<Ask>::empty();
    let m1 = crate::stage::lemma_look(m, steps[8]);
    let m2 = crate::stage::lemma_release(m1, steps[9], 0);
    crate::stage::lemma_asks_more(m, 19, list0, Ask::Other(Request::Release { from: 0 }));
    let list1 = list0.push(Ask::Other(Request::Release { from: 0 }));
    assert(filter_scan_sync_part4_2_asks() == list1);
    m2
}

/// The steps of the part `part4` of `test_filter_scan_sync`.
proof fn lemma_filter_scan_sync_part4_steps()
    ensures
        ({
            let steps = crate::categories::c08_synchronization::scanned_filter_steps(
                100000,
                same_as(modulo(ix(), num(7)), num(0)),
            );
            &&& steps.len() == 10
            &&& crate::stage::fills(steps[0], 0, num(100000), ix())
            &&& crate::stage::demands(
                steps[1],
                Request::Create { into: 0, layout: Layout::Val, scalar: Scalar::U32, from: 0 },
            )
            &&& crate::stage::fills(steps[2], 1, num(100000), same_as(modulo(ix(), num(7)), num(0)))
            &&& crate::stage::reckons(steps[3], 0)
            &&& crate::stage::demands(steps[4], Request::Filter { of: 0, mask: 1, into: 1 })
            &&& crate::stage::counts(steps[5], 1)
            &&& crate::stage::demands(
                steps[6],
                Request::Download { of: 1, column: 0, scalar: Scalar::U32, into: 2 },
            )
            &&& crate::stage::works(steps[7], 3)
            &&& crate::stage::looks(steps[8])
            &&& crate::stage::inquires(steps[9], Request::Release { from: 0 })
        }),
{
}

/// What the device is asked in piece 1 of the part `part5` of `test_filter_scan_sync`.
pub open spec fn filter_scan_sync_part5_1_asks() -> Seq<Ask> {
    let words1 = crate::stage::column(65536, |i: int| i);
    let table1 = Thing::Table {
        layout: Layout::Val,
        scalar: Scalar::U32,
        columns: seq![words1],
        turn: 20,
    };
    let words2 = crate::stage::column(65536, |i: int| crate::stage::flag((((i / 256) % 2) == 0)));
    let kept1 = Thing::Kept { of: Box::new(table1), mask: words2, turn: 21 };
    seq![
        Ask::Make(table1),
        Ask::Make(kept1),
        Ask::Rows(kept1),
        Ask::Words { of: kept1, column: 0, scalar: Scalar::U32 },
    ]
}

/// Piece 1 of the part `part5` of `test_filter_scan_sync` asks what it should.
proof fn lemma_filter_scan_sync_part5_1(m: Moment, steps: Seq<Step>) -> (n: Moment)
    requires
        m.holds(),
        m.at == 40,
        m.used == 20,
        40 + 10 <= m.plan.steps.len(),
        forall|j: int| 0 <= j < 10 ==> m.plan.steps[40 + j] == #[trigger] steps[j],
        crate::stage::fills(steps[0], 0, num(65536), ix()),
        crate::stage::demands(
            steps[1],
            Request::Create { into: 0, layout: Layout::Val, scalar: Scalar::U32, from: 0 },
        ),
        crate::stage::fills(
            steps[2],
            1,
            num(65536),
            same_as(modulo(over(ix(), num(256)), num(2)), num(0)),
        ),
        crate::stage::reckons(steps[3], 0),
        crate::stage::demands(steps[4], Request::Filter { of: 0, mask: 1, into: 1 }),
        crate::stage::counts(steps[5], 1),
        crate::stage::demands(
            steps[6],
            Request::Download { of: 1, column: 0, scalar: Scalar::U32, into: 2 },
        ),
        crate::stage::works(steps[7], 3),
    ensures
        n.holds(),
        n.plan == m.plan,
        n.answers == m.answers,
        n.at == 40 + 8,
        n.used == m.used + 4,
        crate::stage::asks(m.plan, m.answers, 20, filter_scan_sync_part5_1_asks()),
{
    crate::stage::lemma_full(m);
    crate::stage::lemma_asks_none(m, 20);
    let list0 = Seq::<Ask>::empty();
    let words1 = crate::stage::column(65536, |i: int| i);
    let word1 = ix();
    assert forall|i: int| 0 <= i < words1.len() implies crate::stage::meaning(
        word1,
        m.contents,
        i,
    ) as u64 == #[trigger] words1[i] by {
        reveal_with_fuel(crate::stage::meaning, 1);
    }
    let m1 = crate::stage::lemma_filled(m, steps[0], 0, num(65536), word1, words1);
    let table1 = Thing::Table {
        layout: Layout::Val,
        scalar: Scalar::U32,
        columns: seq![words1],
        turn: 20,
    };
    let m2 = crate::stage::lemma_create(m1, steps[1], 0, Layout::Val, Scalar::U32, 0, table1);
    crate::stage::lemma_asks_more(m, 20, list0, Ask::Make(table1));
    let list1 = list0.push(Ask::Make(table1));
    let words2 = crate::stage::column(65536, |i: int| crate::stage::flag((((i / 256) % 2) == 0)));
    let word3 = same_as(modulo(over(ix(), num(256)), num(2)), num(0));
    assert forall|i: int| 0 <= i < words2.len() implies crate::stage::meaning(
        word3,
        m2.contents,
        i,
    ) as u64 == #[trigger] words2[i] by {
        reveal_with_fuel(crate::stage::meaning, 5);
    }
    let m3 = crate::stage::lemma_filled(m2, steps[2], 1, num(65536), word3, words2);
    let m4 = crate::stage::lemma_reckon(m3, steps[3], 0);
    let kept1 = Thing::Kept { of: Box::new(table1), mask: words2, turn: 21 };
    let m5 = crate::stage::lemma_filter(m4, steps[4], 0, 1, 1, table1, words2, kept1);
    crate::stage::lemma_asks_more(m, 20, list1, Ask::Make(kept1));
    let list2 = list1.push(Ask::Make(kept1));
    let m6 = crate::stage::lemma_count(m5, steps[5], 1, kept1);
    crate::stage::lemma_asks_more(m, 20, list2, Ask::Rows(kept1));
    let list3 = list2.push(Ask::Rows(kept1));
    let m7 = crate::stage::lemma_download(m6, steps[6], 1, 0, Scalar::U32, 2, kept1);
    crate::stage::lemma_asks_more(
        m,
        20,
        list3,
        Ask::Words { of: kept1, column: 0, scalar: Scalar::U32 },
    );
    let list4 = list3.push(Ask::Words { of: kept1, column: 0, scalar: Scalar::U32 });
    let m8 = crate::stage::lemma_work(m7, steps[7], 3);
    assert(filter_scan_sync_part5_1_asks() == list4);
    m8
}

/// What the device is asked in piece 2 of the part `part5` of `test_filter_scan_sync`.
pub open spec fn filter_scan_sync_part5_2_asks() -> Seq<Ask> {
    seq![Ask::Other(Request::Release { from: 0 })]
}

/// Piece 2 of the part `part5` of `test_filter_scan_sync` asks what it should.
proof fn lemma_filter_scan_sync_part5_2(m: Moment, steps: Seq<Step>) -> (n: Moment)
    requires
        m.holds(),
        m.at == 40 + 8,
        m.used == 24,
        40 + 10 <= m.plan.steps.len(),
        forall|j: int| 0 <= j < 10 ==> m.plan.steps[40 + j] == #[trigger] steps[j],
        crate::stage::looks(steps[8]),
        crate::stage::inquires(steps[9], Request::Release { from: 0 }),
    ensures
        n.holds(),
        n.plan == m.plan,
        n.answers == m.answers,
        n.at == 40 + 10,
        n.used == m.used + 1,
        crate::stage::asks(m.plan, m.answers, 24, filter_scan_sync_part5_2_asks()),
{
    crate::stage::lemma_full(m);
    crate::stage::lemma_asks_none(m, 24);
    let list0 = Seq::<Ask>::empty();
    let m1 = crate::stage::lemma_look(m, steps[8]);
    let m2 = crate::stage::lemma_release(m1, steps[9], 0);
    crate::stage::lemma_asks_more(m, 24, list0, Ask::Other(Request::Release { from: 0 }));
    let list1 = list0.push(Ask::Other(Request::Release { from: 0 }));
    assert(filter_scan_sync_part5_2_asks() == list1);
    m2
}

/// The steps of the part `part5` of `test_filter_scan_sync`.
proof fn lemma_filter_scan_sync_part5_steps()
    ensures
        ({
            let steps = crate::categories::c08_synchronization::scanned_filter_steps(
                65536,
                same_as(modulo(over(ix(), num(256)), num(2)), num(0)),
            );
            &&& steps.len() == 10
            &&& crate::stage::fills(steps[0], 0, num(65536), ix())
            &&& crate::stage::demands(
                steps[1],
                Request::Create { into: 0, layout: Layout::Val, scalar: Scalar::U32, from: 0 },
            )
            &&& crate::stage::fills(
                steps[2],
                1,
                num(65536),
                same_as(modulo(over(ix(), num(256)), num(2)), num(0)),
            )
            &&& crate::stage::reckons(steps[3], 0)
            &&& crate::stage::demands(steps[4], Request::Filter { of: 0, mask: 1, into: 1 })
            &&& crate::stage::counts(steps[5], 1)
            &&& crate::stage::demands(
                steps[6],
                Request::Download { of: 1, column: 0, scalar: Scalar::U32, into: 2 },
            )
            &&& crate::stage::works(steps[7], 3)
            &&& crate::stage::looks(steps[8])
            &&& crate::stage::inquires(steps[9], Request::Release { from: 0 })
        }),
{
}

/// What the device is asked in the part `end` of `test_filter_scan_sync`.
pub open spec fn filter_scan_sync_end_asks() -> Seq<Ask> {
    seq![Ask::Other(Request::Sync)]
}

/// The part `end` of `test_filter_scan_sync` asks what it should.
proof fn lemma_filter_scan_sync_end(m: Moment, steps: Seq<Step>) -> (n: Moment)
    requires
        m.holds(),
        m.at == 50,
        m.used == 25,
        50 + 1 <= m.plan.steps.len(),
        forall|j: int| 0 <= j < 1 ==> m.plan.steps[50 + j] == #[trigger] steps[j],
        crate::stage::demands(steps[0], Request::Sync),
    ensures
        n.holds(),
        n.plan == m.plan,
        n.answers == m.answers,
        n.at == 50 + 1,
        n.used == m.used + 1,
        crate::stage::asks(m.plan, m.answers, 25, filter_scan_sync_end_asks()),
{
    crate::stage::lemma_full(m);
    crate::stage::lemma_asks_none(m, 25);
    let list0 = Seq::<Ask>::empty();
    let m1 = crate::stage::lemma_sync(m, steps[0]);
    crate::stage::lemma_asks_more(m, 25, list0, Ask::Other(Request::Sync));
    let list1 = list0.push(Ask::Other(Request::Sync));
    assert(filter_scan_sync_end_asks() == list1);
    m1
}

/// The steps of the part `end` of `test_filter_scan_sync`.
proof fn lemma_filter_scan_sync_end_steps()
    ensures
        ({
            let steps = crate::categories::c08_synchronization::filter_scan_sync_end_steps();
            &&& steps.len() == 1
            &&& crate::stage::demands(steps[0], Request::Sync)
        }),
{
}

/// In a run of `test_filter_scan_sync` that passes the device is asked this, in this order, and
/// nothing else: each request about what an earlier one made is about that, and about what was
/// uploaded for it.
pub proof fn law_filter_scan_sync_asks_about_what_it_made(answers: Seq<Answer>)
    requires
        crate::stage::passes(
            crate::script::plan(
                "test_filter_scan_sync",
                crate::categories::c08_synchronization::filter_scan_sync_steps(),
            ),
            answers,
        ),
    ensures
        crate::stage::asks(
            crate::script::plan(
                "test_filter_scan_sync",
                crate::categories::c08_synchronization::filter_scan_sync_steps(),
            ),
            answers,
            0,
            filter_scan_sync_part1_1_asks(),
        ),
        crate::stage::asks(
            crate::script::plan(
                "test_filter_scan_sync",
                crate::categories::c08_synchronization::filter_scan_sync_steps(),
            ),
            answers,
            4,
            filter_scan_sync_part1_2_asks(),
        ),
        crate::stage::asks(
            crate::script::plan(
                "test_filter_scan_sync",
                crate::categories::c08_synchronization::filter_scan_sync_steps(),
            ),
            answers,
            5,
            filter_scan_sync_part2_1_asks(),
        ),
        crate::stage::asks(
            crate::script::plan(
                "test_filter_scan_sync",
                crate::categories::c08_synchronization::filter_scan_sync_steps(),
            ),
            answers,
            9,
            filter_scan_sync_part2_2_asks(),
        ),
        crate::stage::asks(
            crate::script::plan(
                "test_filter_scan_sync",
                crate::categories::c08_synchronization::filter_scan_sync_steps(),
            ),
            answers,
            10,
            filter_scan_sync_part3_1_asks(),
        ),
        crate::stage::asks(
            crate::script::plan(
                "test_filter_scan_sync",
                crate::categories::c08_synchronization::filter_scan_sync_steps(),
            ),
            answers,
            14,
            filter_scan_sync_part3_2_asks(),
        ),
        crate::stage::asks(
            crate::script::plan(
                "test_filter_scan_sync",
                crate::categories::c08_synchronization::filter_scan_sync_steps(),
            ),
            answers,
            15,
            filter_scan_sync_part4_1_asks(),
        ),
        crate::stage::asks(
            crate::script::plan(
                "test_filter_scan_sync",
                crate::categories::c08_synchronization::filter_scan_sync_steps(),
            ),
            answers,
            19,
            filter_scan_sync_part4_2_asks(),
        ),
        crate::stage::asks(
            crate::script::plan(
                "test_filter_scan_sync",
                crate::categories::c08_synchronization::filter_scan_sync_steps(),
            ),
            answers,
            20,
            filter_scan_sync_part5_1_asks(),
        ),
        crate::stage::asks(
            crate::script::plan(
                "test_filter_scan_sync",
                crate::categories::c08_synchronization::filter_scan_sync_steps(),
            ),
            answers,
            24,
            filter_scan_sync_part5_2_asks(),
        ),
        crate::stage::asks(
            crate::script::plan(
                "test_filter_scan_sync",
                crate::categories::c08_synchronization::filter_scan_sync_steps(),
            ),
            answers,
            25,
            filter_scan_sync_end_asks(),
        ),
        crate::stage::asked(
            crate::script::plan(
                "test_filter_scan_sync",
                crate::categories::c08_synchronization::filter_scan_sync_steps(),
            ),
            answers,
            26,
        ) is None,
{
    let plan = crate::script::plan(
        "test_filter_scan_sync",
        crate::categories::c08_synchronization::filter_scan_sync_steps(),
    );
    let part1 = crate::categories::c08_synchronization::scanned_filter_steps(
        1000,
        same_as(modulo(ix(), num(2)), num(0)),
    );
    lemma_filter_scan_sync_part1_steps();
    let part2 = crate::categories::c08_synchronization::scanned_filter_steps(
        10000,
        same_as(modulo(ix(), num(3)), num(0)),
    );
    lemma_filter_scan_sync_part2_steps();
    let part3 = crate::categories::c08_synchronization::scanned_filter_steps(
        50000,
        lt(ix(), num(25000)),
    );
    lemma_filter_scan_sync_part3_steps();
    let part4 = crate::categories::c08_synchronization::scanned_filter_steps(
        100000,
        same_as(modulo(ix(), num(7)), num(0)),
    );
    lemma_filter_scan_sync_part4_steps();
    let part5 = crate::categories::c08_synchronization::scanned_filter_steps(
        65536,
        same_as(modulo(over(ix(), num(256)), num(2)), num(0)),
    );
    lemma_filter_scan_sync_part5_steps();
    let part6 = crate::categories::c08_synchronization::filter_scan_sync_end_steps();
    lemma_filter_scan_sync_end_steps();
    let whole1 = part1;
    let whole2 = whole1 + part2;
    let whole3 = whole2 + part3;
    let whole4 = whole3 + part4;
    let whole5 = whole4 + part5;
    let whole6 = whole5 + part6;
    assert(plan.steps == whole6);
    let m0 = crate::stage::lemma_start(plan, answers);
    assert forall|j: int| 0 <= j < 10 implies plan.steps[0 + j] == #[trigger] part1[j] by {}
    let m1 = lemma_filter_scan_sync_part1_1(m0, part1);
    let m2 = lemma_filter_scan_sync_part1_2(m1, part1);
    assert forall|j: int| 0 <= j < 10 implies plan.steps[10 + j] == #[trigger] part2[j] by {}
    let m3 = lemma_filter_scan_sync_part2_1(m2, part2);
    let m4 = lemma_filter_scan_sync_part2_2(m3, part2);
    assert forall|j: int| 0 <= j < 10 implies plan.steps[20 + j] == #[trigger] part3[j] by {}
    let m5 = lemma_filter_scan_sync_part3_1(m4, part3);
    let m6 = lemma_filter_scan_sync_part3_2(m5, part3);
    assert forall|j: int| 0 <= j < 10 implies plan.steps[30 + j] == #[trigger] part4[j] by {}
    let m7 = lemma_filter_scan_sync_part4_1(m6, part4);
    let m8 = lemma_filter_scan_sync_part4_2(m7, part4);
    assert forall|j: int| 0 <= j < 10 implies plan.steps[40 + j] == #[trigger] part5[j] by {}
    let m9 = lemma_filter_scan_sync_part5_1(m8, part5);
    let m10 = lemma_filter_scan_sync_part5_2(m9, part5);
    assert forall|j: int| 0 <= j < 1 implies plan.steps[50 + j] == #[trigger] part6[j] by {}
    let m11 = lemma_filter_scan_sync_end(m10, part6);
    crate::stage::lemma_end(m11);
}

} // verus!
