//! What these tests ask the device in runs that pass: `test_repeated_access`, `test_buffer_reuse`.

use vstd::prelude::*;
use crate::expr::{here, ix, len, lt, modulo, num, plus, same_as, times};
use crate::machine::Answer;
use crate::scalar::Scalar;
use crate::script::{Layout, Request, Step};
use crate::stage::{Ask, Moment, Thing};

verus! {

/// A buffer that is uploaded in the part `all` of `test_repeated_access`.
pub open spec fn repeated_access_all_table1() -> Thing {
    Thing::Table {
        layout: Layout::Val,
        scalar: Scalar::U32,
        columns: seq![crate::stage::column(10000, |i: int| ((i * 7) + 13) % 1000)],
        turn: 0,
    }
}

/// What is kept in the part `all` of `test_repeated_access`.
pub open spec fn repeated_access_all_kept1() -> Thing {
    Thing::Kept {
        of: Box::new(repeated_access_all_table1()),
        mask: crate::stage::column(
            (crate::stage::column(10000, |i: int| ((i * 7) + 13) % 1000).len() as int),
            |i: int| crate::stage::flag(((crate::stage::column(10000, |i: int| ((i * 7) + 13) % 1000)[i] as int) < 500)),
        ),
        turn: 3,
    }
}

/// What the device is asked in piece 1 of the part `all` of `test_repeated_access`.
pub open spec fn repeated_access_all_1_asks() -> Seq<Ask> {
    let sorted1 = Thing::Sorted { of: Box::new(repeated_access_all_table1()), keys: 1, turn: 1 };
    let sorted2 = Thing::Sorted { of: Box::new(repeated_access_all_table1()), keys: 1, turn: 2 };
    seq![
        Ask::Make(repeated_access_all_table1()),
        Ask::Make(sorted1),
        Ask::Make(sorted2),
        Ask::Make(repeated_access_all_kept1()),
        Ask::Words { of: sorted1, column: 0, scalar: Scalar::U32 },
        Ask::Words { of: sorted2, column: 0, scalar: Scalar::U32 },
    ]
}

/// Piece 1 of the part `all` of `test_repeated_access` asks what it should.
proof fn lemma_repeated_access_all_1(m: Moment, steps: Seq<Step>) -> (n: Moment)
    requires
        m.holds(),
        m.at == 0,
        m.used == 0,
        0 + 18 <= m.plan.steps.len(),
        forall|j: int| 0 <= j < 18 ==> m.plan.steps[0 + j] == #[trigger] steps[j],
        crate::stage::fills(
            steps[0],
            0,
            num(10000),
            modulo(plus(times(ix(), num(7)), num(13)), num(1000)),
        ),
        crate::stage::demands(
            steps[1],
            Request::Create { into: 0, layout: Layout::Val, scalar: Scalar::U32, from: 0 },
        ),
        crate::stage::demands(steps[2], Request::Sort { of: 0, keys: 1, into: 1 }),
        crate::stage::demands(steps[3], Request::Sort { of: 0, keys: 1, into: 2 }),
        crate::stage::fills(steps[4], 1, len(0), lt(here(0), num(500))),
        crate::stage::demands(steps[5], Request::Filter { of: 0, mask: 1, into: 3 }),
        crate::stage::demands(
            steps[6],
            Request::Download { of: 1, column: 0, scalar: Scalar::U32, into: 2 },
        ),
        crate::stage::demands(
            steps[7],
            Request::Download { of: 2, column: 0, scalar: Scalar::U32, into: 3 },
        ),
    ensures
        n.holds(),
        n.plan == m.plan,
        n.answers == m.answers,
        n.at == 0 + 8,
        n.used == m.used + 6,
        n.scene.buffer(0) == repeated_access_all_table1(),
        n.scene.buffer(3) == repeated_access_all_kept1(),
        crate::stage::asks(m.plan, m.answers, 0, repeated_access_all_1_asks()),
{
    crate::stage::lemma_full(m);
    crate::stage::lemma_asks_none(m, 0);
    let list0 = Seq::<Ask>::empty();
    let words1 = crate::stage::column(10000, |i: int| ((i * 7) + 13) % 1000);
    let word1 = modulo(plus(times(ix(), num(7)), num(13)), num(1000));
    assert forall|i: int| 0 <= i < words1.len() implies crate::stage::meaning(
        word1,
        m.contents,
        i,
    ) as u64 == #[trigger] words1[i] by {
        reveal_with_fuel(crate::stage::meaning, 5);
    }
    let m1 = crate::stage::lemma_filled(m, steps[0], 0, num(10000), word1, words1);
    let m2 = crate::stage::lemma_create(
        m1,
        steps[1],
        0,
        Layout::Val,
        Scalar::U32,
        0,
        repeated_access_all_table1(),
    );
    crate::stage::lemma_asks_more(m, 0, list0, Ask::Make(repeated_access_all_table1()));
    let list1 = list0.push(Ask::Make(repeated_access_all_table1()));
    let sorted1 = Thing::Sorted { of: Box::new(repeated_access_all_table1()), keys: 1, turn: 1 };
    let m3 = crate::stage::lemma_sort(m2, steps[2], 0, 1, 1, repeated_access_all_table1(), sorted1);
    crate::stage::lemma_asks_more(m, 0, list1, Ask::Make(sorted1));
    let list2 = list1.push(Ask::Make(sorted1));
    let sorted2 = Thing::Sorted { of: Box::new(repeated_access_all_table1()), keys: 1, turn: 2 };
    let m4 = crate::stage::lemma_sort(m3, steps[3], 0, 1, 2, repeated_access_all_table1(), sorted2);
    crate::stage::lemma_asks_more(m, 0, list2, Ask::Make(sorted2));
    let list3 = list2.push(Ask::Make(sorted2));
    let words2 = crate::stage::column(
        (words1.len() as int),
        |i: int| crate::stage::flag(((words1[i] as int) < 500)),
    );
    let word5 = lt(here(0), num(500));
    assert forall|i: int| 0 <= i < words2.len() implies crate::stage::meaning(
        word5,
        m4.contents,
        i,
    ) as u64 == #[trigger] words2[i] by {
        reveal_with_fuel(crate::stage::meaning, 4);
    }
    let m5 = crate::stage::lemma_filled(m4, steps[4], 1, len(0), word5, words2);
    let m6 = crate::stage::lemma_filter(
        m5,
        steps[5],
        0,
        1,
        3,
        repeated_access_all_table1(),
        words2,
        repeated_access_all_kept1(),
    );
    crate::stage::lemma_asks_more(m, 0, list3, Ask::Make(repeated_access_all_kept1()));
    let list4 = list3.push(Ask::Make(repeated_access_all_kept1()));
    let m7 = crate::stage::lemma_download(m6, steps[6], 1, 0, Scalar::U32, 2, sorted1);
    crate::stage::lemma_asks_more(
        m,
        0,
        list4,
        Ask::Words { of: sorted1, column: 0, scalar: Scalar::U32 },
    );
    let list5 = list4.push(Ask::Words { of: sorted1, column: 0, scalar: Scalar::U32 });
    let m8 = crate::stage::lemma_download(m7, steps[7], 2, 0, Scalar::U32, 3, sorted2);
    crate::stage::lemma_asks_more(
        m,
        0,
        list5,
        Ask::Words { of: sorted2, column: 0, scalar: Scalar::U32 },
    );
    let list6 = list5.push(Ask::Words { of: sorted2, column: 0, scalar: Scalar::U32 });
    assert(repeated_access_all_1_asks() == list6);
    m8
}

/// What the device is asked in piece 2 of the part `all` of `test_repeated_access`.
pub open spec fn repeated_access_all_2_asks() -> Seq<Ask> {
    let sorted3 = Thing::Sorted { of: Box::new(repeated_access_all_table1()), keys: 1, turn: 7 };
    seq![
        Ask::Words { of: repeated_access_all_kept1(), column: 0, scalar: Scalar::U32 },
        Ask::Make(sorted3),
        Ask::Words { of: sorted3, column: 0, scalar: Scalar::U32 },
    ]
}

/// Piece 2 of the part `all` of `test_repeated_access` asks what it should.
proof fn lemma_repeated_access_all_2(m: Moment, steps: Seq<Step>) -> (n: Moment)
    requires
        m.holds(),
        m.at == 0 + 8,
        m.used == 6,
        0 + 18 <= m.plan.steps.len(),
        forall|j: int| 0 <= j < 18 ==> m.plan.steps[0 + j] == #[trigger] steps[j],
        crate::stage::looks(steps[8]),
        crate::stage::works(steps[9], 4),
        crate::stage::looks(steps[10]),
        crate::stage::demands(
            steps[11],
            Request::Download { of: 3, column: 0, scalar: Scalar::U32, into: 5 },
        ),
        crate::stage::works(steps[12], 6),
        crate::stage::looks(steps[13]),
        crate::stage::demands(steps[14], Request::Sort { of: 0, keys: 1, into: 4 }),
        crate::stage::demands(
            steps[15],
            Request::Download { of: 4, column: 0, scalar: Scalar::U32, into: 7 },
        ),
        m.scene.buffer(0) == repeated_access_all_table1(),
        m.scene.buffer(3) == repeated_access_all_kept1(),
    ensures
        n.holds(),
        n.plan == m.plan,
        n.answers == m.answers,
        n.at == 0 + 16,
        n.used == m.used + 3,
        crate::stage::asks(m.plan, m.answers, 6, repeated_access_all_2_asks()),
{
    crate::stage::lemma_full(m);
    crate::stage::lemma_asks_none(m, 6);
    let list0 = Seq::<Ask>::empty();
    let m1 = crate::stage::lemma_look(m, steps[8]);
    let m2 = crate::stage::lemma_work(m1, steps[9], 4);
    let m3 = crate::stage::lemma_look(m2, steps[10]);
    let m4 = crate::stage::lemma_download(
        m3,
        steps[11],
        3,
        0,
        Scalar::U32,
        5,
        repeated_access_all_kept1(),
    );
    crate::stage::lemma_asks_more(
        m,
        6,
        list0,
        Ask::Words { of: repeated_access_all_kept1(), column: 0, scalar: Scalar::U32 },
    );
    let list1 = list0.push(
        Ask::Words { of: repeated_access_all_kept1(), column: 0, scalar: Scalar::U32 },
    );
    let m5 = crate::stage::lemma_work(m4, steps[12], 6);
    let m6 = crate::stage::lemma_look(m5, steps[13]);
    let sorted3 = Thing::Sorted { of: Box::new(repeated_access_all_table1()), keys: 1, turn: 7 };
    let m7 = crate::stage::lemma_sort(
        m6,
        steps[14],
        0,
        1,
        4,
        repeated_access_all_table1(),
        sorted3,
    );
    crate::stage::lemma_asks_more(m, 6, list1, Ask::Make(sorted3));
    let list2 = list1.push(Ask::Make(sorted3));
    let m8 = crate::stage::lemma_download(m7, steps[15], 4, 0, Scalar::U32, 7, sorted3);
    crate::stage::lemma_asks_more(
        m,
        6,
        list2,
        Ask::Words { of: sorted3, column: 0, scalar: Scalar::U32 },
    );
    let list3 = list2.push(Ask::Words { of: sorted3, column: 0, scalar: Scalar::U32 });
    assert(repeated_access_all_2_asks() == list3);
    m8
}

/// What the device is asked in piece 3 of the part `all` of `test_repeated_access`.
pub open spec fn repeated_access_all_3_asks() -> Seq<Ask> {
    seq![Ask::Other(Request::Sync)]
}

/// Piece 3 of the part `all` of `test_repeated_access` asks what it should.
proof fn lemma_repeated_access_all_3(m: Moment, steps: Seq<Step>) -> (n: Moment)
    requires
        m.holds(),
        m.at == 0 + 16,
        m.used == 9,
        0 + 18 <= m.plan.steps.len(),
        forall|j: int| 0 <= j < 18 ==> m.plan.steps[0 + j] == #[trigger] steps[j],
        crate::stage::looks(steps[16]),
        crate::stage::demands(steps[17], Request::Sync),
    ensures
        n.holds(),
        n.plan == m.plan,
        n.answers == m.answers,
        n.at == 0 + 18,
        n.used == m.used + 1,
        crate::stage::asks(m.plan, m.answers, 9, repeated_access_all_3_asks()),
{
    crate::stage::lemma_full(m);
    crate::stage::lemma_asks_none(m, 9);
    let list0 = Seq::<Ask>::empty();
    let m1 = crate::stage::lemma_look(m, steps[16]);
    let m2 = crate::stage::lemma_sync(m1, steps[17]);
    crate::stage::lemma_asks_more(m, 9, list0, Ask::Other(Request::Sync));
    let list1 = list0.push(Ask::Other(Request::Sync));
    assert(repeated_access_all_3_asks() == list1);
    m2
}

/// The steps of the part `all` of `test_repeated_access`.
proof fn lemma_repeated_access_all_steps()
    ensures
        ({
            let steps = crate::categories::c05_global_memory::repeated_access_steps();
            &&& steps.len() == 18
            &&& crate::stage::fills(
                steps[0],
                0,
                num(10000),
                modulo(plus(times(ix(), num(7)), num(13)), num(1000)),
            )
            &&& crate::stage::demands(
                steps[1],
                Request::Create { into: 0, layout: Layout::Val, scalar: Scalar::U32, from: 0 },
            )
            &&& crate::stage::demands(steps[2], Request::Sort { of: 0, keys: 1, into: 1 })
            &&& crate::stage::demands(steps[3], Request::Sort { of: 0, keys: 1, into: 2 })
            &&& crate::stage::fills(steps[4], 1, len(0), lt(here(0), num(500)))
            &&& crate::stage::demands(steps[5], Request::Filter { of: 0, mask: 1, into: 3 })
            &&& crate::stage::demands(
                steps[6],
                Request::Download { of: 1, column: 0, scalar: Scalar::U32, into: 2 },
            )
            &&& crate::stage::demands(
                steps[7],
                Request::Download { of: 2, column: 0, scalar: Scalar::U32, into: 3 },
            )
            &&& crate::stage::looks(steps[8])
            &&& crate::stage::works(steps[9], 4)
            &&& crate::stage::looks(steps[10])
            &&& crate::stage::demands(
                steps[11],
                Request::Download { of: 3, column: 0, scalar: Scalar::U32, into: 5 },
            )
            &&& crate::stage::works(steps[12], 6)
            &&& crate::stage::looks(steps[13])
            &&& crate::stage::demands(steps[14], Request::Sort { of: 0, keys: 1, into: 4 })
            &&& crate::stage::demands(
                steps[15],
                Request::Download { of: 4, column: 0, scalar: Scalar::U32, into: 7 },
            )
            &&& crate::stage::looks(steps[16])
            &&& crate::stage::demands(steps[17], Request::Sync)
        }),
{
}

/// In a run of `test_repeated_access` that passes the device is asked this, in this order, and
/// nothing else: each request about what an earlier one made is about that, and about what was
/// uploaded for it.
pub proof fn law_repeated_access_asks_about_what_it_made(answers: Seq<Answer>)
    requires
        crate::stage::passes(
            crate::script::plan(
                "test_repeated_access",
                crate::categories::c05_global_memory::repeated_access_steps(),
            ),
            answers,
        ),
    ensures
        crate::stage::asks(
            crate::script::plan(
                "test_repeated_access",
                crate::categories::c05_global_memory::repeated_access_steps(),
            ),
            answers,
            0,
            repeated_access_all_1_asks(),
        ),
        crate::stage::asks(
            crate::script::plan(
                "test_repeated_access",
                crate::categories::c05_global_memory::repeated_access_steps(),
            ),
            answers,
            6,
            repeated_access_all_2_asks(),
        ),
        crate::stage::asks(
            crate::script::plan(
                "test_repeated_access",
                crate::categories::c05_global_memory::repeated_access_steps(),
            ),
            answers,
            9,
            repeated_access_all_3_asks(),
        ),
        crate::stage::asked(
            crate::script::plan(
                "test_repeated_access",
                crate::categories::c05_global_memory::repeated_access_steps(),
            ),
            answers,
            10,
        ) is None,
{
    let plan = crate::script::plan(
        "test_repeated_access",
        crate::categories::c05_global_memory::repeated_access_steps(),
    );
    let part1 = crate::categories::c05_global_memory::repeated_access_steps();
    lemma_repeated_access_all_steps();
    let whole1 = part1;
    assert(plan.steps == whole1);
    let m0 = crate::stage::lemma_start(plan, answers);
    assert forall|j: int| 0 <= j < 18 implies plan.steps[0 + j] == #[trigger] part1[j] by {}
    let m1 = lemma_repeated_access_all_1(m0, part1);
    let m2 = lemma_repeated_access_all_2(m1, part1);
    let m3 = lemma_repeated_access_all_3(m2, part1);
    crate::stage::lemma_end(m3);
}

/// A buffer that is uploaded in the part `all` of `test_buffer_reuse`.
pub open spec fn buffer_reuse_all_table1() -> Thing {
    Thing::Table {
        layout: Layout::Val,
        scalar: Scalar::U32,
        columns: seq![crate::stage::column(5000, |i: int| i)],
        turn: 0,
    }
}

/// What is sorted in the part `all` of `test_buffer_reuse`.
pub open spec fn buffer_reuse_all_sorted1() -> Thing {
    Thing::Sorted { of: Box::new(buffer_reuse_all_table1()), keys: 1, turn: 2 }
}

/// A column that is filled in the part `all` of `test_buffer_reuse`.
pub open spec fn buffer_reuse_all_words2() -> Seq<u64> {
    crate::stage::column(5000, |i: int| crate::stage::flag(((i % 3) == 0)))
}

/// What the device is asked in piece 1 of the part `all` of `test_buffer_reuse`.
pub open spec fn buffer_reuse_all_1_asks() -> Seq<Ask> {
    seq![
        Ask::Make(buffer_reuse_all_table1()),
        Ask::Words { of: buffer_reuse_all_table1(), column: 0, scalar: Scalar::U32 },
        Ask::Make(buffer_reuse_all_sorted1()),
        Ask::Words { of: buffer_reuse_all_table1(), column: 0, scalar: Scalar::U32 },
    ]
}

/// Piece 1 of the part `all` of `test_buffer_reuse` asks what it should.
proof fn lemma_buffer_reuse_all_1(m: Moment, steps: Seq<Step>) -> (n: Moment)
    requires
        m.holds(),
        m.at == 0,
        m.used == 0,
        0 + 17 <= m.plan.steps.len(),
        forall|j: int| 0 <= j < 17 ==> m.plan.steps[0 + j] == #[trigger] steps[j],
        crate::stage::fills(steps[0], 0, num(5000), ix()),
        crate::stage::demands(
            steps[1],
            Request::Create { into: 0, layout: Layout::Val, scalar: Scalar::U32, from: 0 },
        ),
        crate::stage::demands(
            steps[2],
            Request::Download { of: 0, column: 0, scalar: Scalar::U32, into: 1 },
        ),
        crate::stage::looks(steps[3]),
        crate::stage::demands(steps[4], Request::Sort { of: 0, keys: 1, into: 1 }),
        crate::stage::demands(
            steps[5],
            Request::Download { of: 0, column: 0, scalar: Scalar::U32, into: 1 },
        ),
        crate::stage::looks(steps[6]),
        crate::stage::fills(steps[7], 2, num(5000), same_as(modulo(ix(), num(3)), num(0))),
    ensures
        n.holds(),
        n.plan == m.plan,
        n.answers == m.answers,
        n.at == 0 + 8,
        n.used == m.used + 4,
        n.contents.columns[2] == buffer_reuse_all_words2(),
        n.scene.buffer(0) == buffer_reuse_all_table1(),
        n.scene.buffer(1) == buffer_reuse_all_sorted1(),
        crate::stage::asks(m.plan, m.answers, 0, buffer_reuse_all_1_asks()),
{
    crate::stage::lemma_full(m);
    crate::stage::lemma_asks_none(m, 0);
    let list0 = Seq::<Ask>::empty();
    let words1 = crate::stage::column(5000, |i: int| i);
    let word1 = ix();
    assert forall|i: int| 0 <= i < words1.len() implies crate::stage::meaning(
        word1,
        m.contents,
        i,
    ) as u64 == #[trigger] words1[i] by {
        reveal_with_fuel(crate::stage::meaning, 1);
    }
    let m1 = crate::stage::lemma_filled(m, steps[0], 0, num(5000), word1, words1);
    let m2 = crate::stage::lemma_create(
        m1,
        steps[1],
        0,
        Layout::Val,
        Scalar::U32,
        0,
        buffer_reuse_all_table1(),
    );
    crate::stage::lemma_asks_more(m, 0, list0, Ask::Make(buffer_reuse_all_table1()));
    let list1 = list0.push(Ask::Make(buffer_reuse_all_table1()));
    let m3 = crate::stage::lemma_download(
        m2,
        steps[2],
        0,
        0,
        Scalar::U32,
        1,
        buffer_reuse_all_table1(),
    );
    crate::stage::lemma_asks_more(
        m,
        0,
        list1,
        Ask::Words { of: buffer_reuse_all_table1(), column: 0, scalar: Scalar::U32 },
    );
    let list2 = list1.push(
        Ask::Words { of: buffer_reuse_all_table1(), column: 0, scalar: Scalar::U32 },
    );
    let m4 = crate::stage::lemma_look(m3, steps[3]);
    let m5 = crate::stage::lemma_sort(
        m4,
        steps[4],
        0,
        1,
        1,
        buffer_reuse_all_table1(),
        buffer_reuse_all_sorted1(),
    );
    crate::stage::lemma_asks_more(m, 0, list2, Ask::Make(buffer_reuse_all_sorted1()));
    let list3 = list2.push(Ask::Make(buffer_reuse_all_sorted1()));
    let m6 = crate::stage::lemma_download(
        m5,
        steps[5],
        0,
        0,
        Scalar::U32,
        1,
        buffer_reuse_all_table1(),
    );
    crate::stage::lemma_asks_more(
        m,
        0,
        list3,
        Ask::Words { of: buffer_reuse_all_table1(), column: 0, scalar: Scalar::U32 },
    );
    let list4 = list3.push(
        Ask::Words { of: buffer_reuse_all_table1(), column: 0, scalar: Scalar::U32 },
    );
    let m7 = crate::stage::lemma_look(m6, steps[6]);
    let words2 = buffer_reuse_all_words2();
    let word8 = same_as(modulo(ix(), num(3)), num(0));
    assert forall|i: int| 0 <= i < words2.len() implies crate::stage::meaning(
        word8,
        m7.contents,
        i,
    ) as u64 == #[trigger] words2[i] by {
        reveal_with_fuel(crate::stage::meaning, 4);
    }
    let m8 = crate::stage::lemma_filled(m7, steps[7], 2, num(5000), word8, words2);
    assert(buffer_reuse_all_1_asks() == list4);
    m8
}

/// What the device is asked in piece 2 of the part `all` of `test_buffer_reuse`.
pub open spec fn buffer_reuse_all_2_asks() -> Seq<Ask> {
    let kept1 = Thing::Kept {
        of: Box::new(buffer_reuse_all_table1()),
        mask: buffer_reuse_all_words2(),
        turn: 4,
    };
    seq![
        Ask::Make(kept1),
        Ask::Words { of: buffer_reuse_all_table1(), column: 0, scalar: Scalar::U32 },
        Ask::Words { of: buffer_reuse_all_sorted1(), column: 0, scalar: Scalar::U32 },
        Ask::Words { of: kept1, column: 0, scalar: Scalar::U32 },
    ]
}

/// Piece 2 of the part `all` of `test_buffer_reuse` asks what it should.
proof fn lemma_buffer_reuse_all_2(m: Moment, steps: Seq<Step>) -> (n: Moment)
    requires
        m.holds(),
        m.at == 0 + 8,
        m.used == 4,
        0 + 17 <= m.plan.steps.len(),
        forall|j: int| 0 <= j < 17 ==> m.plan.steps[0 + j] == #[trigger] steps[j],
        crate::stage::demands(steps[8], Request::Filter { of: 0, mask: 2, into: 2 }),
        crate::stage::demands(
            steps[9],
            Request::Download { of: 0, column: 0, scalar: Scalar::U32, into: 1 },
        ),
        crate::stage::looks(steps[10]),
        crate::stage::demands(
            steps[11],
            Request::Download { of: 1, column: 0, scalar: Scalar::U32, into: 1 },
        ),
        crate::stage::looks(steps[12]),
        crate::stage::demands(
            steps[13],
            Request::Download { of: 2, column: 0, scalar: Scalar::U32, into: 1 },
        ),
        crate::stage::works(steps[14], 3),
        crate::stage::looks(steps[15]),
        m.contents.columns[2] == buffer_reuse_all_words2(),
        m.scene.buffer(0) == buffer_reuse_all_table1(),
        m.scene.buffer(1) == buffer_reuse_all_sorted1(),
    ensures
        n.holds(),
        n.plan == m.plan,
        n.answers == m.answers,
        n.at == 0 + 16,
        n.used == m.used + 4,
        crate::stage::asks(m.plan, m.answers, 4, buffer_reuse_all_2_asks()),
{
    crate::stage::lemma_full(m);
    crate::stage::lemma_asks_none(m, 4);
    let list0 = Seq::<Ask>::empty();
    let kept1 = Thing::Kept {
        of: Box::new(buffer_reuse_all_table1()),
        mask: buffer_reuse_all_words2(),
        turn: 4,
    };
    let m1 = crate::stage::lemma_filter(
        m,
        steps[8],
        0,
        2,
        2,
        buffer_reuse_all_table1(),
        buffer_reuse_all_words2(),
        kept1,
    );
    crate::stage::lemma_asks_more(m, 4, list0, Ask::Make(kept1));
    let list1 = list0.push(Ask::Make(kept1));
    let m2 = crate::stage::lemma_download(
        m1,
        steps[9],
        0,
        0,
        Scalar::U32,
        1,
        buffer_reuse_all_table1(),
    );
    crate::stage::lemma_asks_more(
        m,
        4,
        list1,
        Ask::Words { of: buffer_reuse_all_table1(), column: 0, scalar: Scalar::U32 },
    );
    let list2 = list1.push(
        Ask::Words { of: buffer_reuse_all_table1(), column: 0, scalar: Scalar::U32 },
    );
    let m3 = crate::stage::lemma_look(m2, steps[10]);
    let m4 = crate::stage::lemma_download(
        m3,
        steps[11],
        1,
        0,
        Scalar::U32,
        1,
        buffer_reuse_all_sorted1(),
    );
    crate::stage::lemma_asks_more(
        m,
        4,
        list2,
        Ask::Words { of: buffer_reuse_all_sorted1(), column: 0, scalar: Scalar::U32 },
    );
    let list3 = list2.push(
        Ask::Words { of: buffer_reuse_all_sorted1(), column: 0, scalar: Scalar::U32 },
    );
    let m5 = crate::stage::lemma_look(m4, steps[12]);
    let m6 = crate::stage::lemma_download(m5, steps[13], 2, 0, Scalar::U32, 1, kept1);
    crate::stage::lemma_asks_more(
        m,
        4,
        list3,
        Ask::Words { of: kept1, column: 0, scalar: Scalar::U32 },
    );
    let list4 = list3.push(Ask::Words { of: kept1, column: 0, scalar: Scalar::U32 });
    let m7 = crate::stage::lemma_work(m6, steps[14], 3);
    let m8 = crate::stage::lemma_look(m7, steps[15]);
    assert(buffer_reuse_all_2_asks() == list4);
    m8
}

/// What the device is asked in piece 3 of the part `all` of `test_buffer_reuse`.
pub open spec fn buffer_reuse_all_3_asks() -> Seq<Ask> {
    seq![Ask::Other(Request::Sync)]
}

/// Piece 3 of the part `all` of `test_buffer_reuse` asks what it should.
proof fn lemma_buffer_reuse_all_3(m: Moment, steps: Seq<Step>) -> (n: Moment)
    requires
        m.holds(),
        m.at == 0 + 16,
        m.used == 8,
        0 + 17 <= m.plan.steps.len(),
        forall|j: int| 0 <= j < 17 ==> m.plan.steps[0 + j] == #[trigger] steps[j],
        crate::stage::demands(steps[16], Request::Sync),
    ensures
        n.holds(),
        n.plan == m.plan,
        n.answers == m.answers,
        n.at == 0 + 17,
        n.used == m.used + 1,
        crate::stage::asks(m.plan, m.answers, 8, buffer_reuse_all_3_asks()),
{
    crate::stage::lemma_full(m);
    crate::stage::lemma_asks_none(m, 8);
    let list0 = Seq::<Ask>::empty();
    let m1 = crate::stage::lemma_sync(m, steps[16]);
    crate::stage::lemma_asks_more(m, 8, list0, Ask::Other(Request::Sync));
    let list1 = list0.push(Ask::Other(Request::Sync));
    assert(buffer_reuse_all_3_asks() == list1);
    m1
}

/// The steps of the part `all` of `test_buffer_reuse`.
proof fn lemma_buffer_reuse_all_steps()
    ensures
        ({
            let steps = crate::categories::c05_global_memory::buffer_reuse_steps();
            &&& steps.len() == 17
            &&& crate::stage::fills(steps[0], 0, num(5000), ix())
            &&& crate::stage::demands(
                steps[1],
                Request::Create { into: 0, layout: Layout::Val, scalar: Scalar::U32, from: 0 },
            )
            &&& crate::stage::demands(
                steps[2],
                Request::Download { of: 0, column: 0, scalar: Scalar::U32, into: 1 },
            )
            &&& crate::stage::looks(steps[3])
            &&& crate::stage::demands(steps[4], Request::Sort { of: 0, keys: 1, into: 1 })
            &&& crate::stage::demands(
                steps[5],
                Request::Download { of: 0, column: 0, scalar: Scalar::U32, into: 1 },
            )
            &&& crate::stage::looks(steps[6])
            &&& crate::stage::fills(steps[7], 2, num(5000), same_as(modulo(ix(), num(3)), num(0)))
            &&& crate::stage::demands(steps[8], Request::Filter { of: 0, mask: 2, into: 2 })
            &&& crate::stage::demands(
                steps[9],
                Request::Download { of: 0, column: 0, scalar: Scalar::U32, into: 1 },
            )
            &&& crate::stage::looks(steps[10])
            &&& crate::stage::demands(
                steps[11],
                Request::Download { of: 1, column: 0, scalar: Scalar::U32, into: 1 },
            )
            &&& crate::stage::looks(steps[12])
            &&& crate::stage::demands(
                steps[13],
                Request::Download { of: 2, column: 0, scalar: Scalar::U32, into: 1 },
            )
            &&& crate::stage::works(steps[14], 3)
            &&& crate::stage::looks(steps[15])
            &&& crate::stage::demands(steps[16], Request::Sync)
        }),
{
}

/// In a run of `test_buffer_reuse` that passes the device is asked this, in this order, and nothing
/// else: each request about what an earlier one made is about that, and about what was uploaded for
/// it.
pub proof fn law_buffer_reuse_asks_about_what_it_made(answers: Seq<Answer>)
    requires
        crate::stage::passes(
            crate::script::plan(
                "test_buffer_reuse",
                crate::categories::c05_global_memory::buffer_reuse_steps(),
            ),
            answers,
        ),
    ensures
        crate::stage::asks(
            crate::script::plan(
                "test_buffer_reuse",
                crate::categories::c05_global_memory::buffer_reuse_steps(),
            ),
            answers,
            0,
            buffer_reuse_all_1_asks(),
        ),
        crate::stage::asks(
            crate::script::plan(
                "test_buffer_reuse",
                crate::categories::c05_global_memory::buffer_reuse_steps(),
            ),
            answers,
            4,
            buffer_reuse_all_2_asks(),
        ),
        crate::stage::asks(
            crate::script::plan(
                "test_buffer_reuse",
                crate::categories::c05_global_memory::buffer_reuse_steps(),
            ),
            answers,
            8,
            buffer_reuse_all_3_asks(),
        ),
        crate::stage::asked(
            crate::script::plan(
                "test_buffer_reuse",
                crate::categories::c05_global_memory::buffer_reuse_steps(),
            ),
            answers,
            9,
        ) is None,
{
    let plan = crate::script::plan(
        "test_buffer_reuse",
        crate::categories::c05_global_memory::buffer_reuse_steps(),
    );
    let part1 = crate::categories::c05_global_memory::buffer_reuse_steps();
    lemma_buffer_reuse_all_steps();
    let whole1 = part1;
    assert(plan.steps == whole1);
    let m0 = crate::stage::lemma_start(plan, answers);
    assert forall|j: int| 0 <= j < 17 implies plan.steps[0 + j] == #[trigger] part1[j] by {}
    let m1 = lemma_buffer_reuse_all_1(m0, part1);
    let m2 = lemma_buffer_reuse_all_2(m1, part1);
    let m3 = lemma_buffer_reuse_all_3(m2, part1);
    crate::stage::lemma_end(m3);
}

} // verus!
