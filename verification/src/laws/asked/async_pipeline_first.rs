//! What these tests ask the device in runs that pass: `test_sequential_operations`,
//! `test_operation_dependencies`, `test_sync_between_operations`.

use vstd::prelude::*;
use crate::expr::{here, ix, len, lt, modulo, not, num, plus, same_as, times};
use crate::machine::Answer;
use crate::scalar::Scalar;
use crate::script::{Layout, Request, Step};
use crate::stage::{Ask, Moment, Thing};

verus! {

/// A buffer that is uploaded in the part `between` of `test_sequential_operations`.
pub open spec fn sequential_operations_between_table1() -> Thing {
    Thing::Table {
        layout: Layout::Val,
        scalar: Scalar::U32,
        columns: seq![crate::stage::column(1000, |i: int| i)],
        turn: 200,
    }
}

/// What the device is asked in round `k` of the part `sorts` of `test_sequential_operations`.
pub open spec fn sequential_operations_sorts_asks(k: int) -> Seq<Ask> {
    let words1 = crate::stage::column(1000, |i: int| (i + (k * 1000)) % 10000);
    let table1 = Thing::Table {
        layout: Layout::Val,
        scalar: Scalar::U32,
        columns: seq![words1],
        turn: 0 + 4 * k,
    };
    let sorted1 = Thing::Sorted { of: Box::new(table1), keys: 1, turn: 1 + 4 * k };
    seq![
        Ask::Make(table1),
        Ask::Make(sorted1),
        Ask::Words { of: sorted1, column: 0, scalar: Scalar::U32 },
        Ask::Other(Request::Release { from: 0 }),
    ]
}

/// Round `k` of the part `sorts` of `test_sequential_operations` asks what it should.
proof fn lemma_sequential_operations_sorts(m: Moment, steps: Seq<Step>, k: int) -> (n: Moment)
    requires
        0 <= k < 50,
        m.holds(),
        m.at == 0 + 6 * k,
        m.used == 0 + 4 * k,
        0 + 6 * k + 6 <= m.plan.steps.len(),
        forall|j: int| 0 <= j < 6 ==> m.plan.steps[0 + 6 * k + j] == #[trigger] steps[j],
        crate::stage::fills(
            steps[0],
            0,
            num(1000),
            modulo(plus(ix(), times(num(k as u64), num(1000))), num(10000)),
        ),
        crate::stage::demands(
            steps[1],
            Request::Create { into: 0, layout: Layout::Val, scalar: Scalar::U32, from: 0 },
        ),
        crate::stage::demands(steps[2], Request::Sort { of: 0, keys: 1, into: 1 }),
        crate::stage::demands(
            steps[3],
            Request::Download { of: 1, column: 0, scalar: Scalar::U32, into: 1 },
        ),
        crate::stage::looks(steps[4]),
        crate::stage::inquires(steps[5], Request::Release { from: 0 }),
    ensures
        n.holds(),
        n.plan == m.plan,
        n.answers == m.answers,
        n.at == 0 + 6 * k + 6,
        n.used == m.used + 4,
        crate::stage::asks(m.plan, m.answers, 0 + 4 * k, sequential_operations_sorts_asks(k)),
{
    crate::stage::lemma_full(m);
    crate::stage::lemma_asks_none(m, 0 + 4 * k);
    let list0 = Seq::<Ask>::empty();
    let words1 = crate::stage::column(1000, |i: int| (i + (k * 1000)) % 10000);
    let word1 = modulo(plus(ix(), times(num(k as u64), num(1000))), num(10000));
    assert forall|i: int| 0 <= i < words1.len() implies crate::stage::meaning(
        word1,
        m.contents,
        i,
    ) as u64 == #[trigger] words1[i] by {
        reveal_with_fuel(crate::stage::meaning, 5);
    }
    let m1 = crate::stage::lemma_filled(m, steps[0], 0, num(1000), word1, words1);
    let table1 = Thing::Table {
        layout: Layout::Val,
        scalar: Scalar::U32,
        columns: seq![words1],
        turn: 0 + 4 * k,
    };
    let m2 = crate::stage::lemma_create(m1, steps[1], 0, Layout::Val, Scalar::U32, 0, table1);
    crate::stage::lemma_asks_more(m, 0 + 4 * k, list0, Ask::Make(table1));
    let list1 = list0.push(Ask::Make(table1));
    let sorted1 = Thing::Sorted { of: Box::new(table1), keys: 1, turn: 1 + 4 * k };
    let m3 = crate::stage::lemma_sort(m2, steps[2], 0, 1, 1, table1, sorted1);
    crate::stage::lemma_asks_more(m, 0 + 4 * k, list1, Ask::Make(sorted1));
    let list2 = list1.push(Ask::Make(sorted1));
    let m4 = crate::stage::lemma_download(m3, steps[3], 1, 0, Scalar::U32, 1, sorted1);
    crate::stage::lemma_asks_more(
        m,
        0 + 4 * k,
        list2,
        Ask::Words { of: sorted1, column: 0, scalar: Scalar::U32 },
    );
    let list3 = list2.push(Ask::Words { of: sorted1, column: 0, scalar: Scalar::U32 });
    let m5 = crate::stage::lemma_look(m4, steps[4]);
    let m6 = crate::stage::lemma_release(m5, steps[5], 0);
    crate::stage::lemma_asks_more(m, 0 + 4 * k, list3, Ask::Other(Request::Release { from: 0 }));
    let list4 = list3.push(Ask::Other(Request::Release { from: 0 }));
    assert(sequential_operations_sorts_asks(k) == list4);
    m6
}

/// The steps of the part `sorts` of `test_sequential_operations`.
proof fn lemma_sequential_operations_sorts_steps(k: int)
    ensures
        ({
            let steps = crate::categories::c16_async_pipeline::sequential_operations_sorts_round(
                k as u64,
            );
            &&& steps.len() == 6
            &&& crate::stage::fills(
                steps[0],
                0,
                num(1000),
                modulo(plus(ix(), times(num(k as u64), num(1000))), num(10000)),
            )
            &&& crate::stage::demands(
                steps[1],
                Request::Create { into: 0, layout: Layout::Val, scalar: Scalar::U32, from: 0 },
            )
            &&& crate::stage::demands(steps[2], Request::Sort { of: 0, keys: 1, into: 1 })
            &&& crate::stage::demands(
                steps[3],
                Request::Download { of: 1, column: 0, scalar: Scalar::U32, into: 1 },
            )
            &&& crate::stage::looks(steps[4])
            &&& crate::stage::inquires(steps[5], Request::Release { from: 0 })
        }),
{
}

/// The first `k` rounds of the part `sorts` of `test_sequential_operations` ask what they should.
proof fn lemma_sequential_operations_sorts_rounds(m: Moment, part: Seq<Step>, k: int) -> (n: Moment)
    requires
        0 <= k <= 50,
        m.holds(),
        m.at == 0,
        m.used == 0 + 4 * 0,
        m.at + 300 <= m.plan.steps.len(),
        part == crate::script::rounds(
            50,
            |k: int| crate::categories::c16_async_pipeline::sequential_operations_sorts_round(
                k as u64,
            ),
        ),
        forall|j: int| 0 <= j < 300 ==> m.plan.steps[0 + j] == #[trigger] part[j],
    ensures
        n.holds(),
        n.plan == m.plan,
        n.answers == m.answers,
        n.at == 0 + 6 * k,
        n.used == 0 + 4 * k,
        forall|j: int|
            0 <= j < k ==> crate::stage::asks(
                m.plan,
                m.answers,
                0 + 4 * j,
                #[trigger] sequential_operations_sorts_asks(j),
            ),
    decreases k,
{
    if k == 0 {
        m
    } else {
        let round = |k: int| crate::categories::c16_async_pipeline::sequential_operations_sorts_round(
            k as u64,
        );
        let before = lemma_sequential_operations_sorts_rounds(m, part, k - 1);
        assert forall|j: int| 0 <= j < 6 implies m.plan.steps[before.at + j] == #[trigger] crate::categories::c16_async_pipeline::sequential_operations_sorts_round(
            (k - 1) as u64,
        )[j] by {
            assert forall|k: int| 0 <= k < 50 implies (#[trigger] round(k)).len() == 6 by {
                lemma_sequential_operations_sorts_steps(k);
            }
            crate::stage::lemma_round_place(50, round, 6, k - 1, j);
            assert(part[(k - 1) * 6 + j] == round(k - 1)[j]);
        }
        lemma_sequential_operations_sorts_steps(k - 1);
        lemma_sequential_operations_sorts(
            before,
            crate::categories::c16_async_pipeline::sequential_operations_sorts_round(
                (k - 1) as u64,
            ),
            k - 1,
        )
    }
}

/// What the device is asked in the part `between` of `test_sequential_operations`.
pub open spec fn sequential_operations_between_asks() -> Seq<Ask> {
    seq![Ask::Make(sequential_operations_between_table1())]
}

/// The part `between` of `test_sequential_operations` asks what it should.
proof fn lemma_sequential_operations_between(m: Moment, steps: Seq<Step>) -> (n: Moment)
    requires
        m.holds(),
        m.at == 300,
        m.used == 200,
        300 + 2 <= m.plan.steps.len(),
        forall|j: int| 0 <= j < 2 ==> m.plan.steps[300 + j] == #[trigger] steps[j],
        crate::stage::fills(steps[0], 0, num(1000), ix()),
        crate::stage::demands(
            steps[1],
            Request::Create { into: 0, layout: Layout::Val, scalar: Scalar::U32, from: 0 },
        ),
    ensures
        n.holds(),
        n.plan == m.plan,
        n.answers == m.answers,
        n.at == 300 + 2,
        n.used == m.used + 1,
        n.scene.buffer(0) == sequential_operations_between_table1(),
        crate::stage::asks(m.plan, m.answers, 200, sequential_operations_between_asks()),
{
    crate::stage::lemma_full(m);
    crate::stage::lemma_asks_none(m, 200);
    let list0 = Seq::<Ask>::empty();
    let words1 = crate::stage::column(1000, |i: int| i);
    let word1 = ix();
    assert forall|i: int| 0 <= i < words1.len() implies crate::stage::meaning(
        word1,
        m.contents,
        i,
    ) as u64 == #[trigger] words1[i] by {
        reveal_with_fuel(crate::stage::meaning, 1);
    }
    let m1 = crate::stage::lemma_filled(m, steps[0], 0, num(1000), word1, words1);
    let m2 = crate::stage::lemma_create(
        m1,
        steps[1],
        0,
        Layout::Val,
        Scalar::U32,
        0,
        sequential_operations_between_table1(),
    );
    crate::stage::lemma_asks_more(m, 200, list0, Ask::Make(sequential_operations_between_table1()));
    let list1 = list0.push(Ask::Make(sequential_operations_between_table1()));
    assert(sequential_operations_between_asks() == list1);
    m2
}

/// The steps of the part `between` of `test_sequential_operations`.
proof fn lemma_sequential_operations_between_steps()
    ensures
        ({
            let steps = crate::categories::c16_async_pipeline::sequential_operations_between_steps();
            &&& steps.len() == 2
            &&& crate::stage::fills(steps[0], 0, num(1000), ix())
            &&& crate::stage::demands(
                steps[1],
                Request::Create { into: 0, layout: Layout::Val, scalar: Scalar::U32, from: 0 },
            )
        }),
{
}

/// What the device is asked in round `k` of the part `filters` of `test_sequential_operations`.
pub open spec fn sequential_operations_filters_asks(k: int) -> Seq<Ask> {
    let words1 = crate::stage::column(1000, |i: int| crate::stage::flag(!(i < ((k * 10) % 1000))));
    let kept1 = Thing::Kept {
        of: Box::new(sequential_operations_between_table1()),
        mask: words1,
        turn: 201 + 3 * k,
    };
    seq![Ask::Make(kept1), Ask::Rows(kept1), Ask::Other(Request::Release { from: 1 })]
}

/// Round `k` of the part `filters` of `test_sequential_operations` asks what it should.
proof fn lemma_sequential_operations_filters(m: Moment, steps: Seq<Step>, k: int) -> (n: Moment)
    requires
        0 <= k < 50,
        m.holds(),
        m.at == 302 + 4 * k,
        m.used == 201 + 3 * k,
        302 + 4 * k + 4 <= m.plan.steps.len(),
        forall|j: int| 0 <= j < 4 ==> m.plan.steps[302 + 4 * k + j] == #[trigger] steps[j],
        crate::stage::fills(
            steps[0],
            1,
            num(1000),
            not(lt(ix(), modulo(times(num(k as u64), num(10)), num(1000)))),
        ),
        crate::stage::demands(steps[1], Request::Filter { of: 0, mask: 1, into: 1 }),
        crate::stage::counts(steps[2], 1),
        crate::stage::inquires(steps[3], Request::Release { from: 1 }),
        m.scene.buffer(0) == sequential_operations_between_table1(),
    ensures
        n.holds(),
        n.plan == m.plan,
        n.answers == m.answers,
        n.at == 302 + 4 * k + 4,
        n.used == m.used + 3,
        n.scene.buffer(0) == sequential_operations_between_table1(),
        crate::stage::asks(m.plan, m.answers, 201 + 3 * k, sequential_operations_filters_asks(k)),
{
    crate::stage::lemma_full(m);
    crate::stage::lemma_asks_none(m, 201 + 3 * k);
    let list0 = Seq::<Ask>::empty();
    let words1 = crate::stage::column(1000, |i: int| crate::stage::flag(!(i < ((k * 10) % 1000))));
    let word1 = not(lt(ix(), modulo(times(num(k as u64), num(10)), num(1000))));
    assert forall|i: int| 0 <= i < words1.len() implies crate::stage::meaning(
        word1,
        m.contents,
        i,
    ) as u64 == #[trigger] words1[i] by {
        reveal_with_fuel(crate::stage::meaning, 6);
    }
    let m1 = crate::stage::lemma_filled(m, steps[0], 1, num(1000), word1, words1);
    let kept1 = Thing::Kept {
        of: Box::new(sequential_operations_between_table1()),
        mask: words1,
        turn: 201 + 3 * k,
    };
    let m2 = crate::stage::lemma_filter(
        m1,
        steps[1],
        0,
        1,
        1,
        sequential_operations_between_table1(),
        words1,
        kept1,
    );
    crate::stage::lemma_asks_more(m, 201 + 3 * k, list0, Ask::Make(kept1));
    let list1 = list0.push(Ask::Make(kept1));
    let m3 = crate::stage::lemma_count(m2, steps[2], 1, kept1);
    crate::stage::lemma_asks_more(m, 201 + 3 * k, list1, Ask::Rows(kept1));
    let list2 = list1.push(Ask::Rows(kept1));
    let m4 = crate::stage::lemma_release(m3, steps[3], 1);
    crate::stage::lemma_asks_more(m, 201 + 3 * k, list2, Ask::Other(Request::Release { from: 1 }));
    let list3 = list2.push(Ask::Other(Request::Release { from: 1 }));
    assert(sequential_operations_filters_asks(k) == list3);
    m4
}

/// The steps of the part `filters` of `test_sequential_operations`.
proof fn lemma_sequential_operations_filters_steps(k: int)
    ensures
        ({
            let steps = crate::categories::c16_async_pipeline::sequential_operations_filters_round(
                k as u64,
            );
            &&& steps.len() == 4
            &&& crate::stage::fills(
                steps[0],
                1,
                num(1000),
                not(lt(ix(), modulo(times(num(k as u64), num(10)), num(1000)))),
            )
            &&& crate::stage::demands(steps[1], Request::Filter { of: 0, mask: 1, into: 1 })
            &&& crate::stage::counts(steps[2], 1)
            &&& crate::stage::inquires(steps[3], Request::Release { from: 1 })
        }),
{
}

/// The first `k` rounds of the part `filters` of `test_sequential_operations` ask what they should.
proof fn lemma_sequential_operations_filters_rounds(
    m: Moment,
    part: Seq<Step>,
    k: int,
) -> (n: Moment)
    requires
        0 <= k <= 50,
        m.holds(),
        m.at == 302,
        m.used == 201 + 3 * 0,
        m.at + 200 <= m.plan.steps.len(),
        part == crate::script::rounds(
            50,
            |k: int| crate::categories::c16_async_pipeline::sequential_operations_filters_round(
                k as u64,
            ),
        ),
        forall|j: int| 0 <= j < 200 ==> m.plan.steps[302 + j] == #[trigger] part[j],
        m.scene.buffer(0) == sequential_operations_between_table1(),
    ensures
        n.holds(),
        n.plan == m.plan,
        n.answers == m.answers,
        n.at == 302 + 4 * k,
        n.used == 201 + 3 * k,
        n.scene.buffer(0) == sequential_operations_between_table1(),
        forall|j: int|
            0 <= j < k ==> crate::stage::asks(
                m.plan,
                m.answers,
                201 + 3 * j,
                #[trigger] sequential_operations_filters_asks(j),
            ),
    decreases k,
{
    if k == 0 {
        m
    } else {
        let round = |k: int| crate::categories::c16_async_pipeline::sequential_operations_filters_round(
            k as u64,
        );
        let before = lemma_sequential_operations_filters_rounds(m, part, k - 1);
        assert forall|j: int| 0 <= j < 4 implies m.plan.steps[before.at + j] == #[trigger] crate::categories::c16_async_pipeline::sequential_operations_filters_round(
            (k - 1) as u64,
        )[j] by {
            assert forall|k: int| 0 <= k < 50 implies (#[trigger] round(k)).len() == 4 by {
                lemma_sequential_operations_filters_steps(k);
            }
            crate::stage::lemma_round_place(50, round, 4, k - 1, j);
            assert(part[(k - 1) * 4 + j] == round(k - 1)[j]);
        }
        lemma_sequential_operations_filters_steps(k - 1);
        lemma_sequential_operations_filters(
            before,
            crate::categories::c16_async_pipeline::sequential_operations_filters_round(
                (k - 1) as u64,
            ),
            k - 1,
        )
    }
}

/// What the device is asked in the part `end` of `test_sequential_operations`.
pub open spec fn sequential_operations_end_asks() -> Seq<Ask> {
    seq![Ask::Other(Request::Sync)]
}

/// The part `end` of `test_sequential_operations` asks what it should.
proof fn lemma_sequential_operations_end(m: Moment, steps: Seq<Step>) -> (n: Moment)
    requires
        m.holds(),
        m.at == 502,
        m.used == 351,
        502 + 1 <= m.plan.steps.len(),
        forall|j: int| 0 <= j < 1 ==> m.plan.steps[502 + j] == #[trigger] steps[j],
        crate::stage::demands(steps[0], Request::Sync),
    ensures
        n.holds(),
        n.plan == m.plan,
        n.answers == m.answers,
        n.at == 502 + 1,
        n.used == m.used + 1,
        crate::stage::asks(m.plan, m.answers, 351, sequential_operations_end_asks()),
{
    crate::stage::lemma_full(m);
    crate::stage::lemma_asks_none(m, 351);
    let list0 = Seq::<Ask>::empty();
    let m1 = crate::stage::lemma_sync(m, steps[0]);
    crate::stage::lemma_asks_more(m, 351, list0, Ask::Other(Request::Sync));
    let list1 = list0.push(Ask::Other(Request::Sync));
    assert(sequential_operations_end_asks() == list1);
    m1
}

/// The steps of the part `end` of `test_sequential_operations`.
proof fn lemma_sequential_operations_end_steps()
    ensures
        ({
            let steps = crate::categories::c16_async_pipeline::sequential_operations_end_steps();
            &&& steps.len() == 1
            &&& crate::stage::demands(steps[0], Request::Sync)
        }),
{
}

/// In a run of `test_sequential_operations` that passes the device is asked this, in this order,
/// and nothing else: each request about what an earlier one made is about that, and about what was
/// uploaded for it.
pub proof fn law_sequential_operations_asks_about_what_it_made(answers: Seq<Answer>)
    requires
        crate::stage::passes(
            crate::script::plan(
                "test_sequential_operations",
                crate::categories::c16_async_pipeline::sequential_operations_steps(),
            ),
            answers,
        ),
    ensures
        forall|k: int|
            0 <= k < 50 ==> crate::stage::asks(
                crate::script::plan(
                    "test_sequential_operations",
                    crate::categories::c16_async_pipeline::sequential_operations_steps(),
                ),
                answers,
                0 + 4 * k,
                #[trigger] sequential_operations_sorts_asks(k),
            ),
        crate::stage::asks(
            crate::script::plan(
                "test_sequential_operations",
                crate::categories::c16_async_pipeline::sequential_operations_steps(),
            ),
            answers,
            200,
            sequential_operations_between_asks(),
        ),
        forall|k: int|
            0 <= k < 50 ==> crate::stage::asks(
                crate::script::plan(
                    "test_sequential_operations",
                    crate::categories::c16_async_pipeline::sequential_operations_steps(),
                ),
                answers,
                201 + 3 * k,
                #[trigger] sequential_operations_filters_asks(k),
            ),
        crate::stage::asks(
            crate::script::plan(
                "test_sequential_operations",
                crate::categories::c16_async_pipeline::sequential_operations_steps(),
            ),
            answers,
            351,
            sequential_operations_end_asks(),
        ),
        crate::stage::asked(
            crate::script::plan(
                "test_sequential_operations",
                crate::categories::c16_async_pipeline::sequential_operations_steps(),
            ),
            answers,
            352,
        ) is None,
{
    let plan = crate::script::plan(
        "test_sequential_operations",
        crate::categories::c16_async_pipeline::sequential_operations_steps(),
    );
    let round1 = |k: int| crate::categories::c16_async_pipeline::sequential_operations_sorts_round(
        k as u64,
    );
    let part1 = crate::script::rounds(50, round1);
    assert forall|k: int| 0 <= k < 50 implies (#[trigger] round1(k)).len() == 6 by {
        lemma_sequential_operations_sorts_steps(k);
    }
    crate::stage::lemma_rounds_length(50, round1, 6);
    let part2 = crate::categories::c16_async_pipeline::sequential_operations_between_steps();
    lemma_sequential_operations_between_steps();
    let round3 = |k: int| crate::categories::c16_async_pipeline::sequential_operations_filters_round(
        k as u64,
    );
    let part3 = crate::script::rounds(50, round3);
    assert forall|k: int| 0 <= k < 50 implies (#[trigger] round3(k)).len() == 4 by {
        lemma_sequential_operations_filters_steps(k);
    }
    crate::stage::lemma_rounds_length(50, round3, 4);
    let part4 = crate::categories::c16_async_pipeline::sequential_operations_end_steps();
    lemma_sequential_operations_end_steps();
    let whole1 = part1;
    let whole2 = whole1 + part2;
    let whole3 = whole2 + part3;
    let whole4 = whole3 + part4;
    assert(plan.steps == whole4);
    let m0 = crate::stage::lemma_start(plan, answers);
    assert forall|j: int| 0 <= j < 300 implies plan.steps[0 + j] == #[trigger] part1[j] by {}
    let m1 = lemma_sequential_operations_sorts_rounds(m0, part1, 50);
    assert forall|j: int| 0 <= j < 2 implies plan.steps[300 + j] == #[trigger] part2[j] by {}
    let m2 = lemma_sequential_operations_between(m1, part2);
    assert forall|j: int| 0 <= j < 200 implies plan.steps[302 + j] == #[trigger] part3[j] by {}
    let m3 = lemma_sequential_operations_filters_rounds(m2, part3, 50);
    assert forall|j: int| 0 <= j < 1 implies plan.steps[502 + j] == #[trigger] part4[j] by {}
    let m4 = lemma_sequential_operations_end(m3, part4);
    crate::stage::lemma_end(m4);
}

/// What is kept in the part `all` of `test_operation_dependencies`.
pub open spec fn operation_dependencies_all_kept1(answers: Seq<Answer>) -> Thing {
    Thing::Kept {
        of: Box::new(
            Thing::Sorted {
                of: Box::new(
                    Thing::Table {
                        layout: Layout::Val,
                        scalar: Scalar::U32,
                        columns: seq![crate::stage::column(10000, |i: int| ((i * 17) + 13) % 1000)],
                        turn: 0,
                    },
                ),
                keys: 1,
                turn: 1,
            },
        ),
        mask: crate::stage::column(
            (answers[2]->Words_0.len() as int),
            |i: int| crate::stage::flag(!((answers[2]->Words_0[i] as int) < 500)),
        ),
        turn: 3,
    }
}

/// What is sorted in the part `all` of `test_operation_dependencies`.
pub open spec fn operation_dependencies_all_sorted3(answers: Seq<Answer>) -> Thing {
    Thing::Sorted {
        of: Box::new(
            Thing::Kept {
                of: Box::new(
                    Thing::Sorted {
                        of: Box::new(operation_dependencies_all_kept1(answers)),
                        keys: 1,
                        turn: 5,
                    },
                ),
                mask: crate::stage::column(
                    (answers[6]->Words_0.len() as int),
                    |i: int| crate::stage::flag(((answers[6]->Words_0[i] as int) < 800)),
                ),
                turn: 7,
            },
        ),
        keys: 1,
        turn: 9,
    }
}

/// What the device is asked in piece 1 of the part `all` of `test_operation_dependencies`.
pub open spec fn operation_dependencies_all_1_asks(answers: Seq<Answer>) -> Seq<Ask> {
    let words1 = crate::stage::column(10000, |i: int| ((i * 17) + 13) % 1000);
    let table1 = Thing::Table {
        layout: Layout::Val,
        scalar: Scalar::U32,
        columns: seq![words1],
        turn: 0,
    };
    let sorted1 = Thing::Sorted { of: Box::new(table1), keys: 1, turn: 1 };
    seq![
        Ask::Make(table1),
        Ask::Make(sorted1),
        Ask::Words { of: sorted1, column: 0, scalar: Scalar::U32 },
        Ask::Make(operation_dependencies_all_kept1(answers)),
        Ask::Words {
            of: operation_dependencies_all_kept1(answers),
            column: 0,
            scalar: Scalar::U32,
        },
    ]
}

/// Piece 1 of the part `all` of `test_operation_dependencies` asks what it should.
proof fn lemma_operation_dependencies_all_1(m: Moment, steps: Seq<Step>) -> (n: Moment)
    requires
        m.holds(),
        m.at == 0,
        m.used == 0,
        0 + 22 <= m.plan.steps.len(),
        forall|j: int| 0 <= j < 22 ==> m.plan.steps[0 + j] == #[trigger] steps[j],
        crate::stage::fills(
            steps[0],
            0,
            num(10000),
            modulo(plus(times(ix(), num(17)), num(13)), num(1000)),
        ),
        crate::stage::demands(
            steps[1],
            Request::Create { into: 0, layout: Layout::Val, scalar: Scalar::U32, from: 0 },
        ),
        crate::stage::demands(steps[2], Request::Sort { of: 0, keys: 1, into: 1 }),
        crate::stage::demands(
            steps[3],
            Request::Download { of: 1, column: 0, scalar: Scalar::U32, into: 1 },
        ),
        crate::stage::looks(steps[4]),
        crate::stage::fills(steps[5], 2, len(1), not(lt(here(1), num(500)))),
        crate::stage::demands(steps[6], Request::Filter { of: 1, mask: 2, into: 2 }),
        crate::stage::demands(
            steps[7],
            Request::Download { of: 2, column: 0, scalar: Scalar::U32, into: 3 },
        ),
        m.answers[2] is Words,
        m.answers[6] is Words,
    ensures
        n.holds(),
        n.plan == m.plan,
        n.answers == m.answers,
        n.at == 0 + 8,
        n.used == m.used + 5,
        n.scene.buffer(2) == operation_dependencies_all_kept1(m.answers),
        crate::stage::asks(m.plan, m.answers, 0, operation_dependencies_all_1_asks(m.answers)),
{
    let answers = m.answers;
    crate::stage::lemma_full(m);
    crate::stage::lemma_asks_none(m, 0);
    let list0 = Seq::<Ask>::empty();
    let words1 = crate::stage::column(10000, |i: int| ((i * 17) + 13) % 1000);
    let word1 = modulo(plus(times(ix(), num(17)), num(13)), num(1000));
    assert forall|i: int| 0 <= i < words1.len() implies crate::stage::meaning(
        word1,
        m.contents,
        i,
    ) as u64 == #[trigger] words1[i] by {
        reveal_with_fuel(crate::stage::meaning, 5);
    }
    let m1 = crate::stage::lemma_filled(m, steps[0], 0, num(10000), word1, words1);
    let table1 = Thing::Table {
        layout: Layout::Val,
        scalar: Scalar::U32,
        columns: seq![words1],
        turn: 0,
    };
    let m2 = crate::stage::lemma_create(m1, steps[1], 0, Layout::Val, Scalar::U32, 0, table1);
    crate::stage::lemma_asks_more(m, 0, list0, Ask::Make(table1));
    let list1 = list0.push(Ask::Make(table1));
    let sorted1 = Thing::Sorted { of: Box::new(table1), keys: 1, turn: 1 };
    let m3 = crate::stage::lemma_sort(m2, steps[2], 0, 1, 1, table1, sorted1);
    crate::stage::lemma_asks_more(m, 0, list1, Ask::Make(sorted1));
    let list2 = list1.push(Ask::Make(sorted1));
    let m4 = crate::stage::lemma_download(m3, steps[3], 1, 0, Scalar::U32, 1, sorted1);
    crate::stage::lemma_asks_more(
        m,
        0,
        list2,
        Ask::Words { of: sorted1, column: 0, scalar: Scalar::U32 },
    );
    let list3 = list2.push(Ask::Words { of: sorted1, column: 0, scalar: Scalar::U32 });
    let m5 = crate::stage::lemma_look(m4, steps[4]);
    let fetched1 = answers[2]->Words_0;
    let words2 = crate::stage::column(
        (fetched1.len() as int),
        |i: int| crate::stage::flag(!((fetched1[i] as int) < 500)),
    );
    let word6 = not(lt(here(1), num(500)));
    assert forall|i: int| 0 <= i < words2.len() implies crate::stage::meaning(
        word6,
        m5.contents,
        i,
    ) as u64 == #[trigger] words2[i] by {
        reveal_with_fuel(crate::stage::meaning, 5);
    }
    let m6 = crate::stage::lemma_filled(m5, steps[5], 2, len(1), word6, words2);
    let m7 = crate::stage::lemma_filter(
        m6,
        steps[6],
        1,
        2,
        2,
        sorted1,
        words2,
        operation_dependencies_all_kept1(answers),
    );
    crate::stage::lemma_asks_more(
        m,
        0,
        list3,
        Ask::Make(operation_dependencies_all_kept1(answers)),
    );
    let list4 = list3.push(Ask::Make(operation_dependencies_all_kept1(answers)));
    let m8 = crate::stage::lemma_download(
        m7,
        steps[7],
        2,
        0,
        Scalar::U32,
        3,
        operation_dependencies_all_kept1(answers),
    );
    crate::stage::lemma_asks_more(
        m,
        0,
        list4,
        Ask::Words {
            of: operation_dependencies_all_kept1(answers),
            column: 0,
            scalar: Scalar::U32,
        },
    );
    let list5 = list4.push(
        Ask::Words {
            of: operation_dependencies_all_kept1(answers),
            column: 0,
            scalar: Scalar::U32,
        },
    );
    assert(operation_dependencies_all_1_asks(m.answers) == list5);
    m8
}

/// What the device is asked in piece 2 of the part `all` of `test_operation_dependencies`.
pub open spec fn operation_dependencies_all_2_asks(answers: Seq<Answer>) -> Seq<Ask> {
    let sorted2 = Thing::Sorted {
        of: Box::new(operation_dependencies_all_kept1(answers)),
        keys: 1,
        turn: 5,
    };
    let fetched3 = answers[6]->Words_0;
    let words3 = crate::stage::column(
        (fetched3.len() as int),
        |i: int| crate::stage::flag(((fetched3[i] as int) < 800)),
    );
    let kept2 = Thing::Kept { of: Box::new(sorted2), mask: words3, turn: 7 };
    seq![
        Ask::Make(sorted2),
        Ask::Words { of: sorted2, column: 0, scalar: Scalar::U32 },
        Ask::Make(kept2),
        Ask::Words { of: kept2, column: 0, scalar: Scalar::U32 },
        Ask::Make(operation_dependencies_all_sorted3(answers)),
    ]
}

/// Piece 2 of the part `all` of `test_operation_dependencies` asks what it should.
proof fn lemma_operation_dependencies_all_2(m: Moment, steps: Seq<Step>) -> (n: Moment)
    requires
        m.holds(),
        m.at == 0 + 8,
        m.used == 5,
        0 + 22 <= m.plan.steps.len(),
        forall|j: int| 0 <= j < 22 ==> m.plan.steps[0 + j] == #[trigger] steps[j],
        crate::stage::looks(steps[8]),
        crate::stage::demands(steps[9], Request::Sort { of: 2, keys: 1, into: 3 }),
        crate::stage::demands(
            steps[10],
            Request::Download { of: 3, column: 0, scalar: Scalar::U32, into: 4 },
        ),
        crate::stage::fills(steps[11], 5, len(4), lt(here(4), num(800))),
        crate::stage::demands(steps[12], Request::Filter { of: 3, mask: 5, into: 4 }),
        crate::stage::demands(
            steps[13],
            Request::Download { of: 4, column: 0, scalar: Scalar::U32, into: 6 },
        ),
        crate::stage::looks(steps[14]),
        crate::stage::demands(steps[15], Request::Sort { of: 4, keys: 1, into: 5 }),
        m.scene.buffer(2) == operation_dependencies_all_kept1(m.answers),
        m.answers[2] is Words,
        m.answers[6] is Words,
    ensures
        n.holds(),
        n.plan == m.plan,
        n.answers == m.answers,
        n.at == 0 + 16,
        n.used == m.used + 5,
        n.scene.buffer(5) == operation_dependencies_all_sorted3(m.answers),
        crate::stage::asks(m.plan, m.answers, 5, operation_dependencies_all_2_asks(m.answers)),
{
    let answers = m.answers;
    crate::stage::lemma_full(m);
    crate::stage::lemma_asks_none(m, 5);
    let list0 = Seq::<Ask>::empty();
    let m1 = crate::stage::lemma_look(m, steps[8]);
    let sorted2 = Thing::Sorted {
        of: Box::new(operation_dependencies_all_kept1(answers)),
        keys: 1,
        turn: 5,
    };
    let m2 = crate::stage::lemma_sort(
        m1,
        steps[9],
        2,
        1,
        3,
        operation_dependencies_all_kept1(answers),
        sorted2,
    );
    crate::stage::lemma_asks_more(m, 5, list0, Ask::Make(sorted2));
    let list1 = list0.push(Ask::Make(sorted2));
    let m3 = crate::stage::lemma_download(m2, steps[10], 3, 0, Scalar::U32, 4, sorted2);
    crate::stage::lemma_asks_more(
        m,
        5,
        list1,
        Ask::Words { of: sorted2, column: 0, scalar: Scalar::U32 },
    );
    let list2 = list1.push(Ask::Words { of: sorted2, column: 0, scalar: Scalar::U32 });
    let fetched3 = answers[6]->Words_0;
    let words3 = crate::stage::column(
        (fetched3.len() as int),
        |i: int| crate::stage::flag(((fetched3[i] as int) < 800)),
    );
    let word4 = lt(here(4), num(800));
    assert forall|i: int| 0 <= i < words3.len() implies crate::stage::meaning(
        word4,
        m3.contents,
        i,
    ) as u64 == #[trigger] words3[i] by {
        reveal_with_fuel(crate::stage::meaning, 4);
    }
    let m4 = crate::stage::lemma_filled(m3, steps[11], 5, len(4), word4, words3);
    let kept2 = Thing::Kept { of: Box::new(sorted2), mask: words3, turn: 7 };
    let m5 = crate::stage::lemma_filter(m4, steps[12], 3, 5, 4, sorted2, words3, kept2);
    crate::stage::lemma_asks_more(m, 5, list2, Ask::Make(kept2));
    let list3 = list2.push(Ask::Make(kept2));
    let m6 = crate::stage::lemma_download(m5, steps[13], 4, 0, Scalar::U32, 6, kept2);
    crate::stage::lemma_asks_more(
        m,
        5,
        list3,
        Ask::Words { of: kept2, column: 0, scalar: Scalar::U32 },
    );
    let list4 = list3.push(Ask::Words { of: kept2, column: 0, scalar: Scalar::U32 });
    let m7 = crate::stage::lemma_look(m6, steps[14]);
    let m8 = crate::stage::lemma_sort(
        m7,
        steps[15],
        4,
        1,
        5,
        kept2,
        operation_dependencies_all_sorted3(answers),
    );
    crate::stage::lemma_asks_more(
        m,
        5,
        list4,
        Ask::Make(operation_dependencies_all_sorted3(answers)),
    );
    let list5 = list4.push(Ask::Make(operation_dependencies_all_sorted3(answers)));
    assert(operation_dependencies_all_2_asks(m.answers) == list5);
    m8
}

/// What the device is asked in piece 3 of the part `all` of `test_operation_dependencies`.
pub open spec fn operation_dependencies_all_3_asks(answers: Seq<Answer>) -> Seq<Ask> {
    seq![
        Ask::Words {
            of: operation_dependencies_all_sorted3(answers),
            column: 0,
            scalar: Scalar::U32,
        },
        Ask::Other(Request::Sync),
    ]
}

/// Piece 3 of the part `all` of `test_operation_dependencies` asks what it should.
proof fn lemma_operation_dependencies_all_3(m: Moment, steps: Seq<Step>) -> (n: Moment)
    requires
        m.holds(),
        m.at == 0 + 16,
        m.used == 10,
        0 + 22 <= m.plan.steps.len(),
        forall|j: int| 0 <= j < 22 ==> m.plan.steps[0 + j] == #[trigger] steps[j],
        crate::stage::demands(
            steps[16],
            Request::Download { of: 5, column: 0, scalar: Scalar::U32, into: 7 },
        ),
        crate::stage::looks(steps[17]),
        crate::stage::works(steps[18], 8),
        crate::stage::works(steps[19], 9),
        crate::stage::looks(steps[20]),
        crate::stage::demands(steps[21], Request::Sync),
        m.scene.buffer(5) == operation_dependencies_all_sorted3(m.answers),
        m.answers[2] is Words,
        m.answers[6] is Words,
    ensures
        n.holds(),
        n.plan == m.plan,
        n.answers == m.answers,
        n.at == 0 + 22,
        n.used == m.used + 2,
        crate::stage::asks(m.plan, m.answers, 10, operation_dependencies_all_3_asks(m.answers)),
{
    let answers = m.answers;
    crate::stage::lemma_full(m);
    crate::stage::lemma_asks_none(m, 10);
    let list0 = Seq::<Ask>::empty();
    let m1 = crate::stage::lemma_download(
        m,
        steps[16],
        5,
        0,
        Scalar::U32,
        7,
        operation_dependencies_all_sorted3(answers),
    );
    crate::stage::lemma_asks_more(
        m,
        10,
        list0,
        Ask::Words {
            of: operation_dependencies_all_sorted3(answers),
            column: 0,
            scalar: Scalar::U32,
        },
    );
    let list1 = list0.push(
        Ask::Words {
            of: operation_dependencies_all_sorted3(answers),
            column: 0,
            scalar: Scalar::U32,
        },
    );
    let m2 = crate::stage::lemma_look(m1, steps[17]);
    let m3 = crate::stage::lemma_work(m2, steps[18], 8);
    let m4 = crate::stage::lemma_work(m3, steps[19], 9);
    let m5 = crate::stage::lemma_look(m4, steps[20]);
    let m6 = crate::stage::lemma_sync(m5, steps[21]);
    crate::stage::lemma_asks_more(m, 10, list1, Ask::Other(Request::Sync));
    let list2 = list1.push(Ask::Other(Request::Sync));
    assert(operation_dependencies_all_3_asks(m.answers) == list2);
    m6
}

/// The steps of the part `all` of `test_operation_dependencies`.
proof fn lemma_operation_dependencies_all_steps()
    ensures
        ({
            let steps = crate::categories::c16_async_pipeline::operation_dependencies_steps();
            &&& steps.len() == 22
            &&& crate::stage::fills(
                steps[0],
                0,
                num(10000),
                modulo(plus(times(ix(), num(17)), num(13)), num(1000)),
            )
            &&& crate::stage::demands(
                steps[1],
                Request::Create { into: 0, layout: Layout::Val, scalar: Scalar::U32, from: 0 },
            )
            &&& crate::stage::demands(steps[2], Request::Sort { of: 0, keys: 1, into: 1 })
            &&& crate::stage::demands(
                steps[3],
                Request::Download { of: 1, column: 0, scalar: Scalar::U32, into: 1 },
            )
            &&& crate::stage::looks(steps[4])
            &&& crate::stage::fills(steps[5], 2, len(1), not(lt(here(1), num(500))))
            &&& crate::stage::demands(steps[6], Request::Filter { of: 1, mask: 2, into: 2 })
            &&& crate::stage::demands(
                steps[7],
                Request::Download { of: 2, column: 0, scalar: Scalar::U32, into: 3 },
            )
            &&& crate::stage::looks(steps[8])
            &&& crate::stage::demands(steps[9], Request::Sort { of: 2, keys: 1, into: 3 })
            &&& crate::stage::demands(
                steps[10],
                Request::Download { of: 3, column: 0, scalar: Scalar::U32, into: 4 },
            )
            &&& crate::stage::fills(steps[11], 5, len(4), lt(here(4), num(800)))
            &&& crate::stage::demands(steps[12], Request::Filter { of: 3, mask: 5, into: 4 })
            &&& crate::stage::demands(
                steps[13],
                Request::Download { of: 4, column: 0, scalar: Scalar::U32, into: 6 },
            )
            &&& crate::stage::looks(steps[14])
            &&& crate::stage::demands(steps[15], Request::Sort { of: 4, keys: 1, into: 5 })
            &&& crate::stage::demands(
                steps[16],
                Request::Download { of: 5, column: 0, scalar: Scalar::U32, into: 7 },
            )
            &&& crate::stage::looks(steps[17])
            &&& crate::stage::works(steps[18], 8)
            &&& crate::stage::works(steps[19], 9)
            &&& crate::stage::looks(steps[20])
            &&& crate::stage::demands(steps[21], Request::Sync)
        }),
{
}

/// In a run of `test_operation_dependencies` that passes the device is asked this, in this order,
/// and nothing else: each request about what an earlier one made is about that, and about what was
/// uploaded for it.
pub proof fn law_operation_dependencies_asks_about_what_it_made(answers: Seq<Answer>)
    requires
        crate::stage::passes(
            crate::script::plan(
                "test_operation_dependencies",
                crate::categories::c16_async_pipeline::operation_dependencies_steps(),
            ),
            answers,
        ),
        answers[2] is Words,
        answers[6] is Words,
    ensures
        crate::stage::asks(
            crate::script::plan(
                "test_operation_dependencies",
                crate::categories::c16_async_pipeline::operation_dependencies_steps(),
            ),
            answers,
            0,
            operation_dependencies_all_1_asks(answers),
        ),
        crate::stage::asks(
            crate::script::plan(
                "test_operation_dependencies",
                crate::categories::c16_async_pipeline::operation_dependencies_steps(),
            ),
            answers,
            5,
            operation_dependencies_all_2_asks(answers),
        ),
        crate::stage::asks(
            crate::script::plan(
                "test_operation_dependencies",
                crate::categories::c16_async_pipeline::operation_dependencies_steps(),
            ),
            answers,
            10,
            operation_dependencies_all_3_asks(answers),
        ),
        crate::stage::asked(
            crate::script::plan(
                "test_operation_dependencies",
                crate::categories::c16_async_pipeline::operation_dependencies_steps(),
            ),
            answers,
            12,
        ) is None,
{
    let plan = crate::script::plan(
        "test_operation_dependencies",
        crate::categories::c16_async_pipeline::operation_dependencies_steps(),
    );
    let part1 = crate::categories::c16_async_pipeline::operation_dependencies_steps();
    lemma_operation_dependencies_all_steps();
    let whole1 = part1;
    assert(plan.steps == whole1);
    let m0 = crate::stage::lemma_start(plan, answers);
    assert forall|j: int| 0 <= j < 22 implies plan.steps[0 + j] == #[trigger] part1[j] by {}
    let m1 = lemma_operation_dependencies_all_1(m0, part1);
    let m2 = lemma_operation_dependencies_all_2(m1, part1);
    let m3 = lemma_operation_dependencies_all_3(m2, part1);
    crate::stage::lemma_end(m3);
}

/// What is kept in the part `all` of `test_sync_between_operations`.
pub open spec fn sync_between_operations_all_kept1(answers: Seq<Answer>) -> Thing {
    Thing::Kept {
        of: Box::new(
            Thing::Sorted {
                of: Box::new(
                    Thing::Table {
                        layout: Layout::Val,
                        scalar: Scalar::U32,
                        columns: seq![crate::stage::column(50000, |i: int| (i * 31337) % 1000000)],
                        turn: 0,
                    },
                ),
                keys: 1,
                turn: 1,
            },
        ),
        mask: crate::stage::column(
            (answers[3]->Words_0.len() as int),
            |i: int| crate::stage::flag((((answers[3]->Words_0[i] as int) % 2) == 0)),
        ),
        turn: 4,
    }
}

/// What is sorted in the part `all` of `test_sync_between_operations`.
pub open spec fn sync_between_operations_all_sorted2() -> Thing {
    Thing::Sorted {
        of: Box::new(
            Thing::Table {
                layout: Layout::KeyVal,
                scalar: Scalar::U32,
                columns: seq![
                    crate::stage::column(1000, |i: int| i),
                    crate::stage::column(
                        1000,
                        |i: int| (crate::stage::column(1000, |i: int| i)[i] as int) * 10,
                    ),
                ],
                turn: 7,
            },
        ),
        keys: 1,
        turn: 8,
    }
}

/// What is left without duplicates in the part `all` of `test_sync_between_operations`.
pub open spec fn sync_between_operations_all_unique1() -> Thing {
    Thing::Unique {
        of: Box::new(
            Thing::Table {
                layout: Layout::KeyVal,
                scalar: Scalar::U32,
                columns: seq![
                    crate::stage::column(1000, |i: int| i),
                    crate::stage::column(
                        1000,
                        |i: int| (crate::stage::column(1000, |i: int| i)[i] as int) * 10,
                    ),
                ],
                turn: 7,
            },
        ),
        turn: 9,
    }
}

/// What the device is asked in piece 1 of the part `all` of `test_sync_between_operations`.
pub open spec fn sync_between_operations_all_1_asks(answers: Seq<Answer>) -> Seq<Ask> {
    let words1 = crate::stage::column(50000, |i: int| (i * 31337) % 1000000);
    let table1 = Thing::Table {
        layout: Layout::Val,
        scalar: Scalar::U32,
        columns: seq![words1],
        turn: 0,
    };
    let sorted1 = Thing::Sorted { of: Box::new(table1), keys: 1, turn: 1 };
    seq![
        Ask::Make(table1),
        Ask::Make(sorted1),
        Ask::Other(Request::Sync),
        Ask::Words { of: sorted1, column: 0, scalar: Scalar::U32 },
        Ask::Make(sync_between_operations_all_kept1(answers)),
    ]
}

/// Piece 1 of the part `all` of `test_sync_between_operations` asks what it should.
proof fn lemma_sync_between_operations_all_1(m: Moment, steps: Seq<Step>) -> (n: Moment)
    requires
        m.holds(),
        m.at == 0,
        m.used == 0,
        0 + 22 <= m.plan.steps.len(),
        forall|j: int| 0 <= j < 22 ==> m.plan.steps[0 + j] == #[trigger] steps[j],
        crate::stage::fills(steps[0], 0, num(50000), modulo(times(ix(), num(31337)), num(1000000))),
        crate::stage::demands(
            steps[1],
            Request::Create { into: 0, layout: Layout::Val, scalar: Scalar::U32, from: 0 },
        ),
        crate::stage::demands(steps[2], Request::Sort { of: 0, keys: 1, into: 1 }),
        crate::stage::demands(steps[3], Request::Sync),
        crate::stage::demands(
            steps[4],
            Request::Download { of: 1, column: 0, scalar: Scalar::U32, into: 1 },
        ),
        crate::stage::looks(steps[5]),
        crate::stage::fills(steps[6], 2, len(1), same_as(modulo(here(1), num(2)), num(0))),
        crate::stage::demands(steps[7], Request::Filter { of: 1, mask: 2, into: 2 }),
        m.answers[3] is Words,
    ensures
        n.holds(),
        n.plan == m.plan,
        n.answers == m.answers,
        n.at == 0 + 8,
        n.used == m.used + 5,
        n.scene.buffer(2) == sync_between_operations_all_kept1(m.answers),
        crate::stage::asks(m.plan, m.answers, 0, sync_between_operations_all_1_asks(m.answers)),
{
    let answers = m.answers;
    crate::stage::lemma_full(m);
    crate::stage::lemma_asks_none(m, 0);
    let list0 = Seq::<Ask>::empty();
    let words1 = crate::stage::column(50000, |i: int| (i * 31337) % 1000000);
    let word1 = modulo(times(ix(), num(31337)), num(1000000));
    assert forall|i: int| 0 <= i < words1.len() implies crate::stage::meaning(
        word1,
        m.contents,
        i,
    ) as u64 == #[trigger] words1[i] by {
        reveal_with_fuel(crate::stage::meaning, 4);
    }
    let m1 = crate::stage::lemma_filled(m, steps[0], 0, num(50000), word1, words1);
    let table1 = Thing::Table {
        layout: Layout::Val,
        scalar: Scalar::U32,
        columns: seq![words1],
        turn: 0,
    };
    let m2 = crate::stage::lemma_create(m1, steps[1], 0, Layout::Val, Scalar::U32, 0, table1);
    crate::stage::lemma_asks_more(m, 0, list0, Ask::Make(table1));
    let list1 = list0.push(Ask::Make(table1));
    let sorted1 = Thing::Sorted { of: Box::new(table1), keys: 1, turn: 1 };
    let m3 = crate::stage::lemma_sort(m2, steps[2], 0, 1, 1, table1, sorted1);
    crate::stage::lemma_asks_more(m, 0, list1, Ask::Make(sorted1));
    let list2 = list1.push(Ask::Make(sorted1));
    let m4 = crate::stage::lemma_sync(m3, steps[3]);
    crate::stage::lemma_asks_more(m, 0, list2, Ask::Other(Request::Sync));
    let list3 = list2.push(Ask::Other(Request::Sync));
    let m5 = crate::stage::lemma_download(m4, steps[4], 1, 0, Scalar::U32, 1, sorted1);
    crate::stage::lemma_asks_more(
        m,
        0,
        list3,
        Ask::Words { of: sorted1, column: 0, scalar: Scalar::U32 },
    );
    let list4 = list3.push(Ask::Words { of: sorted1, column: 0, scalar: Scalar::U32 });
    let m6 = crate::stage::lemma_look(m5, steps[5]);
    let fetched1 = answers[3]->Words_0;
    let words2 = crate::stage::column(
        (fetched1.len() as int),
        |i: int| crate::stage::flag((((fetched1[i] as int) % 2) == 0)),
    );
    let word7 = same_as(modulo(here(1), num(2)), num(0));
    assert forall|i: int| 0 <= i < words2.len() implies crate::stage::meaning(
        word7,
        m6.contents,
        i,
    ) as u64 == #[trigger] words2[i] by {
        reveal_with_fuel(crate::stage::meaning, 5);
    }
    let m7 = crate::stage::lemma_filled(m6, steps[6], 2, len(1), word7, words2);
    let m8 = crate::stage::lemma_filter(
        m7,
        steps[7],
        1,
        2,
        2,
        sorted1,
        words2,
        sync_between_operations_all_kept1(answers),
    );
    crate::stage::lemma_asks_more(
        m,
        0,
        list4,
        Ask::Make(sync_between_operations_all_kept1(answers)),
    );
    let list5 = list4.push(Ask::Make(sync_between_operations_all_kept1(answers)));
    assert(sync_between_operations_all_1_asks(m.answers) == list5);
    m8
}

/// What the device is asked in piece 2 of the part `all` of `test_sync_between_operations`.
pub open spec fn sync_between_operations_all_2_asks(answers: Seq<Answer>) -> Seq<Ask> {
    let words3 = crate::stage::column(1000, |i: int| i);
    let words4 = crate::stage::column(1000, |i: int| (words3[i] as int) * 10);
    let table2 = Thing::Table {
        layout: Layout::KeyVal,
        scalar: Scalar::U32,
        columns: seq![words3, words4],
        turn: 7,
    };
    seq![
        Ask::Other(Request::Sync),
        Ask::Words {
            of: sync_between_operations_all_kept1(answers),
            column: 0,
            scalar: Scalar::U32,
        },
        Ask::Make(table2),
        Ask::Make(sync_between_operations_all_sorted2()),
        Ask::Make(sync_between_operations_all_unique1()),
    ]
}

/// Piece 2 of the part `all` of `test_sync_between_operations` asks what it should.
proof fn lemma_sync_between_operations_all_2(m: Moment, steps: Seq<Step>) -> (n: Moment)
    requires
        m.holds(),
        m.at == 0 + 8,
        m.used == 5,
        0 + 22 <= m.plan.steps.len(),
        forall|j: int| 0 <= j < 22 ==> m.plan.steps[0 + j] == #[trigger] steps[j],
        crate::stage::demands(steps[8], Request::Sync),
        crate::stage::demands(
            steps[9],
            Request::Download { of: 2, column: 0, scalar: Scalar::U32, into: 3 },
        ),
        crate::stage::looks(steps[10]),
        crate::stage::fills(steps[11], 4, num(1000), ix()),
        crate::stage::fills(steps[12], 5, num(1000), times(here(4), num(10))),
        crate::stage::demands(
            steps[13],
            Request::Create { into: 3, layout: Layout::KeyVal, scalar: Scalar::U32, from: 4 },
        ),
        crate::stage::demands(steps[14], Request::Sort { of: 3, keys: 1, into: 4 }),
        crate::stage::demands(steps[15], Request::Dedup { of: 3, into: 5 }),
        m.scene.buffer(2) == sync_between_operations_all_kept1(m.answers),
        m.answers[3] is Words,
    ensures
        n.holds(),
        n.plan == m.plan,
        n.answers == m.answers,
        n.at == 0 + 16,
        n.used == m.used + 5,
        n.scene.buffer(4) == sync_between_operations_all_sorted2(),
        n.scene.buffer(5) == sync_between_operations_all_unique1(),
        crate::stage::asks(m.plan, m.answers, 5, sync_between_operations_all_2_asks(m.answers)),
{
    let answers = m.answers;
    crate::stage::lemma_full(m);
    crate::stage::lemma_asks_none(m, 5);
    let list0 = Seq::<Ask>::empty();
    let m1 = crate::stage::lemma_sync(m, steps[8]);
    crate::stage::lemma_asks_more(m, 5, list0, Ask::Other(Request::Sync));
    let list1 = list0.push(Ask::Other(Request::Sync));
    let m2 = crate::stage::lemma_download(
        m1,
        steps[9],
        2,
        0,
        Scalar::U32,
        3,
        sync_between_operations_all_kept1(answers),
    );
    crate::stage::lemma_asks_more(
        m,
        5,
        list1,
        Ask::Words {
            of: sync_between_operations_all_kept1(answers),
            column: 0,
            scalar: Scalar::U32,
        },
    );
    let list2 = list1.push(
        Ask::Words {
            of: sync_between_operations_all_kept1(answers),
            column: 0,
            scalar: Scalar::U32,
        },
    );
    let m3 = crate::stage::lemma_look(m2, steps[10]);
    let words3 = crate::stage::column(1000, |i: int| i);
    let word4 = ix();
    assert forall|i: int| 0 <= i < words3.len() implies crate::stage::meaning(
        word4,
        m3.contents,
        i,
    ) as u64 == #[trigger] words3[i] by {
        reveal_with_fuel(crate::stage::meaning, 1);
    }
    let m4 = crate::stage::lemma_filled(m3, steps[11], 4, num(1000), word4, words3);
    let words4 = crate::stage::column(1000, |i: int| (words3[i] as int) * 10);
    let word5 = times(here(4), num(10));
    assert forall|i: int| 0 <= i < words4.len() implies crate::stage::meaning(
        word5,
        m4.contents,
        i,
    ) as u64 == #[trigger] words4[i] by {
        reveal_with_fuel(crate::stage::meaning, 4);
    }
    let m5 = crate::stage::lemma_filled(m4, steps[12], 5, num(1000), word5, words4);
    let table2 = Thing::Table {
        layout: Layout::KeyVal,
        scalar: Scalar::U32,
        columns: seq![words3, words4],
        turn: 7,
    };
    let m6 = crate::stage::lemma_create(m5, steps[13], 3, Layout::KeyVal, Scalar::U32, 4, table2);
    crate::stage::lemma_asks_more(m, 5, list2, Ask::Make(table2));
    let list3 = list2.push(Ask::Make(table2));
    let m7 = crate::stage::lemma_sort(
        m6,
        steps[14],
        3,
        1,
        4,
        table2,
        sync_between_operations_all_sorted2(),
    );
    crate::stage::lemma_asks_more(m, 5, list3, Ask::Make(sync_between_operations_all_sorted2()));
    let list4 = list3.push(Ask::Make(sync_between_operations_all_sorted2()));
    let m8 = crate::stage::lemma_dedup(
        m7,
        steps[15],
        3,
        5,
        table2,
        sync_between_operations_all_unique1(),
    );
    crate::stage::lemma_asks_more(m, 5, list4, Ask::Make(sync_between_operations_all_unique1()));
    let list5 = list4.push(Ask::Make(sync_between_operations_all_unique1()));
    assert(sync_between_operations_all_2_asks(m.answers) == list5);
    m8
}

/// What the device is asked in piece 3 of the part `all` of `test_sync_between_operations`.
pub open spec fn sync_between_operations_all_3_asks() -> Seq<Ask> {
    seq![
        Ask::Other(Request::Sync),
        Ask::Words { of: sync_between_operations_all_sorted2(), column: 0, scalar: Scalar::U32 },
        Ask::Words { of: sync_between_operations_all_unique1(), column: 0, scalar: Scalar::U32 },
        Ask::Other(Request::Sync),
    ]
}

/// Piece 3 of the part `all` of `test_sync_between_operations` asks what it should.
proof fn lemma_sync_between_operations_all_3(m: Moment, steps: Seq<Step>) -> (n: Moment)
    requires
        m.holds(),
        m.at == 0 + 16,
        m.used == 10,
        0 + 22 <= m.plan.steps.len(),
        forall|j: int| 0 <= j < 22 ==> m.plan.steps[0 + j] == #[trigger] steps[j],
        crate::stage::demands(steps[16], Request::Sync),
        crate::stage::demands(
            steps[17],
            Request::Download { of: 4, column: 0, scalar: Scalar::U32, into: 6 },
        ),
        crate::stage::demands(
            steps[18],
            Request::Download { of: 5, column: 0, scalar: Scalar::U32, into: 7 },
        ),
        crate::stage::looks(steps[19]),
        crate::stage::looks(steps[20]),
        crate::stage::demands(steps[21], Request::Sync),
        m.scene.buffer(4) == sync_between_operations_all_sorted2(),
        m.scene.buffer(5) == sync_between_operations_all_unique1(),
        m.answers[3] is Words,
    ensures
        n.holds(),
        n.plan == m.plan,
        n.answers == m.answers,
        n.at == 0 + 22,
        n.used == m.used + 4,
        crate::stage::asks(m.plan, m.answers, 10, sync_between_operations_all_3_asks()),
{
    crate::stage::lemma_full(m);
    crate::stage::lemma_asks_none(m, 10);
    let list0 = Seq::<Ask>::empty();
    let m1 = crate::stage::lemma_sync(m, steps[16]);
    crate::stage::lemma_asks_more(m, 10, list0, Ask::Other(Request::Sync));
    let list1 = list0.push(Ask::Other(Request::Sync));
    let m2 = crate::stage::lemma_download(
        m1,
        steps[17],
        4,
        0,
        Scalar::U32,
        6,
        sync_between_operations_all_sorted2(),
    );
    crate::stage::lemma_asks_more(
        m,
        10,
        list1,
        Ask::Words { of: sync_between_operations_all_sorted2(), column: 0, scalar: Scalar::U32 },
    );
    let list2 = list1.push(
        Ask::Words { of: sync_between_operations_all_sorted2(), column: 0, scalar: Scalar::U32 },
    );
    let m3 = crate::stage::lemma_download(
        m2,
        steps[18],
        5,
        0,
        Scalar::U32,
        7,
        sync_between_operations_all_unique1(),
    );
    crate::stage::lemma_asks_more(
        m,
        10,
        list2,
        Ask::Words { of: sync_between_operations_all_unique1(), column: 0, scalar: Scalar::U32 },
    );
    let list3 = list2.push(
        Ask::Words { of: sync_between_operations_all_unique1(), column: 0, scalar: Scalar::U32 },
    );
    let m4 = crate::stage::lemma_look(m3, steps[19]);
    let m5 = crate::stage::lemma_look(m4, steps[20]);
    let m6 = crate::stage::lemma_sync(m5, steps[21]);
    crate::stage::lemma_asks_more(m, 10, list3, Ask::Other(Request::Sync));
    let list4 = list3.push(Ask::Other(Request::Sync));
    assert(sync_between_operations_all_3_asks() == list4);
    m6
}

/// The steps of the part `all` of `test_sync_between_operations`.
proof fn lemma_sync_between_operations_all_steps()
    ensures
        ({
            let steps = crate::categories::c16_async_pipeline::sync_between_operations_steps();
            &&& steps.len() == 22
            &&& crate::stage::fills(
                steps[0],
                0,
                num(50000),
                modulo(times(ix(), num(31337)), num(1000000)),
            )
            &&& crate::stage::demands(
                steps[1],
                Request::Create { into: 0, layout: Layout::Val, scalar: Scalar::U32, from: 0 },
            )
            &&& crate::stage::demands(steps[2], Request::Sort { of: 0, keys: 1, into: 1 })
            &&& crate::stage::demands(steps[3], Request::Sync)
            &&& crate::stage::demands(
                steps[4],
                Request::Download { of: 1, column: 0, scalar: Scalar::U32, into: 1 },
            )
            &&& crate::stage::looks(steps[5])
            &&& crate::stage::fills(steps[6], 2, len(1), same_as(modulo(here(1), num(2)), num(0)))
            &&& crate::stage::demands(steps[7], Request::Filter { of: 1, mask: 2, into: 2 })
            &&& crate::stage::demands(steps[8], Request::Sync)
            &&& crate::stage::demands(
                steps[9],
                Request::Download { of: 2, column: 0, scalar: Scalar::U32, into: 3 },
            )
            &&& crate::stage::looks(steps[10])
            &&& crate::stage::fills(steps[11], 4, num(1000), ix())
            &&& crate::stage::fills(steps[12], 5, num(1000), times(here(4), num(10)))
            &&& crate::stage::demands(
                steps[13],
                Request::Create { into: 3, layout: Layout::KeyVal, scalar: Scalar::U32, from: 4 },
            )
            &&& crate::stage::demands(steps[14], Request::Sort { of: 3, keys: 1, into: 4 })
            &&& crate::stage::demands(steps[15], Request::Dedup { of: 3, into: 5 })
            &&& crate::stage::demands(steps[16], Request::Sync)
            &&& crate::stage::demands(
                steps[17],
                Request::Download { of: 4, column: 0, scalar: Scalar::U32, into: 6 },
            )
            &&& crate::stage::demands(
                steps[18],
                Request::Download { of: 5, column: 0, scalar: Scalar::U32, into: 7 },
            )
            &&& crate::stage::looks(steps[19])
            &&& crate::stage::looks(steps[20])
            &&& crate::stage::demands(steps[21], Request::Sync)
        }),
{
}

/// In a run of `test_sync_between_operations` that passes the device is asked this, in this order,
/// and nothing else: each request about what an earlier one made is about that, and about what was
/// uploaded for it.
pub proof fn law_sync_between_operations_asks_about_what_it_made(answers: Seq<Answer>)
    requires
        crate::stage::passes(
            crate::script::plan(
                "test_sync_between_operations",
                crate::categories::c16_async_pipeline::sync_between_operations_steps(),
            ),
            answers,
        ),
        answers[3] is Words,
    ensures
        crate::stage::asks(
            crate::script::plan(
                "test_sync_between_operations",
                crate::categories::c16_async_pipeline::sync_between_operations_steps(),
            ),
            answers,
            0,
            sync_between_operations_all_1_asks(answers),
        ),
        crate::stage::asks(
            crate::script::plan(
                "test_sync_between_operations",
                crate::categories::c16_async_pipeline::sync_between_operations_steps(),
            ),
            answers,
            5,
            sync_between_operations_all_2_asks(answers),
        ),
        crate::stage::asks(
            crate::script::plan(
                "test_sync_between_operations",
                crate::categories::c16_async_pipeline::sync_between_operations_steps(),
            ),
            answers,
            10,
            sync_between_operations_all_3_asks(),
        ),
        crate::stage::asked(
            crate::script::plan(
                "test_sync_between_operations",
                crate::categories::c16_async_pipeline::sync_between_operations_steps(),
            ),
            answers,
            14,
        ) is None,
{
    let plan = crate::script::plan(
        "test_sync_between_operations",
        crate::categories::c16_async_pipeline::sync_between_operations_steps(),
    );
    let part1 = crate::categories::c16_async_pipeline::sync_between_operations_steps();
    lemma_sync_between_operations_all_steps();
    let whole1 = part1;
    assert(plan.steps == whole1);
    let m0 = crate::stage::lemma_start(plan, answers);
    assert forall|j: int| 0 <= j < 22 implies plan.steps[0 + j] == #[trigger] part1[j] by {}
    let m1 = lemma_sync_between_operations_all_1(m0, part1);
    let m2 = lemma_sync_between_operations_all_2(m1, part1);
    let m3 = lemma_sync_between_operations_all_3(m2, part1);
    crate::stage::lemma_end(m3);
}

} // verus!
