//! What these tests ask the device in runs that pass: `test_grid_stride_correctness`,
//! `test_cross_block_data_patterns`.

use vstd::prelude::*;
use crate::expr::{here, ix, lt, minus, modulo, num, over, pick, plus, same_as, times};
use crate::machine::Answer;
use crate::scalar::Scalar;
use crate::script::{Layout, Request, Step};
use crate::stage::{Ask, Moment, Thing};

verus! {

/// A buffer that is uploaded in round `k` of the part `sizes` of `test_grid_stride_correctness`.
pub open spec fn grid_stride_correctness_sizes_table1(k: int) -> Thing {
    Thing::Table {
        layout: Layout::Val,
        scalar: Scalar::U32,
        columns: seq![
            crate::stage::column(
                (crate::categories::c10_block_grid::GRID_SIZES@[k] as int),
                |i: int| i % 10000,
            ),
        ],
        turn: 0 + 7 * k,
    }
}

/// What the device is asked in piece 1 of round `k` of the part `sizes` of
/// `test_grid_stride_correctness`.
pub open spec fn grid_stride_correctness_sizes_1_asks(k: int) -> Seq<Ask> {
    let sorted1 = Thing::Sorted {
        of: Box::new(grid_stride_correctness_sizes_table1(k)),
        keys: 1,
        turn: 1 + 7 * k,
    };
    seq![
        Ask::Make(grid_stride_correctness_sizes_table1(k)),
        Ask::Make(sorted1),
        Ask::Handle(sorted1),
        Ask::Words { of: sorted1, column: 0, scalar: Scalar::U32 },
    ]
}

/// Piece 1 of round `k` of the part `sizes` of `test_grid_stride_correctness` asks what it should.
proof fn lemma_grid_stride_correctness_sizes_1(m: Moment, steps: Seq<Step>, k: int) -> (n: Moment)
    requires
        0 <= k < 2,
        m.holds(),
        m.at == 0 + 21 * k,
        m.used == 0 + 7 * k,
        0 + 21 * k + 21 <= m.plan.steps.len(),
        forall|j: int| 0 <= j < 21 ==> m.plan.steps[0 + 21 * k + j] == #[trigger] steps[j],
        crate::stage::fills(
            steps[0],
            0,
            num(crate::categories::c10_block_grid::GRID_SIZES@[k as u64 as int]),
            modulo(ix(), num(10000)),
        ),
        crate::stage::demands(
            steps[1],
            Request::Create { into: 0, layout: Layout::Val, scalar: Scalar::U32, from: 0 },
        ),
        crate::stage::demands(steps[2], Request::Sort { of: 0, keys: 1, into: 1 }),
        crate::stage::inquires(steps[3], Request::RowsKnown { of: 1, into: 0 }),
        crate::stage::looks(steps[4]),
        crate::stage::demands(
            steps[5],
            Request::Download { of: 1, column: 0, scalar: Scalar::U32, into: 1 },
        ),
        crate::stage::looks(steps[6]),
        crate::stage::looks(steps[7]),
    ensures
        n.holds(),
        n.plan == m.plan,
        n.answers == m.answers,
        n.at == 0 + 21 * k + 8,
        n.used == m.used + 4,
        n.scene.buffer(0) == grid_stride_correctness_sizes_table1(k),
        crate::stage::asks(m.plan, m.answers, 0 + 7 * k, grid_stride_correctness_sizes_1_asks(k)),
{
    crate::stage::lemma_full(m);
    crate::stage::lemma_asks_none(m, 0 + 7 * k);
    let list0 = Seq::<Ask>::empty();
    let words1 = crate::stage::column(
        (crate::categories::c10_block_grid::GRID_SIZES@[k] as int),
        |i: int| i % 10000,
    );
    let word1 = modulo(ix(), num(10000));
    assert forall|i: int| 0 <= i < words1.len() implies crate::stage::meaning(
        word1,
        m.contents,
        i,
    ) as u64 == #[trigger] words1[i] by {
        reveal_with_fuel(crate::stage::meaning, 3);
    }
    let m1 = crate::stage::lemma_filled(
        m,
        steps[0],
        0,
        num(crate::categories::c10_block_grid::GRID_SIZES@[k as u64 as int]),
        word1,
        words1,
    );
    let m2 = crate::stage::lemma_create(
        m1,
        steps[1],
        0,
        Layout::Val,
        Scalar::U32,
        0,
        grid_stride_correctness_sizes_table1(k),
    );
    crate::stage::lemma_asks_more(
        m,
        0 + 7 * k,
        list0,
        Ask::Make(grid_stride_correctness_sizes_table1(k)),
    );
    let list1 = list0.push(Ask::Make(grid_stride_correctness_sizes_table1(k)));
    let sorted1 = Thing::Sorted {
        of: Box::new(grid_stride_correctness_sizes_table1(k)),
        keys: 1,
        turn: 1 + 7 * k,
    };
    let m3 = crate::stage::lemma_sort(
        m2,
        steps[2],
        0,
        1,
        1,
        grid_stride_correctness_sizes_table1(k),
        sorted1,
    );
    crate::stage::lemma_asks_more(m, 0 + 7 * k, list1, Ask::Make(sorted1));
    let list2 = list1.push(Ask::Make(sorted1));
    let m4 = crate::stage::lemma_handle(m3, steps[3], 1, 0, sorted1);
    crate::stage::lemma_asks_more(m, 0 + 7 * k, list2, Ask::Handle(sorted1));
    let list3 = list2.push(Ask::Handle(sorted1));
    let m5 = crate::stage::lemma_look(m4, steps[4]);
    let m6 = crate::stage::lemma_download(m5, steps[5], 1, 0, Scalar::U32, 1, sorted1);
    crate::stage::lemma_asks_more(
        m,
        0 + 7 * k,
        list3,
        Ask::Words { of: sorted1, column: 0, scalar: Scalar::U32 },
    );
    let list4 = list3.push(Ask::Words { of: sorted1, column: 0, scalar: Scalar::U32 });
    let m7 = crate::stage::lemma_look(m6, steps[6]);
    let m8 = crate::stage::lemma_look(m7, steps[7]);
    assert(grid_stride_correctness_sizes_1_asks(k) == list4);
    m8
}

/// Piece 2 of round `k` of the part `sizes` of `test_grid_stride_correctness` asks what it should.
proof fn lemma_grid_stride_correctness_sizes_2(m: Moment, steps: Seq<Step>, k: int) -> (n: Moment)
    requires
        0 <= k < 2,
        m.holds(),
        m.at == 0 + 21 * k + 8,
        m.used == 4 + 7 * k,
        0 + 21 * k + 21 <= m.plan.steps.len(),
        forall|j: int| 0 <= j < 21 ==> m.plan.steps[0 + 21 * k + j] == #[trigger] steps[j],
        crate::stage::looks(steps[8]),
        crate::stage::looks(steps[9]),
        crate::stage::looks(steps[10]),
        crate::stage::looks(steps[11]),
        crate::stage::looks(steps[12]),
        crate::stage::looks(steps[13]),
        crate::stage::looks(steps[14]),
        crate::stage::looks(steps[15]),
        m.scene.buffer(0) == grid_stride_correctness_sizes_table1(k),
    ensures
        n.holds(),
        n.plan == m.plan,
        n.answers == m.answers,
        n.at == 0 + 21 * k + 16,
        n.used == m.used + 0,
        n.scene.buffer(0) == grid_stride_correctness_sizes_table1(k),
{
    crate::stage::lemma_full(m);
    let m1 = crate::stage::lemma_look(m, steps[8]);
    let m2 = crate::stage::lemma_look(m1, steps[9]);
    let m3 = crate::stage::lemma_look(m2, steps[10]);
    let m4 = crate::stage::lemma_look(m3, steps[11]);
    let m5 = crate::stage::lemma_look(m4, steps[12]);
    let m6 = crate::stage::lemma_look(m5, steps[13]);
    let m7 = crate::stage::lemma_look(m6, steps[14]);
    let m8 = crate::stage::lemma_look(m7, steps[15]);
    m8
}

/// What the device is asked in piece 3 of round `k` of the part `sizes` of
/// `test_grid_stride_correctness`.
pub open spec fn grid_stride_correctness_sizes_3_asks(k: int) -> Seq<Ask> {
    let words2 = crate::stage::column(
        (crate::categories::c10_block_grid::GRID_SIZES@[k] as int),
        |i: int| crate::stage::flag(((i % 100) == 0)),
    );
    let kept1 = Thing::Kept {
        of: Box::new(grid_stride_correctness_sizes_table1(k)),
        mask: words2,
        turn: 4 + 7 * k,
    };
    seq![Ask::Make(kept1), Ask::Handle(kept1), Ask::Other(Request::Release { from: 0 })]
}

/// Piece 3 of round `k` of the part `sizes` of `test_grid_stride_correctness` asks what it should.
proof fn lemma_grid_stride_correctness_sizes_3(m: Moment, steps: Seq<Step>, k: int) -> (n: Moment)
    requires
        0 <= k < 2,
        m.holds(),
        m.at == 0 + 21 * k + 16,
        m.used == 4 + 7 * k,
        0 + 21 * k + 21 <= m.plan.steps.len(),
        forall|j: int| 0 <= j < 21 ==> m.plan.steps[0 + 21 * k + j] == #[trigger] steps[j],
        crate::stage::fills(
            steps[16],
            2,
            num(crate::categories::c10_block_grid::GRID_SIZES@[k as u64 as int]),
            same_as(modulo(ix(), num(100)), num(0)),
        ),
        crate::stage::demands(steps[17], Request::Filter { of: 0, mask: 2, into: 2 }),
        crate::stage::inquires(steps[18], Request::RowsKnown { of: 2, into: 0 }),
        crate::stage::looks(steps[19]),
        crate::stage::inquires(steps[20], Request::Release { from: 0 }),
        m.scene.buffer(0) == grid_stride_correctness_sizes_table1(k),
    ensures
        n.holds(),
        n.plan == m.plan,
        n.answers == m.answers,
        n.at == 0 + 21 * k + 21,
        n.used == m.used + 3,
        crate::stage::asks(m.plan, m.answers, 4 + 7 * k, grid_stride_correctness_sizes_3_asks(k)),
{
    crate::stage::lemma_full(m);
    crate::stage::lemma_asks_none(m, 4 + 7 * k);
    let list0 = Seq::<Ask>::empty();
    let words2 = crate::stage::column(
        (crate::categories::c10_block_grid::GRID_SIZES@[k] as int),
        |i: int| crate::stage::flag(((i % 100) == 0)),
    );
    let word1 = same_as(modulo(ix(), num(100)), num(0));
    assert forall|i: int| 0 <= i < words2.len() implies crate::stage::meaning(
        word1,
        m.contents,
        i,
    ) as u64 == #[trigger] words2[i] by {
        reveal_with_fuel(crate::stage::meaning, 4);
    }
    let m1 = crate::stage::lemma_filled(
        m,
        steps[16],
        2,
        num(crate::categories::c10_block_grid::GRID_SIZES@[k as u64 as int]),
        word1,
        words2,
    );
    let kept1 = Thing::Kept {
        of: Box::new(grid_stride_correctness_sizes_table1(k)),
        mask: words2,
        turn: 4 + 7 * k,
    };
    let m2 = crate::stage::lemma_filter(
        m1,
        steps[17],
        0,
        2,
        2,
        grid_stride_correctness_sizes_table1(k),
        words2,
        kept1,
    );
    crate::stage::lemma_asks_more(m, 4 + 7 * k, list0, Ask::Make(kept1));
    let list1 = list0.push(Ask::Make(kept1));
    let m3 = crate::stage::lemma_handle(m2, steps[18], 2, 0, kept1);
    crate::stage::lemma_asks_more(m, 4 + 7 * k, list1, Ask::Handle(kept1));
    let list2 = list1.push(Ask::Handle(kept1));
    let m4 = crate::stage::lemma_look(m3, steps[19]);
    let m5 = crate::stage::lemma_release(m4, steps[20], 0);
    crate::stage::lemma_asks_more(m, 4 + 7 * k, list2, Ask::Other(Request::Release { from: 0 }));
    let list3 = list2.push(Ask::Other(Request::Release { from: 0 }));
    assert(grid_stride_correctness_sizes_3_asks(k) == list3);
    m5
}

/// The steps of the part `sizes` of `test_grid_stride_correctness`.
proof fn lemma_grid_stride_correctness_sizes_steps(k: int)
    ensures
        ({
            let steps = crate::categories::c10_block_grid::grid_stride_correctness_sizes_round(
                k as u64,
            );
            &&& steps.len() == 21
            &&& crate::stage::fills(
                steps[0],
                0,
                num(crate::categories::c10_block_grid::GRID_SIZES@[k as u64 as int]),
                modulo(ix(), num(10000)),
            )
            &&& crate::stage::demands(
                steps[1],
                Request::Create { into: 0, layout: Layout::Val, scalar: Scalar::U32, from: 0 },
            )
            &&& crate::stage::demands(steps[2], Request::Sort { of: 0, keys: 1, into: 1 })
            &&& crate::stage::inquires(steps[3], Request::RowsKnown { of: 1, into: 0 })
            &&& crate::stage::looks(steps[4])
            &&& crate::stage::demands(
                steps[5],
                Request::Download { of: 1, column: 0, scalar: Scalar::U32, into: 1 },
            )
            &&& crate::stage::looks(steps[6])
            &&& crate::stage::looks(steps[7])
            &&& crate::stage::looks(steps[8])
            &&& crate::stage::looks(steps[9])
            &&& crate::stage::looks(steps[10])
            &&& crate::stage::looks(steps[11])
            &&& crate::stage::looks(steps[12])
            &&& crate::stage::looks(steps[13])
            &&& crate::stage::looks(steps[14])
            &&& crate::stage::looks(steps[15])
            &&& crate::stage::fills(
                steps[16],
                2,
                num(crate::categories::c10_block_grid::GRID_SIZES@[k as u64 as int]),
                same_as(modulo(ix(), num(100)), num(0)),
            )
            &&& crate::stage::demands(steps[17], Request::Filter { of: 0, mask: 2, into: 2 })
            &&& crate::stage::inquires(steps[18], Request::RowsKnown { of: 2, into: 0 })
            &&& crate::stage::looks(steps[19])
            &&& crate::stage::inquires(steps[20], Request::Release { from: 0 })
        }),
{
}

/// Round `k` of the part `sizes` of `test_grid_stride_correctness` asks what it should.
proof fn lemma_grid_stride_correctness_sizes_round(m: Moment, k: int) -> (n: Moment)
    requires
        0 <= k < 2,
        m.holds(),
        m.at == 0 + 21 * k,
        m.used == 0 + 7 * k,
        m.at + 21 <= m.plan.steps.len(),
        forall|j: int|
            0 <= j < 21 ==> m.plan.steps[0 + 21 * k + j] == #[trigger] crate::categories::c10_block_grid::grid_stride_correctness_sizes_round(
                k as u64,
            )[j],
    ensures
        n.holds(),
        n.plan == m.plan,
        n.answers == m.answers,
        n.at == 0 + 21 * (k + 1),
        n.used == 0 + 7 * (k + 1),
        crate::stage::asks(m.plan, m.answers, 0 + 7 * k, grid_stride_correctness_sizes_1_asks(k)),
        crate::stage::asks(m.plan, m.answers, 4 + 7 * k, grid_stride_correctness_sizes_3_asks(k)),
{
    let steps = crate::categories::c10_block_grid::grid_stride_correctness_sizes_round(k as u64);
    lemma_grid_stride_correctness_sizes_steps(k);
    let m1 = lemma_grid_stride_correctness_sizes_1(m, steps, k);
    let m2 = lemma_grid_stride_correctness_sizes_2(m1, steps, k);
    lemma_grid_stride_correctness_sizes_3(m2, steps, k)
}

/// The first `k` rounds of the part `sizes` of `test_grid_stride_correctness` ask what they should.
proof fn lemma_grid_stride_correctness_sizes_rounds(
    m: Moment,
    part: Seq<Step>,
    k: int,
) -> (n: Moment)
    requires
        0 <= k <= 2,
        m.holds(),
        m.at == 0,
        m.used == 0 + 7 * 0,
        m.at + 42 <= m.plan.steps.len(),
        part == crate::script::rounds(
            2,
            |k: int| crate::categories::c10_block_grid::grid_stride_correctness_sizes_round(
                k as u64,
            ),
        ),
        forall|j: int| 0 <= j < 42 ==> m.plan.steps[0 + j] == #[trigger] part[j],
    ensures
        n.holds(),
        n.plan == m.plan,
        n.answers == m.answers,
        n.at == 0 + 21 * k,
        n.used == 0 + 7 * k,
        forall|j: int|
            0 <= j < k ==> crate::stage::asks(
                m.plan,
                m.answers,
                0 + 7 * j,
                #[trigger] grid_stride_correctness_sizes_1_asks(j),
            ),
        forall|j: int|
            0 <= j < k ==> crate::stage::asks(
                m.plan,
                m.answers,
                4 + 7 * j,
                #[trigger] grid_stride_correctness_sizes_3_asks(j),
            ),
    decreases k,
{
    if k == 0 {
        m
    } else {
        let round = |k: int| crate::categories::c10_block_grid::grid_stride_correctness_sizes_round(
            k as u64,
        );
        let before = lemma_grid_stride_correctness_sizes_rounds(m, part, k - 1);
        assert forall|j: int| 0 <= j < 21 implies m.plan.steps[before.at + j] == #[trigger] crate::categories::c10_block_grid::grid_stride_correctness_sizes_round(
            (k - 1) as u64,
        )[j] by {
            assert forall|k: int| 0 <= k < 2 implies (#[trigger] round(k)).len() == 21 by {
                lemma_grid_stride_correctness_sizes_steps(k);
            }
            crate::stage::lemma_round_place(2, round, 21, k - 1, j);
            assert(part[(k - 1) * 21 + j] == round(k - 1)[j]);
        }
        lemma_grid_stride_correctness_sizes_round(before, k - 1)
    }
}

/// What the device is asked in the part `end` of `test_grid_stride_correctness`.
pub open spec fn grid_stride_correctness_end_asks() -> Seq<Ask> {
    seq![Ask::Other(Request::Sync)]
}

/// The part `end` of `test_grid_stride_correctness` asks what it should.
proof fn lemma_grid_stride_correctness_end(m: Moment, steps: Seq<Step>) -> (n: Moment)
    requires
        m.holds(),
        m.at == 42,
        m.used == 14,
        42 + 1 <= m.plan.steps.len(),
        forall|j: int| 0 <= j < 1 ==> m.plan.steps[42 + j] == #[trigger] steps[j],
        crate::stage::demands(steps[0], Request::Sync),
    ensures
        n.holds(),
        n.plan == m.plan,
        n.answers == m.answers,
        n.at == 42 + 1,
        n.used == m.used + 1,
        crate::stage::asks(m.plan, m.answers, 14, grid_stride_correctness_end_asks()),
{
    crate::stage::lemma_full(m);
    crate::stage::lemma_asks_none(m, 14);
    let list0 = Seq::<Ask>::empty();
    let m1 = crate::stage::lemma_sync(m, steps[0]);
    crate::stage::lemma_asks_more(m, 14, list0, Ask::Other(Request::Sync));
    let list1 = list0.push(Ask::Other(Request::Sync));
    assert(grid_stride_correctness_end_asks() == list1);
    m1
}

/// The steps of the part `end` of `test_grid_stride_correctness`.
proof fn lemma_grid_stride_correctness_end_steps()
    ensures
        ({
            let steps = crate::categories::c10_block_grid::grid_stride_correctness_end_steps();
            &&& steps.len() == 1
            &&& crate::stage::demands(steps[0], Request::Sync)
        }),
{
}

/// In a run of `test_grid_stride_correctness` that passes the device is asked this, in this order,
/// and nothing else: each request about what an earlier one made is about that, and about what was
/// uploaded for it.
pub proof fn law_grid_stride_correctness_asks_about_what_it_made(answers: Seq<Answer>)
    requires
        crate::stage::passes(
            crate::script::plan(
                "test_grid_stride_correctness",
                crate::categories::c10_block_grid::grid_stride_correctness_steps(),
            ),
            answers,
        ),
    ensures
        forall|k: int|
            0 <= k < 2 ==> crate::stage::asks(
                crate::script::plan(
                    "test_grid_stride_correctness",
                    crate::categories::c10_block_grid::grid_stride_correctness_steps(),
                ),
                answers,
                0 + 7 * k,
                #[trigger] grid_stride_correctness_sizes_1_asks(k),
            ),
        forall|k: int|
            0 <= k < 2 ==> crate::stage::asks(
                crate::script::plan(
                    "test_grid_stride_correctness",
                    crate::categories::c10_block_grid::grid_stride_correctness_steps(),
                ),
                answers,
                4 + 7 * k,
                #[trigger] grid_stride_correctness_sizes_3_asks(k),
            ),
        crate::stage::asks(
            crate::script::plan(
                "test_grid_stride_correctness",
                crate::categories::c10_block_grid::grid_stride_correctness_steps(),
            ),
            answers,
            14,
            grid_stride_correctness_end_asks(),
        ),
        crate::stage::asked(
            crate::script::plan(
                "test_grid_stride_correctness",
                crate::categories::c10_block_grid::grid_stride_correctness_steps(),
            ),
            answers,
            15,
        ) is None,
{
    let plan = crate::script::plan(
        "test_grid_stride_correctness",
        crate::categories::c10_block_grid::grid_stride_correctness_steps(),
    );
    let round1 = |k: int| crate::categories::c10_block_grid::grid_stride_correctness_sizes_round(
        k as u64,
    );
    let part1 = crate::script::rounds(2, round1);
    assert forall|k: int| 0 <= k < 2 implies (#[trigger] round1(k)).len() == 21 by {
        lemma_grid_stride_correctness_sizes_steps(k);
    }
    crate::stage::lemma_rounds_length(2, round1, 21);
    let part2 = crate::categories::c10_block_grid::grid_stride_correctness_end_steps();
    lemma_grid_stride_correctness_end_steps();
    let whole1 = part1;
    let whole2 = whole1 + part2;
    assert(plan.steps == whole2);
    let m0 = crate::stage::lemma_start(plan, answers);
    assert forall|j: int| 0 <= j < 42 implies plan.steps[0 + j] == #[trigger] part1[j] by {}
    let m1 = lemma_grid_stride_correctness_sizes_rounds(m0, part1, 2);
    assert forall|j: int| 0 <= j < 1 implies plan.steps[42 + j] == #[trigger] part2[j] by {}
    let m2 = lemma_grid_stride_correctness_end(m1, part2);
    crate::stage::lemma_end(m2);
}

/// What is joined in the part `all` of `test_cross_block_data_patterns`.
pub open spec fn cross_block_data_patterns_all_joined1() -> Thing {
    Thing::Joined {
        left: Box::new(
            Thing::Table {
                layout: Layout::KeyLval,
                scalar: Scalar::U32,
                columns: seq![
                    crate::stage::column(2048, |i: int| i),
                    crate::stage::column(
                        2048,
                        |i: int| (crate::stage::column(2048, |i: int| i)[i] as int) * 10,
                    ),
                ],
                turn: 0,
            },
        ),
        right: Box::new(
            Thing::Table {
                layout: Layout::KeyRval,
                scalar: Scalar::U32,
                columns: seq![
                    crate::stage::column(
                        23,
                        |i: int| if (i < 2) { i } else { ((((((i - 2) / 3) + 1) * 256) + ((i - 2) % 3)) - 1) },
                    ),
                    crate::stage::column(
                        23,
                        |i: int| (crate::stage::column(23, |i: int| if (i < 2) { i } else { ((((((i - 2) / 3) + 1) * 256) + ((i - 2) % 3)) - 1) })[i] as int) * 100,
                    ),
                ],
                turn: 1,
            },
        ),
        turn: 2,
    }
}

/// A buffer that is uploaded in the part `all` of `test_cross_block_data_patterns`.
pub open spec fn cross_block_data_patterns_all_table3() -> Thing {
    Thing::Table {
        layout: Layout::Val,
        scalar: Scalar::U32,
        columns: seq![
            crate::stage::column(
                2048,
                |i: int| if (((i % 256) % 2) == 0) { (((7 - (i / 256)) * 256) + (i % 256)) } else { (((i / 256) * 256) + (i % 256)) },
            ),
        ],
        turn: 8,
    }
}

/// What the device is asked in piece 1 of the part `all` of `test_cross_block_data_patterns`.
pub open spec fn cross_block_data_patterns_all_1_asks() -> Seq<Ask> {
    let words1 = crate::stage::column(2048, |i: int| i);
    let words2 = crate::stage::column(2048, |i: int| (words1[i] as int) * 10);
    let words3 = crate::stage::column(
        23,
        |i: int| if (i < 2) { i } else { ((((((i - 2) / 3) + 1) * 256) + ((i - 2) % 3)) - 1) },
    );
    let words4 = crate::stage::column(23, |i: int| (words3[i] as int) * 100);
    let table1 = Thing::Table {
        layout: Layout::KeyLval,
        scalar: Scalar::U32,
        columns: seq![words1, words2],
        turn: 0,
    };
    let table2 = Thing::Table {
        layout: Layout::KeyRval,
        scalar: Scalar::U32,
        columns: seq![words3, words4],
        turn: 1,
    };
    seq![
        Ask::Make(table1),
        Ask::Make(table2),
        Ask::Make(cross_block_data_patterns_all_joined1()),
        Ask::Handle(cross_block_data_patterns_all_joined1()),
    ]
}

/// Piece 1 of the part `all` of `test_cross_block_data_patterns` asks what it should.
proof fn lemma_cross_block_data_patterns_all_1(m: Moment, steps: Seq<Step>) -> (n: Moment)
    requires
        m.holds(),
        m.at == 0,
        m.used == 0,
        0 + 22 <= m.plan.steps.len(),
        forall|j: int| 0 <= j < 22 ==> m.plan.steps[0 + j] == #[trigger] steps[j],
        crate::stage::fills(steps[0], 0, num(2048), ix()),
        crate::stage::fills(steps[1], 1, num(2048), times(here(0), num(10))),
        crate::stage::fills(
            steps[2],
            2,
            num(23),
            pick(
                lt(ix(), num(2)),
                ix(),
                minus(
                    plus(
                        times(plus(over(minus(ix(), num(2)), num(3)), num(1)), num(256)),
                        modulo(minus(ix(), num(2)), num(3)),
                    ),
                    num(1),
                ),
            ),
        ),
        crate::stage::fills(steps[3], 3, num(23), times(here(2), num(100))),
        crate::stage::demands(
            steps[4],
            Request::Create { into: 0, layout: Layout::KeyLval, scalar: Scalar::U32, from: 0 },
        ),
        crate::stage::demands(
            steps[5],
            Request::Create { into: 1, layout: Layout::KeyRval, scalar: Scalar::U32, from: 2 },
        ),
        crate::stage::demands(steps[6], Request::Join { left: 0, right: 1, into: 2 }),
        crate::stage::inquires(steps[7], Request::RowsKnown { of: 2, into: 0 }),
    ensures
        n.holds(),
        n.plan == m.plan,
        n.answers == m.answers,
        n.at == 0 + 8,
        n.used == m.used + 4,
        n.scene.buffer(2) == cross_block_data_patterns_all_joined1(),
        crate::stage::asks(m.plan, m.answers, 0, cross_block_data_patterns_all_1_asks()),
{
    crate::stage::lemma_full(m);
    crate::stage::lemma_asks_none(m, 0);
    let list0 = Seq::<Ask>::empty();
    let words1 = crate::stage::column(2048, |i: int| i);
    let word1 = ix();
    assert forall|i: int| 0 <= i < words1.len() implies crate::stage::meaning(
        word1,
        m.contents,
        i,
    ) as u64 == #[trigger] words1[i] by {
        reveal_with_fuel(crate::stage::meaning, 1);
    }
    let m1 = crate::stage::lemma_filled(m, steps[0], 0, num(2048), word1, words1);
    let words2 = crate::stage::column(2048, |i: int| (words1[i] as int) * 10);
    let word2 = times(here(0), num(10));
    assert forall|i: int| 0 <= i < words2.len() implies crate::stage::meaning(
        word2,
        m1.contents,
        i,
    ) as u64 == #[trigger] words2[i] by {
        reveal_with_fuel(crate::stage::meaning, 4);
    }
    let m2 = crate::stage::lemma_filled(m1, steps[1], 1, num(2048), word2, words2);
    let words3 = crate::stage::column(
        23,
        |i: int| if (i < 2) { i } else { ((((((i - 2) / 3) + 1) * 256) + ((i - 2) % 3)) - 1) },
    );
    let word3 = pick(
        lt(ix(), num(2)),
        ix(),
        minus(
            plus(
                times(plus(over(minus(ix(), num(2)), num(3)), num(1)), num(256)),
                modulo(minus(ix(), num(2)), num(3)),
            ),
            num(1),
        ),
    );
    assert forall|i: int| 0 <= i < words3.len() implies crate::stage::meaning(
        word3,
        m2.contents,
        i,
    ) as u64 == #[trigger] words3[i] by {
        reveal_with_fuel(crate::stage::meaning, 9);
    }
    let m3 = crate::stage::lemma_filled(m2, steps[2], 2, num(23), word3, words3);
    let words4 = crate::stage::column(23, |i: int| (words3[i] as int) * 100);
    let word4 = times(here(2), num(100));
    assert forall|i: int| 0 <= i < words4.len() implies crate::stage::meaning(
        word4,
        m3.contents,
        i,
    ) as u64 == #[trigger] words4[i] by {
        reveal_with_fuel(crate::stage::meaning, 4);
    }
    let m4 = crate::stage::lemma_filled(m3, steps[3], 3, num(23), word4, words4);
    let table1 = Thing::Table {
        layout: Layout::KeyLval,
        scalar: Scalar::U32,
        columns: seq![words1, words2],
        turn: 0,
    };
    let m5 = crate::stage::lemma_create(m4, steps[4], 0, Layout::KeyLval, Scalar::U32, 0, table1);
    crate::stage::lemma_asks_more(m, 0, list0, Ask::Make(table1));
    let list1 = list0.push(Ask::Make(table1));
    let table2 = Thing::Table {
        layout: Layout::KeyRval,
        scalar: Scalar::U32,
        columns: seq![words3, words4],
        turn: 1,
    };
    let m6 = crate::stage::lemma_create(m5, steps[5], 1, Layout::KeyRval, Scalar::U32, 2, table2);
    crate::stage::lemma_asks_more(m, 0, list1, Ask::Make(table2));
    let list2 = list1.push(Ask::Make(table2));
    let m7 = crate::stage::lemma_join(
        m6,
        steps[6],
        0,
        1,
        2,
        table1,
        table2,
        cross_block_data_patterns_all_joined1(),
    );
    crate::stage::lemma_asks_more(m, 0, list2, Ask::Make(cross_block_data_patterns_all_joined1()));
    let list3 = list2.push(Ask::Make(cross_block_data_patterns_all_joined1()));
    let m8 = crate::stage::lemma_handle(
        m7,
        steps[7],
        2,
        0,
        cross_block_data_patterns_all_joined1(),
    );
    crate::stage::lemma_asks_more(
        m,
        0,
        list3,
        Ask::Handle(cross_block_data_patterns_all_joined1()),
    );
    let list4 = list3.push(Ask::Handle(cross_block_data_patterns_all_joined1()));
    assert(cross_block_data_patterns_all_1_asks() == list4);
    m8
}

/// What the device is asked in piece 2 of the part `all` of `test_cross_block_data_patterns`.
pub open spec fn cross_block_data_patterns_all_2_asks() -> Seq<Ask> {
    seq![
        Ask::Words { of: cross_block_data_patterns_all_joined1(), column: 0, scalar: Scalar::U32 },
        Ask::Words { of: cross_block_data_patterns_all_joined1(), column: 1, scalar: Scalar::U32 },
        Ask::Words { of: cross_block_data_patterns_all_joined1(), column: 2, scalar: Scalar::U32 },
        Ask::Handle(cross_block_data_patterns_all_joined1()),
        Ask::Make(cross_block_data_patterns_all_table3()),
    ]
}

/// Piece 2 of the part `all` of `test_cross_block_data_patterns` asks what it should.
proof fn lemma_cross_block_data_patterns_all_2(m: Moment, steps: Seq<Step>) -> (n: Moment)
    requires
        m.holds(),
        m.at == 0 + 8,
        m.used == 4,
        0 + 22 <= m.plan.steps.len(),
        forall|j: int| 0 <= j < 22 ==> m.plan.steps[0 + j] == #[trigger] steps[j],
        crate::stage::looks(steps[8]),
        crate::stage::demands(
            steps[9],
            Request::Download { of: 2, column: 0, scalar: Scalar::U32, into: 4 },
        ),
        crate::stage::demands(
            steps[10],
            Request::Download { of: 2, column: 1, scalar: Scalar::U32, into: 5 },
        ),
        crate::stage::demands(
            steps[11],
            Request::Download { of: 2, column: 2, scalar: Scalar::U32, into: 6 },
        ),
        crate::stage::inquires(steps[12], Request::RowsKnown { of: 2, into: 1 }),
        crate::stage::looks(steps[13]),
        crate::stage::fills(
            steps[14],
            7,
            num(2048),
            pick(
                same_as(modulo(modulo(ix(), num(256)), num(2)), num(0)),
                plus(
                    times(minus(num(7), over(ix(), num(256))), num(256)),
                    modulo(ix(), num(256)),
                ),
                plus(times(over(ix(), num(256)), num(256)), modulo(ix(), num(256))),
            ),
        ),
        crate::stage::demands(
            steps[15],
            Request::Create { into: 3, layout: Layout::Val, scalar: Scalar::U32, from: 7 },
        ),
        m.scene.buffer(2) == cross_block_data_patterns_all_joined1(),
    ensures
        n.holds(),
        n.plan == m.plan,
        n.answers == m.answers,
        n.at == 0 + 16,
        n.used == m.used + 5,
        n.scene.buffer(3) == cross_block_data_patterns_all_table3(),
        crate::stage::asks(m.plan, m.answers, 4, cross_block_data_patterns_all_2_asks()),
{
    crate::stage::lemma_full(m);
    crate::stage::lemma_asks_none(m, 4);
    let list0 = Seq::<Ask>::empty();
    let m1 = crate::stage::lemma_look(m, steps[8]);
    let m2 = crate::stage::lemma_download(
        m1,
        steps[9],
        2,
        0,
        Scalar::U32,
        4,
        cross_block_data_patterns_all_joined1(),
    );
    crate::stage::lemma_asks_more(
        m,
        4,
        list0,
        Ask::Words { of: cross_block_data_patterns_all_joined1(), column: 0, scalar: Scalar::U32 },
    );
    let list1 = list0.push(
        Ask::Words { of: cross_block_data_patterns_all_joined1(), column: 0, scalar: Scalar::U32 },
    );
    let m3 = crate::stage::lemma_download(
        m2,
        steps[10],
        2,
        1,
        Scalar::U32,
        5,
        cross_block_data_patterns_all_joined1(),
    );
    crate::stage::lemma_asks_more(
        m,
        4,
        list1,
        Ask::Words { of: cross_block_data_patterns_all_joined1(), column: 1, scalar: Scalar::U32 },
    );
    let list2 = list1.push(
        Ask::Words { of: cross_block_data_patterns_all_joined1(), column: 1, scalar: Scalar::U32 },
    );
    let m4 = crate::stage::lemma_download(
        m3,
        steps[11],
        2,
        2,
        Scalar::U32,
        6,
        cross_block_data_patterns_all_joined1(),
    );
    crate::stage::lemma_asks_more(
        m,
        4,
        list2,
        Ask::Words { of: cross_block_data_patterns_all_joined1(), column: 2, scalar: Scalar::U32 },
    );
    let list3 = list2.push(
        Ask::Words { of: cross_block_data_patterns_all_joined1(), column: 2, scalar: Scalar::U32 },
    );
    let m5 = crate::stage::lemma_handle(
        m4,
        steps[12],
        2,
        1,
        cross_block_data_patterns_all_joined1(),
    );
    crate::stage::lemma_asks_more(
        m,
        4,
        list3,
        Ask::Handle(cross_block_data_patterns_all_joined1()),
    );
    let list4 = list3.push(Ask::Handle(cross_block_data_patterns_all_joined1()));
    let m6 = crate::stage::lemma_look(m5, steps[13]);
    let words5 = crate::stage::column(
        2048,
        |i: int| if (
            ((i % 256) % 2) == 0
        ) { (((7 - (i / 256)) * 256) + (i % 256)) } else { (((i / 256) * 256) + (i % 256)) },
    );
    let word7 = pick(
        same_as(modulo(modulo(ix(), num(256)), num(2)), num(0)),
        plus( times(minus(num(7), over(ix(), num(256))), num(256)), modulo(ix(), num(256)), ),
        plus(times(over(ix(), num(256)), num(256)), modulo(ix(), num(256))),
    );
    assert forall|i: int| 0 <= i < words5.len() implies crate::stage::meaning(
        word7,
        m6.contents,
        i,
    ) as u64 == #[trigger] words5[i] by {
        reveal_with_fuel(crate::stage::meaning, 7);
    }
    let m7 = crate::stage::lemma_filled(m6, steps[14], 7, num(2048), word7, words5);
    let m8 = crate::stage::lemma_create(
        m7,
        steps[15],
        3,
        Layout::Val,
        Scalar::U32,
        7,
        cross_block_data_patterns_all_table3(),
    );
    crate::stage::lemma_asks_more(m, 4, list4, Ask::Make(cross_block_data_patterns_all_table3()));
    let list5 = list4.push(Ask::Make(cross_block_data_patterns_all_table3()));
    assert(cross_block_data_patterns_all_2_asks() == list5);
    m8
}

/// What the device is asked in piece 3 of the part `all` of `test_cross_block_data_patterns`.
pub open spec fn cross_block_data_patterns_all_3_asks() -> Seq<Ask> {
    let sorted1 = Thing::Sorted {
        of: Box::new(cross_block_data_patterns_all_table3()),
        keys: 1,
        turn: 9,
    };
    seq![
        Ask::Make(sorted1),
        Ask::Words { of: sorted1, column: 0, scalar: Scalar::U32 },
        Ask::Other(Request::Sync),
    ]
}

/// Piece 3 of the part `all` of `test_cross_block_data_patterns` asks what it should.
proof fn lemma_cross_block_data_patterns_all_3(m: Moment, steps: Seq<Step>) -> (n: Moment)
    requires
        m.holds(),
        m.at == 0 + 16,
        m.used == 9,
        0 + 22 <= m.plan.steps.len(),
        forall|j: int| 0 <= j < 22 ==> m.plan.steps[0 + j] == #[trigger] steps[j],
        crate::stage::demands(steps[16], Request::Sort { of: 3, keys: 1, into: 4 }),
        crate::stage::demands(
            steps[17],
            Request::Download { of: 4, column: 0, scalar: Scalar::U32, into: 8 },
        ),
        crate::stage::looks(steps[18]),
        crate::stage::works(steps[19], 9),
        crate::stage::looks(steps[20]),
        crate::stage::demands(steps[21], Request::Sync),
        m.scene.buffer(3) == cross_block_data_patterns_all_table3(),
    ensures
        n.holds(),
        n.plan == m.plan,
        n.answers == m.answers,
        n.at == 0 + 22,
        n.used == m.used + 3,
        crate::stage::asks(m.plan, m.answers, 9, cross_block_data_patterns_all_3_asks()),
{
    crate::stage::lemma_full(m);
    crate::stage::lemma_asks_none(m, 9);
    let list0 = Seq::<Ask>::empty();
    let sorted1 = Thing::Sorted {
        of: Box::new(cross_block_data_patterns_all_table3()),
        keys: 1,
        turn: 9,
    };
    let m1 = crate::stage::lemma_sort(
        m,
        steps[16],
        3,
        1,
        4,
        cross_block_data_patterns_all_table3(),
        sorted1,
    );
    crate::stage::lemma_asks_more(m, 9, list0, Ask::Make(sorted1));
    let list1 = list0.push(Ask::Make(sorted1));
    let m2 = crate::stage::lemma_download(m1, steps[17], 4, 0, Scalar::U32, 8, sorted1);
    crate::stage::lemma_asks_more(
        m,
        9,
        list1,
        Ask::Words { of: sorted1, column: 0, scalar: Scalar::U32 },
    );
    let list2 = list1.push(Ask::Words { of: sorted1, column: 0, scalar: Scalar::U32 });
    let m3 = crate::stage::lemma_look(m2, steps[18]);
    let m4 = crate::stage::lemma_work(m3, steps[19], 9);
    let m5 = crate::stage::lemma_look(m4, steps[20]);
    let m6 = crate::stage::lemma_sync(m5, steps[21]);
    crate::stage::lemma_asks_more(m, 9, list2, Ask::Other(Request::Sync));
    let list3 = list2.push(Ask::Other(Request::Sync));
    assert(cross_block_data_patterns_all_3_asks() == list3);
    m6
}

/// The steps of the part `all` of `test_cross_block_data_patterns`.
proof fn lemma_cross_block_data_patterns_all_steps()
    ensures
        ({
            let steps = crate::categories::c10_block_grid::cross_block_data_patterns_steps();
            &&& steps.len() == 22
            &&& crate::stage::fills(steps[0], 0, num(2048), ix())
            &&& crate::stage::fills(steps[1], 1, num(2048), times(here(0), num(10)))
            &&& crate::stage::fills(
                steps[2],
                2,
                num(23),
                pick(
                    lt(ix(), num(2)),
                    ix(),
                    minus(
                        plus(
                            times(plus(over(minus(ix(), num(2)), num(3)), num(1)), num(256)),
                            modulo(minus(ix(), num(2)), num(3)),
                        ),
                        num(1),
                    ),
                ),
            )
            &&& crate::stage::fills(steps[3], 3, num(23), times(here(2), num(100)))
            &&& crate::stage::demands(
                steps[4],
                Request::Create { into: 0, layout: Layout::KeyLval, scalar: Scalar::U32, from: 0 },
            )
            &&& crate::stage::demands(
                steps[5],
                Request::Create { into: 1, layout: Layout::KeyRval, scalar: Scalar::U32, from: 2 },
            )
            &&& crate::stage::demands(steps[6], Request::Join { left: 0, right: 1, into: 2 })
            &&& crate::stage::inquires(steps[7], Request::RowsKnown { of: 2, into: 0 })
            &&& crate::stage::looks(steps[8])
            &&& crate::stage::demands(
                steps[9],
                Request::Download { of: 2, column: 0, scalar: Scalar::U32, into: 4 },
            )
            &&& crate::stage::demands(
                steps[10],
                Request::Download { of: 2, column: 1, scalar: Scalar::U32, into: 5 },
            )
            &&& crate::stage::demands(
                steps[11],
                Request::Download { of: 2, column: 2, scalar: Scalar::U32, into: 6 },
            )
            &&& crate::stage::inquires(steps[12], Request::RowsKnown { of: 2, into: 1 })
            &&& crate::stage::looks(steps[13])
            &&& crate::stage::fills(
                steps[14],
                7,
                num(2048),
                pick(
                    same_as(modulo(modulo(ix(), num(256)), num(2)), num(0)),
                    plus(
                        times(minus(num(7), over(ix(), num(256))), num(256)),
                        modulo(ix(), num(256)),
                    ),
                    plus(times(over(ix(), num(256)), num(256)), modulo(ix(), num(256))),
                ),
            )
            &&& crate::stage::demands(
                steps[15],
                Request::Create { into: 3, layout: Layout::Val, scalar: Scalar::U32, from: 7 },
            )
            &&& crate::stage::demands(steps[16], Request::Sort { of: 3, keys: 1, into: 4 })
            &&& crate::stage::demands(
                steps[17],
                Request::Download { of: 4, column: 0, scalar: Scalar::U32, into: 8 },
            )
            &&& crate::stage::looks(steps[18])
            &&& crate::stage::works(steps[19], 9)
            &&& crate::stage::looks(steps[20])
            &&& crate::stage::demands(steps[21], Request::Sync)
        }),
{
}

/// In a run of `test_cross_block_data_patterns` that passes the device is asked this, in this
/// order, and nothing else: each request about what an earlier one made is about that, and about
/// what was uploaded for it.
pub proof fn law_cross_block_data_patterns_asks_about_what_it_made(answers: Seq<Answer>)
    requires
        crate::stage::passes(
            crate::script::plan(
                "test_cross_block_data_patterns",
                crate::categories::c10_block_grid::cross_block_data_patterns_steps(),
            ),
            answers,
        ),
    ensures
        crate::stage::asks(
            crate::script::plan(
                "test_cross_block_data_patterns",
                crate::categories::c10_block_grid::cross_block_data_patterns_steps(),
            ),
            answers,
            0,
            cross_block_data_patterns_all_1_asks(),
        ),
        crate::stage::asks(
            crate::script::plan(
                "test_cross_block_data_patterns",
                crate::categories::c10_block_grid::cross_block_data_patterns_steps(),
            ),
            answers,
            4,
            cross_block_data_patterns_all_2_asks(),
        ),
        crate::stage::asks(
            crate::script::plan(
                "test_cross_block_data_patterns",
                crate::categories::c10_block_grid::cross_block_data_patterns_steps(),
            ),
            answers,
            9,
            cross_block_data_patterns_all_3_asks(),
        ),
        crate::stage::asked(
            crate::script::plan(
                "test_cross_block_data_patterns",
                crate::categories::c10_block_grid::cross_block_data_patterns_steps(),
            ),
            answers,
            12,
        ) is None,
{
    let plan = crate::script::plan(
        "test_cross_block_data_patterns",
        crate::categories::c10_block_grid::cross_block_data_patterns_steps(),
    );
    let part1 = crate::categories::c10_block_grid::cross_block_data_patterns_steps();
    lemma_cross_block_data_patterns_all_steps();
    let whole1 = part1;
    assert(plan.steps == whole1);
    let m0 = crate::stage::lemma_start(plan, answers);
    assert forall|j: int| 0 <= j < 22 implies plan.steps[0 + j] == #[trigger] part1[j] by {}
    let m1 = lemma_cross_block_data_patterns_all_1(m0, part1);
    let m2 = lemma_cross_block_data_patterns_all_2(m1, part1);
    let m3 = lemma_cross_block_data_patterns_all_3(m2, part1);
    crate::stage::lemma_end(m3);
}

} // verus!
