//! Blocks and grids: one block, many blocks, and data that cross their edges.

use vstd::prelude::*;
use crate::expr::{
    alike, and, at, before, differs, here, ix, len, lt, minus, modulo, narrow, not, num, or, over,
    pick, plus, reg, same_as, sum_of, times,
};
use crate::harness::{CategoryRun, Outcome};
use crate::message::{note0, note1, note2, note3, note4};
use crate::scalar::Scalar;
use crate::script::{
    check, dedup, download, fault1, fault2, fetch, fill, filter, join, Layout, Plan, put, release,
    rows_known, scan, Script, select, sort, sort_column, Step, sync, upload, upload_table,
};

verus! {

/// Sizes of at most one block.
pub const SINGLE_SIZES: [u64; 7] = [1, 16, 32, 64, 128, 192, 256];

/// Sizes of several blocks.
pub const MULTI_SIZES: [u64; 4] = [1000, 10000, 100000, 1000000];

/// Sizes around one block and two.
pub const EDGE_SIZES: [u64; 6] = [255, 256, 257, 511, 512, 513];

/// Sizes of several grids.
pub const GRID_SIZES: [u64; 2] = [5000000, 10000000];

/// One round of the sizes of [`test_single_block_operations`].
pub open spec fn single_block_operations_sizes_round(i: u64) -> Seq<Step> {
    let n = SINGLE_SIZES@[i as int];
    seq![
        fill(0, num(n), minus(minus(num(n), num(1)), ix())),
        fill(1, num(n), ix()),
        upload_table(0, Layout::KeyVal, 0, note1("Size {}: failed to create buffer: {}", num(n))),
        sort(0, 1, note1("Size {}: sort failed: {}", num(n))),
        rows_known(1, 0),
        check(
            differs(reg(0), num(n)),
            note3("Size {}: sort returned {} rows, expected {}", num(n), reg(0), num(n)),
        ),
        fetch(1, 2, note1("Size {}: failed to download keys: {}", num(n))),
        scan(
            num(0),
            len(2),
            1,
            fault1(
                differs(here(2), ix()),
                note4("Size {}: sorted_keys[{}] = {}, expected {}", num(n), ix(), here(2), ix()),
            ),
        ),
        fill(3, num(n), same_as(modulo(ix(), num(2)), num(0))),
        filter(0, 3, 2, note1("Size {}: filter failed: {}", num(n))),
        rows_known(2, 0),
        check(
            differs(reg(0), over(plus(num(n), num(1)), num(2))),
            note3(
                "Size {}: filter returned {} rows, expected {}",
                num(n),
                reg(0),
                over(plus(num(n), num(1)), num(2)),
            ),
        ),
        dedup(0, 3, note1("Size {}: dedup failed: {}", num(n))),
        rows_known(3, 0),
        check(
            differs(reg(0), num(n)),
            note3("Size {}: dedup returned {} rows, expected {}", num(n), reg(0), num(n)),
        ),
        release(0),
    ]
}

/// Writes one round of the sizes of [`test_single_block_operations`].
fn single_block_operations_sizes(i: u64) -> (steps: Vec<Step>)
    requires
        i < 7,
    ensures
        steps@ == single_block_operations_sizes_round(i),
{
    let n: u64 = SINGLE_SIZES[i as usize];
    vec![
        fill(0, num(n), minus(minus(num(n), num(1)), ix())),
        fill(1, num(n), ix()),
        upload_table(0, Layout::KeyVal, 0, note1("Size {}: failed to create buffer: {}", num(n))),
        sort(0, 1, note1("Size {}: sort failed: {}", num(n))),
        rows_known(1, 0),
        check(
            differs(reg(0), num(n)),
            note3("Size {}: sort returned {} rows, expected {}", num(n), reg(0), num(n)),
        ),
        fetch(1, 2, note1("Size {}: failed to download keys: {}", num(n))),
        scan(
            num(0),
            len(2),
            1,
            fault1(
                differs(here(2), ix()),
                note4("Size {}: sorted_keys[{}] = {}, expected {}", num(n), ix(), here(2), ix()),
            ),
        ),
        fill(3, num(n), same_as(modulo(ix(), num(2)), num(0))),
        filter(0, 3, 2, note1("Size {}: filter failed: {}", num(n))),
        rows_known(2, 0),
        check(
            differs(reg(0), over(plus(num(n), num(1)), num(2))),
            note3(
                "Size {}: filter returned {} rows, expected {}",
                num(n),
                reg(0),
                over(plus(num(n), num(1)), num(2)),
            ),
        ),
        dedup(0, 3, note1("Size {}: dedup failed: {}", num(n))),
        rows_known(3, 0),
        check(
            differs(reg(0), num(n)),
            note3("Size {}: dedup returned {} rows, expected {}", num(n), reg(0), num(n)),
        ),
        release(0),
    ]
}

/// The end of [`test_single_block_operations`].
pub open spec fn single_block_operations_end_steps() -> Seq<Step> {
    seq![
        sync(note0("Sync failed: {}")),
    ]
}

/// Writes the end of [`test_single_block_operations`].
fn single_block_operations_end() -> (steps: Vec<Step>)
    ensures
        steps@ == single_block_operations_end_steps(),
{
    vec![
        sync(note0("Sync failed: {}")),
    ]
}

/// The steps of [`test_single_block_operations`].
pub open spec fn single_block_operations_steps() -> Seq<Step> {
    crate::script::rounds(7, |i: int| single_block_operations_sizes_round(i as u64))
        + single_block_operations_end_steps()
}

/// One block sorts, filters and removes duplicates.
pub fn test_single_block_operations() -> (script: Script)
    ensures
        script@ == crate::script::plan(
            "test_single_block_operations",
            single_block_operations_steps(),
        ),
{
    let mut steps: Vec<Step> = Vec::new();
    let mut i: u64 = 0;
    while i < 7
        invariant
            i <= 7,
            steps@ == crate::script::rounds(
                i as int,
                |i: int| single_block_operations_sizes_round(i as u64),
            ),
        decreases 7 - i,
    {
        let mut round = single_block_operations_sizes(i);
        steps.append(&mut round);
        i = i + 1;
    }
    let mut more = single_block_operations_end();
    steps.append(&mut more);
    Script::new("test_single_block_operations", steps)
}

/// One round of the sizes of [`test_multi_block_operations`].
pub open spec fn multi_block_operations_sizes_round(i: u64) -> Seq<Step> {
    let n = MULTI_SIZES@[i as int];
    seq![
        fill(0, num(n), minus(minus(num(n), num(1)), ix())),
        upload(0, 0, note1("Size {}: failed to create buffer: {}", num(n))),
        sort(0, 1, note1("Size {}: sort failed: {}", num(n))),
        rows_known(1, 0),
        check(
            differs(reg(0), num(n)),
            note3("Size {}: sort returned {} rows, expected {}", num(n), reg(0), num(n)),
        ),
        fetch(1, 1, note1("Size {}: failed to download: {}", num(n))),
        check(
            differs(at(1, num(0)), num(0)),
            note2("Size {}: first element is {}, expected 0", num(n), at(1, num(0))),
        ),
        check(
            differs(at(1, over(num(n), num(2))), over(num(n), num(2))),
            note4(
                "Size {}: middle element [{}] is {}, expected {}",
                num(n),
                over(num(n), num(2)),
                at(1, over(num(n), num(2))),
                over(num(n), num(2)),
            ),
        ),
        check(
            differs(at(1, minus(num(n), num(1))), minus(num(n), num(1))),
            note3(
                "Size {}: last element is {}, expected {}",
                num(n),
                at(1, minus(num(n), num(1))),
                minus(num(n), num(1)),
            ),
        ),
        check(
            lt(at(1, num(100)), at(1, num(0))),
            note4(
                "Size {}: not sorted at {}: {} > {}",
                num(n),
                num(100),
                at(1, num(0)),
                at(1, num(100)),
            ),
        ),
        check(
            and(lt(num(1000), num(n)), lt(at(1, num(1000)), at(1, num(100)))),
            note4(
                "Size {}: not sorted at {}: {} > {}",
                num(n),
                num(1000),
                at(1, num(100)),
                at(1, num(1000)),
            ),
        ),
        put(1, pick(lt(num(1000), num(n)), at(1, num(1000)), at(1, num(100)))),
        check(
            lt(at(1, over(num(n), num(4))), reg(1)),
            note4(
                "Size {}: not sorted at {}: {} > {}",
                num(n),
                over(num(n), num(4)),
                reg(1),
                at(1, over(num(n), num(4))),
            ),
        ),
        check(
            lt(at(1, over(num(n), num(2))), at(1, over(num(n), num(4)))),
            note4(
                "Size {}: not sorted at {}: {} > {}",
                num(n),
                over(num(n), num(2)),
                at(1, over(num(n), num(4))),
                at(1, over(num(n), num(2))),
            ),
        ),
        check(
            lt(at(1, over(times(num(n), num(3)), num(4))), at(1, over(num(n), num(2)))),
            note4(
                "Size {}: not sorted at {}: {} > {}",
                num(n),
                over(times(num(n), num(3)), num(4)),
                at(1, over(num(n), num(2))),
                at(1, over(times(num(n), num(3)), num(4))),
            ),
        ),
        check(
            lt(at(1, minus(num(n), num(100))), at(1, over(times(num(n), num(3)), num(4)))),
            note4(
                "Size {}: not sorted at {}: {} > {}",
                num(n),
                minus(num(n), num(100)),
                at(1, over(times(num(n), num(3)), num(4))),
                at(1, minus(num(n), num(100))),
            ),
        ),
        check(
            lt(at(1, minus(num(n), num(1))), at(1, minus(num(n), num(100)))),
            note4(
                "Size {}: not sorted at {}: {} > {}",
                num(n),
                minus(num(n), num(1)),
                at(1, minus(num(n), num(100))),
                at(1, minus(num(n), num(1))),
            ),
        ),
        fill(2, num(n), same_as(modulo(ix(), num(10)), num(0))),
        filter(0, 2, 2, note1("Size {}: filter failed: {}", num(n))),
        rows_known(2, 0),
        check(
            differs(reg(0), over(plus(num(n), num(9)), num(10))),
            note3(
                "Size {}: filter returned {} rows, expected {}",
                num(n),
                reg(0),
                over(plus(num(n), num(9)), num(10)),
            ),
        ),
        release(0),
    ]
}

/// Writes one round of the sizes of [`test_multi_block_operations`].
fn multi_block_operations_sizes(i: u64) -> (steps: Vec<Step>)
    requires
        i < 4,
    ensures
        steps@ == multi_block_operations_sizes_round(i),
{
    let n: u64 = MULTI_SIZES[i as usize];
    vec![
        fill(0, num(n), minus(minus(num(n), num(1)), ix())),
        upload(0, 0, note1("Size {}: failed to create buffer: {}", num(n))),
        sort(0, 1, note1("Size {}: sort failed: {}", num(n))),
        rows_known(1, 0),
        check(
            differs(reg(0), num(n)),
            note3("Size {}: sort returned {} rows, expected {}", num(n), reg(0), num(n)),
        ),
        fetch(1, 1, note1("Size {}: failed to download: {}", num(n))),
        check(
            differs(at(1, num(0)), num(0)),
            note2("Size {}: first element is {}, expected 0", num(n), at(1, num(0))),
        ),
        check(
            differs(at(1, over(num(n), num(2))), over(num(n), num(2))),
            note4(
                "Size {}: middle element [{}] is {}, expected {}",
                num(n),
                over(num(n), num(2)),
                at(1, over(num(n), num(2))),
                over(num(n), num(2)),
            ),
        ),
        check(
            differs(at(1, minus(num(n), num(1))), minus(num(n), num(1))),
            note3(
                "Size {}: last element is {}, expected {}",
                num(n),
                at(1, minus(num(n), num(1))),
                minus(num(n), num(1)),
            ),
        ),
        check(
            lt(at(1, num(100)), at(1, num(0))),
            note4(
                "Size {}: not sorted at {}: {} > {}",
                num(n),
                num(100),
                at(1, num(0)),
                at(1, num(100)),
            ),
        ),
        check(
            and(lt(num(1000), num(n)), lt(at(1, num(1000)), at(1, num(100)))),
            note4(
                "Size {}: not sorted at {}: {} > {}",
                num(n),
                num(1000),
                at(1, num(100)),
                at(1, num(1000)),
            ),
        ),
        put(1, pick(lt(num(1000), num(n)), at(1, num(1000)), at(1, num(100)))),
        check(
            lt(at(1, over(num(n), num(4))), reg(1)),
            note4(
                "Size {}: not sorted at {}: {} > {}",
                num(n),
                over(num(n), num(4)),
                reg(1),
                at(1, over(num(n), num(4))),
            ),
        ),
        check(
            lt(at(1, over(num(n), num(2))), at(1, over(num(n), num(4)))),
            note4(
                "Size {}: not sorted at {}: {} > {}",
                num(n),
                over(num(n), num(2)),
                at(1, over(num(n), num(4))),
                at(1, over(num(n), num(2))),
            ),
        ),
        check(
            lt(at(1, over(times(num(n), num(3)), num(4))), at(1, over(num(n), num(2)))),
            note4(
                "Size {}: not sorted at {}: {} > {}",
                num(n),
                over(times(num(n), num(3)), num(4)),
                at(1, over(num(n), num(2))),
                at(1, over(times(num(n), num(3)), num(4))),
            ),
        ),
        check(
            lt(at(1, minus(num(n), num(100))), at(1, over(times(num(n), num(3)), num(4)))),
            note4(
                "Size {}: not sorted at {}: {} > {}",
                num(n),
                minus(num(n), num(100)),
                at(1, over(times(num(n), num(3)), num(4))),
                at(1, minus(num(n), num(100))),
            ),
        ),
        check(
            lt(at(1, minus(num(n), num(1))), at(1, minus(num(n), num(100)))),
            note4(
                "Size {}: not sorted at {}: {} > {}",
                num(n),
                minus(num(n), num(1)),
                at(1, minus(num(n), num(100))),
                at(1, minus(num(n), num(1))),
            ),
        ),
        fill(2, num(n), same_as(modulo(ix(), num(10)), num(0))),
        filter(0, 2, 2, note1("Size {}: filter failed: {}", num(n))),
        rows_known(2, 0),
        check(
            differs(reg(0), over(plus(num(n), num(9)), num(10))),
            note3(
                "Size {}: filter returned {} rows, expected {}",
                num(n),
                reg(0),
                over(plus(num(n), num(9)), num(10)),
            ),
        ),
        release(0),
    ]
}

/// The end of [`test_multi_block_operations`].
pub open spec fn multi_block_operations_end_steps() -> Seq<Step> {
    seq![
        sync(note0("Sync failed: {}")),
    ]
}

/// Writes the end of [`test_multi_block_operations`].
fn multi_block_operations_end() -> (steps: Vec<Step>)
    ensures
        steps@ == multi_block_operations_end_steps(),
{
    vec![
        sync(note0("Sync failed: {}")),
    ]
}

/// The steps of [`test_multi_block_operations`].
pub open spec fn multi_block_operations_steps() -> Seq<Step> {
    crate::script::rounds(4, |i: int| multi_block_operations_sizes_round(i as u64))
        + multi_block_operations_end_steps()
}

/// Several blocks sort and filter one column.
pub fn test_multi_block_operations() -> (script: Script)
    ensures
        script@ == crate::script::plan(
            "test_multi_block_operations",
            multi_block_operations_steps(),
        ),
{
    let mut steps: Vec<Step> = Vec::new();
    let mut i: u64 = 0;
    while i < 4
        invariant
            i <= 4,
            steps@ == crate::script::rounds(
                i as int,
                |i: int| multi_block_operations_sizes_round(i as u64),
            ),
        decreases 4 - i,
    {
        let mut round = multi_block_operations_sizes(i);
        steps.append(&mut round);
        i = i + 1;
    }
    let mut more = multi_block_operations_end();
    steps.append(&mut more);
    Script::new("test_multi_block_operations", steps)
}

/// One round of the sizes of [`test_block_boundary_correctness`].
pub open spec fn block_boundary_correctness_sizes_round(i: u64) -> Seq<Step> {
    let n = EDGE_SIZES@[i as int];
    seq![
        fill(0, num(n), minus(minus(num(n), num(1)), ix())),
        upload(0, 0, note1("Size {}: failed to create buffer: {}", num(n))),
        sort(0, 1, note1("Size {}: sort failed: {}", num(n))),
        rows_known(1, 0),
        check(
            differs(reg(0), num(n)),
            note3("Size {}: sort returned {} rows, expected {}", num(n), reg(0), num(n)),
        ),
        fetch(1, 1, note1("Size {}: failed to download: {}", num(n))),
        scan(
            num(0),
            len(1),
            1,
            fault1(
                differs(here(1), ix()),
                note4("Size {}: sorted[{}] = {}, expected {}", num(n), ix(), here(1), ix()),
            ),
        ),
        fill(
            2,
            num(n),
            or(
                same_as(modulo(ix(), num(256)), num(0)),
                same_as(modulo(ix(), num(256)), num(255)),
            ),
        ),
        put(1, sum_of(2)),
        filter(0, 2, 2, note1("Size {}: filter failed: {}", num(n))),
        rows_known(2, 0),
        check(
            differs(reg(0), reg(1)),
            note3("Size {}: filter returned {} rows, expected {}", num(n), reg(0), reg(1)),
        ),
        fetch(2, 3, note1("Size {}: failed to download filtered: {}", num(n))),
        select(4, num(n), same_as(here(2), num(1)), here(0)),
        check(not(alike(3, 4)), note1("Size {}: filtered data mismatch", num(n))),
        release(0),
    ]
}

/// Writes one round of the sizes of [`test_block_boundary_correctness`].
fn block_boundary_correctness_sizes(i: u64) -> (steps: Vec<Step>)
    requires
        i < 6,
    ensures
        steps@ == block_boundary_correctness_sizes_round(i),
{
    let n: u64 = EDGE_SIZES[i as usize];
    vec![
        fill(0, num(n), minus(minus(num(n), num(1)), ix())),
        upload(0, 0, note1("Size {}: failed to create buffer: {}", num(n))),
        sort(0, 1, note1("Size {}: sort failed: {}", num(n))),
        rows_known(1, 0),
        check(
            differs(reg(0), num(n)),
            note3("Size {}: sort returned {} rows, expected {}", num(n), reg(0), num(n)),
        ),
        fetch(1, 1, note1("Size {}: failed to download: {}", num(n))),
        scan(
            num(0),
            len(1),
            1,
            fault1(
                differs(here(1), ix()),
                note4("Size {}: sorted[{}] = {}, expected {}", num(n), ix(), here(1), ix()),
            ),
        ),
        fill(
            2,
            num(n),
            or(
                same_as(modulo(ix(), num(256)), num(0)),
                same_as(modulo(ix(), num(256)), num(255)),
            ),
        ),
        put(1, sum_of(2)),
        filter(0, 2, 2, note1("Size {}: filter failed: {}", num(n))),
        rows_known(2, 0),
        check(
            differs(reg(0), reg(1)),
            note3("Size {}: filter returned {} rows, expected {}", num(n), reg(0), reg(1)),
        ),
        fetch(2, 3, note1("Size {}: failed to download filtered: {}", num(n))),
        select(4, num(n), same_as(here(2), num(1)), here(0)),
        check(not(alike(3, 4)), note1("Size {}: filtered data mismatch", num(n))),
        release(0),
    ]
}

/// The end of [`test_block_boundary_correctness`].
pub open spec fn block_boundary_correctness_end_steps() -> Seq<Step> {
    seq![
        sync(note0("Sync failed: {}")),
    ]
}

/// Writes the end of [`test_block_boundary_correctness`].
fn block_boundary_correctness_end() -> (steps: Vec<Step>)
    ensures
        steps@ == block_boundary_correctness_end_steps(),
{
    vec![
        sync(note0("Sync failed: {}")),
    ]
}

/// The steps of [`test_block_boundary_correctness`].
pub open spec fn block_boundary_correctness_steps() -> Seq<Step> {
    crate::script::rounds(6, |i: int| block_boundary_correctness_sizes_round(i as u64))
        + block_boundary_correctness_end_steps()
}

/// Rows at the edges of blocks are sorted and kept.
pub fn test_block_boundary_correctness() -> (script: Script)
    ensures
        script@ == crate::script::plan(
            "test_block_boundary_correctness",
            block_boundary_correctness_steps(),
        ),
{
    let mut steps: Vec<Step> = Vec::new();
    let mut i: u64 = 0;
    while i < 6
        invariant
            i <= 6,
            steps@ == crate::script::rounds(
                i as int,
                |i: int| block_boundary_correctness_sizes_round(i as u64),
            ),
        decreases 6 - i,
    {
        let mut round = block_boundary_correctness_sizes(i);
        steps.append(&mut round);
        i = i + 1;
    }
    let mut more = block_boundary_correctness_end();
    steps.append(&mut more);
    Script::new("test_block_boundary_correctness", steps)
}

/// One round of the sizes of [`test_grid_stride_correctness`].
pub open spec fn grid_stride_correctness_sizes_round(i: u64) -> Seq<Step> {
    let n = GRID_SIZES@[i as int];
    seq![
        fill(0, num(n), modulo(ix(), num(10000))),
        upload(0, 0, note1("Size {}: failed to create buffer: {}", num(n))),
        sort(0, 1, note1("Size {}: sort failed: {}", num(n))),
        rows_known(1, 0),
        check(
            differs(reg(0), num(n)),
            note3("Size {}: sort returned {} rows, expected {}", num(n), reg(0), num(n)),
        ),
        fetch(1, 1, note1("Size {}: failed to download: {}", num(n))),
        check(
            differs(at(1, num(0)), num(0)),
            note2("Size {}: first element is {}, expected 0", num(n), at(1, num(0))),
        ),
        check(
            differs(at(1, minus(num(n), num(1))), num(9999)),
            note2(
                "Size {}: last element is {}, expected 9999",
                num(n),
                at(1, minus(num(n), num(1))),
            ),
        ),
        check(
            lt(at(1, num(1000)), at(1, num(0))),
            note4(
                "Size {}: not sorted at {}: {} > {}",
                num(n),
                num(1000),
                at(1, num(0)),
                at(1, num(1000)),
            ),
        ),
        check(
            lt(at(1, num(100000)), at(1, num(1000))),
            note4(
                "Size {}: not sorted at {}: {} > {}",
                num(n),
                num(100000),
                at(1, num(1000)),
                at(1, num(100000)),
            ),
        ),
        check(
            lt(at(1, num(1000000)), at(1, num(100000))),
            note4(
                "Size {}: not sorted at {}: {} > {}",
                num(n),
                num(1000000),
                at(1, num(100000)),
                at(1, num(1000000)),
            ),
        ),
        check(
            lt(at(1, num(2500000)), at(1, num(1000000))),
            note4(
                "Size {}: not sorted at {}: {} > {}",
                num(n),
                num(2500000),
                at(1, num(1000000)),
                at(1, num(2500000)),
            ),
        ),
        check(
            lt(at(1, num(4000000)), at(1, num(2500000))),
            note4(
                "Size {}: not sorted at {}: {} > {}",
                num(n),
                num(4000000),
                at(1, num(2500000)),
                at(1, num(4000000)),
            ),
        ),
        check(
            lt(at(1, minus(num(n), num(1000))), at(1, num(4000000))),
            note4(
                "Size {}: not sorted at {}: {} > {}",
                num(n),
                minus(num(n), num(1000)),
                at(1, num(4000000)),
                at(1, minus(num(n), num(1000))),
            ),
        ),
        check(
            lt(at(1, minus(num(n), num(1))), at(1, minus(num(n), num(1000)))),
            note4(
                "Size {}: not sorted at {}: {} > {}",
                num(n),
                minus(num(n), num(1)),
                at(1, minus(num(n), num(1000))),
                at(1, minus(num(n), num(1))),
            ),
        ),
        check(
            lt(num(1), at(1, over(num(n), num(10000)))),
            note3(
                "Size {}: expected value <= 1 at position {}, got {}",
                num(n),
                over(num(n), num(10000)),
                at(1, over(num(n), num(10000))),
            ),
        ),
        fill(2, num(n), same_as(modulo(ix(), num(100)), num(0))),
        filter(0, 2, 2, note1("Size {}: filter failed: {}", num(n))),
        rows_known(2, 0),
        check(
            differs(reg(0), over(plus(num(n), num(99)), num(100))),
            note3(
                "Size {}: filter returned {} rows, expected {}",
                num(n),
                reg(0),
                over(plus(num(n), num(99)), num(100)),
            ),
        ),
        release(0),
    ]
}

/// Writes one round of the sizes of [`test_grid_stride_correctness`].
fn grid_stride_correctness_sizes(i: u64) -> (steps: Vec<Step>)
    requires
        i < 2,
    ensures
        steps@ == grid_stride_correctness_sizes_round(i),
{
    let n: u64 = GRID_SIZES[i as usize];
    vec![
        fill(0, num(n), modulo(ix(), num(10000))),
        upload(0, 0, note1("Size {}: failed to create buffer: {}", num(n))),
        sort(0, 1, note1("Size {}: sort failed: {}", num(n))),
        rows_known(1, 0),
        check(
            differs(reg(0), num(n)),
            note3("Size {}: sort returned {} rows, expected {}", num(n), reg(0), num(n)),
        ),
        fetch(1, 1, note1("Size {}: failed to download: {}", num(n))),
        check(
            differs(at(1, num(0)), num(0)),
            note2("Size {}: first element is {}, expected 0", num(n), at(1, num(0))),
        ),
        check(
            differs(at(1, minus(num(n), num(1))), num(9999)),
            note2(
                "Size {}: last element is {}, expected 9999",
                num(n),
                at(1, minus(num(n), num(1))),
            ),
        ),
        check(
            lt(at(1, num(1000)), at(1, num(0))),
            note4(
                "Size {}: not sorted at {}: {} > {}",
                num(n),
                num(1000),
                at(1, num(0)),
                at(1, num(1000)),
            ),
        ),
        check(
            lt(at(1, num(100000)), at(1, num(1000))),
            note4(
                "Size {}: not sorted at {}: {} > {}",
                num(n),
                num(100000),
                at(1, num(1000)),
                at(1, num(100000)),
            ),
        ),
        check(
            lt(at(1, num(1000000)), at(1, num(100000))),
            note4(
                "Size {}: not sorted at {}: {} > {}",
                num(n),
                num(1000000),
                at(1, num(100000)),
                at(1, num(1000000)),
            ),
        ),
        check(
            lt(at(1, num(2500000)), at(1, num(1000000))),
            note4(
                "Size {}: not sorted at {}: {} > {}",
                num(n),
                num(2500000),
                at(1, num(1000000)),
                at(1, num(2500000)),
            ),
        ),
        check(
            lt(at(1, num(4000000)), at(1, num(2500000))),
            note4(
                "Size {}: not sorted at {}: {} > {}",
                num(n),
                num(4000000),
                at(1, num(2500000)),
                at(1, num(4000000)),
            ),
        ),
        check(
            lt(at(1, minus(num(n), num(1000))), at(1, num(4000000))),
            note4(
                "Size {}: not sorted at {}: {} > {}",
                num(n),
                minus(num(n), num(1000)),
                at(1, num(4000000)),
                at(1, minus(num(n), num(1000))),
            ),
        ),
        check(
            lt(at(1, minus(num(n), num(1))), at(1, minus(num(n), num(1000)))),
            note4(
                "Size {}: not sorted at {}: {} > {}",
                num(n),
                minus(num(n), num(1)),
                at(1, minus(num(n), num(1000))),
                at(1, minus(num(n), num(1))),
            ),
        ),
        check(
            lt(num(1), at(1, over(num(n), num(10000)))),
            note3(
                "Size {}: expected value <= 1 at position {}, got {}",
                num(n),
                over(num(n), num(10000)),
                at(1, over(num(n), num(10000))),
            ),
        ),
        fill(2, num(n), same_as(modulo(ix(), num(100)), num(0))),
        filter(0, 2, 2, note1("Size {}: filter failed: {}", num(n))),
        rows_known(2, 0),
        check(
            differs(reg(0), over(plus(num(n), num(99)), num(100))),
            note3(
                "Size {}: filter returned {} rows, expected {}",
                num(n),
                reg(0),
                over(plus(num(n), num(99)), num(100)),
            ),
        ),
        release(0),
    ]
}

/// The end of [`test_grid_stride_correctness`].
pub open spec fn grid_stride_correctness_end_steps() -> Seq<Step> {
    seq![
        sync(note0("Sync failed: {}")),
    ]
}

/// Writes the end of [`test_grid_stride_correctness`].
fn grid_stride_correctness_end() -> (steps: Vec<Step>)
    ensures
        steps@ == grid_stride_correctness_end_steps(),
{
    vec![
        sync(note0("Sync failed: {}")),
    ]
}

/// The steps of [`test_grid_stride_correctness`].
pub open spec fn grid_stride_correctness_steps() -> Seq<Step> {
    crate::script::rounds(2, |i: int| grid_stride_correctness_sizes_round(i as u64))
        + grid_stride_correctness_end_steps()
}

/// Columns longer than a grid are sorted and filtered.
pub fn test_grid_stride_correctness() -> (script: Script)
    ensures
        script@ == crate::script::plan(
            "test_grid_stride_correctness",
            grid_stride_correctness_steps(),
        ),
{
    let mut steps: Vec<Step> = Vec::new();
    let mut i: u64 = 0;
    while i < 2
        invariant
            i <= 2,
            steps@ == crate::script::rounds(
                i as int,
                |i: int| grid_stride_correctness_sizes_round(i as u64),
            ),
        decreases 2 - i,
    {
        let mut round = grid_stride_correctness_sizes(i);
        steps.append(&mut round);
        i = i + 1;
    }
    let mut more = grid_stride_correctness_end();
    steps.append(&mut more);
    Script::new("test_grid_stride_correctness", steps)
}

/// The steps of [`test_cross_block_data_patterns`].
pub open spec fn cross_block_data_patterns_steps() -> Seq<Step> {
    seq![
        fill(0, num(2048), ix()),
        fill(1, num(2048), times(here(0), num(10))),
        fill(
            2,
            num(23),
            pick(
                lt(ix(), num(2)),
                ix(),
                minus(
                    plus(
                        times(plus(over(minus(ix(), num(2)), num(3)), num(1)), num(256)),
                        modulo(minus(ix(), num(2)), num(3)),
                    ),
                    num(1),
                ),
            ),
        ),
        fill(3, num(23), times(here(2), num(100))),
        upload_table(0, Layout::KeyLval, 0, note0("Failed to create left buffer: {}")),
        upload_table(1, Layout::KeyRval, 2, note0("Failed to create right buffer: {}")),
        join(0, 1, 2, note0("Hash join failed: {}")),
        rows_known(2, 0),
        check(
            differs(reg(0), len(2)),
            note2("Join returned {} rows, expected {}", reg(0), len(2)),
        ),
        fetch(2, 4, note0("Failed to download joined keys: {}")),
        download(2, 1, Scalar::U32, 5, note0("Failed to download joined lvals: {}")),
        download(2, 2, Scalar::U32, 6, note0("Failed to download joined rvals: {}")),
        rows_known(2, 1),
        scan(
            num(0),
            reg(1),
            1,
            fault2(
                and(not(lt(here(6), num(0))), differs(here(5), narrow(times(here(4), num(10))))),
                note4(
                    "Row {}: lval {} doesn't match expected {} for key {}",
                    ix(),
                    here(5),
                    times(here(4), num(10)),
                    here(4),
                ),
                differs(here(6), narrow(times(here(4), num(100)))),
                note4(
                    "Row {}: rval {} doesn't match expected {} for key {}",
                    ix(),
                    here(6),
                    times(here(4), num(100)),
                    here(4),
                ),
            ),
        ),
        fill(
            7,
            num(2048),
            pick(
                same_as(modulo(modulo(ix(), num(256)), num(2)), num(0)),
                plus(
                    times(minus(num(7), over(ix(), num(256))), num(256)),
                    modulo(ix(), num(256)),
                ),
                plus(times(over(ix(), num(256)), num(256)), modulo(ix(), num(256))),
            ),
        ),
        upload(3, 7, note0("Failed to create cross-block sort buffer: {}")),
        sort(3, 4, note0("Sort of cross-block data failed: {}")),
        fetch(4, 8, note0("Failed to download sorted cross-block data: {}")),
        scan(
            num(1),
            num(2048),
            1,
            fault1(
                lt(here(8), before(8)),
                note3("Cross-block sort: not sorted at {}: {} > {}", ix(), before(8), here(8)),
            ),
        ),
        sort_column(9, 7, Scalar::U32),
        check(not(alike(8, 9)), note0("Cross-block sort: values not preserved")),
        sync(note0("Sync failed: {}")),
    ]
}

/// Joins and sorts reach across the edges of blocks.
pub fn test_cross_block_data_patterns() -> (script: Script)
    ensures
        script@ == crate::script::plan(
            "test_cross_block_data_patterns",
            cross_block_data_patterns_steps(),
        ),
{
    let steps: Vec<Step> = vec![
        fill(0, num(2048), ix()),
        fill(1, num(2048), times(here(0), num(10))),
        fill(
            2,
            num(23),
            pick(
                lt(ix(), num(2)),
                ix(),
                minus(
                    plus(
                        times(plus(over(minus(ix(), num(2)), num(3)), num(1)), num(256)),
                        modulo(minus(ix(), num(2)), num(3)),
                    ),
                    num(1),
                ),
            ),
        ),
        fill(3, num(23), times(here(2), num(100))),
        upload_table(0, Layout::KeyLval, 0, note0("Failed to create left buffer: {}")),
        upload_table(1, Layout::KeyRval, 2, note0("Failed to create right buffer: {}")),
        join(0, 1, 2, note0("Hash join failed: {}")),
        rows_known(2, 0),
        check(
            differs(reg(0), len(2)),
            note2("Join returned {} rows, expected {}", reg(0), len(2)),
        ),
        fetch(2, 4, note0("Failed to download joined keys: {}")),
        download(2, 1, Scalar::U32, 5, note0("Failed to download joined lvals: {}")),
        download(2, 2, Scalar::U32, 6, note0("Failed to download joined rvals: {}")),
        rows_known(2, 1),
        scan(
            num(0),
            reg(1),
            1,
            fault2(
                and(not(lt(here(6), num(0))), differs(here(5), narrow(times(here(4), num(10))))),
                note4(
                    "Row {}: lval {} doesn't match expected {} for key {}",
                    ix(),
                    here(5),
                    times(here(4), num(10)),
                    here(4),
                ),
                differs(here(6), narrow(times(here(4), num(100)))),
                note4(
                    "Row {}: rval {} doesn't match expected {} for key {}",
                    ix(),
                    here(6),
                    times(here(4), num(100)),
                    here(4),
                ),
            ),
        ),
        fill(
            7,
            num(2048),
            pick(
                same_as(modulo(modulo(ix(), num(256)), num(2)), num(0)),
                plus(
                    times(minus(num(7), over(ix(), num(256))), num(256)),
                    modulo(ix(), num(256)),
                ),
                plus(times(over(ix(), num(256)), num(256)), modulo(ix(), num(256))),
            ),
        ),
        upload(3, 7, note0("Failed to create cross-block sort buffer: {}")),
        sort(3, 4, note0("Sort of cross-block data failed: {}")),
        fetch(4, 8, note0("Failed to download sorted cross-block data: {}")),
        scan(
            num(1),
            num(2048),
            1,
            fault1(
                lt(here(8), before(8)),
                note3("Cross-block sort: not sorted at {}: {} > {}", ix(), before(8), here(8)),
            ),
        ),
        sort_column(9, 7, Scalar::U32),
        check(not(alike(8, 9)), note0("Cross-block sort: values not preserved")),
        sync(note0("Sync failed: {}")),
    ];
    Script::new("test_cross_block_data_patterns", steps)
}

/// The tests of the category.
pub open spec fn tests() -> Seq<Plan> {
    seq![
        crate::script::plan("test_single_block_operations", single_block_operations_steps()),
        crate::script::plan("test_multi_block_operations", multi_block_operations_steps()),
        crate::script::plan("test_block_boundary_correctness", block_boundary_correctness_steps()),
        crate::script::plan("test_grid_stride_correctness", grid_stride_correctness_steps()),
        crate::script::plan("test_cross_block_data_patterns", cross_block_data_patterns_steps()),
    ]
}

/// Lists the tests of the category, in the order in which they run.
pub fn run_all() -> (category: CategoryRun)
    ensures
        category.title() == "c10_block_grid",
        category.waiting() == tests(),
        category.test() is None,
        category.run() is None,
        category.done() == Seq::<Outcome>::empty(),
{
    let scripts: Vec<Script> = vec![
        test_single_block_operations(),
        test_multi_block_operations(),
        test_block_boundary_correctness(),
        test_grid_stride_correctness(),
        test_cross_block_data_patterns(),
    ];
    let category = CategoryRun::new("c10_block_grid", scripts);
    assert(category.waiting() =~= tests());
    category
}

} // verus!
