//! Pointers and bounds: rows at the edges of warps, blocks and grids.

use vstd::prelude::*;
use crate::expr::{
    and, at, count_in, differs, here, ix, len, lt, minus, modulo, num, or, over, pick, plus, reg,
    same_as, times,
};
use crate::harness::{CategoryRun, Outcome};
use crate::message::{list, note0, note1, note2, note3, note4, note6, remark1};
use crate::scalar::Scalar;
use crate::script::{
    check, COUNT, download, fault1, fetch, fill, filter, Layout, match_rows, Plan, release, scan,
    Script, sort, Step, sync, upload, upload_table,
};

verus! {

/// Sizes around warps and blocks.
pub const FILTER_SIZES: [u64; 12] = [31, 32, 33, 63, 64, 65, 127, 128, 129, 255, 256, 257];

/// Sizes around warps.
pub const SORT_SIZES: [u64; 9] = [31, 32, 33, 63, 64, 65, 127, 128, 129];

/// Sizes that need more than one stride of a grid.
pub const STRIDE_SIZES: [u64; 3] = [100000, 500000, 1000000];

/// Sizes that leave one row for the last warp or block.
pub const TAIL_SIZES: [u64; 6] = [33, 65, 129, 257, 513, 1025];

/// Sizes of tables with several columns.
pub const TABLE_SIZES: [u64; 3] = [100, 256, 1000];

/// Column `c` of a filtered table of `k` columns and `n` rows.
pub open spec fn table_column_steps(k: u64, n: u64, c: u64) -> Seq<Step> {
    seq![
        download(
            1,
            c,
            Scalar::U32,
            9,
            note3("{} cols, size {}: failed to download column {}: {}", num(k), num(n), num(c)),
        ),
        scan(
            num(0),
            len(9),
            1,
            fault1(
                differs(here(9), plus(times(num(c), num(1000)), times(ix(), num(2)))),
                note6(
                    "{} cols, size {}: col{}[{}] = {}, expected {}",
                    num(k),
                    num(n),
                    num(c),
                    ix(),
                    here(9),
                    plus(times(num(c), num(1000)), times(ix(), num(2))),
                ),
            ),
        ),
    ]
}

/// Writes [`table_column_steps`].
pub fn table_column(k: u64, n: u64, c: u64) -> (steps: Vec<Step>)
    ensures
        steps@ == table_column_steps(k, n, c),
{
    vec![
        download(
            1,
            c,
            Scalar::U32,
            9,
            note3("{} cols, size {}: failed to download column {}: {}", num(k), num(n), num(c)),
        ),
        scan(
            num(0),
            len(9),
            1,
            fault1(
                differs(here(9), plus(times(num(c), num(1000)), times(ix(), num(2)))),
                note6(
                    "{} cols, size {}: col{}[{}] = {}, expected {}",
                    num(k),
                    num(n),
                    num(c),
                    ix(),
                    here(9),
                    plus(times(num(c), num(1000)), times(ix(), num(2))),
                ),
            ),
        ),
    ]
}

/// Every other row of a table of `k` columns and `n` rows.
pub open spec fn filtered_table_steps(k: u64, n: u64, layout: Layout) -> Seq<Step> {
    seq![
        fill(0, num(n), ix()),
        fill(1, num(n), plus(num(1000), ix())),
        fill(2, num(n), plus(num(2000), ix())),
        fill(3, num(n), plus(num(3000), ix())),
        upload_table(
            0,
            layout,
            0,
            note2("Failed to create buffer with {} cols, size {}: {}", num(k), num(n)),
        ),
        fill(8, num(n), same_as(modulo(ix(), num(2)), num(0))),
        filter(0, 8, 1, note2("Filter failed for {} cols, size {}: {}", num(k), num(n))),
        match_rows(
            1,
            over(plus(num(n), num(1)), num(2)),
            note4(
                "{} cols, size {}: filter returned {} rows, expected {}",
                num(k),
                num(n),
                reg(COUNT),
                over(plus(num(n), num(1)), num(2)),
            ),
        ),
    ]
}

/// Writes [`filtered_table_steps`].
pub fn filtered_table(k: u64, n: u64, layout: Layout) -> (steps: Vec<Step>)
    ensures
        steps@ == filtered_table_steps(k, n, layout),
{
    vec![
        fill(0, num(n), ix()),
        fill(1, num(n), plus(num(1000), ix())),
        fill(2, num(n), plus(num(2000), ix())),
        fill(3, num(n), plus(num(3000), ix())),
        upload_table(
            0,
            layout,
            0,
            note2("Failed to create buffer with {} cols, size {}: {}", num(k), num(n)),
        ),
        fill(8, num(n), same_as(modulo(ix(), num(2)), num(0))),
        filter(0, 8, 1, note2("Filter failed for {} cols, size {}: {}", num(k), num(n))),
        match_rows(
            1,
            over(plus(num(n), num(1)), num(2)),
            note4(
                "{} cols, size {}: filter returned {} rows, expected {}",
                num(k),
                num(n),
                reg(COUNT),
                over(plus(num(n), num(1)), num(2)),
            ),
        ),
    ]
}

/// One round of [`test_edge_case_sizes`]: nothing for a size of zero.
pub open spec fn edge_case_sizes_round(n: u64) -> Seq<Step> {
    if n == 0 {
        seq![]
    } else {
        seq![
            fill(0, num(n), ix()),
            upload(0, 0, note1("Failed to create buffer of size {}: {}", num(n))),
            fill(1, num(n), same_as(modulo(ix(), num(2)), num(0))),
            filter(0, 1, 1, note1("Filter failed for size {}: {}", num(n))),
            match_rows(
                1,
                over(plus(num(n), num(1)), num(2)),
                note3(
                    "Size {}: filter returned {} rows, expected {}",
                    num(n),
                    reg(COUNT),
                    over(plus(num(n), num(1)), num(2)),
                ),
            ),
            fetch(1, 2, note1("Size {}: failed to download filtered column: {}", num(n))),
            scan(
                num(0),
                len(2),
                1,
                fault1(
                    differs(here(2), times(ix(), num(2))),
                    note4(
                        "Size {}: filtered[{}] = {}, expected {}",
                        num(n),
                        ix(),
                        here(2),
                        times(ix(), num(2)),
                    ),
                ),
            ),
            release(0),
        ]
    }
}

/// Writes one round of [`test_edge_case_sizes`].
fn edge_case_sizes_one(n: u64) -> (steps: Vec<Step>)
    ensures
        steps@ == edge_case_sizes_round(n),
{
    if n == 0 {
        vec![]
    } else {
        vec![
            fill(0, num(n), ix()),
            upload(0, 0, note1("Failed to create buffer of size {}: {}", num(n))),
            fill(1, num(n), same_as(modulo(ix(), num(2)), num(0))),
            filter(0, 1, 1, note1("Filter failed for size {}: {}", num(n))),
            match_rows(
                1,
                over(plus(num(n), num(1)), num(2)),
                note3(
                    "Size {}: filter returned {} rows, expected {}",
                    num(n),
                    reg(COUNT),
                    over(plus(num(n), num(1)), num(2)),
                ),
            ),
            fetch(1, 2, note1("Size {}: failed to download filtered column: {}", num(n))),
            scan(
                num(0),
                len(2),
                1,
                fault1(
                    differs(here(2), times(ix(), num(2))),
                    note4(
                        "Size {}: filtered[{}] = {}, expected {}",
                        num(n),
                        ix(),
                        here(2),
                        times(ix(), num(2)),
                    ),
                ),
            ),
            release(0),
        ]
    }
}

/// The steps of [`test_edge_case_sizes`].
pub open spec fn edge_case_sizes_steps(sizes: Seq<u64>) -> Seq<Step> {
    crate::script::rounds(sizes.len() as int, |i: int| edge_case_sizes_round(sizes[i]))
        + seq![sync(note0("Sync failed: {}"))]
}

/// Every other row of a rising column is kept, for each of the given sizes.
pub fn test_edge_case_sizes(sizes: &Vec<u64>) -> (script: Script)
    requires
        forall|k: int| 0 <= k < sizes@.len() ==> sizes@[k] <= u32::MAX,
    ensures
        script@ == crate::script::plan("test_edge_case_sizes", edge_case_sizes_steps(sizes@)),
{
    let mut steps: Vec<Step> = Vec::new();
    let mut i: usize = 0;
    let ghost given = sizes@;
    while i < sizes.len()
        invariant
            i <= sizes.len(),
            given == sizes@,
            steps@ == crate::script::rounds(i as int, |i: int| edge_case_sizes_round(given[i])),
        decreases sizes.len() - i,
    {
        let mut round = edge_case_sizes_one(sizes[i]);
        steps.append(&mut round);
        i = i + 1;
    }
    steps.push(sync(note0("Sync failed: {}")));
    assert(steps@ =~= edge_case_sizes_steps(sizes@));
    Script::new("test_edge_case_sizes", steps)
}

/// One round of the sizes of [`test_off_by_one_filter`].
pub open spec fn off_by_one_filter_sizes_round(i: u64) -> Seq<Step> {
    let n = FILTER_SIZES@[i as int];
    seq![
        fill(0, num(n), ix()),
        upload(0, 0, note1("Failed to create buffer of size {}: {}", num(n))),
        fill(1, num(n), differs(ix(), minus(num(n), num(1)))),
        filter(0, 1, 1, note1("Filter failed for size {}: {}", num(n))),
        match_rows(
            1,
            minus(num(n), num(1)),
            note3(
                "Size {}: filter returned {} rows, expected {}",
                num(n),
                reg(COUNT),
                minus(num(n), num(1)),
            ),
        ),
        fetch(1, 2, note1("Size {}: failed to download filtered column: {}", num(n))),
        check(
            lt(num(0), count_in(2, minus(num(n), num(1)))),
            note2(
                "Size {}: excluded value {} found in filtered result",
                num(n),
                minus(num(n), num(1)),
            ),
        ),
        scan(
            num(0),
            minus(num(n), num(1)),
            1,
            fault1(
                differs(here(2), ix()),
                note4("Size {}: filtered[{}] = {}, expected {}", num(n), ix(), here(2), ix()),
            ),
        ),
        release(0),
    ]
}

/// Writes one round of the sizes of [`test_off_by_one_filter`].
fn off_by_one_filter_sizes(i: u64) -> (steps: Vec<Step>)
    requires
        i < 12,
    ensures
        steps@ == off_by_one_filter_sizes_round(i),
{
    let n: u64 = FILTER_SIZES[i as usize];
    vec![
        fill(0, num(n), ix()),
        upload(0, 0, note1("Failed to create buffer of size {}: {}", num(n))),
        fill(1, num(n), differs(ix(), minus(num(n), num(1)))),
        filter(0, 1, 1, note1("Filter failed for size {}: {}", num(n))),
        match_rows(
            1,
            minus(num(n), num(1)),
            note3(
                "Size {}: filter returned {} rows, expected {}",
                num(n),
                reg(COUNT),
                minus(num(n), num(1)),
            ),
        ),
        fetch(1, 2, note1("Size {}: failed to download filtered column: {}", num(n))),
        check(
            lt(num(0), count_in(2, minus(num(n), num(1)))),
            note2(
                "Size {}: excluded value {} found in filtered result",
                num(n),
                minus(num(n), num(1)),
            ),
        ),
        scan(
            num(0),
            minus(num(n), num(1)),
            1,
            fault1(
                differs(here(2), ix()),
                note4("Size {}: filtered[{}] = {}, expected {}", num(n), ix(), here(2), ix()),
            ),
        ),
        release(0),
    ]
}

/// The end of [`test_off_by_one_filter`].
pub open spec fn off_by_one_filter_end_steps() -> Seq<Step> {
    seq![
        sync(note0("Sync failed: {}")),
    ]
}

/// Writes the end of [`test_off_by_one_filter`].
fn off_by_one_filter_end() -> (steps: Vec<Step>)
    ensures
        steps@ == off_by_one_filter_end_steps(),
{
    vec![
        sync(note0("Sync failed: {}")),
    ]
}

/// The steps of [`test_off_by_one_filter`].
pub open spec fn off_by_one_filter_steps() -> Seq<Step> {
    crate::script::rounds(12, |i: int| off_by_one_filter_sizes_round(i as u64))
        + off_by_one_filter_end_steps()
}

/// A filter that drops the last row drops that row alone.
pub fn test_off_by_one_filter() -> (script: Script)
    ensures
        script@ == crate::script::plan("test_off_by_one_filter", off_by_one_filter_steps()),
{
    let mut steps: Vec<Step> = Vec::new();
    let mut i: u64 = 0;
    while i < 12
        invariant
            i <= 12,
            steps@ == crate::script::rounds(
                i as int,
                |i: int| off_by_one_filter_sizes_round(i as u64),
            ),
        decreases 12 - i,
    {
        let mut round = off_by_one_filter_sizes(i);
        steps.append(&mut round);
        i = i + 1;
    }
    let mut more = off_by_one_filter_end();
    steps.append(&mut more);
    Script::new("test_off_by_one_filter", steps)
}

/// One round of the sizes of [`test_off_by_one_sort`].
pub open spec fn off_by_one_sort_sizes_round(i: u64) -> Seq<Step> {
    let n = SORT_SIZES@[i as int];
    seq![
        fill(0, num(n), minus(minus(num(n), num(1)), ix())),
        fill(1, num(n), times(ix(), num(10))),
        upload_table(
            0,
            Layout::KeyVal,
            0,
            note1("Failed to create buffer of size {}: {}", num(n)),
        ),
        sort(0, 1, note1("Sort failed for size {}: {}", num(n))),
        match_rows(
            1,
            num(n),
            note3("Size {}: sort returned {} rows, expected {}", num(n), reg(COUNT), num(n)),
        ),
        fetch(1, 2, note1("Size {}: failed to download sorted keys: {}", num(n))),
        download(
            1,
            1,
            Scalar::U32,
            3,
            note1("Size {}: failed to download sorted vals: {}", num(n)),
        ),
        scan(
            num(0),
            len(2),
            1,
            fault1(
                differs(here(2), ix()),
                note4("Size {}: sorted_keys[{}] = {}, expected {}", num(n), ix(), here(2), ix()),
            ),
        ),
        scan(
            num(0),
            num(n),
            1,
            fault1(
                differs(here(3), times(minus(minus(num(n), num(1)), ix()), num(10))),
                note4(
                    "Size {}: sorted_vals[{}] = {}, expected {}",
                    num(n),
                    ix(),
                    here(3),
                    times(minus(minus(num(n), num(1)), ix()), num(10)),
                ),
            ),
        ),
        check(
            differs(at(3, num(0)), times(minus(num(n), num(1)), num(10))),
            note3(
                "Size {}: key 0 has val {}, expected {}",
                num(n),
                at(3, num(0)),
                times(minus(num(n), num(1)), num(10)),
            ),
        ),
        release(0),
    ]
}

/// Writes one round of the sizes of [`test_off_by_one_sort`].
fn off_by_one_sort_sizes(i: u64) -> (steps: Vec<Step>)
    requires
        i < 9,
    ensures
        steps@ == off_by_one_sort_sizes_round(i),
{
    let n: u64 = SORT_SIZES[i as usize];
    vec![
        fill(0, num(n), minus(minus(num(n), num(1)), ix())),
        fill(1, num(n), times(ix(), num(10))),
        upload_table(
            0,
            Layout::KeyVal,
            0,
            note1("Failed to create buffer of size {}: {}", num(n)),
        ),
        sort(0, 1, note1("Sort failed for size {}: {}", num(n))),
        match_rows(
            1,
            num(n),
            note3("Size {}: sort returned {} rows, expected {}", num(n), reg(COUNT), num(n)),
        ),
        fetch(1, 2, note1("Size {}: failed to download sorted keys: {}", num(n))),
        download(
            1,
            1,
            Scalar::U32,
            3,
            note1("Size {}: failed to download sorted vals: {}", num(n)),
        ),
        scan(
            num(0),
            len(2),
            1,
            fault1(
                differs(here(2), ix()),
                note4("Size {}: sorted_keys[{}] = {}, expected {}", num(n), ix(), here(2), ix()),
            ),
        ),
        scan(
            num(0),
            num(n),
            1,
            fault1(
                differs(here(3), times(minus(minus(num(n), num(1)), ix()), num(10))),
                note4(
                    "Size {}: sorted_vals[{}] = {}, expected {}",
                    num(n),
                    ix(),
                    here(3),
                    times(minus(minus(num(n), num(1)), ix()), num(10)),
                ),
            ),
        ),
        check(
            differs(at(3, num(0)), times(minus(num(n), num(1)), num(10))),
            note3(
                "Size {}: key 0 has val {}, expected {}",
                num(n),
                at(3, num(0)),
                times(minus(num(n), num(1)), num(10)),
            ),
        ),
        release(0),
    ]
}

/// The end of [`test_off_by_one_sort`].
pub open spec fn off_by_one_sort_end_steps() -> Seq<Step> {
    seq![
        sync(note0("Sync failed: {}")),
    ]
}

/// Writes the end of [`test_off_by_one_sort`].
fn off_by_one_sort_end() -> (steps: Vec<Step>)
    ensures
        steps@ == off_by_one_sort_end_steps(),
{
    vec![
        sync(note0("Sync failed: {}")),
    ]
}

/// The steps of [`test_off_by_one_sort`].
pub open spec fn off_by_one_sort_steps() -> Seq<Step> {
    crate::script::rounds(9, |i: int| off_by_one_sort_sizes_round(i as u64))
        + off_by_one_sort_end_steps()
}

/// Sorting keys carries their values along.
pub fn test_off_by_one_sort() -> (script: Script)
    ensures
        script@ == crate::script::plan("test_off_by_one_sort", off_by_one_sort_steps()),
{
    let mut steps: Vec<Step> = Vec::new();
    let mut i: u64 = 0;
    while i < 9
        invariant
            i <= 9,
            steps@ == crate::script::rounds(
                i as int,
                |i: int| off_by_one_sort_sizes_round(i as u64),
            ),
        decreases 9 - i,
    {
        let mut round = off_by_one_sort_sizes(i);
        steps.append(&mut round);
        i = i + 1;
    }
    let mut more = off_by_one_sort_end();
    steps.append(&mut more);
    Script::new("test_off_by_one_sort", steps)
}

/// One round of the sizes of [`test_grid_stride_loop`].
pub open spec fn grid_stride_loop_sizes_round(i: u64) -> Seq<Step> {
    let n = STRIDE_SIZES@[i as int];
    seq![
        fill(0, num(n), ix()),
        upload(0, 0, note1("Failed to create buffer of size {}: {}", num(n))),
        fill(1, num(n), modulo(ix(), num(2))),
        filter(0, 1, 1, note1("Filter failed for size {}: {}", num(n))),
        match_rows(
            1,
            over(num(n), num(2)),
            note3(
                "Size {}: filter returned {} rows, expected {}",
                num(n),
                reg(COUNT),
                over(num(n), num(2)),
            ),
        ),
        fetch(1, 2, note1("Size {}: failed to download filtered column: {}", num(n))),
        check(
            differs(at(2, num(0)), num(1)),
            note2("Size {}: first filtered element is {}, expected 1", num(n), at(2, num(0))),
        ),
        check(
            differs(
                at(2, minus(len(2), num(1))),
                pick(
                    same_as(modulo(num(n), num(2)), num(0)),
                    minus(num(n), num(1)),
                    minus(num(n), num(2)),
                ),
            ),
            note3(
                "Size {}: last filtered element is {}, expected {}",
                num(n),
                at(2, minus(len(2), num(1))),
                pick(
                    same_as(modulo(num(n), num(2)), num(0)),
                    minus(num(n), num(1)),
                    minus(num(n), num(2)),
                ),
            ),
        ),
        check(
            and(lt(num(0), len(2)), differs(at(2, num(0)), plus(times(num(0), num(2)), num(1)))),
            note4(
                "Size {}: filtered[{}] = {}, expected {}",
                num(n),
                num(0),
                at(2, num(0)),
                plus(times(num(0), num(2)), num(1)),
            ),
        ),
        check(
            and(
                lt(num(100), len(2)),
                differs(at(2, num(100)), plus(times(num(100), num(2)), num(1))),
            ),
            note4(
                "Size {}: filtered[{}] = {}, expected {}",
                num(n),
                num(100),
                at(2, num(100)),
                plus(times(num(100), num(2)), num(1)),
            ),
        ),
        check(
            and(
                lt(num(1000), len(2)),
                differs(at(2, num(1000)), plus(times(num(1000), num(2)), num(1))),
            ),
            note4(
                "Size {}: filtered[{}] = {}, expected {}",
                num(n),
                num(1000),
                at(2, num(1000)),
                plus(times(num(1000), num(2)), num(1)),
            ),
        ),
        check(
            and(
                lt(over(over(num(n), num(2)), num(2)), len(2)),
                differs(
                    at(2, over(over(num(n), num(2)), num(2))),
                    plus(times(over(over(num(n), num(2)), num(2)), num(2)), num(1)),
                ),
            ),
            note4(
                "Size {}: filtered[{}] = {}, expected {}",
                num(n),
                over(over(num(n), num(2)), num(2)),
                at(2, over(over(num(n), num(2)), num(2))),
                plus(times(over(over(num(n), num(2)), num(2)), num(2)), num(1)),
            ),
        ),
        check(
            and(
                lt(minus(over(num(n), num(2)), num(1)), len(2)),
                differs(
                    at(2, minus(over(num(n), num(2)), num(1))),
                    plus(times(minus(over(num(n), num(2)), num(1)), num(2)), num(1)),
                ),
            ),
            note4(
                "Size {}: filtered[{}] = {}, expected {}",
                num(n),
                minus(over(num(n), num(2)), num(1)),
                at(2, minus(over(num(n), num(2)), num(1))),
                plus(times(minus(over(num(n), num(2)), num(1)), num(2)), num(1)),
            ),
        ),
        release(0),
    ]
}

/// Writes one round of the sizes of [`test_grid_stride_loop`].
fn grid_stride_loop_sizes(i: u64) -> (steps: Vec<Step>)
    requires
        i < 3,
    ensures
        steps@ == grid_stride_loop_sizes_round(i),
{
    let n: u64 = STRIDE_SIZES[i as usize];
    vec![
        fill(0, num(n), ix()),
        upload(0, 0, note1("Failed to create buffer of size {}: {}", num(n))),
        fill(1, num(n), modulo(ix(), num(2))),
        filter(0, 1, 1, note1("Filter failed for size {}: {}", num(n))),
        match_rows(
            1,
            over(num(n), num(2)),
            note3(
                "Size {}: filter returned {} rows, expected {}",
                num(n),
                reg(COUNT),
                over(num(n), num(2)),
            ),
        ),
        fetch(1, 2, note1("Size {}: failed to download filtered column: {}", num(n))),
        check(
            differs(at(2, num(0)), num(1)),
            note2("Size {}: first filtered element is {}, expected 1", num(n), at(2, num(0))),
        ),
        check(
            differs(
                at(2, minus(len(2), num(1))),
                pick(
                    same_as(modulo(num(n), num(2)), num(0)),
                    minus(num(n), num(1)),
                    minus(num(n), num(2)),
                ),
            ),
            note3(
                "Size {}: last filtered element is {}, expected {}",
                num(n),
                at(2, minus(len(2), num(1))),
                pick(
                    same_as(modulo(num(n), num(2)), num(0)),
                    minus(num(n), num(1)),
                    minus(num(n), num(2)),
                ),
            ),
        ),
        check(
            and(lt(num(0), len(2)), differs(at(2, num(0)), plus(times(num(0), num(2)), num(1)))),
            note4(
                "Size {}: filtered[{}] = {}, expected {}",
                num(n),
                num(0),
                at(2, num(0)),
                plus(times(num(0), num(2)), num(1)),
            ),
        ),
        check(
            and(
                lt(num(100), len(2)),
                differs(at(2, num(100)), plus(times(num(100), num(2)), num(1))),
            ),
            note4(
                "Size {}: filtered[{}] = {}, expected {}",
                num(n),
                num(100),
                at(2, num(100)),
                plus(times(num(100), num(2)), num(1)),
            ),
        ),
        check(
            and(
                lt(num(1000), len(2)),
                differs(at(2, num(1000)), plus(times(num(1000), num(2)), num(1))),
            ),
            note4(
                "Size {}: filtered[{}] = {}, expected {}",
                num(n),
                num(1000),
                at(2, num(1000)),
                plus(times(num(1000), num(2)), num(1)),
            ),
        ),
        check(
            and(
                lt(over(over(num(n), num(2)), num(2)), len(2)),
                differs(
                    at(2, over(over(num(n), num(2)), num(2))),
                    plus(times(over(over(num(n), num(2)), num(2)), num(2)), num(1)),
                ),
            ),
            note4(
                "Size {}: filtered[{}] = {}, expected {}",
                num(n),
                over(over(num(n), num(2)), num(2)),
                at(2, over(over(num(n), num(2)), num(2))),
                plus(times(over(over(num(n), num(2)), num(2)), num(2)), num(1)),
            ),
        ),
        check(
            and(
                lt(minus(over(num(n), num(2)), num(1)), len(2)),
                differs(
                    at(2, minus(over(num(n), num(2)), num(1))),
                    plus(times(minus(over(num(n), num(2)), num(1)), num(2)), num(1)),
                ),
            ),
            note4(
                "Size {}: filtered[{}] = {}, expected {}",
                num(n),
                minus(over(num(n), num(2)), num(1)),
                at(2, minus(over(num(n), num(2)), num(1))),
                plus(times(minus(over(num(n), num(2)), num(1)), num(2)), num(1)),
            ),
        ),
        release(0),
    ]
}

/// The end of [`test_grid_stride_loop`].
pub open spec fn grid_stride_loop_end_steps() -> Seq<Step> {
    seq![
        sync(note0("Sync failed: {}")),
    ]
}

/// Writes the end of [`test_grid_stride_loop`].
fn grid_stride_loop_end() -> (steps: Vec<Step>)
    ensures
        steps@ == grid_stride_loop_end_steps(),
{
    vec![
        sync(note0("Sync failed: {}")),
    ]
}

/// The steps of [`test_grid_stride_loop`].
pub open spec fn grid_stride_loop_steps() -> Seq<Step> {
    crate::script::rounds(3, |i: int| grid_stride_loop_sizes_round(i as u64))
        + grid_stride_loop_end_steps()
}

/// Filters reach every row of columns that are longer than a grid.
pub fn test_grid_stride_loop() -> (script: Script)
    ensures
        script@ == crate::script::plan("test_grid_stride_loop", grid_stride_loop_steps()),
{
    let mut steps: Vec<Step> = Vec::new();
    let mut i: u64 = 0;
    while i < 3
        invariant
            i <= 3,
            steps@ == crate::script::rounds(
                i as int,
                |i: int| grid_stride_loop_sizes_round(i as u64),
            ),
        decreases 3 - i,
    {
        let mut round = grid_stride_loop_sizes(i);
        steps.append(&mut round);
        i = i + 1;
    }
    let mut more = grid_stride_loop_end();
    steps.append(&mut more);
    Script::new("test_grid_stride_loop", steps)
}

/// One round of the sizes of [`test_tail_handling_filter`].
pub open spec fn tail_handling_filter_sizes_round(i: u64) -> Seq<Step> {
    let n = TAIL_SIZES@[i as int];
    seq![
        fill(0, num(n), ix()),
        upload(0, 0, note1("Failed to create buffer of size {}: {}", num(n))),
        fill(1, num(n), num(1)),
        filter(0, 1, 1, note1("Filter failed for size {}: {}", num(n))),
        match_rows(
            1,
            num(n),
            note3("Size {}: filter returned {} rows, expected {}", num(n), reg(COUNT), num(n)),
        ),
        fetch(1, 2, note1("Size {}: failed to download filtered column: {}", num(n))),
        scan(
            num(0),
            len(2),
            1,
            fault1(
                differs(here(2), ix()),
                note4("Size {}: filtered[{}] = {}, expected {}", num(n), ix(), here(2), ix()),
            ),
        ),
        release(0),
    ]
}

/// Writes one round of the sizes of [`test_tail_handling_filter`].
fn tail_handling_filter_sizes(i: u64) -> (steps: Vec<Step>)
    requires
        i < 6,
    ensures
        steps@ == tail_handling_filter_sizes_round(i),
{
    let n: u64 = TAIL_SIZES[i as usize];
    vec![
        fill(0, num(n), ix()),
        upload(0, 0, note1("Failed to create buffer of size {}: {}", num(n))),
        fill(1, num(n), num(1)),
        filter(0, 1, 1, note1("Filter failed for size {}: {}", num(n))),
        match_rows(
            1,
            num(n),
            note3("Size {}: filter returned {} rows, expected {}", num(n), reg(COUNT), num(n)),
        ),
        fetch(1, 2, note1("Size {}: failed to download filtered column: {}", num(n))),
        scan(
            num(0),
            len(2),
            1,
            fault1(
                differs(here(2), ix()),
                note4("Size {}: filtered[{}] = {}, expected {}", num(n), ix(), here(2), ix()),
            ),
        ),
        release(0),
    ]
}

/// The end of [`test_tail_handling_filter`].
pub open spec fn tail_handling_filter_end_steps() -> Seq<Step> {
    seq![
        sync(note0("Sync failed: {}")),
    ]
}

/// Writes the end of [`test_tail_handling_filter`].
fn tail_handling_filter_end() -> (steps: Vec<Step>)
    ensures
        steps@ == tail_handling_filter_end_steps(),
{
    vec![
        sync(note0("Sync failed: {}")),
    ]
}

/// The steps of [`test_tail_handling_filter`].
pub open spec fn tail_handling_filter_steps() -> Seq<Step> {
    crate::script::rounds(6, |i: int| tail_handling_filter_sizes_round(i as u64))
        + tail_handling_filter_end_steps()
}

/// A filter that keeps everything keeps the last row too.
pub fn test_tail_handling_filter() -> (script: Script)
    ensures
        script@ == crate::script::plan("test_tail_handling_filter", tail_handling_filter_steps()),
{
    let mut steps: Vec<Step> = Vec::new();
    let mut i: u64 = 0;
    while i < 6
        invariant
            i <= 6,
            steps@ == crate::script::rounds(
                i as int,
                |i: int| tail_handling_filter_sizes_round(i as u64),
            ),
        decreases 6 - i,
    {
        let mut round = tail_handling_filter_sizes(i);
        steps.append(&mut round);
        i = i + 1;
    }
    let mut more = tail_handling_filter_end();
    steps.append(&mut more);
    Script::new("test_tail_handling_filter", steps)
}

/// One round of the sizes of [`test_tail_handling_sort`].
pub open spec fn tail_handling_sort_sizes_round(i: u64) -> Seq<Step> {
    let n = TAIL_SIZES@[i as int];
    seq![
        fill(0, num(n), minus(minus(num(n), num(1)), ix())),
        upload(0, 0, note1("Failed to create buffer of size {}: {}", num(n))),
        sort(0, 1, note1("Sort failed for size {}: {}", num(n))),
        match_rows(
            1,
            num(n),
            note3("Size {}: sort returned {} rows, expected {}", num(n), reg(COUNT), num(n)),
        ),
        fetch(1, 2, note1("Size {}: failed to download sorted column: {}", num(n))),
        scan(
            num(0),
            len(2),
            1,
            fault1(
                differs(here(2), ix()),
                note4("Size {}: sorted[{}] = {}, expected {}", num(n), ix(), here(2), ix()),
            ),
        ),
        release(0),
    ]
}

/// Writes one round of the sizes of [`test_tail_handling_sort`].
fn tail_handling_sort_sizes(i: u64) -> (steps: Vec<Step>)
    requires
        i < 6,
    ensures
        steps@ == tail_handling_sort_sizes_round(i),
{
    let n: u64 = TAIL_SIZES[i as usize];
    vec![
        fill(0, num(n), minus(minus(num(n), num(1)), ix())),
        upload(0, 0, note1("Failed to create buffer of size {}: {}", num(n))),
        sort(0, 1, note1("Sort failed for size {}: {}", num(n))),
        match_rows(
            1,
            num(n),
            note3("Size {}: sort returned {} rows, expected {}", num(n), reg(COUNT), num(n)),
        ),
        fetch(1, 2, note1("Size {}: failed to download sorted column: {}", num(n))),
        scan(
            num(0),
            len(2),
            1,
            fault1(
                differs(here(2), ix()),
                note4("Size {}: sorted[{}] = {}, expected {}", num(n), ix(), here(2), ix()),
            ),
        ),
        release(0),
    ]
}

/// The end of [`test_tail_handling_sort`].
pub open spec fn tail_handling_sort_end_steps() -> Seq<Step> {
    seq![
        sync(note0("Sync failed: {}")),
    ]
}

/// Writes the end of [`test_tail_handling_sort`].
fn tail_handling_sort_end() -> (steps: Vec<Step>)
    ensures
        steps@ == tail_handling_sort_end_steps(),
{
    vec![
        sync(note0("Sync failed: {}")),
    ]
}

/// The steps of [`test_tail_handling_sort`].
pub open spec fn tail_handling_sort_steps() -> Seq<Step> {
    crate::script::rounds(6, |i: int| tail_handling_sort_sizes_round(i as u64))
        + tail_handling_sort_end_steps()
}

/// A sort puts the last row in its place too.
pub fn test_tail_handling_sort() -> (script: Script)
    ensures
        script@ == crate::script::plan("test_tail_handling_sort", tail_handling_sort_steps()),
{
    let mut steps: Vec<Step> = Vec::new();
    let mut i: u64 = 0;
    while i < 6
        invariant
            i <= 6,
            steps@ == crate::script::rounds(
                i as int,
                |i: int| tail_handling_sort_sizes_round(i as u64),
            ),
        decreases 6 - i,
    {
        let mut round = tail_handling_sort_sizes(i);
        steps.append(&mut round);
        i = i + 1;
    }
    let mut more = tail_handling_sort_end();
    steps.append(&mut more);
    Script::new("test_tail_handling_sort", steps)
}

/// The steps of [`test_boundary_indices`].
pub open spec fn boundary_indices_steps() -> Seq<Step> {
    seq![
        fill(0, num(1000), ix()),
        upload(0, 0, note0("Failed to create buffer: {}")),
        fill(1, num(1000), same_as(ix(), num(0))),
        filter(0, 1, 1, note0("Filter for first element failed: {}")),
        match_rows(1, num(1), note1("Filter first: returned {} rows, expected 1", reg(COUNT))),
        fetch(1, 2, note0("Failed to download first filtered column: {}")),
        check(
            or(differs(len(2), num(1)), differs(at(2, num(0)), num(0))),
            remark1("Filter first: result is {}, expected [0]", list(2, Scalar::U32)),
        ),
        fill(3, num(1000), same_as(ix(), minus(num(1000), num(1)))),
        filter(0, 3, 2, note0("Filter for last element failed: {}")),
        match_rows(2, num(1), note1("Filter last: returned {} rows, expected 1", reg(COUNT))),
        fetch(2, 4, note0("Failed to download last filtered column: {}")),
        check(
            or(differs(len(4), num(1)), differs(at(4, num(0)), num(999))),
            remark1("Filter last: result is {}, expected [999]", list(4, Scalar::U32)),
        ),
        sync(note0("Sync failed: {}")),
    ]
}

/// Filters that keep the first row alone, or the last one alone.
pub fn test_boundary_indices() -> (script: Script)
    ensures
        script@ == crate::script::plan("test_boundary_indices", boundary_indices_steps()),
{
    let steps: Vec<Step> = vec![
        fill(0, num(1000), ix()),
        upload(0, 0, note0("Failed to create buffer: {}")),
        fill(1, num(1000), same_as(ix(), num(0))),
        filter(0, 1, 1, note0("Filter for first element failed: {}")),
        match_rows(1, num(1), note1("Filter first: returned {} rows, expected 1", reg(COUNT))),
        fetch(1, 2, note0("Failed to download first filtered column: {}")),
        check(
            or(differs(len(2), num(1)), differs(at(2, num(0)), num(0))),
            remark1("Filter first: result is {}, expected [0]", list(2, Scalar::U32)),
        ),
        fill(3, num(1000), same_as(ix(), minus(num(1000), num(1)))),
        filter(0, 3, 2, note0("Filter for last element failed: {}")),
        match_rows(2, num(1), note1("Filter last: returned {} rows, expected 1", reg(COUNT))),
        fetch(2, 4, note0("Failed to download last filtered column: {}")),
        check(
            or(differs(len(4), num(1)), differs(at(4, num(0)), num(999))),
            remark1("Filter last: result is {}, expected [999]", list(4, Scalar::U32)),
        ),
        sync(note0("Sync failed: {}")),
    ];
    Script::new("test_boundary_indices", steps)
}

/// The steps of [`test_multi_column_strides`].
pub open spec fn multi_column_strides_steps() -> Seq<Step> {
    crate::script::rounds(3, |i: int| table_round(2, TABLE_SIZES@[i], Layout::Two))
        + crate::script::rounds(3, |i: int| table_round(3, TABLE_SIZES@[i], Layout::Three))
        + crate::script::rounds(3, |i: int| table_round(4, TABLE_SIZES@[i], Layout::Four)) + seq![
        sync(note0("Sync failed: {}")),
    ]
}

/// A table of `k` columns and `n` rows: it is filtered, and all of its columns are looked at.
pub open spec fn table_round(k: u64, n: u64, layout: Layout) -> Seq<Step> {
    filtered_table_steps(k, n, layout) + crate::script::rounds(
        k as int,
        |c: int| table_column_steps(k, n, c as u64),
    ) + seq![release(0)]
}

/// Writes [`table_round`].
fn table(k: u64, n: u64, layout: Layout) -> (steps: Vec<Step>)
    ensures
        steps@ == table_round(k, n, layout),
{
    let mut steps = filtered_table(k, n, layout);
    let mut c: u64 = 0;
    let ghost before = steps@;
    while c < k
        invariant
            c <= k,
            steps@ == before + crate::script::rounds(
                c as int,
                |c: int| table_column_steps(k, n, c as u64),
            ),
        decreases k - c,
    {
        let mut more = table_column(k, n, c);
        steps.append(&mut more);
        c = c + 1;
    }
    steps.push(release(0));
    assert(steps@ =~= table_round(k, n, layout));
    steps
}

/// Writes the rounds for tables of `k` columns.
fn tables(k: u64, layout: Layout) -> (steps: Vec<Step>)
    ensures
        steps@ == crate::script::rounds(3, |i: int| table_round(k, TABLE_SIZES@[i], layout)),
{
    let mut steps: Vec<Step> = Vec::new();
    let mut i: u64 = 0;
    while i < 3
        invariant
            i <= 3,
            steps@ == crate::script::rounds(
                i as int,
                |i: int| table_round(k, TABLE_SIZES@[i], layout),
            ),
        decreases 3 - i,
    {
        let mut round = table(k, TABLE_SIZES[i as usize], layout);
        steps.append(&mut round);
        i = i + 1;
    }
    steps
}

/// A filter keeps the rows of tables of two, three and four columns together.
pub fn test_multi_column_strides() -> (script: Script)
    ensures
        script@ == crate::script::plan("test_multi_column_strides", multi_column_strides_steps()),
{
    let mut steps = tables(2, Layout::Two);
    let mut more = tables(3, Layout::Three);
    steps.append(&mut more);
    let mut more = tables(4, Layout::Four);
    steps.append(&mut more);
    steps.push(sync(note0("Sync failed: {}")));
    assert(steps@ =~= multi_column_strides_steps());
    Script::new("test_multi_column_strides", steps)
}

/// The tests of the category.
pub open spec fn tests(sizes: Seq<u64>) -> Seq<Plan> {
    seq![
        crate::script::plan("test_edge_case_sizes", edge_case_sizes_steps(sizes)),
        crate::script::plan("test_off_by_one_filter", off_by_one_filter_steps()),
        crate::script::plan("test_off_by_one_sort", off_by_one_sort_steps()),
        crate::script::plan("test_grid_stride_loop", grid_stride_loop_steps()),
        crate::script::plan("test_tail_handling_filter", tail_handling_filter_steps()),
        crate::script::plan("test_tail_handling_sort", tail_handling_sort_steps()),
        crate::script::plan("test_boundary_indices", boundary_indices_steps()),
        crate::script::plan("test_multi_column_strides", multi_column_strides_steps()),
    ]
}

/// Lists the tests of the category, in the order in which they run. The edge case sizes are given.
pub fn run_all(sizes: &Vec<u64>) -> (category: CategoryRun)
    requires
        forall|k: int| 0 <= k < sizes@.len() ==> sizes@[k] <= u32::MAX,
    ensures
        category.title() == "c03_pointer_bounds",
        category.waiting() == tests(sizes@),
        category.test() is None,
        category.run() is None,
        category.done() == Seq::<Outcome>::empty(),
{
    let scripts: Vec<Script> = vec![
        test_edge_case_sizes(sizes),
        test_off_by_one_filter(),
        test_off_by_one_sort(),
        test_grid_stride_loop(),
        test_tail_handling_filter(),
        test_tail_handling_sort(),
        test_boundary_indices(),
        test_multi_column_strides(),
    ];
    let category = CategoryRun::new("c03_pointer_bounds", scripts);
    assert(category.waiting() =~= tests(sizes@));
    category
}

} // verus!
