//! Streams: batches, turns, isolation and chains of operations.

use vstd::prelude::*;
use crate::expr::{
    alike, and, at, before, differs, here, ix, least, len, less_or_zero, lt, modulo, narrow, not,
    num, or, over, plus, reg, same_as, sum_of, times,
};
use crate::harness::{CategoryRun, Outcome};
use crate::message::{note0, note1, note2, note3, note4, note5, remark4, val, word};
use crate::scalar::Scalar;
use crate::script::{
    after, check, COUNT, download, fault1, fetch, fill, filter, join, Layout, match_rows, only,
    Plan, put, release, rows, scan, Script, sort, sort_column, Step, sync, upload, upload_table,
};

verus! {

/// The registers of the sorted row counts, and the numbers of the sorts.
pub const SORT_COUNTS: [u64; 5] = [0, 2, 4, 6, 8];

/// The registers of the filtered row counts, and the numbers of the filters.
pub const FILTER_COUNTS: [u64; 5] = [1, 3, 5, 7, 9];

/// One round of the buffers of [`test_sequential_batch_operations`].
pub open spec fn sequential_batch_operations_buffers_round(i: u64) -> Seq<Step> {
    seq![
        fill(
            0,
            num(10000),
            modulo(plus(times(times(ix(), plus(num(i), num(1))), num(17)), num(13)), num(100000)),
        ),
        upload(i, 0, note1("Buffer {}: create failed: {}", num(i))),
    ]
}

/// Writes one round of the buffers of [`test_sequential_batch_operations`].
fn sequential_batch_operations_buffers(i: u64) -> (steps: Vec<Step>)
    requires
        i < 10,
    ensures
        steps@ == sequential_batch_operations_buffers_round(i),
{
    vec![
        fill(
            0,
            num(10000),
            modulo(plus(times(times(ix(), plus(num(i), num(1))), num(17)), num(13)), num(100000)),
        ),
        upload(i, 0, note1("Buffer {}: create failed: {}", num(i))),
    ]
}

/// One round of the sorts of [`test_sequential_batch_operations`].
pub open spec fn sequential_batch_operations_sorts_round(i: u64) -> Seq<Step> {
    seq![
        sort(i, after(10, i), note1("Buffer {}: sort failed: {}", num(i))),
    ]
}

/// Writes one round of the sorts of [`test_sequential_batch_operations`].
fn sequential_batch_operations_sorts(i: u64) -> (steps: Vec<Step>)
    requires
        i < 10,
    ensures
        steps@ == sequential_batch_operations_sorts_round(i),
{
    vec![
        sort(i, after(10, i), note1("Buffer {}: sort failed: {}", num(i))),
    ]
}

/// One round of the sorted of [`test_sequential_batch_operations`].
pub open spec fn sequential_batch_operations_sorted_round(i: u64) -> Seq<Step> {
    seq![
        fetch(after(10, i), 1, note1("Buffer {}: download failed: {}", num(i))),
        scan(
            num(1),
            len(1),
            1,
            fault1(
                lt(here(1), before(1)),
                note2("Buffer {}: sort incorrect at index {}", num(i), ix()),
            ),
        ),
        fill(
            0,
            num(10000),
            modulo(plus(times(times(ix(), plus(num(i), num(1))), num(17)), num(13)), num(100000)),
        ),
        sort_column(2, 0, Scalar::U32),
        check(not(alike(1, 2)), note1("Buffer {}: result doesn't match expected", num(i))),
    ]
}

/// Writes one round of the sorted of [`test_sequential_batch_operations`].
fn sequential_batch_operations_sorted(i: u64) -> (steps: Vec<Step>)
    requires
        i < 10,
    ensures
        steps@ == sequential_batch_operations_sorted_round(i),
{
    vec![
        fetch(after(10, i), 1, note1("Buffer {}: download failed: {}", num(i))),
        scan(
            num(1),
            len(1),
            1,
            fault1(
                lt(here(1), before(1)),
                note2("Buffer {}: sort incorrect at index {}", num(i), ix()),
            ),
        ),
        fill(
            0,
            num(10000),
            modulo(plus(times(times(ix(), plus(num(i), num(1))), num(17)), num(13)), num(100000)),
        ),
        sort_column(2, 0, Scalar::U32),
        check(not(alike(1, 2)), note1("Buffer {}: result doesn't match expected", num(i))),
    ]
}

/// One round of the filters of [`test_sequential_batch_operations`].
pub open spec fn sequential_batch_operations_filters_round(i: u64) -> Seq<Step> {
    seq![
        fill(3, num(10000), same_as(modulo(plus(ix(), num(i)), num(3)), num(0))),
        filter(i, 3, after(20, i), note1("Filter {}: failed: {}", num(i))),
    ]
}

/// Writes one round of the filters of [`test_sequential_batch_operations`].
fn sequential_batch_operations_filters(i: u64) -> (steps: Vec<Step>)
    requires
        i < 10,
    ensures
        steps@ == sequential_batch_operations_filters_round(i),
{
    vec![
        fill(3, num(10000), same_as(modulo(plus(ix(), num(i)), num(3)), num(0))),
        filter(i, 3, after(20, i), note1("Filter {}: failed: {}", num(i))),
    ]
}

/// One round of the filtered of [`test_sequential_batch_operations`].
pub open spec fn sequential_batch_operations_filtered_round(i: u64) -> Seq<Step> {
    seq![
        fill(3, num(10000), same_as(modulo(plus(ix(), num(i)), num(3)), num(0))),
        put(0, sum_of(3)),
        match_rows(
            after(20, i),
            reg(0),
            note3("Filter {}: expected {} rows, got {}", num(i), reg(0), reg(COUNT)),
        ),
    ]
}

/// Writes one round of the filtered of [`test_sequential_batch_operations`].
fn sequential_batch_operations_filtered(i: u64) -> (steps: Vec<Step>)
    requires
        i < 10,
    ensures
        steps@ == sequential_batch_operations_filtered_round(i),
{
    vec![
        fill(3, num(10000), same_as(modulo(plus(ix(), num(i)), num(3)), num(0))),
        put(0, sum_of(3)),
        match_rows(
            after(20, i),
            reg(0),
            note3("Filter {}: expected {} rows, got {}", num(i), reg(0), reg(COUNT)),
        ),
    ]
}

/// The end of [`test_sequential_batch_operations`].
pub open spec fn sequential_batch_operations_end_steps() -> Seq<Step> {
    seq![
        sync(note0("Sync failed: {}")),
    ]
}

/// Writes the end of [`test_sequential_batch_operations`].
fn sequential_batch_operations_end() -> (steps: Vec<Step>)
    ensures
        steps@ == sequential_batch_operations_end_steps(),
{
    vec![
        sync(note0("Sync failed: {}")),
    ]
}

/// The steps of [`test_sequential_batch_operations`].
pub open spec fn sequential_batch_operations_steps() -> Seq<Step> {
    crate::script::rounds(10, |i: int| sequential_batch_operations_buffers_round(i as u64))
        + crate::script::rounds(10, |i: int| sequential_batch_operations_sorts_round(i as u64))
        + crate::script::rounds(10, |i: int| sequential_batch_operations_sorted_round(i as u64))
        + crate::script::rounds(10, |i: int| sequential_batch_operations_filters_round(i as u64))
        + crate::script::rounds(10, |i: int| sequential_batch_operations_filtered_round(i as u64))
        + sequential_batch_operations_end_steps()
}

/// Ten buffers are sorted and filtered one after the other.
pub fn test_sequential_batch_operations() -> (script: Script)
    ensures
        script@ == crate::script::plan(
            "test_sequential_batch_operations",
            sequential_batch_operations_steps(),
        ),
{
    let mut steps: Vec<Step> = Vec::new();
    let mut i: u64 = 0;
    while i < 10
        invariant
            i <= 10,
            steps@ == crate::script::rounds(
                i as int,
                |i: int| sequential_batch_operations_buffers_round(i as u64),
            ),
        decreases 10 - i,
    {
        let mut round = sequential_batch_operations_buffers(i);
        steps.append(&mut round);
        i = i + 1;
    }
    i = 0;
    let ghost before = steps@;
    while i < 10
        invariant
            i <= 10,
            steps@ == before + crate::script::rounds(
                i as int,
                |i: int| sequential_batch_operations_sorts_round(i as u64),
            ),
        decreases 10 - i,
    {
        let mut round = sequential_batch_operations_sorts(i);
        steps.append(&mut round);
        i = i + 1;
    }
    i = 0;
    let ghost before = steps@;
    while i < 10
        invariant
            i <= 10,
            steps@ == before + crate::script::rounds(
                i as int,
                |i: int| sequential_batch_operations_sorted_round(i as u64),
            ),
        decreases 10 - i,
    {
        let mut round = sequential_batch_operations_sorted(i);
        steps.append(&mut round);
        i = i + 1;
    }
    i = 0;
    let ghost before = steps@;
    while i < 10
        invariant
            i <= 10,
            steps@ == before + crate::script::rounds(
                i as int,
                |i: int| sequential_batch_operations_filters_round(i as u64),
            ),
        decreases 10 - i,
    {
        let mut round = sequential_batch_operations_filters(i);
        steps.append(&mut round);
        i = i + 1;
    }
    i = 0;
    let ghost before = steps@;
    while i < 10
        invariant
            i <= 10,
            steps@ == before + crate::script::rounds(
                i as int,
                |i: int| sequential_batch_operations_filtered_round(i as u64),
            ),
        decreases 10 - i,
    {
        let mut round = sequential_batch_operations_filtered(i);
        steps.append(&mut round);
        i = i + 1;
    }
    let mut more = sequential_batch_operations_end();
    steps.append(&mut more);
    Script::new("test_sequential_batch_operations", steps)
}

/// The start of [`test_interleaved_operations`].
pub open spec fn interleaved_operations_start_steps() -> Seq<Step> {
    seq![
        fill(0, num(10000), modulo(plus(times(ix(), num(1103515245)), num(12345)), num(10000))),
        fill(1, num(10000), ix()),
        upload(0, 0, note0("Failed to create sort buffer: {}")),
        upload(1, 1, note0("Failed to create filter buffer: {}")),
    ]
}

/// Writes the start of [`test_interleaved_operations`].
fn interleaved_operations_start() -> (steps: Vec<Step>)
    ensures
        steps@ == interleaved_operations_start_steps(),
{
    vec![
        fill(0, num(10000), modulo(plus(times(ix(), num(1103515245)), num(12345)), num(10000))),
        fill(1, num(10000), ix()),
        upload(0, 0, note0("Failed to create sort buffer: {}")),
        upload(1, 1, note0("Failed to create filter buffer: {}")),
    ]
}

/// One round of the turns of [`test_interleaved_operations`].
pub open spec fn interleaved_operations_turns_round(i: u64) -> Seq<Step> {
    seq![
        sort(0, after(10, i), note1("Iteration {}: sort failed: {}", num(i))),
        fill(
            2,
            num(10000),
            lt(over(times(ix(), num(100)), num(10000)), times(plus(num(i), num(1)), num(5))),
        ),
        filter(1, 2, after(30, i), note1("Iteration {}: filter failed: {}", num(i))),
    ]
}

/// Writes one round of the turns of [`test_interleaved_operations`].
fn interleaved_operations_turns(i: u64) -> (steps: Vec<Step>)
    requires
        i < 20,
    ensures
        steps@ == interleaved_operations_turns_round(i),
{
    vec![
        sort(0, after(10, i), note1("Iteration {}: sort failed: {}", num(i))),
        fill(
            2,
            num(10000),
            lt(over(times(ix(), num(100)), num(10000)), times(plus(num(i), num(1)), num(5))),
        ),
        filter(1, 2, after(30, i), note1("Iteration {}: filter failed: {}", num(i))),
    ]
}

/// One round of the sorted of [`test_interleaved_operations`].
pub open spec fn interleaved_operations_sorted_round(i: u64) -> Seq<Step> {
    seq![
        fetch(after(10, i), 3, note1("Sort {}: download failed: {}", num(i))),
        scan(
            num(1),
            len(3),
            1,
            fault1(lt(here(3), before(3)), note2("Sort {}: incorrect at index {}", num(i), ix())),
        ),
        only(same_as(num(i), num(0)), fill(4, len(3), here(3))),
        only(
            differs(num(i), num(0)),
            check(not(alike(3, 4)), note1("Sort {}: differs from first sort", num(i))),
        ),
    ]
}

/// Writes one round of the sorted of [`test_interleaved_operations`].
fn interleaved_operations_sorted(i: u64) -> (steps: Vec<Step>)
    requires
        i < 20,
    ensures
        steps@ == interleaved_operations_sorted_round(i),
{
    vec![
        fetch(after(10, i), 3, note1("Sort {}: download failed: {}", num(i))),
        scan(
            num(1),
            len(3),
            1,
            fault1(lt(here(3), before(3)), note2("Sort {}: incorrect at index {}", num(i), ix())),
        ),
        only(same_as(num(i), num(0)), fill(4, len(3), here(3))),
        only(
            differs(num(i), num(0)),
            check(not(alike(3, 4)), note1("Sort {}: differs from first sort", num(i))),
        ),
    ]
}

/// One round of the filtered of [`test_interleaved_operations`].
pub open spec fn interleaved_operations_filtered_round(i: u64) -> Seq<Step> {
    seq![
        put(0, over(times(num(10000), times(plus(num(i), num(1)), num(5))), num(100))),
        rows(after(30, i), 1),
        check(
            or(
                lt(reg(1), less_or_zero(reg(0), num(500))),
                lt(plus(plus(reg(0), num(500)), num(1)), reg(1)),
            ),
            note4(
                "Filter {} ({}%): got {} rows, expected ~{}",
                num(i),
                times(plus(num(i), num(1)), num(5)),
                reg(1),
                reg(0),
            ),
        ),
    ]
}

/// Writes one round of the filtered of [`test_interleaved_operations`].
fn interleaved_operations_filtered(i: u64) -> (steps: Vec<Step>)
    requires
        i < 20,
    ensures
        steps@ == interleaved_operations_filtered_round(i),
{
    vec![
        put(0, over(times(num(10000), times(plus(num(i), num(1)), num(5))), num(100))),
        rows(after(30, i), 1),
        check(
            or(
                lt(reg(1), less_or_zero(reg(0), num(500))),
                lt(plus(plus(reg(0), num(500)), num(1)), reg(1)),
            ),
            note4(
                "Filter {} ({}%): got {} rows, expected ~{}",
                num(i),
                times(plus(num(i), num(1)), num(5)),
                reg(1),
                reg(0),
            ),
        ),
    ]
}

/// The end of [`test_interleaved_operations`].
pub open spec fn interleaved_operations_end_steps() -> Seq<Step> {
    seq![
        sync(note0("Sync failed: {}")),
    ]
}

/// Writes the end of [`test_interleaved_operations`].
fn interleaved_operations_end() -> (steps: Vec<Step>)
    ensures
        steps@ == interleaved_operations_end_steps(),
{
    vec![
        sync(note0("Sync failed: {}")),
    ]
}

/// The steps of [`test_interleaved_operations`].
pub open spec fn interleaved_operations_steps() -> Seq<Step> {
    interleaved_operations_start_steps()
        + crate::script::rounds(20, |i: int| interleaved_operations_turns_round(i as u64))
        + crate::script::rounds(20, |i: int| interleaved_operations_sorted_round(i as u64))
        + crate::script::rounds(20, |i: int| interleaved_operations_filtered_round(i as u64))
        + interleaved_operations_end_steps()
}

/// Sorts of one buffer and filters of another take turns.
pub fn test_interleaved_operations() -> (script: Script)
    ensures
        script@ == crate::script::plan(
            "test_interleaved_operations",
            interleaved_operations_steps(),
        ),
{
    let mut steps: Vec<Step> = interleaved_operations_start();
    let mut i: u64 = 0;
    let ghost before = steps@;
    while i < 20
        invariant
            i <= 20,
            steps@ == before + crate::script::rounds(
                i as int,
                |i: int| interleaved_operations_turns_round(i as u64),
            ),
        decreases 20 - i,
    {
        let mut round = interleaved_operations_turns(i);
        steps.append(&mut round);
        i = i + 1;
    }
    i = 0;
    let ghost before = steps@;
    while i < 20
        invariant
            i <= 20,
            steps@ == before + crate::script::rounds(
                i as int,
                |i: int| interleaved_operations_sorted_round(i as u64),
            ),
        decreases 20 - i,
    {
        let mut round = interleaved_operations_sorted(i);
        steps.append(&mut round);
        i = i + 1;
    }
    i = 0;
    let ghost before = steps@;
    while i < 20
        invariant
            i <= 20,
            steps@ == before + crate::script::rounds(
                i as int,
                |i: int| interleaved_operations_filtered_round(i as u64),
            ),
        decreases 20 - i,
    {
        let mut round = interleaved_operations_filtered(i);
        steps.append(&mut round);
        i = i + 1;
    }
    let mut more = interleaved_operations_end();
    steps.append(&mut more);
    Script::new("test_interleaved_operations", steps)
}

/// One round of the buffers of [`test_operation_isolation`].
pub open spec fn operation_isolation_buffers_round(i: u64) -> Seq<Step> {
    seq![
        fill(0, num(10000), plus(times(num(i), num(10000)), modulo(ix(), num(10000)))),
        upload(i, 0, note1("Buffer {}: create failed: {}", num(i))),
    ]
}

/// Writes one round of the buffers of [`test_operation_isolation`].
fn operation_isolation_buffers(i: u64) -> (steps: Vec<Step>)
    requires
        i < 5,
    ensures
        steps@ == operation_isolation_buffers_round(i),
{
    vec![
        fill(0, num(10000), plus(times(num(i), num(10000)), modulo(ix(), num(10000)))),
        upload(i, 0, note1("Buffer {}: create failed: {}", num(i))),
    ]
}

/// One round of the sorts of [`test_operation_isolation`].
pub open spec fn operation_isolation_sorts_round(i: u64) -> Seq<Step> {
    seq![
        sort(i, after(10, i), note1("Buffer {}: sort failed: {}", num(i))),
    ]
}

/// Writes one round of the sorts of [`test_operation_isolation`].
fn operation_isolation_sorts(i: u64) -> (steps: Vec<Step>)
    requires
        i < 5,
    ensures
        steps@ == operation_isolation_sorts_round(i),
{
    vec![
        sort(i, after(10, i), note1("Buffer {}: sort failed: {}", num(i))),
    ]
}

/// One round of the sorted of [`test_operation_isolation`].
pub open spec fn operation_isolation_sorted_round(i: u64) -> Seq<Step> {
    seq![
        fetch(after(10, i), 1, note1("Buffer {}: download failed: {}", num(i))),
        check(
            differs(len(1), num(10000)),
            note3("Buffer {}: size changed from {} to {}", num(i), num(10000), len(1)),
        ),
        fill(0, num(10000), plus(times(num(i), num(10000)), modulo(ix(), num(10000)))),
        put(0, sum_of(0)),
        put(1, sum_of(1)),
        check(
            differs(reg(1), reg(0)),
            note3(
                "Buffer {}: sum changed from {} to {} (data contamination?)",
                num(i),
                reg(0),
                reg(1),
            ),
        ),
        scan(
            num(0),
            len(1),
            1,
            fault1(
                or(
                    lt(here(1), times(num(i), num(10000))),
                    not(lt(here(1), plus(times(num(i), num(10000)), num(10000)))),
                ),
                note5(
                    "Buffer {}: value {} at index {} outside range [{}, {})",
                    num(i),
                    here(1),
                    ix(),
                    times(num(i), num(10000)),
                    plus(times(num(i), num(10000)), num(10000)),
                ),
            ),
        ),
        scan(
            num(1),
            len(1),
            1,
            fault1(
                lt(here(1), before(1)),
                note2("Buffer {}: not sorted at index {}", num(i), ix()),
            ),
        ),
    ]
}

/// Writes one round of the sorted of [`test_operation_isolation`].
fn operation_isolation_sorted(i: u64) -> (steps: Vec<Step>)
    requires
        i < 5,
    ensures
        steps@ == operation_isolation_sorted_round(i),
{
    vec![
        fetch(after(10, i), 1, note1("Buffer {}: download failed: {}", num(i))),
        check(
            differs(len(1), num(10000)),
            note3("Buffer {}: size changed from {} to {}", num(i), num(10000), len(1)),
        ),
        fill(0, num(10000), plus(times(num(i), num(10000)), modulo(ix(), num(10000)))),
        put(0, sum_of(0)),
        put(1, sum_of(1)),
        check(
            differs(reg(1), reg(0)),
            note3(
                "Buffer {}: sum changed from {} to {} (data contamination?)",
                num(i),
                reg(0),
                reg(1),
            ),
        ),
        scan(
            num(0),
            len(1),
            1,
            fault1(
                or(
                    lt(here(1), times(num(i), num(10000))),
                    not(lt(here(1), plus(times(num(i), num(10000)), num(10000)))),
                ),
                note5(
                    "Buffer {}: value {} at index {} outside range [{}, {})",
                    num(i),
                    here(1),
                    ix(),
                    times(num(i), num(10000)),
                    plus(times(num(i), num(10000)), num(10000)),
                ),
            ),
        ),
        scan(
            num(1),
            len(1),
            1,
            fault1(
                lt(here(1), before(1)),
                note2("Buffer {}: not sorted at index {}", num(i), ix()),
            ),
        ),
    ]
}

/// One round of the filters of [`test_operation_isolation`].
pub open spec fn operation_isolation_filters_round(i: u64) -> Seq<Step> {
    seq![
        fill(2, num(10000), lt(ix(), num(5000))),
        filter(i, 2, after(20, i), note1("Filter {}: failed: {}", num(i))),
    ]
}

/// Writes one round of the filters of [`test_operation_isolation`].
fn operation_isolation_filters(i: u64) -> (steps: Vec<Step>)
    requires
        i < 5,
    ensures
        steps@ == operation_isolation_filters_round(i),
{
    vec![
        fill(2, num(10000), lt(ix(), num(5000))),
        filter(i, 2, after(20, i), note1("Filter {}: failed: {}", num(i))),
    ]
}

/// One round of the filtered of [`test_operation_isolation`].
pub open spec fn operation_isolation_filtered_round(i: u64) -> Seq<Step> {
    seq![
        fetch(after(20, i), 1, note1("Filtered {}: download failed: {}", num(i))),
        check(
            differs(len(1), num(5000)),
            note3("Filtered {}: expected {} rows, got {}", num(i), num(5000), len(1)),
        ),
        scan(
            num(0),
            len(1),
            1,
            fault1(
                or(
                    lt(here(1), times(num(i), num(10000))),
                    not(lt(here(1), plus(times(num(i), num(10000)), num(10000)))),
                ),
                note4(
                    "Filtered {}: value {} outside range [{}, {})",
                    num(i),
                    here(1),
                    times(num(i), num(10000)),
                    plus(times(num(i), num(10000)), num(10000)),
                ),
            ),
        ),
    ]
}

/// Writes one round of the filtered of [`test_operation_isolation`].
fn operation_isolation_filtered(i: u64) -> (steps: Vec<Step>)
    requires
        i < 5,
    ensures
        steps@ == operation_isolation_filtered_round(i),
{
    vec![
        fetch(after(20, i), 1, note1("Filtered {}: download failed: {}", num(i))),
        check(
            differs(len(1), num(5000)),
            note3("Filtered {}: expected {} rows, got {}", num(i), num(5000), len(1)),
        ),
        scan(
            num(0),
            len(1),
            1,
            fault1(
                or(
                    lt(here(1), times(num(i), num(10000))),
                    not(lt(here(1), plus(times(num(i), num(10000)), num(10000)))),
                ),
                note4(
                    "Filtered {}: value {} outside range [{}, {})",
                    num(i),
                    here(1),
                    times(num(i), num(10000)),
                    plus(times(num(i), num(10000)), num(10000)),
                ),
            ),
        ),
    ]
}

/// The end of [`test_operation_isolation`].
pub open spec fn operation_isolation_end_steps() -> Seq<Step> {
    seq![
        sync(note0("Sync failed: {}")),
    ]
}

/// Writes the end of [`test_operation_isolation`].
fn operation_isolation_end() -> (steps: Vec<Step>)
    ensures
        steps@ == operation_isolation_end_steps(),
{
    vec![
        sync(note0("Sync failed: {}")),
    ]
}

/// The steps of [`test_operation_isolation`].
pub open spec fn operation_isolation_steps() -> Seq<Step> {
    crate::script::rounds(5, |i: int| operation_isolation_buffers_round(i as u64))
        + crate::script::rounds(5, |i: int| operation_isolation_sorts_round(i as u64))
        + crate::script::rounds(5, |i: int| operation_isolation_sorted_round(i as u64))
        + crate::script::rounds(5, |i: int| operation_isolation_filters_round(i as u64))
        + crate::script::rounds(5, |i: int| operation_isolation_filtered_round(i as u64))
        + operation_isolation_end_steps()
}

/// Each buffer keeps its own range of values.
pub fn test_operation_isolation() -> (script: Script)
    ensures
        script@ == crate::script::plan("test_operation_isolation", operation_isolation_steps()),
{
    let mut steps: Vec<Step> = Vec::new();
    let mut i: u64 = 0;
    while i < 5
        invariant
            i <= 5,
            steps@ == crate::script::rounds(
                i as int,
                |i: int| operation_isolation_buffers_round(i as u64),
            ),
        decreases 5 - i,
    {
        let mut round = operation_isolation_buffers(i);
        steps.append(&mut round);
        i = i + 1;
    }
    i = 0;
    let ghost before = steps@;
    while i < 5
        invariant
            i <= 5,
            steps@ == before + crate::script::rounds(
                i as int,
                |i: int| operation_isolation_sorts_round(i as u64),
            ),
        decreases 5 - i,
    {
        let mut round = operation_isolation_sorts(i);
        steps.append(&mut round);
        i = i + 1;
    }
    i = 0;
    let ghost before = steps@;
    while i < 5
        invariant
            i <= 5,
            steps@ == before + crate::script::rounds(
                i as int,
                |i: int| operation_isolation_sorted_round(i as u64),
            ),
        decreases 5 - i,
    {
        let mut round = operation_isolation_sorted(i);
        steps.append(&mut round);
        i = i + 1;
    }
    i = 0;
    let ghost before = steps@;
    while i < 5
        invariant
            i <= 5,
            steps@ == before + crate::script::rounds(
                i as int,
                |i: int| operation_isolation_filters_round(i as u64),
            ),
        decreases 5 - i,
    {
        let mut round = operation_isolation_filters(i);
        steps.append(&mut round);
        i = i + 1;
    }
    i = 0;
    let ghost before = steps@;
    while i < 5
        invariant
            i <= 5,
            steps@ == before + crate::script::rounds(
                i as int,
                |i: int| operation_isolation_filtered_round(i as u64),
            ),
        decreases 5 - i,
    {
        let mut round = operation_isolation_filtered(i);
        steps.append(&mut round);
        i = i + 1;
    }
    let mut more = operation_isolation_end();
    steps.append(&mut more);
    Script::new("test_operation_isolation", steps)
}

/// One round of the operations of [`test_batch_completion`].
pub open spec fn batch_completion_operations_round(i: u64) -> Seq<Step> {
    seq![
        fill(
            0,
            num(50000),
            modulo(times(times(ix(), plus(num(i), num(1))), num(31337)), num(1000000)),
        ),
        upload(40, 0, note1("Op {}: create failed: {}", num(i))),
        sort(40, after(10, i), note1("Op {}: sort failed: {}", num(i))),
        release(40),
    ]
}

/// Writes one round of the operations of [`test_batch_completion`].
fn batch_completion_operations(i: u64) -> (steps: Vec<Step>)
    requires
        i < 20,
    ensures
        steps@ == batch_completion_operations_round(i),
{
    vec![
        fill(
            0,
            num(50000),
            modulo(times(times(ix(), plus(num(i), num(1))), num(31337)), num(1000000)),
        ),
        upload(40, 0, note1("Op {}: create failed: {}", num(i))),
        sort(40, after(10, i), note1("Op {}: sort failed: {}", num(i))),
        release(40),
    ]
}

/// The completion of [`test_batch_completion`].
pub open spec fn batch_completion_completion_steps() -> Seq<Step> {
    seq![
        sync(note0("Sync failed: {}")),
    ]
}

/// Writes the completion of [`test_batch_completion`].
fn batch_completion_completion() -> (steps: Vec<Step>)
    ensures
        steps@ == batch_completion_completion_steps(),
{
    vec![
        sync(note0("Sync failed: {}")),
    ]
}

/// One round of the results of [`test_batch_completion`].
pub open spec fn batch_completion_results_round(i: u64) -> Seq<Step> {
    seq![
        fetch(after(10, i), 1, note1("Op {}: download failed after sync: {}", num(i))),
        scan(
            num(1),
            len(1),
            1,
            fault1(
                lt(here(1), before(1)),
                note2("Op {}: sort incomplete at index {}", num(i), ix()),
            ),
        ),
        fill(
            0,
            num(50000),
            modulo(times(times(ix(), plus(num(i), num(1))), num(31337)), num(1000000)),
        ),
        sort_column(2, 0, Scalar::U32),
        check(not(alike(1, 2)), note1("Op {}: sorted result doesn't match expected", num(i))),
    ]
}

/// Writes one round of the results of [`test_batch_completion`].
fn batch_completion_results(i: u64) -> (steps: Vec<Step>)
    requires
        i < 20,
    ensures
        steps@ == batch_completion_results_round(i),
{
    vec![
        fetch(after(10, i), 1, note1("Op {}: download failed after sync: {}", num(i))),
        scan(
            num(1),
            len(1),
            1,
            fault1(
                lt(here(1), before(1)),
                note2("Op {}: sort incomplete at index {}", num(i), ix()),
            ),
        ),
        fill(
            0,
            num(50000),
            modulo(times(times(ix(), plus(num(i), num(1))), num(31337)), num(1000000)),
        ),
        sort_column(2, 0, Scalar::U32),
        check(not(alike(1, 2)), note1("Op {}: sorted result doesn't match expected", num(i))),
    ]
}

/// The base of [`test_batch_completion`].
pub open spec fn batch_completion_base_steps() -> Seq<Step> {
    seq![
        fill(0, num(50000), ix()),
        upload(30, 0, note0("Base buffer creation failed: {}")),
    ]
}

/// Writes the base of [`test_batch_completion`].
fn batch_completion_base() -> (steps: Vec<Step>)
    ensures
        steps@ == batch_completion_base_steps(),
{
    vec![
        fill(0, num(50000), ix()),
        upload(30, 0, note0("Base buffer creation failed: {}")),
    ]
}

/// One round of the mixed of [`test_batch_completion`].
pub open spec fn batch_completion_mixed_round(i: u64) -> Seq<Step> {
    let s = SORT_COUNTS@[i as int];
    let f = FILTER_COUNTS@[i as int];
    seq![
        fill(1, num(50000), modulo(times(ix(), num(i)), num(50000))),
        upload(31, 1, note1("Mixed sort buffer {} failed: {}", num(i))),
        sort(31, 32, note1("Mixed sort {} failed: {}", num(i))),
        rows(32, s),
        fill(2, num(50000), same_as(modulo(ix(), plus(num(i), num(2))), num(0))),
        filter(30, 2, 33, note1("Mixed filter {} failed: {}", num(i))),
        rows(33, f),
        release(31),
    ]
}

/// Writes one round of the mixed of [`test_batch_completion`].
fn batch_completion_mixed(i: u64) -> (steps: Vec<Step>)
    requires
        i < 5,
    ensures
        steps@ == batch_completion_mixed_round(i),
{
    let s: u64 = SORT_COUNTS[i as usize];
    let f: u64 = FILTER_COUNTS[i as usize];
    vec![
        fill(1, num(50000), modulo(times(ix(), num(i)), num(50000))),
        upload(31, 1, note1("Mixed sort buffer {} failed: {}", num(i))),
        sort(31, 32, note1("Mixed sort {} failed: {}", num(i))),
        rows(32, s),
        fill(2, num(50000), same_as(modulo(ix(), plus(num(i), num(2))), num(0))),
        filter(30, 2, 33, note1("Mixed filter {} failed: {}", num(i))),
        rows(33, f),
        release(31),
    ]
}

/// The mixed completion of [`test_batch_completion`].
pub open spec fn batch_completion_mixed_completion_steps() -> Seq<Step> {
    seq![
        sync(note0("Mixed batch sync failed: {}")),
    ]
}

/// Writes the mixed completion of [`test_batch_completion`].
fn batch_completion_mixed_completion() -> (steps: Vec<Step>)
    ensures
        steps@ == batch_completion_mixed_completion_steps(),
{
    vec![
        sync(note0("Mixed batch sync failed: {}")),
    ]
}

/// One round of the counts of [`test_batch_completion`].
pub open spec fn batch_completion_counts_round(i: u64) -> Seq<Step> {
    let s = SORT_COUNTS@[i as int];
    let f = FILTER_COUNTS@[i as int];
    seq![
        check(
            differs(reg(s), num(50000)),
            remark4(
                "Mixed op {} ({}): expected {} rows, got {}",
                val(num(s)),
                word("sort"),
                val(num(50000)),
                val(reg(s)),
            ),
        ),
        fill(2, num(50000), same_as(modulo(ix(), plus(num(i), num(2))), num(0))),
        put(10, sum_of(2)),
        check(
            differs(reg(f), reg(10)),
            remark4(
                "Mixed op {} ({}): expected {} rows, got {}",
                val(num(f)),
                word("filter"),
                val(reg(10)),
                val(reg(f)),
            ),
        ),
    ]
}

/// Writes one round of the counts of [`test_batch_completion`].
fn batch_completion_counts(i: u64) -> (steps: Vec<Step>)
    requires
        i < 5,
    ensures
        steps@ == batch_completion_counts_round(i),
{
    let s: u64 = SORT_COUNTS[i as usize];
    let f: u64 = FILTER_COUNTS[i as usize];
    vec![
        check(
            differs(reg(s), num(50000)),
            remark4(
                "Mixed op {} ({}): expected {} rows, got {}",
                val(num(s)),
                word("sort"),
                val(num(50000)),
                val(reg(s)),
            ),
        ),
        fill(2, num(50000), same_as(modulo(ix(), plus(num(i), num(2))), num(0))),
        put(10, sum_of(2)),
        check(
            differs(reg(f), reg(10)),
            remark4(
                "Mixed op {} ({}): expected {} rows, got {}",
                val(num(f)),
                word("filter"),
                val(reg(10)),
                val(reg(f)),
            ),
        ),
    ]
}

/// The end of [`test_batch_completion`].
pub open spec fn batch_completion_end_steps() -> Seq<Step> {
    seq![
        sync(note0("Final sync failed: {}")),
    ]
}

/// Writes the end of [`test_batch_completion`].
fn batch_completion_end() -> (steps: Vec<Step>)
    ensures
        steps@ == batch_completion_end_steps(),
{
    vec![
        sync(note0("Final sync failed: {}")),
    ]
}

/// The steps of [`test_batch_completion`].
pub open spec fn batch_completion_steps() -> Seq<Step> {
    crate::script::rounds(20, |i: int| batch_completion_operations_round(i as u64))
        + batch_completion_completion_steps()
        + crate::script::rounds(20, |i: int| batch_completion_results_round(i as u64))
        + batch_completion_base_steps()
        + crate::script::rounds(5, |i: int| batch_completion_mixed_round(i as u64))
        + batch_completion_mixed_completion_steps()
        + crate::script::rounds(5, |i: int| batch_completion_counts_round(i as u64))
        + batch_completion_end_steps()
}

/// Every operation of a batch is complete after one synchronisation.
pub fn test_batch_completion() -> (script: Script)
    ensures
        script@ == crate::script::plan("test_batch_completion", batch_completion_steps()),
{
    let mut steps: Vec<Step> = Vec::new();
    let mut i: u64 = 0;
    while i < 20
        invariant
            i <= 20,
            steps@ == crate::script::rounds(
                i as int,
                |i: int| batch_completion_operations_round(i as u64),
            ),
        decreases 20 - i,
    {
        let mut round = batch_completion_operations(i);
        steps.append(&mut round);
        i = i + 1;
    }
    let mut more = batch_completion_completion();
    steps.append(&mut more);
    i = 0;
    let ghost before = steps@;
    while i < 20
        invariant
            i <= 20,
            steps@ == before + crate::script::rounds(
                i as int,
                |i: int| batch_completion_results_round(i as u64),
            ),
        decreases 20 - i,
    {
        let mut round = batch_completion_results(i);
        steps.append(&mut round);
        i = i + 1;
    }
    let mut more = batch_completion_base();
    steps.append(&mut more);
    i = 0;
    let ghost before = steps@;
    while i < 5
        invariant
            i <= 5,
            steps@ == before + crate::script::rounds(
                i as int,
                |i: int| batch_completion_mixed_round(i as u64),
            ),
        decreases 5 - i,
    {
        let mut round = batch_completion_mixed(i);
        steps.append(&mut round);
        i = i + 1;
    }
    let mut more = batch_completion_mixed_completion();
    steps.append(&mut more);
    i = 0;
    let ghost before = steps@;
    while i < 5
        invariant
            i <= 5,
            steps@ == before + crate::script::rounds(
                i as int,
                |i: int| batch_completion_counts_round(i as u64),
            ),
        decreases 5 - i,
    {
        let mut round = batch_completion_counts(i);
        steps.append(&mut round);
        i = i + 1;
    }
    let mut more = batch_completion_end();
    steps.append(&mut more);
    Script::new("test_batch_completion", steps)
}

/// The range of [`test_dependency_chain`].
pub open spec fn dependency_chain_range_steps() -> Seq<Step> {
    seq![
        fill(0, num(50000), modulo(plus(times(ix(), num(1103515245)), num(12345)), num(1000000))),
        upload(0, 0, note0("Initial buffer creation failed: {}")),
        sort(0, 1, note0("Chain 1, step 1 (sort) failed: {}")),
        fetch(1, 1, note0("Chain 1, step 1 download failed: {}")),
        put(0, at(1, num(12500))),
        put(1, at(1, num(37500))),
        fill(2, len(1), and(not(lt(here(1), reg(0))), lt(here(1), reg(1)))),
        filter(1, 2, 2, note0("Chain 1, step 2 (filter) failed: {}")),
        sort(2, 3, note0("Chain 1, step 3 (sort) failed: {}")),
        fetch(3, 3, note0("Chain 1 result download failed: {}")),
        scan(
            num(1),
            len(3),
            1,
            fault1(lt(here(3), before(3)), note1("Chain 1: not sorted at index {}", ix())),
        ),
        scan(
            num(0),
            len(3),
            1,
            fault1(
                or(lt(here(3), reg(0)), not(lt(here(3), reg(1)))),
                note3("Chain 1: value {} outside range [{}, {})", here(3), reg(0), reg(1)),
            ),
        ),
    ]
}

/// Writes the range of [`test_dependency_chain`].
fn dependency_chain_range() -> (steps: Vec<Step>)
    ensures
        steps@ == dependency_chain_range_steps(),
{
    vec![
        fill(0, num(50000), modulo(plus(times(ix(), num(1103515245)), num(12345)), num(1000000))),
        upload(0, 0, note0("Initial buffer creation failed: {}")),
        sort(0, 1, note0("Chain 1, step 1 (sort) failed: {}")),
        fetch(1, 1, note0("Chain 1, step 1 download failed: {}")),
        put(0, at(1, num(12500))),
        put(1, at(1, num(37500))),
        fill(2, len(1), and(not(lt(here(1), reg(0))), lt(here(1), reg(1)))),
        filter(1, 2, 2, note0("Chain 1, step 2 (filter) failed: {}")),
        sort(2, 3, note0("Chain 1, step 3 (sort) failed: {}")),
        fetch(3, 3, note0("Chain 1 result download failed: {}")),
        scan(
            num(1),
            len(3),
            1,
            fault1(lt(here(3), before(3)), note1("Chain 1: not sorted at index {}", ix())),
        ),
        scan(
            num(0),
            len(3),
            1,
            fault1(
                or(lt(here(3), reg(0)), not(lt(here(3), reg(1)))),
                note3("Chain 1: value {} outside range [{}, {})", here(3), reg(0), reg(1)),
            ),
        ),
    ]
}

/// The join of [`test_dependency_chain`].
pub open spec fn dependency_chain_join_steps() -> Seq<Step> {
    seq![
        fill(4, num(10000), ix()),
        fill(5, num(10000), times(here(4), num(2))),
        upload_table(4, Layout::KeyVal, 4, note0("Chain 2 left buffer failed: {}")),
        sort(4, 5, note0("Chain 2 left sort failed: {}")),
        fill(6, num(15000), over(times(ix(), num(2)), num(3))),
        fill(7, num(15000), times(here(6), num(3))),
        upload_table(6, Layout::KeyVal, 6, note0("Chain 2 right buffer failed: {}")),
        fill(8, num(15000), same_as(modulo(ix(), num(2)), num(0))),
        filter(6, 8, 7, note0("Chain 2 right filter failed: {}")),
        sort(7, 8, note0("Chain 2 right sort failed: {}")),
        join(5, 8, 9, note0("Chain 2 join failed: {}")),
        rows(9, 2),
        check(same_as(reg(2), num(0)), note0("Chain 2: join produced no results")),
        fetch(9, 9, note0("Chain 2 join keys download failed: {}")),
        download(9, 1, Scalar::U32, 10, note0("Chain 2 join lvals download failed: {}")),
        scan(
            num(0),
            least(len(9), len(10)),
            1,
            fault1(
                differs(here(10), narrow(times(here(9), num(2)))),
                note4(
                    "Chain 2: join row {} inconsistent: key={}, lval={} (expected {})",
                    ix(),
                    here(9),
                    here(10),
                    times(here(9), num(2)),
                ),
            ),
        ),
        fill(11, num(10000), modulo(ix(), num(1000))),
        upload(10, 11, note0("Chain 3 initial buffer failed: {}")),
    ]
}

/// Writes the join of [`test_dependency_chain`].
fn dependency_chain_join() -> (steps: Vec<Step>)
    ensures
        steps@ == dependency_chain_join_steps(),
{
    vec![
        fill(4, num(10000), ix()),
        fill(5, num(10000), times(here(4), num(2))),
        upload_table(4, Layout::KeyVal, 4, note0("Chain 2 left buffer failed: {}")),
        sort(4, 5, note0("Chain 2 left sort failed: {}")),
        fill(6, num(15000), over(times(ix(), num(2)), num(3))),
        fill(7, num(15000), times(here(6), num(3))),
        upload_table(6, Layout::KeyVal, 6, note0("Chain 2 right buffer failed: {}")),
        fill(8, num(15000), same_as(modulo(ix(), num(2)), num(0))),
        filter(6, 8, 7, note0("Chain 2 right filter failed: {}")),
        sort(7, 8, note0("Chain 2 right sort failed: {}")),
        join(5, 8, 9, note0("Chain 2 join failed: {}")),
        rows(9, 2),
        check(same_as(reg(2), num(0)), note0("Chain 2: join produced no results")),
        fetch(9, 9, note0("Chain 2 join keys download failed: {}")),
        download(9, 1, Scalar::U32, 10, note0("Chain 2 join lvals download failed: {}")),
        scan(
            num(0),
            least(len(9), len(10)),
            1,
            fault1(
                differs(here(10), narrow(times(here(9), num(2)))),
                note4(
                    "Chain 2: join row {} inconsistent: key={}, lval={} (expected {})",
                    ix(),
                    here(9),
                    here(10),
                    times(here(9), num(2)),
                ),
            ),
        ),
        fill(11, num(10000), modulo(ix(), num(1000))),
        upload(10, 11, note0("Chain 3 initial buffer failed: {}")),
    ]
}

/// One round of the deepening of [`test_dependency_chain`].
pub open spec fn dependency_chain_deepening_round(i: u64) -> Seq<Step> {
    seq![
        sort(10, 11, note1("Chain 3 step {} sort failed: {}", num(i))),
        fetch(11, 12, note1("Chain 3 step {} download failed: {}", num(i))),
        fill(13, len(12), lt(modulo(ix(), num(5)), num(4))),
        filter(11, 13, 10, note1("Chain 3 step {} filter failed: {}", num(i))),
        release(11),
    ]
}

/// Writes one round of the deepening of [`test_dependency_chain`].
fn dependency_chain_deepening(i: u64) -> (steps: Vec<Step>)
    requires
        i < 5,
    ensures
        steps@ == dependency_chain_deepening_round(i),
{
    vec![
        sort(10, 11, note1("Chain 3 step {} sort failed: {}", num(i))),
        fetch(11, 12, note1("Chain 3 step {} download failed: {}", num(i))),
        fill(13, len(12), lt(modulo(ix(), num(5)), num(4))),
        filter(11, 13, 10, note1("Chain 3 step {} filter failed: {}", num(i))),
        release(11),
    ]
}

/// The end of [`test_dependency_chain`].
pub open spec fn dependency_chain_end_steps() -> Seq<Step> {
    seq![
        fetch(10, 12, note0("Chain 3 result download failed: {}")),
        check(same_as(len(12), num(0)), note0("Chain 3: deep chain produced no results")),
        scan(
            num(1),
            len(12),
            1,
            fault1(
                lt(here(12), before(12)),
                note1("Chain 3: result not sorted at index {}", ix()),
            ),
        ),
        sync(note0("Final sync failed: {}")),
    ]
}

/// Writes the end of [`test_dependency_chain`].
fn dependency_chain_end() -> (steps: Vec<Step>)
    ensures
        steps@ == dependency_chain_end_steps(),
{
    vec![
        fetch(10, 12, note0("Chain 3 result download failed: {}")),
        check(same_as(len(12), num(0)), note0("Chain 3: deep chain produced no results")),
        scan(
            num(1),
            len(12),
            1,
            fault1(
                lt(here(12), before(12)),
                note1("Chain 3: result not sorted at index {}", ix()),
            ),
        ),
        sync(note0("Final sync failed: {}")),
    ]
}

/// The steps of [`test_dependency_chain`].
pub open spec fn dependency_chain_steps() -> Seq<Step> {
    dependency_chain_range_steps()
        + dependency_chain_join_steps()
        + crate::script::rounds(5, |i: int| dependency_chain_deepening_round(i as u64))
        + dependency_chain_end_steps()
}

/// Chains of operations, each on the result of the one before.
pub fn test_dependency_chain() -> (script: Script)
    ensures
        script@ == crate::script::plan("test_dependency_chain", dependency_chain_steps()),
{
    let mut steps: Vec<Step> = dependency_chain_range();
    let mut more = dependency_chain_join();
    steps.append(&mut more);
    let mut i: u64 = 0;
    let ghost before = steps@;
    while i < 5
        invariant
            i <= 5,
            steps@ == before + crate::script::rounds(
                i as int,
                |i: int| dependency_chain_deepening_round(i as u64),
            ),
        decreases 5 - i,
    {
        let mut round = dependency_chain_deepening(i);
        steps.append(&mut round);
        i = i + 1;
    }
    let mut more = dependency_chain_end();
    steps.append(&mut more);
    Script::new("test_dependency_chain", steps)
}

/// The tests of the category.
pub open spec fn tests() -> Seq<Plan> {
    seq![
        crate::script::plan(
            "test_sequential_batch_operations",
            sequential_batch_operations_steps(),
        ),
        crate::script::plan("test_interleaved_operations", interleaved_operations_steps()),
        crate::script::plan("test_operation_isolation", operation_isolation_steps()),
        crate::script::plan("test_batch_completion", batch_completion_steps()),
        crate::script::plan("test_dependency_chain", dependency_chain_steps()),
    ]
}

/// Lists the tests of the category, in the order in which they run.
pub fn run_all() -> (category: CategoryRun)
    ensures
        category.title() == "c19_multi_stream",
        category.waiting() == tests(),
        category.test() is None,
        category.run() is None,
        category.done() == Seq::<Outcome>::empty(),
{
    let scripts: Vec<Script> = vec![
        test_sequential_batch_operations(),
        test_interleaved_operations(),
        test_operation_isolation(),
        test_batch_completion(),
        test_dependency_chain(),
    ];
    let category = CategoryRun::new("c19_multi_stream", scripts);
    assert(category.waiting() =~= tests());
    category
}

} // verus!
