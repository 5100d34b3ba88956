//! Pipelines: long runs of operations that depend on each other.

use vstd::prelude::*;
use crate::expr::{
    alike, and, before, differs, here, ix, len, lt, minus, modulo, not, num, or, over, plus, reg,
    same_as, times,
};
use crate::harness::{CategoryRun, Outcome};
use crate::message::{note0, note1, note2, note3};
use crate::scalar::Scalar;
use crate::script::{
    attempt, check, COUNT, dedup, fault1, fetch, fill, filter, join, Layout, match_rows, only,
    Otherwise, Plan, release, Request, scan, Script, select, sort, sort_column, Step, sync, upload,
    upload_table,
};

verus! {

/// One round of the sorts of [`test_sequential_operations`].
pub open spec fn sequential_operations_sorts_round(i: u64) -> Seq<Step> {
    seq![
        fill(0, num(1000), modulo(plus(ix(), times(num(i), num(1000))), num(10000))),
        upload(0, 0, note1("Iteration {}: failed to create buffer: {}", num(i))),
        sort(0, 1, note1("Iteration {}: sort failed: {}", num(i))),
        fetch(1, 1, note1("Iteration {}: download failed: {}", num(i))),
        scan(
            num(1),
            len(1),
            1,
            fault1(
                lt(here(1), before(1)),
                note2("Iteration {}: sort incorrect at index {}", num(i), ix()),
            ),
        ),
        release(0),
    ]
}

/// Writes one round of the sorts of [`test_sequential_operations`].
fn sequential_operations_sorts(i: u64) -> (steps: Vec<Step>)
    requires
        i < 50,
    ensures
        steps@ == sequential_operations_sorts_round(i),
{
    vec![
        fill(0, num(1000), modulo(plus(ix(), times(num(i), num(1000))), num(10000))),
        upload(0, 0, note1("Iteration {}: failed to create buffer: {}", num(i))),
        sort(0, 1, note1("Iteration {}: sort failed: {}", num(i))),
        fetch(1, 1, note1("Iteration {}: download failed: {}", num(i))),
        scan(
            num(1),
            len(1),
            1,
            fault1(
                lt(here(1), before(1)),
                note2("Iteration {}: sort incorrect at index {}", num(i), ix()),
            ),
        ),
        release(0),
    ]
}

/// The between of [`test_sequential_operations`].
pub open spec fn sequential_operations_between_steps() -> Seq<Step> {
    seq![
        fill(0, num(1000), ix()),
        upload(0, 0, note0("Failed to create filter buffer: {}")),
    ]
}

/// Writes the between of [`test_sequential_operations`].
fn sequential_operations_between() -> (steps: Vec<Step>)
    ensures
        steps@ == sequential_operations_between_steps(),
{
    vec![
        fill(0, num(1000), ix()),
        upload(0, 0, note0("Failed to create filter buffer: {}")),
    ]
}

/// One round of the filters of [`test_sequential_operations`].
pub open spec fn sequential_operations_filters_round(i: u64) -> Seq<Step> {
    seq![
        fill(1, num(1000), not(lt(ix(), modulo(times(num(i), num(10)), num(1000))))),
        filter(0, 1, 1, note1("Filter iteration {}: filter failed: {}", num(i))),
        match_rows(
            1,
            minus(num(1000), modulo(times(num(i), num(10)), num(1000))),
            note3(
                "Filter iteration {}: expected {} rows, got {}",
                num(i),
                minus(num(1000), modulo(times(num(i), num(10)), num(1000))),
                reg(COUNT),
            ),
        ),
        release(1),
    ]
}

/// Writes one round of the filters of [`test_sequential_operations`].
fn sequential_operations_filters(i: u64) -> (steps: Vec<Step>)
    requires
        i < 50,
    ensures
        steps@ == sequential_operations_filters_round(i),
{
    vec![
        fill(1, num(1000), not(lt(ix(), modulo(times(num(i), num(10)), num(1000))))),
        filter(0, 1, 1, note1("Filter iteration {}: filter failed: {}", num(i))),
        match_rows(
            1,
            minus(num(1000), modulo(times(num(i), num(10)), num(1000))),
            note3(
                "Filter iteration {}: expected {} rows, got {}",
                num(i),
                minus(num(1000), modulo(times(num(i), num(10)), num(1000))),
                reg(COUNT),
            ),
        ),
        release(1),
    ]
}

/// The end of [`test_sequential_operations`].
pub open spec fn sequential_operations_end_steps() -> Seq<Step> {
    seq![
        sync(note0("Sync failed: {}")),
    ]
}

/// Writes the end of [`test_sequential_operations`].
fn sequential_operations_end() -> (steps: Vec<Step>)
    ensures
        steps@ == sequential_operations_end_steps(),
{
    vec![
        sync(note0("Sync failed: {}")),
    ]
}

/// The steps of [`test_sequential_operations`].
pub open spec fn sequential_operations_steps() -> Seq<Step> {
    crate::script::rounds(50, |i: int| sequential_operations_sorts_round(i as u64))
        + sequential_operations_between_steps()
        + crate::script::rounds(50, |i: int| sequential_operations_filters_round(i as u64))
        + sequential_operations_end_steps()
}

/// A hundred operations in a row.
pub fn test_sequential_operations() -> (script: Script)
    ensures
        script@ == crate::script::plan("test_sequential_operations", sequential_operations_steps()),
{
    let mut steps: Vec<Step> = Vec::new();
    let mut i: u64 = 0;
    while i < 50
        invariant
            i <= 50,
            steps@ == crate::script::rounds(
                i as int,
                |i: int| sequential_operations_sorts_round(i as u64),
            ),
        decreases 50 - i,
    {
        let mut round = sequential_operations_sorts(i);
        steps.append(&mut round);
        i = i + 1;
    }
    let mut more = sequential_operations_between();
    steps.append(&mut more);
    i = 0;
    let ghost before = steps@;
    while i < 50
        invariant
            i <= 50,
            steps@ == before + crate::script::rounds(
                i as int,
                |i: int| sequential_operations_filters_round(i as u64),
            ),
        decreases 50 - i,
    {
        let mut round = sequential_operations_filters(i);
        steps.append(&mut round);
        i = i + 1;
    }
    let mut more = sequential_operations_end();
    steps.append(&mut more);
    Script::new("test_sequential_operations", steps)
}

/// The steps of [`test_operation_dependencies`].
pub open spec fn operation_dependencies_steps() -> Seq<Step> {
    seq![
        fill(0, num(10000), modulo(plus(times(ix(), num(17)), num(13)), num(1000))),
        upload(0, 0, note0("Failed to create buffer: {}")),
        sort(0, 1, note0("Step 1 (sort) failed: {}")),
        fetch(1, 1, note0("Step 1: download failed: {}")),
        scan(
            num(1),
            len(1),
            1,
            fault1(lt(here(1), before(1)), note1("Step 1: sort incorrect at index {}", ix())),
        ),
        fill(2, len(1), not(lt(here(1), num(500)))),
        filter(1, 2, 2, note0("Step 2 (filter) failed: {}")),
        fetch(2, 3, note0("Step 2: download failed: {}")),
        scan(
            num(0),
            len(3),
            1,
            fault1(
                lt(here(3), num(500)),
                note2("Step 2: value {} at index {} is < 500", here(3), ix()),
            ),
        ),
        sort(2, 3, note0("Step 3 (sort) failed: {}")),
        fetch(3, 4, note0("Step 3: download failed: {}")),
        fill(5, len(4), lt(here(4), num(800))),
        filter(3, 5, 4, note0("Step 4 (filter) failed: {}")),
        fetch(4, 6, note0("Step 4: download failed: {}")),
        scan(
            num(0),
            len(6),
            1,
            fault1(
                or(lt(here(6), num(500)), not(lt(here(6), num(800)))),
                note2("Step 4: value {} at index {} not in [500, 800)", here(6), ix()),
            ),
        ),
        sort(4, 5, note0("Step 5 (sort) failed: {}")),
        fetch(5, 7, note0("Step 5: download failed: {}")),
        scan(
            num(1),
            len(7),
            1,
            fault1(lt(here(7), before(7)), note1("Final: sort incorrect at index {}", ix())),
        ),
        select(8, len(0), and(not(lt(here(0), num(500))), lt(here(0), num(800))), here(0)),
        sort_column(9, 8, Scalar::U32),
        check(
            not(alike(7, 9)),
            note2("Final result doesn't match expected: {} vs {} elements", len(7), len(9)),
        ),
        sync(note0("Sync failed: {}")),
    ]
}

/// Each step of a chain of sorts and filters works on the result of the one before.
pub fn test_operation_dependencies() -> (script: Script)
    ensures
        script@ == crate::script::plan(
            "test_operation_dependencies",
            operation_dependencies_steps(),
        ),
{
    let steps: Vec<Step> = vec![
        fill(0, num(10000), modulo(plus(times(ix(), num(17)), num(13)), num(1000))),
        upload(0, 0, note0("Failed to create buffer: {}")),
        sort(0, 1, note0("Step 1 (sort) failed: {}")),
        fetch(1, 1, note0("Step 1: download failed: {}")),
        scan(
            num(1),
            len(1),
            1,
            fault1(lt(here(1), before(1)), note1("Step 1: sort incorrect at index {}", ix())),
        ),
        fill(2, len(1), not(lt(here(1), num(500)))),
        filter(1, 2, 2, note0("Step 2 (filter) failed: {}")),
        fetch(2, 3, note0("Step 2: download failed: {}")),
        scan(
            num(0),
            len(3),
            1,
            fault1(
                lt(here(3), num(500)),
                note2("Step 2: value {} at index {} is < 500", here(3), ix()),
            ),
        ),
        sort(2, 3, note0("Step 3 (sort) failed: {}")),
        fetch(3, 4, note0("Step 3: download failed: {}")),
        fill(5, len(4), lt(here(4), num(800))),
        filter(3, 5, 4, note0("Step 4 (filter) failed: {}")),
        fetch(4, 6, note0("Step 4: download failed: {}")),
        scan(
            num(0),
            len(6),
            1,
            fault1(
                or(lt(here(6), num(500)), not(lt(here(6), num(800)))),
                note2("Step 4: value {} at index {} not in [500, 800)", here(6), ix()),
            ),
        ),
        sort(4, 5, note0("Step 5 (sort) failed: {}")),
        fetch(5, 7, note0("Step 5: download failed: {}")),
        scan(
            num(1),
            len(7),
            1,
            fault1(lt(here(7), before(7)), note1("Final: sort incorrect at index {}", ix())),
        ),
        select(8, len(0), and(not(lt(here(0), num(500))), lt(here(0), num(800))), here(0)),
        sort_column(9, 8, Scalar::U32),
        check(
            not(alike(7, 9)),
            note2("Final result doesn't match expected: {} vs {} elements", len(7), len(9)),
        ),
        sync(note0("Sync failed: {}")),
    ];
    Script::new("test_operation_dependencies", steps)
}

/// The steps of [`test_sync_between_operations`].
pub open spec fn sync_between_operations_steps() -> Seq<Step> {
    seq![
        fill(0, num(50000), modulo(times(ix(), num(31337)), num(1000000))),
        upload(0, 0, note0("Failed to create buffer: {}")),
        sort(0, 1, note0("Sort failed: {}")),
        sync(note0("Sync point 1 failed: {}")),
        fetch(1, 1, note0("Download after sync 1 failed: {}")),
        scan(
            num(1),
            len(1),
            1,
            fault1(lt(here(1), before(1)), note1("Sort incorrect at index {}", ix())),
        ),
        fill(2, len(1), same_as(modulo(here(1), num(2)), num(0))),
        filter(1, 2, 2, note0("Filter failed: {}")),
        sync(note0("Sync point 2 failed: {}")),
        fetch(2, 3, note0("Download after sync 2 failed: {}")),
        scan(
            num(0),
            len(3),
            1,
            fault1(
                differs(modulo(here(3), num(2)), num(0)),
                note2("Filtered value {} at index {} is not even", here(3), ix()),
            ),
        ),
        fill(4, num(1000), ix()),
        fill(5, num(1000), times(here(4), num(10))),
        upload_table(3, Layout::KeyVal, 4, note0("Failed to create buffer2: {}")),
        sort(3, 4, note0("Sort2 failed: {}")),
        dedup(3, 5, note0("Dedup failed: {}")),
        sync(note0("Sync point 3 (after multiple ops) failed: {}")),
        fetch(4, 6, note0("Download sorted2 failed: {}")),
        fetch(5, 7, note0("Download deduped failed: {}")),
        check(differs(len(6), num(1000)), note1("Sorted2 has {} rows, expected 1000", len(6))),
        check(differs(len(7), num(1000)), note1("Deduped has {} rows, expected 1000", len(7))),
        sync(note0("Final sync failed: {}")),
    ]
}

/// Waiting for the device between operations changes nothing.
pub fn test_sync_between_operations() -> (script: Script)
    ensures
        script@ == crate::script::plan(
            "test_sync_between_operations",
            sync_between_operations_steps(),
        ),
{
    let steps: Vec<Step> = vec![
        fill(0, num(50000), modulo(times(ix(), num(31337)), num(1000000))),
        upload(0, 0, note0("Failed to create buffer: {}")),
        sort(0, 1, note0("Sort failed: {}")),
        sync(note0("Sync point 1 failed: {}")),
        fetch(1, 1, note0("Download after sync 1 failed: {}")),
        scan(
            num(1),
            len(1),
            1,
            fault1(lt(here(1), before(1)), note1("Sort incorrect at index {}", ix())),
        ),
        fill(2, len(1), same_as(modulo(here(1), num(2)), num(0))),
        filter(1, 2, 2, note0("Filter failed: {}")),
        sync(note0("Sync point 2 failed: {}")),
        fetch(2, 3, note0("Download after sync 2 failed: {}")),
        scan(
            num(0),
            len(3),
            1,
            fault1(
                differs(modulo(here(3), num(2)), num(0)),
                note2("Filtered value {} at index {} is not even", here(3), ix()),
            ),
        ),
        fill(4, num(1000), ix()),
        fill(5, num(1000), times(here(4), num(10))),
        upload_table(3, Layout::KeyVal, 4, note0("Failed to create buffer2: {}")),
        sort(3, 4, note0("Sort2 failed: {}")),
        dedup(3, 5, note0("Dedup failed: {}")),
        sync(note0("Sync point 3 (after multiple ops) failed: {}")),
        fetch(4, 6, note0("Download sorted2 failed: {}")),
        fetch(5, 7, note0("Download deduped failed: {}")),
        check(differs(len(6), num(1000)), note1("Sorted2 has {} rows, expected 1000", len(6))),
        check(differs(len(7), num(1000)), note1("Deduped has {} rows, expected 1000", len(7))),
        sync(note0("Final sync failed: {}")),
    ];
    Script::new("test_sync_between_operations", steps)
}

/// The steps of [`test_error_propagation`].
pub open spec fn error_propagation_steps() -> Seq<Step> {
    seq![
        fill(0, num(0), num(0)),
        upload(0, 0, note0("Failed to create empty buffer: {}")),
        sort(0, 1, note0("Sort on empty buffer failed unexpectedly: {}")),
        match_rows(
            1,
            num(0),
            note1("Sort on empty buffer returned {} rows, expected 0", reg(COUNT)),
        ),
        fill(1, num(5), plus(ix(), num(1))),
        upload(2, 1, note0("Failed to create buffer: {}")),
        fill(2, num(3), modulo(plus(ix(), num(1)), num(2))),
        attempt(Request::Filter { of: 2, mask: 2, into: 3 }, Otherwise::Go),
        release(3),
        sync(note0("Sync after error test failed: {}")),
        fill(3, num(5), modulo(plus(ix(), num(1)), num(2))),
        filter(2, 3, 3, note0("Valid filter after error test failed: {}")),
        match_rows(3, num(3), note1("Valid filter returned {} rows, expected 3", reg(COUNT))),
        fill(4, num(100), ix()),
        fill(5, num(100), times(here(4), num(2))),
        upload_table(4, Layout::KeyVal, 4, note0("Failed to create buffer2: {}")),
        sort(4, 5, note0("Sort after recovery failed: {}")),
        fetch(5, 6, note0("Download after recovery failed: {}")),
        check(
            differs(len(6), num(100)),
            note1("Sort after recovery has {} rows, expected 100", len(6)),
        ),
        sync(note0("Final sync failed: {}")),
    ]
}

/// An operation that may be refused does not spoil the ones after it.
pub fn test_error_propagation() -> (script: Script)
    ensures
        script@ == crate::script::plan("test_error_propagation", error_propagation_steps()),
{
    let steps: Vec<Step> = vec![
        fill(0, num(0), num(0)),
        upload(0, 0, note0("Failed to create empty buffer: {}")),
        sort(0, 1, note0("Sort on empty buffer failed unexpectedly: {}")),
        match_rows(
            1,
            num(0),
            note1("Sort on empty buffer returned {} rows, expected 0", reg(COUNT)),
        ),
        fill(1, num(5), plus(ix(), num(1))),
        upload(2, 1, note0("Failed to create buffer: {}")),
        fill(2, num(3), modulo(plus(ix(), num(1)), num(2))),
        attempt(Request::Filter { of: 2, mask: 2, into: 3 }, Otherwise::Go),
        release(3),
        sync(note0("Sync after error test failed: {}")),
        fill(3, num(5), modulo(plus(ix(), num(1)), num(2))),
        filter(2, 3, 3, note0("Valid filter after error test failed: {}")),
        match_rows(3, num(3), note1("Valid filter returned {} rows, expected 3", reg(COUNT))),
        fill(4, num(100), ix()),
        fill(5, num(100), times(here(4), num(2))),
        upload_table(4, Layout::KeyVal, 4, note0("Failed to create buffer2: {}")),
        sort(4, 5, note0("Sort after recovery failed: {}")),
        fetch(5, 6, note0("Download after recovery failed: {}")),
        check(
            differs(len(6), num(100)),
            note1("Sort after recovery has {} rows, expected 100", len(6)),
        ),
        sync(note0("Final sync failed: {}")),
    ];
    Script::new("test_error_propagation", steps)
}

/// One round of the sorts of [`test_large_batch_operations`].
pub open spec fn large_batch_operations_sorts_round(i: u64) -> Seq<Step> {
    seq![
        fill(0, num(5000), modulo(times(times(ix(), plus(num(i), num(1))), num(7)), num(100000))),
        upload(0, 0, note1("Batch 1 iter {}: create buffer failed: {}", num(i))),
        sort(0, 1, note1("Batch 1 iter {}: sort failed: {}", num(i))),
        only(
            same_as(modulo(num(i), num(10)), num(0)),
            fetch(1, 1, note1("Batch 1 iter {}: download failed: {}", num(i))),
        ),
        only(
            same_as(modulo(num(i), num(10)), num(0)),
            scan(
                num(1),
                len(1),
                1,
                fault1(
                    lt(here(1), before(1)),
                    note2("Batch 1 iter {}: sort incorrect at index {}", num(i), ix()),
                ),
            ),
        ),
        release(0),
    ]
}

/// Writes one round of the sorts of [`test_large_batch_operations`].
fn large_batch_operations_sorts(i: u64) -> (steps: Vec<Step>)
    requires
        i < 100,
    ensures
        steps@ == large_batch_operations_sorts_round(i),
{
    vec![
        fill(0, num(5000), modulo(times(times(ix(), plus(num(i), num(1))), num(7)), num(100000))),
        upload(0, 0, note1("Batch 1 iter {}: create buffer failed: {}", num(i))),
        sort(0, 1, note1("Batch 1 iter {}: sort failed: {}", num(i))),
        only(
            same_as(modulo(num(i), num(10)), num(0)),
            fetch(1, 1, note1("Batch 1 iter {}: download failed: {}", num(i))),
        ),
        only(
            same_as(modulo(num(i), num(10)), num(0)),
            scan(
                num(1),
                len(1),
                1,
                fault1(
                    lt(here(1), before(1)),
                    note2("Batch 1 iter {}: sort incorrect at index {}", num(i), ix()),
                ),
            ),
        ),
        release(0),
    ]
}

/// The filter source of [`test_large_batch_operations`].
pub open spec fn large_batch_operations_filter_source_steps() -> Seq<Step> {
    seq![
        sync(note0("Sync after batch 1 failed: {}")),
        fill(0, num(5000), ix()),
        upload(0, 0, note0("Batch 2: create filter buffer failed: {}")),
    ]
}

/// Writes the filter source of [`test_large_batch_operations`].
fn large_batch_operations_filter_source() -> (steps: Vec<Step>)
    ensures
        steps@ == large_batch_operations_filter_source_steps(),
{
    vec![
        sync(note0("Sync after batch 1 failed: {}")),
        fill(0, num(5000), ix()),
        upload(0, 0, note0("Batch 2: create filter buffer failed: {}")),
    ]
}

/// One round of the filters of [`test_large_batch_operations`].
pub open spec fn large_batch_operations_filters_round(i: u64) -> Seq<Step> {
    seq![
        fill(1, len(0), not(lt(here(0), over(times(num(i), num(5000)), num(100))))),
        filter(0, 1, 1, note1("Batch 2 iter {}: filter failed: {}", num(i))),
        match_rows(
            1,
            minus(num(5000), over(times(num(i), num(5000)), num(100))),
            note3(
                "Batch 2 iter {}: expected {} rows, got {}",
                num(i),
                minus(num(5000), over(times(num(i), num(5000)), num(100))),
                reg(COUNT),
            ),
        ),
        release(1),
    ]
}

/// Writes one round of the filters of [`test_large_batch_operations`].
fn large_batch_operations_filters(i: u64) -> (steps: Vec<Step>)
    requires
        i < 100,
    ensures
        steps@ == large_batch_operations_filters_round(i),
{
    vec![
        fill(1, len(0), not(lt(here(0), over(times(num(i), num(5000)), num(100))))),
        filter(0, 1, 1, note1("Batch 2 iter {}: filter failed: {}", num(i))),
        match_rows(
            1,
            minus(num(5000), over(times(num(i), num(5000)), num(100))),
            note3(
                "Batch 2 iter {}: expected {} rows, got {}",
                num(i),
                minus(num(5000), over(times(num(i), num(5000)), num(100))),
                reg(COUNT),
            ),
        ),
        release(1),
    ]
}

/// The after filters of [`test_large_batch_operations`].
pub open spec fn large_batch_operations_after_filters_steps() -> Seq<Step> {
    seq![
        sync(note0("Sync after batch 2 failed: {}")),
    ]
}

/// Writes the after filters of [`test_large_batch_operations`].
fn large_batch_operations_after_filters() -> (steps: Vec<Step>)
    ensures
        steps@ == large_batch_operations_after_filters_steps(),
{
    vec![
        sync(note0("Sync after batch 2 failed: {}")),
    ]
}

/// One round of the dedups of [`test_large_batch_operations`].
pub open spec fn large_batch_operations_dedups_round(i: u64) -> Seq<Step> {
    seq![
        fill(1, num(5000), modulo(ix(), plus(num(100), times(num(i), num(10))))),
        fill(2, num(5000), ix()),
        upload_table(
            1,
            Layout::KeyVal,
            1,
            note1("Batch 3 iter {}: create buffer failed: {}", num(i)),
        ),
        dedup(1, 2, note1("Batch 3 iter {}: dedup failed: {}", num(i))),
        match_rows(
            2,
            plus(num(100), times(num(i), num(10))),
            note3(
                "Batch 3 iter {}: expected {} unique, got {}",
                num(i),
                plus(num(100), times(num(i), num(10))),
                reg(COUNT),
            ),
        ),
        release(1),
    ]
}

/// Writes one round of the dedups of [`test_large_batch_operations`].
fn large_batch_operations_dedups(i: u64) -> (steps: Vec<Step>)
    requires
        i < 50,
    ensures
        steps@ == large_batch_operations_dedups_round(i),
{
    vec![
        fill(1, num(5000), modulo(ix(), plus(num(100), times(num(i), num(10))))),
        fill(2, num(5000), ix()),
        upload_table(
            1,
            Layout::KeyVal,
            1,
            note1("Batch 3 iter {}: create buffer failed: {}", num(i)),
        ),
        dedup(1, 2, note1("Batch 3 iter {}: dedup failed: {}", num(i))),
        match_rows(
            2,
            plus(num(100), times(num(i), num(10))),
            note3(
                "Batch 3 iter {}: expected {} unique, got {}",
                num(i),
                plus(num(100), times(num(i), num(10))),
                reg(COUNT),
            ),
        ),
        release(1),
    ]
}

/// The after dedups of [`test_large_batch_operations`].
pub open spec fn large_batch_operations_after_dedups_steps() -> Seq<Step> {
    seq![
        sync(note0("Sync after batch 3 failed: {}")),
    ]
}

/// Writes the after dedups of [`test_large_batch_operations`].
fn large_batch_operations_after_dedups() -> (steps: Vec<Step>)
    ensures
        steps@ == large_batch_operations_after_dedups_steps(),
{
    vec![
        sync(note0("Sync after batch 3 failed: {}")),
    ]
}

/// One round of the joins of [`test_large_batch_operations`].
pub open spec fn large_batch_operations_joins_round(i: u64) -> Seq<Step> {
    seq![
        fill(1, num(500), ix()),
        fill(2, num(500), plus(here(1), times(num(i), num(1000)))),
        fill(3, num(300), times(ix(), num(2))),
        fill(4, num(300), times(here(3), num(10))),
        upload_table(
            1,
            Layout::KeyLval,
            1,
            note1("Batch 4 iter {}: create left buffer failed: {}", num(i)),
        ),
        upload_table(
            2,
            Layout::KeyRval,
            3,
            note1("Batch 4 iter {}: create right buffer failed: {}", num(i)),
        ),
        join(1, 2, 3, note1("Batch 4 iter {}: join failed: {}", num(i))),
        match_rows(
            3,
            num(250),
            note3(
                "Batch 4 iter {}: join returned {} rows, expected {}",
                num(i),
                reg(COUNT),
                num(250),
            ),
        ),
        release(1),
    ]
}

/// Writes one round of the joins of [`test_large_batch_operations`].
fn large_batch_operations_joins(i: u64) -> (steps: Vec<Step>)
    requires
        i < 25,
    ensures
        steps@ == large_batch_operations_joins_round(i),
{
    vec![
        fill(1, num(500), ix()),
        fill(2, num(500), plus(here(1), times(num(i), num(1000)))),
        fill(3, num(300), times(ix(), num(2))),
        fill(4, num(300), times(here(3), num(10))),
        upload_table(
            1,
            Layout::KeyLval,
            1,
            note1("Batch 4 iter {}: create left buffer failed: {}", num(i)),
        ),
        upload_table(
            2,
            Layout::KeyRval,
            3,
            note1("Batch 4 iter {}: create right buffer failed: {}", num(i)),
        ),
        join(1, 2, 3, note1("Batch 4 iter {}: join failed: {}", num(i))),
        match_rows(
            3,
            num(250),
            note3(
                "Batch 4 iter {}: join returned {} rows, expected {}",
                num(i),
                reg(COUNT),
                num(250),
            ),
        ),
        release(1),
    ]
}

/// The end of [`test_large_batch_operations`].
pub open spec fn large_batch_operations_end_steps() -> Seq<Step> {
    seq![
        sync(note0("Final sync failed: {}")),
    ]
}

/// Writes the end of [`test_large_batch_operations`].
fn large_batch_operations_end() -> (steps: Vec<Step>)
    ensures
        steps@ == large_batch_operations_end_steps(),
{
    vec![
        sync(note0("Final sync failed: {}")),
    ]
}

/// The steps of [`test_large_batch_operations`].
pub open spec fn large_batch_operations_steps() -> Seq<Step> {
    crate::script::rounds(100, |i: int| large_batch_operations_sorts_round(i as u64))
        + large_batch_operations_filter_source_steps()
        + crate::script::rounds(100, |i: int| large_batch_operations_filters_round(i as u64))
        + large_batch_operations_after_filters_steps()
        + crate::script::rounds(50, |i: int| large_batch_operations_dedups_round(i as u64))
        + large_batch_operations_after_dedups_steps()
        + crate::script::rounds(25, |i: int| large_batch_operations_joins_round(i as u64))
        + large_batch_operations_end_steps()
}

/// Batches of sorts, filters, duplicate removals and joins.
pub fn test_large_batch_operations() -> (script: Script)
    ensures
        script@ == crate::script::plan(
            "test_large_batch_operations",
            large_batch_operations_steps(),
        ),
{
    let mut steps: Vec<Step> = Vec::new();
    let mut i: u64 = 0;
    while i < 100
        invariant
            i <= 100,
            steps@ == crate::script::rounds(
                i as int,
                |i: int| large_batch_operations_sorts_round(i as u64),
            ),
        decreases 100 - i,
    {
        let mut round = large_batch_operations_sorts(i);
        steps.append(&mut round);
        i = i + 1;
    }
    let mut more = large_batch_operations_filter_source();
    steps.append(&mut more);
    i = 0;
    let ghost before = steps@;
    while i < 100
        invariant
            i <= 100,
            steps@ == before + crate::script::rounds(
                i as int,
                |i: int| large_batch_operations_filters_round(i as u64),
            ),
        decreases 100 - i,
    {
        let mut round = large_batch_operations_filters(i);
        steps.append(&mut round);
        i = i + 1;
    }
    let mut more = large_batch_operations_after_filters();
    steps.append(&mut more);
    i = 0;
    let ghost before = steps@;
    while i < 50
        invariant
            i <= 50,
            steps@ == before + crate::script::rounds(
                i as int,
                |i: int| large_batch_operations_dedups_round(i as u64),
            ),
        decreases 50 - i,
    {
        let mut round = large_batch_operations_dedups(i);
        steps.append(&mut round);
        i = i + 1;
    }
    let mut more = large_batch_operations_after_dedups();
    steps.append(&mut more);
    i = 0;
    let ghost before = steps@;
    while i < 25
        invariant
            i <= 25,
            steps@ == before + crate::script::rounds(
                i as int,
                |i: int| large_batch_operations_joins_round(i as u64),
            ),
        decreases 25 - i,
    {
        let mut round = large_batch_operations_joins(i);
        steps.append(&mut round);
        i = i + 1;
    }
    let mut more = large_batch_operations_end();
    steps.append(&mut more);
    Script::new("test_large_batch_operations", steps)
}

/// The tests of the category.
pub open spec fn tests() -> Seq<Plan> {
    seq![
        crate::script::plan("test_sequential_operations", sequential_operations_steps()),
        crate::script::plan("test_operation_dependencies", operation_dependencies_steps()),
        crate::script::plan("test_sync_between_operations", sync_between_operations_steps()),
        crate::script::plan("test_error_propagation", error_propagation_steps()),
        crate::script::plan("test_large_batch_operations", large_batch_operations_steps()),
    ]
}

/// Lists the tests of the category, in the order in which they run.
pub fn run_all() -> (category: CategoryRun)
    ensures
        category.title() == "c16_async_pipeline",
        category.waiting() == tests(),
        category.test() is None,
        category.run() is None,
        category.done() == Seq::<Outcome>::empty(),
{
    let scripts: Vec<Script> = vec![
        test_sequential_operations(),
        test_operation_dependencies(),
        test_sync_between_operations(),
        test_error_propagation(),
        test_large_batch_operations(),
    ];
    let category = CategoryRun::new("c16_async_pipeline", scripts);
    assert(category.waiting() =~= tests());
    category
}

} // verus!
