//! Hardware: error detection, recovery, stress, memory pressure and sustained operation.

use vstd::prelude::*;
use crate::expr::{
    alike, and, before, differs, here, ix, least, len, less_or_zero, lt, modulo, not, num, or, over,
    plus, reg, same_as, times,
};
use crate::harness::{CategoryRun, Outcome};
use crate::message::{Arg, list, note0, note1, note2, note3, remark1, remark2, val};
use crate::scalar::Scalar;
use crate::script::{
    attempt, budget, check, COUNT, deadline, dedup, elapsed, fault1, fetch, fill, filter, join,
    Layout, match_rows, only, Otherwise, Plan, put, release, Request, rows, scan, Script, skip,
    sort, sort_column, Step, sync, tick, upload, upload_table,
};

verus! {

/// The column of [`test_error_detection`].
pub open spec fn error_detection_column_steps() -> Seq<Step> {
    seq![
        fill(0, num(10000), ix()),
        upload(0, 0, note0("Buffer creation failed: {}")),
        sort(0, 1, note0("Sort failed: {}")),
        sync(note0("sync_and_check failed for valid operation: {}")),
        fetch(1, 1, note0("Download failed: {}")),
        scan(
            num(0),
            len(1),
            1,
            fault1(
                differs(here(1), ix()),
                note3("Result incorrect at index {}: expected {}, got {}", ix(), ix(), here(1)),
            ),
        ),
    ]
}

/// Writes the column of [`test_error_detection`].
fn error_detection_column() -> (steps: Vec<Step>)
    ensures
        steps@ == error_detection_column_steps(),
{
    vec![
        fill(0, num(10000), ix()),
        upload(0, 0, note0("Buffer creation failed: {}")),
        sort(0, 1, note0("Sort failed: {}")),
        sync(note0("sync_and_check failed for valid operation: {}")),
        fetch(1, 1, note0("Download failed: {}")),
        scan(
            num(0),
            len(1),
            1,
            fault1(
                differs(here(1), ix()),
                note3("Result incorrect at index {}: expected {}, got {}", ix(), ix(), here(1)),
            ),
        ),
    ]
}

/// One round of the checks of [`test_error_detection`].
pub open spec fn error_detection_checks_round(i: u64) -> Seq<Step> {
    seq![
        fill(2, num(1000), plus(ix(), times(num(i), num(1000)))),
        upload(2, 2, note1("Check {} buffer creation failed: {}", num(i))),
        sort(2, 3, note1("Check {} sort failed: {}", num(i))),
        sync(note1("Check {} sync_and_check failed: {}", num(i))),
        release(2),
    ]
}

/// Writes one round of the checks of [`test_error_detection`].
fn error_detection_checks(i: u64) -> (steps: Vec<Step>)
    requires
        i < 5,
    ensures
        steps@ == error_detection_checks_round(i),
{
    vec![
        fill(2, num(1000), plus(ix(), times(num(i), num(1000)))),
        upload(2, 2, note1("Check {} buffer creation failed: {}", num(i))),
        sort(2, 3, note1("Check {} sort failed: {}", num(i))),
        sync(note1("Check {} sync_and_check failed: {}", num(i))),
        release(2),
    ]
}

/// The edges of [`test_error_detection`].
pub open spec fn error_detection_edges_steps() -> Seq<Step> {
    seq![
        fill(3, num(0), num(0)),
        upload(2, 3, note0("Empty buffer creation failed: {}")),
        sort(2, 3, note0("Empty sort failed: {}")),
        sync(note0("sync_and_check failed for empty operation: {}")),
        fill(4, num(1), num(42)),
        upload(4, 4, note0("Single buffer creation failed: {}")),
        sort(4, 5, note0("Single sort failed: {}")),
        sync(note0("sync_and_check failed for single element: {}")),
        fetch(5, 5, note0("Single download failed: {}")),
        check(not(alike(5, 4)), remark1("Single result incorrect: {}", list(5, Scalar::U32))),
        sync(note0("Final sync failed: {}")),
    ]
}

/// Writes the edges of [`test_error_detection`].
fn error_detection_edges() -> (steps: Vec<Step>)
    ensures
        steps@ == error_detection_edges_steps(),
{
    vec![
        fill(3, num(0), num(0)),
        upload(2, 3, note0("Empty buffer creation failed: {}")),
        sort(2, 3, note0("Empty sort failed: {}")),
        sync(note0("sync_and_check failed for empty operation: {}")),
        fill(4, num(1), num(42)),
        upload(4, 4, note0("Single buffer creation failed: {}")),
        sort(4, 5, note0("Single sort failed: {}")),
        sync(note0("sync_and_check failed for single element: {}")),
        fetch(5, 5, note0("Single download failed: {}")),
        check(not(alike(5, 4)), remark1("Single result incorrect: {}", list(5, Scalar::U32))),
        sync(note0("Final sync failed: {}")),
    ]
}

/// The steps of [`test_error_detection`].
pub open spec fn error_detection_steps() -> Seq<Step> {
    error_detection_column_steps()
        + crate::script::rounds(5, |i: int| error_detection_checks_round(i as u64))
        + error_detection_edges_steps()
}

/// Synchronisation reports no fault where there is none.
pub fn test_error_detection() -> (script: Script)
    ensures
        script@ == crate::script::plan("test_error_detection", error_detection_steps()),
{
    let mut steps: Vec<Step> = error_detection_column();
    let mut i: u64 = 0;
    let ghost before = steps@;
    while i < 5
        invariant
            i <= 5,
            steps@ == before + crate::script::rounds(
                i as int,
                |i: int| error_detection_checks_round(i as u64),
            ),
        decreases 5 - i,
    {
        let mut round = error_detection_checks(i);
        steps.append(&mut round);
        i = i + 1;
    }
    let mut more = error_detection_edges();
    steps.append(&mut more);
    Script::new("test_error_detection", steps)
}

/// The recovery of [`test_recovery_after_error`].
pub open spec fn recovery_after_error_recovery_steps() -> Seq<Step> {
    seq![
        fill(0, num(5000), ix()),
        upload(0, 0, note0("Buffer1 creation failed: {}")),
        sort(0, 1, note0("Sort1 failed: {}")),
        sync(note0("Sync1 failed: {}")),
        fill(1, num(5), plus(ix(), num(1))),
        upload(2, 1, note0("Edge buffer creation failed: {}")),
        fill(2, num(3), modulo(plus(ix(), num(1)), num(2))),
        attempt(Request::Filter { of: 2, mask: 2, into: 3 }, Otherwise::Go),
        attempt(Request::Sync, Otherwise::Go),
        fill(3, num(10000), ix()),
        upload(4, 3, note0("Recovery buffer creation failed: {}")),
        sort(4, 5, note0("Recovery sort failed: {}")),
        sync(note0("Recovery sync failed: {}")),
        fetch(5, 4, note0("Recovery download failed: {}")),
        scan(
            num(0),
            len(4),
            1,
            fault1(
                differs(here(4), ix()),
                note3(
                    "Recovery result incorrect at {}: expected {}, got {}",
                    ix(),
                    ix(),
                    here(4),
                ),
            ),
        ),
    ]
}

/// Writes the recovery of [`test_recovery_after_error`].
fn recovery_after_error_recovery() -> (steps: Vec<Step>)
    ensures
        steps@ == recovery_after_error_recovery_steps(),
{
    vec![
        fill(0, num(5000), ix()),
        upload(0, 0, note0("Buffer1 creation failed: {}")),
        sort(0, 1, note0("Sort1 failed: {}")),
        sync(note0("Sync1 failed: {}")),
        fill(1, num(5), plus(ix(), num(1))),
        upload(2, 1, note0("Edge buffer creation failed: {}")),
        fill(2, num(3), modulo(plus(ix(), num(1)), num(2))),
        attempt(Request::Filter { of: 2, mask: 2, into: 3 }, Otherwise::Go),
        attempt(Request::Sync, Otherwise::Go),
        fill(3, num(10000), ix()),
        upload(4, 3, note0("Recovery buffer creation failed: {}")),
        sort(4, 5, note0("Recovery sort failed: {}")),
        sync(note0("Recovery sync failed: {}")),
        fetch(5, 4, note0("Recovery download failed: {}")),
        scan(
            num(0),
            len(4),
            1,
            fault1(
                differs(here(4), ix()),
                note3(
                    "Recovery result incorrect at {}: expected {}, got {}",
                    ix(),
                    ix(),
                    here(4),
                ),
            ),
        ),
    ]
}

/// One round of the cycles of [`test_recovery_after_error`].
pub open spec fn recovery_after_error_cycles_round(i: u64) -> Seq<Step> {
    seq![
        fill(5, num(1000), plus(ix(), times(num(i), num(1000)))),
        upload(6, 5, note1("Cycle {} valid buffer failed: {}", num(i))),
        sort(6, 7, note1("Cycle {} valid sort failed: {}", num(i))),
        sync(note1("Cycle {} valid sync failed: {}", num(i))),
        fetch(7, 6, note1("Cycle {} valid download failed: {}", num(i))),
        check(
            differs(len(6), num(1000)),
            note2("Cycle {}: expected 1000 rows, got {}", num(i), len(6)),
        ),
        release(6),
    ]
}

/// Writes one round of the cycles of [`test_recovery_after_error`].
fn recovery_after_error_cycles(i: u64) -> (steps: Vec<Step>)
    requires
        i < 3,
    ensures
        steps@ == recovery_after_error_cycles_round(i),
{
    vec![
        fill(5, num(1000), plus(ix(), times(num(i), num(1000)))),
        upload(6, 5, note1("Cycle {} valid buffer failed: {}", num(i))),
        sort(6, 7, note1("Cycle {} valid sort failed: {}", num(i))),
        sync(note1("Cycle {} valid sync failed: {}", num(i))),
        fetch(7, 6, note1("Cycle {} valid download failed: {}", num(i))),
        check(
            differs(len(6), num(1000)),
            note2("Cycle {}: expected 1000 rows, got {}", num(i), len(6)),
        ),
        release(6),
    ]
}

/// The end of [`test_recovery_after_error`].
pub open spec fn recovery_after_error_end_steps() -> Seq<Step> {
    seq![
        fetch(1, 7, note0("Previous result download failed: {}")),
        scan(
            num(0),
            len(7),
            1,
            fault1(
                differs(here(7), ix()),
                note3(
                    "Previous result corrupted at {}: expected {}, got {}",
                    ix(),
                    ix(),
                    here(7),
                ),
            ),
        ),
        sync(note0("Final sync failed: {}")),
    ]
}

/// Writes the end of [`test_recovery_after_error`].
fn recovery_after_error_end() -> (steps: Vec<Step>)
    ensures
        steps@ == recovery_after_error_end_steps(),
{
    vec![
        fetch(1, 7, note0("Previous result download failed: {}")),
        scan(
            num(0),
            len(7),
            1,
            fault1(
                differs(here(7), ix()),
                note3(
                    "Previous result corrupted at {}: expected {}, got {}",
                    ix(),
                    ix(),
                    here(7),
                ),
            ),
        ),
        sync(note0("Final sync failed: {}")),
    ]
}

/// The steps of [`test_recovery_after_error`].
pub open spec fn recovery_after_error_steps() -> Seq<Step> {
    recovery_after_error_recovery_steps()
        + crate::script::rounds(3, |i: int| recovery_after_error_cycles_round(i as u64))
        + recovery_after_error_end_steps()
}

/// After an operation that may be refused, the device goes on working.
pub fn test_recovery_after_error() -> (script: Script)
    ensures
        script@ == crate::script::plan("test_recovery_after_error", recovery_after_error_steps()),
{
    let mut steps: Vec<Step> = recovery_after_error_recovery();
    let mut i: u64 = 0;
    let ghost before = steps@;
    while i < 3
        invariant
            i <= 3,
            steps@ == before + crate::script::rounds(
                i as int,
                |i: int| recovery_after_error_cycles_round(i as u64),
            ),
        decreases 3 - i,
    {
        let mut round = recovery_after_error_cycles(i);
        steps.append(&mut round);
        i = i + 1;
    }
    let mut more = recovery_after_error_end();
    steps.append(&mut more);
    Script::new("test_recovery_after_error", steps)
}

/// One round of the sorts of [`test_stress_operations`].
pub open spec fn stress_operations_sorts_round(i: u64) -> Seq<Step> {
    seq![
        fill(
            0,
            num(10000),
            modulo(
                plus(times(times(ix(), plus(num(i), num(1))), num(1103515245)), num(12345)),
                num(10000),
            ),
        ),
        upload(0, 0, note1("Stress sort {}: buffer creation failed: {}", num(i))),
        sort(0, 1, note1("Stress sort {}: sort failed: {}", num(i))),
        only(
            same_as(modulo(num(i), num(20)), num(0)),
            fetch(1, 1, note1("Stress sort {}: download failed: {}", num(i))),
        ),
        only(
            same_as(modulo(num(i), num(20)), num(0)),
            scan(
                num(1),
                len(1),
                1,
                fault1(
                    lt(here(1), before(1)),
                    note2("Stress sort {}: incorrect at index {}", num(i), ix()),
                ),
            ),
        ),
        only(
            same_as(modulo(num(i), num(20)), num(0)),
            sync(note1("Stress sort {}: sync failed: {}", num(i))),
        ),
        release(0),
    ]
}

/// Writes one round of the sorts of [`test_stress_operations`].
fn stress_operations_sorts(i: u64) -> (steps: Vec<Step>)
    requires
        i < 200,
    ensures
        steps@ == stress_operations_sorts_round(i),
{
    vec![
        fill(
            0,
            num(10000),
            modulo(
                plus(times(times(ix(), plus(num(i), num(1))), num(1103515245)), num(12345)),
                num(10000),
            ),
        ),
        upload(0, 0, note1("Stress sort {}: buffer creation failed: {}", num(i))),
        sort(0, 1, note1("Stress sort {}: sort failed: {}", num(i))),
        only(
            same_as(modulo(num(i), num(20)), num(0)),
            fetch(1, 1, note1("Stress sort {}: download failed: {}", num(i))),
        ),
        only(
            same_as(modulo(num(i), num(20)), num(0)),
            scan(
                num(1),
                len(1),
                1,
                fault1(
                    lt(here(1), before(1)),
                    note2("Stress sort {}: incorrect at index {}", num(i), ix()),
                ),
            ),
        ),
        only(
            same_as(modulo(num(i), num(20)), num(0)),
            sync(note1("Stress sort {}: sync failed: {}", num(i))),
        ),
        release(0),
    ]
}

/// The filter source of [`test_stress_operations`].
pub open spec fn stress_operations_filter_source_steps() -> Seq<Step> {
    seq![
        fill(0, num(10000), ix()),
        upload(0, 0, note0("Filter buffer creation failed: {}")),
    ]
}

/// Writes the filter source of [`test_stress_operations`].
fn stress_operations_filter_source() -> (steps: Vec<Step>)
    ensures
        steps@ == stress_operations_filter_source_steps(),
{
    vec![
        fill(0, num(10000), ix()),
        upload(0, 0, note0("Filter buffer creation failed: {}")),
    ]
}

/// One round of the filters of [`test_stress_operations`].
pub open spec fn stress_operations_filters_round(i: u64) -> Seq<Step> {
    seq![
        put(0, times(plus(modulo(num(i), num(10)), num(1)), num(10))),
        fill(1, num(10000), lt(over(times(ix(), num(100)), num(10000)), reg(0))),
        filter(0, 1, 1, note1("Stress filter {}: failed: {}", num(i))),
        only(
            same_as(modulo(num(i), num(20)), num(0)),
            put(1, over(times(num(10000), reg(0)), num(100))),
        ),
        only(same_as(modulo(num(i), num(20)), num(0)), rows(1, 2)),
        only(
            same_as(modulo(num(i), num(20)), num(0)),
            check(
                or(
                    lt(reg(2), less_or_zero(reg(1), num(500))),
                    lt(plus(plus(reg(1), num(500)), num(1)), reg(2)),
                ),
                note3("Stress filter {}: got {} rows, expected ~{}", num(i), reg(2), reg(1)),
            ),
        ),
        only(
            same_as(modulo(num(i), num(20)), num(0)),
            sync(note1("Stress filter {}: sync failed: {}", num(i))),
        ),
        release(1),
    ]
}

/// Writes one round of the filters of [`test_stress_operations`].
fn stress_operations_filters(i: u64) -> (steps: Vec<Step>)
    requires
        i < 200,
    ensures
        steps@ == stress_operations_filters_round(i),
{
    vec![
        put(0, times(plus(modulo(num(i), num(10)), num(1)), num(10))),
        fill(1, num(10000), lt(over(times(ix(), num(100)), num(10000)), reg(0))),
        filter(0, 1, 1, note1("Stress filter {}: failed: {}", num(i))),
        only(
            same_as(modulo(num(i), num(20)), num(0)),
            put(1, over(times(num(10000), reg(0)), num(100))),
        ),
        only(same_as(modulo(num(i), num(20)), num(0)), rows(1, 2)),
        only(
            same_as(modulo(num(i), num(20)), num(0)),
            check(
                or(
                    lt(reg(2), less_or_zero(reg(1), num(500))),
                    lt(plus(plus(reg(1), num(500)), num(1)), reg(2)),
                ),
                note3("Stress filter {}: got {} rows, expected ~{}", num(i), reg(2), reg(1)),
            ),
        ),
        only(
            same_as(modulo(num(i), num(20)), num(0)),
            sync(note1("Stress filter {}: sync failed: {}", num(i))),
        ),
        release(1),
    ]
}

/// One round of the dedups of [`test_stress_operations`].
pub open spec fn stress_operations_dedups_round(i: u64) -> Seq<Step> {
    seq![
        fill(2, num(10000), modulo(ix(), num(100))),
        fill(3, num(10000), ix()),
        upload_table(
            1,
            Layout::KeyVal,
            2,
            note1("Stress dedup {}: buffer creation failed: {}", num(i)),
        ),
        dedup(1, 2, note1("Stress dedup {}: failed: {}", num(i))),
        match_rows(
            2,
            num(100),
            note2("Stress dedup {}: expected 100, got {}", num(i), reg(COUNT)),
        ),
        only(
            same_as(modulo(num(i), num(20)), num(0)),
            sync(note1("Stress dedup {}: sync failed: {}", num(i))),
        ),
        release(1),
    ]
}

/// Writes one round of the dedups of [`test_stress_operations`].
fn stress_operations_dedups(i: u64) -> (steps: Vec<Step>)
    requires
        i < 100,
    ensures
        steps@ == stress_operations_dedups_round(i),
{
    vec![
        fill(2, num(10000), modulo(ix(), num(100))),
        fill(3, num(10000), ix()),
        upload_table(
            1,
            Layout::KeyVal,
            2,
            note1("Stress dedup {}: buffer creation failed: {}", num(i)),
        ),
        dedup(1, 2, note1("Stress dedup {}: failed: {}", num(i))),
        match_rows(
            2,
            num(100),
            note2("Stress dedup {}: expected 100, got {}", num(i), reg(COUNT)),
        ),
        only(
            same_as(modulo(num(i), num(20)), num(0)),
            sync(note1("Stress dedup {}: sync failed: {}", num(i))),
        ),
        release(1),
    ]
}

/// The end of [`test_stress_operations`].
pub open spec fn stress_operations_end_steps() -> Seq<Step> {
    seq![
        sync(note0("Final stress sync failed: {}")),
    ]
}

/// Writes the end of [`test_stress_operations`].
fn stress_operations_end() -> (steps: Vec<Step>)
    ensures
        steps@ == stress_operations_end_steps(),
{
    vec![
        sync(note0("Final stress sync failed: {}")),
    ]
}

/// The steps of [`test_stress_operations`].
pub open spec fn stress_operations_steps() -> Seq<Step> {
    crate::script::rounds(200, |i: int| stress_operations_sorts_round(i as u64))
        + stress_operations_filter_source_steps()
        + crate::script::rounds(200, |i: int| stress_operations_filters_round(i as u64))
        + crate::script::rounds(100, |i: int| stress_operations_dedups_round(i as u64))
        + stress_operations_end_steps()
}

/// Hundreds of sorts, filters and duplicate removals.
pub fn test_stress_operations() -> (script: Script)
    ensures
        script@ == crate::script::plan("test_stress_operations", stress_operations_steps()),
{
    let mut steps: Vec<Step> = Vec::new();
    let mut i: u64 = 0;
    while i < 200
        invariant
            i <= 200,
            steps@ == crate::script::rounds(
                i as int,
                |i: int| stress_operations_sorts_round(i as u64),
            ),
        decreases 200 - i,
    {
        let mut round = stress_operations_sorts(i);
        steps.append(&mut round);
        i = i + 1;
    }
    let mut more = stress_operations_filter_source();
    steps.append(&mut more);
    i = 0;
    let ghost before = steps@;
    while i < 200
        invariant
            i <= 200,
            steps@ == before + crate::script::rounds(
                i as int,
                |i: int| stress_operations_filters_round(i as u64),
            ),
        decreases 200 - i,
    {
        let mut round = stress_operations_filters(i);
        steps.append(&mut round);
        i = i + 1;
    }
    i = 0;
    let ghost before = steps@;
    while i < 100
        invariant
            i <= 100,
            steps@ == before + crate::script::rounds(
                i as int,
                |i: int| stress_operations_dedups_round(i as u64),
            ),
        decreases 100 - i,
    {
        let mut round = stress_operations_dedups(i);
        steps.append(&mut round);
        i = i + 1;
    }
    let mut more = stress_operations_end();
    steps.append(&mut more);
    Script::new("test_stress_operations", steps)
}

/// The start of [`test_memory_pressure`].
pub open spec fn memory_pressure_start_steps() -> Seq<Step> {
    seq![
        budget(0),
        put(1, least(over(over(reg(0), num(20)), num(4)), num(5000000))),
        skip(lt(reg(1), num(1000)), "Memory budget too small for pressure test"),
        put(2, num(0)),
    ]
}

/// Writes the start of [`test_memory_pressure`].
fn memory_pressure_start() -> (steps: Vec<Step>)
    ensures
        steps@ == memory_pressure_start_steps(),
{
    vec![
        budget(0),
        put(1, least(over(over(reg(0), num(20)), num(4)), num(5000000))),
        skip(lt(reg(1), num(1000)), "Memory budget too small for pressure test"),
        put(2, num(0)),
    ]
}

/// One round of the allocations of [`test_memory_pressure`].
pub open spec fn memory_pressure_allocations_round(i: u64) -> Seq<Step> {
    seq![
        fill(0, reg(1), modulo(plus(ix(), times(num(i), reg(1))), reg(1))),
        attempt(
            Request::Create { into: i, layout: Layout::Val, scalar: Scalar::U32, from: 0 },
            Otherwise::Leave { to: 19 },
        ),
        put(2, plus(reg(2), num(1))),
    ]
}

/// Writes one round of the allocations of [`test_memory_pressure`].
fn memory_pressure_allocations(i: u64) -> (steps: Vec<Step>)
    requires
        i < 5,
    ensures
        steps@ == memory_pressure_allocations_round(i),
{
    vec![
        fill(0, reg(1), modulo(plus(ix(), times(num(i), reg(1))), reg(1))),
        attempt(
            Request::Create { into: i, layout: Layout::Val, scalar: Scalar::U32, from: 0 },
            Otherwise::Leave { to: 19 },
        ),
        put(2, plus(reg(2), num(1))),
    ]
}

/// The allocated of [`test_memory_pressure`].
pub open spec fn memory_pressure_allocated_steps() -> Seq<Step> {
    seq![
        check(same_as(reg(2), num(0)), note0("Could not allocate any buffers")),
    ]
}

/// Writes the allocated of [`test_memory_pressure`].
fn memory_pressure_allocated() -> (steps: Vec<Step>)
    ensures
        steps@ == memory_pressure_allocated_steps(),
{
    vec![
        check(same_as(reg(2), num(0)), note0("Could not allocate any buffers")),
    ]
}

/// One round of the sorts of [`test_memory_pressure`].
pub open spec fn memory_pressure_sorts_round(i: u64) -> Seq<Step> {
    seq![
        only(
            lt(num(i), reg(2)),
            sort(i, 9, note1("Buffer {}: sort failed under pressure: {}", num(i))),
        ),
        only(
            lt(num(i), reg(2)),
            fetch(9, 1, note1("Buffer {}: download failed under pressure: {}", num(i))),
        ),
        only(
            lt(num(i), reg(2)),
            scan(
                num(1),
                len(1),
                10000,
                fault1(
                    lt(here(1), before(1)),
                    note2("Buffer {}: sort incorrect at index {}", num(i), ix()),
                ),
            ),
        ),
        only(lt(num(i), reg(2)), release(9)),
    ]
}

/// Writes one round of the sorts of [`test_memory_pressure`].
fn memory_pressure_sorts(i: u64) -> (steps: Vec<Step>)
    requires
        i < 5,
    ensures
        steps@ == memory_pressure_sorts_round(i),
{
    vec![
        only(
            lt(num(i), reg(2)),
            sort(i, 9, note1("Buffer {}: sort failed under pressure: {}", num(i))),
        ),
        only(
            lt(num(i), reg(2)),
            fetch(9, 1, note1("Buffer {}: download failed under pressure: {}", num(i))),
        ),
        only(
            lt(num(i), reg(2)),
            scan(
                num(1),
                len(1),
                10000,
                fault1(
                    lt(here(1), before(1)),
                    note2("Buffer {}: sort incorrect at index {}", num(i), ix()),
                ),
            ),
        ),
        only(lt(num(i), reg(2)), release(9)),
    ]
}

/// The between of [`test_memory_pressure`].
pub open spec fn memory_pressure_between_steps() -> Seq<Step> {
    seq![
        sync(note0("Sync under pressure failed: {}")),
    ]
}

/// Writes the between of [`test_memory_pressure`].
fn memory_pressure_between() -> (steps: Vec<Step>)
    ensures
        steps@ == memory_pressure_between_steps(),
{
    vec![
        sync(note0("Sync under pressure failed: {}")),
    ]
}

/// One round of the filters of [`test_memory_pressure`].
pub open spec fn memory_pressure_filters_round(i: u64) -> Seq<Step> {
    seq![
        only(lt(num(i), reg(2)), fill(2, reg(1), same_as(modulo(ix(), num(2)), num(0)))),
        only(
            lt(num(i), reg(2)),
            filter(i, 2, 9, note1("Buffer {}: filter failed under pressure: {}", num(i))),
        ),
        only(
            lt(num(i), reg(2)),
            match_rows(
                9,
                over(plus(reg(1), num(1)), num(2)),
                note3(
                    "Buffer {}: filter expected {} rows, got {}",
                    num(i),
                    over(plus(reg(1), num(1)), num(2)),
                    reg(COUNT),
                ),
            ),
        ),
        only(lt(num(i), reg(2)), release(9)),
    ]
}

/// Writes one round of the filters of [`test_memory_pressure`].
fn memory_pressure_filters(i: u64) -> (steps: Vec<Step>)
    requires
        i < 5,
    ensures
        steps@ == memory_pressure_filters_round(i),
{
    vec![
        only(lt(num(i), reg(2)), fill(2, reg(1), same_as(modulo(ix(), num(2)), num(0)))),
        only(
            lt(num(i), reg(2)),
            filter(i, 2, 9, note1("Buffer {}: filter failed under pressure: {}", num(i))),
        ),
        only(
            lt(num(i), reg(2)),
            match_rows(
                9,
                over(plus(reg(1), num(1)), num(2)),
                note3(
                    "Buffer {}: filter expected {} rows, got {}",
                    num(i),
                    over(plus(reg(1), num(1)), num(2)),
                    reg(COUNT),
                ),
            ),
        ),
        only(lt(num(i), reg(2)), release(9)),
    ]
}

/// The end of [`test_memory_pressure`].
pub open spec fn memory_pressure_end_steps() -> Seq<Step> {
    seq![
        release(0),
        sync(note0("Sync after release failed: {}")),
        fill(3, num(10000), ix()),
        upload(0, 3, note0("Fresh buffer after pressure failed: {}")),
        sort(0, 1, note0("Fresh sort after pressure failed: {}")),
        match_rows(
            1,
            num(10000),
            note1("Fresh result after pressure: expected 10000, got {}", reg(COUNT)),
        ),
        sync(note0("Final sync failed: {}")),
    ]
}

/// Writes the end of [`test_memory_pressure`].
fn memory_pressure_end() -> (steps: Vec<Step>)
    ensures
        steps@ == memory_pressure_end_steps(),
{
    vec![
        release(0),
        sync(note0("Sync after release failed: {}")),
        fill(3, num(10000), ix()),
        upload(0, 3, note0("Fresh buffer after pressure failed: {}")),
        sort(0, 1, note0("Fresh sort after pressure failed: {}")),
        match_rows(
            1,
            num(10000),
            note1("Fresh result after pressure: expected 10000, got {}", reg(COUNT)),
        ),
        sync(note0("Final sync failed: {}")),
    ]
}

/// The steps of [`test_memory_pressure`].
pub open spec fn memory_pressure_steps() -> Seq<Step> {
    memory_pressure_start_steps()
        + crate::script::rounds(5, |i: int| memory_pressure_allocations_round(i as u64))
        + memory_pressure_allocated_steps()
        + crate::script::rounds(5, |i: int| memory_pressure_sorts_round(i as u64))
        + memory_pressure_between_steps()
        + crate::script::rounds(5, |i: int| memory_pressure_filters_round(i as u64))
        + memory_pressure_end_steps()
}

/// As many buffers as fit are sorted and filtered under memory pressure.
///
/// An allocation that is refused ends the round of allocations, and only that.
pub fn test_memory_pressure() -> (script: Script)
    ensures
        script@ == crate::script::plan("test_memory_pressure", memory_pressure_steps()),
{
    let mut steps: Vec<Step> = memory_pressure_start();
    let mut i: u64 = 0;
    let ghost before = steps@;
    while i < 5
        invariant
            i <= 5,
            steps@ == before + crate::script::rounds(
                i as int,
                |i: int| memory_pressure_allocations_round(i as u64),
            ),
        decreases 5 - i,
    {
        let mut round = memory_pressure_allocations(i);
        steps.append(&mut round);
        i = i + 1;
    }
    let mut more = memory_pressure_allocated();
    steps.append(&mut more);
    i = 0;
    let ghost before = steps@;
    while i < 5
        invariant
            i <= 5,
            steps@ == before + crate::script::rounds(
                i as int,
                |i: int| memory_pressure_sorts_round(i as u64),
            ),
        decreases 5 - i,
    {
        let mut round = memory_pressure_sorts(i);
        steps.append(&mut round);
        i = i + 1;
    }
    let mut more = memory_pressure_between();
    steps.append(&mut more);
    i = 0;
    let ghost before = steps@;
    while i < 5
        invariant
            i <= 5,
            steps@ == before + crate::script::rounds(
                i as int,
                |i: int| memory_pressure_filters_round(i as u64),
            ),
        decreases 5 - i,
    {
        let mut round = memory_pressure_filters(i);
        steps.append(&mut round);
        i = i + 1;
    }
    let mut more = memory_pressure_end();
    steps.append(&mut more);
    Script::new("test_memory_pressure", steps)
}

/// The steps of [`test_sustained_operation`].
pub open spec fn sustained_operation_steps() -> Seq<Step> {
    seq![
        deadline(0, 5, true),
        fill(0, num(50000), modulo(plus(times(ix(), num(1103515245)), num(12345)), num(50000))),
        sort_column(1, 0, Scalar::U32),
        put(0, num(0)),
        put(1, num(0)),
        tick(0, 6, 15),
        attempt(
            Request::Create { into: 0, layout: Layout::Val, scalar: Scalar::U32, from: 0 },
            Otherwise::Jump { bump: 1, to: 13 },
        ),
        attempt(Request::Sort { of: 0, keys: 1, into: 1 }, Otherwise::Jump { bump: 1, to: 13 }),
        only(
            same_as(modulo(reg(0), num(10)), num(0)),
            attempt(
                Request::Download { of: 1, column: 0, scalar: Scalar::U32, into: 2 },
                Otherwise::Jump { bump: 1, to: 13 },
            ),
        ),
        only(and(same_as(modulo(reg(0), num(10)), num(0)), not(alike(2, 1))), elapsed()),
        only(
            same_as(modulo(reg(0), num(10)), num(0)),
            check(
                not(alike(2, 1)),
                remark2(
                    "Operation {} produced incorrect result after {}",
                    val(reg(0)),
                    Arg::Timing,
                ),
            ),
        ),
        only(
            same_as(modulo(reg(0), num(10)), num(0)),
            sync(note1("Sync failed at operation {}: {}", reg(0))),
        ),
        put(0, plus(reg(0), num(1))),
        release(0),
        tick(0, 6, 15),
        check(
            lt(reg(0), num(10)),
            note1("Too few operations completed: {} (expected >= 10)", reg(0)),
        ),
        check(
            lt(over(reg(0), num(100)), reg(1)),
            note2("High error rate: {}/{} operations failed", reg(1), reg(0)),
        ),
        fill(3, num(50000), ix()),
        upload(2, 3, note0("Sustained filter buffer failed: {}")),
        deadline(1, 2, false),
        put(2, num(0)),
        tick(1, 22, 31),
        put(3, times(plus(modulo(reg(2), num(10)), num(1)), num(10))),
        fill(4, num(50000), lt(over(times(ix(), num(100)), num(50000)), reg(3))),
        filter(2, 4, 3, note1("Sustained filter {} failed: {}", reg(2))),
        put(4, over(times(num(50000), reg(3)), num(100))),
        rows(3, 5),
        check(
            or(
                lt(reg(5), less_or_zero(reg(4), num(5000))),
                lt(plus(plus(reg(4), num(5000)), num(1)), reg(5)),
            ),
            note3("Sustained filter {}: got {} rows, expected ~{}", reg(2), reg(5), reg(4)),
        ),
        put(2, plus(reg(2), num(1))),
        release(3),
        tick(1, 22, 31),
        fill(5, num(1000), ix()),
        fill(6, num(1000), times(here(5), num(2))),
        fill(7, num(500), times(ix(), num(2))),
        fill(8, num(500), times(here(7), num(3))),
        upload_table(3, Layout::KeyVal, 5, note0("Sustained join left buffer failed: {}")),
        upload_table(4, Layout::KeyVal, 7, note0("Sustained join right buffer failed: {}")),
        deadline(2, 2, false),
        put(6, num(0)),
        tick(2, 40, 45),
        join(3, 4, 5, note1("Sustained join {} failed: {}", reg(6))),
        match_rows(
            5,
            num(500),
            note2("Sustained join {}: expected 500 rows, got {}", reg(6), reg(COUNT)),
        ),
        put(6, plus(reg(6), num(1))),
        release(5),
        tick(2, 40, 45),
        sync(note0("Final sustained sync failed: {}")),
    ]
}

/// Sorts, filters and joins, each for some seconds on end.
///
/// A sort that is refused is counted; more than one in a hundred is a failure.
pub fn test_sustained_operation() -> (script: Script)
    ensures
        script@ == crate::script::plan("test_sustained_operation", sustained_operation_steps()),
{
    let steps: Vec<Step> = vec![
        deadline(0, 5, true),
        fill(0, num(50000), modulo(plus(times(ix(), num(1103515245)), num(12345)), num(50000))),
        sort_column(1, 0, Scalar::U32),
        put(0, num(0)),
        put(1, num(0)),
        tick(0, 6, 15),
        attempt(
            Request::Create { into: 0, layout: Layout::Val, scalar: Scalar::U32, from: 0 },
            Otherwise::Jump { bump: 1, to: 13 },
        ),
        attempt(Request::Sort { of: 0, keys: 1, into: 1 }, Otherwise::Jump { bump: 1, to: 13 }),
        only(
            same_as(modulo(reg(0), num(10)), num(0)),
            attempt(
                Request::Download { of: 1, column: 0, scalar: Scalar::U32, into: 2 },
                Otherwise::Jump { bump: 1, to: 13 },
            ),
        ),
        only(and(same_as(modulo(reg(0), num(10)), num(0)), not(alike(2, 1))), elapsed()),
        only(
            same_as(modulo(reg(0), num(10)), num(0)),
            check(
                not(alike(2, 1)),
                remark2(
                    "Operation {} produced incorrect result after {}",
                    val(reg(0)),
                    Arg::Timing,
                ),
            ),
        ),
        only(
            same_as(modulo(reg(0), num(10)), num(0)),
            sync(note1("Sync failed at operation {}: {}", reg(0))),
        ),
        put(0, plus(reg(0), num(1))),
        release(0),
        tick(0, 6, 15),
        check(
            lt(reg(0), num(10)),
            note1("Too few operations completed: {} (expected >= 10)", reg(0)),
        ),
        check(
            lt(over(reg(0), num(100)), reg(1)),
            note2("High error rate: {}/{} operations failed", reg(1), reg(0)),
        ),
        fill(3, num(50000), ix()),
        upload(2, 3, note0("Sustained filter buffer failed: {}")),
        deadline(1, 2, false),
        put(2, num(0)),
        tick(1, 22, 31),
        put(3, times(plus(modulo(reg(2), num(10)), num(1)), num(10))),
        fill(4, num(50000), lt(over(times(ix(), num(100)), num(50000)), reg(3))),
        filter(2, 4, 3, note1("Sustained filter {} failed: {}", reg(2))),
        put(4, over(times(num(50000), reg(3)), num(100))),
        rows(3, 5),
        check(
            or(
                lt(reg(5), less_or_zero(reg(4), num(5000))),
                lt(plus(plus(reg(4), num(5000)), num(1)), reg(5)),
            ),
            note3("Sustained filter {}: got {} rows, expected ~{}", reg(2), reg(5), reg(4)),
        ),
        put(2, plus(reg(2), num(1))),
        release(3),
        tick(1, 22, 31),
        fill(5, num(1000), ix()),
        fill(6, num(1000), times(here(5), num(2))),
        fill(7, num(500), times(ix(), num(2))),
        fill(8, num(500), times(here(7), num(3))),
        upload_table(3, Layout::KeyVal, 5, note0("Sustained join left buffer failed: {}")),
        upload_table(4, Layout::KeyVal, 7, note0("Sustained join right buffer failed: {}")),
        deadline(2, 2, false),
        put(6, num(0)),
        tick(2, 40, 45),
        join(3, 4, 5, note1("Sustained join {} failed: {}", reg(6))),
        match_rows(
            5,
            num(500),
            note2("Sustained join {}: expected 500 rows, got {}", reg(6), reg(COUNT)),
        ),
        put(6, plus(reg(6), num(1))),
        release(5),
        tick(2, 40, 45),
        sync(note0("Final sustained sync failed: {}")),
    ];
    Script::new("test_sustained_operation", steps)
}

/// The tests of the category.
pub open spec fn tests() -> Seq<Plan> {
    seq![
        crate::script::plan("test_error_detection", error_detection_steps()),
        crate::script::plan("test_recovery_after_error", recovery_after_error_steps()),
        crate::script::plan("test_stress_operations", stress_operations_steps()),
        crate::script::plan("test_memory_pressure", memory_pressure_steps()),
        crate::script::plan("test_sustained_operation", sustained_operation_steps()),
    ]
}

/// Lists the tests of the category, in the order in which they run.
pub fn run_all() -> (category: CategoryRun)
    ensures
        category.title() == "c21_hardware",
        category.waiting() == tests(),
        category.test() is None,
        category.run() is None,
        category.done() == Seq::<Outcome>::empty(),
{
    let scripts: Vec<Script> = vec![
        test_error_detection(),
        test_recovery_after_error(),
        test_stress_operations(),
        test_memory_pressure(),
        test_sustained_operation(),
    ];
    let category = CategoryRun::new("c21_hardware", scripts);
    assert(category.waiting() =~= tests());
    category
}

} // verus!
