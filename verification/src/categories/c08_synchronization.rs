//! Synchronisation: joins, scans, barriers and atomic marks.

use vstd::prelude::*;
use crate::expr::{
    alike, alike_sets, and, at, before, differs, distinct_in, here, ix, len, lt, minus, modulo,
    narrow, not, num, over, pick, plus, reg, repeat_in, same_as, sum_of, times,
};
use crate::harness::{CategoryRun, Outcome};
use crate::message::{
    note0, note1, note2, note3, note4, remark1, remark2, remark3, remark4, val, word,
};
use crate::scalar::Scalar;
use crate::script::{
    after, check, COUNT, dedup, download, fault1, fault2, fault3, fetch, fill, filter, join, Layout,
    match_rows, Plan, put, release, rows, scan, Script, select, sort, sort_column, Step, sync,
    upload, upload_table,
};
use crate::expr::Expr;

verus! {

/// The buffers that are sorted.
pub const SORTED_BUFFERS: [u64; 3] = [0, 2, 4];

/// A filter of `n` rows gives every kept row its place.
pub open spec fn scanned_filter_steps(n: u64, keep: Expr) -> Seq<Step> {
    seq![
        fill(0, num(n), ix()),
        upload(0, 0, note1("Size {}: failed to create buffer: {}", num(n))),
        fill(1, num(n), keep),
        put(0, sum_of(1)),
        filter(0, 1, 1, note1("Size {}: filter failed: {}", num(n))),
        match_rows(
            1,
            reg(0),
            note3("Size {}: filter returned {} rows, expected {}", num(n), reg(COUNT), reg(0)),
        ),
        fetch(1, 2, note1("Size {}: failed to download: {}", num(n))),
        select(3, num(n), differs(here(1), num(0)), ix()),
        scan(
            num(0),
            len(3),
            1,
            fault2(
                not(lt(ix(), len(2))),
                note2("Size {}: filtered data too short at expected index {}", num(n), ix()),
                differs(here(2), here(3)),
                note4("Size {}: filtered[{}] = {}, expected {}", num(n), ix(), here(2), here(3)),
            ),
        ),
        release(0),
    ]
}

/// Writes [`scanned_filter_steps`].
pub fn scanned_filter(n: u64, keep: Expr) -> (steps: Vec<Step>)
    ensures
        steps@ == scanned_filter_steps(n, keep),
{
    vec![
        fill(0, num(n), ix()),
        upload(0, 0, note1("Size {}: failed to create buffer: {}", num(n))),
        fill(1, num(n), keep),
        put(0, sum_of(1)),
        filter(0, 1, 1, note1("Size {}: filter failed: {}", num(n))),
        match_rows(
            1,
            reg(0),
            note3("Size {}: filter returned {} rows, expected {}", num(n), reg(COUNT), reg(0)),
        ),
        fetch(1, 2, note1("Size {}: failed to download: {}", num(n))),
        select(3, num(n), differs(here(1), num(0)), ix()),
        scan(
            num(0),
            len(3),
            1,
            fault2(
                not(lt(ix(), len(2))),
                note2("Size {}: filtered data too short at expected index {}", num(n), ix()),
                differs(here(2), here(3)),
                note4("Size {}: filtered[{}] = {}, expected {}", num(n), ix(), here(2), here(3)),
            ),
        ),
        release(0),
    ]
}

/// Ten thousand keys in some order are sorted and none is lost.
pub open spec fn sorted_pattern_steps(name: &'static str, key: Expr) -> Seq<Step> {
    seq![
        fill(0, num(10000), key),
        fill(1, num(10000), ix()),
        upload_table(
            0,
            Layout::KeyVal,
            0,
            remark1("Pattern {}: failed to create buffer: {}", word(name)),
        ),
        sort(0, 1, remark1("Pattern {}: sort failed: {}", word(name))),
        match_rows(
            1,
            num(10000),
            remark3(
                "Pattern {}: sort returned {} rows, expected {}",
                word(name),
                val(reg(COUNT)),
                val(num(10000)),
            ),
        ),
        fetch(1, 2, remark1("Pattern {}: failed to download sorted keys: {}", word(name))),
        scan(
            num(1),
            num(10000),
            1,
            fault1(
                lt(here(2), before(2)),
                remark4(
                    "Pattern {}: sort order incorrect at {}: {} > {}",
                    word(name),
                    val(ix()),
                    val(before(2)),
                    val(here(2)),
                ),
            ),
        ),
        sort_column(3, 0, Scalar::U32),
        check(
            not(alike(2, 3)),
            remark1("Pattern {}: keys not preserved through sort", word(name)),
        ),
        release(0),
    ]
}

/// Writes [`sorted_pattern_steps`].
pub fn sorted_pattern(name: &'static str, key: Expr) -> (steps: Vec<Step>)
    ensures
        steps@ == sorted_pattern_steps(name, key),
{
    vec![
        fill(0, num(10000), key),
        fill(1, num(10000), ix()),
        upload_table(
            0,
            Layout::KeyVal,
            0,
            remark1("Pattern {}: failed to create buffer: {}", word(name)),
        ),
        sort(0, 1, remark1("Pattern {}: sort failed: {}", word(name))),
        match_rows(
            1,
            num(10000),
            remark3(
                "Pattern {}: sort returned {} rows, expected {}",
                word(name),
                val(reg(COUNT)),
                val(num(10000)),
            ),
        ),
        fetch(1, 2, remark1("Pattern {}: failed to download sorted keys: {}", word(name))),
        scan(
            num(1),
            num(10000),
            1,
            fault1(
                lt(here(2), before(2)),
                remark4(
                    "Pattern {}: sort order incorrect at {}: {} > {}",
                    word(name),
                    val(ix()),
                    val(before(2)),
                    val(here(2)),
                ),
            ),
        ),
        sort_column(3, 0, Scalar::U32),
        check(
            not(alike(2, 3)),
            remark1("Pattern {}: keys not preserved through sort", word(name)),
        ),
        release(0),
    ]
}

/// Removing duplicates leaves every key of a pattern once.
pub open spec fn unique_pattern_steps(name: &'static str, length: u64, key: Expr) -> Seq<Step> {
    seq![
        fill(0, num(length), key),
        fill(1, num(length), ix()),
        upload_table(
            0,
            Layout::KeyVal,
            0,
            remark1("Pattern {}: failed to create buffer: {}", word(name)),
        ),
        dedup(0, 1, remark1("Pattern {}: dedup failed: {}", word(name))),
        put(0, distinct_in(0)),
        match_rows(
            1,
            reg(0),
            remark3(
                "Pattern {}: dedup returned {} rows, expected {}",
                word(name),
                val(reg(COUNT)),
                val(reg(0)),
            ),
        ),
        fetch(1, 2, remark1("Pattern {}: failed to download deduped keys: {}", word(name))),
        put(1, repeat_in(2)),
        check(
            lt(reg(1), len(2)),
            remark2(
                "Pattern {}: duplicate key {} in dedup result",
                word(name),
                val(at(2, reg(1))),
            ),
        ),
        check(
            not(alike_sets(2, 0)),
            remark1("Pattern {}: dedup result missing some unique keys", word(name)),
        ),
        release(0),
    ]
}

/// Writes [`unique_pattern_steps`].
pub fn unique_pattern(name: &'static str, length: u64, key: Expr) -> (steps: Vec<Step>)
    ensures
        steps@ == unique_pattern_steps(name, length, key),
{
    vec![
        fill(0, num(length), key),
        fill(1, num(length), ix()),
        upload_table(
            0,
            Layout::KeyVal,
            0,
            remark1("Pattern {}: failed to create buffer: {}", word(name)),
        ),
        dedup(0, 1, remark1("Pattern {}: dedup failed: {}", word(name))),
        put(0, distinct_in(0)),
        match_rows(
            1,
            reg(0),
            remark3(
                "Pattern {}: dedup returned {} rows, expected {}",
                word(name),
                val(reg(COUNT)),
                val(reg(0)),
            ),
        ),
        fetch(1, 2, remark1("Pattern {}: failed to download deduped keys: {}", word(name))),
        put(1, repeat_in(2)),
        check(
            lt(reg(1), len(2)),
            remark2(
                "Pattern {}: duplicate key {} in dedup result",
                word(name),
                val(at(2, reg(1))),
            ),
        ),
        check(
            not(alike_sets(2, 0)),
            remark1("Pattern {}: dedup result missing some unique keys", word(name)),
        ),
        release(0),
    ]
}

/// The steps of [`test_hash_join_atomics`].
pub open spec fn hash_join_atomics_steps() -> Seq<Step> {
    seq![
        fill(0, num(10000), ix()),
        fill(1, num(10000), times(ix(), num(10))),
        fill(2, num(5000), times(ix(), num(2))),
        fill(3, num(5000), times(ix(), num(100))),
        upload_table(0, Layout::KeyLval, 0, note0("Failed to create left buffer: {}")),
        upload_table(1, Layout::KeyRval, 2, note0("Failed to create right buffer: {}")),
        join(0, 1, 2, note0("Hash join failed: {}")),
        match_rows(
            2,
            num(5000),
            note2("Join returned {} rows, expected {}", reg(COUNT), num(5000)),
        ),
        fetch(2, 4, note0("Failed to download joined keys: {}")),
        download(2, 1, Scalar::U32, 5, note0("Failed to download joined lvals: {}")),
        download(2, 2, Scalar::U32, 6, note0("Failed to download joined rvals: {}")),
        rows(2, 0),
        scan(
            num(0),
            reg(0),
            1,
            fault3(
                and(
                    not(lt(here(5), num(0))),
                    and(not(lt(here(6), num(0))), differs(modulo(here(4), num(2)), num(0))),
                ),
                note2("Row {}: key {} should be even", ix(), here(4)),
                differs(here(5), narrow(times(here(4), num(10)))),
                note4(
                    "Row {}: lval {} doesn't match expected {} for key {}",
                    ix(),
                    here(5),
                    times(here(4), num(10)),
                    here(4),
                ),
                differs(here(6), narrow(times(over(here(4), num(2)), num(100)))),
                note4(
                    "Row {}: rval {} doesn't match expected {} for key {}",
                    ix(),
                    here(6),
                    times(over(here(4), num(2)), num(100)),
                    here(4),
                ),
            ),
        ),
        sync(note0("Sync failed: {}")),
    ]
}

/// A join finds every key of the right table, with both values.
pub fn test_hash_join_atomics() -> (script: Script)
    ensures
        script@ == crate::script::plan("test_hash_join_atomics", hash_join_atomics_steps()),
{
    let steps: Vec<Step> = vec![
        fill(0, num(10000), ix()),
        fill(1, num(10000), times(ix(), num(10))),
        fill(2, num(5000), times(ix(), num(2))),
        fill(3, num(5000), times(ix(), num(100))),
        upload_table(0, Layout::KeyLval, 0, note0("Failed to create left buffer: {}")),
        upload_table(1, Layout::KeyRval, 2, note0("Failed to create right buffer: {}")),
        join(0, 1, 2, note0("Hash join failed: {}")),
        match_rows(
            2,
            num(5000),
            note2("Join returned {} rows, expected {}", reg(COUNT), num(5000)),
        ),
        fetch(2, 4, note0("Failed to download joined keys: {}")),
        download(2, 1, Scalar::U32, 5, note0("Failed to download joined lvals: {}")),
        download(2, 2, Scalar::U32, 6, note0("Failed to download joined rvals: {}")),
        rows(2, 0),
        scan(
            num(0),
            reg(0),
            1,
            fault3(
                and(
                    not(lt(here(5), num(0))),
                    and(not(lt(here(6), num(0))), differs(modulo(here(4), num(2)), num(0))),
                ),
                note2("Row {}: key {} should be even", ix(), here(4)),
                differs(here(5), narrow(times(here(4), num(10)))),
                note4(
                    "Row {}: lval {} doesn't match expected {} for key {}",
                    ix(),
                    here(5),
                    times(here(4), num(10)),
                    here(4),
                ),
                differs(here(6), narrow(times(over(here(4), num(2)), num(100)))),
                note4(
                    "Row {}: rval {} doesn't match expected {} for key {}",
                    ix(),
                    here(6),
                    times(over(here(4), num(2)), num(100)),
                    here(4),
                ),
            ),
        ),
        sync(note0("Sync failed: {}")),
    ];
    Script::new("test_hash_join_atomics", steps)
}

/// The end of [`test_filter_scan_sync`].
pub open spec fn filter_scan_sync_end_steps() -> Seq<Step> {
    seq![
        sync(note0("Sync failed: {}")),
    ]
}

/// Writes the end of [`test_filter_scan_sync`].
fn filter_scan_sync_end() -> (steps: Vec<Step>)
    ensures
        steps@ == filter_scan_sync_end_steps(),
{
    vec![
        sync(note0("Sync failed: {}")),
    ]
}

/// The steps of [`test_filter_scan_sync`].
pub open spec fn filter_scan_sync_steps() -> Seq<Step> {
    scanned_filter_steps(1000, same_as(modulo(ix(), num(2)), num(0)))
        + scanned_filter_steps(10000, same_as(modulo(ix(), num(3)), num(0)))
        + scanned_filter_steps(50000, lt(ix(), num(25000)))
        + scanned_filter_steps(100000, same_as(modulo(ix(), num(7)), num(0)))
        + scanned_filter_steps(65536, same_as(modulo(over(ix(), num(256)), num(2)), num(0)))
        + filter_scan_sync_end_steps()
}

/// The scan of a filter gives every kept row its place.
pub fn test_filter_scan_sync() -> (script: Script)
    ensures
        script@ == crate::script::plan("test_filter_scan_sync", filter_scan_sync_steps()),
{
    let mut steps: Vec<Step> = scanned_filter(1000, same_as(modulo(ix(), num(2)), num(0)));
    let mut more = scanned_filter(10000, same_as(modulo(ix(), num(3)), num(0)));
    steps.append(&mut more);
    let mut more = scanned_filter(50000, lt(ix(), num(25000)));
    steps.append(&mut more);
    let mut more = scanned_filter(100000, same_as(modulo(ix(), num(7)), num(0)));
    steps.append(&mut more);
    let mut more = scanned_filter(65536, same_as(modulo(over(ix(), num(256)), num(2)), num(0)));
    steps.append(&mut more);
    let mut more = filter_scan_sync_end();
    steps.append(&mut more);
    Script::new("test_filter_scan_sync", steps)
}

/// The end of [`test_sort_barrier_correctness`].
pub open spec fn sort_barrier_correctness_end_steps() -> Seq<Step> {
    seq![
        sync(note0("Sync failed: {}")),
    ]
}

/// Writes the end of [`test_sort_barrier_correctness`].
fn sort_barrier_correctness_end() -> (steps: Vec<Step>)
    ensures
        steps@ == sort_barrier_correctness_end_steps(),
{
    vec![
        sync(note0("Sync failed: {}")),
    ]
}

/// The steps of [`test_sort_barrier_correctness`].
pub open spec fn sort_barrier_correctness_steps() -> Seq<Step> {
    sorted_pattern_steps("reverse", minus(minus(num(10000), num(1)), ix()))
        + sorted_pattern_steps(
            "alternating",
            pick(same_as(modulo(ix(), num(2)), num(0)), ix(), minus(num(10000), ix())),
        )
        + sorted_pattern_steps("sawtooth", modulo(ix(), num(100)))
        + sorted_pattern_steps(
            "random_lcg",
            modulo(plus(times(ix(), num(1103515245)), num(12345)), num(10000)),
        )
        + sorted_pattern_steps(
            "blocks_reversed",
            plus(times(over(ix(), num(256)), num(256)), minus(num(255), modulo(ix(), num(256)))),
        )
        + sort_barrier_correctness_end_steps()
}

/// Keys in five orders are sorted and none is lost.
pub fn test_sort_barrier_correctness() -> (script: Script)
    ensures
        script@ == crate::script::plan(
            "test_sort_barrier_correctness",
            sort_barrier_correctness_steps(),
        ),
{
    let mut steps: Vec<Step> = sorted_pattern("reverse", minus(minus(num(10000), num(1)), ix()));
    let mut more = sorted_pattern(
        "alternating",
        pick(same_as(modulo(ix(), num(2)), num(0)), ix(), minus(num(10000), ix())),
    );
    steps.append(&mut more);
    let mut more = sorted_pattern("sawtooth", modulo(ix(), num(100)));
    steps.append(&mut more);
    let mut more = sorted_pattern(
        "random_lcg",
        modulo(plus(times(ix(), num(1103515245)), num(12345)), num(10000)),
    );
    steps.append(&mut more);
    let mut more = sorted_pattern(
        "blocks_reversed",
        plus(times(over(ix(), num(256)), num(256)), minus(num(255), modulo(ix(), num(256)))),
    );
    steps.append(&mut more);
    let mut more = sort_barrier_correctness_end();
    steps.append(&mut more);
    Script::new("test_sort_barrier_correctness", steps)
}

/// The end of [`test_dedup_atomic_marking`].
pub open spec fn dedup_atomic_marking_end_steps() -> Seq<Step> {
    seq![
        sync(note0("Sync failed: {}")),
    ]
}

/// Writes the end of [`test_dedup_atomic_marking`].
fn dedup_atomic_marking_end() -> (steps: Vec<Step>)
    ensures
        steps@ == dedup_atomic_marking_end_steps(),
{
    vec![
        sync(note0("Sync failed: {}")),
    ]
}

/// The steps of [`test_dedup_atomic_marking`].
pub open spec fn dedup_atomic_marking_steps() -> Seq<Step> {
    unique_pattern_steps("all_same", 10000, num(42))
        + unique_pattern_steps("pairs", 10000, over(ix(), num(2)))
        + unique_pattern_steps("triples", 9999, over(ix(), num(3)))
        + unique_pattern_steps("no_dups", 10000, ix())
        + unique_pattern_steps("many_dups", 10000, modulo(ix(), num(100)))
        + dedup_atomic_marking_end_steps()
}

/// Removing duplicates leaves every key once.
pub fn test_dedup_atomic_marking() -> (script: Script)
    ensures
        script@ == crate::script::plan("test_dedup_atomic_marking", dedup_atomic_marking_steps()),
{
    let mut steps: Vec<Step> = unique_pattern("all_same", 10000, num(42));
    let mut more = unique_pattern("pairs", 10000, over(ix(), num(2)));
    steps.append(&mut more);
    let mut more = unique_pattern("triples", 9999, over(ix(), num(3)));
    steps.append(&mut more);
    let mut more = unique_pattern("no_dups", 10000, ix());
    steps.append(&mut more);
    let mut more = unique_pattern("many_dups", 10000, modulo(ix(), num(100)));
    steps.append(&mut more);
    let mut more = dedup_atomic_marking_end();
    steps.append(&mut more);
    Script::new("test_dedup_atomic_marking", steps)
}

/// One round of the buffers of [`test_concurrent_operations`].
pub open spec fn concurrent_operations_buffers_round(i: u64) -> Seq<Step> {
    let b = i;
    seq![
        fill(
            0,
            num(10000),
            modulo(
                plus(times(times(ix(), plus(num(b), num(1))), num(7)), times(num(b), num(13))),
                num(10000),
            ),
        ),
        upload(b, 0, note1("Failed to create buffer {}: {}", num(b))),
    ]
}

/// Writes one round of the buffers of [`test_concurrent_operations`].
fn concurrent_operations_buffers(i: u64) -> (steps: Vec<Step>)
    requires
        i < 5,
    ensures
        steps@ == concurrent_operations_buffers_round(i),
{
    let b: u64 = i;
    vec![
        fill(
            0,
            num(10000),
            modulo(
                plus(times(times(ix(), plus(num(b), num(1))), num(7)), times(num(b), num(13))),
                num(10000),
            ),
        ),
        upload(b, 0, note1("Failed to create buffer {}: {}", num(b))),
    ]
}

/// The operations of [`test_concurrent_operations`].
pub open spec fn concurrent_operations_operations_steps() -> Seq<Step> {
    seq![
        sort(0, 10, note0("Sort of buffer 0 failed: {}")),
        fill(1, num(10000), lt(ix(), num(5000))),
        filter(1, 1, 11, note0("Filter of buffer 1 failed: {}")),
        sort(2, 12, note0("Sort of buffer 2 failed: {}")),
        fill(1, num(10000), same_as(modulo(ix(), num(2)), num(0))),
        filter(3, 1, 13, note0("Filter of buffer 3 failed: {}")),
        sort(4, 14, note0("Sort of buffer 4 failed: {}")),
    ]
}

/// Writes the operations of [`test_concurrent_operations`].
fn concurrent_operations_operations() -> (steps: Vec<Step>)
    ensures
        steps@ == concurrent_operations_operations_steps(),
{
    vec![
        sort(0, 10, note0("Sort of buffer 0 failed: {}")),
        fill(1, num(10000), lt(ix(), num(5000))),
        filter(1, 1, 11, note0("Filter of buffer 1 failed: {}")),
        sort(2, 12, note0("Sort of buffer 2 failed: {}")),
        fill(1, num(10000), same_as(modulo(ix(), num(2)), num(0))),
        filter(3, 1, 13, note0("Filter of buffer 3 failed: {}")),
        sort(4, 14, note0("Sort of buffer 4 failed: {}")),
    ]
}

/// One round of the sorted of [`test_concurrent_operations`].
pub open spec fn concurrent_operations_sorted_round(i: u64) -> Seq<Step> {
    let b = SORTED_BUFFERS@[i as int];
    seq![
        match_rows(
            after(10, b),
            num(10000),
            remark4(
                "Buffer {}: {} returned {} rows, expected {}",
                val(num(b)),
                word("sort"),
                val(reg(COUNT)),
                val(num(10000)),
            ),
        ),
        fetch(after(10, b), 2, note1("Buffer {}: failed to download: {}", num(b))),
        scan(
            num(1),
            num(10000),
            1,
            fault1(
                lt(here(2), before(2)),
                note4(
                    "Buffer {}: sort order incorrect at {}: {} > {}",
                    num(b),
                    ix(),
                    before(2),
                    here(2),
                ),
            ),
        ),
        fill(
            0,
            num(10000),
            modulo(
                plus(times(times(ix(), plus(num(b), num(1))), num(7)), times(num(b), num(13))),
                num(10000),
            ),
        ),
        sort_column(3, 0, Scalar::U32),
        check(not(alike(2, 3)), note1("Buffer {}: sorted data doesn't match expected", num(b))),
    ]
}

/// Writes one round of the sorted of [`test_concurrent_operations`].
fn concurrent_operations_sorted(i: u64) -> (steps: Vec<Step>)
    requires
        i < 3,
    ensures
        steps@ == concurrent_operations_sorted_round(i),
{
    let b: u64 = SORTED_BUFFERS[i as usize];
    vec![
        match_rows(
            after(10, b),
            num(10000),
            remark4(
                "Buffer {}: {} returned {} rows, expected {}",
                val(num(b)),
                word("sort"),
                val(reg(COUNT)),
                val(num(10000)),
            ),
        ),
        fetch(after(10, b), 2, note1("Buffer {}: failed to download: {}", num(b))),
        scan(
            num(1),
            num(10000),
            1,
            fault1(
                lt(here(2), before(2)),
                note4(
                    "Buffer {}: sort order incorrect at {}: {} > {}",
                    num(b),
                    ix(),
                    before(2),
                    here(2),
                ),
            ),
        ),
        fill(
            0,
            num(10000),
            modulo(
                plus(times(times(ix(), plus(num(b), num(1))), num(7)), times(num(b), num(13))),
                num(10000),
            ),
        ),
        sort_column(3, 0, Scalar::U32),
        check(not(alike(2, 3)), note1("Buffer {}: sorted data doesn't match expected", num(b))),
    ]
}

/// The filtered of [`test_concurrent_operations`].
pub open spec fn concurrent_operations_filtered_steps() -> Seq<Step> {
    seq![
        match_rows(
            11,
            num(5000),
            note2("Buffer 1: filter returned {} rows, expected {}", reg(COUNT), num(5000)),
        ),
        match_rows(
            13,
            num(5000),
            note2("Buffer 3: filter returned {} rows, expected {}", reg(COUNT), num(5000)),
        ),
    ]
}

/// Writes the filtered of [`test_concurrent_operations`].
fn concurrent_operations_filtered() -> (steps: Vec<Step>)
    ensures
        steps@ == concurrent_operations_filtered_steps(),
{
    vec![
        match_rows(
            11,
            num(5000),
            note2("Buffer 1: filter returned {} rows, expected {}", reg(COUNT), num(5000)),
        ),
        match_rows(
            13,
            num(5000),
            note2("Buffer 3: filter returned {} rows, expected {}", reg(COUNT), num(5000)),
        ),
    ]
}

/// One round of the sources of [`test_concurrent_operations`].
pub open spec fn concurrent_operations_sources_round(i: u64) -> Seq<Step> {
    let b = i;
    seq![
        fetch(b, 2, note1("Failed to verify buffer {}: {}", num(b))),
        fill(
            0,
            num(10000),
            modulo(
                plus(times(times(ix(), plus(num(b), num(1))), num(7)), times(num(b), num(13))),
                num(10000),
            ),
        ),
        check(not(alike(2, 0)), note1("Buffer {} was modified by operations", num(b))),
    ]
}

/// Writes one round of the sources of [`test_concurrent_operations`].
fn concurrent_operations_sources(i: u64) -> (steps: Vec<Step>)
    requires
        i < 5,
    ensures
        steps@ == concurrent_operations_sources_round(i),
{
    let b: u64 = i;
    vec![
        fetch(b, 2, note1("Failed to verify buffer {}: {}", num(b))),
        fill(
            0,
            num(10000),
            modulo(
                plus(times(times(ix(), plus(num(b), num(1))), num(7)), times(num(b), num(13))),
                num(10000),
            ),
        ),
        check(not(alike(2, 0)), note1("Buffer {} was modified by operations", num(b))),
    ]
}

/// The end of [`test_concurrent_operations`].
pub open spec fn concurrent_operations_end_steps() -> Seq<Step> {
    seq![
        sync(note0("Sync failed: {}")),
    ]
}

/// Writes the end of [`test_concurrent_operations`].
fn concurrent_operations_end() -> (steps: Vec<Step>)
    ensures
        steps@ == concurrent_operations_end_steps(),
{
    vec![
        sync(note0("Sync failed: {}")),
    ]
}

/// The steps of [`test_concurrent_operations`].
pub open spec fn concurrent_operations_steps() -> Seq<Step> {
    crate::script::rounds(5, |i: int| concurrent_operations_buffers_round(i as u64))
        + concurrent_operations_operations_steps()
        + crate::script::rounds(3, |i: int| concurrent_operations_sorted_round(i as u64))
        + concurrent_operations_filtered_steps()
        + crate::script::rounds(5, |i: int| concurrent_operations_sources_round(i as u64))
        + concurrent_operations_end_steps()
}

/// Operations on five buffers do not disturb each other.
pub fn test_concurrent_operations() -> (script: Script)
    ensures
        script@ == crate::script::plan("test_concurrent_operations", concurrent_operations_steps()),
{
    let mut steps: Vec<Step> = Vec::new();
    let mut i: u64 = 0;
    while i < 5
        invariant
            i <= 5,
            steps@ == crate::script::rounds(
                i as int,
                |i: int| concurrent_operations_buffers_round(i as u64),
            ),
        decreases 5 - i,
    {
        let mut round = concurrent_operations_buffers(i);
        steps.append(&mut round);
        i = i + 1;
    }
    let mut more = concurrent_operations_operations();
    steps.append(&mut more);
    i = 0;
    let ghost before = steps@;
    while i < 3
        invariant
            i <= 3,
            steps@ == before + crate::script::rounds(
                i as int,
                |i: int| concurrent_operations_sorted_round(i as u64),
            ),
        decreases 3 - i,
    {
        let mut round = concurrent_operations_sorted(i);
        steps.append(&mut round);
        i = i + 1;
    }
    let mut more = concurrent_operations_filtered();
    steps.append(&mut more);
    i = 0;
    let ghost before = steps@;
    while i < 5
        invariant
            i <= 5,
            steps@ == before + crate::script::rounds(
                i as int,
                |i: int| concurrent_operations_sources_round(i as u64),
            ),
        decreases 5 - i,
    {
        let mut round = concurrent_operations_sources(i);
        steps.append(&mut round);
        i = i + 1;
    }
    let mut more = concurrent_operations_end();
    steps.append(&mut more);
    Script::new("test_concurrent_operations", steps)
}

/// The tests of the category.
pub open spec fn tests() -> Seq<Plan> {
    seq![
        crate::script::plan("test_hash_join_atomics", hash_join_atomics_steps()),
        crate::script::plan("test_filter_scan_sync", filter_scan_sync_steps()),
        crate::script::plan("test_sort_barrier_correctness", sort_barrier_correctness_steps()),
        crate::script::plan("test_dedup_atomic_marking", dedup_atomic_marking_steps()),
        crate::script::plan("test_concurrent_operations", concurrent_operations_steps()),
    ]
}

/// Lists the tests of the category, in the order in which they run.
pub fn run_all() -> (category: CategoryRun)
    ensures
        category.title() == "c08_synchronization",
        category.waiting() == tests(),
        category.test() is None,
        category.run() is None,
        category.done() == Seq::<Outcome>::empty(),
{
    let scripts: Vec<Script> = vec![
        test_hash_join_atomics(),
        test_filter_scan_sync(),
        test_sort_barrier_correctness(),
        test_dedup_atomic_marking(),
        test_concurrent_operations(),
    ];
    let category = CategoryRun::new("c08_synchronization", scripts);
    assert(category.waiting() =~= tests());
    category
}

} // verus!
