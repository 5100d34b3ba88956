//! Caches: whole lines, reuse, thrashing and locality.

use vstd::prelude::*;
use crate::expr::{
    alike, before, differs, here, ix, least, len, lt, minus, modulo, not, num, over, pick, plus,
    reg, same_as, times,
};
use crate::harness::{CategoryRun, Outcome};
use crate::message::{note0, note1, note2, note3, note4};
use crate::script::{
    check, COUNT, dedup, fault1, fetch, fill, filter, Layout, match_rows, only, Plan, release, scan,
    Script, sort, Step, sync, upload, upload_table,
};

verus! {

/// Sizes of whole cache lines.
pub const LINE_SIZES: [u64; 6] = [32, 64, 128, 512, 2048, 8192];

/// Sizes that end within a cache line.
pub const ODD_SIZES: [u64; 4] = [33, 63, 135, 333];

/// One round of the lines of [`test_cache_line_access`].
pub open spec fn cache_line_access_lines_round(i: u64) -> Seq<Step> {
    let n = LINE_SIZES@[i as int];
    seq![
        fill(0, num(n), modulo(plus(times(ix(), num(1103515245)), num(12345)), num(1000000))),
        upload(0, 0, note1("Failed to create buffer of size {}: {}", num(n))),
        sort(0, 1, note1("Sort failed for size {}: {}", num(n))),
        fetch(1, 1, note1("Download failed for size {}: {}", num(n))),
        check(
            differs(len(1), num(n)),
            note3("Size {}: expected {} rows, got {}", num(n), num(n), len(1)),
        ),
        scan(
            num(1),
            len(1),
            1,
            fault1(
                lt(here(1), before(1)),
                note4(
                    "Size {}: sort incorrect at index {}: {} < {}",
                    num(n),
                    ix(),
                    here(1),
                    before(1),
                ),
            ),
        ),
        fill(2, num(n), same_as(modulo(ix(), num(2)), num(0))),
        filter(0, 2, 2, note1("Filter failed for size {}: {}", num(n))),
        match_rows(
            2,
            over(plus(num(n), num(1)), num(2)),
            note3(
                "Size {}: filter expected {} rows, got {}",
                num(n),
                over(plus(num(n), num(1)), num(2)),
                reg(COUNT),
            ),
        ),
        release(0),
    ]
}

/// Writes one round of the lines of [`test_cache_line_access`].
fn cache_line_access_lines(i: u64) -> (steps: Vec<Step>)
    requires
        i < 6,
    ensures
        steps@ == cache_line_access_lines_round(i),
{
    let n: u64 = LINE_SIZES[i as usize];
    vec![
        fill(0, num(n), modulo(plus(times(ix(), num(1103515245)), num(12345)), num(1000000))),
        upload(0, 0, note1("Failed to create buffer of size {}: {}", num(n))),
        sort(0, 1, note1("Sort failed for size {}: {}", num(n))),
        fetch(1, 1, note1("Download failed for size {}: {}", num(n))),
        check(
            differs(len(1), num(n)),
            note3("Size {}: expected {} rows, got {}", num(n), num(n), len(1)),
        ),
        scan(
            num(1),
            len(1),
            1,
            fault1(
                lt(here(1), before(1)),
                note4(
                    "Size {}: sort incorrect at index {}: {} < {}",
                    num(n),
                    ix(),
                    here(1),
                    before(1),
                ),
            ),
        ),
        fill(2, num(n), same_as(modulo(ix(), num(2)), num(0))),
        filter(0, 2, 2, note1("Filter failed for size {}: {}", num(n))),
        match_rows(
            2,
            over(plus(num(n), num(1)), num(2)),
            note3(
                "Size {}: filter expected {} rows, got {}",
                num(n),
                over(plus(num(n), num(1)), num(2)),
                reg(COUNT),
            ),
        ),
        release(0),
    ]
}

/// One round of the odd sizes of [`test_cache_line_access`].
pub open spec fn cache_line_access_odd_sizes_round(i: u64) -> Seq<Step> {
    let n = ODD_SIZES@[i as int];
    seq![
        fill(0, num(n), modulo(times(ix(), num(31337)), num(100000))),
        upload(0, 0, note1("Failed to create non-aligned buffer of size {}: {}", num(n))),
        sort(0, 1, note1("Sort failed for non-aligned size {}: {}", num(n))),
        fetch(1, 1, note1("Download failed for non-aligned size {}: {}", num(n))),
        scan(
            num(1),
            len(1),
            1,
            fault1(
                lt(here(1), before(1)),
                note2("Non-aligned size {}: sort incorrect at index {}", num(n), ix()),
            ),
        ),
        release(0),
    ]
}

/// Writes one round of the odd sizes of [`test_cache_line_access`].
fn cache_line_access_odd_sizes(i: u64) -> (steps: Vec<Step>)
    requires
        i < 4,
    ensures
        steps@ == cache_line_access_odd_sizes_round(i),
{
    let n: u64 = ODD_SIZES[i as usize];
    vec![
        fill(0, num(n), modulo(times(ix(), num(31337)), num(100000))),
        upload(0, 0, note1("Failed to create non-aligned buffer of size {}: {}", num(n))),
        sort(0, 1, note1("Sort failed for non-aligned size {}: {}", num(n))),
        fetch(1, 1, note1("Download failed for non-aligned size {}: {}", num(n))),
        scan(
            num(1),
            len(1),
            1,
            fault1(
                lt(here(1), before(1)),
                note2("Non-aligned size {}: sort incorrect at index {}", num(n), ix()),
            ),
        ),
        release(0),
    ]
}

/// The end of [`test_cache_line_access`].
pub open spec fn cache_line_access_end_steps() -> Seq<Step> {
    seq![
        sync(note0("Sync failed: {}")),
    ]
}

/// Writes the end of [`test_cache_line_access`].
fn cache_line_access_end() -> (steps: Vec<Step>)
    ensures
        steps@ == cache_line_access_end_steps(),
{
    vec![
        sync(note0("Sync failed: {}")),
    ]
}

/// The steps of [`test_cache_line_access`].
pub open spec fn cache_line_access_steps() -> Seq<Step> {
    crate::script::rounds(6, |i: int| cache_line_access_lines_round(i as u64))
        + crate::script::rounds(4, |i: int| cache_line_access_odd_sizes_round(i as u64))
        + cache_line_access_end_steps()
}

/// Columns of whole cache lines, and of broken ones, are sorted and filtered.
pub fn test_cache_line_access() -> (script: Script)
    ensures
        script@ == crate::script::plan("test_cache_line_access", cache_line_access_steps()),
{
    let mut steps: Vec<Step> = Vec::new();
    let mut i: u64 = 0;
    while i < 6
        invariant
            i <= 6,
            steps@ == crate::script::rounds(
                i as int,
                |i: int| cache_line_access_lines_round(i as u64),
            ),
        decreases 6 - i,
    {
        let mut round = cache_line_access_lines(i);
        steps.append(&mut round);
        i = i + 1;
    }
    i = 0;
    let ghost before = steps@;
    while i < 4
        invariant
            i <= 4,
            steps@ == before + crate::script::rounds(
                i as int,
                |i: int| cache_line_access_odd_sizes_round(i as u64),
            ),
        decreases 4 - i,
    {
        let mut round = cache_line_access_odd_sizes(i);
        steps.append(&mut round);
        i = i + 1;
    }
    let mut more = cache_line_access_end();
    steps.append(&mut more);
    Script::new("test_cache_line_access", steps)
}

/// The start of [`test_cache_reuse`].
pub open spec fn cache_reuse_start_steps() -> Seq<Step> {
    seq![
        fill(0, num(10000), modulo(plus(times(ix(), num(17)), num(13)), num(10000))),
        upload(0, 0, note0("Failed to create buffer: {}")),
    ]
}

/// Writes the start of [`test_cache_reuse`].
fn cache_reuse_start() -> (steps: Vec<Step>)
    ensures
        steps@ == cache_reuse_start_steps(),
{
    vec![
        fill(0, num(10000), modulo(plus(times(ix(), num(17)), num(13)), num(10000))),
        upload(0, 0, note0("Failed to create buffer: {}")),
    ]
}

/// One round of the sorts of [`test_cache_reuse`].
pub open spec fn cache_reuse_sorts_round(i: u64) -> Seq<Step> {
    seq![
        sort(0, 1, note1("Iteration {}: sort failed: {}", num(i))),
        fetch(1, 2, note1("Iteration {}: download failed: {}", num(i))),
        scan(
            num(1),
            len(2),
            1,
            fault1(
                lt(here(2), before(2)),
                note2("Iteration {}: sort incorrect at index {}", num(i), ix()),
            ),
        ),
        only(same_as(num(i), num(0)), fill(1, len(2), here(2))),
        only(
            differs(num(i), num(0)),
            check(
                not(alike(2, 1)),
                note1("Iteration {}: result differs from first iteration", num(i)),
            ),
        ),
        release(1),
    ]
}

/// Writes one round of the sorts of [`test_cache_reuse`].
fn cache_reuse_sorts(i: u64) -> (steps: Vec<Step>)
    requires
        i < 10,
    ensures
        steps@ == cache_reuse_sorts_round(i),
{
    vec![
        sort(0, 1, note1("Iteration {}: sort failed: {}", num(i))),
        fetch(1, 2, note1("Iteration {}: download failed: {}", num(i))),
        scan(
            num(1),
            len(2),
            1,
            fault1(
                lt(here(2), before(2)),
                note2("Iteration {}: sort incorrect at index {}", num(i), ix()),
            ),
        ),
        only(same_as(num(i), num(0)), fill(1, len(2), here(2))),
        only(
            differs(num(i), num(0)),
            check(
                not(alike(2, 1)),
                note1("Iteration {}: result differs from first iteration", num(i)),
            ),
        ),
        release(1),
    ]
}

/// The mask of [`test_cache_reuse`].
pub open spec fn cache_reuse_mask_steps() -> Seq<Step> {
    seq![
        fill(3, num(10000), same_as(modulo(ix(), num(3)), num(0))),
    ]
}

/// Writes the mask of [`test_cache_reuse`].
fn cache_reuse_mask() -> (steps: Vec<Step>)
    ensures
        steps@ == cache_reuse_mask_steps(),
{
    vec![
        fill(3, num(10000), same_as(modulo(ix(), num(3)), num(0))),
    ]
}

/// One round of the filters of [`test_cache_reuse`].
pub open spec fn cache_reuse_filters_round(i: u64) -> Seq<Step> {
    seq![
        filter(0, 3, 1, note1("Filter iteration {}: failed: {}", num(i))),
        match_rows(
            1,
            num(3334),
            note3("Filter iteration {}: expected {} rows, got {}", num(i), num(3334), reg(COUNT)),
        ),
        release(1),
    ]
}

/// Writes one round of the filters of [`test_cache_reuse`].
fn cache_reuse_filters(i: u64) -> (steps: Vec<Step>)
    requires
        i < 10,
    ensures
        steps@ == cache_reuse_filters_round(i),
{
    vec![
        filter(0, 3, 1, note1("Filter iteration {}: failed: {}", num(i))),
        match_rows(
            1,
            num(3334),
            note3("Filter iteration {}: expected {} rows, got {}", num(i), num(3334), reg(COUNT)),
        ),
        release(1),
    ]
}

/// The table of [`test_cache_reuse`].
pub open spec fn cache_reuse_table_steps() -> Seq<Step> {
    seq![
        fill(4, num(10000), modulo(ix(), num(1000))),
        fill(5, num(10000), ix()),
        upload_table(1, Layout::KeyVal, 4, note0("Failed to create buffer2: {}")),
    ]
}

/// Writes the table of [`test_cache_reuse`].
fn cache_reuse_table() -> (steps: Vec<Step>)
    ensures
        steps@ == cache_reuse_table_steps(),
{
    vec![
        fill(4, num(10000), modulo(ix(), num(1000))),
        fill(5, num(10000), ix()),
        upload_table(1, Layout::KeyVal, 4, note0("Failed to create buffer2: {}")),
    ]
}

/// One round of the dedups of [`test_cache_reuse`].
pub open spec fn cache_reuse_dedups_round(i: u64) -> Seq<Step> {
    seq![
        dedup(1, 2, note1("Dedup iteration {}: failed: {}", num(i))),
        match_rows(
            2,
            num(1000),
            note2("Dedup iteration {}: expected 1000 rows, got {}", num(i), reg(COUNT)),
        ),
        release(2),
    ]
}

/// Writes one round of the dedups of [`test_cache_reuse`].
fn cache_reuse_dedups(i: u64) -> (steps: Vec<Step>)
    requires
        i < 10,
    ensures
        steps@ == cache_reuse_dedups_round(i),
{
    vec![
        dedup(1, 2, note1("Dedup iteration {}: failed: {}", num(i))),
        match_rows(
            2,
            num(1000),
            note2("Dedup iteration {}: expected 1000 rows, got {}", num(i), reg(COUNT)),
        ),
        release(2),
    ]
}

/// The end of [`test_cache_reuse`].
pub open spec fn cache_reuse_end_steps() -> Seq<Step> {
    seq![
        sync(note0("Sync failed: {}")),
    ]
}

/// Writes the end of [`test_cache_reuse`].
fn cache_reuse_end() -> (steps: Vec<Step>)
    ensures
        steps@ == cache_reuse_end_steps(),
{
    vec![
        sync(note0("Sync failed: {}")),
    ]
}

/// The steps of [`test_cache_reuse`].
pub open spec fn cache_reuse_steps() -> Seq<Step> {
    cache_reuse_start_steps()
        + crate::script::rounds(10, |i: int| cache_reuse_sorts_round(i as u64))
        + cache_reuse_mask_steps()
        + crate::script::rounds(10, |i: int| cache_reuse_filters_round(i as u64))
        + cache_reuse_table_steps()
        + crate::script::rounds(10, |i: int| cache_reuse_dedups_round(i as u64))
        + cache_reuse_end_steps()
}

/// Operations on cached data give the same results each time.
pub fn test_cache_reuse() -> (script: Script)
    ensures
        script@ == crate::script::plan("test_cache_reuse", cache_reuse_steps()),
{
    let mut steps: Vec<Step> = cache_reuse_start();
    let mut i: u64 = 0;
    let ghost before = steps@;
    while i < 10
        invariant
            i <= 10,
            steps@ == before + crate::script::rounds(
                i as int,
                |i: int| cache_reuse_sorts_round(i as u64),
            ),
        decreases 10 - i,
    {
        let mut round = cache_reuse_sorts(i);
        steps.append(&mut round);
        i = i + 1;
    }
    let mut more = cache_reuse_mask();
    steps.append(&mut more);
    i = 0;
    let ghost before = steps@;
    while i < 10
        invariant
            i <= 10,
            steps@ == before + crate::script::rounds(
                i as int,
                |i: int| cache_reuse_filters_round(i as u64),
            ),
        decreases 10 - i,
    {
        let mut round = cache_reuse_filters(i);
        steps.append(&mut round);
        i = i + 1;
    }
    let mut more = cache_reuse_table();
    steps.append(&mut more);
    i = 0;
    let ghost before = steps@;
    while i < 10
        invariant
            i <= 10,
            steps@ == before + crate::script::rounds(
                i as int,
                |i: int| cache_reuse_dedups_round(i as u64),
            ),
        decreases 10 - i,
    {
        let mut round = cache_reuse_dedups(i);
        steps.append(&mut round);
        i = i + 1;
    }
    let mut more = cache_reuse_end();
    steps.append(&mut more);
    Script::new("test_cache_reuse", steps)
}

/// The steps of [`test_cache_thrashing`].
pub open spec fn cache_thrashing_steps() -> Seq<Step> {
    seq![
        fill(
            0,
            num(5000000),
            modulo(plus(times(ix(), num(1103515245)), num(12345)), num(10000000)),
        ),
        upload(0, 0, note0("Failed to create large buffer: {}")),
        sort(0, 1, note0("Large sort failed: {}")),
        fetch(1, 1, note0("Large download failed: {}")),
        check(
            differs(len(1), num(5000000)),
            note2("Large sort: expected {} rows, got {}", num(5000000), len(1)),
        ),
        scan(
            num(1),
            len(1),
            10000,
            fault1(
                lt(here(1), before(1)),
                note3("Large sort incorrect at index {}: {} < {}", ix(), here(1), before(1)),
            ),
        ),
        scan(
            num(1),
            least(num(1000), len(1)),
            1,
            fault1(lt(here(1), before(1)), note1("Large sort incorrect at start index {}", ix())),
        ),
        scan(
            pick(lt(num(1000), len(1)), minus(len(1), num(999)), len(1)),
            len(1),
            1,
            fault1(lt(here(1), before(1)), note1("Large sort incorrect at end index {}", ix())),
        ),
        fill(2, num(1000000), modulo(times(ix(), num(31337)), num(1000000))),
        upload(2, 2, note0("Failed to create medium buffer: {}")),
        sort(2, 3, note0("Medium sort failed: {}")),
        fetch(3, 3, note0("Medium download failed: {}")),
        scan(
            num(1),
            len(3),
            1000,
            fault1(lt(here(3), before(3)), note1("Medium sort incorrect at index {}", ix())),
        ),
        fill(4, num(5000000), same_as(modulo(ix(), num(4)), num(0))),
        filter(0, 4, 4, note0("Large filter failed: {}")),
        match_rows(
            4,
            num(1250000),
            note2("Large filter: expected {} rows, got {}", num(1250000), reg(COUNT)),
        ),
        sync(note0("Sync failed: {}")),
    ]
}

/// Columns larger than the caches are sorted and filtered.
pub fn test_cache_thrashing() -> (script: Script)
    ensures
        script@ == crate::script::plan("test_cache_thrashing", cache_thrashing_steps()),
{
    let steps: Vec<Step> = vec![
        fill(
            0,
            num(5000000),
            modulo(plus(times(ix(), num(1103515245)), num(12345)), num(10000000)),
        ),
        upload(0, 0, note0("Failed to create large buffer: {}")),
        sort(0, 1, note0("Large sort failed: {}")),
        fetch(1, 1, note0("Large download failed: {}")),
        check(
            differs(len(1), num(5000000)),
            note2("Large sort: expected {} rows, got {}", num(5000000), len(1)),
        ),
        scan(
            num(1),
            len(1),
            10000,
            fault1(
                lt(here(1), before(1)),
                note3("Large sort incorrect at index {}: {} < {}", ix(), here(1), before(1)),
            ),
        ),
        scan(
            num(1),
            least(num(1000), len(1)),
            1,
            fault1(lt(here(1), before(1)), note1("Large sort incorrect at start index {}", ix())),
        ),
        scan(
            pick(lt(num(1000), len(1)), minus(len(1), num(999)), len(1)),
            len(1),
            1,
            fault1(lt(here(1), before(1)), note1("Large sort incorrect at end index {}", ix())),
        ),
        fill(2, num(1000000), modulo(times(ix(), num(31337)), num(1000000))),
        upload(2, 2, note0("Failed to create medium buffer: {}")),
        sort(2, 3, note0("Medium sort failed: {}")),
        fetch(3, 3, note0("Medium download failed: {}")),
        scan(
            num(1),
            len(3),
            1000,
            fault1(lt(here(3), before(3)), note1("Medium sort incorrect at index {}", ix())),
        ),
        fill(4, num(5000000), same_as(modulo(ix(), num(4)), num(0))),
        filter(0, 4, 4, note0("Large filter failed: {}")),
        match_rows(
            4,
            num(1250000),
            note2("Large filter: expected {} rows, got {}", num(1250000), reg(COUNT)),
        ),
        sync(note0("Sync failed: {}")),
    ];
    Script::new("test_cache_thrashing", steps)
}

/// The sorts of [`test_memory_locality`].
pub open spec fn memory_locality_sorts_steps() -> Seq<Step> {
    seq![
        fill(0, num(100000), ix()),
        upload(0, 0, note0("Failed to create sequential buffer: {}")),
        sort(0, 1, note0("Sort sequential failed: {}")),
        fetch(1, 1, note0("Download sequential failed: {}")),
        scan(
            num(0),
            len(1),
            1,
            fault1(
                differs(here(1), ix()),
                note3(
                    "Sequential sort incorrect at index {}: expected {}, got {}",
                    ix(),
                    ix(),
                    here(1),
                ),
            ),
        ),
        fill(2, num(100000), minus(minus(num(100000), num(1)), ix())),
        upload(2, 2, note0("Failed to create reverse buffer: {}")),
        sort(2, 3, note0("Sort reverse failed: {}")),
        fetch(3, 3, note0("Download reverse failed: {}")),
        scan(
            num(0),
            len(3),
            1,
            fault1(
                differs(here(3), ix()),
                note3(
                    "Reverse sort incorrect at index {}: expected {}, got {}",
                    ix(),
                    ix(),
                    here(3),
                ),
            ),
        ),
        fill(4, num(100000), modulo(plus(times(ix(), num(1103515245)), num(12345)), num(100000))),
        upload(4, 4, note0("Failed to create random buffer: {}")),
        sort(4, 5, note0("Sort random failed: {}")),
        fetch(5, 5, note0("Download random failed: {}")),
        scan(
            num(1),
            len(5),
            1,
            fault1(
                lt(here(5), before(5)),
                note3("Random sort incorrect at index {}: {} < {}", ix(), here(5), before(5)),
            ),
        ),
    ]
}

/// Writes the sorts of [`test_memory_locality`].
fn memory_locality_sorts() -> (steps: Vec<Step>)
    ensures
        steps@ == memory_locality_sorts_steps(),
{
    vec![
        fill(0, num(100000), ix()),
        upload(0, 0, note0("Failed to create sequential buffer: {}")),
        sort(0, 1, note0("Sort sequential failed: {}")),
        fetch(1, 1, note0("Download sequential failed: {}")),
        scan(
            num(0),
            len(1),
            1,
            fault1(
                differs(here(1), ix()),
                note3(
                    "Sequential sort incorrect at index {}: expected {}, got {}",
                    ix(),
                    ix(),
                    here(1),
                ),
            ),
        ),
        fill(2, num(100000), minus(minus(num(100000), num(1)), ix())),
        upload(2, 2, note0("Failed to create reverse buffer: {}")),
        sort(2, 3, note0("Sort reverse failed: {}")),
        fetch(3, 3, note0("Download reverse failed: {}")),
        scan(
            num(0),
            len(3),
            1,
            fault1(
                differs(here(3), ix()),
                note3(
                    "Reverse sort incorrect at index {}: expected {}, got {}",
                    ix(),
                    ix(),
                    here(3),
                ),
            ),
        ),
        fill(4, num(100000), modulo(plus(times(ix(), num(1103515245)), num(12345)), num(100000))),
        upload(4, 4, note0("Failed to create random buffer: {}")),
        sort(4, 5, note0("Sort random failed: {}")),
        fetch(5, 5, note0("Download random failed: {}")),
        scan(
            num(1),
            len(5),
            1,
            fault1(
                lt(here(5), before(5)),
                note3("Random sort incorrect at index {}: {} < {}", ix(), here(5), before(5)),
            ),
        ),
    ]
}

/// The filters of [`test_memory_locality`].
pub open spec fn memory_locality_filters_steps() -> Seq<Step> {
    seq![
        fill(6, num(100000), lt(ix(), num(50000))),
        filter(0, 6, 6, note0("Sequential filter failed: {}")),
        match_rows(
            6,
            num(50000),
            note2("Sequential filter: expected {} rows, got {}", num(50000), reg(COUNT)),
        ),
        fill(7, num(100000), same_as(modulo(ix(), num(2)), num(0))),
        filter(0, 7, 7, note0("Alternating filter failed: {}")),
        match_rows(
            7,
            num(50000),
            note2("Alternating filter: expected {} rows, got {}", num(50000), reg(COUNT)),
        ),
        fill(8, num(100000), same_as(modulo(ix(), num(100)), num(0))),
        filter(0, 8, 8, note0("Sparse filter failed: {}")),
        match_rows(
            8,
            num(1000),
            note2("Sparse filter: expected {} rows, got {}", num(1000), reg(COUNT)),
        ),
        sync(note0("Sync failed: {}")),
    ]
}

/// Writes the filters of [`test_memory_locality`].
fn memory_locality_filters() -> (steps: Vec<Step>)
    ensures
        steps@ == memory_locality_filters_steps(),
{
    vec![
        fill(6, num(100000), lt(ix(), num(50000))),
        filter(0, 6, 6, note0("Sequential filter failed: {}")),
        match_rows(
            6,
            num(50000),
            note2("Sequential filter: expected {} rows, got {}", num(50000), reg(COUNT)),
        ),
        fill(7, num(100000), same_as(modulo(ix(), num(2)), num(0))),
        filter(0, 7, 7, note0("Alternating filter failed: {}")),
        match_rows(
            7,
            num(50000),
            note2("Alternating filter: expected {} rows, got {}", num(50000), reg(COUNT)),
        ),
        fill(8, num(100000), same_as(modulo(ix(), num(100)), num(0))),
        filter(0, 8, 8, note0("Sparse filter failed: {}")),
        match_rows(
            8,
            num(1000),
            note2("Sparse filter: expected {} rows, got {}", num(1000), reg(COUNT)),
        ),
        sync(note0("Sync failed: {}")),
    ]
}

/// The steps of [`test_memory_locality`].
pub open spec fn memory_locality_steps() -> Seq<Step> {
    memory_locality_sorts_steps()
        + memory_locality_filters_steps()
}

/// Rising, falling and scattered columns are sorted and filtered alike.
pub fn test_memory_locality() -> (script: Script)
    ensures
        script@ == crate::script::plan("test_memory_locality", memory_locality_steps()),
{
    let mut steps: Vec<Step> = memory_locality_sorts();
    let mut more = memory_locality_filters();
    steps.append(&mut more);
    Script::new("test_memory_locality", steps)
}

/// The small of [`test_l2_cache_effects`].
pub open spec fn l2_cache_effects_small_steps() -> Seq<Step> {
    seq![
        fill(0, num(64000), modulo(plus(times(ix(), num(17)), num(13)), num(64000))),
        upload(0, 0, note0("Failed to create small buffer: {}")),
    ]
}

/// Writes the small of [`test_l2_cache_effects`].
fn l2_cache_effects_small() -> (steps: Vec<Step>)
    ensures
        steps@ == l2_cache_effects_small_steps(),
{
    vec![
        fill(0, num(64000), modulo(plus(times(ix(), num(17)), num(13)), num(64000))),
        upload(0, 0, note0("Failed to create small buffer: {}")),
    ]
}

/// One round of the small sorts of [`test_l2_cache_effects`].
pub open spec fn l2_cache_effects_small_sorts_round(i: u64) -> Seq<Step> {
    seq![
        sort(0, 1, note1("Small sort iteration {} failed: {}", num(i))),
        fetch(1, 1, note1("Small download iteration {} failed: {}", num(i))),
        scan(
            num(1),
            len(1),
            1,
            fault1(
                lt(here(1), before(1)),
                note2("Small sort iteration {} incorrect at index {}", num(i), ix()),
            ),
        ),
        release(1),
    ]
}

/// Writes one round of the small sorts of [`test_l2_cache_effects`].
fn l2_cache_effects_small_sorts(i: u64) -> (steps: Vec<Step>)
    requires
        i < 3,
    ensures
        steps@ == l2_cache_effects_small_sorts_round(i),
{
    vec![
        sort(0, 1, note1("Small sort iteration {} failed: {}", num(i))),
        fetch(1, 1, note1("Small download iteration {} failed: {}", num(i))),
        scan(
            num(1),
            len(1),
            1,
            fault1(
                lt(here(1), before(1)),
                note2("Small sort iteration {} incorrect at index {}", num(i), ix()),
            ),
        ),
        release(1),
    ]
}

/// The larger of [`test_l2_cache_effects`].
pub open spec fn l2_cache_effects_larger_steps() -> Seq<Step> {
    seq![
        fill(2, num(512000), modulo(times(ix(), num(31337)), num(512000))),
        upload(1, 2, note0("Failed to create medium buffer: {}")),
        sort(1, 2, note0("Medium sort failed: {}")),
        fetch(2, 3, note0("Medium download failed: {}")),
        scan(
            num(1),
            len(3),
            1000,
            fault1(lt(here(3), before(3)), note1("Medium sort incorrect at index {}", ix())),
        ),
        fill(
            4,
            num(2000000),
            modulo(plus(times(ix(), num(1103515245)), num(12345)), num(2000000)),
        ),
        upload(3, 4, note0("Failed to create large buffer: {}")),
        sort(3, 4, note0("Large sort failed: {}")),
        fetch(4, 5, note0("Large download failed: {}")),
        scan(
            num(1),
            len(5),
            10000,
            fault1(lt(here(5), before(5)), note1("Large sort incorrect at index {}", ix())),
        ),
        fill(6, num(64000), times(ix(), num(3))),
        upload(5, 6, note0("Failed to create small2 buffer: {}")),
    ]
}

/// Writes the larger of [`test_l2_cache_effects`].
fn l2_cache_effects_larger() -> (steps: Vec<Step>)
    ensures
        steps@ == l2_cache_effects_larger_steps(),
{
    vec![
        fill(2, num(512000), modulo(times(ix(), num(31337)), num(512000))),
        upload(1, 2, note0("Failed to create medium buffer: {}")),
        sort(1, 2, note0("Medium sort failed: {}")),
        fetch(2, 3, note0("Medium download failed: {}")),
        scan(
            num(1),
            len(3),
            1000,
            fault1(lt(here(3), before(3)), note1("Medium sort incorrect at index {}", ix())),
        ),
        fill(
            4,
            num(2000000),
            modulo(plus(times(ix(), num(1103515245)), num(12345)), num(2000000)),
        ),
        upload(3, 4, note0("Failed to create large buffer: {}")),
        sort(3, 4, note0("Large sort failed: {}")),
        fetch(4, 5, note0("Large download failed: {}")),
        scan(
            num(1),
            len(5),
            10000,
            fault1(lt(here(5), before(5)), note1("Large sort incorrect at index {}", ix())),
        ),
        fill(6, num(64000), times(ix(), num(3))),
        upload(5, 6, note0("Failed to create small2 buffer: {}")),
    ]
}

/// One round of the interleaved of [`test_l2_cache_effects`].
pub open spec fn l2_cache_effects_interleaved_round(i: u64) -> Seq<Step> {
    seq![
        sort(5, 6, note1("Interleaved small sort {} failed: {}", num(i))),
        sort(1, 7, note1("Interleaved medium sort {} failed: {}", num(i))),
        match_rows(
            6,
            num(64000),
            note3(
                "Interleaved {}: small has {} rows, expected {}",
                num(i),
                reg(COUNT),
                num(64000),
            ),
        ),
        match_rows(
            7,
            num(512000),
            note3(
                "Interleaved {}: medium has {} rows, expected {}",
                num(i),
                reg(COUNT),
                num(512000),
            ),
        ),
        release(6),
    ]
}

/// Writes one round of the interleaved of [`test_l2_cache_effects`].
fn l2_cache_effects_interleaved(i: u64) -> (steps: Vec<Step>)
    requires
        i < 3,
    ensures
        steps@ == l2_cache_effects_interleaved_round(i),
{
    vec![
        sort(5, 6, note1("Interleaved small sort {} failed: {}", num(i))),
        sort(1, 7, note1("Interleaved medium sort {} failed: {}", num(i))),
        match_rows(
            6,
            num(64000),
            note3(
                "Interleaved {}: small has {} rows, expected {}",
                num(i),
                reg(COUNT),
                num(64000),
            ),
        ),
        match_rows(
            7,
            num(512000),
            note3(
                "Interleaved {}: medium has {} rows, expected {}",
                num(i),
                reg(COUNT),
                num(512000),
            ),
        ),
        release(6),
    ]
}

/// The end of [`test_l2_cache_effects`].
pub open spec fn l2_cache_effects_end_steps() -> Seq<Step> {
    seq![
        sync(note0("Sync failed: {}")),
    ]
}

/// Writes the end of [`test_l2_cache_effects`].
fn l2_cache_effects_end() -> (steps: Vec<Step>)
    ensures
        steps@ == l2_cache_effects_end_steps(),
{
    vec![
        sync(note0("Sync failed: {}")),
    ]
}

/// The steps of [`test_l2_cache_effects`].
pub open spec fn l2_cache_effects_steps() -> Seq<Step> {
    l2_cache_effects_small_steps()
        + crate::script::rounds(3, |i: int| l2_cache_effects_small_sorts_round(i as u64))
        + l2_cache_effects_larger_steps()
        + crate::script::rounds(3, |i: int| l2_cache_effects_interleaved_round(i as u64))
        + l2_cache_effects_end_steps()
}

/// Columns that fit the caches, and columns that do not, are sorted alike.
pub fn test_l2_cache_effects() -> (script: Script)
    ensures
        script@ == crate::script::plan("test_l2_cache_effects", l2_cache_effects_steps()),
{
    let mut steps: Vec<Step> = l2_cache_effects_small();
    let mut i: u64 = 0;
    let ghost before = steps@;
    while i < 3
        invariant
            i <= 3,
            steps@ == before + crate::script::rounds(
                i as int,
                |i: int| l2_cache_effects_small_sorts_round(i as u64),
            ),
        decreases 3 - i,
    {
        let mut round = l2_cache_effects_small_sorts(i);
        steps.append(&mut round);
        i = i + 1;
    }
    let mut more = l2_cache_effects_larger();
    steps.append(&mut more);
    i = 0;
    let ghost before = steps@;
    while i < 3
        invariant
            i <= 3,
            steps@ == before + crate::script::rounds(
                i as int,
                |i: int| l2_cache_effects_interleaved_round(i as u64),
            ),
        decreases 3 - i,
    {
        let mut round = l2_cache_effects_interleaved(i);
        steps.append(&mut round);
        i = i + 1;
    }
    let mut more = l2_cache_effects_end();
    steps.append(&mut more);
    Script::new("test_l2_cache_effects", steps)
}

/// The tests of the category.
pub open spec fn tests() -> Seq<Plan> {
    seq![
        crate::script::plan("test_cache_line_access", cache_line_access_steps()),
        crate::script::plan("test_cache_reuse", cache_reuse_steps()),
        crate::script::plan("test_cache_thrashing", cache_thrashing_steps()),
        crate::script::plan("test_memory_locality", memory_locality_steps()),
        crate::script::plan("test_l2_cache_effects", l2_cache_effects_steps()),
    ]
}

/// Lists the tests of the category, in the order in which they run.
pub fn run_all() -> (category: CategoryRun)
    ensures
        category.title() == "c17_caching",
        category.waiting() == tests(),
        category.test() is None,
        category.run() is None,
        category.done() == Seq::<Outcome>::empty(),
{
    let scripts: Vec<Script> = vec![
        test_cache_line_access(),
        test_cache_reuse(),
        test_cache_thrashing(),
        test_memory_locality(),
        test_l2_cache_effects(),
    ];
    let category = CategoryRun::new("c17_caching", scripts);
    assert(category.waiting() =~= tests());
    category
}

} // verus!
