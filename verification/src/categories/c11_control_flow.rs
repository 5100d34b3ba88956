//! Control flow: filters that keep all rows, none, some, and scattered ones.

use vstd::prelude::*;
use crate::expr::{
    alike, differs, here, ix, len, lt, modulo, not, num, over, plus, reg, same_as, sum_of, times,
    wrap_plus, wrap_times,
};
use crate::harness::{CategoryRun, Outcome};
use crate::message::{note0, note1, note2, note3, note4};
use crate::script::{
    check, COUNT, fault1, fetch, fill, filter, match_rows, Plan, put, release, scan, Script, select,
    Step, sync, upload,
};

verus! {

/// Sizes of filtered columns.
pub const SIZES: [u64; 4] = [100, 1000, 10000, 100000];

/// Sizes of columns that are filtered sparsely.
pub const LONG_SIZES: [u64; 3] = [1000, 10000, 100000];

/// One round of the sizes of [`test_filter_all_pass`].
pub open spec fn filter_all_pass_sizes_round(i: u64) -> Seq<Step> {
    let n = SIZES@[i as int];
    seq![
        fill(0, num(n), ix()),
        upload(0, 0, note1("Size {}: failed to create buffer: {}", num(n))),
        fill(1, num(n), num(1)),
        filter(0, 1, 1, note1("Size {}: filter failed: {}", num(n))),
        match_rows(
            1,
            num(n),
            note3(
                "Size {}: filter returned {} rows, expected {} (100% selectivity)",
                num(n),
                reg(COUNT),
                num(n),
            ),
        ),
        fetch(1, 2, note1("Size {}: failed to download: {}", num(n))),
        check(not(alike(2, 0)), note1("Size {}: filtered data doesn't match original", num(n))),
        release(0),
    ]
}

/// Writes one round of the sizes of [`test_filter_all_pass`].
fn filter_all_pass_sizes(i: u64) -> (steps: Vec<Step>)
    requires
        i < 4,
    ensures
        steps@ == filter_all_pass_sizes_round(i),
{
    let n: u64 = SIZES[i as usize];
    vec![
        fill(0, num(n), ix()),
        upload(0, 0, note1("Size {}: failed to create buffer: {}", num(n))),
        fill(1, num(n), num(1)),
        filter(0, 1, 1, note1("Size {}: filter failed: {}", num(n))),
        match_rows(
            1,
            num(n),
            note3(
                "Size {}: filter returned {} rows, expected {} (100% selectivity)",
                num(n),
                reg(COUNT),
                num(n),
            ),
        ),
        fetch(1, 2, note1("Size {}: failed to download: {}", num(n))),
        check(not(alike(2, 0)), note1("Size {}: filtered data doesn't match original", num(n))),
        release(0),
    ]
}

/// The end of [`test_filter_all_pass`].
pub open spec fn filter_all_pass_end_steps() -> Seq<Step> {
    seq![
        sync(note0("Sync failed: {}")),
    ]
}

/// Writes the end of [`test_filter_all_pass`].
fn filter_all_pass_end() -> (steps: Vec<Step>)
    ensures
        steps@ == filter_all_pass_end_steps(),
{
    vec![
        sync(note0("Sync failed: {}")),
    ]
}

/// The steps of [`test_filter_all_pass`].
pub open spec fn filter_all_pass_steps() -> Seq<Step> {
    crate::script::rounds(4, |i: int| filter_all_pass_sizes_round(i as u64))
        + filter_all_pass_end_steps()
}

/// A filter that keeps everything changes nothing.
pub fn test_filter_all_pass() -> (script: Script)
    ensures
        script@ == crate::script::plan("test_filter_all_pass", filter_all_pass_steps()),
{
    let mut steps: Vec<Step> = Vec::new();
    let mut i: u64 = 0;
    while i < 4
        invariant
            i <= 4,
            steps@ == crate::script::rounds(
                i as int,
                |i: int| filter_all_pass_sizes_round(i as u64),
            ),
        decreases 4 - i,
    {
        let mut round = filter_all_pass_sizes(i);
        steps.append(&mut round);
        i = i + 1;
    }
    let mut more = filter_all_pass_end();
    steps.append(&mut more);
    Script::new("test_filter_all_pass", steps)
}

/// One round of the sizes of [`test_filter_none_pass`].
pub open spec fn filter_none_pass_sizes_round(i: u64) -> Seq<Step> {
    let n = SIZES@[i as int];
    seq![
        fill(0, num(n), ix()),
        upload(0, 0, note1("Size {}: failed to create buffer: {}", num(n))),
        fill(1, num(n), num(0)),
        filter(0, 1, 1, note1("Size {}: filter failed: {}", num(n))),
        match_rows(
            1,
            num(0),
            note2(
                "Size {}: filter returned {} rows, expected 0 (0% selectivity)",
                num(n),
                reg(COUNT),
            ),
        ),
        release(0),
    ]
}

/// Writes one round of the sizes of [`test_filter_none_pass`].
fn filter_none_pass_sizes(i: u64) -> (steps: Vec<Step>)
    requires
        i < 4,
    ensures
        steps@ == filter_none_pass_sizes_round(i),
{
    let n: u64 = SIZES[i as usize];
    vec![
        fill(0, num(n), ix()),
        upload(0, 0, note1("Size {}: failed to create buffer: {}", num(n))),
        fill(1, num(n), num(0)),
        filter(0, 1, 1, note1("Size {}: filter failed: {}", num(n))),
        match_rows(
            1,
            num(0),
            note2(
                "Size {}: filter returned {} rows, expected 0 (0% selectivity)",
                num(n),
                reg(COUNT),
            ),
        ),
        release(0),
    ]
}

/// The end of [`test_filter_none_pass`].
pub open spec fn filter_none_pass_end_steps() -> Seq<Step> {
    seq![
        sync(note0("Sync failed: {}")),
    ]
}

/// Writes the end of [`test_filter_none_pass`].
fn filter_none_pass_end() -> (steps: Vec<Step>)
    ensures
        steps@ == filter_none_pass_end_steps(),
{
    vec![
        sync(note0("Sync failed: {}")),
    ]
}

/// The steps of [`test_filter_none_pass`].
pub open spec fn filter_none_pass_steps() -> Seq<Step> {
    crate::script::rounds(4, |i: int| filter_none_pass_sizes_round(i as u64))
        + filter_none_pass_end_steps()
}

/// A filter that drops everything leaves nothing.
pub fn test_filter_none_pass() -> (script: Script)
    ensures
        script@ == crate::script::plan("test_filter_none_pass", filter_none_pass_steps()),
{
    let mut steps: Vec<Step> = Vec::new();
    let mut i: u64 = 0;
    while i < 4
        invariant
            i <= 4,
            steps@ == crate::script::rounds(
                i as int,
                |i: int| filter_none_pass_sizes_round(i as u64),
            ),
        decreases 4 - i,
    {
        let mut round = filter_none_pass_sizes(i);
        steps.append(&mut round);
        i = i + 1;
    }
    let mut more = filter_none_pass_end();
    steps.append(&mut more);
    Script::new("test_filter_none_pass", steps)
}

/// One round of the sizes of [`test_filter_half_pass`].
pub open spec fn filter_half_pass_sizes_round(i: u64) -> Seq<Step> {
    let n = SIZES@[i as int];
    seq![
        fill(0, num(n), ix()),
        upload(0, 0, note1("Size {}: failed to create buffer: {}", num(n))),
        fill(1, num(n), lt(ix(), over(num(n), num(2)))),
        filter(0, 1, 1, note1("Size {}: filter failed: {}", num(n))),
        match_rows(
            1,
            over(num(n), num(2)),
            note3(
                "Size {}: filter returned {} rows, expected {} (50% selectivity)",
                num(n),
                reg(COUNT),
                over(num(n), num(2)),
            ),
        ),
        fetch(1, 2, note1("Size {}: failed to download: {}", num(n))),
        scan(
            num(0),
            len(2),
            1,
            fault1(
                differs(here(2), ix()),
                note4("Size {}: filtered[{}] = {}, expected {}", num(n), ix(), here(2), ix()),
            ),
        ),
        release(0),
    ]
}

/// Writes one round of the sizes of [`test_filter_half_pass`].
fn filter_half_pass_sizes(i: u64) -> (steps: Vec<Step>)
    requires
        i < 4,
    ensures
        steps@ == filter_half_pass_sizes_round(i),
{
    let n: u64 = SIZES[i as usize];
    vec![
        fill(0, num(n), ix()),
        upload(0, 0, note1("Size {}: failed to create buffer: {}", num(n))),
        fill(1, num(n), lt(ix(), over(num(n), num(2)))),
        filter(0, 1, 1, note1("Size {}: filter failed: {}", num(n))),
        match_rows(
            1,
            over(num(n), num(2)),
            note3(
                "Size {}: filter returned {} rows, expected {} (50% selectivity)",
                num(n),
                reg(COUNT),
                over(num(n), num(2)),
            ),
        ),
        fetch(1, 2, note1("Size {}: failed to download: {}", num(n))),
        scan(
            num(0),
            len(2),
            1,
            fault1(
                differs(here(2), ix()),
                note4("Size {}: filtered[{}] = {}, expected {}", num(n), ix(), here(2), ix()),
            ),
        ),
        release(0),
    ]
}

/// The end of [`test_filter_half_pass`].
pub open spec fn filter_half_pass_end_steps() -> Seq<Step> {
    seq![
        sync(note0("Sync failed: {}")),
    ]
}

/// Writes the end of [`test_filter_half_pass`].
fn filter_half_pass_end() -> (steps: Vec<Step>)
    ensures
        steps@ == filter_half_pass_end_steps(),
{
    vec![
        sync(note0("Sync failed: {}")),
    ]
}

/// The steps of [`test_filter_half_pass`].
pub open spec fn filter_half_pass_steps() -> Seq<Step> {
    crate::script::rounds(4, |i: int| filter_half_pass_sizes_round(i as u64))
        + filter_half_pass_end_steps()
}

/// A filter keeps the first half.
pub fn test_filter_half_pass() -> (script: Script)
    ensures
        script@ == crate::script::plan("test_filter_half_pass", filter_half_pass_steps()),
{
    let mut steps: Vec<Step> = Vec::new();
    let mut i: u64 = 0;
    while i < 4
        invariant
            i <= 4,
            steps@ == crate::script::rounds(
                i as int,
                |i: int| filter_half_pass_sizes_round(i as u64),
            ),
        decreases 4 - i,
    {
        let mut round = filter_half_pass_sizes(i);
        steps.append(&mut round);
        i = i + 1;
    }
    let mut more = filter_half_pass_end();
    steps.append(&mut more);
    Script::new("test_filter_half_pass", steps)
}

/// One round of the sizes of [`test_sparse_predicate`].
pub open spec fn sparse_predicate_sizes_round(i: u64) -> Seq<Step> {
    let n = LONG_SIZES@[i as int];
    seq![
        fill(0, num(n), ix()),
        upload(0, 0, note1("Size {}: failed to create buffer: {}", num(n))),
        fill(1, num(n), same_as(modulo(ix(), num(100)), num(0))),
        put(0, sum_of(1)),
        filter(0, 1, 1, note1("Size {}: filter failed: {}", num(n))),
        match_rows(
            1,
            reg(0),
            note3(
                "Size {}: filter returned {} rows, expected {} (~1% selectivity)",
                num(n),
                reg(COUNT),
                reg(0),
            ),
        ),
        fetch(1, 2, note1("Size {}: failed to download: {}", num(n))),
        scan(
            num(0),
            len(2),
            1,
            fault1(
                differs(here(2), times(ix(), num(100))),
                note4(
                    "Size {}: filtered[{}] = {}, expected {}",
                    num(n),
                    ix(),
                    here(2),
                    times(ix(), num(100)),
                ),
            ),
        ),
        release(0),
    ]
}

/// Writes one round of the sizes of [`test_sparse_predicate`].
fn sparse_predicate_sizes(i: u64) -> (steps: Vec<Step>)
    requires
        i < 3,
    ensures
        steps@ == sparse_predicate_sizes_round(i),
{
    let n: u64 = LONG_SIZES[i as usize];
    vec![
        fill(0, num(n), ix()),
        upload(0, 0, note1("Size {}: failed to create buffer: {}", num(n))),
        fill(1, num(n), same_as(modulo(ix(), num(100)), num(0))),
        put(0, sum_of(1)),
        filter(0, 1, 1, note1("Size {}: filter failed: {}", num(n))),
        match_rows(
            1,
            reg(0),
            note3(
                "Size {}: filter returned {} rows, expected {} (~1% selectivity)",
                num(n),
                reg(COUNT),
                reg(0),
            ),
        ),
        fetch(1, 2, note1("Size {}: failed to download: {}", num(n))),
        scan(
            num(0),
            len(2),
            1,
            fault1(
                differs(here(2), times(ix(), num(100))),
                note4(
                    "Size {}: filtered[{}] = {}, expected {}",
                    num(n),
                    ix(),
                    here(2),
                    times(ix(), num(100)),
                ),
            ),
        ),
        release(0),
    ]
}

/// The end of [`test_sparse_predicate`].
pub open spec fn sparse_predicate_end_steps() -> Seq<Step> {
    seq![
        sync(note0("Sync failed: {}")),
    ]
}

/// Writes the end of [`test_sparse_predicate`].
fn sparse_predicate_end() -> (steps: Vec<Step>)
    ensures
        steps@ == sparse_predicate_end_steps(),
{
    vec![
        sync(note0("Sync failed: {}")),
    ]
}

/// The steps of [`test_sparse_predicate`].
pub open spec fn sparse_predicate_steps() -> Seq<Step> {
    crate::script::rounds(3, |i: int| sparse_predicate_sizes_round(i as u64))
        + sparse_predicate_end_steps()
}

/// A filter keeps one row in a hundred.
pub fn test_sparse_predicate() -> (script: Script)
    ensures
        script@ == crate::script::plan("test_sparse_predicate", sparse_predicate_steps()),
{
    let mut steps: Vec<Step> = Vec::new();
    let mut i: u64 = 0;
    while i < 3
        invariant
            i <= 3,
            steps@ == crate::script::rounds(
                i as int,
                |i: int| sparse_predicate_sizes_round(i as u64),
            ),
        decreases 3 - i,
    {
        let mut round = sparse_predicate_sizes(i);
        steps.append(&mut round);
        i = i + 1;
    }
    let mut more = sparse_predicate_end();
    steps.append(&mut more);
    Script::new("test_sparse_predicate", steps)
}

/// One round of the sizes of [`test_dense_predicate`].
pub open spec fn dense_predicate_sizes_round(i: u64) -> Seq<Step> {
    let n = LONG_SIZES@[i as int];
    seq![
        fill(0, num(n), ix()),
        upload(0, 0, note1("Size {}: failed to create buffer: {}", num(n))),
        fill(1, num(n), differs(modulo(ix(), num(100)), num(0))),
        put(0, sum_of(1)),
        filter(0, 1, 1, note1("Size {}: filter failed: {}", num(n))),
        match_rows(
            1,
            reg(0),
            note3(
                "Size {}: filter returned {} rows, expected {} (~99% selectivity)",
                num(n),
                reg(COUNT),
                reg(0),
            ),
        ),
        fetch(1, 2, note1("Size {}: failed to download: {}", num(n))),
        scan(
            num(0),
            len(2),
            1,
            fault1(
                same_as(modulo(here(2), num(100)), num(0)),
                note3(
                    "Size {}: filtered[{}] = {} is a multiple of 100 (should be filtered)",
                    num(n),
                    ix(),
                    here(2),
                ),
            ),
        ),
        select(3, num(n), differs(modulo(ix(), num(100)), num(0)), ix()),
        check(
            not(alike(2, 3)),
            note1("Size {}: filtered data doesn't match expected values", num(n)),
        ),
        release(0),
    ]
}

/// Writes one round of the sizes of [`test_dense_predicate`].
fn dense_predicate_sizes(i: u64) -> (steps: Vec<Step>)
    requires
        i < 3,
    ensures
        steps@ == dense_predicate_sizes_round(i),
{
    let n: u64 = LONG_SIZES[i as usize];
    vec![
        fill(0, num(n), ix()),
        upload(0, 0, note1("Size {}: failed to create buffer: {}", num(n))),
        fill(1, num(n), differs(modulo(ix(), num(100)), num(0))),
        put(0, sum_of(1)),
        filter(0, 1, 1, note1("Size {}: filter failed: {}", num(n))),
        match_rows(
            1,
            reg(0),
            note3(
                "Size {}: filter returned {} rows, expected {} (~99% selectivity)",
                num(n),
                reg(COUNT),
                reg(0),
            ),
        ),
        fetch(1, 2, note1("Size {}: failed to download: {}", num(n))),
        scan(
            num(0),
            len(2),
            1,
            fault1(
                same_as(modulo(here(2), num(100)), num(0)),
                note3(
                    "Size {}: filtered[{}] = {} is a multiple of 100 (should be filtered)",
                    num(n),
                    ix(),
                    here(2),
                ),
            ),
        ),
        select(3, num(n), differs(modulo(ix(), num(100)), num(0)), ix()),
        check(
            not(alike(2, 3)),
            note1("Size {}: filtered data doesn't match expected values", num(n)),
        ),
        release(0),
    ]
}

/// The end of [`test_dense_predicate`].
pub open spec fn dense_predicate_end_steps() -> Seq<Step> {
    seq![
        sync(note0("Sync failed: {}")),
    ]
}

/// Writes the end of [`test_dense_predicate`].
fn dense_predicate_end() -> (steps: Vec<Step>)
    ensures
        steps@ == dense_predicate_end_steps(),
{
    vec![
        sync(note0("Sync failed: {}")),
    ]
}

/// The steps of [`test_dense_predicate`].
pub open spec fn dense_predicate_steps() -> Seq<Step> {
    crate::script::rounds(3, |i: int| dense_predicate_sizes_round(i as u64))
        + dense_predicate_end_steps()
}

/// A filter drops one row in a hundred.
pub fn test_dense_predicate() -> (script: Script)
    ensures
        script@ == crate::script::plan("test_dense_predicate", dense_predicate_steps()),
{
    let mut steps: Vec<Step> = Vec::new();
    let mut i: u64 = 0;
    while i < 3
        invariant
            i <= 3,
            steps@ == crate::script::rounds(
                i as int,
                |i: int| dense_predicate_sizes_round(i as u64),
            ),
        decreases 3 - i,
    {
        let mut round = dense_predicate_sizes(i);
        steps.append(&mut round);
        i = i + 1;
    }
    let mut more = dense_predicate_end();
    steps.append(&mut more);
    Script::new("test_dense_predicate", steps)
}

/// One round of the sizes of [`test_alternating_predicate`].
pub open spec fn alternating_predicate_sizes_round(i: u64) -> Seq<Step> {
    let n = SIZES@[i as int];
    seq![
        fill(0, num(n), ix()),
        upload(0, 0, note1("Size {}: failed to create buffer: {}", num(n))),
        fill(1, num(n), same_as(modulo(ix(), num(2)), num(0))),
        filter(0, 1, 1, note1("Size {}: filter failed: {}", num(n))),
        match_rows(
            1,
            over(plus(num(n), num(1)), num(2)),
            note3(
                "Size {}: filter returned {} rows, expected {} (alternating)",
                num(n),
                reg(COUNT),
                over(plus(num(n), num(1)), num(2)),
            ),
        ),
        fetch(1, 2, note1("Size {}: failed to download: {}", num(n))),
        scan(
            num(0),
            len(2),
            1,
            fault1(
                differs(here(2), times(ix(), num(2))),
                note4(
                    "Size {}: filtered[{}] = {}, expected {}",
                    num(n),
                    ix(),
                    here(2),
                    times(ix(), num(2)),
                ),
            ),
        ),
        fill(1, num(n), differs(modulo(ix(), num(2)), num(0))),
        filter(0, 1, 2, note1("Size {}: second filter failed: {}", num(n))),
        match_rows(
            2,
            over(num(n), num(2)),
            note3(
                "Size {}: second filter returned {} rows, expected {}",
                num(n),
                reg(COUNT),
                over(num(n), num(2)),
            ),
        ),
        fetch(2, 3, note1("Size {}: failed to download second filter: {}", num(n))),
        scan(
            num(0),
            len(3),
            1,
            fault1(
                differs(here(3), plus(times(ix(), num(2)), num(1))),
                note4(
                    "Size {}: second filtered[{}] = {}, expected {}",
                    num(n),
                    ix(),
                    here(3),
                    plus(times(ix(), num(2)), num(1)),
                ),
            ),
        ),
        release(0),
    ]
}

/// Writes one round of the sizes of [`test_alternating_predicate`].
fn alternating_predicate_sizes(i: u64) -> (steps: Vec<Step>)
    requires
        i < 4,
    ensures
        steps@ == alternating_predicate_sizes_round(i),
{
    let n: u64 = SIZES[i as usize];
    vec![
        fill(0, num(n), ix()),
        upload(0, 0, note1("Size {}: failed to create buffer: {}", num(n))),
        fill(1, num(n), same_as(modulo(ix(), num(2)), num(0))),
        filter(0, 1, 1, note1("Size {}: filter failed: {}", num(n))),
        match_rows(
            1,
            over(plus(num(n), num(1)), num(2)),
            note3(
                "Size {}: filter returned {} rows, expected {} (alternating)",
                num(n),
                reg(COUNT),
                over(plus(num(n), num(1)), num(2)),
            ),
        ),
        fetch(1, 2, note1("Size {}: failed to download: {}", num(n))),
        scan(
            num(0),
            len(2),
            1,
            fault1(
                differs(here(2), times(ix(), num(2))),
                note4(
                    "Size {}: filtered[{}] = {}, expected {}",
                    num(n),
                    ix(),
                    here(2),
                    times(ix(), num(2)),
                ),
            ),
        ),
        fill(1, num(n), differs(modulo(ix(), num(2)), num(0))),
        filter(0, 1, 2, note1("Size {}: second filter failed: {}", num(n))),
        match_rows(
            2,
            over(num(n), num(2)),
            note3(
                "Size {}: second filter returned {} rows, expected {}",
                num(n),
                reg(COUNT),
                over(num(n), num(2)),
            ),
        ),
        fetch(2, 3, note1("Size {}: failed to download second filter: {}", num(n))),
        scan(
            num(0),
            len(3),
            1,
            fault1(
                differs(here(3), plus(times(ix(), num(2)), num(1))),
                note4(
                    "Size {}: second filtered[{}] = {}, expected {}",
                    num(n),
                    ix(),
                    here(3),
                    plus(times(ix(), num(2)), num(1)),
                ),
            ),
        ),
        release(0),
    ]
}

/// The end of [`test_alternating_predicate`].
pub open spec fn alternating_predicate_end_steps() -> Seq<Step> {
    seq![
        sync(note0("Sync failed: {}")),
    ]
}

/// Writes the end of [`test_alternating_predicate`].
fn alternating_predicate_end() -> (steps: Vec<Step>)
    ensures
        steps@ == alternating_predicate_end_steps(),
{
    vec![
        sync(note0("Sync failed: {}")),
    ]
}

/// The steps of [`test_alternating_predicate`].
pub open spec fn alternating_predicate_steps() -> Seq<Step> {
    crate::script::rounds(4, |i: int| alternating_predicate_sizes_round(i as u64))
        + alternating_predicate_end_steps()
}

/// Filters keep the even rows, then the odd ones.
pub fn test_alternating_predicate() -> (script: Script)
    ensures
        script@ == crate::script::plan("test_alternating_predicate", alternating_predicate_steps()),
{
    let mut steps: Vec<Step> = Vec::new();
    let mut i: u64 = 0;
    while i < 4
        invariant
            i <= 4,
            steps@ == crate::script::rounds(
                i as int,
                |i: int| alternating_predicate_sizes_round(i as u64),
            ),
        decreases 4 - i,
    {
        let mut round = alternating_predicate_sizes(i);
        steps.append(&mut round);
        i = i + 1;
    }
    let mut more = alternating_predicate_end();
    steps.append(&mut more);
    Script::new("test_alternating_predicate", steps)
}

/// One round of the sizes of [`test_random_predicate_distribution`].
pub open spec fn random_predicate_distribution_sizes_round(i: u64) -> Seq<Step> {
    let n = LONG_SIZES@[i as int];
    seq![
        fill(0, num(n), ix()),
        upload(0, 0, note1("Size {}: failed to create buffer: {}", num(n))),
        fill(
            1,
            num(n),
            same_as(
                modulo(
                    modulo(
                        over(plus(times(ix(), num(1103515245)), num(12345)), num(65536)),
                        num(32768),
                    ),
                    num(2),
                ),
                num(0),
            ),
        ),
        put(0, sum_of(1)),
        filter(0, 1, 1, note1("Size {}: first filter failed: {}", num(n))),
        match_rows(
            1,
            reg(0),
            note3(
                "Size {}: first filter returned {} rows, expected {}",
                num(n),
                reg(COUNT),
                reg(0),
            ),
        ),
        fetch(1, 2, note1("Size {}: failed to download first filter: {}", num(n))),
        select(3, num(n), same_as(here(1), num(1)), ix()),
        check(not(alike(2, 3)), note1("Size {}: first filter values mismatch", num(n))),
        fill(
            1,
            num(n),
            lt(
                modulo(
                    over(
                        wrap_plus(
                            wrap_times(ix(), num(0x5851_F42D_4C95_7F2D)),
                            num(0x1405_7B7E_F767_814F),
                        ),
                        num(1099511627776),
                    ),
                    num(10),
                ),
                num(3),
            ),
        ),
        put(0, sum_of(1)),
        filter(0, 1, 2, note1("Size {}: second filter failed: {}", num(n))),
        match_rows(
            2,
            reg(0),
            note3(
                "Size {}: second filter returned {} rows, expected {}",
                num(n),
                reg(COUNT),
                reg(0),
            ),
        ),
        fill(1, num(n), lt(modulo(over(ix(), num(17)), num(5)), num(2))),
        put(0, sum_of(1)),
        filter(0, 1, 3, note1("Size {}: third filter failed: {}", num(n))),
        match_rows(
            3,
            reg(0),
            note3(
                "Size {}: third filter returned {} rows, expected {}",
                num(n),
                reg(COUNT),
                reg(0),
            ),
        ),
        fetch(3, 2, note1("Size {}: failed to download third filter: {}", num(n))),
        select(3, num(n), same_as(here(1), num(1)), ix()),
        check(not(alike(2, 3)), note1("Size {}: third filter values mismatch", num(n))),
        release(0),
    ]
}

/// Writes one round of the sizes of [`test_random_predicate_distribution`].
fn random_predicate_distribution_sizes(i: u64) -> (steps: Vec<Step>)
    requires
        i < 3,
    ensures
        steps@ == random_predicate_distribution_sizes_round(i),
{
    let n: u64 = LONG_SIZES[i as usize];
    vec![
        fill(0, num(n), ix()),
        upload(0, 0, note1("Size {}: failed to create buffer: {}", num(n))),
        fill(
            1,
            num(n),
            same_as(
                modulo(
                    modulo(
                        over(plus(times(ix(), num(1103515245)), num(12345)), num(65536)),
                        num(32768),
                    ),
                    num(2),
                ),
                num(0),
            ),
        ),
        put(0, sum_of(1)),
        filter(0, 1, 1, note1("Size {}: first filter failed: {}", num(n))),
        match_rows(
            1,
            reg(0),
            note3(
                "Size {}: first filter returned {} rows, expected {}",
                num(n),
                reg(COUNT),
                reg(0),
            ),
        ),
        fetch(1, 2, note1("Size {}: failed to download first filter: {}", num(n))),
        select(3, num(n), same_as(here(1), num(1)), ix()),
        check(not(alike(2, 3)), note1("Size {}: first filter values mismatch", num(n))),
        fill(
            1,
            num(n),
            lt(
                modulo(
                    over(
                        wrap_plus(
                            wrap_times(ix(), num(0x5851_F42D_4C95_7F2D)),
                            num(0x1405_7B7E_F767_814F),
                        ),
                        num(1099511627776),
                    ),
                    num(10),
                ),
                num(3),
            ),
        ),
        put(0, sum_of(1)),
        filter(0, 1, 2, note1("Size {}: second filter failed: {}", num(n))),
        match_rows(
            2,
            reg(0),
            note3(
                "Size {}: second filter returned {} rows, expected {}",
                num(n),
                reg(COUNT),
                reg(0),
            ),
        ),
        fill(1, num(n), lt(modulo(over(ix(), num(17)), num(5)), num(2))),
        put(0, sum_of(1)),
        filter(0, 1, 3, note1("Size {}: third filter failed: {}", num(n))),
        match_rows(
            3,
            reg(0),
            note3(
                "Size {}: third filter returned {} rows, expected {}",
                num(n),
                reg(COUNT),
                reg(0),
            ),
        ),
        fetch(3, 2, note1("Size {}: failed to download third filter: {}", num(n))),
        select(3, num(n), same_as(here(1), num(1)), ix()),
        check(not(alike(2, 3)), note1("Size {}: third filter values mismatch", num(n))),
        release(0),
    ]
}

/// The end of [`test_random_predicate_distribution`].
pub open spec fn random_predicate_distribution_end_steps() -> Seq<Step> {
    seq![
        sync(note0("Sync failed: {}")),
    ]
}

/// Writes the end of [`test_random_predicate_distribution`].
fn random_predicate_distribution_end() -> (steps: Vec<Step>)
    ensures
        steps@ == random_predicate_distribution_end_steps(),
{
    vec![
        sync(note0("Sync failed: {}")),
    ]
}

/// The steps of [`test_random_predicate_distribution`].
pub open spec fn random_predicate_distribution_steps() -> Seq<Step> {
    crate::script::rounds(3, |i: int| random_predicate_distribution_sizes_round(i as u64))
        + random_predicate_distribution_end_steps()
}

/// Filters keep scattered rows.
pub fn test_random_predicate_distribution() -> (script: Script)
    ensures
        script@ == crate::script::plan(
            "test_random_predicate_distribution",
            random_predicate_distribution_steps(),
        ),
{
    let mut steps: Vec<Step> = Vec::new();
    let mut i: u64 = 0;
    while i < 3
        invariant
            i <= 3,
            steps@ == crate::script::rounds(
                i as int,
                |i: int| random_predicate_distribution_sizes_round(i as u64),
            ),
        decreases 3 - i,
    {
        let mut round = random_predicate_distribution_sizes(i);
        steps.append(&mut round);
        i = i + 1;
    }
    let mut more = random_predicate_distribution_end();
    steps.append(&mut more);
    Script::new("test_random_predicate_distribution", steps)
}

/// The tests of the category.
pub open spec fn tests() -> Seq<Plan> {
    seq![
        crate::script::plan("test_filter_all_pass", filter_all_pass_steps()),
        crate::script::plan("test_filter_none_pass", filter_none_pass_steps()),
        crate::script::plan("test_filter_half_pass", filter_half_pass_steps()),
        crate::script::plan("test_sparse_predicate", sparse_predicate_steps()),
        crate::script::plan("test_dense_predicate", dense_predicate_steps()),
        crate::script::plan("test_alternating_predicate", alternating_predicate_steps()),
        crate::script::plan(
            "test_random_predicate_distribution",
            random_predicate_distribution_steps(),
        ),
    ]
}

/// Lists the tests of the category, in the order in which they run.
pub fn run_all() -> (category: CategoryRun)
    ensures
        category.title() == "c11_control_flow",
        category.waiting() == tests(),
        category.test() is None,
        category.run() is None,
        category.done() == Seq::<Outcome>::empty(),
{
    let scripts: Vec<Script> = vec![
        test_filter_all_pass(),
        test_filter_none_pass(),
        test_filter_half_pass(),
        test_sparse_predicate(),
        test_dense_predicate(),
        test_alternating_predicate(),
        test_random_predicate_distribution(),
    ];
    let category = CategoryRun::new("c11_control_flow", scripts);
    assert(category.waiting() =~= tests());
    category
}

} // verus!
