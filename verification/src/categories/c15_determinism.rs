//! Determinism: the same request gives the same result again.

use vstd::prelude::*;
use crate::expr::{
    alike, alike_rows, alike_sets, and, at, before, count_in, differs, distinct_in,
    distinct_rows_in, doubles_differ, entry, gap, here, ix, least, len, lt, modulo, not, num, or,
    over, plus, reg, same_as, sum_of, times,
};
use crate::harness::{CategoryRun, Outcome};
use crate::message::{note0, note1, note2, note3, note4, place, remark1, remark2, val, word};
use crate::scalar::Scalar;
use crate::script::{
    after, backward, check, dedup, download, fault1, fetch, fill, filter, forward, join, Layout,
    only, Plan, put, release, rows, sample, scan, Script, sort, Step, sync, upload, upload_table,
    zeroed,
};
use crate::tables::Table;
use crate::expr::Expr;

verus! {

/// A filter gives the same rows twice.
pub open spec fn repeated_filter_steps(name: &'static str, keep: Expr) -> Seq<Step> {
    seq![
        fill(1, num(10000), keep),
        filter(0, 1, 2, remark1("Baseline filter {} failed: {}", word(name))),
        fetch(2, 4, remark1("Failed to download {} baseline: {}", word(name))),
        filter(0, 1, 3, remark1("Repeat filter {} failed: {}", word(name))),
        fetch(3, 5, remark1("Failed to download {} repeat: {}", word(name))),
        check(
            not(alike(4, 5)),
            remark1("Filter {} produced different results on repeat", word(name)),
        ),
        release(2),
    ]
}

/// Writes [`repeated_filter_steps`].
pub fn repeated_filter(name: &'static str, keep: Expr) -> (steps: Vec<Step>)
    ensures
        steps@ == repeated_filter_steps(name, keep),
{
    vec![
        fill(1, num(10000), keep),
        filter(0, 1, 2, remark1("Baseline filter {} failed: {}", word(name))),
        fetch(2, 4, remark1("Failed to download {} baseline: {}", word(name))),
        filter(0, 1, 3, remark1("Repeat filter {} failed: {}", word(name))),
        fetch(3, 5, remark1("Failed to download {} repeat: {}", word(name))),
        check(
            not(alike(4, 5)),
            remark1("Filter {} produced different results on repeat", word(name)),
        ),
        release(2),
    ]
}

/// Removing duplicates leaves the same keys twice.
pub open spec fn repeated_dedup_steps(name: &'static str, key: Expr) -> Seq<Step> {
    seq![
        fill(4, num(5000), key),
        fill(5, num(5000), ix()),
        upload_table(2, Layout::KeyVal, 4, remark1("Failed to create {} buffer: {}", word(name))),
        dedup(2, 3, remark1("{} baseline dedup failed: {}", word(name))),
        fetch(3, 6, remark1("Failed to download {} baseline: {}", word(name))),
        dedup(2, 4, remark1("{} repeat dedup failed: {}", word(name))),
        fetch(4, 7, remark1("Failed to download {} repeat: {}", word(name))),
        check(
            not(alike_sets(6, 7)),
            remark1("{} dedup produced different results on repeat", word(name)),
        ),
        release(2),
    ]
}

/// Writes [`repeated_dedup_steps`].
pub fn repeated_dedup(name: &'static str, key: Expr) -> (steps: Vec<Step>)
    ensures
        steps@ == repeated_dedup_steps(name, key),
{
    vec![
        fill(4, num(5000), key),
        fill(5, num(5000), ix()),
        upload_table(2, Layout::KeyVal, 4, remark1("Failed to create {} buffer: {}", word(name))),
        dedup(2, 3, remark1("{} baseline dedup failed: {}", word(name))),
        fetch(3, 6, remark1("Failed to download {} baseline: {}", word(name))),
        dedup(2, 4, remark1("{} repeat dedup failed: {}", word(name))),
        fetch(4, 7, remark1("Failed to download {} repeat: {}", word(name))),
        check(
            not(alike_sets(6, 7)),
            remark1("{} dedup produced different results on repeat", word(name)),
        ),
        release(2),
    ]
}

/// The first of [`test_sort_reproducibility`].
pub open spec fn sort_reproducibility_first_steps() -> Seq<Step> {
    seq![
        fill(0, num(10000), modulo(plus(times(ix(), num(1103515245)), num(12345)), num(1000000))),
        upload(0, 0, note0("Failed to create buffer: {}")),
        sort(0, 1, note0("First sort failed: {}")),
        fetch(1, 1, note0("Failed to download first sort result: {}")),
        scan(
            num(1),
            len(1),
            1,
            fault1(
                lt(here(1), before(1)),
                note3(
                    "First sort result not sorted at index {}: {} < {}",
                    ix(),
                    here(1),
                    before(1),
                ),
            ),
        ),
    ]
}

/// Writes the first of [`test_sort_reproducibility`].
fn sort_reproducibility_first() -> (steps: Vec<Step>)
    ensures
        steps@ == sort_reproducibility_first_steps(),
{
    vec![
        fill(0, num(10000), modulo(plus(times(ix(), num(1103515245)), num(12345)), num(1000000))),
        upload(0, 0, note0("Failed to create buffer: {}")),
        sort(0, 1, note0("First sort failed: {}")),
        fetch(1, 1, note0("Failed to download first sort result: {}")),
        scan(
            num(1),
            len(1),
            1,
            fault1(
                lt(here(1), before(1)),
                note3(
                    "First sort result not sorted at index {}: {} < {}",
                    ix(),
                    here(1),
                    before(1),
                ),
            ),
        ),
    ]
}

/// One round of the repeats of [`test_sort_reproducibility`].
pub open spec fn sort_reproducibility_repeats_round(i: u64) -> Seq<Step> {
    let k = after(1, i);
    seq![
        sort(0, 2, note1("Sort iteration {} failed: {}", num(k))),
        fetch(2, 2, note1("Failed to download iteration {} result: {}", num(k))),
        check(
            differs(len(2), len(1)),
            note3("Iteration {} produced {} rows, first produced {}", num(k), len(2), len(1)),
        ),
        scan(
            num(0),
            least(len(1), len(2)),
            1,
            fault1(
                differs(here(1), here(2)),
                note4(
                    "Iteration {} differs from first at index {}: {} vs {}",
                    num(k),
                    ix(),
                    here(1),
                    here(2),
                ),
            ),
        ),
        release(2),
    ]
}

/// Writes one round of the repeats of [`test_sort_reproducibility`].
fn sort_reproducibility_repeats(i: u64) -> (steps: Vec<Step>)
    requires
        i < 4,
    ensures
        steps@ == sort_reproducibility_repeats_round(i),
{
    let k: u64 = after(1, i);
    vec![
        sort(0, 2, note1("Sort iteration {} failed: {}", num(k))),
        fetch(2, 2, note1("Failed to download iteration {} result: {}", num(k))),
        check(
            differs(len(2), len(1)),
            note3("Iteration {} produced {} rows, first produced {}", num(k), len(2), len(1)),
        ),
        scan(
            num(0),
            least(len(1), len(2)),
            1,
            fault1(
                differs(here(1), here(2)),
                note4(
                    "Iteration {} differs from first at index {}: {} vs {}",
                    num(k),
                    ix(),
                    here(1),
                    here(2),
                ),
            ),
        ),
        release(2),
    ]
}

/// The end of [`test_sort_reproducibility`].
pub open spec fn sort_reproducibility_end_steps() -> Seq<Step> {
    seq![
        upload(2, 0, note0("Failed to create second buffer: {}")),
        sort(2, 3, note0("Sort on fresh buffer failed: {}")),
        fetch(3, 2, note0("Failed to download fresh buffer sort result: {}")),
        check(
            not(alike(2, 1)),
            note0("Sort on fresh buffer produced different result than original"),
        ),
        sync(note0("Sync failed: {}")),
    ]
}

/// Writes the end of [`test_sort_reproducibility`].
fn sort_reproducibility_end() -> (steps: Vec<Step>)
    ensures
        steps@ == sort_reproducibility_end_steps(),
{
    vec![
        upload(2, 0, note0("Failed to create second buffer: {}")),
        sort(2, 3, note0("Sort on fresh buffer failed: {}")),
        fetch(3, 2, note0("Failed to download fresh buffer sort result: {}")),
        check(
            not(alike(2, 1)),
            note0("Sort on fresh buffer produced different result than original"),
        ),
        sync(note0("Sync failed: {}")),
    ]
}

/// The steps of [`test_sort_reproducibility`].
pub open spec fn sort_reproducibility_steps() -> Seq<Step> {
    sort_reproducibility_first_steps()
        + crate::script::rounds(4, |i: int| sort_reproducibility_repeats_round(i as u64))
        + sort_reproducibility_end_steps()
}

/// Sorting the same rows again gives the same rows.
pub fn test_sort_reproducibility() -> (script: Script)
    ensures
        script@ == crate::script::plan("test_sort_reproducibility", sort_reproducibility_steps()),
{
    let mut steps: Vec<Step> = sort_reproducibility_first();
    let mut i: u64 = 0;
    let ghost before = steps@;
    while i < 4
        invariant
            i <= 4,
            steps@ == before + crate::script::rounds(
                i as int,
                |i: int| sort_reproducibility_repeats_round(i as u64),
            ),
        decreases 4 - i,
    {
        let mut round = sort_reproducibility_repeats(i);
        steps.append(&mut round);
        i = i + 1;
    }
    let mut more = sort_reproducibility_end();
    steps.append(&mut more);
    Script::new("test_sort_reproducibility", steps)
}

/// The first of [`test_filter_reproducibility`].
pub open spec fn filter_reproducibility_first_steps() -> Seq<Step> {
    seq![
        fill(0, num(10000), ix()),
        fill(1, num(10000), lt(modulo(plus(times(ix(), num(7)), num(3)), num(10)), num(3))),
        upload(0, 0, note0("Failed to create buffer: {}")),
        filter(0, 1, 1, note0("First filter failed: {}")),
        fetch(1, 2, note0("Failed to download first filter result: {}")),
        check(
            differs(len(2), sum_of(1)),
            note2("First filter returned {} rows, expected {}", len(2), sum_of(1)),
        ),
    ]
}

/// Writes the first of [`test_filter_reproducibility`].
fn filter_reproducibility_first() -> (steps: Vec<Step>)
    ensures
        steps@ == filter_reproducibility_first_steps(),
{
    vec![
        fill(0, num(10000), ix()),
        fill(1, num(10000), lt(modulo(plus(times(ix(), num(7)), num(3)), num(10)), num(3))),
        upload(0, 0, note0("Failed to create buffer: {}")),
        filter(0, 1, 1, note0("First filter failed: {}")),
        fetch(1, 2, note0("Failed to download first filter result: {}")),
        check(
            differs(len(2), sum_of(1)),
            note2("First filter returned {} rows, expected {}", len(2), sum_of(1)),
        ),
    ]
}

/// One round of the repeats of [`test_filter_reproducibility`].
pub open spec fn filter_reproducibility_repeats_round(i: u64) -> Seq<Step> {
    let k = after(1, i);
    seq![
        filter(0, 1, 2, note1("Filter iteration {} failed: {}", num(k))),
        fetch(2, 3, note1("Failed to download iteration {} result: {}", num(k))),
        check(
            not(alike(3, 2)),
            remark2(
                "Filter iteration {} differs from first (first diff at {})",
                val(num(k)),
                place(gap(3, 2), least(len(3), len(2))),
            ),
        ),
        release(2),
    ]
}

/// Writes one round of the repeats of [`test_filter_reproducibility`].
fn filter_reproducibility_repeats(i: u64) -> (steps: Vec<Step>)
    requires
        i < 4,
    ensures
        steps@ == filter_reproducibility_repeats_round(i),
{
    let k: u64 = after(1, i);
    vec![
        filter(0, 1, 2, note1("Filter iteration {} failed: {}", num(k))),
        fetch(2, 3, note1("Failed to download iteration {} result: {}", num(k))),
        check(
            not(alike(3, 2)),
            remark2(
                "Filter iteration {} differs from first (first diff at {})",
                val(num(k)),
                place(gap(3, 2), least(len(3), len(2))),
            ),
        ),
        release(2),
    ]
}

/// The end of [`test_filter_reproducibility`].
pub open spec fn filter_reproducibility_end_steps() -> Seq<Step> {
    seq![
        sync(note0("Sync failed: {}")),
    ]
}

/// Writes the end of [`test_filter_reproducibility`].
fn filter_reproducibility_end() -> (steps: Vec<Step>)
    ensures
        steps@ == filter_reproducibility_end_steps(),
{
    vec![
        sync(note0("Sync failed: {}")),
    ]
}

/// The steps of [`test_filter_reproducibility`].
pub open spec fn filter_reproducibility_steps() -> Seq<Step> {
    filter_reproducibility_first_steps()
        + crate::script::rounds(4, |i: int| filter_reproducibility_repeats_round(i as u64))
        + repeated_filter_steps("10%", same_as(modulo(ix(), num(10)), num(0)))
        + repeated_filter_steps("50%", same_as(modulo(ix(), num(2)), num(0)))
        + repeated_filter_steps("90%", differs(modulo(ix(), num(10)), num(0)))
        + filter_reproducibility_end_steps()
}

/// Filtering the same rows again gives the same rows.
pub fn test_filter_reproducibility() -> (script: Script)
    ensures
        script@ == crate::script::plan(
            "test_filter_reproducibility",
            filter_reproducibility_steps(),
        ),
{
    let mut steps: Vec<Step> = filter_reproducibility_first();
    let mut i: u64 = 0;
    let ghost before = steps@;
    while i < 4
        invariant
            i <= 4,
            steps@ == before + crate::script::rounds(
                i as int,
                |i: int| filter_reproducibility_repeats_round(i as u64),
            ),
        decreases 4 - i,
    {
        let mut round = filter_reproducibility_repeats(i);
        steps.append(&mut round);
        i = i + 1;
    }
    let mut more = repeated_filter("10%", same_as(modulo(ix(), num(10)), num(0)));
    steps.append(&mut more);
    let mut more = repeated_filter("50%", same_as(modulo(ix(), num(2)), num(0)));
    steps.append(&mut more);
    let mut more = repeated_filter("90%", differs(modulo(ix(), num(10)), num(0)));
    steps.append(&mut more);
    let mut more = filter_reproducibility_end();
    steps.append(&mut more);
    Script::new("test_filter_reproducibility", steps)
}

/// The first of [`test_join_reproducibility`].
pub open spec fn join_reproducibility_first_steps() -> Seq<Step> {
    seq![
        fill(0, num(5000), times(ix(), num(3))),
        fill(1, num(5000), times(here(0), num(10))),
        fill(2, num(3000), times(ix(), num(5))),
        fill(3, num(3000), times(here(2), num(100))),
        upload_table(0, Layout::KeyLval, 0, note0("Failed to create left buffer: {}")),
        upload_table(1, Layout::KeyRval, 2, note0("Failed to create right buffer: {}")),
        join(0, 1, 2, note0("First join failed: {}")),
        fetch(2, 4, note0("Failed to download first join keys: {}")),
        download(2, 1, Scalar::U32, 5, note0("Failed to download first join lvals: {}")),
        download(2, 2, Scalar::U32, 6, note0("Failed to download first join rvals: {}")),
    ]
}

/// Writes the first of [`test_join_reproducibility`].
fn join_reproducibility_first() -> (steps: Vec<Step>)
    ensures
        steps@ == join_reproducibility_first_steps(),
{
    vec![
        fill(0, num(5000), times(ix(), num(3))),
        fill(1, num(5000), times(here(0), num(10))),
        fill(2, num(3000), times(ix(), num(5))),
        fill(3, num(3000), times(here(2), num(100))),
        upload_table(0, Layout::KeyLval, 0, note0("Failed to create left buffer: {}")),
        upload_table(1, Layout::KeyRval, 2, note0("Failed to create right buffer: {}")),
        join(0, 1, 2, note0("First join failed: {}")),
        fetch(2, 4, note0("Failed to download first join keys: {}")),
        download(2, 1, Scalar::U32, 5, note0("Failed to download first join lvals: {}")),
        download(2, 2, Scalar::U32, 6, note0("Failed to download first join rvals: {}")),
    ]
}

/// One round of the repeats of [`test_join_reproducibility`].
pub open spec fn join_reproducibility_repeats_round(i: u64) -> Seq<Step> {
    let k = after(1, i);
    seq![
        join(0, 1, 3, note1("Join iteration {} failed: {}", num(k))),
        rows(3, 0),
        rows(2, 1),
        only(differs(reg(0), reg(1)), rows(3, 2)),
        only(differs(reg(0), reg(1)), rows(2, 3)),
        check(
            differs(reg(0), reg(1)),
            note3("Iteration {} returned {} rows, first returned {}", num(k), reg(2), reg(3)),
        ),
        fetch(3, 7, note1("Failed to download iteration {} keys: {}", num(k))),
        download(
            3,
            1,
            Scalar::U32,
            8,
            note1("Failed to download iteration {} lvals: {}", num(k)),
        ),
        download(
            3,
            2,
            Scalar::U32,
            9,
            note1("Failed to download iteration {} rvals: {}", num(k)),
        ),
        check(
            not(alike_rows(4, 7)),
            note3(
                "Iteration {} produced different tuples: {} vs {} unique",
                num(k),
                distinct_rows_in(7),
                distinct_rows_in(4),
            ),
        ),
        release(3),
    ]
}

/// Writes one round of the repeats of [`test_join_reproducibility`].
fn join_reproducibility_repeats(i: u64) -> (steps: Vec<Step>)
    requires
        i < 4,
    ensures
        steps@ == join_reproducibility_repeats_round(i),
{
    let k: u64 = after(1, i);
    vec![
        join(0, 1, 3, note1("Join iteration {} failed: {}", num(k))),
        rows(3, 0),
        rows(2, 1),
        only(differs(reg(0), reg(1)), rows(3, 2)),
        only(differs(reg(0), reg(1)), rows(2, 3)),
        check(
            differs(reg(0), reg(1)),
            note3("Iteration {} returned {} rows, first returned {}", num(k), reg(2), reg(3)),
        ),
        fetch(3, 7, note1("Failed to download iteration {} keys: {}", num(k))),
        download(
            3,
            1,
            Scalar::U32,
            8,
            note1("Failed to download iteration {} lvals: {}", num(k)),
        ),
        download(
            3,
            2,
            Scalar::U32,
            9,
            note1("Failed to download iteration {} rvals: {}", num(k)),
        ),
        check(
            not(alike_rows(4, 7)),
            note3(
                "Iteration {} produced different tuples: {} vs {} unique",
                num(k),
                distinct_rows_in(7),
                distinct_rows_in(4),
            ),
        ),
        release(3),
    ]
}

/// The end of [`test_join_reproducibility`].
pub open spec fn join_reproducibility_end_steps() -> Seq<Step> {
    seq![
        sync(note0("Sync failed: {}")),
    ]
}

/// Writes the end of [`test_join_reproducibility`].
fn join_reproducibility_end() -> (steps: Vec<Step>)
    ensures
        steps@ == join_reproducibility_end_steps(),
{
    vec![
        sync(note0("Sync failed: {}")),
    ]
}

/// The steps of [`test_join_reproducibility`].
pub open spec fn join_reproducibility_steps() -> Seq<Step> {
    join_reproducibility_first_steps()
        + crate::script::rounds(4, |i: int| join_reproducibility_repeats_round(i as u64))
        + join_reproducibility_end_steps()
}

/// Joining the same tables again gives the same rows, in whatever order.
pub fn test_join_reproducibility() -> (script: Script)
    ensures
        script@ == crate::script::plan("test_join_reproducibility", join_reproducibility_steps()),
{
    let mut steps: Vec<Step> = join_reproducibility_first();
    let mut i: u64 = 0;
    let ghost before = steps@;
    while i < 4
        invariant
            i <= 4,
            steps@ == before + crate::script::rounds(
                i as int,
                |i: int| join_reproducibility_repeats_round(i as u64),
            ),
        decreases 4 - i,
    {
        let mut round = join_reproducibility_repeats(i);
        steps.append(&mut round);
        i = i + 1;
    }
    let mut more = join_reproducibility_end();
    steps.append(&mut more);
    Script::new("test_join_reproducibility", steps)
}

/// The first of [`test_dedup_reproducibility`].
pub open spec fn dedup_reproducibility_first_steps() -> Seq<Step> {
    seq![
        fill(0, num(10000), modulo(ix(), num(1000))),
        fill(1, num(10000), ix()),
        upload_table(0, Layout::KeyVal, 0, note0("Failed to create buffer: {}")),
        dedup(0, 1, note0("First dedup failed: {}")),
        fetch(1, 2, note0("Failed to download first dedup keys: {}")),
        check(
            differs(len(2), distinct_in(0)),
            note2("First dedup returned {} rows, expected {}", len(2), distinct_in(0)),
        ),
        check(differs(distinct_in(2), len(2)), note0("First dedup result contains duplicates")),
    ]
}

/// Writes the first of [`test_dedup_reproducibility`].
fn dedup_reproducibility_first() -> (steps: Vec<Step>)
    ensures
        steps@ == dedup_reproducibility_first_steps(),
{
    vec![
        fill(0, num(10000), modulo(ix(), num(1000))),
        fill(1, num(10000), ix()),
        upload_table(0, Layout::KeyVal, 0, note0("Failed to create buffer: {}")),
        dedup(0, 1, note0("First dedup failed: {}")),
        fetch(1, 2, note0("Failed to download first dedup keys: {}")),
        check(
            differs(len(2), distinct_in(0)),
            note2("First dedup returned {} rows, expected {}", len(2), distinct_in(0)),
        ),
        check(differs(distinct_in(2), len(2)), note0("First dedup result contains duplicates")),
    ]
}

/// One round of the repeats of [`test_dedup_reproducibility`].
pub open spec fn dedup_reproducibility_repeats_round(i: u64) -> Seq<Step> {
    let k = after(1, i);
    seq![
        dedup(0, 2, note1("Dedup iteration {} failed: {}", num(k))),
        rows(2, 0),
        rows(1, 1),
        only(differs(reg(0), reg(1)), rows(2, 2)),
        only(differs(reg(0), reg(1)), rows(1, 3)),
        check(
            differs(reg(0), reg(1)),
            note3("Iteration {} returned {} rows, first returned {}", num(k), reg(2), reg(3)),
        ),
        fetch(2, 3, note1("Failed to download iteration {} keys: {}", num(k))),
        check(
            not(alike_sets(2, 3)),
            note3(
                "Iteration {} produced different unique keys: {} vs {}",
                num(k),
                distinct_in(3),
                distinct_in(2),
            ),
        ),
        release(2),
    ]
}

/// Writes one round of the repeats of [`test_dedup_reproducibility`].
fn dedup_reproducibility_repeats(i: u64) -> (steps: Vec<Step>)
    requires
        i < 4,
    ensures
        steps@ == dedup_reproducibility_repeats_round(i),
{
    let k: u64 = after(1, i);
    vec![
        dedup(0, 2, note1("Dedup iteration {} failed: {}", num(k))),
        rows(2, 0),
        rows(1, 1),
        only(differs(reg(0), reg(1)), rows(2, 2)),
        only(differs(reg(0), reg(1)), rows(1, 3)),
        check(
            differs(reg(0), reg(1)),
            note3("Iteration {} returned {} rows, first returned {}", num(k), reg(2), reg(3)),
        ),
        fetch(2, 3, note1("Failed to download iteration {} keys: {}", num(k))),
        check(
            not(alike_sets(2, 3)),
            note3(
                "Iteration {} produced different unique keys: {} vs {}",
                num(k),
                distinct_in(3),
                distinct_in(2),
            ),
        ),
        release(2),
    ]
}

/// The end of [`test_dedup_reproducibility`].
pub open spec fn dedup_reproducibility_end_steps() -> Seq<Step> {
    seq![
        sync(note0("Sync failed: {}")),
    ]
}

/// Writes the end of [`test_dedup_reproducibility`].
fn dedup_reproducibility_end() -> (steps: Vec<Step>)
    ensures
        steps@ == dedup_reproducibility_end_steps(),
{
    vec![
        sync(note0("Sync failed: {}")),
    ]
}

/// The steps of [`test_dedup_reproducibility`].
pub open spec fn dedup_reproducibility_steps() -> Seq<Step> {
    dedup_reproducibility_first_steps()
        + crate::script::rounds(4, |i: int| dedup_reproducibility_repeats_round(i as u64))
        + repeated_dedup_steps("all_same", num(42))
        + repeated_dedup_steps("pairs", over(ix(), num(2)))
        + repeated_dedup_steps(
            "random_dups",
            modulo(plus(times(ix(), num(1103515245)), num(12345)), num(500)),
        )
        + dedup_reproducibility_end_steps()
}

/// Removing duplicates again leaves the same keys.
pub fn test_dedup_reproducibility() -> (script: Script)
    ensures
        script@ == crate::script::plan("test_dedup_reproducibility", dedup_reproducibility_steps()),
{
    let mut steps: Vec<Step> = dedup_reproducibility_first();
    let mut i: u64 = 0;
    let ghost before = steps@;
    while i < 4
        invariant
            i <= 4,
            steps@ == before + crate::script::rounds(
                i as int,
                |i: int| dedup_reproducibility_repeats_round(i as u64),
            ),
        decreases 4 - i,
    {
        let mut round = dedup_reproducibility_repeats(i);
        steps.append(&mut round);
        i = i + 1;
    }
    let mut more = repeated_dedup("all_same", num(42));
    steps.append(&mut more);
    let mut more = repeated_dedup("pairs", over(ix(), num(2)));
    steps.append(&mut more);
    let mut more = repeated_dedup(
        "random_dups",
        modulo(plus(times(ix(), num(1103515245)), num(12345)), num(500)),
    );
    steps.append(&mut more);
    let mut more = dedup_reproducibility_end();
    steps.append(&mut more);
    Script::new("test_dedup_reproducibility", steps)
}

/// The steps of [`test_stable_sort_order`].
pub open spec fn stable_sort_order_steps() -> Seq<Step> {
    seq![
        fill(0, num(1000), over(ix(), num(10))),
        fill(1, num(1000), plus(times(over(ix(), num(10)), num(100)), modulo(ix(), num(10)))),
        upload_table(0, Layout::KeyVal, 0, note0("Failed to create buffer: {}")),
        sort(0, 1, note0("Sort failed: {}")),
        fetch(1, 2, note0("Failed to download sorted keys: {}")),
        download(1, 1, Scalar::U32, 3, note0("Failed to download sorted vals: {}")),
        scan(
            num(1),
            len(2),
            1,
            fault1(
                lt(here(2), before(2)),
                note3("Keys not sorted at index {}: {} < {}", ix(), here(2), before(2)),
            ),
        ),
        put(0, at(2, num(0))),
        scan(
            num(1),
            len(2),
            1,
            fault1(
                and(same_as(here(2), before(2)), lt(here(3), before(3))),
                note4(
                    "Sort is not stable at index {}: key {} has val {} after {}",
                    ix(),
                    here(2),
                    here(3),
                    before(3),
                ),
            ),
        ),
        scan(
            num(0),
            len(2),
            1,
            fault1(
                differs(count_in(2, here(2)), num(10)),
                note2("Key {} appears {} times, expected 10", here(2), count_in(2, here(2))),
            ),
        ),
        sort(0, 2, note0("Second sort failed: {}")),
        fetch(2, 5, note0("Failed to download second sorted keys: {}")),
        download(2, 1, Scalar::U32, 6, note0("Failed to download second sorted vals: {}")),
        check(not(alike(2, 5)), note0("Two sorts produced different key orderings")),
        check(
            not(alike(3, 6)),
            note0("Two sorts produced different val orderings (sort may not be deterministic)"),
        ),
        sync(note0("Sync failed: {}")),
    ]
}

/// A sort is stable: rows with equal keys keep their relative order, and are sorted the same way
/// twice.
///
/// Where keys occur a wrong number of times, the first such row decides which key is reported.
pub fn test_stable_sort_order() -> (script: Script)
    ensures
        script@ == crate::script::plan("test_stable_sort_order", stable_sort_order_steps()),
{
    let steps: Vec<Step> = vec![
        fill(0, num(1000), over(ix(), num(10))),
        fill(1, num(1000), plus(times(over(ix(), num(10)), num(100)), modulo(ix(), num(10)))),
        upload_table(0, Layout::KeyVal, 0, note0("Failed to create buffer: {}")),
        sort(0, 1, note0("Sort failed: {}")),
        fetch(1, 2, note0("Failed to download sorted keys: {}")),
        download(1, 1, Scalar::U32, 3, note0("Failed to download sorted vals: {}")),
        scan(
            num(1),
            len(2),
            1,
            fault1(
                lt(here(2), before(2)),
                note3("Keys not sorted at index {}: {} < {}", ix(), here(2), before(2)),
            ),
        ),
        put(0, at(2, num(0))),
        scan(
            num(1),
            len(2),
            1,
            fault1(
                and(same_as(here(2), before(2)), lt(here(3), before(3))),
                note4(
                    "Sort is not stable at index {}: key {} has val {} after {}",
                    ix(),
                    here(2),
                    here(3),
                    before(3),
                ),
            ),
        ),
        scan(
            num(0),
            len(2),
            1,
            fault1(
                differs(count_in(2, here(2)), num(10)),
                note2("Key {} appears {} times, expected 10", here(2), count_in(2, here(2))),
            ),
        ),
        sort(0, 2, note0("Second sort failed: {}")),
        fetch(2, 5, note0("Failed to download second sorted keys: {}")),
        download(2, 1, Scalar::U32, 6, note0("Failed to download second sorted vals: {}")),
        check(not(alike(2, 5)), note0("Two sorts produced different key orderings")),
        check(
            not(alike(3, 6)),
            note0("Two sorts produced different val orderings (sort may not be deterministic)"),
        ),
        sync(note0("Sync failed: {}")),
    ];
    Script::new("test_stable_sort_order", steps)
}

/// The steps of [`test_mc_sample_reproducibility`].
pub open spec fn mc_sample_reproducibility_steps() -> Seq<Step> {
    seq![
        fill(0, num(3), entry(Table::Probabilities, ix())),
        zeroed(3, 0),
        zeroed(3, 1),
        sample(0, 4096, 424242, 0, 1, 1, note0("sample_bernoulli_matrix failed: {}")),
        sample(0, 4096, 424242, 0, 1, 2, note0("sample_bernoulli_matrix failed (2nd run): {}")),
        check(
            not(alike(1, 2)),
            note1("MC sampling not deterministic: outputs differ (len={})", len(1)),
        ),
    ]
}

/// Drawing samples with the same seed again gives the same samples.
pub fn test_mc_sample_reproducibility() -> (script: Script)
    ensures
        script@ == crate::script::plan(
            "test_mc_sample_reproducibility",
            mc_sample_reproducibility_steps(),
        ),
{
    let steps: Vec<Step> = vec![
        fill(0, num(3), entry(Table::Probabilities, ix())),
        zeroed(3, 0),
        zeroed(3, 1),
        sample(0, 4096, 424242, 0, 1, 1, note0("sample_bernoulli_matrix failed: {}")),
        sample(0, 4096, 424242, 0, 1, 2, note0("sample_bernoulli_matrix failed (2nd run): {}")),
        check(
            not(alike(1, 2)),
            note1("MC sampling not deterministic: outputs differ (len={})", len(1)),
        ),
    ];
    Script::new("test_mc_sample_reproducibility", steps)
}

/// The steps of [`test_xgcf_forward_reproducibility`].
pub open spec fn xgcf_forward_reproducibility_steps() -> Seq<Step> {
    seq![
        forward(0, note0("xgcf forward failed: {}")),
        forward(1, note0("xgcf forward failed (2nd run): {}")),
        fill(2, least(len(0), len(1)), doubles_differ(0, 1)),
        check(
            or(differs(len(0), len(1)), lt(num(0), sum_of(2))),
            note0("XGCF forward not deterministic: values differ across runs"),
        ),
    ]
}

/// Evaluating the reference circuit again gives the same values.
pub fn test_xgcf_forward_reproducibility() -> (script: Script)
    ensures
        script@ == crate::script::plan(
            "test_xgcf_forward_reproducibility",
            xgcf_forward_reproducibility_steps(),
        ),
{
    let steps: Vec<Step> = vec![
        forward(0, note0("xgcf forward failed: {}")),
        forward(1, note0("xgcf forward failed (2nd run): {}")),
        fill(2, least(len(0), len(1)), doubles_differ(0, 1)),
        check(
            or(differs(len(0), len(1)), lt(num(0), sum_of(2))),
            note0("XGCF forward not deterministic: values differ across runs"),
        ),
    ];
    Script::new("test_xgcf_forward_reproducibility", steps)
}

/// The steps of [`test_xgcf_backward_reproducibility`].
pub open spec fn xgcf_backward_reproducibility_steps() -> Seq<Step> {
    seq![
        backward(0, note0("xgcf backward failed: {}")),
        backward(4, note0("xgcf backward failed (2nd run): {}")),
        fill(8, least(len(0), len(4)), doubles_differ(0, 4)),
        fill(9, least(len(1), len(5)), doubles_differ(1, 5)),
        fill(10, least(len(2), len(6)), doubles_differ(2, 6)),
        fill(11, least(len(3), len(7)), doubles_differ(3, 7)),
        check(
            or(
                or(differs(len(0), len(4)), lt(num(0), sum_of(8))),
                or(
                    or(differs(len(1), len(5)), lt(num(0), sum_of(9))),
                    or(
                        or(differs(len(2), len(6)), lt(num(0), sum_of(10))),
                        or(differs(len(3), len(7)), lt(num(0), sum_of(11))),
                    ),
                ),
            ),
            note0("XGCF backward not deterministic: outputs differ across runs"),
        ),
    ]
}

/// Differentiating the reference circuit again gives the same results.
pub fn test_xgcf_backward_reproducibility() -> (script: Script)
    ensures
        script@ == crate::script::plan(
            "test_xgcf_backward_reproducibility",
            xgcf_backward_reproducibility_steps(),
        ),
{
    let steps: Vec<Step> = vec![
        backward(0, note0("xgcf backward failed: {}")),
        backward(4, note0("xgcf backward failed (2nd run): {}")),
        fill(8, least(len(0), len(4)), doubles_differ(0, 4)),
        fill(9, least(len(1), len(5)), doubles_differ(1, 5)),
        fill(10, least(len(2), len(6)), doubles_differ(2, 6)),
        fill(11, least(len(3), len(7)), doubles_differ(3, 7)),
        check(
            or(
                or(differs(len(0), len(4)), lt(num(0), sum_of(8))),
                or(
                    or(differs(len(1), len(5)), lt(num(0), sum_of(9))),
                    or(
                        or(differs(len(2), len(6)), lt(num(0), sum_of(10))),
                        or(differs(len(3), len(7)), lt(num(0), sum_of(11))),
                    ),
                ),
            ),
            note0("XGCF backward not deterministic: outputs differ across runs"),
        ),
    ];
    Script::new("test_xgcf_backward_reproducibility", steps)
}

/// The tests of the category.
pub open spec fn tests() -> Seq<Plan> {
    seq![
        crate::script::plan("test_sort_reproducibility", sort_reproducibility_steps()),
        crate::script::plan("test_filter_reproducibility", filter_reproducibility_steps()),
        crate::script::plan("test_join_reproducibility", join_reproducibility_steps()),
        crate::script::plan("test_dedup_reproducibility", dedup_reproducibility_steps()),
        crate::script::plan("test_stable_sort_order", stable_sort_order_steps()),
        crate::script::plan("test_mc_sample_reproducibility", mc_sample_reproducibility_steps()),
        crate::script::plan(
            "test_xgcf_forward_reproducibility",
            xgcf_forward_reproducibility_steps(),
        ),
        crate::script::plan(
            "test_xgcf_backward_reproducibility",
            xgcf_backward_reproducibility_steps(),
        ),
    ]
}

/// Lists the tests of the category, in the order in which they run.
pub fn run_all() -> (category: CategoryRun)
    ensures
        category.title() == "c15_determinism",
        category.waiting() == tests(),
        category.test() is None,
        category.run() is None,
        category.done() == Seq::<Outcome>::empty(),
{
    let scripts: Vec<Script> = vec![
        test_sort_reproducibility(),
        test_filter_reproducibility(),
        test_join_reproducibility(),
        test_dedup_reproducibility(),
        test_stable_sort_order(),
        test_mc_sample_reproducibility(),
        test_xgcf_forward_reproducibility(),
        test_xgcf_backward_reproducibility(),
    ];
    let category = CategoryRun::new("c15_determinism", scripts);
    assert(category.waiting() =~= tests());
    category
}

} // verus!
