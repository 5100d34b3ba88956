//! Atomics: joins, duplicate removal and counting under contention.

use vstd::prelude::*;
use crate::expr::{
    alike_sets, and, differs, distinct_in, here, ix, len, lt, modulo, narrow, not, num, over, pick,
    plus, reg, same_as, sum_of, times,
};
use crate::harness::{CategoryRun, Outcome};
use crate::message::{note0, note1, note2, note3, note4};
use crate::scalar::Scalar;
use crate::script::{
    check, COUNT, dedup, download, fault1, fault2, fault3, fetch, fill, filter, join, Layout,
    match_rows, Plan, prefix_sum, put, release, rows, running_column, scan, Script, select, Step,
    sync, upload, upload_table,
};
use crate::expr::Expr;

verus! {

/// Sizes of left tables.
pub const LEFT_SIZES: [u64; 4] = [1000, 5000, 10000, 10000];

/// Sizes of right tables.
pub const RIGHT_SIZES: [u64; 4] = [500, 2500, 1000, 5000];

/// How many keys of each right table occur in the left one.
pub const MATCHES: [u64; 4] = [250, 1250, 1000, 4000];

/// The prefix sums of a mask of `n` rows, and the filter that uses them, count the kept rows.
pub open spec fn counted_filter_steps(n: u64, keep: Expr) -> Seq<Step> {
    seq![
        fill(0, num(n), keep),
        put(0, sum_of(0)),
        prefix_sum(0, 1, 1, note1("Size {}: prefix_sum_mask failed: {}", num(n))),
        check(
            differs(reg(1), reg(0)),
            note3("Size {}: prefix_sum total {} != expected {}", num(n), reg(1), reg(0)),
        ),
        running_column(2, 0),
        scan(
            num(0),
            num(n),
            1,
            fault1(
                differs(here(1), here(2)),
                note4(
                    "Size {}: prefix_sums[{}] = {}, expected {}",
                    num(n),
                    ix(),
                    here(1),
                    here(2),
                ),
            ),
        ),
        check(
            differs(reg(0), reg(1)),
            note3("Size {}: final sum {} != total {}", num(n), reg(0), reg(1)),
        ),
        fill(3, num(n), ix()),
        upload(0, 3, note1("Size {}: failed to create buffer: {}", num(n))),
        filter(0, 0, 1, note1("Size {}: filter failed: {}", num(n))),
        match_rows(
            1,
            reg(0),
            note3("Size {}: filter returned {} rows, expected {}", num(n), reg(COUNT), reg(0)),
        ),
        fetch(1, 4, note1("Size {}: failed to download filtered: {}", num(n))),
        select(5, num(n), same_as(here(0), num(1)), ix()),
        scan(
            num(0),
            len(5),
            1,
            fault2(
                not(lt(ix(), len(4))),
                note2("Size {}: filtered data too short at expected index {}", num(n), ix()),
                differs(here(4), here(5)),
                note4("Size {}: filtered[{}] = {}, expected {}", num(n), ix(), here(4), here(5)),
            ),
        ),
        release(0),
    ]
}

/// Writes [`counted_filter_steps`].
pub fn counted_filter(n: u64, keep: Expr) -> (steps: Vec<Step>)
    ensures
        steps@ == counted_filter_steps(n, keep),
{
    vec![
        fill(0, num(n), keep),
        put(0, sum_of(0)),
        prefix_sum(0, 1, 1, note1("Size {}: prefix_sum_mask failed: {}", num(n))),
        check(
            differs(reg(1), reg(0)),
            note3("Size {}: prefix_sum total {} != expected {}", num(n), reg(1), reg(0)),
        ),
        running_column(2, 0),
        scan(
            num(0),
            num(n),
            1,
            fault1(
                differs(here(1), here(2)),
                note4(
                    "Size {}: prefix_sums[{}] = {}, expected {}",
                    num(n),
                    ix(),
                    here(1),
                    here(2),
                ),
            ),
        ),
        check(
            differs(reg(0), reg(1)),
            note3("Size {}: final sum {} != total {}", num(n), reg(0), reg(1)),
        ),
        fill(3, num(n), ix()),
        upload(0, 3, note1("Size {}: failed to create buffer: {}", num(n))),
        filter(0, 0, 1, note1("Size {}: filter failed: {}", num(n))),
        match_rows(
            1,
            reg(0),
            note3("Size {}: filter returned {} rows, expected {}", num(n), reg(COUNT), reg(0)),
        ),
        fetch(1, 4, note1("Size {}: failed to download filtered: {}", num(n))),
        select(5, num(n), same_as(here(0), num(1)), ix()),
        scan(
            num(0),
            len(5),
            1,
            fault2(
                not(lt(ix(), len(4))),
                note2("Size {}: filtered data too short at expected index {}", num(n), ix()),
                differs(here(4), here(5)),
                note4("Size {}: filtered[{}] = {}, expected {}", num(n), ix(), here(4), here(5)),
            ),
        ),
        release(0),
    ]
}

/// One round of the joins of [`test_hash_join_atomic_correctness`].
pub open spec fn hash_join_atomic_correctness_joins_round(i: u64) -> Seq<Step> {
    let a = LEFT_SIZES@[i as int];
    let b = RIGHT_SIZES@[i as int];
    let m = MATCHES@[i as int];
    seq![
        fill(0, num(a), ix()),
        fill(1, num(a), times(here(0), num(10))),
        fill(
            2,
            num(b),
            pick(lt(ix(), num(m)), over(times(ix(), num(a)), num(m)), plus(num(a), ix())),
        ),
        fill(3, num(b), times(here(2), num(100))),
        upload_table(
            0,
            Layout::KeyLval,
            0,
            note1("Left {}: failed to create buffer: {}", num(a)),
        ),
        upload_table(
            1,
            Layout::KeyRval,
            2,
            note1("Right {}: failed to create buffer: {}", num(b)),
        ),
        join(0, 1, 2, note2("Hash join failed ({}x{}): {}", num(a), num(b))),
        match_rows(
            2,
            num(m),
            note4(
                "Join ({}x{}) returned {} rows, expected {}",
                num(a),
                num(b),
                reg(COUNT),
                num(m),
            ),
        ),
        fetch(2, 4, note0("Failed to download joined keys: {}")),
        download(2, 1, Scalar::U32, 5, note0("Failed to download joined lvals: {}")),
        download(2, 2, Scalar::U32, 6, note0("Failed to download joined rvals: {}")),
        rows(2, 0),
        scan(
            num(0),
            reg(0),
            1,
            fault3(
                and(
                    not(lt(here(5), num(0))),
                    and(not(lt(here(6), num(0))), not(lt(here(4), num(a)))),
                ),
                note3(
                    "Row {}: key {} is outside left table range [0, {})",
                    ix(),
                    here(4),
                    num(a),
                ),
                differs(here(5), narrow(times(here(4), num(10)))),
                note4(
                    "Row {}: lval {} doesn't match expected {} for key {}",
                    ix(),
                    here(5),
                    times(here(4), num(10)),
                    here(4),
                ),
                differs(here(6), narrow(times(here(4), num(100)))),
                note4(
                    "Row {}: rval {} doesn't match expected {} for key {}",
                    ix(),
                    here(6),
                    times(here(4), num(100)),
                    here(4),
                ),
            ),
        ),
        release(0),
    ]
}

/// Writes one round of the joins of [`test_hash_join_atomic_correctness`].
fn hash_join_atomic_correctness_joins(i: u64) -> (steps: Vec<Step>)
    requires
        i < 4,
    ensures
        steps@ == hash_join_atomic_correctness_joins_round(i),
{
    let a: u64 = LEFT_SIZES[i as usize];
    let b: u64 = RIGHT_SIZES[i as usize];
    let m: u64 = MATCHES[i as usize];
    vec![
        fill(0, num(a), ix()),
        fill(1, num(a), times(here(0), num(10))),
        fill(
            2,
            num(b),
            pick(lt(ix(), num(m)), over(times(ix(), num(a)), num(m)), plus(num(a), ix())),
        ),
        fill(3, num(b), times(here(2), num(100))),
        upload_table(
            0,
            Layout::KeyLval,
            0,
            note1("Left {}: failed to create buffer: {}", num(a)),
        ),
        upload_table(
            1,
            Layout::KeyRval,
            2,
            note1("Right {}: failed to create buffer: {}", num(b)),
        ),
        join(0, 1, 2, note2("Hash join failed ({}x{}): {}", num(a), num(b))),
        match_rows(
            2,
            num(m),
            note4(
                "Join ({}x{}) returned {} rows, expected {}",
                num(a),
                num(b),
                reg(COUNT),
                num(m),
            ),
        ),
        fetch(2, 4, note0("Failed to download joined keys: {}")),
        download(2, 1, Scalar::U32, 5, note0("Failed to download joined lvals: {}")),
        download(2, 2, Scalar::U32, 6, note0("Failed to download joined rvals: {}")),
        rows(2, 0),
        scan(
            num(0),
            reg(0),
            1,
            fault3(
                and(
                    not(lt(here(5), num(0))),
                    and(not(lt(here(6), num(0))), not(lt(here(4), num(a)))),
                ),
                note3(
                    "Row {}: key {} is outside left table range [0, {})",
                    ix(),
                    here(4),
                    num(a),
                ),
                differs(here(5), narrow(times(here(4), num(10)))),
                note4(
                    "Row {}: lval {} doesn't match expected {} for key {}",
                    ix(),
                    here(5),
                    times(here(4), num(10)),
                    here(4),
                ),
                differs(here(6), narrow(times(here(4), num(100)))),
                note4(
                    "Row {}: rval {} doesn't match expected {} for key {}",
                    ix(),
                    here(6),
                    times(here(4), num(100)),
                    here(4),
                ),
            ),
        ),
        release(0),
    ]
}

/// The end of [`test_hash_join_atomic_correctness`].
pub open spec fn hash_join_atomic_correctness_end_steps() -> Seq<Step> {
    seq![
        sync(note0("Sync failed: {}")),
    ]
}

/// Writes the end of [`test_hash_join_atomic_correctness`].
fn hash_join_atomic_correctness_end() -> (steps: Vec<Step>)
    ensures
        steps@ == hash_join_atomic_correctness_end_steps(),
{
    vec![
        sync(note0("Sync failed: {}")),
    ]
}

/// The steps of [`test_hash_join_atomic_correctness`].
pub open spec fn hash_join_atomic_correctness_steps() -> Seq<Step> {
    crate::script::rounds(4, |i: int| hash_join_atomic_correctness_joins_round(i as u64))
        + hash_join_atomic_correctness_end_steps()
}

/// Joins find the keys that both tables have, and only those.
pub fn test_hash_join_atomic_correctness() -> (script: Script)
    ensures
        script@ == crate::script::plan(
            "test_hash_join_atomic_correctness",
            hash_join_atomic_correctness_steps(),
        ),
{
    let mut steps: Vec<Step> = Vec::new();
    let mut i: u64 = 0;
    while i < 4
        invariant
            i <= 4,
            steps@ == crate::script::rounds(
                i as int,
                |i: int| hash_join_atomic_correctness_joins_round(i as u64),
            ),
        decreases 4 - i,
    {
        let mut round = hash_join_atomic_correctness_joins(i);
        steps.append(&mut round);
        i = i + 1;
    }
    let mut more = hash_join_atomic_correctness_end();
    steps.append(&mut more);
    Script::new("test_hash_join_atomic_correctness", steps)
}

/// The end of [`test_dedup_atomic_correctness`].
pub open spec fn dedup_atomic_correctness_end_steps() -> Seq<Step> {
    seq![
        sync(note0("Sync failed: {}")),
    ]
}

/// Writes the end of [`test_dedup_atomic_correctness`].
fn dedup_atomic_correctness_end() -> (steps: Vec<Step>)
    ensures
        steps@ == dedup_atomic_correctness_end_steps(),
{
    vec![
        sync(note0("Sync failed: {}")),
    ]
}

/// The steps of [`test_dedup_atomic_correctness`].
pub open spec fn dedup_atomic_correctness_steps() -> Seq<Step> {
    crate::categories::c08_synchronization::unique_pattern_steps("all_same", 10000, num(42))
        + crate::categories::c08_synchronization::unique_pattern_steps(
            "pairs",
            10000,
            over(ix(), num(2)),
        )
        + crate::categories::c08_synchronization::unique_pattern_steps(
            "random_dups",
            10000,
            modulo(plus(times(ix(), num(1103515245)), num(12345)), num(1000)),
        )
        + crate::categories::c08_synchronization::unique_pattern_steps(
            "clustered_dups",
            10000,
            over(ix(), num(10)),
        )
        + crate::categories::c08_synchronization::unique_pattern_steps(
            "sparse_dups",
            10000,
            pick(same_as(modulo(ix(), num(100)), num(0)), num(0), ix()),
        )
        + dedup_atomic_correctness_end_steps()
}

/// Removing duplicates leaves every key once, however the duplicates lie.
pub fn test_dedup_atomic_correctness() -> (script: Script)
    ensures
        script@ == crate::script::plan(
            "test_dedup_atomic_correctness",
            dedup_atomic_correctness_steps(),
        ),
{
    let mut steps: Vec<Step> = crate::categories::c08_synchronization::unique_pattern(
        "all_same",
        10000,
        num(42),
    );
    let mut more = crate::categories::c08_synchronization::unique_pattern(
        "pairs",
        10000,
        over(ix(), num(2)),
    );
    steps.append(&mut more);
    let mut more = crate::categories::c08_synchronization::unique_pattern(
        "random_dups",
        10000,
        modulo(plus(times(ix(), num(1103515245)), num(12345)), num(1000)),
    );
    steps.append(&mut more);
    let mut more = crate::categories::c08_synchronization::unique_pattern(
        "clustered_dups",
        10000,
        over(ix(), num(10)),
    );
    steps.append(&mut more);
    let mut more = crate::categories::c08_synchronization::unique_pattern(
        "sparse_dups",
        10000,
        pick(same_as(modulo(ix(), num(100)), num(0)), num(0), ix()),
    );
    steps.append(&mut more);
    let mut more = dedup_atomic_correctness_end();
    steps.append(&mut more);
    Script::new("test_dedup_atomic_correctness", steps)
}

/// The collisions of [`test_high_contention_join`].
pub open spec fn high_contention_join_collisions_steps() -> Seq<Step> {
    seq![
        fill(0, num(5000), times(ix(), num(256))),
        fill(1, num(5000), plus(here(0), num(1))),
        fill(2, num(5000), here(0)),
        fill(3, num(5000), plus(here(0), num(2))),
        upload_table(0, Layout::KeyLval, 0, note0("Failed to create left buffer: {}")),
        upload_table(1, Layout::KeyRval, 2, note0("Failed to create right buffer: {}")),
        join(0, 1, 2, note0("Hash join with collision keys failed: {}")),
        match_rows(
            2,
            num(5000),
            note2("Collision join returned {} rows, expected {}", reg(COUNT), num(5000)),
        ),
        fetch(2, 4, note0("Failed to download collision join keys: {}")),
        download(2, 1, Scalar::U32, 5, note0("Failed to download collision join lvals: {}")),
        download(2, 2, Scalar::U32, 6, note0("Failed to download collision join rvals: {}")),
        rows(2, 0),
        scan(
            num(0),
            reg(0),
            1,
            fault2(
                and(not(lt(here(6), num(0))), differs(here(5), narrow(plus(here(4), num(1))))),
                note3(
                    "Collision row {}: lval {} != key + 1 = {}",
                    ix(),
                    here(5),
                    plus(here(4), num(1)),
                ),
                differs(here(6), narrow(plus(here(4), num(2)))),
                note3(
                    "Collision row {}: rval {} != key + 2 = {}",
                    ix(),
                    here(6),
                    plus(here(4), num(2)),
                ),
            ),
        ),
        check(
            not(alike_sets(4, 0)),
            note2(
                "Missing keys in collision join: expected {}, got {}",
                distinct_in(0),
                distinct_in(4),
            ),
        ),
    ]
}

/// Writes the collisions of [`test_high_contention_join`].
fn high_contention_join_collisions() -> (steps: Vec<Step>)
    ensures
        steps@ == high_contention_join_collisions_steps(),
{
    vec![
        fill(0, num(5000), times(ix(), num(256))),
        fill(1, num(5000), plus(here(0), num(1))),
        fill(2, num(5000), here(0)),
        fill(3, num(5000), plus(here(0), num(2))),
        upload_table(0, Layout::KeyLval, 0, note0("Failed to create left buffer: {}")),
        upload_table(1, Layout::KeyRval, 2, note0("Failed to create right buffer: {}")),
        join(0, 1, 2, note0("Hash join with collision keys failed: {}")),
        match_rows(
            2,
            num(5000),
            note2("Collision join returned {} rows, expected {}", reg(COUNT), num(5000)),
        ),
        fetch(2, 4, note0("Failed to download collision join keys: {}")),
        download(2, 1, Scalar::U32, 5, note0("Failed to download collision join lvals: {}")),
        download(2, 2, Scalar::U32, 6, note0("Failed to download collision join rvals: {}")),
        rows(2, 0),
        scan(
            num(0),
            reg(0),
            1,
            fault2(
                and(not(lt(here(6), num(0))), differs(here(5), narrow(plus(here(4), num(1))))),
                note3(
                    "Collision row {}: lval {} != key + 1 = {}",
                    ix(),
                    here(5),
                    plus(here(4), num(1)),
                ),
                differs(here(6), narrow(plus(here(4), num(2)))),
                note3(
                    "Collision row {}: rval {} != key + 2 = {}",
                    ix(),
                    here(6),
                    plus(here(4), num(2)),
                ),
            ),
        ),
        check(
            not(alike_sets(4, 0)),
            note2(
                "Missing keys in collision join: expected {}, got {}",
                distinct_in(0),
                distinct_in(4),
            ),
        ),
    ]
}

/// The single key of [`test_high_contention_join`].
pub open spec fn high_contention_join_single_key_steps() -> Seq<Step> {
    seq![
        fill(7, num(1000), num(12345)),
        fill(8, num(1000), ix()),
        fill(9, num(100), num(12345)),
        fill(10, num(100), times(ix(), num(1000))),
        upload_table(3, Layout::KeyLval, 7, note0("Failed to create same-key left buffer: {}")),
        upload_table(4, Layout::KeyRval, 9, note0("Failed to create same-key right buffer: {}")),
        join(3, 4, 5, note0("Same-key hash join failed: {}")),
        match_rows(
            5,
            num(100000),
            note2(
                "Same-key join returned {} rows, expected {} (Cartesian)",
                reg(COUNT),
                num(100000),
            ),
        ),
        fetch(5, 11, note0("Failed to download same-key join keys: {}")),
        scan(
            num(0),
            len(11),
            1,
            fault1(
                differs(here(11), num(12345)),
                note2("Same-key row {}: key {} != 12345", ix(), here(11)),
            ),
        ),
        sync(note0("Sync failed: {}")),
    ]
}

/// Writes the single key of [`test_high_contention_join`].
fn high_contention_join_single_key() -> (steps: Vec<Step>)
    ensures
        steps@ == high_contention_join_single_key_steps(),
{
    vec![
        fill(7, num(1000), num(12345)),
        fill(8, num(1000), ix()),
        fill(9, num(100), num(12345)),
        fill(10, num(100), times(ix(), num(1000))),
        upload_table(3, Layout::KeyLval, 7, note0("Failed to create same-key left buffer: {}")),
        upload_table(4, Layout::KeyRval, 9, note0("Failed to create same-key right buffer: {}")),
        join(3, 4, 5, note0("Same-key hash join failed: {}")),
        match_rows(
            5,
            num(100000),
            note2(
                "Same-key join returned {} rows, expected {} (Cartesian)",
                reg(COUNT),
                num(100000),
            ),
        ),
        fetch(5, 11, note0("Failed to download same-key join keys: {}")),
        scan(
            num(0),
            len(11),
            1,
            fault1(
                differs(here(11), num(12345)),
                note2("Same-key row {}: key {} != 12345", ix(), here(11)),
            ),
        ),
        sync(note0("Sync failed: {}")),
    ]
}

/// The steps of [`test_high_contention_join`].
pub open spec fn high_contention_join_steps() -> Seq<Step> {
    high_contention_join_collisions_steps()
        + high_contention_join_single_key_steps()
}

/// Joins with colliding keys, and with one key alone, find every pair.
pub fn test_high_contention_join() -> (script: Script)
    ensures
        script@ == crate::script::plan("test_high_contention_join", high_contention_join_steps()),
{
    let mut steps: Vec<Step> = high_contention_join_collisions();
    let mut more = high_contention_join_single_key();
    steps.append(&mut more);
    Script::new("test_high_contention_join", steps)
}

/// The end of [`test_atomic_counting`].
pub open spec fn atomic_counting_end_steps() -> Seq<Step> {
    seq![
        sync(note0("Sync failed: {}")),
    ]
}

/// Writes the end of [`test_atomic_counting`].
fn atomic_counting_end() -> (steps: Vec<Step>)
    ensures
        steps@ == atomic_counting_end_steps(),
{
    vec![
        sync(note0("Sync failed: {}")),
    ]
}

/// The steps of [`test_atomic_counting`].
pub open spec fn atomic_counting_steps() -> Seq<Step> {
    counted_filter_steps(1000, same_as(modulo(ix(), num(2)), num(0)))
        + counted_filter_steps(10000, same_as(modulo(ix(), num(10)), num(0)))
        + counted_filter_steps(50000, lt(ix(), num(10000)))
        + counted_filter_steps(100000, same_as(modulo(ix(), num(7)), num(0)))
        + atomic_counting_end_steps()
}

/// Prefix sums of masks, and the filters that use them, count the kept rows.
pub fn test_atomic_counting() -> (script: Script)
    ensures
        script@ == crate::script::plan("test_atomic_counting", atomic_counting_steps()),
{
    let mut steps: Vec<Step> = counted_filter(1000, same_as(modulo(ix(), num(2)), num(0)));
    let mut more = counted_filter(10000, same_as(modulo(ix(), num(10)), num(0)));
    steps.append(&mut more);
    let mut more = counted_filter(50000, lt(ix(), num(10000)));
    steps.append(&mut more);
    let mut more = counted_filter(100000, same_as(modulo(ix(), num(7)), num(0)));
    steps.append(&mut more);
    let mut more = atomic_counting_end();
    steps.append(&mut more);
    Script::new("test_atomic_counting", steps)
}

/// One round of the iterations of [`test_concurrent_atomic_updates`].
pub open spec fn concurrent_atomic_updates_iterations_round(i: u64) -> Seq<Step> {
    seq![
        fill(0, num(10000), plus(ix(), times(num(i), num(1000)))),
        fill(1, num(10000), times(here(0), num(10))),
        upload_table(
            0,
            Layout::KeyVal,
            0,
            note1("Iteration {}: failed to create buffer: {}", num(i)),
        ),
        dedup(0, 1, note1("Iteration {}: dedup failed: {}", num(i))),
        match_rows(
            1,
            num(10000),
            note3(
                "Iteration {}: dedup returned {} rows, expected {}",
                num(i),
                reg(COUNT),
                num(10000),
            ),
        ),
        fill(2, num(10000), same_as(modulo(ix(), num(3)), num(0))),
        filter(0, 2, 2, note1("Iteration {}: filter failed: {}", num(i))),
        match_rows(
            2,
            num(3334),
            note3(
                "Iteration {}: filter returned {} rows, expected {}",
                num(i),
                reg(COUNT),
                num(3334),
            ),
        ),
        join(0, 0, 3, note1("Iteration {}: self-join failed: {}", num(i))),
        match_rows(
            3,
            num(10000),
            note3(
                "Iteration {}: self-join returned {} rows, expected {}",
                num(i),
                reg(COUNT),
                num(10000),
            ),
        ),
        fetch(3, 3, note1("Iteration {}: failed to download join keys: {}", num(i))),
        check(
            not(alike_sets(3, 0)),
            note3(
                "Iteration {}: self-join keys don't match original ({} vs {})",
                num(i),
                distinct_in(3),
                distinct_in(0),
            ),
        ),
        dedup(0, 4, note1("Iteration {}: second dedup failed: {}", num(i))),
        match_rows(
            4,
            num(10000),
            note3(
                "Iteration {}: second dedup returned {} rows, expected {} (atomics may not have reset)",
                num(i),
                reg(COUNT),
                num(10000),
            ),
        ),
        release(0),
    ]
}

/// Writes one round of the iterations of [`test_concurrent_atomic_updates`].
fn concurrent_atomic_updates_iterations(i: u64) -> (steps: Vec<Step>)
    requires
        i < 5,
    ensures
        steps@ == concurrent_atomic_updates_iterations_round(i),
{
    vec![
        fill(0, num(10000), plus(ix(), times(num(i), num(1000)))),
        fill(1, num(10000), times(here(0), num(10))),
        upload_table(
            0,
            Layout::KeyVal,
            0,
            note1("Iteration {}: failed to create buffer: {}", num(i)),
        ),
        dedup(0, 1, note1("Iteration {}: dedup failed: {}", num(i))),
        match_rows(
            1,
            num(10000),
            note3(
                "Iteration {}: dedup returned {} rows, expected {}",
                num(i),
                reg(COUNT),
                num(10000),
            ),
        ),
        fill(2, num(10000), same_as(modulo(ix(), num(3)), num(0))),
        filter(0, 2, 2, note1("Iteration {}: filter failed: {}", num(i))),
        match_rows(
            2,
            num(3334),
            note3(
                "Iteration {}: filter returned {} rows, expected {}",
                num(i),
                reg(COUNT),
                num(3334),
            ),
        ),
        join(0, 0, 3, note1("Iteration {}: self-join failed: {}", num(i))),
        match_rows(
            3,
            num(10000),
            note3(
                "Iteration {}: self-join returned {} rows, expected {}",
                num(i),
                reg(COUNT),
                num(10000),
            ),
        ),
        fetch(3, 3, note1("Iteration {}: failed to download join keys: {}", num(i))),
        check(
            not(alike_sets(3, 0)),
            note3(
                "Iteration {}: self-join keys don't match original ({} vs {})",
                num(i),
                distinct_in(3),
                distinct_in(0),
            ),
        ),
        dedup(0, 4, note1("Iteration {}: second dedup failed: {}", num(i))),
        match_rows(
            4,
            num(10000),
            note3(
                "Iteration {}: second dedup returned {} rows, expected {} (atomics may not have reset)",
                num(i),
                reg(COUNT),
                num(10000),
            ),
        ),
        release(0),
    ]
}

/// The end of [`test_concurrent_atomic_updates`].
pub open spec fn concurrent_atomic_updates_end_steps() -> Seq<Step> {
    seq![
        sync(note0("Sync failed: {}")),
    ]
}

/// Writes the end of [`test_concurrent_atomic_updates`].
fn concurrent_atomic_updates_end() -> (steps: Vec<Step>)
    ensures
        steps@ == concurrent_atomic_updates_end_steps(),
{
    vec![
        sync(note0("Sync failed: {}")),
    ]
}

/// The steps of [`test_concurrent_atomic_updates`].
pub open spec fn concurrent_atomic_updates_steps() -> Seq<Step> {
    crate::script::rounds(5, |i: int| concurrent_atomic_updates_iterations_round(i as u64))
        + concurrent_atomic_updates_end_steps()
}

/// The counters of one operation do not leak into the next.
pub fn test_concurrent_atomic_updates() -> (script: Script)
    ensures
        script@ == crate::script::plan(
            "test_concurrent_atomic_updates",
            concurrent_atomic_updates_steps(),
        ),
{
    let mut steps: Vec<Step> = Vec::new();
    let mut i: u64 = 0;
    while i < 5
        invariant
            i <= 5,
            steps@ == crate::script::rounds(
                i as int,
                |i: int| concurrent_atomic_updates_iterations_round(i as u64),
            ),
        decreases 5 - i,
    {
        let mut round = concurrent_atomic_updates_iterations(i);
        steps.append(&mut round);
        i = i + 1;
    }
    let mut more = concurrent_atomic_updates_end();
    steps.append(&mut more);
    Script::new("test_concurrent_atomic_updates", steps)
}

/// The tests of the category.
pub open spec fn tests() -> Seq<Plan> {
    seq![
        crate::script::plan(
            "test_hash_join_atomic_correctness",
            hash_join_atomic_correctness_steps(),
        ),
        crate::script::plan("test_dedup_atomic_correctness", dedup_atomic_correctness_steps()),
        crate::script::plan("test_high_contention_join", high_contention_join_steps()),
        crate::script::plan("test_atomic_counting", atomic_counting_steps()),
        crate::script::plan("test_concurrent_atomic_updates", concurrent_atomic_updates_steps()),
    ]
}

/// Lists the tests of the category, in the order in which they run.
pub fn run_all() -> (category: CategoryRun)
    ensures
        category.title() == "c12_atomics",
        category.waiting() == tests(),
        category.test() is None,
        category.run() is None,
        category.done() == Seq::<Outcome>::empty(),
{
    let scripts: Vec<Script> = vec![
        test_hash_join_atomic_correctness(),
        test_dedup_atomic_correctness(),
        test_high_contention_join(),
        test_atomic_counting(),
        test_concurrent_atomic_updates(),
    ];
    let category = CategoryRun::new("c12_atomics", scripts);
    assert(category.waiting() =~= tests());
    category
}

} // verus!
