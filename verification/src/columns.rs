//! Columns of words on the host: sums, searches, sets, sorted copies.

use std::collections::HashSet;
use vstd::prelude::*;
use vstd::relations::{sorted_by, total_ordering};
use crate::scalar::{rank, Scalar};

verus! {

/// The sum of a column.
pub open spec fn total(words: Seq<u64>) -> int
    decreases words.len(),
{
    if words.len() == 0 {
        0
    } else {
        total(words.drop_last()) + words.last()
    }
}

/// Adding up a longer prefix never gives less.
proof fn lemma_total_of_prefix(words: Seq<u64>, short: int, long: int)
    requires
        0 <= short <= long <= words.len(),
    ensures
        0 <= total(words.take(short)) <= total(words.take(long)),
    decreases long,
{
    if long > 0 {
        assert(words.take(long).drop_last() =~= words.take(long - 1));
        if short < long {
            lemma_total_of_prefix(words, short, long - 1);
        } else {
            lemma_total_of_prefix(words, short - 1, short - 1);
            assert(words.take(short).drop_last() =~= words.take(short - 1));
        }
    }
}

/// Adds a column up; `None` where the sum does not fit 64 bits.
pub fn sum(words: &Vec<u64>) -> (result: Option<u64>)
    ensures
        match result {
            Some(value) => value == total(words@),
            None => total(words@) > u64::MAX,
        },
{
    let mut value: u64 = 0;
    let mut at: usize = 0;
    while at < words.len()
        invariant
            at <= words.len(),
            value == total(words@.take(at as int)),
        decreases words.len() - at,
    {
        assert(words@.take(at + 1).drop_last() =~= words@.take(at as int));
        proof {
            lemma_total_of_prefix(words@, at + 1, words@.len() as int);
            assert(words@.take(words@.len() as int) =~= words@);
        }
        match value.checked_add(words[at]) {
            Some(more) => {
                value = more;
            },
            None => {
                return None;
            },
        }
        at = at + 1;
    }
    assert(words@.take(words@.len() as int) =~= words@);
    Some(value)
}

/// A column of zeros and ones adds up to no more than its length, and to zero exactly when there
/// is no one in it.
pub proof fn law_total_of_zeros_and_ones(words: Seq<u64>)
    requires
        forall|i: int| 0 <= i < words.len() ==> words[i] <= 1,
    ensures
        0 <= total(words) <= words.len(),
        total(words) == 0 <==> forall|i: int| 0 <= i < words.len() ==> words[i] == 0,
    decreases words.len(),
{
    if words.len() > 0 {
        let rest = words.drop_last();
        assert forall|i: int| 0 <= i < rest.len() implies rest[i] <= 1 by {
            assert(words[i] <= 1);
        }
        law_total_of_zeros_and_ones(rest);
        assert(words.last() == words[words.len() - 1]);
        if total(words) == 0 {
            assert forall|i: int| 0 <= i < words.len() implies words[i] == 0 by {
                if i < rest.len() {
                    assert(rest[i] == 0);
                }
            }
        } else if forall|i: int| 0 <= i < words.len() ==> words[i] == 0 {
            assert forall|i: int| 0 <= i < rest.len() implies rest[i] == 0 by {
                assert(words[i] == 0);
            }
        }
    }
}

/// The exclusive running sums of a column: at each place the sum of everything before it.
pub open spec fn running_sums(words: Seq<u64>) -> Seq<u64> {
    Seq::new(words.len(), |i: int| total(words.take(i)) as u64)
}

/// Computes the running sums; `None` where the sum of the whole column does not fit 64 bits.
pub fn running(words: &Vec<u64>) -> (result: Option<Vec<u64>>)
    ensures
        match result {
            Some(sums) => total(words@) <= u64::MAX && sums@ == running_sums(words@),
            None => total(words@) > u64::MAX,
        },
{
    let mut sums: Vec<u64> = Vec::new();
    let mut value: u64 = 0;
    let mut at: usize = 0;
    while at < words.len()
        invariant
            at <= words.len(),
            value == total(words@.take(at as int)),
            sums@ == running_sums(words@).take(at as int),
        decreases words.len() - at,
    {
        assert(words@.take(at + 1).drop_last() =~= words@.take(at as int));
        proof {
            lemma_total_of_prefix(words@, at + 1, words@.len() as int);
            assert(words@.take(words@.len() as int) =~= words@);
        }
        sums.push(value);
        match value.checked_add(words[at]) {
            Some(more) => {
                value = more;
            },
            None => {
                return None;
            },
        }
        at = at + 1;
    }
    assert(words@.take(words@.len() as int) =~= words@);
    assert(running_sums(words@).take(words@.len() as int) =~= running_sums(words@));
    Some(sums)
}

/// The first place at or after `at` that holds something other than zero; the length of the
/// column where there is none.
pub open spec fn first_set(words: Seq<u64>, at: int) -> int
    decreases words.len() - at,
{
    if at >= words.len() {
        words.len() as int
    } else if words[at] != 0 {
        at
    } else {
        first_set(words, at + 1)
    }
}

/// Finds the first place that holds something other than zero.
pub fn find(words: &Vec<u64>) -> (place: usize)
    ensures
        place == first_set(words@, 0),
        place <= words.len(),
{
    let mut at: usize = 0;
    while at < words.len() && words[at] == 0
        invariant
            at <= words.len(),
            first_set(words@, 0) == first_set(words@, at as int),
        decreases words.len() - at,
    {
        at = at + 1;
    }
    at
}

/// How often a word occurs in a column.
pub open spec fn occurrences(words: Seq<u64>, word: u64) -> int
    decreases words.len(),
{
    if words.len() == 0 {
        0
    } else {
        occurrences(words.drop_last(), word) + if words.last() == word {
            1int
        } else {
            0int
        }
    }
}

/// Counts the places of a column that hold `word`.
pub fn count(words: &Vec<u64>, word: u64) -> (result: usize)
    ensures
        result == occurrences(words@, word),
{
    let mut result: usize = 0;
    let mut at: usize = 0;
    while at < words.len()
        invariant
            at <= words.len(),
            result <= at,
            result == occurrences(words@.take(at as int), word),
        decreases words.len() - at,
    {
        assert(words@.take(at + 1).drop_last() =~= words@.take(at as int));
        if words[at] == word {
            result = result + 1;
        }
        at = at + 1;
    }
    assert(words@.take(words@.len() as int) =~= words@);
    result
}

/// The first place at or after `at` where two columns differ, as far as both reach; the shorter
/// length where there is none.
pub open spec fn first_difference(left: Seq<u64>, right: Seq<u64>, at: int) -> int
    decreases left.len() - at,
{
    if at >= left.len() || at >= right.len() {
        if left.len() <= right.len() {
            left.len() as int
        } else {
            right.len() as int
        }
    } else if left[at] != right[at] {
        at
    } else {
        first_difference(left, right, at + 1)
    }
}

/// Finds the first place where two columns differ, as far as both reach.
pub fn difference(left: &Vec<u64>, right: &Vec<u64>) -> (place: usize)
    ensures
        place == first_difference(left@, right@, 0),
{
    let mut at: usize = 0;
    while at < left.len() && at < right.len() && left[at] == right[at]
        invariant
            at <= left.len(),
            at <= right.len(),
            first_difference(left@, right@, 0) == first_difference(left@, right@, at as int),
        decreases left.len() - at,
    {
        at = at + 1;
    }
    at
}

/// Whether two columns hold the same words in the same places.
pub fn same(left: &Vec<u64>, right: &Vec<u64>) -> (result: bool)
    ensures
        result == (left@ == right@),
{
    if left.len() != right.len() {
        return false;
    }
    let mut at: usize = 0;
    while at < left.len()
        invariant
            at <= left.len(),
            left.len() == right.len(),
            left@.take(at as int) =~= right@.take(at as int),
        decreases left.len() - at,
    {
        if left[at] != right[at] {
            return false;
        }
        assert(left@.take(at + 1) =~= left@.take(at as int).push(left@[at as int]));
        assert(right@.take(at + 1) =~= right@.take(at as int).push(right@[at as int]));
        at = at + 1;
    }
    assert(left@.take(left@.len() as int) =~= left@);
    assert(right@.take(right@.len() as int) =~= right@);
    true
}

/// The first place at or after `at` whose word occurs before it; the length of the column where
/// there is none.
pub open spec fn first_repeat(words: Seq<u64>, at: int) -> int
    decreases words.len() - at,
{
    if at >= words.len() {
        words.len() as int
    } else if words.take(at).contains(words[at]) {
        at
    } else {
        first_repeat(words, at + 1)
    }
}

/// The words of a prefix, as a set, with one word more.
proof fn lemma_set_of_prefix(words: Seq<u64>, at: int)
    requires
        0 <= at < words.len(),
    ensures
        words.take(at + 1).to_set() == words.take(at).to_set().insert(words[at]),
{
    let before = words.take(at);
    let after = words.take(at + 1);
    assert(after =~= before.push(words[at]));
    assert forall|word: u64| #[trigger] after.to_set().contains(word) <==> before.to_set().insert(
        words[at],
    ).contains(word) by {
        if before.contains(word) {
            let k = choose|k: int| 0 <= k < before.len() && before[k] == word;
            assert(after[k] == word);
        }
        if word == words[at] {
            assert(after[at] == word);
        }
    }
    assert(after.to_set() =~= before.to_set().insert(words[at]));
}

/// Finds the first place whose word occurs before it.
pub fn repeat(words: &Vec<u64>) -> (place: usize)
    ensures
        place == first_repeat(words@, 0),
{
    broadcast use vstd::std_specs::hash::group_hash_axioms;

    let mut set: HashSet<u64> = HashSet::new();
    assert(words@.take(0).to_set() =~= Set::<u64>::empty());
    let mut at: usize = 0;
    while at < words.len()
        invariant
            at <= words.len(),
            set@ == words@.take(at as int).to_set(),
            first_repeat(words@, 0) == first_repeat(words@, at as int),
        decreases words.len() - at,
    {
        broadcast use vstd::std_specs::hash::group_hash_axioms;

        proof {
            lemma_set_of_prefix(words@, at as int);
        }
        if !set.insert(words[at]) {
            assert(words@.take(at as int).contains(words@[at as int]));
            return at;
        }
        assert(!words@.take(at as int).contains(words@[at as int]));
        at = at + 1;
    }
    at
}

/// Collects the distinct words of a column.
fn collect(words: &Vec<u64>) -> (set: HashSet<u64>)
    ensures
        set@ == words@.to_set(),
{
    broadcast use vstd::std_specs::hash::group_hash_axioms;

    let mut set: HashSet<u64> = HashSet::new();
    assert(words@.take(0).to_set() =~= Set::<u64>::empty());
    let mut at: usize = 0;
    while at < words.len()
        invariant
            at <= words.len(),
            set@ == words@.take(at as int).to_set(),
        decreases words.len() - at,
    {
        broadcast use vstd::std_specs::hash::group_hash_axioms;

        proof {
            lemma_set_of_prefix(words@, at as int);
        }
        set.insert(words[at]);
        at = at + 1;
    }
    assert(words@.take(words@.len() as int) =~= words@);
    set
}

/// Counts the distinct words of a column.
pub fn distinct(words: &Vec<u64>) -> (result: usize)
    ensures
        result == words@.to_set().len(),
{
    broadcast use vstd::std_specs::hash::group_hash_axioms;

    let set = collect(words);
    set.len()
}

/// Whether every word of `words` is in `set`.
fn all_in(words: &Vec<u64>, set: &HashSet<u64>) -> (result: bool)
    ensures
        result == words@.to_set().subset_of(set@),
{
    let mut at: usize = 0;
    while at < words.len()
        invariant
            at <= words.len(),
            forall|k: int| 0 <= k < at ==> set@.contains(#[trigger] words@[k]),
        decreases words.len() - at,
    {
        broadcast use vstd::std_specs::hash::group_hash_axioms;

        if !set.contains(&words[at]) {
            assert(words@.to_set().contains(words@[at as int]));
            return false;
        }
        at = at + 1;
    }
    true
}

/// Whether two columns hold the same set of words.
pub fn same_set(left: &Vec<u64>, right: &Vec<u64>) -> (result: bool)
    ensures
        result == (left@.to_set() == right@.to_set()),
{
    let left_set = collect(left);
    let right_set = collect(right);
    let result = all_in(left, &right_set) && all_in(right, &left_set);
    proof {
        if result {
            assert(left@.to_set() =~= right@.to_set());
        }
    }
    result
}

/// The rows that three columns form side by side, as far as all three reach.
pub open spec fn rows(first: Seq<u64>, second: Seq<u64>, third: Seq<u64>) -> Seq<(u64, u64, u64)> {
    let reach = if first.len() <= second.len() && first.len() <= third.len() {
        first.len()
    } else if second.len() <= third.len() {
        second.len()
    } else {
        third.len()
    };
    Seq::new(reach, |i: int| (first[i], second[i], third[i]))
}

/// Lays three columns side by side.
fn zip(first: &Vec<u64>, second: &Vec<u64>, third: &Vec<u64>) -> (result: Vec<(u64, u64, u64)>)
    ensures
        result@ == rows(first@, second@, third@),
{
    let mut result: Vec<(u64, u64, u64)> = Vec::new();
    let mut at: usize = 0;
    while at < first.len() && at < second.len() && at < third.len()
        invariant
            at <= first.len(),
            at <= second.len(),
            at <= third.len(),
            result@ == rows(first@, second@, third@).take(at as int),
        decreases first.len() - at,
    {
        result.push((first[at], second[at], third[at]));
        at = at + 1;
    }
    result
}

/// Whether a row is among the first `reach` rows.
fn holds_row(rows: &Vec<(u64, u64, u64)>, row: (u64, u64, u64), reach: usize) -> (result: bool)
    requires
        reach <= rows.len(),
    ensures
        result == rows@.take(reach as int).contains(row),
{
    let mut at: usize = 0;
    while at < reach
        invariant
            at <= reach <= rows.len(),
            forall|k: int| 0 <= k < at ==> #[trigger] rows@[k] != row,
        decreases reach - at,
    {
        if rows[at].0 == row.0 && rows[at].1 == row.1 && rows[at].2 == row.2 {
            assert(rows@.take(reach as int)[at as int] == row);
            return true;
        }
        at = at + 1;
    }
    false
}

/// Counts the distinct rows that three columns form.
pub fn distinct_rows(first: &Vec<u64>, second: &Vec<u64>, third: &Vec<u64>) -> (result: usize)
    ensures
        result == rows(first@, second@, third@).to_set().len(),
{
    let all = zip(first, second, third);
    let mut result: usize = 0;
    let mut at: usize = 0;
    assert(all@.take(0).to_set() =~= Set::<(u64, u64, u64)>::empty());
    while at < all.len()
        invariant
            at <= all.len(),
            result <= at,
            all@.take(at as int).to_set().finite(),
            result == all@.take(at as int).to_set().len(),
        decreases all.len() - at,
    {
        let ghost before = all@.take(at as int);
        let ghost after = all@.take(at + 1);
        let fresh = !holds_row(&all, all[at], at);
        proof {
            assert(after =~= before.push(all@[at as int]));
            assert forall|row: (u64, u64, u64)|
                #[trigger] after.to_set().contains(row) <==> before.to_set().insert(
                    all@[at as int],
                ).contains(row) by {
                if before.contains(row) {
                    let k = choose|k: int| 0 <= k < before.len() && before[k] == row;
                    assert(after[k] == row);
                }
                if row == all@[at as int] {
                    assert(after[at as int] == row);
                }
            }
            assert(after.to_set() =~= before.to_set().insert(all@[at as int]));
        }
        if fresh {
            result = result + 1;
        } else {
            assert(before.to_set().insert(all@[at as int]) =~= before.to_set());
        }
        at = at + 1;
    }
    assert(all@.take(all@.len() as int) =~= all@);
    result
}

/// Whether two triples of columns form the same set of rows.
pub fn same_rows(
    first: &Vec<u64>,
    second: &Vec<u64>,
    third: &Vec<u64>,
    other_first: &Vec<u64>,
    other_second: &Vec<u64>,
    other_third: &Vec<u64>,
) -> (result: bool)
    ensures
        result == (rows(first@, second@, third@).to_set() == rows(
            other_first@,
            other_second@,
            other_third@,
        ).to_set()),
{
    let left = zip(first, second, third);
    let right = zip(other_first, other_second, other_third);
    let result = rows_within(&left, &right) && rows_within(&right, &left);
    proof {
        if result {
            assert(left@.to_set() =~= right@.to_set());
        }
    }
    result
}

/// Whether every row of `left` is a row of `right`.
fn rows_within(left: &Vec<(u64, u64, u64)>, right: &Vec<(u64, u64, u64)>) -> (result: bool)
    ensures
        result == left@.to_set().subset_of(right@.to_set()),
{
    assert(right@.take(right@.len() as int) =~= right@);
    let mut at: usize = 0;
    while at < left.len()
        invariant
            at <= left.len(),
            right@.take(right@.len() as int) =~= right@,
            forall|k: int| 0 <= k < at ==> right@.contains(#[trigger] left@[k]),
        decreases left.len() - at,
    {
        if !holds_row(right, left[at], right.len()) {
            assert(left@.to_set().contains(left@[at as int]));
            assert(!right@.to_set().contains(left@[at as int]));
            return false;
        }
        at = at + 1;
    }
    true
}

/// The order of the words of a type.
pub open spec fn ordered(scalar: Scalar) -> spec_fn(u64, u64) -> bool {
    |left: u64, right: u64|
        crate::scalar::rank_of(scalar, left) <= crate::scalar::rank_of(scalar, right)
}

/// The words of a column in rising order.
pub open spec fn sorted(scalar: Scalar, words: Seq<u64>) -> Seq<u64> {
    words.sort_by(ordered(scalar))
}

/// The order of each type is total.
pub proof fn law_order_is_total(scalar: Scalar)
    ensures
        total_ordering(ordered(scalar)),
{
}

/// The sorted copy of a column is the one rising sequence with the same words.
pub proof fn law_sorted_is_the_rising_permutation(scalar: Scalar, words: Seq<u64>, other: Seq<u64>)
    ensures
        sorted(scalar, words) == other <==> sorted_by(other, ordered(scalar))
            && other.to_multiset() == words.to_multiset(),
{
    law_order_is_total(scalar);
    words.lemma_sort_by_ensures(ordered(scalar));
    if sorted_by(other, ordered(scalar)) && other.to_multiset() == words.to_multiset() {
        vstd::seq_lib::lemma_sorted_unique(sorted(scalar, words), other, ordered(scalar));
    }
}

/// Distinct words that are all below their number, in rising order, are the places themselves.
pub proof fn law_distinct_small_words_sort_to_their_places(words: Seq<u64>)
    requires
        words.no_duplicates(),
        forall|i: int| 0 <= i < words.len() ==> words[i] < words.len(),
    ensures
        sorted(Scalar::U32, words) == Seq::new(words.len(), |i: int| i as u64),
{
    let count = words.len();
    let places = Seq::new(count, |i: int| i as u64);
    let numbers = Seq::new(count, |i: int| words[i] as int);
    let range = vstd::set_lib::set_int_range(0, count as int);
    assert(numbers.no_duplicates());
    numbers.unique_seq_to_set();
    vstd::set_lib::lemma_int_range(0, count as int);
    assert forall|number: int| #[trigger] numbers.to_set().contains(number) implies range.contains(
        number,
    ) by {
        let i = choose|i: int| 0 <= i < count && numbers[i] == number;
        assert(words[i] < count);
    }
    vstd::set_lib::lemma_subset_equality(numbers.to_set(), range);
    assert(count <= 0x1_0000_0000_0000_0000) by {
        if count > 0x1_0000_0000_0000_0000 {
            assert(range.contains(0x1_0000_0000_0000_0000));
            let i = choose|i: int| 0 <= i < count && numbers[i] == 0x1_0000_0000_0000_0000;
            assert(numbers.to_set().contains(0x1_0000_0000_0000_0000));
        }
    }
    assert(places.no_duplicates());
    words.lemma_multiset_has_no_duplicates();
    places.lemma_multiset_has_no_duplicates();
    broadcast use vstd::seq_lib::group_to_multiset_ensures;

    assert forall|word: u64| words.to_multiset().count(word) == places.to_multiset().count(
        word,
    ) by {
        if word < count {
            assert(places[word as int] == word);
            assert(places.contains(word));
            assert(numbers.to_set().contains(word as int));
            let i = choose|i: int| 0 <= i < count && numbers[i] == word as int;
            assert(words[i] == word);
            assert(words.contains(word));
        } else {
            assert(!places.contains(word));
            assert(!words.contains(word));
        }
    }
    assert(words.to_multiset() =~= places.to_multiset());
    law_sorted_is_the_rising_permutation(Scalar::U32, words, places);
}

/// Merges two rising columns into one.
fn merge(scalar: Scalar, left: &Vec<u64>, right: &Vec<u64>) -> (result: Vec<u64>)
    requires
        sorted_by(left@, ordered(scalar)),
        sorted_by(right@, ordered(scalar)),
    ensures
        sorted_by(result@, ordered(scalar)),
        result@.to_multiset() == left@.to_multiset().add(right@.to_multiset()),
{
    let mut result: Vec<u64> = Vec::new();
    let mut i: usize = 0;
    let mut j: usize = 0;
    proof {
        assert(left@.take(0) =~= Seq::<u64>::empty());
        assert(right@.take(0) =~= Seq::<u64>::empty());
        broadcast use vstd::seq_lib::group_to_multiset_ensures;

        assert(result@.to_multiset() =~= left@.take(0).to_multiset().add(
            right@.take(0).to_multiset(),
        ));
    }
    while i < left.len() || j < right.len()
        invariant
            i <= left.len(),
            j <= right.len(),
            sorted_by(left@, ordered(scalar)),
            sorted_by(right@, ordered(scalar)),
            sorted_by(result@, ordered(scalar)),
            forall|k: int|
                0 <= k < result@.len() && i < left.len() ==> ordered(scalar)(
                    #[trigger] result@[k],
                    left@[i as int],
                ),
            forall|k: int|
                0 <= k < result@.len() && j < right.len() ==> ordered(scalar)(
                    #[trigger] result@[k],
                    right@[j as int],
                ),
            result@.to_multiset() == left@.take(i as int).to_multiset().add(
                right@.take(j as int).to_multiset(),
            ),
        decreases left.len() - i + right.len() - j,
    {
        broadcast use vstd::seq_lib::group_to_multiset_ensures;

        assert(i + 1 < left.len() ==> ordered(scalar)(left@[i as int], left@[i + 1]));
        assert(j + 1 < right.len() ==> ordered(scalar)(right@[j as int], right@[j + 1]));
        if j >= right.len() || (i < left.len() && rank(scalar, left[i]) <= rank(
            scalar,
            right[j],
        )) {
            result.push(left[i]);
            proof {
                assert(left@.take(i + 1) =~= left@.take(i as int).push(left@[i as int]));
                assert(result@.to_multiset() =~= left@.take(i + 1).to_multiset().add(
                    right@.take(j as int).to_multiset(),
                ));
            }
            i = i + 1;
        } else {
            result.push(right[j]);
            proof {
                assert(right@.take(j + 1) =~= right@.take(j as int).push(right@[j as int]));
                assert(result@.to_multiset() =~= left@.take(i as int).to_multiset().add(
                    right@.take(j + 1).to_multiset(),
                ));
            }
            j = j + 1;
        }
    }
    assert(left@.take(left@.len() as int) =~= left@);
    assert(right@.take(right@.len() as int) =~= right@);
    result
}

/// Sorts the words from place `low` up to place `high`.
fn sort_range(scalar: Scalar, words: &Vec<u64>, low: usize, high: usize) -> (result: Vec<u64>)
    requires
        low <= high <= words.len(),
    ensures
        sorted_by(result@, ordered(scalar)),
        result@.to_multiset() == words@.subrange(low as int, high as int).to_multiset(),
    decreases high - low,
{
    if high - low <= 1 {
        let mut result: Vec<u64> = Vec::new();
        if low < high {
            result.push(words[low]);
        }
        assert(result@ =~= words@.subrange(low as int, high as int));
        return result;
    }
    let middle = low + (high - low) / 2;
    let left = sort_range(scalar, words, low, middle);
    let right = sort_range(scalar, words, middle, high);
    proof {
        vstd::seq_lib::lemma_multiset_commutative(
            words@.subrange(low as int, middle as int),
            words@.subrange(middle as int, high as int),
        );
        assert(words@.subrange(low as int, middle as int) + words@.subrange(
            middle as int,
            high as int,
        ) =~= words@.subrange(low as int, high as int));
    }
    merge(scalar, &left, &right)
}

/// Sorts a copy of a column.
pub fn sort(scalar: Scalar, words: &Vec<u64>) -> (result: Vec<u64>)
    ensures
        result@ == sorted(scalar, words@),
{
    let result = sort_range(scalar, words, 0, words.len());
    proof {
        assert(words@.subrange(0, words@.len() as int) =~= words@);
        law_sorted_is_the_rising_permutation(scalar, words@, result@);
    }
    result
}

} // verus!
