//! The laws of the tests of sorts by many keys and of joins on keys next to overflow.

use vstd::prelude::*;
use crate::expr::{
    and, before, count_in, differs, distinct_in, here, ix, lt, minus, modulo, not, num, or, over,
    plus, reg, same_as, times,
};
use crate::machine::{Answer, Ending, Progress};
use crate::memory::Contents;
use crate::script::{Act, Faults, Step, COUNT};
use crate::tables::Table;

verus! {

/// The thousands of the falling numbers.
pub open spec fn thousands() -> Seq<u64> {
    Seq::new(10000, |i: int| ((9999 - i) / 1000) as u64)
}

/// One of the words of [`thousands`].
proof fn lemma_thousands_at(contents: Contents, i: u64)
    requires
        i < 10000,
    ensures
        crate::expr::value_of(
            over(minus(num(9999), ix()), num(1000)),
            contents,
            i,
        ) == Some(thousands()[i as int]),
{
    reveal_with_fuel(crate::expr::value_of, 3);
}

/// The words of [`thousands`].
proof fn lemma_thousands(contents: Contents)
    ensures
        forall|i: int|
            0 <= i < 10000 ==> #[trigger] crate::expr::value_of(
                over(minus(num(9999), ix()), num(1000)),
                contents,
                i as u64,
            ) == Some(thousands()[i]),
{
    assert forall|i: int| 0 <= i < 10000 implies #[trigger] crate::expr::value_of(
        over(minus(num(9999), ix()), num(1000)),
        contents,
        i as u64,
    ) == Some(thousands()[i]) by {
        lemma_thousands_at(contents, i as u64);
    }
}

/// The hundreds of the falling numbers.
pub open spec fn hundreds() -> Seq<u64> {
    Seq::new(10000, |i: int| ((9999 - i) % 1000 / 100) as u64)
}

/// One of the words of [`hundreds`].
proof fn lemma_hundreds_at(contents: Contents, i: u64)
    requires
        i < 10000,
    ensures
        crate::expr::value_of(
            over(modulo(minus(num(9999), ix()), num(1000)), num(100)),
            contents,
            i,
        ) == Some(hundreds()[i as int]),
{
    reveal_with_fuel(crate::expr::value_of, 4);
}

/// The words of [`hundreds`].
proof fn lemma_hundreds(contents: Contents)
    ensures
        forall|i: int|
            0 <= i < 10000 ==> #[trigger] crate::expr::value_of(
                over(modulo(minus(num(9999), ix()), num(1000)), num(100)),
                contents,
                i as u64,
            ) == Some(hundreds()[i]),
{
    assert forall|i: int| 0 <= i < 10000 implies #[trigger] crate::expr::value_of(
        over(modulo(minus(num(9999), ix()), num(1000)), num(100)),
        contents,
        i as u64,
    ) == Some(hundreds()[i]) by {
        lemma_hundreds_at(contents, i as u64);
    }
}

/// The tens of the falling numbers.
pub open spec fn tens() -> Seq<u64> {
    Seq::new(10000, |i: int| ((9999 - i) % 100 / 10) as u64)
}

/// One of the words of [`tens`].
proof fn lemma_tens_at(contents: Contents, i: u64)
    requires
        i < 10000,
    ensures
        crate::expr::value_of(
            over(modulo(minus(num(9999), ix()), num(100)), num(10)),
            contents,
            i,
        ) == Some(tens()[i as int]),
{
    reveal_with_fuel(crate::expr::value_of, 4);
}

/// The words of [`tens`].
proof fn lemma_tens(contents: Contents)
    ensures
        forall|i: int|
            0 <= i < 10000 ==> #[trigger] crate::expr::value_of(
                over(modulo(minus(num(9999), ix()), num(100)), num(10)),
                contents,
                i as u64,
            ) == Some(tens()[i]),
{
    assert forall|i: int| 0 <= i < 10000 implies #[trigger] crate::expr::value_of(
        over(modulo(minus(num(9999), ix()), num(100)), num(10)),
        contents,
        i as u64,
    ) == Some(tens()[i]) by {
        lemma_tens_at(contents, i as u64);
    }
}

/// The ones of the falling numbers.
pub open spec fn ones() -> Seq<u64> {
    Seq::new(10000, |i: int| ((9999 - i) % 10) as u64)
}

/// One of the words of [`ones`].
proof fn lemma_ones_at(contents: Contents, i: u64)
    requires
        i < 10000,
    ensures
        crate::expr::value_of(
            modulo(minus(num(9999), ix()), num(10)),
            contents,
            i,
        ) == Some(ones()[i as int]),
{
    reveal_with_fuel(crate::expr::value_of, 3);
}

/// The words of [`ones`].
proof fn lemma_ones(contents: Contents)
    ensures
        forall|i: int|
            0 <= i < 10000 ==> #[trigger] crate::expr::value_of(
                modulo(minus(num(9999), ix()), num(10)),
                contents,
                i as u64,
            ) == Some(ones()[i]),
{
    assert forall|i: int| 0 <= i < 10000 implies #[trigger] crate::expr::value_of(
        modulo(minus(num(9999), ix()), num(10)),
        contents,
        i as u64,
    ) == Some(ones()[i]) by {
        lemma_ones_at(contents, i as u64);
    }
}

/// The falling numbers.
pub open spec fn numbers() -> Seq<u64> {
    Seq::new(10000, |i: int| (9999 - i) as u64)
}

/// One of the words of [`numbers`].
proof fn lemma_numbers_at(contents: Contents, i: u64)
    requires
        i < 10000,
    ensures
        crate::expr::value_of(minus(num(9999), ix()), contents, i) == Some(numbers()[i as int]),
{
    reveal_with_fuel(crate::expr::value_of, 2);
}

/// The words of [`numbers`].
proof fn lemma_numbers(contents: Contents)
    ensures
        forall|i: int|
            0 <= i < 10000 ==> #[trigger] crate::expr::value_of(
                minus(num(9999), ix()),
                contents,
                i as u64,
            ) == Some(numbers()[i]),
{
    assert forall|i: int| 0 <= i < 10000 implies #[trigger] crate::expr::value_of(
        minus(num(9999), ix()),
        contents,
        i as u64,
    ) == Some(numbers()[i]) by {
        lemma_numbers_at(contents, i as u64);
    }
}

/// Whether there are two keys at a place, and they are not less than those before them.
pub open spec fn row_in_order(first: Seq<u64>, second: Seq<u64>, place: int) -> bool {
    &&& place < first.len()
    &&& place < second.len()
    &&& first[place - 1] < first[place] || first[place - 1] == first[place] && second[place - 1]
        <= second[place]
}

/// Whether the rows are there and in the order of their first two keys.
pub open spec fn rows_in_order(first: Seq<u64>, second: Seq<u64>) -> bool {
    crate::laws::traffic::at_each(1, 10000, 1, |i: int| row_in_order(first, second, i))
}

/// Looking at two keys and those before them.
proof fn lemma_row_in_order(contents: Contents, i: u64)
    requires
        contents.full(),
        contents.columns[5].len() <= u64::MAX,
        contents.columns[6].len() <= u64::MAX,
        1 <= i,
    ensures
        crate::expr::value_of(
            and(
                not(lt(before(6), num(0))),
                and(
                    not(lt(here(6), num(0))),
                    or(
                        lt(here(5), before(5)),
                        and(same_as(here(5), before(5)), lt(here(6), before(6))),
                    ),
                ),
            ),
            contents,
            i,
        ) == Some(0u64) <==> row_in_order(contents.columns[5], contents.columns[6], i as int),
{
    let first = contents.columns[5];
    let second = contents.columns[6];
    lemma_pair(contents, 5, i);
    lemma_pair(contents, 6, i);
    assert(crate::expr::value_of(num(0), contents, i) == Some(0u64));
    let low = not(lt(before(6), num(0)));
    assert(crate::expr::value_of(lt(before(6), num(0)), contents, i) == (if i - 1 < second.len() {
        Some(0u64)
    } else {
        None
    }));
    assert(crate::expr::value_of(low, contents, i) == (if i - 1 < second.len() {
        Some(1u64)
    } else {
        None
    }));
    let high = not(lt(here(6), num(0)));
    assert(crate::expr::value_of(lt(here(6), num(0)), contents, i) == (if i < second.len() {
        Some(0u64)
    } else {
        None
    }));
    assert(crate::expr::value_of(high, contents, i) == (if i < second.len() {
        Some(1u64)
    } else {
        None
    }));
    let less = lt(here(5), before(5));
    let same = same_as(here(5), before(5));
    let tied = lt(here(6), before(6));
    assert(crate::expr::value_of(less, contents, i) == (if i < first.len() {
        Some(crate::expr::truth(first[i as int] < first[i - 1]))
    } else {
        None
    }));
    if i < first.len() && i < second.len() {
        assert(crate::expr::value_of(same, contents, i) == Some(
            crate::expr::truth(first[i as int] == first[i - 1]),
        ));
        assert(crate::expr::value_of(tied, contents, i) == Some(
            crate::expr::truth(second[i as int] < second[i - 1]),
        ));
        assert(crate::expr::value_of(and(same, tied), contents, i) == Some(
            crate::expr::truth(
                first[i as int] == first[i - 1] && second[i as int] < second[i - 1],
            ),
        ));
    }
    let fault = or(less, and(same, tied));
    assert(i >= first.len() ==> crate::expr::value_of(fault, contents, i) is None);
    assert(i < first.len() && i < second.len() ==> crate::expr::value_of(fault, contents, i)
        == Some(crate::expr::truth(!row_in_order(first, second, i as int))));
    let rest = and(high, fault);
    assert(i >= second.len() ==> crate::expr::value_of(rest, contents, i) is None);
    assert(i < second.len() && i >= first.len() ==> crate::expr::value_of(rest, contents, i)
        is None);
    assert(i < first.len() && i < second.len() ==> crate::expr::value_of(rest, contents, i)
        == Some(crate::expr::truth(!row_in_order(first, second, i as int))));
    assert(crate::expr::value_of(and(low, rest), contents, i) == (if i - 1 < second.len() {
        match crate::expr::value_of(rest, contents, i) {
            Some(value) => Some(crate::expr::truth(value != 0)),
            None => None,
        }
    } else {
        None
    }));
}

/// The word at a place and the one before it.
proof fn lemma_pair(contents: Contents, slot: u64, i: u64)
    requires
        slot < contents.columns.len(),
        1 <= i,
    ensures
        crate::expr::value_of(here(slot), contents, i) == (if i
            < contents.columns[slot as int].len() {
            Some(contents.columns[slot as int][i as int])
        } else {
            None
        }),
        crate::expr::value_of(before(slot), contents, i) == (if i - 1
            < contents.columns[slot as int].len() {
            Some(contents.columns[slot as int][i - 1])
        } else {
            None
        }),
{
    reveal_with_fuel(crate::expr::value_of, 3);
}

/// A scan for rows that are not in the order of their first two keys.
proof fn lemma_scan_rows(
    steps: Seq<Step>,
    place: int,
    to: int,
    contents: Contents,
    answers: Seq<Answer>,
    used: int,
)
    requires
        place < to,
        contents.full(),
        contents.columns[5].len() <= u64::MAX,
        contents.columns[6].len() <= u64::MAX,
        crate::machine::taken(steps[place], contents) == Some(true),
        crate::machine::act_of(steps[place]) matches Act::Scan { low, high, by, faults } && {
            &&& low == num(1)
            &&& high == num(10000)
            &&& by == 1
            &&& faults matches Faults::One(fault, _)
            &&& fault == and(
                not(lt(before(6), num(0))),
                and(
                    not(lt(here(6), num(0))),
                    or(
                        lt(here(5), before(5)),
                        and(same_as(here(5), before(5)), lt(here(6), before(6))),
                    ),
                ),
            )
        },
    ensures
        crate::walk::walked(steps, place, to, contents, answers, used) == (if rows_in_order(
            contents.columns[5],
            contents.columns[6],
        ) {
            crate::walk::walked(steps, place + 1, to, contents, answers, used)
        } else {
            None
        }),
{
    let first = contents.columns[5];
    let second = contents.columns[6];
    let fine = |i: int| row_in_order(first, second, i);
    let fault = and(
        not(lt(before(6), num(0))),
        and(
            not(lt(here(6), num(0))),
            or(lt(here(5), before(5)), and(same_as(here(5), before(5)), lt(here(6), before(6)))),
        ),
    );
    assert forall|i: int| 1 <= i < 10000 implies (#[trigger] crate::expr::value_of(
        fault,
        contents,
        i as u64,
    ) == Some(0u64) <==> fine(i)) by {
        lemma_row_in_order(contents, i as u64);
    }
    assert(crate::expr::value_of(num(1), contents, 0) == Some(1u64));
    assert(crate::expr::value_of(num(10000), contents, 0) == Some(10000u64));
    crate::laws::traffic::lemma_scan_each(
        steps,
        place,
        to,
        contents,
        answers,
        used,
        1,
        10000,
        1,
        fault,
        fine,
    );
}

/// Whether the number of distinct words of a column is not the expected one.
proof fn lemma_distinct(contents: Contents, slot: u64, expected: u64)
    requires
        slot < contents.columns.len(),
        contents.columns[slot as int].len() <= u64::MAX,
    ensures
        crate::expr::value_of(differs(distinct_in(slot), num(expected)), contents, 0) == Some(
            crate::expr::truth(contents.columns[slot as int].to_set().len() != expected),
        ),
{
    contents.columns[slot as int].lemma_cardinality_of_set();
    crate::laws::steps::lemma_differs(distinct_in(slot), num(expected), contents, 0);
}

/// The values that go with the keys of the left table.
pub open spec fn left_value(key: u64) -> int {
    (key + 100) % 4294967296
}

/// The values that go with the keys of the right table.
pub open spec fn right_value(key: u64) -> int {
    key * 10 % 4294967296
}

/// The keys of the left table.
pub open spec fn left_keys() -> Seq<u64> {
    crate::tables::words_of(Table::LeftKeys)
}

/// The keys of the right table.
pub open spec fn right_keys() -> Seq<u64> {
    crate::tables::words_of(Table::RightKeys)
}

/// The values of the left table.
pub open spec fn left_values() -> Seq<u64> {
    Seq::new(12, |i: int| left_value(left_keys()[i]) as u64)
}

/// The values of the right table.
pub open spec fn right_values() -> Seq<u64> {
    Seq::new(6, |i: int| right_value(right_keys()[i]) as u64)
}

/// The value that goes with a key of the left table.
proof fn lemma_left_value(contents: Contents, slot: u64, i: u64)
    requires
        slot < contents.columns.len(),
        i < contents.columns[slot as int].len(),
        contents.columns[slot as int][i as int] <= u32::MAX,
    ensures
        crate::expr::value_of(
            modulo(plus(here(slot), num(100)), num(4294967296)),
            contents,
            i,
        ) == Some(left_value(contents.columns[slot as int][i as int]) as u64),
{
    reveal_with_fuel(crate::expr::value_of, 4);
}

/// The value that goes with a key of the right table.
proof fn lemma_right_value(contents: Contents, slot: u64, i: u64)
    requires
        slot < contents.columns.len(),
        i < contents.columns[slot as int].len(),
        contents.columns[slot as int][i as int] <= u32::MAX,
    ensures
        crate::expr::value_of(
            modulo(times(here(slot), num(10)), num(4294967296)),
            contents,
            i,
        ) == Some(right_value(contents.columns[slot as int][i as int]) as u64),
{
    reveal_with_fuel(crate::expr::value_of, 4);
}

/// The words of [`left_values`].
proof fn lemma_left_values(contents: Contents)
    requires
        contents.full(),
        contents.columns[0] == left_keys(),
    ensures
        forall|i: int|
            0 <= i < 12 ==> #[trigger] crate::expr::value_of(
                modulo(plus(here(0), num(100)), num(4294967296)),
                contents,
                i as u64,
            ) == Some(left_values()[i]),
{
    assert forall|i: int| 0 <= i < 12 implies #[trigger] crate::expr::value_of(
        modulo(plus(here(0), num(100)), num(4294967296)),
        contents,
        i as u64,
    ) == Some(left_values()[i]) by {
        lemma_left_value(contents, 0, i as u64);
    }
}

/// The words of [`right_values`].
proof fn lemma_right_values(contents: Contents)
    requires
        contents.full(),
        contents.columns[2] == right_keys(),
    ensures
        forall|i: int|
            0 <= i < 6 ==> #[trigger] crate::expr::value_of(
                modulo(times(here(2), num(10)), num(4294967296)),
                contents,
                i as u64,
            ) == Some(right_values()[i]),
{
    assert forall|i: int| 0 <= i < 6 implies #[trigger] crate::expr::value_of(
        modulo(times(here(2), num(10)), num(4294967296)),
        contents,
        i as u64,
    ) == Some(right_values()[i]) by {
        lemma_right_value(contents, 2, i as u64);
    }
}

/// Whether a column holds the word at a place of another one.
proof fn lemma_counted(contents: Contents, slot: u64, from: u64, i: u64)
    requires
        slot < contents.columns.len(),
        from < contents.columns.len(),
        contents.columns[slot as int].len() <= u64::MAX,
        i < contents.columns[from as int].len(),
    ensures
        crate::expr::value_of(lt(num(0), count_in(slot, here(from))), contents, i) == Some(
            crate::expr::truth(
                contents.columns[slot as int].contains(contents.columns[from as int][i as int]),
            ),
        ),
        crate::expr::value_of(same_as(count_in(slot, here(from)), num(0)), contents, i) == Some(
            crate::expr::truth(
                !contents.columns[slot as int].contains(contents.columns[from as int][i as int]),
            ),
        ),
{
    let words = contents.columns[slot as int];
    let word = contents.columns[from as int][i as int];
    crate::laws::types::lemma_occurrences(words, word);
    crate::laws::steps::lemma_here(contents, from, i);
    assert(crate::expr::value_of(num(0), contents, i) == Some(0u64));
    assert(crate::expr::value_of(count_in(slot, here(from)), contents, i) == Some(
        crate::columns::occurrences(words, word) as u64,
    ));
}

/// The mask of the keys of the left table that the right table holds too.
pub open spec fn common() -> Seq<u64> {
    Seq::new(12, |i: int| crate::expr::truth(right_keys().contains(left_keys()[i])))
}

/// The words of [`common`].
proof fn lemma_common(contents: Contents)
    requires
        contents.full(),
        contents.columns[0] == left_keys(),
        contents.columns[2] == right_keys(),
    ensures
        forall|i: int|
            0 <= i < 12 ==> #[trigger] crate::expr::value_of(
                lt(num(0), count_in(2, here(0))),
                contents,
                i as u64,
            ) == Some(common()[i]),
{
    assert forall|i: int| 0 <= i < 12 implies #[trigger] crate::expr::value_of(
        lt(num(0), count_in(2, here(0))),
        contents,
        i as u64,
    ) == Some(common()[i]) by {
        lemma_counted(contents, 2, 0, i as u64);
    }
}

/// Whether there is a row at a place, with the values of its key, and the right table holds the
/// key.
pub open spec fn row_is_right(
    keys: Seq<u64>,
    lefts: Seq<u64>,
    rights: Seq<u64>,
    place: int,
) -> bool {
    &&& place < keys.len()
    &&& place < lefts.len()
    &&& place < rights.len()
    &&& lefts[place] == left_value(keys[place])
    &&& rights[place] == right_value(keys[place])
    &&& right_keys().contains(keys[place])
}

/// Whether the first rows are right.
pub open spec fn rows_are_right(
    keys: Seq<u64>,
    lefts: Seq<u64>,
    rights: Seq<u64>,
    count: u64,
) -> bool {
    forall|i: int| 0 <= i < count ==> #[trigger] row_is_right(keys, lefts, rights, i)
}

/// Looking at a row of the join.
proof fn lemma_row(contents: Contents, faults: Faults, i: u64)
    requires
        contents.full(),
        contents.columns[2] == right_keys(),
        contents.columns[4].len() <= u64::MAX,
        forall|j: int| 0 <= j < contents.columns[4].len() ==> contents.columns[4][j] <= u32::MAX,
        faults matches Faults::More(first, _, rest) && {
            &&& first == and(
                not(lt(here(6), num(0))),
                differs(here(5), modulo(plus(here(4), num(100)), num(4294967296))),
            )
            &&& *rest matches Faults::More(second, _, last)
            &&& second == differs(here(6), modulo(times(here(4), num(10)), num(4294967296)))
            &&& *last matches Faults::One(third, _)
            &&& third == same_as(count_in(2, here(4)), num(0))
        },
    ensures
        crate::walk::shows(faults, contents, i) <==> !row_is_right(
            contents.columns[4],
            contents.columns[5],
            contents.columns[6],
            i as int,
        ),
{
    let keys = contents.columns[4];
    let lefts = contents.columns[5];
    let rights = contents.columns[6];
    reveal_with_fuel(crate::walk::shows, 4);
    let left = modulo(plus(here(4), num(100)), num(4294967296));
    let right = modulo(times(here(4), num(10)), num(4294967296));
    assert(crate::expr::value_of(num(0), contents, i) == Some(0u64));
    assert(crate::expr::value_of(here(6), contents, i) == (if i < rights.len() {
        Some(rights[i as int])
    } else {
        None
    })) by {
        reveal_with_fuel(crate::expr::value_of, 2);
    }
    assert(crate::expr::value_of(here(5), contents, i) == (if i < lefts.len() {
        Some(lefts[i as int])
    } else {
        None
    })) by {
        reveal_with_fuel(crate::expr::value_of, 2);
    }
    let there = not(lt(here(6), num(0)));
    assert(crate::expr::value_of(lt(here(6), num(0)), contents, i) == (if i < rights.len() {
        Some(0u64)
    } else {
        None
    }));
    assert(crate::expr::value_of(there, contents, i) == (if i < rights.len() {
        Some(1u64)
    } else {
        None
    }));
    crate::laws::steps::lemma_differs(here(5), left, contents, i);
    crate::laws::steps::lemma_differs(here(6), right, contents, i);
    if i < keys.len() {
        lemma_left_value(contents, 4, i);
        lemma_right_value(contents, 4, i);
        lemma_counted(contents, 2, 4, i);
    } else {
        assert(crate::expr::value_of(here(4), contents, i) is None) by {
            reveal_with_fuel(crate::expr::value_of, 2);
        }
        assert(crate::expr::value_of(count_in(2, here(4)), contents, i) is None);
        assert(crate::expr::value_of(same_as(count_in(2, here(4)), num(0)), contents, i) is None);
    }
}

/// A scan of the rows of the join.
proof fn lemma_scan_join(
    steps: Seq<Step>,
    place: int,
    to: int,
    contents: Contents,
    answers: Seq<Answer>,
    used: int,
)
    requires
        place < to,
        contents.full(),
        contents.columns[2] == right_keys(),
        contents.columns[4].len() <= u64::MAX,
        forall|j: int| 0 <= j < contents.columns[4].len() ==> contents.columns[4][j] <= u32::MAX,
        crate::machine::taken(steps[place], contents) == Some(true),
        crate::machine::act_of(steps[place]) matches Act::Scan { low, high, by, faults } && {
            &&& low == num(0)
            &&& high == reg(1)
            &&& by == 1
            &&& faults matches Faults::More(first, _, rest)
            &&& first == and(
                not(lt(here(6), num(0))),
                differs(here(5), modulo(plus(here(4), num(100)), num(4294967296))),
            )
            &&& *rest matches Faults::More(second, _, last)
            &&& second == differs(here(6), modulo(times(here(4), num(10)), num(4294967296)))
            &&& *last matches Faults::One(third, _)
            &&& third == same_as(count_in(2, here(4)), num(0))
        },
    ensures
        crate::walk::walked(steps, place, to, contents, answers, used) == (if rows_are_right(
            contents.columns[4],
            contents.columns[5],
            contents.columns[6],
            contents.registers[1],
        ) {
            crate::walk::walked(steps, place + 1, to, contents, answers, used)
        } else {
            None
        }),
{
    let keys = contents.columns[4];
    let lefts = contents.columns[5];
    let rights = contents.columns[6];
    let count = contents.registers[1];
    match crate::machine::act_of(steps[place]) {
        Act::Scan { faults, .. } => {
            assert(crate::expr::value_of(num(0), contents, 0) == Some(0u64));
            assert(crate::expr::value_of(reg(1), contents, 0) == Some(count));
            crate::laws::steps::lemma_scan(
                steps,
                place,
                to,
                contents,
                answers,
                used,
                0,
                count,
            );
            assert forall|i: int| 0 <= i < count implies (#[trigger] crate::walk::shows(
                faults,
                contents,
                i as u64,
            ) <==> !row_is_right(keys, lefts, rights, i)) by {
                lemma_row(contents, faults, i as u64);
            }
            if rows_are_right(keys, lefts, rights, count) {
                assert forall|i: int| 0 <= i < count implies !(#[trigger] crate::walk::shows(
                    faults,
                    contents,
                    i as u64,
                )) by {
                    assert(row_is_right(keys, lefts, rights, i));
                }
            } else {
                let i = choose|i: int|
                    0 <= i < count && !(#[trigger] row_is_right(keys, lefts, rights, i));
                assert(crate::walk::shows(faults, contents, i as u64));
            }
        },
        _ => {},
    }
}

/// Whether the join holds each of some keys that both tables hold.
pub open spec fn joined(keys: Seq<u64>, wanted: Seq<u64>) -> bool {
    forall|i: int|
        0 <= i < wanted.len() ==> found_if_common(keys, #[trigger] wanted[i])
}

/// Whether the join holds a key, if both tables hold it.
pub open spec fn found_if_common(keys: Seq<u64>, key: u64) -> bool {
    left_keys().contains(key) && right_keys().contains(key) ==> keys.contains(key)
}

/// Looking for a key of the right table that the left one holds and the join does not.
proof fn lemma_missing(contents: Contents)
    requires
        contents.full(),
        contents.columns[0] == left_keys(),
        contents.columns[2] == right_keys(),
        contents.columns[4].len() <= u64::MAX,
    ensures
        forall|i: int|
            0 <= i < contents.columns[2].len() ==> (#[trigger] crate::expr::value_of(
                and(lt(num(0), count_in(0, here(2))), same_as(count_in(4, here(2)), num(0))),
                contents,
                i as u64,
            ) == Some(0u64) <==> found_if_common(contents.columns[4], contents.columns[2][i])),
{
    assert forall|i: int|
        0 <= i < contents.columns[2].len() implies (#[trigger] crate::expr::value_of(
        and(lt(num(0), count_in(0, here(2))), same_as(count_in(4, here(2)), num(0))),
        contents,
        i as u64,
    ) == Some(0u64) <==> found_if_common(contents.columns[4], contents.columns[2][i])) by {
        lemma_counted(contents, 0, 2, i as u64);
        lemma_counted(contents, 4, 2, i as u64);
        assert(right_keys().contains(contents.columns[2][i]));
    }
}

/// Looking for a critical key that both tables hold and the join does not.
proof fn lemma_missing_critical(contents: Contents, i: u64)
    requires
        contents.full(),
        contents.columns[0] == left_keys(),
        contents.columns[2] == right_keys(),
        contents.columns[4].len() <= u64::MAX,
        i < contents.columns[8].len(),
    ensures
        crate::expr::value_of(
            and(
                lt(num(0), count_in(0, here(8))),
                and(lt(num(0), count_in(2, here(8))), same_as(count_in(4, here(8)), num(0))),
            ),
            contents,
            i,
        ) == Some(0u64) <==> found_if_common(contents.columns[4], contents.columns[8][i as int]),
{
    lemma_counted(contents, 0, 8, i);
    lemma_counted(contents, 2, 8, i);
    lemma_counted(contents, 4, 8, i);
    let key = contents.columns[8][i as int];
    assert(crate::expr::value_of(
        and(lt(num(0), count_in(2, here(8))), same_as(count_in(4, here(8)), num(0))),
        contents,
        i,
    ) == Some(
        crate::expr::truth(right_keys().contains(key) && !contents.columns[4].contains(key)),
    ));
}

/// A scan for critical keys that both tables hold and the join does not.
proof fn lemma_scan_critical(
    steps: Seq<Step>,
    place: int,
    to: int,
    contents: Contents,
    answers: Seq<Answer>,
    used: int,
)
    requires
        place < to,
        contents.full(),
        contents.columns[0] == left_keys(),
        contents.columns[2] == right_keys(),
        contents.columns[4].len() <= u64::MAX,
        contents.columns[8] == crate::tables::words_of(Table::CriticalKeys),
        crate::machine::taken(steps[place], contents) == Some(true),
        crate::machine::act_of(steps[place]) matches Act::Scan { low, high, by, faults } && {
            &&& low == num(0)
            &&& high == num(3)
            &&& by == 1
            &&& faults matches Faults::One(fault, _)
            &&& fault == and(
                lt(num(0), count_in(0, here(8))),
                and(lt(num(0), count_in(2, here(8))), same_as(count_in(4, here(8)), num(0))),
            )
        },
    ensures
        crate::walk::walked(steps, place, to, contents, answers, used) == (if joined(
            contents.columns[4],
            contents.columns[8],
        ) {
            crate::walk::walked(steps, place + 1, to, contents, answers, used)
        } else {
            None
        }),
{
    let keys = contents.columns[4];
    let wanted = contents.columns[8];
    match crate::machine::act_of(steps[place]) {
        Act::Scan { faults, .. } => {
            assert(crate::expr::value_of(num(0), contents, 0) == Some(0u64));
            assert(crate::expr::value_of(num(3), contents, 0) == Some(3u64));
            crate::laws::steps::lemma_scan(steps, place, to, contents, answers, used, 0, 3);
            assert forall|i: int| 0 <= i < 3 implies (#[trigger] crate::walk::shows(
                faults,
                contents,
                i as u64,
            ) <==> !found_if_common(keys, wanted[i])) by {
                lemma_missing_critical(contents, i as u64);
            }
            if joined(keys, wanted) {
                assert forall|i: int| 0 <= i < 3 implies !(#[trigger] crate::walk::shows(
                    faults,
                    contents,
                    i as u64,
                )) by {
                    assert(found_if_common(keys, wanted[i]));
                }
            } else {
                let i = choose|i: int|
                    0 <= i < wanted.len() && !found_if_common(keys, #[trigger] wanted[i]);
                assert(crate::walk::shows(faults, contents, i as u64));
            }
        },
        _ => {},
    }
}

/// Whether the answers to the downloads of the test are columns or refusals.
pub open spec fn deep_shaped(answers: Seq<Answer>) -> bool {
    &&& answers.len() >= 7
    &&& answers[2] is Count
    &&& crate::laws::steps::column_or_refusal(answers[3])
    &&& crate::laws::steps::column_or_refusal(answers[4])
    &&& crate::laws::steps::column_or_refusal(answers[5])
}

/// What the device has to answer.
pub open spec fn deep_answers(answers: Seq<Answer>) -> bool {
    &&& !(answers[0] is Failed)
    &&& !(answers[1] is Failed)
    &&& answers[2]->Count_0 == 10000
    &&& answers[3] is Words
    &&& answers[4] is Words
    &&& answers[5] is Words
    &&& rows_in_order(answers[3]->Words_0, answers[4]->Words_0)
    &&& answers[5]->Words_0.to_set().len() == 10000
    &&& !(answers[6] is Failed)
}

/// The steps of the test.
proof fn lemma_deep_answers(contents: Contents, answers: Seq<Answer>)
    requires
        contents.full(),
        deep_shaped(answers),
    ensures
        match crate::walk::walked(
            crate::categories::c07_local_memory::deep_sort_keys_steps(),
            0,
            15,
            contents,
            answers,
            0,
        ) {
            Some((after, next)) => {
                &&& deep_answers(answers)
                &&& after.full()
                &&& next == 7
            },
            None => !deep_answers(answers),
        },
        crate::categories::c07_local_memory::deep_sort_keys_steps().len() == 15,
{
    let steps = crate::categories::c07_local_memory::deep_sort_keys_steps();
    lemma_thousands(contents);
    let words1 = thousands();
    crate::laws::steps::lemma_fill(steps, 0, 15, contents, answers, 0, words1);
    let next1 = contents.with_column(0, words1);
    lemma_hundreds(next1);
    let words2 = hundreds();
    crate::laws::steps::lemma_fill(steps, 1, 15, next1, answers, 0, words2);
    let next2 = next1.with_column(1, words2);
    lemma_tens(next2);
    let words3 = tens();
    crate::laws::steps::lemma_fill(steps, 2, 15, next2, answers, 0, words3);
    let next3 = next2.with_column(2, words3);
    lemma_ones(next3);
    let words4 = ones();
    crate::laws::steps::lemma_fill(steps, 3, 15, next3, answers, 0, words4);
    let next4 = next3.with_column(3, words4);
    lemma_numbers(next4);
    let words5 = numbers();
    crate::laws::steps::lemma_fill(steps, 4, 15, next4, answers, 0, words5);
    let next5 = next4.with_column(4, words5);
    crate::laws::steps::lemma_command(steps, 5, 15, next5, answers, 0);
    crate::laws::steps::lemma_command(steps, 6, 15, next5, answers, 1);
    crate::laws::steps::lemma_number(steps, 7, 15, next5, answers, 2, answers[2]->Count_0);
    let next6 = next5.with_register(0, answers[2]->Count_0);
    crate::laws::steps::lemma_register(next6, 0, num(10000), 10000);
    crate::laws::steps::lemma_check(
        steps,
        8,
        15,
        next6,
        answers,
        3,
        !(answers[2]->Count_0 == 10000),
    );
    crate::laws::steps::lemma_download(steps, 9, 15, next6, answers, 3);
    if answers[3] is Words {
        let next7 = next6.with_column(5, answers[3]->Words_0);
        crate::laws::steps::lemma_download(steps, 10, 15, next7, answers, 4);
        if answers[4] is Words {
            let next8 = next7.with_column(6, answers[4]->Words_0);
            crate::laws::steps::lemma_download(steps, 11, 15, next8, answers, 5);
            if answers[5] is Words {
                let next9 = next8.with_column(7, answers[5]->Words_0);
                lemma_scan_rows(steps, 12, 15, next9, answers, 6);
                lemma_distinct(next9, 7, 10000);
                crate::laws::steps::lemma_check(
                    steps,
                    13,
                    15,
                    next9,
                    answers,
                    6,
                    !(answers[5]->Words_0.to_set().len() == 10000),
                );
                crate::laws::steps::lemma_command(steps, 14, 15, next9, answers, 6);
                crate::laws::steps::lemma_end(steps, 15, next9, answers, 7);
            }
        }
    }
}

/// The test has no jumps.
proof fn lemma_deep_straight()
    ensures
        forall|j: int|
            0 <= j < crate::categories::c07_local_memory::deep_sort_keys_steps().len()
                ==> crate::walk::straight(
                #[trigger] crate::categories::c07_local_memory::deep_sort_keys_steps()[j],
            ),
{
}

/// The test of a sort by four keys passes exactly when the sort leaves all rows, in the order of
/// their first two keys, and the numbers of the rows are as many different ones as there are rows.
pub proof fn law_deep_sort_passes_exactly_when_rows_are_in_order(answers: Seq<Answer>)
    requires
        deep_shaped(answers),
    ensures
        crate::machine::run_of(
            crate::script::plan(
                "test_deep_sort_keys",
                crate::categories::c07_local_memory::deep_sort_keys_steps(),
            ),
            answers,
        ).progress == Progress::Over(Ending::Passed) <==> deep_answers(answers),
{
    let plan = crate::script::plan(
        "test_deep_sort_keys",
        crate::categories::c07_local_memory::deep_sort_keys_steps(),
    );
    let blank = Contents::blank(plan.texts);
    lemma_deep_answers(blank, answers);
    lemma_deep_straight();
    crate::walk::law_passes_exactly_when_every_step_goes_through(plan, answers);
}

/// Whether the answers to the downloads of the test are columns or refusals.
pub open spec fn wraparound_shaped(answers: Seq<Answer>) -> bool {
    &&& answers.len() >= 9
    &&& crate::laws::steps::narrow_or_refusal(answers[4])
    &&& crate::laws::steps::column_or_refusal(answers[5])
    &&& crate::laws::steps::column_or_refusal(answers[6])
    &&& answers[7] is Count
}

/// What the device has to answer.
pub open spec fn wraparound_answers(answers: Seq<Answer>) -> bool {
    &&& !(answers[0] is Failed)
    &&& !(answers[1] is Failed)
    &&& !(answers[2] is Failed)
    &&& answers[3] == Answer::Count(crate::columns::total(common()) as u64)
    &&& answers[4] is Words
    &&& answers[5] is Words
    &&& answers[6] is Words
    &&& rows_are_right(
        answers[4]->Words_0,
        answers[5]->Words_0,
        answers[6]->Words_0,
        answers[7]->Count_0,
    )
    &&& joined(answers[4]->Words_0, right_keys())
    &&& joined(answers[4]->Words_0, crate::tables::words_of(Table::CriticalKeys))
    &&& !(answers[8] is Failed)
}

/// The steps of the test.
proof fn lemma_wraparound_answers(contents: Contents, answers: Seq<Answer>)
    requires
        contents.full(),
        wraparound_shaped(answers),
    ensures
        match crate::walk::walked(
            crate::categories::c14_integer::integer_wraparound_keys_steps(),
            0,
            19,
            contents,
            answers,
            0,
        ) {
            Some((after, next)) => {
                &&& wraparound_answers(answers)
                &&& after.full()
                &&& next == 9
            },
            None => !wraparound_answers(answers),
        },
        crate::categories::c14_integer::integer_wraparound_keys_steps().len() == 19,
{
    let steps = crate::categories::c14_integer::integer_wraparound_keys_steps();
    crate::laws::numbers::lemma_entries(Table::LeftKeys, contents);
    let words1 = left_keys();
    crate::laws::steps::lemma_fill(steps, 0, 19, contents, answers, 0, words1);
    let next1 = contents.with_column(0, words1);
    lemma_left_values(next1);
    let words2 = left_values();
    crate::laws::steps::lemma_fill(steps, 1, 19, next1, answers, 0, words2);
    let next2 = next1.with_column(1, words2);
    crate::laws::numbers::lemma_entries(Table::RightKeys, next2);
    let words3 = right_keys();
    crate::laws::steps::lemma_fill(steps, 2, 19, next2, answers, 0, words3);
    let next3 = next2.with_column(2, words3);
    lemma_right_values(next3);
    let words4 = right_values();
    crate::laws::steps::lemma_fill(steps, 3, 19, next3, answers, 0, words4);
    let next4 = next3.with_column(3, words4);
    crate::laws::steps::lemma_command(steps, 4, 19, next4, answers, 0);
    crate::laws::steps::lemma_command(steps, 5, 19, next4, answers, 1);
    crate::laws::steps::lemma_command(steps, 6, 19, next4, answers, 2);
    lemma_common(next4);
    let words5 = common();
    crate::laws::steps::lemma_fill(steps, 7, 19, next4, answers, 3, words5);
    let next5 = next4.with_column(7, words5);
    crate::laws::lanes::lemma_mask_sum(next5, 7);
    crate::laws::steps::lemma_put(
        steps,
        8,
        19,
        next5,
        answers,
        3,
        crate::columns::total(common()) as u64,
    );
    let next6 = next5.with_register(0, crate::columns::total(common()) as u64);
    assert(crate::expr::value_of(reg(0), next6, 0) == Some(crate::columns::total(common()) as u64));
    crate::laws::steps::lemma_match(
        steps,
        9,
        19,
        next6,
        answers,
        3,
        crate::columns::total(common()) as u64,
    );
    let next7 = next6.with_register(COUNT, crate::columns::total(common()) as u64);
    crate::laws::steps::lemma_download(steps, 10, 19, next7, answers, 4);
    if answers[4] is Words {
        let next8 = next7.with_column(4, answers[4]->Words_0);
        crate::laws::steps::lemma_download(steps, 11, 19, next8, answers, 5);
        if answers[5] is Words {
            let next9 = next8.with_column(5, answers[5]->Words_0);
            crate::laws::steps::lemma_download(steps, 12, 19, next9, answers, 6);
            if answers[6] is Words {
                let next10 = next9.with_column(6, answers[6]->Words_0);
                crate::laws::steps::lemma_number(
                    steps,
                    13,
                    19,
                    next10,
                    answers,
                    7,
                    answers[7]->Count_0,
                );
                let next11 = next10.with_register(1, answers[7]->Count_0);
                lemma_scan_join(steps, 14, 19, next11, answers, 8);
                lemma_missing(next11);
                crate::laws::steps::lemma_scan_words(
                    steps,
                    15,
                    19,
                    next11,
                    answers,
                    8,
                    2,
                    and(lt(num(0), count_in(0, here(2))), same_as(count_in(4, here(2)), num(0))),
                    |key: u64| found_if_common(answers[4]->Words_0, key),
                );
                if joined(answers[4]->Words_0, right_keys()) {
                    assert forall|i: int| 0 <= i < next11.columns[2].len() implies found_if_common(
                        answers[4]->Words_0,
                        #[trigger] next11.columns[2][i],
                    ) by {
                        assert(found_if_common(answers[4]->Words_0, right_keys()[i]));
                    }
                }
                crate::laws::numbers::lemma_entries(Table::CriticalKeys, next11);
                let words12 = crate::tables::words_of(Table::CriticalKeys);
                crate::laws::steps::lemma_fill(steps, 16, 19, next11, answers, 8, words12);
                let next12 = next11.with_column(8, words12);
                lemma_scan_critical(steps, 17, 19, next12, answers, 8);
                crate::laws::steps::lemma_command(steps, 18, 19, next12, answers, 8);
                crate::laws::steps::lemma_end(steps, 19, next12, answers, 9);
            }
        }
    }
}

/// The test has no jumps.
proof fn lemma_wraparound_straight()
    ensures
        forall|j: int|
            0 <= j < crate::categories::c14_integer::integer_wraparound_keys_steps().len()
                ==> crate::walk::straight(
                #[trigger] crate::categories::c14_integer::integer_wraparound_keys_steps()[j],
            ),
{
}

/// The test of keys next to overflow passes exactly when the join has as many rows as there are
/// keys of the left table that the right one holds too, each row that is counted has the values of
/// its key and a key of the right table, and no key that both tables hold is missing.
pub proof fn law_wraparound_passes_exactly_when_common_keys_are_joined(answers: Seq<Answer>)
    requires
        wraparound_shaped(answers),
    ensures
        crate::machine::run_of(
            crate::script::plan(
                "test_integer_wraparound_keys",
                crate::categories::c14_integer::integer_wraparound_keys_steps(),
            ),
            answers,
        ).progress == Progress::Over(Ending::Passed) <==> wraparound_answers(answers),
{
    let plan = crate::script::plan(
        "test_integer_wraparound_keys",
        crate::categories::c14_integer::integer_wraparound_keys_steps(),
    );
    let blank = Contents::blank(plan.texts);
    lemma_wraparound_answers(blank, answers);
    lemma_wraparound_straight();
    crate::walk::law_passes_exactly_when_every_step_goes_through(plan, answers);
}

} // verus!
