//! The laws of the tests of numbers at the edges of their types.

use vstd::prelude::*;
use crate::expr::{
    and, at, differs, entry, here, ix, len, lt, minus, modulo, not, num, or, over, pick, reg,
    same_as, sum_of, times,
};
use crate::machine::{Answer, Ending, Progress};
use crate::memory::Contents;
use crate::scalar::{Scalar, SIGN};
use crate::script::{Act, Faults, Step};
use crate::tables::Table;

verus! {

/// The bits of infinity.
pub const INFINITE: u64 = 0x7ff0_0000_0000_0000;

/// Whether a word stands for a negative number.
pub open spec fn negative(word: u64) -> bool {
    word >= SIGN
}

/// Whether a word stands for a double above zero.
pub open spec fn above_zero(word: u64) -> bool {
    0 < word <= INFINITE
}

/// Whether a word stands for a double that is not zero, and nearer to zero than any normal one.
pub open spec fn subnormal(word: u64) -> bool {
    0 < word % SIGN < 0x0010_0000_0000_0000
}

/// Whether a word is in the upper half of the 32-bit words.
pub open spec fn upper(word: u64) -> bool {
    word >= 2147483647
}

/// Whether a word is the first one with the highest bit set.
pub open spec fn turning(word: u64) -> bool {
    word == SIGN
}

/// The mask of the words that stand for negative numbers.
pub open spec fn negatives(words: Seq<u64>) -> Seq<u64> {
    Seq::new(words.len(), |i: int| crate::expr::truth(negative(words[i])))
}

/// One of the words of [`negatives`].
#[verifier::spinoff_prover]
#[verifier::rlimit(50)]
proof fn lemma_negatives_at(contents: Contents, slot: u64, i: u64)
    requires
        slot < contents.columns.len(),
        i < contents.columns[slot as int].len(),
    ensures
        crate::expr::value_of(
            not(lt(here(slot), num(0x8000_0000_0000_0000))),
            contents,
            i,
        ) == Some(crate::expr::truth(negative(contents.columns[slot as int][i as int]))),
{
    reveal_with_fuel(crate::expr::value_of, 6);
}

/// The words of [`negatives`].
proof fn lemma_negatives(contents: Contents, slot: u64)
    requires
        slot < contents.columns.len(),
        contents.columns[slot as int].len() <= u64::MAX,
    ensures
        forall|i: int|
            0 <= i < contents.columns[slot as int].len() ==> #[trigger] crate::expr::value_of(
                not(lt(here(slot), num(0x8000_0000_0000_0000))),
                contents,
                i as u64,
            ) == Some(negatives(contents.columns[slot as int])[i]),
{
    assert forall|i: int|
        0 <= i < contents.columns[slot as int].len() implies #[trigger] crate::expr::value_of(
        not(lt(here(slot), num(0x8000_0000_0000_0000))),
        contents,
        i as u64,
    ) == Some(negatives(contents.columns[slot as int])[i]) by {
        lemma_negatives_at(contents, slot, i as u64);
    }
}

/// The mask of the words that stand for doubles above zero.
pub open spec fn positives(words: Seq<u64>) -> Seq<u64> {
    Seq::new(words.len(), |i: int| crate::expr::truth(above_zero(words[i])))
}

/// One of the words of [`positives`].
#[verifier::spinoff_prover]
#[verifier::rlimit(50)]
proof fn lemma_positives_at(contents: Contents, slot: u64, i: u64)
    requires
        slot < contents.columns.len(),
        i < contents.columns[slot as int].len(),
    ensures
        crate::expr::value_of(
            and(lt(num(0), here(slot)), not(lt(num(0x7FF0_0000_0000_0000), here(slot)))),
            contents,
            i,
        ) == Some(crate::expr::truth(above_zero(contents.columns[slot as int][i as int]))),
{
    reveal_with_fuel(crate::expr::value_of, 6);
}

/// The words of [`positives`].
proof fn lemma_positives(contents: Contents, slot: u64)
    requires
        slot < contents.columns.len(),
        contents.columns[slot as int].len() <= u64::MAX,
    ensures
        forall|i: int|
            0 <= i < contents.columns[slot as int].len() ==> #[trigger] crate::expr::value_of(
                and(lt(num(0), here(slot)), not(lt(num(0x7FF0_0000_0000_0000), here(slot)))),
                contents,
                i as u64,
            ) == Some(positives(contents.columns[slot as int])[i]),
{
    assert forall|i: int|
        0 <= i < contents.columns[slot as int].len() implies #[trigger] crate::expr::value_of(
        and(lt(num(0), here(slot)), not(lt(num(0x7FF0_0000_0000_0000), here(slot)))),
        contents,
        i as u64,
    ) == Some(positives(contents.columns[slot as int])[i]) by {
        lemma_positives_at(contents, slot, i as u64);
    }
}

/// The mask of the words that stand for subnormal doubles.
pub open spec fn subnormals(words: Seq<u64>) -> Seq<u64> {
    Seq::new(words.len(), |i: int| crate::expr::truth(subnormal(words[i])))
}

/// One of the words of [`subnormals`].
#[verifier::spinoff_prover]
#[verifier::rlimit(50)]
proof fn lemma_subnormals_at(contents: Contents, slot: u64, i: u64)
    requires
        slot < contents.columns.len(),
        i < contents.columns[slot as int].len(),
    ensures
        crate::expr::value_of(
            and(
                lt(num(0), modulo(here(slot), num(0x8000_0000_0000_0000))),
                lt(modulo(here(slot), num(0x8000_0000_0000_0000)), num(0x0010_0000_0000_0000)),
            ),
            contents,
            i,
        ) == Some(crate::expr::truth(subnormal(contents.columns[slot as int][i as int]))),
{
    reveal_with_fuel(crate::expr::value_of, 6);
}

/// The words of [`subnormals`].
proof fn lemma_subnormals(contents: Contents, slot: u64)
    requires
        slot < contents.columns.len(),
        contents.columns[slot as int].len() <= u64::MAX,
    ensures
        forall|i: int|
            0 <= i < contents.columns[slot as int].len() ==> #[trigger] crate::expr::value_of(
                and(
                    lt(num(0), modulo(here(slot), num(0x8000_0000_0000_0000))),
                    lt(modulo(here(slot), num(0x8000_0000_0000_0000)), num(0x0010_0000_0000_0000)),
                ),
                contents,
                i as u64,
            ) == Some(subnormals(contents.columns[slot as int])[i]),
{
    assert forall|i: int|
        0 <= i < contents.columns[slot as int].len() implies #[trigger] crate::expr::value_of(
        and(
            lt(num(0), modulo(here(slot), num(0x8000_0000_0000_0000))),
            lt(modulo(here(slot), num(0x8000_0000_0000_0000)), num(0x0010_0000_0000_0000)),
        ),
        contents,
        i as u64,
    ) == Some(subnormals(contents.columns[slot as int])[i]) by {
        lemma_subnormals_at(contents, slot, i as u64);
    }
}

/// The mask of the words in the upper half.
pub open spec fn uppers(words: Seq<u64>) -> Seq<u64> {
    Seq::new(words.len(), |i: int| crate::expr::truth(upper(words[i])))
}

/// One of the words of [`uppers`].
#[verifier::spinoff_prover]
#[verifier::rlimit(50)]
proof fn lemma_uppers_at(contents: Contents, slot: u64, i: u64)
    requires
        slot < contents.columns.len(),
        i < contents.columns[slot as int].len(),
    ensures
        crate::expr::value_of(
            not(lt(here(slot), num(2147483647))),
            contents,
            i,
        ) == Some(crate::expr::truth(upper(contents.columns[slot as int][i as int]))),
{
    reveal_with_fuel(crate::expr::value_of, 6);
}

/// The words of [`uppers`].
proof fn lemma_uppers(contents: Contents, slot: u64)
    requires
        slot < contents.columns.len(),
        contents.columns[slot as int].len() <= u64::MAX,
    ensures
        forall|i: int|
            0 <= i < contents.columns[slot as int].len() ==> #[trigger] crate::expr::value_of(
                not(lt(here(slot), num(2147483647))),
                contents,
                i as u64,
            ) == Some(uppers(contents.columns[slot as int])[i]),
{
    assert forall|i: int|
        0 <= i < contents.columns[slot as int].len() implies #[trigger] crate::expr::value_of(
        not(lt(here(slot), num(2147483647))),
        contents,
        i as u64,
    ) == Some(uppers(contents.columns[slot as int])[i]) by {
        lemma_uppers_at(contents, slot, i as u64);
    }
}

/// The mask of the first words with the highest bit set.
pub open spec fn turns(words: Seq<u64>) -> Seq<u64> {
    Seq::new(words.len(), |i: int| crate::expr::truth(turning(words[i])))
}

/// One of the words of [`turns`].
#[verifier::spinoff_prover]
#[verifier::rlimit(50)]
proof fn lemma_turns_at(contents: Contents, slot: u64, i: u64)
    requires
        slot < contents.columns.len(),
        i < contents.columns[slot as int].len(),
    ensures
        crate::expr::value_of(
            same_as(here(slot), num(0x8000_0000_0000_0000)),
            contents,
            i,
        ) == Some(crate::expr::truth(turning(contents.columns[slot as int][i as int]))),
{
    reveal_with_fuel(crate::expr::value_of, 6);
}

/// The words of [`turns`].
proof fn lemma_turns(contents: Contents, slot: u64)
    requires
        slot < contents.columns.len(),
        contents.columns[slot as int].len() <= u64::MAX,
    ensures
        forall|i: int|
            0 <= i < contents.columns[slot as int].len() ==> #[trigger] crate::expr::value_of(
                same_as(here(slot), num(0x8000_0000_0000_0000)),
                contents,
                i as u64,
            ) == Some(turns(contents.columns[slot as int])[i]),
{
    assert forall|i: int|
        0 <= i < contents.columns[slot as int].len() implies #[trigger] crate::expr::value_of(
        same_as(here(slot), num(0x8000_0000_0000_0000)),
        contents,
        i as u64,
    ) == Some(turns(contents.columns[slot as int])[i]) by {
        lemma_turns_at(contents, slot, i as u64);
    }
}

/// Whether the sums of two masks differ.
proof fn lemma_sums_differ(contents: Contents, left: u64, right: u64)
    requires
        left < contents.columns.len(),
        right < contents.columns.len(),
        contents.columns[left as int].len() <= u64::MAX,
        contents.columns[right as int].len() <= u64::MAX,
        forall|i: int|
            0 <= i < contents.columns[left as int].len() ==> contents.columns[left as int][i] <= 1,
        forall|i: int|
            0 <= i < contents.columns[right as int].len() ==> contents.columns[right as int][i]
                <= 1,
    ensures
        crate::expr::value_of(differs(sum_of(left), sum_of(right)), contents, 0) == Some(
            crate::expr::truth(
                crate::columns::total(contents.columns[left as int]) != crate::columns::total(
                    contents.columns[right as int],
                ),
            ),
        ),
{
    crate::laws::lanes::lemma_mask_sum(contents, left);
    crate::laws::lanes::lemma_mask_sum(contents, right);
    crate::laws::steps::lemma_differs(sum_of(left), sum_of(right), contents, 0);
}

/// Whether the length of a column is not the expected one.
proof fn lemma_length(contents: Contents, slot: u64, expected: u64)
    requires
        slot < contents.columns.len(),
        contents.columns[slot as int].len() <= u64::MAX,
    ensures
        crate::expr::value_of(differs(len(slot), num(expected)), contents, 0) == Some(
            crate::expr::truth(contents.columns[slot as int].len() != expected),
        ),
{
    crate::laws::steps::lemma_differs(len(slot), num(expected), contents, 0);
}

/// In a rising column no word is greater than a later one.
proof fn lemma_rises(words: Seq<u64>, early: int, late: int)
    requires
        crate::laws::steps::rises(words),
        0 <= early <= late < words.len(),
    ensures
        words[early] <= words[late],
    decreases late - early,
{
    if early < late {
        lemma_rises(words, early, late - 1);
        assert(words[late - 1] <= words[late]);
    }
}

/// The first place that is set is set, and none before it is.
proof fn lemma_first_set(words: Seq<u64>, from: int)
    requires
        0 <= from <= words.len(),
    ensures
        from <= crate::columns::first_set(words, from) <= words.len(),
        crate::columns::first_set(words, from) < words.len()
            ==> words[crate::columns::first_set(words, from)] != 0,
        forall|i: int|
            from <= i < crate::columns::first_set(words, from) ==> #[trigger] words[i] == 0,
    decreases words.len() - from,
{
    if from < words.len() && words[from] == 0 {
        lemma_first_set(words, from + 1);
    }
}

/// A scan of a rising column before the first word with the highest bit set finds none with it.
proof fn lemma_scan_lower(
    steps: Seq<Step>,
    place: int,
    to: int,
    contents: Contents,
    answers: Seq<Answer>,
    used: int,
)
    requires
        place < to,
        contents.full(),
        contents.columns[1].len() <= u64::MAX,
        crate::laws::steps::rises(contents.columns[1]),
        contents.columns[2] == turns(contents.columns[1]),
        contents.registers[0] == crate::columns::first_set(contents.columns[2], 0),
        crate::machine::taken(steps[place], contents) == Some(true),
        crate::machine::act_of(steps[place]) matches Act::Scan { low, high, by, faults } && {
            &&& low == num(0)
            &&& high == pick(lt(reg(0), len(1)), reg(0), num(0))
            &&& by == 1
            &&& faults matches Faults::One(fault, _)
            &&& fault == not(lt(here(1), num(0x8000_0000_0000_0000)))
        },
    ensures
        crate::walk::walked(steps, place, to, contents, answers, used) == crate::walk::walked(
            steps,
            place + 1,
            to,
            contents,
            answers,
            used,
        ),
{
    let words = contents.columns[1];
    let marks = contents.columns[2];
    let first = crate::columns::first_set(marks, 0);
    lemma_first_set(marks, 0);
    let end = if first < words.len() {
        first
    } else {
        0
    };
    match crate::machine::act_of(steps[place]) {
        Act::Scan { faults, .. } => {
            assert(crate::expr::value_of(pick(lt(reg(0), len(1)), reg(0), num(0)), contents, 0)
                == Some(end as u64)) by {
                reveal_with_fuel(crate::expr::value_of, 4);
            }
            crate::laws::steps::lemma_scan(
                steps,
                place,
                to,
                contents,
                answers,
                used,
                0,
                end as u64,
            );
            assert forall|i: int| 0 <= i < end implies !(#[trigger] crate::walk::shows(
                faults,
                contents,
                i as u64,
            )) by {
                lemma_negatives_at(contents, 1, i as u64);
                lemma_rises(words, i, first);
                assert(marks[first] != 0);
                assert(marks[i] == 0);
                assert(turning(words[first]));
                assert(!turning(words[i]));
            }
        },
        _ => {},
    }
}

/// The words of the full range of 32 bits: its edges, and sixteen steps through it.
pub open spec fn full_range() -> Seq<u64> {
    Seq::new(
        32,
        |i: int| if i < 16 {
            crate::tables::words_of(Table::NarrowEdges)[i]
        } else {
            ((4294967295 * (i - 16)) / 16) as u64
        },
    )
}

/// One of the words of [`full_range`].
#[verifier::spinoff_prover]
#[verifier::rlimit(50)]
proof fn lemma_full_range_at(contents: Contents, i: u64)
    requires
        i < 32,
    ensures
        crate::expr::value_of(
            pick(
                lt(ix(), num(16)),
                entry(Table::NarrowEdges, ix()),
                over(times(num(4294967295), minus(ix(), num(16))), num(16)),
            ),
            contents,
            i,
        ) == Some(full_range()[i as int]),
{
    reveal_with_fuel(crate::expr::value_of, 5);
}

/// The words of [`full_range`].
proof fn lemma_full_range(contents: Contents)
    ensures
        forall|i: int|
            0 <= i < 32 ==> #[trigger] crate::expr::value_of(
                pick(
                    lt(ix(), num(16)),
                    entry(Table::NarrowEdges, ix()),
                    over(times(num(4294967295), minus(ix(), num(16))), num(16)),
                ),
                contents,
                i as u64,
            ) == Some(full_range()[i]),
{
    assert forall|i: int| 0 <= i < 32 implies #[trigger] crate::expr::value_of(
        pick(
            lt(ix(), num(16)),
            entry(Table::NarrowEdges, ix()),
            over(times(num(4294967295), minus(ix(), num(16))), num(16)),
        ),
        contents,
        i as u64,
    ) == Some(full_range()[i]) by {
        lemma_full_range_at(contents, i as u64);
    }
}

/// Whether all words of a column are in the upper half.
pub open spec fn all_upper(words: Seq<u64>) -> bool {
    forall|i: int| 0 <= i < words.len() ==> upper(#[trigger] words[i])
}

/// Looking for words that are not in the upper half.
proof fn lemma_not_upper(contents: Contents, slot: u64)
    requires
        slot < contents.columns.len(),
        contents.columns[slot as int].len() <= u64::MAX,
    ensures
        forall|i: int|
            0 <= i < contents.columns[slot as int].len() ==> (#[trigger] crate::expr::value_of(
                lt(here(slot), num(2147483647)),
                contents,
                i as u64,
            ) == Some(0u64) <==> upper(contents.columns[slot as int][i])),
{
    assert forall|i: int|
        0 <= i < contents.columns[slot as int].len() implies (#[trigger] crate::expr::value_of(
        lt(here(slot), num(2147483647)),
        contents,
        i as u64,
    ) == Some(0u64) <==> upper(contents.columns[slot as int][i])) by {
        reveal_with_fuel(crate::expr::value_of, 3);
    }
}

/// Looking for minus infinity at the first place.
proof fn lemma_minus_infinity(contents: Contents)
    requires
        contents.full(),
    ensures
        crate::expr::value_of(
            or(
                not(
                    same_as(
                        modulo(at(1, num(0)), num(0x8000_0000_0000_0000)),
                        num(0x7FF0_0000_0000_0000),
                    ),
                ),
                and(
                    lt(num(0), at(1, num(0))),
                    not(lt(num(0x7FF0_0000_0000_0000), at(1, num(0)))),
                ),
            ),
            contents,
            0,
        ) == Some(0u64) <==> crate::laws::types::first_is(
            contents.columns[1],
            0xfff0_0000_0000_0000,
        ),
{
    let first = at(1, num(0));
    let words = contents.columns[1];
    assert(crate::expr::value_of(first, contents, 0) == (if words.len() > 0 {
        Some(words[0])
    } else {
        None
    })) by {
        reveal_with_fuel(crate::expr::value_of, 2);
    }
    assert(crate::expr::value_of(num(0), contents, 0) == Some(0u64));
    assert(crate::expr::value_of(num(0x8000_0000_0000_0000), contents, 0) == Some(SIGN));
    assert(crate::expr::value_of(num(0x7FF0_0000_0000_0000), contents, 0) == Some(INFINITE));
    let rest = modulo(first, num(0x8000_0000_0000_0000));
    let same = same_as(rest, num(0x7FF0_0000_0000_0000));
    let above = lt(num(0), first);
    let past = lt(num(0x7FF0_0000_0000_0000), first);
    if words.len() > 0 {
        let word = words[0];
        assert(crate::expr::value_of(rest, contents, 0) == Some((word % SIGN) as u64));
        assert(crate::expr::value_of(same, contents, 0) == Some(
            crate::expr::truth(word % SIGN == INFINITE),
        ));
        assert(crate::expr::value_of(not(same), contents, 0) == Some(
            crate::expr::truth(word % SIGN != INFINITE),
        ));
        assert(crate::expr::value_of(above, contents, 0) == Some(crate::expr::truth(0 < word)));
        assert(crate::expr::value_of(past, contents, 0) == Some(
            crate::expr::truth(INFINITE < word),
        ));
        assert(crate::expr::value_of(not(past), contents, 0) == Some(
            crate::expr::truth(word <= INFINITE),
        ));
        assert(crate::expr::value_of(and(above, not(past)), contents, 0) == Some(
            crate::expr::truth(above_zero(word)),
        ));
    } else {
        assert(crate::expr::value_of(rest, contents, 0) is None);
        assert(crate::expr::value_of(same, contents, 0) is None);
        assert(crate::expr::value_of(not(same), contents, 0) is None);
    }
}

/// Looking for infinity at the last place.
proof fn lemma_infinity(contents: Contents)
    requires
        contents.full(),
        contents.columns[1].len() <= u64::MAX,
    ensures
        crate::expr::value_of(
            or(
                not(
                    same_as(
                        modulo(at(1, minus(len(1), num(1))), num(0x8000_0000_0000_0000)),
                        num(0x7FF0_0000_0000_0000),
                    ),
                ),
                lt(num(0x8000_0000_0000_0000), at(1, minus(len(1), num(1)))),
            ),
            contents,
            0,
        ) == Some(0u64) <==> crate::laws::types::last_is(contents.columns[1], INFINITE),
{
    let last = at(1, minus(len(1), num(1)));
    let words = contents.columns[1];
    assert(crate::expr::value_of(last, contents, 0) == (if words.len() > 0 {
        Some(words.last())
    } else {
        None
    })) by {
        reveal_with_fuel(crate::expr::value_of, 4);
    }
    let rest = modulo(last, num(0x8000_0000_0000_0000));
    assert(crate::expr::value_of(num(0x8000_0000_0000_0000), contents, 0) == Some(SIGN));
    assert(crate::expr::value_of(num(0x7FF0_0000_0000_0000), contents, 0) == Some(INFINITE));
    assert(crate::expr::value_of(rest, contents, 0) == (if words.len() > 0 {
        Some(words.last() % SIGN)
    } else {
        None
    }));
    let same = same_as(rest, num(0x7FF0_0000_0000_0000));
    assert(crate::expr::value_of(same, contents, 0) == (if words.len() > 0 {
        Some(crate::expr::truth(words.last() % SIGN == INFINITE))
    } else {
        None
    }));
    assert(crate::expr::value_of(not(same), contents, 0) == (if words.len() > 0 {
        Some(crate::expr::truth(words.last() % SIGN != INFINITE))
    } else {
        None
    }));
    assert(crate::expr::value_of(lt(num(0x8000_0000_0000_0000), last), contents, 0) == (if words.len()
        > 0 {
        Some(crate::expr::truth(SIGN < words.last()))
    } else {
        None
    }));
}

/// Whether a column does not have as many words as another one.
proof fn lemma_shorter(contents: Contents, left: u64, right: u64)
    requires
        left < contents.columns.len(),
        right < contents.columns.len(),
        contents.columns[left as int].len() <= u64::MAX,
        contents.columns[right as int].len() <= u64::MAX,
    ensures
        crate::expr::value_of(differs(len(left), len(right)), contents, 0) == Some(
            crate::expr::truth(
                contents.columns[left as int].len() != contents.columns[right as int].len(),
            ),
        ),
{
    crate::laws::steps::lemma_differs(len(left), len(right), contents, 0);
}

/// Keeping the words of a column that stand for doubles above zero.
proof fn lemma_positive_words(contents: Contents)
    requires
        contents.full(),
        contents.columns[0].len() <= u64::MAX,
    ensures
        crate::machine::selected(
            and(lt(num(0), here(0)), not(lt(num(0x7FF0_0000_0000_0000), here(0)))),
            here(0),
            contents,
            contents.columns[0].len(),
        ) == Some(
            crate::laws::predicates::picked(
                contents.columns[0],
                positives(contents.columns[0]),
                contents.columns[0].len(),
            ),
        ),
{
    let words = contents.columns[0];
    lemma_positives(contents, 0);
    assert forall|i: int| 0 <= i < words.len() implies #[trigger] crate::expr::value_of(
        here(0),
        contents,
        i as u64,
    ) == Some(words[i]) by {
        crate::laws::steps::lemma_here(contents, 0, i as u64);
    }
    crate::laws::predicates::lemma_picked(
        and(lt(num(0), here(0)), not(lt(num(0x7FF0_0000_0000_0000), here(0)))),
        here(0),
        contents,
        words,
        positives(words),
        words.len(),
    );
}

/// No more words are picked than there are places.
proof fn lemma_picked_length(words: Seq<u64>, mask: Seq<u64>, n: nat)
    ensures
        crate::laws::predicates::picked(words, mask, n).len() <= n,
    decreases n,
{
    if n > 0 {
        lemma_picked_length(words, mask, (n - 1) as nat);
    }
}

/// Whether the answers to the downloads of the test are columns or refusals.
pub open spec fn signed_edges_shaped(answers: Seq<Answer>) -> bool {
    &&& answers.len() >= 6
    &&& crate::laws::steps::column_or_refusal(answers[2])
    &&& crate::laws::steps::column_or_refusal(answers[4])
}

/// What the device has to answer.
pub open spec fn signed_edges_answers(answers: Seq<Answer>) -> bool {
    &&& !(answers[0] is Failed)
    &&& !(answers[1] is Failed)
    &&& answers[2] is Words
    &&& answers[2]->Words_0.len() == 16
    &&& crate::laws::steps::rises_in(Scalar::I64, answers[2]->Words_0)
    &&& crate::laws::types::first_is(answers[2]->Words_0, 0x8000_0000_0000_0000)
    &&& crate::laws::types::last_is(answers[2]->Words_0, 0x7fff_ffff_ffff_ffff)
    &&& crate::tables::words_of(Table::SignedEdges).to_set() == answers[2]->Words_0.to_set()
    &&& !(answers[3] is Failed)
    &&& answers[4] is Words
    &&& answers[4]->Words_0.len() == crate::columns::total(
        negatives(crate::tables::words_of(Table::SignedEdges)),
    )
    &&& answers[4]->Words_0.contains(0x8000_0000_0000_0000)
    &&& !(answers[5] is Failed)
}

/// The steps of the test.
proof fn lemma_signed_edges_answers(contents: Contents, answers: Seq<Answer>)
    requires
        contents.full(),
        signed_edges_shaped(answers),
    ensures
        match crate::walk::walked(
            crate::categories::c14_integer::i64_overflow_boundaries_steps(),
            0,
            15,
            contents,
            answers,
            0,
        ) {
            Some((after, next)) => {
                &&& signed_edges_answers(answers)
                &&& after.full()
                &&& next == 6
            },
            None => !signed_edges_answers(answers),
        },
        crate::categories::c14_integer::i64_overflow_boundaries_steps().len() == 15,
{
    let steps = crate::categories::c14_integer::i64_overflow_boundaries_steps();
    crate::laws::numbers::lemma_entries(Table::SignedEdges, contents);
    let words1 = crate::tables::words_of(Table::SignedEdges);
    crate::laws::steps::lemma_fill(steps, 0, 15, contents, answers, 0, words1);
    let next1 = contents.with_column(0, words1);
    crate::laws::steps::lemma_command(steps, 1, 15, next1, answers, 0);
    crate::laws::steps::lemma_command(steps, 2, 15, next1, answers, 1);
    crate::laws::steps::lemma_download(steps, 3, 15, next1, answers, 2);
    if answers[2] is Words {
        let next2 = next1.with_column(1, answers[2]->Words_0);
        lemma_length(next2, 1, 16);
        crate::laws::steps::lemma_check(
            steps,
            4,
            15,
            next2,
            answers,
            3,
            !(answers[2]->Words_0.len() == 16),
        );
        crate::laws::steps::lemma_scan_ranks(steps, 5, 15, next2, answers, 3, 1, Scalar::I64);
        crate::laws::types::lemma_first(next2, 0x8000_0000_0000_0000);
        crate::laws::steps::lemma_check_or_abort(
            steps,
            6,
            15,
            next2,
            answers,
            3,
            crate::laws::types::first_is(answers[2]->Words_0, 0x8000_0000_0000_0000),
        );
        crate::laws::types::lemma_last(next2, 0x7fff_ffff_ffff_ffff);
        crate::laws::steps::lemma_check_or_abort(
            steps,
            7,
            15,
            next2,
            answers,
            3,
            crate::laws::types::last_is(answers[2]->Words_0, 0x7fff_ffff_ffff_ffff),
        );
        crate::laws::joins::lemma_not_alike_sets(next2, 0, 1);
        crate::laws::steps::lemma_check(
            steps,
            8,
            15,
            next2,
            answers,
            3,
            !(crate::tables::words_of(Table::SignedEdges).to_set() == answers[2]->Words_0.to_set()),
        );
        lemma_negatives(next2, 0);
        let words3 = negatives(crate::tables::words_of(Table::SignedEdges));
        crate::laws::steps::lemma_fill(steps, 9, 15, next2, answers, 3, words3);
        let next3 = next2.with_column(2, words3);
        crate::laws::steps::lemma_command(steps, 10, 15, next3, answers, 3);
        crate::laws::steps::lemma_download(steps, 11, 15, next3, answers, 4);
        if answers[4] is Words {
            let next4 = next3.with_column(3, answers[4]->Words_0);
            crate::laws::reproduction::lemma_as_many(next4, 3, 2);
            crate::laws::steps::lemma_check(
                steps,
                12,
                15,
                next4,
                answers,
                5,
                !(
                    answers[4]->Words_0.len() == crate::columns::total(
                        negatives(crate::tables::words_of(Table::SignedEdges)),
                    )
                ),
            );
            crate::laws::types::lemma_holds(next4, 3, 0x8000_0000_0000_0000);
            crate::laws::steps::lemma_check_or_abort(
                steps,
                13,
                15,
                next4,
                answers,
                5,
                answers[4]->Words_0.contains(0x8000_0000_0000_0000),
            );
            crate::laws::steps::lemma_command(steps, 14, 15, next4, answers, 5);
            crate::laws::steps::lemma_end(steps, 15, next4, answers, 6);
        }
    }
}

/// The test has no jumps.
proof fn lemma_signed_edges_straight()
    ensures
        forall|j: int|
            0 <= j < crate::categories::c14_integer::i64_overflow_boundaries_steps().len()
                ==> crate::walk::straight(
                #[trigger] crate::categories::c14_integer::i64_overflow_boundaries_steps()[j],
            ),
{
}

/// The test of signed values next to overflow passes exactly when they come back by rising value,
/// from the least to the greatest one there is, none is lost or changed, and a filter keeps as many
/// words as are negative, the least one among them.
pub proof fn law_signed_edges_pass_exactly_when_sorted_and_filtered(answers: Seq<Answer>)
    requires
        signed_edges_shaped(answers),
    ensures
        crate::machine::run_of(
            crate::script::plan(
                "test_i64_overflow_boundaries",
                crate::categories::c14_integer::i64_overflow_boundaries_steps(),
            ),
            answers,
        ).progress == Progress::Over(Ending::Passed) <==> signed_edges_answers(answers),
{
    let plan = crate::script::plan(
        "test_i64_overflow_boundaries",
        crate::categories::c14_integer::i64_overflow_boundaries_steps(),
    );
    let blank = Contents::blank(plan.texts);
    lemma_signed_edges_answers(blank, answers);
    lemma_signed_edges_straight();
    crate::walk::law_passes_exactly_when_every_step_goes_through(plan, answers);
}

/// Whether the answers to the downloads of the test are columns or refusals.
pub open spec fn unsigned_edges_shaped(answers: Seq<Answer>) -> bool {
    &&& answers.len() >= 4
    &&& crate::laws::steps::column_or_refusal(answers[2])
}

/// What the device has to answer.
pub open spec fn unsigned_edges_answers(answers: Seq<Answer>) -> bool {
    &&& !(answers[0] is Failed)
    &&& !(answers[1] is Failed)
    &&& answers[2] is Words
    &&& answers[2]->Words_0.len() == 16
    &&& crate::laws::steps::rises(answers[2]->Words_0)
    &&& crate::laws::types::first_is(answers[2]->Words_0, 0)
    &&& crate::laws::types::last_is(answers[2]->Words_0, 0xffff_ffff_ffff_ffff)
    &&& crate::tables::words_of(Table::UnsignedEdges).to_set() == answers[2]->Words_0.to_set()
    &&& !(answers[3] is Failed)
}

/// The steps of the test.
proof fn lemma_unsigned_edges_answers(contents: Contents, answers: Seq<Answer>)
    requires
        contents.full(),
        unsigned_edges_shaped(answers),
    ensures
        match crate::walk::walked(
            crate::categories::c14_integer::u64_overflow_boundaries_steps(),
            0,
            13,
            contents,
            answers,
            0,
        ) {
            Some((after, next)) => {
                &&& unsigned_edges_answers(answers)
                &&& after.full()
                &&& next == 4
            },
            None => !unsigned_edges_answers(answers),
        },
        crate::categories::c14_integer::u64_overflow_boundaries_steps().len() == 13,
{
    let steps = crate::categories::c14_integer::u64_overflow_boundaries_steps();
    crate::laws::numbers::lemma_entries(Table::UnsignedEdges, contents);
    let words1 = crate::tables::words_of(Table::UnsignedEdges);
    crate::laws::steps::lemma_fill(steps, 0, 13, contents, answers, 0, words1);
    let next1 = contents.with_column(0, words1);
    crate::laws::steps::lemma_command(steps, 1, 13, next1, answers, 0);
    crate::laws::steps::lemma_command(steps, 2, 13, next1, answers, 1);
    crate::laws::steps::lemma_download(steps, 3, 13, next1, answers, 2);
    if answers[2] is Words {
        let next2 = next1.with_column(1, answers[2]->Words_0);
        lemma_length(next2, 1, 16);
        crate::laws::steps::lemma_check(
            steps,
            4,
            13,
            next2,
            answers,
            3,
            !(answers[2]->Words_0.len() == 16),
        );
        crate::laws::steps::lemma_scan_order(steps, 5, 13, next2, answers, 3, 1);
        crate::laws::types::lemma_first(next2, 0);
        crate::laws::steps::lemma_check_or_abort(
            steps,
            6,
            13,
            next2,
            answers,
            3,
            crate::laws::types::first_is(answers[2]->Words_0, 0),
        );
        crate::laws::types::lemma_last(next2, 0xffff_ffff_ffff_ffff);
        crate::laws::steps::lemma_check_or_abort(
            steps,
            7,
            13,
            next2,
            answers,
            3,
            crate::laws::types::last_is(answers[2]->Words_0, 0xffff_ffff_ffff_ffff),
        );
        crate::laws::joins::lemma_not_alike_sets(next2, 0, 1);
        crate::laws::steps::lemma_check(
            steps,
            8,
            13,
            next2,
            answers,
            3,
            !(
                crate::tables::words_of(
                    Table::UnsignedEdges,
                ).to_set() == answers[2]->Words_0.to_set()
            ),
        );
        lemma_turns(next2, 1);
        let words3 = turns(answers[2]->Words_0);
        crate::laws::steps::lemma_fill(steps, 9, 13, next2, answers, 3, words3);
        let next3 = next2.with_column(2, words3);
        lemma_first_set(turns(answers[2]->Words_0), 0);
        crate::laws::steps::lemma_put(
            steps,
            10,
            13,
            next3,
            answers,
            3,
            crate::columns::first_set(turns(answers[2]->Words_0), 0) as u64,
        );
        let next4 = next3.with_register(
            0,
            crate::columns::first_set(turns(answers[2]->Words_0), 0) as u64,
        );
        if crate::laws::steps::rises(answers[2]->Words_0) {
            lemma_scan_lower(steps, 11, 13, next4, answers, 3);
        }
        crate::laws::steps::lemma_command(steps, 12, 13, next4, answers, 3);
        crate::laws::steps::lemma_end(steps, 13, next4, answers, 4);
    }
}

/// The test has no jumps.
proof fn lemma_unsigned_edges_straight()
    ensures
        forall|j: int|
            0 <= j < crate::categories::c14_integer::u64_overflow_boundaries_steps().len()
                ==> crate::walk::straight(
                #[trigger] crate::categories::c14_integer::u64_overflow_boundaries_steps()[j],
            ),
{
}

/// The test of words next to overflow passes exactly when they come back in rising order, from zero
/// to the greatest one, and none is lost or changed.
pub proof fn law_unsigned_edges_pass_exactly_when_sorted(answers: Seq<Answer>)
    requires
        unsigned_edges_shaped(answers),
    ensures
        crate::machine::run_of(
            crate::script::plan(
                "test_u64_overflow_boundaries",
                crate::categories::c14_integer::u64_overflow_boundaries_steps(),
            ),
            answers,
        ).progress == Progress::Over(Ending::Passed) <==> unsigned_edges_answers(answers),
{
    let plan = crate::script::plan(
        "test_u64_overflow_boundaries",
        crate::categories::c14_integer::u64_overflow_boundaries_steps(),
    );
    let blank = Contents::blank(plan.texts);
    lemma_unsigned_edges_answers(blank, answers);
    lemma_unsigned_edges_straight();
    crate::walk::law_passes_exactly_when_every_step_goes_through(plan, answers);
}

/// Whether the answers to the downloads of the test are columns or refusals.
pub open spec fn full_range_shaped(answers: Seq<Answer>) -> bool {
    &&& answers.len() >= 6
    &&& crate::laws::steps::column_or_refusal(answers[2])
    &&& crate::laws::steps::column_or_refusal(answers[4])
}

/// What the device has to answer.
pub open spec fn full_range_answers(answers: Seq<Answer>) -> bool {
    &&& !(answers[0] is Failed)
    &&& !(answers[1] is Failed)
    &&& answers[2] is Words
    &&& answers[2]->Words_0.len() == 32
    &&& crate::laws::steps::rises(answers[2]->Words_0)
    &&& crate::laws::types::first_is(answers[2]->Words_0, 0)
    &&& crate::laws::types::last_is(answers[2]->Words_0, 4294967295)
    &&& !(answers[3] is Failed)
    &&& answers[4] is Words
    &&& all_upper(answers[4]->Words_0)
    &&& !(answers[5] is Failed)
}

/// The steps of the test.
proof fn lemma_full_range_answers(contents: Contents, answers: Seq<Answer>)
    requires
        contents.full(),
        full_range_shaped(answers),
    ensures
        match crate::walk::walked(
            crate::categories::c14_integer::u32_full_range_steps(),
            0,
            13,
            contents,
            answers,
            0,
        ) {
            Some((after, next)) => {
                &&& full_range_answers(answers)
                &&& after.full()
                &&& next == 6
            },
            None => !full_range_answers(answers),
        },
        crate::categories::c14_integer::u32_full_range_steps().len() == 13,
{
    let steps = crate::categories::c14_integer::u32_full_range_steps();
    lemma_full_range(contents);
    let words1 = full_range();
    crate::laws::steps::lemma_fill(steps, 0, 13, contents, answers, 0, words1);
    let next1 = contents.with_column(0, words1);
    crate::laws::steps::lemma_command(steps, 1, 13, next1, answers, 0);
    crate::laws::steps::lemma_command(steps, 2, 13, next1, answers, 1);
    crate::laws::steps::lemma_download(steps, 3, 13, next1, answers, 2);
    if answers[2] is Words {
        let next2 = next1.with_column(1, answers[2]->Words_0);
        lemma_length(next2, 1, 32);
        crate::laws::steps::lemma_check(
            steps,
            4,
            13,
            next2,
            answers,
            3,
            !(answers[2]->Words_0.len() == 32),
        );
        crate::laws::steps::lemma_scan_order(steps, 5, 13, next2, answers, 3, 1);
        crate::laws::types::lemma_first(next2, 0);
        crate::laws::steps::lemma_check_or_abort(
            steps,
            6,
            13,
            next2,
            answers,
            3,
            crate::laws::types::first_is(answers[2]->Words_0, 0),
        );
        crate::laws::types::lemma_last(next2, 4294967295);
        crate::laws::steps::lemma_check_or_abort(
            steps,
            7,
            13,
            next2,
            answers,
            3,
            crate::laws::types::last_is(answers[2]->Words_0, 4294967295),
        );
        lemma_uppers(next2, 0);
        let words3 = uppers(full_range());
        crate::laws::steps::lemma_fill(steps, 8, 13, next2, answers, 3, words3);
        let next3 = next2.with_column(2, words3);
        crate::laws::steps::lemma_command(steps, 9, 13, next3, answers, 3);
        crate::laws::steps::lemma_download(steps, 10, 13, next3, answers, 4);
        if answers[4] is Words {
            let next4 = next3.with_column(3, answers[4]->Words_0);
            lemma_not_upper(next4, 3);
            crate::laws::steps::lemma_scan_words(
                steps,
                11,
                13,
                next4,
                answers,
                5,
                3,
                lt(here(3), num(2147483647)),
                |word: u64| upper(word),
            );
            crate::laws::steps::lemma_command(steps, 12, 13, next4, answers, 5);
            crate::laws::steps::lemma_end(steps, 13, next4, answers, 6);
        }
    }
}

/// The test has no jumps.
proof fn lemma_full_range_straight()
    ensures
        forall|j: int|
            0 <= j < crate::categories::c14_integer::u32_full_range_steps().len()
                ==> crate::walk::straight(
                #[trigger] crate::categories::c14_integer::u32_full_range_steps()[j],
            ),
{
}

/// The test of the full range of 32 bits passes exactly when the words come back in rising order,
/// from zero to the greatest one, and a filter keeps words of the upper half only.
pub proof fn law_full_range_passes_exactly_when_sorted_and_filtered(answers: Seq<Answer>)
    requires
        full_range_shaped(answers),
    ensures
        crate::machine::run_of(
            crate::script::plan(
                "test_u32_full_range",
                crate::categories::c14_integer::u32_full_range_steps(),
            ),
            answers,
        ).progress == Progress::Over(Ending::Passed) <==> full_range_answers(answers),
{
    let plan = crate::script::plan(
        "test_u32_full_range",
        crate::categories::c14_integer::u32_full_range_steps(),
    );
    let blank = Contents::blank(plan.texts);
    lemma_full_range_answers(blank, answers);
    lemma_full_range_straight();
    crate::walk::law_passes_exactly_when_every_step_goes_through(plan, answers);
}

/// Whether the answers to the downloads of the test are columns or refusals.
pub open spec fn infinities_shaped(answers: Seq<Answer>) -> bool {
    &&& answers.len() >= 6
    &&& crate::laws::steps::column_or_refusal(answers[2])
    &&& crate::laws::steps::column_or_refusal(answers[4])
}

/// What the device has to answer.
pub open spec fn infinities_answers(answers: Seq<Answer>) -> bool {
    &&& !(answers[0] is Failed)
    &&& !(answers[1] is Failed)
    &&& answers[2] is Words
    &&& answers[2]->Words_0.len() == 11
    &&& crate::laws::steps::rises_in(Scalar::F64, answers[2]->Words_0)
    &&& crate::laws::types::first_is(answers[2]->Words_0, 0xfff0_0000_0000_0000)
    &&& crate::laws::types::last_is(answers[2]->Words_0, INFINITE)
    &&& !(answers[3] is Failed)
    &&& answers[4] is Words
    &&& answers[4]->Words_0.len() == crate::laws::predicates::picked(
        crate::tables::words_of(Table::Infinities),
        positives(crate::tables::words_of(Table::Infinities)),
        crate::tables::words_of(Table::Infinities).len(),
    ).len()
    &&& answers[4]->Words_0.contains(INFINITE)
    &&& !(answers[5] is Failed)
}

/// The steps of the test.
proof fn lemma_infinities_answers(contents: Contents, answers: Seq<Answer>)
    requires
        contents.full(),
        infinities_shaped(answers),
    ensures
        match crate::walk::walked(
            crate::categories::c13_floating_point::f64_infinity_steps(),
            0,
            15,
            contents,
            answers,
            0,
        ) {
            Some((after, next)) => {
                &&& infinities_answers(answers)
                &&& after.full()
                &&& next == 6
            },
            None => !infinities_answers(answers),
        },
        crate::categories::c13_floating_point::f64_infinity_steps().len() == 15,
{
    let steps = crate::categories::c13_floating_point::f64_infinity_steps();
    crate::laws::numbers::lemma_entries(Table::Infinities, contents);
    let words1 = crate::tables::words_of(Table::Infinities);
    crate::laws::steps::lemma_fill(steps, 0, 15, contents, answers, 0, words1);
    let next1 = contents.with_column(0, words1);
    crate::laws::steps::lemma_command(steps, 1, 15, next1, answers, 0);
    crate::laws::steps::lemma_command(steps, 2, 15, next1, answers, 1);
    crate::laws::steps::lemma_download(steps, 3, 15, next1, answers, 2);
    if answers[2] is Words {
        let next2 = next1.with_column(1, answers[2]->Words_0);
        lemma_length(next2, 1, 11);
        crate::laws::steps::lemma_check(
            steps,
            4,
            15,
            next2,
            answers,
            3,
            !(answers[2]->Words_0.len() == 11),
        );
        crate::laws::steps::lemma_scan_ranks(steps, 5, 15, next2, answers, 3, 1, Scalar::F64);
        lemma_minus_infinity(next2);
        crate::laws::steps::lemma_check_or_abort(
            steps,
            6,
            15,
            next2,
            answers,
            3,
            crate::laws::types::first_is(answers[2]->Words_0, 0xfff0_0000_0000_0000),
        );
        lemma_infinity(next2);
        crate::laws::steps::lemma_check_or_abort(
            steps,
            7,
            15,
            next2,
            answers,
            3,
            crate::laws::types::last_is(answers[2]->Words_0, INFINITE),
        );
        lemma_positives(next2, 0);
        let words3 = positives(crate::tables::words_of(Table::Infinities));
        crate::laws::steps::lemma_fill(steps, 8, 15, next2, answers, 3, words3);
        let next3 = next2.with_column(2, words3);
        crate::laws::steps::lemma_command(steps, 9, 15, next3, answers, 3);
        crate::laws::steps::lemma_download(steps, 10, 15, next3, answers, 4);
        if answers[4] is Words {
            let next4 = next3.with_column(3, answers[4]->Words_0);
            lemma_positive_words(next4);
            crate::laws::steps::lemma_select(
                steps,
                11,
                15,
                next4,
                answers,
                5,
                11,
                crate::laws::predicates::picked(
                    crate::tables::words_of(Table::Infinities),
                    positives(crate::tables::words_of(Table::Infinities)),
                    crate::tables::words_of(Table::Infinities).len(),
                ),
            );
            let next5 = next4.with_column(
                4,
                crate::laws::predicates::picked(
                    crate::tables::words_of(Table::Infinities),
                    positives(crate::tables::words_of(Table::Infinities)),
                    crate::tables::words_of(Table::Infinities).len(),
                ),
            );
            lemma_picked_length(
                crate::tables::words_of(Table::Infinities),
                positives(crate::tables::words_of(Table::Infinities)),
                crate::tables::words_of(Table::Infinities).len(),
            );
            lemma_shorter(next5, 3, 4);
            crate::laws::steps::lemma_check(
                steps,
                12,
                15,
                next5,
                answers,
                5,
                !(
                    answers[4]->Words_0.len() == crate::laws::predicates::picked(
                        crate::tables::words_of(Table::Infinities),
                        positives(crate::tables::words_of(Table::Infinities)),
                        crate::tables::words_of(Table::Infinities).len(),
                    ).len()
                ),
            );
            crate::laws::types::lemma_holds(next5, 3, INFINITE);
            crate::laws::steps::lemma_check_or_abort(
                steps,
                13,
                15,
                next5,
                answers,
                5,
                answers[4]->Words_0.contains(INFINITE),
            );
            crate::laws::steps::lemma_command(steps, 14, 15, next5, answers, 5);
            crate::laws::steps::lemma_end(steps, 15, next5, answers, 6);
        }
    }
}

/// The test has no jumps.
proof fn lemma_infinities_straight()
    ensures
        forall|j: int|
            0 <= j < crate::categories::c13_floating_point::f64_infinity_steps().len()
                ==> crate::walk::straight(
                #[trigger] crate::categories::c13_floating_point::f64_infinity_steps()[j],
            ),
{
}

/// The test of infinities passes exactly when the doubles come back in their total order, from
/// minus infinity to infinity, and a filter keeps as many of them as are above zero, infinity among
/// them.
pub proof fn law_infinities_pass_exactly_when_ordered_and_filtered(answers: Seq<Answer>)
    requires
        infinities_shaped(answers),
    ensures
        crate::machine::run_of(
            crate::script::plan(
                "test_f64_infinity",
                crate::categories::c13_floating_point::f64_infinity_steps(),
            ),
            answers,
        ).progress == Progress::Over(Ending::Passed) <==> infinities_answers(answers),
{
    let plan = crate::script::plan(
        "test_f64_infinity",
        crate::categories::c13_floating_point::f64_infinity_steps(),
    );
    let blank = Contents::blank(plan.texts);
    lemma_infinities_answers(blank, answers);
    lemma_infinities_straight();
    crate::walk::law_passes_exactly_when_every_step_goes_through(plan, answers);
}

/// Whether the answers to the downloads of the test are columns or refusals.
pub open spec fn tiny_shaped(answers: Seq<Answer>) -> bool {
    &&& answers.len() >= 4
    &&& crate::laws::steps::column_or_refusal(answers[2])
}

/// What the device has to answer.
pub open spec fn tiny_answers(answers: Seq<Answer>) -> bool {
    &&& !(answers[0] is Failed)
    &&& !(answers[1] is Failed)
    &&& answers[2] is Words
    &&& answers[2]->Words_0.len() == 12
    &&& crate::laws::steps::rises_in(Scalar::F64, answers[2]->Words_0)
    &&& crate::columns::total(subnormals(answers[2]->Words_0)) == crate::columns::total(
        subnormals(crate::tables::words_of(Table::Subnormals)),
    )
    &&& answers[2]->Words_0.contains(1)
    &&& !(answers[3] is Failed)
}

/// The steps of the test.
proof fn lemma_tiny_answers(contents: Contents, answers: Seq<Answer>)
    requires
        contents.full(),
        tiny_shaped(answers),
    ensures
        match crate::walk::walked(
            crate::categories::c13_floating_point::f64_subnormal_steps(),
            0,
            11,
            contents,
            answers,
            0,
        ) {
            Some((after, next)) => {
                &&& tiny_answers(answers)
                &&& after.full()
                &&& next == 4
            },
            None => !tiny_answers(answers),
        },
        crate::categories::c13_floating_point::f64_subnormal_steps().len() == 11,
{
    let steps = crate::categories::c13_floating_point::f64_subnormal_steps();
    crate::laws::numbers::lemma_entries(Table::Subnormals, contents);
    let words1 = crate::tables::words_of(Table::Subnormals);
    crate::laws::steps::lemma_fill(steps, 0, 11, contents, answers, 0, words1);
    let next1 = contents.with_column(0, words1);
    crate::laws::steps::lemma_command(steps, 1, 11, next1, answers, 0);
    crate::laws::steps::lemma_command(steps, 2, 11, next1, answers, 1);
    crate::laws::steps::lemma_download(steps, 3, 11, next1, answers, 2);
    if answers[2] is Words {
        let next2 = next1.with_column(1, answers[2]->Words_0);
        lemma_length(next2, 1, 12);
        crate::laws::steps::lemma_check(
            steps,
            4,
            11,
            next2,
            answers,
            3,
            !(answers[2]->Words_0.len() == 12),
        );
        crate::laws::steps::lemma_scan_ranks(steps, 5, 11, next2, answers, 3, 1, Scalar::F64);
        lemma_subnormals(next2, 1);
        let words3 = subnormals(answers[2]->Words_0);
        crate::laws::steps::lemma_fill(steps, 6, 11, next2, answers, 3, words3);
        let next3 = next2.with_column(2, words3);
        lemma_subnormals(next3, 0);
        let words4 = subnormals(crate::tables::words_of(Table::Subnormals));
        crate::laws::steps::lemma_fill(steps, 7, 11, next3, answers, 3, words4);
        let next4 = next3.with_column(3, words4);
        lemma_sums_differ(next4, 2, 3);
        crate::laws::steps::lemma_check(
            steps,
            8,
            11,
            next4,
            answers,
            3,
            !(
                crate::columns::total(subnormals(answers[2]->Words_0)) == crate::columns::total(
                    subnormals(crate::tables::words_of(Table::Subnormals)),
                )
            ),
        );
        crate::laws::types::lemma_holds(next4, 1, 1);
        crate::laws::steps::lemma_check_or_abort(
            steps,
            9,
            11,
            next4,
            answers,
            3,
            answers[2]->Words_0.contains(1),
        );
        crate::laws::steps::lemma_command(steps, 10, 11, next4, answers, 3);
        crate::laws::steps::lemma_end(steps, 11, next4, answers, 4);
    }
}

/// The test has no jumps.
proof fn lemma_tiny_straight()
    ensures
        forall|j: int|
            0 <= j < crate::categories::c13_floating_point::f64_subnormal_steps().len()
                ==> crate::walk::straight(
                #[trigger] crate::categories::c13_floating_point::f64_subnormal_steps()[j],
            ),
{
}

/// The test of subnormal doubles passes exactly when they come back in their total order, as many
/// of them subnormal as went in, the least one above zero among them.
pub proof fn law_subnormals_pass_exactly_when_ordered_and_kept(answers: Seq<Answer>)
    requires
        tiny_shaped(answers),
    ensures
        crate::machine::run_of(
            crate::script::plan(
                "test_f64_subnormal",
                crate::categories::c13_floating_point::f64_subnormal_steps(),
            ),
            answers,
        ).progress == Progress::Over(Ending::Passed) <==> tiny_answers(answers),
{
    let plan = crate::script::plan(
        "test_f64_subnormal",
        crate::categories::c13_floating_point::f64_subnormal_steps(),
    );
    let blank = Contents::blank(plan.texts);
    lemma_tiny_answers(blank, answers);
    lemma_tiny_straight();
    crate::walk::law_passes_exactly_when_every_step_goes_through(plan, answers);
}

} // verus!
