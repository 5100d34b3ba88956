//! Laws of the sums, counts and searches over columns, and of the texts that numbers are written
//! as.

use vstd::prelude::*;

verus! {

/// The first place that is not zero: everything before it is zero, and it is not, where it lies in
/// the column.
pub proof fn law_first_set_place_is_the_first(words: Seq<u64>, at: int)
    requires
        0 <= at <= words.len(),
    ensures
        at <= crate::columns::first_set(words, at) <= words.len(),
        forall|i: int| at <= i < crate::columns::first_set(words, at) ==> words[i] == 0,
        crate::columns::first_set(words, at) < words.len() ==> words[crate::columns::first_set(
            words,
            at,
        )] != 0,
    decreases words.len() - at,
{
    if at < words.len() && words[at] == 0 {
        law_first_set_place_is_the_first(words, at + 1);
    }
}

/// The first difference of two columns: everything before it is the same in both, and there they
/// differ, where it lies in both of them; otherwise it is where the shorter one ends.
pub proof fn law_first_difference_is_the_first(left: Seq<u64>, right: Seq<u64>, at: int)
    requires
        0 <= at <= left.len(),
        at <= right.len(),
    ensures
        ({
            let place = crate::columns::first_difference(left, right, at);
            &&& at <= place <= left.len()
            &&& place <= right.len()
            &&& forall|i: int| at <= i < place ==> left[i] == right[i]
            &&& place < left.len() && place < right.len() ==> left[place] != right[place]
        }),
    decreases left.len() - at,
{
    if at < left.len() && at < right.len() && left[at] == right[at] {
        law_first_difference_is_the_first(left, right, at + 1);
    }
}

/// The first repeat of a column: no word before it occurs twice, and its own word occurs before
/// it, where it lies in the column.
pub proof fn law_first_repeat_is_the_first(words: Seq<u64>, at: int)
    requires
        0 <= at <= words.len(),
        forall|i: int, j: int| 0 <= i < j < at ==> words[i] != words[j],
    ensures
        ({
            let place = crate::columns::first_repeat(words, at);
            &&& at <= place <= words.len()
            &&& forall|i: int, j: int| 0 <= i < j < place ==> words[i] != words[j]
            &&& place < words.len() ==> exists|i: int|
                0 <= i < place && #[trigger] words[i] == words[place]
        }),
    decreases words.len() - at,
{
    if at < words.len() {
        if words.take(at).contains(words[at]) {
            let i = choose|i: int| 0 <= i < at && words.take(at)[i] == words[at];
            assert(words[i] == words[at]);
        } else {
            assert forall|i: int| 0 <= i < at implies words[i] != words[at] by {
                assert(words.take(at)[i] == words[i]);
            }
            law_first_repeat_is_the_first(words, at + 1);
        }
    }
}

/// Columns one after the other add up to what they add up to by themselves, and a column of one
/// word to that word.
pub proof fn law_sums_add_up(left: Seq<u64>, right: Seq<u64>)
    ensures
        crate::columns::total(left + right) == crate::columns::total(left) + crate::columns::total(
            right,
        ),
        left.len() == 1 ==> crate::columns::total(left) == left[0],
        left.len() == 0 ==> crate::columns::total(left) == 0,
    decreases right.len(),
{
    if right.len() > 0 {
        assert((left + right).drop_last() =~= left + right.drop_last());
        law_sums_add_up(left, right.drop_last());
    } else {
        assert(left + right =~= left);
    }
    if left.len() == 1 {
        assert(left.drop_last() =~= Seq::empty());
        reveal_with_fuel(crate::columns::total, 2);
    }
}

/// Running sums start at zero, and each is the one before it and the word before it together.
pub proof fn law_running_sums_grow_word_by_word(words: Seq<u64>, i: int)
    requires
        crate::columns::total(words) <= u64::MAX,
        0 <= i < words.len(),
    ensures
        crate::columns::running_sums(words).len() == words.len(),
        crate::columns::running_sums(words)[0] == 0,
        i > 0 ==> crate::columns::running_sums(words)[i] == crate::columns::running_sums(words)[i
            - 1] + words[i - 1],
{
    let sums = crate::columns::running_sums(words);
    assert(words.take(0) =~= Seq::empty());
    assert(crate::columns::total(words.take(0)) == 0);
    if i > 0 {
        assert(words.take(i).drop_last() =~= words.take(i - 1));
        law_sums_add_up(words.take(i), words.skip(i));
        assert(words.take(i) + words.skip(i) =~= words);
        lemma_not_negative(words.skip(i));
        lemma_not_negative(words.take(i - 1));
    }
}

/// A column never adds up to less than nothing.
proof fn lemma_not_negative(words: Seq<u64>)
    ensures
        crate::columns::total(words) >= 0,
    decreases words.len(),
{
    if words.len() > 0 {
        lemma_not_negative(words.drop_last());
    }
}

/// A word occurs in a column as often as the column's words, taken without their order, hold it.
pub proof fn law_occurrences_are_counted(words: Seq<u64>, word: u64)
    ensures
        crate::columns::occurrences(words, word) == words.to_multiset().count(word),
    decreases words.len(),
{
    broadcast use vstd::multiset::group_multiset_axioms;
    broadcast use vstd::seq_lib::group_to_multiset_ensures;

    if words.len() > 0 {
        law_occurrences_are_counted(words.drop_last(), word);
        assert(words =~= words.drop_last().push(words.last()));
        vstd::seq_lib::to_multiset_build(words.drop_last(), words.last());
    }
}

/// A text without a gap is said as it is, whatever is at hand to fill gaps.
pub proof fn law_texts_without_gaps_are_said_as_they_are(
    text: Seq<char>,
    at: int,
    pieces: Seq<Seq<char>>,
    next: int,
)
    requires
        0 <= at <= text.len(),
        forall|i: int| at <= i < text.len() ==> text[i] != '{',
    ensures
        crate::render::woven(text, at, pieces, next) == text.skip(at),
    decreases text.len() - at,
{
    if at < text.len() {
        law_texts_without_gaps_are_said_as_they_are(text, at + 1, pieces, next);
        assert(text.skip(at) =~= seq![text[at]] + text.skip(at + 1));
    } else {
        assert(text.skip(at) =~= Seq::empty());
    }
}

/// What is said of the rest of a text does not depend on what stands before it.
proof fn lemma_woven_after(
    before: Seq<char>,
    text: Seq<char>,
    at: int,
    pieces: Seq<Seq<char>>,
    next: int,
)
    requires
        0 <= at <= text.len(),
    ensures
        crate::render::woven(before + text, before.len() + at, pieces, next)
            == crate::render::woven(text, at, pieces, next),
    decreases text.len() - at,
{
    let whole = before + text;
    if at < text.len() {
        assert(whole[before.len() + at] == text[at]);
        if at + 1 < text.len() {
            assert(whole[before.len() + at + 1] == text[at + 1]);
            if text[at] == '{' && text[at + 1] == '}' && next < pieces.len() {
                lemma_woven_after(before, text, at + 2, pieces, next + 1);
                assert(before.len() + (at + 2) == before.len() + at + 2);
            }
        }
        lemma_woven_after(before, text, at + 1, pieces, next);
        assert(before.len() + (at + 1) == before.len() + at + 1);
    }
}

/// The first gap of a text is filled with the next piece, what stands before it is said as it is,
/// and the rest of the text with the pieces after that one.
pub proof fn law_gaps_are_filled_in_order(
    before: Seq<char>,
    rest: Seq<char>,
    pieces: Seq<Seq<char>>,
    next: int,
)
    requires
        forall|i: int| 0 <= i < before.len() ==> before[i] != '{',
        0 <= next < pieces.len(),
    ensures
        crate::render::woven(before + seq!['{', '}'] + rest, 0, pieces, next) == before
            + pieces[next] + crate::render::woven(rest, 0, pieces, next + 1),
    decreases before.len(),
{
    let text = before + seq!['{', '}'] + rest;
    let said = crate::render::woven(rest, 0, pieces, next + 1);
    if before.len() == 0 {
        assert(text[0] == '{' && text[1] == '}');
        assert(text =~= seq!['{', '}'] + rest);
        lemma_woven_after(seq!['{', '}'], rest, 0, pieces, next + 1);
        assert(before + pieces[next] + said =~= pieces[next] + said);
    } else {
        let less = before.skip(1);
        let shorter = less + seq!['{', '}'] + rest;
        assert forall|i: int| 0 <= i < less.len() implies less[i] != '{' by {
            assert(before[i + 1] != '{');
        }
        law_gaps_are_filled_in_order(less, rest, pieces, next);
        assert(text =~= seq![before[0]] + shorter);
        lemma_woven_after(seq![before[0]], shorter, 0, pieces, next);
        assert(text[0] == before[0]);
        assert(seq![before[0]] + (less + pieces[next] + said) =~= before + pieces[next] + said);
    }
}

} // verus!
