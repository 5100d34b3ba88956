//! Laws of how PTX texts are read, line by line.

use vstd::prelude::*;
use vstd::string::*;
use crate::ptx::{Flaw, Found};

verus! {

/// Whether a text is made of white space.
pub open spec fn all_white(text: Seq<char>) -> bool {
    forall|k: int| 0 <= k < text.len() ==> crate::ptx::is_white(#[trigger] text[k])
}

/// Whether a text holds no white space.
pub open spec fn no_white(text: Seq<char>) -> bool {
    forall|k: int| 0 <= k < text.len() ==> !crate::ptx::is_white(#[trigger] text[k])
}

/// Whether a text has no white space at either end.
pub open spec fn tight(text: Seq<char>) -> bool {
    text.len() > 0 ==> !crate::ptx::is_white(text[0]) && !crate::ptx::is_white(text.last())
}

/// The lines of a text up to one of its ends of line, and those after it.
pub open spec fn joined(above: Seq<char>, below: Seq<char>) -> Seq<char> {
    above + seq!['\n'] + below
}

/// White space before a text that does not begin with any is left out.
proof fn lemma_trimmed_start(lead: Seq<char>, text: Seq<char>)
    requires
        all_white(lead),
        text.len() > 0 ==> !crate::ptx::is_white(text[0]),
    ensures
        crate::ptx::trimmed_start(lead + text) == text,
    decreases lead.len(),
{
    if lead.len() > 0 {
        assert((lead + text).skip(1) =~= lead.skip(1) + text);
        assert(crate::ptx::is_white(lead[0]));
        assert forall|k: int| 0 <= k < lead.skip(1).len() implies crate::ptx::is_white(
            #[trigger] lead.skip(1)[k],
        ) by {
            assert(crate::ptx::is_white(lead[k + 1]));
        }
        lemma_trimmed_start(lead.skip(1), text);
    } else {
        assert(lead + text =~= text);
    }
}

/// What follows a character that is no white space is trimmed by itself.
proof fn lemma_trimmed_end(text: Seq<char>, tail: Seq<char>)
    requires
        text.len() > 0,
        !crate::ptx::is_white(text.last()),
    ensures
        crate::ptx::trimmed_end(text + tail) == text + crate::ptx::trimmed_end(tail),
    decreases tail.len(),
{
    if tail.len() > 0 && crate::ptx::is_white(tail.last()) {
        assert((text + tail).drop_last() =~= text + tail.drop_last());
        lemma_trimmed_end(text, tail.drop_last());
    } else if tail.len() == 0 {
        assert(text + tail =~= text);
        assert(crate::ptx::trimmed_end(tail) =~= tail);
    }
}

/// A text is what is left of it with white space before it.
proof fn lemma_start_split(text: Seq<char>) -> (lead: Seq<char>)
    ensures
        all_white(lead),
        text == lead + crate::ptx::trimmed_start(text),
        ({
            let rest = crate::ptx::trimmed_start(text);
            rest.len() > 0 ==> !crate::ptx::is_white(rest[0])
        }),
    decreases text.len(),
{
    if text.len() > 0 && crate::ptx::is_white(text[0]) {
        let rest = lemma_start_split(text.skip(1));
        let lead = seq![text[0]] + rest;
        assert(text =~= lead + crate::ptx::trimmed_start(text)) by {
            assert(text =~= seq![text[0]] + text.skip(1));
        }
        lead
    } else {
        assert(text =~= Seq::<char>::empty() + text);
        Seq::empty()
    }
}

/// A text is what is left of it with white space after it.
proof fn lemma_end_split(text: Seq<char>) -> (tail: Seq<char>)
    ensures
        all_white(tail),
        text == crate::ptx::trimmed_end(text) + tail,
        ({
            let rest = crate::ptx::trimmed_end(text);
            &&& rest.len() > 0 ==> !crate::ptx::is_white(rest.last())
            &&& rest.len() <= text.len()
            &&& rest == text.take(rest.len() as int)
        }),
    decreases text.len(),
{
    if text.len() > 0 && crate::ptx::is_white(text.last()) {
        let rest = lemma_end_split(text.drop_last());
        let tail = rest + seq![text.last()];
        let kept = crate::ptx::trimmed_end(text);
        assert(text =~= kept + tail) by {
            assert(text =~= text.drop_last() + seq![text.last()]);
        }
        assert(kept =~= text.take(kept.len() as int));
        tail
    } else {
        assert(text =~= text + Seq::<char>::empty());
        assert(text =~= text.take(text.len() as int));
        Seq::empty()
    }
}

/// Trimming leaves out white space at both ends and nothing else: the text is what is left of it,
/// with white space before and after it, and what is left neither begins nor ends with any.
pub proof fn law_trimming_leaves_out_the_white_space_at_both_ends(text: Seq<char>) -> (ends: (
    Seq<char>,
    Seq<char>,
))
    ensures
        all_white(ends.0),
        all_white(ends.1),
        text == ends.0 + crate::ptx::trimmed(text) + ends.1,
        tight(crate::ptx::trimmed(text)),
{
    let lead = lemma_start_split(text);
    let rest = crate::ptx::trimmed_start(text);
    let tail = lemma_end_split(rest);
    assert(text =~= lead + crate::ptx::trimmed(text) + tail);
    (lead, tail)
}

/// There is only one way to trim a text.
pub proof fn law_trimmed_texts_with_white_space_around_are_trimmed_to_themselves(
    lead: Seq<char>,
    text: Seq<char>,
    tail: Seq<char>,
)
    requires
        all_white(lead),
        all_white(tail),
        tight(text),
    ensures
        crate::ptx::trimmed(lead + text + tail) == text,
{
    if text.len() > 0 {
        assert(lead + text + tail =~= lead + (text + tail));
        lemma_trimmed_start(lead, text + tail);
        lemma_trimmed_end(text, tail);
        lemma_white_is_nothing(tail);
        assert(text + Seq::<char>::empty() =~= text);
    } else {
        let white = lead + tail;
        assert(lead + text + tail =~= white + Seq::<char>::empty());
        lemma_trimmed_start(white, Seq::empty());
        assert(crate::ptx::trimmed_end(Seq::empty()) =~= text);
    }
}

/// Nothing is left of white space.
proof fn lemma_white_is_nothing(text: Seq<char>)
    requires
        all_white(text),
    ensures
        crate::ptx::trimmed_end(text) == Seq::<char>::empty(),
    decreases text.len(),
{
    if text.len() > 0 {
        assert(crate::ptx::is_white(text[text.len() - 1]));
        lemma_white_is_nothing(text.drop_last());
    } else {
        assert(text =~= Seq::empty());
    }
}

/// Where a character is found.
proof fn lemma_found(text: Seq<char>, c: char, at: int)
    requires
        0 <= at <= text.len(),
    ensures
        at <= crate::ptx::place_of(text, c, at) <= text.len(),
        forall|k: int| at <= k < crate::ptx::place_of(text, c, at) ==> text[k] != c,
        crate::ptx::place_of(text, c, at) < text.len() ==> text[crate::ptx::place_of(text, c, at)]
            == c,
    decreases text.len() - at,
{
    if at < text.len() && text[at] != c {
        lemma_found(text, c, at + 1);
    }
}

/// Where white space is found.
proof fn lemma_white_found(text: Seq<char>, at: int)
    requires
        0 <= at <= text.len(),
    ensures
        at <= crate::ptx::white_place(text, at) <= text.len(),
        forall|k: int|
            at <= k < crate::ptx::white_place(text, at) ==> !crate::ptx::is_white(text[k]),
        crate::ptx::white_place(text, at) < text.len() ==> crate::ptx::is_white(
            text[crate::ptx::white_place(text, at)],
        ),
    decreases text.len() - at,
{
    if at < text.len() && !crate::ptx::is_white(text[at]) {
        lemma_white_found(text, at + 1);
    }
}

/// Where a line ends does not depend on what stands before it.
proof fn lemma_place_after(before: Seq<char>, text: Seq<char>, at: int)
    requires
        0 <= at <= text.len(),
    ensures
        crate::ptx::place_of(before + text, '\n', before.len() + at) == before.len()
            + crate::ptx::place_of(text, '\n', at),
    decreases text.len() - at,
{
    if at < text.len() {
        assert((before + text)[before.len() + at] == text[at]);
        if text[at] != '\n' {
            lemma_place_after(before, text, at + 1);
        }
    }
}

/// Where a line above an end of line ends.
proof fn lemma_place_above(above: Seq<char>, below: Seq<char>, at: int)
    requires
        0 <= at <= above.len(),
    ensures
        crate::ptx::place_of(joined(above, below), '\n', at) == crate::ptx::place_of(
            above,
            '\n',
            at,
        ),
    decreases above.len() - at,
{
    let whole = joined(above, below);
    if at < above.len() {
        assert(whole[at] == above[at]);
        if above[at] != '\n' {
            lemma_place_above(above, below, at + 1);
        }
    } else {
        assert(whole[at] == '\n');
    }
}

/// The entry points of lines do not depend on what stands before them.
proof fn lemma_entries_after(before: Seq<char>, text: Seq<char>, at: int)
    requires
        0 <= at,
    ensures
        crate::ptx::entries_from(before + text, before.len() + at) == crate::ptx::entries_from(
            text,
            at,
        ),
    decreases
            if at < text.len() {
                text.len() - at
            } else {
                0
            },
{
    let whole = before + text;
    if at < text.len() {
        let end = crate::ptx::place_of(text, '\n', at);
        lemma_place_after(before, text, at);
        lemma_found(text, '\n', at);
        assert(whole.subrange(before.len() + at, before.len() + end) =~= text.subrange(at, end));
        lemma_entries_after(before, text, end + 1);
        assert(before.len() + at < whole.len());
        assert(before.len() + (end + 1) == before.len() + end + 1);
    }
}

/// A directive's argument in lines does not depend on what stands before them.
proof fn lemma_directive_after(
    before: Seq<char>,
    text: Seq<char>,
    directive: Seq<char>,
    at: int,
)
    requires
        0 <= at,
    ensures
        crate::ptx::directive_from(before + text, directive, before.len() + at)
            == crate::ptx::directive_from(text, directive, at),
    decreases
            if at < text.len() {
                text.len() - at
            } else {
                0
            },
{
    let whole = before + text;
    if at < text.len() {
        let end = crate::ptx::place_of(text, '\n', at);
        lemma_place_after(before, text, at);
        lemma_found(text, '\n', at);
        assert(whole.subrange(before.len() + at, before.len() + end) =~= text.subrange(at, end));
        lemma_directive_after(before, text, directive, end + 1);
        assert(before.len() + at < whole.len());
        assert(before.len() + (end + 1) == before.len() + end + 1);
    }
}

/// An empty line declares nothing and gives no argument.
proof fn lemma_empty_line(directive: Seq<char>)
    ensures
        crate::ptx::entry_of(Seq::empty()) is None,
        crate::ptx::directive_of(Seq::empty(), directive) is None,
{
    reveal_strlit(".visible .entry ");
    reveal_strlit(".entry ");
    let nothing = Seq::<char>::empty();
    assert(crate::ptx::trimmed(nothing) == nothing);
    assert(nothing.skip(0) =~= nothing);
}

/// The entry points of the lines from a place on, up to and after an end of line.
proof fn lemma_entries_joined(above: Seq<char>, below: Seq<char>, at: int)
    requires
        0 <= at <= above.len(),
    ensures
        crate::ptx::entries_from(joined(above, below), at) == crate::ptx::entries_from(above, at)
            + crate::ptx::entries_from(below, 0),
    decreases above.len() - at,
{
    let whole = joined(above, below);
    let end = crate::ptx::place_of(above, '\n', at);
    let rest = crate::ptx::entries_from(below, 0);
    lemma_place_above(above, below, at);
    lemma_found(above, '\n', at);
    assert(whole.subrange(at, end) =~= above.subrange(at, end));
    if end < above.len() {
        lemma_entries_joined(above, below, end + 1);
        let more = crate::ptx::entries_from(above, end + 1);
        match crate::ptx::entry_of(above.subrange(at, end)) {
            Some(entry) => {
                assert(seq![entry] + (more + rest) =~= seq![entry] + more + rest);
            },
            None => {},
        }
    } else {
        lemma_entries_after(above + seq!['\n'], below, 0);
        lemma_empty_line(Seq::empty());
        assert(above.subrange(above.len() as int, above.len() as int) =~= Seq::empty());
        assert(Seq::<Seq<char>>::empty() + rest =~= rest);
        assert(crate::ptx::entries_from(above, above.len() as int + 1) =~= Seq::empty());
        assert(crate::ptx::entries_from(above, above.len() as int) =~= Seq::empty());
        match crate::ptx::entry_of(above.subrange(at, end)) {
            Some(entry) => {
                assert(seq![entry] + Seq::<Seq<char>>::empty() + rest =~= seq![entry] + rest);
            },
            None => {},
        }
    }
}

/// The argument of a directive in the lines from a place on, up to and after an end of line.
proof fn lemma_directive_joined(
    above: Seq<char>,
    below: Seq<char>,
    directive: Seq<char>,
    at: int,
)
    requires
        0 <= at <= above.len(),
    ensures
        crate::ptx::directive_from(joined(above, below), directive, at)
            == match crate::ptx::directive_from(above, directive, at) {
            Some(argument) => Some(argument),
            None => crate::ptx::directive_from(below, directive, 0),
        },
    decreases above.len() - at,
{
    let whole = joined(above, below);
    let end = crate::ptx::place_of(above, '\n', at);
    lemma_place_above(above, below, at);
    lemma_found(above, '\n', at);
    assert(whole.subrange(at, end) =~= above.subrange(at, end));
    if end < above.len() {
        lemma_directive_joined(above, below, directive, end + 1);
    } else {
        lemma_directive_after(above + seq!['\n'], below, directive, 0);
        lemma_empty_line(directive);
        assert(above.subrange(above.len() as int, above.len() as int) =~= Seq::empty());
    }
}

/// The entry points of a text are those of all its lines, in order: those above an end of line,
/// then those below it, wherever the end of line is and whatever stands above and below it.
pub proof fn law_entries_are_those_of_all_lines_in_order(above: Seq<char>, below: Seq<char>)
    ensures
        crate::ptx::entries_from(joined(above, below), 0) == crate::ptx::entries_from(above, 0)
            + crate::ptx::entries_from(below, 0),
{
    lemma_entries_joined(above, below, 0);
}

/// A line by itself has the entry point that it declares, or none.
pub proof fn law_entries_of_a_line_are_what_it_declares(line: Seq<char>)
    requires
        !line.contains('\n'),
    ensures
        crate::ptx::entries_from(line, 0) == match crate::ptx::entry_of(line) {
            Some(entry) => seq![entry],
            None => Seq::empty(),
        },
{
    lemma_found(line, '\n', 0);
    lemma_empty_line(Seq::empty());
    if line.len() > 0 {
        assert(line.subrange(0, line.len() as int) =~= line);
        assert(crate::ptx::entries_from(line, line.len() as int + 1) =~= Seq::empty());
        match crate::ptx::entry_of(line) {
            Some(entry) => {
                assert(seq![entry] + Seq::<Seq<char>>::empty() =~= seq![entry]);
            },
            None => {},
        }
    } else {
        assert(line =~= Seq::empty());
    }
}

/// A directive's argument in a text is the one that is given above an end of line, and where none
/// is given there, the one that is given below it, wherever the end of line is.
pub proof fn law_directives_are_looked_for_in_all_lines(
    above: Seq<char>,
    below: Seq<char>,
    directive: Seq<char>,
)
    ensures
        crate::ptx::directive_from(joined(above, below), directive, 0)
            == match crate::ptx::directive_from(above, directive, 0) {
            Some(argument) => Some(argument),
            None => crate::ptx::directive_from(below, directive, 0),
        },
{
    lemma_directive_joined(above, below, directive, 0);
}

/// In a line by itself a directive's argument is the one that the line gives.
pub proof fn law_directive_of_a_line_is_what_it_gives(line: Seq<char>, directive: Seq<char>)
    requires
        !line.contains('\n'),
    ensures
        crate::ptx::directive_from(line, directive, 0) == crate::ptx::directive_of(
            line,
            directive,
        ),
{
    lemma_found(line, '\n', 0);
    lemma_empty_line(directive);
    if line.len() > 0 {
        assert(line.subrange(0, line.len() as int) =~= line);
        assert(crate::ptx::directive_from(line, directive, line.len() as int + 1) is None);
    } else {
        assert(line =~= Seq::empty());
    }
}

/// Whether a line has the form of a declaration: perhaps white space, `.visible .entry ` or
/// `.entry `, perhaps white space, the name, perhaps white space, an opening bracket, and anything.
pub open spec fn declaration(
    line: Seq<char>,
    lead: Seq<char>,
    mark: Seq<char>,
    left: Seq<char>,
    name: Seq<char>,
    right: Seq<char>,
    tail: Seq<char>,
) -> bool {
    &&& all_white(lead) && all_white(left) && all_white(right)
    &&& mark == ".visible .entry "@ || mark == ".entry "@
    &&& name.len() > 0
    &&& tight(name)
    &&& !name.contains('(')
    &&& line == lead + mark + left + name + right + seq!['('] + tail
}

/// A line that has the form of a declaration declares the name in it.
pub proof fn law_declarations_declare_their_name(
    line: Seq<char>,
    lead: Seq<char>,
    mark: Seq<char>,
    left: Seq<char>,
    name: Seq<char>,
    right: Seq<char>,
    tail: Seq<char>,
)
    requires
        declaration(line, lead, mark, left, name, right, tail),
    ensures
        crate::ptx::entry_of(line) == Some(name),
{
    reveal_strlit(".visible .entry ");
    reveal_strlit(".entry ");
    let head = mark + left + name + right + seq!['('];
    let kept = crate::ptx::trimmed_end(tail);
    assert(line =~= lead + (head + tail));
    assert(head[0] == '.');
    assert((head + tail)[0] == '.');
    lemma_trimmed_start(lead, head + tail);
    assert(head.last() == '(');
    lemma_trimmed_end(head, tail);
    let text = head + kept;
    assert(crate::ptx::trimmed(line) == text);
    let rest = left + name + right + seq!['('] + kept;
    assert(text.take(mark.len() as int) =~= mark);
    assert(text.skip(mark.len() as int) =~= rest);
    if mark != ".visible .entry "@ {
        assert(text[1] == 'e');
        assert(text.take(".visible .entry "@.len() as int)[1] == 'e' || text.len()
            < ".visible .entry "@.len());
    }
    let body = left + name + right;
    let bracket = crate::ptx::place_of(rest, '(', 0);
    lemma_found(rest, '(', 0);
    assert(rest[body.len() as int] == '(');
    assert forall|k: int| 0 <= k < body.len() implies rest[k] != '(' by {
        assert(rest[k] == body[k]);
        if k < left.len() {
            assert(crate::ptx::is_white(left[k]));
        } else if k < left.len() + name.len() {
            assert(body[k] == name[k - left.len()]);
        } else {
            assert(body[k] == right[k - left.len() - name.len()]);
            assert(crate::ptx::is_white(right[k - left.len() - name.len()]));
        }
    }
    assert(bracket == body.len());
    assert(rest.take(bracket) =~= body);
    law_trimmed_texts_with_white_space_around_are_trimmed_to_themselves(left, name, right);
}

/// A line that declares a name has the form of a declaration of that name.
#[verifier::spinoff_prover]
#[verifier::rlimit(50)]
pub proof fn law_what_declares_a_name_is_a_declaration(line: Seq<char>)
    requires
        crate::ptx::entry_of(line) is Some,
    ensures
        exists|lead: Seq<char>, mark: Seq<char>, left: Seq<char>, right: Seq<char>, tail: Seq<char>|
            declaration(
                line,
                lead,
                mark,
                left,
                crate::ptx::entry_of(line)->0,
                right,
                tail,
            ),
{
    let text = crate::ptx::trimmed(line);
    let (lead, end) = law_trimming_leaves_out_the_white_space_at_both_ends(line);
    let mark = if crate::ptx::after_prefix(text, ".visible .entry "@) is Some {
        ".visible .entry "@
    } else {
        ".entry "@
    };
    let rest = text.skip(mark.len() as int);
    assert(crate::ptx::after_prefix(text, mark) == Some(rest));
    let bracket = crate::ptx::place_of(rest, '(', 0);
    lemma_found(rest, '(', 0);
    let body = rest.take(bracket);
    let name = crate::ptx::trimmed(body);
    let (left, right) = law_trimming_leaves_out_the_white_space_at_both_ends(body);
    let tail = rest.skip(bracket + 1) + end;
    assert(crate::ptx::entry_of(line) == Some(name));
    assert(text =~= mark + rest);
    assert(rest =~= body + seq!['('] + rest.skip(bracket + 1));
    assert(line =~= lead + mark + left + name + right + seq!['('] + tail);
    assert forall|k: int| 0 <= k < name.len() implies name[k] != '(' by {
        assert(body[left.len() + k] == name[k]);
        assert(rest[left.len() + k] == body[left.len() + k]);
    }
    assert(declaration(line, lead, mark, left, crate::ptx::entry_of(line)->0, right, tail));
}

/// Whether a line has the form of a directive with an argument: perhaps white space, the
/// directive, perhaps white space, the argument, and nothing or white space and anything.
pub open spec fn direction(
    line: Seq<char>,
    lead: Seq<char>,
    directive: Seq<char>,
    gap: Seq<char>,
    argument: Seq<char>,
    tail: Seq<char>,
) -> bool {
    &&& all_white(lead) && all_white(gap)
    &&& argument.len() > 0
    &&& no_white(argument)
    &&& tail.len() > 0 ==> crate::ptx::is_white(tail[0])
    &&& line == lead + directive + gap + argument + tail
}

/// A line that has the form of a directive with an argument gives that argument.
pub proof fn law_directions_give_their_argument(
    line: Seq<char>,
    lead: Seq<char>,
    directive: Seq<char>,
    gap: Seq<char>,
    argument: Seq<char>,
    tail: Seq<char>,
)
    requires
        directive.len() > 0,
        !crate::ptx::is_white(directive[0]),
        direction(line, lead, directive, gap, argument, tail),
    ensures
        crate::ptx::directive_of(line, directive) == Some(argument),
{
    let head = directive + gap + argument;
    let kept = crate::ptx::trimmed_end(tail);
    let text = head + kept;
    assert(line =~= lead + (head + tail));
    assert((head + tail)[0] == directive[0]);
    lemma_trimmed_start(lead, head + tail);
    assert(!crate::ptx::is_white(argument[argument.len() - 1]));
    assert(head.last() == argument[argument.len() - 1]);
    lemma_trimmed_end(head, tail);
    assert(crate::ptx::trimmed(line) == text);
    assert(text.take(directive.len() as int) =~= directive);
    let rest = text.skip(directive.len() as int);
    let word = argument + kept;
    assert(rest =~= gap + word);
    assert(word[0] == argument[0]);
    assert(!crate::ptx::is_white(argument[0]));
    lemma_trimmed_start(gap, word);
    lemma_trimmed_end(argument, kept);
    let more = lemma_end_split(tail);
    assert(crate::ptx::trimmed_end(kept) == kept);
    assert(crate::ptx::trimmed(rest) == word);
    let place = crate::ptx::white_place(word, 0);
    lemma_white_found(word, 0);
    assert forall|k: int| 0 <= k < argument.len() implies !crate::ptx::is_white(word[k]) by {
        assert(word[k] == argument[k]);
    }
    if kept.len() > 0 {
        assert(word[argument.len() as int] == kept[0]);
        assert(tail[0] == kept[0]);
    }
    assert(place == argument.len());
    assert(word.take(place) =~= argument);
}

/// A line that gives an argument to a directive has the form of that directive with that argument.
pub proof fn law_what_gives_an_argument_is_a_direction(line: Seq<char>, directive: Seq<char>)
    requires
        crate::ptx::directive_of(line, directive) is Some,
    ensures
        exists|lead: Seq<char>, gap: Seq<char>, tail: Seq<char>|
            direction(
                line,
                lead,
                directive,
                gap,
                crate::ptx::directive_of(line, directive)->0,
                tail,
            ),
{
    let text = crate::ptx::trimmed(line);
    let (lead, end) = law_trimming_leaves_out_the_white_space_at_both_ends(line);
    let rest = text.skip(directive.len() as int);
    let word = crate::ptx::trimmed(rest);
    let (gap, after) = law_trimming_leaves_out_the_white_space_at_both_ends(rest);
    let place = crate::ptx::white_place(word, 0);
    lemma_white_found(word, 0);
    let argument = word.take(place);
    let tail = word.skip(place) + after + end;
    assert(crate::ptx::directive_of(line, directive) == Some(argument));
    assert(text =~= directive + rest);
    assert(line =~= lead + directive + gap + argument + tail);
    if tail.len() > 0 {
        if place < word.len() {
            assert(tail[0] == word[place]);
        } else if after.len() > 0 {
            assert(tail[0] == after[0]);
        } else {
            assert(tail[0] == end[0]);
        }
    }
    assert(direction(
        line,
        lead,
        directive,
        gap,
        crate::ptx::directive_of(line, directive)->0,
        tail,
    ));
}

/// Leading zeros and a plus sign do not change the number that digits write.
pub proof fn law_leading_zeros_and_a_plus_sign_do_not_matter(digits: Seq<char>)
    requires
        digits.len() > 0,
        crate::ptx::all_digits(digits),
    ensures
        crate::ptx::number_in(seq!['0'] + digits) == crate::ptx::number_in(digits),
        crate::ptx::number_in(seq!['+'] + digits) == crate::ptx::number_in(digits),
{
    assert(crate::ptx::is_digit(digits[0]));
    let longer = seq!['0'] + digits;
    lemma_zero(digits);
    assert forall|k: int| 0 <= k < longer.len() implies crate::ptx::is_digit(
        #[trigger] longer[k],
    ) by {
        if k > 0 {
            assert(longer[k] == digits[k - 1]);
        }
    }
    assert((seq!['+'] + digits).skip(1) =~= digits);
}

/// A zero before digits adds nothing.
proof fn lemma_zero(digits: Seq<char>)
    ensures
        crate::ptx::digits_value(seq!['0'] + digits) == crate::ptx::digits_value(digits),
    decreases digits.len(),
{
    let longer = seq!['0'] + digits;
    if digits.len() > 0 {
        assert(longer.drop_last() =~= seq!['0'] + digits.drop_last());
        lemma_zero(digits.drop_last());
    } else {
        assert(longer.drop_last() =~= Seq::empty());
        reveal_with_fuel(crate::ptx::digits_value, 2);
    }
}

/// A text writes a number only where it is digits, perhaps after a plus sign, and only one that
/// fits into 32 bits.
pub proof fn law_only_digits_write_numbers(text: Seq<char>)
    ensures
        crate::ptx::number_in(text) is Some <==> {
            ||| {
                &&& text.len() > 0
                &&& crate::ptx::all_digits(text)
                &&& crate::ptx::digits_value(text) < 0x1_0000_0000
            }
            ||| {
                &&& text.len() > 1
                &&& text[0] == '+'
                &&& crate::ptx::all_digits(text.skip(1))
                &&& crate::ptx::digits_value(text.skip(1)) < 0x1_0000_0000
            }
        },
{
    if text.len() > 0 && text[0] == '+' {
        assert(!crate::ptx::is_digit(text[0]));
    }
}

/// A target is read only where it begins with `sm_`, perhaps with white space around it, and as
/// the number behind that.
pub proof fn law_targets_are_numbers_after_their_prefix(
    lead: Seq<char>,
    text: Seq<char>,
    tail: Seq<char>,
)
    requires
        all_white(lead),
        all_white(tail),
        tight(text),
    ensures
        crate::ptx::target_in(lead + text + tail) == if text.len() >= 3 && text[0] == 's' && text[1]
            == 'm' && text[2] == '_' {
            crate::ptx::number_in(text.skip(3))
        } else {
            None
        },
{
    law_trimmed_texts_with_white_space_around_are_trimmed_to_themselves(lead, text, tail);
    reveal_strlit("sm_");
    if text.len() >= 3 {
        if text[0] == 's' && text[1] == 'm' && text[2] == '_' {
            assert(text.take(3) =~= "sm_"@);
        } else {
            assert(text.take(3)[0] == text[0] && text.take(3)[1] == text[1] && text.take(3)[2]
                == text[2]);
        }
    }
}

/// What is wrong with a file is what is found first: a name without a stem, then a text that
/// cannot be read, then the address size, then the target, then that there are no entry points,
/// then the first one that is declared again.
pub proof fn law_the_first_flaw_is_reported(file: Found)
    ensures
        crate::ptx::judged(file) == Err::<Seq<Seq<char>>, Flaw>(Flaw::Stem) <==> file.stem.len()
            == 0,
        forall|reason: Seq<char>| #[trigger]
            flawed(file, Flaw::Unreadable(reason)) <==> file.stem.len() > 0 && file.content
                == Err::<Seq<char>, Seq<char>>(reason),
        file.content matches Ok(text) ==> {
            let size = crate::ptx::directive_from(text, ".address_size"@, 0);
            let target = crate::ptx::directive_from(text, ".target"@, 0);
            let named = file.stem.len() > 0;
            let wide = size == Some("64"@);
            let recent = target is Some && crate::ptx::target_in(target->0) is Some
                && crate::ptx::target_in(target->0)->0 >= 70;
            let entries = crate::ptx::entries_from(text, 0);
            &&& forall|found: Seq<char>| #[trigger]
                flawed(file, Flaw::AddressSize(found)) <==> {
                    &&& named && !wide
                    &&& found == if size is Some {
                        size->0
                    } else {
                        Seq::empty()
                    }
                }
            &&& forall|found: Seq<char>| #[trigger]
                flawed(file, Flaw::Target(found)) <==> {
                    &&& named && wide && !recent
                    &&& found == if target is Some {
                        target->0
                    } else {
                        Seq::empty()
                    }
                }
            &&& flawed(file, Flaw::NoEntries) <==> named && wide && recent && entries.len() == 0
            &&& forall|entry: Seq<char>| #[trigger]
                flawed(file, Flaw::Duplicate(entry)) <==> {
                    &&& named && wide && recent
                    &&& exists|i: int, j: int| #[trigger]
                        again(entries, i, j) && entries[j] == entry && forall|a: int, b: int|
                            0 <= a < b < j ==> entries[a] != entries[b]
                }
        },
{
    reveal_strlit("64");
    reveal_strlit("sm_");
    let nothing = Seq::<char>::empty();
    assert(crate::ptx::trimmed(nothing) == nothing);
    assert(crate::ptx::target_in(nothing) is None);
    match file.content {
        Ok(text) => {
            let entries = crate::ptx::entries_from(text, 0);
            crate::ptx::law_first_duplicate_is_the_first(entries, 0);
            let first = crate::ptx::first_duplicate(entries, 0);
            if first < entries.len() {
                let i = choose|i: int| 0 <= i < first && #[trigger] entries[i] == entries[first];
                assert(again(entries, i, first));
            }
            assert forall|entry: Seq<char>, i: int, j: int| #[trigger]
                again(entries, i, j) && entries[j] == #[trigger] same(entry) && (forall|a: int, b: int|
                    0 <= a < b < j ==> entries[a] != entries[b]) implies first == j by {
                if first < j {
                    let l = choose|l: int| 0 <= l < first && #[trigger] entries[l]
                        == entries[first];
                    assert(entries[l] != entries[first]);
                }
            }
        },
        Err(_) => {},
    }
}

/// The text itself.
spec fn same(text: Seq<char>) -> Seq<char> {
    text
}

/// Whether a file is found to have a flaw.
pub open spec fn flawed(file: Found, flaw: Flaw) -> bool {
    crate::ptx::judged(file) == Err::<Seq<Seq<char>>, Flaw>(flaw)
}

/// Whether a text in a list stands in it again at a later place.
pub open spec fn again(texts: Seq<Seq<char>>, early: int, late: int) -> bool {
    0 <= early < late < texts.len() && texts[early] == texts[late]
}

/// A path is that of a PTX file exactly when its name, what follows the last separator, is
/// something followed by `.ptx`.
pub proof fn law_ptx_paths_end_in_a_name_with_the_extension(front: Seq<char>, name: Seq<char>)
    requires
        front.len() == 0 || front.last() == '/',
        !name.contains('/'),
    ensures
        crate::ptx::is_ptx(front + name) <==> exists|stem: Seq<char>|
            stem.len() > 0 && name == #[trigger] (stem + ".ptx"@),
{
    let path = front + name;
    reveal_strlit(".ptx");
    lemma_name_start(front, name);
    assert(path.skip(front.len() as int) =~= name);
    if crate::ptx::is_ptx(path) {
        let stem = name.take(name.len() - 4);
        assert(name =~= stem + name.skip(name.len() - 4));
        assert(name == stem + ".ptx"@);
    }
    if exists|stem: Seq<char>| stem.len() > 0 && name == #[trigger] (stem + ".ptx"@) {
        let stem = choose|stem: Seq<char>| stem.len() > 0 && name == #[trigger] (stem + ".ptx"@);
        assert(name.skip(name.len() - 4) =~= ".ptx"@);
    }
}

/// A name starts after the last separator.
proof fn lemma_name_start(front: Seq<char>, name: Seq<char>)
    requires
        front.len() == 0 || front.last() == '/',
        !name.contains('/'),
    ensures
        crate::ptx::name_start(front + name) == front.len(),
    decreases name.len(),
{
    let path = front + name;
    if name.len() > 0 {
        assert(name[name.len() - 1] != '/');
        assert(path.last() == name[name.len() - 1]);
        assert(path.drop_last() =~= front + name.drop_last());
        assert forall|k: int| 0 <= k < name.drop_last().len() implies name.drop_last()[k]
            != '/' by {
            assert(name[k] != '/');
        }
        lemma_name_start(front, name.drop_last());
    } else {
        assert(path =~= front);
    }
}

} // verus!
