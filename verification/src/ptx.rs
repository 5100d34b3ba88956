//! What the toolchain tests read in PTX files: directives, targets and entry points.

use vstd::prelude::*;
use vstd::string::*;
use crate::render::spell;

verus! {

/// Whether a character is white space.
pub open spec fn is_white(c: char) -> bool {
    ||| '\u{9}' <= c <= '\u{d}'
    ||| c == '\u{20}'
    ||| c == '\u{85}'
    ||| c == '\u{a0}'
    ||| c == '\u{1680}'
    ||| '\u{2000}' <= c <= '\u{200a}'
    ||| c == '\u{2028}'
    ||| c == '\u{2029}'
    ||| c == '\u{202f}'
    ||| c == '\u{205f}'
    ||| c == '\u{3000}'
}

/// Whether a character is white space.
fn white(c: char) -> (result: bool)
    ensures
        result == is_white(c),
{
    ('\u{9}' <= c && c <= '\u{d}') || c == '\u{20}' || c == '\u{85}' || c == '\u{a0}' || c
        == '\u{1680}' || ('\u{2000}' <= c && c <= '\u{200a}') || c == '\u{2028}' || c == '\u{2029}'
        || c == '\u{202f}' || c == '\u{205f}' || c == '\u{3000}'
}

/// A text without the white space at its start.
pub open spec fn trimmed_start(text: Seq<char>) -> Seq<char>
    decreases text.len(),
{
    if text.len() > 0 && is_white(text[0]) {
        trimmed_start(text.skip(1))
    } else {
        text
    }
}

/// A text without the white space at its end.
pub open spec fn trimmed_end(text: Seq<char>) -> Seq<char>
    decreases text.len(),
{
    if text.len() > 0 && is_white(text.last()) {
        trimmed_end(text.drop_last())
    } else {
        text
    }
}

/// A text without the white space at both ends.
pub open spec fn trimmed(text: Seq<char>) -> Seq<char> {
    trimmed_end(trimmed_start(text))
}

/// The first place at or after `at` where a text holds `c`; its length where there is none.
pub open spec fn place_of(text: Seq<char>, c: char, at: int) -> int
    decreases text.len() - at,
{
    if at >= text.len() {
        text.len() as int
    } else if text[at] == c {
        at
    } else {
        place_of(text, c, at + 1)
    }
}

/// The first place at or after `at` where a text holds white space; its length where there is
/// none.
pub open spec fn white_place(text: Seq<char>, at: int) -> int
    decreases text.len() - at,
{
    if at >= text.len() {
        text.len() as int
    } else if is_white(text[at]) {
        at
    } else {
        white_place(text, at + 1)
    }
}

/// The rest of a text after a prefix.
pub open spec fn after_prefix(text: Seq<char>, prefix: Seq<char>) -> Option<Seq<char>> {
    if prefix.len() <= text.len() && text.take(prefix.len() as int) == prefix {
        Some(text.skip(prefix.len() as int))
    } else {
        None
    }
}

/// The argument that a line gives to a directive: the first word after it, if there is one.
pub open spec fn directive_of(line: Seq<char>, directive: Seq<char>) -> Option<Seq<char>> {
    match after_prefix(trimmed(line), directive) {
        Some(rest) => {
            let rest = trimmed(rest);
            if rest.len() == 0 {
                None
            } else {
                Some(rest.take(white_place(rest, 0)))
            }
        },
        None => None,
    }
}

/// The argument of a directive in the lines of a text from place `at` on: that of the first line
/// that gives one.
pub open spec fn directive_from(text: Seq<char>, directive: Seq<char>, at: int) -> Option<Seq<char>>
    decreases
        if at < text.len() {
            text.len() - at
        } else {
            0
        },
{
    if at < 0 || at >= text.len() {
        None
    } else {
        let end = place_of(text, '\n', at);
        match directive_of(text.subrange(at, end), directive) {
            Some(argument) => Some(argument),
            None => if end >= at {
                directive_from(text, directive, end + 1)
            } else {
                None
            },
        }
    }
}

/// The entry point that a line declares.
pub open spec fn entry_of(line: Seq<char>) -> Option<Seq<char>> {
    let line = trimmed(line);
    let rest = match after_prefix(line, ".visible .entry "@) {
        Some(rest) => Some(rest),
        None => after_prefix(line, ".entry "@),
    };
    match rest {
        Some(rest) => {
            let bracket = place_of(rest, '(', 0);
            if bracket < rest.len() && trimmed(rest.take(bracket)).len() > 0 {
                Some(trimmed(rest.take(bracket)))
            } else {
                None
            }
        },
        None => None,
    }
}

/// The entry points that the lines of a text from place `at` on declare, in order.
pub open spec fn entries_from(text: Seq<char>, at: int) -> Seq<Seq<char>>
    decreases
        if at < text.len() {
            text.len() - at
        } else {
            0
        },
{
    if at < 0 || at >= text.len() {
        Seq::empty()
    } else {
        let end = place_of(text, '\n', at);
        let rest = if end >= at {
            entries_from(text, end + 1)
        } else {
            Seq::empty()
        };
        match entry_of(text.subrange(at, end)) {
            Some(entry) => seq![entry] + rest,
            None => rest,
        }
    }
}

/// Whether a character is a decimal digit.
pub open spec fn is_digit(c: char) -> bool {
    '0' <= c <= '9'
}

/// The number that a row of digits writes.
pub open spec fn digits_value(digits: Seq<char>) -> int
    decreases digits.len(),
{
    if digits.len() == 0 {
        0
    } else {
        digits_value(digits.drop_last()) * 10 + (digits.last() as int - '0' as int)
    }
}

/// Whether a text is made of digits.
pub open spec fn all_digits(text: Seq<char>) -> bool {
    forall|k: int| 0 <= k < text.len() ==> is_digit(#[trigger] text[k])
}

/// The number of 32 bits that a row of digits writes.
pub open spec fn written(digits: Seq<char>) -> Option<u32> {
    if digits.len() > 0 && all_digits(digits) && digits_value(digits) <= u32::MAX {
        Some(digits_value(digits) as u32)
    } else {
        None
    }
}

/// The number of 32 bits that a text writes: digits, and perhaps a plus sign before them.
pub open spec fn number_in(text: Seq<char>) -> Option<u32> {
    if text.len() > 0 && text[0] == '+' {
        written(text.skip(1))
    } else {
        written(text)
    }
}

/// The architecture number of a target such as `sm_70`.
pub open spec fn target_in(text: Seq<char>) -> Option<u32> {
    match after_prefix(trimmed(text), "sm_"@) {
        Some(rest) => number_in(rest),
        None => None,
    }
}

/// Skips the white space from place `from` on, up to place `to`.
fn skip_white(text: &Vec<char>, from: usize, to: usize) -> (place: usize)
    requires
        from <= to <= text.len(),
    ensures
        from <= place <= to,
        trimmed_start(text@.subrange(from as int, to as int)) == text@.subrange(
            place as int,
            to as int,
        ),
{
    let mut place: usize = from;
    while place < to && white(text[place])
        invariant
            from <= place <= to <= text.len(),
            trimmed_start(text@.subrange(from as int, to as int)) == trimmed_start(
                text@.subrange(place as int, to as int),
            ),
        decreases to - place,
    {
        assert(text@.subrange(place as int, to as int).skip(1) =~= text@.subrange(
            place + 1,
            to as int,
        ));
        place = place + 1;
    }
    place
}

/// Drops the white space before place `to`, down to place `from`.
fn drop_white(text: &Vec<char>, from: usize, to: usize) -> (place: usize)
    requires
        from <= to <= text.len(),
    ensures
        from <= place <= to,
        trimmed_end(text@.subrange(from as int, to as int)) == text@.subrange(
            from as int,
            place as int,
        ),
{
    let mut place: usize = to;
    while place > from && white(text[place - 1])
        invariant
            from <= place <= to <= text.len(),
            trimmed_end(text@.subrange(from as int, to as int)) == trimmed_end(
                text@.subrange(from as int, place as int),
            ),
        decreases place - from,
    {
        assert(text@.subrange(from as int, place as int).drop_last() =~= text@.subrange(
            from as int,
            place - 1,
        ));
        place = place - 1;
    }
    place
}

/// Leaves out the white space at both ends of the places from `from` up to `to`.
fn trim(text: &Vec<char>, from: usize, to: usize) -> (places: (usize, usize))
    requires
        from <= to <= text.len(),
    ensures
        from <= places.0 <= places.1 <= to,
        trimmed(text@.subrange(from as int, to as int)) == text@.subrange(
            places.0 as int,
            places.1 as int,
        ),
{
    let start = skip_white(text, from, to);
    let end = drop_white(text, start, to);
    (start, end)
}

/// Finds the first place from `from` on, up to `to`, that holds `c`; `to` where there is none.
fn find_char(text: &Vec<char>, c: char, from: usize, to: usize) -> (place: usize)
    requires
        from <= to <= text.len(),
    ensures
        from <= place <= to,
        place - from == place_of(text@.subrange(from as int, to as int), c, 0),
        forall|k: int| from <= k < place ==> text@[k] != c,
        place < to ==> text@[place as int] == c,
{
    let mut place: usize = from;
    let ghost part = text@.subrange(from as int, to as int);
    while place < to && text[place] != c
        invariant
            from <= place <= to <= text.len(),
            part == text@.subrange(from as int, to as int),
            place_of(part, c, 0) == place_of(part, c, place - from),
            forall|k: int| from <= k < place ==> text@[k] != c,
        decreases to - place,
    {
        place = place + 1;
    }
    place
}

/// The place of a character does not depend on how a text goes on before it is looked for.
proof fn lemma_place_of(text: Seq<char>, c: char, at: int, place: int)
    requires
        0 <= at <= place <= text.len(),
        forall|k: int| at <= k < place ==> text[k] != c,
        place < text.len() ==> text[place] == c,
    ensures
        place_of(text, c, at) == place,
    decreases place - at,
{
    if at < place {
        lemma_place_of(text, c, at + 1, place);
    }
}

/// Finds the first white space from `from` on, up to `to`; `to` where there is none.
fn find_white(text: &Vec<char>, from: usize, to: usize) -> (place: usize)
    requires
        from <= to <= text.len(),
    ensures
        from <= place <= to,
        place - from == white_place(text@.subrange(from as int, to as int), 0),
{
    let mut place: usize = from;
    let ghost part = text@.subrange(from as int, to as int);
    while place < to && !white(text[place])
        invariant
            from <= place <= to <= text.len(),
            part == text@.subrange(from as int, to as int),
            white_place(part, 0) == white_place(part, place - from),
        decreases to - place,
    {
        place = place + 1;
    }
    place
}

/// Whether the places from `from` up to `to` begin with a prefix.
fn begins(text: &Vec<char>, from: usize, to: usize, prefix: &Vec<char>) -> (result: bool)
    requires
        from <= to <= text.len(),
    ensures
        result == (after_prefix(text@.subrange(from as int, to as int), prefix@) is Some),
        result ==> from + prefix.len() <= to && after_prefix(
            text@.subrange(from as int, to as int),
            prefix@,
        ) == Some(text@.subrange(from + prefix.len(), to as int)),
{
    let ghost part = text@.subrange(from as int, to as int);
    if prefix.len() > to - from {
        return false;
    }
    let mut k: usize = 0;
    while k < prefix.len()
        invariant
            k <= prefix.len() <= to - from,
            from <= to <= text.len(),
            part == text@.subrange(from as int, to as int),
            part.take(k as int) =~= prefix@.take(k as int),
        decreases prefix.len() - k,
    {
        if text[from + k] != prefix[k] {
            assert(part.take(prefix.len() as int)[k as int] != prefix@[k as int]);
            return false;
        }
        assert(part.take(k + 1) =~= part.take(k as int).push(part[k as int]));
        assert(prefix@.take(k + 1) =~= prefix@.take(k as int).push(prefix@[k as int]));
        k = k + 1;
    }
    assert(prefix@.take(prefix.len() as int) =~= prefix@);
    assert(part.skip(prefix.len() as int) =~= text@.subrange(from + prefix.len(), to as int));
    true
}

/// Reads the argument that the line from `from` up to `to` gives to a directive.
fn read_directive(text: &Vec<char>, from: usize, to: usize, directive: &Vec<char>) -> (places:
    Option<(usize, usize)>)
    requires
        from <= to <= text.len(),
    ensures
        match places {
            Some(places) => from <= places.0 <= places.1 <= to && directive_of(
                text@.subrange(from as int, to as int),
                directive@,
            ) == Some(text@.subrange(places.0 as int, places.1 as int)),
            None => directive_of(text@.subrange(from as int, to as int), directive@) is None,
        },
{
    let (start, end) = trim(text, from, to);
    if !begins(text, start, end, directive) {
        return None;
    }
    let (start, end) = trim(text, start + directive.len(), end);
    if start == end {
        return None;
    }
    let stop = find_white(text, start, end);
    assert(text@.subrange(start as int, end as int).take(stop - start) =~= text@.subrange(
        start as int,
        stop as int,
    ));
    Some((start, stop))
}

/// Finds the argument of a directive: the first word after it on the first line that has one.
pub fn extract_ptx_directive(ptx: &str, directive: &str) -> (argument: Option<String>)
    ensures
        match argument {
            Some(argument) => directive_from(ptx@, directive@, 0) == Some(argument@),
            None => directive_from(ptx@, directive@, 0) is None,
        },
{
    let text = spell(ptx);
    let sought = spell(directive);
    let mut at: usize = 0;
    while at < text.len()
        invariant
            text@ == ptx@,
            sought@ == directive@,
            at <= text.len(),
            directive_from(ptx@, directive@, 0) == directive_from(ptx@, directive@, at as int),
        decreases text.len() - at,
    {
        let end = find_char(&text, '\n', at, text.len());
        proof {
            lemma_place_of(text@, '\n', at as int, end as int);
        }
        match read_directive(&text, at, end, &sought) {
            Some((start, stop)) => {
                return Some(ptx.substring_char(start, stop).to_owned());
            },
            None => {},
        }
        if end == text.len() {
            assert(directive_from(ptx@, directive@, end + 1) is None);
            return None;
        }
        at = end + 1;
    }
    None
}

/// Reads the entry point that the line from `from` up to `to` declares.
fn read_entry(
    text: &Vec<char>,
    from: usize,
    to: usize,
    visible: &Vec<char>,
    plain: &Vec<char>,
) -> (places: Option<(usize, usize)>)
    requires
        from <= to <= text.len(),
        visible@ == ".visible .entry "@,
        plain@ == ".entry "@,
    ensures
        match places {
            Some(places) => from <= places.0 <= places.1 <= to && entry_of(
                text@.subrange(from as int, to as int),
            ) == Some(text@.subrange(places.0 as int, places.1 as int)),
            None => entry_of(text@.subrange(from as int, to as int)) is None,
        },
{
    let (start, end) = trim(text, from, to);
    let begin: usize = if begins(text, start, end, visible) {
        start + visible.len()
    } else if begins(text, start, end, plain) {
        start + plain.len()
    } else {
        return None;
    };
    let bracket = find_char(text, '(', begin, end);
    if bracket == end {
        return None;
    }
    assert(text@.subrange(begin as int, end as int).take(bracket - begin) =~= text@.subrange(
        begin as int,
        bracket as int,
    ));
    let (start, stop) = trim(text, begin, bracket);
    if start == stop {
        None
    } else {
        Some((start, stop))
    }
}

/// Lists the entry points that a text declares, in order.
pub fn extract_entry_names(ptx: &str) -> (entries: Vec<String>)
    ensures
        crate::memory::texts_in(entries@) == entries_from(ptx@, 0),
{
    let text = spell(ptx);
    let visible = spell(".visible .entry ");
    let plain = spell(".entry ");
    let mut entries: Vec<String> = Vec::new();
    let mut at: usize = 0;
    while at < text.len()
        invariant
            text@ == ptx@,
            visible@ == ".visible .entry "@,
            plain@ == ".entry "@,
            at <= text.len(),
            entries_from(ptx@, 0) == crate::memory::texts_in(entries@) + entries_from(
                ptx@,
                at as int,
            ),
        decreases text.len() - at,
    {
        let end = find_char(&text, '\n', at, text.len());
        proof {
            lemma_place_of(text@, '\n', at as int, end as int);
        }
        let ghost before = crate::memory::texts_in(entries@);
        let ghost rest = entries_from(ptx@, end + 1);
        match read_entry(&text, at, end, &visible, &plain) {
            Some((start, stop)) => {
                let entry = ptx.substring_char(start, stop).to_owned();
                entries.push(entry);
                proof {
                    assert(crate::memory::texts_in(entries@) =~= before.push(entry@));
                    assert(before + (seq![entry@] + rest) =~= before.push(entry@) + rest);
                }
            },
            None => {},
        }
        if end == text.len() {
            assert(rest =~= Seq::empty());
            assert(crate::memory::texts_in(entries@) + rest =~= crate::memory::texts_in(entries@));
            return entries;
        }
        at = end + 1;
    }
    assert(crate::memory::texts_in(entries@) + Seq::<Seq<char>>::empty()
        =~= crate::memory::texts_in(entries@));
    entries
}

/// A longer row of digits writes no smaller a number.
proof fn lemma_digits_grow(digits: Seq<char>, short: int)
    requires
        all_digits(digits),
        0 <= short <= digits.len(),
    ensures
        0 <= digits_value(digits.take(short)) <= digits_value(digits),
    decreases digits.len(),
{
    if short == digits.len() {
        assert(digits.take(short) =~= digits);
        if digits.len() > 0 {
            assert(all_digits(digits.drop_last()));
            lemma_digits_grow(digits.drop_last(), short - 1);
        }
    } else {
        assert(all_digits(digits.drop_last()));
        lemma_digits_grow(digits.drop_last(), short);
        assert(digits.drop_last().take(short) =~= digits.take(short));
    }
}

/// The value of a decimal digit.
fn digit(c: char) -> (value: Option<u64>)
    ensures
        match value {
            Some(value) => is_digit(c) && value == c as int - '0' as int && value < 10,
            None => !is_digit(c),
        },
{
    if '0' <= c && c <= '9' {
        Some(c as u64 - '0' as u64)
    } else {
        None
    }
}

/// Reads the number that the places from `from` up to `to` write.
fn read_number(text: &Vec<char>, from: usize, to: usize) -> (number: Option<u32>)
    requires
        from <= to <= text.len(),
    ensures
        number == number_in(text@.subrange(from as int, to as int)),
{
    let ghost whole = text@.subrange(from as int, to as int);
    let start: usize = if from < to && text[from] == '+' {
        from + 1
    } else {
        from
    };
    let ghost digits = text@.subrange(start as int, to as int);
    assert(from < start ==> whole.skip(1) =~= digits);
    assert(number_in(whole) == written(digits));
    if start == to {
        return None;
    }
    let mut value: u64 = 0;
    let mut at: usize = start;
    while at < to
        invariant
            start <= at <= to <= text.len(),
            number_in(text@.subrange(from as int, to as int)) == written(digits),
            digits == text@.subrange(start as int, to as int),
            all_digits(digits.take(at - start)),
            value == digits_value(digits.take(at - start)),
            value <= u32::MAX,
        decreases to - at,
    {
        let ghost next = digits.take(at - start + 1);
        assert(next.drop_last() =~= digits.take(at - start));
        assert(next.last() == text@[at as int]);
        match digit(text[at]) {
            Some(more) => {
                value = value * 10 + more;
                assert(all_digits(next)) by {
                    assert forall|k: int| 0 <= k < next.len() implies is_digit(
                        #[trigger] next[k],
                    ) by {
                        if k < at - start {
                            assert(next[k] == digits.take(at - start)[k]);
                        }
                    }
                }
                if value > u32::MAX as u64 {
                    proof {
                        if all_digits(digits) {
                            lemma_digits_grow(digits, at - start + 1);
                        }
                    }
                    return None;
                }
            },
            None => {
                assert(!is_digit(digits[at - start]));
                return None;
            },
        }
        at = at + 1;
    }
    assert(digits.take(to - start) =~= digits);
    Some(value as u32)
}

/// Reads the architecture number of a target such as `sm_70`.
pub fn parse_sm_target(target: &str) -> (number: Option<u32>)
    ensures
        number == target_in(target@),
{
    let text = spell(target);
    let prefix = spell("sm_");
    let (start, end) = trim(&text, 0, text.len());
    assert(text@.subrange(0, text@.len() as int) =~= target@);
    if begins(&text, start, end, &prefix) {
        read_number(&text, start + prefix.len(), end)
    } else {
        None
    }
}

/// A PTX file as it was found: its name, the name without extension, its path, and its text or
/// the reason why it could not be read. A name without extension that cannot be told is empty.
pub struct PtxFile {
    pub filename: String,
    pub stem: String,
    pub path: String,
    pub content: Result<String, String>,
}

/// The contents of a [`PtxFile`].
pub struct Found {
    pub filename: Seq<char>,
    pub stem: Seq<char>,
    pub path: Seq<char>,
    pub content: Result<Seq<char>, Seq<char>>,
}

impl View for PtxFile {
    type V = Found;

    open spec fn view(&self) -> Found {
        Found {
            filename: self.filename@,
            stem: self.stem@,
            path: self.path@,
            content: match self.content {
                Ok(text) => Ok(text@),
                Err(reason) => Err(reason@),
            },
        }
    }
}

/// What is wrong with a PTX file.
#[derive(Debug, PartialEq, Eq)]
pub enum Defect {
    /// Its name has nothing before the extension.
    Stem,
    /// It could not be read, with a reason.
    Unreadable(String),
    /// Its address size is not 64, but this.
    AddressSize(String),
    /// Its target is older than `sm_70`, or none.
    Target(String),
    /// It declares no entry points.
    NoEntries,
    /// It declares an entry point twice.
    Duplicate(String),
}

/// The contents of a [`Defect`].
pub enum Flaw {
    Stem,
    Unreadable(Seq<char>),
    AddressSize(Seq<char>),
    Target(Seq<char>),
    NoEntries,
    Duplicate(Seq<char>),
}

impl View for Defect {
    type V = Flaw;

    open spec fn view(&self) -> Flaw {
        match *self {
            Defect::Stem => Flaw::Stem,
            Defect::Unreadable(reason) => Flaw::Unreadable(reason@),
            Defect::AddressSize(size) => Flaw::AddressSize(size@),
            Defect::Target(target) => Flaw::Target(target@),
            Defect::NoEntries => Flaw::NoEntries,
            Defect::Duplicate(entry) => Flaw::Duplicate(entry@),
        }
    }
}

/// The argument of a directive, or nothing.
pub open spec fn argument_of(text: Seq<char>, directive: Seq<char>) -> Seq<char> {
    match directive_from(text, directive, 0) {
        Some(argument) => argument,
        None => Seq::empty(),
    }
}

/// The first place at or after `at` whose text occurs before it; the number of texts where there
/// is none.
pub open spec fn first_duplicate(texts: Seq<Seq<char>>, at: int) -> int
    decreases texts.len() - at,
{
    if at >= texts.len() {
        texts.len() as int
    } else if texts.take(at).contains(texts[at]) {
        at
    } else {
        first_duplicate(texts, at + 1)
    }
}

/// The entry points of a PTX file that is built for 64-bit addresses and for `sm_70` or later,
/// or what is wrong with it. What is looked at first comes first: the name, the text, the address
/// size, the target, the entry points, their uniqueness.
pub open spec fn judged(file: Found) -> Result<Seq<Seq<char>>, Flaw> {
    if file.stem.len() == 0 {
        Err(Flaw::Stem)
    } else {
        match file.content {
            Err(reason) => Err(Flaw::Unreadable(reason)),
            Ok(text) => {
                let size = argument_of(text, ".address_size"@);
                let target = argument_of(text, ".target"@);
                let entries = entries_from(text, 0);
                if size != "64"@ {
                    Err(Flaw::AddressSize(size))
                } else if !(target_in(target) is Some && target_in(target)->0 >= 70) {
                    Err(Flaw::Target(target))
                } else if entries.len() == 0 {
                    Err(Flaw::NoEntries)
                } else if first_duplicate(entries, 0) < entries.len() {
                    Err(Flaw::Duplicate(entries[first_duplicate(entries, 0)]))
                } else {
                    Ok(entries)
                }
            },
        }
    }
}

/// Whether two texts are equal.
fn same_text(left: &String, right: &str) -> (result: bool)
    ensures
        result == (left@ == right@),
{
    let ours = spell(left.as_str());
    let theirs = spell(right);
    if ours.len() != theirs.len() {
        return false;
    }
    let mut k: usize = 0;
    while k < ours.len()
        invariant
            ours@ == left@,
            theirs@ == right@,
            k <= ours.len() == theirs.len(),
            forall|j: int| 0 <= j < k ==> ours@[j] == theirs@[j],
        decreases ours.len() - k,
    {
        if ours[k] != theirs[k] {
            return false;
        }
        k = k + 1;
    }
    assert(ours@ =~= theirs@);
    true
}

/// Whether one of the first `reach` texts is equal to another text.
fn holds(texts: &Vec<String>, reach: usize, text: &String) -> (result: bool)
    requires
        reach <= texts.len(),
    ensures
        result == crate::memory::texts_in(texts@).take(reach as int).contains(text@),
{
    let mut k: usize = 0;
    while k < reach
        invariant
            k <= reach <= texts.len(),
            forall|j: int| 0 <= j < k ==> #[trigger] texts@[j]@ != text@,
        decreases reach - k,
    {
        if same_text(&texts[k], text.as_str()) {
            assert(crate::memory::texts_in(texts@).take(reach as int)[k as int] == text@);
            return true;
        }
        k = k + 1;
    }
    let ghost views = crate::memory::texts_in(texts@).take(reach as int);
    assert(forall|j: int| 0 <= j < reach ==> #[trigger] views[j] == texts@[j]@);
    false
}

/// Finds the first text that occurs before; the number of texts where there is none.
fn find_duplicate(texts: &Vec<String>) -> (place: usize)
    ensures
        place == first_duplicate(crate::memory::texts_in(texts@), 0),
        place <= texts.len(),
{
    let ghost views = crate::memory::texts_in(texts@);
    let mut at: usize = 0;
    while at < texts.len()
        invariant
            at <= texts.len(),
            views == crate::memory::texts_in(texts@),
            first_duplicate(views, 0) == first_duplicate(views, at as int),
        decreases texts.len() - at,
    {
        if holds(texts, at, &texts[at]) {
            return at;
        }
        at = at + 1;
    }
    at
}

/// Finds the argument of a directive, or nothing.
fn argument(text: &str, directive: &str) -> (result: String)
    ensures
        result@ == argument_of(text@, directive@),
{
    match extract_ptx_directive(text, directive) {
        Some(argument) => argument,
        None => String::new(),
    }
}

/// Judges a PTX file: its entry points, or what is wrong with it.
pub fn judge(file: &PtxFile) -> (result: Result<Vec<String>, Defect>)
    ensures
        match result {
            Ok(entries) => judged(file@) == Ok::<Seq<Seq<char>>, Flaw>(
                crate::memory::texts_in(entries@),
            ),
            Err(defect) => judged(file@) == Err::<Seq<Seq<char>>, Flaw>(defect@),
        },
{
    if spell(file.stem.as_str()).len() == 0 {
        return Err(Defect::Stem);
    }
    match &file.content {
        Err(reason) => Err(Defect::Unreadable(reason.clone())),
        Ok(text) => {
            let size = argument(text.as_str(), ".address_size");
            if !same_text(&size, "64") {
                return Err(Defect::AddressSize(size));
            }
            let target = argument(text.as_str(), ".target");
            let recent = match parse_sm_target(target.as_str()) {
                Some(number) => number >= 70,
                None => false,
            };
            if !recent {
                return Err(Defect::Target(target));
            }
            let entries = extract_entry_names(text.as_str());
            if entries.len() == 0 {
                return Err(Defect::NoEntries);
            }
            let place = find_duplicate(&entries);
            if place < entries.len() {
                return Err(Defect::Duplicate(entries[place].clone()));
            }
            Ok(entries)
        },
    }
}

/// Where the name of a file starts in its path: after the last separator.
pub open spec fn name_start(path: Seq<char>) -> int
    decreases path.len(),
{
    if path.len() == 0 {
        0
    } else if path.last() == '/' {
        path.len() as int
    } else {
        name_start(path.drop_last())
    }
}

/// Whether the path of a directory's entry is that of a PTX file: its name ends in `.ptx`, with
/// something before that.
pub open spec fn is_ptx(path: Seq<char>) -> bool {
    let name = path.skip(name_start(path));
    name.len() > 4 && name.skip(name.len() - 4) == ".ptx"@
}

/// Whether a text is equal to another one or comes before it in the order of their characters.
pub open spec fn not_after(left: Seq<char>, right: Seq<char>) -> bool
    decreases left.len(),
{
    if left.len() == 0 {
        true
    } else if right.len() == 0 {
        false
    } else if left[0] == right[0] {
        not_after(left.skip(1), right.skip(1))
    } else {
        left[0] < right[0]
    }
}

/// The order of [`not_after`].
pub open spec fn text_order() -> spec_fn(Seq<char>, Seq<char>) -> bool {
    |left: Seq<char>, right: Seq<char>| not_after(left, right)
}

/// The paths of PTX files among those of a directory's entries, in rising order.
pub open spec fn ptx_paths(paths: Seq<Seq<char>>) -> Seq<Seq<char>> {
    paths.filter(|path: Seq<char>| is_ptx(path)).sort_by(text_order())
}

/// A text is not after itself.
proof fn lemma_reflexive(text: Seq<char>)
    ensures
        not_after(text, text),
    decreases text.len(),
{
    if text.len() > 0 {
        lemma_reflexive(text.skip(1));
    }
}

/// Of two texts one is not after the other; both are only where they are equal.
proof fn lemma_connected(left: Seq<char>, right: Seq<char>)
    ensures
        not_after(left, right) || not_after(right, left),
        not_after(left, right) && not_after(right, left) ==> left == right,
    decreases left.len(),
{
    if left.len() > 0 && right.len() > 0 && left[0] == right[0] {
        lemma_connected(left.skip(1), right.skip(1));
        if left.skip(1) == right.skip(1) {
            assert(left =~= seq![left[0]] + left.skip(1));
            assert(right =~= seq![right[0]] + right.skip(1));
        }
    } else if left.len() == 0 && right.len() == 0 {
        assert(left =~= right);
    }
}

/// What is not after a text is not after any later one.
proof fn lemma_transitive(first: Seq<char>, second: Seq<char>, third: Seq<char>)
    requires
        not_after(first, second),
        not_after(second, third),
    ensures
        not_after(first, third),
    decreases first.len(),
{
    if first.len() > 0 && first[0] == second[0] && second[0] == third[0] {
        lemma_transitive(first.skip(1), second.skip(1), third.skip(1));
    }
}

/// The order of texts is total.
pub proof fn law_text_order_is_total()
    ensures
        vstd::relations::total_ordering(text_order()),
{
    let order = text_order();
    assert forall|text: Seq<char>| #[trigger] order(text, text) by {
        lemma_reflexive(text);
    }
    assert forall|left: Seq<char>, right: Seq<char>| #[trigger]
        order(left, right) || #[trigger] order(right, left) by {
        lemma_connected(left, right);
    }
    assert forall|left: Seq<char>, right: Seq<char>| #[trigger]
        order(left, right) && #[trigger] order(right, left) implies left == right by {
        lemma_connected(left, right);
    }
    assert forall|first: Seq<char>, second: Seq<char>, third: Seq<char>| #[trigger]
        order(first, second) && #[trigger] order(second, third) implies order(first, third) by {
        lemma_transitive(first, second, third);
    }
}

/// Finds where the name of a file starts in its path.
fn find_name(path: &Vec<char>) -> (start: usize)
    ensures
        start == name_start(path@),
        start <= path.len(),
{
    let mut end: usize = path.len();
    assert(path@.take(end as int) =~= path@);
    while end > 0
        invariant
            end <= path.len(),
            name_start(path@) == name_start(path@.take(end as int)),
        decreases end,
    {
        assert(path@.take(end as int).last() == path@[end - 1]);
        if path[end - 1] == '/' {
            return end;
        }
        assert(path@.take(end as int).drop_last() =~= path@.take(end - 1));
        end = end - 1;
    }
    0
}

/// Tells whether a path is that of a PTX file.
fn ends_in_ptx(path: &String) -> (result: bool)
    ensures
        result == is_ptx(path@),
{
    let text = spell(path.as_str());
    let start = find_name(&text);
    let ending = spell(".ptx");
    let ghost name = path@.skip(start as int);
    proof {
        reveal_strlit(".ptx");
    }
    if text.len() - start <= 4 {
        return false;
    }
    let found = begins(&text, text.len() - 4, text.len(), &ending);
    assert(text@.subrange(text@.len() - 4, text@.len() as int) =~= name.skip(name.len() - 4));
    assert(name.skip(name.len() - 4).take(4) =~= name.skip(name.len() - 4));
    found
}

/// Tells whether a text comes after another one.
fn comes_after(left: &String, right: &String) -> (result: bool)
    ensures
        result == !not_after(left@, right@),
{
    let ours = spell(left.as_str());
    let theirs = spell(right.as_str());
    let mut k: usize = 0;
    assert(left@.skip(0) =~= left@);
    assert(right@.skip(0) =~= right@);
    while k < ours.len() && k < theirs.len()
        invariant
            ours@ == left@,
            theirs@ == right@,
            k <= ours.len(),
            k <= theirs.len(),
            not_after(left@, right@) == not_after(left@.skip(k as int), right@.skip(k as int)),
        decreases ours.len() - k,
    {
        if ours[k] != theirs[k] {
            return theirs[k] < ours[k];
        }
        assert(left@.skip(k as int).skip(1) =~= left@.skip(k + 1));
        assert(right@.skip(k as int).skip(1) =~= right@.skip(k + 1));
        k = k + 1;
    }
    k < ours.len()
}

/// Finds the place at which a path keeps chosen paths in rising order: that of the first one that
/// comes after it.
fn find_place(chosen: &Vec<String>, path: &String) -> (place: usize)
    ensures
        place <= chosen.len(),
        forall|k: int| 0 <= k < place ==> not_after(#[trigger] chosen@[k]@, path@),
        place < chosen.len() ==> !not_after(chosen@[place as int]@, path@),
{
    let mut place: usize = 0;
    while place < chosen.len()
        invariant
            place <= chosen.len(),
            forall|k: int| 0 <= k < place ==> not_after(#[trigger] chosen@[k]@, path@),
        decreases chosen.len() - place,
    {
        if comes_after(&chosen[place], path) {
            return place;
        }
        place = place + 1;
    }
    place
}

/// A path that is put at its place keeps rising paths rising.
proof fn lemma_inserted_rises(paths: Seq<Seq<char>>, place: int, path: Seq<char>)
    requires
        0 <= place <= paths.len(),
        vstd::relations::sorted_by(paths, text_order()),
        forall|k: int| 0 <= k < place ==> not_after(#[trigger] paths[k], path),
        place < paths.len() ==> !not_after(paths[place], path),
    ensures
        vstd::relations::sorted_by(paths.insert(place, path), text_order()),
{
    let order = text_order();
    let longer = paths.insert(place, path);
    assert forall|i: int, j: int| 0 <= i < j < longer.len() implies #[trigger] order(
        longer[i],
        longer[j],
    ) by {
        if i < place && j > place {
            assert(order(paths[i], paths[j - 1]));
        } else if i > place {
            assert(order(paths[i - 1], paths[j - 1]));
        } else if j < place {
            assert(order(paths[i], paths[j]));
        } else if i == place {
            lemma_connected(path, paths[place]);
            if j - 1 > place {
                assert(order(paths[place], paths[j - 1]));
                lemma_transitive(path, paths[place], paths[j - 1]);
            }
        }
    }
}

/// Chooses the PTX files among the paths of a directory's entries, in rising order.
///
/// The entries are all of one directory, so that the order of their paths is that of their names.
pub fn choose_ptx(paths: Vec<String>) -> (chosen: Vec<String>)
    ensures
        crate::memory::texts_in(chosen@) == ptx_paths(crate::memory::texts_in(paths@)),
{
    let ghost all = crate::memory::texts_in(paths@);
    let ghost keep = |path: Seq<char>| is_ptx(path);
    let mut rest: Vec<String> = paths;
    let mut chosen: Vec<String> = Vec::new();
    proof {
        assert(crate::memory::texts_in(chosen@) =~= Seq::<Seq<char>>::empty());
        assert(all.filter(keep).to_multiset().add(
            Seq::<Seq<char>>::empty().to_multiset(),
        ) =~= all.filter(keep).to_multiset()) by {
            broadcast use vstd::seq_lib::group_to_multiset_ensures;

        }
    }
    while rest.len() > 0
        invariant
            keep == (|path: Seq<char>| is_ptx(path)),
            vstd::relations::sorted_by(crate::memory::texts_in(chosen@), text_order()),
            crate::memory::texts_in(rest@).filter(keep).to_multiset().add(
                crate::memory::texts_in(chosen@).to_multiset(),
            ) == all.filter(keep).to_multiset(),
        decreases rest.len(),
    {
        let ghost before = crate::memory::texts_in(rest@);
        let ghost had = crate::memory::texts_in(chosen@);
        match rest.pop() {
            Some(path) => {
                let ghost after = crate::memory::texts_in(rest@);
                assert(after =~= before.drop_last());
                assert(before.last() == path@);
                reveal_with_fuel(Seq::filter, 2);
                if ends_in_ptx(&path) {
                    let place = find_place(&chosen, &path);
                    let ghost text = path@;
                    assert forall|k: int| 0 <= k < place implies not_after(
                        #[trigger] had[k],
                        text,
                    ) by {
                        assert(had[k] == chosen@[k]@);
                    }
                    chosen.insert(place, path);
                    proof {
                        broadcast use vstd::seq_lib::group_to_multiset_ensures;
                        broadcast use vstd::multiset::group_multiset_axioms;

                        assert(crate::memory::texts_in(chosen@) =~= had.insert(
                            place as int,
                            text,
                        ));
                        lemma_inserted_rises(had, place as int, text);
                        vstd::seq_lib::to_multiset_insert(had, place as int, text);
                        vstd::seq_lib::to_multiset_build(after.filter(keep), text);
                        assert(after.filter(keep).to_multiset().add(
                            had.insert(place as int, text).to_multiset(),
                        ) =~= before.filter(keep).to_multiset().add(had.to_multiset()));
                    }
                }
            },
            None => {},
        }
    }
    proof {
        broadcast use vstd::multiset::group_multiset_axioms;
        broadcast use vstd::seq_lib::group_to_multiset_ensures;

        let found = crate::memory::texts_in(chosen@);
        assert(crate::memory::texts_in(rest@) =~= Seq::<Seq<char>>::empty());
        assert(found.to_multiset() =~= all.filter(keep).to_multiset());
        law_text_order_is_total();
        all.filter(keep).lemma_sort_by_ensures(text_order());
        vstd::seq_lib::lemma_sorted_unique(found, ptx_paths(all), text_order());
    }
    chosen
}

/// The chosen paths are those of PTX files, each as often as it was listed, and rise.
pub proof fn law_chosen_paths_are_the_ptx_paths_in_rising_order(paths: Seq<Seq<char>>)
    ensures
        vstd::relations::sorted_by(ptx_paths(paths), text_order()),
        ptx_paths(paths).to_multiset() == paths.filter(
            |path: Seq<char>| is_ptx(path),
        ).to_multiset(),
        forall|path: Seq<char>| #[trigger]
            ptx_paths(paths).contains(path) <==> paths.contains(path) && is_ptx(path),
{
    broadcast use vstd::multiset::group_multiset_axioms;
    broadcast use vstd::seq_lib::group_to_multiset_ensures;

    let keep = |path: Seq<char>| is_ptx(path);
    law_text_order_is_total();
    paths.filter(keep).lemma_sort_by_ensures(text_order());
    lemma_kept(paths);
    assert forall|path: Seq<char>| #[trigger] ptx_paths(paths).contains(path) <==> paths.contains(
        path,
    ) && is_ptx(path) by {
        assert(ptx_paths(paths).contains(path) <==> ptx_paths(paths).to_multiset().count(path) > 0);
        assert(paths.contains(path) <==> paths.to_multiset().count(path) > 0);
    }
}

/// How often the PTX paths of a listing occur rests on how often its paths do.
proof fn lemma_kept(paths: Seq<Seq<char>>)
    ensures
        paths.filter(|path: Seq<char>| is_ptx(path)).to_multiset()
            =~= paths.to_multiset().filter(|path: Seq<char>| is_ptx(path)),
    decreases paths.len(),
{
    broadcast use vstd::multiset::group_multiset_axioms;
    broadcast use vstd::seq_lib::group_to_multiset_ensures;

    let keep = |path: Seq<char>| is_ptx(path);
    reveal_with_fuel(Seq::filter, 2);
    if paths.len() > 0 {
        let rest = paths.drop_last();
        lemma_kept(rest);
        assert(paths =~= rest.push(paths.last()));
        vstd::seq_lib::to_multiset_build(rest, paths.last());
        vstd::seq_lib::to_multiset_build(rest.filter(keep), paths.last());
    }
}

/// The order in which a directory lists its entries does not matter.
pub proof fn law_order_of_the_listing_does_not_matter(one: Seq<Seq<char>>, other: Seq<Seq<char>>)
    requires
        one.to_multiset() == other.to_multiset(),
    ensures
        ptx_paths(one) == ptx_paths(other),
{
    lemma_kept(one);
    lemma_kept(other);
    law_chosen_paths_are_the_ptx_paths_in_rising_order(one);
    law_chosen_paths_are_the_ptx_paths_in_rising_order(other);
    law_text_order_is_total();
    vstd::seq_lib::lemma_sorted_unique(ptx_paths(one), ptx_paths(other), text_order());
}

/// Files that are no PTX files do not matter, wherever a directory lists them.
pub proof fn law_other_files_do_not_matter(
    first: Seq<Seq<char>>,
    others: Seq<Seq<char>>,
    last: Seq<Seq<char>>,
)
    requires
        forall|k: int| 0 <= k < others.len() ==> !is_ptx(#[trigger] others[k]),
    ensures
        ptx_paths(first + others + last) == ptx_paths(first + last),
{
    let keep = |path: Seq<char>| is_ptx(path);
    Seq::filter_distributes_over_add(first + others, last, keep);
    Seq::filter_distributes_over_add(first, others, keep);
    Seq::filter_distributes_over_add(first, last, keep);
    others.lemma_all_neg_filter_empty(keep);
    assert(others.filter(keep) =~= Seq::empty());
    assert((first + others + last).filter(keep) =~= (first + last).filter(keep));
}

/// Nothing before the first duplicate occurs twice, and the first duplicate, if there is one,
/// occurs before its place.
pub proof fn law_first_duplicate_is_the_first(texts: Seq<Seq<char>>, at: int)
    requires
        0 <= at <= texts.len(),
        forall|i: int, j: int| 0 <= i < j < at ==> texts[i] != texts[j],
    ensures
        at <= first_duplicate(texts, at) <= texts.len(),
        forall|i: int, j: int| 0 <= i < j < first_duplicate(texts, at) ==> texts[i] != texts[j],
        first_duplicate(texts, at) < texts.len() ==> exists|i: int|
            0 <= i < first_duplicate(texts, at) && #[trigger] texts[i] == texts[first_duplicate(
                texts,
                at,
            )],
    decreases texts.len() - at,
{
    if at < texts.len() {
        if texts.take(at).contains(texts[at]) {
            let i = choose|i: int| 0 <= i < at && texts.take(at)[i] == texts[at];
            assert(texts[i] == texts[at]);
        } else {
            assert forall|i: int| 0 <= i < at implies texts[i] != texts[at] by {
                assert(texts.take(at)[i] == texts[i]);
            }
            law_first_duplicate_is_the_first(texts, at + 1);
        }
    }
}

/// A file that nothing is wrong with is built for 64-bit addresses and for `sm_70` or later, and
/// declares at least one entry point and none twice.
pub proof fn law_sound_files_declare_distinct_entries(file: Found)
    ensures
        judged(file) is Ok <==> {
            &&& file.stem.len() > 0
            &&& file.content matches Ok(text)
            &&& argument_of(text, ".address_size"@) == "64"@
            &&& target_in(argument_of(text, ".target"@)) matches Some(number)
            &&& number >= 70
            &&& entries_from(text, 0).len() > 0
            &&& forall|i: int, j: int|
                0 <= i < j < entries_from(text, 0).len() ==> entries_from(text, 0)[i]
                    != entries_from(text, 0)[j]
        },
        judged(file) matches Ok(entries) ==> file.content matches Ok(text) && entries
            == entries_from(text, 0),
{
    match file.content {
        Ok(text) => {
            law_first_duplicate_is_the_first(entries_from(text, 0), 0);
        },
        Err(_) => {},
    }
}

/// Each of the ten digits is written as one character, in order.
proof fn lemma_digit_text(digit: int)
    requires
        0 <= digit < 10,
    ensures
        crate::render::DIGITS@[digit]@ == seq![('0' as int + digit) as char],
{
    reveal_strlit("0");
    reveal_strlit("1");
    reveal_strlit("2");
    reveal_strlit("3");
    reveal_strlit("4");
    reveal_strlit("5");
    reveal_strlit("6");
    reveal_strlit("7");
    reveal_strlit("8");
    reveal_strlit("9");
    assert(crate::render::DIGITS@[digit]@ =~= seq![('0' as int + digit) as char]);
}

/// A number written in decimal is a row of digits that writes that number.
proof fn lemma_decimal_digits(number: nat)
    ensures
        crate::render::decimal(number).len() > 0,
        all_digits(crate::render::decimal(number)),
        digits_value(crate::render::decimal(number)) == number,
    decreases number,
{
    let text = crate::render::decimal(number);
    lemma_digit_text((number % 10) as int);
    if number < 10 {
        assert(text.drop_last() =~= Seq::<char>::empty());
        reveal_with_fuel(digits_value, 2);
    } else {
        lemma_decimal_digits(number / 10);
        assert(text.drop_last() =~= crate::render::decimal(number / 10));
    }
}

/// Reading a number that was written in decimal gives that number back.
pub proof fn law_reading_gives_back_what_was_written(number: u32)
    ensures
        number_in(crate::render::decimal(number as nat)) == Some(number),
{
    lemma_decimal_digits(number as nat);
    assert(is_digit(crate::render::decimal(number as nat)[0]));
}

/// The target that names an architecture by its number is read as that number.
pub proof fn law_target_of_an_architecture_is_its_number(number: u32)
    ensures
        target_in("sm_"@ + crate::render::decimal(number as nat)) == Some(number),
{
    let digits = crate::render::decimal(number as nat);
    let text = "sm_"@ + digits;
    reveal_strlit("sm_");
    lemma_decimal_digits(number as nat);
    assert(text[0] == 's');
    assert(is_digit(digits.last()));
    assert(text.last() == digits.last());
    assert(trimmed(text) == text);
    assert(text.take(3) =~= "sm_"@);
    assert(text.skip(3) =~= digits);
    law_reading_gives_back_what_was_written(number);
}

} // verus!
