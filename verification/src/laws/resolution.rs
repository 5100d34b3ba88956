//! The law of the test that resolves every entry point of every kernel file.

use vstd::prelude::*;
use crate::expr::{num, plus, reg, same_as};
use crate::machine::{Answer, Ending, Progress};
use crate::memory::Contents;
use crate::ptx::Found;
use crate::script::Step;

verus! {

/// Whether a kernel file is sound: it can be read, and its name, address size, target and entry
/// points are as they should be.
pub open spec fn sound(file: Found) -> bool {
    crate::ptx::judged(file) is Ok
}

/// How many entry points the first `count` files declare.
pub open spec fn entries_before(files: Seq<Found>, count: int) -> int
    decreases count,
{
    if count <= 0 {
        0
    } else {
        entries_before(files, count - 1) + match crate::ptx::judged(files[count - 1]) {
            Ok(entries) => entries.len() as int,
            Err(_) => 0,
        }
    }
}

/// Whether the device resolves the entry point that it is asked for in request `k`.
pub open spec fn resolves(answers: Seq<Answer>, k: int) -> bool {
    answers[k] matches Answer::Count(found) && found != 0
}

/// The contents after some entry points have been resolved: both counts are the same.
spec fn counted(contents: Contents, count: int) -> bool {
    &&& contents.full()
    &&& contents.registers[0] == count
    &&& contents.registers[1] == count
}

/// A register with one added to it.
proof fn lemma_one_more(contents: Contents, register: u64)
    requires
        contents.full(),
        register < contents.registers.len(),
        contents.registers[register as int] < u64::MAX,
    ensures
        crate::expr::value_of(plus(reg(register), num(1)), contents, 0) == Some(
            (contents.registers[register as int] + 1) as u64,
        ),
{
    reveal_with_fuel(crate::expr::value_of, 2);
}

/// What the device says of an entry point is put into a register.
proof fn lemma_resolve(
    first: u64,
    k: u64,
    contents: Contents,
    answers: Seq<Answer>,
    used: int,
    found: u64,
)
    requires
        contents.full(),
        0 <= used < answers.len(),
        answers[used] == Answer::Count(found),
    ensures
        crate::walk::walked(
            crate::categories::c01_toolchain::entry_round(first, k),
            1,
            4,
            contents,
            answers,
            used,
        ) == crate::walk::walked(
            crate::categories::c01_toolchain::entry_round(first, k),
            2,
            4,
            contents.with_register(2, found),
            answers,
            used + 1,
        ),
{
    reveal_with_fuel(crate::walk::walked, 2);
    reveal(crate::machine::effect_of);
    reveal(crate::machine::stored);
}

/// One entry point.
proof fn lemma_entry(
    first: u64,
    k: u64,
    contents: Contents,
    answers: Seq<Answer>,
    used: int,
    count: int,
)
    requires
        counted(contents, count),
        0 <= count < u64::MAX,
        0 <= used < answers.len(),
        answers[used] is Count,
    ensures
        match crate::walk::walked(
            crate::categories::c01_toolchain::entry_round(first, k),
            0,
            4,
            contents,
            answers,
            used,
        ) {
            Some((after, next)) => resolves(answers, used) && counted(after, count + 1) && next
                == used + 1,
            None => !resolves(answers, used),
        },
{
    let steps = crate::categories::c01_toolchain::entry_round(first, k);
    let found = answers[used]->Count_0;
    lemma_one_more(contents, 0);
    crate::laws::steps::lemma_put(steps, 0, 4, contents, answers, used, (count + 1) as u64);
    let asked = contents.with_register(0, (count + 1) as u64);
    lemma_resolve(first, k, asked, answers, used, found);
    let heard = asked.with_register(2, found);
    assert(crate::expr::value_of(same_as(reg(2), num(0)), heard, 0) == Some(
        crate::expr::truth(found == 0),
    )) by {
        reveal_with_fuel(crate::expr::value_of, 2);
    }
    crate::laws::steps::lemma_check(steps, 2, 4, heard, answers, used + 1, found == 0);
    lemma_one_more(heard, 1);
    crate::laws::steps::lemma_put(steps, 3, 4, heard, answers, used + 1, (count + 1) as u64);
    let last = heard.with_register(1, (count + 1) as u64);
    crate::laws::steps::lemma_end(steps, 4, last, answers, used + 1);
}

/// Whether the device resolves the entry points of some requests.
pub open spec fn all_resolve(answers: Seq<Answer>, from: int, to: int) -> bool {
    forall|k: int| from <= k < to ==> #[trigger] resolves(answers, k)
}

/// The first `n` entry points of a file.
proof fn lemma_entries(
    first: u64,
    n: int,
    contents: Contents,
    answers: Seq<Answer>,
    used: int,
    count: int,
)
    requires
        n >= 0,
        counted(contents, count),
        0 <= count,
        count + n <= u64::MAX,
        0 <= used,
        used + n <= answers.len(),
        forall|k: int| used <= k < used + n ==> #[trigger] answers[k] is Count,
    ensures
        ({
            let steps = crate::script::rounds(
                n,
                |k: int| crate::categories::c01_toolchain::entry_round(first, k as u64),
            );
            match crate::walk::walked(steps, 0, steps.len() as int, contents, answers, used) {
                Some((after, next)) => all_resolve(answers, used, used + n) && counted(
                    after,
                    count + n,
                ) && next == used + n,
                None => !all_resolve(answers, used, used + n),
            }
        }),
    decreases n,
{
    let round = |k: int| crate::categories::c01_toolchain::entry_round(first, k as u64);
    if n == 0 {
        crate::laws::steps::lemma_end(Seq::empty(), 0, contents, answers, used);
    } else {
        let before = crate::script::rounds(n - 1, round);
        lemma_entries(first, n - 1, contents, answers, used, count);
        crate::walk::law_walks_over_two_scripts_compose(
            before,
            round(n - 1),
            contents,
            answers,
            used,
        );
        assert(crate::script::rounds(n, round) == before + round(n - 1));
        match crate::walk::walked(before, 0, before.len() as int, contents, answers, used) {
            Some((after, next)) => {
                assert(answers[used + n - 1] is Count);
                lemma_entry(first, (n - 1) as u64, after, answers, next, count + n - 1);
                if resolves(answers, used + n - 1) {
                    assert forall|k: int| used <= k < used + n implies #[trigger] resolves(
                        answers,
                        k,
                    ) by {}
                }
            },
            None => {
                let k = choose|k: int|
                    used <= k < used + n - 1 && !(#[trigger] resolves(answers, k));
                assert(!resolves(answers, k));
            },
        }
    }
}

/// Whether the first `count` files are sound.
pub open spec fn all_sound(files: Seq<Found>, count: int) -> bool {
    forall|k: int| 0 <= k < count ==> #[trigger] sound(files[k])
}

/// Files never declare fewer than no entry points.
proof fn lemma_entries_before(files: Seq<Found>, early: int, late: int)
    requires
        0 <= early <= late,
    ensures
        0 <= entries_before(files, early) <= entries_before(files, late),
    decreases late,
{
    if early < late {
        lemma_entries_before(files, early, late - 1);
    } else if 0 < early {
        lemma_entries_before(files, early - 1, late - 1);
    }
}

/// The steps of a draft are straight, and the draft can go on exactly as long as its files are
/// sound.
proof fn lemma_draft(directory: Seq<char>, files: Seq<Found>, count: int)
    requires
        0 <= count <= files.len(),
    ensures
        ({
            let draft = crate::categories::c01_toolchain::draft_of(directory, files, count);
            &&& draft.open <==> all_sound(files, count)
            &&& forall|j: int|
                0 <= j < draft.steps.len() ==> crate::walk::straight(#[trigger] draft.steps[j])
        }),
    decreases count,
{
    if count > 0 {
        let before = crate::categories::c01_toolchain::draft_of(directory, files, count - 1);
        let first = before.texts.len() as u64;
        lemma_draft(directory, files, count - 1);
        if before.open {
            match crate::ptx::judged(files[count - 1]) {
                Ok(entries) => {
                    let round = |k: int|
                        crate::categories::c01_toolchain::entry_round(first, k as u64);
                    crate::walk::law_straight_rounds_are_straight(entries.len() as int, round);
                    crate::walk::law_straight_scripts_make_a_straight_one(
                        before.steps,
                        crate::script::rounds(entries.len() as int, round),
                    );
                    assert forall|k: int| 0 <= k < count implies #[trigger] sound(files[k]) by {}
                },
                Err(flaw) => {
                    let last = seq![
                        crate::script::check(
                            num(1),
                            crate::categories::c01_toolchain::flaw_note(flaw, first),
                        ),
                    ];
                    crate::walk::law_straight_scripts_make_a_straight_one(before.steps, last);
                    assert(!sound(files[count - 1]));
                },
            }
        } else {
            let k = choose|k: int| 0 <= k < count - 1 && !(#[trigger] sound(files[k]));
            assert(!sound(files[k]));
        }
    }
}

/// The steps of a draft go through exactly when its files are sound and their entry points are
/// resolved.
proof fn lemma_draft_walk(
    directory: Seq<char>,
    files: Seq<Found>,
    count: int,
    contents: Contents,
    answers: Seq<Answer>,
)
    requires
        0 <= count <= files.len(),
        counted(contents, 0),
        entries_before(files, count) <= u64::MAX,
        entries_before(files, count) <= answers.len(),
        forall|k: int|
            0 <= k < entries_before(files, count) ==> #[trigger] answers[k] is Count,
    ensures
        ({
            let steps = crate::categories::c01_toolchain::draft_of(directory, files, count).steps;
            let total = entries_before(files, count);
            match crate::walk::walked(steps, 0, steps.len() as int, contents, answers, 0) {
                Some((after, next)) => {
                    &&& all_sound(files, count)
                    &&& all_resolve(answers, 0, total)
                    &&& counted(after, total)
                    &&& next == total
                },
                None => !(all_sound(files, count) && all_resolve(answers, 0, total)),
            }
        }),
    decreases count,
{
    if count == 0 {
        crate::laws::steps::lemma_end(Seq::empty(), 0, contents, answers, 0);
    } else {
        let before = crate::categories::c01_toolchain::draft_of(directory, files, count - 1);
        let first = before.texts.len() as u64;
        let earlier = entries_before(files, count - 1);
        lemma_entries_before(files, count - 1, count);
        lemma_draft(directory, files, count - 1);
        lemma_draft_walk(directory, files, count - 1, contents, answers);
        let walk = crate::walk::walked(
            before.steps,
            0,
            before.steps.len() as int,
            contents,
            answers,
            0,
        );
        if before.open {
            match crate::ptx::judged(files[count - 1]) {
                Ok(entries) => {
                    let n = entries.len() as int;
                    let more = crate::script::rounds(
                        n,
                        |k: int| crate::categories::c01_toolchain::entry_round(first, k as u64),
                    );
                    crate::walk::law_walks_over_two_scripts_compose(
                        before.steps,
                        more,
                        contents,
                        answers,
                        0,
                    );
                    assert(sound(files[count - 1]));
                    match walk {
                        Some((after, next)) => {
                            lemma_entries(first, n, after, answers, next, earlier);
                            lemma_split(answers, earlier, earlier + n);
                        },
                        None => {
                            lemma_split(answers, earlier, earlier + n);
                        },
                    }
                },
                Err(flaw) => {
                    let last = seq![
                        crate::script::check(
                            num(1),
                            crate::categories::c01_toolchain::flaw_note(flaw, first),
                        ),
                    ];
                    crate::walk::law_walks_over_two_scripts_compose(
                        before.steps,
                        last,
                        contents,
                        answers,
                        0,
                    );
                    match walk {
                        Some((after, next)) => {
                            assert(crate::expr::value_of(num(1), after, 0) == Some(
                                crate::expr::truth(true),
                            ));
                            crate::laws::steps::lemma_check(
                                last,
                                0,
                                1,
                                after,
                                answers,
                                next,
                                true,
                            );
                        },
                        None => {},
                    }
                    assert(!sound(files[count - 1]));
                },
            }
        } else {
            let k = choose|k: int| 0 <= k < count - 1 && !(#[trigger] sound(files[k]));
            assert(!sound(files[k]));
        }
    }
}

/// Requests are resolved up to a point exactly when they are up to an earlier one and from there
/// on.
proof fn lemma_split(answers: Seq<Answer>, middle: int, end: int)
    requires
        0 <= middle <= end,
    ensures
        all_resolve(answers, 0, end) <==> all_resolve(answers, 0, middle) && all_resolve(
            answers,
            middle,
            end,
        ),
{
    if all_resolve(answers, 0, middle) && all_resolve(answers, middle, end) {
        assert forall|k: int| 0 <= k < end implies #[trigger] resolves(answers, k) by {}
    }
}

/// The test that resolves entry points passes exactly when the kernels directory can be listed and
/// holds a file, every file in it is sound, the device resolves every entry point of every file,
/// and it reports no fault in the end.
pub proof fn law_resolution_passes_exactly_when_every_entry_point_is_resolved(
    directory: Seq<char>,
    listing: Result<Seq<Found>, Seq<char>>,
    answers: Seq<Answer>,
)
    requires
        match listing {
            Ok(files) => {
                let total = entries_before(files, files.len() as int);
                &&& total <= u64::MAX
                &&& total < answers.len()
                &&& forall|k: int| 0 <= k < total ==> #[trigger] answers[k] is Count
            },
            Err(_) => true,
        },
    ensures
        crate::machine::run_of(
            crate::categories::c01_toolchain::kernel_function_resolution(directory, listing),
            answers,
        ).progress == Progress::Over(Ending::Passed) <==> {
            &&& listing matches Ok(files)
            &&& files.len() > 0
            &&& all_sound(files, files.len() as int)
            &&& all_resolve(answers, 0, entries_before(files, files.len() as int))
            &&& !(answers[entries_before(files, files.len() as int)] is Failed)
        },
{
    let plan = crate::categories::c01_toolchain::kernel_function_resolution(directory, listing);
    let blank = Contents::blank(plan.texts);
    match listing {
        Ok(files) => if files.len() == 0 {
            lemma_refused(plan.steps, blank, answers);
            crate::walk::law_passes_exactly_when_every_step_goes_through(plan, answers);
        } else {
            let count = files.len() as int;
            let total = entries_before(files, count);
            let draft = crate::categories::c01_toolchain::draft_of(directory, files, count);
            let end = crate::categories::c01_toolchain::resolution_end();
            lemma_draft(directory, files, count);
            lemma_entries_before(files, 0, count);
            lemma_draft_walk(directory, files, count, blank, answers);
            if draft.open {
                crate::walk::law_straight_scripts_make_a_straight_one(draft.steps, end);
                crate::walk::law_walks_over_two_scripts_compose(
                    draft.steps,
                    end,
                    blank,
                    answers,
                    0,
                );
                match crate::walk::walked(
                    draft.steps,
                    0,
                    draft.steps.len() as int,
                    blank,
                    answers,
                    0,
                ) {
                    Some((after, next)) => {
                        lemma_resolution_end(after, answers, next, total);
                    },
                    None => {},
                }
            }
            crate::walk::law_passes_exactly_when_every_step_goes_through(plan, answers);
        },
        Err(_) => {
            lemma_refused(plan.steps, blank, answers);
            crate::walk::law_passes_exactly_when_every_step_goes_through(plan, answers);
        },
    }
}

/// A script that only fails does not go through.
proof fn lemma_refused(steps: Seq<Step>, contents: Contents, answers: Seq<Answer>)
    requires
        steps.len() == 1,
        crate::machine::taken(steps[0], contents) == Some(true),
        crate::machine::act_of(steps[0]) matches crate::script::Act::Check { fault, .. } && fault
            == num(1),
    ensures
        crate::walk::walked(steps, 0, 1, contents, answers, 0) is None,
{
    assert(crate::expr::value_of(num(1), contents, 0) == Some(crate::expr::truth(true)));
    crate::laws::steps::lemma_check(steps, 0, 1, contents, answers, 0, true);
}

/// The end of the test.
proof fn lemma_resolution_end(contents: Contents, answers: Seq<Answer>, used: int, count: int)
    requires
        counted(contents, count),
        0 <= used < answers.len(),
    ensures
        crate::walk::walked(
            crate::categories::c01_toolchain::resolution_end(),
            0,
            2,
            contents,
            answers,
            used,
        ) is Some <==> !(answers[used] is Failed),
{
    let steps = crate::categories::c01_toolchain::resolution_end();
    crate::laws::steps::lemma_command(steps, 0, 2, contents, answers, used);
    crate::laws::steps::lemma_register(contents, 1, reg(0), count as u64);
    crate::laws::steps::lemma_check(steps, 1, 2, contents, answers, used + 1, false);
    crate::laws::steps::lemma_end(steps, 2, contents, answers, used + 1);
}

/// How many texts a draft holds before those of a file.
spec fn texts_before(files: Seq<Found>, f: int) -> int {
    1 + 2 * f + entries_before(files, f)
}

/// The entry points of a sound file.
pub open spec fn entries_in(file: Found) -> Seq<Seq<char>> {
    match crate::ptx::judged(file) {
        Ok(entries) => entries,
        Err(_) => Seq::empty(),
    }
}

/// The steps and texts of a draft of sound files, file by file.
proof fn lemma_draft_parts(directory: Seq<char>, files: Seq<Found>, count: int, f: int, e: int)
    requires
        0 <= count <= files.len(),
        all_sound(files, count),
        texts_before(files, count) <= u64::MAX,
    ensures
        ({
            let draft = crate::categories::c01_toolchain::draft_of(directory, files, count);
            let first = texts_before(files, f);
            &&& draft.open
            &&& draft.texts.len() == texts_before(files, count)
            &&& draft.steps.len() == 4 * entries_before(files, count)
            &&& 0 <= f < count && 0 <= e < entries_in(files[f]).len() ==> {
                &&& 0 <= first
                &&& first + 2 + e < draft.texts.len()
                &&& 0 <= 4 * (entries_before(files, f) + e)
                &&& 4 * (entries_before(files, f) + e) + 4 <= draft.steps.len()
                &&& draft.texts[first + 1] == "xlog_"@ + files[f].stem
                &&& draft.texts[first + 2 + e] == entries_in(files[f])[e]
                &&& forall|j: int|
                    0 <= j < 4 ==> draft.steps[4 * (entries_before(files, f) + e) + j]
                        == #[trigger] crate::categories::c01_toolchain::entry_round(
                        first as u64,
                        e as u64,
                    )[j]
            }
        }),
    decreases count,
{
    lemma_entries_before(files, 0, count);
    if count > 0 {
        lemma_entries_before(files, count - 1, count);
        lemma_draft_parts(directory, files, count - 1, f, e);
        assert(sound(files[count - 1]));
        let before = crate::categories::c01_toolchain::draft_of(directory, files, count - 1);
        let first = before.texts.len() as u64;
        let entries = entries_in(files[count - 1]);
        let round = |k: int| crate::categories::c01_toolchain::entry_round(first, k as u64);
        let more = crate::script::rounds(entries.len() as int, round);
        crate::stage::lemma_rounds_length(entries.len() as int, round, 4);
        if f == count - 1 && 0 <= e < entries.len() {
            lemma_entries_before(files, 0, f);
            let draft = crate::categories::c01_toolchain::draft_of(directory, files, count);
            assert(draft.steps == before.steps + more);
            assert forall|j: int| 0 <= j < 4 implies draft.steps[4 * (entries_before(files, f) + e)
                + j] == #[trigger] crate::categories::c01_toolchain::entry_round(first, e as u64)[j] by {
                crate::stage::lemma_round_place(entries.len() as int, round, 4, e, j);
                assert(more[e * 4 + j] == round(e)[j]);
            }
        } else if 0 <= f < count - 1 {
            lemma_entries_before(files, f, count - 1);
            lemma_entries_before(files, f + 1, count - 1);
        }
    }
}

/// One entry point is asked for.
proof fn lemma_entry_asked(m: crate::stage::Moment, first: u64, e: u64) -> (n: crate::stage::Moment)
    requires
        m.holds(),
        0 <= m.at,
        m.at + 4 <= m.plan.steps.len(),
        first + 2 + e < m.plan.texts.len() <= u64::MAX,
        forall|j: int|
            0 <= j < 4 ==> m.plan.steps[m.at + j]
                == #[trigger] crate::categories::c01_toolchain::entry_round(first, e)[j],
    ensures
        n.holds(),
        n.plan == m.plan,
        n.answers == m.answers,
        n.at == m.at + 4,
        n.used == m.used + 1,
        crate::stage::asked(m.plan, m.answers, m.used) == Some(
            crate::stage::Ask::Entry {
                module: m.plan.texts[first + 1],
                entry: m.plan.texts[first + 2 + e],
            },
        ),
{
    let steps = crate::categories::c01_toolchain::entry_round(first, e);
    let m1 = crate::stage::lemma_own(m, steps[0]);
    crate::stage::lemma_full(m1);
    let m2 = crate::stage::lemma_number(
        m1,
        steps[1],
        crate::stage::Ask::Entry {
            module: m.plan.texts[first + 1],
            entry: m.plan.texts[first + 2 + e],
        },
    );
    let m3 = crate::stage::lemma_own(m2, steps[2]);
    crate::stage::lemma_own(m3, steps[3])
}

/// A run that passes comes to every entry point of every file.
proof fn lemma_reaches(
    directory: Seq<char>,
    files: Seq<Found>,
    answers: Seq<Answer>,
    f: int,
    e: int,
) -> (m: crate::stage::Moment)
    requires
        0 <= f < files.len(),
        0 <= e <= entries_in(files[f]).len(),
        all_sound(files, files.len() as int),
        texts_before(files, files.len() as int) <= u64::MAX,
        crate::stage::passes(
            crate::categories::c01_toolchain::kernel_function_resolution(directory, Ok(files)),
            answers,
        ),
    ensures
        m.holds(),
        m.plan == crate::categories::c01_toolchain::kernel_function_resolution(
            directory,
            Ok(files),
        ),
        m.answers == answers,
        m.at == 4 * (entries_before(files, f) + e),
        m.used == entries_before(files, f) + e,
        e > 0 ==> crate::stage::asked(m.plan, answers, m.used - 1) == Some(
            crate::stage::Ask::Entry {
                module: "xlog_"@ + files[f].stem,
                entry: entries_in(files[f])[e - 1],
            },
        ),
    decreases f, e,
{
    let plan = crate::categories::c01_toolchain::kernel_function_resolution(directory, Ok(files));
    let count = files.len() as int;
    if e > 0 {
        lemma_draft_parts(directory, files, count, f, e - 1);
        let draft = crate::categories::c01_toolchain::draft_of(directory, files, count);
        let m = lemma_reaches(directory, files, answers, f, e - 1);
        let first = texts_before(files, f) as u64;
        assert forall|j: int| 0 <= j < 4 implies m.plan.steps[m.at + j]
            == #[trigger] crate::categories::c01_toolchain::entry_round(
                first,
                (e - 1) as u64,
            )[j] by {
            assert(draft.steps[4 * (entries_before(files, f) + (e - 1)) + j]
                == crate::categories::c01_toolchain::entry_round(first, (e - 1) as u64)[j]);
        }
        lemma_entry_asked(m, first, (e - 1) as u64)
    } else if f > 0 {
        assert(sound(files[f - 1]));
        lemma_reaches(directory, files, answers, f - 1, entries_in(files[f - 1]).len() as int)
    } else {
        crate::stage::lemma_start(plan, answers)
    }
}

/// The test asks for the entry points of every file, file by file and in the order in which each
/// declares them, and for nothing else before it waits for the device: the request for an entry
/// point names it, and the module that is named after the stem of the file that declares it.
pub proof fn law_each_entry_point_is_asked_for_in_the_module_of_its_file(
    directory: Seq<char>,
    files: Seq<Found>,
    answers: Seq<Answer>,
    f: int,
    e: int,
)
    requires
        0 <= f < files.len(),
        0 <= e < entries_in(files[f]).len(),
        all_sound(files, files.len() as int),
        1 + 2 * files.len() + entries_before(files, files.len() as int) <= u64::MAX,
        crate::stage::passes(
            crate::categories::c01_toolchain::kernel_function_resolution(directory, Ok(files)),
            answers,
        ),
    ensures
        crate::stage::asked(
            crate::categories::c01_toolchain::kernel_function_resolution(directory, Ok(files)),
            answers,
            entries_before(files, f) + e,
        ) == Some(
            crate::stage::Ask::Entry {
                module: "xlog_"@ + files[f].stem,
                entry: entries_in(files[f])[e],
            },
        ),
        crate::stage::asked(
            crate::categories::c01_toolchain::kernel_function_resolution(directory, Ok(files)),
            answers,
            entries_before(files, files.len() as int),
        ) == Some(crate::stage::Ask::Other(crate::script::Request::Sync)),
{
    lemma_reaches(directory, files, answers, f, e + 1);
    let last = files.len() - 1;
    assert(sound(files[last]));
    let m = lemma_reaches(directory, files, answers, last, entries_in(files[last]).len() as int);
    lemma_draft_parts(directory, files, files.len() as int, 0, 0);
    let end = crate::categories::c01_toolchain::resolution_end();
    assert(m.plan.steps[m.at] == end[0]);
    crate::stage::lemma_other(m, end[0], crate::script::Request::Sync);
}

} // verus!
