//! The laws of the tests that look at samples of large or of many results.

use vstd::prelude::*;
use crate::categories::c02_launch_config::{RISING_PLACES, SAMPLE_PLACES};
use crate::expr::{and, at, differs, ix, len, lt, modulo, num, or, plus, same_as, times};
use crate::machine::{Answer, Ending, Progress};
use crate::memory::Contents;
use crate::script::COUNT;

verus! {

/// Whether a column holds a certain word at a place.
pub open spec fn word_is(words: Seq<u64>, place: int, word: int) -> bool {
    place < words.len() && words[place] == word
}

/// Whether a column has words at two places, and the word at the later one is not less.
pub open spec fn ordered_at(words: Seq<u64>, early: int, late: int) -> bool {
    early < words.len() && late < words.len() && words[early] <= words[late]
}

/// Looking at two words of a column.
proof fn lemma_ordered_at(contents: Contents, early: u64, late: u64)
    requires
        contents.full(),
    ensures
        crate::expr::value_of(lt(at(1, num(late)), at(1, num(early))), contents, 0) == Some(0u64)
            <==> ordered_at(contents.columns[1], early as int, late as int),
{
    reveal_with_fuel(crate::expr::value_of, 3);
}

/// Whether the word at place ten thousand is zero or one.
pub open spec fn zero_or_one(words: Seq<u64>) -> bool {
    10000 < words.len() && words[10000] <= 1
}

/// Looking at the word at place ten thousand.
#[verifier::spinoff_prover]
#[verifier::rlimit(50)]
proof fn lemma_zero_or_one(contents: Contents)
    requires
        contents.full(),
    ensures
        crate::expr::value_of(
            and(differs(at(1, num(10000)), num(1)), differs(at(1, num(10000)), num(0))),
            contents,
            0,
        ) == Some(0u64) <==> zero_or_one(contents.columns[1]),
{
    reveal_with_fuel(crate::expr::value_of, 5);
}

/// Looking for a sample that is not its place.
proof fn lemma_sample(contents: Contents, place: u64)
    requires
        contents.full(),
    ensures
        crate::expr::value_of(differs(at(1, num(place)), num(place)), contents, 0) == Some(0u64)
            <==> word_is(contents.columns[1], place as int, place as int),
{
    crate::laws::steps::lemma_word_at(contents, 1, num(place), num(place), place, place);
}

/// The words of round `k` of the transfers.
pub open spec fn transferred(k: int) -> Seq<u64> {
    Seq::new(1000, |i: int| ((i + k * 1000) % 1000000) as u64)
}

/// One of the words of [`transferred`].
proof fn lemma_transferred_at(k: int, contents: Contents, i: u64)
    requires
        0 <= k < 500,
        i < 1000,
    ensures
        crate::expr::value_of(
            modulo(plus(ix(), times(num(k as u64), num(1000))), num(1000000)),
            contents,
            i,
        ) == Some(transferred(k)[i as int]),
{
    reveal_with_fuel(crate::expr::value_of, 4);
}

/// The words of [`transferred`].
proof fn lemma_transferred(k: int, contents: Contents)
    requires
        0 <= k < 500,
    ensures
        forall|i: int|
            0 <= i < 1000 ==> #[trigger] crate::expr::value_of(
                modulo(plus(ix(), times(num(k as u64), num(1000))), num(1000000)),
                contents,
                i as u64,
            ) == Some(transferred(k)[i]),
{
    assert forall|i: int| 0 <= i < 1000 implies #[trigger] crate::expr::value_of(
        modulo(plus(ix(), times(num(k as u64), num(1000))), num(1000000)),
        contents,
        i as u64,
    ) == Some(transferred(k)[i]) by {
        lemma_transferred_at(k, contents, i as u64);
    }
}

/// Whether two columns of a thousand words have the same first and the same last word.
pub open spec fn same_ends(left: Seq<u64>, right: Seq<u64>) -> bool {
    &&& 999 < left.len()
    &&& 999 < right.len()
    &&& left[0] == right[0]
    &&& left[999] == right[999]
}

/// Looking at the first and the last of a thousand words.
#[verifier::spinoff_prover]
#[verifier::rlimit(50)]
proof fn lemma_same_ends(contents: Contents)
    requires
        contents.full(),
        contents.columns[0].len() == 1000,
        contents.columns[1].len() == 1000,
    ensures
        crate::expr::value_of(
            or(differs(at(1, num(0)), at(0, num(0))), differs(at(1, num(999)), at(0, num(999)))),
            contents,
            0,
        ) == Some(0u64) <==> same_ends(contents.columns[1], contents.columns[0]),
{
    reveal_with_fuel(crate::expr::value_of, 5);
}

/// The words of round `k` of the filters.
pub open spec fn stepped(k: int) -> Seq<u64> {
    Seq::new(1000, |i: int| ((i * (k + 1)) % 10000) as u64)
}

/// One of the words of [`stepped`].
proof fn lemma_stepped_at(k: int, contents: Contents, i: u64)
    requires
        0 <= k < 100,
        i < 1000,
    ensures
        crate::expr::value_of(
            modulo(times(ix(), plus(num(k as u64), num(1))), num(10000)),
            contents,
            i,
        ) == Some(stepped(k)[i as int]),
{
    let factor = (k + 1) as u64;
    assert(crate::expr::value_of(plus(num(k as u64), num(1)), contents, i) == Some(factor)) by {
        reveal_with_fuel(crate::expr::value_of, 2);
    }
    assert(0 <= i * factor <= 100000) by (nonlinear_arith)
        requires
            i < 1000,
            0 < factor <= 100,
    ;
    assert(crate::expr::value_of(ix(), contents, i) == Some(i));
    let product = times(ix(), plus(num(k as u64), num(1)));
    assert(crate::expr::value_of(product, contents, i) == Some((i * factor) as u64));
    assert(crate::expr::value_of(num(10000), contents, i) == Some(10000u64));
}

/// The words of [`stepped`].
proof fn lemma_stepped(k: int, contents: Contents)
    requires
        0 <= k < 100,
    ensures
        forall|i: int|
            0 <= i < 1000 ==> #[trigger] crate::expr::value_of(
                modulo(times(ix(), plus(num(k as u64), num(1))), num(10000)),
                contents,
                i as u64,
            ) == Some(stepped(k)[i]),
{
    assert forall|i: int| 0 <= i < 1000 implies #[trigger] crate::expr::value_of(
        modulo(times(ix(), plus(num(k as u64), num(1))), num(10000)),
        contents,
        i as u64,
    ) == Some(stepped(k)[i]) by {
        lemma_stepped_at(k, contents, i as u64);
    }
}

/// Whether round `k` is one of those that are looked at.
pub proof fn lemma_looked_at(k: int, every: u64, contents: Contents)
    requires
        0 <= k < 500,
        every > 0,
    ensures
        crate::expr::value_of(same_as(modulo(num(k as u64), num(every)), num(0)), contents, 0)
            == Some(crate::expr::truth(k % (every as int) == 0)),
{
    assert(crate::expr::value_of(num(k as u64), contents, 0) == Some(k as u64));
    assert(crate::expr::value_of(num(every), contents, 0) == Some(every));
    assert(crate::expr::value_of(num(0), contents, 0) == Some(0u64));
    let rest = modulo(num(k as u64), num(every));
    assert(crate::expr::value_of(rest, contents, 0) == Some(((k as u64) % every) as u64));
}

/// Whether the length of a column is not the expected one.
proof fn lemma_length(contents: Contents, slot: u64, expected: u64)
    requires
        slot < contents.columns.len(),
        contents.columns[slot as int].len() <= u64::MAX,
    ensures
        crate::expr::value_of(differs(len(slot), num(expected)), contents, 0) == Some(
            crate::expr::truth(contents.columns[slot as int].len() != expected),
        ),
{
    crate::laws::steps::lemma_differs(len(slot), num(expected), contents, 0);
}

/// Whether the answers to the downloads of the test are columns or refusals.
pub open spec fn grid_shaped(answers: Seq<Answer>) -> bool {
    &&& answers.len() >= 5
    &&& crate::laws::steps::column_or_refusal(answers[3])
}

/// What the device has to answer in the part `start`.
pub open spec fn grid_start(answers: Seq<Answer>) -> bool {
    &&& !(answers[0] is Failed)
    &&& !(answers[1] is Failed)
    &&& answers[2] == Answer::Count(1000000)
    &&& answers[3] is Words
    &&& word_is(answers[3]->Words_0, 0, 0)
    &&& word_is(answers[3]->Words_0, 999999, 999999)
    &&& word_is(answers[3]->Words_0, 500000, 500000)
}

/// What the device has to answer in round `k` of the part `samples`, from answer `used` on.
pub open spec fn grid_samples(k: int, answers: Seq<Answer>, used: int) -> bool {
    word_is(answers[3]->Words_0, SAMPLE_PLACES@[k] as int, SAMPLE_PLACES@[k] as int)
}

/// What the device has to answer in the part `end`.
pub open spec fn grid_end(answers: Seq<Answer>) -> bool {
    !(answers[4] is Failed)
}

/// The part `start`.
proof fn lemma_grid_start(contents: Contents, answers: Seq<Answer>)
    requires
        contents.full(),
        grid_shaped(answers),
    ensures
        match crate::walk::walked(
            crate::categories::c02_launch_config::large_grid_sizes_start_steps(),
            0,
            8,
            contents,
            answers,
            0,
        ) {
            Some((after, next)) => {
                &&& grid_start(answers)
                &&& after.full()
                &&& next == 4
                &&& after.columns[1] == answers[3]->Words_0
                &&& answers[3] is Words
            },
            None => !grid_start(answers),
        },
        crate::categories::c02_launch_config::large_grid_sizes_start_steps().len() == 8,
{
    let steps = crate::categories::c02_launch_config::large_grid_sizes_start_steps();
    crate::laws::words::lemma_falling(1000000, contents);
    let words1 = crate::laws::words::falling(1000000);
    crate::laws::steps::lemma_fill(steps, 0, 8, contents, answers, 0, words1);
    let next1 = contents.with_column(0, words1);
    crate::laws::steps::lemma_command(steps, 1, 8, next1, answers, 0);
    crate::laws::steps::lemma_command(steps, 2, 8, next1, answers, 1);
    crate::laws::steps::lemma_match(steps, 3, 8, next1, answers, 2, 1000000);
    let next2 = next1.with_register(COUNT, 1000000);
    crate::laws::steps::lemma_download(steps, 4, 8, next2, answers, 3);
    if answers[3] is Words {
        let next3 = next2.with_column(1, answers[3]->Words_0);
        lemma_sample(next3, 0);
        crate::laws::steps::lemma_check_or_abort(
            steps,
            5,
            8,
            next3,
            answers,
            4,
            word_is(answers[3]->Words_0, 0, 0),
        );
        lemma_sample(next3, 999999);
        crate::laws::steps::lemma_check_or_abort(
            steps,
            6,
            8,
            next3,
            answers,
            4,
            word_is(answers[3]->Words_0, 999999, 999999),
        );
        lemma_sample(next3, 500000);
        crate::laws::steps::lemma_check_or_abort(
            steps,
            7,
            8,
            next3,
            answers,
            4,
            word_is(answers[3]->Words_0, 500000, 500000),
        );
        crate::laws::steps::lemma_end(steps, 8, next3, answers, 4);
    }
}

/// One round of the part `samples`.
proof fn lemma_grid_samples(k: int, contents: Contents, answers: Seq<Answer>, used: int)
    requires
        0 <= k < 10,
        used == 4 + 0 * k,
        contents.full(),
        grid_shaped(answers),
        contents.columns[1] == answers[3]->Words_0,
        answers[3] is Words,
    ensures
        match crate::walk::walked(
            crate::categories::c02_launch_config::large_grid_sizes_samples_round(k as u64),
            0,
            1,
            contents,
            answers,
            used,
        ) {
            Some((after, next)) => {
                &&& grid_samples(k, answers, used)
                &&& after.full()
                &&& next == 4 + 0 * (k + 1)
                &&& after.columns[1] == answers[3]->Words_0
                &&& answers[3] is Words
            },
            None => !grid_samples(k, answers, used),
        },
        crate::categories::c02_launch_config::large_grid_sizes_samples_round(k as u64).len() == 1,
{
    let steps = crate::categories::c02_launch_config::large_grid_sizes_samples_round(k as u64);
    lemma_sample(contents, SAMPLE_PLACES@[k]);
    crate::laws::steps::lemma_check_or_abort(
        steps,
        0,
        1,
        contents,
        answers,
        used,
        word_is(answers[3]->Words_0, SAMPLE_PLACES@[k] as int, SAMPLE_PLACES@[k] as int),
    );
    crate::laws::steps::lemma_end(steps, 1, contents, answers, used);
}

/// All rounds of the part `samples`.
proof fn lemma_grid_samples_rounds(contents: Contents, answers: Seq<Answer>)
    requires
        contents.full(),
        grid_shaped(answers),
        contents.columns[1] == answers[3]->Words_0,
        answers[3] is Words,
    ensures
        ({
            let steps = crate::script::rounds(
                10,
                |k: int| crate::categories::c02_launch_config::large_grid_sizes_samples_round(
                    k as u64,
                ),
            );
            match crate::walk::walked(steps, 0, steps.len() as int, contents, answers, 4) {
                Some((after, next)) => {
                    &&& forall|k: int|
                        0 <= k < 10 ==> #[trigger] grid_samples(k, answers, 4 + 0 * k)
                    &&& after.full()
                    &&& next == 4
                    &&& after.columns[1] == answers[3]->Words_0
                    &&& answers[3] is Words
                },
                None => !(forall|k: int|
                    0 <= k < 10 ==> #[trigger] grid_samples(k, answers, 4 + 0 * k)),
            }
        }),
{
    let round = |k: int| crate::categories::c02_launch_config::large_grid_sizes_samples_round(
        k as u64,
    );
    let start = |k: int| 4 + 0 * k;
    let good = |k: int| grid_samples(k, answers, start(k));
    let kept = |contents: Contents|
        contents.full() && contents.columns[1] == answers[3]->Words_0 && answers[3] is Words;
    assert forall|k: int, contents: Contents|
        #![trigger good(k), kept(contents)]
        0 <= k < 10 && kept(contents) implies if good(k) {
        crate::walk::goes_to(round(k), contents, answers, start(k), start(k + 1), kept)
    } else {
        crate::walk::walked(round(k), 0, round(k).len() as int, contents, answers, start(k)) is None
    } by {
        lemma_grid_samples(k, contents, answers, start(k));
    }
    crate::walk::law_rounds_keep_what_each_keeps(10, round, start, good, kept, contents, answers);
    if forall|k: int| 0 <= k < 10 ==> #[trigger] good(k) {
        assert forall|k: int| 0 <= k < 10 implies #[trigger] grid_samples(
            k,
            answers,
            4 + 0 * k,
        ) by {
            assert(good(k));
        }
    } else {
        let k = choose|k: int| 0 <= k < 10 && !(#[trigger] good(k));
        assert(!grid_samples(k, answers, 4 + 0 * k));
    }
}

/// The part `end`.
proof fn lemma_grid_end(contents: Contents, answers: Seq<Answer>)
    requires
        contents.full(),
        grid_shaped(answers),
        contents.columns[1] == answers[3]->Words_0,
        answers[3] is Words,
    ensures
        match crate::walk::walked(
            crate::categories::c02_launch_config::large_grid_sizes_end_steps(),
            0,
            1,
            contents,
            answers,
            4,
        ) {
            Some((after, next)) => {
                &&& grid_end(answers)
                &&& after.full()
                &&& next == 5
            },
            None => !grid_end(answers),
        },
        crate::categories::c02_launch_config::large_grid_sizes_end_steps().len() == 1,
{
    let steps = crate::categories::c02_launch_config::large_grid_sizes_end_steps();
    crate::laws::steps::lemma_command(steps, 0, 1, contents, answers, 4);
    crate::laws::steps::lemma_end(steps, 1, contents, answers, 5);
}

/// The test has no jumps.
proof fn lemma_grid_straight()
    ensures
        forall|j: int|
            0 <= j < crate::categories::c02_launch_config::large_grid_sizes_steps().len()
                ==> crate::walk::straight(
                #[trigger] crate::categories::c02_launch_config::large_grid_sizes_steps()[j],
            ),
{
    let part1 = crate::categories::c02_launch_config::large_grid_sizes_start_steps();
    let part2 = crate::script::rounds(
        10,
        |k: int| crate::categories::c02_launch_config::large_grid_sizes_samples_round(k as u64),
    );
    let round2 = |k: int| crate::categories::c02_launch_config::large_grid_sizes_samples_round(
        k as u64,
    );
    crate::walk::law_straight_rounds_are_straight(10, round2);
    let part3 = crate::categories::c02_launch_config::large_grid_sizes_end_steps();
    let whole1 = part1;
    let whole2 = whole1 + part2;
    crate::walk::law_straight_scripts_make_a_straight_one(whole1, part2);
    let whole3 = whole2 + part3;
    crate::walk::law_straight_scripts_make_a_straight_one(whole2, part3);
    assert(crate::categories::c02_launch_config::large_grid_sizes_steps() == whole3);
}

/// The test of a million falling numbers passes exactly when a sort leaves all of them, and each
/// number that is looked at is at its place.
pub proof fn law_large_grid_passes_exactly_when_samples_are_right(answers: Seq<Answer>)
    requires
        grid_shaped(answers),
    ensures
        crate::machine::run_of(
            crate::script::plan(
                "large_grid_sizes",
                crate::categories::c02_launch_config::large_grid_sizes_steps(),
            ),
            answers,
        ).progress == Progress::Over(Ending::Passed) <==> {
            &&& grid_start(answers)
            &&& forall|k: int|
                0 <= k < 10 ==> #[trigger] grid_samples(k, answers, 4 + 0 * k)
            &&& grid_end(answers)
        },
{
    let plan = crate::script::plan(
        "large_grid_sizes",
        crate::categories::c02_launch_config::large_grid_sizes_steps(),
    );
    let blank = Contents::blank(plan.texts);
    let part1 = crate::categories::c02_launch_config::large_grid_sizes_start_steps();
    let part2 = crate::script::rounds(
        10,
        |k: int| crate::categories::c02_launch_config::large_grid_sizes_samples_round(k as u64),
    );
    let part3 = crate::categories::c02_launch_config::large_grid_sizes_end_steps();
    let whole1 = part1;
    let whole2 = whole1 + part2;
    let whole3 = whole2 + part3;
    assert(plan.steps == whole3);
    lemma_grid_start(blank, answers);
    crate::walk::law_walks_over_two_scripts_compose(whole1, part2, blank, answers, 0);
    crate::walk::law_walks_over_two_scripts_compose(whole2, part3, blank, answers, 0);
    match crate::walk::walked(whole1, 0, whole1.len() as int, blank, answers, 0) {
        Some((after, _)) => {
            lemma_grid_samples_rounds(after, answers);
            match crate::walk::walked(whole2, 0, whole2.len() as int, blank, answers, 0) {
                Some((after, _)) => {
                    lemma_grid_end(after, answers);
                },
                None => {},
            }
        },
        None => {},
    }
    lemma_grid_straight();
    crate::walk::law_passes_exactly_when_every_step_goes_through(plan, answers);
}

/// Whether the answers to the downloads of the test are columns or refusals.
pub open spec fn practical_shaped(answers: Seq<Answer>) -> bool {
    &&& answers.len() >= 5
    &&& crate::laws::steps::column_or_refusal(answers[3])
}

/// What the device has to answer in the part `start`.
pub open spec fn practical_start(answers: Seq<Answer>) -> bool {
    &&& !(answers[0] is Failed)
    &&& !(answers[1] is Failed)
    &&& answers[2] == Answer::Count(10000000)
    &&& answers[3] is Words
    &&& word_is(answers[3]->Words_0, 0, 0)
    &&& word_is(answers[3]->Words_0, 9999999, 999)
}

/// What the device has to answer in round `k` of the part `samples`, from answer `used` on.
pub open spec fn practical_samples(k: int, answers: Seq<Answer>, used: int) -> bool {
    ordered_at(answers[3]->Words_0, RISING_PLACES@[k] as int, RISING_PLACES@[k + 1] as int)
}

/// What the device has to answer in the part `end`.
pub open spec fn practical_end(answers: Seq<Answer>) -> bool {
    &&& zero_or_one(answers[3]->Words_0)
    &&& !(answers[4] is Failed)
}

/// The part `start`.
proof fn lemma_practical_start(contents: Contents, answers: Seq<Answer>)
    requires
        contents.full(),
        practical_shaped(answers),
    ensures
        match crate::walk::walked(
            crate::categories::c02_launch_config::max_practical_size_start_steps(),
            0,
            7,
            contents,
            answers,
            0,
        ) {
            Some((after, next)) => {
                &&& practical_start(answers)
                &&& after.full()
                &&& next == 4
                &&& after.columns[1] == answers[3]->Words_0
                &&& answers[3] is Words
            },
            None => !practical_start(answers),
        },
        crate::categories::c02_launch_config::max_practical_size_start_steps().len() == 7,
{
    let steps = crate::categories::c02_launch_config::max_practical_size_start_steps();
    crate::laws::words::lemma_cyclic(1000, 10000000, contents);
    let words1 = crate::laws::words::cyclic(1000, 10000000);
    crate::laws::steps::lemma_fill(steps, 0, 7, contents, answers, 0, words1);
    let next1 = contents.with_column(0, words1);
    crate::laws::steps::lemma_command(steps, 1, 7, next1, answers, 0);
    crate::laws::steps::lemma_command(steps, 2, 7, next1, answers, 1);
    crate::laws::steps::lemma_match(steps, 3, 7, next1, answers, 2, 10000000);
    let next2 = next1.with_register(COUNT, 10000000);
    crate::laws::steps::lemma_download(steps, 4, 7, next2, answers, 3);
    if answers[3] is Words {
        let next3 = next2.with_column(1, answers[3]->Words_0);
        lemma_sample(next3, 0);
        crate::laws::steps::lemma_check_or_abort(
            steps,
            5,
            7,
            next3,
            answers,
            4,
            word_is(answers[3]->Words_0, 0, 0),
        );
        crate::laws::steps::lemma_word_at(next3, 1, num(9999999), num(999), 9999999, 999);
        crate::laws::steps::lemma_check_or_abort(
            steps,
            6,
            7,
            next3,
            answers,
            4,
            word_is(answers[3]->Words_0, 9999999, 999),
        );
        crate::laws::steps::lemma_end(steps, 7, next3, answers, 4);
    }
}

/// One round of the part `samples`.
proof fn lemma_practical_samples(k: int, contents: Contents, answers: Seq<Answer>, used: int)
    requires
        0 <= k < 6,
        used == 4 + 0 * k,
        contents.full(),
        practical_shaped(answers),
        contents.columns[1] == answers[3]->Words_0,
        answers[3] is Words,
    ensures
        match crate::walk::walked(
            crate::categories::c02_launch_config::max_practical_size_samples_round(k as u64),
            0,
            1,
            contents,
            answers,
            used,
        ) {
            Some((after, next)) => {
                &&& practical_samples(k, answers, used)
                &&& after.full()
                &&& next == 4 + 0 * (k + 1)
                &&& after.columns[1] == answers[3]->Words_0
                &&& answers[3] is Words
            },
            None => !practical_samples(k, answers, used),
        },
        crate::categories::c02_launch_config::max_practical_size_samples_round(k as u64).len() == 1,
{
    let steps = crate::categories::c02_launch_config::max_practical_size_samples_round(k as u64);
    lemma_ordered_at(contents, RISING_PLACES@[k], RISING_PLACES@[k + 1]);
    crate::laws::steps::lemma_check_or_abort(
        steps,
        0,
        1,
        contents,
        answers,
        used,
        ordered_at(answers[3]->Words_0, RISING_PLACES@[k] as int, RISING_PLACES@[k + 1] as int),
    );
    crate::laws::steps::lemma_end(steps, 1, contents, answers, used);
}

/// All rounds of the part `samples`.
proof fn lemma_practical_samples_rounds(contents: Contents, answers: Seq<Answer>)
    requires
        contents.full(),
        practical_shaped(answers),
        contents.columns[1] == answers[3]->Words_0,
        answers[3] is Words,
    ensures
        ({
            let steps = crate::script::rounds(
                6,
                |k: int| crate::categories::c02_launch_config::max_practical_size_samples_round(
                    k as u64,
                ),
            );
            match crate::walk::walked(steps, 0, steps.len() as int, contents, answers, 4) {
                Some((after, next)) => {
                    &&& forall|k: int|
                        0 <= k < 6 ==> #[trigger] practical_samples(k, answers, 4 + 0 * k)
                    &&& after.full()
                    &&& next == 4
                    &&& after.columns[1] == answers[3]->Words_0
                    &&& answers[3] is Words
                },
                None => !(forall|k: int|
                    0 <= k < 6 ==> #[trigger] practical_samples(k, answers, 4 + 0 * k)),
            }
        }),
{
    let round = |k: int| crate::categories::c02_launch_config::max_practical_size_samples_round(
        k as u64,
    );
    let start = |k: int| 4 + 0 * k;
    let good = |k: int| practical_samples(k, answers, start(k));
    let kept = |contents: Contents|
        contents.full() && contents.columns[1] == answers[3]->Words_0 && answers[3] is Words;
    assert forall|k: int, contents: Contents|
        #![trigger good(k), kept(contents)]
        0 <= k < 6 && kept(contents) implies if good(k) {
        crate::walk::goes_to(round(k), contents, answers, start(k), start(k + 1), kept)
    } else {
        crate::walk::walked(round(k), 0, round(k).len() as int, contents, answers, start(k)) is None
    } by {
        lemma_practical_samples(k, contents, answers, start(k));
    }
    crate::walk::law_rounds_keep_what_each_keeps(6, round, start, good, kept, contents, answers);
    if forall|k: int| 0 <= k < 6 ==> #[trigger] good(k) {
        assert forall|k: int| 0 <= k < 6 implies #[trigger] practical_samples(
            k,
            answers,
            4 + 0 * k,
        ) by {
            assert(good(k));
        }
    } else {
        let k = choose|k: int| 0 <= k < 6 && !(#[trigger] good(k));
        assert(!practical_samples(k, answers, 4 + 0 * k));
    }
}

/// The part `end`.
proof fn lemma_practical_end(contents: Contents, answers: Seq<Answer>)
    requires
        contents.full(),
        practical_shaped(answers),
        contents.columns[1] == answers[3]->Words_0,
        answers[3] is Words,
    ensures
        match crate::walk::walked(
            crate::categories::c02_launch_config::max_practical_size_end_steps(),
            0,
            2,
            contents,
            answers,
            4,
        ) {
            Some((after, next)) => {
                &&& practical_end(answers)
                &&& after.full()
                &&& next == 5
            },
            None => !practical_end(answers),
        },
        crate::categories::c02_launch_config::max_practical_size_end_steps().len() == 2,
{
    let steps = crate::categories::c02_launch_config::max_practical_size_end_steps();
    lemma_zero_or_one(contents);
    crate::laws::steps::lemma_check_or_abort(
        steps,
        0,
        2,
        contents,
        answers,
        4,
        zero_or_one(answers[3]->Words_0),
    );
    crate::laws::steps::lemma_command(steps, 1, 2, contents, answers, 4);
    crate::laws::steps::lemma_end(steps, 2, contents, answers, 5);
}

/// The test has no jumps.
proof fn lemma_practical_straight()
    ensures
        forall|j: int|
            0 <= j < crate::categories::c02_launch_config::max_practical_size_steps().len()
                ==> crate::walk::straight(
                #[trigger] crate::categories::c02_launch_config::max_practical_size_steps()[j],
            ),
{
    let part1 = crate::categories::c02_launch_config::max_practical_size_start_steps();
    let part2 = crate::script::rounds(
        6,
        |k: int| crate::categories::c02_launch_config::max_practical_size_samples_round(k as u64),
    );
    let round2 = |k: int| crate::categories::c02_launch_config::max_practical_size_samples_round(
        k as u64,
    );
    crate::walk::law_straight_rounds_are_straight(6, round2);
    let part3 = crate::categories::c02_launch_config::max_practical_size_end_steps();
    let whole1 = part1;
    let whole2 = whole1 + part2;
    crate::walk::law_straight_scripts_make_a_straight_one(whole1, part2);
    let whole3 = whole2 + part3;
    crate::walk::law_straight_scripts_make_a_straight_one(whole2, part3);
    assert(crate::categories::c02_launch_config::max_practical_size_steps() == whole3);
}

/// The test of ten million words passes exactly when a sort leaves all of them, with the least one
/// first and the greatest one last, the words that are looked at rise, and the one at place ten
/// thousand is zero or one.
pub proof fn law_practical_size_passes_exactly_when_samples_rise(answers: Seq<Answer>)
    requires
        practical_shaped(answers),
    ensures
        crate::machine::run_of(
            crate::script::plan(
                "max_practical_size",
                crate::categories::c02_launch_config::max_practical_size_steps(),
            ),
            answers,
        ).progress == Progress::Over(Ending::Passed) <==> {
            &&& practical_start(answers)
            &&& forall|k: int|
                0 <= k < 6 ==> #[trigger] practical_samples(k, answers, 4 + 0 * k)
            &&& practical_end(answers)
        },
{
    let plan = crate::script::plan(
        "max_practical_size",
        crate::categories::c02_launch_config::max_practical_size_steps(),
    );
    let blank = Contents::blank(plan.texts);
    let part1 = crate::categories::c02_launch_config::max_practical_size_start_steps();
    let part2 = crate::script::rounds(
        6,
        |k: int| crate::categories::c02_launch_config::max_practical_size_samples_round(k as u64),
    );
    let part3 = crate::categories::c02_launch_config::max_practical_size_end_steps();
    let whole1 = part1;
    let whole2 = whole1 + part2;
    let whole3 = whole2 + part3;
    assert(plan.steps == whole3);
    lemma_practical_start(blank, answers);
    crate::walk::law_walks_over_two_scripts_compose(whole1, part2, blank, answers, 0);
    crate::walk::law_walks_over_two_scripts_compose(whole2, part3, blank, answers, 0);
    match crate::walk::walked(whole1, 0, whole1.len() as int, blank, answers, 0) {
        Some((after, _)) => {
            lemma_practical_samples_rounds(after, answers);
            match crate::walk::walked(whole2, 0, whole2.len() as int, blank, answers, 0) {
                Some((after, _)) => {
                    lemma_practical_end(after, answers);
                },
                None => {},
            }
        },
        None => {},
    }
    lemma_practical_straight();
    crate::walk::law_passes_exactly_when_every_step_goes_through(plan, answers);
}

/// Whether the answers to the downloads of the test are columns or refusals.
pub open spec fn repeated_shaped(answers: Seq<Answer>) -> bool {
    &&& answers.len() >= 126
    &&& forall|k: int|
        #![trigger repeated_sorts_start(k)]
        0 <= k < 20 ==> answers[repeated_sorts_start(k) + 1] is Count
    &&& forall|k: int|
        #![trigger repeated_sorts_start(k)]
        0 <= k < 20 && k % 5 == 0 ==> crate::laws::steps::column_or_refusal(
            answers[repeated_sorts_start(k) + 2],
        )
    &&& forall|k: int| 0 <= k < 20 ==> #[trigger] answers[66 + 3 * k] is Count
}

/// What the device has to answer in the part `start`.
pub open spec fn repeated_start(answers: Seq<Answer>) -> bool {
    !(answers[0] is Failed)
}

/// What the device has to answer in round `k` of the part `sorts`, from answer `used` on.
pub open spec fn repeated_sorts(k: int, answers: Seq<Answer>, used: int) -> bool {
    &&& !(answers[used] is Failed)
    &&& answers[used + 1]->Count_0 == 5000
    &&& k % 5 == 0 ==> {
        &&& answers[used + 2] is Words
        &&& answers[used + 2]->Words_0 == crate::laws::words::below(5000)
    }
}

/// What the device has to answer in round `k` of the part `filters`, from answer `used` on.
pub open spec fn repeated_filters(k: int, answers: Seq<Answer>, used: int) -> bool {
    &&& !(answers[used] is Failed)
    &&& answers[used + 1]->Count_0 == 2500
}

/// What the device has to answer in the part `end`.
pub open spec fn repeated_end(answers: Seq<Answer>) -> bool {
    !(answers[125] is Failed)
}

/// The part `start`.
proof fn lemma_repeated_start(contents: Contents, answers: Seq<Answer>)
    requires
        contents.full(),
        repeated_shaped(answers),
    ensures
        match crate::walk::walked(
            crate::categories::c07_local_memory::repeated_operations_start_steps(),
            0,
            2,
            contents,
            answers,
            0,
        ) {
            Some((after, next)) => {
                &&& repeated_start(answers)
                &&& after.full()
                &&& next == 1
                &&& after.columns[0] == crate::laws::words::below(5000)
            },
            None => !repeated_start(answers),
        },
        crate::categories::c07_local_memory::repeated_operations_start_steps().len() == 2,
{
    let steps = crate::categories::c07_local_memory::repeated_operations_start_steps();
    crate::laws::words::lemma_below(5000, contents);
    let words1 = crate::laws::words::below(5000);
    crate::laws::steps::lemma_fill(steps, 0, 2, contents, answers, 0, words1);
    let next1 = contents.with_column(0, words1);
    crate::laws::steps::lemma_command(steps, 1, 2, next1, answers, 0);
    crate::laws::steps::lemma_end(steps, 2, next1, answers, 1);
}

/// Where round `k` of the part `sorts` starts among the answers.
pub open spec fn repeated_sorts_start(k: int) -> int {
    1 + 3 * k + (k + 4) / 5
}

/// One round of the part `sorts`.
proof fn lemma_repeated_sorts(k: int, contents: Contents, answers: Seq<Answer>, used: int)
    requires
        0 <= k < 20,
        used == repeated_sorts_start(k),
        contents.full(),
        repeated_shaped(answers),
        contents.columns[0] == crate::laws::words::below(5000),
    ensures
        match crate::walk::walked(
            crate::categories::c07_local_memory::repeated_operations_sorts_round(k as u64),
            0,
            6,
            contents,
            answers,
            used,
        ) {
            Some((after, next)) => {
                &&& repeated_sorts(k, answers, used)
                &&& after.full()
                &&& next == repeated_sorts_start(k + 1)
                &&& after.columns[0] == crate::laws::words::below(5000)
            },
            None => !repeated_sorts(k, answers, used),
        },
        crate::categories::c07_local_memory::repeated_operations_sorts_round(k as u64).len() == 6,
{
    let steps = crate::categories::c07_local_memory::repeated_operations_sorts_round(k as u64);
    if k % 5 == 0 {
        let first = repeated_sorts_start(k);
        crate::laws::steps::lemma_command(steps, 0, 6, contents, answers, used);
        crate::laws::steps::lemma_number(
            steps,
            1,
            6,
            contents,
            answers,
            used + 1,
            answers[used + 1]->Count_0,
        );
        let next1 = contents.with_register(0, answers[used + 1]->Count_0);
        crate::laws::steps::lemma_register(next1, 0, num(5000), 5000);
        crate::laws::steps::lemma_check(
            steps,
            2,
            6,
            next1,
            answers,
            used + 2,
            !(answers[used + 1]->Count_0 == 5000),
        );
        lemma_looked_at(k, 5, next1);
        crate::laws::steps::lemma_download(steps, 3, 6, next1, answers, used + 2);
        if answers[used + 2] is Words {
            let next2 = next1.with_column(1, answers[used + 2]->Words_0);
            lemma_looked_at(k, 5, next2);
            crate::laws::steps::lemma_not_alike(next2, 1, 0);
            crate::laws::steps::lemma_check(
                steps,
                4,
                6,
                next2,
                answers,
                used + 3,
                !(answers[used + 2]->Words_0 == crate::laws::words::below(5000)),
            );
            crate::laws::steps::lemma_command(steps, 5, 6, next2, answers, used + 3);
            crate::laws::steps::lemma_end(steps, 6, next2, answers, used + 4);
        }
    } else {
        crate::laws::steps::lemma_command(steps, 0, 6, contents, answers, used);
        crate::laws::steps::lemma_number(
            steps,
            1,
            6,
            contents,
            answers,
            used + 1,
            answers[used + 1]->Count_0,
        );
        let next1 = contents.with_register(0, answers[used + 1]->Count_0);
        crate::laws::steps::lemma_register(next1, 0, num(5000), 5000);
        crate::laws::steps::lemma_check(
            steps,
            2,
            6,
            next1,
            answers,
            used + 2,
            !(answers[used + 1]->Count_0 == 5000),
        );
        lemma_looked_at(k, 5, next1);
        crate::laws::steps::lemma_not_taken(steps, 3, 6, next1, answers, used + 2);
        lemma_looked_at(k, 5, next1);
        crate::laws::steps::lemma_not_taken(steps, 4, 6, next1, answers, used + 2);
        crate::laws::steps::lemma_command(steps, 5, 6, next1, answers, used + 2);
        crate::laws::steps::lemma_end(steps, 6, next1, answers, used + 3);
    }
}

/// All rounds of the part `sorts`.
proof fn lemma_repeated_sorts_rounds(contents: Contents, answers: Seq<Answer>)
    requires
        contents.full(),
        repeated_shaped(answers),
        contents.columns[0] == crate::laws::words::below(5000),
    ensures
        ({
            let steps = crate::script::rounds(
                20,
                |k: int| crate::categories::c07_local_memory::repeated_operations_sorts_round(
                    k as u64,
                ),
            );
            match crate::walk::walked(steps, 0, steps.len() as int, contents, answers, 1) {
                Some((after, next)) => {
                    &&& forall|k: int|
                        0 <= k < 20 ==> #[trigger] repeated_sorts(
                            k,
                            answers,
                            repeated_sorts_start(k),
                        )
                    &&& after.full()
                    &&& next == 65
                    &&& after.columns[0] == crate::laws::words::below(5000)
                },
                None => !(forall|k: int|
                    0 <= k < 20 ==> #[trigger] repeated_sorts(k, answers, repeated_sorts_start(k))),
            }
        }),
{
    let round = |k: int| crate::categories::c07_local_memory::repeated_operations_sorts_round(
        k as u64,
    );
    let start = |k: int| repeated_sorts_start(k);
    let good = |k: int| repeated_sorts(k, answers, start(k));
    let kept = |contents: Contents|
        contents.full() && contents.columns[0] == crate::laws::words::below(
        5000,
    );
    assert forall|k: int, contents: Contents|
        #![trigger good(k), kept(contents)]
        0 <= k < 20 && kept(contents) implies if good(k) {
        crate::walk::goes_to(round(k), contents, answers, start(k), start(k + 1), kept)
    } else {
        crate::walk::walked(round(k), 0, round(k).len() as int, contents, answers, start(k)) is None
    } by {
        lemma_repeated_sorts(k, contents, answers, start(k));
    }
    crate::walk::law_rounds_keep_what_each_keeps(20, round, start, good, kept, contents, answers);
    if forall|k: int| 0 <= k < 20 ==> #[trigger] good(k) {
        assert forall|k: int| 0 <= k < 20 implies #[trigger] repeated_sorts(
            k,
            answers,
            repeated_sorts_start(k),
        ) by {
            assert(good(k));
        }
    } else {
        let k = choose|k: int| 0 <= k < 20 && !(#[trigger] good(k));
        assert(!repeated_sorts(k, answers, repeated_sorts_start(k)));
    }
}

/// One round of the part `filters`.
proof fn lemma_repeated_filters(k: int, contents: Contents, answers: Seq<Answer>, used: int)
    requires
        0 <= k < 20,
        used == 65 + 3 * k,
        contents.full(),
        repeated_shaped(answers),
        contents.columns[0] == crate::laws::words::below(5000),
    ensures
        match crate::walk::walked(
            crate::categories::c07_local_memory::repeated_operations_filters_round(k as u64),
            0,
            5,
            contents,
            answers,
            used,
        ) {
            Some((after, next)) => {
                &&& repeated_filters(k, answers, used)
                &&& after.full()
                &&& next == 65 + 3 * (k + 1)
                &&& after.columns[0] == crate::laws::words::below(5000)
            },
            None => !repeated_filters(k, answers, used),
        },
        crate::categories::c07_local_memory::repeated_operations_filters_round(k as u64).len() == 5,
{
    let steps = crate::categories::c07_local_memory::repeated_operations_filters_round(k as u64);
    assert(answers[66 + 3 * k] is Count);
    crate::laws::masks::lemma_remainder_words(2, 5000, contents);
    let words1 = crate::laws::masks::every(2, 5000);
    crate::laws::steps::lemma_fill(steps, 0, 5, contents, answers, used, words1);
    let next1 = contents.with_column(1, words1);
    crate::laws::steps::lemma_command(steps, 1, 5, next1, answers, used);
    crate::laws::steps::lemma_number(
        steps,
        2,
        5,
        next1,
        answers,
        used + 1,
        answers[used + 1]->Count_0,
    );
    let next2 = next1.with_register(0, answers[used + 1]->Count_0);
    crate::laws::steps::lemma_register(next2, 0, num(2500), 2500);
    crate::laws::steps::lemma_check(
        steps,
        3,
        5,
        next2,
        answers,
        used + 2,
        !(answers[used + 1]->Count_0 == 2500),
    );
    crate::laws::steps::lemma_command(steps, 4, 5, next2, answers, used + 2);
    crate::laws::steps::lemma_end(steps, 5, next2, answers, used + 3);
}

/// All rounds of the part `filters`.
proof fn lemma_repeated_filters_rounds(contents: Contents, answers: Seq<Answer>)
    requires
        contents.full(),
        repeated_shaped(answers),
        contents.columns[0] == crate::laws::words::below(5000),
    ensures
        ({
            let steps = crate::script::rounds(
                20,
                |k: int| crate::categories::c07_local_memory::repeated_operations_filters_round(
                    k as u64,
                ),
            );
            match crate::walk::walked(steps, 0, steps.len() as int, contents, answers, 65) {
                Some((after, next)) => {
                    &&& forall|k: int|
                        0 <= k < 20 ==> #[trigger] repeated_filters(k, answers, 65 + 3 * k)
                    &&& after.full()
                    &&& next == 125
                    &&& after.columns[0] == crate::laws::words::below(5000)
                },
                None => !(forall|k: int|
                    0 <= k < 20 ==> #[trigger] repeated_filters(k, answers, 65 + 3 * k)),
            }
        }),
{
    let round = |k: int| crate::categories::c07_local_memory::repeated_operations_filters_round(
        k as u64,
    );
    let start = |k: int| 65 + 3 * k;
    let good = |k: int| repeated_filters(k, answers, start(k));
    let kept = |contents: Contents|
        contents.full() && contents.columns[0] == crate::laws::words::below(
        5000,
    );
    assert forall|k: int, contents: Contents|
        #![trigger good(k), kept(contents)]
        0 <= k < 20 && kept(contents) implies if good(k) {
        crate::walk::goes_to(round(k), contents, answers, start(k), start(k + 1), kept)
    } else {
        crate::walk::walked(round(k), 0, round(k).len() as int, contents, answers, start(k)) is None
    } by {
        lemma_repeated_filters(k, contents, answers, start(k));
    }
    crate::walk::law_rounds_keep_what_each_keeps(20, round, start, good, kept, contents, answers);
    if forall|k: int| 0 <= k < 20 ==> #[trigger] good(k) {
        assert forall|k: int| 0 <= k < 20 implies #[trigger] repeated_filters(
            k,
            answers,
            65 + 3 * k,
        ) by {
            assert(good(k));
        }
    } else {
        let k = choose|k: int| 0 <= k < 20 && !(#[trigger] good(k));
        assert(!repeated_filters(k, answers, 65 + 3 * k));
    }
}

/// The part `end`.
proof fn lemma_repeated_end(contents: Contents, answers: Seq<Answer>)
    requires
        contents.full(),
        repeated_shaped(answers),
        contents.columns[0] == crate::laws::words::below(5000),
    ensures
        match crate::walk::walked(
            crate::categories::c07_local_memory::repeated_operations_end_steps(),
            0,
            1,
            contents,
            answers,
            125,
        ) {
            Some((after, next)) => {
                &&& repeated_end(answers)
                &&& after.full()
                &&& next == 126
            },
            None => !repeated_end(answers),
        },
        crate::categories::c07_local_memory::repeated_operations_end_steps().len() == 1,
{
    let steps = crate::categories::c07_local_memory::repeated_operations_end_steps();
    crate::laws::steps::lemma_command(steps, 0, 1, contents, answers, 125);
    crate::laws::steps::lemma_end(steps, 1, contents, answers, 126);
}

/// The test has no jumps.
proof fn lemma_repeated_straight()
    ensures
        forall|j: int|
            0 <= j < crate::categories::c07_local_memory::repeated_operations_steps().len()
                ==> crate::walk::straight(
                #[trigger] crate::categories::c07_local_memory::repeated_operations_steps()[j],
            ),
{
    let part1 = crate::categories::c07_local_memory::repeated_operations_start_steps();
    let part2 = crate::script::rounds(
        20,
        |k: int| crate::categories::c07_local_memory::repeated_operations_sorts_round(k as u64),
    );
    let round2 = |k: int| crate::categories::c07_local_memory::repeated_operations_sorts_round(
        k as u64,
    );
    crate::walk::law_straight_rounds_are_straight(20, round2);
    let part3 = crate::script::rounds(
        20,
        |k: int| crate::categories::c07_local_memory::repeated_operations_filters_round(k as u64),
    );
    let round3 = |k: int| crate::categories::c07_local_memory::repeated_operations_filters_round(
        k as u64,
    );
    crate::walk::law_straight_rounds_are_straight(20, round3);
    let part4 = crate::categories::c07_local_memory::repeated_operations_end_steps();
    let whole1 = part1;
    let whole2 = whole1 + part2;
    crate::walk::law_straight_scripts_make_a_straight_one(whole1, part2);
    let whole3 = whole2 + part3;
    crate::walk::law_straight_scripts_make_a_straight_one(whole2, part3);
    let whole4 = whole3 + part4;
    crate::walk::law_straight_scripts_make_a_straight_one(whole3, part4);
    assert(crate::categories::c07_local_memory::repeated_operations_steps() == whole4);
}

/// The test of forty operations on one column passes exactly when each of twenty sorts leaves all
/// rows, every fifth of them the column as it was, and each of twenty filters leaves every other
/// row.
pub proof fn law_repeated_operations_pass_exactly_when_every_round_does(answers: Seq<Answer>)
    requires
        repeated_shaped(answers),
    ensures
        crate::machine::run_of(
            crate::script::plan(
                "test_repeated_operations",
                crate::categories::c07_local_memory::repeated_operations_steps(),
            ),
            answers,
        ).progress == Progress::Over(Ending::Passed) <==> {
            &&& repeated_start(answers)
            &&& forall|k: int|
                0 <= k < 20 ==> #[trigger] repeated_sorts(k, answers, repeated_sorts_start(k))
            &&& forall|k: int|
                0 <= k < 20 ==> #[trigger] repeated_filters(k, answers, 65 + 3 * k)
            &&& repeated_end(answers)
        },
{
    let plan = crate::script::plan(
        "test_repeated_operations",
        crate::categories::c07_local_memory::repeated_operations_steps(),
    );
    let blank = Contents::blank(plan.texts);
    let part1 = crate::categories::c07_local_memory::repeated_operations_start_steps();
    let part2 = crate::script::rounds(
        20,
        |k: int| crate::categories::c07_local_memory::repeated_operations_sorts_round(k as u64),
    );
    let part3 = crate::script::rounds(
        20,
        |k: int| crate::categories::c07_local_memory::repeated_operations_filters_round(k as u64),
    );
    let part4 = crate::categories::c07_local_memory::repeated_operations_end_steps();
    let whole1 = part1;
    let whole2 = whole1 + part2;
    let whole3 = whole2 + part3;
    let whole4 = whole3 + part4;
    assert(plan.steps == whole4);
    lemma_repeated_start(blank, answers);
    crate::walk::law_walks_over_two_scripts_compose(whole1, part2, blank, answers, 0);
    crate::walk::law_walks_over_two_scripts_compose(whole2, part3, blank, answers, 0);
    crate::walk::law_walks_over_two_scripts_compose(whole3, part4, blank, answers, 0);
    match crate::walk::walked(whole1, 0, whole1.len() as int, blank, answers, 0) {
        Some((after, _)) => {
            lemma_repeated_sorts_rounds(after, answers);
            match crate::walk::walked(whole2, 0, whole2.len() as int, blank, answers, 0) {
                Some((after, _)) => {
                    lemma_repeated_filters_rounds(after, answers);
                    match crate::walk::walked(whole3, 0, whole3.len() as int, blank, answers, 0) {
                        Some((after, _)) => {
                            lemma_repeated_end(after, answers);
                        },
                        None => {},
                    }
                },
                None => {},
            }
        },
        None => {},
    }
    lemma_repeated_straight();
    crate::walk::law_passes_exactly_when_every_step_goes_through(plan, answers);
}

/// Whether the answers to the downloads of the test are columns or refusals.
pub open spec fn transfers_shaped(answers: Seq<Answer>) -> bool {
    &&& answers.len() >= 3411
    &&& forall|k: int|
        0 <= k < 500 ==> crate::laws::steps::column_or_refusal(#[trigger] answers[1 + 3 * k])
    &&& forall|k: int|
        #![trigger transfers_sorts_start(k)]
        0 <= k < 500 && k % 50 == 0 ==> crate::laws::steps::column_or_refusal(
            answers[transfers_sorts_start(k) + 2],
        )
    &&& forall|k: int|
        0 <= k < 100 ==> crate::laws::steps::column_or_refusal(#[trigger] answers[3012 + 4 * k])
}

/// What the device has to answer in round `k` of the part `transfers`, from answer `used` on.
pub open spec fn transfers_transfers(k: int, answers: Seq<Answer>, used: int) -> bool {
    &&& !(answers[used] is Failed)
    &&& answers[used + 1] is Words
    &&& answers[used + 1]->Words_0.len() == 1000
    &&& same_ends(answers[used + 1]->Words_0, transferred(k))
}

/// What the device has to answer in round `k` of the part `sorts`, from answer `used` on.
pub open spec fn transfers_sorts(k: int, answers: Seq<Answer>, used: int) -> bool {
    &&& !(answers[used] is Failed)
    &&& !(answers[used + 1] is Failed)
    &&& k % 50 == 0 ==> {
        &&& answers[used + 2] is Words
        &&& crate::laws::steps::counts_up(answers[used + 2]->Words_0)
    }
}

/// What the device has to answer in round `k` of the part `filters`, from answer `used` on.
pub open spec fn transfers_filters(k: int, answers: Seq<Answer>, used: int) -> bool {
    &&& !(answers[used] is Failed)
    &&& !(answers[used + 1] is Failed)
    &&& answers[used + 2] is Words
    &&& answers[used + 2]->Words_0.len() == 500
}

/// What the device has to answer in the part `end`.
pub open spec fn transfers_end(answers: Seq<Answer>) -> bool {
    !(answers[3410] is Failed)
}

/// One round of the part `transfers`.
proof fn lemma_transfers_transfers(k: int, contents: Contents, answers: Seq<Answer>, used: int)
    requires
        0 <= k < 500,
        used == 3 * k,
        contents.full(),
        transfers_shaped(answers),
    ensures
        match crate::walk::walked(
            crate::categories::c18_host_device::repeated_transfer_transfers_round(k as u64),
            0,
            6,
            contents,
            answers,
            used,
        ) {
            Some((after, next)) => {
                &&& transfers_transfers(k, answers, used)
                &&& after.full()
                &&& next == 3 * (k + 1)
            },
            None => !transfers_transfers(k, answers, used),
        },
        crate::categories::c18_host_device::repeated_transfer_transfers_round(k as u64).len() == 6,
{
    let steps = crate::categories::c18_host_device::repeated_transfer_transfers_round(k as u64);
    assert(crate::laws::steps::column_or_refusal(answers[1 + 3 * k]));
    lemma_transferred(k, contents);
    let words1 = transferred(k);
    crate::laws::steps::lemma_fill(steps, 0, 6, contents, answers, used, words1);
    let next1 = contents.with_column(0, words1);
    crate::laws::steps::lemma_command(steps, 1, 6, next1, answers, used);
    crate::laws::steps::lemma_download(steps, 2, 6, next1, answers, used + 1);
    if answers[used + 1] is Words {
        let next2 = next1.with_column(1, answers[used + 1]->Words_0);
        crate::laws::steps::lemma_lengths(next2, 0, 1);
        crate::laws::steps::lemma_check(
            steps,
            3,
            6,
            next2,
            answers,
            used + 2,
            !(answers[used + 1]->Words_0.len() == 1000),
        );
        if answers[used + 1]->Words_0.len() == 1000 {
            lemma_same_ends(next2);
            crate::laws::steps::lemma_check_or_abort(
                steps,
                4,
                6,
                next2,
                answers,
                used + 2,
                same_ends(answers[used + 1]->Words_0, transferred(k)),
            );
        }
        crate::laws::steps::lemma_command(steps, 5, 6, next2, answers, used + 2);
        crate::laws::steps::lemma_end(steps, 6, next2, answers, used + 3);
    }
}

/// All rounds of the part `transfers`.
proof fn lemma_transfers_transfers_rounds(contents: Contents, answers: Seq<Answer>)
    requires
        contents.full(),
        transfers_shaped(answers),
    ensures
        ({
            let steps = crate::script::rounds(
                500,
                |k: int| crate::categories::c18_host_device::repeated_transfer_transfers_round(
                    k as u64,
                ),
            );
            match crate::walk::walked(steps, 0, steps.len() as int, contents, answers, 0) {
                Some((after, next)) => {
                    &&& forall|k: int|
                        0 <= k < 500 ==> #[trigger] transfers_transfers(k, answers, 3 * k)
                    &&& after.full()
                    &&& next == 1500
                },
                None => !(forall|k: int|
                    0 <= k < 500 ==> #[trigger] transfers_transfers(k, answers, 3 * k)),
            }
        }),
{
    let round = |k: int| crate::categories::c18_host_device::repeated_transfer_transfers_round(
        k as u64,
    );
    let start = |k: int| 3 * k;
    let good = |k: int| transfers_transfers(k, answers, start(k));
    let kept = |contents: Contents| contents.full();
    assert forall|k: int, contents: Contents|
        #![trigger good(k), kept(contents)]
        0 <= k < 500 && kept(contents) implies if good(k) {
        crate::walk::goes_to(round(k), contents, answers, start(k), start(k + 1), kept)
    } else {
        crate::walk::walked(round(k), 0, round(k).len() as int, contents, answers, start(k)) is None
    } by {
        lemma_transfers_transfers(k, contents, answers, start(k));
    }
    crate::walk::law_rounds_keep_what_each_keeps(500, round, start, good, kept, contents, answers);
    if forall|k: int| 0 <= k < 500 ==> #[trigger] good(k) {
        assert forall|k: int| 0 <= k < 500 implies #[trigger] transfers_transfers(
            k,
            answers,
            3 * k,
        ) by {
            assert(good(k));
        }
    } else {
        let k = choose|k: int| 0 <= k < 500 && !(#[trigger] good(k));
        assert(!transfers_transfers(k, answers, 3 * k));
    }
}

/// Where round `k` of the part `sorts` starts among the answers.
pub open spec fn transfers_sorts_start(k: int) -> int {
    1500 + 3 * k + (k + 49) / 50
}

/// One round of the part `sorts`.
proof fn lemma_transfers_sorts(k: int, contents: Contents, answers: Seq<Answer>, used: int)
    requires
        0 <= k < 500,
        used == transfers_sorts_start(k),
        contents.full(),
        transfers_shaped(answers),
    ensures
        match crate::walk::walked(
            crate::categories::c18_host_device::repeated_transfer_sorts_round(k as u64),
            0,
            6,
            contents,
            answers,
            used,
        ) {
            Some((after, next)) => {
                &&& transfers_sorts(k, answers, used)
                &&& after.full()
                &&& next == transfers_sorts_start(k + 1)
            },
            None => !transfers_sorts(k, answers, used),
        },
        crate::categories::c18_host_device::repeated_transfer_sorts_round(k as u64).len() == 6,
{
    let steps = crate::categories::c18_host_device::repeated_transfer_sorts_round(k as u64);
    if k % 50 == 0 {
        let first = transfers_sorts_start(k);
        crate::laws::words::lemma_below(1000, contents);
        let words1 = crate::laws::words::below(1000);
        crate::laws::steps::lemma_fill(steps, 0, 6, contents, answers, used, words1);
        let next1 = contents.with_column(0, words1);
        crate::laws::steps::lemma_command(steps, 1, 6, next1, answers, used);
        crate::laws::steps::lemma_command(steps, 2, 6, next1, answers, used + 1);
        lemma_looked_at(k, 50, next1);
        crate::laws::steps::lemma_download(steps, 3, 6, next1, answers, used + 2);
        if answers[used + 2] is Words {
            let next2 = next1.with_column(1, answers[used + 2]->Words_0);
            lemma_looked_at(k, 50, next2);
            crate::laws::steps::lemma_scan_places(steps, 4, 6, next2, answers, used + 3, 1);
            crate::laws::steps::lemma_command(steps, 5, 6, next2, answers, used + 3);
            crate::laws::steps::lemma_end(steps, 6, next2, answers, used + 4);
        }
    } else {
        crate::laws::words::lemma_below(1000, contents);
        let words1 = crate::laws::words::below(1000);
        crate::laws::steps::lemma_fill(steps, 0, 6, contents, answers, used, words1);
        let next1 = contents.with_column(0, words1);
        crate::laws::steps::lemma_command(steps, 1, 6, next1, answers, used);
        crate::laws::steps::lemma_command(steps, 2, 6, next1, answers, used + 1);
        lemma_looked_at(k, 50, next1);
        crate::laws::steps::lemma_not_taken(steps, 3, 6, next1, answers, used + 2);
        lemma_looked_at(k, 50, next1);
        crate::laws::steps::lemma_not_taken(steps, 4, 6, next1, answers, used + 2);
        crate::laws::steps::lemma_command(steps, 5, 6, next1, answers, used + 2);
        crate::laws::steps::lemma_end(steps, 6, next1, answers, used + 3);
    }
}

/// All rounds of the part `sorts`.
proof fn lemma_transfers_sorts_rounds(contents: Contents, answers: Seq<Answer>)
    requires
        contents.full(),
        transfers_shaped(answers),
    ensures
        ({
            let steps = crate::script::rounds(
                500,
                |k: int| crate::categories::c18_host_device::repeated_transfer_sorts_round(
                    k as u64,
                ),
            );
            match crate::walk::walked(steps, 0, steps.len() as int, contents, answers, 1500) {
                Some((after, next)) => {
                    &&& forall|k: int|
                        0 <= k < 500 ==> #[trigger] transfers_sorts(
                            k,
                            answers,
                            transfers_sorts_start(k),
                        )
                    &&& after.full()
                    &&& next == 3010
                },
                None => !(forall|k: int|
                    0 <= k < 500
                        ==> #[trigger] transfers_sorts(k, answers, transfers_sorts_start(k))),
            }
        }),
{
    let round = |k: int| crate::categories::c18_host_device::repeated_transfer_sorts_round(
        k as u64,
    );
    let start = |k: int| transfers_sorts_start(k);
    let good = |k: int| transfers_sorts(k, answers, start(k));
    let kept = |contents: Contents| contents.full();
    assert forall|k: int, contents: Contents|
        #![trigger good(k), kept(contents)]
        0 <= k < 500 && kept(contents) implies if good(k) {
        crate::walk::goes_to(round(k), contents, answers, start(k), start(k + 1), kept)
    } else {
        crate::walk::walked(round(k), 0, round(k).len() as int, contents, answers, start(k)) is None
    } by {
        lemma_transfers_sorts(k, contents, answers, start(k));
    }
    crate::walk::law_rounds_keep_what_each_keeps(500, round, start, good, kept, contents, answers);
    if forall|k: int| 0 <= k < 500 ==> #[trigger] good(k) {
        assert forall|k: int| 0 <= k < 500 implies #[trigger] transfers_sorts(
            k,
            answers,
            transfers_sorts_start(k),
        ) by {
            assert(good(k));
        }
    } else {
        let k = choose|k: int| 0 <= k < 500 && !(#[trigger] good(k));
        assert(!transfers_sorts(k, answers, transfers_sorts_start(k)));
    }
}

/// One round of the part `filters`.
proof fn lemma_transfers_filters(k: int, contents: Contents, answers: Seq<Answer>, used: int)
    requires
        0 <= k < 100,
        used == 3010 + 4 * k,
        contents.full(),
        transfers_shaped(answers),
    ensures
        match crate::walk::walked(
            crate::categories::c18_host_device::repeated_transfer_filters_round(k as u64),
            0,
            7,
            contents,
            answers,
            used,
        ) {
            Some((after, next)) => {
                &&& transfers_filters(k, answers, used)
                &&& after.full()
                &&& next == 3010 + 4 * (k + 1)
            },
            None => !transfers_filters(k, answers, used),
        },
        crate::categories::c18_host_device::repeated_transfer_filters_round(k as u64).len() == 7,
{
    let steps = crate::categories::c18_host_device::repeated_transfer_filters_round(k as u64);
    assert(crate::laws::steps::column_or_refusal(answers[3012 + 4 * k]));
    lemma_stepped(k, contents);
    let words1 = stepped(k);
    crate::laws::steps::lemma_fill(steps, 0, 7, contents, answers, used, words1);
    let next1 = contents.with_column(0, words1);
    crate::laws::steps::lemma_command(steps, 1, 7, next1, answers, used);
    crate::laws::masks::lemma_remainder_words(2, 1000, next1);
    let words2 = crate::laws::masks::every(2, 1000);
    crate::laws::steps::lemma_fill(steps, 2, 7, next1, answers, used + 1, words2);
    let next2 = next1.with_column(1, words2);
    crate::laws::steps::lemma_command(steps, 3, 7, next2, answers, used + 1);
    crate::laws::steps::lemma_download(steps, 4, 7, next2, answers, used + 2);
    if answers[used + 2] is Words {
        let next3 = next2.with_column(2, answers[used + 2]->Words_0);
        lemma_length(next3, 2, 500);
        crate::laws::steps::lemma_check(
            steps,
            5,
            7,
            next3,
            answers,
            used + 3,
            !(answers[used + 2]->Words_0.len() == 500),
        );
        crate::laws::steps::lemma_command(steps, 6, 7, next3, answers, used + 3);
        crate::laws::steps::lemma_end(steps, 7, next3, answers, used + 4);
    }
}

/// All rounds of the part `filters`.
proof fn lemma_transfers_filters_rounds(contents: Contents, answers: Seq<Answer>)
    requires
        contents.full(),
        transfers_shaped(answers),
    ensures
        ({
            let steps = crate::script::rounds(
                100,
                |k: int| crate::categories::c18_host_device::repeated_transfer_filters_round(
                    k as u64,
                ),
            );
            match crate::walk::walked(steps, 0, steps.len() as int, contents, answers, 3010) {
                Some((after, next)) => {
                    &&& forall|k: int|
                        0 <= k < 100 ==> #[trigger] transfers_filters(k, answers, 3010 + 4 * k)
                    &&& after.full()
                    &&& next == 3410
                },
                None => !(forall|k: int|
                    0 <= k < 100 ==> #[trigger] transfers_filters(k, answers, 3010 + 4 * k)),
            }
        }),
{
    let round = |k: int| crate::categories::c18_host_device::repeated_transfer_filters_round(
        k as u64,
    );
    let start = |k: int| 3010 + 4 * k;
    let good = |k: int| transfers_filters(k, answers, start(k));
    let kept = |contents: Contents| contents.full();
    assert forall|k: int, contents: Contents|
        #![trigger good(k), kept(contents)]
        0 <= k < 100 && kept(contents) implies if good(k) {
        crate::walk::goes_to(round(k), contents, answers, start(k), start(k + 1), kept)
    } else {
        crate::walk::walked(round(k), 0, round(k).len() as int, contents, answers, start(k)) is None
    } by {
        lemma_transfers_filters(k, contents, answers, start(k));
    }
    crate::walk::law_rounds_keep_what_each_keeps(100, round, start, good, kept, contents, answers);
    if forall|k: int| 0 <= k < 100 ==> #[trigger] good(k) {
        assert forall|k: int| 0 <= k < 100 implies #[trigger] transfers_filters(
            k,
            answers,
            3010 + 4 * k,
        ) by {
            assert(good(k));
        }
    } else {
        let k = choose|k: int| 0 <= k < 100 && !(#[trigger] good(k));
        assert(!transfers_filters(k, answers, 3010 + 4 * k));
    }
}

/// The part `end`.
proof fn lemma_transfers_end(contents: Contents, answers: Seq<Answer>)
    requires
        contents.full(),
        transfers_shaped(answers),
    ensures
        match crate::walk::walked(
            crate::categories::c18_host_device::repeated_transfer_end_steps(),
            0,
            1,
            contents,
            answers,
            3410,
        ) {
            Some((after, next)) => {
                &&& transfers_end(answers)
                &&& after.full()
                &&& next == 3411
            },
            None => !transfers_end(answers),
        },
        crate::categories::c18_host_device::repeated_transfer_end_steps().len() == 1,
{
    let steps = crate::categories::c18_host_device::repeated_transfer_end_steps();
    crate::laws::steps::lemma_command(steps, 0, 1, contents, answers, 3410);
    crate::laws::steps::lemma_end(steps, 1, contents, answers, 3411);
}

/// The test has no jumps.
proof fn lemma_transfers_straight()
    ensures
        forall|j: int|
            0 <= j < crate::categories::c18_host_device::repeated_transfer_steps().len()
                ==> crate::walk::straight(
                #[trigger] crate::categories::c18_host_device::repeated_transfer_steps()[j],
            ),
{
    let part1 = crate::script::rounds(
        500,
        |k: int| crate::categories::c18_host_device::repeated_transfer_transfers_round(k as u64),
    );
    let round1 = |k: int| crate::categories::c18_host_device::repeated_transfer_transfers_round(
        k as u64,
    );
    crate::walk::law_straight_rounds_are_straight(500, round1);
    let part2 = crate::script::rounds(
        500,
        |k: int| crate::categories::c18_host_device::repeated_transfer_sorts_round(k as u64),
    );
    let round2 = |k: int| crate::categories::c18_host_device::repeated_transfer_sorts_round(
        k as u64,
    );
    crate::walk::law_straight_rounds_are_straight(500, round2);
    let part3 = crate::script::rounds(
        100,
        |k: int| crate::categories::c18_host_device::repeated_transfer_filters_round(k as u64),
    );
    let round3 = |k: int| crate::categories::c18_host_device::repeated_transfer_filters_round(
        k as u64,
    );
    crate::walk::law_straight_rounds_are_straight(100, round3);
    let part4 = crate::categories::c18_host_device::repeated_transfer_end_steps();
    let whole1 = part1;
    let whole2 = whole1 + part2;
    crate::walk::law_straight_scripts_make_a_straight_one(whole1, part2);
    let whole3 = whole2 + part3;
    crate::walk::law_straight_scripts_make_a_straight_one(whole2, part3);
    let whole4 = whole3 + part4;
    crate::walk::law_straight_scripts_make_a_straight_one(whole3, part4);
    assert(crate::categories::c18_host_device::repeated_transfer_steps() == whole4);
}

/// The test of eleven hundred transfers passes exactly when each of five hundred columns comes back
/// as long as it was, with the same first and last word, each of five hundred sorts is carried out,
/// every fiftieth with every number at its place, and each of a hundred filters hands out five
/// hundred words.
pub proof fn law_repeated_transfers_pass_exactly_when_every_round_does(answers: Seq<Answer>)
    requires
        transfers_shaped(answers),
    ensures
        crate::machine::run_of(
            crate::script::plan(
                "test_repeated_transfer",
                crate::categories::c18_host_device::repeated_transfer_steps(),
            ),
            answers,
        ).progress == Progress::Over(Ending::Passed) <==> {
            &&& forall|k: int|
                0 <= k < 500 ==> #[trigger] transfers_transfers(k, answers, 3 * k)
            &&& forall|k: int|
                0 <= k < 500 ==> #[trigger] transfers_sorts(k, answers, transfers_sorts_start(k))
            &&& forall|k: int|
                0 <= k < 100 ==> #[trigger] transfers_filters(k, answers, 3010 + 4 * k)
            &&& transfers_end(answers)
        },
{
    let plan = crate::script::plan(
        "test_repeated_transfer",
        crate::categories::c18_host_device::repeated_transfer_steps(),
    );
    let blank = Contents::blank(plan.texts);
    let part1 = crate::script::rounds(
        500,
        |k: int| crate::categories::c18_host_device::repeated_transfer_transfers_round(k as u64),
    );
    let part2 = crate::script::rounds(
        500,
        |k: int| crate::categories::c18_host_device::repeated_transfer_sorts_round(k as u64),
    );
    let part3 = crate::script::rounds(
        100,
        |k: int| crate::categories::c18_host_device::repeated_transfer_filters_round(k as u64),
    );
    let part4 = crate::categories::c18_host_device::repeated_transfer_end_steps();
    let whole1 = part1;
    let whole2 = whole1 + part2;
    let whole3 = whole2 + part3;
    let whole4 = whole3 + part4;
    assert(plan.steps == whole4);
    lemma_transfers_transfers_rounds(blank, answers);
    crate::walk::law_walks_over_two_scripts_compose(whole1, part2, blank, answers, 0);
    crate::walk::law_walks_over_two_scripts_compose(whole2, part3, blank, answers, 0);
    crate::walk::law_walks_over_two_scripts_compose(whole3, part4, blank, answers, 0);
    match crate::walk::walked(whole1, 0, whole1.len() as int, blank, answers, 0) {
        Some((after, _)) => {
            lemma_transfers_sorts_rounds(after, answers);
            match crate::walk::walked(whole2, 0, whole2.len() as int, blank, answers, 0) {
                Some((after, _)) => {
                    lemma_transfers_filters_rounds(after, answers);
                    match crate::walk::walked(whole3, 0, whole3.len() as int, blank, answers, 0) {
                        Some((after, _)) => {
                            lemma_transfers_end(after, answers);
                        },
                        None => {},
                    }
                },
                None => {},
            }
        },
        None => {},
    }
    lemma_transfers_straight();
    crate::walk::law_passes_exactly_when_every_step_goes_through(plan, answers);
}

} // verus!
