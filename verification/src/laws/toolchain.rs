//! The laws of the tests of loaded modules and of plain transfers.

use vstd::prelude::*;
use crate::expr::{ix, lt, num, plus, reg, same_as, times};
use crate::machine::{Answer, Ending, Progress};
use crate::memory::Contents;
use crate::tables::Table;

verus! {

/// Whether all words of a column are the same certain one.
pub open spec fn all_are(words: Seq<u64>, word: u64) -> bool {
    forall|i: int| 0 <= i < words.len() ==> #[trigger] words[i] == word
}

/// The same word at every place.
proof fn lemma_all_are(contents: Contents, slot: u64, word: u64)
    requires
        slot < contents.columns.len(),
        contents.columns[slot as int].len() <= u64::MAX,
    ensures
        crate::laws::steps::each_is(contents, slot, num(word)) <==> all_are(
            contents.columns[slot as int],
            word,
        ),
{
    let words = contents.columns[slot as int];
    assert forall|i: int| 0 <= i < words.len() implies #[trigger] crate::expr::value_of(
        num(word),
        contents,
        i as u64,
    ) == Some(word) by {}
    if all_are(words, word) {
        assert forall|i: int| 0 <= i < words.len() implies #[trigger] crate::expr::value_of(
            num(word),
            contents,
            i as u64,
        ) == Some(words[i]) by {
            assert(words[i] == word);
        }
    } else {
        let i = choose|i: int| 0 <= i < words.len() && #[trigger] words[i] != word;
        assert(crate::expr::value_of(num(word), contents, i as u64) != Some(words[i]));
    }
}

/// The words of round `k`: 1024 numbers, from a thousand times the round on.
pub open spec fn round_words(k: int) -> Seq<u64> {
    Seq::new(1024, |i: int| (i + k * 1000) as u64)
}

/// One of the words of [`round_words`].
proof fn lemma_round_word(k: int, contents: Contents, i: u64)
    requires
        0 <= k < 15,
        i < 1024,
    ensures
        crate::expr::value_of(plus(ix(), times(num(k as u64), num(1000))), contents, i) == Some(
            round_words(k)[i as int],
        ),
{
    reveal_with_fuel(crate::expr::value_of, 3);
}

/// The words of [`round_words`].
proof fn lemma_round_words(k: int, contents: Contents)
    requires
        0 <= k < 15,
    ensures
        forall|i: int|
            0 <= i < 1024 ==> #[trigger] crate::expr::value_of(
                plus(ix(), times(num(k as u64), num(1000))),
                contents,
                i as u64,
            ) == Some(round_words(k)[i]),
{
    assert forall|i: int| 0 <= i < 1024 implies #[trigger] crate::expr::value_of(
        plus(ix(), times(num(k as u64), num(1000))),
        contents,
        i as u64,
    ) == Some(round_words(k)[i]) by {
        lemma_round_word(k, contents, i as u64);
    }
}

/// Whether a register is not zero, and whether it is past a hundred.
proof fn lemma_plain_register(contents: Contents)
    requires
        contents.full(),
    ensures
        crate::expr::value_of(same_as(reg(0), num(0)), contents, 0) == Some(
            crate::expr::truth(contents.registers[0] == 0),
        ),
        crate::expr::value_of(lt(num(100), reg(0)), contents, 0) == Some(
            crate::expr::truth(100 < contents.registers[0]),
        ),
{
    reveal_with_fuel(crate::expr::value_of, 3);
}

/// Whether the answers to the downloads of the test are columns or refusals.
pub open spec fn loaded_shaped(answers: Seq<Answer>) -> bool {
    &&& answers.len() >= 2
    &&& answers[1] is Count
}

/// What the device has to answer.
pub open spec fn loaded_answers(answers: Seq<Answer>) -> bool {
    &&& !(answers[0] is Failed)
    &&& answers[1]->Count_0 <= 100
}

/// The steps of the test.
proof fn lemma_loaded_answers(contents: Contents, answers: Seq<Answer>)
    requires
        contents.full(),
        loaded_shaped(answers),
    ensures
        match crate::walk::walked(
            crate::categories::c01_toolchain::ptx_loads_successfully_steps(),
            0,
            3,
            contents,
            answers,
            0,
        ) {
            Some((after, next)) => {
                &&& loaded_answers(answers)
                &&& after.full()
                &&& next == 2
            },
            None => !loaded_answers(answers),
        },
        crate::categories::c01_toolchain::ptx_loads_successfully_steps().len() == 3,
{
    let steps = crate::categories::c01_toolchain::ptx_loads_successfully_steps();
    crate::laws::steps::lemma_command(steps, 0, 3, contents, answers, 0);
    crate::laws::steps::lemma_number(steps, 1, 3, contents, answers, 1, answers[1]->Count_0);
    let next1 = contents.with_register(0, answers[1]->Count_0);
    lemma_plain_register(next1);
    crate::laws::steps::lemma_check(steps, 2, 3, next1, answers, 2, !(answers[1]->Count_0 <= 100));
    crate::laws::steps::lemma_end(steps, 3, next1, answers, 2);
}

/// The test has no jumps.
proof fn lemma_loaded_straight()
    ensures
        forall|j: int|
            0 <= j < crate::categories::c01_toolchain::ptx_loads_successfully_steps().len()
                ==> crate::walk::straight(
                #[trigger] crate::categories::c01_toolchain::ptx_loads_successfully_steps()[j],
            ),
{
}

/// The test of loaded modules passes exactly when the device reports no fault, and its ordinal is
/// at most a hundred.
pub proof fn law_loading_passes_exactly_when_the_ordinal_is_plausible(answers: Seq<Answer>)
    requires
        loaded_shaped(answers),
    ensures
        crate::machine::run_of(
            crate::script::plan(
                "test_ptx_loads_successfully",
                crate::categories::c01_toolchain::ptx_loads_successfully_steps(),
            ),
            answers,
        ).progress == Progress::Over(Ending::Passed) <==> loaded_answers(answers),
{
    let plan = crate::script::plan(
        "test_ptx_loads_successfully",
        crate::categories::c01_toolchain::ptx_loads_successfully_steps(),
    );
    let blank = Contents::blank(plan.texts);
    lemma_loaded_answers(blank, answers);
    lemma_loaded_straight();
    crate::walk::law_passes_exactly_when_every_step_goes_through(plan, answers);
}

/// Whether the answers to the downloads of the test are columns or refusals.
pub open spec fn wide_shaped(answers: Seq<Answer>) -> bool {
    &&& answers.len() >= 8
    &&& crate::laws::steps::column_or_refusal(answers[3])
    &&& crate::laws::steps::column_or_refusal(answers[6])
}

/// What the device has to answer.
pub open spec fn wide_answers(answers: Seq<Answer>) -> bool {
    &&& !(answers[0] is Failed)
    &&& !(answers[1] is Failed)
    &&& !(answers[2] is Failed)
    &&& answers[3] is Words
    &&& all_are(answers[3]->Words_0, 0xffff_ffff_ffff_ffff)
    &&& !(answers[4] is Failed)
    &&& !(answers[5] is Failed)
    &&& answers[6] is Words
    &&& crate::laws::steps::agree(crate::tables::words_of(Table::BitPatterns), answers[6]->Words_0)
    &&& !(answers[7] is Failed)
}

/// The steps of the test.
proof fn lemma_wide_answers(contents: Contents, answers: Seq<Answer>)
    requires
        contents.full(),
        wide_shaped(answers),
    ensures
        match crate::walk::walked(
            crate::categories::c01_toolchain::ptx_module_attributes_steps(),
            0,
            12,
            contents,
            answers,
            0,
        ) {
            Some((after, next)) => {
                &&& wide_answers(answers)
                &&& after.full()
                &&& next == 8
            },
            None => !wide_answers(answers),
        },
        crate::categories::c01_toolchain::ptx_module_attributes_steps().len() == 12,
{
    let steps = crate::categories::c01_toolchain::ptx_module_attributes_steps();
    crate::laws::words::lemma_constant(0xffff_ffff_ffff_ffff, 16, contents);
    let words1 = crate::laws::words::constant(0xffff_ffff_ffff_ffff, 16);
    crate::laws::steps::lemma_fill(steps, 0, 12, contents, answers, 0, words1);
    let next1 = contents.with_column(0, words1);
    crate::laws::steps::lemma_command(steps, 1, 12, next1, answers, 0);
    crate::laws::steps::lemma_command(steps, 2, 12, next1, answers, 1);
    crate::laws::steps::lemma_command(steps, 3, 12, next1, answers, 2);
    crate::laws::steps::lemma_download(steps, 4, 12, next1, answers, 3);
    if answers[3] is Words {
        let next2 = next1.with_column(1, answers[3]->Words_0);
        lemma_all_are(next2, 1, 0xffff_ffff_ffff_ffff);
        crate::laws::steps::lemma_scan_each(
            steps,
            5,
            12,
            next2,
            answers,
            4,
            1,
            num(0xffff_ffff_ffff_ffff),
        );
        crate::laws::numbers::lemma_entries(Table::BitPatterns, next2);
        let words3 = crate::tables::words_of(Table::BitPatterns);
        crate::laws::steps::lemma_fill(steps, 6, 12, next2, answers, 4, words3);
        let next3 = next2.with_column(2, words3);
        crate::laws::steps::lemma_command(steps, 7, 12, next3, answers, 4);
        crate::laws::steps::lemma_command(steps, 8, 12, next3, answers, 5);
        crate::laws::steps::lemma_download(steps, 9, 12, next3, answers, 6);
        if answers[6] is Words {
            let next4 = next3.with_column(3, answers[6]->Words_0);
            crate::laws::steps::lemma_scan_differences(steps, 10, 12, next4, answers, 7, 2, 3);
            crate::laws::steps::lemma_command(steps, 11, 12, next4, answers, 7);
            crate::laws::steps::lemma_end(steps, 12, next4, answers, 8);
        }
    }
}

/// The test has no jumps.
proof fn lemma_wide_straight()
    ensures
        forall|j: int|
            0 <= j < crate::categories::c01_toolchain::ptx_module_attributes_steps().len()
                ==> crate::walk::straight(
                #[trigger] crate::categories::c01_toolchain::ptx_module_attributes_steps()[j],
            ),
{
}

/// The test of 64-bit words passes exactly when the greatest words come back as such, and the
/// patterns of bits as they were, as far as the device hands any out.
pub proof fn law_wide_words_pass_exactly_when_they_come_back(answers: Seq<Answer>)
    requires
        wide_shaped(answers),
    ensures
        crate::machine::run_of(
            crate::script::plan(
                "test_ptx_module_attributes",
                crate::categories::c01_toolchain::ptx_module_attributes_steps(),
            ),
            answers,
        ).progress == Progress::Over(Ending::Passed) <==> wide_answers(answers),
{
    let plan = crate::script::plan(
        "test_ptx_module_attributes",
        crate::categories::c01_toolchain::ptx_module_attributes_steps(),
    );
    let blank = Contents::blank(plan.texts);
    lemma_wide_answers(blank, answers);
    lemma_wide_straight();
    crate::walk::law_passes_exactly_when_every_step_goes_through(plan, answers);
}

/// Whether the answers to the downloads of the test are columns or refusals.
pub open spec fn rounds_shaped(answers: Seq<Answer>) -> bool {
    &&& answers.len() >= 77
    &&& forall|k: int|
        0 <= k < 15 ==> crate::laws::steps::column_or_refusal(#[trigger] answers[2 + 5 * k])
    &&& answers[75] is Count
}

/// What the device has to answer in round `k` of the part `iterations`, from answer `used` on.
pub open spec fn rounds_iterations(k: int, answers: Seq<Answer>, used: int) -> bool {
    &&& !(answers[used] is Failed)
    &&& !(answers[used + 1] is Failed)
    &&& answers[used + 2] is Words
    &&& crate::laws::steps::agree(round_words(k), answers[used + 2]->Words_0)
    &&& !(answers[used + 3] is Failed)
}

/// What the device has to answer in the part `end`.
pub open spec fn rounds_end(answers: Seq<Answer>) -> bool {
    &&& answers[75]->Count_0 != 0
    &&& !(answers[76] is Failed)
}

/// One round of the part `iterations`.
proof fn lemma_rounds_iterations(k: int, contents: Contents, answers: Seq<Answer>, used: int)
    requires
        0 <= k < 15,
        used == 5 * k,
        contents.full(),
        rounds_shaped(answers),
    ensures
        match crate::walk::walked(
            crate::categories::c01_toolchain::repeated_jit_compilation_iterations_round(k as u64),
            0,
            7,
            contents,
            answers,
            used,
        ) {
            Some((after, next)) => {
                &&& rounds_iterations(k, answers, used)
                &&& after.full()
                &&& next == 5 * (k + 1)
            },
            None => !rounds_iterations(k, answers, used),
        },
        crate::categories::c01_toolchain::repeated_jit_compilation_iterations_round(
            k as u64,
        ).len() == 7,
{
    let steps = crate::categories::c01_toolchain::repeated_jit_compilation_iterations_round(
        k as u64,
    );
    assert(crate::laws::steps::column_or_refusal(answers[2 + 5 * k]));
    lemma_round_words(k, contents);
    let words1 = round_words(k);
    crate::laws::steps::lemma_fill(steps, 0, 7, contents, answers, used, words1);
    let next1 = contents.with_column(0, words1);
    crate::laws::steps::lemma_command(steps, 1, 7, next1, answers, used);
    crate::laws::steps::lemma_command(steps, 2, 7, next1, answers, used + 1);
    crate::laws::steps::lemma_download(steps, 3, 7, next1, answers, used + 2);
    if answers[used + 2] is Words {
        let next2 = next1.with_column(1, answers[used + 2]->Words_0);
        crate::laws::steps::lemma_scan_differences(steps, 4, 7, next2, answers, used + 3, 0, 1);
        crate::laws::steps::lemma_command(steps, 5, 7, next2, answers, used + 3);
        crate::laws::steps::lemma_command(steps, 6, 7, next2, answers, used + 4);
        crate::laws::steps::lemma_end(steps, 7, next2, answers, used + 5);
    }
}

/// All rounds of the part `iterations`.
proof fn lemma_rounds_iterations_rounds(contents: Contents, answers: Seq<Answer>)
    requires
        contents.full(),
        rounds_shaped(answers),
    ensures
        ({
            let steps = crate::script::rounds(
                15,
                |k: int|
                    crate::categories::c01_toolchain::repeated_jit_compilation_iterations_round(
                    k as u64,
                ),
            );
            match crate::walk::walked(steps, 0, steps.len() as int, contents, answers, 0) {
                Some((after, next)) => {
                    &&& forall|k: int|
                        0 <= k < 15 ==> #[trigger] rounds_iterations(k, answers, 5 * k)
                    &&& after.full()
                    &&& next == 75
                },
                None => !(forall|k: int|
                    0 <= k < 15 ==> #[trigger] rounds_iterations(k, answers, 5 * k)),
            }
        }),
{
    let round = |k: int|
        crate::categories::c01_toolchain::repeated_jit_compilation_iterations_round(
        k as u64,
    );
    let start = |k: int| 5 * k;
    let good = |k: int| rounds_iterations(k, answers, start(k));
    let kept = |contents: Contents| contents.full();
    assert forall|k: int, contents: Contents|
        #![trigger good(k), kept(contents)]
        0 <= k < 15 && kept(contents) implies if good(k) {
        crate::walk::goes_to(round(k), contents, answers, start(k), start(k + 1), kept)
    } else {
        crate::walk::walked(round(k), 0, round(k).len() as int, contents, answers, start(k)) is None
    } by {
        lemma_rounds_iterations(k, contents, answers, start(k));
    }
    crate::walk::law_rounds_keep_what_each_keeps(15, round, start, good, kept, contents, answers);
    if forall|k: int| 0 <= k < 15 ==> #[trigger] good(k) {
        assert forall|k: int| 0 <= k < 15 implies #[trigger] rounds_iterations(
            k,
            answers,
            5 * k,
        ) by {
            assert(good(k));
        }
    } else {
        let k = choose|k: int| 0 <= k < 15 && !(#[trigger] good(k));
        assert(!rounds_iterations(k, answers, 5 * k));
    }
}

/// The part `end`.
proof fn lemma_rounds_end(contents: Contents, answers: Seq<Answer>)
    requires
        contents.full(),
        rounds_shaped(answers),
    ensures
        match crate::walk::walked(
            crate::categories::c01_toolchain::repeated_jit_compilation_end_steps(),
            0,
            3,
            contents,
            answers,
            75,
        ) {
            Some((after, next)) => {
                &&& rounds_end(answers)
                &&& after.full()
                &&& next == 77
            },
            None => !rounds_end(answers),
        },
        crate::categories::c01_toolchain::repeated_jit_compilation_end_steps().len() == 3,
{
    let steps = crate::categories::c01_toolchain::repeated_jit_compilation_end_steps();
    crate::laws::steps::lemma_number(steps, 0, 3, contents, answers, 75, answers[75]->Count_0);
    let next1 = contents.with_register(0, answers[75]->Count_0);
    lemma_plain_register(next1);
    crate::laws::steps::lemma_check(steps, 1, 3, next1, answers, 76, !(answers[75]->Count_0 != 0));
    crate::laws::steps::lemma_command(steps, 2, 3, next1, answers, 76);
    crate::laws::steps::lemma_end(steps, 3, next1, answers, 77);
}

/// The test has no jumps.
proof fn lemma_rounds_straight()
    ensures
        forall|j: int|
            0 <= j < crate::categories::c01_toolchain::repeated_jit_compilation_steps().len()
                ==> crate::walk::straight(
                #[trigger] crate::categories::c01_toolchain::repeated_jit_compilation_steps()[j],
            ),
{
    let part1 = crate::script::rounds(
        15,
        |k: int| crate::categories::c01_toolchain::repeated_jit_compilation_iterations_round(
            k as u64,
        ),
    );
    let round1 = |k: int|
        crate::categories::c01_toolchain::repeated_jit_compilation_iterations_round(
        k as u64,
    );
    crate::walk::law_straight_rounds_are_straight(15, round1);
    let part2 = crate::categories::c01_toolchain::repeated_jit_compilation_end_steps();
    let whole1 = part1;
    let whole2 = whole1 + part2;
    crate::walk::law_straight_scripts_make_a_straight_one(whole1, part2);
    assert(crate::categories::c01_toolchain::repeated_jit_compilation_steps() == whole2);
}

/// The test of fifteen rounds passes exactly when, in each of them, the words come back as they
/// were, as far as the device hands any out, and a kernel can still be found in the end.
pub proof fn law_repeated_rounds_pass_exactly_when_words_come_back(answers: Seq<Answer>)
    requires
        rounds_shaped(answers),
    ensures
        crate::machine::run_of(
            crate::script::plan(
                "test_repeated_jit_compilation",
                crate::categories::c01_toolchain::repeated_jit_compilation_steps(),
            ),
            answers,
        ).progress == Progress::Over(Ending::Passed) <==> {
            &&& forall|k: int|
                0 <= k < 15 ==> #[trigger] rounds_iterations(k, answers, 5 * k)
            &&& rounds_end(answers)
        },
{
    let plan = crate::script::plan(
        "test_repeated_jit_compilation",
        crate::categories::c01_toolchain::repeated_jit_compilation_steps(),
    );
    let blank = Contents::blank(plan.texts);
    let part1 = crate::script::rounds(
        15,
        |k: int| crate::categories::c01_toolchain::repeated_jit_compilation_iterations_round(
            k as u64,
        ),
    );
    let part2 = crate::categories::c01_toolchain::repeated_jit_compilation_end_steps();
    let whole1 = part1;
    let whole2 = whole1 + part2;
    assert(plan.steps == whole2);
    lemma_rounds_iterations_rounds(blank, answers);
    crate::walk::law_walks_over_two_scripts_compose(whole1, part2, blank, answers, 0);
    match crate::walk::walked(whole1, 0, whole1.len() as int, blank, answers, 0) {
        Some((after, _)) => {
            lemma_rounds_end(after, answers);
        },
        None => {},
    }
    lemma_rounds_straight();
    crate::walk::law_passes_exactly_when_every_step_goes_through(plan, answers);
}

} // verus!
