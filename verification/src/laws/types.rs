//! The laws of the tests that sort one column of each type.

use vstd::prelude::*;
use crate::expr::{at, count_in, differs, len, minus, num, same_as};
use crate::machine::{Answer, Ending, Progress};
use crate::memory::Contents;
use crate::scalar::Scalar;
use crate::script::COUNT;
use crate::tables::Table;

verus! {

/// Whether the first word of a column is a certain one.
pub open spec fn first_is(words: Seq<u64>, word: u64) -> bool {
    words.len() > 0 && words[0] == word
}

/// Whether the last word of a column is a certain one.
pub open spec fn last_is(words: Seq<u64>, word: u64) -> bool {
    words.len() > 0 && words.last() == word
}

/// Looking at the first word of a column.
pub proof fn lemma_first(contents: Contents, word: u64)
    requires
        contents.full(),
    ensures
        crate::expr::value_of(differs(at(1, num(0)), num(word)), contents, 0) == Some(0u64)
            <==> first_is(contents.columns[1], word),
{
    reveal_with_fuel(crate::expr::value_of, 4);
}

/// Looking at the last word of a column.
#[verifier::spinoff_prover]
#[verifier::rlimit(50)]
pub proof fn lemma_last(contents: Contents, word: u64)
    requires
        contents.full(),
        contents.columns[1].len() <= u64::MAX,
    ensures
        crate::expr::value_of(differs(at(1, minus(len(1), num(1))), num(word)), contents, 0)
            == Some(0u64) <==> last_is(contents.columns[1], word),
{
    reveal_with_fuel(crate::expr::value_of, 5);
}

/// Looking for a word in a column.
pub proof fn lemma_holds(contents: Contents, slot: u64, word: u64)
    requires
        slot < contents.columns.len(),
        contents.columns[slot as int].len() <= u64::MAX,
    ensures
        crate::expr::value_of(same_as(count_in(slot, num(word)), num(0)), contents, 0) == Some(0u64)
            <==> contents.columns[slot as int].contains(word),
{
    lemma_occurrences(contents.columns[slot as int], word);
    reveal_with_fuel(crate::expr::value_of, 4);
}

/// A word occurs in a column exactly when the column holds it.
pub proof fn lemma_occurrences(words: Seq<u64>, word: u64)
    ensures
        0 <= crate::columns::occurrences(words, word) <= words.len(),
        crate::columns::occurrences(words, word) > 0 <==> words.contains(word),
    decreases words.len(),
{
    if words.len() > 0 {
        lemma_occurrences(words.drop_last(), word);
        assert(words =~= words.drop_last().push(words.last()));
        if words.contains(word) && words.last() != word {
            let i = choose|i: int| 0 <= i < words.len() && words[i] == word;
            assert(words.drop_last()[i] == word);
        }
        if words.drop_last().contains(word) {
            let i = choose|i: int| 0 <= i < words.len() - 1 && words.drop_last()[i] == word;
            assert(words[i] == word);
        }
        if words.last() == word {
            assert(words[words.len() - 1] == word);
        }
    }
}

/// Whether the answers to the downloads of the test are columns or refusals.
pub open spec fn u32_types_shaped(answers: Seq<Answer>) -> bool {
    &&& answers.len() >= 5
    &&& crate::laws::steps::column_or_refusal(answers[3])
}

/// What the device has to answer.
pub open spec fn u32_types_answers(answers: Seq<Answer>) -> bool {
    &&& !(answers[0] is Failed)
    &&& !(answers[1] is Failed)
    &&& answers[2] == Answer::Count(16)
    &&& answers[3] is Words
    &&& crate::laws::steps::rises(answers[3]->Words_0)
    &&& answers[3]->Words_0 == crate::columns::sorted(
        Scalar::U32,
        crate::tables::words_of(Table::GlobalU32),
    )
    &&& !(answers[4] is Failed)
}

/// The steps of the test.
proof fn lemma_u32_types_answers(contents: Contents, answers: Seq<Answer>)
    requires
        contents.full(),
        u32_types_shaped(answers),
    ensures
        match crate::walk::walked(
            crate::categories::c04_address_space::global_u32_correctness_steps(),
            0,
            9,
            contents,
            answers,
            0,
        ) {
            Some((after, next)) => {
                &&& u32_types_answers(answers)
                &&& after.full()
                &&& next == 5
            },
            None => !u32_types_answers(answers),
        },
        crate::categories::c04_address_space::global_u32_correctness_steps().len() == 9,
{
    let steps = crate::categories::c04_address_space::global_u32_correctness_steps();
    crate::laws::numbers::lemma_entries(Table::GlobalU32, contents);
    let words1 = crate::tables::words_of(Table::GlobalU32);
    crate::laws::steps::lemma_fill(steps, 0, 9, contents, answers, 0, words1);
    let next1 = contents.with_column(0, words1);
    crate::laws::steps::lemma_command(steps, 1, 9, next1, answers, 0);
    crate::laws::steps::lemma_command(steps, 2, 9, next1, answers, 1);
    crate::laws::steps::lemma_match(steps, 3, 9, next1, answers, 2, 16);
    let next2 = next1.with_register(COUNT, 16);
    crate::laws::steps::lemma_download(steps, 4, 9, next2, answers, 3);
    if answers[3] is Words {
        let next3 = next2.with_column(1, answers[3]->Words_0);
        crate::laws::steps::lemma_scan_order(steps, 5, 9, next3, answers, 4, 1);
        crate::laws::steps::lemma_sort_column(steps, 6, 9, next3, answers, 4);
        let next4 = next3.with_column(
            2,
            crate::columns::sorted(Scalar::U32, crate::tables::words_of(Table::GlobalU32)),
        );
        crate::laws::steps::lemma_not_alike(next4, 1, 2);
        crate::laws::steps::lemma_check(
            steps,
            7,
            9,
            next4,
            answers,
            4,
            !(
                answers[3]->Words_0 == crate::columns::sorted(
                    Scalar::U32,
                    crate::tables::words_of(Table::GlobalU32),
                )
            ),
        );
        crate::laws::steps::lemma_command(steps, 8, 9, next4, answers, 4);
        crate::laws::steps::lemma_end(steps, 9, next4, answers, 5);
    }
}

/// The test has no jumps.
proof fn lemma_u32_types_straight()
    ensures
        forall|j: int|
            0 <= j < crate::categories::c04_address_space::global_u32_correctness_steps().len()
                ==> crate::walk::straight(
                #[trigger] crate::categories::c04_address_space::global_u32_correctness_steps()[j],
            ),
{
}

/// The test of 32-bit words passes exactly when the device hands out all of them in rising order.
pub proof fn law_u32_passes_exactly_when_sorted(answers: Seq<Answer>)
    requires
        u32_types_shaped(answers),
    ensures
        crate::machine::run_of(
            crate::script::plan(
                "test_global_u32_correctness",
                crate::categories::c04_address_space::global_u32_correctness_steps(),
            ),
            answers,
        ).progress == Progress::Over(Ending::Passed) <==> u32_types_answers(answers),
{
    let plan = crate::script::plan(
        "test_global_u32_correctness",
        crate::categories::c04_address_space::global_u32_correctness_steps(),
    );
    let blank = Contents::blank(plan.texts);
    lemma_u32_types_answers(blank, answers);
    lemma_u32_types_straight();
    crate::walk::law_passes_exactly_when_every_step_goes_through(plan, answers);
}

/// Whether the answers to the downloads of the test are columns or refusals.
pub open spec fn u64_types_shaped(answers: Seq<Answer>) -> bool {
    &&& answers.len() >= 5
    &&& crate::laws::steps::column_or_refusal(answers[3])
}

/// What the device has to answer.
pub open spec fn u64_types_answers(answers: Seq<Answer>) -> bool {
    &&& !(answers[0] is Failed)
    &&& !(answers[1] is Failed)
    &&& answers[2] == Answer::Count(13)
    &&& answers[3] is Words
    &&& crate::laws::steps::rises(answers[3]->Words_0)
    &&& answers[3]->Words_0 == crate::columns::sorted(
        Scalar::U64,
        crate::tables::words_of(Table::GlobalU64),
    )
    &&& answers[3]->Words_0.contains(0xffff_ffff_ffff_ffff)
    &&& !(answers[4] is Failed)
}

/// The steps of the test.
proof fn lemma_u64_types_answers(contents: Contents, answers: Seq<Answer>)
    requires
        contents.full(),
        u64_types_shaped(answers),
    ensures
        match crate::walk::walked(
            crate::categories::c04_address_space::global_u64_correctness_steps(),
            0,
            10,
            contents,
            answers,
            0,
        ) {
            Some((after, next)) => {
                &&& u64_types_answers(answers)
                &&& after.full()
                &&& next == 5
            },
            None => !u64_types_answers(answers),
        },
        crate::categories::c04_address_space::global_u64_correctness_steps().len() == 10,
{
    let steps = crate::categories::c04_address_space::global_u64_correctness_steps();
    crate::laws::numbers::lemma_entries(Table::GlobalU64, contents);
    let words1 = crate::tables::words_of(Table::GlobalU64);
    crate::laws::steps::lemma_fill(steps, 0, 10, contents, answers, 0, words1);
    let next1 = contents.with_column(0, words1);
    crate::laws::steps::lemma_command(steps, 1, 10, next1, answers, 0);
    crate::laws::steps::lemma_command(steps, 2, 10, next1, answers, 1);
    crate::laws::steps::lemma_match(steps, 3, 10, next1, answers, 2, 13);
    let next2 = next1.with_register(COUNT, 13);
    crate::laws::steps::lemma_download(steps, 4, 10, next2, answers, 3);
    if answers[3] is Words {
        let next3 = next2.with_column(1, answers[3]->Words_0);
        crate::laws::steps::lemma_scan_order(steps, 5, 10, next3, answers, 4, 1);
        crate::laws::steps::lemma_sort_column(steps, 6, 10, next3, answers, 4);
        let next4 = next3.with_column(
            2,
            crate::columns::sorted(Scalar::U64, crate::tables::words_of(Table::GlobalU64)),
        );
        crate::laws::steps::lemma_not_alike(next4, 1, 2);
        crate::laws::steps::lemma_check(
            steps,
            7,
            10,
            next4,
            answers,
            4,
            !(
                answers[3]->Words_0 == crate::columns::sorted(
                    Scalar::U64,
                    crate::tables::words_of(Table::GlobalU64),
                )
            ),
        );
        lemma_holds(next4, 1, 0xffff_ffff_ffff_ffff);
        crate::laws::steps::lemma_check_or_abort(
            steps,
            8,
            10,
            next4,
            answers,
            4,
            answers[3]->Words_0.contains(0xffff_ffff_ffff_ffff),
        );
        crate::laws::steps::lemma_command(steps, 9, 10, next4, answers, 4);
        crate::laws::steps::lemma_end(steps, 10, next4, answers, 5);
    }
}

/// The test has no jumps.
proof fn lemma_u64_types_straight()
    ensures
        forall|j: int|
            0 <= j < crate::categories::c04_address_space::global_u64_correctness_steps().len()
                ==> crate::walk::straight(
                #[trigger] crate::categories::c04_address_space::global_u64_correctness_steps()[j],
            ),
{
}

/// The test of 64-bit words passes exactly when the device hands out all of them in rising order,
/// the greatest word among them.
pub proof fn law_u64_passes_exactly_when_sorted(answers: Seq<Answer>)
    requires
        u64_types_shaped(answers),
    ensures
        crate::machine::run_of(
            crate::script::plan(
                "test_global_u64_correctness",
                crate::categories::c04_address_space::global_u64_correctness_steps(),
            ),
            answers,
        ).progress == Progress::Over(Ending::Passed) <==> u64_types_answers(answers),
{
    let plan = crate::script::plan(
        "test_global_u64_correctness",
        crate::categories::c04_address_space::global_u64_correctness_steps(),
    );
    let blank = Contents::blank(plan.texts);
    lemma_u64_types_answers(blank, answers);
    lemma_u64_types_straight();
    crate::walk::law_passes_exactly_when_every_step_goes_through(plan, answers);
}

/// Whether the answers to the downloads of the test are columns or refusals.
pub open spec fn i64_types_shaped(answers: Seq<Answer>) -> bool {
    &&& answers.len() >= 5
    &&& crate::laws::steps::column_or_refusal(answers[3])
}

/// What the device has to answer.
pub open spec fn i64_types_answers(answers: Seq<Answer>) -> bool {
    &&& !(answers[0] is Failed)
    &&& !(answers[1] is Failed)
    &&& answers[2] == Answer::Count(15)
    &&& answers[3] is Words
    &&& crate::laws::steps::rises_in(Scalar::I64, answers[3]->Words_0)
    &&& answers[3]->Words_0 == crate::columns::sorted(
        Scalar::I64,
        crate::tables::words_of(Table::GlobalI64),
    )
    &&& first_is(answers[3]->Words_0, 0x8000_0000_0000_0000)
    &&& last_is(answers[3]->Words_0, 0x7fff_ffff_ffff_ffff)
    &&& !(answers[4] is Failed)
}

/// The steps of the test.
proof fn lemma_i64_types_answers(contents: Contents, answers: Seq<Answer>)
    requires
        contents.full(),
        i64_types_shaped(answers),
    ensures
        match crate::walk::walked(
            crate::categories::c04_address_space::global_i64_correctness_steps(),
            0,
            11,
            contents,
            answers,
            0,
        ) {
            Some((after, next)) => {
                &&& i64_types_answers(answers)
                &&& after.full()
                &&& next == 5
            },
            None => !i64_types_answers(answers),
        },
        crate::categories::c04_address_space::global_i64_correctness_steps().len() == 11,
{
    let steps = crate::categories::c04_address_space::global_i64_correctness_steps();
    crate::laws::numbers::lemma_entries(Table::GlobalI64, contents);
    let words1 = crate::tables::words_of(Table::GlobalI64);
    crate::laws::steps::lemma_fill(steps, 0, 11, contents, answers, 0, words1);
    let next1 = contents.with_column(0, words1);
    crate::laws::steps::lemma_command(steps, 1, 11, next1, answers, 0);
    crate::laws::steps::lemma_command(steps, 2, 11, next1, answers, 1);
    crate::laws::steps::lemma_match(steps, 3, 11, next1, answers, 2, 15);
    let next2 = next1.with_register(COUNT, 15);
    crate::laws::steps::lemma_download(steps, 4, 11, next2, answers, 3);
    if answers[3] is Words {
        let next3 = next2.with_column(1, answers[3]->Words_0);
        crate::laws::steps::lemma_scan_ranks(steps, 5, 11, next3, answers, 4, 1, Scalar::I64);
        crate::laws::steps::lemma_sort_column(steps, 6, 11, next3, answers, 4);
        let next4 = next3.with_column(
            2,
            crate::columns::sorted(Scalar::I64, crate::tables::words_of(Table::GlobalI64)),
        );
        crate::laws::steps::lemma_not_alike(next4, 1, 2);
        crate::laws::steps::lemma_check(
            steps,
            7,
            11,
            next4,
            answers,
            4,
            !(
                answers[3]->Words_0 == crate::columns::sorted(
                    Scalar::I64,
                    crate::tables::words_of(Table::GlobalI64),
                )
            ),
        );
        lemma_first(next4, 0x8000_0000_0000_0000);
        crate::laws::steps::lemma_check_or_abort(
            steps,
            8,
            11,
            next4,
            answers,
            4,
            first_is(answers[3]->Words_0, 0x8000_0000_0000_0000),
        );
        lemma_last(next4, 0x7fff_ffff_ffff_ffff);
        crate::laws::steps::lemma_check_or_abort(
            steps,
            9,
            11,
            next4,
            answers,
            4,
            last_is(answers[3]->Words_0, 0x7fff_ffff_ffff_ffff),
        );
        crate::laws::steps::lemma_command(steps, 10, 11, next4, answers, 4);
        crate::laws::steps::lemma_end(steps, 11, next4, answers, 5);
    }
}

/// The test has no jumps.
proof fn lemma_i64_types_straight()
    ensures
        forall|j: int|
            0 <= j < crate::categories::c04_address_space::global_i64_correctness_steps().len()
                ==> crate::walk::straight(
                #[trigger] crate::categories::c04_address_space::global_i64_correctness_steps()[j],
            ),
{
}

/// The test of signed words passes exactly when the device hands out all of them by rising value,
/// from the least to the greatest one there is.
pub proof fn law_i64_passes_exactly_when_sorted_by_value(answers: Seq<Answer>)
    requires
        i64_types_shaped(answers),
    ensures
        crate::machine::run_of(
            crate::script::plan(
                "test_global_i64_correctness",
                crate::categories::c04_address_space::global_i64_correctness_steps(),
            ),
            answers,
        ).progress == Progress::Over(Ending::Passed) <==> i64_types_answers(answers),
{
    let plan = crate::script::plan(
        "test_global_i64_correctness",
        crate::categories::c04_address_space::global_i64_correctness_steps(),
    );
    let blank = Contents::blank(plan.texts);
    lemma_i64_types_answers(blank, answers);
    lemma_i64_types_straight();
    crate::walk::law_passes_exactly_when_every_step_goes_through(plan, answers);
}

/// Whether the answers to the downloads of the test are columns or refusals.
pub open spec fn f64_types_shaped(answers: Seq<Answer>) -> bool {
    &&& answers.len() >= 5
    &&& crate::laws::steps::column_or_refusal(answers[3])
}

/// What the device has to answer.
pub open spec fn f64_types_answers(answers: Seq<Answer>) -> bool {
    &&& !(answers[0] is Failed)
    &&& !(answers[1] is Failed)
    &&& answers[2] == Answer::Count(21)
    &&& answers[3] is Words
    &&& crate::laws::steps::rises_in(Scalar::F64, answers[3]->Words_0)
    &&& first_is(answers[3]->Words_0, 0xfff0_0000_0000_0000)
    &&& last_is(answers[3]->Words_0, 0x7ff0_0000_0000_0000)
    &&& !(answers[4] is Failed)
}

/// The steps of the test.
proof fn lemma_f64_types_answers(contents: Contents, answers: Seq<Answer>)
    requires
        contents.full(),
        f64_types_shaped(answers),
    ensures
        match crate::walk::walked(
            crate::categories::c04_address_space::global_f64_correctness_steps(),
            0,
            9,
            contents,
            answers,
            0,
        ) {
            Some((after, next)) => {
                &&& f64_types_answers(answers)
                &&& after.full()
                &&& next == 5
            },
            None => !f64_types_answers(answers),
        },
        crate::categories::c04_address_space::global_f64_correctness_steps().len() == 9,
{
    let steps = crate::categories::c04_address_space::global_f64_correctness_steps();
    crate::laws::numbers::lemma_entries(Table::GlobalF64, contents);
    let words1 = crate::tables::words_of(Table::GlobalF64);
    crate::laws::steps::lemma_fill(steps, 0, 9, contents, answers, 0, words1);
    let next1 = contents.with_column(0, words1);
    crate::laws::steps::lemma_command(steps, 1, 9, next1, answers, 0);
    crate::laws::steps::lemma_command(steps, 2, 9, next1, answers, 1);
    crate::laws::steps::lemma_match(steps, 3, 9, next1, answers, 2, 21);
    let next2 = next1.with_register(COUNT, 21);
    crate::laws::steps::lemma_download(steps, 4, 9, next2, answers, 3);
    if answers[3] is Words {
        let next3 = next2.with_column(1, answers[3]->Words_0);
        crate::laws::steps::lemma_scan_ranks(steps, 5, 9, next3, answers, 4, 1, Scalar::F64);
        lemma_first(next3, 0xfff0_0000_0000_0000);
        crate::laws::steps::lemma_check_or_abort(
            steps,
            6,
            9,
            next3,
            answers,
            4,
            first_is(answers[3]->Words_0, 0xfff0_0000_0000_0000),
        );
        lemma_last(next3, 0x7ff0_0000_0000_0000);
        crate::laws::steps::lemma_check_or_abort(
            steps,
            7,
            9,
            next3,
            answers,
            4,
            last_is(answers[3]->Words_0, 0x7ff0_0000_0000_0000),
        );
        crate::laws::steps::lemma_command(steps, 8, 9, next3, answers, 4);
        crate::laws::steps::lemma_end(steps, 9, next3, answers, 5);
    }
}

/// The test has no jumps.
proof fn lemma_f64_types_straight()
    ensures
        forall|j: int|
            0 <= j < crate::categories::c04_address_space::global_f64_correctness_steps().len()
                ==> crate::walk::straight(
                #[trigger] crate::categories::c04_address_space::global_f64_correctness_steps()[j],
            ),
{
}

/// The test of doubles passes exactly when the device hands out a column in their total order, from
/// minus infinity to infinity.
pub proof fn law_f64_passes_exactly_when_ordered(answers: Seq<Answer>)
    requires
        f64_types_shaped(answers),
    ensures
        crate::machine::run_of(
            crate::script::plan(
                "test_global_f64_correctness",
                crate::categories::c04_address_space::global_f64_correctness_steps(),
            ),
            answers,
        ).progress == Progress::Over(Ending::Passed) <==> f64_types_answers(answers),
{
    let plan = crate::script::plan(
        "test_global_f64_correctness",
        crate::categories::c04_address_space::global_f64_correctness_steps(),
    );
    let blank = Contents::blank(plan.texts);
    lemma_f64_types_answers(blank, answers);
    lemma_f64_types_straight();
    crate::walk::law_passes_exactly_when_every_step_goes_through(plan, answers);
}

} // verus!
