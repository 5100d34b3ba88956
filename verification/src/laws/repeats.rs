//! The law of the test that removes the same duplicates again.

use vstd::prelude::*;
use crate::expr::{differs, distinct_in, ix, len, modulo, num, over, plus, reg, times};
use crate::machine::{Answer, Ending, Progress};
use crate::memory::Contents;
use crate::script::{only, rows, Act, Otherwise, Request, Step};

verus! {

/// Numbers taken modulo a limit that they reach are as many different ones as the limit says.
pub proof fn law_cyclic_words_are_as_many_as_the_limit(limit: u64, n: u64)
    requires
        0 < limit <= n,
    ensures
        crate::laws::words::cyclic(limit, n).to_set().len() == limit,
{
    let words = crate::laws::words::cyclic(limit, n);
    let places = crate::laws::words::below(limit);
    assert(places.no_duplicates());
    places.unique_seq_to_set();
    assert forall|word: u64| words.to_set().contains(word) <==> places.to_set().contains(word) by {
        if words.to_set().contains(word) {
            let i = choose|i: int| 0 <= i < n && words[i] == word;
            assert(0 <= i % (limit as int) < limit) by {
                vstd::arithmetic::div_mod::lemma_mod_bound(i, limit as int);
            }
            assert(places[word as int] == word);
        }
        if places.to_set().contains(word) {
            let i = choose|i: int| 0 <= i < limit && places[i] == word;
            vstd::arithmetic::div_mod::lemma_small_mod(i as nat, limit as nat);
            assert(words[i] == word);
        }
    }
    assert(words.to_set() =~= places.to_set());
}

/// A column has as many different words as words exactly when none occurs twice.
proof fn lemma_distinct(words: Seq<u64>)
    ensures
        words.to_set().len() == words.len() <==> words.no_duplicates(),
{
    if words.no_duplicates() {
        words.unique_seq_to_set();
    }
    if words.to_set().len() == words.len() {
        words.lemma_no_dup_set_cardinality();
    }
}

/// Whether the first result has as many keys as there are, and none twice.
proof fn lemma_first_checks(contents: Contents)
    requires
        contents.full(),
        contents.columns[0].len() <= u64::MAX,
        contents.columns[2].len() <= u64::MAX,
    ensures
        crate::expr::value_of(differs(len(2), distinct_in(0)), contents, 0) == Some(
            crate::expr::truth(contents.columns[2].len() != contents.columns[0].to_set().len()),
        ),
        crate::expr::value_of(differs(distinct_in(2), len(2)), contents, 0) == Some(
            crate::expr::truth(!contents.columns[2].no_duplicates()),
        ),
{
    vstd::seq_lib::seq_to_set_is_finite(contents.columns[0]);
    vstd::seq_lib::seq_to_set_is_finite(contents.columns[2]);
    contents.columns[0].lemma_cardinality_of_set();
    contents.columns[2].lemma_cardinality_of_set();
    lemma_distinct(contents.columns[2]);
    reveal_with_fuel(crate::expr::value_of, 4);
}

/// Two row counts that have to agree: where they do not, they are asked for again and the test
/// fails.
pub proof fn lemma_counts_agree(
    steps: Seq<Step>,
    at: int,
    to: int,
    contents: Contents,
    answers: Seq<Answer>,
    used: int,
    newer: u64,
    older: u64,
)
    requires
        at + 2 < to,
        contents.full(),
        0 <= used,
        steps[at] == only(differs(reg(0), reg(1)), rows(newer, 2)),
        steps[at + 1] == only(differs(reg(0), reg(1)), rows(older, 3)),
        steps[at + 2] matches Step::Do(Act::Check { fault, .. }) && fault == differs(
            reg(0),
            reg(1),
        ),
    ensures
        crate::walk::walked(steps, at, to, contents, answers, used) == (
        if contents.registers[0] == contents.registers[1] {
            crate::walk::walked(steps, at + 3, to, contents, answers, used)
        } else {
            None
        }),
{
    lemma_registers(contents);
    if contents.registers[0] != contents.registers[1] {
        lemma_count_again(steps, at, to, contents, answers, used, newer, 2);
        if used < answers.len() {
            let first = with_count(contents, 2, answers[used]);
            lemma_registers(first);
            lemma_count_again(steps, at + 1, to, first, answers, used + 1, older, 3);
            if used + 1 < answers.len() {
                let second = with_count(first, 3, answers[used + 1]);
                lemma_registers(second);
                crate::laws::steps::lemma_check(steps, at + 2, to, second, answers, used + 2, true);
            }
        }
    } else {
        crate::laws::steps::lemma_not_taken(steps, at, to, contents, answers, used);
        crate::laws::steps::lemma_not_taken(steps, at + 1, to, contents, answers, used);
        crate::laws::steps::lemma_check(steps, at + 2, to, contents, answers, used, false);
    }
}

/// The contents after a row count has been asked for.
spec fn with_count(contents: Contents, into: u64, answer: Answer) -> Contents {
    match answer {
        Answer::Count(number) => contents.with_register(into, number),
        _ => contents,
    }
}

/// A row count that is asked for.
proof fn lemma_count_again(
    steps: Seq<Step>,
    at: int,
    to: int,
    contents: Contents,
    answers: Seq<Answer>,
    used: int,
    of: u64,
    into: u64,
)
    requires
        at < to,
        0 <= used,
        into < contents.registers.len(),
        crate::machine::taken(steps[at], contents) == Some(true),
        crate::machine::act_of(steps[at]) == Act::Ask(
            Request::Rows { of, into },
            Otherwise::Go,
        ),
    ensures
        crate::walk::walked(steps, at, to, contents, answers, used) == (if used < answers.len() {
            crate::walk::walked(
                steps,
                at + 1,
                to,
                with_count(contents, into, answers[used]),
                answers,
                used + 1,
            )
        } else {
            None
        }),
{
    reveal_with_fuel(crate::walk::walked, 2);
    reveal(crate::machine::effect_of);
    reveal(crate::machine::stored);
}

/// Whether the two row counts differ.
proof fn lemma_registers(contents: Contents)
    requires
        contents.full(),
    ensures
        crate::expr::value_of(differs(reg(0), reg(1)), contents, 0) == Some(
            crate::expr::truth(contents.registers[0] != contents.registers[1]),
        ),
{
    reveal_with_fuel(crate::expr::value_of, 4);
}

/// Whether the answers to the downloads of the test are columns or refusals.
pub open spec fn repeats_shaped(answers: Seq<Answer>) -> bool {
    &&& answers.len() >= 42
    &&& crate::laws::steps::column_or_refusal(answers[2])
    &&& forall|k: int| 0 <= k < 4 ==> #[trigger] answers[4 + 5 * k] is Count
    &&& forall|k: int| 0 <= k < 4 ==> #[trigger] answers[5 + 5 * k] is Count
    &&& forall|k: int|
        0 <= k < 4 ==> crate::laws::steps::column_or_refusal(#[trigger] answers[6 + 5 * k])
    &&& crate::laws::steps::column_or_refusal(answers[25])
    &&& crate::laws::steps::column_or_refusal(answers[27])
    &&& crate::laws::steps::column_or_refusal(answers[31])
    &&& crate::laws::steps::column_or_refusal(answers[33])
    &&& crate::laws::steps::column_or_refusal(answers[37])
    &&& crate::laws::steps::column_or_refusal(answers[39])
}

/// What the device has to answer in the part `first`.
pub open spec fn repeats_first(answers: Seq<Answer>) -> bool {
    &&& !(answers[0] is Failed)
    &&& !(answers[1] is Failed)
    &&& answers[2] is Words
    &&& answers[2]->Words_0.len() == 1000
    &&& answers[2]->Words_0.no_duplicates()
}

/// What the device has to answer in round `k` of the part `repeats`, from answer `used` on.
pub open spec fn repeats_repeats(k: int, answers: Seq<Answer>, used: int) -> bool {
    &&& !(answers[used] is Failed)
    &&& answers[used + 1]->Count_0 == answers[used + 2]->Count_0
    &&& answers[used + 3] is Words
    &&& answers[2]->Words_0.to_set() == answers[used + 3]->Words_0.to_set()
}

/// What the device has to answer in the part `all_same`.
pub open spec fn repeats_all_same(answers: Seq<Answer>) -> bool {
    &&& !(answers[23] is Failed)
    &&& !(answers[24] is Failed)
    &&& answers[25] is Words
    &&& !(answers[26] is Failed)
    &&& answers[27] is Words
    &&& answers[25]->Words_0.to_set() == answers[27]->Words_0.to_set()
}

/// What the device has to answer in the part `pairs`.
pub open spec fn repeats_pairs(answers: Seq<Answer>) -> bool {
    &&& !(answers[29] is Failed)
    &&& !(answers[30] is Failed)
    &&& answers[31] is Words
    &&& !(answers[32] is Failed)
    &&& answers[33] is Words
    &&& answers[31]->Words_0.to_set() == answers[33]->Words_0.to_set()
}

/// What the device has to answer in the part `random_dups`.
pub open spec fn repeats_random_dups(answers: Seq<Answer>) -> bool {
    &&& !(answers[35] is Failed)
    &&& !(answers[36] is Failed)
    &&& answers[37] is Words
    &&& !(answers[38] is Failed)
    &&& answers[39] is Words
    &&& answers[37]->Words_0.to_set() == answers[39]->Words_0.to_set()
}

/// What the device has to answer in the part `end`.
pub open spec fn repeats_end(answers: Seq<Answer>) -> bool {
    !(answers[41] is Failed)
}

/// The part `first`.
proof fn lemma_repeats_first(contents: Contents, answers: Seq<Answer>)
    requires
        contents.full(),
        repeats_shaped(answers),
    ensures
        match crate::walk::walked(
            crate::categories::c15_determinism::dedup_reproducibility_first_steps(),
            0,
            7,
            contents,
            answers,
            0,
        ) {
            Some((after, next)) => {
                &&& repeats_first(answers)
                &&& after.full()
                &&& next == 3
                &&& after.columns[2] == answers[2]->Words_0
            },
            None => !repeats_first(answers),
        },
        crate::categories::c15_determinism::dedup_reproducibility_first_steps().len() == 7,
{
    let steps = crate::categories::c15_determinism::dedup_reproducibility_first_steps();
    crate::laws::words::lemma_cyclic(1000, 10000, contents);
    let words1 = crate::laws::words::cyclic(1000, 10000);
    crate::laws::steps::lemma_fill(steps, 0, 7, contents, answers, 0, words1);
    let next1 = contents.with_column(0, words1);
    crate::laws::words::lemma_below(10000, next1);
    let words2 = crate::laws::words::below(10000);
    crate::laws::steps::lemma_fill(steps, 1, 7, next1, answers, 0, words2);
    let next2 = next1.with_column(1, words2);
    crate::laws::steps::lemma_command(steps, 2, 7, next2, answers, 0);
    crate::laws::steps::lemma_command(steps, 3, 7, next2, answers, 1);
    crate::laws::steps::lemma_download(steps, 4, 7, next2, answers, 2);
    if answers[2] is Words {
        let next3 = next2.with_column(2, answers[2]->Words_0);
        lemma_first_checks(next3);
        law_cyclic_words_are_as_many_as_the_limit(1000, 10000);
        crate::laws::steps::lemma_check(
            steps,
            5,
            7,
            next3,
            answers,
            3,
            !(answers[2]->Words_0.len() == 1000),
        );
        crate::laws::steps::lemma_check(
            steps,
            6,
            7,
            next3,
            answers,
            3,
            !(answers[2]->Words_0.no_duplicates()),
        );
        crate::laws::steps::lemma_end(steps, 7, next3, answers, 3);
    }
}

/// One round of the part `repeats`.
proof fn lemma_repeats_repeats(k: int, contents: Contents, answers: Seq<Answer>, used: int)
    requires
        0 <= k < 4,
        used == 3 + 5 * k,
        contents.full(),
        repeats_shaped(answers),
        contents.columns[2] == answers[2]->Words_0,
        answers[2] is Words,
    ensures
        match crate::walk::walked(
            crate::categories::c15_determinism::dedup_reproducibility_repeats_round(k as u64),
            0,
            9,
            contents,
            answers,
            used,
        ) {
            Some((after, next)) => {
                &&& repeats_repeats(k, answers, used)
                &&& after.full()
                &&& next == 3 + 5 * (k + 1)
                &&& after.columns[2] == answers[2]->Words_0
                &&& answers[2] is Words
            },
            None => !repeats_repeats(k, answers, used),
        },
        crate::categories::c15_determinism::dedup_reproducibility_repeats_round(
            k as u64,
        ).len() == 9,
{
    let steps = crate::categories::c15_determinism::dedup_reproducibility_repeats_round(k as u64);
    assert(answers[4 + 5 * k] is Count);
    assert(answers[5 + 5 * k] is Count);
    assert(crate::laws::steps::column_or_refusal(answers[6 + 5 * k]));
    crate::laws::steps::lemma_command(steps, 0, 9, contents, answers, used);
    crate::laws::steps::lemma_number(
        steps,
        1,
        9,
        contents,
        answers,
        used + 1,
        answers[used + 1]->Count_0,
    );
    let next1 = contents.with_register(0, answers[used + 1]->Count_0);
    crate::laws::steps::lemma_number(
        steps,
        2,
        9,
        next1,
        answers,
        used + 2,
        answers[used + 2]->Count_0,
    );
    let next2 = next1.with_register(1, answers[used + 2]->Count_0);
    lemma_counts_agree(steps, 3, 9, next2, answers, used + 3, 2, 1);
    crate::laws::steps::lemma_download(steps, 6, 9, next2, answers, used + 3);
    if answers[used + 3] is Words {
        let next3 = next2.with_column(3, answers[used + 3]->Words_0);
        crate::laws::joins::lemma_not_alike_sets(next3, 2, 3);
        crate::laws::steps::lemma_check(
            steps,
            7,
            9,
            next3,
            answers,
            used + 4,
            !(answers[2]->Words_0.to_set() == answers[used + 3]->Words_0.to_set()),
        );
        crate::laws::steps::lemma_command(steps, 8, 9, next3, answers, used + 4);
        crate::laws::steps::lemma_end(steps, 9, next3, answers, used + 5);
    }
}

/// All rounds of the part `repeats`.
proof fn lemma_repeats_repeats_rounds(contents: Contents, answers: Seq<Answer>)
    requires
        contents.full(),
        repeats_shaped(answers),
        contents.columns[2] == answers[2]->Words_0,
        answers[2] is Words,
    ensures
        ({
            let steps = crate::script::rounds(
                4,
                |k: int| crate::categories::c15_determinism::dedup_reproducibility_repeats_round(
                    k as u64,
                ),
            );
            match crate::walk::walked(steps, 0, steps.len() as int, contents, answers, 3) {
                Some((after, next)) => {
                    &&& forall|k: int| 0 <= k < 4 ==> #[trigger] repeats_repeats(
                        k,
                        answers,
                        3 + 5 * k,
                    )
                    &&& after.full()
                    &&& next == 23
                    &&& after.columns[2] == answers[2]->Words_0
                    &&& answers[2] is Words
                },
                None => !(forall|k: int|
                    0 <= k < 4 ==> #[trigger] repeats_repeats(k, answers, 3 + 5 * k)),
            }
        }),
{
    let round = |k: int| crate::categories::c15_determinism::dedup_reproducibility_repeats_round(
        k as u64,
    );
    let start = |k: int| 3 + 5 * k;
    let good = |k: int| repeats_repeats(k, answers, start(k));
    let kept = |contents: Contents|
        contents.full() && contents.columns[2] == answers[2]->Words_0 && answers[2] is Words;
    assert forall|k: int, contents: Contents|
        #![trigger good(k), kept(contents)]
        0 <= k < 4 && kept(contents) implies if good(k) {
        crate::walk::goes_to(round(k), contents, answers, start(k), start(k + 1), kept)
    } else {
        crate::walk::walked(round(k), 0, round(k).len() as int, contents, answers, start(k)) is None
    } by {
        lemma_repeats_repeats(k, contents, answers, start(k));
    }
    crate::walk::law_rounds_keep_what_each_keeps(4, round, start, good, kept, contents, answers);
    if forall|k: int| 0 <= k < 4 ==> #[trigger] good(k) {
        assert forall|k: int| 0 <= k < 4 implies #[trigger] repeats_repeats(
            k,
            answers,
            3 + 5 * k,
        ) by {
            assert(good(k));
        }
    } else {
        let k = choose|k: int| 0 <= k < 4 && !(#[trigger] good(k));
        assert(!repeats_repeats(k, answers, 3 + 5 * k));
    }
}

/// The part `all_same`.
proof fn lemma_repeats_all_same(contents: Contents, answers: Seq<Answer>)
    requires
        contents.full(),
        repeats_shaped(answers),
        contents.columns[2] == answers[2]->Words_0,
        answers[2] is Words,
    ensures
        match crate::walk::walked(
            crate::categories::c15_determinism::repeated_dedup_steps("all_same", num(42)),
            0,
            9,
            contents,
            answers,
            23,
        ) {
            Some((after, next)) => {
                &&& repeats_all_same(answers)
                &&& after.full()
                &&& next == 29
            },
            None => !repeats_all_same(answers),
        },
        crate::categories::c15_determinism::repeated_dedup_steps("all_same", num(42)).len() == 9,
{
    let steps = crate::categories::c15_determinism::repeated_dedup_steps("all_same", num(42));
    crate::laws::words::lemma_constant(42, 5000, contents);
    let words1 = crate::laws::words::constant(42, 5000);
    crate::laws::steps::lemma_fill(steps, 0, 9, contents, answers, 23, words1);
    let next1 = contents.with_column(4, words1);
    crate::laws::words::lemma_below(5000, next1);
    let words2 = crate::laws::words::below(5000);
    crate::laws::steps::lemma_fill(steps, 1, 9, next1, answers, 23, words2);
    let next2 = next1.with_column(5, words2);
    crate::laws::steps::lemma_command(steps, 2, 9, next2, answers, 23);
    crate::laws::steps::lemma_command(steps, 3, 9, next2, answers, 24);
    crate::laws::steps::lemma_download(steps, 4, 9, next2, answers, 25);
    if answers[25] is Words {
        let next3 = next2.with_column(6, answers[25]->Words_0);
        crate::laws::steps::lemma_command(steps, 5, 9, next3, answers, 26);
        crate::laws::steps::lemma_download(steps, 6, 9, next3, answers, 27);
        if answers[27] is Words {
            let next4 = next3.with_column(7, answers[27]->Words_0);
            crate::laws::joins::lemma_not_alike_sets(next4, 6, 7);
            crate::laws::steps::lemma_check(
                steps,
                7,
                9,
                next4,
                answers,
                28,
                !(answers[25]->Words_0.to_set() == answers[27]->Words_0.to_set()),
            );
            crate::laws::steps::lemma_command(steps, 8, 9, next4, answers, 28);
            crate::laws::steps::lemma_end(steps, 9, next4, answers, 29);
        }
    }
}

/// The part `pairs`.
proof fn lemma_repeats_pairs(contents: Contents, answers: Seq<Answer>)
    requires
        contents.full(),
        repeats_shaped(answers),
    ensures
        match crate::walk::walked(
            crate::categories::c15_determinism::repeated_dedup_steps("pairs", over(ix(), num(2))),
            0,
            9,
            contents,
            answers,
            29,
        ) {
            Some((after, next)) => {
                &&& repeats_pairs(answers)
                &&& after.full()
                &&& next == 35
            },
            None => !repeats_pairs(answers),
        },
        crate::categories::c15_determinism::repeated_dedup_steps(
            "pairs",
            over(ix(), num(2)),
        ).len() == 9,
{
    let steps = crate::categories::c15_determinism::repeated_dedup_steps(
        "pairs",
        over(ix(), num(2)),
    );
    crate::laws::duplicates::lemma_grouped(2, 5000, contents);
    let words1 = crate::laws::duplicates::grouped(2, 5000);
    crate::laws::steps::lemma_fill(steps, 0, 9, contents, answers, 29, words1);
    let next1 = contents.with_column(4, words1);
    crate::laws::words::lemma_below(5000, next1);
    let words2 = crate::laws::words::below(5000);
    crate::laws::steps::lemma_fill(steps, 1, 9, next1, answers, 29, words2);
    let next2 = next1.with_column(5, words2);
    crate::laws::steps::lemma_command(steps, 2, 9, next2, answers, 29);
    crate::laws::steps::lemma_command(steps, 3, 9, next2, answers, 30);
    crate::laws::steps::lemma_download(steps, 4, 9, next2, answers, 31);
    if answers[31] is Words {
        let next3 = next2.with_column(6, answers[31]->Words_0);
        crate::laws::steps::lemma_command(steps, 5, 9, next3, answers, 32);
        crate::laws::steps::lemma_download(steps, 6, 9, next3, answers, 33);
        if answers[33] is Words {
            let next4 = next3.with_column(7, answers[33]->Words_0);
            crate::laws::joins::lemma_not_alike_sets(next4, 6, 7);
            crate::laws::steps::lemma_check(
                steps,
                7,
                9,
                next4,
                answers,
                34,
                !(answers[31]->Words_0.to_set() == answers[33]->Words_0.to_set()),
            );
            crate::laws::steps::lemma_command(steps, 8, 9, next4, answers, 34);
            crate::laws::steps::lemma_end(steps, 9, next4, answers, 35);
        }
    }
}

/// The part `random_dups`.
proof fn lemma_repeats_random_dups(contents: Contents, answers: Seq<Answer>)
    requires
        contents.full(),
        repeats_shaped(answers),
    ensures
        match crate::walk::walked(
            crate::categories::c15_determinism::repeated_dedup_steps(
                "random_dups",
                modulo(plus(times(ix(), num(1103515245)), num(12345)), num(500)),
            ),
            0,
            9,
            contents,
            answers,
            35,
        ) {
            Some((after, next)) => {
                &&& repeats_random_dups(answers)
                &&& after.full()
                &&& next == 41
            },
            None => !repeats_random_dups(answers),
        },
        crate::categories::c15_determinism::repeated_dedup_steps(
            "random_dups",
            modulo(plus(times(ix(), num(1103515245)), num(12345)), num(500)),
        ).len() == 9,
{
    let steps = crate::categories::c15_determinism::repeated_dedup_steps(
        "random_dups",
        modulo(plus(times(ix(), num(1103515245)), num(12345)), num(500)),
    );
    crate::laws::words::lemma_scattered(500, 5000, contents);
    let words1 = crate::laws::words::scattered(500, 5000);
    crate::laws::steps::lemma_fill(steps, 0, 9, contents, answers, 35, words1);
    let next1 = contents.with_column(4, words1);
    crate::laws::words::lemma_below(5000, next1);
    let words2 = crate::laws::words::below(5000);
    crate::laws::steps::lemma_fill(steps, 1, 9, next1, answers, 35, words2);
    let next2 = next1.with_column(5, words2);
    crate::laws::steps::lemma_command(steps, 2, 9, next2, answers, 35);
    crate::laws::steps::lemma_command(steps, 3, 9, next2, answers, 36);
    crate::laws::steps::lemma_download(steps, 4, 9, next2, answers, 37);
    if answers[37] is Words {
        let next3 = next2.with_column(6, answers[37]->Words_0);
        crate::laws::steps::lemma_command(steps, 5, 9, next3, answers, 38);
        crate::laws::steps::lemma_download(steps, 6, 9, next3, answers, 39);
        if answers[39] is Words {
            let next4 = next3.with_column(7, answers[39]->Words_0);
            crate::laws::joins::lemma_not_alike_sets(next4, 6, 7);
            crate::laws::steps::lemma_check(
                steps,
                7,
                9,
                next4,
                answers,
                40,
                !(answers[37]->Words_0.to_set() == answers[39]->Words_0.to_set()),
            );
            crate::laws::steps::lemma_command(steps, 8, 9, next4, answers, 40);
            crate::laws::steps::lemma_end(steps, 9, next4, answers, 41);
        }
    }
}

/// The part `end`.
proof fn lemma_repeats_end(contents: Contents, answers: Seq<Answer>)
    requires
        contents.full(),
        repeats_shaped(answers),
    ensures
        match crate::walk::walked(
            crate::categories::c15_determinism::dedup_reproducibility_end_steps(),
            0,
            1,
            contents,
            answers,
            41,
        ) {
            Some((after, next)) => {
                &&& repeats_end(answers)
                &&& after.full()
                &&& next == 42
            },
            None => !repeats_end(answers),
        },
        crate::categories::c15_determinism::dedup_reproducibility_end_steps().len() == 1,
{
    let steps = crate::categories::c15_determinism::dedup_reproducibility_end_steps();
    crate::laws::steps::lemma_command(steps, 0, 1, contents, answers, 41);
    crate::laws::steps::lemma_end(steps, 1, contents, answers, 42);
}

/// The test has no jumps.
proof fn lemma_repeats_straight()
    ensures
        forall|j: int|
            0 <= j < crate::categories::c15_determinism::dedup_reproducibility_steps().len()
                ==> crate::walk::straight(
            #[trigger] crate::categories::c15_determinism::dedup_reproducibility_steps()[j],
        ),
{
    let part1 = crate::categories::c15_determinism::dedup_reproducibility_first_steps();
    let part2 = crate::script::rounds(
        4,
        |k: int| crate::categories::c15_determinism::dedup_reproducibility_repeats_round(k as u64),
    );
    let round2 = |k: int| crate::categories::c15_determinism::dedup_reproducibility_repeats_round(
        k as u64,
    );
    crate::walk::law_straight_rounds_are_straight(4, round2);
    let part3 = crate::categories::c15_determinism::repeated_dedup_steps("all_same", num(42));
    let part4 = crate::categories::c15_determinism::repeated_dedup_steps(
        "pairs",
        over(ix(), num(2)),
    );
    let part5 = crate::categories::c15_determinism::repeated_dedup_steps(
        "random_dups",
        modulo(plus(times(ix(), num(1103515245)), num(12345)), num(500)),
    );
    let part6 = crate::categories::c15_determinism::dedup_reproducibility_end_steps();
    let whole1 = part1;
    let whole2 = whole1 + part2;
    crate::walk::law_straight_scripts_make_a_straight_one(whole1, part2);
    let whole3 = whole2 + part3;
    crate::walk::law_straight_scripts_make_a_straight_one(whole2, part3);
    let whole4 = whole3 + part4;
    crate::walk::law_straight_scripts_make_a_straight_one(whole3, part4);
    let whole5 = whole4 + part5;
    crate::walk::law_straight_scripts_make_a_straight_one(whole4, part5);
    let whole6 = whole5 + part6;
    crate::walk::law_straight_scripts_make_a_straight_one(whole5, part6);
    assert(crate::categories::c15_determinism::dedup_reproducibility_steps() == whole6);
}

/// The test that removes the same duplicates again passes exactly when the first result holds a
/// thousand keys, none twice, each repetition leaves as many rows and the same keys, and so do two
/// runs of three other patterns.
pub proof fn law_repeats_pass_exactly_when_the_same_keys_are_left(answers: Seq<Answer>)
    requires
        repeats_shaped(answers),
    ensures
        crate::machine::run_of(
            crate::script::plan(
                "test_dedup_reproducibility",
                crate::categories::c15_determinism::dedup_reproducibility_steps(),
            ),
            answers,
        ).progress == Progress::Over(Ending::Passed) <==> {
            &&& repeats_first(answers)
            &&& forall|k: int|
                0 <= k < 4 ==> #[trigger] repeats_repeats(k, answers, 3 + 5 * k)
            &&& repeats_all_same(answers)
            &&& repeats_pairs(answers)
            &&& repeats_random_dups(answers)
            &&& repeats_end(answers)
        },
{
    let plan = crate::script::plan(
        "test_dedup_reproducibility",
        crate::categories::c15_determinism::dedup_reproducibility_steps(),
    );
    let blank = Contents::blank(plan.texts);
    let part1 = crate::categories::c15_determinism::dedup_reproducibility_first_steps();
    let part2 = crate::script::rounds(
        4,
        |k: int| crate::categories::c15_determinism::dedup_reproducibility_repeats_round(k as u64),
    );
    let part3 = crate::categories::c15_determinism::repeated_dedup_steps("all_same", num(42));
    let part4 = crate::categories::c15_determinism::repeated_dedup_steps(
        "pairs",
        over(ix(), num(2)),
    );
    let part5 = crate::categories::c15_determinism::repeated_dedup_steps(
        "random_dups",
        modulo(plus(times(ix(), num(1103515245)), num(12345)), num(500)),
    );
    let part6 = crate::categories::c15_determinism::dedup_reproducibility_end_steps();
    let whole1 = part1;
    let whole2 = whole1 + part2;
    let whole3 = whole2 + part3;
    let whole4 = whole3 + part4;
    let whole5 = whole4 + part5;
    let whole6 = whole5 + part6;
    assert(plan.steps == whole6);
    lemma_repeats_first(blank, answers);
    crate::walk::law_walks_over_two_scripts_compose(whole1, part2, blank, answers, 0);
    crate::walk::law_walks_over_two_scripts_compose(whole2, part3, blank, answers, 0);
    crate::walk::law_walks_over_two_scripts_compose(whole3, part4, blank, answers, 0);
    crate::walk::law_walks_over_two_scripts_compose(whole4, part5, blank, answers, 0);
    crate::walk::law_walks_over_two_scripts_compose(whole5, part6, blank, answers, 0);
    match crate::walk::walked(whole1, 0, whole1.len() as int, blank, answers, 0) {
        Some((after, _)) => {
            lemma_repeats_repeats_rounds(after, answers);
            match crate::walk::walked(whole2, 0, whole2.len() as int, blank, answers, 0) {
                Some((after, _)) => {
                    lemma_repeats_all_same(after, answers);
                    match crate::walk::walked(whole3, 0, whole3.len() as int, blank, answers, 0) {
                        Some((after, _)) => {
                            lemma_repeats_pairs(after, answers);
                            match crate::walk::walked(
                                whole4,
                                0,
                                whole4.len() as int,
                                blank,
                                answers,
                                0,
                            ) {
                                Some((after, _)) => {
                                    lemma_repeats_random_dups(after, answers);
                                    match crate::walk::walked(
                                        whole5,
                                        0,
                                        whole5.len() as int,
                                        blank,
                                        answers,
                                        0,
                                    ) {
                                        Some((after, _)) => {
                                            lemma_repeats_end(after, answers);
                                        },
                                        None => {},
                                    }
                                },
                                None => {},
                            }
                        },
                        None => {},
                    }
                },
                None => {},
            }
        },
        None => {},
    }
    lemma_repeats_straight();
    crate::walk::law_passes_exactly_when_every_step_goes_through(plan, answers);
}

} // verus!
