//! Laws of tests that join tables.

use vstd::prelude::*;
use crate::expr::{alike_sets, and, differs, here, len, lt, narrow, not, num, plus, reg, Expr};
use crate::machine::{Answer, Ending, Progress};
use crate::memory::Contents;
use crate::script::{Act, Faults, Step, COUNT};

verus! {

/// Whether the value columns of the first `rows` joined rows belong to the keys: the left value
/// is `left` of the key and the right value is `right` of the key.
pub open spec fn rows_belong(
    keys: Seq<u64>,
    lefts: Seq<u64>,
    rights: Seq<u64>,
    rows: u64,
    left: spec_fn(u64) -> int,
    right: spec_fn(u64) -> int,
) -> bool {
    &&& rows <= keys.len()
    &&& rows <= lefts.len()
    &&& rows <= rights.len()
    &&& forall|i: int|
        0 <= i < rows ==> lefts[i] == left(#[trigger] keys[i]) && rights[i] == right(keys[i])
}

/// What looking at one joined row finds.
pub proof fn lemma_row_faults(
    faults: Faults,
    left: Expr,
    right: Expr,
    contents: Contents,
    place: u64,
    left_value: Option<u64>,
    right_value: Option<u64>,
)
    requires
        contents.full(),
        faults matches Faults::More(first, _, rest) && {
            &&& first == and(not(lt(here(6), num(0))), differs(here(5), narrow(left)))
            &&& *rest matches Faults::One(second, _)
            &&& second == differs(here(6), narrow(right))
        },
        crate::expr::value_of(left, contents, place) == left_value,
        crate::expr::value_of(right, contents, place) == right_value,
    ensures
        crate::walk::shows(faults, contents, place) <==> !({
            &&& place < contents.columns[5].len()
            &&& place < contents.columns[6].len()
            &&& left_value matches Some(l)
            &&& l <= u32::MAX
            &&& contents.columns[5][place as int] == l
            &&& right_value matches Some(r)
            &&& r <= u32::MAX
            &&& contents.columns[6][place as int] == r
        }),
{
    let five = if place < contents.columns[5].len() {
        Some(contents.columns[5][place as int])
    } else {
        None
    };
    let six = if place < contents.columns[6].len() {
        Some(contents.columns[6][place as int])
    } else {
        None
    };
    assert(crate::expr::value_of(here(5), contents, place) == five) by {
        reveal_with_fuel(crate::expr::value_of, 2);
    }
    assert(crate::expr::value_of(here(6), contents, place) == six) by {
        reveal_with_fuel(crate::expr::value_of, 2);
    }
    assert(crate::expr::value_of(num(0), contents, place) == Some(0u64));
    let never = lt(here(6), num(0));
    assert(crate::expr::value_of(never, contents, place) == match six {
        Some(_) => Some(0u64),
        None => None,
    });
    assert(crate::expr::value_of(not(never), contents, place) == match six {
        Some(_) => Some(1u64),
        None => None,
    });
    let narrow_left = match left_value {
        Some(l) => if l <= u32::MAX {
            Some(l)
        } else {
            None
        },
        None => None,
    };
    let narrow_right = match right_value {
        Some(r) => if r <= u32::MAX {
            Some(r)
        } else {
            None
        },
        None => None,
    };
    assert(crate::expr::value_of(narrow(left), contents, place) == narrow_left);
    assert(crate::expr::value_of(narrow(right), contents, place) == narrow_right);
    let wrong_left = differs(here(5), narrow(left));
    let wrong_right = differs(here(6), narrow(right));
    assert(crate::expr::value_of(wrong_left, contents, place) == match (five, narrow_left) {
        (Some(a), Some(b)) => Some(crate::expr::truth(a != b)),
        _ => None,
    }) by {
        crate::laws::steps::lemma_differs(here(5), narrow(left), contents, place);
    }
    assert(crate::expr::value_of(wrong_right, contents, place) == match (six, narrow_right) {
        (Some(a), Some(b)) => Some(crate::expr::truth(a != b)),
        _ => None,
    }) by {
        crate::laws::steps::lemma_differs(here(6), narrow(right), contents, place);
    }
    reveal_with_fuel(crate::walk::shows, 3);
}

/// A scan of the joined rows whose values are the key and something added.
proof fn lemma_scan_shifted_rows(
    steps: Seq<Step>,
    at: int,
    to: int,
    contents: Contents,
    answers: Seq<Answer>,
    used: int,
    rows: u64,
)
    requires
        at < to,
        crate::machine::taken(steps[at], contents) == Some(true),
        contents.full(),
        contents.registers[0] == rows,
        contents.columns[4].len() <= u64::MAX,
        forall|i: int| 0 <= i < contents.columns[4].len() ==> contents.columns[4][i] <= u32::MAX,
        forall|i: int| 0 <= i < contents.columns[5].len() ==> contents.columns[5][i] <= u32::MAX,
        forall|i: int| 0 <= i < contents.columns[6].len() ==> contents.columns[6][i] <= u32::MAX,
        crate::machine::act_of(steps[at]) matches Act::Scan { low, high, by, faults } && {
            &&& low == num(0)
            &&& high == reg(0)
            &&& by == 1
            &&& faults matches Faults::More(first, _, rest)
            &&& first == and(
                not(lt(here(6), num(0))),
                differs(here(5), narrow(plus(here(4), num(1)))),
            )
            &&& *rest matches Faults::One(second, _)
            &&& second == differs(here(6), narrow(plus(here(4), num(2))))
        },
    ensures
        crate::walk::walked(steps, at, to, contents, answers, used) == (if rows_belong(
            contents.columns[4],
            contents.columns[5],
            contents.columns[6],
            rows,
            |key: u64| key + 1,
            |key: u64| key + 2,
        ) {
            crate::walk::walked(steps, at + 1, to, contents, answers, used)
        } else {
            None
        }),
{
    let keys = contents.columns[4];
    let lefts = contents.columns[5];
    let rights = contents.columns[6];
    let left = |key: u64| key + 1;
    let right = |key: u64| key + 2;
    match crate::machine::act_of(steps[at]) {
        Act::Scan { faults, .. } => {
            crate::laws::steps::lemma_scan(steps, at, to, contents, answers, used, 0, rows);
            assert forall|i: int| 0 <= i < rows implies (#[trigger] crate::walk::shows(
                faults,
                contents,
                i as u64,
            ) <==> !(i < keys.len() && i < lefts.len() && i < rights.len() && lefts[i] == keys[i]
                + 1 && rights[i] == keys[i] + 2)) by {
                let place = i as u64;
                let one = plus(here(4), num(1));
                let two = plus(here(4), num(2));
                let first = crate::expr::value_of(one, contents, place);
                let second = crate::expr::value_of(two, contents, place);
                assert(first == if i < keys.len() {
                    Some((keys[i] + 1) as u64)
                } else {
                    None
                } && second == if i < keys.len() {
                    Some((keys[i] + 2) as u64)
                } else {
                    None
                }) by {
                    reveal_with_fuel(crate::expr::value_of, 3);
                }
                lemma_row_faults(faults, one, two, contents, place, first, second);
            }
            if rows_belong(keys, lefts, rights, rows, left, right) {
                assert forall|i: int| 0 <= i < rows implies !(#[trigger] crate::walk::shows(
                    faults,
                    contents,
                    i as u64,
                )) by {
                    assert(lefts[i] == left(keys[i]));
                }
            } else if forall|i: int|
                0 <= i < rows ==> !(#[trigger] crate::walk::shows(faults, contents, i as u64)) {
                if rows > 0 {
                    assert(!crate::walk::shows(faults, contents, (rows - 1) as u64));
                }
                assert forall|i: int| 0 <= i < rows implies lefts[i] == left(#[trigger] keys[i])
                    && rights[i] == right(keys[i]) by {
                    assert(!crate::walk::shows(faults, contents, i as u64));
                }
                assert(false);
            }
        },
        _ => {},
    }
}

/// Whether two columns hold different sets of words.
pub proof fn lemma_not_alike_sets(contents: Contents, left: u64, right: u64)
    requires
        left < contents.columns.len(),
        right < contents.columns.len(),
    ensures
        crate::expr::value_of(not(alike_sets(left, right)), contents, 0) == Some(
            crate::expr::truth(
                contents.columns[left as int].to_set() != contents.columns[right as int].to_set(),
            ),
        ),
{
    reveal_with_fuel(crate::expr::value_of, 3);
}

/// A scan for keys that are not the one key of a table.
proof fn lemma_scan_constant(
    steps: Seq<Step>,
    at: int,
    to: int,
    contents: Contents,
    answers: Seq<Answer>,
    used: int,
    slot: u64,
    word: u64,
)
    requires
        at < to,
        crate::machine::taken(steps[at], contents) == Some(true),
        slot < contents.columns.len(),
        contents.columns[slot as int].len() <= u64::MAX,
        crate::machine::act_of(steps[at]) matches Act::Scan { low, high, by, faults } && {
            &&& low == num(0)
            &&& high == len(slot)
            &&& by == 1
            &&& faults matches Faults::One(fault, _)
            &&& fault == differs(here(slot), num(word))
        },
    ensures
        crate::walk::walked(steps, at, to, contents, answers, used) == (if forall|i: int|
            0 <= i < contents.columns[slot as int].len() ==> contents.columns[slot as int][i]
                == word {
            crate::walk::walked(steps, at + 1, to, contents, answers, used)
        } else {
            None
        }),
{
    let words = contents.columns[slot as int];
    match crate::machine::act_of(steps[at]) {
        Act::Scan { faults, .. } => {
            crate::laws::steps::lemma_scan(
                steps,
                at,
                to,
                contents,
                answers,
                used,
                0,
                words.len() as u64,
            );
            assert forall|i: int| 0 <= i < words.len() implies (#[trigger] crate::walk::shows(
                faults,
                contents,
                i as u64,
            ) <==> words[i] != word) by {
                reveal_with_fuel(crate::expr::value_of, 4);
            }
            if exists|i: int| 0 <= i < words.len() && words[i] != word {
                let i = choose|i: int| 0 <= i < words.len() && words[i] != word;
                assert(crate::walk::shows(faults, contents, i as u64));
            }
        },
        _ => {},
    }
}

/// The join of colliding keys passes exactly when the device joins both pairs of tables, counts
/// five thousand and a hundred thousand rows, hands out rows whose values belong to their keys,
/// every key among them, and in the second join no key but the one that there is.
pub proof fn law_contention_passes_exactly_when_rows_belong(
    answers: Seq<Answer>,
    rows: u64,
)
    requires
        answers.len() >= 14,
        crate::laws::steps::narrow_or_refusal(answers[4]),
        crate::laws::steps::narrow_or_refusal(answers[5]),
        crate::laws::steps::narrow_or_refusal(answers[6]),
        crate::laws::steps::column_or_refusal(answers[12]),
        answers[7] == Answer::Count(rows),
    ensures
        crate::machine::run_of(
            crate::script::plan(
                "test_high_contention_join",
                crate::categories::c12_atomics::high_contention_join_steps(),
            ),
            answers,
        ).progress == Progress::Over(Ending::Passed) <==> {
            &&& !(answers[0] is Failed)
            &&& !(answers[1] is Failed)
            &&& !(answers[2] is Failed)
            &&& answers[3] == Answer::Count(5000)
            &&& answers[4] matches Answer::Words(keys)
            &&& answers[5] matches Answer::Words(lefts)
            &&& answers[6] matches Answer::Words(rights)
            &&& rows_belong(keys, lefts, rights, rows, |key: u64| key + 1, |key: u64| key + 2)
            &&& keys.to_set() == crate::laws::words::scaled(
                crate::laws::words::below(5000),
                256,
            ).to_set()
            &&& !(answers[8] is Failed)
            &&& !(answers[9] is Failed)
            &&& !(answers[10] is Failed)
            &&& answers[11] == Answer::Count(100000)
            &&& answers[12] matches Answer::Words(same)
            &&& forall|i: int| 0 <= i < same.len() ==> same[i] == 12345
            &&& !(answers[13] is Failed)
        },
{
    let steps = crate::categories::c12_atomics::high_contention_join_steps();
    let plan = crate::script::plan("test_high_contention_join", steps);
    crate::walk::law_passes_exactly_when_every_step_goes_through(plan, answers);
    lemma_contention_1(steps, Contents::blank(plan.texts), answers, rows);
}

/// Part 1 of the proof of [`law_contention_passes_exactly_when_rows_belong`].
proof fn lemma_contention_1(
    steps: Seq<Step>,
    contents: Contents,
    answers: Seq<Answer>,
    rows: u64,
)
    requires
        steps == crate::categories::c12_atomics::high_contention_join_steps(),
        contents.full(),
        answers.len() >= 14,
        crate::laws::steps::narrow_or_refusal(answers[4]),
        crate::laws::steps::narrow_or_refusal(answers[5]),
        crate::laws::steps::narrow_or_refusal(answers[6]),
        crate::laws::steps::column_or_refusal(answers[12]),
        answers[7] == Answer::Count(rows),
    ensures
        crate::walk::walked(steps, 0, 25, contents, answers, 0) is Some <==> {
            &&& !(answers[0] is Failed)
            &&& !(answers[1] is Failed)
            &&& !(answers[2] is Failed)
            &&& answers[3] == Answer::Count(5000)
            &&& answers[4] matches Answer::Words(keys)
            &&& answers[5] matches Answer::Words(lefts)
            &&& answers[6] matches Answer::Words(rights)
            &&& rows_belong(keys, lefts, rights, rows, |key: u64| key + 1, |key: u64| key + 2)
            &&& keys.to_set() == crate::laws::words::scaled(
                crate::laws::words::below(5000),
                256,
            ).to_set()
            &&& !(answers[8] is Failed)
            &&& !(answers[9] is Failed)
            &&& !(answers[10] is Failed)
            &&& answers[11] == Answer::Count(100000)
            &&& answers[12] matches Answer::Words(same)
            &&& forall|i: int| 0 <= i < same.len() ==> same[i] == 12345
            &&& !(answers[13] is Failed)
        },
{
    crate::laws::words::lemma_scaled_places(256, 5000, contents);
    let words1 = crate::laws::words::scaled(crate::laws::words::below(5000), 256);
    crate::laws::steps::lemma_fill(steps, 0, 25, contents, answers, 0, words1);
    let next1 = contents.with_column(0, words1);
    crate::laws::words::lemma_shifted(0, 1, next1);
    let words2 = crate::laws::words::shifted(
        crate::laws::words::scaled(crate::laws::words::below(5000), 256),
        1,
    );
    crate::laws::steps::lemma_fill(steps, 1, 25, next1, answers, 0, words2);
    let next2 = next1.with_column(1, words2);
    crate::laws::words::lemma_copy(0, next2);
    let words3 = crate::laws::words::scaled(crate::laws::words::below(5000), 256);
    crate::laws::steps::lemma_fill(steps, 2, 25, next2, answers, 0, words3);
    let next3 = next2.with_column(2, words3);
    crate::laws::words::lemma_shifted(0, 2, next3);
    let words4 = crate::laws::words::shifted(
        crate::laws::words::scaled(crate::laws::words::below(5000), 256),
        2,
    );
    crate::laws::steps::lemma_fill(steps, 3, 25, next3, answers, 0, words4);
    let next4 = next3.with_column(3, words4);
    crate::laws::steps::lemma_command(steps, 4, 25, next4, answers, 0);
    crate::laws::steps::lemma_command(steps, 5, 25, next4, answers, 1);
    crate::laws::steps::lemma_command(steps, 6, 25, next4, answers, 2);
    crate::laws::steps::lemma_match(steps, 7, 25, next4, answers, 3, 5000);
    let next5 = next4.with_register(COUNT, 5000);
    lemma_contention_2(steps, next5, answers, rows);
}

/// Part 2 of the proof of [`law_contention_passes_exactly_when_rows_belong`].
proof fn lemma_contention_2(
    steps: Seq<Step>,
    contents: Contents,
    answers: Seq<Answer>,
    rows: u64,
)
    requires
        steps == crate::categories::c12_atomics::high_contention_join_steps(),
        contents.full(),
        answers.len() >= 14,
        crate::laws::steps::narrow_or_refusal(answers[4]),
        crate::laws::steps::narrow_or_refusal(answers[5]),
        crate::laws::steps::narrow_or_refusal(answers[6]),
        crate::laws::steps::column_or_refusal(answers[12]),
        answers[7] == Answer::Count(rows),
        contents.columns[0] == crate::laws::words::scaled(crate::laws::words::below(5000), 256),
    ensures
        crate::walk::walked(steps, 8, 25, contents, answers, 4) is Some <==> {
            &&& answers[4] matches Answer::Words(keys)
            &&& answers[5] matches Answer::Words(lefts)
            &&& answers[6] matches Answer::Words(rights)
            &&& rows_belong(keys, lefts, rights, rows, |key: u64| key + 1, |key: u64| key + 2)
            &&& keys.to_set() == crate::laws::words::scaled(
                crate::laws::words::below(5000),
                256,
            ).to_set()
            &&& !(answers[8] is Failed)
            &&& !(answers[9] is Failed)
            &&& !(answers[10] is Failed)
            &&& answers[11] == Answer::Count(100000)
            &&& answers[12] matches Answer::Words(same)
            &&& forall|i: int| 0 <= i < same.len() ==> same[i] == 12345
            &&& !(answers[13] is Failed)
        },
{
    crate::laws::steps::lemma_download(steps, 8, 25, contents, answers, 4);
    if answers[4] is Words {
        let keys = answers[4]->Words_0;
        let next1 = contents.with_column(4, keys);
        crate::laws::steps::lemma_download(steps, 9, 25, next1, answers, 5);
        if answers[5] is Words {
            let lefts = answers[5]->Words_0;
            let next2 = next1.with_column(5, lefts);
            crate::laws::steps::lemma_download(steps, 10, 25, next2, answers, 6);
            if answers[6] is Words {
                let rights = answers[6]->Words_0;
                let next3 = next2.with_column(6, rights);
                crate::laws::steps::lemma_number(steps, 11, 25, next3, answers, 7, rows);
                let next4 = next3.with_register(0, rows);
                lemma_scan_shifted_rows(steps, 12, 25, next4, answers, 8, rows);
                lemma_not_alike_sets(next4, 4, 0);
                crate::laws::steps::lemma_check(
                    steps,
                    13,
                    25,
                    next4,
                    answers,
                    8,
                    keys.to_set() != crate::laws::words::scaled(
                        crate::laws::words::below(5000),
                        256,
                    ).to_set(),
                );
                lemma_contention_3(steps, next4, answers, rows, keys, lefts, rights);
            }
        }
    }
}

/// Part 3 of the proof of [`law_contention_passes_exactly_when_rows_belong`].
proof fn lemma_contention_3(
    steps: Seq<Step>,
    contents: Contents,
    answers: Seq<Answer>,
    rows: u64,
    keys: Seq<u64>,
    lefts: Seq<u64>,
    rights: Seq<u64>,
)
    requires
        steps == crate::categories::c12_atomics::high_contention_join_steps(),
        contents.full(),
        answers.len() >= 14,
        crate::laws::steps::narrow_or_refusal(answers[4]),
        crate::laws::steps::narrow_or_refusal(answers[5]),
        crate::laws::steps::narrow_or_refusal(answers[6]),
        crate::laws::steps::column_or_refusal(answers[12]),
        answers[7] == Answer::Count(rows),
    ensures
        crate::walk::walked(steps, 14, 25, contents, answers, 8) is Some <==> {
            &&& !(answers[8] is Failed)
            &&& !(answers[9] is Failed)
            &&& !(answers[10] is Failed)
            &&& answers[11] == Answer::Count(100000)
            &&& answers[12] matches Answer::Words(same)
            &&& forall|i: int| 0 <= i < same.len() ==> same[i] == 12345
            &&& !(answers[13] is Failed)
        },
{
    crate::laws::words::lemma_constant(12345, 1000, contents);
    let words1 = crate::laws::words::constant(12345, 1000);
    crate::laws::steps::lemma_fill(steps, 14, 25, contents, answers, 8, words1);
    let next1 = contents.with_column(7, words1);
    crate::laws::words::lemma_below(1000, next1);
    let words2 = crate::laws::words::below(1000);
    crate::laws::steps::lemma_fill(steps, 15, 25, next1, answers, 8, words2);
    let next2 = next1.with_column(8, words2);
    crate::laws::words::lemma_constant(12345, 100, next2);
    let words3 = crate::laws::words::constant(12345, 100);
    crate::laws::steps::lemma_fill(steps, 16, 25, next2, answers, 8, words3);
    let next3 = next2.with_column(9, words3);
    crate::laws::words::lemma_scaled_places(1000, 100, next3);
    let words4 = crate::laws::words::scaled(crate::laws::words::below(100), 1000);
    crate::laws::steps::lemma_fill(steps, 17, 25, next3, answers, 8, words4);
    let next4 = next3.with_column(10, words4);
    crate::laws::steps::lemma_command(steps, 18, 25, next4, answers, 8);
    crate::laws::steps::lemma_command(steps, 19, 25, next4, answers, 9);
    crate::laws::steps::lemma_command(steps, 20, 25, next4, answers, 10);
    crate::laws::steps::lemma_match(steps, 21, 25, next4, answers, 11, 100000);
    let next5 = next4.with_register(COUNT, 100000);
    crate::laws::steps::lemma_download(steps, 22, 25, next5, answers, 12);
    if answers[12] is Words {
        let same = answers[12]->Words_0;
        let next6 = next5.with_column(11, same);
        lemma_scan_constant(steps, 23, 25, next6, answers, 13, 11, 12345);
        crate::laws::steps::lemma_command(steps, 24, 25, next6, answers, 13);
        crate::laws::steps::lemma_end(steps, 25, next6, answers, 14);
    }
}

} // verus!
