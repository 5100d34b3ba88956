//! The laws of the tests that join tables with few common keys.

use vstd::prelude::*;
use crate::categories::c12_atomics::{LEFT_SIZES, MATCHES, RIGHT_SIZES};
use crate::expr::{
    and, differs, here, ix, lt, modulo, narrow, not, num, over, pick, plus, reg, times, Expr,
};
use crate::machine::{Answer, Ending, Progress};
use crate::memory::Contents;
use crate::script::{Act, Faults, Step, COUNT};

verus! {

/// Whether a joined row is right: there is one, nothing is wrong with its key, and its values are
/// those that belong to the key.
pub open spec fn row_fits(
    contents: Contents,
    wrong: Expr,
    left: Expr,
    right: Expr,
    place: u64,
) -> bool {
    &&& place < contents.columns[5].len()
    &&& place < contents.columns[6].len()
    &&& crate::expr::value_of(wrong, contents, place) == Some(0u64)
    &&& crate::expr::value_of(left, contents, place) == Some(contents.columns[5][place as int])
    &&& crate::expr::value_of(right, contents, place) == Some(contents.columns[6][place as int])
}

/// A condition that is looked at only where a row has both values.
proof fn lemma_guarded(contents: Contents, wrong: Expr, place: u64)
    requires
        contents.full(),
    ensures
        crate::expr::value_of(
            and(not(lt(here(5), num(0))), and(not(lt(here(6), num(0))), wrong)),
            contents,
            place,
        ) == Some(0u64) <==> place < contents.columns[5].len() && place
            < contents.columns[6].len() && crate::expr::value_of(wrong, contents, place) == Some(
            0u64,
        ),
{
    let five = not(lt(here(5), num(0)));
    let six = not(lt(here(6), num(0)));
    assert(crate::expr::value_of(five, contents, place) == (if place < contents.columns[5].len() {
        Some(1u64)
    } else {
        None
    })) by {
        reveal_with_fuel(crate::expr::value_of, 4);
    }
    assert(crate::expr::value_of(six, contents, place) == (if place < contents.columns[6].len() {
        Some(1u64)
    } else {
        None
    })) by {
        reveal_with_fuel(crate::expr::value_of, 4);
    }
    let rest = crate::expr::value_of(and(six, wrong), contents, place);
    assert(rest == Some(0u64) <==> place < contents.columns[6].len() && crate::expr::value_of(
        wrong,
        contents,
        place,
    ) == Some(0u64));
    assert(crate::expr::value_of(and(five, and(six, wrong)), contents, place) == Some(0u64)
        <==> place < contents.columns[5].len() && rest == Some(0u64));
}

/// A value that has to be a 32-bit word.
proof fn lemma_narrow_value(contents: Contents, slot: u64, value: Expr, place: u64)
    requires
        slot < contents.columns.len(),
        forall|i: int|
            0 <= i < contents.columns[slot as int].len() ==> contents.columns[slot as int][i]
                <= u32::MAX,
    ensures
        crate::expr::value_of(differs(here(slot), narrow(value)), contents, place) == Some(0u64)
            <==> place < contents.columns[slot as int].len() && crate::expr::value_of(
            value,
            contents,
            place,
        ) == Some(contents.columns[slot as int][place as int]),
{
    crate::laws::steps::lemma_here(contents, slot, place);
    crate::laws::steps::lemma_differs(here(slot), narrow(value), contents, place);
    assert(crate::expr::value_of(narrow(value), contents, place) == match crate::expr::value_of(
        value,
        contents,
        place,
    ) {
        Some(word) => if word <= u32::MAX {
            Some(word)
        } else {
            None
        },
        None => None,
    });
}

/// A scan of joined rows.
proof fn lemma_scan_rows(
    steps: Seq<Step>,
    at: int,
    to: int,
    contents: Contents,
    answers: Seq<Answer>,
    used: int,
    rows: u64,
    wrong: Expr,
    left: Expr,
    right: Expr,
)
    requires
        at < to,
        crate::machine::taken(steps[at], contents) == Some(true),
        contents.full(),
        contents.registers[0] == rows,
        forall|i: int| 0 <= i < contents.columns[5].len() ==> contents.columns[5][i] <= u32::MAX,
        forall|i: int| 0 <= i < contents.columns[6].len() ==> contents.columns[6][i] <= u32::MAX,
        crate::machine::act_of(steps[at]) matches Act::Scan { low, high, by, faults } && {
            &&& low == num(0)
            &&& high == reg(0)
            &&& by == 1
            &&& faults matches Faults::More(first, _, rest)
            &&& first == and(not(lt(here(5), num(0))), and(not(lt(here(6), num(0))), wrong))
            &&& *rest matches Faults::More(second, _, last)
            &&& second == differs(here(5), narrow(left))
            &&& *last matches Faults::One(third, _)
            &&& third == differs(here(6), narrow(right))
        },
    ensures
        crate::walk::walked(steps, at, to, contents, answers, used) == (if forall|i: int|
            0 <= i < rows ==> #[trigger] row_fits(contents, wrong, left, right, i as u64) {
            crate::walk::walked(steps, at + 1, to, contents, answers, used)
        } else {
            None
        }),
{
    match crate::machine::act_of(steps[at]) {
        Act::Scan { faults, .. } => {
            crate::laws::steps::lemma_scan(steps, at, to, contents, answers, used, 0, rows);
            assert forall|i: int| 0 <= i < rows implies (#[trigger] crate::walk::shows(
                faults,
                contents,
                i as u64,
            ) <==> !row_fits(contents, wrong, left, right, i as u64)) by {
                lemma_guarded(contents, wrong, i as u64);
                lemma_narrow_value(contents, 5, left, i as u64);
                lemma_narrow_value(contents, 6, right, i as u64);
                reveal_with_fuel(crate::walk::shows, 4);
            }
            if forall|i: int|
                0 <= i < rows ==> #[trigger] row_fits(contents, wrong, left, right, i as u64) {
                assert forall|i: int| 0 <= i < rows implies !(#[trigger] crate::walk::shows(
                    faults,
                    contents,
                    i as u64,
                )) by {
                    assert(row_fits(contents, wrong, left, right, i as u64));
                }
            } else {
                let i = choose|i: int|
                    0 <= i < rows && !(#[trigger] row_fits(contents, wrong, left, right, i as u64));
                assert(crate::walk::shows(faults, contents, i as u64));
            }
        },
        _ => {},
    }
}

/// Whether row `i` of a join of all keys with the even ones is right: its key is even, its left
/// value is ten times the key, and its right value is a hundred times half of the key.
pub open spec fn even_row(keys: Seq<u64>, lefts: Seq<u64>, rights: Seq<u64>, i: int) -> bool {
    &&& i < keys.len()
    &&& i < lefts.len()
    &&& i < rights.len()
    &&& keys[i] % 2 == 0
    &&& lefts[i] == keys[i] * 10
    &&& rights[i] == (keys[i] / 2) * 100
}

/// A row of the join with the even keys.
proof fn lemma_even_row(contents: Contents, place: u64)
    requires
        contents.full(),
        forall|i: int| 0 <= i < contents.columns[4].len() ==> contents.columns[4][i] <= u32::MAX,
    ensures
        row_fits(
            contents,
            differs(modulo(here(4), num(2)), num(0)),
            times(here(4), num(10)),
            times(over(here(4), num(2)), num(100)),
            place,
        ) <==> even_row(
            contents.columns[4],
            contents.columns[5],
            contents.columns[6],
            place as int,
        ),
{
    crate::laws::steps::lemma_here(contents, 4, place);
    crate::laws::steps::lemma_differs(modulo(here(4), num(2)), num(0), contents, place);
    assert(crate::expr::value_of(num(0), contents, place) == Some(0u64));
    assert(crate::expr::value_of(num(2), contents, place) == Some(2u64));
    assert(crate::expr::value_of(num(10), contents, place) == Some(10u64));
    assert(crate::expr::value_of(num(100), contents, place) == Some(100u64));
    let half = crate::expr::value_of(over(here(4), num(2)), contents, place);
    assert(half == match crate::expr::value_of(here(4), contents, place) {
        Some(key) => Some((key / 2) as u64),
        None => None,
    });
}

/// Whether all rows of the join with the even keys are right.
pub open spec fn even_rows(keys: Seq<u64>, lefts: Seq<u64>, rights: Seq<u64>, rows: u64) -> bool {
    forall|i: int| 0 <= i < rows ==> #[trigger] even_row(keys, lefts, rights, i)
}

/// The scan of the join with the even keys.
proof fn lemma_scan_even_rows(
    steps: Seq<Step>,
    at: int,
    to: int,
    contents: Contents,
    answers: Seq<Answer>,
    used: int,
    rows: u64,
)
    requires
        at < to,
        crate::machine::taken(steps[at], contents) == Some(true),
        contents.full(),
        contents.registers[0] == rows,
        forall|i: int| 0 <= i < contents.columns[4].len() ==> contents.columns[4][i] <= u32::MAX,
        forall|i: int| 0 <= i < contents.columns[5].len() ==> contents.columns[5][i] <= u32::MAX,
        forall|i: int| 0 <= i < contents.columns[6].len() ==> contents.columns[6][i] <= u32::MAX,
        crate::machine::act_of(steps[at]) matches Act::Scan { low, high, by, faults } && {
            &&& low == num(0)
            &&& high == reg(0)
            &&& by == 1
            &&& faults matches Faults::More(first, _, rest)
            &&& first == and(
                not(lt(here(5), num(0))),
                and(not(lt(here(6), num(0))), differs(modulo(here(4), num(2)), num(0))),
            )
            &&& *rest matches Faults::More(second, _, last)
            &&& second == differs(here(5), narrow(times(here(4), num(10))))
            &&& *last matches Faults::One(third, _)
            &&& third == differs(here(6), narrow(times(over(here(4), num(2)), num(100))))
        },
    ensures
        crate::walk::walked(steps, at, to, contents, answers, used) == (if even_rows(
            contents.columns[4],
            contents.columns[5],
            contents.columns[6],
            rows,
        ) {
            crate::walk::walked(steps, at + 1, to, contents, answers, used)
        } else {
            None
        }),
{
    let wrong = differs(modulo(here(4), num(2)), num(0));
    let left = times(here(4), num(10));
    let right = times(over(here(4), num(2)), num(100));
    let keys = contents.columns[4];
    let lefts = contents.columns[5];
    let rights = contents.columns[6];
    lemma_scan_rows(steps, at, to, contents, answers, used, rows, wrong, left, right);
    if even_rows(keys, lefts, rights, rows) {
        assert forall|i: int| 0 <= i < rows implies #[trigger] row_fits(
            contents,
            wrong,
            left,
            right,
            i as u64,
        ) by {
            assert(even_row(keys, lefts, rights, i));
            lemma_even_row(contents, i as u64);
        }
    } else {
        let i = choose|i: int| 0 <= i < rows && !(#[trigger] even_row(keys, lefts, rights, i));
        lemma_even_row(contents, i as u64);
        assert(!row_fits(contents, wrong, left, right, i as u64));
    }
}

/// Whether row `i` of a join is right: its key is below a limit, its left value is ten times the
/// key, and its right value is a hundred times the key.
pub open spec fn low_row(
    limit: u64,
    keys: Seq<u64>,
    lefts: Seq<u64>,
    rights: Seq<u64>,
    i: int,
) -> bool {
    &&& i < keys.len()
    &&& i < lefts.len()
    &&& i < rights.len()
    &&& keys[i] < limit
    &&& lefts[i] == keys[i] * 10
    &&& rights[i] == keys[i] * 100
}

/// A row of a join of keys below a limit.
proof fn lemma_low_row(contents: Contents, limit: u64, place: u64)
    requires
        contents.full(),
        forall|i: int| 0 <= i < contents.columns[4].len() ==> contents.columns[4][i] <= u32::MAX,
    ensures
        row_fits(
            contents,
            not(lt(here(4), num(limit))),
            times(here(4), num(10)),
            times(here(4), num(100)),
            place,
        ) <==> low_row(
            limit,
            contents.columns[4],
            contents.columns[5],
            contents.columns[6],
            place as int,
        ),
{
    crate::laws::steps::lemma_here(contents, 4, place);
    assert(crate::expr::value_of(num(limit), contents, place) == Some(limit));
    assert(crate::expr::value_of(num(10), contents, place) == Some(10u64));
    assert(crate::expr::value_of(num(100), contents, place) == Some(100u64));
    let below = crate::expr::value_of(lt(here(4), num(limit)), contents, place);
    assert(below == match crate::expr::value_of(here(4), contents, place) {
        Some(key) => Some(crate::expr::truth(key < limit)),
        None => None,
    });
}

/// Whether all rows of a join of keys below a limit are right.
pub open spec fn low_rows(
    limit: u64,
    keys: Seq<u64>,
    lefts: Seq<u64>,
    rights: Seq<u64>,
    rows: u64,
) -> bool {
    forall|i: int| 0 <= i < rows ==> #[trigger] low_row(limit, keys, lefts, rights, i)
}

/// The scan of a join of keys below a limit.
proof fn lemma_scan_low_rows(
    steps: Seq<Step>,
    at: int,
    to: int,
    contents: Contents,
    answers: Seq<Answer>,
    used: int,
    rows: u64,
    limit: u64,
)
    requires
        at < to,
        crate::machine::taken(steps[at], contents) == Some(true),
        contents.full(),
        contents.registers[0] == rows,
        forall|i: int| 0 <= i < contents.columns[4].len() ==> contents.columns[4][i] <= u32::MAX,
        forall|i: int| 0 <= i < contents.columns[5].len() ==> contents.columns[5][i] <= u32::MAX,
        forall|i: int| 0 <= i < contents.columns[6].len() ==> contents.columns[6][i] <= u32::MAX,
        crate::machine::act_of(steps[at]) matches Act::Scan { low, high, by, faults } && {
            &&& low == num(0)
            &&& high == reg(0)
            &&& by == 1
            &&& faults matches Faults::More(first, _, rest)
            &&& first == and(
                not(lt(here(5), num(0))),
                and(not(lt(here(6), num(0))), not(lt(here(4), num(limit)))),
            )
            &&& *rest matches Faults::More(second, _, last)
            &&& second == differs(here(5), narrow(times(here(4), num(10))))
            &&& *last matches Faults::One(third, _)
            &&& third == differs(here(6), narrow(times(here(4), num(100))))
        },
    ensures
        crate::walk::walked(steps, at, to, contents, answers, used) == (if low_rows(
            limit,
            contents.columns[4],
            contents.columns[5],
            contents.columns[6],
            rows,
        ) {
            crate::walk::walked(steps, at + 1, to, contents, answers, used)
        } else {
            None
        }),
{
    let wrong = not(lt(here(4), num(limit)));
    let left = times(here(4), num(10));
    let right = times(here(4), num(100));
    let keys = contents.columns[4];
    let lefts = contents.columns[5];
    let rights = contents.columns[6];
    lemma_scan_rows(steps, at, to, contents, answers, used, rows, wrong, left, right);
    if low_rows(limit, keys, lefts, rights, rows) {
        assert forall|i: int| 0 <= i < rows implies #[trigger] row_fits(
            contents,
            wrong,
            left,
            right,
            i as u64,
        ) by {
            assert(low_row(limit, keys, lefts, rights, i));
            lemma_low_row(contents, limit, i as u64);
        }
    } else {
        let i = choose|i: int| 0 <= i < rows && !(
            #[trigger] low_row(limit, keys, lefts, rights, i)
        );
        lemma_low_row(contents, limit, i as u64);
        assert(!row_fits(contents, wrong, left, right, i as u64));
    }
}

/// The keys of the right table: the first `matches` ones are spread over the `lefts` keys of the
/// left table, and the others lie past them.
pub open spec fn right_keys(lefts: u64, rights: u64, matches: u64) -> Seq<u64> {
    Seq::new(
        rights as nat,
        |i: int| if i < matches {
            ((i * lefts) / (matches as int)) as u64
        } else {
            (lefts + i) as u64
        },
    )
}

/// One of the words of [`right_keys`].
proof fn lemma_right_key(lefts: u64, rights: u64, matches: u64, contents: Contents, i: u64)
    requires
        0 < matches <= rights < 1000000,
        lefts < 1000000,
        i < rights,
    ensures
        crate::expr::value_of(
            pick(
                lt(ix(), num(matches)),
                over(times(ix(), num(lefts)), num(matches)),
                plus(num(lefts), ix()),
            ),
            contents,
            i,
        ) == Some(right_keys(lefts, rights, matches)[i as int]),
        right_keys(lefts, rights, matches)[i as int] <= 1000000000000,
{
    assert(0 <= i * lefts <= 1000000000000) by (nonlinear_arith)
        requires
            i < 1000000,
            lefts < 1000000,
    ;
    assert(0 <= (i * lefts) / (matches as int) <= i * lefts) by (nonlinear_arith)
        requires
            0 <= i * lefts,
            0 < matches,
    ;
    assert(crate::expr::value_of(ix(), contents, i) == Some(i));
    assert(crate::expr::value_of(num(lefts), contents, i) == Some(lefts));
    assert(crate::expr::value_of(num(matches), contents, i) == Some(matches));
    let product = crate::expr::value_of(times(ix(), num(lefts)), contents, i);
    assert(product == Some((i * lefts) as u64));
    let share = crate::expr::value_of(over(times(ix(), num(lefts)), num(matches)), contents, i);
    assert(share == Some(((i * lefts) / (matches as int)) as u64));
    assert(crate::expr::value_of(plus(num(lefts), ix()), contents, i) == Some((lefts + i) as u64));
    assert(crate::expr::value_of(lt(ix(), num(matches)), contents, i) == Some(
        crate::expr::truth(i < matches),
    ));
}

/// The words of [`right_keys`].
proof fn lemma_right_keys(lefts: u64, rights: u64, matches: u64, contents: Contents)
    requires
        0 < matches <= rights < 1000000,
        lefts < 1000000,
    ensures
        forall|i: int|
            0 <= i < rights ==> #[trigger] crate::expr::value_of(
                pick(
                    lt(ix(), num(matches)),
                    over(times(ix(), num(lefts)), num(matches)),
                    plus(num(lefts), ix()),
                ),
                contents,
                i as u64,
            ) == Some(right_keys(lefts, rights, matches)[i]),
        forall|i: int|
            0 <= i < rights ==> right_keys(lefts, rights, matches)[i] <= 1000000000000,
{
    assert forall|i: int| 0 <= i < rights implies #[trigger] crate::expr::value_of(
        pick(
            lt(ix(), num(matches)),
            over(times(ix(), num(lefts)), num(matches)),
            plus(num(lefts), ix()),
        ),
        contents,
        i as u64,
    ) == Some(right_keys(lefts, rights, matches)[i]) by {
        lemma_right_key(lefts, rights, matches, contents, i as u64);
    }
    assert forall|i: int| 0 <= i < rights implies right_keys(lefts, rights, matches)[i]
        <= 1000000000000 by {
        lemma_right_key(lefts, rights, matches, contents, i as u64);
    }
}

/// The sizes are those of tables.
proof fn lemma_table_sizes(k: int)
    requires
        0 <= k < 4,
    ensures
        0 < MATCHES@[k] <= RIGHT_SIZES@[k] < 1000000,
        0 < LEFT_SIZES@[k] < 1000000,
{
}

/// Whether the answers to the downloads of the test are columns or refusals.
pub open spec fn even_shaped(answers: Seq<Answer>) -> bool {
    &&& answers.len() >= 9
    &&& crate::laws::steps::narrow_or_refusal(answers[4])
    &&& crate::laws::steps::narrow_or_refusal(answers[5])
    &&& crate::laws::steps::narrow_or_refusal(answers[6])
    &&& answers[7] is Count
}

/// What the device has to answer.
pub open spec fn even_answers(answers: Seq<Answer>) -> bool {
    &&& !(answers[0] is Failed)
    &&& !(answers[1] is Failed)
    &&& !(answers[2] is Failed)
    &&& answers[3] == Answer::Count(5000)
    &&& answers[4] is Words
    &&& answers[5] is Words
    &&& answers[6] is Words
    &&& even_rows(
        answers[4]->Words_0,
        answers[5]->Words_0,
        answers[6]->Words_0,
        answers[7]->Count_0,
    )
    &&& !(answers[8] is Failed)
}

/// The steps of the test.
proof fn lemma_even_answers(contents: Contents, answers: Seq<Answer>)
    requires
        contents.full(),
        even_shaped(answers),
    ensures
        match crate::walk::walked(
            crate::categories::c08_synchronization::hash_join_atomics_steps(),
            0,
            14,
            contents,
            answers,
            0,
        ) {
            Some((after, next)) => {
                &&& even_answers(answers)
                &&& after.full()
                &&& next == 9
            },
            None => !even_answers(answers),
        },
        crate::categories::c08_synchronization::hash_join_atomics_steps().len() == 14,
{
    let steps = crate::categories::c08_synchronization::hash_join_atomics_steps();
    crate::laws::words::lemma_below(10000, contents);
    let words1 = crate::laws::words::below(10000);
    crate::laws::steps::lemma_fill(steps, 0, 14, contents, answers, 0, words1);
    let next1 = contents.with_column(0, words1);
    crate::laws::words::lemma_scaled_places(10, 10000, next1);
    let words2 = crate::laws::words::scaled(crate::laws::words::below(10000), 10);
    crate::laws::steps::lemma_fill(steps, 1, 14, next1, answers, 0, words2);
    let next2 = next1.with_column(1, words2);
    crate::laws::words::lemma_scaled_places(2, 5000, next2);
    let words3 = crate::laws::words::scaled(crate::laws::words::below(5000), 2);
    crate::laws::steps::lemma_fill(steps, 2, 14, next2, answers, 0, words3);
    let next3 = next2.with_column(2, words3);
    crate::laws::words::lemma_scaled_places(100, 5000, next3);
    let words4 = crate::laws::words::scaled(crate::laws::words::below(5000), 100);
    crate::laws::steps::lemma_fill(steps, 3, 14, next3, answers, 0, words4);
    let next4 = next3.with_column(3, words4);
    crate::laws::steps::lemma_command(steps, 4, 14, next4, answers, 0);
    crate::laws::steps::lemma_command(steps, 5, 14, next4, answers, 1);
    crate::laws::steps::lemma_command(steps, 6, 14, next4, answers, 2);
    crate::laws::steps::lemma_match(steps, 7, 14, next4, answers, 3, 5000);
    let next5 = next4.with_register(COUNT, 5000);
    crate::laws::steps::lemma_download(steps, 8, 14, next5, answers, 4);
    if answers[4] is Words {
        let next6 = next5.with_column(4, answers[4]->Words_0);
        crate::laws::steps::lemma_download(steps, 9, 14, next6, answers, 5);
        if answers[5] is Words {
            let next7 = next6.with_column(5, answers[5]->Words_0);
            crate::laws::steps::lemma_download(steps, 10, 14, next7, answers, 6);
            if answers[6] is Words {
                let next8 = next7.with_column(6, answers[6]->Words_0);
                crate::laws::steps::lemma_number(
                    steps,
                    11,
                    14,
                    next8,
                    answers,
                    7,
                    answers[7]->Count_0,
                );
                let next9 = next8.with_register(0, answers[7]->Count_0);
                lemma_scan_even_rows(steps, 12, 14, next9, answers, 8, answers[7]->Count_0);
                crate::laws::steps::lemma_command(steps, 13, 14, next9, answers, 8);
                crate::laws::steps::lemma_end(steps, 14, next9, answers, 9);
            }
        }
    }
}

/// The test has no jumps.
proof fn lemma_even_straight()
    ensures
        forall|j: int|
            0 <= j < crate::categories::c08_synchronization::hash_join_atomics_steps().len()
                ==> crate::walk::straight(
                #[trigger] crate::categories::c08_synchronization::hash_join_atomics_steps()[j],
            ),
{
}

/// The test that joins all keys with the even ones passes exactly when five thousand rows are
/// joined, and every row that the device counts has an even key and the values that belong to it.
pub proof fn law_join_passes_exactly_when_even_keys_are_joined(answers: Seq<Answer>)
    requires
        even_shaped(answers),
    ensures
        crate::machine::run_of(
            crate::script::plan(
                "test_hash_join_atomics",
                crate::categories::c08_synchronization::hash_join_atomics_steps(),
            ),
            answers,
        ).progress == Progress::Over(Ending::Passed) <==> even_answers(answers),
{
    let plan = crate::script::plan(
        "test_hash_join_atomics",
        crate::categories::c08_synchronization::hash_join_atomics_steps(),
    );
    let blank = Contents::blank(plan.texts);
    lemma_even_answers(blank, answers);
    lemma_even_straight();
    crate::walk::law_passes_exactly_when_every_step_goes_through(plan, answers);
}

/// Whether the answers to the downloads of the test are columns or refusals.
pub open spec fn spread_shaped(answers: Seq<Answer>) -> bool {
    &&& answers.len() >= 37
    &&& forall|k: int|
        0 <= k < 4 ==> crate::laws::steps::narrow_or_refusal(#[trigger] answers[4 + 9 * k])
    &&& forall|k: int|
        0 <= k < 4 ==> crate::laws::steps::narrow_or_refusal(#[trigger] answers[5 + 9 * k])
    &&& forall|k: int|
        0 <= k < 4 ==> crate::laws::steps::narrow_or_refusal(#[trigger] answers[6 + 9 * k])
    &&& forall|k: int| 0 <= k < 4 ==> #[trigger] answers[7 + 9 * k] is Count
}

/// What the device has to answer in round `k` of the part `joins`, from answer `used` on.
pub open spec fn spread_joins(k: int, answers: Seq<Answer>, used: int) -> bool {
    &&& !(answers[used] is Failed)
    &&& !(answers[used + 1] is Failed)
    &&& !(answers[used + 2] is Failed)
    &&& answers[used + 3] == Answer::Count(MATCHES@[k])
    &&& answers[used + 4] is Words
    &&& answers[used + 5] is Words
    &&& answers[used + 6] is Words
    &&& low_rows(
        LEFT_SIZES@[k],
        answers[used + 4]->Words_0,
        answers[used + 5]->Words_0,
        answers[used + 6]->Words_0,
        answers[used + 7]->Count_0,
    )
}

/// What the device has to answer in the part `end`.
pub open spec fn spread_end(answers: Seq<Answer>) -> bool {
    !(answers[36] is Failed)
}

/// One round of the part `joins`.
proof fn lemma_spread_joins(k: int, contents: Contents, answers: Seq<Answer>, used: int)
    requires
        0 <= k < 4,
        used == 9 * k,
        contents.full(),
        spread_shaped(answers),
    ensures
        match crate::walk::walked(
            crate::categories::c12_atomics::hash_join_atomic_correctness_joins_round(k as u64),
            0,
            14,
            contents,
            answers,
            used,
        ) {
            Some((after, next)) => {
                &&& spread_joins(k, answers, used)
                &&& after.full()
                &&& next == 9 * (k + 1)
            },
            None => !spread_joins(k, answers, used),
        },
        crate::categories::c12_atomics::hash_join_atomic_correctness_joins_round(
            k as u64,
        ).len() == 14,
{
    let steps = crate::categories::c12_atomics::hash_join_atomic_correctness_joins_round(k as u64);
    assert(crate::laws::steps::narrow_or_refusal(answers[4 + 9 * k]));
    assert(crate::laws::steps::narrow_or_refusal(answers[5 + 9 * k]));
    assert(crate::laws::steps::narrow_or_refusal(answers[6 + 9 * k]));
    assert(answers[7 + 9 * k] is Count);
    lemma_table_sizes(k);
    crate::laws::words::lemma_below(LEFT_SIZES@[k], contents);
    let words1 = crate::laws::words::below(LEFT_SIZES@[k]);
    crate::laws::steps::lemma_fill(steps, 0, 14, contents, answers, used, words1);
    let next1 = contents.with_column(0, words1);
    crate::laws::words::lemma_scaled(0, 10, next1);
    let words2 = crate::laws::words::scaled(crate::laws::words::below(LEFT_SIZES@[k]), 10);
    crate::laws::steps::lemma_fill(steps, 1, 14, next1, answers, used, words2);
    let next2 = next1.with_column(1, words2);
    lemma_right_keys(LEFT_SIZES@[k], RIGHT_SIZES@[k], MATCHES@[k], next2);
    let words3 = right_keys(LEFT_SIZES@[k], RIGHT_SIZES@[k], MATCHES@[k]);
    crate::laws::steps::lemma_fill(steps, 2, 14, next2, answers, used, words3);
    let next3 = next2.with_column(2, words3);
    lemma_right_keys(LEFT_SIZES@[k], RIGHT_SIZES@[k], MATCHES@[k], next3);
    crate::laws::words::lemma_scaled(2, 100, next3);
    let words4 = crate::laws::words::scaled(
        right_keys(LEFT_SIZES@[k], RIGHT_SIZES@[k], MATCHES@[k]),
        100,
    );
    crate::laws::steps::lemma_fill(steps, 3, 14, next3, answers, used, words4);
    let next4 = next3.with_column(3, words4);
    crate::laws::steps::lemma_command(steps, 4, 14, next4, answers, used);
    crate::laws::steps::lemma_command(steps, 5, 14, next4, answers, used + 1);
    crate::laws::steps::lemma_command(steps, 6, 14, next4, answers, used + 2);
    crate::laws::steps::lemma_match(steps, 7, 14, next4, answers, used + 3, MATCHES@[k]);
    let next5 = next4.with_register(COUNT, MATCHES@[k]);
    crate::laws::steps::lemma_download(steps, 8, 14, next5, answers, used + 4);
    if answers[used + 4] is Words {
        let next6 = next5.with_column(4, answers[used + 4]->Words_0);
        crate::laws::steps::lemma_download(steps, 9, 14, next6, answers, used + 5);
        if answers[used + 5] is Words {
            let next7 = next6.with_column(5, answers[used + 5]->Words_0);
            crate::laws::steps::lemma_download(steps, 10, 14, next7, answers, used + 6);
            if answers[used + 6] is Words {
                let next8 = next7.with_column(6, answers[used + 6]->Words_0);
                crate::laws::steps::lemma_number(
                    steps,
                    11,
                    14,
                    next8,
                    answers,
                    used + 7,
                    answers[used + 7]->Count_0,
                );
                let next9 = next8.with_register(0, answers[used + 7]->Count_0);
                lemma_scan_low_rows(
                    steps,
                    12,
                    14,
                    next9,
                    answers,
                    used + 8,
                    answers[used + 7]->Count_0,
                    LEFT_SIZES@[k],
                );
                crate::laws::steps::lemma_command(steps, 13, 14, next9, answers, used + 8);
                crate::laws::steps::lemma_end(steps, 14, next9, answers, used + 9);
            }
        }
    }
}

/// All rounds of the part `joins`.
proof fn lemma_spread_joins_rounds(contents: Contents, answers: Seq<Answer>)
    requires
        contents.full(),
        spread_shaped(answers),
    ensures
        ({
            let steps = crate::script::rounds(
                4,
                |k: int| crate::categories::c12_atomics::hash_join_atomic_correctness_joins_round(
                    k as u64,
                ),
            );
            match crate::walk::walked(steps, 0, steps.len() as int, contents, answers, 0) {
                Some((after, next)) => {
                    &&& forall|k: int| 0 <= k < 4 ==> #[trigger] spread_joins(k, answers, 9 * k)
                    &&& after.full()
                    &&& next == 36
                },
                None => !(forall|k: int|
                    0 <= k < 4 ==> #[trigger] spread_joins(k, answers, 9 * k)),
            }
        }),
{
    let round = |k: int| crate::categories::c12_atomics::hash_join_atomic_correctness_joins_round(
        k as u64,
    );
    let start = |k: int| 9 * k;
    let good = |k: int| spread_joins(k, answers, start(k));
    let kept = |contents: Contents| contents.full();
    assert forall|k: int, contents: Contents|
        #![trigger good(k), kept(contents)]
        0 <= k < 4 && kept(contents) implies if good(k) {
        crate::walk::goes_to(round(k), contents, answers, start(k), start(k + 1), kept)
    } else {
        crate::walk::walked(round(k), 0, round(k).len() as int, contents, answers, start(k)) is None
    } by {
        lemma_spread_joins(k, contents, answers, start(k));
    }
    crate::walk::law_rounds_keep_what_each_keeps(4, round, start, good, kept, contents, answers);
    if forall|k: int| 0 <= k < 4 ==> #[trigger] good(k) {
        assert forall|k: int| 0 <= k < 4 implies #[trigger] spread_joins(k, answers, 9 * k) by {
            assert(good(k));
        }
    } else {
        let k = choose|k: int| 0 <= k < 4 && !(#[trigger] good(k));
        assert(!spread_joins(k, answers, 9 * k));
    }
}

/// The part `end`.
proof fn lemma_spread_end(contents: Contents, answers: Seq<Answer>)
    requires
        contents.full(),
        spread_shaped(answers),
    ensures
        match crate::walk::walked(
            crate::categories::c12_atomics::hash_join_atomic_correctness_end_steps(),
            0,
            1,
            contents,
            answers,
            36,
        ) {
            Some((after, next)) => {
                &&& spread_end(answers)
                &&& after.full()
                &&& next == 37
            },
            None => !spread_end(answers),
        },
        crate::categories::c12_atomics::hash_join_atomic_correctness_end_steps().len() == 1,
{
    let steps = crate::categories::c12_atomics::hash_join_atomic_correctness_end_steps();
    crate::laws::steps::lemma_command(steps, 0, 1, contents, answers, 36);
    crate::laws::steps::lemma_end(steps, 1, contents, answers, 37);
}

/// The test has no jumps.
proof fn lemma_spread_straight()
    ensures
        forall|j: int|
            0 <= j < crate::categories::c12_atomics::hash_join_atomic_correctness_steps().len()
                ==> crate::walk::straight(
                #[trigger] crate::categories::c12_atomics::hash_join_atomic_correctness_steps()[j],
            ),
{
    let part1 = crate::script::rounds(
        4,
        |k: int| crate::categories::c12_atomics::hash_join_atomic_correctness_joins_round(k as u64),
    );
    let round1 = |k: int| crate::categories::c12_atomics::hash_join_atomic_correctness_joins_round(
        k as u64,
    );
    crate::walk::law_straight_rounds_are_straight(4, round1);
    let part2 = crate::categories::c12_atomics::hash_join_atomic_correctness_end_steps();
    let whole1 = part1;
    let whole2 = whole1 + part2;
    crate::walk::law_straight_scripts_make_a_straight_one(whole1, part2);
    assert(crate::categories::c12_atomics::hash_join_atomic_correctness_steps() == whole2);
}

/// The test that joins tables of several sizes passes exactly when, for each of them, as many rows
/// are joined as there are common keys, and every row that the device counts has a key of the left
/// table and the values that belong to it.
pub proof fn law_joins_pass_exactly_when_common_keys_are_joined(answers: Seq<Answer>)
    requires
        spread_shaped(answers),
    ensures
        crate::machine::run_of(
            crate::script::plan(
                "test_hash_join_atomic_correctness",
                crate::categories::c12_atomics::hash_join_atomic_correctness_steps(),
            ),
            answers,
        ).progress == Progress::Over(Ending::Passed) <==> {
            &&& forall|k: int|
                0 <= k < 4 ==> #[trigger] spread_joins(k, answers, 9 * k)
            &&& spread_end(answers)
        },
{
    let plan = crate::script::plan(
        "test_hash_join_atomic_correctness",
        crate::categories::c12_atomics::hash_join_atomic_correctness_steps(),
    );
    let blank = Contents::blank(plan.texts);
    let part1 = crate::script::rounds(
        4,
        |k: int| crate::categories::c12_atomics::hash_join_atomic_correctness_joins_round(k as u64),
    );
    let part2 = crate::categories::c12_atomics::hash_join_atomic_correctness_end_steps();
    let whole1 = part1;
    let whole2 = whole1 + part2;
    assert(plan.steps == whole2);
    lemma_spread_joins_rounds(blank, answers);
    crate::walk::law_walks_over_two_scripts_compose(whole1, part2, blank, answers, 0);
    match crate::walk::walked(whole1, 0, whole1.len() as int, blank, answers, 0) {
        Some((after, _)) => {
            lemma_spread_end(after, answers);
        },
        None => {},
    }
    lemma_spread_straight();
    crate::walk::law_passes_exactly_when_every_step_goes_through(plan, answers);
}

} // verus!
