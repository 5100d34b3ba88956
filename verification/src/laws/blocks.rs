//! The law of the test that reaches across blocks.

use vstd::prelude::*;
use crate::expr::{
    and, differs, here, ix, len, lt, minus, modulo, narrow, not, num, over, pick, plus, reg,
    same_as, times,
};
use crate::machine::{Answer, Ending, Progress};
use crate::memory::Contents;
use crate::scalar::Scalar;
use crate::script::{Act, Faults, Step};

verus! {

/// Keys around the edges of blocks.
pub open spec fn edge_keys() -> Seq<u64> {
    Seq::new(
        23,
        |i: int|
            if i < 2 {
                i as u64
            } else {
                (((i - 2) / 3 + 1) * 256 + (i - 2) % 3 - 1) as u64
            },
    )
}

/// Keys that change places between blocks.
pub open spec fn crossed_keys() -> Seq<u64> {
    Seq::new(
        2048,
        |i: int|
            if i % 256 % 2 == 0 {
                ((7 - i / 256) * 256 + i % 256) as u64
            } else {
                (i / 256 * 256 + i % 256) as u64
            },
    )
}

/// One of the words of [`edge_keys`].
proof fn lemma_edge_key(contents: Contents, i: u64)
    requires
        i < 23,
    ensures
        crate::expr::value_of(
            pick(
                lt(ix(), num(2)),
                ix(),
                minus(
                    plus(
                        times(plus(over(minus(ix(), num(2)), num(3)), num(1)), num(256)),
                        modulo(minus(ix(), num(2)), num(3)),
                    ),
                    num(1),
                ),
            ),
            contents,
            i,
        ) == Some(edge_keys()[i as int]),
{
    assert(crate::expr::value_of(ix(), contents, i) == Some(i));
    assert(crate::expr::value_of(lt(ix(), num(2)), contents, i) == Some(
        crate::expr::truth(i < 2),
    )) by {
        reveal_with_fuel(crate::expr::value_of, 2);
    }
    if i >= 2 {
        let gap = minus(ix(), num(2));
        let rest = (i - 2) as u64;
        assert(crate::expr::value_of(gap, contents, i) == Some(rest)) by {
            reveal_with_fuel(crate::expr::value_of, 2);
        }
        assert(crate::expr::value_of(num(1), contents, i) == Some(1u64));
        assert(crate::expr::value_of(num(3), contents, i) == Some(3u64));
        assert(crate::expr::value_of(num(256), contents, i) == Some(256u64));
        let block = plus(over(gap, num(3)), num(1));
        assert(crate::expr::value_of(over(gap, num(3)), contents, i) == Some((rest / 3) as u64));
        assert(crate::expr::value_of(block, contents, i) == Some((rest / 3 + 1) as u64));
        let start = times(block, num(256));
        assert(crate::expr::value_of(start, contents, i) == Some(((rest / 3 + 1) * 256) as u64));
        let offset = modulo(gap, num(3));
        assert(crate::expr::value_of(offset, contents, i) == Some((rest % 3) as u64));
        assert(crate::expr::value_of(plus(start, offset), contents, i) == Some(
            ((rest / 3 + 1) * 256 + rest % 3) as u64,
        ));
        assert(crate::expr::value_of(minus(plus(start, offset), num(1)), contents, i) == Some(
            ((rest / 3 + 1) * 256 + rest % 3 - 1) as u64,
        ));
    }
}

/// The words of [`edge_keys`].
proof fn lemma_edge_keys(contents: Contents)
    ensures
        forall|i: int|
            0 <= i < 23 ==> #[trigger] crate::expr::value_of(
                pick(
                    lt(ix(), num(2)),
                    ix(),
                    minus(
                        plus(
                            times(plus(over(minus(ix(), num(2)), num(3)), num(1)), num(256)),
                            modulo(minus(ix(), num(2)), num(3)),
                        ),
                        num(1),
                    ),
                ),
                contents,
                i as u64,
            ) == Some(edge_keys()[i]),
{
    assert forall|i: int| 0 <= i < 23 implies #[trigger] crate::expr::value_of(
        pick(
            lt(ix(), num(2)),
            ix(),
            minus(
                plus(
                    times(plus(over(minus(ix(), num(2)), num(3)), num(1)), num(256)),
                    modulo(minus(ix(), num(2)), num(3)),
                ),
                num(1),
            ),
        ),
        contents,
        i as u64,
    ) == Some(edge_keys()[i]) by {
        lemma_edge_key(contents, i as u64);
    }
}

/// One of the words of [`crossed_keys`].
proof fn lemma_crossed_key(contents: Contents, i: u64)
    requires
        i < 2048,
    ensures
        crate::expr::value_of(
            pick(
                same_as(modulo(modulo(ix(), num(256)), num(2)), num(0)),
                plus(
                    times(minus(num(7), over(ix(), num(256))), num(256)),
                    modulo(ix(), num(256)),
                ),
                plus(times(over(ix(), num(256)), num(256)), modulo(ix(), num(256))),
            ),
            contents,
            i,
        ) == Some(crossed_keys()[i as int]),
{
    let block = over(ix(), num(256));
    let offset = modulo(ix(), num(256));
    let whole = (i / 256) as u64;
    let part = (i % 256) as u64;
    assert(crate::expr::value_of(block, contents, i) == Some(whole)) by {
        reveal_with_fuel(crate::expr::value_of, 2);
    }
    assert(crate::expr::value_of(offset, contents, i) == Some(part)) by {
        reveal_with_fuel(crate::expr::value_of, 2);
    }
    assert(crate::expr::value_of(num(0), contents, i) == Some(0u64));
    assert(crate::expr::value_of(num(2), contents, i) == Some(2u64));
    assert(crate::expr::value_of(num(7), contents, i) == Some(7u64));
    assert(crate::expr::value_of(num(256), contents, i) == Some(256u64));
    let parity = modulo(offset, num(2));
    assert(crate::expr::value_of(parity, contents, i) == Some((part % 2) as u64));
    assert(crate::expr::value_of(same_as(parity, num(0)), contents, i) == Some(
        crate::expr::truth(part % 2 == 0),
    ));
    let mirrored = times(minus(num(7), block), num(256));
    assert(crate::expr::value_of(minus(num(7), block), contents, i) == Some((7 - whole) as u64));
    assert(crate::expr::value_of(mirrored, contents, i) == Some(((7 - whole) * 256) as u64));
    assert(crate::expr::value_of(plus(mirrored, offset), contents, i) == Some(
        ((7 - whole) * 256 + part) as u64,
    ));
    let straight = times(block, num(256));
    assert(crate::expr::value_of(straight, contents, i) == Some((whole * 256) as u64));
    assert(crate::expr::value_of(plus(straight, offset), contents, i) == Some(
        (whole * 256 + part) as u64,
    ));
}

/// The words of [`crossed_keys`].
proof fn lemma_crossed_keys(contents: Contents)
    ensures
        forall|i: int|
            0 <= i < 2048 ==> #[trigger] crate::expr::value_of(
                pick(
                    same_as(modulo(modulo(ix(), num(256)), num(2)), num(0)),
                    plus(
                        times(minus(num(7), over(ix(), num(256))), num(256)),
                        modulo(ix(), num(256)),
                    ),
                    plus(times(over(ix(), num(256)), num(256)), modulo(ix(), num(256))),
                ),
                contents,
                i as u64,
            ) == Some(crossed_keys()[i]),
{
    assert forall|i: int| 0 <= i < 2048 implies #[trigger] crate::expr::value_of(
        pick(
            same_as(modulo(modulo(ix(), num(256)), num(2)), num(0)),
            plus(times(minus(num(7), over(ix(), num(256))), num(256)), modulo(ix(), num(256))),
            plus(times(over(ix(), num(256)), num(256)), modulo(ix(), num(256))),
        ),
        contents,
        i as u64,
    ) == Some(crossed_keys()[i]) by {
        lemma_crossed_key(contents, i as u64);
    }
}

/// Whether the join gave as many rows as there are keys.
proof fn lemma_row_count(contents: Contents)
    requires
        contents.full(),
        contents.columns[2].len() <= u64::MAX,
    ensures
        crate::expr::value_of(differs(reg(0), len(2)), contents, 0) == Some(
            crate::expr::truth(contents.registers[0] != contents.columns[2].len()),
        ),
{
    reveal_with_fuel(crate::expr::value_of, 4);
}

/// A scan of the joined rows whose values are multiples of the key.
proof fn lemma_scan_scaled_rows(
    steps: Seq<Step>,
    at: int,
    to: int,
    contents: Contents,
    answers: Seq<Answer>,
    used: int,
    rows: u64,
)
    requires
        at < to,
        contents.full(),
        contents.registers[1] == rows,
        contents.columns[4].len() <= u64::MAX,
        forall|i: int| 0 <= i < contents.columns[4].len() ==> contents.columns[4][i] <= u32::MAX,
        forall|i: int| 0 <= i < contents.columns[5].len() ==> contents.columns[5][i] <= u32::MAX,
        forall|i: int| 0 <= i < contents.columns[6].len() ==> contents.columns[6][i] <= u32::MAX,
        crate::machine::taken(steps[at], contents) == Some(true),
        crate::machine::act_of(steps[at]) matches Act::Scan { low, high, by, faults } && {
            &&& low == num(0)
            &&& high == reg(1)
            &&& by == 1
            &&& faults matches Faults::More(first, _, rest)
            &&& first == and(
                not(lt(here(6), num(0))),
                differs(here(5), narrow(times(here(4), num(10)))),
            )
            &&& *rest matches Faults::One(second, _)
            &&& second == differs(here(6), narrow(times(here(4), num(100))))
        },
    ensures
        crate::walk::walked(steps, at, to, contents, answers, used) == (
        if crate::laws::joins::rows_belong(
            contents.columns[4],
            contents.columns[5],
            contents.columns[6],
            rows,
            |key: u64| key * 10,
            |key: u64| key * 100,
        ) {
            crate::walk::walked(steps, at + 1, to, contents, answers, used)
        } else {
            None
        }),
{
    let keys = contents.columns[4];
    let lefts = contents.columns[5];
    let rights = contents.columns[6];
    let left = |key: u64| key * 10;
    let right = |key: u64| key * 100;
    match crate::machine::act_of(steps[at]) {
        Act::Scan { faults, .. } => {
            crate::laws::steps::lemma_scan(steps, at, to, contents, answers, used, 0, rows);
            assert forall|i: int| 0 <= i < rows implies (#[trigger] crate::walk::shows(
                faults,
                contents,
                i as u64,
            ) <==> !(i < keys.len() && i < lefts.len() && i < rights.len() && lefts[i] == keys[i]
                * 10 && rights[i] == keys[i] * 100)) by {
                let place = i as u64;
                let ten = times(here(4), num(10));
                let hundred = times(here(4), num(100));
                let first = crate::expr::value_of(ten, contents, place);
                let second = crate::expr::value_of(hundred, contents, place);
                assert(first == if i < keys.len() {
                    Some((keys[i] * 10) as u64)
                } else {
                    None
                } && second == if i < keys.len() {
                    Some((keys[i] * 100) as u64)
                } else {
                    None
                }) by {
                    reveal_with_fuel(crate::expr::value_of, 3);
                }
                crate::laws::joins::lemma_row_faults(
                    faults,
                    ten,
                    hundred,
                    contents,
                    place,
                    first,
                    second,
                );
            }
            if crate::laws::joins::rows_belong(keys, lefts, rights, rows, left, right) {
                assert forall|i: int| 0 <= i < rows implies !(#[trigger] crate::walk::shows(
                    faults,
                    contents,
                    i as u64,
                )) by {
                    assert(lefts[i] == left(keys[i]));
                }
            } else if forall|i: int|
                0 <= i < rows ==> !(#[trigger] crate::walk::shows(faults, contents, i as u64)) {
                if rows > 0 {
                    assert(!crate::walk::shows(faults, contents, (rows - 1) as u64));
                }
                assert forall|i: int| 0 <= i < rows implies lefts[i] == left(#[trigger] keys[i])
                    && rights[i] == right(keys[i]) by {
                    assert(!crate::walk::shows(faults, contents, i as u64));
                }
                assert(false);
            }
        },
        _ => {},
    }
}

/// Whether the answers to the downloads of the test are columns or refusals.
pub open spec fn blocks_shaped(answers: Seq<Answer>) -> bool {
    &&& answers.len() >= 12
    &&& answers[3] is Count
    &&& crate::laws::steps::narrow_or_refusal(answers[4])
    &&& crate::laws::steps::narrow_or_refusal(answers[5])
    &&& crate::laws::steps::narrow_or_refusal(answers[6])
    &&& answers[7] is Count
    &&& crate::laws::steps::column_or_refusal(answers[10])
}

/// What the device has to answer.
pub open spec fn blocks_all(answers: Seq<Answer>) -> bool {
    &&& !(answers[0] is Failed)
    &&& !(answers[1] is Failed)
    &&& !(answers[2] is Failed)
    &&& answers[3]->Count_0 == 23
    &&& answers[4] is Words
    &&& answers[5] is Words
    &&& answers[6] is Words
    &&& crate::laws::joins::rows_belong(
        answers[4]->Words_0,
        answers[5]->Words_0,
        answers[6]->Words_0,
        answers[7]->Count_0,
        |key: u64| key * 10,
        |key: u64| key * 100,
    )
    &&& !(answers[8] is Failed)
    &&& !(answers[9] is Failed)
    &&& answers[10] is Words
    &&& crate::laws::steps::rises_to(answers[10]->Words_0, 2048)
    &&& answers[10]->Words_0 == crate::columns::sorted(Scalar::U32, crossed_keys())
    &&& !(answers[11] is Failed)
}

/// The steps of the test.
proof fn lemma_blocks_all(contents: Contents, answers: Seq<Answer>)
    requires
        contents.full(),
        blocks_shaped(answers),
    ensures
        match crate::walk::walked(
            crate::categories::c10_block_grid::cross_block_data_patterns_steps(),
            0,
            22,
            contents,
            answers,
            0,
        ) {
            Some((after, next)) => {
                &&& blocks_all(answers)
                &&& after.full()
                &&& next == 12
            },
            None => !blocks_all(answers),
        },
        crate::categories::c10_block_grid::cross_block_data_patterns_steps().len() == 22,
{
    let steps = crate::categories::c10_block_grid::cross_block_data_patterns_steps();
    crate::laws::words::lemma_below(2048, contents);
    let words1 = crate::laws::words::below(2048);
    crate::laws::steps::lemma_fill(steps, 0, 22, contents, answers, 0, words1);
    let next1 = contents.with_column(0, words1);
    crate::laws::words::lemma_scaled(0, 10, next1);
    let words2 = crate::laws::words::scaled(crate::laws::words::below(2048), 10);
    crate::laws::steps::lemma_fill(steps, 1, 22, next1, answers, 0, words2);
    let next2 = next1.with_column(1, words2);
    lemma_edge_keys(next2);
    let words3 = edge_keys();
    crate::laws::steps::lemma_fill(steps, 2, 22, next2, answers, 0, words3);
    let next3 = next2.with_column(2, words3);
    crate::laws::words::lemma_scaled(2, 100, next3);
    let words4 = crate::laws::words::scaled(edge_keys(), 100);
    crate::laws::steps::lemma_fill(steps, 3, 22, next3, answers, 0, words4);
    let next4 = next3.with_column(3, words4);
    crate::laws::steps::lemma_command(steps, 4, 22, next4, answers, 0);
    crate::laws::steps::lemma_command(steps, 5, 22, next4, answers, 1);
    crate::laws::steps::lemma_command(steps, 6, 22, next4, answers, 2);
    crate::laws::steps::lemma_number(steps, 7, 22, next4, answers, 3, answers[3]->Count_0);
    let next5 = next4.with_register(0, answers[3]->Count_0);
    lemma_row_count(next5);
    crate::laws::steps::lemma_check(steps, 8, 22, next5, answers, 4, !(answers[3]->Count_0 == 23));
    crate::laws::steps::lemma_download(steps, 9, 22, next5, answers, 4);
    if answers[4] is Words {
        let next6 = next5.with_column(4, answers[4]->Words_0);
        crate::laws::steps::lemma_download(steps, 10, 22, next6, answers, 5);
        if answers[5] is Words {
            let next7 = next6.with_column(5, answers[5]->Words_0);
            crate::laws::steps::lemma_download(steps, 11, 22, next7, answers, 6);
            if answers[6] is Words {
                let next8 = next7.with_column(6, answers[6]->Words_0);
                crate::laws::steps::lemma_number(
                    steps,
                    12,
                    22,
                    next8,
                    answers,
                    7,
                    answers[7]->Count_0,
                );
                let next9 = next8.with_register(1, answers[7]->Count_0);
                lemma_scan_scaled_rows(steps, 13, 22, next9, answers, 8, answers[7]->Count_0);
                lemma_crossed_keys(next9);
                let words10 = crossed_keys();
                crate::laws::steps::lemma_fill(steps, 14, 22, next9, answers, 8, words10);
                let next10 = next9.with_column(7, words10);
                crate::laws::steps::lemma_command(steps, 15, 22, next10, answers, 8);
                crate::laws::steps::lemma_command(steps, 16, 22, next10, answers, 9);
                crate::laws::steps::lemma_download(steps, 17, 22, next10, answers, 10);
                if answers[10] is Words {
                    let next11 = next10.with_column(8, answers[10]->Words_0);
                    crate::laws::steps::lemma_scan_order_to(
                        steps,
                        18,
                        22,
                        next11,
                        answers,
                        11,
                        8,
                        2048,
                    );
                    crate::laws::steps::lemma_sort_column(steps, 19, 22, next11, answers, 11);
                    let next12 = next11.with_column(
                        9,
                        crate::columns::sorted(Scalar::U32, crossed_keys()),
                    );
                    crate::laws::steps::lemma_not_alike(next12, 8, 9);
                    crate::laws::steps::lemma_check(
                        steps,
                        20,
                        22,
                        next12,
                        answers,
                        11,
                        !(
                            answers[10]->Words_0 == crate::columns::sorted(
                                Scalar::U32,
                                crossed_keys(),
                            )
                        ),
                    );
                    crate::laws::steps::lemma_command(steps, 21, 22, next12, answers, 11);
                    crate::laws::steps::lemma_end(steps, 22, next12, answers, 12);
                }
            }
        }
    }
}

/// The test has no jumps.
proof fn lemma_blocks_straight()
    ensures
        forall|j: int|
            0 <= j < crate::categories::c10_block_grid::cross_block_data_patterns_steps().len()
                ==> crate::walk::straight(
            #[trigger] crate::categories::c10_block_grid::cross_block_data_patterns_steps()[j],
        ),
{
}

/// The test that reaches across blocks passes exactly when the join gives a row for each key around
/// the edges, with the values that belong to it, and the keys that changed places come back sorted.
pub proof fn law_blocks_pass_exactly_when_joined_and_sorted_across(answers: Seq<Answer>)
    requires
        blocks_shaped(answers),
    ensures
        crate::machine::run_of(
            crate::script::plan(
                "test_cross_block_data_patterns",
                crate::categories::c10_block_grid::cross_block_data_patterns_steps(),
            ),
            answers,
        ).progress == Progress::Over(Ending::Passed) <==> blocks_all(answers),
{
    let plan = crate::script::plan(
        "test_cross_block_data_patterns",
        crate::categories::c10_block_grid::cross_block_data_patterns_steps(),
    );
    let blank = Contents::blank(plan.texts);
    lemma_blocks_all(blank, answers);
    lemma_blocks_straight();
    crate::walk::law_passes_exactly_when_every_step_goes_through(plan, answers);
}

} // verus!
