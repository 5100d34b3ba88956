//! The laws of the tests that filter by masks of several kinds.

use vstd::prelude::*;
use crate::categories::c11_control_flow::LONG_SIZES;
use crate::expr::{
    differs, here, ix, len, lt, modulo, not, num, over, plus, same_as, times, wrap_plus, wrap_times,
    Expr,
};
use crate::machine::{Answer, Ending, Progress};
use crate::memory::Contents;
use crate::script::{Act, Faults, Step, COUNT};

verus! {

/// The places that a mask marks, in order.
pub open spec fn places(mask: Seq<u64>) -> Seq<u64> {
    crate::laws::predicates::picked(
        crate::laws::words::below(mask.len() as u64),
        mask,
        mask.len(),
    )
}

/// Whether the device, from answer `used` on, takes a column in, filters it, counts as many rows as
/// are marked, and hands the marked places out first and in order.
pub open spec fn selects(mask: Seq<u64>, answers: Seq<Answer>, used: int) -> bool {
    &&& !(answers[used] is Failed)
    &&& !(answers[used + 1] is Failed)
    &&& answers[used + 2] == Answer::Count(crate::columns::total(mask) as u64)
    &&& answers[used + 3] matches Answer::Words(words)
    &&& crate::laws::steps::begins_with(words, places(mask))
}

/// Looking for places where one column does not begin with another one.
proof fn lemma_prefix_fault(faults: Faults, contents: Contents, i: u64)
    requires
        contents.full(),
        contents.columns[2].len() <= u64::MAX,
        i < contents.columns[3].len(),
        faults matches Faults::More(first, _, rest) && {
            &&& first == not(lt(ix(), len(2)))
            &&& *rest matches Faults::One(second, _)
            &&& second == differs(here(2), here(3))
        },
    ensures
        crate::walk::shows(faults, contents, i) <==> !crate::laws::steps::holds_at(
            contents.columns[2],
            contents.columns[3],
            i as int,
        ),
{
    crate::laws::steps::lemma_here(contents, 2, i);
    crate::laws::steps::lemma_here(contents, 3, i);
    crate::laws::steps::lemma_differs(here(2), here(3), contents, i);
    let inside = lt(ix(), len(2));
    assert(crate::expr::value_of(inside, contents, i) == Some(
        crate::expr::truth(i < contents.columns[2].len()),
    )) by {
        reveal_with_fuel(crate::expr::value_of, 2);
    }
    assert(crate::expr::value_of(not(inside), contents, i) == Some(
        crate::expr::truth(i >= contents.columns[2].len()),
    ));
    reveal_with_fuel(crate::walk::shows, 3);
}

/// A scan for places where one column does not begin with another one.
proof fn lemma_scan_prefix(
    steps: Seq<Step>,
    at: int,
    to: int,
    contents: Contents,
    answers: Seq<Answer>,
    used: int,
)
    requires
        at < to,
        contents.full(),
        contents.columns[2].len() <= u64::MAX,
        contents.columns[3].len() <= u64::MAX,
        crate::machine::taken(steps[at], contents) == Some(true),
        crate::machine::act_of(steps[at]) matches Act::Scan { low, high, by, faults } && {
            &&& low == num(0)
            &&& high == len(3)
            &&& by == 1
            &&& faults matches Faults::More(first, _, rest)
            &&& first == not(lt(ix(), len(2)))
            &&& *rest matches Faults::One(second, _)
            &&& second == differs(here(2), here(3))
        },
    ensures
        crate::walk::walked(steps, at, to, contents, answers, used)
            == (if crate::laws::steps::begins_with(contents.columns[2], contents.columns[3]) {
            crate::walk::walked(steps, at + 1, to, contents, answers, used)
        } else {
            None
        }),
{
    let words = contents.columns[2];
    let target = contents.columns[3];
    match crate::machine::act_of(steps[at]) {
        Act::Scan { faults, .. } => {
            crate::laws::steps::lemma_scan(
                steps,
                at,
                to,
                contents,
                answers,
                used,
                0,
                target.len() as u64,
            );
            if crate::laws::steps::begins_with(words, target) {
                assert forall|i: int| 0 <= i < target.len() implies !(#[trigger] crate::walk::shows(
                    faults,
                    contents,
                    i as u64,
                )) by {
                    assert(crate::laws::steps::holds_at(words, target, i));
                    lemma_prefix_fault(faults, contents, i as u64);
                }
            } else {
                let i = choose|i: int|
                    0 <= i < target.len() && !(#[trigger] crate::laws::steps::holds_at(
                        words,
                        target,
                        i,
                    ));
                lemma_prefix_fault(faults, contents, i as u64);
                assert(crate::walk::shows(faults, contents, i as u64));
            }
        },
        _ => {},
    }
}

/// No more places are marked than there are.
proof fn lemma_picked_length(words: Seq<u64>, mask: Seq<u64>, n: nat)
    ensures
        crate::laws::predicates::picked(words, mask, n).len() <= n,
    decreases n,
{
    if n > 0 {
        lemma_picked_length(words, mask, (n - 1) as nat);
    }
}

/// Whether a mask marks a place.
proof fn lemma_mark(contents: Contents, i: u64)
    requires
        contents.full(),
        i < contents.columns[1].len(),
        contents.columns[1][i as int] <= 1,
    ensures
        crate::expr::value_of(differs(here(1), num(0)), contents, i) == Some(
            contents.columns[1][i as int],
        ),
        crate::expr::value_of(same_as(here(1), num(1)), contents, i) == Some(
            contents.columns[1][i as int],
        ),
{
    reveal_with_fuel(crate::expr::value_of, 4);
}

/// Keeping the places that a mask marks.
proof fn lemma_places(contents: Contents, keep: Expr)
    requires
        contents.full(),
        contents.columns[1].len() <= u64::MAX,
        forall|i: int| 0 <= i < contents.columns[1].len() ==> contents.columns[1][i] <= 1,
        keep == differs(here(1), num(0)) || keep == same_as(here(1), num(1)),
    ensures
        crate::machine::selected(keep, ix(), contents, contents.columns[1].len()) == Some(
            places(contents.columns[1]),
        ),
        places(contents.columns[1]).len() <= contents.columns[1].len(),
{
    let mask = contents.columns[1];
    let n = mask.len() as u64;
    assert forall|i: int| 0 <= i < mask.len() implies #[trigger] crate::expr::value_of(
        keep,
        contents,
        i as u64,
    ) == Some(mask[i]) by {
        assert(mask[i] <= 1);
        lemma_mark(contents, i as u64);
    }
    crate::laws::words::lemma_below(n, contents);
    crate::laws::predicates::lemma_picked(
        keep,
        ix(),
        contents,
        crate::laws::words::below(n),
        mask,
        mask.len(),
    );
    lemma_picked_length(crate::laws::words::below(n), mask, mask.len());
}

/// Whether a condition that can be computed at every place gives a mask.
pub open spec fn masks(keep: Expr, mask: Seq<u64>) -> bool {
    &&& crate::laws::transfers::gives(keep, mask)
    &&& forall|i: int| 0 <= i < mask.len() ==> mask[i] <= 1
}

/// The steps of a filter go through exactly when the device keeps the marked places.
pub proof fn law_filter_goes_through_exactly_when_the_marked_are_kept(
    keep: Expr,
    mask: Seq<u64>,
    contents: Contents,
    answers: Seq<Answer>,
    used: int,
)
    requires
        contents.full(),
        mask.len() <= u64::MAX,
        masks(keep, mask),
        0 <= used,
        used + 5 <= answers.len(),
        crate::laws::steps::column_or_refusal(answers[used + 3]),
    ensures
        selects(mask, answers, used) ==> crate::walk::goes_through(
            crate::categories::c08_synchronization::scanned_filter_steps(mask.len() as u64, keep),
            contents,
            answers,
            used,
            5,
        ),
        !selects(mask, answers, used) ==> crate::walk::walked(
            crate::categories::c08_synchronization::scanned_filter_steps(mask.len() as u64, keep),
            0,
            10,
            contents,
            answers,
            used,
        ) is None,
{
    let n = mask.len() as u64;
    let steps = crate::categories::c08_synchronization::scanned_filter_steps(n, keep);
    let total = crate::columns::total(mask) as u64;
    crate::laws::words::lemma_below(n, contents);
    crate::laws::steps::lemma_fill(
        steps,
        0,
        10,
        contents,
        answers,
        used,
        crate::laws::words::below(n),
    );
    let filled = contents.with_column(0, crate::laws::words::below(n));
    crate::laws::steps::lemma_command(steps, 1, 10, filled, answers, used);
    assert forall|i: int| 0 <= i < mask.len() implies #[trigger] crate::expr::value_of(
        keep,
        filled,
        i as u64,
    ) == Some(mask[i]) by {}
    crate::laws::steps::lemma_fill(steps, 2, 10, filled, answers, used + 1, mask);
    let masked = filled.with_column(1, mask);
    crate::laws::lanes::lemma_mask_sum(masked, 1);
    crate::laws::steps::lemma_put(steps, 3, 10, masked, answers, used + 1, total);
    let summed = masked.with_register(0, total);
    crate::laws::steps::lemma_command(steps, 4, 10, summed, answers, used + 1);
    crate::laws::steps::lemma_match(steps, 5, 10, summed, answers, used + 2, total);
    let counted = summed.with_register(COUNT, total);
    crate::laws::steps::lemma_download(steps, 6, 10, counted, answers, used + 3);
    if answers[used + 3] is Words {
        let words = answers[used + 3]->Words_0;
        let after = counted.with_column(2, words);
        lemma_places(after, differs(here(1), num(0)));
        crate::laws::steps::lemma_select(steps, 7, 10, after, answers, used + 4, n, places(mask));
        let last = after.with_column(3, places(mask));
        lemma_scan_prefix(steps, 8, 10, last, answers, used + 4);
        crate::laws::steps::lemma_command(steps, 9, 10, last, answers, used + 4);
        crate::laws::steps::lemma_end(steps, 10, last, answers, used + 5);
    }
}

/// The mask of filter `k` of the test.
pub open spec fn scan_mask(k: int) -> Seq<u64> {
    if k == 0 {
        crate::laws::masks::every(2, 1000)
    } else if k == 1 {
        crate::laws::masks::every(3, 10000)
    } else if k == 2 {
        crate::laws::words::leading(25000, 50000)
    } else if k == 3 {
        crate::laws::masks::every(7, 100000)
    } else {
        Seq::new(65536, |i: int| crate::expr::truth((i / 256) % 2 == 0))
    }
}

/// The words of the masks that mark every so many rows.
proof fn lemma_every(step: u64, n: u64)
    requires
        step > 0,
    ensures
        masks(same_as(modulo(ix(), num(step)), num(0)), crate::laws::masks::every(step, n as nat)),
{
    let keep = same_as(modulo(ix(), num(step)), num(0));
    let mask = crate::laws::masks::every(step, n as nat);
    assert forall|contents: Contents, i: int|
        0 <= i < mask.len() implies #[trigger] crate::expr::value_of(
        keep,
        contents,
        i as u64,
    ) == Some(mask[i]) by {
        crate::laws::masks::lemma_remainder_words(step, n, contents);
    }
}

/// The words of the mask that marks the first rows.
proof fn lemma_leading_rows()
    ensures
        masks(lt(ix(), num(25000)), crate::laws::words::leading(25000, 50000)),
{
    let keep = lt(ix(), num(25000));
    let mask = crate::laws::words::leading(25000, 50000);
    assert forall|contents: Contents, i: int|
        0 <= i < mask.len() implies #[trigger] crate::expr::value_of(
        keep,
        contents,
        i as u64,
    ) == Some(mask[i]) by {
        crate::laws::words::lemma_leading(25000, 50000, contents);
    }
}

/// One of the words of the mask that marks every other block.
proof fn lemma_block_mark(contents: Contents, i: u64)
    ensures
        crate::expr::value_of(
            same_as(modulo(over(ix(), num(256)), num(2)), num(0)),
            contents,
            i,
        ) == Some(crate::expr::truth((i / 256) % 2 == 0)),
{
    reveal_with_fuel(crate::expr::value_of, 4);
}

/// The words of the mask that marks every other block.
proof fn lemma_block_rows()
    ensures
        masks(same_as(modulo(over(ix(), num(256)), num(2)), num(0)), scan_mask(4)),
{
    let keep = same_as(modulo(over(ix(), num(256)), num(2)), num(0));
    let mask = scan_mask(4);
    assert forall|contents: Contents, i: int|
        0 <= i < mask.len() implies #[trigger] crate::expr::value_of(
        keep,
        contents,
        i as u64,
    ) == Some(mask[i]) by {
        lemma_block_mark(contents, i as u64);
    }
}

/// The steps of one filter of the test.
spec fn scan_round(k: int) -> Seq<Step> {
    if k == 0 {
        crate::categories::c08_synchronization::scanned_filter_steps(
            1000,
            same_as(modulo(ix(), num(2)), num(0)),
        )
    } else if k == 1 {
        crate::categories::c08_synchronization::scanned_filter_steps(
            10000,
            same_as(modulo(ix(), num(3)), num(0)),
        )
    } else if k == 2 {
        crate::categories::c08_synchronization::scanned_filter_steps(50000, lt(ix(), num(25000)))
    } else if k == 3 {
        crate::categories::c08_synchronization::scanned_filter_steps(
            100000,
            same_as(modulo(ix(), num(7)), num(0)),
        )
    } else {
        crate::categories::c08_synchronization::scanned_filter_steps(
            65536,
            same_as(modulo(over(ix(), num(256)), num(2)), num(0)),
        )
    }
}

/// One filter of the test.
proof fn lemma_scan_round(k: int, contents: Contents, answers: Seq<Answer>, used: int)
    requires
        0 <= k < 5,
        contents.full(),
        0 <= used,
        used + 5 <= answers.len(),
        crate::laws::steps::column_or_refusal(answers[used + 3]),
    ensures
        selects(scan_mask(k), answers, used) ==> crate::walk::goes_through(
            scan_round(k),
            contents,
            answers,
            used,
            5,
        ),
        !selects(scan_mask(k), answers, used) ==> crate::walk::walked(
            scan_round(k),
            0,
            10,
            contents,
            answers,
            used,
        ) is None,
        scan_round(k).len() == 10,
{
    let mask = scan_mask(k);
    if k == 0 {
        lemma_every(2, 1000);
        law_filter_goes_through_exactly_when_the_marked_are_kept(
            same_as(modulo(ix(), num(2)), num(0)),
            mask,
            contents,
            answers,
            used,
        );
    } else if k == 1 {
        lemma_every(3, 10000);
        law_filter_goes_through_exactly_when_the_marked_are_kept(
            same_as(modulo(ix(), num(3)), num(0)),
            mask,
            contents,
            answers,
            used,
        );
    } else if k == 2 {
        lemma_leading_rows();
        law_filter_goes_through_exactly_when_the_marked_are_kept(
            lt(ix(), num(25000)),
            mask,
            contents,
            answers,
            used,
        );
    } else if k == 3 {
        lemma_every(7, 100000);
        law_filter_goes_through_exactly_when_the_marked_are_kept(
            same_as(modulo(ix(), num(7)), num(0)),
            mask,
            contents,
            answers,
            used,
        );
    } else {
        lemma_block_rows();
        law_filter_goes_through_exactly_when_the_marked_are_kept(
            same_as(modulo(over(ix(), num(256)), num(2)), num(0)),
            mask,
            contents,
            answers,
            used,
        );
    }
}

/// The scan test is made of its filters.
proof fn lemma_scan_rounds()
    ensures
        crate::categories::c08_synchronization::filter_scan_sync_steps() == crate::script::rounds(
            5,
            |k: int| scan_round(k),
        )
            + crate::categories::c08_synchronization::filter_scan_sync_end_steps(),
        forall|k: int, j: int|
            0 <= k < 5 && 0 <= j < scan_round(k).len() ==> crate::walk::straight(
                #[trigger] scan_round(k)[j],
            ),
{
    let round = |k: int| scan_round(k);
    reveal_with_fuel(crate::script::rounds, 6);
    assert(crate::script::rounds(0, round) =~= Seq::empty());
    assert(crate::script::rounds(1, round) =~= scan_round(0));
    assert(
        crate::script::rounds(
            5,
            round,
        ) == scan_round(0) + scan_round(1) + scan_round(2) + scan_round(3) + scan_round(4)
    );
}

/// The test of scans passes exactly when, for each of its masks, as many rows are kept as are
/// marked, the marked ones first and in order, and the device reports no fault in the end.
pub proof fn law_scans_pass_exactly_when_the_marked_are_kept(answers: Seq<Answer>)
    requires
        answers.len() > 25,
        forall|k: int|
            0 <= k < 5 ==> #[trigger] crate::laws::steps::column_or_refusal(answers[5 * k + 3]),
    ensures
        crate::machine::run_of(
            crate::script::plan(
                "test_filter_scan_sync",
                crate::categories::c08_synchronization::filter_scan_sync_steps(),
            ),
            answers,
        ).progress == Progress::Over(Ending::Passed) <==> {
            &&& forall|k: int| 0 <= k < 5 ==> #[trigger] selects(scan_mask(k), answers, 5 * k)
            &&& !(answers[25] is Failed)
        },
{
    let round = |k: int| scan_round(k);
    let good = |k: int| selects(scan_mask(k), answers, 5 * k);
    assert forall|k: int, contents: Contents|
        #![trigger good(k), contents.full()]
        0 <= k < 5 && contents.full() implies if good(k) {
        crate::walk::goes_through(round(k), contents, answers, 5 * k, 5)
    } else {
        crate::walk::walked(round(k), 0, round(k).len() as int, contents, answers, 5 * k)
            is None
    } by {
        assert(crate::laws::steps::column_or_refusal(answers[5 * k + 3]));
        lemma_scan_round(k, contents, answers, 5 * k);
    }
    lemma_scan_rounds();
    assert forall|k: int, j: int|
        0 <= k < 5 && 0 <= j < round(k).len() implies crate::walk::straight(
            #[trigger] round(k)[j],
        ) by {
        assert(crate::walk::straight(scan_round(k)[j]));
    }
    crate::laws::steps::lemma_rounds_and_sync(
        crate::script::plan(
            "test_filter_scan_sync",
            crate::categories::c08_synchronization::filter_scan_sync_steps(),
        ),
        5,
        round,
        5,
        good,
        crate::categories::c08_synchronization::filter_scan_sync_end_steps(),
        answers,
    );
    assert forall|k: int| 0 <= k < 5 implies (
        #[trigger] good(k) <==> selects(scan_mask(k), answers, 5 * k)
    ) by {}
    if exists|k: int| 0 <= k < 5 && !(#[trigger] selects(scan_mask(k), answers, 5 * k)) {
        let k = choose|k: int| 0 <= k < 5 && !(#[trigger] selects(scan_mask(k), answers, 5 * k));
        assert(!good(k));
    }
}

/// The sizes are those of columns.
proof fn lemma_long_sizes(k: int)
    requires
        0 <= k < 3,
    ensures
        0 < LONG_SIZES@[k] <= 100000,
{
}

/// The mask of a coin that is thrown for each row.
pub open spec fn coin(n: u64) -> Seq<u64> {
    Seq::new(
        n as nat,
        |i: int| crate::expr::truth(((((i * 1103515245 + 12345) / 65536) % 32768) % 2) == 0),
    )
}

/// One of the words of [`coin`].
proof fn lemma_coin_at(n: u64, contents: Contents, i: u64)
    requires
        i < n <= 100000,
    ensures
        crate::expr::value_of(
            same_as(
                modulo(
                    modulo(
                        over(plus(times(ix(), num(1103515245)), num(12345)), num(65536)),
                        num(32768),
                    ),
                    num(2),
                ),
                num(0),
            ),
            contents,
            i,
        ) == Some(coin(n)[i as int]),
{
    let product = times(ix(), num(1103515245));
    let sum = plus(product, num(12345));
    let one = (i * 1103515245) as u64;
    let two = (i * 1103515245 + 12345) as u64;
    assert(crate::expr::value_of(product, contents, i) == Some(one)) by {
        reveal_with_fuel(crate::expr::value_of, 2);
    }
    assert(crate::expr::value_of(num(12345), contents, i) == Some(12345u64));
    assert(crate::expr::value_of(sum, contents, i) == Some(two));
    assert(crate::expr::value_of(num(65536), contents, i) == Some(65536u64));
    assert(crate::expr::value_of(num(32768), contents, i) == Some(32768u64));
    assert(crate::expr::value_of(num(2), contents, i) == Some(2u64));
    assert(crate::expr::value_of(num(0), contents, i) == Some(0u64));
    let high = over(sum, num(65536));
    assert(crate::expr::value_of(high, contents, i) == Some((two / 65536) as u64));
    let low = modulo(high, num(32768));
    assert(crate::expr::value_of(low, contents, i) == Some(((two / 65536) % 32768) as u64));
    let side = modulo(low, num(2));
    assert(crate::expr::value_of(side, contents, i) == Some((((two / 65536) % 32768) % 2) as u64));
}

/// The words of [`coin`].
proof fn lemma_coin(n: u64, contents: Contents)
    requires
        n <= 100000,
    ensures
        forall|i: int|
            0 <= i < n ==> #[trigger] crate::expr::value_of(
                same_as(
                    modulo(
                        modulo(
                            over(plus(times(ix(), num(1103515245)), num(12345)), num(65536)),
                            num(32768),
                        ),
                        num(2),
                    ),
                    num(0),
                ),
                contents,
                i as u64,
            ) == Some(coin(n)[i]),
{
    assert forall|i: int| 0 <= i < n implies #[trigger] crate::expr::value_of(
        same_as(
            modulo(
                modulo(
                    over(plus(times(ix(), num(1103515245)), num(12345)), num(65536)),
                    num(32768),
                ),
                num(2),
            ),
            num(0),
        ),
        contents,
        i as u64,
    ) == Some(coin(n)[i]) by {
        lemma_coin_at(n, contents, i as u64);
    }
}

/// The mask of a die with ten sides that is thrown for each row.
pub open spec fn die(n: u64) -> Seq<u64> {
    Seq::new(
        n as nat,
        |i: int|
            crate::expr::truth(
                ((((i * 0x5851_F42D_4C95_7F2D) % 0x1_0000_0000_0000_0000 + 0x1405_7B7E_F767_814F)
                    % 0x1_0000_0000_0000_0000) / 1099511627776) % 10 < 3,
            ),
    )
}

/// One of the words of [`die`].
proof fn lemma_die_at(n: u64, contents: Contents, i: u64)
    requires
        i < n,
    ensures
        crate::expr::value_of(
            lt(
                modulo(
                    over(
                        wrap_plus(
                            wrap_times(ix(), num(0x5851_F42D_4C95_7F2D)),
                            num(0x1405_7B7E_F767_814F),
                        ),
                        num(1099511627776),
                    ),
                    num(10),
                ),
                num(3),
            ),
            contents,
            i,
        ) == Some(die(n)[i as int]),
{
    let product = wrap_times(ix(), num(0x5851_F42D_4C95_7F2D));
    let sum = wrap_plus(product, num(0x1405_7B7E_F767_814F));
    let one = ((i * 0x5851_F42D_4C95_7F2D) % 0x1_0000_0000_0000_0000) as u64;
    let two = ((one + 0x1405_7B7E_F767_814F) % 0x1_0000_0000_0000_0000) as u64;
    assert(crate::expr::value_of(product, contents, i) == Some(one)) by {
        reveal_with_fuel(crate::expr::value_of, 2);
    }
    assert(crate::expr::value_of(num(0x1405_7B7E_F767_814F), contents, i) == Some(
        0x1405_7B7E_F767_814Fu64,
    ));
    assert(crate::expr::value_of(sum, contents, i) == Some(two));
    assert(crate::expr::value_of(num(1099511627776), contents, i) == Some(1099511627776u64));
    assert(crate::expr::value_of(num(10), contents, i) == Some(10u64));
    assert(crate::expr::value_of(num(3), contents, i) == Some(3u64));
    let high = over(sum, num(1099511627776));
    assert(crate::expr::value_of(high, contents, i) == Some((two / 1099511627776) as u64));
    assert(crate::expr::value_of(modulo(high, num(10)), contents, i) == Some(
        ((two / 1099511627776) % 10) as u64,
    ));
}

/// The words of [`die`].
proof fn lemma_die(n: u64, contents: Contents)
    ensures
        forall|i: int|
            0 <= i < n ==> #[trigger] crate::expr::value_of(
                lt(
                    modulo(
                        over(
                            wrap_plus(
                                wrap_times(ix(), num(0x5851_F42D_4C95_7F2D)),
                                num(0x1405_7B7E_F767_814F),
                            ),
                            num(1099511627776),
                        ),
                        num(10),
                    ),
                    num(3),
                ),
                contents,
                i as u64,
            ) == Some(die(n)[i]),
{
    assert forall|i: int| 0 <= i < n implies #[trigger] crate::expr::value_of(
        lt(
            modulo(
                over(
                    wrap_plus(
                        wrap_times(ix(), num(0x5851_F42D_4C95_7F2D)),
                        num(0x1405_7B7E_F767_814F),
                    ),
                    num(1099511627776),
                ),
                num(10),
            ),
            num(3),
        ),
        contents,
        i as u64,
    ) == Some(die(n)[i]) by {
        lemma_die_at(n, contents, i as u64);
    }
}

/// The mask of two stripes of every five.
pub open spec fn stripes(n: u64) -> Seq<u64> {
    Seq::new(n as nat, |i: int| crate::expr::truth((i / 17) % 5 < 2))
}

/// One of the words of [`stripes`].
proof fn lemma_stripe_at(n: u64, contents: Contents, i: u64)
    requires
        i < n,
    ensures
        crate::expr::value_of(
            lt(modulo(over(ix(), num(17)), num(5)), num(2)),
            contents,
            i,
        ) == Some(stripes(n)[i as int]),
{
    reveal_with_fuel(crate::expr::value_of, 4);
}

/// The words of [`stripes`].
proof fn lemma_stripes(n: u64, contents: Contents)
    ensures
        forall|i: int|
            0 <= i < n ==> #[trigger] crate::expr::value_of(
                lt(modulo(over(ix(), num(17)), num(5)), num(2)),
                contents,
                i as u64,
            ) == Some(stripes(n)[i]),
{
    assert forall|i: int| 0 <= i < n implies #[trigger] crate::expr::value_of(
        lt(modulo(over(ix(), num(17)), num(5)), num(2)),
        contents,
        i as u64,
    ) == Some(stripes(n)[i]) by {
        lemma_stripe_at(n, contents, i as u64);
    }
}

/// Whether the answers to the downloads of the test are columns or refusals.
pub open spec fn random_shaped(answers: Seq<Answer>) -> bool {
    &&& answers.len() >= 31
    &&& forall|k: int|
        0 <= k < 3 ==> crate::laws::steps::column_or_refusal(#[trigger] answers[3 + 10 * k])
    &&& forall|k: int|
        0 <= k < 3 ==> crate::laws::steps::column_or_refusal(#[trigger] answers[8 + 10 * k])
}

/// What the device has to answer in round `k` of the part `sizes`, from answer `used` on.
pub open spec fn random_sizes(k: int, answers: Seq<Answer>, used: int) -> bool {
    &&& !(answers[used] is Failed)
    &&& !(answers[used + 1] is Failed)
    &&& answers[used + 2] == Answer::Count(crate::columns::total(coin(LONG_SIZES@[k])) as u64)
    &&& answers[used + 3] is Words
    &&& answers[used + 3]->Words_0 == places(coin(LONG_SIZES@[k]))
    &&& !(answers[used + 4] is Failed)
    &&& answers[used + 5] == Answer::Count(crate::columns::total(die(LONG_SIZES@[k])) as u64)
    &&& !(answers[used + 6] is Failed)
    &&& answers[used + 7] == Answer::Count(crate::columns::total(stripes(LONG_SIZES@[k])) as u64)
    &&& answers[used + 8] is Words
    &&& answers[used + 8]->Words_0 == places(stripes(LONG_SIZES@[k]))
}

/// What the device has to answer in the part `end`.
pub open spec fn random_end(answers: Seq<Answer>) -> bool {
    !(answers[30] is Failed)
}

/// One round of the part `sizes`.
proof fn lemma_random_sizes(k: int, contents: Contents, answers: Seq<Answer>, used: int)
    requires
        0 <= k < 3,
        used == 10 * k,
        contents.full(),
        random_shaped(answers),
    ensures
        match crate::walk::walked(
            crate::categories::c11_control_flow::random_predicate_distribution_sizes_round(
                k as u64,
            ),
            0,
            21,
            contents,
            answers,
            used,
        ) {
            Some((after, next)) => {
                &&& random_sizes(k, answers, used)
                &&& after.full()
                &&& next == 10 * (k + 1)
            },
            None => !random_sizes(k, answers, used),
        },
        crate::categories::c11_control_flow::random_predicate_distribution_sizes_round(
            k as u64,
        ).len() == 21,
{
    let steps = crate::categories::c11_control_flow::random_predicate_distribution_sizes_round(
        k as u64,
    );
    assert(crate::laws::steps::column_or_refusal(answers[3 + 10 * k]));
    assert(crate::laws::steps::column_or_refusal(answers[8 + 10 * k]));
    lemma_long_sizes(k);
    crate::laws::words::lemma_below(LONG_SIZES@[k], contents);
    let words1 = crate::laws::words::below(LONG_SIZES@[k]);
    crate::laws::steps::lemma_fill(steps, 0, 21, contents, answers, used, words1);
    let next1 = contents.with_column(0, words1);
    crate::laws::steps::lemma_command(steps, 1, 21, next1, answers, used);
    lemma_coin(LONG_SIZES@[k], next1);
    let words2 = coin(LONG_SIZES@[k]);
    crate::laws::steps::lemma_fill(steps, 2, 21, next1, answers, used + 1, words2);
    let next2 = next1.with_column(1, words2);
    crate::laws::lanes::lemma_mask_sum(next2, 1);
    crate::laws::steps::lemma_put(
        steps,
        3,
        21,
        next2,
        answers,
        used + 1,
        crate::columns::total(coin(LONG_SIZES@[k])) as u64,
    );
    let next3 = next2.with_register(0, crate::columns::total(coin(LONG_SIZES@[k])) as u64);
    crate::laws::steps::lemma_command(steps, 4, 21, next3, answers, used + 1);
    crate::laws::steps::lemma_match(
        steps,
        5,
        21,
        next3,
        answers,
        used + 2,
        crate::columns::total(coin(LONG_SIZES@[k])) as u64,
    );
    let next4 = next3.with_register(COUNT, crate::columns::total(coin(LONG_SIZES@[k])) as u64);
    crate::laws::steps::lemma_download(steps, 6, 21, next4, answers, used + 3);
    if answers[used + 3] is Words {
        let next5 = next4.with_column(2, answers[used + 3]->Words_0);
        lemma_places(next5, same_as(here(1), num(1)));
        crate::laws::steps::lemma_select(
            steps,
            7,
            21,
            next5,
            answers,
            used + 4,
            LONG_SIZES@[k],
            places(coin(LONG_SIZES@[k])),
        );
        let next6 = next5.with_column(3, places(coin(LONG_SIZES@[k])));
        crate::laws::steps::lemma_not_alike(next6, 2, 3);
        crate::laws::steps::lemma_check(
            steps,
            8,
            21,
            next6,
            answers,
            used + 4,
            !(answers[used + 3]->Words_0 == places(coin(LONG_SIZES@[k]))),
        );
        lemma_die(LONG_SIZES@[k], next6);
        let words7 = die(LONG_SIZES@[k]);
        crate::laws::steps::lemma_fill(steps, 9, 21, next6, answers, used + 4, words7);
        let next7 = next6.with_column(1, words7);
        crate::laws::lanes::lemma_mask_sum(next7, 1);
        crate::laws::steps::lemma_put(
            steps,
            10,
            21,
            next7,
            answers,
            used + 4,
            crate::columns::total(die(LONG_SIZES@[k])) as u64,
        );
        let next8 = next7.with_register(0, crate::columns::total(die(LONG_SIZES@[k])) as u64);
        crate::laws::steps::lemma_command(steps, 11, 21, next8, answers, used + 4);
        crate::laws::steps::lemma_match(
            steps,
            12,
            21,
            next8,
            answers,
            used + 5,
            crate::columns::total(die(LONG_SIZES@[k])) as u64,
        );
        let next9 = next8.with_register(COUNT, crate::columns::total(die(LONG_SIZES@[k])) as u64);
        lemma_stripes(LONG_SIZES@[k], next9);
        let words10 = stripes(LONG_SIZES@[k]);
        crate::laws::steps::lemma_fill(steps, 13, 21, next9, answers, used + 6, words10);
        let next10 = next9.with_column(1, words10);
        crate::laws::lanes::lemma_mask_sum(next10, 1);
        crate::laws::steps::lemma_put(
            steps,
            14,
            21,
            next10,
            answers,
            used + 6,
            crate::columns::total(stripes(LONG_SIZES@[k])) as u64,
        );
        let next11 = next10.with_register(0, crate::columns::total(stripes(LONG_SIZES@[k])) as u64);
        crate::laws::steps::lemma_command(steps, 15, 21, next11, answers, used + 6);
        crate::laws::steps::lemma_match(
            steps,
            16,
            21,
            next11,
            answers,
            used + 7,
            crate::columns::total(stripes(LONG_SIZES@[k])) as u64,
        );
        let next12 = next11.with_register(
            COUNT,
            crate::columns::total(stripes(LONG_SIZES@[k])) as u64,
        );
        crate::laws::steps::lemma_download(steps, 17, 21, next12, answers, used + 8);
        if answers[used + 8] is Words {
            let next13 = next12.with_column(2, answers[used + 8]->Words_0);
            lemma_places(next13, same_as(here(1), num(1)));
            crate::laws::steps::lemma_select(
                steps,
                18,
                21,
                next13,
                answers,
                used + 9,
                LONG_SIZES@[k],
                places(stripes(LONG_SIZES@[k])),
            );
            let next14 = next13.with_column(3, places(stripes(LONG_SIZES@[k])));
            crate::laws::steps::lemma_not_alike(next14, 2, 3);
            crate::laws::steps::lemma_check(
                steps,
                19,
                21,
                next14,
                answers,
                used + 9,
                !(answers[used + 8]->Words_0 == places(stripes(LONG_SIZES@[k]))),
            );
            crate::laws::steps::lemma_command(steps, 20, 21, next14, answers, used + 9);
            crate::laws::steps::lemma_end(steps, 21, next14, answers, used + 10);
        }
    }
}

/// All rounds of the part `sizes`.
proof fn lemma_random_sizes_rounds(contents: Contents, answers: Seq<Answer>)
    requires
        contents.full(),
        random_shaped(answers),
    ensures
        ({
            let steps = crate::script::rounds(
                3,
                |k: int|
                    crate::categories::c11_control_flow::random_predicate_distribution_sizes_round(
                    k as u64,
                ),
            );
            match crate::walk::walked(steps, 0, steps.len() as int, contents, answers, 0) {
                Some((after, next)) => {
                    &&& forall|k: int|
                        0 <= k < 3 ==> #[trigger] random_sizes(k, answers, 10 * k)
                    &&& after.full()
                    &&& next == 30
                },
                None => !(forall|k: int|
                    0 <= k < 3 ==> #[trigger] random_sizes(k, answers, 10 * k)),
            }
        }),
{
    let round = |k: int|
        crate::categories::c11_control_flow::random_predicate_distribution_sizes_round(
        k as u64,
    );
    let start = |k: int| 10 * k;
    let good = |k: int| random_sizes(k, answers, start(k));
    let kept = |contents: Contents| contents.full();
    assert forall|k: int, contents: Contents|
        #![trigger good(k), kept(contents)]
        0 <= k < 3 && kept(contents) implies if good(k) {
        crate::walk::goes_to(round(k), contents, answers, start(k), start(k + 1), kept)
    } else {
        crate::walk::walked(round(k), 0, round(k).len() as int, contents, answers, start(k)) is None
    } by {
        lemma_random_sizes(k, contents, answers, start(k));
    }
    crate::walk::law_rounds_keep_what_each_keeps(3, round, start, good, kept, contents, answers);
    if forall|k: int| 0 <= k < 3 ==> #[trigger] good(k) {
        assert forall|k: int| 0 <= k < 3 implies #[trigger] random_sizes(
            k,
            answers,
            10 * k,
        ) by {
            assert(good(k));
        }
    } else {
        let k = choose|k: int| 0 <= k < 3 && !(#[trigger] good(k));
        assert(!random_sizes(k, answers, 10 * k));
    }
}

/// The part `end`.
proof fn lemma_random_end(contents: Contents, answers: Seq<Answer>)
    requires
        contents.full(),
        random_shaped(answers),
    ensures
        match crate::walk::walked(
            crate::categories::c11_control_flow::random_predicate_distribution_end_steps(),
            0,
            1,
            contents,
            answers,
            30,
        ) {
            Some((after, next)) => {
                &&& random_end(answers)
                &&& after.full()
                &&& next == 31
            },
            None => !random_end(answers),
        },
        crate::categories::c11_control_flow::random_predicate_distribution_end_steps().len() == 1,
{
    let steps = crate::categories::c11_control_flow::random_predicate_distribution_end_steps();
    crate::laws::steps::lemma_command(steps, 0, 1, contents, answers, 30);
    crate::laws::steps::lemma_end(steps, 1, contents, answers, 31);
}

/// The test has no jumps.
proof fn lemma_random_straight()
    ensures
        forall|j: int|
            0 <= j < crate::categories::c11_control_flow::random_predicate_distribution_steps().len()
                ==> crate::walk::straight(
                #[trigger] crate::categories::c11_control_flow::random_predicate_distribution_steps()[j],
            ),
{
    let part1 = crate::script::rounds(
        3,
        |k: int| crate::categories::c11_control_flow::random_predicate_distribution_sizes_round(
            k as u64,
        ),
    );
    let round1 = |k: int|
        crate::categories::c11_control_flow::random_predicate_distribution_sizes_round(
        k as u64,
    );
    crate::walk::law_straight_rounds_are_straight(3, round1);
    let part2 = crate::categories::c11_control_flow::random_predicate_distribution_end_steps();
    let whole1 = part1;
    let whole2 = whole1 + part2;
    crate::walk::law_straight_scripts_make_a_straight_one(whole1, part2);
    assert(crate::categories::c11_control_flow::random_predicate_distribution_steps() == whole2);
}

/// The test of random masks passes exactly when, for each size, each of three filters keeps as many
/// rows as are marked, and the first and the last one just the marked ones in order.
pub proof fn law_random_predicates_pass_exactly_when_the_marked_are_kept(answers: Seq<Answer>)
    requires
        random_shaped(answers),
    ensures
        crate::machine::run_of(
            crate::script::plan(
                "test_random_predicate_distribution",
                crate::categories::c11_control_flow::random_predicate_distribution_steps(),
            ),
            answers,
        ).progress == Progress::Over(Ending::Passed) <==> {
            &&& forall|k: int|
                0 <= k < 3 ==> #[trigger] random_sizes(k, answers, 10 * k)
            &&& random_end(answers)
        },
{
    let plan = crate::script::plan(
        "test_random_predicate_distribution",
        crate::categories::c11_control_flow::random_predicate_distribution_steps(),
    );
    let blank = Contents::blank(plan.texts);
    let part1 = crate::script::rounds(
        3,
        |k: int| crate::categories::c11_control_flow::random_predicate_distribution_sizes_round(
            k as u64,
        ),
    );
    let part2 = crate::categories::c11_control_flow::random_predicate_distribution_end_steps();
    let whole1 = part1;
    let whole2 = whole1 + part2;
    assert(plan.steps == whole2);
    lemma_random_sizes_rounds(blank, answers);
    crate::walk::law_walks_over_two_scripts_compose(whole1, part2, blank, answers, 0);
    match crate::walk::walked(whole1, 0, whole1.len() as int, blank, answers, 0) {
        Some((after, _)) => {
            lemma_random_end(after, answers);
        },
        None => {},
    }
    lemma_random_straight();
    crate::walk::law_passes_exactly_when_every_step_goes_through(plan, answers);
}

} // verus!
