//! Laws of the tests that count marked rows.

use vstd::prelude::*;
use crate::expr::{differs, here, ix, len, lt, modulo, not, num, reg, same_as, sum_of, Expr};
use crate::machine::{Answer, Ending, Progress};
use crate::memory::Contents;
use crate::script::{
    fill, put, release, running_column, select, Act, Faults, Otherwise, Request, Step, COUNT,
};

verus! {

/// The marked ones of the first `n` places, in order.
pub open spec fn marked(mask: Seq<u64>, n: nat) -> Seq<u64>
    decreases n,
{
    if n == 0 {
        Seq::empty()
    } else if mask[n - 1] == 1 {
        marked(mask, (n - 1) as nat).push((n - 1) as u64)
    } else {
        marked(mask, (n - 1) as nat)
    }
}

/// Whether the device counts the rows that a mask marks: it adds the mask up, gives its running
/// sums, does what it is asked, counts the rows that are kept, and hands them out first and in
/// order.
pub open spec fn counts(mask: Seq<u64>, answers: Seq<Answer>, used: int) -> bool {
    &&& answers[used] matches Answer::Sums(sums, sum)
    &&& sum == crate::columns::total(mask)
    &&& crate::columns::running_sums(mask).is_prefix_of(sums)
    &&& !(answers[used + 1] is Failed)
    &&& !(answers[used + 2] is Failed)
    &&& answers[used + 3] == Answer::Count(sum)
    &&& answers[used + 4] matches Answer::Words(kept)
    &&& marked(mask, mask.len()).is_prefix_of(kept)
}

/// Whether an answer is that to a request for sums.
pub open spec fn sums_or_refusal(answer: Answer) -> bool {
    match answer {
        Answer::Sums(sums, _) => sums.len() <= u64::MAX,
        Answer::Failed(_) => true,
        _ => false,
    }
}

/// Keeping the places that a mask marks.
proof fn lemma_marked(contents: Contents, n: nat)
    requires
        contents.full(),
        n <= contents.columns[0].len() <= u64::MAX,
    ensures
        crate::machine::selected(same_as(here(0), num(1)), ix(), contents, n) == Some(
            marked(contents.columns[0], n),
        ),
        marked(contents.columns[0], n).len() <= n,
    decreases n,
{
    let mask = contents.columns[0];
    let keep = same_as(here(0), num(1));
    if n > 0 {
        let before = (n - 1) as nat;
        let place = before as u64;
        lemma_marked(contents, before);
        assert(crate::expr::value_of(keep, contents, place) == Some(
            crate::expr::truth(mask[before as int] == 1),
        )) by {
            reveal_with_fuel(crate::expr::value_of, 4);
        }
        assert(crate::expr::value_of(ix(), contents, place) == Some(place));
    }
}

/// Holding a column against the running sums of a mask.
#[verifier::spinoff_prover]
#[verifier::rlimit(50)]
proof fn lemma_sum_faults(faults: Faults, contents: Contents)
    requires
        contents.full(),
        faults matches Faults::One(fault, _) && fault == differs(here(1), here(2)),
        contents.columns[1].len() <= u64::MAX,
        contents.columns[2].len() <= u64::MAX,
    ensures
        forall|i: int|
            0 <= i < contents.columns[2].len() ==> (#[trigger] crate::walk::shows(
                faults,
                contents,
                i as u64,
            ) <==> !(i < contents.columns[1].len() && contents.columns[1][i]
                == contents.columns[2][i])),
{
    reveal_with_fuel(crate::expr::value_of, 5);
}

/// Holding a column against the places that a mask marks.
#[verifier::spinoff_prover]
#[verifier::rlimit(50)]
proof fn lemma_kept_faults(faults: Faults, contents: Contents)
    requires
        contents.full(),
        faults matches Faults::More(first, _, rest) && {
            &&& first == not(lt(ix(), len(4)))
            &&& *rest matches Faults::One(second, _)
            &&& second == differs(here(4), here(5))
        },
        contents.columns[4].len() <= u64::MAX,
        contents.columns[5].len() <= u64::MAX,
    ensures
        forall|i: int|
            0 <= i < contents.columns[5].len() ==> (#[trigger] crate::walk::shows(
                faults,
                contents,
                i as u64,
            ) <==> !(i < contents.columns[4].len() && contents.columns[4][i]
                == contents.columns[5][i])),
{
    reveal_with_fuel(crate::walk::shows, 3);
    reveal_with_fuel(crate::expr::value_of, 5);
}

/// Whether a word of a column is found in another one, at its place.
spec fn found(short: Seq<u64>, long: Seq<u64>, place: int) -> bool {
    place < long.len() && long[place] == short[place]
}

/// A column is a prefix of another one where each of its words is found at its place.
proof fn lemma_prefix(short: Seq<u64>, long: Seq<u64>)
    requires
        forall|i: int| 0 <= i < short.len() ==> #[trigger] found(short, long, i),
    ensures
        short.is_prefix_of(long),
{
    if short.len() > 0 {
        assert(found(short, long, short.len() - 1));
    }
    assert forall|i: int| 0 <= i < short.len() implies short[i] == long.subrange(
        0,
        short.len() as int,
    )[i] by {
        assert(found(short, long, i));
    }
    assert(short =~= long.subrange(0, short.len() as int));
}

/// Each word of a prefix is found at its place.
proof fn lemma_prefix_words(short: Seq<u64>, long: Seq<u64>, i: int)
    requires
        short.is_prefix_of(long),
        0 <= i < short.len(),
    ensures
        i < long.len(),
        long[i] == short[i],
{
    assert(short == long.subrange(0, short.len() as int));
    assert(long.subrange(0, short.len() as int)[i] == long[i]);
}

/// Looking for places where one column does not begin with another one finds nothing exactly when
/// it does.
proof fn lemma_prefix_scan(faults: Faults, contents: Contents, short: Seq<u64>, long: Seq<u64>)
    requires
        forall|i: int|
            0 <= i < short.len() ==> (#[trigger] crate::walk::shows(faults, contents, i as u64)
                <==> !(i < long.len() && long[i] == short[i])),
    ensures
        short.is_prefix_of(long) <==> forall|i: int|
            0 <= i < short.len() ==> !(#[trigger] crate::walk::shows(faults, contents, i as u64)),
{
    if short.is_prefix_of(long) {
        assert forall|i: int| 0 <= i < short.len() implies !(#[trigger] crate::walk::shows(
            faults,
            contents,
            i as u64,
        )) by {
            lemma_prefix_words(short, long, i);
        }
    } else if forall|i: int|
        0 <= i < short.len() ==> !(#[trigger] crate::walk::shows(faults, contents, i as u64)) {
        assert forall|i: int| 0 <= i < short.len() implies #[trigger] found(short, long, i) by {
            assert(!crate::walk::shows(faults, contents, i as u64));
        }
        lemma_prefix(short, long);
    }
}

/// Whether two registers differ.
proof fn lemma_registers_differ(contents: Contents, left: u64, right: u64)
    requires
        left < contents.registers.len(),
        right < contents.registers.len(),
    ensures
        crate::expr::value_of(differs(reg(left), reg(right)), contents, 0) == Some(
            crate::expr::truth(contents.registers[left as int] != contents.registers[right as int]),
        ),
{
    reveal_with_fuel(crate::expr::value_of, 4);
}

/// The first steps: the running sums.
proof fn lemma_sums_part(
    steps: Seq<Step>,
    keep: Expr,
    mask: Seq<u64>,
    contents: Contents,
    answers: Seq<Answer>,
    used: int,
)
    requires
        steps[0] == fill(0, num(mask.len() as u64), keep),
        steps[1] == put(0, sum_of(0)),
        steps[2] matches Step::Do(
            Act::Ask(Request::PrefixSum { sums, sum, .. }, Otherwise::Fail(_)),
        ) && sums == 1 && sum == 1,
        steps[3] matches Step::Do(Act::Check { fault, .. }) && fault == differs(reg(1), reg(0)),
        steps[4] == running_column(2, 0),
        steps[5] matches Step::Do(Act::Scan { low, high, by, faults }) && {
            &&& low == num(0)
            &&& high == num(mask.len() as u64)
            &&& by == 1
            &&& faults matches Faults::One(fault, _)
            &&& fault == differs(here(1), here(2))
        },
        steps[6] matches Step::Do(Act::Check { fault, .. }) && fault == differs(reg(0), reg(1)),
        contents.full(),
        mask.len() <= u64::MAX,
        forall|i: int| 0 <= i < mask.len() ==> mask[i] <= 1,
        forall|i: int|
            0 <= i < mask.len() ==> #[trigger] crate::expr::value_of(keep, contents, i as u64)
                == Some(mask[i]),
        0 <= used < answers.len(),
        sums_or_refusal(answers[used]),
    ensures
        match answers[used] {
            Answer::Sums(sums, sum) => crate::walk::walked(steps, 0, 15, contents, answers, used)
                == (if sum == crate::columns::total(mask) && crate::columns::running_sums(
                mask,
            ).is_prefix_of(sums) {
                crate::walk::walked(
                    steps,
                    7,
                    15,
                    contents.with_column(0, mask).with_register(0, sum).with_column(
                        1,
                        sums,
                    ).with_register(1, sum).with_column(2, crate::columns::running_sums(mask)),
                    answers,
                    used + 1,
                )
            } else {
                None
            }),
            _ => crate::walk::walked(steps, 0, 15, contents, answers, used) is None,
        },
{
    crate::columns::law_total_of_zeros_and_ones(mask);
    let total = crate::columns::total(mask) as u64;
    crate::laws::steps::lemma_fill(steps, 0, 15, contents, answers, used, mask);
    let first = contents.with_column(0, mask);
    crate::laws::steps::lemma_put(steps, 1, 15, first, answers, used, total);
    let second = first.with_register(0, total);
    crate::laws::steps::lemma_sums(steps, 2, 15, second, answers, used, 1, 1);
    match answers[used] {
        Answer::Sums(sums, sum) => {
            let third = second.with_column(1, sums).with_register(1, sum);
            lemma_registers_differ(third, 1, 0);
            crate::laws::steps::lemma_check(steps, 3, 15, third, answers, used + 1, sum != total);
            crate::laws::steps::lemma_running(steps, 4, 15, third, answers, used + 1);
            let running = crate::columns::running_sums(mask);
            let fourth = third.with_column(2, running);
            let faults = steps[5]->Do_0->Scan_faults;
            crate::laws::steps::lemma_scan(
                steps,
                5,
                15,
                fourth,
                answers,
                used + 1,
                0,
                mask.len() as u64,
            );
            lemma_sum_faults(faults, fourth);
            lemma_prefix_scan(faults, fourth, running, sums);
            lemma_registers_differ(fourth, 0, 1);
            crate::laws::steps::lemma_check(
                steps,
                6,
                15,
                fourth,
                answers,
                used + 1,
                total != sum,
            );
        },
        _ => {},
    }
}

/// The last steps: the filter.
proof fn lemma_filter_part(
    steps: Seq<Step>,
    mask: Seq<u64>,
    contents: Contents,
    answers: Seq<Answer>,
    used: int,
    sum: u64,
)
    requires
        steps[7] == fill(3, num(mask.len() as u64), ix()),
        steps[8] matches Step::Do(Act::Ask(Request::Create { .. }, Otherwise::Fail(_))),
        steps[9] matches Step::Do(Act::Ask(Request::Filter { .. }, Otherwise::Fail(_))),
        steps[10] matches Step::Do(Act::Match { expected, .. }) && expected == reg(0),
        steps[11] matches Step::Do(Act::Ask(request, Otherwise::Fail(_)))
            && crate::laws::steps::column_of(request) == Some(4u64),
        steps[12] == select(5, num(mask.len() as u64), same_as(here(0), num(1)), ix()),
        steps[13] matches Step::Do(Act::Scan { low, high, by, faults }) && {
            &&& low == num(0)
            &&& high == len(5)
            &&& by == 1
            &&& faults matches Faults::More(first, _, rest)
            &&& first == not(lt(ix(), len(4)))
            &&& *rest matches Faults::One(second, _)
            &&& second == differs(here(4), here(5))
        },
        steps[14] == release(0),
        contents.full(),
        contents.columns[0] == mask,
        contents.registers[0] == sum,
        mask.len() <= u64::MAX,
        0 <= used,
        used + 5 <= answers.len(),
        crate::laws::steps::column_or_refusal(answers[used + 3]),
    ensures
        match crate::walk::walked(steps, 7, 15, contents, answers, used) {
            Some((after, next)) => {
                &&& after.full()
                &&& next == used + 5
                &&& !(answers[used] is Failed)
                &&& !(answers[used + 1] is Failed)
                &&& answers[used + 2] == Answer::Count(sum)
                &&& answers[used + 3] matches Answer::Words(kept)
                &&& marked(mask, mask.len()).is_prefix_of(kept)
            },
            None => !({
                &&& !(answers[used] is Failed)
                &&& !(answers[used + 1] is Failed)
                &&& answers[used + 2] == Answer::Count(sum)
                &&& answers[used + 3] matches Answer::Words(kept)
                &&& marked(mask, mask.len()).is_prefix_of(kept)
            }),
        },
{
    let n = mask.len() as u64;
    let places = crate::laws::words::below(n);
    crate::laws::words::lemma_below(n, contents);
    crate::laws::steps::lemma_fill(steps, 7, 15, contents, answers, used, places);
    let first = contents.with_column(3, places);
    crate::laws::steps::lemma_command(steps, 8, 15, first, answers, used);
    crate::laws::steps::lemma_command(steps, 9, 15, first, answers, used + 1);
    crate::laws::steps::lemma_match(steps, 10, 15, first, answers, used + 2, sum);
    let second = first.with_register(COUNT, sum);
    crate::laws::steps::lemma_download(steps, 11, 15, second, answers, used + 3);
    if answers[used + 3] is Words {
        let kept = answers[used + 3]->Words_0;
        let third = second.with_column(4, kept);
        lemma_marked(third, mask.len());
        let expected = marked(mask, mask.len());
        crate::laws::steps::lemma_select(steps, 12, 15, third, answers, used + 4, n, expected);
        let fourth = third.with_column(5, expected);
        let faults = steps[13]->Do_0->Scan_faults;
        crate::laws::steps::lemma_scan(
            steps,
            13,
            15,
            fourth,
            answers,
            used + 4,
            0,
            expected.len() as u64,
        );
        lemma_kept_faults(faults, fourth);
        lemma_prefix_scan(faults, fourth, expected, kept);
        crate::laws::steps::lemma_command(steps, 14, 15, fourth, answers, used + 4);
        crate::laws::steps::lemma_end(steps, 15, fourth, answers, used + 5);
    }
}

/// Counting the rows that a mask marks goes through exactly when the device counts them.
pub proof fn law_counting_goes_through_exactly_when_counted(
    keep: Expr,
    mask: Seq<u64>,
    contents: Contents,
    answers: Seq<Answer>,
    used: int,
)
    requires
        contents.full(),
        mask.len() <= u64::MAX,
        forall|i: int| 0 <= i < mask.len() ==> mask[i] <= 1,
        forall|i: int|
            0 <= i < mask.len() ==> #[trigger] crate::expr::value_of(keep, contents, i as u64)
                == Some(mask[i]),
        0 <= used,
        used + 6 <= answers.len(),
        sums_or_refusal(answers[used]),
        crate::laws::steps::column_or_refusal(answers[used + 4]),
    ensures
        counts(mask, answers, used) ==> crate::walk::goes_through(
            crate::categories::c12_atomics::counted_filter_steps(mask.len() as u64, keep),
            contents,
            answers,
            used,
            6,
        ),
        !counts(mask, answers, used) ==> crate::walk::walked(
            crate::categories::c12_atomics::counted_filter_steps(mask.len() as u64, keep),
            0,
            15,
            contents,
            answers,
            used,
        ) is None,
{
    let steps = crate::categories::c12_atomics::counted_filter_steps(mask.len() as u64, keep);
    lemma_sums_part(steps, keep, mask, contents, answers, used);
    match answers[used] {
        Answer::Sums(sums, sum) => {
            let after = contents.with_column(0, mask).with_register(0, sum).with_column(
                1,
                sums,
            ).with_register(1, sum).with_column(2, crate::columns::running_sums(mask));
            lemma_filter_part(steps, mask, after, answers, used + 1, sum);
        },
        _ => {},
    }
}

/// The masks of the counting test.
pub open spec fn counting_mask(k: int) -> Seq<u64> {
    if k == 0 {
        crate::laws::masks::every(2, 1000)
    } else if k == 1 {
        crate::laws::masks::every(10, 10000)
    } else if k == 2 {
        crate::laws::words::leading(10000, 50000)
    } else {
        crate::laws::masks::every(7, 100000)
    }
}

/// The rule of each mask of the counting test.
spec fn counting_rule(k: int) -> Expr {
    if k == 0 {
        same_as(modulo(ix(), num(2)), num(0))
    } else if k == 1 {
        same_as(modulo(ix(), num(10)), num(0))
    } else if k == 2 {
        lt(ix(), num(10000))
    } else {
        same_as(modulo(ix(), num(7)), num(0))
    }
}

/// The steps for one mask of the counting test.
spec fn counting_round(k: int) -> Seq<Step> {
    crate::categories::c12_atomics::counted_filter_steps(
        counting_mask(k).len() as u64,
        counting_rule(k),
    )
}

/// The masks of the counting test follow their rules.
proof fn lemma_counting_mask(k: int, contents: Contents)
    requires
        0 <= k < 4,
    ensures
        counting_mask(k).len() <= u64::MAX,
        forall|i: int| 0 <= i < counting_mask(k).len() ==> counting_mask(k)[i] <= 1,
        forall|i: int|
            0 <= i < counting_mask(k).len() ==> #[trigger] crate::expr::value_of(
                counting_rule(k),
                contents,
                i as u64,
            ) == Some(counting_mask(k)[i]),
{
    if k == 0 {
        crate::laws::masks::lemma_remainder_words(2, 1000, contents);
    } else if k == 1 {
        crate::laws::masks::lemma_remainder_words(10, 10000, contents);
    } else if k == 2 {
        crate::laws::words::lemma_leading(10000, 50000, contents);
    } else {
        crate::laws::masks::lemma_remainder_words(7, 100000, contents);
    }
}

/// The counting test is made of four masks.
proof fn lemma_counting_rounds()
    ensures
        crate::categories::c12_atomics::atomic_counting_steps() == crate::script::rounds(
            4,
            |k: int| counting_round(k),
        ) + crate::categories::c12_atomics::atomic_counting_end_steps(),
        forall|k: int, j: int|
            0 <= k < 4 && 0 <= j < counting_round(k).len() ==> crate::walk::straight(
                #[trigger] counting_round(k)[j],
            ),
        forall|k: int| #[trigger] counting_round(k).len() == 15,
{
    let round = |k: int| counting_round(k);
    reveal_with_fuel(crate::script::rounds, 5);
    assert(crate::script::rounds(0, round) =~= Seq::empty());
    assert(crate::script::rounds(1, round) =~= counting_round(0));
    assert(crate::script::rounds(4, round) == counting_round(0) + counting_round(1)
        + counting_round(2) + counting_round(3));
}

/// The counting test passes exactly when the device counts the rows that each of its masks marks,
/// and reports no fault in the end.
pub proof fn law_counting_passes_exactly_when_counted(answers: Seq<Answer>)
    requires
        answers.len() > 24,
        forall|k: int| 0 <= k < 4 ==> #[trigger] sums_or_refusal(answers[6 * k]),
        forall|k: int|
            0 <= k < 4 ==> #[trigger] crate::laws::steps::column_or_refusal(answers[6 * k + 4]),
    ensures
        crate::machine::run_of(
            crate::script::plan(
                "test_atomic_counting",
                crate::categories::c12_atomics::atomic_counting_steps(),
            ),
            answers,
        ).progress == Progress::Over(Ending::Passed) <==> {
            &&& forall|k: int| 0 <= k < 4 ==> #[trigger] counts(counting_mask(k), answers, 6 * k)
            &&& !(answers[24] is Failed)
        },
{
    let round = |k: int| counting_round(k);
    let good = |k: int| counts(counting_mask(k), answers, 6 * k);
    lemma_counting_rounds();
    assert forall|k: int, contents: Contents|
        #![trigger good(k), contents.full()]
        0 <= k < 4 && contents.full() implies if good(k) {
        crate::walk::goes_through(round(k), contents, answers, 6 * k, 6)
    } else {
        crate::walk::walked(round(k), 0, round(k).len() as int, contents, answers, 6 * k)
            is None
    } by {
        assert(sums_or_refusal(answers[6 * k]));
        assert(crate::laws::steps::column_or_refusal(answers[6 * k + 4]));
        lemma_counting_mask(k, contents);
        assert(counting_round(k).len() == 15);
        law_counting_goes_through_exactly_when_counted(
            counting_rule(k),
            counting_mask(k),
            contents,
            answers,
            6 * k,
        );
    }
    assert forall|k: int, j: int|
        0 <= k < 4 && 0 <= j < round(k).len() implies crate::walk::straight(
        #[trigger] round(k)[j],
    ) by {
        assert(crate::walk::straight(counting_round(k)[j]));
    }
    crate::laws::steps::lemma_rounds_and_sync(
        crate::script::plan(
            "test_atomic_counting",
            crate::categories::c12_atomics::atomic_counting_steps(),
        ),
        4,
        round,
        6,
        good,
        crate::categories::c12_atomics::atomic_counting_end_steps(),
        answers,
    );
    assert forall|k: int| 0 <= k < 4 implies (#[trigger] good(k) <==> counts(
        counting_mask(k),
        answers,
        6 * k,
    )) by {}
    if exists|k: int| 0 <= k < 4 && !(#[trigger] counts(counting_mask(k), answers, 6 * k)) {
        let k = choose|k: int| 0 <= k < 4 && !(#[trigger] counts(counting_mask(k), answers, 6 * k));
        assert(!good(k));
    }
}

} // verus!
