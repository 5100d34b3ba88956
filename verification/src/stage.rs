//! What a script asks the device about: what its buffers hold, by how they came about, and what is
//! asked of them.

use vstd::prelude::*;
use crate::expr::{Expr, Operator};
use crate::machine::{Answer, Effect, Ending, Progress};
use crate::memory::Contents;
use crate::scalar::Scalar;
use crate::script::{Act, Layout, Otherwise, Plan, Request, Step};
use crate::tables::Table;

verus! {

/// What a buffer or a piece of raw memory on the device is, by how it came about. The turn is the
/// number of the request that made it, counted from zero: two results of the same operation on the
/// same buffer are two things.
pub enum Thing {
    /// Nothing that was made.
    Nothing,
    /// A buffer with uploaded columns.
    Table { layout: Layout, scalar: Scalar, columns: Seq<Seq<u64>>, turn: int },
    /// A buffer without rows.
    Blank { layout: Layout, scalar: Scalar, turn: int },
    /// A buffer sorted by its first columns.
    Sorted { of: Box<Thing>, keys: u64, turn: int },
    /// The rows of a buffer that a mask marks.
    Kept { of: Box<Thing>, mask: Seq<u64>, turn: int },
    /// A buffer without duplicates.
    Unique { of: Box<Thing>, turn: int },
    /// Two buffers joined.
    Joined { left: Box<Thing>, right: Box<Thing>, turn: int },
    /// Raw memory.
    Raw { scalar: Scalar, count: u64, turn: int },
    /// Raw memory of zero bytes.
    Zeros { count: u64, turn: int },
    /// Raw memory with words copied into it.
    Written { to: Box<Thing>, words: Seq<u64>, turn: int },
}

/// What the device is asked: to make something, or to say something about what was made or about
/// itself.
pub enum Ask {
    /// To make a thing.
    Make(Thing),
    /// How many rows a thing has, by the device.
    Rows(Thing),
    /// How many rows a thing has, by its handle.
    Handle(Thing),
    /// The words in a column of a thing.
    Words { of: Thing, column: u64, scalar: Scalar },
    /// The running sums of a mask.
    Sums(Seq<u64>),
    /// Samples of variables with given chances.
    Samples { chances: Seq<u64>, samples: u64, seed: u64, mask: Thing, forced: Thing },
    /// Whether a module has an entry point.
    Entry { module: Seq<char>, entry: Seq<char> },
    /// Anything else.
    Other(Request),
}

/// The buffers and the raw memory on the device, each in a numbered slot.
pub struct Scene {
    pub buffers: Map<u64, Thing>,
    pub memory: Map<u64, Thing>,
}

/// What a slot holds.
pub open spec fn thing_in(slots: Map<u64, Thing>, slot: u64) -> Thing {
    if slots.dom().contains(slot) {
        slots[slot]
    } else {
        Thing::Nothing
    }
}

impl Scene {
    /// A device on which nothing has been made.
    pub open spec fn bare() -> Scene {
        Scene { buffers: Map::empty(), memory: Map::empty() }
    }

    /// The buffer in a slot.
    pub open spec fn buffer(self, slot: u64) -> Thing {
        thing_in(self.buffers, slot)
    }

    /// The raw memory in a slot.
    pub open spec fn raw(self, slot: u64) -> Thing {
        thing_in(self.memory, slot)
    }

    /// The scene with a buffer put into a slot.
    pub open spec fn with_buffer(self, slot: u64, thing: Thing) -> Scene {
        Scene { buffers: self.buffers.insert(slot, thing), ..self }
    }

    /// The scene with raw memory put into a slot.
    pub open spec fn with_raw(self, slot: u64, thing: Thing) -> Scene {
        Scene { memory: self.memory.insert(slot, thing), ..self }
    }

    /// The scene without anything in the slots from one on.
    pub open spec fn freed(self, from: u64) -> Scene {
        Scene {
            buffers: self.buffers.restrict(Set::new(|slot: u64| slot < from)),
            memory: self.memory.restrict(Set::new(|slot: u64| slot < from)),
        }
    }
}

/// The host columns of a layout, from a slot on.
pub open spec fn columns_from(contents: Contents, layout: Layout, from: u64) -> Seq<Seq<u64>> {
    let columns = contents.columns;
    match layout {
        Layout::Val => seq![columns[from as int]],
        Layout::Three => seq![columns[from as int], columns[from + 1], columns[from + 2]],
        Layout::Four => seq![
            columns[from as int],
            columns[from + 1],
            columns[from + 2],
            columns[from + 3],
        ],
        Layout::FourKeys => seq![
            columns[from as int],
            columns[from + 1],
            columns[from + 2],
            columns[from + 3],
            columns[from + 4],
        ],
        _ => seq![columns[from as int], columns[from + 1]],
    }
}

/// What a request asks, where it is made in a turn.
pub open spec fn ask_of(request: Request, contents: Contents, scene: Scene, turn: int) -> Ask {
    match request {
        Request::Create { layout, scalar, from, .. } => Ask::Make(
            Thing::Table { layout, scalar, columns: columns_from(contents, layout, from), turn },
        ),
        Request::CreateEmpty { layout, scalar, .. } => Ask::Make(
            Thing::Blank { layout, scalar, turn },
        ),
        Request::Sort { of, keys, .. } => Ask::Make(
            Thing::Sorted { of: Box::new(scene.buffer(of)), keys, turn },
        ),
        Request::Filter { of, mask, .. } => Ask::Make(
            Thing::Kept {
                of: Box::new(scene.buffer(of)),
                mask: contents.columns[mask as int],
                turn,
            },
        ),
        Request::Dedup { of, .. } => Ask::Make(
            Thing::Unique { of: Box::new(scene.buffer(of)), turn },
        ),
        Request::Join { left, right, .. } => Ask::Make(
            Thing::Joined {
                left: Box::new(scene.buffer(left)),
                right: Box::new(scene.buffer(right)),
                turn,
            },
        ),
        Request::Alloc { scalar, count, .. } => Ask::Make(Thing::Raw { scalar, count, turn }),
        Request::Zeroed { count, .. } => Ask::Make(Thing::Zeros { count, turn }),
        Request::CopyIn { from, to } => Ask::Make(
            Thing::Written {
                to: Box::new(scene.raw(to)),
                words: contents.columns[from as int],
                turn,
            },
        ),
        Request::Rows { of, .. } => Ask::Rows(scene.buffer(of)),
        Request::RowsKnown { of, .. } => Ask::Handle(scene.buffer(of)),
        Request::Download { of, column, scalar, .. } => Ask::Words {
            of: scene.buffer(of),
            column,
            scalar,
        },
        Request::CopyOut { of, scalar, .. } => Ask::Words { of: scene.raw(of), column: 0, scalar },
        Request::PrefixSum { mask, .. } => Ask::Sums(contents.columns[mask as int]),
        Request::Sample { from, samples, seed, mask, forced, .. } => Ask::Samples {
            chances: contents.columns[from as int],
            samples,
            seed,
            mask: scene.raw(mask),
            forced: scene.raw(forced),
        },
        Request::Resolve { module, entry, .. } => Ask::Entry {
            module: contents.texts[module as int],
            entry: contents.texts[entry as int],
        },
        _ => Ask::Other(request),
    }
}

/// The slot that a request puts a buffer into.
pub open spec fn buffer_into(request: Request) -> Option<u64> {
    match request {
        Request::Create { into, .. } => Some(into),
        Request::CreateEmpty { into, .. } => Some(into),
        Request::Sort { into, .. } => Some(into),
        Request::Filter { into, .. } => Some(into),
        Request::Dedup { into, .. } => Some(into),
        Request::Join { into, .. } => Some(into),
        _ => None,
    }
}

/// The slot that a request puts raw memory into.
pub open spec fn raw_into(request: Request) -> Option<u64> {
    match request {
        Request::Alloc { into, .. } => Some(into),
        Request::Zeroed { into, .. } => Some(into),
        Request::CopyIn { to, .. } => Some(to),
        _ => None,
    }
}

/// The scene after a request of a turn has been answered. What is refused is not made.
pub open spec fn changed(
    scene: Scene,
    request: Request,
    contents: Contents,
    turn: int,
    answer: Answer,
) -> Scene {
    match ask_of(request, contents, scene, turn) {
        Ask::Make(thing) => if answer is Failed && crate::machine::refusable(request) {
            scene
        } else {
            match (buffer_into(request), raw_into(request)) {
                (Some(slot), _) => scene.with_buffer(slot, thing),
                (_, Some(slot)) => scene.with_raw(slot, thing),
                _ => scene,
            }
        },
        _ => match request {
            Request::Release { from } => scene.freed(from),
            _ => scene,
        },
    }
}

/// The scene after a run of answers.
pub open spec fn scene_of(plan: Plan, answers: Seq<Answer>) -> Scene
    decreases answers.len(),
{
    if answers.len() == 0 {
        Scene::bare()
    } else {
        let before = answers.drop_last();
        let run = crate::machine::run_of(plan, before);
        match run.progress {
            Progress::Asking { request, .. } => changed(
                scene_of(plan, before),
                request,
                run.contents,
                before.len() as int,
                answers.last(),
            ),
            Progress::Over(_) => scene_of(plan, before),
        }
    }
}

/// What a script asks the device in a turn, if it is not over by then: the turn is the number of
/// answers that it has heard.
pub closed spec fn asked(plan: Plan, answers: Seq<Answer>, turn: int) -> Option<Ask> {
    let heard = answers.take(turn);
    let run = crate::machine::run_of(plan, heard);
    match run.progress {
        Progress::Asking { request, .. } => Some(
            ask_of(request, run.contents, scene_of(plan, heard), turn),
        ),
        Progress::Over(_) => None,
    }
}

/// Whether a script passes with a run of answers.
pub closed spec fn passes(plan: Plan, answers: Seq<Answer>) -> bool {
    crate::machine::run_of(plan, answers).progress == Progress::Over(Ending::Passed)
}

/// Whether a script asks certain things in the turns from one on.
pub closed spec fn asks(plan: Plan, answers: Seq<Answer>, from: int, list: Seq<Ask>) -> bool {
    forall|j: int|
        0 <= j < list.len() ==> asked(plan, answers, from + j) == Some(#[trigger] list[j])
}

/// A script passes with a run of answers exactly when its run is over with that ending.
pub proof fn law_passing_is_an_ending(plan: Plan, answers: Seq<Answer>)
    ensures
        passes(plan, answers) <==> crate::machine::run_of(plan, answers).progress
            == Progress::Over(Ending::Passed),
{
}

/// What a script asks in a turn is what its run over the answers before it asks; it asks nothing
/// where the run is over by then.
pub proof fn law_asking_is_where_a_run_stands(plan: Plan, answers: Seq<Answer>, turn: int)
    ensures
        match crate::machine::run_of(plan, answers.take(turn)).progress {
            Progress::Asking { request, .. } => asked(plan, answers, turn) == Some(
                ask_of(
                    request,
                    crate::machine::run_of(plan, answers.take(turn)).contents,
                    scene_of(plan, answers.take(turn)),
                    turn,
                ),
            ),
            Progress::Over(_) => asked(plan, answers, turn) is None,
        },
{
}

/// A script asks certain things in the turns from one on exactly when it asks each of them in its
/// turn.
pub proof fn law_asking_is_asking_each(
    plan: Plan,
    answers: Seq<Answer>,
    from: int,
    list: Seq<Ask>,
)
    ensures
        asks(plan, answers, from, list) <==> forall|j: int|
            0 <= j < list.len() ==> asked(plan, answers, from + j) == Some(#[trigger] list[j]),
{
}

/// A moment in a run that passes: a script stands before a step.
pub struct Moment {
    pub plan: Plan,
    pub answers: Seq<Answer>,
    pub used: int,
    pub at: int,
    pub contents: Contents,
    pub scene: Scene,
}

impl Moment {
    /// Whether the run passes and comes to this moment.
    pub closed spec fn holds(self) -> bool {
        &&& passes(self.plan, self.answers)
        &&& crate::walk::stands(self.plan, self.answers, self.used, self.at, self.contents)
        &&& scene_of(self.plan, self.answers.take(self.used)) == self.scene
        &&& self.contents.full()
        &&& self.contents.texts == self.plan.texts
    }

    /// The step that the script stands before.
    pub open spec fn step(self) -> Step {
        self.plan.steps[self.at]
    }

    /// The moment before the next step.
    pub open spec fn next(self, contents: Contents) -> Moment {
        Moment { at: self.at + 1, contents, ..self }
    }

    /// The moment before the next step, once an answer more has been heard.
    pub open spec fn told(self, contents: Contents, scene: Scene) -> Moment {
        Moment { at: self.at + 1, used: self.used + 1, contents, scene, ..self }
    }
}

/// A moment is full.
pub proof fn lemma_full(m: Moment)
    requires
        m.holds(),
    ensures
        m.contents.full(),
        m.contents.texts == m.plan.texts,
        0 <= m.used <= m.answers.len(),
{
}

/// The start of a run.
pub proof fn lemma_start(plan: Plan, answers: Seq<Answer>) -> (m: Moment)
    requires
        passes(plan, answers),
    ensures
        m == (Moment {
            plan,
            answers,
            used: 0,
            at: 0,
            contents: Contents::blank(plan.texts),
            scene: Scene::bare(),
        }),
        m.holds(),
{
    assert(answers.take(0) =~= Seq::<Answer>::empty());
    Moment {
        plan,
        answers,
        used: 0,
        at: 0,
        contents: Contents::blank(plan.texts),
        scene: Scene::bare(),
    }
}

/// A step keeps every slot and the texts.
proof fn lemma_moved(step: Step, contents: Contents)
    requires
        contents.full(),
    ensures
        match crate::machine::moved(step, contents) {
            Effect::Next(after) => after.full() && after.texts == contents.texts,
            Effect::Ask(request) => match crate::machine::act_of(step) {
                Act::Ask(own, _) => request == own,
                Act::Match { of, .. } => request == (Request::Rows {
                    of,
                    into: crate::script::COUNT,
                }),
                Act::Tick { timer, .. } => request == (Request::Clock { timer }),
                _ => false,
            },
            Effect::Stop(_) => true,
        },
{
    reveal(crate::machine::effect_of);
}

/// An answer keeps every slot and the texts.
proof fn lemma_heard(step: Step, request: Request, contents: Contents, answer: Answer)
    requires
        contents.full(),
    ensures
        match crate::walk::heard(step, request, contents, answer) {
            Some(after) => after.full() && after.texts == contents.texts,
            None => true,
        },
{
    reveal(crate::machine::stored);
}

/// A step that the script stands before in a run that passes goes through.
proof fn lemma_through(m: Moment) -> (n: Moment)
    requires
        m.holds(),
        0 <= m.at < m.plan.steps.len(),
        crate::walk::straight(m.step()),
    ensures
        n.holds(),
        match crate::machine::moved(m.step(), m.contents) {
            Effect::Next(after) => n == m.next(after),
            Effect::Ask(request) => {
                &&& m.used < m.answers.len()
                &&& crate::walk::heard(m.step(), request, m.contents, m.answers[m.used]) == Some(
                    n.contents,
                )
                &&& n == m.told(
                    n.contents,
                    changed(m.scene, request, m.contents, m.used, m.answers[m.used]),
                )
                &&& asked(m.plan, m.answers, m.used) == Some(
                    ask_of(request, m.contents, m.scene, m.used),
                )
            },
            Effect::Stop(_) => false,
        },
{
    let plan = m.plan;
    let step = m.step();
    lemma_moved(step, m.contents);
    crate::walk::law_steps_without_jumps_go_through_or_do_not_pass(
        plan,
        m.at,
        m.at + 1,
        m.contents,
        m.answers,
        m.used,
    );
    reveal_with_fuel(crate::walk::walked, 2);
    match crate::machine::moved(step, m.contents) {
        Effect::Next(after) => m.next(after),
        Effect::Ask(request) => {
            lemma_heard(step, request, m.contents, m.answers[m.used]);
            assert(m.answers.take(m.used + 1).drop_last() =~= m.answers.take(m.used));
            match crate::walk::heard(step, request, m.contents, m.answers[m.used]) {
                Some(after) => m.told(
                    after,
                    changed(m.scene, request, m.contents, m.used, m.answers[m.used]),
                ),
                None => m,
            }
        },
        Effect::Stop(_) => m,
    }
}

/// What an expression means at a place, as a whole number. Where the expression has a value, it is
/// this number.
pub open spec fn meaning(expr: Expr, contents: Contents, place: int) -> int
    decreases expr,
{
    match expr {
        Expr::Number(number) => number as int,
        Expr::Register(slot) => contents.registers[slot as int] as int,
        Expr::Index => place,
        Expr::Length(slot) => contents.columns[slot as int].len() as int,
        Expr::At(slot, at) => contents.columns[slot as int][meaning(*at, contents, place)] as int,
        Expr::Entry(table, at) => entry_of(table, meaning(*at, contents, place)),
        Expr::Binary(operator, left, right) => {
            let left = meaning(*left, contents, place);
            let right = meaning(*right, contents, place);
            match operator {
                Operator::Plus => left + right,
                Operator::Minus => left - right,
                Operator::Drop => if left >= right {
                    left - right
                } else {
                    0
                },
                Operator::Times => left * right,
                Operator::Over => left / right,
                Operator::Modulo => left % right,
                Operator::Least => if left <= right {
                    left
                } else {
                    right
                },
                Operator::WrapPlus => (left + right) % 0x1_0000_0000_0000_0000,
                Operator::WrapTimes => (left * right) % 0x1_0000_0000_0000_0000,
                Operator::Less => if left < right {
                    1
                } else {
                    0
                },
                Operator::Same => if left == right {
                    1
                } else {
                    0
                },
            }
        },
        Expr::Not(condition) => if meaning(*condition, contents, place) == 0 {
            1
        } else {
            0
        },
        Expr::And(left, right) => if meaning(*left, contents, place) != 0 && meaning(
            *right,
            contents,
            place,
        ) != 0 {
            1
        } else {
            0
        },
        Expr::Or(left, right) => if meaning(*left, contents, place) != 0 || meaning(
            *right,
            contents,
            place,
        ) != 0 {
            1
        } else {
            0
        },
        Expr::Pick(condition, yes, no) => if meaning(*condition, contents, place) != 0 {
            meaning(*yes, contents, place)
        } else {
            meaning(*no, contents, place)
        },
        Expr::Narrow(number) => meaning(*number, contents, place),
        _ => looked_up(expr, contents, place),
    }
}

/// The word at a place of a table.
pub closed spec fn entry_of(table: Table, place: int) -> int {
    crate::tables::words_of(table)[place] as int
}

/// What is meant by the word at a place of a table.
pub proof fn lemma_entry_of(table: Table)
    ensures
        forall|place: int| #[trigger]
            entry_of(table, place) == crate::tables::words_of(table)[place] as int,
{
}

/// The value of an expression that looks through whole columns, and zero where it has none.
pub closed spec fn looked_up(expr: Expr, contents: Contents, place: int) -> int {
    match crate::expr::value_of(expr, contents, place as u64) {
        Some(number) => number as int,
        None => 0,
    }
}

/// An expression that has a value has the value that it means.
proof fn lemma_meaning(expr: Expr, contents: Contents, place: u64)
    ensures
        crate::expr::value_of(expr, contents, place) matches Some(number) ==> number == meaning(
            expr,
            contents,
            place as int,
        ),
    decreases expr,
{
    match expr {
        Expr::At(_, at) => {
            lemma_meaning(*at, contents, place);
        },
        Expr::Entry(_, at) => {
            lemma_meaning(*at, contents, place);
        },
        Expr::Binary(_, left, right) => {
            lemma_meaning(*left, contents, place);
            lemma_meaning(*right, contents, place);
        },
        Expr::Not(condition) => {
            lemma_meaning(*condition, contents, place);
        },
        Expr::And(left, right) => {
            lemma_meaning(*left, contents, place);
            lemma_meaning(*right, contents, place);
        },
        Expr::Or(left, right) => {
            lemma_meaning(*left, contents, place);
            lemma_meaning(*right, contents, place);
        },
        Expr::Pick(condition, yes, no) => {
            lemma_meaning(*condition, contents, place);
            lemma_meaning(*yes, contents, place);
            lemma_meaning(*no, contents, place);
        },
        Expr::Narrow(number) => {
            lemma_meaning(*number, contents, place);
        },
        _ => {},
    }
}

/// A column of a length, with a number for each place.
pub open spec fn column(length: int, word: spec_fn(int) -> int) -> Seq<u64> {
    Seq::new(length as nat, |i: int| word(i) as u64)
}

/// A truth as a number.
pub open spec fn flag(holds: bool) -> int {
    if holds {
        1
    } else {
        0
    }
}



/// A column is filled.
pub proof fn lemma_fill(m: Moment, step: Step, words: Seq<u64>) -> (n: Moment)
    requires
        takes(m, step),
        crate::machine::act_of(step) matches Act::Fill { into, length, word } && {
            &&& into < m.contents.columns.len()
            &&& meaning(length, m.contents, 0) == words.len()
            &&& forall|i: int|
                0 <= i < words.len() ==> meaning(word, m.contents, i) as u64 == #[trigger] words[i]
        },
    ensures
        n.holds(),
        crate::machine::act_of(step) matches Act::Fill { into, .. } && n == m.next(
            m.contents.with_column(into, words),
        ),
        n.contents.full(),
{
    reveal(crate::machine::effect_of);
    let n = lemma_through(m);
    lemma_full(n);
    match crate::machine::act_of(step) {
        Act::Fill { into, length, word } => {
            lemma_meaning(length, m.contents, 0);
            let full = crate::machine::filled(word, m.contents, words.len());
            assert(full is Some);
            assert forall|i: int| 0 <= i < words.len() implies full->0[i] == words[i] by {
                lemma_meaning(word, m.contents, i as u64);
            }
            assert(full->0 =~= words);
        },
        _ => {},
    }
    n
}

/// A script that has come to its end asks nothing more.
pub proof fn lemma_end(m: Moment)
    requires
        m.holds(),
        m.at == m.plan.steps.len(),
    ensures
        asked(m.plan, m.answers, m.used) is None,
{
}

/// A number is put into a register.
pub proof fn lemma_put(m: Moment, step: Step, number: int) -> (n: Moment)
    requires
        takes(m, step),
        crate::machine::act_of(step) matches Act::Let { into, value } && into
            < m.contents.registers.len() && meaning(value, m.contents, 0) == number,
    ensures
        n.holds(),
        crate::machine::act_of(step) matches Act::Let { into, .. } && n == m.next(
            m.contents.with_register(into, number as u64),
        ),
        n.contents.full(),
        0 <= number <= u64::MAX,
{
    reveal(crate::machine::effect_of);
    match crate::machine::act_of(step) {
        Act::Let { value, .. } => {
            lemma_meaning(value, m.contents, 0);
        },
        _ => {},
    }
    let n = lemma_through(m);
    lemma_full(n);
    n
}

/// Whether a step with a condition is taken.
pub proof fn lemma_taken(m: Moment, step: Step, holds: bool)
    requires
        m.holds(),
        0 <= m.at < m.plan.steps.len(),
        m.step() == step,
        crate::walk::straight(step),
        step matches Step::When(condition, _) && (holds <==> meaning(
            condition,
            m.contents,
            0,
        ) != 0),
    ensures
        crate::machine::taken(step, m.contents) == Some(holds),
{
    match step {
        Step::When(condition, _) => {
            lemma_meaning(condition, m.contents, 0);
        },
        _ => {},
    }
    let n = lemma_through(m);
}

/// What a check looks for does not hold in a run that passes.
pub proof fn lemma_check(m: Moment, step: Step, holds: bool)
    requires
        takes(m, step),
        crate::machine::act_of(step) matches Act::Check { fault, .. } && (holds <==> meaning(
            fault,
            m.contents,
            0,
        ) != 0),
    ensures
        !holds,
{
    reveal(crate::machine::effect_of);
    match crate::machine::act_of(step) {
        Act::Check { fault, .. } => {
            lemma_meaning(fault, m.contents, 0);
        },
        _ => {},
    }
    let n = lemma_through(m);
}

/// A step of the script's own goes through: it changes nothing but the slot that it fills.
pub proof fn lemma_own(m: Moment, step: Step) -> (n: Moment)
    requires
        m.holds(),
        0 <= m.at < m.plan.steps.len(),
        m.step() == step,
        crate::machine::taken(step, m.contents) is Some,
        match crate::machine::act_of(step) {
            Act::Ask(_, _) => false,
            Act::Match { .. } => false,
            Act::Tick { .. } => false,
            _ => true,
        },
    ensures
        n.holds(),
        n == m.next(n.contents),
        n.contents.full(),
        match crate::machine::act_of(step) {
            Act::Let { into, .. } => only_register(m.contents, n.contents, into),
            Act::Fill { into, .. } => only_column(m.contents, n.contents, into),
            Act::Select { into, .. } => only_column(m.contents, n.contents, into),
            Act::SortColumn { into, .. } => only_column(m.contents, n.contents, into),
            Act::Running { into, .. } => only_column(m.contents, n.contents, into),
            Act::Shuffle { into, .. } => only_column(m.contents, n.contents, into),
            _ => n.contents == m.contents,
        },
{
    reveal(crate::machine::effect_of);
    let n = lemma_through(m);
    lemma_full(n);
    n
}

/// Whether contents differ in one column at most.
pub open spec fn only_column(before: Contents, after: Contents, slot: u64) -> bool {
    &&& after.registers == before.registers
    &&& forall|other: int|
        0 <= other < before.columns.len() && other != slot ==> #[trigger] after.columns[other]
            == before.columns[other]
}

/// Whether contents differ in one register at most.
pub open spec fn only_register(before: Contents, after: Contents, slot: u64) -> bool {
    &&& after.columns == before.columns
    &&& forall|other: int|
        0 <= other < before.registers.len() && other != slot ==> #[trigger] after.registers[other]
            == before.registers[other]
}

/// A step that is not taken.
pub proof fn lemma_skipped(m: Moment, step: Step) -> (n: Moment)
    requires
        m.holds(),
        0 <= m.at < m.plan.steps.len(),
        m.step() == step,
        passed_over(step, m.contents),
        crate::walk::straight(step),
    ensures
        n.holds(),
        n == m.next(m.contents),
{
    lemma_through(m)
}

/// Something is made, where a refusal ends the test.
pub proof fn lemma_make(m: Moment, step: Step, thing: Thing) -> (n: Moment)
    requires
        takes(m, step),
        crate::machine::act_of(step) matches Act::Ask(request, otherwise) && {
            &&& otherwise is Fail || request is Zeroed && otherwise is Go
            &&& ask_of(request, m.contents, m.scene, m.used) == Ask::Make(thing)
        },
    ensures
        n.holds(),
        asked(m.plan, m.answers, m.used) == Some(Ask::Make(thing)),
        crate::machine::act_of(step) matches Act::Ask(request, _) && n == m.told(
            m.contents,
            match (buffer_into(request), raw_into(request)) {
                (Some(slot), _) => m.scene.with_buffer(slot, thing),
                (_, Some(slot)) => m.scene.with_raw(slot, thing),
                _ => m.scene,
            },
        ),
{
    reveal(crate::machine::effect_of);
    reveal(crate::machine::stored);
    lemma_through(m)
}

/// Something is made, if the device does not refuse it.
pub proof fn lemma_try(m: Moment, step: Step, thing: Thing) -> (n: Moment)
    requires
        takes(m, step),
        crate::machine::act_of(step) matches Act::Ask(request, otherwise) && {
            &&& otherwise is Go
            &&& buffer_into(request) is Some
            &&& ask_of(request, m.contents, m.scene, m.used) == Ask::Make(thing)
        },
    ensures
        n.holds(),
        asked(m.plan, m.answers, m.used) == Some(Ask::Make(thing)),
        n == m.told(m.contents, n.scene),
        crate::machine::act_of(step) matches Act::Ask(request, _) && n.scene == if m.answers[m.used]
            is Failed {
            m.scene
        } else {
            m.scene.with_buffer(buffer_into(request)->0, thing)
        },
{
    reveal(crate::machine::effect_of);
    reveal(crate::machine::stored);
    lemma_through(m)
}

/// A column of a thing is handed out, where a refusal ends the test.
pub proof fn lemma_words(m: Moment, step: Step, ask: Ask) -> (n: Moment)
    requires
        takes(m, step),
        crate::machine::act_of(step) matches Act::Ask(request, otherwise) && {
            &&& otherwise is Fail
            &&& crate::laws::steps::column_of(request) matches Some(into)
            &&& into < m.contents.columns.len()
            &&& ask_of(request, m.contents, m.scene, m.used) == ask
        },
    ensures
        n.holds(),
        asked(m.plan, m.answers, m.used) == Some(ask),
        n == m.told(n.contents, m.scene),
        n.contents.full(),
        crate::machine::act_of(step) matches Act::Ask(request, _) && {
            &&& only_column(m.contents, n.contents, crate::laws::steps::column_of(request)->0)
            &&& m.answers[m.used] matches Answer::Words(words) ==> n.contents
                == m.contents.with_column(crate::laws::steps::column_of(request)->0, words)
        },
{
    reveal(crate::machine::effect_of);
    reveal(crate::machine::stored);
    let n = lemma_through(m);
    lemma_full(n);
    n
}

/// A number of the device's is put into a register.
pub proof fn lemma_number(m: Moment, step: Step, ask: Ask) -> (n: Moment)
    requires
        takes(m, step),
        crate::machine::act_of(step) matches Act::Ask(request, otherwise) && {
            &&& otherwise is Go || otherwise is Fail || otherwise is Zero
            &&& crate::laws::steps::number_into(request) is Some || request is Capability
                || request is Resolve || request is Elapsed
            &&& ask_of(request, m.contents, m.scene, m.used) == ask
        },
    ensures
        n.holds(),
        asked(m.plan, m.answers, m.used) == Some(ask),
        n == m.told(n.contents, m.scene),
        n.contents.full(),
        n.contents.columns == m.contents.columns,
{
    reveal(crate::machine::effect_of);
    reveal(crate::machine::stored);
    let n = lemma_through(m);
    lemma_full(n);
    n
}

/// A number of rows is held against the expected one.
pub proof fn lemma_match(m: Moment, step: Step, thing: Thing) -> (n: Moment)
    requires
        takes(m, step),
        crate::machine::act_of(step) matches Act::Match { of, .. } && m.scene.buffer(of) == thing,
    ensures
        n.holds(),
        asked(m.plan, m.answers, m.used) == Some(Ask::Rows(thing)),
        n == m.told(n.contents, m.scene),
        n.contents.full(),
        only_register(m.contents, n.contents, crate::script::COUNT),
{
    reveal(crate::machine::effect_of);
    let n = lemma_through(m);
    lemma_full(n);
    n
}

/// Something else is asked that leaves nothing behind.
pub proof fn lemma_other(m: Moment, step: Step, request: Request) -> (n: Moment)
    requires
        takes(m, step),
        request is Sync || request is Release || request is Deadline,
        crate::machine::act_of(step) matches Act::Ask(own, otherwise) && {
            &&& otherwise is Go || otherwise is Fail
            &&& own == request
        },
    ensures
        n.holds(),
        asked(m.plan, m.answers, m.used) == Some(Ask::Other(request)),
        n == m.told(
            m.contents,
            match request {
                Request::Release { from } => m.scene.freed(from),
                _ => m.scene,
            },
        ),
{
    reveal(crate::machine::effect_of);
    reveal(crate::machine::stored);
    lemma_through(m)
}

/// Several columns are handed out, where a refusal ends the test.
pub proof fn lemma_columns(m: Moment, step: Step, ask: Ask) -> (n: Moment)
    requires
        takes(m, step),
        crate::machine::act_of(step) matches Act::Ask(request, otherwise) && {
            &&& otherwise is Fail
            &&& request is Backward || request is PrefixSum
            &&& ask_of(request, m.contents, m.scene, m.used) == ask
        },
    ensures
        n.holds(),
        asked(m.plan, m.answers, m.used) == Some(ask),
        n == m.told(n.contents, m.scene),
        n.contents.full(),
        crate::machine::act_of(step) matches Act::Ask(Request::PrefixSum { sums, .. }, _)
            ==> forall|other: int|
            0 <= other < m.contents.columns.len() && other != sums
                ==> #[trigger] n.contents.columns[other] == m.contents.columns[other],
{
    reveal(crate::machine::effect_of);
    reveal(crate::machine::stored);
    let n = lemma_through(m);
    lemma_full(n);
    n
}

/// A script asks nothing in no turns.
pub proof fn lemma_asks_none(m: Moment, from: int)
    ensures
        asks(m.plan, m.answers, from, Seq::empty()),
{
}

/// What a script asks in one turn more.
pub proof fn lemma_asks_more(m: Moment, from: int, list: Seq<Ask>, ask: Ask)
    requires
        asks(m.plan, m.answers, from, list),
        asked(m.plan, m.answers, from + list.len()) == Some(ask),
    ensures
        asks(m.plan, m.answers, from, list.push(ask)),
{
}

/// Whether a step makes a request whose refusal ends the test.
pub open spec fn demands(step: Step, request: Request) -> bool {
    step matches Step::Do(Act::Ask(own, Otherwise::Fail(_))) && own == request
}

/// Whether a step makes a request after which the test goes on either way.
pub open spec fn inquires(step: Step, request: Request) -> bool {
    step == Step::Do(Act::Ask(request, Otherwise::Go))
}

/// Whether a step fills a column.
pub open spec fn fills(step: Step, into: u64, length: Expr, word: Expr) -> bool {
    step == Step::Do(Act::Fill { into, length, word })
}

/// Whether a step puts a number into a register.
pub open spec fn puts(step: Step, into: u64, value: Expr) -> bool {
    step == Step::Do(Act::Let { into, value })
}

/// Whether a step puts some number into a register.
pub open spec fn reckons(step: Step, into: u64) -> bool {
    step matches Step::Do(Act::Let { into: own, .. }) && own == into
}

/// Whether a step holds the number of rows of a buffer against another number.
pub open spec fn counts(step: Step, of: u64) -> bool {
    step matches Step::Do(Act::Match { of: own, .. }) && own == of
}

/// Whether a step only looks at what the script has in hand.
pub open spec fn looks(step: Step) -> bool {
    step matches Step::Do(act) && match act {
        Act::Check { .. } => true,
        Act::Skip { .. } => true,
        Act::Scan { .. } => true,
        _ => false,
    }
}

/// Whether a step makes a column out of what the script has in hand.
pub open spec fn works(step: Step, into: u64) -> bool {
    step matches Step::Do(act) && match act {
        Act::Fill { into: own, .. } => own == into,
        Act::Select { into: own, .. } => own == into,
        Act::SortColumn { into: own, .. } => own == into,
        Act::Running { into: own, .. } => own == into,
        Act::Shuffle { into: own, .. } => own == into,
        _ => false,
    }
}

/// Whether a step is another one with a condition.
pub open spec fn guards(step: Step, condition: Expr) -> bool {
    step matches Step::When(own, _) && own == condition
}

/// A step without its condition.
pub open spec fn bare(step: Step) -> Step {
    Step::Do(crate::machine::act_of(step))
}

/// Whether the condition of a step holds.
pub closed spec fn chosen(step: Step, contents: Contents) -> bool {
    crate::machine::taken(step, contents) == Some(true)
}

/// Whether the condition of a step does not hold.
pub closed spec fn passed_over(step: Step, contents: Contents) -> bool {
    crate::machine::taken(step, contents) == Some(false)
}

/// Whether a script stands before a step that is taken.
pub open spec fn takes(m: Moment, step: Step) -> bool {
    &&& m.holds()
    &&& 0 <= m.at < m.plan.steps.len()
    &&& m.step() == step
    &&& step is Do || chosen(step, m.contents)
}

/// A buffer is uploaded.
pub proof fn lemma_create(
    m: Moment,
    step: Step,
    into: u64,
    layout: Layout,
    scalar: Scalar,
    from: u64,
    thing: Thing,
) -> (n: Moment)
    requires
        takes(m, step),
        demands(bare(step), Request::Create { into, layout, scalar, from }),
        thing == (Thing::Table {
            layout,
            scalar,
            columns: columns_from(m.contents, layout, from),
            turn: m.used,
        }),
    ensures
        n.holds(),
        n == m.told(m.contents, m.scene.with_buffer(into, thing)),
        asked(m.plan, m.answers, m.used) == Some(Ask::Make(thing)),
{
    lemma_make(m, step, thing)
}

/// A buffer is sorted.
pub proof fn lemma_sort(
    m: Moment,
    step: Step,
    of: u64,
    keys: u64,
    into: u64,
    source: Thing,
    thing: Thing,
) -> (n: Moment)
    requires
        takes(m, step),
        demands(bare(step), Request::Sort { of, keys, into }),
        m.scene.buffer(of) == source,
        thing == (Thing::Sorted { of: Box::new(source), keys, turn: m.used }),
    ensures
        n.holds(),
        n == m.told(m.contents, m.scene.with_buffer(into, thing)),
        asked(m.plan, m.answers, m.used) == Some(Ask::Make(thing)),
{
    lemma_make(m, step, thing)
}

/// The rows of a buffer that a mask marks are kept.
pub proof fn lemma_filter(
    m: Moment,
    step: Step,
    of: u64,
    mask: u64,
    into: u64,
    source: Thing,
    marks: Seq<u64>,
    thing: Thing,
) -> (n: Moment)
    requires
        takes(m, step),
        demands(bare(step), Request::Filter { of, mask, into }),
        m.scene.buffer(of) == source,
        m.contents.columns[mask as int] == marks,
        thing == (Thing::Kept { of: Box::new(source), mask: marks, turn: m.used }),
    ensures
        n.holds(),
        n == m.told(m.contents, m.scene.with_buffer(into, thing)),
        asked(m.plan, m.answers, m.used) == Some(Ask::Make(thing)),
{
    lemma_make(m, step, thing)
}

/// A buffer is made free of duplicates.
pub proof fn lemma_dedup(
    m: Moment,
    step: Step,
    of: u64,
    into: u64,
    source: Thing,
    thing: Thing,
) -> (n: Moment)
    requires
        takes(m, step),
        demands(bare(step), Request::Dedup { of, into }),
        m.scene.buffer(of) == source,
        thing == (Thing::Unique { of: Box::new(source), turn: m.used }),
    ensures
        n.holds(),
        n == m.told(m.contents, m.scene.with_buffer(into, thing)),
        asked(m.plan, m.answers, m.used) == Some(Ask::Make(thing)),
{
    lemma_make(m, step, thing)
}

/// Two buffers are joined.
pub proof fn lemma_join(
    m: Moment,
    step: Step,
    left: u64,
    right: u64,
    into: u64,
    one: Thing,
    other: Thing,
    thing: Thing,
) -> (n: Moment)
    requires
        takes(m, step),
        demands(bare(step), Request::Join { left, right, into }),
        m.scene.buffer(left) == one,
        m.scene.buffer(right) == other,
        thing == (Thing::Joined { left: Box::new(one), right: Box::new(other), turn: m.used }),
    ensures
        n.holds(),
        n == m.told(m.contents, m.scene.with_buffer(into, thing)),
        asked(m.plan, m.answers, m.used) == Some(Ask::Make(thing)),
{
    lemma_make(m, step, thing)
}

/// A column of a buffer is downloaded.
pub proof fn lemma_download(
    m: Moment,
    step: Step,
    of: u64,
    column: u64,
    scalar: Scalar,
    into: u64,
    thing: Thing,
) -> (n: Moment)
    requires
        takes(m, step),
        demands(bare(step), Request::Download { of, column, scalar, into }),
        into < m.contents.columns.len(),
        m.scene.buffer(of) == thing,
    ensures
        n.holds(),
        n == m.told(n.contents, m.scene),
        n.contents.full(),
        only_column(m.contents, n.contents, into),
        m.answers[m.used] matches Answer::Words(words) ==> n.contents == m.contents.with_column(
            into,
            words,
        ),
        asked(m.plan, m.answers, m.used) == Some(Ask::Words { of: thing, column, scalar }),
{
    lemma_words(m, step, Ask::Words { of: thing, column, scalar })
}

/// What a number that the device says does to the registers.
proof fn lemma_heard_number(
    step: Step,
    request: Request,
    contents: Contents,
    answer: Answer,
    into: u64,
)
    requires
        inquires(bare(step), request),
        crate::laws::steps::number_into(request) == Some(into),
        into < contents.registers.len(),
    ensures
        match crate::walk::heard(step, request, contents, answer) {
            Some(after) => {
                &&& only_register(contents, after, into)
                &&& answer matches Answer::Count(count) ==> after == contents.with_register(
                    into,
                    count,
                )
            },
            None => true,
        },
{
    reveal(crate::machine::stored);
}

/// A number that the device says is put into a register.
pub proof fn lemma_told(m: Moment, step: Step, request: Request, into: u64, ask: Ask) -> (n: Moment)
    requires
        takes(m, step),
        inquires(bare(step), request),
        crate::laws::steps::number_into(request) == Some(into),
        into < m.contents.registers.len(),
        ask_of(request, m.contents, m.scene, m.used) == ask,
    ensures
        n.holds(),
        n == m.told(n.contents, m.scene),
        n.contents.full(),
        only_register(m.contents, n.contents, into),
        m.answers[m.used] matches Answer::Count(count) ==> n.contents == m.contents.with_register(
            into,
            count,
        ),
        asked(m.plan, m.answers, m.used) == Some(ask),
{
    lemma_heard_number(step, request, m.contents, m.answers[m.used], into);
    assert(crate::machine::moved(step, m.contents) == Effect::Ask(request)) by {
        reveal(crate::machine::effect_of);
    }
    let n = lemma_through(m);
    lemma_full(n);
    n
}

/// The device is asked for the number of rows of a buffer.
pub proof fn lemma_rows(m: Moment, step: Step, of: u64, into: u64, thing: Thing) -> (n: Moment)
    requires
        takes(m, step),
        inquires(bare(step), Request::Rows { of, into }),
        m.scene.buffer(of) == thing,
        into < m.contents.registers.len(),
    ensures
        n.holds(),
        n == m.told(n.contents, m.scene),
        n.contents.full(),
        only_register(m.contents, n.contents, into),
        asked(m.plan, m.answers, m.used) == Some(Ask::Rows(thing)),
{
    lemma_told(m, step, Request::Rows { of, into }, into, Ask::Rows(thing))
}

/// The handle of a buffer is asked for its number of rows.
pub proof fn lemma_handle(m: Moment, step: Step, of: u64, into: u64, thing: Thing) -> (n: Moment)
    requires
        takes(m, step),
        inquires(bare(step), Request::RowsKnown { of, into }),
        m.scene.buffer(of) == thing,
        into < m.contents.registers.len(),
    ensures
        n.holds(),
        n == m.told(n.contents, m.scene),
        n.contents.full(),
        only_register(m.contents, n.contents, into),
        asked(m.plan, m.answers, m.used) == Some(Ask::Handle(thing)),
{
    lemma_told(m, step, Request::RowsKnown { of, into }, into, Ask::Handle(thing))
}

/// The number of rows of a buffer is held against another number.
pub proof fn lemma_count(m: Moment, step: Step, of: u64, thing: Thing) -> (n: Moment)
    requires
        takes(m, step),
        counts(bare(step), of),
        m.scene.buffer(of) == thing,
    ensures
        n.holds(),
        n == m.told(n.contents, m.scene),
        n.contents.full(),
        only_register(m.contents, n.contents, crate::script::COUNT),
        asked(m.plan, m.answers, m.used) == Some(Ask::Rows(thing)),
{
    lemma_match(m, step, thing)
}

/// The script waits for the device.
pub proof fn lemma_sync(m: Moment, step: Step) -> (n: Moment)
    requires
        takes(m, step),
        demands(bare(step), Request::Sync),
    ensures
        n.holds(),
        n == m.told(m.contents, m.scene),
        asked(m.plan, m.answers, m.used) == Some(Ask::Other(Request::Sync)),
{
    lemma_other(m, step, Request::Sync)
}

/// Buffers are freed.
pub proof fn lemma_release(m: Moment, step: Step, from: u64) -> (n: Moment)
    requires
        takes(m, step),
        inquires(bare(step), Request::Release { from }),
    ensures
        n.holds(),
        n == m.told(m.contents, m.scene.freed(from)),
        asked(m.plan, m.answers, m.used) == Some(Ask::Other(Request::Release { from })),
{
    lemma_other(m, step, Request::Release { from })
}

/// The script waits for the device and goes on either way.
pub proof fn lemma_pause(m: Moment, step: Step) -> (n: Moment)
    requires
        takes(m, step),
        inquires(bare(step), Request::Sync),
    ensures
        n.holds(),
        n == m.told(m.contents, m.scene),
        asked(m.plan, m.answers, m.used) == Some(Ask::Other(Request::Sync)),
{
    lemma_other(m, step, Request::Sync)
}

/// The rows of a buffer that a mask marks are kept, if the device does not refuse it.
pub proof fn lemma_attempt(
    m: Moment,
    step: Step,
    of: u64,
    mask: u64,
    into: u64,
    source: Thing,
    marks: Seq<u64>,
    thing: Thing,
) -> (n: Moment)
    requires
        takes(m, step),
        inquires(bare(step), Request::Filter { of, mask, into }),
        m.scene.buffer(of) == source,
        m.contents.columns[mask as int] == marks,
        thing == (Thing::Kept { of: Box::new(source), mask: marks, turn: m.used }),
    ensures
        n.holds(),
        n == m.told(m.contents, n.scene),
        forall|slot: u64|
            slot != into ==> #[trigger] n.scene.buffer(slot) == m.scene.buffer(slot),
        asked(m.plan, m.answers, m.used) == Some(Ask::Make(thing)),
{
    lemma_try(m, step, thing)
}

/// Whether a step checks for a fault.
pub open spec fn checks(step: Step, fault: Expr) -> bool {
    step matches Step::Do(Act::Check { fault: own, .. }) && own == fault
}

/// What a check looks for does not hold in a run that passes.
pub proof fn lemma_refute(m: Moment, step: Step, fault: Expr)
    requires
        takes(m, step),
        checks(bare(step), fault),
    ensures
        meaning(fault, m.contents, 0) == 0,
{
    lemma_check(m, step, meaning(fault, m.contents, 0) != 0)
}

/// The script looks at what it has in hand.
pub proof fn lemma_look(m: Moment, step: Step) -> (n: Moment)
    requires
        takes(m, step),
        looks(bare(step)),
    ensures
        n.holds(),
        n == m.next(m.contents),
{
    lemma_own(m, step)
}

/// The script makes a column out of what it has in hand.
pub proof fn lemma_work(m: Moment, step: Step, into: u64) -> (n: Moment)
    requires
        takes(m, step),
        works(bare(step), into),
    ensures
        n.holds(),
        n == m.next(n.contents),
        n.contents.full(),
        only_column(m.contents, n.contents, into),
{
    lemma_own(m, step)
}

/// A column is filled with words.
pub proof fn lemma_filled(
    m: Moment,
    step: Step,
    into: u64,
    length: Expr,
    word: Expr,
    words: Seq<u64>,
) -> (n: Moment)
    requires
        takes(m, step),
        fills(bare(step), into, length, word),
        into < m.contents.columns.len(),
        meaning(length, m.contents, 0) == words.len(),
        forall|i: int|
            0 <= i < words.len() ==> meaning(word, m.contents, i) as u64 == #[trigger] words[i],
    ensures
        n.holds(),
        n == m.next(m.contents.with_column(into, words)),
        n.contents.full(),
{
    lemma_fill(m, step, words)
}

/// A register is set, to whatever it is.
pub proof fn lemma_reckon(m: Moment, step: Step, into: u64) -> (n: Moment)
    requires
        takes(m, step),
        reckons(bare(step), into),
    ensures
        n.holds(),
        n == m.next(n.contents),
        n.contents.full(),
        only_register(m.contents, n.contents, into),
{
    lemma_own(m, step)
}

/// A register is set to a number.
pub proof fn lemma_set(m: Moment, step: Step, into: u64, value: Expr, number: int) -> (n: Moment)
    requires
        takes(m, step),
        puts(bare(step), into, value),
        into < m.contents.registers.len(),
        meaning(value, m.contents, 0) == number,
    ensures
        n.holds(),
        n == m.next(m.contents.with_register(into, number as u64)),
        n.contents.full(),
        0 <= number <= u64::MAX,
{
    lemma_put(m, step, number)
}

/// Whether a step with a condition is taken.
pub proof fn lemma_guard(m: Moment, step: Step, condition: Expr, holds: bool)
    requires
        m.holds(),
        0 <= m.at < m.plan.steps.len(),
        m.step() == step,
        crate::walk::straight(step),
        guards(step, condition),
        holds <==> meaning(condition, m.contents, 0) != 0,
    ensures
        holds ==> chosen(step, m.contents),
        !holds ==> passed_over(step, m.contents),
{
    lemma_taken(m, step, holds)
}

/// The length of rounds of one length.
pub proof fn lemma_rounds_length(count: int, round: spec_fn(int) -> Seq<Step>, length: int)
    requires
        0 <= count,
        forall|k: int| 0 <= k < count ==> (#[trigger] round(k)).len() == length,
    ensures
        crate::script::rounds(count, round).len() == count * length,
    decreases count,
{
    if count > 0 {
        lemma_rounds_length(count - 1, round, length);
        assert(count * length == (count - 1) * length + length) by (nonlinear_arith);
    } else {
        assert(count * length == 0) by (nonlinear_arith)
            requires
                count == 0,
        ;
    }
}

/// Where the steps of a round are.
pub proof fn lemma_round_place(
    count: int,
    round: spec_fn(int) -> Seq<Step>,
    length: int,
    k: int,
    j: int,
)
    requires
        0 <= k < count,
        0 <= j < length,
        forall|k: int| 0 <= k < count ==> (#[trigger] round(k)).len() == length,
    ensures
        0 <= k * length + j < crate::script::rounds(count, round).len(),
        crate::script::rounds(count, round)[k * length + j] == round(k)[j],
    decreases count,
{
    lemma_rounds_length(count, round, length);
    lemma_rounds_length(count - 1, round, length);
    assert(k * length + j < count * length && 0 <= k * length) by (nonlinear_arith)
        requires
            0 <= k < count,
            0 <= j < length,
    ;
    if k < count - 1 {
        lemma_round_place(count - 1, round, length, k, j);
    }
}

} // verus!
