//! Categories of tests and their results.

use vstd::prelude::*;
use crate::machine::{Ending, Machine, Progress, Reply, Run, Verdict};
use crate::message::Message;
use crate::script::{Plan, Request, Script, Step};

verus! {

/// The result of a test.
#[derive(Debug, PartialEq, Eq)]
pub struct TestResult {
    pub name: &'static str,
    pub verdict: Verdict,
    /// How long the test took, in nanoseconds. A test that was given up takes no time.
    pub nanos: u64,
}

/// The contents of a [`TestResult`].
pub struct Outcome {
    pub name: &'static str,
    pub ending: Ending,
    pub nanos: u64,
}

impl View for TestResult {
    type V = Outcome;

    open spec fn view(&self) -> Outcome {
        Outcome { name: self.name, ending: self.verdict@, nanos: self.nanos }
    }
}

impl TestResult {
    /// The result of a test that passed.
    pub fn passed(name: &'static str, nanos: u64) -> (result: TestResult)
        ensures
            result@ == (Outcome { name, ending: Ending::Passed, nanos }),
    {
        TestResult { name, verdict: Verdict::Passed, nanos }
    }

    /// The result of a test that failed.
    pub fn error(name: &'static str, nanos: u64, message: Message) -> (result: TestResult)
        ensures
            result@ == (Outcome { name, ending: Ending::Failed(message@), nanos }),
    {
        TestResult { name, verdict: Verdict::Failed(message), nanos }
    }

    /// The result of a test that was given up.
    pub fn skipped(name: &'static str, reason: &'static str) -> (result: TestResult)
        ensures
            result@ == (Outcome { name, ending: Ending::Skipped(reason), nanos: 0 }),
    {
        TestResult { name, verdict: Verdict::Skipped(reason), nanos: 0 }
    }
}

/// The results of a category.
#[derive(Debug, PartialEq, Eq)]
pub struct CategoryResult {
    pub name: &'static str,
    pub results: Vec<TestResult>,
    /// How long the category took, in nanoseconds.
    pub nanos: u64,
}

impl CategoryResult {
    /// The results, in order.
    pub open spec fn list(&self) -> Seq<Outcome> {
        Seq::new(self.results@.len(), |k: int| self.results@[k]@)
    }

    /// A category without results.
    pub fn new(name: &'static str) -> (category: CategoryResult)
        ensures
            category.name == name,
            category.list() == Seq::<Outcome>::empty(),
            category.nanos == 0,
    {
        let category = CategoryResult { name, results: Vec::new(), nanos: 0 };
        assert(category.list() =~= Seq::<Outcome>::empty());
        category
    }

    /// Adds the result of one more test.
    pub fn add_result(&mut self, result: TestResult)
        ensures
            final(self).name == old(self).name,
            final(self).list() == old(self).list().push(result@),
            final(self).nanos == old(self).nanos,
    {
        let ghost before = self.list();
        self.results.push(result);
        assert(self.list() =~= before.push(result@));
    }

    /// Notes how long the category took.
    pub fn set_duration(&mut self, nanos: u64)
        ensures
            final(self).name == old(self).name,
            final(self).list() == old(self).list(),
            final(self).nanos == nanos,
    {
        self.nanos = nanos;
        assert(self.list() =~= old(self).list());
    }
}

/// A category that is being run: the tests that wait, the one that runs, and the results so far.
pub struct CategoryRun {
    waiting: Vec<Script>,
    running: Option<Machine>,
    results: CategoryResult,
}

/// The result that a test leaves behind.
pub open spec fn result_of(name: &'static str, ending: Ending, nanos: u64) -> Outcome {
    match ending {
        Ending::Skipped(reason) => Outcome { name, ending, nanos: 0 },
        _ => Outcome { name, ending, nanos },
    }
}

impl CategoryRun {
    /// The name of the category.
    pub closed spec fn title(&self) -> &'static str {
        self.results.name
    }

    /// The tests that wait, in order.
    pub closed spec fn waiting(&self) -> Seq<Plan> {
        Seq::new(self.waiting@.len(), |k: int| self.waiting@[k]@)
    }

    /// The name of the test that runs.
    pub closed spec fn test(&self) -> Option<&'static str> {
        match self.running {
            Some(machine) => Some(machine.title()),
            None => None,
        }
    }

    /// The steps of the test that runs.
    pub closed spec fn steps(&self) -> Option<Seq<Step>> {
        match self.running {
            Some(machine) => Some(machine.steps()),
            None => None,
        }
    }

    /// The state of the test that runs.
    pub closed spec fn run(&self) -> Option<Run> {
        match self.running {
            Some(machine) => Some(machine.run()),
            None => None,
        }
    }

    /// The results so far, in order.
    pub closed spec fn done(&self) -> Seq<Outcome> {
        self.results.list()
    }

    /// The names of the tests, in order: those that have a result, the one that runs, and those
    /// that wait.
    pub open spec fn roll(&self) -> Seq<&'static str> {
        Seq::new(self.done().len(), |k: int| self.done()[k].name) + match self.test() {
            Some(name) => seq![name],
            None => Seq::empty(),
        } + Seq::new(self.waiting().len(), |k: int| self.waiting()[k].name)
    }

    /// A category with all of its tests waiting.
    pub fn new(name: &'static str, tests: Vec<Script>) -> (category: CategoryRun)
        ensures
            category.title() == name,
            category.waiting() == Seq::new(tests@.len(), |k: int| tests@[k]@),
            category.test() is None,
            category.run() is None,
            category.done() == Seq::<Outcome>::empty(),
            category.roll() == Seq::new(tests@.len(), |k: int| tests@[k].name),
    {
        let category = CategoryRun {
            waiting: tests,
            running: None,
            results: CategoryResult::new(name),
        };
        assert(category.roll() =~= Seq::new(tests@.len(), |k: int| tests@[k].name));
        category
    }

    /// How many tests wait.
    pub fn left(&self) -> (count: usize)
        ensures
            count == self.waiting().len(),
    {
        self.waiting.len()
    }

    /// Starts the next test.
    pub fn begin(self) -> (category: CategoryRun)
        requires
            self.run() is None,
            self.waiting().len() > 0,
        ensures
            category.title() == self.title(),
            category.waiting() == self.waiting().drop_first(),
            category.test() == Some(self.waiting()[0].name),
            category.steps() == Some(self.waiting()[0].steps),
            category.run() == Some(crate::machine::run_of(self.waiting()[0], Seq::empty())),
            category.done() == self.done(),
            category.roll() == self.roll(),
    {
        let CategoryRun { mut waiting, running, results } = self;
        let script = waiting.remove(0);
        let category = CategoryRun { waiting, running: Some(Machine::start(script)), results };
        assert(category.waiting() =~= self.waiting().drop_first());
        assert(category.roll() =~= self.roll());
        category
    }

    /// The request that the running test waits for.
    pub fn request(&self) -> (request: Option<Request>)
        ensures
            request == match self.run() {
                Some(run) => match run.progress {
                    Progress::Asking { request, .. } => Some(request),
                    Progress::Over(_) => None,
                },
                None => None,
            },
    {
        match &self.running {
            Some(machine) => machine.request(),
            None => None,
        }
    }

    /// The host column in a slot of the running test, if there is such a slot.
    pub fn column(&self, slot: u64) -> (column: Option<&Vec<u64>>)
        ensures
            match column {
                Some(words) => match self.run() {
                    Some(run) => crate::machine::column_in(run.contents, slot) == Some(words@),
                    None => false,
                },
                None => match self.run() {
                    Some(run) => crate::machine::column_in(run.contents, slot) is None,
                    None => true,
                },
            },
    {
        match &self.running {
            Some(machine) => machine.column(slot),
            None => None,
        }
    }

    /// One of the texts that the running test was given, if there is such a text.
    pub fn text(&self, place: u64) -> (text: Option<&String>)
        ensures
            match text {
                Some(text) => match self.run() {
                    Some(run) => place < run.contents.texts.len() && text@
                        == run.contents.texts[place as int],
                    None => false,
                },
                None => match self.run() {
                    Some(run) => place >= run.contents.texts.len(),
                    None => true,
                },
            },
    {
        match &self.running {
            Some(machine) => machine.text(place),
            None => None,
        }
    }

    /// Goes on with the reply to the request that the running test waits for.
    pub fn resume(self, reply: Reply) -> (category: CategoryRun)
        requires
            match self.run() {
                Some(run) => match run.progress {
                    Progress::Asking { request, .. } => crate::machine::answers(request, reply@),
                    Progress::Over(_) => false,
                },
                None => false,
            },
        ensures
            category.title() == self.title(),
            category.waiting() == self.waiting(),
            category.test() == self.test(),
            category.steps() == self.steps(),
            category.run() == Some(
                crate::machine::answered(self.steps()->0, self.run()->0, reply@),
            ),
            category.done() == self.done(),
            category.roll() == self.roll(),
    {
        let CategoryRun { waiting, running, results } = self;
        let running = match running {
            Some(machine) => Some(machine.resume(reply)),
            None => None,
        };
        let category = CategoryRun { waiting, running, results };
        assert(category.waiting() =~= self.waiting());
        category
    }

    /// Whether the running test could not be carried out.
    pub fn aborted(&self) -> (result: bool)
        ensures
            result == match self.run() {
                Some(run) => run.progress == Progress::Over(Ending::Aborted),
                None => false,
            },
    {
        match &self.running {
            Some(machine) => machine.aborted(),
            None => false,
        }
    }

    /// Takes down the result of the running test.
    pub fn conclude(self, nanos: u64) -> (category: CategoryRun)
        requires
            match self.run() {
                Some(run) => match run.progress {
                    Progress::Over(ending) => !(ending is Aborted),
                    _ => false,
                },
                None => false,
            },
        ensures
            category.title() == self.title(),
            category.waiting() == self.waiting(),
            category.test() is None,
            category.run() is None,
            match self.run()->0.progress {
                Progress::Over(ending) => category.done() == self.done().push(
                    result_of(self.test()->0, ending, nanos),
                ),
                _ => false,
            },
            category.roll() == self.roll(),
    {
        let CategoryRun { waiting, running, mut results } = self;
        match running {
            Some(machine) => {
                let name = machine.name();
                match machine.verdict() {
                    Some(verdict) => match verdict {
                        Verdict::Passed => results.add_result(TestResult::passed(name, nanos)),
                        Verdict::Failed(message) => results.add_result(
                            TestResult::error(name, nanos, message),
                        ),
                        Verdict::Skipped(reason) => results.add_result(
                            TestResult::skipped(name, reason),
                        ),
                        Verdict::Aborted => {},
                    },
                    None => {},
                }
            },
            None => {},
        }
        let category = CategoryRun { waiting, running: None, results };
        assert(category.waiting() =~= self.waiting());
        assert(category.roll() =~= self.roll());
        category
    }

    /// The results of the category, once no test runs or waits.
    pub fn finish(self, nanos: u64) -> (result: CategoryResult)
        requires
            self.run() is None,
            self.waiting().len() == 0,
        ensures
            result.name == self.title(),
            result.list() == self.done(),
            result.nanos == nanos,
            self.roll() == Seq::new(result.list().len(), |k: int| result.list()[k].name),
    {
        let mut results = self.results;
        results.set_duration(nanos);
        assert(self.roll() =~= Seq::new(results.list().len(), |k: int| results.list()[k].name));
        results
    }
}

} // verus!
