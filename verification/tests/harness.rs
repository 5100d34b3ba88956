//! Runs whole categories and looks at their results.

use xlog_cuda_tests::categories::{c09_warp_level, c11_control_flow, c20_multi_gpu};
use xlog_cuda_tests::expr::{at, num};
use xlog_cuda_tests::harness::{CategoryResult, CategoryRun, TestResult};
use xlog_cuda_tests::machine::{Machine, Reply, Verdict};
use xlog_cuda_tests::message::note0;
use xlog_cuda_tests::script::{check, fill, skip, sync, Request, Script};

/// Runs every test of a category against a device that refuses whatever it can.
fn run_refusing(mut run: CategoryRun) -> CategoryResult {
    while run.left() > 0 {
        run = run.begin();
        while let Some(request) = run.request() {
            let reply = match request {
                Request::Rows { .. } | Request::RowsKnown { .. } | Request::Several { .. } => {
                    Reply::Count(0)
                }
                Request::Release { .. } => Reply::Done,
                _ => Reply::Failed("no device".to_string()),
            };
            run = run.resume(reply);
        }
        assert!(!run.aborted());
        run = run.conclude(7);
    }
    run.finish(100)
}

#[test]
fn each_test_gets_one_result_in_order() {
    let results = run_refusing(c11_control_flow::run_all());
    assert_eq!(results.name, "c11_control_flow");
    assert_eq!(results.nanos, 100);
    let names: Vec<&str> = results.results.iter().map(|r| r.name).collect();
    assert_eq!(
        names,
        vec![
            "test_filter_all_pass",
            "test_filter_none_pass",
            "test_filter_half_pass",
            "test_sparse_predicate",
            "test_dense_predicate",
            "test_alternating_predicate",
            "test_random_predicate_distribution",
        ]
    );
    assert!(results.results.iter().all(|r| r.nanos == 7));
    assert!(results.results.iter().all(|r| matches!(r.verdict, Verdict::Failed(_))));
}

#[test]
fn five_tests_make_the_warp_category() {
    let results = run_refusing(c09_warp_level::run_all());
    assert_eq!(results.results.len(), 5);
    assert_eq!(results.results[0].name, "test_warp_size_operations");
}

#[test]
fn a_test_that_is_given_up_takes_no_time() {
    let script = Script::new("skipped", vec![skip(num(1), "no reason")]);
    let mut run = CategoryRun::new("category", vec![script]);
    assert_eq!(run.left(), 1);
    assert!(run.request().is_none());
    run = run.begin();
    assert_eq!(run.left(), 0);
    run = run.conclude(50);
    let results = run.finish(60);
    assert_eq!(results.results, vec![TestResult::skipped("skipped", "no reason")]);
    assert_eq!(results.results[0].nanos, 0);
}

#[test]
fn a_script_without_steps_passes() {
    let machine = Machine::start(Script::new("nothing", Vec::new()));
    assert!(machine.request().is_none());
    assert_eq!(machine.name(), "nothing");
    assert_eq!(machine.verdict(), Some(Verdict::Passed));
}

#[test]
fn a_place_past_the_end_aborts() {
    let steps = vec![fill(0, num(2), num(5)), check(at(0, num(2)), note0("never"))];
    let machine = Machine::start(Script::new("aborting", steps));
    assert!(machine.aborted());
    assert_eq!(machine.verdict(), Some(Verdict::Aborted));
}

#[test]
fn an_end_is_final() {
    let steps = vec![sync(note0("first: {}")), sync(note0("second: {}"))];
    let mut machine = Machine::start(Script::new("ending", steps));
    machine = machine.resume(Reply::Failed("stop".to_string()));
    assert!(machine.request().is_none());
    match machine.verdict() {
        Some(Verdict::Failed(message)) => assert_eq!(message.render(&Vec::new()), "first: stop"),
        other => panic!("{:?}", other),
    }
}

#[test]
fn columns_can_be_seen_while_a_test_runs() {
    let steps = vec![fill(3, num(2), num(9)), sync(note0("{}"))];
    let mut run = CategoryRun::new("category", vec![Script::new("filling", steps)]);
    assert!(run.column(3).is_none());
    run = run.begin();
    assert_eq!(run.column(3), Some(&vec![9, 9]));
    assert_eq!(run.column(15), Some(&Vec::new()));
    assert_eq!(run.column(16), None);
    assert!(run.text(0).is_none());
}

#[test]
fn results_are_collected() {
    let mut category = CategoryResult::new("category");
    category.add_result(TestResult::passed("one", 3));
    category.add_result(TestResult::skipped("two", "why"));
    category.set_duration(11);
    assert_eq!(category.results.len(), 2);
    assert_eq!(category.results[0].verdict, Verdict::Passed);
    assert_eq!(category.nanos, 11);
}

#[test]
fn only_the_enumeration_is_given_up_without_devices() {
    let mut run = c20_multi_gpu::run_all();
    let mut skipped = Vec::new();
    while run.left() > 0 {
        run = run.begin();
        while let Some(request) = run.request() {
            let reply = match request {
                Request::Devices { .. } | Request::Rows { .. } | Request::Several { .. } => {
                    Reply::Count(0)
                }
                Request::Release { .. } => Reply::Done,
                _ => Reply::Failed("no device".to_string()),
            };
            run = run.resume(reply);
        }
        run = run.conclude(1);
    }
    for result in run.finish(2).results {
        if let Verdict::Skipped(reason) = result.verdict {
            skipped.push((result.name, reason));
        }
    }
    assert_eq!(skipped, vec![("test_device_enumeration", "No CUDA devices available")]);
}
