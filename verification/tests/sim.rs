use chipsmith::error::ChipsmithError;
use chipsmith::ghdl::{analyse_args, commands, elaborate_args, not_found, run_args, PROGRAM};
use chipsmith::process::{Capture, ProcessOutcome};
use chipsmith::sim::{
    select_testbenches, SimCommands, SimExecution, SimPlan, SimStep, StepRef, TestReport, TestResult, TestVerdict,
    TestbenchRun, VhdlStandard,
};

fn strings(v: &[&str]) -> Vec<String> {
    v.iter().map(|s| s.to_string()).collect()
}

#[test]
fn analysis_reads_every_source_in_the_order_it_was_given() {
    let sources = strings(&["/p/src/blinky.vhd", "/p/tb/blinky_tb.vhd"]);
    assert_eq!(
        analyse_args(VhdlStandard::Vhdl2008, &sources),
        strings(&["-a", "--std=08", "--workdir=.", "/p/src/blinky.vhd", "/p/tb/blinky_tb.vhd"])
    );
}

#[test]
fn the_manifests_vhdl_standard_reaches_the_simulator() {
    for (standard, flag) in [
        (VhdlStandard::Vhdl1987, "--std=87"),
        (VhdlStandard::Vhdl1993, "--std=93"),
        (VhdlStandard::Vhdl2008, "--std=08"),
    ] {
        assert!(run_args(standard, "tb").contains(&flag.to_string()));
    }
}

#[test]
fn a_run_fails_the_process_when_an_assertion_fails() {
    assert!(run_args(VhdlStandard::Vhdl2008, "blinky_tb")
        .contains(&"--assert-level=error".to_string()));
}

#[test]
fn elaboration_names_the_testbench_entity() {
    assert_eq!(
        elaborate_args(VhdlStandard::Vhdl2008, "blinky_tb"),
        strings(&["-e", "--std=08", "--workdir=.", "blinky_tb"])
    );
}

#[test]
fn a_missing_ghdl_says_how_to_get_one() {
    let message = not_found().message();
    assert!(message.contains("ghdl"), "{message}");
    assert!(message.contains("nixpkgs#ghdl"), "{message}");
    assert_eq!(PROGRAM, "ghdl");
}

fn plan() -> SimPlan {
    SimPlan::new(
        "/proj",
        VhdlStandard::Vhdl2008,
        strings(&["/proj/src/blinky.vhd"]),
        &strings(&["a_tb", "b_tb"]),
        None,
    )
    .unwrap()
}

#[test]
fn the_work_directory_sits_beside_the_build_directory() {
    let plan = plan();
    assert_eq!(plan.work_dir(), "/proj/build/sim");
    assert_eq!(plan.standard(), VhdlStandard::Vhdl2008);
    assert_eq!(plan.sources(), &strings(&["/proj/src/blinky.vhd"]));
    assert_eq!(plan.testbenches(), &strings(&["a_tb", "b_tb"]));
}

#[test]
fn only_narrows_the_run_to_one_declared_testbench() {
    let testbenches = strings(&["a_tb", "b_tb"]);
    let plan = SimPlan::new("/proj", VhdlStandard::Vhdl1993, vec![], &testbenches, Some("b_tb"))
        .unwrap();
    assert_eq!(plan.testbenches(), &strings(&["b_tb"]));
}

#[test]
fn an_undeclared_testbench_is_caught_before_anything_spawns() {
    let testbenches = strings(&["a_tb", "b_tb"]);
    let err = SimPlan::new("/proj", VhdlStandard::Vhdl1993, vec![], &testbenches, Some("c_tb"))
        .unwrap_err();
    match &err {
        ChipsmithError::UnknownTestbench { name, available } => {
            assert_eq!(name, "c_tb");
            assert_eq!(available, &testbenches);
        }
        other => panic!("unexpected error {other:?}"),
    }
    let message = err.message();
    assert!(message.contains("c_tb"), "{message}");
    assert!(message.contains("a_tb"), "{message}");
}

#[test]
fn every_step_runs_in_the_work_directory_with_stderr_teed() {
    let plan = plan();
    let step = SimStep::new("run a".to_string(), "/bin/sim".to_string(), strings(&["-r", "a"]));
    let spec = plan.step_spec(&step);
    assert_eq!(spec.program, "/bin/sim");
    assert_eq!(spec.args, strings(&["-r", "a"]));
    assert_eq!(spec.working_dir.as_deref(), Some("/proj/build/sim"));
    assert_eq!(spec.capture, Capture::Tee);
    assert!(spec.env.is_empty());
    assert_eq!(step.command_line(), "/bin/sim -r a");
}

#[test]
fn ghdl_analyses_once_then_elaborates_and_runs_each_testbench() {
    let plan = plan();
    let c = commands("/usr/bin/ghdl", &plan);
    assert!(c.files.is_empty());
    assert_eq!(c.setup.len(), 1);
    assert_eq!(c.setup[0].label, "Analysing 1 source(s)");
    assert_eq!(c.setup[0].program, "/usr/bin/ghdl");
    assert_eq!(
        c.setup[0].args,
        strings(&["-a", "--std=08", "--workdir=.", "/proj/src/blinky.vhd"])
    );
    assert_eq!(c.runs.len(), 2);
    assert_eq!(c.runs[0].testbench, "a_tb");
    assert_eq!(c.runs[1].testbench, "b_tb");
    let labels: Vec<&str> = c.runs[1].steps.iter().map(|s| s.label.as_str()).collect();
    assert_eq!(labels, vec!["Elaborating b_tb", "Running b_tb"]);
    assert_eq!(
        c.runs[1].steps[1].args,
        strings(&["-r", "--std=08", "--workdir=.", "b_tb", "--assert-level=error"])
    );
}

fn step(label: &str) -> SimStep {
    SimStep::new(label.to_string(), "/bin/sim".to_string(), vec![label.to_string()])
}

fn two_testbenches() -> SimCommands {
    SimCommands {
        files: Vec::new(),
        setup: vec![step("analyse")],
        runs: vec![
            TestbenchRun {
                testbench: "a_tb".to_string(),
                steps: vec![step("elaborate a"), step("run a")],
            },
            TestbenchRun {
                testbench: "b_tb".to_string(),
                steps: vec![step("elaborate b"), step("run b")],
            },
        ],
    }
}

fn ok() -> ProcessOutcome {
    ProcessOutcome { code: Some(0), stdout: vec![], stderr_tail: None }
}

fn failing(code: i32, stderr: &str) -> ProcessOutcome {
    ProcessOutcome { code: Some(code), stdout: vec![], stderr_tail: Some(stderr.to_string()) }
}

/// Drive a run to the end, answering each step from `replies` and then with
/// success; returns the labels of the steps that ran and the outcome.
fn drive(
    commands: &SimCommands,
    replies: Vec<ProcessOutcome>,
) -> (Vec<String>, Result<TestReport, ChipsmithError>) {
    let mut replies = replies.into_iter();
    let mut ran = Vec::new();
    let mut exec = SimExecution::new();
    while let Some(r) = exec.next_step(commands) {
        ran.push(commands.step(r).label.clone());
        let outcome = replies.next().unwrap_or_else(ok);
        if let Err(e) = exec.record(commands, outcome) {
            return (ran, Err(e));
        }
    }
    (ran, Ok(exec.finish("ghdl")))
}

#[test]
fn every_testbench_reports_a_verdict_when_all_steps_succeed() {
    let (ran, report) = drive(&two_testbenches(), vec![]);
    let report = report.unwrap();
    assert_eq!(ran, strings(&["analyse", "elaborate a", "run a", "elaborate b", "run b"]));
    assert_eq!(report.simulator, "ghdl");
    assert!(report.passed());
    let names: Vec<&str> = report.results.iter().map(|r| r.testbench.as_str()).collect();
    assert_eq!(names, vec!["a_tb", "b_tb"]);
    assert!(report.failures().is_empty());
}

#[test]
fn a_failing_testbench_is_a_verdict_and_the_next_still_runs() {
    let (ran, report) = drive(
        &two_testbenches(),
        vec![ok(), ok(), failing(1, "assertion failed: led stuck")],
    );
    let report = report.unwrap();
    assert_eq!(ran.len(), 5);
    assert!(!report.passed());
    assert_eq!(report.results.len(), 2, "b_tb still ran");
    match &report.results[0].verdict {
        TestVerdict::Failed { detail } => {
            assert_eq!(detail.as_deref(), Some("assertion failed: led stuck"))
        }
        TestVerdict::Passed => panic!("a_tb should have failed"),
    }
    assert!(report.results[1].passed());
    let failures = report.failures();
    assert_eq!(failures.len(), 1);
    assert_eq!(failures[0].testbench, "a_tb");
}

#[test]
fn a_testbench_that_will_not_elaborate_is_not_run() {
    let (ran, report) = drive(&two_testbenches(), vec![ok(), failing(1, "entity not found")]);
    assert!(!ran.iter().any(|l| l == "run a"), "{ran:?}");
    let report = report.unwrap();
    assert!(!report.results[0].passed());
    assert!(report.results[1].passed());
}

#[test]
fn a_setup_failure_is_an_error_rather_than_a_verdict() {
    let (ran, report) =
        drive(&two_testbenches(), vec![failing(1, "blinky.vhd:14: syntax error")]);
    assert_eq!(ran, strings(&["analyse"]));
    let err = report.unwrap_err();
    match &err {
        ChipsmithError::ProcessFailed { command, code, .. } => {
            assert_eq!(command, "/bin/sim analyse");
            assert_eq!(*code, Some(1));
        }
        other => panic!("unexpected error {other:?}"),
    }
    assert!(err.message().contains("syntax error"));
}

#[test]
fn a_process_killed_by_a_signal_is_a_failure() {
    let killed = ProcessOutcome { code: None, stdout: vec![], stderr_tail: None };
    let (_, report) = drive(&two_testbenches(), vec![ok(), ok(), killed]);
    let report = report.unwrap();
    match &report.results[0].verdict {
        TestVerdict::Failed { detail } => assert!(detail.is_none()),
        TestVerdict::Passed => panic!("a_tb should have failed"),
    }
}

#[test]
fn a_step_reference_names_the_step_it_points_at() {
    let c = two_testbenches();
    assert_eq!(c.step(StepRef::Setup(0)).label, "analyse");
    assert_eq!(c.step(StepRef::Run(1, 0)).label, "elaborate b");
}

#[test]
fn a_report_passes_only_if_every_verdict_did() {
    let report = TestReport {
        simulator: "ghdl".to_string(),
        results: vec![
            TestResult { testbench: "a".to_string(), verdict: TestVerdict::Passed },
            TestResult {
                testbench: "b".to_string(),
                verdict: TestVerdict::Failed { detail: None },
            },
        ],
    };
    assert!(!report.passed());
    let empty = TestReport { simulator: "ghdl".to_string(), results: vec![] };
    assert!(empty.passed());
}

#[test]
fn a_manifests_hdl_standard_names_a_vhdl_revision() {
    assert_eq!(VhdlStandard::from_quartus_name("VHDL_2008"), Some(VhdlStandard::Vhdl2008));
    assert_eq!(VhdlStandard::from_quartus_name("VHDL_1993"), Some(VhdlStandard::Vhdl1993));
    assert_eq!(VhdlStandard::from_quartus_name("VHDL_1987"), Some(VhdlStandard::Vhdl1987));
    assert_eq!(VhdlStandard::from_quartus_name("VERILOG_2001"), None);
}

#[test]
fn a_mistyped_testbench_is_caught_whatever_else_is_wrong() {
    let tbs = strings(&["a_tb", "b_tb"]);
    assert_eq!(select_testbenches(&tbs, None).unwrap(), tbs);
    assert_eq!(select_testbenches(&tbs, Some("a_tb")).unwrap(), strings(&["a_tb"]));
    assert!(matches!(
        select_testbenches(&tbs, Some("z_tb")),
        Err(ChipsmithError::UnknownTestbench { .. })
    ));
}

#[test]
fn a_simulator_can_dress_every_spec_before_it_is_spawned() {
    let plan = plan();
    let step = SimStep::new("run a".to_string(), "/q/vsim".to_string(), strings(&["-c", "a_tb"]));
    let plain = plan.dressed_step_spec(&step, None);
    assert_eq!(plain.command_line(), "/q/vsim -c a_tb");
    assert!(plain.env.is_empty());
    let compat = chipsmith::nixos::NixCompat {
        ld_library_path: "/nix/lib".to_string(),
        strategy: chipsmith::product::SpawnStrategy::PatchElf,
        bash_path: "/nix/bash".to_string(),
        patchelf_bin: "/nix/patchelf".to_string(),
        dynamic_linker: "/nix/ld".to_string(),
        dynamic_linker_32: None,
        bwrap_bin: None,
    };
    let dressed = plan.dressed_step_spec(&step, Some(&compat));
    assert_eq!(dressed.env, vec![("LD_LIBRARY_PATH".to_string(), "/nix/lib".to_string())]);
    assert_eq!(dressed.working_dir.as_deref(), Some("/proj/build/sim"));
    assert_eq!(dressed.capture, Capture::Tee);
}

#[test]
fn each_testbench_takes_the_outcomes_of_its_own_steps_in_order() {
    // analyse; a_tb elaborates and fails to run; b_tb fails to elaborate.
    let (ran, report) = drive(
        &two_testbenches(),
        vec![ok(), ok(), failing(1, "a: assertion"), failing(2, "b: no entity")],
    );
    assert_eq!(ran, strings(&["analyse", "elaborate a", "run a", "elaborate b"]));
    let report = report.unwrap();
    let details: Vec<Option<&str>> = report
        .results
        .iter()
        .map(|r| match &r.verdict {
            TestVerdict::Passed => None,
            TestVerdict::Failed { detail } => detail.as_deref(),
        })
        .collect();
    assert_eq!(details, vec![Some("a: assertion"), Some("b: no entity")]);
}
