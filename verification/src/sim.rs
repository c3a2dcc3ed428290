//! Running a Project's Testbenches: what a run needs, what a Simulator asks
//! to be run, and how exit statuses become Test Verdicts.
//!
//! Both Simulators analyse a pile of VHDL into a work library, elaborate one
//! Testbench entity, run it, and exit non-zero if an assertion failed. Which
//! step runs next and what each outcome means is decided here, one outcome
//! at a time, by `SimExecution`; spawning the steps is the caller's part.

use vstd::prelude::*;

use crate::error::ChipsmithError;
use crate::path::{join, path_join};
use crate::nixos::{dress, env_views, for_host, opt_compat, NixCompat};
use crate::process::{argv, Capture, ProcessOutcome, ProcessSpec};
use crate::text::{opt_view, owned, str_eq, views};

verus! {

/// A VHDL language revision.
#[derive(Debug, Clone, Copy, PartialEq, Eq, Structural)]
pub enum VhdlStandard {
    Vhdl1987,
    Vhdl1993,
    Vhdl2008,
}

impl VhdlStandard {
    pub open spec fn ghdl_std_spec(self) -> Seq<char> {
        match self {
            VhdlStandard::Vhdl1987 => "87"@,
            VhdlStandard::Vhdl1993 => "93"@,
            VhdlStandard::Vhdl2008 => "08"@,
        }
    }

    /// How Quartus, and so a Manifest's `hdl.standard`, names the revision.
    pub open spec fn quartus_name_spec(self) -> Seq<char> {
        match self {
            VhdlStandard::Vhdl1987 => "VHDL_1987"@,
            VhdlStandard::Vhdl1993 => "VHDL_1993"@,
            VhdlStandard::Vhdl2008 => "VHDL_2008"@,
        }
    }

    /// The revision a Manifest's `hdl.standard` names, if it names one.
    pub fn from_quartus_name(name: &str) -> (res: Option<VhdlStandard>)
        ensures
            match res {
                Some(s) => s.quartus_name_spec() == name@,
                None => name@ != "VHDL_1987"@ && name@ != "VHDL_1993"@ && name@ != "VHDL_2008"@,
            },
    {
        if str_eq(name, "VHDL_1987") {
            Some(VhdlStandard::Vhdl1987)
        } else if str_eq(name, "VHDL_1993") {
            Some(VhdlStandard::Vhdl1993)
        } else if str_eq(name, "VHDL_2008") {
            Some(VhdlStandard::Vhdl2008)
        } else {
            None
        }
    }

    /// How GHDL's `--std=` names the revision.
    pub fn ghdl_std(self) -> (res: &'static str)
        ensures
            res@ == self.ghdl_std_spec(),
    {
        match self {
            VhdlStandard::Vhdl1987 => "87",
            VhdlStandard::Vhdl1993 => "93",
            VhdlStandard::Vhdl2008 => "08",
        }
    }
}

/// The Testbenches a run covers: all that are declared, or only the one
/// named — which has to be declared. Checked before anything else about a
/// run, so a mistyped name is reported as such.
pub fn select_testbenches(testbenches: &Vec<String>, only: Option<&str>) -> (res: Result<
    Vec<String>,
    ChipsmithError,
>)
    ensures
        match res {
            Ok(v) => {
                &&& views(v@) == match only {
                    None => views(testbenches@),
                    Some(name) => seq![name@],
                }
                &&& only matches Some(name) ==> views(testbenches@).contains(name@)
            },
            Err(e) => {
                &&& only matches Some(name) && !views(testbenches@).contains(name@)
                &&& e matches ChipsmithError::UnknownTestbench { name, available }
                &&& name@ == only->0@
                &&& views(available@) == views(testbenches@)
            },
        },
{
    match only {
        None => Ok(testbenches.clone()),
        Some(name) => {
            let mut found = false;
            let mut i: usize = 0;
            while i < testbenches.len()
                invariant
                    i <= testbenches@.len(),
                    found ==> views(testbenches@).contains(name@),
                    !found ==> forall|j: int| 0 <= j < i ==> views(testbenches@)[j] != name@,
                decreases testbenches@.len() - i,
            {
                if str_eq(testbenches[i].as_str(), name) {
                    assert(views(testbenches@)[i as int] == name@);
                    found = true;
                }
                i = i + 1;
            }
            if !found {
                return Err(ChipsmithError::UnknownTestbench {
                    name: owned(name),
                    available: testbenches.clone(),
                });
            }
            let mut v: Vec<String> = Vec::new();
            v.push(owned(name));
            assert(views(v@) =~= seq![name@]);
            Ok(v)
        },
    }
}

/// Everything a Simulator needs in order to run, and nothing about any
/// particular one.
#[derive(Debug, Clone)]
pub struct SimPlan {
    work_dir: String,
    standard: VhdlStandard,
    sources: Vec<String>,
    testbenches: Vec<String>,
}

impl SimPlan {
    pub closed spec fn work_dir_spec(&self) -> Seq<char> {
        self.work_dir@
    }

    pub closed spec fn standard_spec(&self) -> VhdlStandard {
        self.standard
    }

    pub closed spec fn sources_spec(&self) -> Seq<Seq<char>> {
        views(self.sources@)
    }

    pub closed spec fn testbenches_spec(&self) -> Seq<Seq<char>> {
        views(self.testbenches@)
    }

    /// Resolve what a `chipsmith test` run consists of. `only` narrows the
    /// run to one Testbench, and is checked here rather than by the
    /// Simulator: a name that is not declared is a mistake worth catching
    /// before anything spawns.
    pub fn new(
        project_dir: &str,
        standard: VhdlStandard,
        sources: Vec<String>,
        testbenches: &Vec<String>,
        only: Option<&str>,
    ) -> (res: Result<Self, ChipsmithError>)
        ensures
            match res {
                Ok(plan) => {
                    // Alongside the Build Directory and disposable for the
                    // same reason: it holds a work library, not source.
                    &&& plan.work_dir_spec() == path_join(path_join(project_dir@, "build"@), "sim"@)
                    &&& plan.standard_spec() == standard
                    &&& plan.sources_spec() == views(sources@)
                    &&& plan.testbenches_spec() == match only {
                        None => views(testbenches@),
                        Some(name) => seq![name@],
                    }
                    &&& only matches Some(name) ==> views(testbenches@).contains(name@)
                },
                Err(e) => {
                    &&& only matches Some(name) && !views(testbenches@).contains(name@)
                    &&& e matches ChipsmithError::UnknownTestbench { name, available }
                    &&& name@ == only->0@
                    &&& views(available@) == views(testbenches@)
                },
            },
    {
        let selected = match select_testbenches(testbenches, only) {
            Ok(v) => v,
            Err(e) => return Err(e),
        };
        let b = join(project_dir, "build");
        Ok(SimPlan { work_dir: join(b.as_str(), "sim"), standard, sources, testbenches: selected })
    }

    /// The work library directory. Every Simulator runs with this as its
    /// working directory, so nothing it scatters lands in the Project.
    pub fn work_dir(&self) -> (res: &str)
        ensures
            res@ == self.work_dir_spec(),
    {
        self.work_dir.as_str()
    }

    pub fn standard(&self) -> (res: VhdlStandard)
        ensures
            res == self.standard_spec(),
    {
        self.standard
    }

    pub fn sources(&self) -> (res: &Vec<String>)
        ensures
            views(res@) == self.sources_spec(),
    {
        &self.sources
    }

    pub fn testbenches(&self) -> (res: &Vec<String>)
        ensures
            views(res@) == self.testbenches_spec(),
    {
        &self.testbenches
    }

    /// How one step is spawned: in the work directory, with stderr teed — a
    /// simulation prints its reports as it goes and the user wants to watch,
    /// but a failure has to explain itself after.
    pub fn step_spec(&self, step: &SimStep) -> (res: ProcessSpec)
        ensures
            res.program@ == step.program@,
            views(res.args@) == views(step.args@),
            res.env@.len() == 0,
            res.working_dir matches Some(d) && d@ == self.work_dir_spec(),
            res.capture == Capture::Tee,
    {
        ProcessSpec::new(step.program.clone())
            .args(step.args.clone())
            .current_dir(owned(self.work_dir.as_str()))
            .capture(Capture::Tee)
    }

    /// `step_spec` dressed for this host: the seam through which a
    /// Simulator's vendor binaries get the same Nix Compat treatment as every
    /// other — sandboxed when the Spawn Strategy calls for it, with the
    /// resolved library path. Off NixOS (`None`) it is `step_spec` itself.
    pub fn dressed_step_spec(&self, step: &SimStep, compat: Option<&NixCompat>) -> (res: ProcessSpec)
        ensures
            exists|home: Seq<char>|
                argv(res) == #[trigger] dress(
                    seq![step.program@] + views(step.args@),
                    opt_compat(compat),
                    home,
                ),
            env_views(res.env@) == match compat {
                Some(c) => seq![("LD_LIBRARY_PATH"@, c.ld_library_path@)],
                None => Seq::<(Seq<char>, Seq<char>)>::empty(),
            },
            res.working_dir matches Some(d) && d@ == self.work_dir_spec(),
            res.capture == Capture::Tee,
    {
        let spec = self.step_spec(step);
        assert(argv(spec) =~= seq![step.program@] + views(step.args@));
        assert(env_views(spec.env@) =~= Seq::<(Seq<char>, Seq<char>)>::empty());
        let res = for_host(spec, compat);
        assert(env_views(res.env@) =~= match compat {
            Some(c) => seq![("LD_LIBRARY_PATH"@, c.ld_library_path@)],
            None => Seq::<(Seq<char>, Seq<char>)>::empty(),
        });
        res
    }
}

/// A file a Simulator needs sitting in the work directory before it runs.
#[derive(Debug, Clone)]
pub struct SimFile {
    pub name: String,
    pub contents: String,
}

/// One invocation, with a label for whoever is reading the output.
#[derive(Debug, Clone)]
pub struct SimStep {
    pub label: String,
    pub program: String,
    pub args: Vec<String>,
}

impl SimStep {
    pub fn new(label: String, program: String, args: Vec<String>) -> (res: Self)
        ensures
            res.label == label,
            res.program == program,
            res.args == args,
    {
        SimStep { label, program, args }
    }

    /// The command as a human would have typed it.
    pub fn command_line(&self) -> (res: String)
        ensures
            res@ == crate::text::join(seq![self.program@] + views(self.args@), " "@),
    {
        let spec = ProcessSpec::new(self.program.clone()).args(self.args.clone());
        let res = spec.command_line();
        assert(crate::process::argv(spec) =~= seq![self.program@] + views(self.args@));
        res
    }
}

/// One Testbench's invocations. They run in order and stop at the first
/// failure, because a Testbench that would not elaborate cannot be run.
#[derive(Debug, Clone)]
pub struct TestbenchRun {
    pub testbench: String,
    pub steps: Vec<SimStep>,
}

/// What a Simulator decided to do.
#[derive(Debug, Clone)]
pub struct SimCommands {
    pub files: Vec<SimFile>,
    /// Runs once. Failing here is an error, not a verdict — nothing got far
    /// enough to have one.
    pub setup: Vec<SimStep>,
    pub runs: Vec<TestbenchRun>,
}

#[derive(Debug, Clone)]
pub enum TestVerdict {
    Passed,
    /// What the Simulator said before it gave up, when it said anything.
    Failed { detail: Option<String> },
}

#[derive(Debug, Clone)]
pub struct TestResult {
    pub testbench: String,
    pub verdict: TestVerdict,
}

impl TestResult {
    pub fn passed(&self) -> (res: bool)
        ensures
            res == (self.verdict is Passed),
    {
        match self.verdict {
            TestVerdict::Passed => true,
            TestVerdict::Failed { .. } => false,
        }
    }
}

/// What a finished `chipsmith test` yields: every Test Verdict, and the name
/// of the Simulator that produced them. The caller decides the exit code.
#[derive(Debug, Clone)]
pub struct TestReport {
    pub simulator: String,
    pub results: Vec<TestResult>,
}

pub open spec fn result_failed(r: TestResult) -> bool {
    !(r.verdict is Passed)
}

impl TestReport {
    /// A run passes only if every Verdict did.
    pub fn passed(&self) -> (res: bool)
        ensures
            res == forall|i: int| 0 <= i < self.results@.len() ==> #[trigger] self.results@[i].verdict is Passed,
    {
        let mut i: usize = 0;
        while i < self.results.len()
            invariant
                i <= self.results@.len(),
                forall|j: int| 0 <= j < i ==> #[trigger] self.results@[j].verdict is Passed,
            decreases self.results@.len() - i,
        {
            if !self.results[i].passed() {
                return false;
            }
            i = i + 1;
        }
        true
    }

    /// The Verdicts that did not pass, in order.
    pub fn failures(&self) -> (res: Vec<&TestResult>)
        ensures
            res@.map_values(|r: &TestResult| *r) == self.results@.filter(|r: TestResult| result_failed(r)),
    {
        let mut out: Vec<&TestResult> = Vec::new();
        let mut i: usize = 0;
        while i < self.results.len()
            invariant
                i <= self.results@.len(),
                out@.map_values(|r: &TestResult| *r) == self.results@.subrange(0, i as int).filter(
                    |r: TestResult| result_failed(r),
                ),
            decreases self.results@.len() - i,
        {
            let ghost before = out@.map_values(|r: &TestResult| *r);
            reveal_with_fuel(Seq::<_>::filter, 1);
            assert(self.results@.subrange(0, i + 1).drop_last() =~= self.results@.subrange(0, i as int));
            if !self.results[i].passed() {
                out.push(&self.results[i]);
                assert(out@.map_values(|r: &TestResult| *r) =~= before.push(self.results@[i as int]));
            } else {
                assert(out@.map_values(|r: &TestResult| *r) =~= before);
            }
            i = i + 1;
        }
        assert(self.results@.subrange(0, i as int) =~= self.results@);
        out
    }
}

/// A run passes exactly when it has no failures.
pub proof fn law_passed_iff_no_failures(results: Seq<TestResult>)
    ensures
        (forall|i: int| 0 <= i < results.len() ==> #[trigger] results[i].verdict is Passed) == (
        results.filter(|r: TestResult| result_failed(r)).len() == 0),
    decreases results.len(),
{
    reveal_with_fuel(Seq::<_>::filter, 1);
    if results.len() > 0 {
        let init = results.drop_last();
        law_passed_iff_no_failures(init);
        if result_failed(results.last()) {
            assert(!(results[results.len() - 1].verdict is Passed));
        } else {
            if forall|i: int| 0 <= i < init.len() ==> #[trigger] init[i].verdict is Passed {
                assert forall|i: int| 0 <= i < results.len() implies #[trigger] results[i].verdict is Passed by {
                    if i < init.len() {
                        assert(init[i] == results[i]);
                    }
                }
            } else {
                let j = choose|j: int| 0 <= j < init.len() && !(#[trigger] init[j].verdict is Passed);
                assert(init[j] == results[j]);
            }
        }
    }
}

/// A step of a run: one of the setup steps, or step `s` of Testbench run `r`.
#[derive(Debug, Clone, Copy, PartialEq, Eq, Structural)]
pub enum StepRef {
    Setup(usize),
    Run(usize, usize),
}

impl SimCommands {
    /// The step a reference names.
    pub fn step(&self, r: StepRef) -> (res: &SimStep)
        requires
            match r {
                StepRef::Setup(i) => i < self.setup@.len(),
                StepRef::Run(k, s) => k < self.runs@.len() && s < self.runs@[k as int].steps@.len(),
            },
        ensures
            *res == match r {
                StepRef::Setup(i) => self.setup@[i as int],
                StepRef::Run(k, s) => self.runs@[k as int].steps@[s as int],
            },
    {
        match r {
            StepRef::Setup(i) => &self.setup[i],
            StepRef::Run(k, s) => &self.runs[k].steps[s],
        }
    }
}

/// Where a run has got to: how many setup steps succeeded, which Testbench
/// is running and which of its steps is next, and the Verdicts so far — one
/// per finished Testbench, in order.
pub struct SimExecution {
    pub setup_done: usize,
    pub run: usize,
    pub step: usize,
    pub results: Vec<TestResult>,
}

/// Where a run goes on from step `step` of Testbench `run`: past every
/// Testbench whose steps have all run, to the first step still to run.
pub open spec fn settle(c: SimCommands, run: int, step: int) -> (int, int)
    decreases c.runs@.len() - run,
{
    if 0 <= run < c.runs@.len() && step >= c.runs@[run].steps@.len() {
        settle(c, run + 1, 0)
    } else {
        (run, step)
    }
}

/// A Testbench's verdict, named after it.
pub open spec fn verdict_for(run: TestbenchRun, verdict: TestVerdict) -> TestResult {
    TestResult { testbench: run.testbench, verdict }
}

/// A run's progress as a value: setup steps done, the Testbench running, its
/// next step, and the Verdicts so far.
pub type ExecModel = (int, int, int, Seq<TestResult>);

/// Passed Verdicts for Testbenches `from` up to `to`.
pub open spec fn passes(c: SimCommands, from: int, to: int) -> Seq<TestResult> {
    Seq::new((to - from) as nat, |i: int| verdict_for(c.runs@[from + i], TestVerdict::Passed))
}

/// What `next_step` does to a run: once setup is done, move past every
/// Testbench whose steps have all succeeded, passing each.
pub open spec fn model_next(c: SimCommands, m: ExecModel) -> ExecModel {
    if m.0 < c.setup@.len() {
        m
    } else {
        let (r, s) = settle(c, m.1, m.2);
        (m.0, r, s, m.3 + passes(c, m.1, r))
    }
}

/// Whether a run has a step still to run.
pub open spec fn model_pending(c: SimCommands, m: ExecModel) -> bool {
    m.0 < c.setup@.len() || (0 <= m.1 < c.runs@.len() && m.2 < c.runs@[m.1].steps@.len())
}

/// What `record` does to a run with a step pending; `None` when a setup step
/// failed, which ends the run without Verdicts.
pub open spec fn model_record(c: SimCommands, m: ExecModel, o: ProcessOutcome) -> Option<ExecModel> {
    if m.0 < c.setup@.len() {
        if o.code == Some(0i32) {
            Some((m.0 + 1, m.1, m.2, m.3))
        } else {
            None
        }
    } else if o.code == Some(0i32) {
        Some((m.0, m.1, m.2 + 1, m.3))
    } else {
        Some((m.0, m.1 + 1, 0, m.3.push(verdict_for(c.runs@[m.1], TestVerdict::Failed { detail: o.stderr_tail }))))
    }
}

/// A run driven by a sequence of outcomes, one per step run: where it stands
/// when no step is left or the outcomes run out, or `None` if setup failed.
pub open spec fn model_drive(c: SimCommands, m: ExecModel, outs: Seq<ProcessOutcome>) -> Option<ExecModel>
    decreases outs.len(),
{
    let n = model_next(c, m);
    if !model_pending(c, n) || outs.len() == 0 {
        Some(n)
    } else {
        match model_record(c, n, outs[0]) {
            None => None,
            Some(m2) => model_drive(c, m2, outs.drop_first()),
        }
    }
}

/// Where `settle` lands: no earlier than it started, within the runs, and
/// on a step still to run unless every Testbench is done.
proof fn lemma_settle(c: SimCommands, run: int, step: int)
    requires
        0 <= run <= c.runs@.len(),
        0 <= step,
    ensures
        run <= settle(c, run, step).0 <= c.runs@.len(),
        0 <= settle(c, run, step).1,
        settle(c, run, step).0 < c.runs@.len() ==> settle(c, run, step).1 < c.runs@[settle(
            c,
            run,
            step,
        ).0].steps@.len(),
    decreases c.runs@.len() - run,
{
    if 0 <= run < c.runs@.len() && step >= c.runs@[run].steps@.len() {
        lemma_settle(c, run + 1, 0);
    }
}

/// The Verdicts of a run name its first `m.1` Testbenches in order, and
/// are all passes when `all_passed`.
pub open spec fn verdicts_in_order(c: SimCommands, m: ExecModel, all_passed: bool) -> bool {
    &&& 0 <= m.0 <= c.setup@.len()
    &&& 0 <= m.1 <= c.runs@.len()
    &&& 0 <= m.2
    &&& m.3.len() == m.1
    &&& forall|k: int| 0 <= k < m.1 ==> #[trigger] m.3[k].testbench == c.runs@[k].testbench
    &&& all_passed ==> forall|k: int| 0 <= k < m.1 ==> #[trigger] m.3[k].verdict is Passed
}

proof fn lemma_drive_keeps_verdicts_in_order(c: SimCommands, m: ExecModel, outs: Seq<ProcessOutcome>, all_passed: bool)
    requires
        verdicts_in_order(c, m, all_passed),
        all_passed ==> forall|i: int| 0 <= i < outs.len() ==> #[trigger] outs[i].code == Some(0i32),
    ensures
        model_drive(c, m, outs) matches Some(f) ==> verdicts_in_order(c, f, all_passed) && (
        !model_pending(c, f) ==> f.1 == c.runs@.len()),
    decreases outs.len(),
{
    let n = model_next(c, m);
    if m.0 >= c.setup@.len() {
        lemma_settle(c, m.1, m.2);
        let r = settle(c, m.1, m.2).0;
        assert forall|k: int| 0 <= k < n.1 implies #[trigger] n.3[k].testbench == c.runs@[k].testbench
            && (all_passed ==> n.3[k].verdict is Passed) by {
            if k >= m.1 {
                assert(n.3[k] == passes(c, m.1, r)[k - m.1]);
            } else {
                assert(n.3[k] == m.3[k]);
            }
        }
    }
    assert(verdicts_in_order(c, n, all_passed));
    if !model_pending(c, n) || outs.len() == 0 {
    } else {
        match model_record(c, n, outs[0]) {
            None => {},
            Some(m2) => {
                if all_passed {
                    assert(outs[0].code == Some(0i32));
                }
                assert forall|k: int| 0 <= k < m2.1 implies #[trigger] m2.3[k].testbench == c.runs@[k].testbench
                    && (all_passed ==> m2.3[k].verdict is Passed) by {
                    if k < n.1 {
                        assert(m2.3[k] == n.3[k]);
                    }
                }
                assert(verdicts_in_order(c, m2, all_passed));
                assert forall|i: int| 0 <= i < outs.drop_first().len() implies (all_passed ==> #[trigger] outs.drop_first()[i].code == Some(0i32)) by {
                    if all_passed {
                        assert(outs.drop_first()[i] == outs[i + 1]);
                    }
                }
                lemma_drive_keeps_verdicts_in_order(c, m2, outs.drop_first(), all_passed);
            },
        }
    }
}

/// Once setup is done a run can no longer fail: a Testbench that will not
/// elaborate or run has a Verdict, and only sources that will not compile
/// end a run without a report.
pub proof fn law_only_setup_can_fail_a_run(c: SimCommands, m: ExecModel, outs: Seq<ProcessOutcome>)
    requires
        m.0 >= c.setup@.len(),
    ensures
        model_drive(c, m, outs) is Some,
    decreases outs.len(),
{
    let n = model_next(c, m);
    if model_pending(c, n) && outs.len() > 0 {
        let m2 = model_record(c, n, outs[0]);
        law_only_setup_can_fail_a_run(c, m2->0, outs.drop_first());
    }
}

/// A Testbench's Verdict from the outcomes of its steps `s..n`, in order,
/// and how many outcomes that took: the first failure ends it, failed with
/// what that step said; if none fails it passed. (Outcomes that run out
/// before its steps do leave it unfinished; `law_verdicts_follow_the_outcomes`
/// speaks only of runs that got to the end.)
pub open spec fn testbench_verdict(n: int, s: int, outs: Seq<ProcessOutcome>) -> (TestVerdict, int)
    decreases n - s,
{
    if s >= n || outs.len() == 0 {
        (TestVerdict::Passed, 0)
    } else if outs[0].code != Some(0i32) {
        (TestVerdict::Failed { detail: outs[0].stderr_tail }, 1)
    } else {
        let (v, used) = testbench_verdict(n, s + 1, outs.drop_first());
        (v, used + 1)
    }
}

proof fn lemma_verdict_takes_what_there_is(n: int, s: int, outs: Seq<ProcessOutcome>)
    ensures
        0 <= testbench_verdict(n, s, outs).1 <= outs.len(),
    decreases n - s,
{
    if s < n && outs.len() > 0 && outs[0].code == Some(0i32) {
        lemma_verdict_takes_what_there_is(n, s + 1, outs.drop_first());
    }
}

/// The Verdicts of Testbenches `k..` when Testbench `k` is at step `s`:
/// each gets the outcomes of its own steps, in order, one after the other.
pub open spec fn verdicts(c: SimCommands, k: int, s: int, outs: Seq<ProcessOutcome>) -> Seq<TestResult>
    decreases c.runs@.len() - k,
{
    if k < 0 || k >= c.runs@.len() {
        seq![]
    } else {
        let (v, used) = testbench_verdict(c.runs@[k].steps@.len() as int, s, outs);
        seq![verdict_for(c.runs@[k], v)] + verdicts(c, k + 1, 0, outs.skip(used))
    }
}

/// Moving past Testbenches whose steps have all run passes each of them and
/// takes no outcome.
proof fn lemma_settle_verdicts(c: SimCommands, k: int, s: int, outs: Seq<ProcessOutcome>)
    requires
        0 <= k <= c.runs@.len(),
        0 <= s,
    ensures
        verdicts(c, k, s, outs) == passes(c, k, settle(c, k, s).0) + verdicts(
            c,
            settle(c, k, s).0,
            settle(c, k, s).1,
            outs,
        ),
    decreases c.runs@.len() - k,
{
    lemma_settle(c, k, s);
    if k < c.runs@.len() && s >= c.runs@[k].steps@.len() {
        lemma_settle_verdicts(c, k + 1, 0, outs);
        lemma_settle(c, k + 1, 0);
        let r = settle(c, k, s).0;
        assert(outs.skip(0) =~= outs);
        assert(passes(c, k, r) =~= seq![verdict_for(c.runs@[k], TestVerdict::Passed)] + passes(c, k + 1, r));
    } else {
        assert(passes(c, k, k) =~= Seq::<TestResult>::empty());
    }
}

/// Past setup, a run driven to its end adds exactly `verdicts` to what it
/// had.
proof fn lemma_drive_gives_verdicts(c: SimCommands, m: ExecModel, outs: Seq<ProcessOutcome>)
    requires
        m.0 >= c.setup@.len(),
        0 <= m.1 <= c.runs@.len(),
        0 <= m.2,
    ensures
        model_drive(c, m, outs) matches Some(f) ==> !model_pending(c, f) ==> f.3 == m.3 + verdicts(
            c,
            m.1,
            m.2,
            outs,
        ),
    decreases outs.len(),
{
    let n = model_next(c, m);
    lemma_settle(c, m.1, m.2);
    lemma_settle_verdicts(c, m.1, m.2, outs);
    let k = n.1;
    let st = n.2;
    assert(n.3 == m.3 + passes(c, m.1, k));
    if !model_pending(c, n) {
        assert(k == c.runs@.len());
        assert(m.3 + verdicts(c, m.1, m.2, outs) =~= n.3);
    } else if outs.len() == 0 {
    } else {
        let o = outs[0];
        let rest = outs.drop_first();
        let nk = c.runs@[k].steps@.len() as int;
        if o.code == Some(0i32) {
            let m2: ExecModel = (n.0, k, st + 1, n.3);
            assert(model_record(c, n, o) == Some(m2));
            lemma_drive_gives_verdicts(c, m2, rest);
            let (v, u) = testbench_verdict(nk, st + 1, rest);
            lemma_verdict_takes_what_there_is(nk, st + 1, rest);
            assert(testbench_verdict(nk, st, outs) == (v, u + 1));
            assert(outs.skip(u + 1) =~= rest.skip(u));
            assert(verdicts(c, k, st, outs) == verdicts(c, k, st + 1, rest));
            assert(m.3 + verdicts(c, m.1, m.2, outs) =~= n.3 + verdicts(c, k, st + 1, rest));
        } else {
            let failed = verdict_for(c.runs@[k], TestVerdict::Failed { detail: o.stderr_tail });
            let m2: ExecModel = (n.0, k + 1, 0, n.3.push(failed));
            assert(model_record(c, n, o) == Some(m2));
            lemma_drive_gives_verdicts(c, m2, rest);
            assert(outs.skip(1) =~= rest);
            assert(verdicts(c, k, st, outs) == seq![failed] + verdicts(c, k + 1, 0, rest));
            assert(m.3 + verdicts(c, m.1, m.2, outs) =~= n.3.push(failed) + verdicts(c, k + 1, 0, rest));
        }
    }
}

/// While setup is pending, a run driven to its end got there only through
/// successful setup steps, and its Verdicts come from what followed them.
proof fn lemma_drive_through_setup(c: SimCommands, j: int, outs: Seq<ProcessOutcome>)
    requires
        0 <= j <= c.setup@.len(),
    ensures
        model_drive(c, (j, 0, 0, seq![]), outs) matches Some(f) ==> !model_pending(c, f) ==> {
            &&& c.setup@.len() - j <= outs.len()
            &&& forall|i: int| 0 <= i < c.setup@.len() - j ==> #[trigger] outs[i].code == Some(0i32)
            &&& f.3 == verdicts(c, 0, 0, outs.skip(c.setup@.len() - j))
        },
    decreases c.setup@.len() - j,
{
    let m: ExecModel = (j, 0, 0, seq![]);
    if j == c.setup@.len() {
        lemma_drive_gives_verdicts(c, m, outs);
        assert(outs.skip(0) =~= outs);
        assert(Seq::<TestResult>::empty() + verdicts(c, 0, 0, outs) =~= verdicts(c, 0, 0, outs));
    } else if outs.len() > 0 && outs[0].code == Some(0i32) {
        let rest = outs.drop_first();
        assert(model_next(c, m) == m);
        assert(model_record(c, m, outs[0]) == Some((j + 1, 0int, 0int, Seq::<TestResult>::empty())));
        lemma_drive_through_setup(c, j + 1, rest);
        let k = c.setup@.len() - j;
        assert(model_drive(c, m, outs) == model_drive(c, (j + 1, 0, 0, seq![]), rest));
        if model_drive(c, m, outs) matches Some(f) && !model_pending(c, f) {
            assert(outs.skip(k) =~= rest.skip(k - 1));
            assert forall|i: int| 0 <= i < k implies #[trigger] outs[i].code == Some(0i32) by {
                if i > 0 {
                    assert(outs[i] == rest[i - 1]);
                }
            }
        }
    } else {
        assert(model_next(c, m) == m);
    }
}

/// What a run's Verdicts are, given the outcome of every step spawned, in
/// order. A run that got to the end passed every setup step, and then each
/// Testbench, in order, took the outcomes of its own steps up to and
/// including its first failure: passed if none failed, else failed with what
/// that step said. A run whose setup failed ends without Verdicts.
pub proof fn law_verdicts_follow_the_outcomes(c: SimCommands, outs: Seq<ProcessOutcome>)
    ensures
        model_drive(c, (0, 0, 0, seq![]), outs) matches Some(f) ==> !model_pending(c, f) ==> {
            &&& c.setup@.len() <= outs.len()
            &&& forall|i: int| 0 <= i < c.setup@.len() ==> #[trigger] outs[i].code == Some(0i32)
            &&& f.3 == verdicts(c, 0, 0, outs.skip(c.setup@.len() as int))
        },
{
    lemma_drive_through_setup(c, 0, outs);
}

/// A run that got to the end has exactly one Verdict per Testbench, named
/// after it and in the order the Simulator ran them — a failing Testbench
/// does not hide the ones after it — and a run in which every step
/// succeeded passed every Testbench.
pub proof fn law_a_finished_run_has_one_verdict_per_testbench(c: SimCommands, outs: Seq<ProcessOutcome>)
    ensures
        model_drive(c, (0, 0, 0, seq![]), outs) matches Some(f) ==> !model_pending(c, f) ==> {
            &&& f.3.len() == c.runs@.len()
            &&& forall|k: int| 0 <= k < c.runs@.len() ==> #[trigger] f.3[k].testbench == c.runs@[k].testbench
            &&& (forall|i: int| 0 <= i < outs.len() ==> #[trigger] outs[i].code == Some(0i32)) ==> forall|k: int|
                0 <= k < c.runs@.len() ==> #[trigger] f.3[k].verdict is Passed
        },
{
    let m0: ExecModel = (0, 0, 0, seq![]);
    lemma_drive_keeps_verdicts_in_order(c, m0, outs, false);
    if forall|i: int| 0 <= i < outs.len() ==> #[trigger] outs[i].code == Some(0i32) {
        lemma_drive_keeps_verdicts_in_order(c, m0, outs, true);
    }
}

impl SimExecution {
    /// The run as a value.
    pub open spec fn model(&self) -> ExecModel {
        (self.setup_done as int, self.run as int, self.step as int, self.results@)
    }

    /// Well-formed against the commands it is executing.
    pub open spec fn wf(&self, c: SimCommands) -> bool {
        &&& self.setup_done <= c.setup@.len()
        &&& self.run <= c.runs@.len()
        &&& self.results@.len() == self.run
        &&& self.setup_done < c.setup@.len() ==> self.run == 0 && self.step == 0
        &&& self.run < c.runs@.len() ==> self.step <= c.runs@[self.run as int].steps@.len()
        &&& self.run == c.runs@.len() ==> self.step == 0
        &&& forall|k: int| 0 <= k < self.run ==> #[trigger] self.results@[k].testbench == c.runs@[k].testbench
    }

    /// Whether the state points at a step still to run.
    pub open spec fn pending(&self, c: SimCommands) -> Option<StepRef> {
        if self.setup_done < c.setup@.len() {
            Some(StepRef::Setup(self.setup_done))
        } else if self.run < c.runs@.len() && self.step < c.runs@[self.run as int].steps@.len() {
            Some(StepRef::Run(self.run, self.step))
        } else {
            None
        }
    }

    pub fn new() -> (res: Self)
        ensures
            res.setup_done == 0,
            res.run == 0,
            res.step == 0,
            res.results@.len() == 0,
            res.model() == (0int, 0int, 0int, Seq::<TestResult>::empty()),
    {
        SimExecution { setup_done: 0, run: 0, step: 0, results: Vec::new() }
    }

    /// The next step to run, if any. A Testbench whose steps have all
    /// succeeded is recorded as passed on the way past.
    pub fn next_step(&mut self, commands: &SimCommands) -> (res: Option<StepRef>)
        requires
            old(self).wf(*commands),
        ensures
            final(self).wf(*commands),
            res == final(self).pending(*commands),
            res is None ==> final(self).setup_done == commands.setup@.len() && final(self).run
                == commands.runs@.len(),
            final(self).model() == model_next(*commands, old(self).model()),
    {
        if self.setup_done < commands.setup.len() {
            return Some(StepRef::Setup(self.setup_done));
        }
        if self.run < commands.runs.len() && self.step < commands.runs[self.run].steps.len() {
            assert(self.results@ + passes(*commands, self.run as int, self.run as int) =~= self.results@);
            return Some(StepRef::Run(self.run, self.step));
        }
        let ghost start = self.results@;
        let ghost start_run = self.run;
        let ghost start_step = self.step;
        while self.run < commands.runs.len() && self.step >= commands.runs[self.run].steps.len()
            invariant
                settle(*commands, self.run as int, self.step as int) == settle(
                    *commands,
                    start_run as int,
                    start_step as int,
                ),
                self.wf(*commands),
                self.setup_done == commands.setup@.len(),
                start_run <= self.run,
                self.results@.subrange(0, start_run as int) == start,
                forall|k: int|
                    start_run <= k < self.run ==> #[trigger] self.results@[k] == verdict_for(
                        commands.runs@[k],
                        TestVerdict::Passed,
                    ),
            decreases commands.runs@.len() - self.run,
        {
            let ghost before = self.results@;
            self.results.push(
                TestResult {
                    testbench: commands.runs[self.run].testbench.clone(),
                    verdict: TestVerdict::Passed,
                },
            );
            self.run = self.run + 1;
            self.step = 0;
            assert(self.results@.subrange(0, start_run as int) =~= before.subrange(0, start_run as int));
        }
        assert(self.results@ =~= start + passes(*commands, start_run as int, self.run as int)) by {
            assert forall|k: int| 0 <= k < start_run implies self.results@[k] == start[k] by {
                assert(self.results@.subrange(0, start_run as int)[k] == self.results@[k]);
            }
        }
        if self.run < commands.runs.len() {
            Some(StepRef::Run(self.run, self.step))
        } else {
            None
        }
    }

    /// Record the outcome of the step `next_step` handed out. A failed setup
    /// step is an error — no Testbench got far enough to have a Verdict. A
    /// failed Testbench step ends that Testbench with a failed Verdict
    /// carrying what the Simulator said, and the next Testbench still runs.
    pub fn record(&mut self, commands: &SimCommands, outcome: ProcessOutcome) -> (res: Result<(), ChipsmithError>)
        requires
            old(self).wf(*commands),
            old(self).pending(*commands) is Some,
        ensures
            match old(self).pending(*commands) {
                Some(StepRef::Setup(i)) => match res {
                    Ok(()) => outcome.code == Some(0i32) && final(self).setup_done == i + 1
                        && final(self).run == old(self).run && final(self).step == old(self).step
                        && final(self).results == old(self).results,
                    Err(e) => {
                        &&& outcome.code != Some(0i32)
                        &&& e matches ChipsmithError::ProcessFailed { command, code, stderr_tail }
                        &&& command@ == crate::text::join(
                            seq![commands.setup@[i as int].program@] + views(
                                commands.setup@[i as int].args@,
                            ),
                            " "@,
                        )
                        &&& code == outcome.code
                        &&& stderr_tail == outcome.stderr_tail
                    },
                },
                Some(StepRef::Run(k, s)) => res is Ok && final(self).setup_done == old(self).setup_done
                    && if outcome.code == Some(0i32) {
                    final(self).run == k && final(self).step == s + 1 && final(self).results
                        == old(self).results
                } else {
                    final(self).run == k + 1 && final(self).step == 0 && final(self).results@
                        == old(self).results@.push(
                        verdict_for(
                            commands.runs@[k as int],
                            TestVerdict::Failed { detail: outcome.stderr_tail },
                        ),
                    )
                },
                None => false,
            },
            match model_record(*commands, old(self).model(), outcome) {
                Some(m) => res is Ok && final(self).model() == m,
                None => res is Err,
            },
            res is Ok ==> final(self).wf(*commands),
    {
        if self.setup_done < commands.setup.len() {
            let step = &commands.setup[self.setup_done];
            if outcome.success() {
                self.setup_done = self.setup_done + 1;
                return Ok(());
            }
            return Err(ChipsmithError::ProcessFailed {
                command: step.command_line(),
                code: outcome.code,
                stderr_tail: outcome.stderr_tail,
            });
        }
        assert(self.run < commands.runs@.len() && self.step < commands.runs@[self.run as int].steps@.len());
        let m = commands.runs.len();
        let n = commands.runs[self.run].steps.len();
        assert(self.run < m && self.step < n);
        if outcome.success() {
            self.step = self.step + 1;
        } else {
            let ghost before = self.results@;
            self.results.push(
                TestResult {
                    testbench: commands.runs[self.run].testbench.clone(),
                    verdict: TestVerdict::Failed { detail: outcome.stderr_tail },
                },
            );
            self.run = self.run + 1;
            self.step = 0;
        }
        Ok(())
    }

    /// The Test Report once `next_step` has no step left.
    pub fn finish(self, simulator: &str) -> (res: TestReport)
        ensures
            res.simulator@ == simulator@,
            res.results == self.results,
    {
        TestReport { simulator: owned(simulator), results: self.results }
    }
}

} // verus!
