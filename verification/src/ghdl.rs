//! GHDL: the Simulator that needs no vendor toolchain and no licence. What
//! chipsmith asks GHDL to do, argument by argument.

use vstd::prelude::*;

use crate::error::{nat_digits, push_digits, ChipsmithError};
use crate::sim::{SimCommands, SimPlan, SimStep, TestbenchRun, VhdlStandard};
use crate::text::{owned, views};

verus! {

/// GHDL is looked up on `PATH` rather than installed by chipsmith: unlike a
/// Toolchain it is a small free package every distribution already carries.
pub const PROGRAM: &'static str = "ghdl";

/// Every invocation says which language revision it is reading and which
/// work library it is reading into — the working directory.
pub open spec fn common_spec(standard: VhdlStandard) -> Seq<Seq<char>> {
    seq!["--std="@ + standard.ghdl_std_spec(), "--workdir=."@]
}

fn common(standard: VhdlStandard) -> (res: Vec<String>)
    ensures
        views(res@) == common_spec(standard),
{
    let mut v: Vec<String> = Vec::new();
    let mut std_flag = String::from_str("--std=");
    std_flag.append(standard.ghdl_std());
    v.push(std_flag);
    v.push(owned("--workdir=."));
    assert(views(v@) =~= common_spec(standard));
    v
}

fn append_all(v: &mut Vec<String>, more: &Vec<String>)
    ensures
        views(final(v)@) == views(old(v)@) + views(more@),
{
    let ghost start = views(v@);
    let mut i: usize = 0;
    while i < more.len()
        invariant
            i <= more@.len(),
            views(v@) == start + views(more@).subrange(0, i as int),
        decreases more@.len() - i,
    {
        let ghost before = views(v@);
        v.push(more[i].clone());
        assert(views(v@) =~= before.push(more@[i as int]@));
        i = i + 1;
        assert(views(v@) =~= start + views(more@).subrange(0, i as int));
    }
    assert(views(more@).subrange(0, i as int) =~= views(more@));
}

/// `ghdl -a` — analyse every source into the work library, in the order
/// given: design first and Testbench last.
pub fn analyse_args(standard: VhdlStandard, sources: &Vec<String>) -> (res: Vec<String>)
    ensures
        views(res@) == seq!["-a"@] + common_spec(standard) + views(sources@),
{
    let mut args: Vec<String> = Vec::new();
    args.push(owned("-a"));
    let c = common(standard);
    append_all(&mut args, &c);
    append_all(&mut args, sources);
    args
}

/// `ghdl -e` — elaborate one Testbench from the analysed library.
pub fn elaborate_args(standard: VhdlStandard, testbench: &str) -> (res: Vec<String>)
    ensures
        views(res@) == seq!["-e"@] + common_spec(standard) + seq![testbench@],
{
    let mut args: Vec<String> = Vec::new();
    args.push(owned("-e"));
    let c = common(standard);
    append_all(&mut args, &c);
    let ghost before = views(args@);
    args.push(owned(testbench));
    assert(views(args@) =~= before.push(testbench@));
    args
}

/// `ghdl -r` — run one elaborated Testbench. `--assert-level=error` is what
/// makes a failed assertion a failed test: without it GHDL prints the
/// assertion and still exits zero.
pub fn run_args(standard: VhdlStandard, testbench: &str) -> (res: Vec<String>)
    ensures
        views(res@) == seq!["-r"@] + common_spec(standard) + seq![
            testbench@,
            "--assert-level=error"@,
        ],
{
    let mut args: Vec<String> = Vec::new();
    args.push(owned("-r"));
    let c = common(standard);
    append_all(&mut args, &c);
    let ghost before = views(args@);
    args.push(owned(testbench));
    args.push(owned("--assert-level=error"));
    assert(views(args@) =~= before + seq![testbench@, "--assert-level=error"@]);
    args
}

pub open spec fn step_view(s: SimStep) -> (Seq<char>, Seq<char>, Seq<Seq<char>>) {
    (s.label@, s.program@, views(s.args@))
}

/// The two steps of one Testbench: elaborate it, then run it.
pub open spec fn testbench_steps(program: Seq<char>, standard: VhdlStandard, tb: Seq<char>) -> Seq<
    (Seq<char>, Seq<char>, Seq<Seq<char>>),
> {
    seq![
        ("Elaborating "@ + tb, program, seq!["-e"@] + common_spec(standard) + seq![tb]),
        ("Running "@ + tb, program, seq!["-r"@] + common_spec(standard) + seq![tb, "--assert-level=error"@]),
    ]
}

/// Testbench run `r` elaborates `tb` and then runs it, with `program`.
pub open spec fn runs_testbench(r: TestbenchRun, program: Seq<char>, standard: VhdlStandard, tb: Seq<
    char,
>) -> bool {
    &&& r.steps@.len() == 2
    &&& step_view(r.steps@[0]) == (
        "Elaborating "@ + tb,
        program,
        seq!["-e"@] + common_spec(standard) + seq![tb],
    )
    &&& step_view(r.steps@[1]) == (
        "Running "@ + tb,
        program,
        seq!["-r"@] + common_spec(standard) + seq![tb, "--assert-level=error"@],
    )
}

/// Everything GHDL is asked to do for one run: one analysis of every source,
/// then each Testbench elaborated and run, in the plan's order.
pub fn commands(program: &str, plan: &SimPlan) -> (res: SimCommands)
    ensures
        res.files@.len() == 0,
        res.setup@.len() == 1,
        step_view(res.setup@[0]) == (
            "Analysing "@ + nat_digits(plan.sources_spec().len()) + " source(s)"@,
            program@,
            seq!["-a"@] + common_spec(plan.standard_spec()) + plan.sources_spec(),
        ),
        res.runs@.len() == plan.testbenches_spec().len(),
        forall|i: int|
            0 <= i < res.runs@.len() ==> #[trigger] res.runs@[i].testbench@ == plan.testbenches_spec()[i],
        forall|i: int|
            0 <= i < res.runs@.len() ==> runs_testbench(
                #[trigger] res.runs@[i],
                program@,
                plan.standard_spec(),
                plan.testbenches_spec()[i],
            ),
{
    let sources = plan.sources();
    let mut label = String::from_str("Analysing ");
    push_digits(&mut label, sources.len() as u64);
    label.append(" source(s)");
    let analyse = SimStep::new(label, owned(program), analyse_args(plan.standard(), sources));
    let mut setup: Vec<SimStep> = Vec::new();
    setup.push(analyse);
    let tbs = plan.testbenches();
    let mut runs: Vec<TestbenchRun> = Vec::new();
    let mut i: usize = 0;
    while i < tbs.len()
        invariant
            i <= tbs@.len(),
            views(tbs@) == plan.testbenches_spec(),
            runs@.len() == i,
            forall|j: int|
                0 <= j < i ==> {
                    &&& #[trigger] runs@[j].testbench@ == plan.testbenches_spec()[j]
                    &&& runs@[j].steps@.map_values(|s: SimStep| step_view(s)) == testbench_steps(
                        program@,
                        plan.standard_spec(),
                        plan.testbenches_spec()[j],
                    )
                },
        decreases tbs@.len() - i,
    {
        let tb = &tbs[i];
        assert(plan.testbenches_spec()[i as int] == tb@);
        let mut l1 = String::from_str("Elaborating ");
        l1.append(tb.as_str());
        let mut l2 = String::from_str("Running ");
        l2.append(tb.as_str());
        let mut steps: Vec<SimStep> = Vec::new();
        steps.push(SimStep::new(l1, owned(program), elaborate_args(plan.standard(), tb.as_str())));
        steps.push(SimStep::new(l2, owned(program), run_args(plan.standard(), tb.as_str())));
        assert(steps@.map_values(|s: SimStep| step_view(s)) =~= testbench_steps(
            program@,
            plan.standard_spec(),
            tb@,
        ));
        runs.push(TestbenchRun { testbench: tb.clone(), steps });
        i = i + 1;
    }
    let res = SimCommands { files: Vec::new(), setup, runs };
    assert forall|i: int| 0 <= i < res.runs@.len() implies runs_testbench(
        #[trigger] res.runs@[i],
        program@,
        plan.standard_spec(),
        plan.testbenches_spec()[i],
    ) by {
        let r = res.runs@[i];
        assert(runs@[i] == r);
        assert(r.testbench@ == plan.testbenches_spec()[i]);
        let m = r.steps@.map_values(|s: SimStep| step_view(s));
        let ts = testbench_steps(program@, plan.standard_spec(), plan.testbenches_spec()[i]);
        assert(m == ts);
        assert(m.len() == r.steps@.len());
        assert(m[0] == step_view(r.steps@[0]));
        assert(m[1] == step_view(r.steps@[1]));
    }
    res
}

/// GHDL is not on `PATH`: say how to get one instead of failing to spawn.
pub fn not_found() -> (res: ChipsmithError)
    ensures
        res matches ChipsmithError::SimulatorNotFound { program, hint } && program@ == PROGRAM@
            && hint@
            == "install it, e.g. `nix shell nixpkgs#ghdl` or your distribution's ghdl package"@,
{
    ChipsmithError::SimulatorNotFound {
        program: owned(PROGRAM),
        hint: owned("install it, e.g. `nix shell nixpkgs#ghdl` or your distribution's ghdl package"),
    }
}

} // verus!
