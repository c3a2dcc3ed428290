//! Deciding what a build consists of.
//!
//! `plan_build` is pure: given a Manifest and its sources it returns a
//! complete description of the Build Directory — every file, every Build Step,
//! every artifact path — without touching the filesystem. Writing that
//! description out and running its steps is the caller's business.

use vstd::prelude::*;

use crate::error::ChipsmithError;
use crate::manifest::Manifest;
use crate::path::{join, path_join};
use crate::qsf::{generate_qpf, generate_qsf, qpf_spec, qsf_spec};
use crate::text::{owned, views};

verus! {

/// Where a Project's build artifacts live. The single owner of the layout —
/// anything that needs to name a build artifact asks this.
#[derive(Debug, Clone)]
pub struct BuildLayout {
    build_dir: String,
    project_name: String,
}

impl BuildLayout {
    pub closed spec fn build_dir_spec(&self) -> Seq<char> {
        self.build_dir@
    }

    pub closed spec fn name_spec(&self) -> Seq<char> {
        self.project_name@
    }

    /// Everything Quartus produces lands under `PROJECT_OUTPUT_DIRECTORY`,
    /// which the generated Settings File pins to `output_files`.
    pub open spec fn output_dir_spec(&self) -> Seq<char> {
        path_join(self.build_dir_spec(), "output_files"@)
    }

    pub fn new(project_dir: &str, manifest: &Manifest) -> (res: Self)
        ensures
            res.build_dir_spec() == path_join(project_dir@, "build"@),
            res.name_spec() == manifest.project.name@,
    {
        BuildLayout { build_dir: join(project_dir, "build"), project_name: manifest.project.name.clone() }
    }

    pub fn build_dir(&self) -> (res: &str)
        ensures
            res@ == self.build_dir_spec(),
    {
        self.build_dir.as_str()
    }

    fn output_dir(&self) -> (res: String)
        ensures
            res@ == self.output_dir_spec(),
    {
        join(self.build_dir.as_str(), "output_files")
    }

    fn named(&self, dir: &str, extension: &str) -> (res: String)
        ensures
            res@ == path_join(dir@, self.name_spec() + extension@),
    {
        let mut file = self.project_name.clone();
        file.append(extension);
        join(dir, file.as_str())
    }

    /// The Bitstream a successful build produces.
    pub fn bitstream(&self) -> (res: String)
        ensures
            res@ == path_join(self.output_dir_spec(), self.name_spec() + ".sof"@),
    {
        let out = self.output_dir();
        self.named(out.as_str(), ".sof")
    }

    /// Where `quartus_sta` leaves its Timing Summary.
    pub fn timing_summary(&self) -> (res: String)
        ensures
            res@ == path_join(self.output_dir_spec(), self.name_spec() + ".sta.summary"@),
    {
        let out = self.output_dir();
        self.named(out.as_str(), ".sta.summary")
    }

    pub fn settings_file(&self) -> (res: String)
        ensures
            res@ == path_join(self.build_dir_spec(), self.name_spec() + ".qsf"@),
    {
        self.named(self.build_dir.as_str(), ".qsf")
    }

    pub fn project_file(&self) -> (res: String)
        ensures
            res@ == path_join(self.build_dir_spec(), self.name_spec() + ".qpf"@),
    {
        self.named(self.build_dir.as_str(), ".qpf")
    }

    pub fn constraints_file(&self) -> (res: String)
        ensures
            res@ == path_join(self.build_dir_spec(), self.name_spec() + ".sdc"@),
    {
        self.named(self.build_dir.as_str(), ".sdc")
    }
}

/// One invocation of one Toolchain tool, with a human-readable label.
#[derive(Debug, Clone)]
pub struct BuildStep {
    pub label: String,
    pub tool: String,
    pub args: Vec<String>,
}

/// A file the Build Directory needs, and what goes in it.
#[derive(Debug, Clone)]
pub struct PlannedFile {
    pub path: String,
    pub contents: String,
}

#[derive(Debug)]
pub struct BuildPlan {
    pub layout: BuildLayout,
    pub files: Vec<PlannedFile>,
    pub steps: Vec<BuildStep>,
}

impl BuildPlan {
    pub fn build_dir(&self) -> (res: &str)
        ensures
            res@ == self.layout.build_dir_spec(),
    {
        self.layout.build_dir()
    }

    pub fn bitstream(&self) -> (res: String)
        ensures
            res@ == path_join(self.layout.output_dir_spec(), self.layout.name_spec() + ".sof"@),
    {
        self.layout.bitstream()
    }

    pub fn timing_summary(&self) -> (res: String)
        ensures
            res@ == path_join(
                self.layout.output_dir_spec(),
                self.layout.name_spec() + ".sta.summary"@,
            ),
    {
        self.layout.timing_summary()
    }
}

pub open spec fn file_view(f: PlannedFile) -> (Seq<char>, Seq<char>) {
    (f.path@, f.contents@)
}

pub open spec fn step_view(s: BuildStep) -> (Seq<char>, Seq<char>, Seq<Seq<char>>) {
    (s.label@, s.tool@, views(s.args@))
}

/// The Build Steps, in the order they run: synthesis, fitting, assembly,
/// timing analysis — each against the project's revision name.
pub open spec fn build_steps_spec(name: Seq<char>) -> Seq<(Seq<char>, Seq<char>, Seq<Seq<char>>)> {
    seq![
        ("Synthesis"@, "quartus_map"@, seq![name, "--read_settings_files=on"@]),
        ("Fitter"@, "quartus_fit"@, seq![name, "--read_settings_files=on"@]),
        ("Assembler"@, "quartus_asm"@, seq![name, "--read_settings_files=on"@]),
        ("Timing analysis"@, "quartus_sta"@, seq![name]),
    ]
}

/// Every Build Step is told which project revision it works on: its first
/// argument is the revision name, and synthesis, fitting and assembly also
/// read the Settings File. The tools run are synthesis, fitting, assembly and
/// timing analysis, in that order.
pub proof fn law_every_build_step_names_the_revision(name: Seq<char>)
    ensures
        build_steps_spec(name).len() == 4,
        build_steps_spec(name)[0].1 == "quartus_map"@,
        build_steps_spec(name)[1].1 == "quartus_fit"@,
        build_steps_spec(name)[2].1 == "quartus_asm"@,
        build_steps_spec(name)[3].1 == "quartus_sta"@,
        forall|k: int|
            0 <= k < 4 ==> (#[trigger] build_steps_spec(name)[k]).2.len() >= 1
                && build_steps_spec(name)[k].2[0] == name,
        forall|k: int|
            0 <= k < 3 ==> (#[trigger] build_steps_spec(name)[k]).2.len() == 2
                && build_steps_spec(name)[k].2[1] == "--read_settings_files=on"@,
        build_steps_spec(name)[3].2 == seq![name],
{
}

/// The files of a build: the Settings File and the Project File, and the
/// Constraints File exactly when `[clocks]` declares a clock.
pub open spec fn build_files_spec(
    layout: BuildLayout,
    m: Manifest,
    sources: Seq<Seq<char>>,
    project_dir: Seq<char>,
    constraints: Seq<char>,
) -> Seq<(Seq<char>, Seq<char>)> {
    seq![
        (path_join(layout.build_dir_spec(), layout.name_spec() + ".qsf"@), qsf_spec(m, sources, project_dir)),
        (path_join(layout.build_dir_spec(), layout.name_spec() + ".qpf"@), qpf_spec(m)),
    ] + if m.clocks@.len() > 0 {
        seq![(path_join(layout.build_dir_spec(), layout.name_spec() + ".sdc"@), constraints)]
    } else {
        Seq::<(Seq<char>, Seq<char>)>::empty()
    }
}

/// The Settings File names a Constraints File exactly when the plan writes
/// one, so it can never point at a file that was never generated.
pub proof fn law_constraints_file_written_iff_referenced(
    layout: BuildLayout,
    m: Manifest,
    sources: Seq<Seq<char>>,
    project_dir: Seq<char>,
    constraints: Seq<char>,
)
    ensures
        (build_files_spec(layout, m, sources, project_dir, constraints).len() == 3) == (
        crate::qsf::sdc_line(m).len() > 0),
        build_files_spec(layout, m, sources, project_dir, constraints).len() == 3 ==> crate::qsf::sdc_line(m)
            == "set_global_assignment -name SDC_FILE "@ + m.project.name@ + ".sdc\n"@,
{
    reveal_strlit("set_global_assignment -name SDC_FILE ");
}

fn step(label: &str, tool: &str, name: &String, read_settings: bool) -> (res: BuildStep)
    ensures
        step_view(res) == (label@, tool@, if read_settings {
            seq![name@, "--read_settings_files=on"@]
        } else {
            seq![name@]
        }),
{
    let mut args: Vec<String> = Vec::new();
    args.push(name.clone());
    if read_settings {
        args.push(owned("--read_settings_files=on"));
    }
    let res = BuildStep { label: owned(label), tool: owned(tool), args };
    assert(views(res.args@) =~= if read_settings {
        seq![name@, "--read_settings_files=on"@]
    } else {
        seq![name@]
    });
    res
}

/// Decide everything about a build. Performs no I/O. `constraints` is the
/// text of the Constraints File for `[clocks]`; it is written, and the
/// Settings File refers to it, exactly when a clock is declared.
pub fn plan_build(
    project_dir: &str,
    manifest: &Manifest,
    sources: &Vec<String>,
    constraints: String,
) -> (res: Result<BuildPlan, ChipsmithError>)
    ensures
        res matches Ok(plan) && {
            &&& plan.layout.build_dir_spec() == path_join(project_dir@, "build"@)
            &&& plan.layout.name_spec() == manifest.project.name@
            &&& plan.files@.map_values(|f: PlannedFile| file_view(f)) == build_files_spec(
                plan.layout,
                *manifest,
                views(sources@),
                project_dir@,
                constraints@,
            )
            &&& plan.steps@.map_values(|s: BuildStep| step_view(s)) == build_steps_spec(
                manifest.project.name@,
            )
            &&& plan.steps@.len() == 4
            &&& plan.steps@[0].tool@ == "quartus_map"@
            &&& plan.steps@[1].tool@ == "quartus_fit"@
            &&& plan.steps@[2].tool@ == "quartus_asm"@
            &&& plan.steps@[3].tool@ == "quartus_sta"@
            &&& forall|k: int|
                0 <= k < 4 ==> (#[trigger] plan.steps@[k]).args@.len() >= 1
                    && plan.steps@[k].args@[0]@ == manifest.project.name@
            &&& forall|k: int|
                0 <= k < 3 ==> (#[trigger] plan.steps@[k]).args@.len() == 2
                    && plan.steps@[k].args@[1]@ == "--read_settings_files=on"@
            &&& plan.steps@[3].args@.len() == 1
        },
{
    let layout = BuildLayout::new(project_dir, manifest);
    let qsf = match generate_qsf(manifest, sources, project_dir) {
        Ok(text) => text,
        Err(e) => return Err(e),
    };
    let mut files: Vec<PlannedFile> = Vec::new();
    files.push(PlannedFile { path: layout.settings_file(), contents: qsf });
    files.push(PlannedFile { path: layout.project_file(), contents: generate_qpf(manifest) });
    // One decision, one owner: the Constraints File is written and referenced
    // on the same condition, so the Settings File can never point at a file
    // that was never generated.
    if !manifest.clocks.is_empty() {
        files.push(PlannedFile { path: layout.constraints_file(), contents: constraints });
    }
    assert(files@.map_values(|f: PlannedFile| file_view(f)) =~= build_files_spec(
        layout,
        *manifest,
        views(sources@),
        project_dir@,
        constraints@,
    ));
    let name = &manifest.project.name;
    let mut steps: Vec<BuildStep> = Vec::new();
    steps.push(step("Synthesis", "quartus_map", name, true));
    steps.push(step("Fitter", "quartus_fit", name, true));
    steps.push(step("Assembler", "quartus_asm", name, true));
    steps.push(step("Timing analysis", "quartus_sta", name, false));
    assert(steps@.map_values(|s: BuildStep| step_view(s)) =~= build_steps_spec(manifest.project.name@));
    proof {
        let name_v = manifest.project.name@;
        law_every_build_step_names_the_revision(name_v);
        assert forall|k: int| 0 <= k < 4 implies (#[trigger] steps@[k]).args@.len() >= 1
            && steps@[k].args@[0]@ == name_v by {
            assert(steps@.map_values(|s: BuildStep| step_view(s))[k] == step_view(steps@[k]));
            assert(step_view(steps@[k]) == build_steps_spec(name_v)[k]);
            assert(views(steps@[k].args@)[0] == steps@[k].args@[0]@);
        }
        assert forall|k: int| 0 <= k < 3 implies (#[trigger] steps@[k]).args@.len() == 2
            && steps@[k].args@[1]@ == "--read_settings_files=on"@ by {
            assert(steps@.map_values(|s: BuildStep| step_view(s))[k] == step_view(steps@[k]));
            assert(step_view(steps@[k]) == build_steps_spec(name_v)[k]);
            assert(views(steps@[k].args@)[1] == steps@[k].args@[1]@);
        }
        assert(steps@.map_values(|s: BuildStep| step_view(s))[3] == step_view(steps@[3]));
        assert(steps@.map_values(|s: BuildStep| step_view(s))[0] == step_view(steps@[0]));
        assert(steps@.map_values(|s: BuildStep| step_view(s))[1] == step_view(steps@[1]));
        assert(steps@.map_values(|s: BuildStep| step_view(s))[2] == step_view(steps@[2]));
    }
    Ok(BuildPlan { layout, files, steps })
}

} // verus!
