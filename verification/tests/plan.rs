use chipsmith::manifest::{Hdl, Manifest, PinMapping, Project, Target, ToolchainSpec};
use chipsmith::plan::{plan_build, BuildLayout, BuildPlan, PlannedFile};
use chipsmith::strmap::StrMap;

fn s(text: &str) -> String {
    text.to_string()
}

fn manifest_with_clocks(clocks: &[(&str, &str)]) -> Manifest {
    let mut pins = StrMap::new();
    pins.insert(s("clk"), PinMapping::Single(s("PIN_Y2")));
    let mut clock_map = StrMap::new();
    for (port, frequency) in clocks {
        clock_map.insert(s(port), s(frequency));
    }
    Manifest {
        project: Project { name: s("blinky"), top: s("blinky") },
        toolchain: ToolchainSpec::new(s("quartus-prime"), s("23.1")),
        target: Target { family: s("Cyclone V"), device: s("5CSEBA6U23I7"), io_standard: None },
        hdl: Hdl { standard: s("VHDL_2008"), sources: vec![s("src/*.vhd")] },
        pins,
        clocks: clock_map,
        io_standards: StrMap::new(),
    }
}

const SDC: &str = "create_clock -name clk -period 20.000 [get_ports clk]\nderive_clock_uncertainty\n";

fn plan_for(clocks: &[(&str, &str)]) -> BuildPlan {
    let sources = vec![s("/proj/src/blinky.vhd")];
    plan_build("/proj", &manifest_with_clocks(clocks), &sources, s(SDC)).unwrap()
}

fn file<'a>(plan: &'a BuildPlan, name: &str) -> Option<&'a PlannedFile> {
    plan.files.iter().find(|f| f.path.rsplit('/').next().unwrap() == name)
}

#[test]
fn every_artifact_path_hangs_off_the_same_build_directory() {
    let plan = plan_for(&[]);
    assert_eq!(plan.build_dir(), "/proj/build");
    assert_eq!(plan.bitstream(), "/proj/build/output_files/blinky.sof");
    assert_eq!(plan.timing_summary(), "/proj/build/output_files/blinky.sta.summary");
}

#[test]
fn the_layout_agrees_with_the_plan_it_is_not_part_of() {
    let manifest = manifest_with_clocks(&[]);
    let layout = BuildLayout::new("/proj", &manifest);
    assert_eq!(layout.bitstream(), plan_for(&[]).bitstream());
}

#[test]
fn a_constrained_project_writes_and_references_the_same_sdc() {
    let plan = plan_for(&[("clk", "50 MHz")]);

    let sdc = file(&plan, "blinky.sdc").expect("sdc should be planned");
    assert!(sdc.contents.contains("create_clock -name clk -period 20.000 [get_ports clk]"));

    let qsf = file(&plan, "blinky.qsf").unwrap();
    assert!(qsf.contents.contains("set_global_assignment -name SDC_FILE blinky.sdc"));
}

#[test]
fn an_unconstrained_project_neither_writes_nor_references_an_sdc() {
    let plan = plan_for(&[]);
    assert!(file(&plan, "blinky.sdc").is_none());
    assert!(!file(&plan, "blinky.qsf").unwrap().contents.contains("SDC"));
}

#[test]
fn the_steps_run_synthesis_through_timing_analysis_in_order() {
    let plan = plan_for(&[]);
    let tools: Vec<_> = plan.steps.iter().map(|s| s.tool.as_str()).collect();
    assert_eq!(tools, vec!["quartus_map", "quartus_fit", "quartus_asm", "quartus_sta"]);
    assert_eq!(plan.steps[0].args, vec!["blinky", "--read_settings_files=on"]);
    assert_eq!(plan.steps[3].args, vec!["blinky"]);
    assert_eq!(plan.steps[3].label, "Timing analysis");
}

#[test]
fn the_layout_names_every_generated_file() {
    let layout = BuildLayout::new("/proj/", &manifest_with_clocks(&[]));
    assert_eq!(layout.build_dir(), "/proj/build");
    assert_eq!(layout.settings_file(), "/proj/build/blinky.qsf");
    assert_eq!(layout.project_file(), "/proj/build/blinky.qpf");
    assert_eq!(layout.constraints_file(), "/proj/build/blinky.sdc");
    let paths: Vec<_> = plan_for(&[("clk", "50 MHz")]).files.iter().map(|f| f.path.clone()).collect();
    assert_eq!(
        paths,
        vec!["/proj/build/blinky.qsf", "/proj/build/blinky.qpf", "/proj/build/blinky.sdc"]
    );
}
