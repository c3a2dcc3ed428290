use chipsmith::manifest::{Hdl, Manifest, PinMapping, Project, Target, ToolchainSpec};
use chipsmith::qsf::{generate_qpf, generate_qsf};
use chipsmith::strmap::StrMap;

fn s(text: &str) -> String {
    text.to_string()
}

fn test_manifest() -> Manifest {
    Manifest {
        project: Project { name: s("blinky"), top: s("blinky") },
        toolchain: ToolchainSpec::new(s("quartus-prime"), s("23.1")),
        target: Target { family: s("Cyclone V"), device: s("5CSEBA6U23I7"), io_standard: None },
        hdl: Hdl { standard: s("VHDL_2008"), sources: vec![s("src/*.vhd")] },
        pins: StrMap::new(),
        clocks: StrMap::new(),
        io_standards: StrMap::new(),
    }
}

#[test]
fn qpf_contains_version_and_name() {
    let manifest = test_manifest();
    let qpf = generate_qpf(&manifest);
    assert!(qpf.contains("QUARTUS_VERSION = \"23.1\""));
    assert!(qpf.contains("PROJECT_REVISION = \"blinky\""));
}

#[test]
fn qsf_contains_device_and_family() {
    let manifest = test_manifest();
    let sources = vec![s("/proj/src/blinky.vhd")];
    let qsf = generate_qsf(&manifest, &sources, "/proj").unwrap();

    assert!(qsf.contains("FAMILY \"Cyclone V\""));
    assert!(qsf.contains("DEVICE 5CSEBA6U23I7"));
    assert!(qsf.contains("TOP_LEVEL_ENTITY blinky"));
    assert!(qsf.contains("VHDL_INPUT_VERSION VHDL_2008"));
    assert!(qsf.contains("VHDL_FILE ../src/blinky.vhd"));
}

#[test]
fn qsf_references_sdc_only_when_clocks_are_declared() {
    let mut manifest = test_manifest();
    let without = generate_qsf(&manifest, &vec![], "/proj").unwrap();
    assert!(!without.contains("SDC_FILE"));

    manifest.clocks.insert(s("clk"), s("50 MHz"));
    let with = generate_qsf(&manifest, &vec![], "/proj").unwrap();
    assert!(with.contains("set_global_assignment -name SDC_FILE blinky.sdc"));
}

#[test]
fn qsf_single_pin_assignment() {
    let mut manifest = test_manifest();
    manifest.pins.insert(s("clk"), PinMapping::Single(s("PIN_Y2")));

    let qsf = generate_qsf(&manifest, &vec![], "/proj").unwrap();
    assert!(qsf.contains("set_location_assignment PIN_Y2 -to clk"));
}

#[test]
fn qsf_omits_io_standard_when_unset() {
    let mut manifest = test_manifest();
    manifest.pins.insert(s("clk"), PinMapping::Single(s("PIN_Y2")));

    let qsf = generate_qsf(&manifest, &vec![], "/proj").unwrap();
    assert!(!qsf.contains("IO_STANDARD"));
}

#[test]
fn qsf_applies_target_io_standard_to_every_pin_including_bus_members() {
    let mut manifest = test_manifest();
    manifest.target.io_standard = Some(s("3.3-V LVTTL"));
    manifest.pins.insert(s("clk"), PinMapping::Single(s("PIN_Y2")));
    manifest.pins.insert(s("led"), PinMapping::Bus(vec![s("PIN_V16"), s("PIN_W16")]));

    let qsf = generate_qsf(&manifest, &vec![], "/proj").unwrap();
    assert!(qsf.contains("set_instance_assignment -name IO_STANDARD \"3.3-V LVTTL\" -to clk"));
    assert!(qsf.contains("set_instance_assignment -name IO_STANDARD \"3.3-V LVTTL\" -to led[0]"));
    assert!(qsf.contains("set_instance_assignment -name IO_STANDARD \"3.3-V LVTTL\" -to led[1]"));
}

#[test]
fn qsf_per_signal_io_standard_overrides_the_target_default() {
    let mut manifest = test_manifest();
    manifest.target.io_standard = Some(s("3.3-V LVTTL"));
    manifest.pins.insert(s("clk"), PinMapping::Single(s("PIN_Y2")));
    manifest.io_standards.insert(s("clk"), s("1.5 V"));

    let qsf = generate_qsf(&manifest, &vec![], "/proj").unwrap();
    assert!(qsf.contains("set_instance_assignment -name IO_STANDARD \"1.5 V\" -to clk"));
    assert!(!qsf.contains("3.3-V LVTTL"));
}

#[test]
fn qsf_bus_pin_assignment() {
    let mut manifest = test_manifest();
    manifest.pins.insert(
        s("led"),
        PinMapping::Bus(vec![s("PIN_V16"), s("PIN_W16"), s("PIN_V17")]),
    );

    let qsf = generate_qsf(&manifest, &vec![], "/proj").unwrap();
    assert!(qsf.contains("set_location_assignment PIN_V16 -to led[0]"));
    assert!(qsf.contains("set_location_assignment PIN_W16 -to led[1]"));
    assert!(qsf.contains("set_location_assignment PIN_V17 -to led[2]"));
}

#[test]
fn the_whole_settings_file_in_order() {
    let mut manifest = test_manifest();
    manifest.pins.insert(s("led"), PinMapping::Bus(vec![s("A"), s("B")]));
    manifest.pins.insert(s("clk"), PinMapping::Single(s("C")));
    manifest.io_standards.insert(s("led"), s("2.5 V"));
    manifest.clocks.insert(s("clk"), s("50 MHz"));
    let sources = vec![s("/proj/src/a.vhd"), s("/elsewhere/b.vhd"), s("/projx/c.vhd")];
    let qsf = generate_qsf(&manifest, &sources, "/proj").unwrap();
    assert_eq!(
        qsf,
        "set_global_assignment -name FAMILY \"Cyclone V\"\n\
         set_global_assignment -name DEVICE 5CSEBA6U23I7\n\
         set_global_assignment -name TOP_LEVEL_ENTITY blinky\n\
         set_global_assignment -name VHDL_INPUT_VERSION VHDL_2008\n\
         set_global_assignment -name PROJECT_OUTPUT_DIRECTORY output_files\n\
         set_global_assignment -name NUM_PARALLEL_PROCESSORS ALL\n\
         \n\
         set_global_assignment -name VHDL_FILE ../src/a.vhd\n\
         set_global_assignment -name VHDL_FILE ..//elsewhere/b.vhd\n\
         set_global_assignment -name VHDL_FILE ..//projx/c.vhd\n\
         set_global_assignment -name SDC_FILE blinky.sdc\n\
         \n\
         set_location_assignment C -to clk\n\
         set_location_assignment A -to led[0]\n\
         set_instance_assignment -name IO_STANDARD \"2.5 V\" -to led[0]\n\
         set_location_assignment B -to led[1]\n\
         set_instance_assignment -name IO_STANDARD \"2.5 V\" -to led[1]\n"
    );
}
