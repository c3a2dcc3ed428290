use chipsmith::error::ChipsmithError;
use chipsmith::manifest::{
    parse_frequency, Clock, Hdl, Manifest, ManifestFile, PinMapping, Project, Target,
};
use chipsmith::strmap::StrMap;

fn s(text: &str) -> String {
    text.to_string()
}

/// The `VALID_TOML` manifest: blinky on a Cyclone V, clk on one pin and a
/// four-pin led bus.
fn valid_file() -> ManifestFile {
    let mut toolchain = StrMap::new();
    toolchain.insert(s("quartus-prime"), s("23.1"));
    let mut pins = StrMap::new();
    pins.insert(s("clk"), PinMapping::Single(s("PIN_Y2")));
    pins.insert(
        s("led"),
        PinMapping::Bus(vec![s("PIN_V16"), s("PIN_W16"), s("PIN_V17"), s("PIN_W17")]),
    );
    ManifestFile {
        project: Project { name: s("blinky"), top: s("blinky") },
        toolchain,
        target: Target { family: s("Cyclone V"), device: s("5CSEBA6U23I7"), io_standard: None },
        hdl: Hdl { standard: s("VHDL_2008"), sources: vec![s("src/*.vhd")] },
        pins,
        clocks: StrMap::new(),
        io_standards: StrMap::new(),
    }
}

fn parse_manifest(file: ManifestFile) -> Result<Manifest, String> {
    Manifest::parse(file, "chipsmith.toml").map_err(|e| e.message())
}

fn with_clocks(port: &str, frequency: &str) -> Result<Manifest, String> {
    let mut file = valid_file();
    file.clocks.insert(s(port), s(frequency));
    parse_manifest(file)
}

#[test]
fn parses_valid_manifest() {
    let m = parse_manifest(valid_file()).unwrap();
    assert_eq!(m.project.name, "blinky");
    assert_eq!(m.project.top, "blinky");
    assert_eq!(m.toolchain.backend(), "quartus-prime");
    assert_eq!(m.toolchain.version(), "23.1");
    assert_eq!(m.target.family, "Cyclone V");
    assert_eq!(m.target.device, "5CSEBA6U23I7");
    assert_eq!(m.hdl.sources, vec!["src/*.vhd"]);
}

/// The period a clock is held to, in nanoseconds: one second over the
/// frequency the library read.
fn period_ns(clock: &Clock) -> f64 {
    let value: f64 = clock.frequency.number.parse().unwrap();
    1_000_000_000.0 / (value * 10f64.powi(clock.frequency.exponent as i32))
}

#[test]
fn resolves_clock_frequency_to_period() {
    let m = with_clocks("clk", "50 MHz").unwrap();
    let clocks = m.resolve_clocks().unwrap();
    assert_eq!(clocks.len(), 1);
    assert_eq!(clocks[0].port, "clk");
    assert!((period_ns(&clocks[0]) - 20.0).abs() < 1e-9);
}

#[test]
fn accepts_frequency_units_with_and_without_spaces() {
    for (text, expected_ns) in [
        ("50MHz", 20.0),
        ("50 mhz", 20.0),
        ("125 MHz", 8.0),
        ("1 GHz", 1.0),
        ("1000 kHz", 1000.0),
        ("1000000 Hz", 1000.0),
    ] {
        let m = with_clocks("clk", text).unwrap();
        let clocks = m.resolve_clocks().unwrap();
        let period = period_ns(&clocks[0]);
        assert!(
            (period - expected_ns).abs() < 1e-6,
            "{text} gave {period} ns, want {expected_ns}"
        );
    }
}

#[test]
fn rejects_clock_without_a_pin_assignment() {
    let err = with_clocks("clock_50", "50 MHz").unwrap_err();
    assert!(err.contains("clock_50"), "{err}");
    assert!(err.contains("[pins]"), "{err}");
}

#[test]
fn rejects_unparseable_frequency() {
    for bad in ["fifty MHz", "50", "50 furlongs", "-50 MHz", "0 MHz"] {
        let result = with_clocks("clk", bad);
        assert!(result.is_err(), "'{bad}' should not parse");
    }
}

#[test]
fn rejects_an_io_standard_for_a_signal_with_no_pin() {
    let mut file = valid_file();
    file.io_standards.insert(s("uart_tx"), s("3.3-V LVTTL"));
    let err = parse_manifest(file).unwrap_err();
    assert!(err.contains("uart_tx"), "{err}");
    assert!(err.contains("[pins]"), "{err}");
}

#[test]
fn io_standard_falls_back_from_signal_to_target_to_none() {
    let m = parse_manifest(valid_file()).unwrap();
    assert_eq!(m.io_standard_for("clk"), None);

    let mut file = valid_file();
    file.target.io_standard = Some(s("3.3-V LVTTL"));
    let with_default = parse_manifest(file).unwrap();
    assert_eq!(with_default.io_standard_for("clk"), Some("3.3-V LVTTL"));
    assert_eq!(with_default.io_standard_for("led"), Some("3.3-V LVTTL"));

    let mut file = valid_file();
    file.target.io_standard = Some(s("3.3-V LVTTL"));
    file.io_standards.insert(s("clk"), s("1.5 V"));
    let with_override = parse_manifest(file).unwrap();
    assert_eq!(with_override.io_standard_for("clk"), Some("1.5 V"));
    assert_eq!(with_override.io_standard_for("led"), Some("3.3-V LVTTL"));
}

#[test]
fn manifest_without_clocks_resolves_to_none() {
    let m = parse_manifest(valid_file()).unwrap();
    assert!(m.resolve_clocks().unwrap().is_empty());
}

#[test]
fn parses_single_pin() {
    let m = parse_manifest(valid_file()).unwrap();
    match m.pins.get("clk").unwrap() {
        PinMapping::Single(pin) => assert_eq!(pin, "PIN_Y2"),
        _ => panic!("expected Single pin mapping"),
    }
}

#[test]
fn parses_bus_pins() {
    let m = parse_manifest(valid_file()).unwrap();
    match m.pins.get("led").unwrap() {
        PinMapping::Bus(pins) => {
            assert_eq!(pins.len(), 4);
            assert_eq!(pins[0], "PIN_V16");
            assert_eq!(pins[3], "PIN_W17");
        }
        _ => panic!("expected Bus pin mapping"),
    }
}

#[test]
fn rejects_multiple_toolchain_entries() {
    let mut file = valid_file();
    file.toolchain.insert(s("vivado"), s("2024.1"));
    let result = parse_manifest(file);
    assert!(result.is_err());
    assert!(result.unwrap_err().contains("exactly one entry"));
}

#[test]
fn an_empty_toolchain_table_is_rejected_too() {
    let mut file = valid_file();
    file.toolchain = StrMap::new();
    let err = parse_manifest(file).unwrap_err();
    assert_eq!(
        err,
        "chipsmith.toml parse error in chipsmith.toml: [toolchain] must have exactly one entry (e.g. quartus-prime = \"23.1\")"
    );
}

#[test]
fn a_parse_error_names_the_manifest_path() {
    let mut file = valid_file();
    file.clocks.insert(s("clk"), s("50"));
    match Manifest::parse(file, "/proj/chipsmith.toml") {
        Err(ChipsmithError::ManifestParse { path, message }) => {
            assert_eq!(path, "/proj/chipsmith.toml");
            assert_eq!(
                message,
                "[clocks] 'clk': '50' has no frequency unit (expected e.g. \"50 MHz\")"
            );
        }
        other => panic!("expected a ManifestParse error, got {other:?}"),
    }
}

#[test]
fn frequency_units_are_read_with_and_without_spaces_and_in_any_case() {
    for (text, number, exponent) in [
        ("50MHz", "50", 6),
        ("50 mhz", "50", 6),
        ("125 MHz", "125", 6),
        ("1 GHz", "1", 9),
        ("1000 kHz", "1000", 3),
        ("1000000 Hz", "1000000", 0),
        ("  32.768 kHz  ", "32.768", 3),
        ("5. Hz", "5.", 0),
        (".5 GHz", ".5", 9),
    ] {
        let f = parse_frequency(text).unwrap();
        assert_eq!(f.number, number, "{text}");
        assert_eq!(f.exponent, exponent, "{text}");
    }
}

#[test]
fn each_frequency_error_says_what_is_wrong() {
    assert_eq!(
        parse_frequency(" 50 ").unwrap_err(),
        "'50' has no frequency unit (expected e.g. \"50 MHz\")"
    );
    assert_eq!(
        parse_frequency("fifty MHz").unwrap_err(),
        "'fifty MHz' does not start with a number"
    );
    assert_eq!(
        parse_frequency("1.2.3 MHz").unwrap_err(),
        "'1.2.3 MHz' does not start with a number"
    );
    assert_eq!(
        parse_frequency("0.000 MHz").unwrap_err(),
        "'0.000 MHz' must be a positive frequency"
    );
    assert_eq!(
        parse_frequency("50 furlongs").unwrap_err(),
        "unknown frequency unit 'furlongs' (use Hz, kHz, MHz or GHz)"
    );
    assert_eq!(
        parse_frequency("50 THz").unwrap_err(),
        "unknown frequency unit 'thz' (use Hz, kHz, MHz or GHz)"
    );
}

#[test]
fn clocks_resolve_in_port_order_with_their_frequencies() {
    let mut file = valid_file();
    file.clocks.insert(s("led"), s("1 kHz"));
    file.clocks.insert(s("clk"), s("50 MHz"));
    let m = parse_manifest(file).unwrap();
    let clocks = m.resolve_clocks().unwrap();
    assert_eq!(clocks.len(), 2);
    assert_eq!(clocks[0].port, "clk");
    assert_eq!(clocks[0].frequency.number, "50");
    assert_eq!(clocks[0].frequency.exponent, 6);
    assert_eq!(clocks[1].port, "led");
    assert_eq!(clocks[1].frequency.exponent, 3);
}

#[test]
fn an_unpinned_clock_lists_the_known_pins() {
    let err = with_clocks("clock_50", "50 MHz").unwrap_err();
    assert_eq!(
        err,
        "chipsmith.toml parse error in chipsmith.toml: [clocks] 'clock_50' has no matching entry in [pins]; known pins: clk, led"
    );
}

#[test]
fn sources_resolve_pattern_by_pattern() {
    let mut file = valid_file();
    file.hdl.sources = vec![s("src/*.vhd"), s("tb/*.vhd")];
    let m = parse_manifest(file).unwrap();
    assert_eq!(m.source_patterns("/proj"), vec!["/proj/src/*.vhd", "/proj/tb/*.vhd"]);

    let found = vec![
        vec![s("/proj/src/a.vhd"), s("/proj/src/b.vhd")],
        vec![s("/proj/tb/a_tb.vhd")],
    ];
    assert_eq!(
        m.resolve_sources("/proj", &found).unwrap(),
        vec!["/proj/src/a.vhd", "/proj/src/b.vhd", "/proj/tb/a_tb.vhd"]
    );

    let nothing = vec![vec![s("/proj/src/a.vhd")], vec![]];
    match m.resolve_sources("/proj", &nothing) {
        Err(ChipsmithError::NoSourceFiles { pattern }) => assert_eq!(pattern, "tb/*.vhd"),
        other => panic!("expected NoSourceFiles, got {other:?}"),
    }
}

#[test]
fn an_invalid_glob_is_a_manifest_error() {
    let mut file = valid_file();
    file.hdl.sources = vec![s("src/a**b.vhd")];
    let m = parse_manifest(file).unwrap();
    let err = m.resolve_sources("/proj", &vec![vec![]]).unwrap_err();
    match err {
        ChipsmithError::ManifestParse { path, message } => {
            assert_eq!(path, "/proj/chipsmith.toml");
            assert!(message.starts_with("invalid glob pattern 'src/a**b.vhd': "), "{message}");
            assert!(message.contains("Pattern syntax error"), "{message}");
        }
        other => panic!("expected ManifestParse, got {other:?}"),
    }
}
