use chipsmith::scaffold::{
    check_new_project, entity_template, manifest_path, manifest_template, scaffold_files, scaffold_name,
    vhdl_identifier,
    InitOptions,
};

#[test]
fn the_scaffolded_entity_is_named_after_the_project() {
    let vhdl = entity_template("blinky");
    assert!(vhdl.contains("entity blinky is"));
    assert!(vhdl.contains("architecture rtl of blinky is"));
}

#[test]
fn hyphens_become_underscores() {
    assert_eq!(vhdl_identifier("seven-seg"), "seven_seg");
}

#[test]
fn a_name_starting_with_a_digit_gets_a_prefix() {
    assert_eq!(vhdl_identifier("7seg"), "p_7seg");
    assert!(entity_template(&vhdl_identifier("7seg")).contains("entity p_7seg is"));
}

#[test]
fn the_manifest_template_is_the_documented_layout() {
    let opts = InitOptions {
        name: None,
        backend: "quartus-prime".to_string(),
        version: "23.1".to_string(),
        family: "Cyclone V".to_string(),
        device: "5CSEBA6U23I7".to_string(),
    };
    let text = manifest_template("blinky", &opts);
    assert_eq!(
        text,
        "[project]\nname = \"blinky\"\ntop = \"blinky\"\n\n[toolchain]\nquartus-prime = \"23.1\"\n\n[target]\nfamily = \"Cyclone V\"\ndevice = \"5CSEBA6U23I7\"\n\n[hdl]\nsources = [\"src/*.vhd\"]\n\n[pins]\n\n# Port frequencies, e.g. clk = \"50 MHz\". Without these the timing report is meaningless.\n[clocks]\n"
    );
}

#[test]
fn a_new_project_is_named_by_option_then_directory_then_default() {
    assert_eq!(scaffold_name(Some("my-design".to_string()), Some("dir".to_string())), "my_design");
    assert_eq!(scaffold_name(None, Some("7seg".to_string())), "p_7seg");
    assert_eq!(scaffold_name(None, None), "project");
}

#[test]
fn a_new_project_gets_a_manifest_an_entity_and_a_gitignore() {
    let opts = InitOptions {
        name: None,
        backend: "quartus-prime".to_string(),
        version: "23.1".to_string(),
        family: "Cyclone V".to_string(),
        device: "5CSEBA6U23I7".to_string(),
    };
    assert_eq!(manifest_path("/p/blinky"), "/p/blinky/chipsmith.toml");
    let files = scaffold_files("/p/blinky", "blinky", &opts);
    let paths: Vec<(&str, bool)> =
        files.iter().map(|f| (f.path.as_str(), f.keep_existing)).collect();
    assert_eq!(
        paths,
        vec![
            ("/p/blinky/chipsmith.toml", false),
            ("/p/blinky/src/blinky.vhd", true),
            ("/p/blinky/.gitignore", true),
        ]
    );
    assert_eq!(files[0].contents, manifest_template("blinky", &opts));
    assert!(files[1].contents.contains("entity blinky is"));
    assert_eq!(files[2].contents, "build/\n");
}

#[test]
fn a_legal_identifier_is_left_as_it_is() {
    for name in ["7-seg", "blinky", "my-top-level", "0"] {
        let once = vhdl_identifier(name);
        assert_eq!(vhdl_identifier(&once), once);
    }
    assert_eq!(scaffold_name(None, Some("7-seg".to_string())), "p_7_seg");
    assert_eq!(scaffold_name(None, None), "project");
}

#[test]
fn a_directory_with_a_manifest_is_not_scaffolded_over() {
    assert!(check_new_project("/p/blinky", false).is_ok());
    match check_new_project("/p/blinky", true) {
        Err(chipsmith::error::ChipsmithError::ProjectAlreadyExists { path }) => {
            assert_eq!(path, "/p/blinky/chipsmith.toml")
        }
        other => panic!("unexpected {other:?}"),
    }
}
