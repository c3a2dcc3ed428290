use chipsmith::error::ChipsmithError;
use chipsmith::nixos::NixCompat;
use chipsmith::process::{Capture, ProcessOutcome};
use chipsmith::product::{quartus_ii_13, quartus_prime, SpawnStrategy};
use chipsmith::runner::{
    check_installer, check_outcome, flash_args, install_patch_dirs, install_plan, install_steps,
    installer_args, installer_spec, require_installed, tool_command, tool_path, tool_spec,
    InstallStep,
};
use chipsmith::toolchain::{flash_request, QuartusToolchain};

#[test]
fn tool_path_lives_under_quartus_bin() {
    let path = tool_path("/opt/q", "quartus_map").unwrap();
    assert_eq!(path, "/opt/q/quartus/bin/quartus_map");
}

#[test]
fn an_unknown_tool_is_rejected_with_the_list_of_known_ones() {
    let err = tool_path("/opt/q", "vivado").unwrap_err();
    let msg = err.message();
    assert!(msg.contains("vivado"), "{msg}");
    assert!(msg.contains("quartus_map"), "{msg}");
}

#[test]
fn flashing_programs_the_bitstream_over_jtag() {
    let args = flash_args("/proj/build/output_files/blinky.sof", None);
    assert_eq!(args, vec!["-m", "jtag", "-o", "P;/proj/build/output_files/blinky.sof"]);
}

#[test]
fn a_named_cable_is_passed_through() {
    let args = flash_args("/b.sof", Some("USB-Blaster"));
    assert!(args.windows(2).any(|w| w == ["-c", "USB-Blaster"]));
}

#[test]
fn installer_runs_unattended_into_the_requested_directory() {
    let args = installer_args(&quartus_prime(), "/home/u/q");
    assert_eq!(args[0], "--mode");
    assert_eq!(args[1], "unattended");
    let installdir = args.iter().position(|a| a == "--installdir").unwrap();
    assert_eq!(args[installdir + 1], "/home/u/q");
}

#[test]
fn the_eula_flag_is_only_passed_to_products_that_accept_it() {
    let with = installer_args(&quartus_prime(), "/q");
    assert!(with.windows(2).any(|w| w == ["--accept_eula", "1"]));

    let without = installer_args(&quartus_ii_13(), "/q");
    assert!(!without.iter().any(|a| a == "--accept_eula"));
}

#[test]
fn off_nixos_a_tool_spec_is_the_tool_itself() {
    let spec = tool_spec(
        "/opt/q/quartus/bin/quartus_map",
        &vec!["blinky".to_string()],
        Some("/proj/build"),
        None,
    );
    assert_eq!(spec.command_line(), "/opt/q/quartus/bin/quartus_map blinky");
    assert_eq!(spec.working_dir.as_deref(), Some("/proj/build"));
    assert_eq!(spec.capture, Capture::Tee);
    assert!(spec.env.is_empty());
}

fn compat(strategy: SpawnStrategy, with_32bit: bool) -> NixCompat {
    NixCompat {
        ld_library_path: "/nix/glibc/lib".to_string(),
        strategy,
        bash_path: "/nix/bash".to_string(),
        patchelf_bin: "/nix/patchelf".to_string(),
        dynamic_linker: "/nix/ld-linux-x86-64.so.2".to_string(),
        dynamic_linker_32: with_32bit.then(|| "/nix/ld-linux.so.2".to_string()),
        bwrap_bin: with_32bit.then(|| "/nix/bwrap/bin/bwrap".to_string()),
    }
}

#[test]
fn on_nixos_a_32_bit_tool_runs_inside_the_sandbox() {
    let c = compat(SpawnStrategy::Bubblewrap32, true);
    let spec = tool_spec("/opt/q/quartus/bin/quartus_map", &vec!["blinky".to_string()], None, Some(&c));
    let line = spec.command_line();
    assert!(line.starts_with("/nix/bwrap/bin/bwrap"), "{line}");
    assert!(line.contains("--tmpfs /lib"), "{line}");
    assert!(line.ends_with("/opt/q/quartus/bin/quartus_map blinky"), "{line}");
    assert_eq!(spec.env[0].0, "LD_LIBRARY_PATH");
}

#[test]
fn on_nixos_a_64_bit_tool_gets_a_library_path_but_no_sandbox() {
    let c = compat(SpawnStrategy::PatchElf, true);
    let spec = tool_spec("/opt/q/quartus/bin/quartus_map", &vec![], None, Some(&c));
    assert_eq!(spec.program, "/opt/q/quartus/bin/quartus_map");
    assert_eq!(spec.env, vec![("LD_LIBRARY_PATH".to_string(), "/nix/glibc/lib".to_string())]);
}

#[test]
fn a_failing_tool_carries_out_what_it_said() {
    let outcome = ProcessOutcome {
        code: Some(1),
        stdout: vec![],
        stderr_tail: Some("Error (10500): VHDL syntax error at blinky.vhd(14)".to_string()),
    };
    let err = check_outcome(outcome, tool_command("quartus_map", &vec!["blinky".to_string()]))
        .unwrap_err();
    let msg = err.message();
    assert!(msg.contains("quartus_map blinky"), "{msg}");
    assert!(msg.contains("blinky.vhd(14)"), "{msg}");
    assert_eq!(
        msg,
        "process `quartus_map blinky` failed with exit code Some(1)\nError (10500): VHDL syntax error at blinky.vhd(14)"
    );
}

#[test]
fn a_successful_or_signalled_exit() {
    assert!(check_outcome(ProcessOutcome { code: Some(0), stdout: vec![], stderr_tail: None }, String::new()).is_ok());
    let err = check_outcome(ProcessOutcome { code: None, stdout: vec![], stderr_tail: None }, "x".to_string())
        .unwrap_err();
    assert_eq!(err.message(), "process `x` failed with exit code None");
    let err = check_outcome(ProcessOutcome { code: Some(-9), stdout: vec![], stderr_tail: None }, "y".to_string())
        .unwrap_err();
    assert_eq!(err.message(), "process `y` failed with exit code Some(-9)");
}

#[test]
fn off_nixos_the_installer_runs_unpatched() {
    let spec = installer_spec(&quartus_prime(), "/tmp/setup.run", "/home/u/q", None);
    let line = spec.command_line();
    assert!(line.starts_with("/tmp/setup.run --mode unattended"), "{line}");
    assert!(line.ends_with("--installdir /home/u/q --accept_eula 1"), "{line}");
}

#[test]
fn the_bundled_simulator_is_patched_with_the_rest() {
    let dirs = install_patch_dirs(&quartus_ii_13(), "/q");
    assert_eq!(
        dirs,
        vec![
            "/q/quartus/bin",
            "/q/quartus/linux64",
            "/q/quartus/adm",
            "/q/modelsim_ase/bin",
            "/q/modelsim_ase/linuxaloem",
            "/q/modelsim_ase/linux_x86_64",
        ]
    );
}

#[test]
fn flashing_a_missing_bitstream_is_reported() {
    let err = flash_request("/p/build/output_files/b.sof", false, None).unwrap_err();
    assert!(matches!(err, ChipsmithError::OutputNotFound { .. }));
    assert_eq!(
        err.message(),
        "output file not found: /p/build/output_files/b.sof (have you run `chipsmith build`?)"
    );
    assert_eq!(flash_request("/b.sof", true, Some("USB-Blaster")).unwrap(), flash_args("/b.sof", Some("USB-Blaster")));
}

#[test]
fn the_toolchain_answers_to_its_backend() {
    let t = QuartusToolchain::new(quartus_ii_13());
    assert_eq!(t.name(), "quartus-ii-13");
    assert_eq!(t.product().install_root, "altera");
    assert_eq!(t.install_dir_in("/h", "13.0sp1").unwrap(), "/h/altera/13.0sp1");
    assert!(matches!(t.install_dir_in("/h", "23.1"), Err(ChipsmithError::UnknownVersion { .. })));
}

#[test]
fn a_missing_installer_is_reported_before_anything_runs() {
    assert!(check_installer("/tmp/setup.run", true).is_ok());
    match check_installer("/tmp/setup.run", false) {
        Err(ChipsmithError::InstallerNotFound { path }) => assert_eq!(path, "/tmp/setup.run"),
        other => panic!("expected InstallerNotFound, got {other:?}"),
    }
}

#[test]
fn a_tool_that_is_not_installed_says_so_before_spawning_anything() {
    assert!(require_installed("/opt/q", true).is_ok());
    match require_installed("/opt/q", false) {
        Err(ChipsmithError::NotInstalled { path }) => assert_eq!(path, "/opt/q"),
        other => panic!("expected NotInstalled, got {other:?}"),
    }
}

#[test]
fn off_nixos_installing_is_running_the_installer() {
    let steps = install_plan(&quartus_prime(), "/tmp/setup.run", "/home/u/q", None);
    assert_eq!(steps.len(), 1);
    match &steps[0] {
        InstallStep::RunInstaller { spec, command } => {
            assert_eq!(command, "/tmp/setup.run");
            assert!(spec.command_line().ends_with("--installdir /home/u/q --accept_eula 1"));
            assert!(spec.env.is_empty());
        }
        other => panic!("unexpected step {other:?}"),
    }
}

#[test]
fn on_nixos_a_64_bit_installer_is_patched_rather_than_sandboxed() {
    let c = compat(SpawnStrategy::PatchElf, true);
    let steps = install_steps(&quartus_prime(), "/tmp/setup.run", "/q", Some(&c), "/home/u");
    assert_eq!(steps.len(), 3);
    match &steps[0] {
        InstallStep::PatchInstaller(p) => assert_eq!(
            p.command_line(),
            "/nix/patchelf --set-interpreter /nix/ld-linux-x86-64.so.2 /tmp/setup.run"
        ),
        other => panic!("unexpected step {other:?}"),
    }
    match &steps[1] {
        InstallStep::RunInstaller { spec, .. } => {
            assert_eq!(spec.program, "/tmp/setup.run");
            assert_eq!(spec.env, vec![("LD_LIBRARY_PATH".to_string(), "/nix/glibc/lib".to_string())]);
        }
        other => panic!("unexpected step {other:?}"),
    }
    match &steps[2] {
        InstallStep::PatchDirs(dirs) => assert_eq!(dirs, &install_patch_dirs(&quartus_prime(), "/q")),
        other => panic!("unexpected step {other:?}"),
    }
}

#[test]
fn on_nixos_a_32_bit_installer_runs_inside_the_sandbox() {
    let c = compat(SpawnStrategy::Bubblewrap32, true);
    let steps = install_steps(&quartus_ii_13(), "/tmp/setup.run", "/q", Some(&c), "/home/u");
    assert_eq!(steps.len(), 3);
    assert!(matches!(steps[0], InstallStep::SandboxInstaller));
    match &steps[1] {
        InstallStep::RunInstaller { spec, command } => {
            let line = spec.command_line();
            assert!(line.starts_with("/nix/bwrap/bin/bwrap --ro-bind / / --bind /tmp /tmp --bind /home/u /home/u"), "{line}");
            assert!(line.ends_with("/tmp/setup.run --mode unattended --unattendedmodeui none --installdir /q"), "{line}");
            assert_eq!(command, "/tmp/setup.run");
        }
        other => panic!("unexpected step {other:?}"),
    }
    assert!(matches!(steps[2], InstallStep::PatchDirs(_)));
}
