use chipsmith::error::ChipsmithError;
use chipsmith::nixos::{
    build_ld_library_path, is_elf, nix_eval_spec, patch_shebang, NixCompat, NixPaths, BASE_ATTRS,
    THIRTY_TWO_BIT_ATTRS,
};
use chipsmith::product::SpawnStrategy;

#[test]
fn ld_library_path_order_follows_attribute_name() {
    let paths = NixPaths::from_json(
        br#"{"zlib": "/nix/store/z", "glibc": "/nix/store/g", "bash": "/nix/store/b"}"#,
    )
    .unwrap();
    let ordered: Vec<_> = paths.paths.as_slice().iter().map(|(k, _)| k.clone()).collect();
    assert_eq!(ordered, vec!["bash", "glibc", "zlib"]);
    assert_eq!(
        paths.lib_candidates(),
        vec!["/nix/store/b/lib", "/nix/store/g/lib", "/nix/store/z/lib"]
    );
}

#[test]
fn joins_lib_paths_with_colons() {
    let joined = build_ld_library_path(&vec!["/a/lib".to_string(), "/b/lib".to_string()]);
    assert_eq!(joined, "/a/lib:/b/lib");
}

#[test]
fn only_the_32_bit_expression_names_the_i686_package_set() {
    assert!(!BASE_ATTRS.contains("pkgsi686Linux"));
    assert!(THIRTY_TWO_BIT_ATTRS.contains("pkgsi686Linux"));
    assert!(THIRTY_TWO_BIT_ATTRS.contains("bubblewrap"));
}

#[test]
fn the_nix_eval_asks_for_the_i686_set_only_when_sandboxing() {
    let spec = nix_eval_spec(SpawnStrategy::PatchElf);
    assert!(spec.command_line().starts_with("nix eval --impure --json --expr let pkgs"));
    assert!(!spec.args[4].contains("pkgsi686Linux"));
    assert!(nix_eval_spec(SpawnStrategy::Bubblewrap32).args[4].contains("pkgsi686Linux"));
}

fn compat(strategy: SpawnStrategy, with_32bit: bool) -> NixCompat {
    NixCompat {
        ld_library_path: String::new(),
        strategy,
        bash_path: "/nix/bash".to_string(),
        patchelf_bin: "/nix/patchelf".to_string(),
        dynamic_linker: "/nix/ld-linux-x86-64.so.2".to_string(),
        dynamic_linker_32: with_32bit.then(|| "/nix/ld-linux.so.2".to_string()),
        bwrap_bin: with_32bit.then(|| "/nix/bwrap".to_string()),
    }
}

#[test]
fn a_64_bit_product_never_sandboxes() {
    let compat = compat(SpawnStrategy::PatchElf, true);
    assert!(compat.bwrap_argv("/q/quartus_sh").is_none());
}

#[test]
fn sandbox_mounts_the_32_bit_loader_where_the_binary_looks_for_it() {
    let compat = compat(SpawnStrategy::Bubblewrap32, true);
    let argv = compat.bwrap_argv("/q/quartus_sh").unwrap();

    assert_eq!(argv[0], "/nix/bwrap");
    assert_eq!(argv.last().unwrap(), "/q/quartus_sh");
    let symlink = argv.iter().position(|a| a == "--symlink").unwrap();
    assert_eq!(argv[symlink + 1], "/nix/ld-linux.so.2");
    assert_eq!(argv[symlink + 2], "/lib/ld-linux.so.2");
    // /lib has to be a tmpfs or the symlink can't be created over the host's
    assert!(argv.windows(2).any(|w| w == ["--tmpfs", "/lib"]));
}

#[test]
fn falls_back_to_a_plain_spawn_when_bubblewrap_is_missing() {
    let compat = compat(SpawnStrategy::Bubblewrap32, false);
    assert!(compat.bwrap_argv("/q/quartus_sh").is_none());
}

#[test]
fn the_sandbox_binds_the_home_directory_it_is_given() {
    let compat = compat(SpawnStrategy::Bubblewrap32, true);
    let argv = compat.bwrap_argv_in("/home/u", "/q/quartus_sh").unwrap();
    assert_eq!(argv[7..10], ["--bind", "/home/u", "/home/u"]);
    assert_eq!(argv.len(), 20);
}

#[test]
fn the_compat_layer_needs_glibc_patchelf_and_bash() {
    let full = NixPaths::from_json(
        br#"{"glibc": "/g", "patchelf": "/p", "bash": "/b", "bubblewrap": "/w", "glibc32": "/g32"}"#,
    )
    .unwrap();
    let c = NixCompat::from_paths(SpawnStrategy::Bubblewrap32, &full, &vec!["/g/lib".to_string()]).unwrap();
    assert_eq!(c.dynamic_linker, "/g/lib/ld-linux-x86-64.so.2");
    assert_eq!(c.patchelf_bin, "/p/bin/patchelf");
    assert_eq!(c.bash_path, "/b/bin/bash");
    assert_eq!(c.bwrap_bin.as_deref(), Some("/w/bin/bwrap"));
    assert_eq!(c.dynamic_linker_32.as_deref(), Some("/g32/lib/ld-linux.so.2"));
    assert_eq!(c.ld_library_path, "/g/lib");

    let no_bash = NixPaths::from_json(br#"{"glibc": "/g", "patchelf": "/p"}"#).unwrap();
    match NixCompat::from_paths(SpawnStrategy::PatchElf, &no_bash, &vec![]) {
        Err(ChipsmithError::NixPackageMissing { attr }) => assert_eq!(attr, "bash"),
        _ => panic!("expected a missing package"),
    }
}

#[test]
fn unreadable_nix_output_is_an_error() {
    match NixPaths::from_json(b"not json") {
        Err(ChipsmithError::NixEvalOutput { message }) => assert!(!message.is_empty()),
        _ => panic!("expected NixEvalOutput"),
    }
}

#[test]
fn only_bash_scripts_get_a_new_shebang() {
    assert_eq!(
        patch_shebang(b"#!/bin/bash\necho hi\n", "/nix/b/bin/bash").unwrap(),
        b"#!/nix/b/bin/bash\necho hi\n".to_vec()
    );
    assert!(patch_shebang(b"#!/bin/sh\n", "/nix/b/bin/bash").is_none());
    assert!(patch_shebang(b"#!/bin", "/nix/b/bin/bash").is_none());
}

#[test]
fn elf_files_are_recognised_by_their_magic() {
    assert!(is_elf(b"\x7fELF\x02\x01"));
    assert!(!is_elf(b"\x7fELF"));
    assert!(!is_elf(b"#!/bin/bash"));
}

#[test]
fn patching_an_elf_points_its_interpreter_at_the_nix_loader() {
    let compat = compat(SpawnStrategy::PatchElf, false);
    let spec = compat.patch_elf_spec("/q/bin/quartus_sh");
    assert_eq!(
        spec.command_line(),
        "/nix/patchelf --set-interpreter /nix/ld-linux-x86-64.so.2 /q/bin/quartus_sh"
    );
    assert_eq!(spec.capture, chipsmith::process::Capture::Null);
}

#[test]
fn a_failed_nix_eval_carries_everything_it_said() {
    let failed = chipsmith::process::ProcessOutcome {
        code: Some(1),
        stdout: vec![],
        stderr_tail: Some("error: attribute 'glibc' missing".to_string()),
    };
    match NixPaths::from_eval(failed) {
        Err(ChipsmithError::NixEvalFailed { message }) => {
            assert_eq!(message, "error: attribute 'glibc' missing")
        }
        other => panic!("unexpected {:?}", other.err()),
    }
    let ok = chipsmith::process::ProcessOutcome {
        code: Some(0),
        stdout: br#"{"bash": "/nix/store/b"}"#.to_vec(),
        stderr_tail: None,
    };
    let paths = NixPaths::from_eval(ok).unwrap();
    assert_eq!(paths.bash().unwrap(), "/nix/store/b/bin/bash");
    let garbled = chipsmith::process::ProcessOutcome {
        code: Some(0),
        stdout: b"not json".to_vec(),
        stderr_tail: None,
    };
    assert!(matches!(NixPaths::from_eval(garbled), Err(ChipsmithError::NixEvalOutput { .. })));
}
