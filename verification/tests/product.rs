use chipsmith::product::{
    find_product, quartus_ii_13, quartus_prime, version_or_latest, BundledSimulator, InstallerSpec, KnownVersion,
    QuartusProduct, QuartusVersion, SpawnStrategy,
};

fn version(key: &str, revision: &str, filename: &str) -> KnownVersion {
    KnownVersion {
        key: key.to_string(),
        download: QuartusVersion {
            version: key.to_string(),
            revision: revision.to_string(),
            filename: filename.to_string(),
        },
        install_subdir: key.to_string(),
        devices: vec![],
    }
}

fn test_product() -> QuartusProduct {
    QuartusProduct {
        backend: "test-product".to_string(),
        display_name: "Test Product".to_string(),
        install_root: "testFPGA".to_string(),
        versions: vec![version("1.0", "100", "test.run"), version("2.0", "200", "test2.run")],
        latest: "2.0".to_string(),
        installer: InstallerSpec { accepts_eula_flag: true },
        spawn: SpawnStrategy::PatchElf,
        simulator: BundledSimulator {
            subdir: "modelsim_ase".to_string(),
            display_name: "Test Simulator".to_string(),
            needs_license: false,
        },
    }
}

#[test]
fn product_lookup_finds_known_version() {
    let product = test_product();
    let v = product.lookup("1.0").unwrap();
    assert_eq!(v.key, "1.0");
    assert_eq!(v.download.revision, "100");
}

#[test]
fn lookup_lists_the_alternatives_it_knows_about() {
    let err = test_product().lookup("99.0").unwrap_err();
    let msg = err.message();
    assert!(msg.contains("99.0"));
    assert!(msg.contains("1.0"));
    assert!(msg.contains("2.0"));
}

#[test]
fn latest_is_always_a_version_the_product_knows() {
    let product = test_product();
    assert!(product.lookup(&product.latest).is_ok());
}

#[test]
fn install_dir_combines_install_root_and_subdir() {
    let product = test_product();
    let dir = product.install_dir_for(product.lookup("1.0").unwrap()).unwrap();
    assert!(dir.ends_with("testFPGA/1.0"), "{dir}");
}

#[test]
fn only_the_32_bit_strategy_pays_for_the_i686_package_set() {
    assert!(!SpawnStrategy::PatchElf.needs_32bit());
    assert!(SpawnStrategy::Bubblewrap32.needs_32bit());
}

#[test]
fn lib_lookup_finds_known_version() {
    assert!(quartus_ii_13().lookup("13.0sp1").is_ok());
}

#[test]
fn lib_lookup_rejects_unknown() {
    assert!(quartus_ii_13().lookup("14.0").is_err());
    assert!(quartus_prime().lookup("99.0").is_err());
}

#[test]
fn lib_latest_is_valid() {
    let ii = quartus_ii_13();
    assert!(ii.lookup(&ii.latest).is_ok());
    let prime = quartus_prime();
    assert!(prime.lookup(&prime.latest).is_ok());
}

#[test]
fn lib_install_dir_contains_version() {
    let ii = quartus_ii_13();
    let dir = ii.install_dir_for(ii.lookup("13.0sp1").unwrap()).unwrap();
    assert!(dir.ends_with("altera/13.0sp1"), "{dir}");
}

#[test]
fn needs_the_32_bit_sandbox_and_rejects_the_eula_flag() {
    let product = quartus_ii_13();
    assert!(product.spawn.needs_32bit());
    assert!(!product.installer.accepts_eula_flag);
}

#[test]
fn lookup_finds_all_versions() {
    let product = quartus_prime();
    assert!(product.lookup("23.1").is_ok());
    assert!(product.lookup("22.1").is_ok());
    assert!(product.lookup("24.1").is_ok());
}

#[test]
fn install_dir_contains_version() {
    let product = quartus_prime();
    let dir = product.install_dir_for(product.lookup("23.1").unwrap()).unwrap();
    assert!(dir.ends_with("intelFPGA_lite/23.1std"), "{dir}");
}

#[test]
fn does_not_need_the_32_bit_sandbox() {
    let product = quartus_prime();
    assert_eq!(product.spawn, SpawnStrategy::PatchElf);
    assert!(!product.spawn.needs_32bit());
}

#[test]
fn install_dir_under_a_given_home() {
    let product = quartus_prime();
    let v = product.lookup("24.1").unwrap();
    assert_eq!(product.install_dir_in("/home/u", v), "/home/u/intelFPGA_lite/24.1std");
}

#[test]
fn the_simulator_sits_in_the_install_root() {
    let product = quartus_ii_13();
    assert_eq!(product.simulator.bin_dir("/q"), "/q/modelsim_ase/bin");
    assert_eq!(product.simulator.vendor_ini("/q/"), "/q/modelsim_ase/modelsim.ini");
}

#[test]
fn backends_resolve_by_name() {
    assert_eq!(find_product("quartus-ii-13").unwrap().display_name, "Quartus II");
    assert_eq!(find_product("quartus-prime").unwrap().install_root, "intelFPGA_lite");
    let err = find_product("vivado").unwrap_err();
    assert_eq!(
        err.message(),
        "unknown toolchain backend: vivado (available: quartus-prime, quartus-ii-13)"
    );
}

#[test]
fn an_omitted_version_is_the_selected_backends_latest() {
    assert_eq!(version_or_latest("quartus-prime", None).unwrap(), "23.1");
    assert_eq!(version_or_latest("quartus-ii-13", None).unwrap(), "13.0sp1");
    assert_eq!(version_or_latest("quartus-prime", Some("24.1")).unwrap(), "24.1");
    assert!(matches!(
        version_or_latest("vivado", None),
        Err(chipsmith::error::ChipsmithError::UnknownBackend { .. })
    ));
}
