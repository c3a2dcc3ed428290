use chipsmith::download::{cache_dir, cache_dir_from, download_paths, unzip_command, unzip_spec};
use chipsmith::install::{
    cdn_url, device_after_download, device_after_unzip, device_jobs, device_marker, device_start,
    ensure_steps, DeviceAction, EnsureStep, QUARTUS_CDN,
};
use chipsmith::process::Capture;
use chipsmith::product::{DeviceSupport, KnownVersion, QuartusVersion};

#[test]
fn cdn_url_format() {
    let ver = QuartusVersion {
        version: "1.0".to_string(),
        revision: "100".to_string(),
        filename: "test.run".to_string(),
    };
    let url = cdn_url(&ver, "device.qdz");
    assert_eq!(
        url,
        "https://download.altera.com/akdlm/software/acdsinst/1.0/100/ib_installers/device.qdz"
    );
}

#[test]
fn the_installer_and_device_support_come_from_the_same_release_directory() {
    let ver = QuartusVersion {
        version: "23.1std".to_string(),
        revision: "991".to_string(),
        filename: "QuartusLiteSetup-23.1std.0.991-linux.run".to_string(),
    };
    let installer = cdn_url(&ver, &ver.filename);
    assert!(installer.starts_with(QUARTUS_CDN));
    assert!(installer.ends_with("/23.1std/991/ib_installers/QuartusLiteSetup-23.1std.0.991-linux.run"));
}

#[test]
fn a_device_marker_lives_in_the_installation() {
    assert_eq!(
        device_marker("/opt/q/23.1", "cyclonev"),
        "/opt/q/23.1/.chipsmith_device_installed_/cyclonev"
    );
}

#[test]
fn downloads_land_in_chipsmiths_own_cache_directory() {
    assert_eq!(
        cache_dir_from(Some("/home/u/.cache".to_string()), Some("/home/u".to_string())),
        Some("/home/u/.cache/chipsmith".to_string())
    );
    assert_eq!(
        cache_dir_from(None, Some("/home/u".to_string())),
        Some("/home/u/.cache/chipsmith".to_string())
    );
    assert_eq!(cache_dir_from(None, None), None);
}

#[test]
fn a_partial_download_is_written_beside_its_destination() {
    let (dest, part) = download_paths("/c/chipsmith", "q.run");
    assert_eq!(dest, "/c/chipsmith/q.run");
    assert_eq!(part, "/c/chipsmith/q.run.part");
}

#[test]
fn device_support_is_unpacked_quietly_over_the_installation() {
    let spec = unzip_spec("/c/cyclonev.qdz", "/opt/q/23.1");
    assert_eq!(spec.program, "unzip");
    assert_eq!(spec.args, vec!["-q", "-o", "/c/cyclonev.qdz", "-d", "/opt/q/23.1"]);
    assert_eq!(spec.capture, Capture::Piped);
    assert_eq!(unzip_command("/c/cyclonev.qdz"), "unzip /c/cyclonev.qdz");
}

#[test]
fn every_device_support_package_becomes_one_job_in_order() {
    let version = KnownVersion {
        key: "23.1".to_string(),
        download: QuartusVersion {
            version: "23.1std".to_string(),
            revision: "991".to_string(),
            filename: "q.run".to_string(),
        },
        install_subdir: "23.1".to_string(),
        devices: vec![
            DeviceSupport { family: "cyclonev".to_string(), filename: "cyclonev.qdz".to_string() },
            DeviceSupport { family: "max10".to_string(), filename: "max10.qdz".to_string() },
        ],
    };
    let jobs = device_jobs(&version, "/opt/q");
    assert_eq!(jobs.len(), 2);
    assert_eq!(jobs[0].family, "cyclonev");
    assert_eq!(jobs[0].url, format!("{QUARTUS_CDN}/23.1std/991/ib_installers/cyclonev.qdz"));
    assert_eq!(jobs[0].filename, "cyclonev.qdz");
    assert_eq!(jobs[0].marker, "/opt/q/.chipsmith_device_installed_/cyclonev");
    assert_eq!(jobs[1].family, "max10");
}

#[test]
fn the_cache_on_this_machine_is_chipsmiths_own_directory() {
    if let Some(dir) = cache_dir() {
        assert!(dir.ends_with("/chipsmith"), "{dir}");
    }
}

fn version_23() -> KnownVersion {
    KnownVersion {
        key: "23.1".to_string(),
        download: QuartusVersion {
            version: "23.1std".to_string(),
            revision: "991".to_string(),
            filename: "q.run".to_string(),
        },
        install_subdir: "23.1".to_string(),
        devices: vec![DeviceSupport { family: "max10".to_string(), filename: "max10.qdz".to_string() }],
    }
}

#[test]
fn installed_device_support_is_skipped_and_missing_support_fetched() {
    let job = &device_jobs(&version_23(), "/opt/q")[0];
    assert!(matches!(device_start(job, true), DeviceAction::Skip));
    match device_start(job, false) {
        DeviceAction::Download { url, filename } => {
            assert_eq!(url, job.url);
            assert_eq!(filename, "max10.qdz");
        }
        other => panic!("unexpected {other:?}"),
    }
}

#[test]
fn a_failed_download_is_a_warning_and_no_marker() {
    let job = &device_jobs(&version_23(), "/opt/q")[0];
    match device_after_download(job, "/opt/q", Err("HTTP 404".to_string())) {
        DeviceAction::Warn(text) => {
            assert_eq!(text, "Warning: failed to download max10 device support: HTTP 404")
        }
        other => panic!("unexpected {other:?}"),
    }
    match device_after_download(job, "/opt/q", Ok("/c/max10.qdz".to_string())) {
        DeviceAction::Unzip { spec, command } => {
            assert_eq!(spec.command_line(), "unzip -q -o /c/max10.qdz -d /opt/q");
            assert_eq!(command, "unzip /c/max10.qdz");
        }
        other => panic!("unexpected {other:?}"),
    }
}

#[test]
fn only_a_successful_unpack_writes_the_marker() {
    let job = &device_jobs(&version_23(), "/opt/q")[0];
    match device_after_unzip(job, Ok(())) {
        DeviceAction::WriteMarker(path) => {
            assert_eq!(path, "/opt/q/.chipsmith_device_installed_/max10")
        }
        other => panic!("unexpected {other:?}"),
    }
    match device_after_unzip(job, Err("bad archive".to_string())) {
        DeviceAction::Warn(text) => {
            assert_eq!(text, "Warning: failed to install max10 device support: bad archive")
        }
        other => panic!("unexpected {other:?}"),
    }
}

#[test]
fn an_installed_version_only_sees_to_its_device_support() {
    let v = version_23();
    let steps = ensure_steps(&v, true);
    assert_eq!(steps.len(), 1);
    assert!(matches!(steps[0], EnsureStep::DeviceSupport));
    let steps = ensure_steps(&v, false);
    assert_eq!(steps.len(), 3);
    match &steps[0] {
        EnsureStep::FetchInstaller { url, filename } => {
            assert_eq!(url, &format!("{QUARTUS_CDN}/23.1std/991/ib_installers/q.run"));
            assert_eq!(filename, "q.run");
        }
        other => panic!("unexpected {other:?}"),
    }
    assert!(matches!(steps[1], EnsureStep::Install));
    assert!(matches!(steps[2], EnsureStep::DeviceSupport));
}
