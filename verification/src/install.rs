//! Where a Version and its Device Support come from, and how an installation
//! remembers which Device Support it already has.

use vstd::prelude::*;

use crate::path::{join, path_join};
use crate::download::{unzip_command, unzip_spec};
use crate::process::{argv, Capture, ProcessSpec};
use crate::product::{DeviceSupport, KnownVersion, QuartusVersion};

verus! {

// Intel spun Altera out and retired the downloads.intel.com/akdlm paths — they now
// 301 into corpredirect.intel.com's 404 redirector. Altera serves the same directory
// layout from its own host. Revisit if Altera reorganises the CDN again.
pub const QUARTUS_CDN: &'static str = "https://download.altera.com/akdlm/software/acdsinst";

/// A file of a release on the CDN: `<cdn>/<version>/<revision>/ib_installers/<file>`.
pub open spec fn cdn_url_spec(version: Seq<char>, revision: Seq<char>, filename: Seq<char>) -> Seq<char> {
    QUARTUS_CDN@ + "/"@ + version + "/"@ + revision + "/ib_installers/"@ + filename
}

pub fn cdn_url(ver: &QuartusVersion, filename: &str) -> (res: String)
    ensures
        res@ == cdn_url_spec(ver.version@, ver.revision@, filename@),
{
    let mut s = String::from_str(QUARTUS_CDN);
    s.append("/");
    s.append(ver.version.as_str());
    s.append("/");
    s.append(ver.revision.as_str());
    s.append("/ib_installers/");
    s.append(filename);
    s
}

/// The marker file whose presence says a family's Device Support is
/// installed.
pub fn device_marker(install_dir: &str, family: &str) -> (res: String)
    ensures
        res@ == path_join(path_join(install_dir@, ".chipsmith_device_installed_"@), family@),
{
    let d = join(install_dir, ".chipsmith_device_installed_");
    join(d.as_str(), family)
}

/// What installing one family's Device Support involves: where its archive
/// is on the CDN, what it is called in the download cache, and the marker
/// that is written once it has been unpacked.
#[derive(Debug, Clone)]
pub struct DeviceJob {
    pub family: String,
    pub url: String,
    pub filename: String,
    pub marker: String,
}

pub open spec fn device_job_view(j: DeviceJob) -> (Seq<char>, Seq<char>, Seq<char>, Seq<char>) {
    (j.family@, j.url@, j.filename@, j.marker@)
}

/// The job for one Device Support package of a Version.
pub open spec fn device_job_spec(ver: QuartusVersion, install_dir: Seq<char>, d: DeviceSupport) -> (
    Seq<char>,
    Seq<char>,
    Seq<char>,
    Seq<char>,
) {
    (
        d.family@,
        cdn_url_spec(ver.version@, ver.revision@, d.filename@),
        d.filename@,
        path_join(path_join(install_dir, ".chipsmith_device_installed_"@), d.family@),
    )
}

/// Each Device Support job downloads exactly the archive the package names:
/// the job's file is the package's file, and its URL is the release's
/// installer directory on the CDN with that file name as its last component.
pub proof fn law_device_job_fetches_the_named_archive(
    ver: QuartusVersion,
    install_dir: Seq<char>,
    d: DeviceSupport,
)
    ensures
        device_job_spec(ver, install_dir, d).0 == d.family@,
        device_job_spec(ver, install_dir, d).2 == d.filename@,
        device_job_spec(ver, install_dir, d).1 == QUARTUS_CDN@ + "/"@ + ver.version@ + "/"@
            + ver.revision@ + "/ib_installers/"@ + d.filename@,
{
}

/// One job per Device Support package of the Version, in the order the
/// Version lists them. A family whose marker already exists is skipped by
/// the caller, and a package that fails to download or unpack is warned
/// about and left without a marker, so the next install tries it again.
pub fn device_jobs(version: &KnownVersion, install_dir: &str) -> (res: Vec<DeviceJob>)
    ensures
        res@.len() == version.devices@.len(),
        forall|i: int|
            0 <= i < res@.len() ==> device_job_view(#[trigger] res@[i]) == device_job_spec(
                version.download,
                install_dir@,
                version.devices@[i],
            ),
        forall|i: int|
            0 <= i < res@.len() ==> {
                &&& (#[trigger] res@[i]).family@ == version.devices@[i].family@
                &&& res@[i].filename@ == version.devices@[i].filename@
                &&& res@[i].url@ == QUARTUS_CDN@ + "/"@ + version.download.version@ + "/"@
                    + version.download.revision@ + "/ib_installers/"@ + version.devices@[i].filename@
            },
{
    let mut jobs: Vec<DeviceJob> = Vec::new();
    let mut i: usize = 0;
    while i < version.devices.len()
        invariant
            i <= version.devices@.len(),
            jobs@.len() == i,
            forall|k: int|
                0 <= k < i ==> device_job_view(#[trigger] jobs@[k]) == device_job_spec(
                    version.download,
                    install_dir@,
                    version.devices@[k],
                ),
        decreases version.devices@.len() - i,
    {
        let d = &version.devices[i];
        jobs.push(
            DeviceJob {
                family: d.family.clone(),
                url: cdn_url(&version.download, d.filename.as_str()),
                filename: d.filename.clone(),
                marker: device_marker(install_dir, d.family.as_str()),
            },
        );
        i = i + 1;
    }
    jobs
}

/// What to do next for one Device Support package.
#[derive(Debug, Clone)]
pub enum DeviceAction {
    /// Its marker is there: it is installed already.
    Skip,
    /// Fetch its archive into the download cache.
    Download { url: String, filename: String },
    /// Unpack the fetched archive over the installation; a failure is
    /// reported as `command`.
    Unzip { spec: ProcessSpec, command: String },
    /// Say that it failed and go on with the next package; no marker is
    /// written, so the next install tries it again.
    Warn(String),
    /// Write the marker that says it is installed.
    WriteMarker(String),
}

/// A package whose marker exists is skipped; any other is downloaded.
pub fn device_start(job: &DeviceJob, marker_exists: bool) -> (res: DeviceAction)
    ensures
        if marker_exists {
            res is Skip
        } else {
            res matches DeviceAction::Download { url, filename } && url@ == job.url@ && filename@
                == job.filename@
        },
{
    if marker_exists {
        DeviceAction::Skip
    } else {
        DeviceAction::Download { url: job.url.clone(), filename: job.filename.clone() }
    }
}

/// After the download: a failed one is warned about with what went wrong;
/// a fetched archive is unpacked over `install_dir`.
pub fn device_after_download(job: &DeviceJob, install_dir: &str, download: Result<String, String>) -> (res: DeviceAction)
    ensures
        match download {
            Ok(archive) => res matches DeviceAction::Unzip { spec, command } && argv(spec) == seq![
                "unzip"@,
                "-q"@,
                "-o"@,
                archive@,
                "-d"@,
                install_dir@,
            ] && spec.capture == Capture::Piped && spec.env@.len() == 0 && spec.working_dir is None
                && command@ == "unzip "@ + archive@,
            Err(message) => res matches DeviceAction::Warn(text) && text@ == "Warning: failed to download "@
                + job.family@ + " device support: "@ + message@,
        },
{
    match download {
        Ok(archive) => DeviceAction::Unzip {
            spec: unzip_spec(archive.as_str(), install_dir),
            command: unzip_command(archive.as_str()),
        },
        Err(message) => {
            let mut text = String::from_str("Warning: failed to download ");
            text.append(job.family.as_str());
            text.append(" device support: ");
            text.append(message.as_str());
            DeviceAction::Warn(text)
        },
    }
}

/// After the unpacking: a failed one is warned about with what went wrong;
/// only a successful one gets its marker.
pub fn device_after_unzip(job: &DeviceJob, unzip: Result<(), String>) -> (res: DeviceAction)
    ensures
        match unzip {
            Ok(()) => res matches DeviceAction::WriteMarker(path) && path@ == job.marker@,
            Err(message) => res matches DeviceAction::Warn(text) && text@ == "Warning: failed to install "@
                + job.family@ + " device support: "@ + message@,
        },
{
    match unzip {
        Ok(()) => DeviceAction::WriteMarker(job.marker.clone()),
        Err(message) => {
            let mut text = String::from_str("Warning: failed to install ");
            text.append(job.family.as_str());
            text.append(" device support: ");
            text.append(message.as_str());
            DeviceAction::Warn(text)
        },
    }
}

/// One thing making sure a Version is installed does.
#[derive(Debug, Clone)]
pub enum EnsureStep {
    /// Fetch the Version's installer into the download cache.
    FetchInstaller { url: String, filename: String },
    /// Make the fetched installer executable and run it into the install
    /// directory.
    Install,
    /// Install whichever Device Support packages are missing.
    DeviceSupport,
}

/// Making sure a Version is installed: a Version that is not installed yet
/// has its installer fetched and run; Device Support is seen to either way.
pub fn ensure_steps(version: &KnownVersion, installed: bool) -> (res: Vec<EnsureStep>)
    ensures
        installed ==> res@.len() == 1 && res@[0] is DeviceSupport,
        !installed ==> {
            &&& res@.len() == 3
            &&& res@[0] matches EnsureStep::FetchInstaller { url, filename }
            &&& url@ == cdn_url_spec(
                version.download.version@,
                version.download.revision@,
                version.download.filename@,
            )
            &&& filename@ == version.download.filename@
            &&& res@[1] is Install
            &&& res@[2] is DeviceSupport
        },
{
    let mut steps: Vec<EnsureStep> = Vec::new();
    if !installed {
        steps.push(
            EnsureStep::FetchInstaller {
                url: cdn_url(&version.download, version.download.filename.as_str()),
                filename: version.download.filename.clone(),
            },
        );
        steps.push(EnsureStep::Install);
    }
    steps.push(EnsureStep::DeviceSupport);
    steps
}

} // verus!
