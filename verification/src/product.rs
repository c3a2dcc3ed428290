//! What distinguishes one Quartus Product from another, and the two Products
//! chipsmith knows.
//!
//! Quartus Prime and Quartus II share an install layout, an installer, a tool
//! set and a build flow. They differ in a handful of facts, and those facts
//! are this module.

use vstd::prelude::*;

use crate::error::ChipsmithError;
use crate::path::{join, path_join};
use crate::text::{owned, str_eq, views};

verus! {

#[derive(Debug, Clone)]
pub struct QuartusVersion {
    pub version: String,
    pub revision: String,
    pub filename: String,
}

#[derive(Debug, Clone)]
pub struct DeviceSupport {
    pub family: String,
    pub filename: String,
}

#[derive(Debug, Clone)]
pub struct KnownVersion {
    pub key: String,
    pub download: QuartusVersion,
    pub install_subdir: String,
    pub devices: Vec<DeviceSupport>,
}

/// How a Product's binaries have to be launched on NixOS.
#[derive(Debug, Clone, Copy, PartialEq, Eq, Structural)]
pub enum SpawnStrategy {
    /// 64-bit binaries: rewrite the ELF interpreter to the nix dynamic linker.
    PatchElf,
    /// 32-bit binaries that dlopen `/lib/ld-linux.so.2` by absolute path, which
    /// patchelf cannot reach. Sandbox with bubblewrap so that path exists.
    /// Falls back to `PatchElf` when bubblewrap is unavailable.
    Bubblewrap32,
}

impl SpawnStrategy {
    /// Whether resolving Nix Compat has to instantiate the i686 package set.
    /// Doing so costs seconds of nix evaluation, so only `Bubblewrap32` asks.
    pub fn needs_32bit(self) -> (res: bool)
        ensures
            res == (self == SpawnStrategy::Bubblewrap32),
    {
        match self {
            SpawnStrategy::Bubblewrap32 => true,
            SpawnStrategy::PatchElf => false,
        }
    }
}

#[derive(Debug, Clone)]
pub struct InstallerSpec {
    /// Quartus II 13.0sp1 predates `--accept_eula` and rejects the flag.
    pub accepts_eula_flag: bool,
}

/// The simulator a Product's installer brings with it.
#[derive(Debug, Clone)]
pub struct BundledSimulator {
    /// Subdirectory of the Install Root.
    pub subdir: String,
    /// What the vendor calls it, for reports and error messages.
    pub display_name: String,
    /// Whether it checks a licence out before it will run.
    pub needs_license: bool,
}

impl BundledSimulator {
    /// Where its executables live.
    pub fn bin_dir(&self, install_dir: &str) -> (res: String)
        ensures
            res@ == path_join(path_join(install_dir@, self.subdir@), "bin"@),
    {
        let d = join(install_dir, self.subdir.as_str());
        join(d.as_str(), "bin")
    }

    /// The vendor's own `modelsim.ini`, which carries the `std` and `ieee`
    /// library mappings that chipsmith's generated one chains to.
    pub fn vendor_ini(&self, install_dir: &str) -> (res: String)
        ensures
            res@ == path_join(path_join(install_dir@, self.subdir@), "modelsim.ini"@),
    {
        let d = join(install_dir, self.subdir.as_str());
        join(d.as_str(), "modelsim.ini")
    }
}

/// A line of Quartus releases. One per Backend.
#[derive(Debug, Clone)]
pub struct QuartusProduct {
    /// The name a Manifest selects this Product with, e.g. `quartus-prime`.
    pub backend: String,
    /// How the Product names itself in progress output, e.g. `Quartus Prime`.
    pub display_name: String,
    /// Install Root under `$HOME`, e.g. `intelFPGA_lite`.
    pub install_root: String,
    pub versions: Vec<KnownVersion>,
    pub latest: String,
    pub installer: InstallerSpec,
    pub spawn: SpawnStrategy,
    pub simulator: BundledSimulator,
}

/// The keys of a version table, in order.
pub open spec fn version_keys(vs: Seq<KnownVersion>) -> Seq<Seq<char>> {
    vs.map_values(|v: KnownVersion| v.key@)
}

/// `i` is the first version whose key is `key`.
pub open spec fn is_first_version(vs: Seq<KnownVersion>, key: Seq<char>, i: int) -> bool {
    &&& 0 <= i < vs.len()
    &&& vs[i].key@ == key
    &&& forall|j: int| 0 <= j < i ==> #[trigger] vs[j].key@ != key
}

/// The user's home directory as `dirs::home_dir` reports it, read from the
/// environment. No clause states which directory it is, or when there is none.
#[verifier::external_body]
pub(crate) fn home_dir() -> (res: Option<String>) {
    match dirs::home_dir() {
        Some(p) => Some(p.to_string_lossy().into_owned()),
        None => None,
    }
}

impl QuartusProduct {
    /// The Version with this key, or the list of those there are.
    pub fn lookup(&self, key: &str) -> (res: Result<&KnownVersion, ChipsmithError>)
        ensures
            match res {
                Ok(v) => exists|i: int| is_first_version(self.versions@, key@, i) && *v == self.versions@[i],
                Err(e) => {
                    &&& forall|i: int|
                        0 <= i < self.versions@.len() ==> #[trigger] self.versions@[i].key@ != key@
                    &&& e matches ChipsmithError::UnknownVersion { version, available }
                    &&& version@ == key@
                    &&& views(available@) == version_keys(self.versions@)
                },
            },
    {
        let mut i: usize = 0;
        while i < self.versions.len()
            invariant
                i <= self.versions@.len(),
                forall|j: int| 0 <= j < i ==> #[trigger] self.versions@[j].key@ != key@,
            decreases self.versions@.len() - i,
        {
            if str_eq(self.versions[i].key.as_str(), key) {
                assert(is_first_version(self.versions@, key@, i as int));
                return Ok(&self.versions[i]);
            }
            i = i + 1;
        }
        let mut available: Vec<String> = Vec::new();
        let mut k: usize = 0;
        while k < self.versions.len()
            invariant
                k <= self.versions@.len(),
                views(available@) == version_keys(self.versions@).subrange(0, k as int),
            decreases self.versions@.len() - k,
        {
            let ghost before = available@;
            available.push(self.versions[k].key.clone());
            assert(views(available@) =~= views(before).push(self.versions@[k as int].key@));
            k = k + 1;
            assert(views(available@) =~= version_keys(self.versions@).subrange(0, k as int));
        }
        assert(version_keys(self.versions@).subrange(0, k as int) =~= version_keys(self.versions@));
        Err(ChipsmithError::UnknownVersion { version: owned(key), available })
    }

    /// Where a Version installs, under a given home directory: the Install
    /// Root, then the Version's own subdirectory.
    pub fn install_dir_in(&self, home: &str, version: &KnownVersion) -> (res: String)
        ensures
            res@ == path_join(path_join(home@, self.install_root@), version.install_subdir@),
    {
        let root = join(home, self.install_root.as_str());
        join(root.as_str(), version.install_subdir.as_str())
    }

    /// Where a Version installs under the user's home directory, or `None`
    /// when the environment names no home directory.
    pub fn install_dir_for(&self, version: &KnownVersion) -> (res: Option<String>)
        ensures
            res matches Some(d) ==> exists|home: Seq<char>|
                d@ == path_join(path_join(home, self.install_root@), version.install_subdir@),
    {
        match home_dir() {
            Some(home) => Some(self.install_dir_in(home.as_str(), version)),
            None => None,
        }
    }
}

/// The file whose presence says a Version is installed.
pub fn quartus_sh_path(install_dir: &str) -> (res: String)
    ensures
        res@ == path_join(path_join(path_join(install_dir@, "quartus"@), "bin"@), "quartus_sh"@),
{
    let q = join(install_dir, "quartus");
    let b = join(q.as_str(), "bin");
    join(b.as_str(), "quartus_sh")
}

fn known_version(
    key: &str,
    release: &str,
    revision: &str,
    filename: &str,
    install_subdir: &str,
    devices: Vec<DeviceSupport>,
) -> (res: KnownVersion)
    ensures
        res.key@ == key@,
        res.download.version@ == release@,
        res.download.revision@ == revision@,
        res.download.filename@ == filename@,
        res.install_subdir@ == install_subdir@,
        res.devices == devices,
{
    KnownVersion {
        key: owned(key),
        download: QuartusVersion {
            version: owned(release),
            revision: owned(revision),
            filename: owned(filename),
        },
        install_subdir: owned(install_subdir),
        devices,
    }
}

fn device(family: &str, filename: &str) -> (res: DeviceSupport)
    ensures
        res.family@ == family@,
        res.filename@ == filename@,
{
    DeviceSupport { family: owned(family), filename: owned(filename) }
}

/// The Backend used when a command doesn't name one.
pub const DEFAULT_BACKEND: &'static str = "quartus-prime";

/// A Version's download and install subdirectory.
pub open spec fn release_is(
    v: KnownVersion,
    release: Seq<char>,
    revision: Seq<char>,
    filename: Seq<char>,
    subdir: Seq<char>,
) -> bool {
    &&& v.download.version@ == release
    &&& v.download.revision@ == revision
    &&& v.download.filename@ == filename
    &&& v.install_subdir@ == subdir
}

/// A Version's Device Support packages: family and archive, in order.
pub open spec fn device_files(v: KnownVersion) -> Seq<(Seq<char>, Seq<char>)> {
    v.devices@.map_values(|d: DeviceSupport| (d.family@, d.filename@))
}

/// What Quartus Prime Lite is: versions 23.1, 22.1 and 24.1 (23.1 the
/// latest), installed under `intelFPGA_lite`, 64-bit throughout.
pub open spec fn is_quartus_prime(p: QuartusProduct) -> bool {
    &&& p.backend@ == "quartus-prime"@
    &&& p.display_name@ == "Quartus Prime"@
    &&& p.install_root@ == "intelFPGA_lite"@
    &&& p.latest@ == "23.1"@
    &&& version_keys(p.versions@) == seq!["23.1"@, "22.1"@, "24.1"@]
    // the latest is always a version the Product knows
    &&& version_keys(p.versions@).contains(p.latest@)
    &&& release_is(p.versions@[0], "23.1std.1"@, "993"@, "QuartusLiteSetup-23.1std.1.993-linux.run"@, "23.1std"@)
    &&& device_files(p.versions@[0]) == seq![
        ("cyclonev"@, "cyclonev-23.1std.1.993.qdz"@),
        ("cyclone10lp"@, "cyclone10lp-23.1std.1.993.qdz"@),
        ("cyclone"@, "cyclone-23.1std.1.993.qdz"@),
        ("max10"@, "max10-23.1std.1.993.qdz"@),
        ("max"@, "max-23.1std.1.993.qdz"@),
    ]
    &&& release_is(p.versions@[1], "22.1std.2"@, "922"@, "QuartusLiteSetup-22.1std.2.922-linux.run"@, "22.1std"@)
    &&& device_files(p.versions@[1]) == seq![("cyclonev"@, "cyclonev-22.1std.2.922.qdz"@)]
    &&& release_is(p.versions@[2], "24.1std"@, "1077"@, "QuartusLiteSetup-24.1std.0.1077-linux.run"@, "24.1std"@)
    &&& device_files(p.versions@[2]) == seq![("cyclonev"@, "cyclonev-24.1std.0.1077.qdz"@)]
    &&& p.installer.accepts_eula_flag
    &&& p.spawn == SpawnStrategy::PatchElf
}

/// What Quartus II 13.0sp1 is: one version, installed under `altera`, 32-bit.
pub open spec fn is_quartus_ii_13(p: QuartusProduct) -> bool {
    &&& p.backend@ == "quartus-ii-13"@
    &&& p.display_name@ == "Quartus II"@
    &&& p.install_root@ == "altera"@
    &&& p.latest@ == "13.0sp1"@
    &&& version_keys(p.versions@) == seq!["13.0sp1"@]
    &&& version_keys(p.versions@).contains(p.latest@)
    &&& release_is(p.versions@[0], "13.0sp1"@, "232"@, "QuartusSetupWeb-13.0.1.232.run"@, "13.0sp1"@)
    &&& device_files(p.versions@[0]) == seq![
        ("cyclone"@, "cyclone_web-13.0.1.232.qdz"@),
        ("max"@, "max_web-13.0.1.232.qdz"@),
    ]
    &&& !p.installer.accepts_eula_flag
    &&& p.spawn == SpawnStrategy::Bubblewrap32
    &&& p.simulator.subdir@ == "modelsim_ase"@
    &&& !p.simulator.needs_license
}

/// The Quartus Prime Lite Product: versions 23.1, 22.1 and 24.1, installed
/// under `intelFPGA_lite`, 64-bit throughout.
pub fn quartus_prime() -> (res: QuartusProduct)
    ensures
        is_quartus_prime(res),
{
    let mut d23: Vec<DeviceSupport> = Vec::new();
    d23.push(device("cyclonev", "cyclonev-23.1std.1.993.qdz"));
    d23.push(device("cyclone10lp", "cyclone10lp-23.1std.1.993.qdz"));
    d23.push(device("cyclone", "cyclone-23.1std.1.993.qdz"));
    d23.push(device("max10", "max10-23.1std.1.993.qdz"));
    d23.push(device("max", "max-23.1std.1.993.qdz"));
    let mut d22: Vec<DeviceSupport> = Vec::new();
    d22.push(device("cyclonev", "cyclonev-22.1std.2.922.qdz"));
    let mut d24: Vec<DeviceSupport> = Vec::new();
    d24.push(device("cyclonev", "cyclonev-24.1std.0.1077.qdz"));
    let mut versions: Vec<KnownVersion> = Vec::new();
    versions.push(
        known_version(
            "23.1",
            "23.1std.1",
            "993",
            "QuartusLiteSetup-23.1std.1.993-linux.run",
            "23.1std",
            d23,
        ),
    );
    versions.push(
        known_version(
            "22.1",
            "22.1std.2",
            "922",
            "QuartusLiteSetup-22.1std.2.922-linux.run",
            "22.1std",
            d22,
        ),
    );
    versions.push(
        known_version(
            "24.1",
            "24.1std",
            "1077",
            "QuartusLiteSetup-24.1std.0.1077-linux.run",
            "24.1std",
            d24,
        ),
    );
    let res = QuartusProduct {
        backend: owned("quartus-prime"),
        display_name: owned("Quartus Prime"),
        install_root: owned("intelFPGA_lite"),
        versions,
        latest: owned("23.1"),
        installer: InstallerSpec { accepts_eula_flag: true },
        spawn: SpawnStrategy::PatchElf,
        simulator: BundledSimulator {
            subdir: owned("questa_fse"),
            display_name: owned("Questa - Intel FPGA Starter Edition"),
            needs_license: true,
        },
    };
    assert(version_keys(res.versions@) =~= seq!["23.1"@, "22.1"@, "24.1"@]);
    assert(device_files(res.versions@[0]) =~= seq![
        ("cyclonev"@, "cyclonev-23.1std.1.993.qdz"@),
        ("cyclone10lp"@, "cyclone10lp-23.1std.1.993.qdz"@),
        ("cyclone"@, "cyclone-23.1std.1.993.qdz"@),
        ("max10"@, "max10-23.1std.1.993.qdz"@),
        ("max"@, "max-23.1std.1.993.qdz"@),
    ]);
    assert(device_files(res.versions@[1]) =~= seq![("cyclonev"@, "cyclonev-22.1std.2.922.qdz"@)]);
    assert(device_files(res.versions@[2]) =~= seq![("cyclonev"@, "cyclonev-24.1std.0.1077.qdz"@)]);
    assert(version_keys(res.versions@)[0] == res.latest@);
    res
}

/// The Quartus II 13.0sp1 Product — the last release that supports the older
/// Cyclone and MAX families. Its installer and tools are 32-bit binaries that
/// load `/lib/ld-linux.so.2` by absolute path, which patchelf cannot redirect.
pub fn quartus_ii_13() -> (res: QuartusProduct)
    ensures
        is_quartus_ii_13(res),
{
    let mut devices: Vec<DeviceSupport> = Vec::new();
    devices.push(device("cyclone", "cyclone_web-13.0.1.232.qdz"));
    devices.push(device("max", "max_web-13.0.1.232.qdz"));
    let mut versions: Vec<KnownVersion> = Vec::new();
    versions.push(
        known_version("13.0sp1", "13.0sp1", "232", "QuartusSetupWeb-13.0.1.232.run", "13.0sp1", devices),
    );
    let res = QuartusProduct {
        backend: owned("quartus-ii-13"),
        display_name: owned("Quartus II"),
        install_root: owned("altera"),
        versions,
        latest: owned("13.0sp1"),
        installer: InstallerSpec { accepts_eula_flag: false },
        spawn: SpawnStrategy::Bubblewrap32,
        // 32-bit like the rest of 13.0sp1, and the last Starter Edition that
        // needed no licence at all.
        simulator: BundledSimulator {
            subdir: owned("modelsim_ase"),
            display_name: owned("ModelSim-Altera Starter Edition"),
            needs_license: false,
        },
    };
    assert(version_keys(res.versions@) =~= seq!["13.0sp1"@]);
    assert(device_files(res.versions@[0]) =~= seq![
        ("cyclone"@, "cyclone_web-13.0.1.232.qdz"@),
        ("max"@, "max_web-13.0.1.232.qdz"@),
    ]);
    assert(version_keys(res.versions@)[0] == res.latest@);
    res
}

/// Every Backend chipsmith knows. Adding one means adding a Product here.
pub fn products() -> (res: Vec<QuartusProduct>)
    ensures
        res@.len() == 2,
        is_quartus_prime(res@[0]),
        is_quartus_ii_13(res@[1]),
{
    let mut v: Vec<QuartusProduct> = Vec::new();
    v.push(quartus_prime());
    v.push(quartus_ii_13());
    v
}

/// The backend names of a Product list, in order.
pub open spec fn backend_names(ps: Seq<QuartusProduct>) -> Seq<Seq<char>> {
    ps.map_values(|p: QuartusProduct| p.backend@)
}

/// The Product a Backend name selects, or the list of names there are.
pub fn find_product(name: &str) -> (res: Result<QuartusProduct, ChipsmithError>)
    ensures
        match res {
            Ok(p) => (name@ == "quartus-prime"@ && is_quartus_prime(p)) || (name@ == "quartus-ii-13"@
                && is_quartus_ii_13(p)),
            Err(e) => {
                &&& name@ != "quartus-prime"@
                &&& name@ != "quartus-ii-13"@
                &&& e matches ChipsmithError::UnknownBackend { name: n, available }
                &&& n@ == name@
                &&& views(available@) == seq!["quartus-prime"@, "quartus-ii-13"@]
            },
        },
{
    let all = products();
    let ghost names = backend_names(all@);
    let mut available: Vec<String> = Vec::new();
    let mut i: usize = 0;
    let mut found: Option<usize> = None;
    while i < all.len()
        invariant
            all@.len() == 2,
            is_quartus_prime(all@[0]),
            is_quartus_ii_13(all@[1]),
            i <= all@.len(),
            views(available@) == backend_names(all@).subrange(0, i as int),
            match found {
                Some(k) => k < all@.len() && all@[k as int].backend@ == name@,
                None => forall|j: int| 0 <= j < i ==> #[trigger] all@[j].backend@ != name@,
            },
        decreases all@.len() - i,
    {
        if found.is_none() && str_eq(all[i].backend.as_str(), name) {
            found = Some(i);
        }
        let ghost before = available@;
        available.push(all[i].backend.clone());
        assert(views(available@) =~= views(before).push(all@[i as int].backend@));
        i = i + 1;
        assert(views(available@) =~= backend_names(all@).subrange(0, i as int));
    }
    match found {
        Some(k) => {
            let mut all = all;
            let p = all.remove(k);
            Ok(p)
        },
        None => {
            assert(backend_names(all@).subrange(0, 2) =~= seq!["quartus-prime"@, "quartus-ii-13"@]);
            assert(all@[0].backend@ != name@);
            assert(all@[1].backend@ != name@);
            Err(ChipsmithError::UnknownBackend { name: owned(name), available })
        },
    }
}

/// The Version a command uses: the one it was given, else the latest of
/// the Backend it selected — never one global default, so
/// `--backend quartus-ii-13` gets `13.0sp1` without being told.
pub fn version_or_latest(backend: &str, version: Option<&str>) -> (res: Result<String, ChipsmithError>)
    ensures
        match res {
            Ok(v) => match version {
                Some(given) => v@ == given@ && (backend@ == "quartus-prime"@ || backend@
                    == "quartus-ii-13"@),
                None => (backend@ == "quartus-prime"@ && v@ == "23.1"@) || (backend@
                    == "quartus-ii-13"@ && v@ == "13.0sp1"@),
            },
            Err(e) => {
                &&& backend@ != "quartus-prime"@
                &&& backend@ != "quartus-ii-13"@
                &&& e matches ChipsmithError::UnknownBackend { name, .. }
                &&& name@ == backend@
            },
        },
{
    let product = find_product(backend)?;
    match version {
        Some(v) => Ok(owned(v)),
        None => Ok(product.latest),
    }
}

} // verus!
