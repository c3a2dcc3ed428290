//! Launching Quartus tools and the Quartus installer: which binary, with
//! which arguments, dressed how for the host, and what a non-zero exit means.

use vstd::prelude::*;

use crate::error::ChipsmithError;
use crate::nixos::{dress, env_views, for_host, for_host_in, opt_compat, sandbox_for, NixCompat};
use crate::path::{join, path_join};
use crate::process::{argv, Capture, ProcessOutcome, ProcessSpec};
use crate::product::{home_dir, QuartusProduct};
use crate::text::{join as join_seq, join_strings, owned, str_eq, views};

verus! {

/// The Quartus tools chipsmith will run.
pub open spec fn known_tools_spec() -> Seq<Seq<char>> {
    seq![
        "quartus_sh"@,
        "quartus_map"@,
        "quartus_fit"@,
        "quartus_asm"@,
        "quartus_sta"@,
        "quartus_pgm"@,
        "quartus_cpf"@,
        "quartus"@,
        "jtagconfig"@,
    ]
}

/// A name is a known tool exactly when it is one of `quartus_sh`,
/// `quartus_map`, `quartus_fit`, `quartus_asm`, `quartus_sta`, `quartus_pgm`,
/// `quartus_cpf`, `quartus` and `jtagconfig`.
pub open spec fn is_listed_tool(t: Seq<char>) -> bool {
    ||| t == "quartus_sh"@
    ||| t == "quartus_map"@
    ||| t == "quartus_fit"@
    ||| t == "quartus_asm"@
    ||| t == "quartus_sta"@
    ||| t == "quartus_pgm"@
    ||| t == "quartus_cpf"@
    ||| t == "quartus"@
    ||| t == "jtagconfig"@
}

/// The known tools are exactly the nine listed ones; in particular every tool
/// a Build Step runs, and the programmer that flashes a Bitstream, is known.
pub proof fn law_known_tools_are_the_listed_ones(t: Seq<char>, name: Seq<char>)
    ensures
        known_tools_spec().contains(t) <==> is_listed_tool(t),
        known_tools_spec().len() == 9,
        known_tools_spec().contains("quartus_pgm"@),
        forall|k: int|
            0 <= k < 4 ==> known_tools_spec().contains(
                (#[trigger] crate::plan::build_steps_spec(name)[k]).1,
            ),
{
    let ks = known_tools_spec();
    if is_listed_tool(t) {
        if t == "quartus_sh"@ { assert(ks[0] == t); }
        if t == "quartus_map"@ { assert(ks[1] == t); }
        if t == "quartus_fit"@ { assert(ks[2] == t); }
        if t == "quartus_asm"@ { assert(ks[3] == t); }
        if t == "quartus_sta"@ { assert(ks[4] == t); }
        if t == "quartus_pgm"@ { assert(ks[5] == t); }
        if t == "quartus_cpf"@ { assert(ks[6] == t); }
        if t == "quartus"@ { assert(ks[7] == t); }
        if t == "jtagconfig"@ { assert(ks[8] == t); }
    }
    assert(ks[5] == "quartus_pgm"@);
    assert forall|k: int| 0 <= k < 4 implies ks.contains(
        (#[trigger] crate::plan::build_steps_spec(name)[k]).1,
    ) by {
        assert(ks[k + 1] == crate::plan::build_steps_spec(name)[k].1);
    }
}

pub fn known_tools() -> (res: Vec<String>)
    ensures
        views(res@) == known_tools_spec(),
{
    let mut v: Vec<String> = Vec::new();
    v.push(owned("quartus_sh"));
    v.push(owned("quartus_map"));
    v.push(owned("quartus_fit"));
    v.push(owned("quartus_asm"));
    v.push(owned("quartus_sta"));
    v.push(owned("quartus_pgm"));
    v.push(owned("quartus_cpf"));
    v.push(owned("quartus"));
    v.push(owned("jtagconfig"));
    assert(views(v@) =~= known_tools_spec());
    v
}

/// Where a known tool lives in an installation; any other name is refused
/// with the list of known ones.
pub fn tool_path(install_dir: &str, tool: &str) -> (res: Result<String, ChipsmithError>)
    ensures
        match res {
            Ok(p) => known_tools_spec().contains(tool@) && p@ == path_join(
                path_join(path_join(install_dir@, "quartus"@), "bin"@),
                tool@,
            ),
            Err(e) => {
                &&& !known_tools_spec().contains(tool@)
                &&& e matches ChipsmithError::UnknownTool { name, available }
                &&& name@ == tool@
                &&& views(available@) == known_tools_spec()
            },
        },
        res is Ok <==> is_listed_tool(tool@),
{
    proof {
        law_known_tools_are_the_listed_ones(tool@, Seq::empty());
    }
    let tools = known_tools();
    let mut i: usize = 0;
    while i < tools.len()
        invariant
            views(tools@) == known_tools_spec(),
            i <= tools@.len(),
            forall|j: int| 0 <= j < i ==> known_tools_spec()[j] != tool@,
        decreases tools@.len() - i,
    {
        assert(known_tools_spec()[i as int] == tools@[i as int]@);
        if str_eq(tools[i].as_str(), tool) {
            let q = join(install_dir, "quartus");
            let b = join(q.as_str(), "bin");
            proof {
                law_known_tools_are_the_listed_ones(tool@, Seq::empty());
            }
            return Ok(join(b.as_str(), tool));
        }
        i = i + 1;
    }
    Err(ChipsmithError::UnknownTool { name: owned(tool), available: tools })
}

/// The `quartus_pgm` arguments for loading a Bitstream over JTAG: program
/// (`P;`) the file, over the named Cable if there is one.
pub open spec fn flash_args_spec(bitstream: Seq<char>, cable: Option<Seq<char>>) -> Seq<Seq<char>> {
    seq!["-m"@, "jtag"@, "-o"@, "P;"@ + bitstream] + match cable {
        Some(c) => seq!["-c"@, c],
        None => Seq::<Seq<char>>::empty(),
    }
}

pub fn flash_args(bitstream: &str, cable: Option<&str>) -> (res: Vec<String>)
    ensures
        views(res@) == flash_args_spec(
            bitstream@,
            match cable {
                Some(c) => Some(c@),
                None => None,
            },
        ),
{
    let mut args: Vec<String> = Vec::new();
    args.push(owned("-m"));
    args.push(owned("jtag"));
    args.push(owned("-o"));
    let mut op = String::from_str("P;");
    op.append(bitstream);
    args.push(op);
    match cable {
        Some(c) => {
            args.push(owned("-c"));
            args.push(owned(c));
        },
        None => {},
    }
    assert(views(args@) =~= flash_args_spec(
        bitstream@,
        match cable {
            Some(c) => Some(c@),
            None => None,
        },
    ));
    args
}

/// The unattended-install arguments for a Product, ending with the target
/// dir — and with `--accept_eula 1` only for a Product whose installer knows
/// the flag.
pub open spec fn installer_args_spec(accepts_eula_flag: bool, install_dir: Seq<char>) -> Seq<Seq<char>> {
    seq!["--mode"@, "unattended"@, "--unattendedmodeui"@, "none"@, "--installdir"@, install_dir]
        + if accepts_eula_flag {
        seq!["--accept_eula"@, "1"@]
    } else {
        Seq::<Seq<char>>::empty()
    }
}

pub fn installer_args(product: &QuartusProduct, install_dir: &str) -> (res: Vec<String>)
    ensures
        views(res@) == installer_args_spec(product.installer.accepts_eula_flag, install_dir@),
{
    let mut args: Vec<String> = Vec::new();
    args.push(owned("--mode"));
    args.push(owned("unattended"));
    args.push(owned("--unattendedmodeui"));
    args.push(owned("none"));
    args.push(owned("--installdir"));
    args.push(owned(install_dir));
    if product.installer.accepts_eula_flag {
        args.push(owned("--accept_eula"));
        args.push(owned("1"));
    }
    assert(views(args@) =~= installer_args_spec(product.installer.accepts_eula_flag, install_dir@));
    args
}

/// How a failed tool run names what it ran: the tool, a space, its arguments.
pub fn tool_command(tool: &str, args: &Vec<String>) -> (res: String)
    ensures
        res@ == tool@ + " "@ + join_seq(views(args@), " "@),
{
    let mut s = String::from_str(tool);
    s.append(" ");
    let rest = join_strings(args, " ");
    s.append(rest.as_str());
    s
}

/// A non-zero exit is an error that says what was run and what it said.
pub fn check_outcome(outcome: ProcessOutcome, command: String) -> (res: Result<(), ChipsmithError>)
    ensures
        match res {
            Ok(()) => outcome.code == Some(0i32),
            Err(e) => outcome.code != Some(0i32) && e == (ChipsmithError::ProcessFailed {
                command,
                code: outcome.code,
                stderr_tail: outcome.stderr_tail,
            }),
        },
{
    if outcome.success() {
        return Ok(());
    }
    Err(ChipsmithError::ProcessFailed {
        command,
        code: outcome.code,
        stderr_tail: outcome.stderr_tail,
    })
}

/// The spec for running a tool binary: its arguments, the working directory
/// if one is given, stderr teed — a synthesis run takes minutes and the user
/// needs to see it happening, but a failure has to be able to explain itself —
/// and dressed for the host.
pub fn tool_spec(
    bin: &str,
    args: &Vec<String>,
    working_dir: Option<&str>,
    compat: Option<&NixCompat>,
) -> (res: ProcessSpec)
    ensures
        exists|home: Seq<char>|
            argv(res) == #[trigger] dress(seq![bin@] + views(args@), opt_compat(compat), home),
        env_views(res.env@) == match compat {
            Some(c) => seq![("LD_LIBRARY_PATH"@, c.ld_library_path@)],
            None => Seq::<(Seq<char>, Seq<char>)>::empty(),
        },
        res.capture == Capture::Tee,
        match working_dir {
            Some(d) => res.working_dir matches Some(w) && w@ == d@,
            None => res.working_dir is None,
        },
{
    let mut spec = ProcessSpec::new(owned(bin)).args(args.clone());
    match working_dir {
        Some(dir) => {
            spec = spec.current_dir(owned(dir));
        },
        None => {},
    }
    let spec = spec.capture(Capture::Tee);
    assert(argv(spec) =~= seq![bin@] + views(args@));
    assert(env_views(spec.env@) =~= Seq::<(Seq<char>, Seq<char>)>::empty());
    let res = for_host(spec, compat);
    assert(env_views(res.env@) =~= match compat {
        Some(c) => seq![("LD_LIBRARY_PATH"@, c.ld_library_path@)],
        None => Seq::<(Seq<char>, Seq<char>)>::empty(),
    });
    res
}

/// The spec for running a Product's installer unattended into `install_dir`,
/// stderr teed, dressed for the host.
pub fn installer_spec(
    product: &QuartusProduct,
    installer: &str,
    install_dir: &str,
    compat: Option<&NixCompat>,
) -> (res: ProcessSpec)
    ensures
        exists|home: Seq<char>|
            argv(res) == #[trigger] dress(
                seq![installer@] + installer_args_spec(
                    product.installer.accepts_eula_flag,
                    install_dir@,
                ),
                opt_compat(compat),
                home,
            ),
        res.capture == Capture::Tee,
        res.working_dir is None,
{
    let spec = ProcessSpec::new(owned(installer)).args(installer_args(product, install_dir)).capture(
        Capture::Tee,
    );
    assert(argv(spec) =~= seq![installer@] + installer_args_spec(
        product.installer.accepts_eula_flag,
        install_dir@,
    ));
    for_host(spec, compat)
}

/// The directories of an installation whose vendor binaries and scripts get
/// patched on NixOS — the bundled simulator's included.
pub open spec fn patch_dirs_spec(product: QuartusProduct, install_dir: Seq<char>) -> Seq<Seq<char>> {
    let q = path_join(install_dir, "quartus"@);
    let sim = path_join(install_dir, product.simulator.subdir@);
    seq![
        path_join(q, "bin"@),
        path_join(q, "linux64"@),
        path_join(q, "adm"@),
        path_join(sim, "bin"@),
        path_join(sim, "linuxaloem"@),
        path_join(sim, "linux_x86_64"@),
    ]
}

pub fn install_patch_dirs(product: &QuartusProduct, install_dir: &str) -> (res: Vec<String>)
    ensures
        views(res@) == patch_dirs_spec(*product, install_dir@),
{
    let q = join(install_dir, "quartus");
    let sim = join(install_dir, product.simulator.subdir.as_str());
    let mut v: Vec<String> = Vec::new();
    v.push(join(q.as_str(), "bin"));
    v.push(join(q.as_str(), "linux64"));
    v.push(join(q.as_str(), "adm"));
    v.push(product.simulator.bin_dir(install_dir));
    v.push(join(sim.as_str(), "linuxaloem"));
    v.push(join(sim.as_str(), "linux_x86_64"));
    assert(views(v@) =~= patch_dirs_spec(*product, install_dir@));
    v
}

/// A known tool whose binary is not there means the Version is not
/// installed: said before the Nix Compat layer is resolved or anything
/// spawns. Asked after `tool_path`, so an unknown tool is reported first.
pub fn require_installed(install_dir: &str, bin_exists: bool) -> (res: Result<(), ChipsmithError>)
    ensures
        match res {
            Ok(()) => bin_exists,
            Err(e) => {
                &&& !bin_exists
                &&& e matches ChipsmithError::NotInstalled { path }
                &&& path@ == install_dir@
            },
        },
{
    if bin_exists {
        Ok(())
    } else {
        Err(ChipsmithError::NotInstalled { path: owned(install_dir) })
    }
}

/// A missing installer is reported before anything runs — before the Nix
/// Compat layer is even resolved.
pub fn check_installer(installer: &str, exists: bool) -> (res: Result<(), ChipsmithError>)
    ensures
        match res {
            Ok(()) => exists,
            Err(e) => {
                &&& !exists
                &&& e matches ChipsmithError::InstallerNotFound { path }
                &&& path@ == installer@
            },
        },
{
    if exists {
        Ok(())
    } else {
        Err(ChipsmithError::InstallerNotFound { path: owned(installer) })
    }
}

/// `installer_spec` with a given home directory for the sandbox.
pub fn installer_spec_in(
    product: &QuartusProduct,
    installer: &str,
    install_dir: &str,
    compat: Option<&NixCompat>,
    home: &str,
) -> (res: ProcessSpec)
    ensures
        argv(res) == dress(
            seq![installer@] + installer_args_spec(product.installer.accepts_eula_flag, install_dir@),
            opt_compat(compat),
            home@,
        ),
        env_views(res.env@) == match compat {
            Some(c) => seq![("LD_LIBRARY_PATH"@, c.ld_library_path@)],
            None => Seq::<(Seq<char>, Seq<char>)>::empty(),
        },
        res.capture == Capture::Tee,
        res.working_dir is None,
{
    let spec = ProcessSpec::new(owned(installer)).args(installer_args(product, install_dir)).capture(
        Capture::Tee,
    );
    assert(argv(spec) =~= seq![installer@] + installer_args_spec(
        product.installer.accepts_eula_flag,
        install_dir@,
    ));
    assert(env_views(spec.env@) =~= Seq::<(Seq<char>, Seq<char>)>::empty());
    let res = for_host_in(spec, compat, home);
    assert(env_views(res.env@) =~= match compat {
        Some(c) => seq![("LD_LIBRARY_PATH"@, c.ld_library_path@)],
        None => Seq::<(Seq<char>, Seq<char>)>::empty(),
    });
    res
}

/// One thing installing a Version does.
#[derive(Debug, Clone)]
pub enum InstallStep {
    /// The installer runs under bubblewrap as it is; nothing to prepare.
    SandboxInstaller,
    /// The installer's ELF interpreter is rewritten by this `patchelf` run
    /// before the installer can run at all.
    PatchInstaller(ProcessSpec),
    /// Run the installer; a non-zero exit is reported as `command`.
    RunInstaller { spec: ProcessSpec, command: String },
    /// Patch the ELF binaries and scripts directly in these directories.
    PatchDirs(Vec<String>),
}

/// The installer run: unattended into `install_dir`, dressed for the host.
pub open spec fn is_installer_run(
    step: InstallStep,
    product: QuartusProduct,
    installer: Seq<char>,
    install_dir: Seq<char>,
    compat: Option<NixCompat>,
    home: Seq<char>,
) -> bool {
    &&& step matches InstallStep::RunInstaller { spec, command }
    &&& argv(spec) == dress(
        seq![installer] + installer_args_spec(product.installer.accepts_eula_flag, install_dir),
        compat,
        home,
    )
    &&& env_views(spec.env@) == match compat {
        Some(c) => seq![("LD_LIBRARY_PATH"@, c.ld_library_path@)],
        None => Seq::<(Seq<char>, Seq<char>)>::empty(),
    }
    &&& spec.capture == Capture::Tee
    &&& spec.working_dir is None
    &&& command@ == installer
}

/// What installing a Version does, in order. Off NixOS: run the installer.
/// On NixOS: first either run it in the sandbox as it is, or — when the
/// sandbox does not apply — rewrite its ELF interpreter; then run it; then
/// patch the installed binaries and scripts, the bundled simulator's
/// included.
pub open spec fn install_steps_spec(
    steps: Seq<InstallStep>,
    product: QuartusProduct,
    installer: Seq<char>,
    install_dir: Seq<char>,
    compat: Option<NixCompat>,
    home: Seq<char>,
) -> bool {
    match compat {
        None => steps.len() == 1 && is_installer_run(steps[0], product, installer, install_dir, compat, home),
        Some(c) => {
            &&& steps.len() == 3
            &&& if sandbox_for(c, home, installer) is Some {
                steps[0] is SandboxInstaller
            } else {
                steps[0] matches InstallStep::PatchInstaller(p) && argv(p) == seq![
                    c.patchelf_bin@,
                    "--set-interpreter"@,
                    c.dynamic_linker@,
                    installer,
                ] && p.capture == Capture::Null && p.env@.len() == 0 && p.working_dir is None
            }
            &&& is_installer_run(steps[1], product, installer, install_dir, compat, home)
            &&& steps[2] matches InstallStep::PatchDirs(dirs) && views(dirs@) == patch_dirs_spec(
                product,
                install_dir,
            )
        },
    }
}

/// The steps of installing a Version from `installer` into `install_dir`,
/// with `home` bound into the sandbox.
pub fn install_steps(
    product: &QuartusProduct,
    installer: &str,
    install_dir: &str,
    compat: Option<&NixCompat>,
    home: &str,
) -> (res: Vec<InstallStep>)
    ensures
        install_steps_spec(res@, *product, installer@, install_dir@, opt_compat(compat), home@),
{
    let mut steps: Vec<InstallStep> = Vec::new();
    match compat {
        Some(c) => {
            match c.bwrap_argv_in(home, installer) {
                Some(_) => steps.push(InstallStep::SandboxInstaller),
                None => steps.push(InstallStep::PatchInstaller(c.patch_elf_spec(installer))),
            }
        },
        None => {},
    }
    let spec = installer_spec_in(product, installer, install_dir, compat, home);
    steps.push(InstallStep::RunInstaller { spec, command: owned(installer) });
    match compat {
        Some(_) => steps.push(InstallStep::PatchDirs(install_patch_dirs(product, install_dir))),
        None => {},
    }
    steps
}

/// `install_steps` with the user's home directory (empty when the
/// environment names none).
pub fn install_plan(
    product: &QuartusProduct,
    installer: &str,
    install_dir: &str,
    compat: Option<&NixCompat>,
) -> (res: Vec<InstallStep>)
    ensures
        exists|home: Seq<char>|
            #[trigger] install_steps_spec(res@, *product, installer@, install_dir@, opt_compat(compat), home),
{
    let home = match home_dir() {
        Some(h) => h,
        None => String::new(),
    };
    install_steps(product, installer, install_dir, compat, home.as_str())
}

} // verus!
