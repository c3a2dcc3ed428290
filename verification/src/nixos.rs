//! Running FHS-assuming vendor binaries on NixOS.
//!
//! The only thing that varies between Products is the Spawn Strategy, which
//! decides whether the i686 package set gets instantiated and whether binaries
//! run under bubblewrap.

use vstd::prelude::*;

use crate::error::ChipsmithError;
use crate::path::{join, path_join};
use crate::process::{argv, Capture, ProcessOutcome, ProcessSpec};
use crate::product::{home_dir, SpawnStrategy};
use crate::strmap::{entries_view, keys_sorted, lookup, StrMap};
use crate::text::{
    join as join_seq, join_strings, lemma_no_occurrences, lemma_occurrence_at, lemma_occurrences_concat,
    occurrences, owned, views,
};
use vstd::string::StringSliceAdditionalSpecFns;

verus! {

/// The 64-bit store paths every Product needs.
pub const BASE_ATTRS: &'static str = "\n            glibc = pkgs.glibc.outPath;\n            gcc-lib = pkgs.gcc-unwrapped.lib.outPath;\n            zlib = pkgs.zlib.outPath;\n            patchelf = pkgs.patchelf.outPath;\n            bash = pkgs.bash.outPath;\n            ncurses = pkgs.ncurses.outPath;\n            freetype = pkgs.freetype.outPath;\n            fontconfig = pkgs.fontconfig.lib.outPath;\n            libxrender = pkgs.xorg.libXrender.outPath;\n            libxext = pkgs.xorg.libXext.outPath;\n            libx11 = pkgs.xorg.libX11.outPath;\n            libxi = pkgs.xorg.libXi.outPath;\n            libxtst = pkgs.xorg.libXtst.outPath;\n            libxft = pkgs.xorg.libXft.outPath;\n            dbus = pkgs.dbus.lib.outPath;\n            glib = pkgs.glib.out.outPath;\n            libpng = pkgs.libpng.outPath;\n            expat = pkgs.expat.outPath;\n            libxml2 = pkgs.libxml2.outPath;\n            libxcb = pkgs.xorg.libxcb.outPath;\n            libxau = pkgs.xorg.libXau.outPath;\n            libxdmcp = pkgs.xorg.libXdmcp.outPath;\n            libxcrypt-legacy = pkgs.libxcrypt-legacy.outPath;\n            libsm = pkgs.xorg.libSM.outPath;\n            libice = pkgs.xorg.libICE.outPath;\n            krb5 = pkgs.krb5.lib.outPath;\n            bzip2 = pkgs.bzip2.out.outPath;\n            systemd = pkgs.systemd.outPath;\n            libxfixes = pkgs.xorg.libXfixes.outPath;\n            libxdamage = pkgs.xorg.libXdamage.outPath;\n            libxcomposite = pkgs.xorg.libXcomposite.outPath;\n            libxrandr = pkgs.xorg.libXrandr.outPath;\n            libxcursor = pkgs.xorg.libXcursor.outPath;\n            libxinerama = pkgs.xorg.libXinerama.outPath;\n            libuuid = pkgs.util-linux.lib.outPath;\n";

/// Only `SpawnStrategy::Bubblewrap32` asks for these. Naming `pkgsi686Linux`
/// forces nix to instantiate the whole i686 package set, which is seconds of
/// evaluation a 64-bit-only Product should not pay.
pub const THIRTY_TWO_BIT_ATTRS: &'static str = "\n            glibc32 = pkgs.pkgsi686Linux.glibc.outPath;\n            gcc-lib32 = pkgs.pkgsi686Linux.gcc-unwrapped.lib.outPath;\n            zlib32 = pkgs.pkgsi686Linux.zlib.outPath;\n            bubblewrap = pkgs.bubblewrap.outPath;\n";

/// The nix expression that resolves every required store path at once.
pub open spec fn nix_expr_spec(strategy: SpawnStrategy) -> Seq<char> {
    "let pkgs = import <nixpkgs> {};\n        in {"@ + BASE_ATTRS@ + (if strategy
        == SpawnStrategy::Bubblewrap32 {
        THIRTY_TWO_BIT_ATTRS@
    } else {
        Seq::<char>::empty()
    }) + "        }"@
}

/// Only the expression for a 32-bit Product names `pkgsi686Linux`, the
/// i686 package set that takes seconds of evaluation to instantiate.
pub proof fn law_only_32bit_products_name_the_i686_package_set(strategy: SpawnStrategy)
    ensures
        (occurrences(nix_expr_spec(strategy), "pkgsi686Linux"@) > 0) == (strategy
            == SpawnStrategy::Bubblewrap32),
{
    let p = "pkgsi686Linux"@;
    reveal_strlit("pkgsi686Linux");
    reveal_strlit("let pkgs = import <nixpkgs> {};\n        in {");
    reveal_strlit("        }");
    reveal_strlit("\n            glibc = pkgs.glibc.outPath;\n            gcc-lib = pkgs.gcc-unwrapped.lib.outPath;\n            zlib = pkgs.zlib.outPath;\n            patchelf = pkgs.patchelf.outPath;\n            bash = pkgs.bash.outPath;\n            ncurses = pkgs.ncurses.outPath;\n            freetype = pkgs.freetype.outPath;\n            fontconfig = pkgs.fontconfig.lib.outPath;\n            libxrender = pkgs.xorg.libXrender.outPath;\n            libxext = pkgs.xorg.libXext.outPath;\n            libx11 = pkgs.xorg.libX11.outPath;\n            libxi = pkgs.xorg.libXi.outPath;\n            libxtst = pkgs.xorg.libXtst.outPath;\n            libxft = pkgs.xorg.libXft.outPath;\n            dbus = pkgs.dbus.lib.outPath;\n            glib = pkgs.glib.out.outPath;\n            libpng = pkgs.libpng.outPath;\n            expat = pkgs.expat.outPath;\n            libxml2 = pkgs.libxml2.outPath;\n            libxcb = pkgs.xorg.libxcb.outPath;\n            libxau = pkgs.xorg.libXau.outPath;\n            libxdmcp = pkgs.xorg.libXdmcp.outPath;\n            libxcrypt-legacy = pkgs.libxcrypt-legacy.outPath;\n            libsm = pkgs.xorg.libSM.outPath;\n            libice = pkgs.xorg.libICE.outPath;\n            krb5 = pkgs.krb5.lib.outPath;\n            bzip2 = pkgs.bzip2.out.outPath;\n            systemd = pkgs.systemd.outPath;\n            libxfixes = pkgs.xorg.libXfixes.outPath;\n            libxdamage = pkgs.xorg.libXdamage.outPath;\n            libxcomposite = pkgs.xorg.libXcomposite.outPath;\n            libxrandr = pkgs.xorg.libXrandr.outPath;\n            libxcursor = pkgs.xorg.libXcursor.outPath;\n            libxinerama = pkgs.xorg.libXinerama.outPath;\n            libuuid = pkgs.util-linux.lib.outPath;\n");
    reveal_strlit("\n            glibc32 = pkgs.pkgsi686Linux.glibc.outPath;\n            gcc-lib32 = pkgs.pkgsi686Linux.gcc-unwrapped.lib.outPath;\n            zlib32 = pkgs.pkgsi686Linux.zlib.outPath;\n            bubblewrap = pkgs.bubblewrap.outPath;\n");
    let pre = "let pkgs = import <nixpkgs> {};\n        in {"@;
    let post = "        }"@;
    let base = BASE_ATTRS@;
    let extra = THIRTY_TWO_BIT_ATTRS@;
    assert(p.contains('6')) by {
        assert(p[5] == '6');
    }
    assert(!p.contains('\n') && !p.contains('{') && !p.contains(' ')) by {
        assert forall|i: int| 0 <= i < p.len() implies p[i] != '\n' && p[i] != '{' && p[i] != ' ' by {}
    }
    lemma_no_occurrences(pre, p, '6');
    lemma_no_occurrences(base, p, '6');
    lemma_no_occurrences(post, p, '6');
    lemma_occurrences_concat(pre, base, p);
    if strategy == SpawnStrategy::Bubblewrap32 {
        assert(extra.subrange(28, 28 + p.len() as int) =~= p);
        lemma_occurrence_at(extra, p, 28);
        lemma_occurrences_concat(pre + base, extra, p);
        lemma_occurrences_concat(pre + base + extra, post, p);
    } else {
        assert(pre + base + Seq::<char>::empty() =~= pre + base);
        lemma_occurrences_concat(pre + base, post, p);
    }
}

pub fn nix_eval_expr(strategy: SpawnStrategy) -> (res: String)
    ensures
        res@ == nix_expr_spec(strategy),
{
    let mut e = String::from_str("let pkgs = import <nixpkgs> {};\n        in {");
    e.append(BASE_ATTRS);
    if strategy.needs_32bit() {
        e.append(THIRTY_TWO_BIT_ATTRS);
    }
    e.append("        }");
    e
}

/// The `nix eval` that resolves every store path in one call, its output
/// collected as JSON.
pub fn nix_eval_spec(strategy: SpawnStrategy) -> (res: ProcessSpec)
    ensures
        argv(res) == seq![
            "nix"@,
            "eval"@,
            "--impure"@,
            "--json"@,
            "--expr"@,
            nix_expr_spec(strategy),
        ],
        res.capture == Capture::Piped,
        res.env@.len() == 0,
        res.working_dir is None,
{
    let mut args: Vec<String> = Vec::new();
    args.push(owned("eval"));
    args.push(owned("--impure"));
    args.push(owned("--json"));
    args.push(owned("--expr"));
    args.push(nix_eval_expr(strategy));
    let res = ProcessSpec::new(owned("nix")).args(args).capture(Capture::Piped);
    assert(argv(res) =~= seq!["nix"@, "eval"@, "--impure"@, "--json"@, "--expr"@, nix_expr_spec(strategy)]);
    res
}

/// What `facet_json` reads out of a JSON object whose values are all
/// strings: its entries in ascending key order, or the text of its error.
pub uninterp spec fn json_string_map(bytes: Seq<u8>) -> Result<Seq<(Seq<char>, Seq<char>)>, Seq<char>>;

pub open spec fn pair_views(v: Seq<(String, String)>) -> Seq<(Seq<char>, Seq<char>)> {
    v.map_values(|e: (String, String)| (e.0@, e.1@))
}

/// Calls `facet_json::from_slice` into a `BTreeMap<String, String>` and lists
/// the map's entries, which a `BTreeMap` yields in ascending key order; the
/// result is named `json_string_map` of the bytes.
#[verifier::external_body]
fn parse_json_string_map(bytes: &[u8]) -> (res: Result<Vec<(String, String)>, String>)
    ensures
        match res {
            Ok(v) => json_string_map(bytes@) == Ok::<
                Seq<(Seq<char>, Seq<char>)>,
                Seq<char>,
            >(pair_views(v@)) && keys_sorted(entries_view(v@)),
            Err(e) => json_string_map(bytes@) == Err::<Seq<(Seq<char>, Seq<char>)>, Seq<char>>(
                e@,
            ),
        },
{
    match facet_json::from_slice::<std::collections::BTreeMap<String, String>>(bytes) {
        Ok(map) => Ok(map.into_iter().collect()),
        Err(e) => Err(e.to_string()),
    }
}

/// The store paths `nix eval` resolved, by attribute name. Ordered by name,
/// so the library path it yields is the same on every run.
pub struct NixPaths {
    pub paths: StrMap<String>,
}

/// `path` joined with each of `parts` in turn.
pub open spec fn under(path: Seq<char>, parts: Seq<Seq<char>>) -> Seq<char>
    decreases parts.len(),
{
    if parts.len() == 0 {
        path
    } else {
        path_join(under(path, parts.drop_last()), parts.last())
    }
}

impl NixPaths {
    /// Read the JSON object `nix eval --json` printed.
    pub fn from_json(stdout: &[u8]) -> (res: Result<NixPaths, ChipsmithError>)
        ensures
            match res {
                Ok(p) => json_string_map(stdout@) matches Ok(entries) && entries == p.paths@.map_values(
                    |e: (Seq<char>, String)| (e.0, e.1@),
                ),
                Err(e) => json_string_map(stdout@) matches Err(m)
                    && e matches ChipsmithError::NixEvalOutput { message } && message@ == m,
            },
    {
        match parse_json_string_map(stdout) {
            Ok(v) => {
                let ghost pv = pair_views(v@);
                let paths = StrMap::from_sorted(v);
                assert(paths@.map_values(|e: (Seq<char>, String)| (e.0, e.1@)) =~= pv);
                Ok(NixPaths { paths })
            },
            Err(message) => Err(ChipsmithError::NixEvalOutput { message }),
        }
    }

    /// What a finished `nix eval` (run as `nix_eval_spec` says) comes to: a
    /// non-zero exit is a failed evaluation carrying everything it wrote to
    /// stderr; otherwise its stdout is read as `from_json` reads it.
    pub fn from_eval(outcome: ProcessOutcome) -> (res: Result<NixPaths, ChipsmithError>)
        ensures
            outcome.code != Some(0i32) ==> (res matches Err(ChipsmithError::NixEvalFailed { message })
                && message@ == match outcome.stderr_tail {
                Some(t) => t@,
                None => Seq::<char>::empty(),
            }),
            outcome.code == Some(0i32) ==> match res {
                Ok(p) => json_string_map(outcome.stdout@) matches Ok(entries) && entries
                    == p.paths@.map_values(|e: (Seq<char>, String)| (e.0, e.1@)),
                Err(e) => json_string_map(outcome.stdout@) matches Err(m)
                    && e matches ChipsmithError::NixEvalOutput { message } && message@ == m,
            },
    {
        if !outcome.success() {
            let message = match outcome.stderr_tail {
                Some(t) => t,
                None => String::new(),
            };
            return Err(ChipsmithError::NixEvalFailed { message });
        }
        NixPaths::from_json(outcome.stdout.as_slice())
    }

    /// The store path of an attribute.
    pub fn get(&self, key: &str) -> (res: Option<String>)
        ensures
            match res {
                Some(p) => lookup(self.paths@, key@) matches Some(v) && p@ == v@,
                None => lookup(self.paths@, key@) is None,
            },
    {
        match self.paths.get(key) {
            Some(v) => Some(v.clone()),
            None => None,
        }
    }

    fn get_under(&self, key: &str, a: &str, b: &str) -> (res: Option<String>)
        ensures
            match res {
                Some(p) => lookup(self.paths@, key@) matches Some(v) && p@ == under(
                    v@,
                    seq![a@, b@],
                ),
                None => lookup(self.paths@, key@) is None,
            },
    {
        match self.paths.get(key) {
            Some(v) => {
                let x = join(v.as_str(), a);
                let y = join(x.as_str(), b);
                assert(seq![a@, b@].drop_last() =~= seq![a@]);
                assert(seq![a@].drop_last() =~= Seq::<Seq<char>>::empty());
                assert(under(v@, Seq::<Seq<char>>::empty()) == v@);
                assert(under(v@, seq![a@]) == path_join(v@, a@));
                assert(under(v@, seq![a@, b@]) == path_join(x@, b@));
                Some(y)
            },
            None => None,
        }
    }

    pub fn dynamic_linker(&self) -> (res: Option<String>)
        ensures
            match res {
                Some(p) => lookup(self.paths@, "glibc"@) matches Some(v) && p@ == under(
                    v@,
                    seq!["lib"@, "ld-linux-x86-64.so.2"@],
                ),
                None => lookup(self.paths@, "glibc"@) is None,
            },
    {
        self.get_under("glibc", "lib", "ld-linux-x86-64.so.2")
    }

    pub fn dynamic_linker_32(&self) -> (res: Option<String>)
        ensures
            match res {
                Some(p) => lookup(self.paths@, "glibc32"@) matches Some(v) && p@ == under(
                    v@,
                    seq!["lib"@, "ld-linux.so.2"@],
                ),
                None => lookup(self.paths@, "glibc32"@) is None,
            },
    {
        self.get_under("glibc32", "lib", "ld-linux.so.2")
    }

    pub fn patchelf(&self) -> (res: Option<String>)
        ensures
            match res {
                Some(p) => lookup(self.paths@, "patchelf"@) matches Some(v) && p@ == under(
                    v@,
                    seq!["bin"@, "patchelf"@],
                ),
                None => lookup(self.paths@, "patchelf"@) is None,
            },
    {
        self.get_under("patchelf", "bin", "patchelf")
    }

    pub fn bash(&self) -> (res: Option<String>)
        ensures
            match res {
                Some(p) => lookup(self.paths@, "bash"@) matches Some(v) && p@ == under(
                    v@,
                    seq!["bin"@, "bash"@],
                ),
                None => lookup(self.paths@, "bash"@) is None,
            },
    {
        self.get_under("bash", "bin", "bash")
    }

    pub fn bubblewrap(&self) -> (res: Option<String>)
        ensures
            match res {
                Some(p) => lookup(self.paths@, "bubblewrap"@) matches Some(v) && p@ == under(
                    v@,
                    seq!["bin"@, "bwrap"@],
                ),
                None => lookup(self.paths@, "bubblewrap"@) is None,
            },
    {
        self.get_under("bubblewrap", "bin", "bwrap")
    }

    /// Every store path's `lib` directory, in attribute-name order. Which of
    /// them exist is for the caller to check before they go on the library
    /// path.
    pub fn lib_candidates(&self) -> (res: Vec<String>)
        ensures
            views(res@) == self.paths@.map_values(|e: (Seq<char>, String)| path_join(e.1@, "lib"@)),
    {
        let entries = self.paths.as_slice();
        let mut res: Vec<String> = Vec::new();
        let mut i: usize = 0;
        while i < entries.len()
            invariant
                i <= entries@.len(),
                entries_view(entries@) == self.paths@,
                views(res@) == self.paths@.map_values(
                    |e: (Seq<char>, String)| path_join(e.1@, "lib"@),
                ).subrange(0, i as int),
            decreases entries@.len() - i,
        {
            let ghost before = res@;
            let p = join(entries[i].1.as_str(), "lib");
            assert(self.paths@[i as int].1 == entries@[i as int].1);
            res.push(p);
            assert(views(res@) =~= views(before).push(p@));
            i = i + 1;
            assert(views(res@) =~= self.paths@.map_values(
                |e: (Seq<char>, String)| path_join(e.1@, "lib"@),
            ).subrange(0, i as int));
        }
        assert(self.paths@.map_values(|e: (Seq<char>, String)| path_join(e.1@, "lib"@)).subrange(
            0,
            i as int,
        ) =~= self.paths@.map_values(|e: (Seq<char>, String)| path_join(e.1@, "lib"@)));
        res
    }
}

/// The library directories joined into an `LD_LIBRARY_PATH`.
pub fn build_ld_library_path(lib_paths: &Vec<String>) -> (res: String)
    ensures
        res@ == join_seq(views(lib_paths@), ":"@),
{
    join_strings(lib_paths, ":")
}

/// Everything needed to run FHS binaries on NixOS.
pub struct NixCompat {
    pub ld_library_path: String,
    pub strategy: SpawnStrategy,
    pub bash_path: String,
    pub patchelf_bin: String,
    pub dynamic_linker: String,
    pub dynamic_linker_32: Option<String>,
    pub bwrap_bin: Option<String>,
}

/// The bubblewrap argv that runs `program` with a 32-bit loader at
/// `/lib/ld-linux.so.2`, the host read-only, `/tmp` and `home` writable.
pub open spec fn bwrap_argv_spec(
    bwrap: Seq<char>,
    ld32: Seq<char>,
    home: Seq<char>,
    program: Seq<char>,
) -> Seq<Seq<char>> {
    seq![
        bwrap,
        "--ro-bind"@,
        "/"@,
        "/"@,
        "--bind"@,
        "/tmp"@,
        "/tmp"@,
        "--bind"@,
        home,
        home,
        "--tmpfs"@,
        "/lib"@,
        "--symlink"@,
        ld32,
        "/lib/ld-linux.so.2"@,
        "--dev"@,
        "/dev"@,
        "--proc"@,
        "/proc"@,
        program,
    ]
}

/// When the sandbox is used at all: the Strategy asks for it and both
/// bubblewrap and the 32-bit loader were found.
pub open spec fn sandbox_for(c: NixCompat, home: Seq<char>, program: Seq<char>) -> Option<
    Seq<Seq<char>>,
> {
    if c.strategy != SpawnStrategy::Bubblewrap32 {
        None
    } else {
        match (c.bwrap_bin, c.dynamic_linker_32) {
            (Some(b), Some(l)) => Some(bwrap_argv_spec(b@, l@, home, program)),
            _ => None,
        }
    }
}

/// A spec dressed for this host: unchanged off NixOS; on NixOS sandboxed if
/// the Spawn Strategy calls for it, and with the resolved library path.
pub open spec fn dress(a: Seq<Seq<char>>, compat: Option<NixCompat>, home: Seq<char>) -> Seq<
    Seq<char>,
> {
    match compat {
        None => a,
        Some(c) => match sandbox_for(c, home, a[0]) {
            Some(w) => w.drop_last() + a,
            None => a,
        },
    }
}

pub open spec fn dressed_argv(spec: ProcessSpec, compat: Option<NixCompat>, home: Seq<char>) -> Seq<
    Seq<char>,
> {
    dress(argv(spec), compat, home)
}

pub open spec fn env_views(env: Seq<(String, String)>) -> Seq<(Seq<char>, Seq<char>)> {
    env.map_values(|e: (String, String)| (e.0@, e.1@))
}

pub open spec fn dressed_env(spec: ProcessSpec, compat: Option<NixCompat>) -> Seq<(Seq<char>, Seq<char>)> {
    match compat {
        None => env_views(spec.env@),
        Some(c) => env_views(spec.env@).push(("LD_LIBRARY_PATH"@, c.ld_library_path@)),
    }
}

/// Only a 32-bit Product on a host that has both bubblewrap and the 32-bit
/// loader is sandboxed; then the sandbox ends with the program, and mounts
/// the loader at `/lib/ld-linux.so.2` over a fresh `/lib`. Off NixOS a spec
/// is left alone.
pub proof fn law_only_32bit_products_are_sandboxed(
    c: NixCompat,
    home: Seq<char>,
    program: Seq<char>,
    a: Seq<Seq<char>>,
)
    ensures
        c.strategy == SpawnStrategy::PatchElf ==> sandbox_for(c, home, program) is None,
        c.bwrap_bin is None ==> sandbox_for(c, home, program) is None,
        c.dynamic_linker_32 is None ==> sandbox_for(c, home, program) is None,
        sandbox_for(c, home, program) matches Some(w) ==> {
            &&& w.last() == program
            &&& w[0] == c.bwrap_bin->0@
            &&& w[10] == "--tmpfs"@ && w[11] == "/lib"@
            &&& w[12] == "--symlink"@ && w[13] == c.dynamic_linker_32->0@
            &&& w[14] == "/lib/ld-linux.so.2"@
        },
        dress(a, None, home) == a,
{
}

pub open spec fn opt_compat(compat: Option<&NixCompat>) -> Option<NixCompat> {
    match compat {
        Some(c) => Some(*c),
        None => None,
    }
}

impl NixCompat {
    /// Assemble the Nix Compat layer from resolved store paths. The dynamic
    /// linker, patchelf and bash are required; the 32-bit loader and
    /// bubblewrap are used when present.
    pub fn from_paths(strategy: SpawnStrategy, paths: &NixPaths, existing_lib_paths: &Vec<String>) -> (res: Result<NixCompat, ChipsmithError>)
        ensures
            match res {
                Ok(c) => {
                    &&& lookup(paths.paths@, "glibc"@) is Some
                    &&& lookup(paths.paths@, "patchelf"@) is Some
                    &&& lookup(paths.paths@, "bash"@) is Some
                    &&& c.strategy == strategy
                    &&& c.ld_library_path@ == join_seq(views(existing_lib_paths@), ":"@)
                    &&& c.dynamic_linker@ == under(lookup(paths.paths@, "glibc"@)->0@, seq!["lib"@, "ld-linux-x86-64.so.2"@])
                    &&& c.patchelf_bin@ == under(lookup(paths.paths@, "patchelf"@)->0@, seq!["bin"@, "patchelf"@])
                    &&& c.bash_path@ == under(lookup(paths.paths@, "bash"@)->0@, seq!["bin"@, "bash"@])
                    &&& match c.dynamic_linker_32 {
                        Some(l) => lookup(paths.paths@, "glibc32"@) matches Some(v) && l@ == under(v@, seq!["lib"@, "ld-linux.so.2"@]),
                        None => lookup(paths.paths@, "glibc32"@) is None,
                    }
                    &&& match c.bwrap_bin {
                        Some(b) => lookup(paths.paths@, "bubblewrap"@) matches Some(v) && b@ == under(v@, seq!["bin"@, "bwrap"@]),
                        None => lookup(paths.paths@, "bubblewrap"@) is None,
                    }
                },
                Err(e) => e matches ChipsmithError::NixPackageMissing { attr } && (if lookup(
                    paths.paths@,
                    "glibc"@,
                ) is None {
                    attr@ == "glibc"@
                } else if lookup(paths.paths@, "patchelf"@) is None {
                    attr@ == "patchelf"@
                } else {
                    lookup(paths.paths@, "bash"@) is None && attr@ == "bash"@
                }),
            },
    {
        let dynamic_linker = match paths.dynamic_linker() {
            Some(p) => p,
            None => return Err(ChipsmithError::NixPackageMissing { attr: owned("glibc") }),
        };
        let patchelf_bin = match paths.patchelf() {
            Some(p) => p,
            None => return Err(ChipsmithError::NixPackageMissing { attr: owned("patchelf") }),
        };
        let bash_path = match paths.bash() {
            Some(p) => p,
            None => return Err(ChipsmithError::NixPackageMissing { attr: owned("bash") }),
        };
        Ok(NixCompat {
            ld_library_path: build_ld_library_path(existing_lib_paths),
            strategy,
            bash_path,
            patchelf_bin,
            dynamic_linker,
            dynamic_linker_32: paths.dynamic_linker_32(),
            bwrap_bin: paths.bubblewrap(),
        })
    }

    /// The argv for running `program` under bubblewrap with a 32-bit loader
    /// mounted at `/lib/ld-linux.so.2`, with `home` bound writable; `None`
    /// if this Product doesn't need the sandbox or the pieces aren't there.
    pub fn bwrap_argv_in(&self, home: &str, program: &str) -> (res: Option<Vec<String>>)
        ensures
            match res {
                Some(v) => sandbox_for(*self, home@, program@) == Some(views(v@)),
                None => sandbox_for(*self, home@, program@) is None,
            },
    {
        if !self.strategy.needs_32bit() {
            return None;
        }
        let bwrap = match &self.bwrap_bin {
            Some(b) => b,
            None => return None,
        };
        let ld32 = match &self.dynamic_linker_32 {
            Some(l) => l,
            None => return None,
        };
        let mut v: Vec<String> = Vec::new();
        v.push(bwrap.clone());
        v.push(owned("--ro-bind"));
        v.push(owned("/"));
        v.push(owned("/"));
        v.push(owned("--bind"));
        v.push(owned("/tmp"));
        v.push(owned("/tmp"));
        v.push(owned("--bind"));
        v.push(owned(home));
        v.push(owned(home));
        v.push(owned("--tmpfs"));
        v.push(owned("/lib"));
        v.push(owned("--symlink"));
        v.push(ld32.clone());
        v.push(owned("/lib/ld-linux.so.2"));
        v.push(owned("--dev"));
        v.push(owned("/dev"));
        v.push(owned("--proc"));
        v.push(owned("/proc"));
        v.push(owned(program));
        assert(views(v@) =~= bwrap_argv_spec(bwrap@, ld32@, home@, program@));
        Some(v)
    }

    /// `patchelf --set-interpreter <nix dynamic linker> <binary>`, its output
    /// discarded: what rewrites a 64-bit vendor binary's ELF interpreter so
    /// it runs outside an FHS layout.
    pub fn patch_elf_spec(&self, binary: &str) -> (res: ProcessSpec)
        ensures
            argv(res) == seq![self.patchelf_bin@, "--set-interpreter"@, self.dynamic_linker@, binary@],
            res.capture == Capture::Null,
            res.env@.len() == 0,
            res.working_dir is None,
    {
        let res = ProcessSpec::new(self.patchelf_bin.clone()).arg(owned("--set-interpreter")).arg(
            self.dynamic_linker.clone(),
        ).arg(owned(binary)).capture(Capture::Null);
        assert(argv(res) =~= seq![self.patchelf_bin@, "--set-interpreter"@, self.dynamic_linker@, binary@]);
        res
    }

    /// `bwrap_argv_in` with the user's home directory (empty when the
    /// environment names none).
    pub fn bwrap_argv(&self, program: &str) -> (res: Option<Vec<String>>)
        ensures
            exists|home: Seq<char>|
                match res {
                    Some(v) => sandbox_for(*self, home, program@) == Some(views(v@)),
                    None => sandbox_for(*self, home, program@) is None,
                },
    {
        let home = match home_dir() {
            Some(h) => h,
            None => String::new(),
        };
        self.bwrap_argv_in(home.as_str(), program)
    }
}

/// Dress a spec for this host with a given home directory: sandboxed if the
/// Spawn Strategy calls for it, and with the resolved library path either way.
pub fn for_host_in(spec: ProcessSpec, compat: Option<&NixCompat>, home: &str) -> (res: ProcessSpec)
    ensures
        argv(res) == dressed_argv(
            spec,
            opt_compat(compat),
            home@,
        ),
        env_views(res.env@) == dressed_env(
            spec,
            opt_compat(compat),
        ),
        res.working_dir == spec.working_dir,
        res.capture == spec.capture,
{
    let compat = match compat {
        Some(c) => c,
        None => return spec,
    };
    let ghost s0 = spec;
    let spec = match compat.bwrap_argv_in(home, spec.program.as_str()) {
        Some(argv) => {
            let mut w = argv;
            let ghost wv = views(w@);
            w.pop();
            assert(views(w@) =~= wv.drop_last());
            spec.wrapped_in(w)
        },
        None => spec,
    };
    let ghost before = env_views(spec.env@);
    let res = spec.env(owned("LD_LIBRARY_PATH"), compat.ld_library_path.clone());
    assert(env_views(res.env@) =~= before.push(("LD_LIBRARY_PATH"@, compat.ld_library_path@)));
    res
}

/// `for_host_in` with the user's home directory.
pub fn for_host(spec: ProcessSpec, compat: Option<&NixCompat>) -> (res: ProcessSpec)
    ensures
        exists|home: Seq<char>|
            argv(res) == #[trigger] dressed_argv(
                spec,
                opt_compat(compat),
                home,
            ),
        env_views(res.env@) == dressed_env(
            spec,
            opt_compat(compat),
        ),
        res.working_dir == spec.working_dir,
        res.capture == spec.capture,
{
    let home = match home_dir() {
        Some(h) => h,
        None => String::new(),
    };
    for_host_in(spec, compat, home.as_str())
}

/// The first bytes of an ELF file.
pub open spec fn is_elf_spec(bytes: Seq<u8>) -> bool {
    bytes.len() > 4 && bytes[0] == 0x7f && bytes[1] == 0x45 && bytes[2] == 0x4c && bytes[3] == 0x46
}

/// Whether file contents are an ELF binary (and more than its magic).
pub fn is_elf(bytes: &[u8]) -> (res: bool)
    ensures
        res == is_elf_spec(bytes@),
{
    bytes.len() > 4 && bytes[0] == 0x7f && bytes[1] == 0x45 && bytes[2] == 0x4c && bytes[3] == 0x46
}

/// `#!/bin/bash`, byte by byte.
pub open spec fn bash_shebang() -> Seq<u8> {
    seq![0x23u8, 0x21, 0x2f, 0x62, 0x69, 0x6e, 0x2f, 0x62, 0x61, 0x73, 0x68]
}

/// A script that starts `#!/bin/bash` pointed at the nix bash instead: `#!`,
/// the bash path's bytes, then the rest of the file unchanged.
pub open spec fn patched_script(content: Seq<u8>, bash: Seq<u8>) -> Option<Seq<u8>> {
    let n = bash_shebang().len();
    if content.len() < n || content.subrange(0, n as int) != bash_shebang() {
        None
    } else {
        Some(seq![0x23u8, 0x21] + bash + content.subrange(n as int, content.len() as int))
    }
}

/// The new contents for a `#!/bin/bash` script, or `None` when the file is
/// not one.
pub fn patch_shebang(content: &[u8], bash_path: &str) -> (res: Option<Vec<u8>>)
    ensures
        match res {
            Some(v) => patched_script(content@, bash_path.spec_bytes()) == Some(v@),
            None => patched_script(content@, bash_path.spec_bytes()) is None,
        },
{
    let mut shebang: Vec<u8> = Vec::new();
    shebang.push(0x23);
    shebang.push(0x21);
    shebang.push(0x2f);
    shebang.push(0x62);
    shebang.push(0x69);
    shebang.push(0x6e);
    shebang.push(0x2f);
    shebang.push(0x62);
    shebang.push(0x61);
    shebang.push(0x73);
    shebang.push(0x68);
    assert(shebang@ =~= bash_shebang());
    let n = shebang.len();
    if content.len() < n {
        return None;
    }
    let mut i: usize = 0;
    while i < n
        invariant
            n == shebang@.len(),
            shebang@ == bash_shebang(),
            n <= content@.len(),
            i <= n,
            forall|j: int| 0 <= j < i ==> content@[j] == shebang@[j],
        decreases n - i,
    {
        if content[i] != shebang[i] {
            assert(content@.subrange(0, n as int)[i as int] != bash_shebang()[i as int]);
            return None;
        }
        i = i + 1;
    }
    assert(content@.subrange(0, n as int) =~= bash_shebang());
    let mut out: Vec<u8> = Vec::new();
    out.push(0x23);
    out.push(0x21);
    let bytes = bash_path.as_bytes();
    let mut k: usize = 0;
    while k < bytes.len()
        invariant
            k <= bytes@.len(),
            out@ == seq![0x23u8, 0x21] + bytes@.subrange(0, k as int),
        decreases bytes@.len() - k,
    {
        out.push(bytes[k]);
        k = k + 1;
        assert(out@ =~= seq![0x23u8, 0x21] + bytes@.subrange(0, k as int));
    }
    assert(bytes@.subrange(0, k as int) =~= bytes@);
    let ghost mid = out@;
    let mut m: usize = n;
    while m < content.len()
        invariant
            n <= m <= content@.len(),
            out@ == mid + content@.subrange(n as int, m as int),
        decreases content@.len() - m,
    {
        out.push(content[m]);
        m = m + 1;
        assert(out@ =~= mid + content@.subrange(n as int, m as int));
    }
    Some(out)
}

} // verus!
