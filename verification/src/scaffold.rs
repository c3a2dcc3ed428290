//! Scaffolding a new Project: the text of its Manifest and its stub entity.

use vstd::prelude::*;

use crate::error::ChipsmithError;
use crate::manifest::is_digit;
use crate::path::{join, path_join};
use crate::text::{cat, chars_of, owned};

verus! {

pub struct InitOptions {
    pub name: Option<String>,
    pub backend: String,
    pub version: String,
    pub family: String,
    pub device: String,
}

/// `name` with every `-` turned into `_`.
pub open spec fn dashes_to_underscores(name: Seq<char>) -> Seq<char> {
    name.map_values(|c: char| if c == '-' { '_' } else { c })
}

/// A Project name that is also a legal VHDL identifier: hyphens become
/// underscores, and a leading digit gets a `p_` in front.
pub open spec fn vhdl_identifier_spec(name: Seq<char>) -> Seq<char> {
    let t = dashes_to_underscores(name);
    if t.len() > 0 && is_digit(t[0]) {
        "p_"@ + t
    } else {
        t
    }
}

/// A name that is already a legal identifier is left as it is: scaffolding
/// from the name a Project was scaffolded with gives the same name back.
pub proof fn law_identifier_is_stable(name: Seq<char>)
    ensures
        vhdl_identifier_spec(vhdl_identifier_spec(name)) == vhdl_identifier_spec(name),
{
    let r = vhdl_identifier_spec(name);
    let t = dashes_to_underscores(name);
    assert(forall|i: int| 0 <= i < t.len() ==> #[trigger] t[i] != '-');
    assert(forall|i: int| 0 <= i < r.len() ==> #[trigger] r[i] != '-') by {
        reveal_strlit("p_");
        if t.len() > 0 && is_digit(t[0]) {
            assert forall|i: int| 0 <= i < r.len() implies #[trigger] r[i] != '-' by {
                if i >= 2 {
                    assert(r[i] == t[i - 2]);
                }
            }
        }
    }
    assert(dashes_to_underscores(r) =~= r);
    assert(!(r.len() > 0 && is_digit(r[0]))) by {
        reveal_strlit("p_");
    }
}

/// A Project name that is also a legal VHDL identifier.
pub fn vhdl_identifier(name: &str) -> (res: String)
    ensures
        res@ == vhdl_identifier_spec(name@),
        // the two things VHDL would otherwise reject
        !(res@.len() > 0 && is_digit(res@[0])),
        forall|i: int| 0 <= i < res@.len() ==> #[trigger] res@[i] != '-',
{
    let cs = chars_of(name);
    let mut t = String::new();
    let mut i: usize = 0;
    while i < cs.len()
        invariant
            cs@ == name@,
            i <= cs@.len(),
            t@ == dashes_to_underscores(name@.subrange(0, i as int)),
        decreases cs@.len() - i,
    {
        let c = if cs[i] == '-' {
            '_'
        } else {
            cs[i]
        };
        t.push(c);
        i = i + 1;
        assert(t@ =~= dashes_to_underscores(name@.subrange(0, i as int)));
    }
    assert(name@.subrange(0, i as int) =~= name@);
    let tc = chars_of(t.as_str());
    // VHDL identifiers can't start with a digit, so a directory called `7seg`
    // would otherwise scaffold an entity that cannot compile.
    if tc.len() > 0 && '0' <= tc[0] && tc[0] <= '9' {
        let mut r = String::from_str("p_");
        r.append(t.as_str());
        proof {
            reveal_strlit("p_");
            assert(r@[0] == 'p');
            assert forall|k: int| 0 <= k < r@.len() implies #[trigger] r@[k] != '-' by {
                if k >= 2 {
                    assert(r@[k] == t@[k - 2]);
                }
            }
        }
        r
    } else {
        t
    }
}

/// The Manifest text for a new Project.
pub open spec fn manifest_template_spec(
    name: Seq<char>,
    backend: Seq<char>,
    version: Seq<char>,
    family: Seq<char>,
    device: Seq<char>,
) -> Seq<char> {
    "[project]\nname = \""@ + name + "\"\ntop = \""@ + name + "\"\n\n[toolchain]\n"@ + backend
        + " = \""@ + version + "\"\n\n[target]\nfamily = \""@ + family + "\"\ndevice = \""@
        + device
        + "\"\n\n[hdl]\nsources = [\"src/*.vhd\"]\n\n[pins]\n\n# Port frequencies, e.g. clk = \"50 MHz\". Without these the timing report is meaningless.\n[clocks]\n"@
}

/// The Manifest text for a new Project.
pub fn manifest_template(name: &str, opts: &InitOptions) -> (res: String)
    ensures
        res@ == manifest_template_spec(
            name@,
            opts.backend@,
            opts.version@,
            opts.family@,
            opts.device@,
        ),
{
    let mut s = String::from_str("[project]\nname = \"");
    s.append(name);
    s.append("\"\ntop = \"");
    s.append(name);
    s.append("\"\n\n[toolchain]\n");
    s.append(opts.backend.as_str());
    s.append(" = \"");
    s.append(opts.version.as_str());
    s.append("\"\n\n[target]\nfamily = \"");
    s.append(opts.family.as_str());
    s.append("\"\ndevice = \"");
    s.append(opts.device.as_str());
    s.append(
        "\"\n\n[hdl]\nsources = [\"src/*.vhd\"]\n\n[pins]\n\n# Port frequencies, e.g. clk = \"50 MHz\". Without these the timing report is meaningless.\n[clocks]\n",
    );
    s
}

/// The stub top-level entity for a new Project.
pub open spec fn entity_template_spec(name: Seq<char>) -> Seq<char> {
    "library ieee;\nuse ieee.std_logic_1164.all;\nuse ieee.numeric_std.all;\n\nentity "@ + name
        + " is\n    port (\n        clk : in std_logic\n    );\nend entity;\n\narchitecture rtl of "@
        + name + " is\nbegin\nend architecture;\n"@
}

/// The stub entity, line by line: the IEEE library with `std_logic_1164`
/// (which the `std_logic` port needs) and `numeric_std` in scope, an entity
/// of the Project's name with a single `clk` input, and an empty `rtl`
/// architecture of it.
pub proof fn law_the_stub_entity_line_by_line(name: Seq<char>)
    ensures
        entity_template_spec(name) == "library ieee;\n"@ + "use ieee.std_logic_1164.all;\n"@
            + "use ieee.numeric_std.all;\n"@ + "\n"@ + "entity "@ + name + " is\n"@
            + "    port (\n"@ + "        clk : in std_logic\n"@ + "    );\n"@ + "end entity;\n"@
            + "\n"@ + "architecture rtl of "@ + name + " is\n"@ + "begin\n"@
            + "end architecture;\n"@,
{
    reveal_strlit("library ieee;\nuse ieee.std_logic_1164.all;\nuse ieee.numeric_std.all;\n\nentity ");
    reveal_strlit(" is\n    port (\n        clk : in std_logic\n    );\nend entity;\n\narchitecture rtl of ");
    reveal_strlit(" is\nbegin\nend architecture;\n");
    reveal_strlit("library ieee;\n");
    reveal_strlit("use ieee.std_logic_1164.all;\n");
    reveal_strlit("use ieee.numeric_std.all;\n");
    reveal_strlit("\n");
    reveal_strlit("entity ");
    reveal_strlit(" is\n");
    reveal_strlit("    port (\n");
    reveal_strlit("        clk : in std_logic\n");
    reveal_strlit("    );\n");
    reveal_strlit("end entity;\n");
    reveal_strlit("architecture rtl of ");
    reveal_strlit("begin\n");
    reveal_strlit("end architecture;\n");
    let head = "library ieee;\nuse ieee.std_logic_1164.all;\nuse ieee.numeric_std.all;\n\nentity "@;
    let mid = " is\n    port (\n        clk : in std_logic\n    );\nend entity;\n\narchitecture rtl of "@;
    let tail = " is\nbegin\nend architecture;\n"@;
    let h2 = "library ieee;\n"@ + "use ieee.std_logic_1164.all;\n"@ + "use ieee.numeric_std.all;\n"@
        + "\n"@ + "entity "@;
    let m2 = " is\n"@ + "    port (\n"@ + "        clk : in std_logic\n"@ + "    );\n"@
        + "end entity;\n"@ + "\n"@ + "architecture rtl of "@;
    let t2 = " is\n"@ + "begin\n"@ + "end architecture;\n"@;
    assert(head =~= h2);
    assert(mid =~= m2);
    assert(tail =~= t2);
    let lhs = head + name + mid + name + tail;
    assert(lhs =~= h2 + name + (" is\n"@ + "    port (\n"@ + "        clk : in std_logic\n"@
        + "    );\n"@ + "end entity;\n"@ + "\n"@ + "architecture rtl of "@) + name + t2);
}

pub fn entity_template(name: &str) -> (res: String)
    ensures
        res@ == entity_template_spec(name@),
{
    let mut s = String::from_str(
        "library ieee;\nuse ieee.std_logic_1164.all;\nuse ieee.numeric_std.all;\n\nentity ",
    );
    s.append(name);
    s.append(" is\n    port (\n        clk : in std_logic\n    );\nend entity;\n\narchitecture rtl of ");
    s.append(name);
    s.append(" is\nbegin\nend architecture;\n");
    s
}

/// The name a new Project gets: the one asked for, else the directory's
/// own name, else `project` — made into a VHDL identifier.
pub fn scaffold_name(name: Option<String>, dir_name: Option<String>) -> (res: String)
    ensures
        res@ == vhdl_identifier_spec(
            match name {
                Some(n) => n@,
                None => match dir_name {
                    Some(d) => d@,
                    None => "project"@,
                },
            },
        ),
{
    let chosen = match name {
        Some(n) => n,
        None => match dir_name {
            Some(d) => d,
            None => owned("project"),
        },
    };
    vhdl_identifier(chosen.as_str())
}

/// A file a new Project starts with. One with `keep_existing` set is left
/// alone when the directory already has it.
#[derive(Debug, Clone)]
pub struct ScaffoldFile {
    pub path: String,
    pub contents: String,
    pub keep_existing: bool,
}

pub open spec fn scaffold_file_view(f: ScaffoldFile) -> (Seq<char>, Seq<char>, bool) {
    (f.path@, f.contents@, f.keep_existing)
}

/// Where a Project's Manifest lives. Its presence is what makes a directory
/// a Project, so `init` refuses a directory that already has one.
pub fn manifest_path(project_dir: &str) -> (res: String)
    ensures
        res@ == path_join(project_dir@, "chipsmith.toml"@),
{
    join(project_dir, "chipsmith.toml")
}

/// A directory that already has a Manifest is a Project already: `init`
/// refuses it, naming the Manifest, before it writes anything.
pub fn check_new_project(project_dir: &str, manifest_exists: bool) -> (res: Result<(), ChipsmithError>)
    ensures
        match res {
            Ok(()) => !manifest_exists,
            Err(e) => {
                &&& manifest_exists
                &&& e matches ChipsmithError::ProjectAlreadyExists { path }
                &&& path@ == path_join(project_dir@, "chipsmith.toml"@)
            },
        },
{
    if manifest_exists {
        Err(ChipsmithError::ProjectAlreadyExists { path: manifest_path(project_dir) })
    } else {
        Ok(())
    }
}

/// The files of a new Project called `name`: its Manifest, a stub top-level
/// entity in `src/`, and a `.gitignore` for the Build Directory — Quartus
/// dumps megabytes of databases and reports into `build/` on every compile.
pub open spec fn scaffold_spec(project_dir: Seq<char>, name: Seq<char>, opts: InitOptions) -> Seq<
    (Seq<char>, Seq<char>, bool),
> {
    seq![
        (
            path_join(project_dir, "chipsmith.toml"@),
            manifest_template_spec(name, opts.backend@, opts.version@, opts.family@, opts.device@),
            false,
        ),
        (path_join(path_join(project_dir, "src"@), name + ".vhd"@), entity_template_spec(name), true),
        (path_join(project_dir, ".gitignore"@), "build/\n"@, true),
    ]
}

pub fn scaffold_files(project_dir: &str, name: &str, opts: &InitOptions) -> (res: Vec<ScaffoldFile>)
    ensures
        res@.map_values(|f: ScaffoldFile| scaffold_file_view(f)) == scaffold_spec(
            project_dir@,
            name@,
            *opts,
        ),
{
    let mut files: Vec<ScaffoldFile> = Vec::new();
    files.push(
        ScaffoldFile {
            path: manifest_path(project_dir),
            contents: manifest_template(name, opts),
            keep_existing: false,
        },
    );
    let src_dir = join(project_dir, "src");
    let vhd = cat(name, ".vhd");
    files.push(
        ScaffoldFile {
            path: join(src_dir.as_str(), vhd.as_str()),
            contents: entity_template(name),
            keep_existing: true,
        },
    );
    files.push(
        ScaffoldFile {
            path: join(project_dir, ".gitignore"),
            contents: owned("build/\n"),
            keep_existing: true,
        },
    );
    assert(files@.map_values(|f: ScaffoldFile| scaffold_file_view(f)) =~= scaffold_spec(
        project_dir@,
        name@,
        *opts,
    ));
    files
}

} // verus!
