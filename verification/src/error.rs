//! Everything that can go wrong, and what each failure says about itself.

use vstd::prelude::*;

use crate::text::{join, join_strings, views};

verus! {

#[verifier::external_type_specification]
#[verifier::external_body]
pub struct ExIoError(std::io::Error);

/// Renders an I/O error with its `Display` impl. What the text says is up to
/// the operating system and to `std`; no clause states it.
#[verifier::external_body]
fn io_error_text(e: &std::io::Error) -> String {
    e.to_string()
}

#[derive(Debug)]
pub enum ChipsmithError {
    ProcessFailed {
        command: String,
        code: Option<i32>,
        /// The tail of what the process said before it gave up, when it was
        /// captured. `None` means the output went straight to the terminal.
        stderr_tail: Option<String>,
    },
    Spawn { command: String, source: std::io::Error },
    NotInstalled { path: String },
    InstallerNotFound { path: String },
    UnknownTool { name: String, available: Vec<String> },
    ManifestNotFound { path: String },
    ManifestParse { path: String, message: String },
    NoSourceFiles { pattern: String },
    UnknownVersion { version: String, available: Vec<String> },
    UnknownBackend { name: String, available: Vec<String> },
    UnknownTestbench { name: String, available: Vec<String> },
    NoTestbenches { path: String },
    SimulatorNotFound { program: String, hint: String },
    NixEvalFailed { message: String },
    NixEvalOutput { message: String },
    NixPackageMissing { attr: String },
    OutputNotFound { path: String },
    ProjectAlreadyExists { path: String },
    /// Carries the URL so a retired CDN path (a 404) is distinguishable from a
    /// transport failure without reading the message.
    Download { url: String, status: Option<u16>, message: String },
    File { operation: &'static str, path: String, source: std::io::Error },
    Io(std::io::Error),
}

/// The decimal digit `d`.
pub open spec fn digit_char(d: nat) -> char {
    ((48 + d) as u32) as char
}

/// The decimal digits of `n`, most significant first.
pub open spec fn nat_digits(n: nat) -> Seq<char>
    decreases n,
{
    if n < 10 {
        seq![digit_char(n)]
    } else {
        nat_digits(n / 10).push(digit_char(n % 10))
    }
}

proof fn lemma_digit_char(d: nat)
    requires
        d < 10,
    ensures
        '0' <= digit_char(d) <= '9',
{
}

/// Every character of a decimal is a digit.
pub proof fn lemma_digits_are_digits(n: nat)
    ensures
        forall|i: int| 0 <= i < nat_digits(n).len() ==> '0' <= #[trigger] nat_digits(n)[i] <= '9',
    decreases n,
{
    if n < 10 {
        lemma_digit_char(n);
    } else {
        lemma_digits_are_digits(n / 10);
        lemma_digit_char(n % 10);
        let prev = nat_digits(n / 10);
        assert(nat_digits(n) == prev.push(digit_char(n % 10)));
        assert forall|i: int| 0 <= i < nat_digits(n).len() implies '0' <= #[trigger] nat_digits(n)[i]
            <= '9' by {
            if i < prev.len() {
                assert(nat_digits(n)[i] == prev[i]);
            }
        }
    }
}

/// The number a run of decimal digits reads as.
pub open spec fn decimal_value(s: Seq<char>) -> int
    decreases s.len(),
{
    if s.len() == 0 {
        0
    } else {
        decimal_value(s.drop_last()) * 10 + (s.last() as int - '0' as int)
    }
}

/// `nat_digits` is the decimal text of its number: it reads back as that
/// number, and it has no leading zero — so different numbers have different
/// texts.
pub proof fn law_decimal_text_reads_back(n: nat)
    ensures
        decimal_value(nat_digits(n)) == n,
        nat_digits(n).len() > 0,
        n >= 10 ==> nat_digits(n).len() > 1,
        nat_digits(n).len() > 1 ==> nat_digits(n)[0] != '0',
    decreases n,
{
    if n < 10 {
        assert(nat_digits(n).drop_last() =~= Seq::<char>::empty());
        assert(digit_char(n) as int == 48 + n);
        assert(nat_digits(n).last() == digit_char(n));
        assert('0' as int == 48);
        assert(decimal_value(nat_digits(n)) == decimal_value(Seq::<char>::empty()) * 10 + (digit_char(n) as int - 48));
    } else {
        law_decimal_text_reads_back(n / 10);
        let prev = nat_digits(n / 10);
        assert(nat_digits(n).drop_last() =~= prev);
        assert(digit_char(n % 10) as int == 48 + n % 10);
        assert((n / 10) * 10 + n % 10 == n);
        assert(nat_digits(n).last() == digit_char(n % 10));
        assert('0' as int == 48);
        assert(decimal_value(nat_digits(n)) == decimal_value(prev) * 10 + (digit_char(n % 10) as int - 48));
        assert(nat_digits(n)[0] == prev[0]);
        if n / 10 < 10 {
            assert(prev[0] == digit_char(n / 10));
            assert(digit_char(n / 10) as int == 48 + n / 10);
        }
    }
}

/// Different numbers have different decimal texts.
pub proof fn law_decimal_texts_differ(i: nat, j: nat)
    requires
        i != j,
    ensures
        nat_digits(i) != nat_digits(j),
{
    law_decimal_text_reads_back(i);
    law_decimal_text_reads_back(j);
}

/// How `{}` renders an integer.
pub open spec fn int_text(n: int) -> Seq<char> {
    if n < 0 {
        seq!['-'] + nat_digits((-n) as nat)
    } else {
        nat_digits(n as nat)
    }
}

/// How `{:?}` renders an optional integer.
pub open spec fn option_int_debug(o: Option<int>) -> Seq<char> {
    match o {
        Some(n) => "Some("@ + int_text(n) + ")"@,
        None => "None"@,
    }
}

pub fn push_digits(s: &mut String, n: u64)
    ensures
        final(s)@ == old(s)@ + nat_digits(n as nat),
    decreases n,
{
    if n >= 10 {
        push_digits(s, n / 10);
    }
    let d = (n % 10) as u8;
    s.push((48u8 + d) as char);
    assert(final(s)@ =~= old(s)@ + nat_digits(n as nat));
}

/// Appends `{}` of an integer.
pub fn push_int(s: &mut String, n: i64)
    requires
        n > i64::MIN,
    ensures
        final(s)@ == old(s)@ + int_text(n as int),
{
    if n < 0 {
        s.push('-');
        push_digits(s, (-n) as u64);
        assert(final(s)@ =~= old(s)@ + int_text(n as int));
    } else {
        push_digits(s, n as u64);
    }
}

/// `"name (available: a, b)"`, the tail several errors share.
pub open spec fn with_available(name: Seq<char>, available: Seq<String>) -> Seq<char> {
    name + " (available: "@ + join(views(available), ", "@) + ")"@
}

fn append_available(s: &mut String, name: &String, available: &Vec<String>)
    ensures
        final(s)@ == old(s)@ + with_available(name@, available@),
{
    s.append(name.as_str());
    s.append(" (available: ");
    let list = join_strings(available, ", ");
    s.append(list.as_str());
    s.append(")");
}

/// The text every variant but the three that wrap an I/O error renders to.
pub open spec fn message_text(e: ChipsmithError) -> Seq<char> {
    match e {
        ChipsmithError::ProcessFailed { command, code, stderr_tail } => "process `"@ + command@
            + "` failed with exit code "@ + option_int_debug(
            match code {
                Some(c) => Some(c as int),
                None => None,
            },
        ) + match stderr_tail {
            Some(t) => "\n"@ + t@,
            None => Seq::<char>::empty(),
        },
        ChipsmithError::NotInstalled { path } => "toolchain not installed at "@ + path@,
        ChipsmithError::InstallerNotFound { path } => "installer not found: "@ + path@,
        ChipsmithError::UnknownTool { name, available } => "unknown tool: "@ + with_available(
            name@,
            available@,
        ),
        ChipsmithError::ManifestNotFound { path } => "chipsmith.toml not found: "@ + path@,
        ChipsmithError::ManifestParse { path, message } => "chipsmith.toml parse error in "@
            + path@ + ": "@ + message@,
        ChipsmithError::NoSourceFiles { pattern } => "no source files matched pattern: "@
            + pattern@,
        ChipsmithError::UnknownVersion { version, available } => "unknown version: "@
            + with_available(version@, available@),
        ChipsmithError::UnknownBackend { name, available } => "unknown toolchain backend: "@
            + with_available(name@, available@),
        ChipsmithError::UnknownTestbench { name, available } => "unknown testbench: "@
            + with_available(name@, available@),
        ChipsmithError::NoTestbenches { path } => "no testbenches declared in "@ + path@,
        ChipsmithError::SimulatorNotFound { program, hint } => "simulator `"@ + program@
            + "` is not on PATH; "@ + hint@,
        ChipsmithError::NixEvalFailed { message } => "nix eval failed: "@ + message@,
        ChipsmithError::NixEvalOutput { message } => "could not read nix eval output: "@
            + message@,
        ChipsmithError::NixPackageMissing { attr } => "nixpkgs has no usable `"@ + attr@
            + "`, which chipsmith needs to run vendor binaries on NixOS"@,
        ChipsmithError::OutputNotFound { path } => "output file not found: "@ + path@
            + " (have you run `chipsmith build`?)"@,
        ChipsmithError::ProjectAlreadyExists { path } => "chipsmith.toml already exists: "@
            + path@,
        ChipsmithError::Download { url, status, message } => "download failed: "@ + url@
            + match status {
            Some(s) => " (HTTP "@ + int_text(s as int) + ")"@,
            None => Seq::<char>::empty(),
        } + ": "@ + message@,
        ChipsmithError::Spawn { command, .. } => "failed to spawn `"@ + command@ + "`: "@,
        ChipsmithError::File { operation, path, .. } => "could not "@ + operation@ + " "@
            + path@ + ": "@,
        ChipsmithError::Io(_) => Seq::<char>::empty(),
    }
}

/// Whether the variant wraps an I/O error, whose own text ends the message.
pub open spec fn wraps_io(e: ChipsmithError) -> bool {
    e is Spawn || e is File || e is Io
}

impl ChipsmithError {
    /// An I/O failure that knows which file it was about. Prefer this over the
    /// bare `Io` conversion anywhere the path is the useful half of the news.
    pub fn file(operation: &'static str, path: String) -> (res: impl FnOnce(
        std::io::Error,
    ) -> ChipsmithError)
        ensures
            forall|source: std::io::Error, r: ChipsmithError|
                call_ensures(res, (source,), r) ==> r == (ChipsmithError::File {
                    operation,
                    path,
                    source,
                }),
    {
        move |source: std::io::Error| -> (r: ChipsmithError)
            ensures
                r == (ChipsmithError::File { operation, path, source }),
            { ChipsmithError::File { operation, path, source } }
    }

    /// What the error says: the text its `Display` renders.
    pub fn message(&self) -> (res: String)
        ensures
            !wraps_io(*self) ==> res@ == message_text(*self),
            wraps_io(*self) ==> message_text(*self).len() <= res@.len() && res@.subrange(
                0,
                message_text(*self).len() as int,
            ) == message_text(*self),
    {
        let mut s = String::new();
        match self {
            ChipsmithError::ProcessFailed { command, code, stderr_tail } => {
                s.append("process `");
                s.append(command.as_str());
                s.append("` failed with exit code ");
                match code {
                    Some(c) => {
                        s.append("Some(");
                        push_int(&mut s, *c as i64);
                        s.append(")");
                    },
                    None => {
                        s.append("None");
                    },
                }
                match stderr_tail {
                    Some(t) => {
                        s.append("\n");
                        s.append(t.as_str());
                    },
                    None => {},
                }
            },
            ChipsmithError::NotInstalled { path } => {
                s.append("toolchain not installed at ");
                s.append(path.as_str());
            },
            ChipsmithError::InstallerNotFound { path } => {
                s.append("installer not found: ");
                s.append(path.as_str());
            },
            ChipsmithError::UnknownTool { name, available } => {
                s.append("unknown tool: ");
                append_available(&mut s, name, available);
            },
            ChipsmithError::ManifestNotFound { path } => {
                s.append("chipsmith.toml not found: ");
                s.append(path.as_str());
            },
            ChipsmithError::ManifestParse { path, message } => {
                s.append("chipsmith.toml parse error in ");
                s.append(path.as_str());
                s.append(": ");
                s.append(message.as_str());
            },
            ChipsmithError::NoSourceFiles { pattern } => {
                s.append("no source files matched pattern: ");
                s.append(pattern.as_str());
            },
            ChipsmithError::UnknownVersion { version, available } => {
                s.append("unknown version: ");
                append_available(&mut s, version, available);
            },
            ChipsmithError::UnknownBackend { name, available } => {
                s.append("unknown toolchain backend: ");
                append_available(&mut s, name, available);
            },
            ChipsmithError::UnknownTestbench { name, available } => {
                s.append("unknown testbench: ");
                append_available(&mut s, name, available);
            },
            ChipsmithError::NoTestbenches { path } => {
                s.append("no testbenches declared in ");
                s.append(path.as_str());
            },
            ChipsmithError::SimulatorNotFound { program, hint } => {
                s.append("simulator `");
                s.append(program.as_str());
                s.append("` is not on PATH; ");
                s.append(hint.as_str());
            },
            ChipsmithError::NixEvalFailed { message } => {
                s.append("nix eval failed: ");
                s.append(message.as_str());
            },
            ChipsmithError::NixEvalOutput { message } => {
                s.append("could not read nix eval output: ");
                s.append(message.as_str());
            },
            ChipsmithError::NixPackageMissing { attr } => {
                s.append("nixpkgs has no usable `");
                s.append(attr.as_str());
                s.append("`, which chipsmith needs to run vendor binaries on NixOS");
            },
            ChipsmithError::OutputNotFound { path } => {
                s.append("output file not found: ");
                s.append(path.as_str());
                s.append(" (have you run `chipsmith build`?)");
            },
            ChipsmithError::ProjectAlreadyExists { path } => {
                s.append("chipsmith.toml already exists: ");
                s.append(path.as_str());
            },
            ChipsmithError::Download { url, status, message } => {
                s.append("download failed: ");
                s.append(url.as_str());
                match status {
                    Some(code) => {
                        s.append(" (HTTP ");
                        push_int(&mut s, *code as i64);
                        s.append(")");
                    },
                    None => {},
                }
                s.append(": ");
                s.append(message.as_str());
            },
            ChipsmithError::Spawn { command, source } => {
                s.append("failed to spawn `");
                s.append(command.as_str());
                s.append("`: ");
                let ghost prefix = s@;
                let t = io_error_text(source);
                s.append(t.as_str());
                assert(s@.subrange(0, prefix.len() as int) =~= prefix);
            },
            ChipsmithError::File { operation, path, source } => {
                s.append("could not ");
                s.append(operation);
                s.append(" ");
                s.append(path.as_str());
                s.append(": ");
                let ghost prefix = s@;
                let t = io_error_text(source);
                s.append(t.as_str());
                assert(s@.subrange(0, prefix.len() as int) =~= prefix);
            },
            ChipsmithError::Io(source) => {
                s = io_error_text(source);
                assert(s@.subrange(0, 0) =~= Seq::<char>::empty());
            },
        }
        s
    }
}

} // verus!
