//! The Manifest: a `chipsmith.toml` that has been checked against every rule
//! a well-formed one obeys.
//!
//! Turning TOML text into a `ManifestFile` is a deserialiser's job and
//! happens outside this crate; everything after that — the `[toolchain]`
//! rule, clock frequencies, I/O standard overrides, source patterns — is here.

use vstd::prelude::*;

use crate::error::ChipsmithError;
use crate::path::{join, path_join};
use crate::strmap::{has_key, key_seq, keys_sorted, lookup, StrMap};
use crate::text::{
    chars_of, join as join_seq, join_strings, lower, string_from_range, str_eq, to_ascii_lowercase,
    trim, trim_bounds, views,
};

verus! {

#[derive(Debug, Clone)]
pub struct Project {
    pub name: String,
    pub top: String,
}

/// The Backend and Version a Project builds with. Holding one is proof that
/// `[toolchain]` named exactly one Backend — there is no other way to get one
/// out of a file, and no way to build one that says otherwise.
#[derive(Debug, Clone)]
pub struct ToolchainSpec {
    backend: String,
    version: String,
}

impl ToolchainSpec {
    pub closed spec fn backend_spec(&self) -> Seq<char> {
        self.backend@
    }

    pub closed spec fn version_spec(&self) -> Seq<char> {
        self.version@
    }

    pub fn new(backend: String, version: String) -> (res: Self)
        ensures
            res.backend_spec() == backend@,
            res.version_spec() == version@,
    {
        ToolchainSpec { backend, version }
    }

    /// The Backend name, e.g. `quartus-prime`.
    pub fn backend(&self) -> (res: &str)
        ensures
            res@ == self.backend_spec(),
    {
        self.backend.as_str()
    }

    /// The Version, e.g. `23.1`.
    pub fn version(&self) -> (res: &str)
        ensures
            res@ == self.version_spec(),
    {
        self.version.as_str()
    }

    /// `[toolchain]` as written — a Backend name mapped to a Version. The one
    /// place the "exactly one Backend" rule is enforced.
    pub fn from_table(table: &StrMap<String>) -> (res: Result<Self, String>)
        ensures
            match res {
                Ok(spec) => table@.len() == 1 && spec.backend_spec() == table@[0].0
                    && spec.version_spec() == table@[0].1@,
                Err(message) => table@.len() != 1 && message@ == toolchain_table_error(),
            },
    {
        if table.len() == 1 {
            let entries = table.as_slice();
            let backend = entries[0].0.clone();
            let version = entries[0].1.clone();
            Ok(ToolchainSpec { backend, version })
        } else {
            Err(String::from_str("[toolchain] must have exactly one entry (e.g. quartus-prime = \"23.1\")"))
        }
    }
}

pub open spec fn toolchain_table_error() -> Seq<char> {
    "[toolchain] must have exactly one entry (e.g. quartus-prime = \"23.1\")"@
}

#[derive(Debug, Clone)]
pub struct Target {
    pub family: String,
    pub device: String,
    /// I/O standard applied to every assigned pin, e.g. `"3.3-V LVTTL"`.
    /// Individual signals can override it in `[io-standards]`.
    pub io_standard: Option<String>,
}

#[derive(Debug, Clone)]
pub struct Hdl {
    pub standard: String,
    pub sources: Vec<String>,
}

/// A signal's pins: one, or an ordered list for a bus.
#[derive(Debug, Clone)]
pub enum PinMapping {
    Single(String),
    Bus(Vec<String>),
}

/// A frequency as written, checked: `number` is a decimal (digits with at
/// most one point) with a non-zero digit, and the value in hertz is
/// `number * 10^exponent`.
#[derive(Debug, Clone)]
pub struct Frequency {
    pub number: String,
    pub exponent: u32,
}

/// A clock constraint: a port and the frequency it is held to.
#[derive(Debug, Clone)]
pub struct Clock {
    pub port: String,
    pub frequency: Frequency,
}

pub open spec fn is_digit(c: char) -> bool {
    '0' <= c <= '9'
}

/// What `find(|c| !c.is_ascii_digit() && c != '.')` looks for.
pub open spec fn is_unit_char(c: char) -> bool {
    !is_digit(c) && c != '.'
}

pub open spec fn is_first_unit_char(s: Seq<char>, i: int) -> bool {
    &&& 0 <= i < s.len()
    &&& is_unit_char(s[i])
    &&& forall|j: int| 0 <= j < i ==> !is_unit_char(s[j])
}

/// Where the number ends and the unit begins, if there is a unit.
pub open spec fn unit_start(s: Seq<char>) -> Option<int> {
    if exists|i: int| is_first_unit_char(s, i) {
        Some(choose|i: int| is_first_unit_char(s, i))
    } else {
        None
    }
}

/// Whether a run of digits and points parses as an `f64`: at least one digit
/// and at most one point.
pub open spec fn is_decimal(s: Seq<char>) -> bool {
    &&& exists|i: int| 0 <= i < s.len() && is_digit(#[trigger] s[i])
    &&& forall|i: int, j: int|
        0 <= i < j < s.len() && #[trigger] s[i] == '.' ==> #[trigger] s[j] != '.'
}

/// Whether a decimal denotes a value above zero.
pub open spec fn has_nonzero_digit(s: Seq<char>) -> bool {
    exists|i: int| 0 <= i < s.len() && '1' <= #[trigger] s[i] <= '9'
}

/// The power of ten a (lower-cased) unit stands for.
pub open spec fn unit_exponent(u: Seq<char>) -> Option<u32> {
    if u == "hz"@ {
        Some(0u32)
    } else if u == "khz"@ {
        Some(3u32)
    } else if u == "mhz"@ {
        Some(6u32)
    } else if u == "ghz"@ {
        Some(9u32)
    } else {
        None
    }
}

/// A frequency as written on a board silkscreen — `50 MHz`, `125MHz`,
/// `32.768 kHz` — as its decimal and power of ten, or why it is not one.
pub open spec fn frequency_spec(text: Seq<char>) -> Result<(Seq<char>, u32), Seq<char>> {
    let t = trim(text);
    match unit_start(t) {
        None => Err("'"@ + t + "' has no frequency unit (expected e.g. \"50 MHz\")"@),
        Some(i) => {
            let number = t.subrange(0, i);
            let unit = lower(trim(t.subrange(i, t.len() as int)));
            if !is_decimal(number) {
                Err("'"@ + t + "' does not start with a number"@)
            } else if !has_nonzero_digit(number) {
                Err("'"@ + t + "' must be a positive frequency"@)
            } else {
                match unit_exponent(unit) {
                    Some(e) => Ok((number, e)),
                    None => Err("unknown frequency unit '"@ + unit
                        + "' (use Hz, kHz, MHz or GHz)"@),
                }
            }
        },
    }
}

fn find_unit(cs: &[char]) -> (res: usize)
    ensures
        res <= cs@.len(),
        unit_start(cs@) == if res < cs@.len() {
            Some(res as int)
        } else {
            None::<int>
        },
{
    let mut i: usize = 0;
    while i < cs.len() && (('0' <= cs[i] && cs[i] <= '9') || cs[i] == '.')
        invariant
            i <= cs@.len(),
            forall|j: int| 0 <= j < i ==> !is_unit_char(#[trigger] cs@[j]),
        decreases cs@.len() - i,
    {
        i = i + 1;
    }
    proof {
        if i < cs@.len() {
            assert(is_first_unit_char(cs@, i as int));
            let k = choose|k: int| is_first_unit_char(cs@, k);
            if k < i {
                assert(!is_unit_char(cs@[k]));
            }
            if k > i {
                assert(!is_unit_char(cs@[i as int]));
            }
        } else {
            assert forall|k: int| !is_first_unit_char(cs@, k) by {
                if 0 <= k < cs@.len() {
                    assert(!is_unit_char(cs@[k]));
                }
            }
        }
    }
    i
}

/// Checks a run of digits and points: (parses as a number, has a non-zero digit).
fn check_decimal(cs: &[char], to: usize) -> (res: (bool, bool))
    requires
        to <= cs@.len(),
    ensures
        res.0 == is_decimal(cs@.subrange(0, to as int)),
        res.1 == has_nonzero_digit(cs@.subrange(0, to as int)),
{
    let ghost s = cs@.subrange(0, to as int);
    let mut digit = false;
    let mut nonzero = false;
    let mut dots: usize = 0;
    let mut dot_at: usize = 0;
    let mut i: usize = 0;
    while i < to
        invariant
            to <= cs@.len(),
            s == cs@.subrange(0, to as int),
            i <= to,
            digit == exists|k: int| 0 <= k < i && is_digit(#[trigger] s[k]),
            nonzero == exists|k: int| 0 <= k < i && '1' <= #[trigger] s[k] <= '9',
            dots <= 2,
            dots == 0 ==> forall|k: int| 0 <= k < i ==> #[trigger] s[k] != '.',
            dots == 1 ==> dot_at < i && s[dot_at as int] == '.' && forall|k: int|
                0 <= k < i && k != dot_at ==> #[trigger] s[k] != '.',
            dots == 2 ==> exists|a: int, b: int|
                0 <= a < b < i && #[trigger] s[a] == '.' && #[trigger] s[b] == '.',
        decreases to - i,
    {
        let c = cs[i];
        assert(s[i as int] == c);
        if '0' <= c && c <= '9' {
            digit = true;
            if c != '0' {
                nonzero = true;
            }
        } else if c == '.' {
            if dots == 0 {
                dots = 1;
                dot_at = i;
            } else if dots == 1 {
                dots = 2;
                assert(s[dot_at as int] == '.' && s[i as int] == '.');
            }
        }
        i = i + 1;
    }
    proof {
        if dots == 2 {
            let (a, b) = choose|a: int, b: int|
                0 <= a < b < i && #[trigger] s[a] == '.' && #[trigger] s[b] == '.';
            assert(!is_decimal(s));
        }
    }
    (digit && dots <= 1, nonzero)
}

fn quoted(t: &[char], a: usize, b: usize, tail: &str) -> (res: String)
    requires
        a <= b <= t@.len(),
    ensures
        res@ == "'"@ + t@.subrange(a as int, b as int) + tail@,
{
    let mut s = String::from_str("'");
    let inner = string_from_range(t, a, b);
    s.append(inner.as_str());
    s.append(tail);
    s
}

/// Parse a frequency as written on a board silkscreen — `50 MHz`, `125MHz`,
/// `32.768 kHz`.
pub fn parse_frequency(text: &str) -> (res: Result<Frequency, String>)
    ensures
        match res {
            Ok(f) => frequency_spec(text@) == Ok::<(Seq<char>, u32), Seq<char>>(
                (f.number@, f.exponent),
            ),
            Err(e) => frequency_spec(text@) == Err::<(Seq<char>, u32), Seq<char>>(e@),
        },
{
    let all = chars_of(text);
    let (a, b) = trim_bounds(all.as_slice());
    let t = string_from_range(all.as_slice(), a, b);
    let cs = chars_of(t.as_str());
    let n = cs.len();
    let i = find_unit(cs.as_slice());
    assert(cs@.subrange(0, n as int) =~= cs@);
    if i == n {
        return Err(quoted(cs.as_slice(), 0, n, "' has no frequency unit (expected e.g. \"50 MHz\")"));
    }
    let (decimal, positive) = check_decimal(cs.as_slice(), i);
    if !decimal {
        return Err(quoted(cs.as_slice(), 0, n, "' does not start with a number"));
    }
    if !positive {
        return Err(quoted(cs.as_slice(), 0, n, "' must be a positive frequency"));
    }
    let unit_raw = string_from_range(cs.as_slice(), i, n);
    let unit_chars = chars_of(unit_raw.as_str());
    let (ua, ub) = trim_bounds(unit_chars.as_slice());
    let unit_trimmed = string_from_range(unit_chars.as_slice(), ua, ub);
    let unit = to_ascii_lowercase(unit_trimmed.as_str());
    let exponent: u32 = if str_eq(unit.as_str(), "hz") {
        0
    } else if str_eq(unit.as_str(), "khz") {
        3
    } else if str_eq(unit.as_str(), "mhz") {
        6
    } else if str_eq(unit.as_str(), "ghz") {
        9
    } else {
        let mut m = String::from_str("unknown frequency unit '");
        m.append(unit.as_str());
        m.append("' (use Hz, kHz, MHz or GHz)");
        return Err(m);
    };
    let number = string_from_range(cs.as_slice(), 0, i);
    Ok(Frequency { number, exponent })
}


/// The `chipsmith.toml` as written, once a TOML reader has filled it in. Exists
/// only to be turned into a `Manifest`: it is the shape the file has, not the
/// shape the program wants.
#[derive(Debug)]
pub struct ManifestFile {
    pub project: Project,
    /// `[toolchain]` as written — Backend names mapped to Versions.
    pub toolchain: StrMap<String>,
    pub target: Target,
    pub hdl: Hdl,
    pub pins: StrMap<PinMapping>,
    pub clocks: StrMap<String>,
    pub io_standards: StrMap<String>,
}

/// A Manifest that has been through `parse`. Every field is what it claims to
/// be; nothing downstream needs to re-check the `[toolchain]` table.
#[derive(Debug)]
pub struct Manifest {
    pub project: Project,
    pub toolchain: ToolchainSpec,
    pub target: Target,
    pub hdl: Hdl,
    pub pins: StrMap<PinMapping>,
    /// `[clocks]` — port name to frequency, e.g. `clk = "50 MHz"`.
    pub clocks: StrMap<String>,
    /// `[io-standards]` — per-signal overrides of `target.io_standard`.
    pub io_standards: StrMap<String>,
}

/// A resolved clock: port, decimal, power of ten.
pub open spec fn clock_view(c: Clock) -> (Seq<char>, Seq<char>, u32) {
    (c.port@, c.frequency.number@, c.frequency.exponent)
}

/// One `[clocks]` entry resolved against `[pins]`.
pub open spec fn clock_spec(
    pins: Seq<(Seq<char>, PinMapping)>,
    port: Seq<char>,
    frequency: Seq<char>,
) -> Result<(Seq<char>, Seq<char>, u32), Seq<char>> {
    if !has_key(pins, port) {
        Err("[clocks] '"@ + port + "' has no matching entry in [pins]; known pins: "@ + join_seq(
            key_seq(pins),
            ", "@,
        ))
    } else {
        match frequency_spec(frequency) {
            Ok((number, exponent)) => Ok((port, number, exponent)),
            Err(m) => Err("[clocks] '"@ + port + "': "@ + m),
        }
    }
}

/// The first `n` `[clocks]` entries resolved in key order; the first failure
/// is the answer.
pub open spec fn clocks_spec(
    pins: Seq<(Seq<char>, PinMapping)>,
    clocks: Seq<(Seq<char>, String)>,
    n: int,
) -> Result<Seq<(Seq<char>, Seq<char>, u32)>, Seq<char>>
    decreases n,
{
    if n <= 0 {
        Ok(seq![])
    } else {
        match clocks_spec(pins, clocks, n - 1) {
            Err(e) => Err(e),
            Ok(done) => match clock_spec(pins, clocks[n - 1].0, clocks[n - 1].1@) {
                Ok(c) => Ok(done.push(c)),
                Err(e) => Err(e),
            },
        }
    }
}

/// `i` is the first `[io-standards]` entry with no `[pins]` entry.
pub open spec fn is_first_unpinned(
    io: Seq<(Seq<char>, String)>,
    pins: Seq<(Seq<char>, PinMapping)>,
    i: int,
) -> bool {
    &&& 0 <= i < io.len()
    &&& !has_key(pins, io[i].0)
    &&& forall|j: int| 0 <= j < i ==> has_key(pins, #[trigger] io[j].0)
}

/// The first `[io-standards]` signal with no pin assignment.
pub open spec fn first_unpinned(
    io: Seq<(Seq<char>, String)>,
    pins: Seq<(Seq<char>, PinMapping)>,
) -> Option<Seq<char>> {
    if exists|i: int| is_first_unpinned(io, pins, i) {
        Some(io[choose|i: int| is_first_unpinned(io, pins, i)].0)
    } else {
        None
    }
}

/// The first rule a `ManifestFile` breaks, as the message that says so.
pub open spec fn manifest_problem(file: ManifestFile) -> Option<Seq<char>> {
    if file.toolchain@.len() != 1 {
        Some(toolchain_table_error())
    } else if let Err(m) = clocks_spec(file.pins@, file.clocks@, file.clocks@.len() as int) {
        Some(m)
    } else if let Some(signal) = first_unpinned(file.io_standards@, file.pins@) {
        Some("[io-standards] '"@ + signal + "' has no matching entry in [pins]"@)
    } else {
        None
    }
}

/// The I/O standard for a signal: its `[io-standards]` override, else the
/// project-wide `target.io_standard`, else none.
pub open spec fn io_standard_spec(m: Manifest, signal: Seq<char>) -> Option<Seq<char>> {
    match lookup(m.io_standards@, signal) {
        Some(s) => Some(s@),
        None => match m.target.io_standard {
            Some(s) => Some(s@),
            None => None,
        },
    }
}

/// What went wrong with a source pattern.
pub enum SourceProblem {
    /// The pattern is not a valid glob; the message says why.
    BadPattern(Seq<char>),
    /// The pattern is valid but matched nothing.
    NoMatches(Seq<char>),
}

/// What `glob::glob` says of a pattern before it looks at any file: the
/// text of its `PatternError`, or `None` when the pattern is valid.
pub uninterp spec fn glob_pattern_error(pattern: Seq<char>) -> Option<Seq<char>>;

/// Calls `glob::glob` and keeps only whether it refused the pattern and
/// what its error said; the result is named `glob_pattern_error`. The
/// refusal comes from compiling the pattern, before `glob` looks at the
/// filesystem; whatever it then finds on disk is dropped here.
#[verifier::external_body]
fn glob_check(pattern: &str) -> (res: Option<String>)
    ensures
        match res {
            Some(m) => glob_pattern_error(pattern@) == Some(m@),
            None => glob_pattern_error(pattern@) is None,
        },
{
    match glob::glob(pattern) {
        Ok(_) => None,
        Err(e) => Some(e.to_string()),
    }
}

/// The files the first `n` source patterns resolve to, given what each
/// pattern matched on disk.
pub open spec fn sources_spec(
    dir: Seq<char>,
    patterns: Seq<String>,
    matches: Seq<Vec<String>>,
    n: int,
) -> Result<Seq<Seq<char>>, SourceProblem>
    decreases n,
{
    if n <= 0 {
        Ok(seq![])
    } else {
        match sources_spec(dir, patterns, matches, n - 1) {
            Err(e) => Err(e),
            Ok(done) => match glob_pattern_error(path_join(dir, patterns[n - 1]@)) {
                Some(e) => Err(SourceProblem::BadPattern(
                    "invalid glob pattern '"@ + patterns[n - 1]@ + "': "@ + e,
                )),
                None => if matches[n - 1]@.len() == 0 {
                    Err(SourceProblem::NoMatches(patterns[n - 1]@))
                } else {
                    Ok(done + views(matches[n - 1]@))
                },
            },
        }
    }
}

proof fn lemma_clocks_err_stays(
    pins: Seq<(Seq<char>, PinMapping)>,
    clocks: Seq<(Seq<char>, String)>,
    k: int,
    n: int,
)
    requires
        clocks_spec(pins, clocks, k) is Err,
        k <= n,
    ensures
        clocks_spec(pins, clocks, n) == clocks_spec(pins, clocks, k),
    decreases n - k,
{
    if k < n {
        lemma_clocks_err_stays(pins, clocks, k, n - 1);
    }
}

proof fn lemma_sources_err_stays(
    dir: Seq<char>,
    patterns: Seq<String>,
    matches: Seq<Vec<String>>,
    k: int,
    n: int,
)
    requires
        sources_spec(dir, patterns, matches, k) is Err,
        k <= n,
    ensures
        sources_spec(dir, patterns, matches, n) == sources_spec(dir, patterns, matches, k),
    decreases n - k,
{
    if k < n {
        lemma_sources_err_stays(dir, patterns, matches, k, n - 1);
    }
}

/// `[clocks]` resolves exactly when every entry does — its port has a pin
/// and its text is a positive frequency with a Hz, kHz, MHz or GHz unit —
/// and then to one clock per entry, in key order. Otherwise the answer is
/// the first entry that fails, with what it says (an unpinned port names
/// itself and `[pins]`).
pub proof fn law_clocks_resolve_entry_by_entry(
    pins: Seq<(Seq<char>, PinMapping)>,
    clocks: Seq<(Seq<char>, String)>,
    n: int,
)
    requires
        0 <= n <= clocks.len(),
    ensures
        (clocks_spec(pins, clocks, n) is Ok) == (forall|i: int|
            0 <= i < n ==> #[trigger] clock_spec(pins, clocks[i].0, clocks[i].1@) is Ok),
        clocks_spec(pins, clocks, n) matches Ok(v) ==> v.len() == n && forall|i: int|
            0 <= i < n ==> clock_spec(pins, clocks[i].0, clocks[i].1@) == Ok::<
                (Seq<char>, Seq<char>, u32),
                Seq<char>,
            >(#[trigger] v[i]),
        clocks_spec(pins, clocks, n) matches Err(m) ==> exists|i: int|
            0 <= i < n && (forall|j: int| 0 <= j < i ==> #[trigger] clock_spec(pins, clocks[j].0, clocks[j].1@) is Ok)
                && #[trigger] clock_spec(pins, clocks[i].0, clocks[i].1@) == Err::<
                (Seq<char>, Seq<char>, u32),
                Seq<char>,
            >(m),
    decreases n,
{
    if n > 0 {
        law_clocks_resolve_entry_by_entry(pins, clocks, n - 1);
        let last = clock_spec(pins, clocks[n - 1].0, clocks[n - 1].1@);
        match clocks_spec(pins, clocks, n - 1) {
            Ok(done) => {
                if last is Ok {
                    assert forall|i: int| 0 <= i < n implies clock_spec(pins, clocks[i].0, clocks[i].1@)
                        == Ok::<(Seq<char>, Seq<char>, u32), Seq<char>>(
                        #[trigger] done.push(last->Ok_0)[i],
                    ) by {}
                } else {
                    assert(!(forall|i: int|
                        0 <= i < n ==> #[trigger] clock_spec(pins, clocks[i].0, clocks[i].1@) is Ok));
                }
            },
            Err(m) => {
                let i = choose|i: int|
                    0 <= i < n - 1 && (forall|j: int| 0 <= j < i ==> #[trigger] clock_spec(pins, clocks[j].0, clocks[j].1@) is Ok)
                        && #[trigger] clock_spec(pins, clocks[i].0, clocks[i].1@) == Err::<
                        (Seq<char>, Seq<char>, u32),
                        Seq<char>,
                    >(m);
                assert(!(clock_spec(pins, clocks[i].0, clocks[i].1@) is Ok));
            },
        }
    }
}

/// The files the first `n` patterns matched, one pattern after the other.
pub open spec fn concat_matches(matches: Seq<Vec<String>>, n: int) -> Seq<Seq<char>>
    decreases n,
{
    if n <= 0 {
        seq![]
    } else {
        concat_matches(matches, n - 1) + views(matches[n - 1]@)
    }
}

/// What is wrong with one source pattern, given what it matched.
pub open spec fn source_problem(dir: Seq<char>, pattern: Seq<char>, found: Seq<String>) -> Option<SourceProblem> {
    match glob_pattern_error(path_join(dir, pattern)) {
        Some(e) => Some(SourceProblem::BadPattern("invalid glob pattern '"@ + pattern + "': "@ + e)),
        None => if found.len() == 0 {
            Some(SourceProblem::NoMatches(pattern))
        } else {
            None
        },
    }
}

/// The sources resolve exactly when every pattern is a valid glob that
/// matched something, and then to everything matched, pattern by pattern in
/// the order written; otherwise the answer is the first pattern that fails.
pub proof fn law_sources_resolve_pattern_by_pattern(
    dir: Seq<char>,
    patterns: Seq<String>,
    matches: Seq<Vec<String>>,
    n: int,
)
    requires
        0 <= n <= patterns.len(),
        n <= matches.len(),
    ensures
        (sources_spec(dir, patterns, matches, n) is Ok) == (forall|i: int|
            0 <= i < n ==> #[trigger] source_problem(dir, patterns[i]@, matches[i]@) is None),
        sources_spec(dir, patterns, matches, n) matches Ok(files) ==> files == concat_matches(matches, n),
        sources_spec(dir, patterns, matches, n) matches Err(p) ==> exists|i: int|
            0 <= i < n && (forall|j: int| 0 <= j < i ==> #[trigger] source_problem(dir, patterns[j]@, matches[j]@) is None)
                && #[trigger] source_problem(dir, patterns[i]@, matches[i]@) == Some(p),
    decreases n,
{
    if n > 0 {
        law_sources_resolve_pattern_by_pattern(dir, patterns, matches, n - 1);
        match sources_spec(dir, patterns, matches, n - 1) {
            Ok(done) => {
                if !(source_problem(dir, patterns[n - 1]@, matches[n - 1]@) is None) {
                    assert(!(forall|i: int|
                        0 <= i < n ==> #[trigger] source_problem(dir, patterns[i]@, matches[i]@) is None));
                }
            },
            Err(p) => {
                let i = choose|i: int|
                    0 <= i < n - 1 && (forall|j: int| 0 <= j < i ==> #[trigger] source_problem(dir, patterns[j]@, matches[j]@) is None)
                        && #[trigger] source_problem(dir, patterns[i]@, matches[i]@) == Some(p);
                assert(!(source_problem(dir, patterns[i]@, matches[i]@) is None));
            },
        }
    }
}

proof fn lemma_clocks_ok_pinned(
    pins: Seq<(Seq<char>, PinMapping)>,
    clocks: Seq<(Seq<char>, String)>,
    n: int,
)
    requires
        clocks_spec(pins, clocks, n) is Ok,
        n <= clocks.len(),
    ensures
        forall|i: int| 0 <= i < n ==> has_key(pins, #[trigger] clocks[i].0),
    decreases n,
{
    if n > 0 {
        lemma_clocks_ok_pinned(pins, clocks, n - 1);
    }
}

proof fn lemma_unpinned_has_first(
    io: Seq<(Seq<char>, String)>,
    pins: Seq<(Seq<char>, PinMapping)>,
    i: int,
)
    requires
        0 <= i < io.len(),
        !has_key(pins, io[i].0),
    ensures
        exists|k: int| is_first_unpinned(io, pins, k),
    decreases i,
{
    if forall|j: int| 0 <= j < i ==> has_key(pins, #[trigger] io[j].0) {
        assert(is_first_unpinned(io, pins, i));
    } else {
        let j = choose|j: int| 0 <= j < i && !has_key(pins, #[trigger] io[j].0);
        lemma_unpinned_has_first(io, pins, j);
    }
}

/// A Manifest that passed `parse` binds every clock port and every I/O
/// standard override to an entry in `[pins]`.
pub proof fn law_parsed_manifest_pins_every_clock_and_override(file: ManifestFile)
    requires
        manifest_problem(file) is None,
    ensures
        forall|i: int| 0 <= i < file.clocks@.len() ==> has_key(file.pins@, #[trigger] file.clocks@[i].0),
        forall|i: int|
            0 <= i < file.io_standards@.len() ==> has_key(file.pins@, #[trigger] file.io_standards@[i].0),
{
    lemma_clocks_ok_pinned(file.pins@, file.clocks@, file.clocks@.len() as int);
    assert forall|i: int|
        0 <= i < file.io_standards@.len() implies has_key(file.pins@, #[trigger] file.io_standards@[i].0) by {
        if !has_key(file.pins@, file.io_standards@[i].0) {
            lemma_unpinned_has_first(file.io_standards@, file.pins@, i);
        }
    }
}

/// A file whose `[toolchain]` names one Backend and that declares no clocks
/// and no I/O standard overrides is a Manifest, whatever its pins and sources.
pub proof fn law_minimal_manifest_parses(file: ManifestFile)
    requires
        file.toolchain@.len() == 1,
        file.clocks@.len() == 0,
        file.io_standards@.len() == 0,
    ensures
        manifest_problem(file) is None,
{
    assert forall|k: int| !is_first_unpinned(file.io_standards@, file.pins@, k) by {}
}

fn bad(path: &str, message: String) -> (res: ChipsmithError)
    ensures
        res matches ChipsmithError::ManifestParse { path: p, message: m } && p@ == path@ && m
            == message,
{
    ChipsmithError::ManifestParse { path: String::from_str(path), message }
}

/// The keys of a map, in order.
fn keys_of<V>(m: &StrMap<V>) -> (res: Vec<String>)
    ensures
        views(res@) == key_seq(m@),
{
    let entries = m.as_slice();
    let mut res: Vec<String> = Vec::new();
    let mut i: usize = 0;
    while i < entries.len()
        invariant
            i <= entries@.len(),
            crate::strmap::entries_view(entries@) == m@,
            views(res@) == key_seq(m@).subrange(0, i as int),
        decreases entries@.len() - i,
    {
        let ghost prev = res@;
        res.push(entries[i].0.clone());
        assert(key_seq(m@)[i as int] == m@[i as int].0);
        assert(m@[i as int].0 == entries@[i as int].0@);
        assert(views(res@) =~= views(prev).push(entries@[i as int].0@));
        i = i + 1;
        assert(views(res@) =~= key_seq(m@).subrange(0, i as int));
    }
    assert(key_seq(m@).subrange(0, i as int) =~= key_seq(m@));
    res
}

impl Manifest {
    /// Turn a `ManifestFile` into a Manifest, or say why it isn't one. Every
    /// rule about a well-formed Manifest is enforced here and only here.
    pub fn parse(file: ManifestFile, path: &str) -> (res: Result<Manifest, ChipsmithError>)
        ensures
            match res {
                Ok(m) => {
                    &&& manifest_problem(file) is None
                    &&& m.toolchain.backend_spec() == file.toolchain@[0].0
                    &&& m.toolchain.version_spec() == file.toolchain@[0].1@
                    &&& m.project == file.project
                    &&& m.target == file.target
                    &&& m.hdl == file.hdl
                    &&& m.pins@ == file.pins@
                    &&& m.clocks@ == file.clocks@
                    &&& m.io_standards@ == file.io_standards@
                },
                Err(e) => e matches ChipsmithError::ManifestParse { path: p, message }
                    && p@ == path@ && manifest_problem(file) == Some(message@),
            },
    {
        let ghost f = file;
        let toolchain = match ToolchainSpec::from_table(&file.toolchain) {
            Ok(t) => t,
            Err(message) => return Err(bad(path, message)),
        };
        let manifest = Manifest {
            project: file.project,
            toolchain,
            target: file.target,
            hdl: file.hdl,
            pins: file.pins,
            clocks: file.clocks,
            io_standards: file.io_standards,
        };
        // Surface a bad [clocks] or [io-standards] entry now rather than mid-compile
        match manifest.resolve_clocks() {
            Ok(_) => {},
            Err(message) => return Err(bad(path, message)),
        }
        let io = manifest.io_standards.as_slice();
        let mut i: usize = 0;
        while i < io.len()
            invariant
                i <= io@.len(),
                crate::strmap::entries_view(io@) == f.io_standards@,
                manifest.pins@ == f.pins@,
                f == file,
                f.toolchain@.len() == 1,
                clocks_spec(f.pins@, f.clocks@, f.clocks@.len() as int) is Ok,
                forall|j: int| 0 <= j < i ==> has_key(f.pins@, #[trigger] f.io_standards@[j].0),
            decreases io@.len() - i,
        {
            assert(f.io_standards@[i as int].0 == io@[i as int].0@);
            if !manifest.pins.contains_key(io[i].0.as_str()) {
                proof {
                    let k = i as int;
                    assert(is_first_unpinned(f.io_standards@, f.pins@, k));
                    let c = choose|c: int| is_first_unpinned(f.io_standards@, f.pins@, c);
                    if c < k {
                        assert(has_key(f.pins@, f.io_standards@[c].0));
                    }
                    if c > k {
                        assert(has_key(f.pins@, f.io_standards@[k].0));
                    }
                }
                let mut message = String::from_str("[io-standards] '");
                message.append(io[i].0.as_str());
                message.append("' has no matching entry in [pins]");
                return Err(bad(path, message));
            }
            i = i + 1;
        }
        proof {
            assert forall|c: int| !is_first_unpinned(f.io_standards@, f.pins@, c) by {
                if 0 <= c < f.io_standards@.len() {
                    assert(has_key(f.pins@, f.io_standards@[c].0));
                }
            }
        }
        Ok(manifest)
    }

    /// The I/O standard for a signal: its `[io-standards]` override, else the
    /// project-wide `target.io_standard`, else none.
    pub fn io_standard_for(&self, signal: &str) -> (res: Option<&str>)
        ensures
            match res {
                Some(r) => io_standard_spec(*self, signal@) == Some(r@),
                None => io_standard_spec(*self, signal@) is None,
            },
    {
        match self.io_standards.get(signal) {
            Some(s) => Some(s.as_str()),
            None => match &self.target.io_standard {
                Some(s) => Some(s.as_str()),
                None => None,
            },
        }
    }

    /// Resolve `[clocks]` into frequencies, checking each port has a pin
    /// assignment.
    pub fn resolve_clocks(&self) -> (res: Result<Vec<Clock>, String>)
        ensures
            match res {
                Ok(v) => clocks_spec(self.pins@, self.clocks@, self.clocks@.len() as int) == Ok::<
                    Seq<(Seq<char>, Seq<char>, u32)>,
                    Seq<char>,
                >(v@.map_values(|c: Clock| clock_view(c))),
                Err(e) => clocks_spec(self.pins@, self.clocks@, self.clocks@.len() as int)
                    == Err::<Seq<(Seq<char>, Seq<char>, u32)>, Seq<char>>(e@),
            },
    {
        let entries = self.clocks.as_slice();
        let mut res: Vec<Clock> = Vec::new();
        let mut i: usize = 0;
        assert(res@.map_values(|c: Clock| clock_view(c)) =~= Seq::<
            (Seq<char>, Seq<char>, u32),
        >::empty());
        while i < entries.len()
            invariant
                i <= entries@.len(),
                crate::strmap::entries_view(entries@) == self.clocks@,
                clocks_spec(self.pins@, self.clocks@, i as int) == Ok::<
                    Seq<(Seq<char>, Seq<char>, u32)>,
                    Seq<char>,
                >(res@.map_values(|c: Clock| clock_view(c))),
            decreases entries@.len() - i,
        {
            let port = &entries[i].0;
            let frequency = &entries[i].1;
            assert(self.clocks@[i as int].0 == port@ && self.clocks@[i as int].1 == *frequency);
            if !self.pins.contains_key(port.as_str()) {
                let known = keys_of(&self.pins);
                let list = join_strings(&known, ", ");
                let mut m = String::from_str("[clocks] '");
                m.append(port.as_str());
                m.append("' has no matching entry in [pins]; known pins: ");
                m.append(list.as_str());
                proof {
                    lemma_clocks_err_stays(
                        self.pins@,
                        self.clocks@,
                        i + 1,
                        self.clocks@.len() as int,
                    );
                }
                return Err(m);
            }
            match parse_frequency(frequency.as_str()) {
                Ok(f) => {
                    let ghost prev = res@;
                    let c = Clock { port: port.clone(), frequency: f };
                    let ghost cv = clock_view(c);
                    res.push(c);
                    assert(res@.map_values(|c: Clock| clock_view(c)) =~= prev.map_values(
                        |c: Clock| clock_view(c),
                    ).push(cv));
                },
                Err(e) => {
                    let mut m = String::from_str("[clocks] '");
                    m.append(port.as_str());
                    m.append("': ");
                    m.append(e.as_str());
                    proof {
                        lemma_clocks_err_stays(
                            self.pins@,
                            self.clocks@,
                            i + 1,
                            self.clocks@.len() as int,
                        );
                    }
                    return Err(m);
                },
            }
            i = i + 1;
        }
        Ok(res)
    }

    /// Each `hdl.sources` pattern joined onto the project directory, the form
    /// in which it is globbed.
    pub fn source_patterns(&self, project_dir: &str) -> (res: Vec<String>)
        ensures
            res@.len() == self.hdl.sources@.len(),
            forall|i: int|
                0 <= i < res@.len() ==> #[trigger] res@[i]@ == path_join(
                    project_dir@,
                    self.hdl.sources@[i]@,
                ),
    {
        let mut res: Vec<String> = Vec::new();
        let mut i: usize = 0;
        while i < self.hdl.sources.len()
            invariant
                i <= self.hdl.sources@.len(),
                res@.len() == i,
                forall|j: int|
                    0 <= j < i ==> #[trigger] res@[j]@ == path_join(
                        project_dir@,
                        self.hdl.sources@[j]@,
                    ),
            decreases self.hdl.sources@.len() - i,
        {
            res.push(join(project_dir, self.hdl.sources[i].as_str()));
            i = i + 1;
        }
        res
    }

    /// Resolve the source patterns into files, given what each of
    /// `source_patterns` matched on disk (in order). A pattern that is not a
    /// valid glob, or that matches nothing, is an error; the first one wins.
    pub fn resolve_sources(&self, project_dir: &str, matches: &Vec<Vec<String>>) -> (res: Result<
        Vec<String>,
        ChipsmithError,
    >)
        requires
            matches@.len() == self.hdl.sources@.len(),
        ensures
            match res {
                Ok(files) => sources_spec(
                    project_dir@,
                    self.hdl.sources@,
                    matches@,
                    matches@.len() as int,
                ) == Ok::<Seq<Seq<char>>, SourceProblem>(views(files@)),
                Err(e) => match sources_spec(
                    project_dir@,
                    self.hdl.sources@,
                    matches@,
                    matches@.len() as int,
                ) {
                    Err(SourceProblem::BadPattern(m)) => e matches ChipsmithError::ManifestParse {
                        path: p,
                        message,
                    } && p@ == path_join(project_dir@, "chipsmith.toml"@) && message@ == m,
                    Err(SourceProblem::NoMatches(pattern)) => e matches ChipsmithError::NoSourceFiles {
                        pattern: q,
                    } && q@ == pattern,
                    Ok(_) => false,
                },
            },
    {
        let mut files: Vec<String> = Vec::new();
        let mut i: usize = 0;
        assert(views(files@) =~= Seq::<Seq<char>>::empty());
        while i < matches.len()
            invariant
                i <= matches@.len(),
                matches@.len() == self.hdl.sources@.len(),
                sources_spec(project_dir@, self.hdl.sources@, matches@, i as int) == Ok::<
                    Seq<Seq<char>>,
                    SourceProblem,
                >(views(files@)),
            decreases matches@.len() - i,
        {
            let pattern = &self.hdl.sources[i];
            let full = join(project_dir, pattern.as_str());
            match glob_check(full.as_str()) {
                Some(e) => {
                    let mut m = String::from_str("invalid glob pattern '");
                    m.append(pattern.as_str());
                    m.append("': ");
                    m.append(e.as_str());
                    let p = join(project_dir, "chipsmith.toml");
                    proof {
                        lemma_sources_err_stays(
                            project_dir@,
                            self.hdl.sources@,
                            matches@,
                            i + 1,
                            matches@.len() as int,
                        );
                    }
                    return Err(ChipsmithError::ManifestParse { path: p, message: m });
                },
                None => {},
            }
            let found = &matches[i];
            if found.len() == 0 {
                proof {
                    lemma_sources_err_stays(
                        project_dir@,
                        self.hdl.sources@,
                        matches@,
                        i + 1,
                        matches@.len() as int,
                    );
                }
                return Err(ChipsmithError::NoSourceFiles { pattern: pattern.clone() });
            }
            let ghost prev = files@;
            let mut k: usize = 0;
            while k < found.len()
                invariant
                    k <= found@.len(),
                    views(files@) == views(prev) + views(found@).subrange(0, k as int),
                decreases found@.len() - k,
            {
                let ghost before = files@;
                files.push(found[k].clone());
                assert(views(files@) =~= views(before).push(found@[k as int]@));
                k = k + 1;
                assert(views(files@) =~= views(prev) + views(found@).subrange(0, k as int));
            }
            assert(views(found@).subrange(0, k as int) =~= views(found@));
            i = i + 1;
        }
        Ok(files)
    }
}

} // verus!
