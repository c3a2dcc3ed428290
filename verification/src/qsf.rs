//! The Settings File and Project File a build writes for Quartus.

use vstd::prelude::*;

use crate::error::{int_text, nat_digits, push_digits, ChipsmithError};
use crate::manifest::{io_standard_spec, Manifest, PinMapping};
use crate::path::{path_strip_prefix, strip_prefix};
use crate::text::{
    is_infix, lemma_infix_within, lemma_no_occurrences, lemma_occurrences_concat, occurrences, views,
};

verus! {

/// The Project File: the Version it was written for and the revision name.
pub open spec fn qpf_spec(m: Manifest) -> Seq<char> {
    "QUARTUS_VERSION = \""@ + m.toolchain.version_spec()
        + "\"\nDATE = \"00:00:00 January 01, 2024\"\nPROJECT_REVISION = \""@ + m.project.name@
        + "\"\n"@
}

pub fn generate_qpf(manifest: &Manifest) -> (res: String)
    ensures
        res@ == qpf_spec(*manifest),
{
    let mut s = String::from_str("QUARTUS_VERSION = \"");
    s.append(manifest.toolchain.version());
    s.append("\"\nDATE = \"00:00:00 January 01, 2024\"\nPROJECT_REVISION = \"");
    s.append(manifest.project.name.as_str());
    s.append("\"\n");
    s
}

/// The global assignments every Settings File starts with, and the blank
/// line after them.
pub open spec fn qsf_header(m: Manifest) -> Seq<char> {
    "set_global_assignment -name FAMILY \""@ + m.target.family@ + "\"\n"@
        + "set_global_assignment -name DEVICE "@ + m.target.device@ + "\n"@
        + "set_global_assignment -name TOP_LEVEL_ENTITY "@ + m.project.top@ + "\n"@
        + "set_global_assignment -name VHDL_INPUT_VERSION "@ + m.hdl.standard@ + "\n"@
        + "set_global_assignment -name PROJECT_OUTPUT_DIRECTORY output_files\n"@
        + "set_global_assignment -name NUM_PARALLEL_PROCESSORS ALL\n"@ + "\n"@
}

/// A source as the Settings File names it: relative to the project directory
/// when it lies inside it, as given otherwise.
pub open spec fn relative_source(source: Seq<char>, dir: Seq<char>) -> Seq<char> {
    match path_strip_prefix(source, dir) {
        Some(r) => r,
        None => source,
    }
}

pub open spec fn source_line(source: Seq<char>, dir: Seq<char>) -> Seq<char> {
    "set_global_assignment -name VHDL_FILE ../"@ + relative_source(source, dir) + "\n"@
}

/// The `VHDL_FILE` lines for the first `n` sources.
pub open spec fn source_lines(sources: Seq<Seq<char>>, dir: Seq<char>, n: int) -> Seq<char>
    decreases n,
{
    if n <= 0 {
        seq![]
    } else {
        source_lines(sources, dir, n - 1) + source_line(sources[n - 1], dir)
    }
}

/// The `SDC_FILE` line, present exactly when `[clocks]` declares a clock.
pub open spec fn sdc_line(m: Manifest) -> Seq<char> {
    if m.clocks@.len() > 0 {
        "set_global_assignment -name SDC_FILE "@ + m.project.name@ + ".sdc\n"@
    } else {
        seq![]
    }
}

/// One pin bound to one target, with the target's I/O standard if it has one.
pub open spec fn assignment(pin: Seq<char>, target: Seq<char>, io: Option<Seq<char>>) -> Seq<char> {
    "set_location_assignment "@ + pin + " -to "@ + target + "\n"@ + match io {
        Some(standard) => "set_instance_assignment -name IO_STANDARD \""@ + standard
            + "\" -to "@ + target + "\n"@,
        None => seq![],
    }
}

/// A bus member as a target: `signal[i]`.
pub open spec fn bus_target(signal: Seq<char>, i: int) -> Seq<char> {
    signal + "["@ + nat_digits(i as nat) + "]"@
}

/// The assignments for the first `n` pins of a bus.
pub open spec fn bus_lines(
    signal: Seq<char>,
    pins: Seq<String>,
    io: Option<Seq<char>>,
    n: int,
) -> Seq<char>
    decreases n,
{
    if n <= 0 {
        seq![]
    } else {
        bus_lines(signal, pins, io, n - 1) + assignment(pins[n - 1]@, bus_target(signal, n - 1), io)
    }
}

pub open spec fn mapping_lines(signal: Seq<char>, mapping: PinMapping, io: Option<Seq<char>>) -> Seq<char> {
    match mapping {
        PinMapping::Single(pin) => assignment(pin@, signal, io),
        PinMapping::Bus(pins) => bus_lines(signal, pins@, io, pins@.len() as int),
    }
}

/// The assignments for the first `n` signals of `[pins]`, in key order.
pub open spec fn pin_lines(m: Manifest, n: int) -> Seq<char>
    decreases n,
{
    if n <= 0 {
        seq![]
    } else {
        pin_lines(m, n - 1) + mapping_lines(
            m.pins@[n - 1].0,
            m.pins@[n - 1].1,
            io_standard_spec(m, m.pins@[n - 1].0),
        )
    }
}

/// The assignments for the first `n` signals with no I/O standard at all.
pub open spec fn location_lines(m: Manifest, n: int) -> Seq<char>
    decreases n,
{
    if n <= 0 {
        seq![]
    } else {
        location_lines(m, n - 1) + mapping_lines(m.pins@[n - 1].0, m.pins@[n - 1].1, None)
    }
}

/// With neither a Target I/O standard nor a per-signal one, the Settings
/// File binds pins to locations only and emits no `IO_STANDARD` assignment,
/// leaving Quartus on its device defaults.
pub proof fn law_no_io_standard_unless_declared(m: Manifest, n: int)
    requires
        m.target.io_standard is None,
        m.io_standards@.len() == 0,
    ensures
        pin_lines(m, n) == location_lines(m, n),
    decreases n,
{
    if n > 0 {
        law_no_io_standard_unless_declared(m, n - 1);
        assert(!crate::strmap::has_key(m.io_standards@, m.pins@[n - 1].0));
    }
}

/// A pattern of capitals and underscores, such as the name of an assignment
/// (`SDC_FILE`, `IO_STANDARD`), starting with a capital.
pub open spec fn is_assignment_name(p: Seq<char>) -> bool {
    &&& p.len() > 0
    &&& 'A' <= p[0] <= 'Z'
    &&& forall|i: int| 0 <= i < p.len() ==> ('A' <= #[trigger] p[i] <= 'Z' || p[i] == '_')
}

/// `s` does not contain `p`.
pub open spec fn free_of(s: Seq<char>, p: Seq<char>) -> bool {
    occurrences(s, p) == 0
}

/// Text with no capital letters holds no assignment name.
proof fn lemma_lowercase_free(s: Seq<char>, p: Seq<char>)
    requires
        is_assignment_name(p),
        forall|i: int| 0 <= i < s.len() ==> !('A' <= #[trigger] s[i] <= 'Z'),
    ensures
        free_of(s, p),
{
    assert(p.contains(p[0]));
    lemma_no_occurrences(s, p, p[0]);
}

/// An assignment name holds no character that is not a capital or `_`.
proof fn lemma_name_lacks(p: Seq<char>, c: char)
    requires
        is_assignment_name(p),
        !('A' <= c <= 'Z'),
        c != '_',
    ensures
        !p.contains(c),
{
}

/// How many assignment targets a mapping has: one, or one per bus pin.
pub open spec fn target_count(mapping: PinMapping) -> nat {
    match mapping {
        PinMapping::Single(_) => 1,
        PinMapping::Bus(pins) => pins@.len(),
    }
}

/// How many targets of the first `n` signals of `[pins]` have an I/O standard.
pub open spec fn io_targets(m: Manifest, n: int) -> nat
    decreases n,
{
    if n <= 0 {
        0
    } else {
        io_targets(m, n - 1) + if io_standard_spec(m, m.pins@[n - 1].0) is Some {
            target_count(m.pins@[n - 1].1)
        } else {
            0
        }
    }
}

/// What a Settings File's own words say of a pattern `p`: how often the
/// `SDC_FILE` line's words and the `IO_STANDARD` line's words hold it, and
/// that every other fixed word of the file is free of it.
pub open spec fn fixed_words(p: Seq<char>, k_sdc: nat, counts_io: bool) -> bool {
    &&& is_assignment_name(p)
    &&& free_of("set_global_assignment -name FAMILY \""@, p)
    &&& free_of("set_global_assignment -name DEVICE "@, p)
    &&& free_of("set_global_assignment -name TOP_LEVEL_ENTITY "@, p)
    &&& free_of("set_global_assignment -name VHDL_INPUT_VERSION "@, p)
    &&& free_of("set_global_assignment -name PROJECT_OUTPUT_DIRECTORY output_files\n"@, p)
    &&& free_of("set_global_assignment -name NUM_PARALLEL_PROCESSORS ALL\n"@, p)
    &&& free_of("set_global_assignment -name VHDL_FILE ../"@, p)
    &&& occurrences("set_global_assignment -name SDC_FILE "@, p) == k_sdc
    &&& occurrences("set_instance_assignment -name IO_STANDARD \""@, p) == if counts_io {
        1nat
    } else {
        0nat
    }
}

proof fn lemma_small_words_free(p: Seq<char>)
    requires
        is_assignment_name(p),
    ensures
        free_of("\n"@, p),
        free_of("\"\n"@, p),
        free_of(".sdc\n"@, p),
        free_of("set_location_assignment "@, p),
        free_of(" -to "@, p),
        free_of("\" -to "@, p),
        free_of("["@, p),
        free_of("]"@, p),
        !p.contains('\n'),
        !p.contains('"'),
        !p.contains(' '),
        !p.contains('s'),
        !p.contains('.'),
        !p.contains('['),
        !p.contains(']'),
        !p.contains('/'),
{
    reveal_strlit("\n");
    reveal_strlit("\"\n");
    reveal_strlit(".sdc\n");
    reveal_strlit("set_location_assignment ");
    reveal_strlit(" -to ");
    reveal_strlit("\" -to ");
    reveal_strlit("[");
    reveal_strlit("]");
    lemma_lowercase_free("\n"@, p);
    lemma_lowercase_free("\"\n"@, p);
    lemma_lowercase_free(".sdc\n"@, p);
    lemma_lowercase_free("set_location_assignment "@, p);
    lemma_lowercase_free(" -to "@, p);
    lemma_lowercase_free("\" -to "@, p);
    lemma_lowercase_free("["@, p);
    lemma_lowercase_free("]"@, p);
    lemma_name_lacks(p, '\n');
    lemma_name_lacks(p, '"');
    lemma_name_lacks(p, ' ');
    lemma_name_lacks(p, 's');
    lemma_name_lacks(p, '.');
    lemma_name_lacks(p, '[');
    lemma_name_lacks(p, ']');
    lemma_name_lacks(p, '/');
}

/// One pin assignment holds `p` once per `IO_STANDARD` line it has, when
/// nothing the Manifest wrote does.
proof fn lemma_assignment_occurrences(
    pin: Seq<char>,
    target: Seq<char>,
    io: Option<Seq<char>>,
    p: Seq<char>,
    k_sdc: nat,
    counts_io: bool,
)
    requires
        fixed_words(p, k_sdc, counts_io),
        free_of(pin, p),
        free_of(target, p),
        io matches Some(t) ==> free_of(t, p),
    ensures
        occurrences(assignment(pin, target, io), p) == if io is Some && counts_io {
            1nat
        } else {
            0nat
        },
        assignment(pin, target, io).len() > 0,
        assignment(pin, target, io).last() == '\n',
{
    lemma_small_words_free(p);
    reveal_strlit("set_location_assignment ");
    reveal_strlit(" -to ");
    reveal_strlit("\n");
    reveal_strlit("set_instance_assignment -name IO_STANDARD \"");
    reveal_strlit("\" -to ");
    let l1 = "set_location_assignment "@;
    let l2 = " -to "@;
    let nl = "\n"@;
    lemma_occurrences_concat(l1, pin, p);
    lemma_occurrences_concat(l1 + pin, l2, p);
    lemma_occurrences_concat(l1 + pin + l2, target, p);
    lemma_occurrences_concat(l1 + pin + l2 + target, nl, p);
    let loc = l1 + pin + l2 + target + nl;
    match io {
        Some(t) => {
            let i1 = "set_instance_assignment -name IO_STANDARD \""@;
            let i2 = "\" -to "@;
            lemma_occurrences_concat(i1, t, p);
            lemma_occurrences_concat(i1 + t, i2, p);
            lemma_occurrences_concat(i1 + t + i2, target, p);
            lemma_occurrences_concat(i1 + t + i2 + target, nl, p);
            let std_line = i1 + t + i2 + target + nl;
            lemma_occurrences_concat(loc, std_line, p);
            assert(assignment(pin, target, io) == loc + std_line);
        },
        None => {
            assert(loc + Seq::<char>::empty() =~= loc);
            assert(assignment(pin, target, io) == loc);
        },
    }
}

/// Text that is empty or ends a line.
pub open spec fn ends_line(s: Seq<char>) -> bool {
    s.len() == 0 || s.last() == '\n'
}

proof fn lemma_bus_target_free(signal: Seq<char>, i: int, p: Seq<char>)
    requires
        is_assignment_name(p),
        free_of(signal, p),
    ensures
        free_of(bus_target(signal, i), p),
{
    lemma_small_words_free(p);
    reveal_strlit("[");
    reveal_strlit("]");
    let d = nat_digits(i as nat);
    crate::error::lemma_digits_are_digits(i as nat);
    lemma_lowercase_free(d, p);
    lemma_occurrences_concat(signal, "["@, p);
    lemma_occurrences_concat(signal + "["@, d, p);
    lemma_occurrences_concat(signal + "["@ + d, "]"@, p);
}

proof fn lemma_bus_lines_occurrences(
    signal: Seq<char>,
    pins: Seq<String>,
    io: Option<Seq<char>>,
    n: int,
    p: Seq<char>,
    k_sdc: nat,
    counts_io: bool,
)
    requires
        fixed_words(p, k_sdc, counts_io),
        0 <= n <= pins.len(),
        free_of(signal, p),
        forall|i: int| 0 <= i < pins.len() ==> free_of(#[trigger] pins[i]@, p),
        io matches Some(t) ==> free_of(t, p),
    ensures
        occurrences(bus_lines(signal, pins, io, n), p) == if io is Some && counts_io {
            n as nat
        } else {
            0nat
        },
        ends_line(bus_lines(signal, pins, io, n)),
    decreases n,
{
    if n > 0 {
        lemma_bus_lines_occurrences(signal, pins, io, n - 1, p, k_sdc, counts_io);
        lemma_bus_target_free(signal, n - 1, p);
        lemma_assignment_occurrences(pins[n - 1]@, bus_target(signal, n - 1), io, p, k_sdc, counts_io);
        lemma_small_words_free(p);
        lemma_occurrences_concat(
            bus_lines(signal, pins, io, n - 1),
            assignment(pins[n - 1]@, bus_target(signal, n - 1), io),
            p,
        );
    }
}

/// Every `[pins]` string and every I/O standard a Manifest holds is free of `p`.
pub open spec fn pins_free_of(m: Manifest, p: Seq<char>) -> bool {
    &&& forall|i: int| 0 <= i < m.pins@.len() ==> free_of(#[trigger] m.pins@[i].0, p)
    &&& forall|i: int|
        0 <= i < m.pins@.len() ==> match #[trigger] m.pins@[i].1 {
            PinMapping::Single(pin) => free_of(pin@, p),
            PinMapping::Bus(pins) => forall|j: int| 0 <= j < pins@.len() ==> free_of(#[trigger] pins@[j]@, p),
        }
    &&& m.target.io_standard matches Some(t) ==> free_of(t@, p)
    &&& forall|i: int| 0 <= i < m.io_standards@.len() ==> free_of(#[trigger] m.io_standards@[i].1@, p)
}

proof fn lemma_pin_lines_occurrences(m: Manifest, n: int, p: Seq<char>, k_sdc: nat, counts_io: bool)
    requires
        fixed_words(p, k_sdc, counts_io),
        pins_free_of(m, p),
        0 <= n <= m.pins@.len(),
    ensures
        occurrences(pin_lines(m, n), p) == if counts_io {
            io_targets(m, n)
        } else {
            0nat
        },
        ends_line(pin_lines(m, n)),
    decreases n,
{
    if n > 0 {
        lemma_pin_lines_occurrences(m, n - 1, p, k_sdc, counts_io);
        let (signal, mapping) = m.pins@[n - 1];
        let io = io_standard_spec(m, signal);
        assert(io matches Some(t) ==> free_of(t, p)) by {
            if crate::strmap::has_key(m.io_standards@, signal) {
                let k = choose|k: int|
                    0 <= k < m.io_standards@.len() && #[trigger] m.io_standards@[k].0 == signal;
                assert(free_of(m.io_standards@[k].1@, p));
            }
        }
        assert(free_of(signal, p));
        let lines = mapping_lines(signal, mapping, io);
        match mapping {
            PinMapping::Single(pin) => {
                assert(free_of(pin@, p));
                lemma_assignment_occurrences(pin@, signal, io, p, k_sdc, counts_io);
            },
            PinMapping::Bus(pins) => {
                lemma_bus_lines_occurrences(signal, pins@, io, pins@.len() as int, p, k_sdc, counts_io);
            },
        }
        lemma_small_words_free(p);
        lemma_occurrences_concat(pin_lines(m, n - 1), lines, p);
    }
}

/// The whole Settings File.
pub open spec fn qsf_spec(m: Manifest, sources: Seq<Seq<char>>, dir: Seq<char>) -> Seq<char> {
    qsf_header(m) + source_lines(sources, dir, sources.len() as int) + sdc_line(m) + "\n"@
        + pin_lines(m, m.pins@.len() as int)
}

/// The location line that binds pin `pin` to member `i` of bus `signal`,
/// the member written as the decimal text of `i`.
pub open spec fn bus_member_line(pin: Seq<char>, signal: Seq<char>, i: nat) -> Seq<char> {
    "set_location_assignment "@ + pin + " -to "@ + signal + "["@ + nat_digits(i) + "]"@ + "\n"@
}

proof fn lemma_bus_member_line_in(signal: Seq<char>, pins: Seq<String>, io: Option<Seq<char>>, n: int, i: int)
    requires
        0 <= i < n <= pins.len(),
    ensures
        is_infix(bus_member_line(pins[i]@, signal, i as nat), bus_lines(signal, pins, io, n)),
    decreases n,
{
    let line = bus_member_line(pins[i]@, signal, i as nat);
    if i == n - 1 {
        let rest = match io {
            Some(standard) => "set_instance_assignment -name IO_STANDARD \""@ + standard + "\" -to "@
                + bus_target(signal, i) + "\n"@,
            None => Seq::<char>::empty(),
        };
        assert(assignment(pins[i]@, bus_target(signal, i), io) =~= line + rest);
        assert(bus_lines(signal, pins, io, n) =~= bus_lines(signal, pins, io, n - 1) + line + rest);
    } else {
        lemma_bus_member_line_in(signal, pins, io, n - 1, i);
        lemma_infix_within(
            line,
            bus_lines(signal, pins, io, n - 1),
            Seq::<char>::empty(),
            assignment(pins[n - 1]@, bus_target(signal, n - 1), io),
        );
        assert(Seq::<char>::empty() + bus_lines(signal, pins, io, n - 1) + assignment(
            pins[n - 1]@,
            bus_target(signal, n - 1),
            io,
        ) =~= bus_lines(signal, pins, io, n));
    }
}

proof fn lemma_pin_bus_line_in(m: Manifest, n: int, k: int, signal: Seq<char>, pins: Vec<String>, i: int)
    requires
        0 <= k < n <= m.pins@.len(),
        m.pins@[k] == (signal, PinMapping::Bus(pins)),
        0 <= i < pins@.len(),
    ensures
        is_infix(bus_member_line(pins@[i]@, signal, i as nat), pin_lines(m, n)),
    decreases n,
{
    let line = bus_member_line(pins@[i]@, signal, i as nat);
    let e = Seq::<char>::empty();
    if k == n - 1 {
        let io = io_standard_spec(m, signal);
        lemma_bus_member_line_in(signal, pins@, io, pins@.len() as int, i);
        lemma_infix_within(line, mapping_lines(signal, PinMapping::Bus(pins), io), pin_lines(m, n - 1), e);
        assert(pin_lines(m, n - 1) + mapping_lines(signal, PinMapping::Bus(pins), io) + e =~= pin_lines(m, n));
    } else {
        lemma_pin_bus_line_in(m, n - 1, k, signal, pins, i);
        let last = mapping_lines(m.pins@[n - 1].0, m.pins@[n - 1].1, io_standard_spec(m, m.pins@[n - 1].0));
        lemma_infix_within(line, pin_lines(m, n - 1), e, last);
        assert(e + pin_lines(m, n - 1) + last =~= pin_lines(m, n));
    }
}

/// Every member of a bus gets its own pin: for bus `signal` with pins
/// `pins`, the Settings File binds the `i`-th pin to `signal[i]`, `i`
/// written as its own decimal text — so distinct pins bind distinct members
/// (`law_decimal_texts_differ`) and no member is skipped.
pub proof fn law_bus_member_i_gets_pin_i(
    m: Manifest,
    sources: Seq<Seq<char>>,
    dir: Seq<char>,
    k: int,
    signal: Seq<char>,
    pins: Vec<String>,
    i: int,
)
    requires
        0 <= k < m.pins@.len(),
        m.pins@[k] == (signal, PinMapping::Bus(pins)),
        0 <= i < pins@.len(),
    ensures
        is_infix(
            "set_location_assignment "@ + pins@[i]@ + " -to "@ + signal + "["@ + nat_digits(i as nat)
                + "]"@ + "\n"@,
            qsf_spec(m, sources, dir),
        ),
{
    let line = bus_member_line(pins@[i]@, signal, i as nat);
    lemma_pin_bus_line_in(m, m.pins@.len() as int, k, signal, pins, i);
    let pre = qsf_header(m) + source_lines(sources, dir, sources.len() as int) + sdc_line(m) + "\n"@;
    lemma_infix_within(line, pin_lines(m, m.pins@.len() as int), pre, Seq::<char>::empty());
    assert(pre + pin_lines(m, m.pins@.len() as int) + Seq::<char>::empty() =~= qsf_spec(m, sources, dir));
}

/// What the Settings File writes from the Manifest outside `[pins]`, and
/// the names it gives the sources, are free of `p`.
pub open spec fn settings_free_of(m: Manifest, sources: Seq<Seq<char>>, dir: Seq<char>, p: Seq<char>) -> bool {
    &&& free_of(m.target.family@, p)
    &&& free_of(m.target.device@, p)
    &&& free_of(m.project.top@, p)
    &&& free_of(m.hdl.standard@, p)
    &&& free_of(m.project.name@, p)
    &&& forall|i: int| 0 <= i < sources.len() ==> free_of(#[trigger] relative_source(sources[i], dir), p)
}

proof fn lemma_header_occurrences(m: Manifest, p: Seq<char>, k_sdc: nat, counts_io: bool)
    requires
        fixed_words(p, k_sdc, counts_io),
        free_of(m.target.family@, p),
        free_of(m.target.device@, p),
        free_of(m.project.top@, p),
        free_of(m.hdl.standard@, p),
    ensures
        free_of(qsf_header(m), p),
        qsf_header(m).len() > 0,
        qsf_header(m).last() == '\n',
{
    lemma_small_words_free(p);
    reveal_strlit("set_global_assignment -name FAMILY \"");
    reveal_strlit("\"\n");
    reveal_strlit("set_global_assignment -name DEVICE ");
    reveal_strlit("\n");
    reveal_strlit("set_global_assignment -name TOP_LEVEL_ENTITY ");
    reveal_strlit("set_global_assignment -name VHDL_INPUT_VERSION ");
    reveal_strlit("set_global_assignment -name PROJECT_OUTPUT_DIRECTORY output_files\n");
    reveal_strlit("set_global_assignment -name NUM_PARALLEL_PROCESSORS ALL\n");
    let l1 = "set_global_assignment -name FAMILY \""@;
    let l2 = "\"\n"@;
    let l3 = "set_global_assignment -name DEVICE "@;
    let nl = "\n"@;
    let l5 = "set_global_assignment -name TOP_LEVEL_ENTITY "@;
    let l6 = "set_global_assignment -name VHDL_INPUT_VERSION "@;
    let l7 = "set_global_assignment -name PROJECT_OUTPUT_DIRECTORY output_files\n"@;
    let l8 = "set_global_assignment -name NUM_PARALLEL_PROCESSORS ALL\n"@;
    let a1 = l1 + m.target.family@;
    lemma_occurrences_concat(l1, m.target.family@, p);
    let a2 = a1 + l2;
    lemma_occurrences_concat(a1, l2, p);
    let a3 = a2 + l3;
    lemma_occurrences_concat(a2, l3, p);
    let a4 = a3 + m.target.device@;
    lemma_occurrences_concat(a3, m.target.device@, p);
    let a5 = a4 + nl;
    lemma_occurrences_concat(a4, nl, p);
    let a6 = a5 + l5;
    lemma_occurrences_concat(a5, l5, p);
    let a7 = a6 + m.project.top@;
    lemma_occurrences_concat(a6, m.project.top@, p);
    let a8 = a7 + nl;
    lemma_occurrences_concat(a7, nl, p);
    let a9 = a8 + l6;
    lemma_occurrences_concat(a8, l6, p);
    let a10 = a9 + m.hdl.standard@;
    lemma_occurrences_concat(a9, m.hdl.standard@, p);
    let a11 = a10 + nl;
    lemma_occurrences_concat(a10, nl, p);
    let a12 = a11 + l7;
    lemma_occurrences_concat(a11, l7, p);
    let a13 = a12 + l8;
    lemma_occurrences_concat(a12, l8, p);
    let a14 = a13 + nl;
    lemma_occurrences_concat(a13, nl, p);
    assert(qsf_header(m) == a14);
}

proof fn lemma_source_lines_occurrences(
    sources: Seq<Seq<char>>,
    dir: Seq<char>,
    n: int,
    p: Seq<char>,
    k_sdc: nat,
    counts_io: bool,
)
    requires
        fixed_words(p, k_sdc, counts_io),
        0 <= n <= sources.len(),
        forall|i: int| 0 <= i < sources.len() ==> free_of(#[trigger] relative_source(sources[i], dir), p),
    ensures
        free_of(source_lines(sources, dir, n), p),
        ends_line(source_lines(sources, dir, n)),
    decreases n,
{
    if n > 0 {
        lemma_source_lines_occurrences(sources, dir, n - 1, p, k_sdc, counts_io);
        lemma_small_words_free(p);
        reveal_strlit("set_global_assignment -name VHDL_FILE ../");
        reveal_strlit("\n");
        let v = "set_global_assignment -name VHDL_FILE ../"@;
        let rel = relative_source(sources[n - 1], dir);
        assert(free_of(rel, p));
        lemma_occurrences_concat(v, rel, p);
        lemma_occurrences_concat(v + rel, "\n"@, p);
        lemma_occurrences_concat(source_lines(sources, dir, n - 1), source_line(sources[n - 1], dir), p);
    }
}

proof fn lemma_qsf_occurrences(m: Manifest, sources: Seq<Seq<char>>, dir: Seq<char>, p: Seq<char>, k_sdc: nat, counts_io: bool)
    requires
        fixed_words(p, k_sdc, counts_io),
        settings_free_of(m, sources, dir, p),
        pins_free_of(m, p),
    ensures
        occurrences(qsf_spec(m, sources, dir), p) == (if m.clocks@.len() > 0 {
            k_sdc
        } else {
            0nat
        }) + (if counts_io {
            io_targets(m, m.pins@.len() as int)
        } else {
            0nat
        }),
{
    lemma_small_words_free(p);
    lemma_header_occurrences(m, p, k_sdc, counts_io);
    lemma_source_lines_occurrences(sources, dir, sources.len() as int, p, k_sdc, counts_io);
    lemma_pin_lines_occurrences(m, m.pins@.len() as int, p, k_sdc, counts_io);
    reveal_strlit("set_global_assignment -name SDC_FILE ");
    reveal_strlit(".sdc\n");
    reveal_strlit("\n");
    let h = qsf_header(m);
    let sl = source_lines(sources, dir, sources.len() as int);
    let sd = sdc_line(m);
    let nl = "\n"@;
    let pl = pin_lines(m, m.pins@.len() as int);
    if m.clocks@.len() > 0 {
        let s = "set_global_assignment -name SDC_FILE "@;
        lemma_occurrences_concat(s, m.project.name@, p);
        lemma_occurrences_concat(s + m.project.name@, ".sdc\n"@, p);
        assert(occurrences(sd, p) == k_sdc);
    } else {
        assert(occurrences(sd, p) == 0);
    }
    lemma_occurrences_concat(h, sl, p);
    lemma_occurrences_concat(h + sl, sd, p);
    lemma_occurrences_concat(h + sl + sd, nl, p);
    lemma_occurrences_concat(h + sl + sd + nl, pl, p);
}

/// When nothing the Manifest wrote, and no name the Settings File gives a
/// source, contains `SDC_FILE`, the Settings File names a Constraints File
/// on exactly one line if `[clocks]` declares a clock, and nowhere at all
/// otherwise.
pub proof fn law_settings_file_names_the_constraints_file_once(
    m: Manifest,
    sources: Seq<Seq<char>>,
    dir: Seq<char>,
)
    requires
        settings_free_of(m, sources, dir, "SDC_FILE"@),
        pins_free_of(m, "SDC_FILE"@),
    ensures
        occurrences(qsf_spec(m, sources, dir), "SDC_FILE"@) == if m.clocks@.len() > 0 {
            1nat
        } else {
            0nat
        },
{
    let p = "SDC_FILE"@;
    reveal_strlit("SDC_FILE");
    assert(is_assignment_name(p));
    assert(p.contains('S') && p.contains('C') && p.contains('D')) by {
        assert(p[0] == 'S' && p[1] == 'D' && p[2] == 'C');
    }
    reveal_strlit("set_global_assignment -name FAMILY \"");
    reveal_strlit("set_global_assignment -name DEVICE ");
    reveal_strlit("set_global_assignment -name TOP_LEVEL_ENTITY ");
    reveal_strlit("set_global_assignment -name VHDL_INPUT_VERSION ");
    reveal_strlit("set_global_assignment -name PROJECT_OUTPUT_DIRECTORY output_files\n");
    reveal_strlit("set_global_assignment -name NUM_PARALLEL_PROCESSORS ALL\n");
    reveal_strlit("set_global_assignment -name VHDL_FILE ../");
    reveal_strlit("set_global_assignment -name SDC_FILE ");
    reveal_strlit("set_instance_assignment -name IO_STANDARD \"");
    reveal_strlit("set_global_assignment -name ");
    reveal_strlit(" ");
    lemma_no_occurrences("set_global_assignment -name FAMILY \""@, p, 'S');
    lemma_no_occurrences("set_global_assignment -name DEVICE "@, p, 'S');
    lemma_no_occurrences("set_global_assignment -name TOP_LEVEL_ENTITY "@, p, 'S');
    lemma_no_occurrences("set_global_assignment -name VHDL_INPUT_VERSION "@, p, 'C');
    lemma_no_occurrences("set_global_assignment -name PROJECT_OUTPUT_DIRECTORY output_files\n"@, p, 'S');
    lemma_no_occurrences("set_global_assignment -name NUM_PARALLEL_PROCESSORS ALL\n"@, p, 'D');
    lemma_no_occurrences("set_global_assignment -name VHDL_FILE ../"@, p, 'C');
    lemma_no_occurrences("set_instance_assignment -name IO_STANDARD \""@, p, 'C');
    let pre = "set_global_assignment -name "@;
    lemma_no_occurrences(pre, p, 'S');
    lemma_no_occurrences(" "@, p, 'S');
    crate::text::lemma_occurrences_self(p);
    lemma_occurrences_concat(pre, p, p);
    lemma_occurrences_concat(pre + p, " "@, p);
    assert("set_global_assignment -name SDC_FILE "@ =~= pre + p + " "@);
    assert(fixed_words(p, 1, false));
    lemma_qsf_occurrences(m, sources, dir, p, 1, false);
}

/// When nothing the Manifest wrote, and no name the Settings File gives a
/// source, contains `IO_STANDARD`, the Settings File holds one
/// `IO_STANDARD` assignment per pin target whose signal has an I/O standard
/// (its `[io-standards]` override, else the Target's) and none otherwise.
pub proof fn law_io_standard_lines_are_the_declared_ones(m: Manifest, sources: Seq<Seq<char>>, dir: Seq<char>)
    requires
        settings_free_of(m, sources, dir, "IO_STANDARD"@),
        pins_free_of(m, "IO_STANDARD"@),
    ensures
        occurrences(qsf_spec(m, sources, dir), "IO_STANDARD"@) == io_targets(m, m.pins@.len() as int),
{
    let p = "IO_STANDARD"@;
    reveal_strlit("IO_STANDARD");
    assert(is_assignment_name(p));
    assert(p.contains('S') && p.contains('A') && p.contains('D')) by {
        assert(p[3] == 'S' && p[5] == 'A' && p[7] == 'D');
    }
    reveal_strlit("set_global_assignment -name FAMILY \"");
    reveal_strlit("set_global_assignment -name DEVICE ");
    reveal_strlit("set_global_assignment -name TOP_LEVEL_ENTITY ");
    reveal_strlit("set_global_assignment -name VHDL_INPUT_VERSION ");
    reveal_strlit("set_global_assignment -name PROJECT_OUTPUT_DIRECTORY output_files\n");
    reveal_strlit("set_global_assignment -name NUM_PARALLEL_PROCESSORS ALL\n");
    reveal_strlit("set_global_assignment -name VHDL_FILE ../");
    reveal_strlit("set_global_assignment -name SDC_FILE ");
    reveal_strlit("set_instance_assignment -name IO_STANDARD \"");
    reveal_strlit("set_instance_assignment -name ");
    reveal_strlit(" \"");
    lemma_no_occurrences("set_global_assignment -name FAMILY \""@, p, 'S');
    lemma_no_occurrences("set_global_assignment -name DEVICE "@, p, 'S');
    lemma_no_occurrences("set_global_assignment -name TOP_LEVEL_ENTITY "@, p, 'S');
    lemma_no_occurrences("set_global_assignment -name VHDL_INPUT_VERSION "@, p, 'A');
    lemma_no_occurrences("set_global_assignment -name PROJECT_OUTPUT_DIRECTORY output_files\n"@, p, 'S');
    lemma_no_occurrences("set_global_assignment -name NUM_PARALLEL_PROCESSORS ALL\n"@, p, 'D');
    lemma_no_occurrences("set_global_assignment -name VHDL_FILE ../"@, p, 'S');
    lemma_no_occurrences("set_global_assignment -name SDC_FILE "@, p, 'A');
    let pre = "set_instance_assignment -name "@;
    lemma_no_occurrences(pre, p, 'S');
    lemma_no_occurrences(" \""@, p, 'S');
    crate::text::lemma_occurrences_self(p);
    lemma_occurrences_concat(pre, p, p);
    lemma_occurrences_concat(pre + p, " \""@, p);
    assert("set_instance_assignment -name IO_STANDARD \""@ =~= pre + p + " \""@);
    assert(fixed_words(p, 0, true));
    lemma_qsf_occurrences(m, sources, dir, p, 0, true);
}

fn append_assignment(s: &mut String, pin: &str, target: &str, io: Option<&str>)
    ensures
        final(s)@ == old(s)@ + assignment(
            pin@,
            target@,
            match io {
                Some(t) => Some(t@),
                None => None,
            },
        ),
{
    s.append("set_location_assignment ");
    s.append(pin);
    s.append(" -to ");
    s.append(target);
    s.append("\n");
    match io {
        Some(standard) => {
            s.append("set_instance_assignment -name IO_STANDARD \"");
            s.append(standard);
            s.append("\" -to ");
            s.append(target);
            s.append("\n");
        },
        None => {},
    }
}

fn append_mapping(s: &mut String, signal: &str, mapping: &PinMapping, io: Option<&str>)
    ensures
        final(s)@ == old(s)@ + mapping_lines(
            signal@,
            *mapping,
            match io {
                Some(t) => Some(t@),
                None => None,
            },
        ),
{
    let ghost iov = match io {
        Some(t) => Some(t@),
        None => None::<Seq<char>>,
    };
    match mapping {
        PinMapping::Single(pin) => {
            append_assignment(s, pin.as_str(), signal, io);
        },
        PinMapping::Bus(pins) => {
            let ghost start = s@;
            let mut i: usize = 0;
            while i < pins.len()
                invariant
                    i <= pins@.len(),
                    s@ == start + bus_lines(signal@, pins@, iov, i as int),
                    iov == match io {
                        Some(t) => Some(t@),
                        None => None::<Seq<char>>,
                    },
                decreases pins@.len() - i,
            {
                let mut target = String::from_str(signal);
                target.append("[");
                push_digits(&mut target, i as u64);
                target.append("]");
                assert(target@ == bus_target(signal@, i as int));
                let ghost before = s@;
                append_assignment(s, pins[i].as_str(), target.as_str(), io);
                assert(s@ =~= start + bus_lines(signal@, pins@, iov, i + 1));
                i = i + 1;
            }
        },
    }
}

/// The Settings File for a build: global assignments, the source list, the
/// Constraints File when clocks are declared, and every pin assignment with
/// its I/O standard. Never fails.
pub fn generate_qsf(manifest: &Manifest, sources: &Vec<String>, project_dir: &str) -> (res: Result<
    String,
    ChipsmithError,
>)
    ensures
        res matches Ok(text) && text@ == qsf_spec(*manifest, views(sources@), project_dir@),
{
    let mut s = String::from_str("set_global_assignment -name FAMILY \"");
    s.append(manifest.target.family.as_str());
    s.append("\"\n");
    s.append("set_global_assignment -name DEVICE ");
    s.append(manifest.target.device.as_str());
    s.append("\n");
    s.append("set_global_assignment -name TOP_LEVEL_ENTITY ");
    s.append(manifest.project.top.as_str());
    s.append("\n");
    s.append("set_global_assignment -name VHDL_INPUT_VERSION ");
    s.append(manifest.hdl.standard.as_str());
    s.append("\n");
    s.append("set_global_assignment -name PROJECT_OUTPUT_DIRECTORY output_files\n");
    s.append("set_global_assignment -name NUM_PARALLEL_PROCESSORS ALL\n");
    s.append("\n");
    let ghost header = s@;
    assert(header == qsf_header(*manifest));
    let ghost sv = views(sources@);
    let mut i: usize = 0;
    while i < sources.len()
        invariant
            i <= sources@.len(),
            sv == views(sources@),
            s@ == header + source_lines(sv, project_dir@, i as int),
        decreases sources@.len() - i,
    {
        let source = &sources[i];
        assert(sv[i as int] == source@);
        s.append("set_global_assignment -name VHDL_FILE ../");
        match strip_prefix(source.as_str(), project_dir) {
            Some(relative) => s.append(relative.as_str()),
            None => s.append(source.as_str()),
        }
        s.append("\n");
        i = i + 1;
    }
    if !manifest.clocks.is_empty() {
        s.append("set_global_assignment -name SDC_FILE ");
        s.append(manifest.project.name.as_str());
        s.append(".sdc\n");
    }
    s.append("\n");
    let ghost top = s@;
    assert(top == header + source_lines(sv, project_dir@, sv.len() as int) + sdc_line(*manifest)
        + "\n"@);
    let pins = manifest.pins.as_slice();
    let mut k: usize = 0;
    while k < pins.len()
        invariant
            k <= pins@.len(),
            crate::strmap::entries_view(pins@) == manifest.pins@,
            s@ == top + pin_lines(*manifest, k as int),
        decreases pins@.len() - k,
    {
        let signal = &pins[k].0;
        let mapping = &pins[k].1;
        assert(manifest.pins@[k as int].0 == signal@ && manifest.pins@[k as int].1 == *mapping);
        let io = manifest.io_standard_for(signal.as_str());
        append_mapping(&mut s, signal.as_str(), mapping, io);
        k = k + 1;
    }
    Ok(s)
}

} // verus!
