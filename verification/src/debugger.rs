//! The debugger's logic: debug-info records, numeric input, command
//! parsing, operand preview and hexadecimal rendering.
//!
//! The interactive shell around this — prompting, printing and stepping
//! the machine — is ordinary input/output and lives with the embedder;
//! everything here is pure bookkeeping over plain values.

use vstd::prelude::*;

use vstd::string::StringExecFns;
use vstd::string::StrSliceExecFns;

use crate::cpu::sread_arg;
use crate::cpu::ThreadCore;
use crate::lexer::digits_value;
use crate::lexer::strip_separators;
use crate::mem::Memory;
use crate::text::push_char;

verus! {

/// The big-endian word formed by four bytes of `b` starting at `i`.
pub open spec fn word_be(b: Seq<u8>, i: int) -> u32 {
    ((b[i] as u32) << 24) | ((b[i + 1] as u32) << 16) | ((b[i + 2] as u32) << 8) | (b[i
        + 3] as u32)
}

/// The address-to-line records of a debug-info stream: eight-byte
/// records of two big-endian words each, any trailing fragment ignored.
pub open spec fn debug_records(b: Seq<u8>, i: int) -> Seq<(u32, u32)>
    decreases b.len() - i,
{
    if i < 0 || i + 8 > b.len() {
        Seq::empty()
    } else {
        seq![(word_be(b, i), word_be(b, i + 4))] + debug_records(b, i + 8)
    }
}

/// The line bound to an address: the latest record wins.
pub open spec fn spec_line_for(records: Seq<(u32, u32)>, addr: u32) -> Option<u32>
    decreases records.len(),
{
    if records.len() == 0 {
        None
    } else if records.last().0 == addr {
        Some(records.last().1)
    } else {
        spec_line_for(records.drop_last(), addr)
    }
}

/// The radix named by a prefix character of debugger input; the `d`
/// prefix is not among them here, and an unknown prefix falls back to
/// decimal.
pub open spec fn dbg_radix_of(c: u8) -> Option<u32> {
    if c == 98 {
        Some(2u32)
    } else if c == 113 {
        Some(4u32)
    } else if c == 111 {
        Some(8u32)
    } else if c == 122 {
        Some(12u32)
    } else if c == 120 {
        Some(16u32)
    } else {
        None
    }
}

/// The number a debugger input denotes: underscores are dropped, a
/// leading `0` with a radix letter selects the radix, everything else is
/// decimal.
pub open spec fn spec_string_to_u32(s: Seq<u8>) -> Option<u32> {
    let w = strip_separators(s);
    let prefixed = w.len() > 2 && w[0] == 48 && dbg_radix_of(w[1]) is Some;
    let radix = if prefixed {
        dbg_radix_of(w[1]).unwrap()
    } else {
        10u32
    };
    let digits = if prefixed {
        w.drop_first().drop_first()
    } else {
        w
    };
    if digits.len() == 0 {
        None
    } else {
        match digits_value(digits, 0, 0, radix, 0xFFFF_FFFF) {
            Some(v) => Some(v as u32),
            None => None,
        }
    }
}

/// Parses a debugger number; see [`spec_string_to_u32`].
pub fn string_to_u32(num: &Vec<u8>) -> (r: Option<u32>)
    ensures
        r == spec_string_to_u32(num@),
{
    proof {
        assert(num@.subrange(0, num@.len() as int) =~= num@);
    }
    let w = strip_sep(num, 0);
    let prefixed = w.len() > 2 && w[0] == 48 && (w[1] == 98 || w[1] == 113 || w[1] == 111 || w[1]
        == 122 || w[1] == 120);
    let radix: u32 = if prefixed {
        let p = w[1];
        if p == 98 {
            2
        } else if p == 113 {
            4
        } else if p == 111 {
            8
        } else if p == 122 {
            12
        } else {
            16
        }
    } else {
        10
    };
    let digits = if prefixed {
        let ghost before = w@;
        let d = crate::lexer::slice_bytes(&w, 2, w.len());
        proof {
            assert(d@ =~= before.drop_first().drop_first());
        }
        d
    } else {
        w
    };
    if digits.len() == 0 {
        return None;
    }
    dbg_digits(&digits, 0, 0, radix)
}

/// Removes underscore separators; a front for the lexer's spec.
fn strip_sep(w: &Vec<u8>, i: usize) -> (r: Vec<u8>)
    requires
        i <= w@.len(),
    ensures
        r@ == strip_separators(w@.subrange(i as int, w@.len() as int)),
    decreases w@.len() - i,
{
    if i == w.len() {
        proof {
            assert(w@.subrange(i as int, w@.len() as int) =~= Seq::<u8>::empty());
        }
        Vec::new()
    } else {
        let ghost tail = w@.subrange(i as int, w@.len() as int);
        proof {
            assert(tail.drop_first() =~= w@.subrange(i + 1, w@.len() as int));
        }
        if w[i] == 95 {
            strip_sep(w, i + 1)
        } else {
            let mut rest = strip_sep(w, i + 1);
            rest.insert(0, w[i]);
            proof {
                assert(rest@ =~= seq![tail[0]] + strip_separators(tail.drop_first()));
            }
            rest
        }
    }
}

/// Evaluates digits for the debugger's radix set.
fn dbg_digits(w: &Vec<u8>, i: usize, acc: u32, radix: u32) -> (r: Option<u32>)
    requires
        i <= w@.len(),
        2 <= radix <= 16,
    ensures
        match r {
            Some(v) => digits_value(w@, i as int, acc as int, radix, 0xFFFF_FFFF) == Some(
                v as int,
            ),
            None => digits_value(w@, i as int, acc as int, radix, 0xFFFF_FFFF) is None,
        },
    decreases w@.len() - i,
{
    if i == w.len() {
        return Some(acc);
    }
    let c = w[i];
    let d: u32 = if 48 <= c && c <= 57 {
        (c - 48) as u32
    } else if 97 <= c && c <= 122 {
        (c - 87) as u32
    } else if 65 <= c && c <= 90 {
        (c - 55) as u32
    } else {
        99
    };
    if d >= radix {
        return None;
    }
    proof {
        assert(acc * radix <= 0xFFFF_FFFFu32 * 16) by (nonlinear_arith)
            requires
                0 <= acc <= 0xFFFF_FFFFu32,
                0 <= radix <= 16,
        {
        }
    }
    let next: u64 = (acc as u64) * (radix as u64) + (d as u64);
    if next > 0xFFFF_FFFFu64 {
        return None;
    }
    dbg_digits(w, i + 1, next as u32, radix)
}

/// The uppercase hexadecimal digit of a nibble.
pub open spec fn hex_char(d: u32) -> char {
    if d < 10 {
        ((48 + d) as u8) as char
    } else {
        ((55 + d) as u8) as char
    }
}

/// Renders a word as eight uppercase hexadecimal digits.
pub fn u32_to_hex8(v: u32) -> (s: String)
    ensures
        s@.len() == 8,
        forall|k: int|
            0 <= k < 8 ==> s@[k] == hex_char((v >> (((7 - k) * 4) as u32)) & 0xF),
{
    let mut s = String::new();
    let mut k: usize = 0;
    while k < 8
        invariant
            k <= 8,
            s@.len() == k,
            forall|j: int|
                0 <= j < k ==> s@[j] == hex_char((v >> (((7 - j) * 4) as u32)) & 0xF),
        decreases 8 - k,
    {
        let shift: u32 = ((7 - k) * 4) as u32;
        let d: u32 = (v >> shift) & 0xF;
        proof {
            crate::cpu::lemma_decode_bounds(v);
            assert((v >> shift) & 0xF < 16) by (bit_vector);
        }
        let c: u8 = if d < 10 {
            (48 + d) as u8
        } else {
            (55 + d) as u8
        };
        push_char(&mut s, c as char);
        k = k + 1;
    }
    s
}

/// One parsed debugger command.
pub struct DebugCommand {
    /// Show the help text.
    pub help: bool,
    /// Print the register file.
    pub print_regs: bool,
    /// Print a memory slice: start and length.
    pub print_mem: Option<(u32, u32)>,
    /// How many steps to run before breaking again.
    pub n: u32,
    /// Whether to stop at the next breakpoint.
    pub breakpoint: bool,
    /// Stop only at breakpoints carrying this two-character tag.
    pub breakpoint_tag: Option<Vec<u8>>,
}

impl DebugCommand {
    /// The command that steps once and breaks.
    pub fn step_once() -> (c: DebugCommand)
        ensures
            !c.help && !c.print_regs && c.print_mem is None && c.n == 1 && !c.breakpoint
                && c.breakpoint_tag is None,
    {
        DebugCommand {
            help: false,
            print_regs: false,
            print_mem: None,
            n: 1,
            breakpoint: false,
            breakpoint_tag: None,
        }
    }
}

/// Splits a byte line at every comma.
fn split_commas(line: &Vec<u8>) -> (parts: Vec<Vec<u8>>) {
    let mut parts: Vec<Vec<u8>> = Vec::new();
    let mut cur: Vec<u8> = Vec::new();
    let mut i: usize = 0;
    while i < line.len()
        invariant
            i <= line@.len(),
        decreases line@.len() - i,
    {
        let c = line[i];
        if c == 44 {
            parts.push(cur);
            cur = Vec::new();
        } else {
            cur.push(c);
        }
        i = i + 1;
    }
    parts.push(cur);
    parts
}

/// Removes leading and trailing ASCII blanks.
fn trim_bytes(part: &Vec<u8>) -> (r: Vec<u8>) {
    let mut from: usize = 0;
    let n = part.len();
    while from < n && (part[from] == 32 || part[from] == 9 || part[from] == 13)
        invariant
            from <= n,
            n == part@.len(),
        decreases n - from,
    {
        from = from + 1;
    }
    let mut to: usize = n;
    while to > from && (part[to - 1] == 32 || part[to - 1] == 9 || part[to - 1] == 13)
        invariant
            from <= to <= n,
            n == part@.len(),
        decreases to,
    {
        to = to - 1;
    }
    crate::lexer::slice_bytes(part, from, to)
}

/// Whether a byte vector holds exactly the given ASCII literal.
fn bytes_are(part: &Vec<u8>, lit: &str) -> (r: bool) {
    let lb = lit.as_bytes_vec();
    crate::text::bytes_eq(part, &lb)
}

/// Parses one debugger input line of comma-separated `name=value`
/// settings: `help`, `print` (`regs` or `mem:start+len`), `n`,
/// `breakpoint` and `breakpoint_tag`, with the short names `p`, `bp` and
/// `bpt` accepted.  An empty line steps once.
pub fn parse_debug_command(line: &Vec<u8>) -> (r: Result<DebugCommand, crate::assembler::Error>) {
    let mut cmd = DebugCommand::step_once();
    let parts = split_commas(line);
    let mut i: usize = 0;
    while i < parts.len()
        decreases parts@.len() - i,
    {
        let part = trim_bytes(&parts[i]);
        if part.len() == 0 {
            i = i + 1;
            continue;
        }
        // Split at the first `=`.
        let mut eq: usize = 0;
        let m = part.len();
        while eq < m && part[eq] != 61
            invariant
                eq <= m,
                m == part@.len(),
            decreases m - eq,
        {
            eq = eq + 1;
        }
        if eq == m || eq == 0 || eq + 1 == m {
            return Err(crate::assembler::Error::new("expected `name=value`"));
        }
        let name = trim_bytes(&crate::lexer::slice_bytes(&part, 0, eq));
        let value = trim_bytes(&crate::lexer::slice_bytes(&part, eq + 1, m));
        if bytes_are(&name, "help") {
            if bytes_are(&value, "true") {
                cmd.help = true;
            } else if bytes_are(&value, "false") {
                cmd.help = false;
            } else {
                return Err(crate::assembler::Error::new("could not parse a boolean for `help`"));
            }
        } else if bytes_are(&name, "p") || bytes_are(&name, "print") {
            if bytes_are(&value, "regs") {
                cmd.print_regs = true;
            } else if value.len() >= 4 && value[0] == 109 && value[1] == 101 && value[2] == 109
                && value[3] == 58 {
                // `mem:start+len`
                let mut plus: usize = 4;
                let vm = value.len();
                while plus < vm && value[plus] != 43
                    invariant
                        plus <= vm,
                        vm == value@.len(),
                    decreases vm - plus,
                {
                    plus = plus + 1;
                }
                if plus == vm || plus == 4 || plus + 1 == vm {
                    return Err(
                        crate::assembler::Error::new("expected `print=mem:start+len`"),
                    );
                }
                let start_b = crate::lexer::slice_bytes(&value, 4, plus);
                let len_b = crate::lexer::slice_bytes(&value, plus + 1, vm);
                let start = match string_to_u32(&start_b) {
                    Some(v) => v,
                    None => {
                        return Err(
                            crate::assembler::Error::new("could not parse the slice start"),
                        );
                    },
                };
                let len = match string_to_u32(&len_b) {
                    Some(v) => v,
                    None => {
                        return Err(
                            crate::assembler::Error::new("could not parse the slice length"),
                        );
                    },
                };
                cmd.print_mem = Some((start, len));
            } else {
                return Err(crate::assembler::Error::new("expected `regs` or `mem:start+len`"));
            }
        } else if bytes_are(&name, "n") {
            match string_to_u32(&value) {
                Some(v) => {
                    cmd.n = v;
                },
                None => {
                    return Err(crate::assembler::Error::new("could not parse a number for `n`"));
                },
            }
        } else if bytes_are(&name, "bp") || bytes_are(&name, "breakpoint") {
            if bytes_are(&value, "true") {
                cmd.breakpoint = true;
            } else if bytes_are(&value, "false") {
                cmd.breakpoint = false;
            } else {
                return Err(
                    crate::assembler::Error::new("could not parse a boolean for `breakpoint`"),
                );
            }
        } else if bytes_are(&name, "bpt") || bytes_are(&name, "breakpoint_tag") {
            cmd.breakpoint_tag = Some(value);
        } else {
            return Err(crate::assembler::Error::new("invalid debugger setting"));
        }
        i = i + 1;
    }
    Ok(cmd)
}

/// The debugger's bookkeeping: the address-to-line map and, when given,
/// the source lines.
pub struct Debugger {
    pub line_mappings: Vec<(u32, u32)>,
    pub source: Option<Vec<Vec<u8>>>,
}

impl Debugger {
    /// A debugger with no debug information.
    pub fn new() -> (d: Debugger)
        ensures
            d.line_mappings@.len() == 0,
            d.source is None,
    {
        Debugger { line_mappings: Vec::new(), source: None }
    }

    /// A debugger over the records of a debug-info stream.
    pub fn with_debug_info_file(debug_info: &Vec<u8>) -> (d: Debugger)
        ensures
            d.line_mappings@ == debug_records(debug_info@, 0),
            d.source is None,
    {
        Debugger { line_mappings: parse_debug_records(debug_info), source: None }
    }

    /// A debugger over debug records and the source's lines.
    pub fn with_debug_info_and_source(debug_info: &Vec<u8>, source: &Vec<u8>) -> (d: Debugger)
        ensures
            d.line_mappings@ == debug_records(debug_info@, 0),
            d.source is Some,
    {
        Debugger {
            line_mappings: parse_debug_records(debug_info),
            source: Some(split_lines(source)),
        }
    }

    /// The source line bound to an address, when the debug info names
    /// one.
    pub fn line_for(&self, addr: u32) -> (r: Option<u32>)
        ensures
            r == spec_line_for(self.line_mappings@, addr),
    {
        let mut i: usize = self.line_mappings.len();
        proof {
            assert(self.line_mappings@.subrange(0, self.line_mappings@.len() as int)
                =~= self.line_mappings@);
        }
        loop
            invariant
                i <= self.line_mappings@.len(),
                spec_line_for(self.line_mappings@, addr) == spec_line_for(
                    self.line_mappings@.subrange(0, i as int),
                    addr,
                ),
            decreases i,
        {
            if i == 0 {
                proof {
                    assert(self.line_mappings@.subrange(0, 0) =~= Seq::<(u32, u32)>::empty());
                }
                return None;
            }
            i = i - 1;
            proof {
                assert(self.line_mappings@.subrange(0, i + 1).drop_last()
                    =~= self.line_mappings@.subrange(0, i as int));
            }
            if self.line_mappings[i].0 == addr {
                return Some(self.line_mappings[i].1);
            }
        }
    }
}

/// Reads the eight-byte records of a debug-info stream.
fn parse_debug_records(b: &Vec<u8>) -> (r: Vec<(u32, u32)>)
    ensures
        r@ == debug_records(b@, 0),
{
    parse_debug_records_from(b, 0)
}

/// Reads records from position `i` on.
fn parse_debug_records_from(b: &Vec<u8>, i: usize) -> (r: Vec<(u32, u32)>)
    requires
        i <= b@.len(),
    ensures
        r@ == debug_records(b@, i as int),
    decreases b@.len() - i,
{
    if b.len() < 8 || i > b.len() - 8 {
        let empty: Vec<(u32, u32)> = Vec::new();
        proof {
            assert(empty@ =~= Seq::<(u32, u32)>::empty());
        }
        return empty;
    }
    let addr = ((b[i] as u32) << 24) | ((b[i + 1] as u32) << 16) | ((b[i + 2] as u32) << 8) | (b[i
        + 3] as u32);
    let line = ((b[i + 4] as u32) << 24) | ((b[i + 5] as u32) << 16) | ((b[i + 6] as u32) << 8) | (
    b[i + 7] as u32);
    let mut rest = parse_debug_records_from(b, i + 8);
    let ghost prev = rest@;
    rest.insert(0, (addr, line));
    proof {
        assert(rest@ =~= seq![(addr, line)] + prev);
    }
    rest
}

/// Splits a byte text into its lines.
fn split_lines(b: &Vec<u8>) -> (r: Vec<Vec<u8>>) {
    let mut out: Vec<Vec<u8>> = Vec::new();
    let mut cur: Vec<u8> = Vec::new();
    let mut i: usize = 0;
    while i < b.len()
        invariant
            i <= b@.len(),
        decreases b@.len() - i,
    {
        let c = b[i];
        if c == 10 {
            out.push(cur);
            cur = Vec::new();
        } else {
            cur.push(c);
        }
        i = i + 1;
    }
    out.push(cur);
    out
}

/// Previews an operand without running it: the value the resolver would
/// read, computed without moving the instruction or stack pointer.
pub fn peek_arg(core: &ThreadCore, mem: &Memory, sp: u8) -> (v: u32)
    requires
        core.wf(),
        core.vm(*mem).wf(),
    ensures
        v == sread_arg(core.vm(*mem), sp).1,
{
    if sp == 0x7F {
        let addr = core.registers[crate::arch::REG_I as usize];
        read_word_checked(core, mem, addr)
    } else if sp & 0x40 != 0 {
        let addr = core.registers[crate::arch::REG_S as usize];
        read_word_checked(core, mem, addr)
    } else if (sp as u32) < crate::arch::NUM_REGS {
        core.registers[sp as usize]
    } else {
        0
    }
}

/// The word the resolver would read at `addr`: zero outside the window.
fn read_word_checked(core: &ThreadCore, mem: &Memory, addr: u32) -> (v: u32)
    requires
        core.wf(),
        core.vm(*mem).wf(),
    ensures
        v == crate::cpu::sread_u32(core.vm(*mem), addr).1,
{
    if addr >= core.access_min_addr && (addr as u64) + 4 <= (core.access_max_addr as u64) {
        mem.read_word(addr as usize)
    } else {
        0
    }
}

/// The name the debugger prints for an operand specifier.
pub fn arg_name(sp: u8) -> (s: String) {
    let mut s = String::new();
    if sp == 0x7F {
        s.append("literal");
    } else if sp & 0x40 != 0 {
        push_char(&mut s, '*');
    } else if sp == 48 {
        s.append("%I");
    } else if sp == 49 {
        s.append("%L");
    } else if sp == 50 {
        s.append("%S");
    } else if sp == 51 {
        s.append("%F");
    } else if sp == 52 {
        s.append("%D");
    } else if sp == 53 {
        s.append("%C");
    } else {
        push_char(&mut s, '%');
        let hi = (sp >> 4) as u32;
        let lo = (sp & 0xF) as u32;
        proof {
            assert((sp >> 4) < 16 && (sp & 0xF) < 16) by (bit_vector);
        }
        push_char(&mut s, if hi < 10 {
            ((48 + hi) as u8) as char
        } else {
            ((55 + hi) as u8) as char
        });
        push_char(&mut s, if lo < 10 {
            ((48 + lo) as u8) as char
        } else {
            ((55 + lo) as u8) as char
        });
    }
    s
}

} // verus!
