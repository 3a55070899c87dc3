//! Statistics of a simulation waveform (VCD) dump: clock edges, memory
//! accesses, completed instructions and the program counters visited.
//!
//! The `vcd` crate parses the dump; the statistics are computed and proved here.
use std::collections::HashMap;
use vcd::{Command, Parser};
use vstd::arithmetic::power2::{lemma_pow2_strictly_increases, lemma_pow2_unfold, pow2};
use vstd::prelude::*;

verus! {

/// A command of a VCD dump, as the analysis reads it. Identifier codes and
/// values are kept as their text in the dump: a scalar value or a vector is
/// the bytes of its `Display` text, one of `0`, `1`, `x`, `z` per bit, most
/// significant bit first.
#[derive(Debug, Clone)]
pub enum VcdCommand {
    /// `$var`: a variable's identifier code and its reference name.
    VarDef { code: String, reference: String },
    /// `$enddefinitions`: the end of the header.
    Enddefinitions,
    /// `#t`: a timestamp.
    Timestamp(u64),
    /// A change of a scalar variable.
    ChangeScalar { code: String, value: Vec<u8> },
    /// A change of a vector variable.
    ChangeVector { code: String, value: Vec<u8> },
    /// Any other command.
    Other,
}

/// What parsing `data` with the `vcd` crate gives: the header must parse
/// (`Parser::parse_header`), and then every command of the dump, from the
/// start, in order; or the message of the first failure.
pub uninterp spec fn vcd_commands(data: Seq<u8>) -> Result<Seq<VcdCommand>, Seq<char>>;

/// View of a parse result: the commands' sequence, or the message.
pub open spec fn parse_result_view(r: Result<Vec<VcdCommand>, String>) -> Result<Seq<VcdCommand>, Seq<char>> {
    match r {
        Ok(v) => Ok(v@),
        Err(m) => Err(m@),
    }
}

/// Parse `data` with `vcd::Parser`: `parse_header` must succeed on it, then
/// a second parser yields every command from the start, each converted to a
/// [`VcdCommand`] (codes and values by their `Display` text). The contract
/// says only that the result is the one [`vcd_commands`] names.
#[verifier::external_body]
fn parse_vcd(data: &[u8]) -> (r: Result<Vec<VcdCommand>, String>)
    ensures
        vcd_commands(data@) == parse_result_view(r),
{
    Parser::new(data).parse_header().map_err(|e| format!("Failed to parse VCD header: {}", e))?;
    let mut out = Vec::new();
    for c in Parser::new(data) {
        out.push(match c.map_err(|e| format!("Failed to parse VCD command: {}", e))? {
            Command::VarDef(_, _, c, reference, _) => VcdCommand::VarDef { code: c.to_string(), reference },
            Command::Enddefinitions => VcdCommand::Enddefinitions,
            Command::Timestamp(t) => VcdCommand::Timestamp(t),
            Command::ChangeScalar(c, v) => VcdCommand::ChangeScalar { code: c.to_string(), value: v.to_string().into_bytes() },
            Command::ChangeVector(c, v) => VcdCommand::ChangeVector { code: c.to_string(), value: v.to_string().into_bytes() },
            _ => VcdCommand::Other,
        });
    }
    Ok(out)
}

/// Summary statistics of a VCD dump.
#[derive(Debug)]
pub struct VcdStatistics {
    /// Rising edges of `clk`.
    pub total_cycles: u64,
    /// Rising edges of `instr_complete`.
    pub total_instructions: u64,
    /// Rising edges of `dmem_re`.
    pub memory_reads: u64,
    /// Rising edges of `dmem_we`.
    pub memory_writes: u64,
    /// Every value `debug_pc` took, ascending, each once.
    pub unique_pcs: Vec<u32>,
    /// Lowest and highest `debug_pc` value, or `(0, 0)` when none was below `0xFFFF_FFFF`.
    pub pc_range: (u32, u32),
    /// Rising edges of `clk` (as `total_cycles`).
    pub clock_transitions: u64,
    /// Largest timestamp.
    pub max_timestamp: u64,
    /// Executed instructions by kind; not collected, always empty.
    pub instruction_distribution: HashMap<String, u64>,
}

/// ASCII `0`.
pub open spec fn text_zero() -> Seq<u8> {
    seq![48u8]
}

/// ASCII `1`.
pub open spec fn text_one() -> Seq<u8> {
    seq![49u8]
}

/// Text of bit `i` of a vector (bit 0 is the last character).
pub open spec fn bit_at(bits: Seq<u8>, i: int) -> u8 {
    bits[bits.len() - 1 - i]
}

/// The character is `0` or `1`.
pub open spec fn is_known(b: u8) -> bool {
    b == 48 || b == 49
}

/// Value of the low `i` bits of a vector: each `1` at bit `k` adds `2^k`.
pub open spec fn low_bits(bits: Seq<u8>, i: nat) -> int
    decreases i,
{
    if i == 0 {
        0
    } else {
        low_bits(bits, (i - 1) as nat) + if bit_at(bits, i - 1) == 49 { pow2((i - 1) as nat) as int } else { 0 }
    }
}

/// The number a vector stands for, or `None` when a bit is neither `0` nor `1`.
pub open spec fn vector_value(bits: Seq<u8>) -> Option<u32> {
    if forall|k: int| 0 <= k < bits.len() ==> is_known(#[trigger] bits[k]) {
        Some(low_bits(bits, bits.len()) as u32)
    } else {
        None
    }
}

/// Scanning from bit 0 upward, a `1` at bit 32 or above comes before any
/// unknown bit: its value would not fit in 32 bits.
pub open spec fn scan_overflows(bits: Seq<u8>) -> bool {
    exists|i: int|
        32 <= i < bits.len() && #[trigger] bit_at(bits, i) == 49 && forall|j: int|
            0 <= j < i ==> is_known(#[trigger] bit_at(bits, j))
}

/// Convert a vector's text to the number it stands for.
fn vector_to_u32(bits: &Vec<u8>) -> (r: Option<u32>)
    requires
        !scan_overflows(bits@),
    ensures
        r == vector_value(bits@),
        r matches Some(v) ==> v == low_bits(bits@, bits@.len()),
{
    let n = bits.len();
    let mut result: u32 = 0;
    let mut i: usize = 0;
    proof {
        vstd::arithmetic::power2::lemma2_to64();
    }
    while i < n
        invariant
            i <= n,
            n == bits@.len(),
            !scan_overflows(bits@),
            forall|j: int| 0 <= j < i ==> is_known(#[trigger] bit_at(bits@, j)),
            result == low_bits(bits@, i as nat),
            i <= 32 ==> result < pow2(i as nat),
        decreases n - i,
    {
        let b = bits[n - 1 - i];
        proof {
            lemma_pow2_unfold((i + 1) as nat);
            if i < 32 {
                lemma_pow2_strictly_increases(i as nat, (i + 1) as nat);
            }
        }
        if b == 49 {
            if i >= 32 {
                assert(scan_overflows(bits@)) by {
                    assert(bit_at(bits@, i as int) == 49);
                }
            }
            let s: u32 = i as u32;
            proof {
                vstd::bits::lemma_u32_pow2_no_overflow(s as nat);
                vstd::bits::lemma_u32_shl_is_mul(1u32, s);
                assert(result < (1u32 << s) ==> (result | (1u32 << s)) == result + (1u32 << s)) by (bit_vector)
                    requires
                        s < 32,
                ;
            }
            result = result | (1u32 << s);
        } else if b != 48 {
            assert(!is_known(bits@[n - 1 - i]));
            return None;
        }
        i = i + 1;
    }
    assert forall|k: int| 0 <= k < bits@.len() implies is_known(#[trigger] bits@[k]) by {
        assert(is_known(bit_at(bits@, n - 1 - k)));
    }
    Some(result)
}

/// Index of the first `$enddefinitions` from index `i` on, or the length.
pub open spec fn header_end(cmds: Seq<VcdCommand>, i: int) -> int
    decreases cmds.len() - i,
{
    if i < 0 || i >= cmds.len() {
        cmds.len() as int
    } else if cmds[i] is Enddefinitions {
        i
    } else {
        header_end(cmds, i + 1)
    }
}

/// The header ends within the commands.
pub proof fn lemma_header_end_bounds(cmds: Seq<VcdCommand>, i: int)
    requires
        0 <= i,
    ensures
        i <= header_end(cmds, i) <= cmds.len() || (i > cmds.len() && header_end(cmds, i) == cmds.len()),
        header_end(cmds, i) <= cmds.len(),
    decreases cmds.len() - i,
{
    if i < cmds.len() && !(cmds[i] is Enddefinitions) {
        lemma_header_end_bounds(cmds, i + 1);
    }
}

/// Code of the last variable named `name` declared among the first `h` commands.
pub open spec fn signal_code(cmds: Seq<VcdCommand>, name: Seq<char>, h: int) -> Option<Seq<char>>
    decreases h,
{
    if h <= 0 {
        None
    } else {
        match cmds[h - 1] {
            VcdCommand::VarDef { code, reference } => if reference@ == name {
                Some(code@)
            } else {
                signal_code(cmds, name, h - 1)
            },
            _ => signal_code(cmds, name, h - 1),
        }
    }
}

/// Identifier codes of the signals the analysis follows.
pub struct VcdSignals {
    pub clk: Option<String>,
    pub dmem_we: Option<String>,
    pub dmem_re: Option<String>,
    pub instr_complete: Option<String>,
    pub debug_pc: Option<String>,
}

/// View of an optional code.
pub open spec fn code_view(c: Option<String>) -> Option<Seq<char>> {
    match c {
        Some(s) => Some(s@),
        None => None,
    }
}

/// The signals a dump declares in its header (the first `h` commands).
pub open spec fn signals_declared(sig: VcdSignals, cmds: Seq<VcdCommand>, h: int) -> bool {
    &&& code_view(sig.clk) == signal_code(cmds, "clk"@, h)
    &&& code_view(sig.dmem_we) == signal_code(cmds, "dmem_we"@, h)
    &&& code_view(sig.dmem_re) == signal_code(cmds, "dmem_re"@, h)
    &&& code_view(sig.instr_complete) == signal_code(cmds, "instr_complete"@, h)
    &&& code_view(sig.debug_pc) == signal_code(cmds, "debug_pc"@, h)
}

/// A change with identifier `code` is a change of signal `sig`.
pub open spec fn is_signal(sig: Option<Seq<char>>, code: Seq<char>) -> bool {
    sig == Some(code)
}

/// Running counts of the analysis.
pub struct Tally {
    pub clock: nat,
    pub reads: nat,
    pub writes: nat,
    pub instructions: nat,
    pub clock_low: bool,
    pub pcs: Set<u32>,
    pub pc_min: u32,
    pub pc_max: u32,
    pub max_timestamp: u64,
}

/// Counts before any value change: the clock is taken as low.
pub open spec fn initial_tally() -> Tally {
    Tally {
        clock: 0,
        reads: 0,
        writes: 0,
        instructions: 0,
        clock_low: true,
        pcs: Set::empty(),
        pc_min: u32::MAX,
        pc_max: 0,
        max_timestamp: 0,
    }
}

/// Counts after one command.
pub open spec fn tally_step(t: Tally, cmd: VcdCommand, s: VcdSignals) -> Tally {
    match cmd {
        VcdCommand::Timestamp(ts) => Tally { max_timestamp: if ts > t.max_timestamp { ts } else { t.max_timestamp }, ..t },
        VcdCommand::ChangeScalar { code, value } => {
            let high = value@ == text_one();
            let is_clk = is_signal(code_view(s.clk), code@);
            Tally {
                clock: if is_clk && t.clock_low && high { t.clock + 1 } else { t.clock },
                clock_low: if is_clk { value@ == text_zero() } else { t.clock_low },
                writes: if is_signal(code_view(s.dmem_we), code@) && high { t.writes + 1 } else { t.writes },
                reads: if is_signal(code_view(s.dmem_re), code@) && high { t.reads + 1 } else { t.reads },
                instructions: if is_signal(code_view(s.instr_complete), code@) && high {
                    t.instructions + 1
                } else {
                    t.instructions
                },
                ..t
            }
        },
        VcdCommand::ChangeVector { code, value } => {
            if is_signal(code_view(s.debug_pc), code@) && vector_value(value@) is Some {
                let pc = vector_value(value@).unwrap();
                Tally {
                    pcs: t.pcs.insert(pc),
                    pc_min: if pc < t.pc_min { pc } else { t.pc_min },
                    pc_max: if pc > t.pc_max { pc } else { t.pc_max },
                    ..t
                }
            } else {
                t
            }
        },
        _ => t,
    }
}

/// Counts after the commands from index `h` up to (not including) `n`.
pub open spec fn tally(cmds: Seq<VcdCommand>, s: VcdSignals, h: int, n: int) -> Tally
    decreases n - h,
{
    if n <= h {
        initial_tally()
    } else {
        tally_step(tally(cmds, s, h, n - 1), cmds[n - 1], s)
    }
}

/// No program-counter vector from index `h` on would overflow 32 bits.
pub open spec fn pc_vectors_fit(cmds: Seq<VcdCommand>, pc: Option<Seq<char>>, h: int) -> bool {
    forall|k: int|
        h <= k < cmds.len() ==> match #[trigger] cmds[k] {
            VcdCommand::ChangeVector { code, value } => is_signal(pc, code@) ==> !scan_overflows(value@),
            _ => true,
        }
}

/// The sequence is strictly ascending.
pub open spec fn strictly_ascending(s: Seq<u32>) -> bool {
    forall|i: int, j: int| 0 <= i < j < s.len() ==> s[i] < s[j]
}

/// Range of the program counters seen, from their ascending list: the
/// first and last, or `(0, 0)` when there are none or the lowest is
/// `0xFFFF_FFFF`.
pub open spec fn spec_pc_range(pcs: Seq<u32>) -> (u32, u32) {
    if pcs.len() == 0 || pcs[0] == u32::MAX {
        (0u32, 0u32)
    } else {
        (pcs[0], pcs.last())
    }
}

/// The statistics the counts give.
pub open spec fn statistics_match(r: VcdStatistics, t: Tally) -> bool {
    &&& r.total_cycles == t.clock
    &&& r.clock_transitions == t.clock
    &&& r.total_instructions == t.instructions
    &&& r.memory_reads == t.reads
    &&& r.memory_writes == t.writes
    &&& r.max_timestamp == t.max_timestamp
    &&& strictly_ascending(r.unique_pcs@)
    &&& forall|pc: u32| r.unique_pcs@.contains(pc) <==> t.pcs.contains(pc)
    &&& r.pc_range == (if t.pc_min == u32::MAX { (0u32, 0u32) } else { (t.pc_min, t.pc_max) })
    &&& r.pc_range == spec_pc_range(r.unique_pcs@)
    &&& r.instruction_distribution@ == Map::<String, u64>::empty()
}

/// The statistics of a command sequence: signals from the header, counts
/// over the commands after it.
pub open spec fn spec_statistics(r: VcdStatistics, cmds: Seq<VcdCommand>) -> bool {
    let h = header_end(cmds, 0);
    exists|s: VcdSignals| signals_declared(s, cmds, h) && statistics_match(r, #[trigger] tally(cmds, s, h + 1, cmds.len() as int))
}

/// Index of the first `$enddefinitions`, or the length.
fn find_header_end(cmds: &Vec<VcdCommand>) -> (r: usize)
    ensures
        r == header_end(cmds@, 0),
        r <= cmds@.len(),
{
    proof {
        lemma_header_end_bounds(cmds@, 0);
    }
    let mut i: usize = 0;
    while i < cmds.len()
        invariant
            i <= cmds@.len(),
            header_end(cmds@, 0) == header_end(cmds@, i as int),
        decreases cmds@.len() - i,
    {
        if let VcdCommand::Enddefinitions = &cmds[i] {
            return i;
        }
        i = i + 1;
    }
    i
}

/// Code of the last variable named `name` among the first `h` commands.
fn find_signal(cmds: &Vec<VcdCommand>, name: &str, h: usize) -> (r: Option<String>)
    requires
        h <= cmds@.len(),
    ensures
        code_view(r) == signal_code(cmds@, name@, h as int),
{
    let wanted = name.to_owned();
    let mut found: Option<String> = None;
    let mut i: usize = 0;
    while i < h
        invariant
            i <= h <= cmds@.len(),
            wanted@ == name@,
            code_view(found) == signal_code(cmds@, name@, i as int),
        decreases h - i,
    {
        if let VcdCommand::VarDef { code, reference } = &cmds[i] {
            if *reference == wanted {
                found = Some(code.clone());
            }
        }
        i = i + 1;
    }
    found
}

/// Whether change `code` belongs to signal `sig`.
fn signal_matches(sig: &Option<String>, code: &String) -> (r: bool)
    ensures
        r == is_signal(code_view(*sig), code@),
{
    match sig {
        Some(s) => *s == *code,
        None => false,
    }
}

/// Insert `x` into a strictly ascending vector, keeping it so.
fn insert_sorted(v: &mut Vec<u32>, x: u32)
    requires
        strictly_ascending(old(v)@),
    ensures
        strictly_ascending(final(v)@),
        forall|y: u32| final(v)@.contains(y) <==> (old(v)@.contains(y) || y == x),
        final(v)@.len() > 0,
        final(v)@[0] == (if old(v)@.len() == 0 || x < old(v)@[0] { x } else { old(v)@[0] }),
        final(v)@.last() == (if old(v)@.len() == 0 || x > old(v)@.last() { x } else { old(v)@.last() }),
{
    let mut j: usize = 0;
    while j < v.len() && v[j] < x
        invariant
            j <= v@.len(),
            v@ == old(v)@,
            forall|k: int| 0 <= k < j ==> v@[k] < x,
        decreases v@.len() - j,
    {
        j = j + 1;
    }
    if j < v.len() && v[j] == x {
        proof {
            assert(old(v)@[0] <= x);
            assert(x <= old(v)@.last());
        }
        return;
    }
    v.insert(j, x);
    proof {
        assert forall|y: u32| v@.contains(y) <==> (old(v)@.contains(y) || y == x) by {
            if old(v)@.contains(y) {
                let k = choose|k: int| 0 <= k < old(v)@.len() && old(v)@[k] == y;
                if k < j {
                    assert(v@[k] == y);
                } else {
                    assert(v@[k + 1] == y);
                }
            }
            if y == x {
                assert(v@[j as int] == x);
            }
            if v@.contains(y) {
                let k = choose|k: int| 0 <= k < v@.len() && v@[k] == y;
                if k < j {
                    assert(old(v)@[k] == y);
                } else if k > j {
                    assert(old(v)@[k - 1] == y);
                }
            }
        }
    }
}

/// Statistics of the commands of a dump.
///
/// The header is the commands before the first `$enddefinitions`; the
/// signals `clk`, `dmem_we`, `dmem_re`, `instr_complete` and `debug_pc` are
/// looked up there (the last declaration of a name wins), and the counts run
/// over the commands after it. Every `debug_pc` vector must fit in 32 bits.
pub fn analyze_commands(cmds: &Vec<VcdCommand>) -> (r: VcdStatistics)
    requires
        pc_vectors_fit(cmds@, signal_code(cmds@, "debug_pc"@, header_end(cmds@, 0)), header_end(cmds@, 0) + 1),
    ensures
        spec_statistics(r, cmds@),
{
    let h = find_header_end(cmds);
    let s = VcdSignals {
        clk: find_signal(cmds, "clk", h),
        dmem_we: find_signal(cmds, "dmem_we", h),
        dmem_re: find_signal(cmds, "dmem_re", h),
        instr_complete: find_signal(cmds, "instr_complete", h),
        debug_pc: find_signal(cmds, "debug_pc", h),
    };
    proof {
        reveal_strlit("clk");
        reveal_strlit("dmem_we");
        reveal_strlit("dmem_re");
        reveal_strlit("instr_complete");
        reveal_strlit("debug_pc");
    }
    let start: usize = if h < cmds.len() { h + 1 } else { h };
    let ghost hh: int = h as int + 1;
    let mut clock: u64 = 0;
    let mut reads: u64 = 0;
    let mut writes: u64 = 0;
    let mut instructions: u64 = 0;
    let mut clock_low = true;
    let mut pcs: Vec<u32> = Vec::new();
    let mut pc_min: u32 = u32::MAX;
    let mut pc_max: u32 = 0;
    let mut max_timestamp: u64 = 0;
    let mut i: usize = start;
    assert(tally(cmds@, s, hh, i as int) == initial_tally());
    while i < cmds.len()
        invariant
            start <= i <= cmds@.len(),
            start as int == (if h < cmds@.len() { hh } else { h as int }),
            signals_declared(s, cmds@, h as int),
            h == header_end(cmds@, 0),
            pc_vectors_fit(cmds@, code_view(s.debug_pc), hh),
            ({
                let t = tally(cmds@, s, hh, i as int);
                &&& clock == t.clock && reads == t.reads && writes == t.writes && instructions == t.instructions
                &&& clock_low == t.clock_low && pc_min == t.pc_min && pc_max == t.pc_max
                &&& max_timestamp == t.max_timestamp
                &&& strictly_ascending(pcs@)
                &&& pcs@.len() == 0 ==> pc_min == u32::MAX && pc_max == 0
                &&& pcs@.len() > 0 ==> pc_min == pcs@[0] && pc_max == pcs@.last()
                &&& forall|pc: u32| pcs@.contains(pc) <==> t.pcs.contains(pc)
                &&& t.clock <= i && t.reads <= i && t.writes <= i && t.instructions <= i
            }),
        decreases cmds@.len() - i,
    {
        match &cmds[i] {
            VcdCommand::Timestamp(ts) => {
                if *ts > max_timestamp {
                    max_timestamp = *ts;
                }
            },
            VcdCommand::ChangeScalar { code, value } => {
                let high = value.len() == 1 && value[0] == 49;
                let low = value.len() == 1 && value[0] == 48;
                assert(high == (value@ == text_one())) by {
                    if high {
                        assert(value@ =~= text_one());
                    }
                }
                assert(low == (value@ == text_zero())) by {
                    if low {
                        assert(value@ =~= text_zero());
                    }
                }
                if signal_matches(&s.clk, code) {
                    if clock_low && high {
                        clock = clock + 1;
                    }
                    clock_low = low;
                }
                if signal_matches(&s.dmem_we, code) && high {
                    writes = writes + 1;
                }
                if signal_matches(&s.dmem_re, code) && high {
                    reads = reads + 1;
                }
                if signal_matches(&s.instr_complete, code) && high {
                    instructions = instructions + 1;
                }
            },
            VcdCommand::ChangeVector { code, value } => {
                if signal_matches(&s.debug_pc, code) {
                    assert(!scan_overflows(value@)) by {
                        assert(hh <= i);
                    }
                    if let Some(pc) = vector_to_u32(value) {
                        insert_sorted(&mut pcs, pc);
                        if pc < pc_min {
                            pc_min = pc;
                        }
                        if pc > pc_max {
                            pc_max = pc;
                        }
                    }
                }
            },
            _ => {},
        }
        i = i + 1;
    }
    let pc_range = if pc_min == u32::MAX { (0u32, 0u32) } else { (pc_min, pc_max) };
    let r = VcdStatistics {
        total_cycles: clock,
        total_instructions: instructions,
        memory_reads: reads,
        memory_writes: writes,
        unique_pcs: pcs,
        pc_range,
        clock_transitions: clock,
        max_timestamp,
        instruction_distribution: HashMap::new(),
    };
    proof {
        if h >= cmds@.len() {
            assert(tally(cmds@, s, hh, cmds@.len() as int) == initial_tally());
        }
        assert(statistics_match(r, tally(cmds@, s, hh, cmds@.len() as int)));
    }
    r
}

/// Whether every `debug_pc` vector from index `from` on fits in 32 bits.
fn check_pc_vectors(cmds: &Vec<VcdCommand>, pc: &Option<String>, from: usize) -> (r: bool)
    ensures
        r == pc_vectors_fit(cmds@, code_view(*pc), from as int),
{
    let mut i: usize = from;
    while i < cmds.len()
        invariant
            from <= i,
            forall|k: int|
                from <= k < i && k < cmds@.len() ==> match #[trigger] cmds@[k] {
                    VcdCommand::ChangeVector { code, value } => is_signal(code_view(*pc), code@)
                        ==> !scan_overflows(value@),
                    _ => true,
                },
        decreases cmds@.len() - i,
    {
        if let VcdCommand::ChangeVector { code, value } = &cmds[i] {
            if signal_matches(pc, code) && vector_overflows(value) {
                assert(!pc_vectors_fit(cmds@, code_view(*pc), from as int)) by {
                    assert(match cmds@[i as int] {
                        VcdCommand::ChangeVector { code, value } => is_signal(code_view(*pc), code@)
                            ==> !scan_overflows(value@),
                        _ => true,
                    } == false);
                }
                return false;
            }
        }
        i = i + 1;
    }
    true
}

/// Whether scanning a vector from bit 0 upward meets a `1` at bit 32 or
/// above before any unknown bit.
fn vector_overflows(bits: &Vec<u8>) -> (r: bool)
    ensures
        r == scan_overflows(bits@),
{
    let n = bits.len();
    let mut i: usize = 0;
    while i < n
        invariant
            i <= n,
            n == bits@.len(),
            forall|j: int| 0 <= j < i ==> is_known(#[trigger] bit_at(bits@, j)),
            forall|j: int| 32 <= j < i ==> #[trigger] bit_at(bits@, j) != 49,
        decreases n - i,
    {
        let b = bits[n - 1 - i];
        if b == 49 && i >= 32 {
            assert(bit_at(bits@, i as int) == 49);
            return true;
        }
        if b != 48 && b != 49 {
            assert(!scan_overflows(bits@)) by {
                if scan_overflows(bits@) {
                    let w = choose|w: int|
                        32 <= w < bits@.len() && #[trigger] bit_at(bits@, w) == 49 && forall|j: int|
                            0 <= j < w ==> is_known(#[trigger] bit_at(bits@, j));
                    if w > i {
                        assert(is_known(bit_at(bits@, i as int)));
                    }
                }
            }
            return false;
        }
        i = i + 1;
    }
    false
}

/// Statistics of a VCD dump held in `data`.
///
/// Fails with the parser's message when the dump does not parse, and when a
/// `debug_pc` value does not fit in 32 bits.
pub fn analyze_vcd(data: &[u8]) -> (r: Result<VcdStatistics, String>)
    ensures
        match vcd_commands(data@) {
            Err(m) => r matches Err(e) && e@ == m,
            Ok(cmds) => {
                let h = header_end(cmds, 0);
                if pc_vectors_fit(cmds, signal_code(cmds, "debug_pc"@, h), h + 1) {
                    r matches Ok(stats) && spec_statistics(stats, cmds)
                } else {
                    r is Err
                }
            },
        },
{
    let cmds = match parse_vcd(data) {
        Ok(c) => c,
        Err(m) => {
            return Err(m);
        },
    };
    let h = find_header_end(&cmds);
    let pc = find_signal(&cmds, "debug_pc", h);
    let from: usize = if h < cmds.len() { h + 1 } else { h };
    if !check_pc_vectors(&cmds, &pc, from) {
        return Err("debug_pc value wider than 32 bits".to_owned());
    }
    Ok(analyze_commands(&cmds))
}

/// Number of changes, among commands `from .. to`, that set the scalar
/// signal with identifier `code` to `1`.
pub open spec fn count_rises_to_one(cmds: Seq<VcdCommand>, code: Option<Seq<char>>, from: int, to: int) -> nat
    decreases to - from,
{
    if to <= from {
        0
    } else {
        count_rises_to_one(cmds, code, from, to - 1) + match cmds[to - 1] {
            VcdCommand::ChangeScalar { code: c, value } => if code == Some(c@) && value@ == seq![49u8] {
                1nat
            } else {
                0nat
            },
            _ => 0nat,
        }
    }
}

/// The counts of the tally are those changes to `1`.
proof fn lemma_tally_counts(cmds: Seq<VcdCommand>, s: VcdSignals, h: int, n: int)
    ensures
        tally(cmds, s, h, n).writes == count_rises_to_one(cmds, code_view(s.dmem_we), h, n),
        tally(cmds, s, h, n).reads == count_rises_to_one(cmds, code_view(s.dmem_re), h, n),
        tally(cmds, s, h, n).instructions == count_rises_to_one(cmds, code_view(s.instr_complete), h, n),
    decreases n - h,
{
    if n > h {
        lemma_tally_counts(cmds, s, h, n - 1);
    }
}

/// Memory accesses and completed instructions of a dump: `memory_writes`
/// is the number of changes to `1` of the signal named `dmem_we` after the
/// header, `memory_reads` that of `dmem_re`, and `total_instructions` that
/// of `instr_complete` (each signal found by its name in the header).
pub proof fn lemma_statistics_count_named_signals(r: VcdStatistics, cmds: Seq<VcdCommand>)
    requires
        spec_statistics(r, cmds),
    ensures
        ({
            let h = header_end(cmds, 0);
            &&& r.memory_writes == count_rises_to_one(cmds, signal_code(cmds, "dmem_we"@, h), h + 1, cmds.len() as int)
            &&& r.memory_reads == count_rises_to_one(cmds, signal_code(cmds, "dmem_re"@, h), h + 1, cmds.len() as int)
            &&& r.total_instructions == count_rises_to_one(
                cmds,
                signal_code(cmds, "instr_complete"@, h),
                h + 1,
                cmds.len() as int,
            )
        }),
{
    let h = header_end(cmds, 0);
    let s = choose|s: VcdSignals|
        signals_declared(s, cmds, h) && statistics_match(r, #[trigger] tally(cmds, s, h + 1, cmds.len() as int));
    lemma_tally_counts(cmds, s, h + 1, cmds.len() as int);
}

} // verus!
