//! Hung-state detection for the simulated CPU: a PC that stops changing,
//! or an instruction that never completes.
use std::collections::VecDeque;
use vstd::prelude::*;

verus! {

/// Configuration of the hung-state detector.
#[derive(Debug, Clone, Copy)]
pub struct HungDetectorConfig {
    /// Number of recent PCs kept for reporting.
    pub pc_history_size: usize,
    /// Number of consecutive completions at one PC that counts as a hang.
    pub pc_stuck_threshold: u32,
    /// Most cycles one instruction may take before it counts as a hang.
    pub max_cycles_per_instruction: u64,
    /// Enable the stuck-PC check.
    pub enable_pc_loop_detection: bool,
    /// Enable the long-instruction check.
    pub enable_long_instruction_detection: bool,
}

/// The default configuration: history of 100, threshold 50, 10000 cycles
/// per instruction, both checks enabled.
pub open spec fn spec_default_config() -> HungDetectorConfig {
    HungDetectorConfig {
        pc_history_size: 100,
        pc_stuck_threshold: 50,
        max_cycles_per_instruction: 10000,
        enable_pc_loop_detection: true,
        enable_long_instruction_detection: true,
    }
}

impl Default for HungDetectorConfig {
    fn default() -> (c: Self)
        ensures
            c == spec_default_config(),
    {
        HungDetectorConfig {
            pc_history_size: 100,
            pc_stuck_threshold: 50,
            max_cycles_per_instruction: 10000,
            enable_pc_loop_detection: true,
            enable_long_instruction_detection: true,
        }
    }
}

/// A detected hang.
#[derive(Debug, Clone, PartialEq, Eq)]
pub enum HungStateError {
    /// The PC did not change for `count` consecutive completed instructions.
    PcStuck { pc: u32, instruction: u32, count: u32, history: Vec<u32> },
    /// The instruction at `pc` has run `cycle_count` cycles without completing.
    LongInstruction { pc: u32, instruction: u32, cycle_count: u64, fsm_state: u8 },
}

/// Name of a CPU FSM state number.
pub fn fsm_state_name(state: u8) -> (r: &'static str)
    ensures
        state == 0 ==> r@ == "IDLE"@,
        state == 1 ==> r@ == "FETCH"@,
        state == 2 ==> r@ == "DECODE"@,
        state == 3 ==> r@ == "EXECUTE"@,
        state == 4 ==> r@ == "MEM_ADDR"@,
        state == 5 ==> r@ == "MEM_READ"@,
        state == 6 ==> r@ == "MEM_WRITE"@,
        state == 7 ==> r@ == "WRITEBACK"@,
        state == 8 ==> r@ == "BRANCH"@,
        state == 9 ==> r@ == "CSR"@,
        state == 10 ==> r@ == "HALT"@,
        state == 11 ==> r@ == "ATOMIC_RMW"@,
        state > 11 ==> r@ == "UNKNOWN"@,
{
    match state {
        0 => "IDLE",
        1 => "FETCH",
        2 => "DECODE",
        3 => "EXECUTE",
        4 => "MEM_ADDR",
        5 => "MEM_READ",
        6 => "MEM_WRITE",
        7 => "WRITEBACK",
        8 => "BRANCH",
        9 => "CSR",
        10 => "HALT",
        11 => "ATOMIC_RMW",
        _ => "UNKNOWN",
    }
}

/// Abstract state of the detector.
pub struct HungDetectorView {
    pub config: HungDetectorConfig,
    pub pc_history: Seq<u32>,
    pub last_pc: Option<u32>,
    pub pc_stuck_count: u32,
    pub current_instruction_pc: Option<u32>,
    pub current_instruction_word: u32,
    pub current_instruction_start_cycle: u64,
}

/// Outcome of a check, with the history carried as a sequence.
pub enum HangCheck {
    NoHang,
    PcStuck { pc: u32, instruction: u32, count: u32, history: Seq<u32> },
    LongInstruction { pc: u32, instruction: u32, cycle_count: u64, fsm_state: u8 },
}

/// The outcome a check result stands for.
pub open spec fn spec_outcome(r: Result<(), HungStateError>) -> HangCheck {
    match r {
        Ok(()) => HangCheck::NoHang,
        Err(HungStateError::PcStuck { pc, instruction, count, history }) => HangCheck::PcStuck {
            pc,
            instruction,
            count,
            history: history@,
        },
        Err(HungStateError::LongInstruction { pc, instruction, cycle_count, fsm_state }) =>
            HangCheck::LongInstruction { pc, instruction, cycle_count, fsm_state },
    }
}

/// Detector state with all tracking cleared.
pub open spec fn spec_cleared(config: HungDetectorConfig) -> HungDetectorView {
    HungDetectorView {
        config,
        pc_history: Seq::empty(),
        last_pc: None,
        pc_stuck_count: 0,
        current_instruction_pc: None,
        current_instruction_word: 0,
        current_instruction_start_cycle: 0,
    }
}

/// History after recording `pc`, keeping at most `pc_history_size` entries.
pub open spec fn spec_record_pc(s: HungDetectorView, pc: u32) -> Seq<u32> {
    let h = s.pc_history.push(pc);
    if h.len() > s.config.pc_history_size { h.drop_first() } else { h }
}

/// Stuck-PC check for a completed instruction at `pc`.
pub open spec fn spec_check_pc_loop(s: HungDetectorView, pc: u32, instruction: u32) -> (
    HangCheck,
    HungDetectorView,
) {
    let history = spec_record_pc(s, pc);
    if s.last_pc == Some(pc) {
        let count = (s.pc_stuck_count + 1) as u32;
        if count >= s.config.pc_stuck_threshold {
            (
                HangCheck::PcStuck { pc, instruction, count, history },
                HungDetectorView { pc_history: history, pc_stuck_count: count, ..s },
            )
        } else {
            (
                HangCheck::NoHang,
                HungDetectorView {
                    pc_history: history,
                    pc_stuck_count: count,
                    last_pc: Some(pc),
                    ..s
                },
            )
        }
    } else {
        (
            HangCheck::NoHang,
            HungDetectorView { pc_history: history, pc_stuck_count: 1, last_pc: Some(pc), ..s },
        )
    }
}

/// Long-instruction check for the current cycle.
pub open spec fn spec_check_long(
    s: HungDetectorView,
    cycle_count: u64,
    pc: u32,
    instruction: u32,
    fsm_state: u8,
) -> (HangCheck, HungDetectorView) {
    match s.current_instruction_pc {
        Some(instr_pc) => {
            let cycles = if cycle_count >= s.current_instruction_start_cycle {
                (cycle_count - s.current_instruction_start_cycle) as u64
            } else {
                0u64
            };
            if cycles > s.config.max_cycles_per_instruction {
                (
                    HangCheck::LongInstruction {
                        pc: instr_pc,
                        instruction: s.current_instruction_word,
                        cycle_count: cycles,
                        fsm_state,
                    },
                    s,
                )
            } else {
                (HangCheck::NoHang, s)
            }
        },
        None => (
            HangCheck::NoHang,
            HungDetectorView {
                current_instruction_pc: Some(pc),
                current_instruction_word: instruction,
                current_instruction_start_cycle: cycle_count,
                ..s
            },
        ),
    }
}

/// One cycle of checking: on completion the instruction tracking restarts
/// and the stuck-PC check runs (when enabled); then the long-instruction
/// check runs (when enabled).
pub open spec fn spec_check_cycle(
    s: HungDetectorView,
    cycle_count: u64,
    pc: u32,
    instruction: u32,
    fsm_state: u8,
    instruction_complete: bool,
) -> (HangCheck, HungDetectorView) {
    let s1 = if instruction_complete {
        HungDetectorView {
            current_instruction_pc: None,
            current_instruction_start_cycle: cycle_count,
            ..s
        }
    } else {
        s
    };
    let (r2, s2) = if instruction_complete && s.config.enable_pc_loop_detection {
        spec_check_pc_loop(s1, pc, instruction)
    } else {
        (HangCheck::NoHang, s1)
    };
    if !(r2 is NoHang) {
        (r2, s2)
    } else if s.config.enable_long_instruction_detection {
        spec_check_long(s2, cycle_count, pc, instruction, fsm_state)
    } else {
        (HangCheck::NoHang, s2)
    }
}

/// Outcome and state after `k` cycles that each complete the instruction
/// `instruction` at `pc` (cycle `i` numbered `i`).
pub open spec fn repeat_completion(s: HungDetectorView, pc: u32, instruction: u32, k: nat) -> (
    HangCheck,
    HungDetectorView,
)
    decreases k,
{
    if k == 0 {
        (HangCheck::NoHang, s)
    } else {
        spec_check_cycle(repeat_completion(s, pc, instruction, (k - 1) as nat).1, k as u64, pc, instruction, 0, true)
    }
}

/// With stuck-PC detection enabled and a threshold `t` of at least two, a
/// freshly cleared detector that sees the same PC complete over and over
/// stays quiet for the first `t - 1` completions, counting them, and
/// reports that PC as stuck, with count `t`, at the `t`-th.
pub proof fn lemma_stuck_pc_reported_at_threshold(config: HungDetectorConfig, pc: u32, instruction: u32, k: nat)
    requires
        config.enable_pc_loop_detection,
        2 <= config.pc_stuck_threshold,
        1 <= k <= config.pc_stuck_threshold,
    ensures
        ({
            let (r, s) = repeat_completion(spec_cleared(config), pc, instruction, k);
            &&& k < config.pc_stuck_threshold ==> r is NoHang && s.pc_stuck_count == k && s.last_pc == Some(pc)
                && s.config == config
            &&& k == config.pc_stuck_threshold ==> (r matches HangCheck::PcStuck { pc: p, count, .. } && p == pc
                && count == config.pc_stuck_threshold)
        }),
    decreases k,
{
    if k > 1 {
        lemma_stuck_pc_reported_at_threshold(config, pc, instruction, (k - 1) as nat);
    }
    let prev = repeat_completion(spec_cleared(config), pc, instruction, (k - 1) as nat).1;
    assert(prev.config == config);
    assert(k > 1 ==> prev.last_pc == Some(pc) && prev.pc_stuck_count == k - 1);
    assert(k == 1 ==> prev == spec_cleared(config));
    let s1 = HungDetectorView { current_instruction_pc: None, current_instruction_start_cycle: k as u64, ..prev };
    let (r2, s2) = spec_check_pc_loop(s1, pc, instruction);
    assert(k < config.pc_stuck_threshold ==> r2 is NoHang && s2.pc_stuck_count == k && s2.last_pc == Some(pc)
        && s2.current_instruction_pc is None);
    assert(repeat_completion(spec_cleared(config), pc, instruction, k) == spec_check_cycle(prev, k as u64, pc, instruction, 0, true));
}

/// Long-instruction reports measure each instruction from the cycle its
/// tracking began, not from the start of the run:
/// - a cycle reports `LongInstruction` only when no instruction completed
///   in it, an instruction is being tracked from some start cycle, and more
///   than `max_cycles_per_instruction` cycles have passed since that start;
///   the report carries the tracked PC and instruction word and, as its
///   cycle count, the cycles since that start;
/// - when a check finds no hang and the instruction tracking was idle or
///   an instruction completed this cycle, tracking of `pc` restarts at this
///   cycle (with long-instruction detection enabled).
///
/// So a program that completes an instruction at least once every
/// `max_cycles_per_instruction` cycles is never reported, however long it
/// runs.
pub proof fn lemma_long_instruction_measured_from_its_start(
    s: HungDetectorView,
    cycle_count: u64,
    pc: u32,
    instruction: u32,
    fsm_state: u8,
    instruction_complete: bool,
)
    ensures
        ({
            let (r, s2) = spec_check_cycle(s, cycle_count, pc, instruction, fsm_state, instruction_complete);
            &&& (r matches HangCheck::LongInstruction { pc: p, instruction: w, cycle_count: n, .. } ==> {
                &&& !instruction_complete
                &&& s.current_instruction_pc == Some(p)
                &&& w == s.current_instruction_word
                &&& s.current_instruction_start_cycle <= cycle_count
                &&& n == cycle_count - s.current_instruction_start_cycle
                &&& n > s.config.max_cycles_per_instruction
            })
            &&& (r is NoHang && s.config.enable_long_instruction_detection && (instruction_complete
                || s.current_instruction_pc is None)) ==> s2.current_instruction_pc == Some(pc)
                && s2.current_instruction_start_cycle == cycle_count
            &&& (!instruction_complete && s.current_instruction_pc is Some) ==> s2.current_instruction_pc
                == s.current_instruction_pc && s2.current_instruction_start_cycle == s.current_instruction_start_cycle
        }),
{
}

/// Hung-state detector.
pub struct HungDetector {
    config: HungDetectorConfig,
    pc_history: VecDeque<u32>,
    last_pc: Option<u32>,
    pc_stuck_count: u32,
    current_instruction_pc: Option<u32>,
    current_instruction_word: u32,
    current_instruction_start_cycle: u64,
}

impl View for HungDetector {
    type V = HungDetectorView;

    closed spec fn view(&self) -> HungDetectorView {
        HungDetectorView {
            config: self.config,
            pc_history: self.pc_history@,
            last_pc: self.last_pc,
            pc_stuck_count: self.pc_stuck_count,
            current_instruction_pc: self.current_instruction_pc,
            current_instruction_word: self.current_instruction_word,
            current_instruction_start_cycle: self.current_instruction_start_cycle,
        }
    }
}

impl HungDetector {
    /// Create a detector with the given configuration and no tracking state.
    pub fn new(config: HungDetectorConfig) -> (d: Self)
        ensures
            d@ == spec_cleared(config),
    {
        HungDetector {
            pc_history: VecDeque::new(),
            config,
            last_pc: None,
            pc_stuck_count: 0,
            current_instruction_pc: None,
            current_instruction_word: 0,
            current_instruction_start_cycle: 0,
        }
    }

    /// Create a detector with the default configuration.
    pub fn new_default() -> (d: Self)
        ensures
            d@ == spec_cleared(spec_default_config()),
    {
        Self::new(HungDetectorConfig::default())
    }

    /// Number of consecutive completions seen at the last PC.
    pub fn pc_stuck_count(&self) -> (r: u32)
        ensures
            r == self@.pc_stuck_count,
    {
        self.pc_stuck_count
    }

    /// The recent PC history, oldest first.
    pub fn pc_history(&self) -> (r: Vec<u32>)
        ensures
            r@ == self@.pc_history,
    {
        let mut out: Vec<u32> = Vec::new();
        let mut i: usize = 0;
        while i < self.pc_history.len()
            invariant
                i <= self.pc_history@.len(),
                out@ == self.pc_history@.subrange(0, i as int),
            decreases self.pc_history@.len() - i,
        {
            out.push(self.pc_history[i]);
            i = i + 1;
            assert(out@ =~= self.pc_history@.subrange(0, i as int));
        }
        assert(self.pc_history@.subrange(0, i as int) =~= self.pc_history@);
        out
    }

    /// The last PC recorded by the stuck-PC check.
    pub fn last_pc(&self) -> (r: Option<u32>)
        ensures
            r == self@.last_pc,
    {
        self.last_pc
    }

    /// Check for a hang on this cycle.
    ///
    /// `instruction_complete` tells whether an instruction completed this
    /// cycle; `pc`, `instruction` and `fsm_state` describe the instruction
    /// being executed.
    pub fn check_cycle(
        &mut self,
        cycle_count: u64,
        pc: u32,
        instruction: u32,
        fsm_state: u8,
        instruction_complete: bool,
    ) -> (r: Result<(), HungStateError>)
        requires
            old(self)@.pc_stuck_count < u32::MAX,
        ensures
            (spec_outcome(r), final(self)@) == spec_check_cycle(
                old(self)@,
                cycle_count,
                pc,
                instruction,
                fsm_state,
                instruction_complete,
            ),
    {
        if instruction_complete {
            self.current_instruction_pc = None;
            self.current_instruction_start_cycle = cycle_count;
            if self.config.enable_pc_loop_detection {
                let r = self.check_pc_loop(pc, instruction);
                if r.is_err() {
                    return r;
                }
            }
        }
        if self.config.enable_long_instruction_detection {
            match self.current_instruction_pc {
                Some(instr_pc) => {
                    let cycles_for_this_instruction = cycle_count.saturating_sub(
                        self.current_instruction_start_cycle,
                    );
                    if cycles_for_this_instruction > self.config.max_cycles_per_instruction {
                        return Err(
                            HungStateError::LongInstruction {
                                pc: instr_pc,
                                instruction: self.current_instruction_word,
                                cycle_count: cycles_for_this_instruction,
                                fsm_state,
                            },
                        );
                    }
                },
                None => {
                    self.current_instruction_pc = Some(pc);
                    self.current_instruction_word = instruction;
                    self.current_instruction_start_cycle = cycle_count;
                },
            }
        }
        Ok(())
    }

    /// Record a completed instruction at `pc` and check whether the PC is stuck.
    fn check_pc_loop(&mut self, pc: u32, instruction: u32) -> (r: Result<(), HungStateError>)
        requires
            old(self)@.pc_stuck_count < u32::MAX,
        ensures
            (spec_outcome(r), final(self)@) == spec_check_pc_loop(old(self)@, pc, instruction),
    {
        self.pc_history.push_back(pc);
        if self.pc_history.len() > self.config.pc_history_size {
            self.pc_history.pop_front();
        }
        proof {
            assert(self.pc_history@ =~= spec_record_pc(old(self)@, pc));
        }
        let same = match self.last_pc {
            Some(last) => last == pc,
            None => false,
        };
        if same {
            self.pc_stuck_count = self.pc_stuck_count + 1;
            if self.pc_stuck_count >= self.config.pc_stuck_threshold {
                let history = self.pc_history();
                return Err(
                    HungStateError::PcStuck { pc, instruction, count: self.pc_stuck_count, history },
                );
            }
        } else {
            self.pc_stuck_count = 1;
        }
        self.last_pc = Some(pc);
        Ok(())
    }

    /// Clear all tracking state; the configuration is kept.
    pub fn reset(&mut self)
        ensures
            final(self)@ == spec_cleared(old(self)@.config),
    {
        self.pc_history.clear();
        self.last_pc = None;
        self.pc_stuck_count = 0;
        self.current_instruction_pc = None;
        self.current_instruction_word = 0;
        self.current_instruction_start_cycle = 0;
    }
}

} // verus!
