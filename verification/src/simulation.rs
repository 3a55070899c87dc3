//! Decisions of a simulation driver around the CPU model: when a run
//! ends and with what result, when the boot sequence fails, when a cycle
//! is checked for a hung CPU, and when a delayed memory response is due.
//!
//! The driver steps the CPU model and hands each outcome to these
//! functions, which decide what happens next.
use vstd::prelude::*;

verus! {

/// Most clock cycles any boot phase may take.
pub const BOOT_TIMEOUT_CYCLES: u32 = 10_000;

/// Bit of the system controller's STATUS register that is set while the
/// CPU waits to be booted.
pub const STATUS_CPU_BOOTING: u32 = 1;

/// Errors of the reset and boot sequence.
#[derive(Debug, Clone, PartialEq, Eq)]
pub enum BootError {
    /// A boot phase did not finish within its cycle budget.
    Timeout { phase: &'static str, cycles: u32 },
    /// The CPU is not waiting to be booted.
    UnexpectedStatus { status: u32 },
}

/// Result of stepping a single clock cycle.
#[derive(Debug, Clone, Copy, PartialEq, Eq)]
pub struct SimulationStepCycleResult {
    pub instruction_completed: bool,
    /// TOHOST value acknowledged in this cycle, if the program wrote one.
    pub tohost_value: Option<u32>,
    pub elapsed_cpu_time_us: u64,
}

/// Result of a simulation run.
#[derive(Debug, Clone, Copy, PartialEq, Eq)]
pub struct SimulationResult {
    pub cycles: u64,
    pub tohost_value: Option<u32>,
    pub elapsed_cpu_time_us: u64,
}

/// Decide after boot cycle `cycle` (counted from zero) of `phase`, given
/// whether the awaited condition now holds: `Ok(true)` when it does, a
/// timeout after the last of the `BOOT_TIMEOUT_CYCLES` cycles, `Ok(false)`
/// to go on.
pub fn boot_wait_step(phase: &'static str, cycle: u32, done: bool) -> (r: Result<bool, BootError>)
    ensures
        done ==> r == Ok::<bool, BootError>(true),
        !done && cycle == BOOT_TIMEOUT_CYCLES - 1 ==> r == Err::<bool, BootError>(
            BootError::Timeout { phase, cycles: BOOT_TIMEOUT_CYCLES },
        ),
        !done && cycle != BOOT_TIMEOUT_CYCLES - 1 ==> r == Ok::<bool, BootError>(false),
{
    if done {
        Ok(true)
    } else if cycle == BOOT_TIMEOUT_CYCLES - 1 {
        Err(BootError::Timeout { phase, cycles: BOOT_TIMEOUT_CYCLES })
    } else {
        Ok(false)
    }
}

/// Check the system controller's STATUS before booting: the CPU must be
/// waiting to be booted.
pub fn check_boot_status(status: u32) -> (r: Result<(), BootError>)
    ensures
        (status & STATUS_CPU_BOOTING) != 0 ==> r is Ok,
        (status & STATUS_CPU_BOOTING) == 0 ==> r == Err::<(), BootError>(BootError::UnexpectedStatus { status }),
{
    if (status & STATUS_CPU_BOOTING) == 0 {
        Err(BootError::UnexpectedStatus { status })
    } else {
        Ok(())
    }
}

/// Bookkeeping of a run: the host time its cycles took so far.
pub struct SimulationRun {
    total_elapsed_us: u64,
}

impl View for SimulationRun {
    type V = u64;

    /// Host time, in microseconds, spent on the cycles stepped so far.
    closed spec fn view(&self) -> u64 {
        self.total_elapsed_us
    }
}

impl SimulationRun {
    /// A run with no cycle stepped yet.
    pub fn new() -> (r: Self)
        ensures
            r@ == 0,
    {
        SimulationRun { total_elapsed_us: 0 }
    }

    /// Whether the run steps another cycle: only below `max_cycles`.
    pub fn should_continue(cycle_count: u64, max_cycles: u64) -> (r: bool)
        ensures
            r == (cycle_count < max_cycles),
    {
        cycle_count < max_cycles
    }

    /// Account for one stepped cycle, after which `cycle_count` cycles have
    /// run. When the cycle acknowledged a TOHOST value the run ends: the
    /// result has that value, the cycle count and the time so far.
    pub fn record_step(&mut self, cycle_count: u64, step: &SimulationStepCycleResult) -> (r: Option<
        SimulationResult,
    >)
        ensures
            final(self)@ == old(self)@.saturating_add(step.elapsed_cpu_time_us),
            step.tohost_value is None ==> r is None,
            step.tohost_value is Some ==> r == Some(
                SimulationResult {
                    cycles: cycle_count,
                    tohost_value: step.tohost_value,
                    elapsed_cpu_time_us: final(self)@,
                },
            ),
    {
        self.total_elapsed_us = self.total_elapsed_us.saturating_add(step.elapsed_cpu_time_us);
        match step.tohost_value {
            Some(v) => Some(
                SimulationResult {
                    cycles: cycle_count,
                    tohost_value: Some(v),
                    elapsed_cpu_time_us: self.total_elapsed_us,
                },
            ),
            None => None,
        }
    }

    /// The result of a run that stopped at `cycle_count` cycles without a
    /// TOHOST value.
    pub fn finish(&self, cycle_count: u64) -> (r: SimulationResult)
        ensures
            r == (SimulationResult { cycles: cycle_count, tohost_value: None, elapsed_cpu_time_us: self@ }),
    {
        SimulationResult { cycles: cycle_count, tohost_value: None, elapsed_cpu_time_us: self.total_elapsed_us }
    }
}

impl Default for SimulationRun {
    fn default() -> (r: Self)
        ensures
            r@ == 0,
    {
        Self::new()
    }
}

/// Whether a cycle is checked for a hung CPU: not while the CPU waits to
/// be booted, and not once it has halted (a halt is final).
pub fn hung_check_applies(cpu_booting: u8, halted: u8) -> (r: bool)
    ensures
        r == (cpu_booting == 0 && halted == 0),
{
    cpu_booting == 0 && halted == 0
}

/// A response accepted at cycle `accepted_cycle` is due at `cycle_count`
/// once `mem_latency_cycles` cycles have passed since.
pub open spec fn spec_response_due(cycle_count: u64, accepted_cycle: u64, mem_latency_cycles: u32) -> bool {
    cycle_count >= accepted_cycle + mem_latency_cycles
}

/// Memory responses held back by a fixed latency: at most one response
/// waits, and no new request is taken while it does.
pub struct LatencyGate<T> {
    mem_latency_cycles: u32,
    pending: Option<(T, u64)>,
}

/// Abstract state of a latency gate.
pub struct LatencyGateView<T> {
    pub mem_latency_cycles: u32,
    /// The waiting response and the cycle it was accepted at.
    pub pending: Option<(T, u64)>,
}

impl<T> View for LatencyGate<T> {
    type V = LatencyGateView<T>;

    closed spec fn view(&self) -> LatencyGateView<T> {
        LatencyGateView { mem_latency_cycles: self.mem_latency_cycles, pending: self.pending }
    }
}

impl<T> LatencyGate<T> {
    /// A gate that delays each response by `mem_latency_cycles` cycles,
    /// holding none yet.
    pub fn new(mem_latency_cycles: u32) -> (g: Self)
        ensures
            g@.mem_latency_cycles == mem_latency_cycles,
            g@.pending is None,
    {
        LatencyGate { mem_latency_cycles, pending: None }
    }

    /// Whether a new request may be taken: no response is waiting.
    pub fn can_accept(&self) -> (r: bool)
        ensures
            r == (self@.pending is None),
    {
        self.pending.is_none()
    }

    /// At cycle `cycle_count`, hand out the waiting response if its latency
    /// has passed; otherwise keep it.
    pub fn release(&mut self, cycle_count: u64) -> (r: Option<T>)
        ensures
            final(self)@.mem_latency_cycles == old(self)@.mem_latency_cycles,
            match old(self)@.pending {
                Some((resp, accepted)) => if spec_response_due(cycle_count, accepted, old(self)@.mem_latency_cycles) {
                    r == Some(resp) && final(self)@.pending is None
                } else {
                    r is None && final(self)@.pending == old(self)@.pending
                },
                None => r is None && final(self)@.pending is None,
            },
    {
        let due = match &self.pending {
            Some((_, accepted)) => cycle_count >= *accepted && cycle_count - *accepted >= self.mem_latency_cycles as u64,
            None => false,
        };
        if due {
            match self.pending.take() {
                Some((resp, _)) => Some(resp),
                None => None,
            }
        } else {
            None
        }
    }

    /// Take the response to a request accepted at `cycle_count`: with a
    /// latency of zero it is returned to be completed at once, else it is
    /// held until [`LatencyGate::release`] finds it due.
    pub fn accept(&mut self, response: T, cycle_count: u64) -> (r: Option<T>)
        requires
            old(self)@.pending is None,
        ensures
            final(self)@.mem_latency_cycles == old(self)@.mem_latency_cycles,
            old(self)@.mem_latency_cycles == 0 ==> r == Some(response) && final(self)@.pending is None,
            old(self)@.mem_latency_cycles > 0 ==> r is None && final(self)@.pending == Some((response, cycle_count)),
    {
        if self.mem_latency_cycles > 0 {
            self.pending = Some((response, cycle_count));
            None
        } else {
            Some(response)
        }
    }
}

} // verus!
