use vstd::prelude::*;
use crate::bus::{any_asserting, le_word, RESET_VECTOR, STACK_END, Device, MemoryBus, MMIO_BASE, ROM_SIZE, ranges_ok, mem_read_u8, read_agrees};
use crate::error::{CError, MemoryError, VMError};
use crate::machine::{step_spec, set_bit, get_bit, FLAG_HALT, CpuState, Machine, FLAG_INTERRUPT_PENDING, FLAG_INTERRUPT_DISABLED};

verus! {

/// The CPU with an interrupt request latched.
pub open spec fn latch(s: CpuState) -> CpuState {
    CpuState { flags: set_bit(s.flags, FLAG_INTERRUPT_PENDING, true), ..s }
}

/// What one host cycle does to the CPU and the fixed regions, as far as they
/// decide it: the CPU steps, and a request is latched when a device asks for
/// one (`latched`).
pub open spec fn cycle_agrees(
    o: Option<Result<(CpuState, Seq<u8>), VMError>>,
    r: Result<(), CError>,
    s2: CpuState,
    mem1: Seq<u8>,
    mem2: Seq<u8>,
    latched: bool,
) -> bool {
    match o {
        Some(Ok((s, m))) => r is Ok && mem2 == m && s2 == (if latched { latch(s) } else { s }),
        Some(Err(e)) => r == Err::<(), CError>(CError::VM(e)) && mem2 == mem1,
        None => true,
    }
}

pub open spec fn halted_spec(s: CpuState) -> bool {
    get_bit(s.flags, FLAG_HALT)
}

/// The CPU after reset over the fixed regions `mem`.
pub open spec fn reset_state(mem: Seq<u8>) -> CpuState {
    CpuState {
        regs: Seq::new(16, |i: int| 0u16),
        flags: FLAG_INTERRUPT_DISABLED,
        pc: le_word(mem[RESET_VECTOR as int], mem[RESET_VECTOR + 1]),
        sp: (STACK_END - 1) as u16,
    }
}

/// Running at most `n` steps from `s` with no device asking for interrupts:
/// stop after a step that sets Halt (`Ok(true)`), at the first failing step
/// (its error, with the CPU and memory as they were before it), or after `n`
/// steps (`Ok` of whether Halt is set). `None`: a step where a device answers.
pub open spec fn run_spec(s: CpuState, mem: Seq<u8>, ranges: Seq<(u16, u16)>, n: nat) -> Option<(Result<bool, VMError>, CpuState, Seq<u8>)>
    decreases n,
{
    if n == 0 {
        Some((Ok(halted_spec(s)), s, mem))
    } else {
        match step_spec(s, mem, ranges) {
            None => None,
            Some(Err(e)) => Some((Err(e), s, mem)),
            Some(Ok((s1, m1))) => if halted_spec(s1) {
                Some((Ok(true), s1, m1))
            } else {
                run_spec(s1, m1, ranges, (n - 1) as nat)
            },
        }
    }
}

/// The machine: a CPU and the bus that it drives.
pub struct Cupana<D: Device> {
    cpu: Machine,
    mem_bus: MemoryBus<D>,
    running: bool,
}

impl<D: Device> Cupana<D> {
    pub closed spec fn cpu_spec(&self) -> Machine {
        self.cpu
    }

    pub closed spec fn bus_spec(&self) -> MemoryBus<D> {
        self.mem_bus
    }

    pub open spec fn wf(&self) -> bool {
        self.bus_spec().wf()
    }

    pub fn new() -> (r: Self)
        ensures
            r.wf(),
            r.bus_spec().mem() == Seq::new(MMIO_BASE as nat, |i: int| 0u8),
            r.bus_spec().devices().len() == 0,
            r.cpu_spec()@.regs == Seq::new(16, |i: int| 0u16),
            r.cpu_spec().flags == FLAG_INTERRUPT_DISABLED,
            r.cpu_spec().pc == 0,
            r.cpu_spec().sp == STACK_END - 1,
    {
        Cupana { cpu: Machine::new(), mem_bus: MemoryBus::new(), running: false }
    }

    /// Loads a program image at the start of ROM.
    pub fn load_program(&mut self, program: &[u8]) -> (r: Result<(), MemoryError>)
        requires
            old(self).wf(),
        ensures
            final(self).wf(),
            final(self).cpu_spec() == old(self).cpu_spec(),
            final(self).bus_spec().devices() == old(self).bus_spec().devices(),
            program@.len() <= ROM_SIZE ==> r is Ok && final(self).bus_spec().mem() == program@ + old(
                self,
            ).bus_spec().mem().subrange(program@.len() as int, MMIO_BASE as int),
            program@.len() > ROM_SIZE ==> r == Err::<(), MemoryError>(
                MemoryError::InvalidRomSize(program@.len() as usize),
            ) && final(self).bus_spec().mem() == old(self).bus_spec().mem(),
    {
        self.mem_bus.load_rom_data(program)
    }

    /// Registers an MMIO device.
    pub fn register_device(&mut self, device: D) -> (r: Result<(), MemoryError>)
        requires
            old(self).wf(),
        ensures
            final(self).wf(),
            final(self).cpu_spec() == old(self).cpu_spec(),
            final(self).bus_spec().mem() == old(self).bus_spec().mem(),
            r is Ok <==> ranges_ok(old(self).bus_spec().ranges().push(device.range())),
            r is Ok ==> final(self).bus_spec().devices() == old(self).bus_spec().devices().push(device),
            r is Err ==> final(self).bus_spec().devices() == old(self).bus_spec().devices(),
    {
        self.mem_bus.add_device(device)
    }

    /// The CPU's current state.
    pub fn machine(&self) -> (r: Machine)
        ensures
            r == self.cpu_spec(),
    {
        self.cpu
    }

    /// Reads a byte through the bus, as the CPU would.
    pub fn read_u8(&mut self, addr: u16) -> (r: Result<u8, MemoryError>)
        requires
            old(self).wf(),
        ensures
            final(self).wf(),
            final(self).cpu_spec() == old(self).cpu_spec(),
            final(self).bus_spec().mem() == old(self).bus_spec().mem(),
            final(self).bus_spec().ranges() == old(self).bus_spec().ranges(),
            read_agrees(mem_read_u8(old(self).bus_spec().mem(), old(self).bus_spec().ranges(), addr), r),
    {
        self.mem_bus.read_u8(addr)
    }

    /// Resets the CPU from the reset vector.
    pub fn reset(&mut self) -> (r: Result<(), CError>)
        requires
            old(self).wf(),
        ensures
            final(self).wf(),
            final(self).bus_spec().mem() == old(self).bus_spec().mem(),
            final(self).bus_spec().devices() == old(self).bus_spec().devices(),
            r is Ok,
            final(self).cpu_spec()@.regs == Seq::new(16, |i: int| 0u16),
            final(self).cpu_spec().flags == FLAG_INTERRUPT_DISABLED,
            final(self).cpu_spec().sp == STACK_END - 1,
            final(self).cpu_spec().pc == le_word(
                old(self).bus_spec().mem()[RESET_VECTOR as int],
                old(self).bus_spec().mem()[RESET_VECTOR + 1],
            ),
    {
        match self.cpu.reset(&mut self.mem_bus) {
            Ok(()) => Ok(()),
            Err(e) => Err(CError::VM(e)),
        }
    }

    /// One host cycle: a CPU step, then every device polled once in
    /// registration order; any request latches one interrupt.
    pub fn cycle(&mut self) -> (r: Result<(), CError>)
        requires
            old(self).wf(),
        ensures
            final(self).wf(),
            final(self).bus_spec().ranges() == old(self).bus_spec().ranges(),
            final(self).bus_spec().devices().len() == old(self).bus_spec().devices().len(),
            cycle_agrees(
                step_spec(old(self).cpu_spec()@, old(self).bus_spec().mem(), old(self).bus_spec().ranges()),
                r,
                final(self).cpu_spec()@,
                old(self).bus_spec().mem(),
                final(self).bus_spec().mem(),
                any_asserting(final(self).bus_spec().devices()),
            ),
            r is Err ==> r->Err_0 is VM && final(self).cpu_spec() == old(self).cpu_spec(),
            old(self).bus_spec().devices().len() == 0 ==> !any_asserting(final(self).bus_spec().devices()),
    {
        match self.cpu.step(&mut self.mem_bus) {
            Ok(()) => {},
            Err(e) => {
                assert(self.mem_bus.devices().len() == self.mem_bus.ranges().len());
                return Err(CError::VM(e));
            },
        }
        assert(self.mem_bus.devices().len() == self.mem_bus.ranges().len());
        if self.mem_bus.poll_devices() {
            self.cpu.request_interrupt();
        }
        assert(self.mem_bus.devices().len() == self.mem_bus.ranges().len());
        Ok(())
    }

    /// Resets the CPU, then runs host cycles until the CPU halts or
    /// `max_cycles` cycles have run. `Ok(true)`: the CPU halted.
    pub fn run(&mut self, max_cycles: u64) -> (r: Result<bool, CError>)
        requires
            old(self).wf(),
        ensures
            final(self).wf(),
            r is Ok ==> r.unwrap() == (final(self).cpu_spec().flags & crate::machine::FLAG_HALT != 0),
            r is Err ==> r->Err_0 is VM,
            old(self).bus_spec().devices().len() == 0 && run_spec(
                reset_state(old(self).bus_spec().mem()),
                old(self).bus_spec().mem(),
                old(self).bus_spec().ranges(),
                max_cycles as nat,
            ) is Some ==> match run_spec(
                reset_state(old(self).bus_spec().mem()),
                old(self).bus_spec().mem(),
                old(self).bus_spec().ranges(),
                max_cycles as nat,
            ).unwrap() {
                (Ok(h), s, m) => r == Ok::<bool, CError>(h) && final(self).cpu_spec()@ == s && final(self).bus_spec().mem() == m,
                (Err(e), s, m) => r == Err::<bool, CError>(CError::VM(e)) && final(self).cpu_spec()@ == s
                    && final(self).bus_spec().mem() == m,
            },
    {
        let ghost m0 = self.mem_bus.mem();
        let ghost rg = self.mem_bus.ranges();
        let ghost no_devices = self.mem_bus.devices().len() == 0;
        self.running = true;
        self.reset()?;
        assert(self.cpu@ == reset_state(m0));
        let ghost total = run_spec(reset_state(m0), m0, rg, max_cycles as nat);
        let mut n: u64 = 0;
        while n < max_cycles
            invariant
                self.wf(),
                m0 == old(self).bus_spec().mem(),
                rg == old(self).bus_spec().ranges(),
                no_devices == (old(self).bus_spec().devices().len() == 0),
                total == run_spec(reset_state(m0), m0, rg, max_cycles as nat),
                self.mem_bus.ranges() == rg,
                no_devices ==> self.mem_bus.devices().len() == 0,
                n <= max_cycles,
                no_devices && total is Some ==> total == run_spec(
                    self.cpu@,
                    self.mem_bus.mem(),
                    rg,
                    (max_cycles - n) as nat,
                ),
            decreases max_cycles - n,
        {
            let ghost s_pre = self.cpu@;
            let ghost m_pre = self.mem_bus.mem();
            let ghost k = (max_cycles - n) as nat;
            let r = self.cycle();
            proof {
                if no_devices && total is Some {
                    assert(total == run_spec(s_pre, m_pre, rg, k));
                    assert(!any_asserting(self.mem_bus.devices()));
                    assert(step_spec(s_pre, m_pre, rg) is Some);
                }
            }
            match r {
                Err(e) => {
                    self.running = false;
                    proof {
                        if no_devices && total is Some {
                            let o = step_spec(s_pre, m_pre, rg)->Some_0;
                            assert(o is Err);
                            assert(total == Some::<(Result<bool, VMError>, CpuState, Seq<u8>)>((Err(o->Err_0), s_pre, m_pre)));
                            assert(self.cpu@ == s_pre);
                            assert(e == CError::VM(o->Err_0));
                        }
                    }
                    return Err(e);
                },
                Ok(()) => {},
            }
            n = n + 1;
            if self.cpu.halted() {
                self.running = false;
                proof {
                    if no_devices && total is Some {
                        let o = step_spec(s_pre, m_pre, rg)->Some_0;
                        assert(o is Ok);
                        assert(self.cpu@ == o->Ok_0.0);
                        assert(halted_spec(self.cpu@));
                        assert(total == Some::<(Result<bool, VMError>, CpuState, Seq<u8>)>((Ok(true), self.cpu@, self.mem_bus.mem())));
                    }
                }
                return Ok(true);
            }
        }
        let halted = self.cpu.halted();
        self.running = false;
        Ok(halted)
    }
}

} // verus!
