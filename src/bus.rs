use vstd::prelude::*;
use crate::error::MemoryError;

verus! {

pub const ROM_BASE: u16 = 0x0000;
pub const ROM_SIZE: u16 = 0x8000;
pub const ROM_END: u16 = 0x7FFF;

pub const RAM_BASE: u16 = 0x8000;
pub const RAM_SIZE: u16 = 0x6000;
pub const RAM_END: u16 = 0xDFFF;

pub const STACK_BASE: u16 = 0xE000;
pub const STACK_SIZE: u16 = 0x1000;
pub const STACK_END: u16 = 0xEFFF;

pub const MMIO_BASE: u16 = 0xF000;
pub const MMIO_END: u16 = 0xFFFF;

/// Vector of the non-maskable interrupt (reserved).
pub const NMI_VECTOR: u16 = 0x7FFA;
/// Vector holding the initial program counter.
pub const RESET_VECTOR: u16 = 0x7FFC;
/// Vector holding the address of the maskable interrupt handler.
pub const IRQ_VECTOR: u16 = 0x7FFE;

/// Index of the fixed region holding `a`: 0 ROM, 1 RAM, 2 stack, 3 MMIO.
pub open spec fn region_of(a: int) -> int {
    if a <= ROM_END {
        0
    } else if a <= RAM_END {
        1
    } else if a <= STACK_END {
        2
    } else {
        3
    }
}

/// The little-endian word made of `lo` and `hi`.
pub open spec fn le_word(lo: u8, hi: u8) -> u16 {
    (hi as int * 256 + lo as int) as u16
}

pub open spec fn low_byte(v: u16) -> u8 {
    (v % 256) as u8
}

pub open spec fn high_byte(v: u16) -> u8 {
    (v / 256) as u8
}

/// Some device range in `ranges` holds `a`.
pub open spec fn covered(ranges: Seq<(u16, u16)>, a: u16) -> bool {
    exists|i: int| 0 <= i < ranges.len() && ranges[i].0 <= a && a <= ranges[i].1
}

/// Reading a byte, over the fixed regions `mem` (ROM, RAM and stack, in address
/// order) and the device ranges. `None`: a device answers, and what it answers is
/// its own.
pub open spec fn mem_read_u8(mem: Seq<u8>, ranges: Seq<(u16, u16)>, a: u16) -> Option<Result<u8, MemoryError>> {
    if a < MMIO_BASE {
        Some(Ok(mem[a as int]))
    } else if covered(ranges, a) {
        None
    } else {
        Some(Err(MemoryError::UnmappedAddress(a)))
    }
}

/// Reading a little-endian word: both bytes must lie in one region.
pub open spec fn mem_read_u16(mem: Seq<u8>, ranges: Seq<(u16, u16)>, a: u16) -> Option<Result<u16, MemoryError>> {
    if a < MMIO_BASE {
        if region_of(a as int) == region_of(a + 1) {
            Some(Ok(le_word(mem[a as int], mem[a + 1])))
        } else {
            Some(Err(MemoryError::UnmappedAddress(a)))
        }
    } else if device_last_byte(ranges, a) {
        Some(Err(MemoryError::UnmappedAddress(a)))
    } else if covered(ranges, a) {
        None
    } else {
        Some(Err(MemoryError::UnmappedAddress(a)))
    }
}

/// Writing a byte: ROM refuses, RAM and stack take it.
pub open spec fn mem_write_u8(mem: Seq<u8>, ranges: Seq<(u16, u16)>, a: u16, v: u8) -> Option<Result<Seq<u8>, MemoryError>> {
    if a <= ROM_END {
        Some(Err(MemoryError::WriteNotPermitted(a)))
    } else if a < MMIO_BASE {
        Some(Ok(mem.update(a as int, v)))
    } else if covered(ranges, a) {
        None
    } else {
        Some(Err(MemoryError::UnmappedAddress(a)))
    }
}

/// Writing a little-endian word: low byte at `a`, high byte at `a + 1`.
pub open spec fn mem_write_u16(mem: Seq<u8>, ranges: Seq<(u16, u16)>, a: u16, v: u16) -> Option<Result<Seq<u8>, MemoryError>> {
    if a <= ROM_END {
        Some(Err(MemoryError::WriteNotPermitted(a)))
    } else if a < MMIO_BASE {
        if region_of(a as int) == region_of(a + 1) {
            Some(Ok(mem.update(a as int, low_byte(v)).update(a + 1, high_byte(v))))
        } else {
            Some(Err(MemoryError::UnmappedAddress(a)))
        }
    } else if device_last_byte(ranges, a) {
        Some(Err(MemoryError::UnmappedAddress(a)))
    } else if covered(ranges, a) {
        None
    } else {
        Some(Err(MemoryError::UnmappedAddress(a)))
    }
}

pub fn make_word(lo: u8, hi: u8) -> (r: u16)
    ensures
        r == le_word(lo, hi),
{
    (hi as u16) * 256 + (lo as u16)
}

pub fn split_word(v: u16) -> (r: (u8, u8))
    ensures
        r.0 == low_byte(v),
        r.1 == high_byte(v),
{
    ((v % 256) as u8, (v / 256) as u8)
}

/// A memory-mapped device. Offsets are relative to the device's base address.
pub trait Device {
    /// The inclusive global range `(base, end)` that the device decodes.
    spec fn range(&self) -> (u16, u16);

    fn aabb(&self) -> (r: (u16, u16))
        ensures
            r == self.range(),
    ;

    fn read_u8(&mut self, offset: u16) -> (r: Result<u8, MemoryError>)
        ensures
            final(self).range() == old(self).range(),
    ;

    fn write_u8(&mut self, offset: u16, val: u8) -> (r: Result<(), MemoryError>)
        ensures
            final(self).range() == old(self).range(),
    ;

    /// Whether the device currently asks for an interrupt.
    spec fn asserting(&self) -> bool;

    /// Called once per CPU step; true asks for an interrupt.
    fn check_interrupt(&mut self) -> (r: bool)
        ensures
            final(self).range() == old(self).range(),
            r == final(self).asserting(),
    ;
}

/// Some device in `ds` asks for an interrupt.
pub open spec fn any_asserting<D: Device>(ds: Seq<D>) -> bool {
    exists|i: int| 0 <= i < ds.len() && #[trigger] ds[i].asserting()
}

/// `a` is the last address of some device range: a word there would leave it.
pub open spec fn device_last_byte(ranges: Seq<(u16, u16)>, a: u16) -> bool {
    exists|i: int| 0 <= i < ranges.len() && ranges[i].0 <= a && a == #[trigger] ranges[i].1
}

/// The 32 KiB read-only region.
pub struct Rom {
    data: Vec<u8>,
}

impl View for Rom {
    type V = Seq<u8>;

    closed spec fn view(&self) -> Seq<u8> {
        self.data@
    }
}

impl Rom {
    pub open spec fn wf(&self) -> bool {
        self@.len() == ROM_SIZE
    }

    pub fn new() -> (r: Self)
        ensures
            r.wf(),
            forall|i: int| 0 <= i < ROM_SIZE ==> r@[i] == 0,
    {
        Rom { data: vec![0u8; 0x8000] }
    }

    /// Copies `data` to the start of the ROM; the rest keeps its bytes.
    pub fn load(&mut self, data: &[u8]) -> (r: Result<(), MemoryError>)
        requires
            old(self).wf(),
        ensures
            final(self).wf(),
            data@.len() <= ROM_SIZE ==> r is Ok && final(self)@ == data@ + old(self)@.subrange(
                data@.len() as int,
                ROM_SIZE as int,
            ),
            data@.len() > ROM_SIZE ==> r == Err::<(), MemoryError>(MemoryError::InvalidRomSize(data@.len() as usize))
                && final(self)@ == old(self)@,
    {
        if data.len() > 0x8000 {
            return Err(MemoryError::InvalidRomSize(data.len()));
        }
        let mut i: usize = 0;
        while i < data.len()
            invariant
                self.wf(),
                i <= data@.len() <= ROM_SIZE,
                forall|j: int| 0 <= j < i ==> self@[j] == data@[j],
                forall|j: int| i <= j < ROM_SIZE ==> self@[j] == old(self)@[j],
            decreases data@.len() - i,
        {
            self.data.set(i, data[i]);
            i = i + 1;
        }
        assert(self@ =~= data@ + old(self)@.subrange(data@.len() as int, ROM_SIZE as int));
        Ok(())
    }

    pub fn read_u8(&self, addr: u16) -> (r: u8)
        requires
            self.wf(),
            addr <= ROM_END,
        ensures
            r == self@[addr as int],
    {
        self.data[addr as usize]
    }

    /// The size in bytes; a load never changes it.
    pub fn len(&self) -> (r: usize)
        ensures
            r == self@.len(),
    {
        self.data.len()
    }
}

/// The 24 KiB read/write region.
pub struct Ram {
    data: Vec<u8>,
}

impl View for Ram {
    type V = Seq<u8>;

    closed spec fn view(&self) -> Seq<u8> {
        self.data@
    }
}

impl Ram {
    pub fn new() -> (r: Self)
        ensures
            r@.len() == RAM_SIZE,
            forall|i: int| 0 <= i < RAM_SIZE ==> r@[i] == 0,
    {
        Ram { data: vec![0u8; 0x6000] }
    }
}

/// The 4 KiB stack region.
pub struct Stack {
    data: Vec<u8>,
}

impl View for Stack {
    type V = Seq<u8>;

    closed spec fn view(&self) -> Seq<u8> {
        self.data@
    }
}

impl Stack {
    pub fn new() -> (r: Self)
        ensures
            r@.len() == STACK_SIZE,
            forall|i: int| 0 <= i < STACK_SIZE ==> r@[i] == 0,
    {
        Stack { data: vec![0u8; 0x1000] }
    }
}

/// Device ranges that lie in the MMIO window and do not overlap.
pub open spec fn ranges_ok(r: Seq<(u16, u16)>) -> bool {
    &&& forall|i: int| 0 <= i < r.len() ==> MMIO_BASE <= #[trigger] r[i].0 && r[i].0 <= r[i].1
    &&& forall|i: int, j: int|
        0 <= i < r.len() && 0 <= j < r.len() && i != j ==> #[trigger] r[i].1 < #[trigger] r[j].0
            || r[j].1 < r[i].0
}

/// A result `r` agrees with the outcome `o` that the fixed regions decide.
pub open spec fn read_agrees<T>(o: Option<Result<T, MemoryError>>, r: Result<T, MemoryError>) -> bool {
    o is Some ==> r == o.unwrap()
}

/// A write's result and new fixed regions agree with the outcome `o`.
pub open spec fn write_agrees(
    o: Option<Result<Seq<u8>, MemoryError>>,
    r: Result<(), MemoryError>,
    old_mem: Seq<u8>,
    new_mem: Seq<u8>,
) -> bool {
    match o {
        Some(Ok(m)) => r is Ok && new_mem == m,
        Some(Err(e)) => r == Err::<(), MemoryError>(e) && new_mem == old_mem,
        None => new_mem == old_mem,
    }
}

/// A word written at an aligned RAM address reads back unchanged.
pub proof fn lemma_ram_word_round_trip(mem: Seq<u8>, ranges: Seq<(u16, u16)>, a: u16, v: u16)
    requires
        mem.len() == MMIO_BASE,
        RAM_BASE <= a <= RAM_END,
        a % 2 == 0,
    ensures
        mem_write_u16(mem, ranges, a, v) is Some,
        mem_write_u16(mem, ranges, a, v).unwrap() is Ok,
        mem_read_u16(mem_write_u16(mem, ranges, a, v).unwrap().unwrap(), ranges, a) == Some(
            Ok::<u16, MemoryError>(v),
        ),
{
}

/// Every byte write to ROM is refused.
pub proof fn lemma_rom_write_refused(mem: Seq<u8>, ranges: Seq<(u16, u16)>, a: u16, v: u8)
    requires
        a <= ROM_END,
    ensures
        mem_write_u8(mem, ranges, a, v) == Some(Err::<Seq<u8>, MemoryError>(MemoryError::WriteNotPermitted(a))),
{
}

/// The bus: ROM, RAM and stack at fixed addresses, devices in the MMIO window.
pub struct MemoryBus<D: Device> {
    rom: Rom,
    ram: Ram,
    stack: Stack,
    devices: Vec<D>,
}

impl<D: Device> MemoryBus<D> {
    /// The fixed regions, ROM then RAM then stack: byte `a` of the address
    /// space for every `a` below `MMIO_BASE`.
    pub closed spec fn mem(&self) -> Seq<u8> {
        self.rom@ + self.ram@ + self.stack@
    }

    /// The registered devices, in registration order.
    pub closed spec fn devices(&self) -> Seq<D> {
        self.devices@
    }

    pub open spec fn ranges(&self) -> Seq<(u16, u16)> {
        self.devices().map_values(|d: D| d.range())
    }

    pub closed spec fn sizes_ok(&self) -> bool {
        self.rom@.len() == ROM_SIZE && self.ram@.len() == RAM_SIZE && self.stack@.len() == STACK_SIZE
    }

    pub open spec fn wf(&self) -> bool {
        &&& self.sizes_ok()
        &&& self.mem().len() == MMIO_BASE
        &&& ranges_ok(self.ranges())
    }

    pub fn new() -> (r: Self)
        ensures
            r.wf(),
            r.mem() == Seq::new(MMIO_BASE as nat, |i: int| 0u8),
            r.devices().len() == 0,
    {
        let r = MemoryBus { rom: Rom::new(), ram: Ram::new(), stack: Stack::new(), devices: Vec::new() };
        assert(r.mem() =~= Seq::new(MMIO_BASE as nat, |i: int| 0u8));
        assert(r.ranges() =~= Seq::empty());
        r
    }

    /// Copies a program to the start of ROM.
    pub fn load_rom_data(&mut self, data: &[u8]) -> (r: Result<(), MemoryError>)
        requires
            old(self).wf(),
        ensures
            final(self).wf(),
            final(self).devices() == old(self).devices(),
            data@.len() <= ROM_SIZE ==> r is Ok && final(self).mem() == data@ + old(self).mem().subrange(
                data@.len() as int,
                MMIO_BASE as int,
            ),
            data@.len() > ROM_SIZE ==> r == Err::<(), MemoryError>(MemoryError::InvalidRomSize(data@.len() as usize))
                && final(self).mem() == old(self).mem(),
    {
        let r = self.rom.load(data);
        proof {
            if data@.len() <= ROM_SIZE {
                assert(self.mem() =~= data@ + old(self).mem().subrange(data@.len() as int, MMIO_BASE as int));
            }
        }
        r
    }

    /// Registers a device; it must lie in the MMIO window and overlap no other.
    pub fn add_device(&mut self, device: D) -> (r: Result<(), MemoryError>)
        requires
            old(self).wf(),
        ensures
            final(self).wf(),
            final(self).mem() == old(self).mem(),
            r is Ok <==> ranges_ok(old(self).ranges().push(device.range())),
            r is Ok ==> final(self).devices() == old(self).devices().push(device),
            r is Err ==> r == Err::<(), MemoryError>(MemoryError::DeviceOverlap(device.range().0))
                && final(self).devices() == old(self).devices(),
    {
        let (base, end) = device.aabb();
        let ghost new_ranges = old(self).ranges().push(device.range());
        if base < MMIO_BASE || base > end {
            assert(!(MMIO_BASE <= new_ranges[new_ranges.len() - 1].0 && new_ranges[new_ranges.len() - 1].0
                <= new_ranges[new_ranges.len() - 1].1));
            return Err(MemoryError::DeviceOverlap(base));
        }
        let mut j: usize = 0;
        while j < self.devices.len()
            invariant
                self.wf(),
                *self == *old(self),
                j <= self.devices@.len(),
                new_ranges == self.ranges().push((base, end)),
                (base, end) == device.range(),
                MMIO_BASE <= base <= end,
                forall|k: int| 0 <= k < j ==> self.ranges()[k].1 < base || end < self.ranges()[k].0,
            decreases self.devices@.len() - j,
        {
            let (b, e) = self.devices[j].aabb();
            assert(self.ranges()[j as int] == (b, e));
            if !(e < base || end < b) {
                assert(!(new_ranges[j as int].1 < new_ranges[new_ranges.len() - 1].0 || new_ranges[new_ranges.len()
                    - 1].1 < new_ranges[j as int].0));
                return Err(MemoryError::DeviceOverlap(base));
            }
            j = j + 1;
        }
        self.devices.push(device);
        assert(self.ranges() =~= new_ranges);
        assert(self.mem() =~= old(self).mem());
        Ok(())
    }

    /// With `addr` in device `i`'s range, `addr` is some device's last byte
    /// exactly when it is device `i`'s: ranges do not overlap.
    proof fn lemma_last_byte(&self, i: int, addr: u16)
        requires
            self.wf(),
            0 <= i < self.ranges().len(),
            self.ranges()[i].0 <= addr <= self.ranges()[i].1,
        ensures
            device_last_byte(self.ranges(), addr) <==> addr == self.ranges()[i].1,
            covered(self.ranges(), addr),
    {
        let r = self.ranges();
        if device_last_byte(r, addr) {
            let j = choose|j: int| 0 <= j < r.len() && r[j].0 <= addr && addr == #[trigger] r[j].1;
            if j != i {
                assert(r[i].1 < r[j].0 || r[j].1 < r[i].0);
            }
        }
    }

    /// The first device whose range holds `addr`.
    fn find_device(&self, addr: u16) -> (r: Option<usize>)
        requires
            self.wf(),
        ensures
            r is Some ==> r.unwrap() < self.ranges().len() && self.ranges()[r.unwrap() as int].0 <= addr
                && addr <= self.ranges()[r.unwrap() as int].1,
            r is None ==> !covered(self.ranges(), addr),
    {
        let mut j: usize = 0;
        while j < self.devices.len()
            invariant
                self.wf(),
                j <= self.devices@.len(),
                forall|k: int| 0 <= k < j ==> !(self.ranges()[k].0 <= addr && addr <= self.ranges()[k].1),
            decreases self.devices@.len() - j,
        {
            let (b, e) = self.devices[j].aabb();
            assert(self.ranges()[j as int] == (b, e));
            if b <= addr && addr <= e {
                return Some(j);
            }
            j = j + 1;
        }
        None
    }

    /// Runs `op` on device `i` at `offset` (read when `write` is None).
    fn device_access(&mut self, i: usize, offset: u16, write: Option<u8>) -> (r: Result<u8, MemoryError>)
        requires
            old(self).wf(),
            i < old(self).devices().len(),
        ensures
            final(self).wf(),
            final(self).mem() == old(self).mem(),
            final(self).ranges() == old(self).ranges(),
    {
        let mut d = self.devices.remove(i);
        let r = match write {
            None => d.read_u8(offset),
            Some(v) => match d.write_u8(offset, v) {
                Ok(()) => Ok(0),
                Err(e) => Err(e),
            },
        };
        self.devices.insert(i, d);
        assert(self.ranges() =~= old(self).ranges());
        assert(self.mem() =~= old(self).mem());
        r
    }

    fn fixed_read(&self, addr: u16) -> (r: u8)
        requires
            self.wf(),
            addr < MMIO_BASE,
        ensures
            r == self.mem()[addr as int],
    {
        if addr <= ROM_END {
            self.rom.data[addr as usize]
        } else if addr <= RAM_END {
            self.ram.data[(addr - RAM_BASE) as usize]
        } else {
            self.stack.data[(addr - STACK_BASE) as usize]
        }
    }

    fn fixed_write(&mut self, addr: u16, val: u8)
        requires
            old(self).wf(),
            RAM_BASE <= addr < MMIO_BASE,
        ensures
            final(self).wf(),
            final(self).mem() == old(self).mem().update(addr as int, val),
            final(self).devices() == old(self).devices(),
    {
        if addr <= RAM_END {
            self.ram.data.set((addr - RAM_BASE) as usize, val);
        } else {
            self.stack.data.set((addr - STACK_BASE) as usize, val);
        }
        assert(self.mem() =~= old(self).mem().update(addr as int, val));
    }

    pub fn read_u8(&mut self, addr: u16) -> (r: Result<u8, MemoryError>)
        requires
            old(self).wf(),
        ensures
            final(self).wf(),
            final(self).mem() == old(self).mem(),
            final(self).ranges() == old(self).ranges(),
            read_agrees(mem_read_u8(old(self).mem(), old(self).ranges(), addr), r),
            mem_read_u8(old(self).mem(), old(self).ranges(), addr) is Some ==> final(self).devices()
                == old(self).devices(),
    {
        if addr < MMIO_BASE {
            Ok(self.fixed_read(addr))
        } else {
            match self.find_device(addr) {
                Some(i) => {
                    let (base, _) = self.devices[i].aabb();
                    self.device_access(i, addr - base, None)
                },
                None => Err(MemoryError::UnmappedAddress(addr)),
            }
        }
    }

    pub fn read_u16(&mut self, addr: u16) -> (r: Result<u16, MemoryError>)
        requires
            old(self).wf(),
        ensures
            final(self).wf(),
            final(self).mem() == old(self).mem(),
            final(self).ranges() == old(self).ranges(),
            read_agrees(mem_read_u16(old(self).mem(), old(self).ranges(), addr), r),
            mem_read_u16(old(self).mem(), old(self).ranges(), addr) is Some ==> final(self).devices()
                == old(self).devices(),
    {
        if addr < MMIO_BASE {
            if addr == ROM_END || addr == RAM_END || addr == STACK_END {
                return Err(MemoryError::UnmappedAddress(addr));
            }
            let lo = self.fixed_read(addr);
            let hi = self.fixed_read(addr + 1);
            Ok(make_word(lo, hi))
        } else {
            match self.find_device(addr) {
                Some(i) => {
                    let (base, end) = self.devices[i].aabb();
                    proof {
                        self.lemma_last_byte(i as int, addr);
                    }
                    if addr >= end {
                        return Err(MemoryError::UnmappedAddress(addr));
                    }
                    let lo = self.device_access(i, addr - base, None)?;
                    let hi = self.device_access(i, addr - base + 1, None)?;
                    Ok(make_word(lo, hi))
                },
                None => Err(MemoryError::UnmappedAddress(addr)),
            }
        }
    }

    pub fn write_u8(&mut self, addr: u16, val: u8) -> (r: Result<(), MemoryError>)
        requires
            old(self).wf(),
        ensures
            final(self).wf(),
            final(self).ranges() == old(self).ranges(),
            write_agrees(mem_write_u8(old(self).mem(), old(self).ranges(), addr, val), r, old(self).mem(), final(self).mem()),
            mem_write_u8(old(self).mem(), old(self).ranges(), addr, val) is Some ==> final(self).devices()
                == old(self).devices(),
    {
        if addr <= ROM_END {
            Err(MemoryError::WriteNotPermitted(addr))
        } else if addr < MMIO_BASE {
            self.fixed_write(addr, val);
            Ok(())
        } else {
            match self.find_device(addr) {
                Some(i) => {
                    let (base, _) = self.devices[i].aabb();
                    match self.device_access(i, addr - base, Some(val)) {
                        Ok(_) => Ok(()),
                        Err(e) => Err(e),
                    }
                },
                None => Err(MemoryError::UnmappedAddress(addr)),
            }
        }
    }

    pub fn write_u16(&mut self, addr: u16, val: u16) -> (r: Result<(), MemoryError>)
        requires
            old(self).wf(),
        ensures
            final(self).wf(),
            final(self).ranges() == old(self).ranges(),
            write_agrees(mem_write_u16(old(self).mem(), old(self).ranges(), addr, val), r, old(self).mem(), final(self).mem()),
            mem_write_u16(old(self).mem(), old(self).ranges(), addr, val) is Some ==> final(self).devices()
                == old(self).devices(),
    {
        let (lo, hi) = split_word(val);
        if addr <= ROM_END {
            Err(MemoryError::WriteNotPermitted(addr))
        } else if addr < MMIO_BASE {
            if addr == RAM_END || addr == STACK_END {
                return Err(MemoryError::UnmappedAddress(addr));
            }
            self.fixed_write(addr, lo);
            self.fixed_write(addr + 1, hi);
            Ok(())
        } else {
            match self.find_device(addr) {
                Some(i) => {
                    let (base, end) = self.devices[i].aabb();
                    proof {
                        self.lemma_last_byte(i as int, addr);
                    }
                    if addr >= end {
                        return Err(MemoryError::UnmappedAddress(addr));
                    }
                    self.device_access(i, addr - base, Some(lo))?;
                    self.device_access(i, addr - base + 1, Some(hi))?;
                    Ok(())
                },
                None => Err(MemoryError::UnmappedAddress(addr)),
            }
        }
    }

    /// Polls every device once, in registration order; true when any asks
    /// for an interrupt.
    pub fn poll_devices(&mut self) -> (r: bool)
        requires
            old(self).wf(),
        ensures
            final(self).wf(),
            final(self).mem() == old(self).mem(),
            final(self).ranges() == old(self).ranges(),
            final(self).devices().len() == old(self).devices().len(),
            r == any_asserting(final(self).devices()),
            old(self).devices().len() == 0 ==> !r,
    {
        let mut any = false;
        let mut i: usize = 0;
        while i < self.devices.len()
            invariant
                self.wf(),
                self.mem() == old(self).mem(),
                self.ranges() == old(self).ranges(),
                self.devices@.len() == old(self).devices().len(),
                i <= self.devices@.len(),
                any == exists|j: int| 0 <= j < i && #[trigger] self.devices@[j].asserting(),
            decreases self.devices@.len() - i,
        {
            let ghost before = self.devices@;
            let mut d = self.devices.remove(i);
            let b = d.check_interrupt();
            if b {
                any = true;
            }
            self.devices.insert(i, d);
            proof {
                assert(self.devices@ =~= before.update(i as int, d));
                assert forall|j: int| 0 <= j < i implies self.devices@[j] == before[j] by {}
                if any {
                    if !b {
                        let j = choose|j: int| 0 <= j < i && #[trigger] before[j].asserting();
                        assert(self.devices@[j].asserting());
                    } else {
                        assert(self.devices@[i as int].asserting());
                    }
                } else {
                    assert forall|j: int| 0 <= j < i + 1 implies !#[trigger] self.devices@[j].asserting() by {
                        if j < i {
                            assert(!before[j].asserting());
                        }
                    }
                }
            }
            assert(self.ranges() =~= old(self).ranges());
            assert(self.mem() =~= old(self).mem());
            i = i + 1;
        }
        any
    }
}

} // verus!
