use vstd::prelude::*;
use crate::bus::Device;
use crate::error::MemoryError;

verus! {

pub const DATA_REGISTER_OFFSET: u16 = 0x00;
pub const STATUS_REGISTER_OFFSET: u16 = 0x01;
pub const CONTROL_REGISTER_OFFSET: u16 = 0x02;

/// Status bit: a received byte waits in the input queue.
pub const RX_READY_BIT: u8 = 0x01;
/// Status bit: a write to DATA will not block.
pub const TX_READY_BIT: u8 = 0x02;
/// Control bit: interrupt while a received byte waits.
pub const RX_INTERRUPT_ENABLE_BIT: u8 = 0x01;
/// Control bit: interrupt while the transmitter is ready.
pub const TX_INTERRUPT_ENABLE_BIT: u8 = 0x02;

/// A UART-style console with DATA, STATUS and CONTROL registers. Received bytes
/// wait in an input queue; transmitted bytes collect in an output buffer that
/// the host drains.
pub struct CupanaConsole {
    base_address: u16,
    input_buffer: Vec<u8>,
    output_buffer: Vec<u8>,
    rx_interrupt_enabled: bool,
    tx_interrupt_enabled: bool,
}

impl CupanaConsole {
    pub closed spec fn base(&self) -> u16 {
        self.base_address
    }

    /// Bytes received and not yet read, oldest first.
    pub closed spec fn input(&self) -> Seq<u8> {
        self.input_buffer@
    }

    /// Bytes transmitted and not yet drained, oldest first.
    pub closed spec fn output(&self) -> Seq<u8> {
        self.output_buffer@
    }

    pub closed spec fn rx_enabled(&self) -> bool {
        self.rx_interrupt_enabled
    }

    pub closed spec fn tx_enabled(&self) -> bool {
        self.tx_interrupt_enabled
    }

    pub open spec fn status_spec(&self) -> u8 {
        if self.input().len() > 0 {
            RX_READY_BIT | TX_READY_BIT
        } else {
            TX_READY_BIT
        }
    }

    pub open spec fn control_spec(&self) -> u8 {
        (if self.rx_enabled() { RX_INTERRUPT_ENABLE_BIT } else { 0u8 }) | (if self.tx_enabled() {
            TX_INTERRUPT_ENABLE_BIT
        } else {
            0u8
        })
    }

    /// A console at `base_address`, with both interrupts disabled.
    pub fn new(base_address: u16) -> (r: Self)
        requires
            base_address <= 0xFFFD,
        ensures
            r.base() == base_address,
            r.input().len() == 0,
            r.output().len() == 0,
            !r.rx_enabled(),
            !r.tx_enabled(),
    {
        CupanaConsole {
            base_address,
            input_buffer: Vec::new(),
            output_buffer: Vec::new(),
            rx_interrupt_enabled: false,
            tx_interrupt_enabled: false,
        }
    }

    /// A byte arriving from the host side.
    pub fn push_input(&mut self, b: u8)
        ensures
            final(self).input() == old(self).input().push(b),
            final(self).output() == old(self).output(),
            final(self).base() == old(self).base(),
            final(self).rx_enabled() == old(self).rx_enabled(),
            final(self).tx_enabled() == old(self).tx_enabled(),
    {
        self.input_buffer.push(b);
    }

    /// Hands the transmitted bytes to the host and empties the buffer.
    pub fn take_output(&mut self) -> (r: Vec<u8>)
        ensures
            r@ == old(self).output(),
            final(self).output().len() == 0,
            final(self).input() == old(self).input(),
            final(self).base() == old(self).base(),
            final(self).rx_enabled() == old(self).rx_enabled(),
            final(self).tx_enabled() == old(self).tx_enabled(),
    {
        let mut out = Vec::new();
        std::mem::swap(&mut out, &mut self.output_buffer);
        out
    }

    pub fn get_status_register_value(&self) -> (r: u8)
        ensures
            r == self.status_spec(),
    {
        let mut status: u8 = TX_READY_BIT;
        if self.input_buffer.len() > 0 {
            status = RX_READY_BIT | TX_READY_BIT;
        }
        status
    }

    pub fn get_control_register_value(&self) -> (r: u8)
        ensures
            r == self.control_spec(),
    {
        let rx: u8 = if self.rx_interrupt_enabled { RX_INTERRUPT_ENABLE_BIT } else { 0 };
        let tx: u8 = if self.tx_interrupt_enabled { TX_INTERRUPT_ENABLE_BIT } else { 0 };
        rx | tx
    }
}

impl CupanaConsole {
    pub open spec fn end_spec(&self) -> u16 {
        if self.base() <= 0xFFFD {
            (self.base() + 2) as u16
        } else {
            0xFFFF
        }
    }

    pub open spec fn same_config(&self, o: &Self) -> bool {
        &&& self.base() == o.base()
        &&& self.rx_enabled() == o.rx_enabled()
        &&& self.tx_enabled() == o.tx_enabled()
    }

    /// DATA yields the oldest received byte (0 when none waits), STATUS and
    /// CONTROL their values; other offsets are not decoded.
    pub fn read_register(&mut self, offset: u16) -> (r: Result<u8, MemoryError>)
        ensures
            final(self).same_config(old(self)),
            final(self).output() == old(self).output(),
            offset == DATA_REGISTER_OFFSET && old(self).input().len() > 0 ==> r == Ok::<u8, MemoryError>(
                old(self).input()[0],
            ) && final(self).input() == old(self).input().drop_first(),
            offset == DATA_REGISTER_OFFSET && old(self).input().len() == 0 ==> r == Ok::<u8, MemoryError>(0)
                && final(self).input() == old(self).input(),
            offset != DATA_REGISTER_OFFSET ==> final(self).input() == old(self).input(),
            offset == STATUS_REGISTER_OFFSET ==> r == Ok::<u8, MemoryError>(old(self).status_spec()),
            offset == CONTROL_REGISTER_OFFSET ==> r == Ok::<u8, MemoryError>(old(self).control_spec()),
            offset > CONTROL_REGISTER_OFFSET ==> r == Err::<u8, MemoryError>(
                MemoryError::InvalidRamAddress(old(self).base().wrapping_add(offset)),
            ),
    {
        if offset == DATA_REGISTER_OFFSET {
            if self.input_buffer.len() > 0 {
                Ok(self.input_buffer.remove(0))
            } else {
                Ok(0)
            }
        } else if offset == STATUS_REGISTER_OFFSET {
            Ok(self.get_status_register_value())
        } else if offset == CONTROL_REGISTER_OFFSET {
            Ok(self.get_control_register_value())
        } else {
            Err(MemoryError::InvalidRamAddress(self.base_address.wrapping_add(offset)))
        }
    }

    /// DATA transmits a byte, CONTROL sets the interrupt enables; STATUS is
    /// read-only and other offsets are not decoded.
    pub fn write_register(&mut self, offset: u16, val: u8) -> (r: Result<(), MemoryError>)
        ensures
            final(self).base() == old(self).base(),
            final(self).input() == old(self).input(),
            offset == DATA_REGISTER_OFFSET ==> r is Ok && final(self).output() == old(self).output().push(val)
                && final(self).same_config(old(self)),
            offset != DATA_REGISTER_OFFSET ==> final(self).output() == old(self).output(),
            offset == CONTROL_REGISTER_OFFSET ==> r is Ok && final(self).rx_enabled() == (val
                & RX_INTERRUPT_ENABLE_BIT != 0) && final(self).tx_enabled() == (val & TX_INTERRUPT_ENABLE_BIT != 0),
            offset == STATUS_REGISTER_OFFSET ==> r == Err::<(), MemoryError>(
                MemoryError::WriteNotPermitted(old(self).base().wrapping_add(offset)),
            ) && final(self).same_config(old(self)),
            offset > CONTROL_REGISTER_OFFSET ==> r == Err::<(), MemoryError>(
                MemoryError::InvalidRamAddress(old(self).base().wrapping_add(offset)),
            ) && final(self).same_config(old(self)),
    {
        if offset == DATA_REGISTER_OFFSET {
            self.output_buffer.push(val);
            Ok(())
        } else if offset == CONTROL_REGISTER_OFFSET {
            self.rx_interrupt_enabled = val & RX_INTERRUPT_ENABLE_BIT != 0;
            self.tx_interrupt_enabled = val & TX_INTERRUPT_ENABLE_BIT != 0;
            Ok(())
        } else if offset == STATUS_REGISTER_OFFSET {
            Err(MemoryError::WriteNotPermitted(self.base_address.wrapping_add(offset)))
        } else {
            Err(MemoryError::InvalidRamAddress(self.base_address.wrapping_add(offset)))
        }
    }

    /// True iff an enabled condition holds: a byte waits with RX interrupts
    /// enabled, or TX interrupts are enabled (the transmitter is always ready).
    pub fn interrupt_pending(&self) -> (r: bool)
        ensures
            r == ((self.rx_enabled() && self.input().len() > 0) || self.tx_enabled()),
    {
        (self.rx_interrupt_enabled && self.input_buffer.len() > 0) || self.tx_interrupt_enabled
    }
}

impl Device for CupanaConsole {
    open spec fn range(&self) -> (u16, u16) {
        (self.base(), self.end_spec())
    }

    fn aabb(&self) -> (r: (u16, u16)) {
        let end = if self.base_address <= 0xFFFD { self.base_address + 2 } else { 0xFFFF };
        (self.base_address, end)
    }

    fn read_u8(&mut self, offset: u16) -> (r: Result<u8, MemoryError>) {
        self.read_register(offset)
    }

    fn write_u8(&mut self, offset: u16, val: u8) -> (r: Result<(), MemoryError>) {
        self.write_register(offset, val)
    }

    open spec fn asserting(&self) -> bool {
        (self.rx_enabled() && self.input().len() > 0) || self.tx_enabled()
    }

    fn check_interrupt(&mut self) -> (r: bool) {
        self.interrupt_pending()
    }
}

} // verus!
