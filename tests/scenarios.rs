use std::cell::Cell;
use std::rc::Rc;

use cupana::bus::{Device, STACK_END};
use cupana::casm::Assembler;
use cupana::console::CupanaConsole;
use cupana::cupana::Cupana;
use cupana::error::{CError, MemoryError, VMError};
use cupana::machine::{Flag, FLAG_INTERRUPT_PENDING};

fn assemble(src: &str) -> Vec<u8> {
    let mut assembler = Assembler::new();
    assembler.assemble_string(src).expect("assembles")
}

fn machine_for(src: &str) -> Cupana<CupanaConsole> {
    let mut vm: Cupana<CupanaConsole> = Cupana::new();
    vm.load_program(&assemble(src)).unwrap();
    vm
}

#[test]
fn scenario_simple_add() {
    let src = ".org 0x7FFC\n.word start\n.org 0x0000\nstart: MOV R0, $10\n       MOV R1, $32\n       ADD R0, R1\n       HLT\n";
    let mut vm = machine_for(src);
    assert_eq!(vm.run(1000), Ok(true));
    let m = vm.machine();
    assert_eq!(m.registers[0], 42);
    assert!(!m.get_flag(Flag::Zero));
    assert!(m.get_flag(Flag::Halt));
}

#[test]
fn scenario_subroutine() {
    let src = "\
.org 0x7FFC
.word start
.org 0x0000
start: MOV R0, $7
       JSB add5
       HLT
add5:  ADD R0, $5
       RSB
";
    let mut vm = machine_for(src);
    assert_eq!(vm.run(1000), Ok(true));
    let m = vm.machine();
    assert_eq!(m.registers[0], 12);
    assert_eq!(m.sp, STACK_END - 1);
    assert!(m.halted());
}

#[test]
fn scenario_memory_round_trip() {
    let src = "\
.org 0x7FFC
.word start
.org 0x0000
start: MOV R0, #9000   ; RAM address
       MOV R1, $4660   ; = 0x1234
       MOV R0*, R1
       MOV R2, R0*
       HLT
";
    let mut vm = machine_for(src);
    assert_eq!(vm.run(1000), Ok(true));
    assert_eq!(vm.machine().registers[2], 0x1234);
    assert_eq!(vm.read_u8(0x9000), Ok(0x34));
    assert_eq!(vm.read_u8(0x9001), Ok(0x12));
}

#[test]
fn scenario_division_by_zero() {
    let src = "\
.org 0x7FFC
.word start
.org 0x0000
start: MOV R1, $9
       MOV R0, $0
       DIV R1, R0
       HLT
";
    let mut vm = machine_for(src);
    vm.reset().unwrap();
    vm.cycle().unwrap();
    vm.cycle().unwrap();
    let before = vm.machine();
    assert_eq!(vm.cycle(), Err(CError::VM(VMError::DivideByZero)));
    let after = vm.machine();
    assert_eq!(after.registers[1], 9);
    assert_eq!(after.flags, before.flags);
    let mut vm2 = machine_for(src);
    assert_eq!(vm2.run(1000), Err(CError::VM(VMError::DivideByZero)));
}

/// A device that asks for one interrupt when the host arms it.
struct Doorbell {
    armed: Rc<Cell<bool>>,
}

impl Device for Doorbell {
    fn range(&self) -> (u16, u16) {
        (0xF100, 0xF101)
    }

    fn aabb(&self) -> (u16, u16) {
        self.range()
    }

    fn read_u8(&mut self, _offset: u16) -> Result<u8, MemoryError> {
        Ok(0)
    }

    fn write_u8(&mut self, _offset: u16, _val: u8) -> Result<(), MemoryError> {
        Ok(())
    }

    fn asserting(&self) -> bool {
        self.armed.get()
    }

    fn check_interrupt(&mut self) -> bool {
        self.armed.replace(false)
    }
}

#[test]
fn scenario_interrupt_round_trip() {
    let src = "\
.org 0x7FFC
.word start
.word isr
.org 0x0000
start: CLI
loop:  NOP
       JMP loop
isr:   RSI
";
    let armed = Rc::new(Cell::new(false));
    let mut vm: Cupana<Doorbell> = Cupana::new();
    vm.load_program(&assemble(src)).unwrap();
    vm.register_device(Doorbell { armed: armed.clone() }).unwrap();
    vm.reset().unwrap();
    vm.cycle().unwrap();
    vm.cycle().unwrap();
    armed.set(true);
    vm.cycle().unwrap();
    let before = vm.machine();
    assert!(before.get_flag(Flag::InterruptRequestPending));
    vm.cycle().unwrap();
    let inside = vm.machine();
    assert!(inside.get_flag(Flag::InterruptDisabled));
    assert_eq!(inside.sp, before.sp - 3);
    vm.cycle().unwrap();
    let after = vm.machine();
    assert_eq!(after.pc, before.pc);
    assert_eq!(after.sp, before.sp);
    assert_eq!(after.flags, before.flags & !FLAG_INTERRUPT_PENDING);
    assert_eq!(after.get_flag(Flag::InterruptDisabled), before.get_flag(Flag::InterruptDisabled));
}

#[test]
fn scenario_rom_write_rejected() {
    let src = "\
.org 0x7FFC
.word start
.org 0x0000
start: MOV R0, $1
       MOV #0100, R0
       HLT
";
    let mut vm = machine_for(src);
    assert_eq!(
        vm.run(1000),
        Err(CError::VM(VMError::MemoryError(MemoryError::WriteNotPermitted(0x0100))))
    );
}

#[test]
fn console_echoes_through_registers() {
    let mut c = CupanaConsole::new(0xF000);
    assert_eq!(c.get_status_register_value(), 0x02);
    c.push_input(b'A');
    assert_eq!(c.get_status_register_value(), 0x03);
    assert_eq!(c.read_register(0), Ok(b'A'));
    assert_eq!(c.read_register(0), Ok(0));
    assert!(c.write_register(0, b'z').is_ok());
    assert_eq!(c.write_register(1, 0), Err(MemoryError::WriteNotPermitted(0xF001)));
    assert!(c.write_register(2, 0x01).is_ok());
    assert_eq!(c.get_control_register_value(), 0x01);
    assert!(!c.interrupt_pending());
    c.push_input(b'B');
    assert!(c.interrupt_pending());
    assert_eq!(c.take_output(), vec![b'z']);
}

#[test]
fn overlapping_devices_rejected() {
    let mut vm: Cupana<CupanaConsole> = Cupana::new();
    assert!(vm.register_device(CupanaConsole::new(0xF000)).is_ok());
    assert_eq!(vm.register_device(CupanaConsole::new(0xF002)), Err(MemoryError::DeviceOverlap(0xF002)));
    assert_eq!(vm.register_device(CupanaConsole::new(0x9000)), Err(MemoryError::DeviceOverlap(0x9000)));
    assert!(vm.register_device(CupanaConsole::new(0xF003)).is_ok());
}

#[test]
fn polling_latches_one_request_per_cycle() {
    let armed = Rc::new(Cell::new(false));
    let src = ".org 0x7FFC\n.word start\n.org 0x0000\nstart: NOP\n       NOP\n       HLT\n";
    let mut vm: Cupana<Doorbell> = Cupana::new();
    vm.load_program(&assemble(src)).unwrap();
    vm.register_device(Doorbell { armed: armed.clone() }).unwrap();
    vm.reset().unwrap();
    armed.set(true);
    vm.cycle().unwrap();
    assert!(vm.machine().get_flag(Flag::InterruptRequestPending));
    assert!(!armed.get());
}
