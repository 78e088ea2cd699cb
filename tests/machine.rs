use cupana::bus::{MemoryBus, RAM_BASE, STACK_END};
use cupana::console::CupanaConsole;
use cupana::error::{MemoryError, VMError};
use cupana::machine::{
    decode, encode, operand_count_of, AluOp, Cond, Flag, Instr, Machine, FLAG_HALT, FLAG_INTERRUPT_DISABLED,
    FLAG_INTERRUPT_PENDING,
};

type Bus = MemoryBus<CupanaConsole>;

/// A bus whose ROM holds `code` at 0 and whose reset vector points there,
/// and a CPU reset from it.
fn boot(code: &[Instr]) -> (Machine, Bus) {
    let mut rom = vec![0u8; 0x8000];
    let mut at = 0usize;
    for i in code {
        for b in encode(*i) {
            rom[at] = b;
            at += 1;
        }
    }
    rom[0x7FFC] = 0;
    rom[0x7FFD] = 0;
    let mut bus: Bus = MemoryBus::new();
    bus.load_rom_data(&rom).unwrap();
    let mut m = Machine::new();
    m.reset(&mut bus).unwrap();
    (m, bus)
}

fn run(code: &[Instr], steps: usize) -> (Machine, Bus, Result<(), VMError>) {
    let (mut m, mut bus) = boot(code);
    let mut r = Ok(());
    for _ in 0..steps {
        r = m.step(&mut bus);
        if r.is_err() {
            break;
        }
    }
    (m, bus, r)
}

#[test]
fn test_reset() {
    let mut bus: Bus = MemoryBus::new();
    let mut machine = Machine::new();
    machine.registers[0] = 0x1234;
    machine.flags = 0x56;
    machine.reset(&mut bus).unwrap();
    assert_eq!(machine.registers, [0; 16]);
    assert_eq!(machine.flags, FLAG_INTERRUPT_DISABLED);
    assert_eq!(machine.sp, STACK_END - 1);
}

#[test]
fn reset_loads_pc_from_vector() {
    let mut rom = vec![0u8; 0x8000];
    rom[0x7FFC] = 0x34;
    rom[0x7FFD] = 0x12;
    let mut bus: Bus = MemoryBus::new();
    bus.load_rom_data(&rom).unwrap();
    let mut m = Machine::new();
    m.reset(&mut bus).unwrap();
    assert_eq!(m.pc, 0x1234);
}

#[test]
fn mov_and_add_set_flags() {
    let (m, _, r) = run(
        &[Instr::MovRegImm(0, 0xFFFF), Instr::MovRegImm(1, 1), Instr::AluReg(AluOp::Add, 1, 0)],
        3,
    );
    assert!(r.is_ok());
    assert_eq!(m.registers[1], 0);
    assert!(m.get_flag(Flag::Zero));
    assert!(!m.get_flag(Flag::Negative));
    assert!(m.get_flag(Flag::Carry));
}

#[test]
fn sub_borrows_and_sets_negative() {
    let (m, _, _) = run(&[Instr::MovRegImm(1, 0), Instr::AluImm(AluOp::Sub, 1, 10)], 2);
    assert_eq!(m.registers[1], 0xFFF6);
    assert!(m.get_flag(Flag::Negative));
    assert!(m.get_flag(Flag::Carry));
    assert!(!m.get_flag(Flag::Zero));
}

#[test]
fn mul_div_mod() {
    let (m, _, _) = run(
        &[
            Instr::MovRegImm(0, 10),
            Instr::AluImm(AluOp::Mul, 0, 10),
            Instr::MovRegImm(1, 100),
            Instr::AluImm(AluOp::Div, 1, 7),
            Instr::MovRegImm(2, 100),
            Instr::AluImm(AluOp::Mod, 2, 7),
        ],
        6,
    );
    assert_eq!(m.registers[0], 100);
    assert_eq!(m.registers[1], 14);
    assert_eq!(m.registers[2], 2);
}

#[test]
fn logic_ops_clear_carry() {
    let (m, _, _) = run(
        &[
            Instr::MovRegImm(0, 0xFFFF),
            Instr::AluImm(AluOp::Add, 0, 2),
            Instr::MovRegImm(1, 0x0F0F),
            Instr::AluImm(AluOp::And, 1, 0x00FF),
        ],
        4,
    );
    assert_eq!(m.registers[1], 0x000F);
    assert!(!m.get_flag(Flag::Carry));
}

#[test]
fn not_inverts_bits() {
    let (m, _, _) = run(&[Instr::MovRegImm(0, 0x000A), Instr::Not(0)], 2);
    assert_eq!(m.registers[0], 0xFFF5);
    assert!(m.get_flag(Flag::Negative));
}

#[test]
fn cmp_sets_flags_without_writing() {
    let (m, _, _) = run(&[Instr::MovRegImm(0, 10), Instr::AluImm(AluOp::Cmp, 0, 10)], 2);
    assert_eq!(m.registers[0], 10);
    assert!(m.get_flag(Flag::Zero));
}

#[test]
fn inc_dec() {
    let (m, _, _) = run(&[Instr::MovRegImm(0, 2), Instr::Inc(0), Instr::Dec(0), Instr::Dec(0), Instr::Dec(0), Instr::Dec(0)], 6);
    assert_eq!(m.registers[0], 0xFFFF);
    assert!(m.get_flag(Flag::Carry));
}

#[test]
fn push_pop_round_trip() {
    let (m, _, r) = run(&[Instr::MovRegImm(0, 0xABCD), Instr::Phr(0), Instr::Plr(5)], 3);
    assert!(r.is_ok());
    assert_eq!(m.registers[5], 0xABCD);
    assert_eq!(m.sp, STACK_END - 1);
}

#[test]
fn push_u16_then_pop_u16() {
    let mut bus: Bus = MemoryBus::new();
    let mut m = Machine::new();
    let sp = m.sp;
    m.push_u16(&mut bus, 0x1234).unwrap();
    assert_eq!(m.sp, sp - 2);
    assert_eq!(m.pop_u16(&mut bus), Ok(0x1234));
    assert_eq!(m.sp, sp);
}

#[test]
fn pop_on_empty_stack_underflows() {
    let (m, _, r) = run(&[Instr::Plr(0)], 1);
    assert_eq!(r, Err(VMError::StackUnderflow));
    assert_eq!(m.sp, STACK_END - 1);
}

#[test]
fn conditional_jump_not_taken_advances_three() {
    let (m, _, _) = run(&[Instr::MovRegImm(0, 1), Instr::AluImm(AluOp::Cmp, 0, 0), Instr::JumpImm(Cond::Zero, 0x1000)], 3);
    assert_eq!(m.pc, 4 + 4 + 3);
}

#[test]
fn conditional_jump_taken_goes_to_target() {
    let (m, _, _) = run(&[Instr::MovRegImm(0, 0), Instr::AluImm(AluOp::Cmp, 0, 0), Instr::JumpImm(Cond::Zero, 0x1000)], 3);
    assert_eq!(m.pc, 0x1000);
}

#[test]
fn register_jump() {
    let (m, _, _) = run(&[Instr::MovRegImm(3, 0x0200), Instr::JumpReg(Cond::Always, 3)], 2);
    assert_eq!(m.pc, 0x0200);
}

#[test]
fn jsb_rsb_restores_pc_and_sp() {
    // 0: JSB 0x0010 ; 3: HLT ; 0x10: RSB
    let mut rom = vec![0u8; 0x8000];
    rom[0] = 0x5E;
    rom[1] = 0x10;
    rom[2] = 0x00;
    rom[3] = 0x01;
    rom[0x10] = 0x5F;
    let mut bus: Bus = MemoryBus::new();
    bus.load_rom_data(&rom).unwrap();
    let mut m = Machine::new();
    m.reset(&mut bus).unwrap();
    let sp = m.sp;
    let flags = m.flags;
    m.step(&mut bus).unwrap();
    assert_eq!(m.pc, 0x10);
    assert_eq!(m.sp, sp - 2);
    m.step(&mut bus).unwrap();
    assert_eq!(m.pc, 3);
    assert_eq!(m.sp, sp);
    assert_eq!(m.flags, flags);
    m.step(&mut bus).unwrap();
    assert!(m.halted());
}

#[test]
fn irq_then_rsi_restores_state() {
    // 0: CLI ; 1: NOP ; 2: NOP ; 0x20: RSI ; vector -> 0x20
    let mut rom = vec![0u8; 0x8000];
    rom[0] = 0x60;
    rom[0x20] = 0x62;
    rom[0x7FFE] = 0x20;
    let mut bus: Bus = MemoryBus::new();
    bus.load_rom_data(&rom).unwrap();
    let mut m = Machine::new();
    m.reset(&mut bus).unwrap();
    m.step(&mut bus).unwrap();
    let before = m;
    m.request_interrupt();
    m.step(&mut bus).unwrap();
    assert_eq!(m.pc, 0x20);
    assert_eq!(m.sp, before.sp - 3);
    assert!(m.get_flag(Flag::InterruptDisabled));
    assert!(!m.get_flag(Flag::InterruptRequestPending));
    m.step(&mut bus).unwrap();
    assert_eq!(m.pc, before.pc);
    assert_eq!(m.sp, before.sp);
    assert_eq!(m.flags, before.flags);
    assert_eq!(m.flags & FLAG_INTERRUPT_PENDING, 0);
}

#[test]
fn pending_irq_waits_while_disabled() {
    let (mut m, mut bus) = boot(&[Instr::Nop, Instr::Nop]);
    m.request_interrupt();
    m.step(&mut bus).unwrap();
    assert_eq!(m.pc, 1);
    assert!(m.get_flag(Flag::InterruptRequestPending));
}

#[test]
fn division_by_zero_is_fatal() {
    let (m0, _, _) = run(&[Instr::MovRegImm(0, 0), Instr::MovRegImm(1, 9)], 2);
    let (m, _, r) = run(&[Instr::MovRegImm(0, 0), Instr::MovRegImm(1, 9), Instr::AluReg(AluOp::Div, 1, 0)], 3);
    assert_eq!(r, Err(VMError::DivideByZero));
    assert_eq!(m.registers[1], 9);
    assert_eq!(m.flags, m0.flags);
    assert_eq!(m.pc, m0.pc);
}

#[test]
fn rom_store_rejected() {
    let (_, _, r) = run(&[Instr::MovRegImm(0, 5), Instr::MovImmReg(0x0100, 0)], 2);
    assert_eq!(r, Err(VMError::MemoryError(MemoryError::WriteNotPermitted(0x0100))));
}

#[test]
fn memory_round_trip_through_ram() {
    let (m, mut bus, r) = run(
        &[
            Instr::MovRegImm(0, 0x9000),
            Instr::MovRegImm(1, 0x1234),
            Instr::MovMemReg(0, 1),
            Instr::MovRegMem(2, 0),
            Instr::Hlt,
        ],
        5,
    );
    assert!(r.is_ok());
    assert_eq!(m.registers[2], 0x1234);
    assert_eq!(bus.read_u8(0x9000), Ok(0x34));
    assert_eq!(bus.read_u8(0x9001), Ok(0x12));
    assert_eq!(m.flags & FLAG_HALT, FLAG_HALT);
}

#[test]
fn ram_word_round_trip() {
    let mut bus: Bus = MemoryBus::new();
    assert!(bus.write_u16(RAM_BASE + 0x10, 0xBEEF).is_ok());
    assert_eq!(bus.read_u16(RAM_BASE + 0x10), Ok(0xBEEF));
}

#[test]
fn word_straddling_regions_is_unmapped() {
    let mut bus: Bus = MemoryBus::new();
    assert_eq!(bus.read_u16(0x7FFF), Err(MemoryError::UnmappedAddress(0x7FFF)));
    assert_eq!(bus.write_u16(0xDFFF, 1), Err(MemoryError::UnmappedAddress(0xDFFF)));
    assert_eq!(bus.read_u8(0xF000), Err(MemoryError::UnmappedAddress(0xF000)));
}

#[test]
fn rom_byte_write_rejected() {
    let mut bus: Bus = MemoryBus::new();
    for a in [0u16, 0x1234, 0x7FFF] {
        assert_eq!(bus.write_u8(a, 1), Err(MemoryError::WriteNotPermitted(a)));
    }
}

#[test]
fn invalid_opcode_and_register() {
    let mut rom = vec![0u8; 0x8000];
    rom[0] = 0x02;
    let mut bus: Bus = MemoryBus::new();
    bus.load_rom_data(&rom).unwrap();
    let mut m = Machine::new();
    m.reset(&mut bus).unwrap();
    assert_eq!(m.step(&mut bus), Err(VMError::InvalidOpcode(0x02)));
    assert_eq!(decode(0x17, &vec![16]), Err(VMError::InvalidRegister(16)));
}

#[test]
fn every_decodable_byte_sequence_reencodes() {
    for op in 0u8..=255 {
        if let Some(n) = operand_count_of(op) {
            let bytes: Vec<u8> = (0..n).map(|k| (k as u8 * 3 + 1) & 0x0F).collect();
            if let Ok(i) = decode(op, &bytes) {
                let mut expected = vec![op];
                expected.extend_from_slice(&bytes);
                assert_eq!(encode(i), expected);
            }
        }
    }
}

#[test]
fn push_from_the_top_stack_byte() {
    let mut bus: Bus = MemoryBus::new();
    let mut m = Machine::new();
    m.sp = STACK_END;
    assert_eq!(m.push_u16(&mut bus, 0xBEEF), Ok(()));
    assert_eq!(m.sp, STACK_END - 2);
    assert_eq!(bus.read_u8(STACK_END), Ok(0xBE));
    assert_eq!(bus.read_u8(STACK_END - 1), Ok(0xEF));
    m.sp = 0xE000;
    assert_eq!(m.push_u16(&mut bus, 1), Err(VMError::StackOverflow));
}

#[test]
fn word_at_a_device_last_byte_is_unmapped() {
    let mut bus: Bus = MemoryBus::new();
    bus.add_device(CupanaConsole::new(0xF000)).unwrap();
    assert_eq!(bus.read_u16(0xF002), Err(MemoryError::UnmappedAddress(0xF002)));
    assert_eq!(bus.write_u16(0xF002, 7), Err(MemoryError::UnmappedAddress(0xF002)));
    assert_eq!(bus.read_u16(0xF001), Ok(0x0002 | (0x00 << 8)));
    assert!(!bus.poll_devices());
}
