use gbc_core::cpu::{Diagnostic, DiagnosticKind, Flags, Registers, CPU};
use gbc_core::mmu::MMU;

fn machine(program: &[u8]) -> (CPU, MMU) {
    let cpu = CPU::new();
    let mut mmu = MMU::new();
    for (i, b) in program.iter().enumerate() {
        mmu.write_byte(0x0100 + i as u16, *b);
    }
    (cpu, mmu)
}

fn flags(cpu: &CPU) -> Flags {
    Flags::from_byte(cpu.registers.f)
}

#[test]
fn new_cpu_defaults() {
    let cpu = CPU::new();
    assert_eq!(cpu.registers.sp, 0xFFFE);
    assert_eq!(cpu.registers.pc, 0x0100);
    assert_eq!(cpu.registers.af(), 0);
    assert!(cpu.interrupts_enabled);
}

#[test]
fn increment_then_decrement_round_trips() {
    let mut cpu = CPU::new();
    for v in 0..=255u8 {
        let d = cpu.decrement_byte(v);
        assert_eq!(flags(&cpu).zero, d == 0);
        assert!(flags(&cpu).subtract);
        let back = cpu.increment_byte(d);
        assert_eq!(back, v);
        assert_eq!(flags(&cpu).zero, v == 0);
        assert!(!flags(&cpu).subtract);
        let i = cpu.increment_byte(v);
        assert_eq!(cpu.decrement_byte(i), v);
    }
}

#[test]
fn increment_flags_exact() {
    let mut cpu = CPU::new();
    cpu.registers.f = 0x10;
    assert_eq!(cpu.increment_byte(0x0F), 0x10);
    assert_eq!(cpu.registers.f, 0x30); // half-carry set, carry kept
    assert_eq!(cpu.increment_byte(0xFF), 0x00);
    assert_eq!(cpu.registers.f, 0xB0);
    cpu.registers.f = 0;
    assert_eq!(cpu.decrement_byte(0x10), 0x0F);
    assert_eq!(cpu.registers.f, 0x60);
    assert_eq!(cpu.decrement_byte(0x01), 0x00);
    assert_eq!(cpu.registers.f, 0xC0);
}

#[test]
fn register_pairs_round_trip() {
    let mut r = Registers::new();
    for v in [0u16, 1, 0x00FF, 0x1234, 0xABCD, 0xFFFF] {
        r.set_bc(v);
        assert_eq!(r.bc(), v);
        r.set_de(v);
        assert_eq!(r.de(), v);
        r.set_hl(v);
        assert_eq!(r.hl(), v);
        r.set_af(v);
        assert_eq!(r.af(), v & 0xFFF0);
    }
    r.set_bc(0x1234);
    assert_eq!((r.b, r.c), (0x12, 0x34));
}

#[test]
fn flags_pack_and_unpack() {
    let f = Flags { zero: true, subtract: false, half_carry: true, carry: false };
    assert_eq!(f.to_byte(), 0xA0);
    assert_eq!(Flags::from_byte(0xA0), f);
    assert_eq!(Flags::from_byte(0x1F), Flags { zero: false, subtract: false, half_carry: false, carry: true });
}

#[test]
fn set_flags_none_keeps_carry() {
    let mut cpu = CPU::new();
    cpu.registers.f = 0x10;
    cpu.set_flags(true, false, false, None);
    assert_eq!(cpu.registers.f, 0x90);
    cpu.set_flags(false, true, true, Some(false));
    assert_eq!(cpu.registers.f, 0x60);
}

#[test]
fn read_word_is_little_endian() {
    let (cpu, mmu) = machine(&[0x01, 0x34, 0x12]);
    assert_eq!(cpu.read_word(&mmu), 0x1234);
}

#[test]
fn nop_advances_one() {
    let (mut cpu, mut mmu) = machine(&[0x00]);
    assert_eq!(cpu.step(&mut mmu), None);
    assert_eq!(cpu.registers.pc, 0x0101);
}

#[test]
fn load_immediates() {
    let (mut cpu, mut mmu) = machine(&[
        0x01, 0x34, 0x12, // LD BC
        0x11, 0x78, 0x56, // LD DE
        0x21, 0xBC, 0x9A, // LD HL
        0x31, 0x00, 0xD0, // LD SP
        0x06, 0x42, // LD B
        0x3E, 0x99, // LD A
        0x26, 0x77, // LD H
    ]);
    for _ in 0..7 {
        assert_eq!(cpu.step(&mut mmu), None);
    }
    assert_eq!(cpu.registers.c, 0x34);
    assert_eq!(cpu.registers.b, 0x42);
    assert_eq!(cpu.registers.de(), 0x5678);
    assert_eq!(cpu.registers.h, 0x77);
    assert_eq!(cpu.registers.l, 0xBC);
    assert_eq!(cpu.registers.sp, 0xD000);
    assert_eq!(cpu.registers.a, 0x99);
    assert_eq!(cpu.registers.pc, 0x0100 + 18);
}

#[test]
fn register_copies() {
    let (mut cpu, mut mmu) = machine(&[0x78, 0x7A, 0x7C, 0x7D]);
    cpu.registers.b = 1;
    cpu.registers.d = 2;
    cpu.registers.h = 3;
    cpu.registers.l = 4;
    cpu.step(&mut mmu);
    assert_eq!(cpu.registers.a, 1);
    cpu.step(&mut mmu);
    assert_eq!(cpu.registers.a, 2);
    cpu.step(&mut mmu);
    assert_eq!(cpu.registers.a, 3);
    cpu.step(&mut mmu);
    assert_eq!(cpu.registers.a, 4);
    assert_eq!(cpu.registers.pc, 0x0104);
    assert_eq!(cpu.registers.f, 0);
}

#[test]
fn inc_registers_keep_carry() {
    let (mut cpu, mut mmu) = machine(&[0x04, 0x3C]);
    cpu.registers.b = 0xFF;
    cpu.registers.a = 0x0F;
    cpu.registers.f = 0x10;
    cpu.step(&mut mmu);
    assert_eq!(cpu.registers.b, 0);
    assert_eq!(cpu.registers.f, 0xB0);
    cpu.step(&mut mmu);
    assert_eq!(cpu.registers.a, 0x10);
    assert_eq!(cpu.registers.f, 0x30);
}

#[test]
fn decrement_pairs_wrap_without_flags() {
    let (mut cpu, mut mmu) = machine(&[0x0B, 0x1B]);
    cpu.registers.f = 0x50;
    cpu.step(&mut mmu);
    assert_eq!(cpu.registers.bc(), 0xFFFF);
    cpu.registers.set_de(0x1000);
    cpu.step(&mut mmu);
    assert_eq!(cpu.registers.de(), 0x0FFF);
    assert_eq!(cpu.registers.f, 0x50);
}

#[test]
fn jump_relative_unconditional() {
    let (mut cpu, mut mmu) = machine(&[0x18, 0x05]);
    cpu.step(&mut mmu);
    assert_eq!(cpu.registers.pc, 0x0107);
    mmu.write_byte(0x0107, 0x18);
    mmu.write_byte(0x0108, 0xF7); // -9
    cpu.step(&mut mmu);
    assert_eq!(cpu.registers.pc, 0x0100);
}

#[test]
fn jump_relative_not_zero_loops_on_itself() {
    let (mut cpu, mut mmu) = machine(&[0x20, 0xFE]);
    cpu.registers.f = 0x00;
    cpu.step(&mut mmu);
    assert_eq!(cpu.registers.pc, 0x0100);
}

#[test]
fn jump_relative_not_zero_falls_through_when_zero() {
    let (mut cpu, mut mmu) = machine(&[0x20, 0xFE]);
    cpu.registers.f = 0x80;
    cpu.step(&mut mmu);
    assert_eq!(cpu.registers.pc, 0x0102);
}

#[test]
fn jump_absolute() {
    let (mut cpu, mut mmu) = machine(&[0xC3, 0x50, 0x01]);
    cpu.step(&mut mmu);
    assert_eq!(cpu.registers.pc, 0x0150);
}

#[test]
fn sub_immediate_borrows_from_bit_four() {
    let (mut cpu, mut mmu) = machine(&[0xD6, 0x01]);
    cpu.registers.a = 0x10;
    cpu.step(&mut mmu);
    assert_eq!(cpu.registers.a, 0x0F);
    let f = flags(&cpu);
    assert!(!f.zero);
    assert!(f.subtract);
    assert!(f.half_carry);
    assert!(!f.carry);
    assert_eq!(cpu.registers.pc, 0x0102);
}

#[test]
fn sub_immediate_underflow_sets_carry() {
    let (mut cpu, mut mmu) = machine(&[0xD6, 0x20]);
    cpu.registers.a = 0x10;
    cpu.step(&mut mmu);
    assert_eq!(cpu.registers.a, 0xF0);
    assert_eq!(cpu.registers.f, 0x50);
}

#[test]
fn compare_keeps_a() {
    let (mut cpu, mut mmu) = machine(&[0xFE, 0x42, 0xFE, 0x43]);
    cpu.registers.a = 0x42;
    cpu.step(&mut mmu);
    assert_eq!(cpu.registers.a, 0x42);
    assert_eq!(cpu.registers.f, 0xC0);
    cpu.step(&mut mmu);
    assert_eq!(cpu.registers.a, 0x42);
    assert_eq!(cpu.registers.f, 0x70);
    assert_eq!(cpu.registers.pc, 0x0104);
}

#[test]
fn and_immediate_to_zero() {
    let (mut cpu, mut mmu) = machine(&[0xE6, 0x0F]);
    cpu.registers.a = 0xF0;
    cpu.step(&mut mmu);
    assert_eq!(cpu.registers.a, 0x00);
    let f = flags(&cpu);
    assert!(f.zero);
    assert!(f.half_carry);
    assert!(!f.carry);
    assert!(!f.subtract);
}

#[test]
fn or_immediate_and_or_e() {
    let (mut cpu, mut mmu) = machine(&[0xF6, 0x0F, 0xB3]);
    cpu.registers.a = 0xF0;
    cpu.registers.f = 0x70;
    cpu.step(&mut mmu);
    assert_eq!(cpu.registers.a, 0xFF);
    assert_eq!(cpu.registers.f, 0x00);
    cpu.registers.a = 0;
    cpu.registers.e = 0;
    cpu.step(&mut mmu);
    assert_eq!(cpu.registers.f, 0x80);
    assert_eq!(cpu.registers.pc, 0x0103);
}

#[test]
fn add_with_carry_exact_carry_out() {
    let (mut cpu, mut mmu) = machine(&[0x8F, 0x8F, 0x8F]);
    cpu.registers.a = 0x80;
    cpu.registers.f = 0x10;
    cpu.step(&mut mmu);
    // 0x80 + 0x80 + 1 = 0x101
    assert_eq!(cpu.registers.a, 0x01);
    assert_eq!(cpu.registers.f, 0x10);
    cpu.registers.a = 0x08;
    cpu.registers.f = 0x00;
    cpu.step(&mut mmu);
    assert_eq!(cpu.registers.a, 0x10);
    assert_eq!(cpu.registers.f, 0x20);
    // A = 0xFF, carry in: 0xFF + 0xFF + 1 = 0x1FF, wrapped 0xFF, which is not
    // below A: only the widened sum sees the carry.
    cpu.registers.a = 0xFF;
    cpu.registers.f = 0x10;
    cpu.step(&mut mmu);
    assert_eq!(cpu.registers.a, 0xFF);
    assert_eq!(cpu.registers.f, 0x30);
}

#[test]
fn carry_flag_instructions_keep_zero() {
    let (mut cpu, mut mmu) = machine(&[0x37, 0x3F, 0x3F]);
    cpu.registers.f = 0xE0;
    cpu.step(&mut mmu);
    assert_eq!(cpu.registers.f, 0x90);
    cpu.step(&mut mmu);
    assert_eq!(cpu.registers.f, 0x80);
    cpu.step(&mut mmu);
    assert_eq!(cpu.registers.f, 0x90);
    assert_eq!(cpu.registers.pc, 0x0103);
}

#[test]
fn store_through_hl_then_decrement() {
    let (mut cpu, mut mmu) = machine(&[0x32]);
    cpu.registers.a = 0x5A;
    cpu.registers.set_hl(0xC000);
    cpu.step(&mut mmu);
    assert_eq!(mmu.read_byte(0xC000), 0x5A);
    assert_eq!(cpu.registers.hl(), 0xBFFF);
    assert_eq!(cpu.registers.pc, 0x0101);
}

#[test]
fn store_direct_and_io_page() {
    let (mut cpu, mut mmu) = machine(&[0xEA, 0x00, 0xC1, 0xE0, 0x47]);
    cpu.registers.a = 0x33;
    cpu.step(&mut mmu);
    assert_eq!(mmu.read_byte(0xC100), 0x33);
    assert_eq!(cpu.registers.pc, 0x0103);
    cpu.step(&mut mmu);
    assert_eq!(mmu.read_byte(0xFF47), 0x33);
    assert_eq!(cpu.registers.pc, 0x0105);
}

#[test]
fn call_then_return() {
    let (mut cpu, mut mmu) = machine(&[0xCD, 0x00, 0x02]);
    mmu.write_byte(0x0200, 0xC9);
    cpu.step(&mut mmu);
    assert_eq!(cpu.registers.pc, 0x0200);
    assert_eq!(cpu.registers.sp, 0xFFFC);
    assert_eq!(mmu.read_byte(0xFFFC), 0x03);
    assert_eq!(mmu.read_byte(0xFFFD), 0x01);
    cpu.step(&mut mmu);
    assert_eq!(cpu.registers.pc, 0x0103);
    assert_eq!(cpu.registers.sp, 0xFFFE);
}

#[test]
fn restart_then_return() {
    let (mut cpu, mut mmu) = machine(&[0xFF, 0xDF]);
    mmu.write_byte(0x0038, 0xC9);
    mmu.write_byte(0x0018, 0xC9);
    cpu.step(&mut mmu);
    assert_eq!(cpu.registers.pc, 0x0038);
    assert_eq!(cpu.registers.sp, 0xFFFC);
    cpu.step(&mut mmu);
    assert_eq!(cpu.registers.pc, 0x0101);
    assert_eq!(cpu.registers.sp, 0xFFFE);
    cpu.step(&mut mmu);
    assert_eq!(cpu.registers.pc, 0x0018);
    cpu.step(&mut mmu);
    assert_eq!(cpu.registers.pc, 0x0102);
    assert_eq!(cpu.registers.sp, 0xFFFE);
}

#[test]
fn call_then_pop_af() {
    let (mut cpu, mut mmu) = machine(&[0xCD, 0x00, 0x02]);
    mmu.write_byte(0x0200, 0xF1);
    cpu.step(&mut mmu);
    cpu.step(&mut mmu);
    assert_eq!(cpu.registers.af(), 0x0100);
    assert_eq!(cpu.registers.sp, 0xFFFE);
    assert_eq!(cpu.registers.pc, 0x0201);
}

#[test]
fn pop_af_masks_low_nibble() {
    let (mut cpu, mut mmu) = machine(&[0xF1]);
    cpu.registers.sp = 0xC000;
    mmu.write_byte(0xC000, 0xFF);
    mmu.write_byte(0xC001, 0x12);
    cpu.step(&mut mmu);
    assert_eq!(cpu.registers.a, 0x12);
    assert_eq!(cpu.registers.f, 0xF0);
    assert_eq!(cpu.registers.sp, 0xC002);
}

#[test]
fn interrupt_toggles() {
    let (mut cpu, mut mmu) = machine(&[0xF3, 0xFB]);
    cpu.step(&mut mmu);
    assert!(!cpu.interrupts_enabled);
    cpu.step(&mut mmu);
    assert!(cpu.interrupts_enabled);
    assert_eq!(cpu.registers.pc, 0x0102);
}

#[test]
fn extended_rotate_left_through_carry() {
    let (mut cpu, mut mmu) = machine(&[0xCB, 0x11, 0xCB, 0x11]);
    cpu.registers.c = 0x80;
    cpu.registers.f = 0x00;
    assert_eq!(cpu.step(&mut mmu), None);
    assert_eq!(cpu.registers.c, 0x00);
    assert_eq!(cpu.registers.f, 0x90);
    assert_eq!(cpu.registers.pc, 0x0102);
    cpu.step(&mut mmu);
    assert_eq!(cpu.registers.c, 0x01);
    assert_eq!(cpu.registers.f, 0x00);
    assert_eq!(cpu.registers.pc, 0x0104);
}

#[test]
fn unknown_extended_opcode_skips_two() {
    let (mut cpu, mut mmu) = machine(&[0xCB, 0x00]);
    let d = cpu.step(&mut mmu);
    assert_eq!(
        d,
        Some(Diagnostic { kind: DiagnosticKind::UnknownExtendedOpcode, opcode: 0x00, pc: 0x0100 })
    );
    assert_eq!(cpu.registers.pc, 0x0102);
}

#[test]
fn unknown_opcode_advances_one() {
    let (mut cpu, mut mmu) = machine(&[0xED]);
    cpu.registers.sp = 0;
    let d = cpu.step(&mut mmu);
    assert_eq!(d, Some(Diagnostic { kind: DiagnosticKind::UnknownOpcode, opcode: 0xED, pc: 0x0100 }));
    assert_eq!(cpu.registers.pc, 0x0101);
    let r = &cpu.registers;
    assert_eq!((r.a, r.f, r.b, r.c, r.d, r.e, r.h, r.l, r.sp), (0, 0, 0, 0, 0, 0, 0, 0, 0));
    assert!(cpu.interrupts_enabled);
}

#[test]
fn pc_wraps_at_top_of_memory() {
    let mut cpu = CPU::new();
    let mut mmu = MMU::new();
    cpu.registers.pc = 0xFFFF;
    mmu.write_byte(0xFFFF, 0x3E);
    mmu.write_byte(0x0000, 0x77);
    cpu.step(&mut mmu);
    assert_eq!(cpu.registers.a, 0x77);
    assert_eq!(cpu.registers.pc, 0x0001);
}
