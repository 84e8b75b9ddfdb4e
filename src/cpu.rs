use vstd::prelude::*;

use crate::mmu::{MMU, MEMORY_SIZE};

verus! {

// ---------------------------------------------------------------------------
// Arithmetic on machine words
// ---------------------------------------------------------------------------

/// An integer reduced to an 8-bit value (wrapping).
pub open spec fn wrap8(x: int) -> u8 {
    (x % 256) as u8
}

/// An integer reduced to a 16-bit value (wrapping).
pub open spec fn wrap16(x: int) -> u16 {
    (x % 65536) as u16
}

/// The 16-bit value whose high byte is `hi` and low byte is `lo`.
pub open spec fn word(hi: u8, lo: u8) -> u16 {
    (hi * 256 + lo) as u16
}

/// The high byte of a 16-bit value.
pub open spec fn high(v: u16) -> u8 {
    (v / 256) as u8
}

/// The low byte of a 16-bit value.
pub open spec fn low(v: u16) -> u8 {
    (v % 256) as u8
}

/// A byte read as a two's-complement displacement.
pub open spec fn signed(x: u8) -> int {
    if x < 128 {
        x as int
    } else {
        x - 256
    }
}

/// `x + k`, wrapping at 16 bits.
fn add16(x: u16, k: u16) -> (r: u16)
    ensures
        r == wrap16(x + k),
{
    ((x as u32 + k as u32) % 65536) as u16
}

/// `x - k`, wrapping at 16 bits.
fn sub16(x: u16, k: u16) -> (r: u16)
    ensures
        r == wrap16(x - k),
{
    ((x as u32 + 65536 - k as u32) % 65536) as u16
}

/// `a - b`, wrapping at 8 bits.
fn sub8(a: u8, b: u8) -> (r: u8)
    ensures
        r == wrap8(a - b),
        r == 0 <==> a == b,
{
    ((a as u16 + 256 - b as u16) % 256) as u8
}

/// The target of a relative jump whose opcode is at `pc` and whose
/// displacement byte is `d`.
fn relative_target(pc: u16, d: u8) -> (r: u16)
    ensures
        r == wrap16(pc + 2 + signed(d)),
{
    if d < 128 {
        ((pc as u32 + 2 + d as u32) % 65536) as u16
    } else {
        let t: u32 = pc as u32 + 2 + d as u32 + 65280;
        assert(t % 65536 == (pc + 2 + d - 256) % 65536) by (nonlinear_arith)
            requires
                t == pc + 2 + d + 65280,
        ;
        (t % 65536) as u16
    }
}

// ---------------------------------------------------------------------------
// Flags
// ---------------------------------------------------------------------------

/// The four meaningful bits of the flags register, by name.
#[derive(Clone, Copy, Debug, PartialEq, Eq, Structural)]
pub struct Flags {
    pub zero: bool,
    pub subtract: bool,
    pub half_carry: bool,
    pub carry: bool,
}

/// The flags byte: Zero in bit 7, Subtract in bit 6, Half-carry in bit 5,
/// Carry in bit 4, and the low nibble clear.
pub open spec fn pack(fl: Flags) -> u8 {
    ((if fl.zero { 128int } else { 0int }) + (if fl.subtract { 64int } else { 0int }) + (if fl.half_carry {
        32int
    } else {
        0int
    }) + (if fl.carry { 16int } else { 0int })) as u8
}

/// The flags that a flags byte holds; its low nibble is ignored.
pub open spec fn unpack(f: u8) -> Flags {
    Flags {
        zero: (f / 128) % 2 == 1,
        subtract: (f / 64) % 2 == 1,
        half_carry: (f / 32) % 2 == 1,
        carry: (f / 16) % 2 == 1,
    }
}

/// Packing then unpacking gives the flags back, and a packed byte has a clear
/// low nibble.
pub proof fn lemma_pack_unpack(fl: Flags)
    ensures
        unpack(pack(fl)) == fl,
        pack(fl) % 16 == 0,
{
}

impl Flags {
    pub fn from_byte(f: u8) -> (r: Flags)
        ensures
            r == unpack(f),
    {
        Flags {
            zero: (f / 128) % 2 == 1,
            subtract: (f / 64) % 2 == 1,
            half_carry: (f / 32) % 2 == 1,
            carry: (f / 16) % 2 == 1,
        }
    }

    pub fn to_byte(&self) -> (r: u8)
        ensures
            r == pack(*self),
            r % 16 == 0,
    {
        let mut f: u8 = 0;
        if self.zero {
            f = f + 0x80;
        }
        if self.subtract {
            f = f + 0x40;
        }
        if self.half_carry {
            f = f + 0x20;
        }
        if self.carry {
            f = f + 0x10;
        }
        f
    }
}

// ---------------------------------------------------------------------------
// Register file
// ---------------------------------------------------------------------------

pub struct Registers {
    pub a: u8,
    pub f: u8,
    pub b: u8,
    pub c: u8,
    pub d: u8,
    pub e: u8,
    pub h: u8,
    pub l: u8,
    pub sp: u16,
    pub pc: u16,
}

impl Registers {
    pub open spec fn with_af(self, v: u16) -> Registers {
        Registers { a: high(v), f: (low(v) / 16 * 16) as u8, ..self }
    }

    pub open spec fn with_bc(self, v: u16) -> Registers {
        Registers { b: high(v), c: low(v), ..self }
    }

    pub open spec fn with_de(self, v: u16) -> Registers {
        Registers { d: high(v), e: low(v), ..self }
    }

    pub open spec fn with_hl(self, v: u16) -> Registers {
        Registers { h: high(v), l: low(v), ..self }
    }

    pub fn new() -> (r: Self)
        ensures
            r == (Registers { a: 0, f: 0, b: 0, c: 0, d: 0, e: 0, h: 0, l: 0, sp: 0xFFFE, pc: 0x0100 }),
    {
        Registers { a: 0, f: 0, b: 0, c: 0, d: 0, e: 0, h: 0, l: 0, sp: 0xFFFE, pc: 0x0100 }
    }

    pub fn af(&self) -> (r: u16)
        ensures
            r == word(self.a, self.f),
    {
        self.a as u16 * 256 + self.f as u16
    }

    /// Writes A and F; the low nibble of F is always cleared.
    pub fn set_af(&mut self, value: u16)
        ensures
            *final(self) == old(self).with_af(value),
    {
        self.a = (value / 256) as u8;
        let lo = (value % 256) as u8;
        self.f = lo / 16 * 16;
    }

    pub fn bc(&self) -> (r: u16)
        ensures
            r == word(self.b, self.c),
    {
        self.b as u16 * 256 + self.c as u16
    }

    pub fn set_bc(&mut self, value: u16)
        ensures
            *final(self) == old(self).with_bc(value),
    {
        self.b = (value / 256) as u8;
        self.c = (value % 256) as u8;
    }

    pub fn de(&self) -> (r: u16)
        ensures
            r == word(self.d, self.e),
    {
        self.d as u16 * 256 + self.e as u16
    }

    pub fn set_de(&mut self, value: u16)
        ensures
            *final(self) == old(self).with_de(value),
    {
        self.d = (value / 256) as u8;
        self.e = (value % 256) as u8;
    }

    pub fn hl(&self) -> (r: u16)
        ensures
            r == word(self.h, self.l),
    {
        self.h as u16 * 256 + self.l as u16
    }

    pub fn set_hl(&mut self, value: u16)
        ensures
            *final(self) == old(self).with_hl(value),
    {
        self.h = (value / 256) as u8;
        self.l = (value % 256) as u8;
    }
}

/// A register pair written through its setter reads back unchanged through
/// its getter for BC, DE and HL; AF reads back with the low nibble cleared.
pub proof fn lemma_pair_round_trip(r: Registers, v: u16)
    ensures
        word(r.with_bc(v).b, r.with_bc(v).c) == v,
        word(r.with_de(v).d, r.with_de(v).e) == v,
        word(r.with_hl(v).h, r.with_hl(v).l) == v,
        word(r.with_af(v).a, r.with_af(v).f) == v - v % 16,
{
}

// ---------------------------------------------------------------------------
// Memory as seen by the CPU
// ---------------------------------------------------------------------------

/// The byte at an address taken modulo 65536.
pub open spec fn byte_at(m: Seq<u8>, addr: int) -> u8 {
    m[wrap16(addr) as int]
}

/// The little-endian word whose low byte is at `addr` and high byte at `addr + 1`.
pub open spec fn word_at(m: Seq<u8>, addr: int) -> u16 {
    word(byte_at(m, addr + 1), byte_at(m, addr))
}

/// Memory after `v` is pushed onto a stack whose pointer is `sp`: the low
/// byte lands at `sp - 2`, the high byte at `sp - 1`.
pub open spec fn push(m: Seq<u8>, sp: u16, v: u16) -> Seq<u8> {
    m.update(wrap16(sp - 2) as int, low(v)).update(wrap16(sp - 1) as int, high(v))
}

// ---------------------------------------------------------------------------
// Flag rules
// ---------------------------------------------------------------------------

/// 1 when the Carry flag of `f` is set, else 0.
pub open spec fn carry_in(f: u8) -> int {
    if unpack(f).carry {
        1
    } else {
        0
    }
}

/// Flags after an 8-bit increment of `v`; Carry is kept from `f`.
pub open spec fn inc_flags(f: u8, v: u8) -> u8 {
    pack(
        Flags {
            zero: wrap8(v + 1) == 0,
            subtract: false,
            half_carry: v % 16 == 15,
            carry: unpack(f).carry,
        },
    )
}

/// Flags after an 8-bit decrement of `v`; Carry is kept from `f`.
pub open spec fn dec_flags(f: u8, v: u8) -> u8 {
    pack(
        Flags {
            zero: wrap8(v - 1) == 0,
            subtract: true,
            half_carry: v % 16 == 0,
            carry: unpack(f).carry,
        },
    )
}

/// Flags after computing `a - v` (SUB and CP).
pub open spec fn sub_flags(a: u8, v: u8) -> u8 {
    pack(
        Flags { zero: wrap8(a - v) == 0, subtract: true, half_carry: a % 16 < v % 16, carry: a < v },
    )
}

/// Flags after a bitwise operation with result `res`.
pub open spec fn logic_flags(res: u8, half_carry: bool) -> u8 {
    pack(Flags { zero: res == 0, subtract: false, half_carry, carry: false })
}

/// The unwrapped sum of ADC A,A.
pub open spec fn adc_sum(f: u8, a: u8) -> int {
    2 * a + carry_in(f)
}

/// Flags after ADC A,A.
pub open spec fn adc_flags(f: u8, a: u8) -> u8 {
    pack(
        Flags {
            zero: wrap8(adc_sum(f, a)) == 0,
            subtract: false,
            half_carry: 2 * (a % 16) + carry_in(f) > 15,
            carry: adc_sum(f, a) > 255,
        },
    )
}

/// `v` rotated left through the carry flag of `f`.
pub open spec fn rotate_left(f: u8, v: u8) -> u8 {
    wrap8(2 * v + carry_in(f))
}

/// Flags after rotating `v` left through the carry flag of `f`.
pub open spec fn rotate_left_flags(f: u8, v: u8) -> u8 {
    pack(
        Flags { zero: rotate_left(f, v) == 0, subtract: false, half_carry: false, carry: v >= 128 },
    )
}

/// Flags after CCF (`set == false`) or SCF (`set == true`): Zero kept,
/// Subtract and Half-carry cleared, Carry flipped or set.
pub open spec fn carry_op_flags(f: u8, set: bool) -> u8 {
    pack(
        Flags {
            zero: unpack(f).zero,
            subtract: false,
            half_carry: false,
            carry: set || !unpack(f).carry,
        },
    )
}

// ---------------------------------------------------------------------------
// Instruction semantics
// ---------------------------------------------------------------------------

/// The effect of an extended (0xCB-prefixed) opcode on the registers, before
/// the program counter moves past the two-byte instruction.
pub open spec fn execute_extended(op: u8, r: Registers) -> Registers {
    if op == 0x11 {
        Registers { c: rotate_left(r.f, r.c), f: rotate_left_flags(r.f, r.c), ..r }
    } else {
        r
    }
}

/// The opcodes of the primary table that have a handler.
pub open spec fn is_known_opcode(op: u8) -> bool {
    op == 0x00 || op == 0x01 || op == 0x04 || op == 0x06 || op == 0x0B || op == 0x11 || op == 0x18
        || op == 0x1B || op == 0x20 || op == 0x21 || op == 0x26 || op == 0x31 || op == 0x32 || op
        == 0x37 || op == 0x3C || op == 0x3E || op == 0x3F || op == 0x78 || op == 0x7A || op == 0x7C
        || op == 0x7D || op == 0x8F || op == 0xB3 || op == 0xC3 || op == 0xC9 || op == 0xCB || op
        == 0xCD || op == 0xD6 || op == 0xDF || op == 0xE0 || op == 0xE6 || op == 0xEA || op == 0xF1
        || op == 0xF3 || op == 0xF6 || op == 0xFB || op == 0xFE || op == 0xFF
}

/// The opcodes of the extended table that have a handler.
pub open spec fn is_known_extended(op: u8) -> bool {
    op == 0x11
}

/// The state and memory after the instruction `op` runs with the program
/// counter at its first byte.
#[verifier::opaque]
pub open spec fn execute(op: u8, s: CPU, m: Seq<u8>) -> (CPU, Seq<u8>) {
    let r = s.registers;
    let pc = r.pc;
    let n8 = byte_at(m, pc + 1);
    let n16 = word_at(m, pc + 1);
    let next1 = wrap16(pc + 1);
    let next2 = wrap16(pc + 2);
    let next3 = wrap16(pc + 3);
    let relative = wrap16(pc + 2 + signed(n8));
    match op {
        0x01 => (s.with_registers(Registers { pc: next3, ..r.with_bc(n16) }), m),
        0x04 => (
            s.with_registers(Registers { b: wrap8(r.b + 1), f: inc_flags(r.f, r.b), pc: next1, ..r }),
            m,
        ),
        0x06 => (s.with_registers(Registers { b: n8, pc: next2, ..r }), m),
        0x0B => (
            s.with_registers(Registers { pc: next1, ..r.with_bc(wrap16(word(r.b, r.c) - 1)) }),
            m,
        ),
        0x11 => (s.with_registers(Registers { pc: next3, ..r.with_de(n16) }), m),
        0x18 => (s.with_registers(Registers { pc: relative, ..r }), m),
        0x1B => (
            s.with_registers(Registers { pc: next1, ..r.with_de(wrap16(word(r.d, r.e) - 1)) }),
            m,
        ),
        0x20 => (
            s.with_registers(
                Registers {
                    pc: if unpack(r.f).zero {
                        next2
                    } else {
                        relative
                    },
                    ..r
                },
            ),
            m,
        ),
        0x21 => (s.with_registers(Registers { pc: next3, ..r.with_hl(n16) }), m),
        0x26 => (s.with_registers(Registers { h: n8, pc: next2, ..r }), m),
        0x31 => (s.with_registers(Registers { sp: n16, pc: next3, ..r }), m),
        0x32 => (
            s.with_registers(Registers { pc: next1, ..r.with_hl(wrap16(word(r.h, r.l) - 1)) }),
            m.update(word(r.h, r.l) as int, r.a),
        ),
        0x37 => (s.with_registers(Registers { f: carry_op_flags(r.f, true), pc: next1, ..r }), m),
        0x3C => (
            s.with_registers(Registers { a: wrap8(r.a + 1), f: inc_flags(r.f, r.a), pc: next1, ..r }),
            m,
        ),
        0x3E => (s.with_registers(Registers { a: n8, pc: next2, ..r }), m),
        0x3F => (s.with_registers(Registers { f: carry_op_flags(r.f, false), pc: next1, ..r }), m),
        0x78 => (s.with_registers(Registers { a: r.b, pc: next1, ..r }), m),
        0x7A => (s.with_registers(Registers { a: r.d, pc: next1, ..r }), m),
        0x7C => (s.with_registers(Registers { a: r.h, pc: next1, ..r }), m),
        0x7D => (s.with_registers(Registers { a: r.l, pc: next1, ..r }), m),
        0x8F => (
            s.with_registers(
                Registers { a: wrap8(adc_sum(r.f, r.a)), f: adc_flags(r.f, r.a), pc: next1, ..r },
            ),
            m,
        ),
        0xB3 => (
            s.with_registers(
                Registers { a: r.a | r.e, f: logic_flags(r.a | r.e, false), pc: next1, ..r },
            ),
            m,
        ),
        0xC3 => (s.with_registers(Registers { pc: n16, ..r }), m),
        0xC9 => (
            s.with_registers(Registers { pc: word_at(m, r.sp as int), sp: wrap16(r.sp + 2), ..r }),
            m,
        ),
        0xCB => (
            s.with_registers(Registers { pc: next2, ..execute_extended(n8, r) }),
            m,
        ),
        0xCD => (
            s.with_registers(Registers { sp: wrap16(r.sp - 2), pc: n16, ..r }),
            push(m, r.sp, next3),
        ),
        0xD6 => (
            s.with_registers(
                Registers { a: wrap8(r.a - n8), f: sub_flags(r.a, n8), pc: next2, ..r },
            ),
            m,
        ),
        0xDF => (
            s.with_registers(Registers { sp: wrap16(r.sp - 2), pc: 0x18, ..r }),
            push(m, r.sp, next1),
        ),
        0xE0 => (
            s.with_registers(Registers { pc: next2, ..r }),
            m.update(0xFF00 + n8, r.a),
        ),
        0xE6 => (
            s.with_registers(
                Registers { a: r.a & n8, f: logic_flags(r.a & n8, true), pc: next2, ..r },
            ),
            m,
        ),
        0xEA => (s.with_registers(Registers { pc: next3, ..r }), m.update(n16 as int, r.a)),
        0xF1 => (
            s.with_registers(
                Registers {
                    sp: wrap16(r.sp + 2),
                    pc: next1,
                    ..r.with_af(word_at(m, r.sp as int))
                },
            ),
            m,
        ),
        0xF3 => (CPU { registers: Registers { pc: next1, ..r }, interrupts_enabled: false }, m),
        0xF6 => (
            s.with_registers(
                Registers { a: r.a | n8, f: logic_flags(r.a | n8, false), pc: next2, ..r },
            ),
            m,
        ),
        0xFB => (CPU { registers: Registers { pc: next1, ..r }, interrupts_enabled: true }, m),
        0xFE => (s.with_registers(Registers { f: sub_flags(r.a, n8), pc: next2, ..r }), m),
        0xFF => (
            s.with_registers(Registers { sp: wrap16(r.sp - 2), pc: 0x38, ..r }),
            push(m, r.sp, next1),
        ),
        // NOP, and every opcode without a handler: skip one byte.
        _ => (s.with_registers(Registers { pc: next1, ..r }), m),
    }
}

/// The state and memory after one step: the opcode is the byte at PC.
pub open spec fn next(s: CPU, m: Seq<u8>) -> (CPU, Seq<u8>) {
    execute(byte_at(m, s.registers.pc as int), s, m)
}

/// The diagnostic that the instruction `op` reports, if any.
pub open spec fn execute_diagnostic(op: u8, s: CPU, m: Seq<u8>) -> Option<Diagnostic> {
    let pc = s.registers.pc;
    if op == 0xCB {
        let ext = byte_at(m, pc + 1);
        if is_known_extended(ext) {
            None
        } else {
            Some(Diagnostic { kind: DiagnosticKind::UnknownExtendedOpcode, opcode: ext, pc })
        }
    } else if is_known_opcode(op) {
        None
    } else {
        Some(Diagnostic { kind: DiagnosticKind::UnknownOpcode, opcode: op, pc })
    }
}

/// The diagnostic that one step reports, if any.
pub open spec fn diagnostic(s: CPU, m: Seq<u8>) -> Option<Diagnostic> {
    execute_diagnostic(byte_at(m, s.registers.pc as int), s, m)
}

// ---------------------------------------------------------------------------
// Laws of the instruction set
// ---------------------------------------------------------------------------

/// Incrementing undoes decrementing and decrementing undoes incrementing
/// (modulo 256), and the Zero flag of each is set exactly when its result is 0.
pub proof fn lemma_increment_decrement_inverse(f: u8, v: u8)
    ensures
        wrap8(wrap8(v - 1) + 1) == v,
        wrap8(wrap8(v + 1) - 1) == v,
        unpack(inc_flags(f, v)).zero == (wrap8(v + 1) == 0),
        unpack(dec_flags(f, v)).zero == (wrap8(v - 1) == 0),
{
    lemma_pack_unpack(
        Flags {
            zero: wrap8(v + 1) == 0,
            subtract: false,
            half_carry: v % 16 == 15,
            carry: unpack(f).carry,
        },
    );
    lemma_pack_unpack(
        Flags {
            zero: wrap8(v - 1) == 0,
            subtract: true,
            half_carry: v % 16 == 0,
            carry: unpack(f).carry,
        },
    );
}

/// A word pushed onto the stack is read back exactly from the new stack
/// pointer, and popping it (adding 2) gives the old stack pointer back.
pub proof fn lemma_push_pop(m: Seq<u8>, sp: u16, v: u16)
    requires
        m.len() == MEMORY_SIZE,
    ensures
        word_at(push(m, sp, v), wrap16(sp - 2) as int) == v,
        wrap16(wrap16(sp - 2) + 2) == sp,
{
    let top = wrap16(sp - 2);
    assert(wrap16(top as int) == top);
    assert(wrap16(top + 1) == wrap16(sp - 1));
    assert(wrap16(sp - 1) != top);
}

/// CALL directly followed by RET at the called address returns to the
/// instruction after the CALL, with the stack pointer it had before.
pub proof fn lemma_call_then_return(s: CPU, m: Seq<u8>)
    requires
        m.len() == MEMORY_SIZE,
        byte_at(m, s.registers.pc as int) == 0xCD,
        byte_at(next(s, m).1, next(s, m).0.registers.pc as int) == 0xC9,
    ensures
        next(next(s, m).0, next(s, m).1).0.registers.pc == wrap16(s.registers.pc + 3),
        next(next(s, m).0, next(s, m).1).0.registers.sp == s.registers.sp,
{
    reveal(execute);
    lemma_push_pop(m, s.registers.sp, wrap16(s.registers.pc + 3));
}

/// A restart (RST 18H or RST 38H) directly followed by RET at its target
/// returns to the instruction after the restart, with the stack pointer it
/// had before.
pub proof fn lemma_restart_then_return(s: CPU, m: Seq<u8>)
    requires
        m.len() == MEMORY_SIZE,
        byte_at(m, s.registers.pc as int) == 0xDF || byte_at(m, s.registers.pc as int) == 0xFF,
        byte_at(next(s, m).1, next(s, m).0.registers.pc as int) == 0xC9,
    ensures
        next(next(s, m).0, next(s, m).1).0.registers.pc == wrap16(s.registers.pc + 1),
        next(next(s, m).0, next(s, m).1).0.registers.sp == s.registers.sp,
{
    reveal(execute);
    lemma_push_pop(m, s.registers.sp, wrap16(s.registers.pc + 1));
}

/// A CALL or restart directly followed by POP AF leaves in AF the pushed
/// return address (with the low nibble of F cleared, as every AF write does),
/// with the stack pointer it had before.
pub proof fn lemma_call_then_pop(s: CPU, m: Seq<u8>)
    requires
        m.len() == MEMORY_SIZE,
        byte_at(m, s.registers.pc as int) == 0xCD || byte_at(m, s.registers.pc as int) == 0xDF
            || byte_at(m, s.registers.pc as int) == 0xFF,
        byte_at(next(s, m).1, next(s, m).0.registers.pc as int) == 0xF1,
    ensures
        ({
            let pushed = if byte_at(m, s.registers.pc as int) == 0xCD {
                wrap16(s.registers.pc + 3)
            } else {
                wrap16(s.registers.pc + 1)
            };
            let after = next(next(s, m).0, next(s, m).1).0.registers;
            word(after.a, after.f) == pushed - pushed % 16 && after.sp == s.registers.sp
        }),
{
    reveal(execute);
    lemma_push_pop(m, s.registers.sp, wrap16(s.registers.pc + 3));
    lemma_push_pop(m, s.registers.sp, wrap16(s.registers.pc + 1));
    lemma_pair_round_trip(next(s, m).0.registers, wrap16(s.registers.pc + 3));
    lemma_pair_round_trip(next(s, m).0.registers, wrap16(s.registers.pc + 1));
}

/// JR NZ with displacement -2 loops onto itself while Zero is clear, and
/// falls through to the next instruction while Zero is set.
pub proof fn lemma_jump_relative_not_zero(s: CPU, m: Seq<u8>)
    requires
        m.len() == MEMORY_SIZE,
        byte_at(m, s.registers.pc as int) == 0x20,
        byte_at(m, s.registers.pc + 1) == 0xFE,
    ensures
        !unpack(s.registers.f).zero ==> next(s, m).0.registers.pc == s.registers.pc,
        unpack(s.registers.f).zero ==> next(s, m).0.registers.pc == wrap16(s.registers.pc + 2),
{
    reveal(execute);
}

/// CP leaves A (and everything but F and PC) unchanged.
pub proof fn lemma_compare_keeps_a(s: CPU, m: Seq<u8>)
    requires
        m.len() == MEMORY_SIZE,
        byte_at(m, s.registers.pc as int) == 0xFE,
    ensures
        next(s, m).0.registers == (Registers {
            f: next(s, m).0.registers.f,
            pc: wrap16(s.registers.pc + 2),
            ..s.registers
        }),
        next(s, m).1 == m,
{
    reveal(execute);
}

/// An opcode without a handler moves PC one byte on and changes nothing else.
pub proof fn lemma_unknown_opcode_skips(s: CPU, m: Seq<u8>)
    requires
        m.len() == MEMORY_SIZE,
        !is_known_opcode(byte_at(m, s.registers.pc as int)),
    ensures
        next(s, m) == (
            CPU { registers: Registers { pc: wrap16(s.registers.pc + 1), ..s.registers }, ..s },
            m,
        ),
        diagnostic(s, m) == Some(
            Diagnostic {
                kind: DiagnosticKind::UnknownOpcode,
                opcode: byte_at(m, s.registers.pc as int),
                pc: s.registers.pc,
            },
        ),
{
    reveal(execute);
}

// ---------------------------------------------------------------------------
// The CPU
// ---------------------------------------------------------------------------

/// Which opcode table had no handler.
#[derive(Clone, Copy, Debug, PartialEq, Eq, Structural)]
pub enum DiagnosticKind {
    UnknownOpcode,
    UnknownExtendedOpcode,
}

/// A non-fatal report from a step: an opcode without a handler, and the PC
/// of the instruction that held it.
#[derive(Clone, Copy, Debug, PartialEq, Eq, Structural)]
pub struct Diagnostic {
    pub kind: DiagnosticKind,
    pub opcode: u8,
    pub pc: u16,
}

pub struct CPU {
    pub registers: Registers,
    pub interrupts_enabled: bool,
}

impl CPU {
    pub open spec fn with_registers(self, r: Registers) -> CPU {
        CPU { registers: r, ..self }
    }

    pub fn new() -> (r: Self)
        ensures
            r.registers == (Registers {
                a: 0,
                f: 0,
                b: 0,
                c: 0,
                d: 0,
                e: 0,
                h: 0,
                l: 0,
                sp: 0xFFFE,
                pc: 0x0100,
            }),
            r.interrupts_enabled,
    {
        CPU { registers: Registers::new(), interrupts_enabled: true }
    }

    /// Writes the four flags; with `c == None` the Carry flag is kept.
    pub fn set_flags(&mut self, z: bool, n: bool, h: bool, c: Option<bool>)
        ensures
            final(self).registers == (Registers {
                f: pack(
                    Flags {
                        zero: z,
                        subtract: n,
                        half_carry: h,
                        carry: match c {
                            Some(x) => x,
                            None => unpack(old(self).registers.f).carry,
                        },
                    },
                ),
                ..old(self).registers
            }),
            final(self).interrupts_enabled == old(self).interrupts_enabled,
    {
        let carry = match c {
            Some(x) => x,
            None => Flags::from_byte(self.registers.f).carry,
        };
        let flags = Flags { zero: z, subtract: n, half_carry: h, carry };
        self.registers.f = flags.to_byte();
    }

    /// Returns `value + 1` (wrapping) and sets the flags of an increment.
    pub fn increment_byte(&mut self, value: u8) -> (r: u8)
        ensures
            r == wrap8(value + 1),
            final(self).registers == (Registers {
                f: inc_flags(old(self).registers.f, value),
                ..old(self).registers
            }),
            final(self).interrupts_enabled == old(self).interrupts_enabled,
    {
        let result = ((value as u16 + 1) % 256) as u8;
        self.set_flags(result == 0, false, value % 16 == 15, None);
        result
    }

    /// Returns `value - 1` (wrapping) and sets the flags of a decrement.
    pub fn decrement_byte(&mut self, value: u8) -> (r: u8)
        ensures
            r == wrap8(value - 1),
            final(self).registers == (Registers {
                f: dec_flags(old(self).registers.f, value),
                ..old(self).registers
            }),
            final(self).interrupts_enabled == old(self).interrupts_enabled,
    {
        let result = ((value as u16 + 255) % 256) as u8;
        self.set_flags(result == 0, true, value % 16 == 0, None);
        result
    }

    /// The little-endian 16-bit operand that follows the opcode at PC.
    pub fn read_word(&self, mmu: &MMU) -> (r: u16)
        requires
            mmu.wf(),
        ensures
            r == word_at(mmu@, self.registers.pc + 1),
    {
        let low = mmu.read_byte(add16(self.registers.pc, 1)) as u16;
        let high = mmu.read_byte(add16(self.registers.pc, 2)) as u16;
        assert(wrap16(self.registers.pc + 1 + 1) == wrap16(self.registers.pc + 2));
        high * 256 + low
    }

    /// The byte operand that follows the opcode at PC.
    fn read_operand(&self, mmu: &MMU) -> (r: u8)
        requires
            mmu.wf(),
        ensures
            r == byte_at(mmu@, self.registers.pc + 1),
    {
        mmu.read_byte(add16(self.registers.pc, 1))
    }

    /// Pushes `value` onto the stack.
    fn push_word(&mut self, mmu: &mut MMU, value: u16)
        requires
            old(mmu).wf(),
        ensures
            final(mmu).wf(),
            final(mmu)@ == push(old(mmu)@, old(self).registers.sp, value),
            final(self).registers == (Registers {
                sp: wrap16(old(self).registers.sp - 2),
                ..old(self).registers
            }),
            final(self).interrupts_enabled == old(self).interrupts_enabled,
    {
        let sp = sub16(self.registers.sp, 2);
        mmu.write_byte(sp, (value % 256) as u8);
        mmu.write_byte(sub16(self.registers.sp, 1), (value / 256) as u8);
        self.registers.sp = sp;
    }

    /// Pops a 16-bit value off the stack.
    fn pop_word(&mut self, mmu: &MMU) -> (r: u16)
        requires
            mmu.wf(),
        ensures
            r == word_at(mmu@, old(self).registers.sp as int),
            final(self).registers == (Registers {
                sp: wrap16(old(self).registers.sp + 2),
                ..old(self).registers
            }),
            final(self).interrupts_enabled == old(self).interrupts_enabled,
    {
        let sp = self.registers.sp;
        let low = mmu.read_byte(sp) as u16;
        let high = mmu.read_byte(add16(sp, 1)) as u16;
        assert(wrap16(sp as int) == sp);
        self.registers.sp = add16(sp, 2);
        high * 256 + low
    }

    /// Runs the extended opcode `opcode` (the byte after a 0xCB prefix).
    /// PC is left for the caller to advance.
    fn execute_cb_opcode(&mut self, opcode: u8) -> (r: Option<Diagnostic>)
        ensures
            final(self).registers == execute_extended(opcode, old(self).registers),
            final(self).interrupts_enabled == old(self).interrupts_enabled,
            r == (if is_known_extended(opcode) {
                None
            } else {
                Some(
                    Diagnostic {
                        kind: DiagnosticKind::UnknownExtendedOpcode,
                        opcode,
                        pc: old(self).registers.pc,
                    },
                )
            }),
    {
        match opcode {
            0x11 => {
                // RL C: rotate C left through the carry flag.
                let c = self.registers.c;
                let carry_bit: u16 = if Flags::from_byte(self.registers.f).carry {
                    1
                } else {
                    0
                };
                let rotated = ((c as u16 * 2 + carry_bit) % 256) as u8;
                self.registers.c = rotated;
                self.set_flags(rotated == 0, false, false, Some(c >= 128));
                None
            },
            _ => Some(
                Diagnostic {
                    kind: DiagnosticKind::UnknownExtendedOpcode,
                    opcode,
                    pc: self.registers.pc,
                },
            ),
        }
    }

    /// Executes one instruction: fetches the opcode at PC, runs it, and
    /// reports an opcode that has no handler.
    pub fn step(&mut self, mmu: &mut MMU) -> (r: Option<Diagnostic>)
        requires
            old(mmu).wf(),
        ensures
            final(mmu).wf(),
            (*final(self), final(mmu)@) == next(*old(self), old(mmu)@),
            r == diagnostic(*old(self), old(mmu)@),
    {
        let opcode = mmu.read_byte(self.registers.pc);
        self.decode_and_execute(opcode, mmu)
    }

    #[verifier::spinoff_prover]
    fn decode_and_execute(&mut self, opcode: u8, mmu: &mut MMU) -> (r: Option<Diagnostic>)
        requires
            old(mmu).wf(),
        ensures
            final(mmu).wf(),
            (*final(self), final(mmu)@) == execute(opcode, *old(self), old(mmu)@),
            r == execute_diagnostic(opcode, *old(self), old(mmu)@),
    {
        reveal(execute);
        let pc = self.registers.pc;
        let next1 = add16(pc, 1);
        let next2 = add16(pc, 2);
        match opcode {
            0x01 | 0x06 | 0x11 | 0x21 | 0x26 | 0x31 | 0x3E | 0x78 | 0x7A | 0x7C | 0x7D => {
                self.execute_load(opcode, mmu);
            },
            0x04 | 0x0B | 0x1B | 0x3C => {
                self.execute_step_count(opcode, mmu);
            },
            0x37 | 0x3F | 0x8F | 0xB3 => {
                self.execute_flag_ops(opcode, mmu);
            },
            0xD6 | 0xE6 | 0xF6 | 0xFE => {
                self.execute_immediate_alu(opcode, mmu);
            },
            0x18 | 0x20 | 0x32 | 0xC3 | 0xC9 | 0xCD | 0xDF | 0xE0 | 0xEA | 0xF1 | 0xFF => {
                self.execute_transfer(opcode, mmu);
            },
            0x00 => {
                // NOP
                self.registers.pc = next1;
            },
            0xCB => {
                // Extended opcode: the whole instruction is two bytes long.
                let next_opcode = self.read_operand(mmu);
                let report = self.execute_cb_opcode(next_opcode);
                self.registers.pc = next2;
                return report;
            },
            0xF3 => {
                // DI
                self.interrupts_enabled = false;
                self.registers.pc = next1;
            },
            0xFB => {
                // EI
                self.interrupts_enabled = true;
                self.registers.pc = next1;
            },
            _ => {
                self.registers.pc = next1;
                return Some(Diagnostic { kind: DiagnosticKind::UnknownOpcode, opcode, pc });
            },
        }
        None
    }

    /// Register and immediate loads.
    #[verifier::spinoff_prover]
    fn execute_load(&mut self, opcode: u8, mmu: &mut MMU)
        requires
            old(mmu).wf(),
            opcode == 0x01 || opcode == 0x06 || opcode == 0x11 || opcode == 0x21 || opcode == 0x26 || opcode == 0x31 || opcode == 0x3E || opcode == 0x78 || opcode == 0x7A || opcode == 0x7C || opcode == 0x7D,
        ensures
            final(mmu).wf(),
            (*final(self), final(mmu)@) == execute(opcode, *old(self), old(mmu)@),
    {
        reveal(execute);
        let pc = self.registers.pc;
        let next1 = add16(pc, 1);
        let next2 = add16(pc, 2);
        let next3 = add16(pc, 3);
        match opcode {
            0x01 => {
                // LD BC, d16
                let value = self.read_word(mmu);
                self.registers.set_bc(value);
                self.registers.pc = next3;
            },
            0x06 => {
                // LD B, d8
                self.registers.b = self.read_operand(mmu);
                self.registers.pc = next2;
            },
            0x11 => {
                // LD DE, d16
                let value = self.read_word(mmu);
                self.registers.set_de(value);
                self.registers.pc = next3;
            },
            0x21 => {
                // LD HL, d16
                let value = self.read_word(mmu);
                self.registers.set_hl(value);
                self.registers.pc = next3;
            },
            0x26 => {
                // LD H, d8
                self.registers.h = self.read_operand(mmu);
                self.registers.pc = next2;
            },
            0x31 => {
                // LD SP, d16
                self.registers.sp = self.read_word(mmu);
                self.registers.pc = next3;
            },
            0x3E => {
                // LD A, d8
                self.registers.a = self.read_operand(mmu);
                self.registers.pc = next2;
            },
            0x78 => {
                // LD A, B
                self.registers.a = self.registers.b;
                self.registers.pc = next1;
            },
            0x7A => {
                // LD A, D
                self.registers.a = self.registers.d;
                self.registers.pc = next1;
            },
            0x7C => {
                // LD A, H
                self.registers.a = self.registers.h;
                self.registers.pc = next1;
            },
            0x7D => {
                // LD A, L
                self.registers.a = self.registers.l;
                self.registers.pc = next1;
            },
            _ => {},
        }
    }

    /// Increments and decrements.
    #[verifier::spinoff_prover]
    fn execute_step_count(&mut self, opcode: u8, mmu: &MMU)
        requires
            mmu.wf(),
            opcode == 0x04 || opcode == 0x0B || opcode == 0x1B || opcode == 0x3C,
        ensures
            (*final(self), mmu@) == execute(opcode, *old(self), mmu@),
    {
        reveal(execute);
        let pc = self.registers.pc;
        let next1 = add16(pc, 1);
        match opcode {
            0x04 => {
                // INC B
                self.registers.b = self.increment_byte(self.registers.b);
                self.registers.pc = next1;
            },
            0x0B => {
                // DEC BC
                let bc = sub16(self.registers.bc(), 1);
                self.registers.set_bc(bc);
                self.registers.pc = next1;
            },
            0x1B => {
                // DEC DE
                let de = sub16(self.registers.de(), 1);
                self.registers.set_de(de);
                self.registers.pc = next1;
            },
            0x3C => {
                // INC A
                self.registers.a = self.increment_byte(self.registers.a);
                self.registers.pc = next1;
            },
            _ => {},
        }
    }

    /// Carry-flag instructions, ADC and OR on registers.
    #[verifier::spinoff_prover]
    fn execute_flag_ops(&mut self, opcode: u8, mmu: &MMU)
        requires
            mmu.wf(),
            opcode == 0x37 || opcode == 0x3F || opcode == 0x8F || opcode == 0xB3,
        ensures
            (*final(self), mmu@) == execute(opcode, *old(self), mmu@),
    {
        reveal(execute);
        let pc = self.registers.pc;
        let next1 = add16(pc, 1);
        match opcode {
            0x37 => {
                // SCF
                let zero = Flags::from_byte(self.registers.f).zero;
                self.set_flags(zero, false, false, Some(true));
                self.registers.pc = next1;
            },
            0x3F => {
                // CCF
                let flags = Flags::from_byte(self.registers.f);
                self.set_flags(flags.zero, false, false, Some(!flags.carry));
                self.registers.pc = next1;
            },
            0x8F => {
                // ADC A, A: the sum is taken in 16 bits so that the carry out is exact.
                let a = self.registers.a as u16;
                let carry: u16 = if Flags::from_byte(self.registers.f).carry {
                    1
                } else {
                    0
                };
                let sum = a + a + carry;
                self.set_flags(sum % 256 == 0, false, (a % 16) + (a % 16) + carry > 15, Some(sum > 255));
                self.registers.a = (sum % 256) as u8;
                self.registers.pc = next1;
            },
            0xB3 => {
                // OR E
                let result = self.registers.a | self.registers.e;
                self.registers.a = result;
                self.set_flags(result == 0, false, false, Some(false));
                self.registers.pc = next1;
            },
            _ => {},
        }
    }

    /// Arithmetic and logic with an immediate operand.
    #[verifier::spinoff_prover]
    fn execute_immediate_alu(&mut self, opcode: u8, mmu: &mut MMU)
        requires
            old(mmu).wf(),
            opcode == 0xD6 || opcode == 0xE6 || opcode == 0xF6 || opcode == 0xFE,
        ensures
            final(mmu).wf(),
            (*final(self), final(mmu)@) == execute(opcode, *old(self), old(mmu)@),
    {
        reveal(execute);
        let pc = self.registers.pc;
        let next2 = add16(pc, 2);
        match opcode {
            0xD6 => {
                // SUB d8
                let value = self.read_operand(mmu);
                let a = self.registers.a;
                let result = sub8(a, value);
                self.set_flags(result == 0, true, a % 16 < value % 16, Some(a < value));
                self.registers.a = result;
                self.registers.pc = next2;
            },
            0xE6 => {
                // AND d8
                let value = self.read_operand(mmu);
                let result = self.registers.a & value;
                self.registers.a = result;
                self.set_flags(result == 0, false, true, Some(false));
                self.registers.pc = next2;
            },
            0xF6 => {
                // OR d8
                let value = self.read_operand(mmu);
                let result = self.registers.a | value;
                self.registers.a = result;
                self.set_flags(result == 0, false, false, Some(false));
                self.registers.pc = next2;
            },
            0xFE => {
                // CP d8: compare without storing the difference.
                let value = self.read_operand(mmu);
                let a = self.registers.a;
                let result = sub8(a, value);
                self.set_flags(result == 0, true, a % 16 < value % 16, Some(a < value));
                self.registers.pc = next2;
            },
            _ => {},
        }
    }

    /// Jumps, calls, returns, the stack and stores to memory.
    #[verifier::spinoff_prover]
    fn execute_transfer(&mut self, opcode: u8, mmu: &mut MMU)
        requires
            old(mmu).wf(),
            opcode == 0x18 || opcode == 0x20 || opcode == 0x32 || opcode == 0xC3 || opcode == 0xC9 || opcode == 0xCD || opcode == 0xDF || opcode == 0xE0 || opcode == 0xEA || opcode == 0xF1 || opcode == 0xFF,
        ensures
            final(mmu).wf(),
            (*final(self), final(mmu)@) == execute(opcode, *old(self), old(mmu)@),
    {
        reveal(execute);
        let pc = self.registers.pc;
        let next1 = add16(pc, 1);
        let next2 = add16(pc, 2);
        let next3 = add16(pc, 3);
        match opcode {
            0x18 => {
                // JR r8
                let offset = self.read_operand(mmu);
                self.registers.pc = relative_target(pc, offset);
            },
            0x20 => {
                // JR NZ, r8
                let offset = self.read_operand(mmu);
                if Flags::from_byte(self.registers.f).zero {
                    self.registers.pc = next2;
                } else {
                    self.registers.pc = relative_target(pc, offset);
                }
            },
            0x32 => {
                // LD (HL-), A
                let addr = self.registers.hl();
                mmu.write_byte(addr, self.registers.a);
                self.registers.set_hl(sub16(addr, 1));
                self.registers.pc = next1;
            },
            0xC3 => {
                // JP a16
                self.registers.pc = self.read_word(mmu);
            },
            0xC9 => {
                // RET
                self.registers.pc = self.pop_word(mmu);
            },
            0xCD => {
                // CALL a16: push the address of the next instruction.
                let addr = self.read_word(mmu);
                self.push_word(mmu, next3);
                self.registers.pc = addr;
            },
            0xDF => {
                // RST 18H
                self.push_word(mmu, next1);
                self.registers.pc = 0x18;
            },
            0xE0 => {
                // LDH (a8), A
                let offset = self.read_operand(mmu);
                mmu.write_byte(0xFF00 + offset as u16, self.registers.a);
                self.registers.pc = next2;
            },
            0xEA => {
                // LD (a16), A
                let addr = self.read_word(mmu);
                mmu.write_byte(addr, self.registers.a);
                self.registers.pc = next3;
            },
            0xF1 => {
                // POP AF
                let value = self.pop_word(mmu);
                self.registers.set_af(value);
                self.registers.pc = next1;
            },
            0xFF => {
                // RST 38H
                self.push_word(mmu, next1);
                self.registers.pc = 0x38;
            },
            _ => {},
        }
    }
}

} // verus!
