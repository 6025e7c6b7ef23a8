use vstd::arithmetic::power2::{lemma2_to64, pow2};
use vstd::arithmetic::div_mod::lemma_basic_div_specific_divisor;
use vstd::bits::{lemma_u16_shr_is_div, lemma_u32_pow2_no_overflow, lemma_u32_shl_is_mul};
use vstd::prelude::*;

verus! {

/// The signed value of an `n`-bit two's-complement field `x`.
pub open spec fn field_value(x: u16, n: u16) -> int {
    let size = pow2(n as nat) as int;
    if 2 * (x as int) >= size {
        x as int - size
    } else {
        x as int
    }
}

/// `field_value(x, n)` as a 16-bit two's-complement word.
pub open spec fn sext(x: u16, n: u16) -> u16 {
    (field_value(x, n) % 0x10000) as u16
}

/// Widens the `bit_count`-bit two's-complement field `x` to 16 bits.
pub fn sign_extend(x: u16, bit_count: i16) -> (r: u16)
    requires
        1 <= bit_count <= 15,
        (x as nat) < pow2(bit_count as nat),
    ensures
        r == sext(x, bit_count as u16),
{
    let n = bit_count as u16;
    let m: u16 = n - 1;
    proof {
        lemma_u16_shr_is_div(x, n);
        lemma_u32_pow2_no_overflow(n as nat);
        lemma_basic_div_specific_divisor(pow2(n as nat) as int);
        lemma_u32_shl_is_mul(1, n as u32);
        lemma2_to64();
    }
    if (x >> m) & 1 > 0 {
        let r = x | (0xffffu16 << n);
        assert(2 * (x as u32) >= (1u32 << n) && r as u32 == x as u32 + 0x10000u32 - (1u32 << n))
            by (bit_vector)
            requires
                1 <= n <= 15,
                m == n - 1,
                x >> n == 0,
                (x >> m) & 1 > 0,
                r == x | (0xffffu16 << n),
        ;
        r
    } else {
        assert(2 * (x as u32) < (1u32 << n)) by (bit_vector)
            requires
                1 <= n <= 15,
                m == n - 1,
                x >> n == 0,
                (x >> m) & 1 == 0,
        ;
        x
    }
}

/// Destination or first source register: bits 11..9.
pub open spec fn field_dr(w: u16) -> usize {
    ((w >> 9u16) & 7) as usize
}

/// Base or second-position register: bits 8..6.
pub open spec fn field_sr(w: u16) -> usize {
    ((w >> 6u16) & 7) as usize
}

/// Register operand of the register form: bits 2..0.
pub open spec fn field_sr2(w: u16) -> usize {
    (w & 7) as usize
}

/// The second operand of ADD and AND.
#[derive(Debug, Clone, Copy, PartialEq, Eq, Structural)]
pub enum Operand {
    /// A sign-extended 5-bit immediate.
    Imm(u16),
    /// A register index.
    Reg(usize),
}

/// One decoded instruction; offsets and immediates are already sign-extended.
#[derive(Debug, Clone, Copy, PartialEq, Eq, Structural)]
pub enum Instruction {
    Br { nzp: u16, offset: u16 },
    Add { dr: usize, sr1: usize, src2: Operand },
    Ld { dr: usize, offset: u16 },
    St { sr: usize, offset: u16 },
    Jsr { offset: u16 },
    Jsrr { base: usize },
    And { dr: usize, sr1: usize, src2: Operand },
    Ldr { dr: usize, base: usize, offset: u16 },
    Str { sr: usize, base: usize, offset: u16 },
    Rti,
    Not { dr: usize, sr: usize },
    Ldi { dr: usize, offset: u16 },
    Sti { sr: usize, offset: u16 },
    Jmp { base: usize },
    Res,
    Lea { dr: usize, offset: u16 },
    Trap { vector: u16 },
}

/// The second operand of ADD and AND: bit 5 selects the immediate form.
pub open spec fn spec_operand(w: u16) -> Operand {
    if (w >> 5u16) & 1 == 1 {
        Operand::Imm(sext(w & 0x1F, 5))
    } else {
        Operand::Reg(field_sr2(w))
    }
}

/// What the instruction word `w` means: the opcode is bits 15..12.
pub open spec fn spec_decode(w: u16) -> Instruction {
    let op = w >> 12u16;
    let off9 = sext(w & 0x1FF, 9);
    let off6 = sext(w & 0x3F, 6);
    if op == 0 {
        Instruction::Br { nzp: (w >> 9u16) & 7, offset: off9 }
    } else if op == 1 {
        Instruction::Add { dr: field_dr(w), sr1: field_sr(w), src2: spec_operand(w) }
    } else if op == 2 {
        Instruction::Ld { dr: field_dr(w), offset: off9 }
    } else if op == 3 {
        Instruction::St { sr: field_dr(w), offset: off9 }
    } else if op == 4 {
        if (w >> 11u16) & 1 == 1 {
            Instruction::Jsr { offset: sext(w & 0x7FF, 11) }
        } else {
            Instruction::Jsrr { base: field_sr(w) }
        }
    } else if op == 5 {
        Instruction::And { dr: field_dr(w), sr1: field_sr(w), src2: spec_operand(w) }
    } else if op == 6 {
        Instruction::Ldr { dr: field_dr(w), base: field_sr(w), offset: off6 }
    } else if op == 7 {
        Instruction::Str { sr: field_dr(w), base: field_sr(w), offset: off6 }
    } else if op == 8 {
        Instruction::Rti
    } else if op == 9 {
        Instruction::Not { dr: field_dr(w), sr: field_sr(w) }
    } else if op == 10 {
        Instruction::Ldi { dr: field_dr(w), offset: off9 }
    } else if op == 11 {
        Instruction::Sti { sr: field_dr(w), offset: off9 }
    } else if op == 12 {
        Instruction::Jmp { base: field_sr(w) }
    } else if op == 13 {
        Instruction::Res
    } else if op == 14 {
        Instruction::Lea { dr: field_dr(w), offset: off9 }
    } else {
        Instruction::Trap { vector: w & 0xFF }
    }
}

/// Every register index in a decoded instruction names R0..R7.
pub open spec fn regs_in_range(i: Instruction) -> bool {
    match i {
        Instruction::Add { dr, sr1, src2 } | Instruction::And { dr, sr1, src2 } => dr < 8 && sr1
            < 8 && match src2 {
            Operand::Reg(r) => r < 8,
            Operand::Imm(_) => true,
        },
        Instruction::Ld { dr, .. } | Instruction::Ldi { dr, .. } | Instruction::Lea { dr, .. } =>
            dr < 8,
        Instruction::St { sr, .. } | Instruction::Sti { sr, .. } => sr < 8,
        Instruction::Ldr { dr, base, .. } => dr < 8 && base < 8,
        Instruction::Str { sr, base, .. } => sr < 8 && base < 8,
        Instruction::Not { dr, sr } => dr < 8 && sr < 8,
        Instruction::Jsrr { base } | Instruction::Jmp { base } => base < 8,
        _ => true,
    }
}

proof fn lemma_fields(w: u16)
    ensures
        (w >> 9u16) & 7 < 8,
        (w >> 6u16) & 7 < 8,
        w & 7 < 8,
        (w & 0x1F) < pow2(5),
        (w & 0x3F) < pow2(6),
        (w & 0x1FF) < pow2(9),
        (w & 0x7FF) < pow2(11),
        w >> 12u16 < 16,
{
    assert((w >> 9u16) & 7 < 8) by (bit_vector);
    assert((w >> 6u16) & 7 < 8) by (bit_vector);
    assert(w & 7 < 8) by (bit_vector);
    lemma2_to64();
    assert((w & 0x1F) < 32) by (bit_vector);
    assert((w & 0x3F) < 64) by (bit_vector);
    assert((w & 0x1FF) < 512) by (bit_vector);
    assert((w & 0x7FF) < 2048) by (bit_vector);
    assert(w >> 12u16 < 16) by (bit_vector);
}

/// Splits an instruction word into its operation and operands.
pub fn decode(w: u16) -> (r: Instruction)
    ensures
        r == spec_decode(w),
        regs_in_range(r),
{
    proof {
        lemma_fields(w);
    }
    let op = w >> 12u16;
    let dr = ((w >> 9u16) & 7) as usize;
    let sr = ((w >> 6u16) & 7) as usize;
    if op == 0 {
        Instruction::Br { nzp: (w >> 9u16) & 7, offset: sign_extend(w & 0x1FF, 9) }
    } else if op == 1 || op == 5 {
        let src2 = if (w >> 5u16) & 1 == 1 {
            Operand::Imm(sign_extend(w & 0x1F, 5))
        } else {
            Operand::Reg((w & 7) as usize)
        };
        if op == 1 {
            Instruction::Add { dr, sr1: sr, src2 }
        } else {
            Instruction::And { dr, sr1: sr, src2 }
        }
    } else if op == 2 {
        Instruction::Ld { dr, offset: sign_extend(w & 0x1FF, 9) }
    } else if op == 3 {
        Instruction::St { sr: dr, offset: sign_extend(w & 0x1FF, 9) }
    } else if op == 4 {
        if (w >> 11u16) & 1 == 1 {
            Instruction::Jsr { offset: sign_extend(w & 0x7FF, 11) }
        } else {
            Instruction::Jsrr { base: sr }
        }
    } else if op == 6 {
        Instruction::Ldr { dr, base: sr, offset: sign_extend(w & 0x3F, 6) }
    } else if op == 7 {
        Instruction::Str { sr: dr, base: sr, offset: sign_extend(w & 0x3F, 6) }
    } else if op == 8 {
        Instruction::Rti
    } else if op == 9 {
        Instruction::Not { dr, sr }
    } else if op == 10 {
        Instruction::Ldi { dr, offset: sign_extend(w & 0x1FF, 9) }
    } else if op == 11 {
        Instruction::Sti { sr: dr, offset: sign_extend(w & 0x1FF, 9) }
    } else if op == 12 {
        Instruction::Jmp { base: sr }
    } else if op == 13 {
        Instruction::Res
    } else if op == 14 {
        Instruction::Lea { dr, offset: sign_extend(w & 0x1FF, 9) }
    } else {
        Instruction::Trap { vector: w & 0xFF }
    }
}

} // verus!
