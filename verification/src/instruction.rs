//! The decoder: from a 32-bit word to its format, and from the format to the
//! operation.

use vstd::prelude::*;
use crate::error::EmulatorError;

verus! {

/// Register-register operations.
pub const OPCODE_OP: u8 = 0b0110011;

/// Register-immediate operations.
pub const OPCODE_OP_IMM: u8 = 0b0010011;

/// Loads.
pub const OPCODE_LOAD: u8 = 0b0000011;

/// Stores.
pub const OPCODE_STORE: u8 = 0b0100011;

/// Conditional branches.
pub const OPCODE_BRANCH: u8 = 0b1100011;

/// Jump and link to a register.
pub const OPCODE_JALR: u8 = 0b1100111;

/// Jump and link.
pub const OPCODE_JAL: u8 = 0b1101111;

/// Load upper immediate.
pub const OPCODE_LUI: u8 = 0b0110111;

/// Add upper immediate to the program counter.
pub const OPCODE_AUIPC: u8 = 0b0010111;

/// Memory ordering.
pub const OPCODE_MISC_MEM: u8 = 0b0001111;

/// Environment calls.
pub const OPCODE_SYSTEM: u8 = 0b1110011;

/// A word taken apart along the field boundaries of its format.  Each field
/// holds its bits as they stand in the word, moved down to bit 0.
#[derive(Debug, Clone, Copy, PartialEq, Eq, Structural)]
pub enum InstructionFormat {
    R { opcode: u8, rd: u8, funct3: u8, rs1: u8, rs2: u8, funct7: u8 },
    I { opcode: u8, rd: u8, funct3: u8, rs1: u8, imm0_11: u16 },
    S { opcode: u8, imm0_4: u8, funct3: u8, rs1: u8, rs2: u8, imm5_11: u8 },
    /// `imm1_4` holds bits 11 to 7 of the word: bits 4 to 1 of the offset in
    /// place, above a copy of `imm11`.
    B {
        opcode: u8,
        funct3: u8,
        rs1: u8,
        rs2: u8,
        imm1_4: u8,
        imm5_10: u8,
        imm11: u8,
        imm12: u8,
    },
    U { opcode: u8, rd: u8, imm12_31: u32 },
    J { opcode: u8, rd: u8, imm1_10: u16, imm11: u8, imm12_19: u8, imm20: u8 },
    /// `FENCE` and `SYSTEM` words, kept whole.
    Other(u32),
}

/// Bits 6 to 0 of a word.
pub open spec fn opcode_of(word: u32) -> u8 {
    (word & 0x7f) as u8
}

/// Bits 11 to 7 of a word.
pub open spec fn rd_of(word: u32) -> u8 {
    ((word >> 7) & 0x1f) as u8
}

/// Bits 14 to 12 of a word.
pub open spec fn funct3_of(word: u32) -> u8 {
    ((word >> 12) & 0x7) as u8
}

/// Bits 19 to 15 of a word.
pub open spec fn rs1_of(word: u32) -> u8 {
    ((word >> 15) & 0x1f) as u8
}

/// Bits 24 to 20 of a word.
pub open spec fn rs2_of(word: u32) -> u8 {
    ((word >> 20) & 0x1f) as u8
}

/// Bits 31 to 25 of a word.
pub open spec fn funct7_of(word: u32) -> u8 {
    ((word >> 25) & 0x7f) as u8
}

/// The format of a word, chosen by its opcode; `None` for an opcode that
/// the base instruction set does not have.
pub open spec fn format_of(word: u32) -> Option<InstructionFormat> {
    let opcode = opcode_of(word);
    let rd = rd_of(word);
    let funct3 = funct3_of(word);
    let rs1 = rs1_of(word);
    let rs2 = rs2_of(word);
    if opcode == OPCODE_OP {
        Some(InstructionFormat::R { opcode, rd, funct3, rs1, rs2, funct7: funct7_of(word) })
    } else if opcode == OPCODE_OP_IMM || opcode == OPCODE_LOAD || opcode == OPCODE_JALR {
        Some(
            InstructionFormat::I {
                opcode,
                rd,
                funct3,
                rs1,
                imm0_11: ((word >> 20) & 0xfff) as u16,
            },
        )
    } else if opcode == OPCODE_STORE {
        Some(
            InstructionFormat::S {
                opcode,
                imm0_4: rd,
                funct3,
                rs1,
                rs2,
                imm5_11: funct7_of(word),
            },
        )
    } else if opcode == OPCODE_BRANCH {
        Some(
            InstructionFormat::B {
                opcode,
                funct3,
                rs1,
                rs2,
                imm1_4: rd,
                imm5_10: ((word >> 25) & 0x3f) as u8,
                imm11: ((word >> 7) & 0x1) as u8,
                imm12: ((word >> 31) & 0x1) as u8,
            },
        )
    } else if opcode == OPCODE_LUI || opcode == OPCODE_AUIPC {
        Some(InstructionFormat::U { opcode, rd, imm12_31: word >> 12 })
    } else if opcode == OPCODE_JAL {
        Some(
            InstructionFormat::J {
                opcode,
                rd,
                imm1_10: ((word >> 21) & 0x3ff) as u16,
                imm11: ((word >> 20) & 0x1) as u8,
                imm12_19: ((word >> 12) & 0xff) as u8,
                imm20: ((word >> 31) & 0x1) as u8,
            },
        )
    } else if opcode == OPCODE_MISC_MEM || opcode == OPCODE_SYSTEM {
        Some(InstructionFormat::Other(word))
    } else {
        None
    }
}

impl InstructionFormat {
    /// The word that the fields make up.  A field contributes the bits of
    /// its place in the word and no others.
    pub open spec fn encode(self) -> u32 {
        match self {
            InstructionFormat::R { opcode, rd, funct3, rs1, rs2, funct7 } => {
                (funct7 as u32 & 0x7f) << 25 | (rs2 as u32 & 0x1f) << 20 | (rs1 as u32 & 0x1f)
                    << 15 | (funct3 as u32 & 0x7) << 12 | (rd as u32 & 0x1f) << 7 | (opcode as u32
                    & 0x7f)
            },
            InstructionFormat::I { opcode, rd, funct3, rs1, imm0_11 } => {
                (imm0_11 as u32 & 0xfff) << 20 | (rs1 as u32 & 0x1f) << 15 | (funct3 as u32 & 0x7)
                    << 12 | (rd as u32 & 0x1f) << 7 | (opcode as u32 & 0x7f)
            },
            InstructionFormat::S { opcode, imm0_4, funct3, rs1, rs2, imm5_11 } => {
                (imm5_11 as u32 & 0x7f) << 25 | (rs2 as u32 & 0x1f) << 20 | (rs1 as u32 & 0x1f)
                    << 15 | (funct3 as u32 & 0x7) << 12 | (imm0_4 as u32 & 0x1f) << 7 | (
                opcode as u32 & 0x7f)
            },
            InstructionFormat::B { opcode, funct3, rs1, rs2, imm1_4, imm5_10, imm11, imm12 } => {
                (imm12 as u32 & 0x1) << 31 | (imm5_10 as u32 & 0x3f) << 25 | (rs2 as u32 & 0x1f)
                    << 20 | (rs1 as u32 & 0x1f) << 15 | (funct3 as u32 & 0x7) << 12 | (
                imm1_4 as u32 & 0x1e) << 7 | (imm11 as u32 & 0x1) << 7 | (opcode as u32 & 0x7f)
            },
            InstructionFormat::U { opcode, rd, imm12_31 } => {
                (imm12_31 & 0xfffff) << 12 | (rd as u32 & 0x1f) << 7 | (opcode as u32 & 0x7f)
            },
            InstructionFormat::J { opcode, rd, imm1_10, imm11, imm12_19, imm20 } => {
                (imm20 as u32 & 0x1) << 31 | (imm1_10 as u32 & 0x3ff) << 21 | (imm11 as u32 & 0x1)
                    << 20 | (imm12_19 as u32 & 0xff) << 12 | (rd as u32 & 0x1f) << 7 | (
                opcode as u32 & 0x7f)
            },
            InstructionFormat::Other(word) => word,
        }
    }

    /// Takes a word apart.  Fails with `Decode` exactly on the words whose
    /// opcode the base instruction set does not have; the fields of the
    /// result make up the word again.
    pub fn parse(instruction: u32) -> (res: Result<Self, EmulatorError>)
        ensures
            res == (match format_of(instruction) {
                Some(format) => Ok::<InstructionFormat, EmulatorError>(format),
                None => Err(EmulatorError::Decode),
            }),
            res is Ok ==> res->Ok_0.encode() == instruction,
    {
        let opcode: u8 = (instruction & 0x7f) as u8;
        let rd: u8 = ((instruction >> 7) & 0x1f) as u8;
        let funct3: u8 = ((instruction >> 12) & 0x7) as u8;
        let rs1: u8 = ((instruction >> 15) & 0x1f) as u8;
        let rs2: u8 = ((instruction >> 20) & 0x1f) as u8;

        proof {
            lemma_encode_inverts_format(instruction);
        }
        let format = if opcode == OPCODE_OP {
            let funct7: u8 = ((instruction >> 25) & 0x7f) as u8;
            Self::R { opcode, rd, funct3, rs1, rs2, funct7 }
        } else if opcode == OPCODE_OP_IMM || opcode == OPCODE_LOAD || opcode == OPCODE_JALR {
            let imm0_11: u16 = ((instruction >> 20) & 0xfff) as u16;
            Self::I { opcode, rd, funct3, rs1, imm0_11 }
        } else if opcode == OPCODE_STORE {
            let imm0_4: u8 = rd;
            let imm5_11: u8 = ((instruction >> 25) & 0x7f) as u8;
            Self::S { opcode, imm0_4, funct3, rs1, rs2, imm5_11 }
        } else if opcode == OPCODE_BRANCH {
            let imm1_4: u8 = rd;
            let imm5_10: u8 = ((instruction >> 25) & 0x3f) as u8;
            let imm11: u8 = ((instruction >> 7) & 0x1) as u8;
            let imm12: u8 = ((instruction >> 31) & 0x1) as u8;
            Self::B { opcode, funct3, rs1, rs2, imm1_4, imm5_10, imm11, imm12 }
        } else if opcode == OPCODE_LUI || opcode == OPCODE_AUIPC {
            let imm12_31: u32 = instruction >> 12;
            Self::U { opcode, rd, imm12_31 }
        } else if opcode == OPCODE_JAL {
            let imm1_10: u16 = ((instruction >> 21) & 0x3ff) as u16;
            let imm11: u8 = ((instruction >> 20) & 0x1) as u8;
            let imm12_19: u8 = ((instruction >> 12) & 0xff) as u8;
            let imm20: u8 = ((instruction >> 31) & 0x1) as u8;
            Self::J { opcode, rd, imm1_10, imm11, imm12_19, imm20 }
        } else if opcode == OPCODE_MISC_MEM || opcode == OPCODE_SYSTEM {
            Self::Other(instruction)
        } else {
            return Err(EmulatorError::Decode);
        };
        Ok(format)
    }
}

impl From<InstructionFormat> for u32 {
    /// Puts the fields of a format together into the word that they make up.
    fn from(format: InstructionFormat) -> (word: u32) {
        match format {
            InstructionFormat::R { opcode, rd, funct3, rs1, rs2, funct7 } => {
                (funct7 as u32 & 0x7f) << 25 | (rs2 as u32 & 0x1f) << 20 | (rs1 as u32 & 0x1f)
                    << 15 | (funct3 as u32 & 0x7) << 12 | (rd as u32 & 0x1f) << 7 | (opcode as u32
                    & 0x7f)
            },
            InstructionFormat::I { opcode, rd, funct3, rs1, imm0_11 } => {
                (imm0_11 as u32 & 0xfff) << 20 | (rs1 as u32 & 0x1f) << 15 | (funct3 as u32 & 0x7)
                    << 12 | (rd as u32 & 0x1f) << 7 | (opcode as u32 & 0x7f)
            },
            InstructionFormat::S { opcode, imm0_4, funct3, rs1, rs2, imm5_11 } => {
                (imm5_11 as u32 & 0x7f) << 25 | (rs2 as u32 & 0x1f) << 20 | (rs1 as u32 & 0x1f)
                    << 15 | (funct3 as u32 & 0x7) << 12 | (imm0_4 as u32 & 0x1f) << 7 | (
                opcode as u32 & 0x7f)
            },
            InstructionFormat::B { opcode, funct3, rs1, rs2, imm1_4, imm5_10, imm11, imm12 } => {
                (imm12 as u32 & 0x1) << 31 | (imm5_10 as u32 & 0x3f) << 25 | (rs2 as u32 & 0x1f)
                    << 20 | (rs1 as u32 & 0x1f) << 15 | (funct3 as u32 & 0x7) << 12 | (
                imm1_4 as u32 & 0x1e) << 7 | (imm11 as u32 & 0x1) << 7 | (opcode as u32 & 0x7f)
            },
            InstructionFormat::U { opcode, rd, imm12_31 } => {
                (imm12_31 & 0xfffff) << 12 | (rd as u32 & 0x1f) << 7 | (opcode as u32 & 0x7f)
            },
            InstructionFormat::J { opcode, rd, imm1_10, imm11, imm12_19, imm20 } => {
                (imm20 as u32 & 0x1) << 31 | (imm1_10 as u32 & 0x3ff) << 21 | (imm11 as u32 & 0x1)
                    << 20 | (imm12_19 as u32 & 0xff) << 12 | (rd as u32 & 0x1f) << 7 | (
                opcode as u32 & 0x7f)
            },
            InstructionFormat::Other(word) => word,
        }
    }
}

impl vstd::std_specs::convert::FromSpecImpl<InstructionFormat> for u32 {
    open spec fn obeys_from_spec() -> bool {
        true
    }

    open spec fn from_spec(format: InstructionFormat) -> u32 {
        format.encode()
    }
}

/// Taking a word apart and putting the fields together again gives the word
/// back: `encode` inverts `format_of` wherever `format_of` has a result.
pub proof fn lemma_encode_inverts_format(word: u32)
    ensures
        format_of(word) is Some ==> format_of(word)->Some_0.encode() == word,
{
    let w = word;
    if format_of(word) is Some {
        let opcode = opcode_of(word);
        if opcode == OPCODE_OP {
            assert(((((w >> 25) & 0x7f) as u8) as u32 & 0x7f) << 25 | ((((w >> 20) & 0x1f) as u8)
                as u32 & 0x1f) << 20 | ((((w >> 15) & 0x1f) as u8) as u32 & 0x1f) << 15 | ((((w
                >> 12) & 0x7) as u8) as u32 & 0x7) << 12 | ((((w >> 7) & 0x1f) as u8) as u32 & 0x1f)
                << 7 | (((w & 0x7f) as u8) as u32 & 0x7f) == w) by (bit_vector);
        } else if opcode == OPCODE_OP_IMM || opcode == OPCODE_LOAD || opcode == OPCODE_JALR {
            assert(((((w >> 20) & 0xfff) as u16) as u32 & 0xfff) << 20 | ((((w >> 15) & 0x1f) as u8)
                as u32 & 0x1f) << 15 | ((((w >> 12) & 0x7) as u8) as u32 & 0x7) << 12 | ((((w >> 7)
                & 0x1f) as u8) as u32 & 0x1f) << 7 | (((w & 0x7f) as u8) as u32 & 0x7f) == w)
                by (bit_vector);
        } else if opcode == OPCODE_STORE {
            assert(((((w >> 25) & 0x7f) as u8) as u32 & 0x7f) << 25 | ((((w >> 20) & 0x1f) as u8)
                as u32 & 0x1f) << 20 | ((((w >> 15) & 0x1f) as u8) as u32 & 0x1f) << 15 | ((((w
                >> 12) & 0x7) as u8) as u32 & 0x7) << 12 | ((((w >> 7) & 0x1f) as u8) as u32 & 0x1f)
                << 7 | (((w & 0x7f) as u8) as u32 & 0x7f) == w) by (bit_vector);
        } else if opcode == OPCODE_BRANCH {
            assert(((((w >> 31) & 0x1) as u8) as u32 & 0x1) << 31 | ((((w >> 25) & 0x3f) as u8)
                as u32 & 0x3f) << 25 | ((((w >> 20) & 0x1f) as u8) as u32 & 0x1f) << 20 | ((((w
                >> 15) & 0x1f) as u8) as u32 & 0x1f) << 15 | ((((w >> 12) & 0x7) as u8) as u32
                & 0x7) << 12 | ((((w >> 7) & 0x1f) as u8) as u32 & 0x1e) << 7 | ((((w >> 7) & 0x1)
                as u8) as u32 & 0x1) << 7 | (((w & 0x7f) as u8) as u32 & 0x7f) == w)
                by (bit_vector);
        } else if opcode == OPCODE_LUI || opcode == OPCODE_AUIPC {
            assert(((w >> 12) & 0xfffff) << 12 | ((((w >> 7) & 0x1f) as u8) as u32 & 0x1f) << 7 | (
            ((w & 0x7f) as u8) as u32 & 0x7f) == w) by (bit_vector);
        } else if opcode == OPCODE_JAL {
            assert(((((w >> 31) & 0x1) as u8) as u32 & 0x1) << 31 | ((((w >> 21) & 0x3ff) as u16)
                as u32 & 0x3ff) << 21 | ((((w >> 20) & 0x1) as u8) as u32 & 0x1) << 20 | ((((w
                >> 12) & 0xff) as u8) as u32 & 0xff) << 12 | ((((w >> 7) & 0x1f) as u8) as u32
                & 0x1f) << 7 | (((w & 0x7f) as u8) as u32 & 0x7f) == w) by (bit_vector);
        }
    }
}

/// The I-immediate: the low 12 bits of the field, read as a
/// two's-complement number.
pub open spec fn i_immediate(imm0_11: u16) -> int {
    let low = imm0_11 % 0x1000;
    if low < 0x800 {
        low as int
    } else {
        low - 0x1000
    }
}

/// The S-immediate: `imm5_11` above `imm0_4`, 12 bits in all, read as a
/// two's-complement number.
pub open spec fn s_immediate(imm5_11: u8, imm0_4: u8) -> int {
    let low = (imm5_11 % 0x80) * 0x20 + imm0_4 % 0x20;
    if low < 0x800 {
        low
    } else {
        low - 0x1000
    }
}

/// The B-immediate: bit 12, bit 11, bits 10 to 5 and bits 4 to 1 above a
/// zero bit, 13 bits in all, read as a two's-complement number.
pub open spec fn b_immediate(imm12: u8, imm11: u8, imm5_10: u8, imm1_4: u8) -> int {
    let low = (imm12 % 2) * 0x1000 + (imm11 % 2) * 0x800 + (imm5_10 % 0x40) * 0x20 + (imm1_4 % 0x20)
        / 2 * 2;
    if low < 0x1000 {
        low
    } else {
        low - 0x2000
    }
}

/// The J-immediate: bit 20, bits 19 to 12, bit 11 and bits 10 to 1 above a
/// zero bit, 21 bits in all, read as a two's-complement number.
pub open spec fn j_immediate(imm20: u8, imm12_19: u8, imm11: u8, imm1_10: u16) -> int {
    let low = (imm20 % 2) * 0x10_0000 + imm12_19 * 0x1000 + (imm11 % 2) * 0x800 + (imm1_10 % 0x400)
        * 2;
    if low < 0x10_0000 {
        low
    } else {
        low - 0x20_0000
    }
}

/// The U-immediate: the 20 bits of the field above 12 zero bits.
pub open spec fn u_immediate(imm12_31: u32) -> u32 {
    ((imm12_31 % 0x10_0000) * 0x1000) as u32
}

/// A decoded operation.  Immediates are held sign- or zero-extended as the
/// operation reads them.
#[allow(inconsistent_fields)]
#[derive(Debug, Clone, Copy, PartialEq, Eq, Structural)]
pub enum Instruction {
    Add { rd: usize, rs1: usize, rs2: usize },
    Addi { rd: usize, rs1: usize, imm: i16 },
    Sub { rd: usize, rs1: usize, rs2: usize },
    And { rd: usize, rs1: usize, rs2: usize },
    Andi { rd: usize, rs1: usize, imm: i16 },
    Or { rd: usize, rs1: usize, rs2: usize },
    Ori { rd: usize, rs1: usize, imm: i16 },
    Xor { rd: usize, rs1: usize, rs2: usize },
    Xori { rd: usize, rs1: usize, imm: i16 },
    Sll { rd: usize, rs1: usize, rs2: usize },
    Slli { rd: usize, rs1: usize, shamt: u8 },
    Srl { rd: usize, rs1: usize, rs2: usize },
    Srli { rd: usize, rs1: usize, shamt: u8 },
    Sra { rd: usize, rs1: usize, rs2: usize },
    Srai { rd: usize, rs1: usize, shamt: u8 },
    Slt { rd: usize, rs1: usize, rs2: usize },
    Slti { rd: usize, rs1: usize, imm: i16 },
    Sltu { rd: usize, rs1: usize, rs2: usize },
    Sltiu { rd: usize, rs1: usize, imm: u16 },
    Lb { rd: usize, rs1: usize, offset: i16 },
    Lbu { rd: usize, rs1: usize, offset: i16 },
    Sb { rs1: usize, rs2: usize, offset: i16 },
    Lh { rd: usize, rs1: usize, offset: i16 },
    Lhu { rd: usize, rs1: usize, offset: i16 },
    Sh { rs1: usize, rs2: usize, offset: i16 },
    Lw { rd: usize, rs1: usize, offset: i16 },
    Sw { rs1: usize, rs2: usize, offset: i16 },
    Jal { rd: usize, offset: i32 },
    Jalr { rd: usize, rs1: usize, offset: i16 },
    Beq { rs1: usize, rs2: usize, offset: i16 },
    Bne { rs1: usize, rs2: usize, offset: i16 },
    Blt { rs1: usize, rs2: usize, offset: i16 },
    Bge { rs1: usize, rs2: usize, offset: i16 },
    Bltu { rs1: usize, rs2: usize, offset: i16 },
    Bgeu { rs1: usize, rs2: usize, offset: i16 },
    Lui { rd: usize, imm: u32 },
    Auipc { rd: usize, imm: u32 },
    Fence { pred: u8, succ: u8 },
    Ecall,
    Ebreak,
}

/// The operation of an R-format word, chosen by `funct3` and `funct7`.
pub open spec fn decode_r(rd: usize, rs1: usize, rs2: usize, funct3: u8, funct7: u8) -> Option<
    Instruction,
> {
    if funct3 == 0b000 && funct7 == 0b0000000 {
        Some(Instruction::Add { rd, rs1, rs2 })
    } else if funct3 == 0b000 && funct7 == 0b0100000 {
        Some(Instruction::Sub { rd, rs1, rs2 })
    } else if funct3 == 0b111 && funct7 == 0b0000000 {
        Some(Instruction::And { rd, rs1, rs2 })
    } else if funct3 == 0b110 && funct7 == 0b0000000 {
        Some(Instruction::Or { rd, rs1, rs2 })
    } else if funct3 == 0b100 && funct7 == 0b0000000 {
        Some(Instruction::Xor { rd, rs1, rs2 })
    } else if funct3 == 0b001 && funct7 == 0b0000000 {
        Some(Instruction::Sll { rd, rs1, rs2 })
    } else if funct3 == 0b101 && funct7 == 0b0000000 {
        Some(Instruction::Srl { rd, rs1, rs2 })
    } else if funct3 == 0b101 && funct7 == 0b0100000 {
        Some(Instruction::Sra { rd, rs1, rs2 })
    } else if funct3 == 0b010 && funct7 == 0b0000000 {
        Some(Instruction::Slt { rd, rs1, rs2 })
    } else if funct3 == 0b011 && funct7 == 0b0000000 {
        Some(Instruction::Sltu { rd, rs1, rs2 })
    } else {
        None
    }
}

/// The operation of an I-format word, chosen by the opcode and `funct3`.
/// Of the two right shifts by an immediate, the arithmetic one is the one
/// with bit 10 of the immediate (bit 30 of the word) set.
pub open spec fn decode_i(opcode: u8, rd: usize, rs1: usize, funct3: u8, imm0_11: u16) -> Option<
    Instruction,
> {
    let imm = i_immediate(imm0_11) as i16;
    let offset = imm;
    let shamt = (imm0_11 % 0x20) as u8;
    if opcode == OPCODE_OP_IMM {
        if funct3 == 0b000 {
            Some(Instruction::Addi { rd, rs1, imm })
        } else if funct3 == 0b111 {
            Some(Instruction::Andi { rd, rs1, imm })
        } else if funct3 == 0b110 {
            Some(Instruction::Ori { rd, rs1, imm })
        } else if funct3 == 0b100 {
            Some(Instruction::Xori { rd, rs1, imm })
        } else if funct3 == 0b001 {
            Some(Instruction::Slli { rd, rs1, shamt })
        } else if funct3 == 0b101 {
            if (imm0_11 / 0x400) % 2 == 1 {
                Some(Instruction::Srai { rd, rs1, shamt })
            } else {
                Some(Instruction::Srli { rd, rs1, shamt })
            }
        } else if funct3 == 0b010 {
            Some(Instruction::Slti { rd, rs1, imm })
        } else if funct3 == 0b011 {
            Some(Instruction::Sltiu { rd, rs1, imm: (imm0_11 % 0x1000) as u16 })
        } else {
            None
        }
    } else if opcode == OPCODE_LOAD {
        if funct3 == 0b000 {
            Some(Instruction::Lb { rd, rs1, offset })
        } else if funct3 == 0b100 {
            Some(Instruction::Lbu { rd, rs1, offset })
        } else if funct3 == 0b001 {
            Some(Instruction::Lh { rd, rs1, offset })
        } else if funct3 == 0b101 {
            Some(Instruction::Lhu { rd, rs1, offset })
        } else if funct3 == 0b010 {
            Some(Instruction::Lw { rd, rs1, offset })
        } else {
            None
        }
    } else if opcode == OPCODE_JALR {
        if funct3 == 0b000 {
            Some(Instruction::Jalr { rd, rs1, offset })
        } else {
            None
        }
    } else {
        None
    }
}

/// The operation of a `FENCE` or `SYSTEM` word.  `FENCE` carries its two
/// 4-bit sets; a `SYSTEM` word is `ECALL` where its immediate (bits 31 to
/// 20) is 0 and `EBREAK` where it is 1.
pub open spec fn decode_other(word: u32) -> Option<Instruction> {
    let opcode = opcode_of(word);
    if opcode == OPCODE_MISC_MEM {
        Some(
            Instruction::Fence {
                pred: ((word >> 24) & 0xf) as u8,
                succ: ((word >> 20) & 0xf) as u8,
            },
        )
    } else if opcode == OPCODE_SYSTEM {
        let imm = (word >> 20) & 0xfff;
        if imm == 0 {
            Some(Instruction::Ecall)
        } else if imm == 1 {
            Some(Instruction::Ebreak)
        } else {
            None
        }
    } else {
        None
    }
}

/// The operation that a word stands for; `None` for a word that is no
/// instruction of the base instruction set.
pub open spec fn decode_word(word: u32) -> Option<Instruction> {
    match format_of(word) {
        Some(format) => Instruction::decode(format),
        None => None,
    }
}

impl Instruction {
    /// The operation that a format stands for; `None` where its function
    /// fields (or, for a format that several opcodes share, its opcode) name
    /// no operation of the base instruction set.
    pub open spec fn decode(format: InstructionFormat) -> Option<Instruction> {
        match format {
            InstructionFormat::R { opcode, rd, funct3, rs1, rs2, funct7 } => decode_r(
                rd as usize,
                rs1 as usize,
                rs2 as usize,
                funct3,
                funct7,
            ),
            InstructionFormat::I { opcode, rd, funct3, rs1, imm0_11 } => decode_i(
                opcode,
                rd as usize,
                rs1 as usize,
                funct3,
                imm0_11,
            ),
            InstructionFormat::S { opcode, imm0_4, funct3, rs1, rs2, imm5_11 } => {
                let rs1 = rs1 as usize;
                let rs2 = rs2 as usize;
                let offset = s_immediate(imm5_11, imm0_4) as i16;
                if funct3 == 0b000 {
                    Some(Instruction::Sb { rs1, rs2, offset })
                } else if funct3 == 0b001 {
                    Some(Instruction::Sh { rs1, rs2, offset })
                } else if funct3 == 0b010 {
                    Some(Instruction::Sw { rs1, rs2, offset })
                } else {
                    None
                }
            },
            InstructionFormat::B { opcode, funct3, rs1, rs2, imm1_4, imm5_10, imm11, imm12 } => {
                let rs1 = rs1 as usize;
                let rs2 = rs2 as usize;
                let offset = b_immediate(imm12, imm11, imm5_10, imm1_4) as i16;
                if funct3 == 0b000 {
                    Some(Instruction::Beq { rs1, rs2, offset })
                } else if funct3 == 0b001 {
                    Some(Instruction::Bne { rs1, rs2, offset })
                } else if funct3 == 0b100 {
                    Some(Instruction::Blt { rs1, rs2, offset })
                } else if funct3 == 0b101 {
                    Some(Instruction::Bge { rs1, rs2, offset })
                } else if funct3 == 0b110 {
                    Some(Instruction::Bltu { rs1, rs2, offset })
                } else if funct3 == 0b111 {
                    Some(Instruction::Bgeu { rs1, rs2, offset })
                } else {
                    None
                }
            },
            InstructionFormat::U { opcode, rd, imm12_31 } => {
                let rd = rd as usize;
                let imm = u_immediate(imm12_31);
                if opcode == OPCODE_LUI {
                    Some(Instruction::Lui { rd, imm })
                } else if opcode == OPCODE_AUIPC {
                    Some(Instruction::Auipc { rd, imm })
                } else {
                    None
                }
            },
            InstructionFormat::J { opcode, rd, imm1_10, imm11, imm12_19, imm20 } => Some(
                Instruction::Jal {
                    rd: rd as usize,
                    offset: j_immediate(imm20, imm12_19, imm11, imm1_10) as i32,
                },
            ),
            InstructionFormat::Other(word) => decode_other(word),
        }
    }

    /// The immediate is one that a word can hold: within the range of its
    /// format, and even where it is the offset of a branch or a jump.
    pub open spec fn well_formed(self) -> bool {
        match self {
            Instruction::Addi { imm, .. }
            | Instruction::Andi { imm, .. }
            | Instruction::Ori { imm, .. }
            | Instruction::Xori { imm, .. }
            | Instruction::Slti { imm, .. } => -0x800 <= imm < 0x800,
            Instruction::Sltiu { imm, .. } => imm < 0x1000,
            Instruction::Slli { shamt, .. }
            | Instruction::Srli { shamt, .. }
            | Instruction::Srai { shamt, .. } => shamt < 32,
            Instruction::Lb { offset, .. }
            | Instruction::Lbu { offset, .. }
            | Instruction::Lh { offset, .. }
            | Instruction::Lhu { offset, .. }
            | Instruction::Lw { offset, .. }
            | Instruction::Sb { offset, .. }
            | Instruction::Sh { offset, .. }
            | Instruction::Sw { offset, .. }
            | Instruction::Jalr { offset, .. } => -0x800 <= offset < 0x800,
            Instruction::Beq { offset, .. }
            | Instruction::Bne { offset, .. }
            | Instruction::Blt { offset, .. }
            | Instruction::Bge { offset, .. }
            | Instruction::Bltu { offset, .. }
            | Instruction::Bgeu { offset, .. } => -0x1000 <= offset < 0x1000 && offset % 2 == 0,
            Instruction::Jal { offset, .. } => -0x10_0000 <= offset < 0x10_0000 && offset % 2 == 0,
            Instruction::Lui { imm, .. } | Instruction::Auipc { imm, .. } => imm % 0x1000 == 0,
            Instruction::Fence { pred, succ } => pred < 16 && succ < 16,
            _ => true,
        }
    }

    /// Decodes a format.  Fails with `Decode` exactly where the format names
    /// no operation.
    pub fn parse(instruction_format: InstructionFormat) -> (res: Result<Self, EmulatorError>)
        ensures
            res == (match Instruction::decode(instruction_format) {
                Some(instruction) => Ok::<Instruction, EmulatorError>(instruction),
                None => Err(EmulatorError::Decode),
            }),
            res is Ok ==> res->Ok_0.well_formed(),
    {
        let ins = match instruction_format {
            InstructionFormat::R { opcode: _, rd, funct3, rs1, rs2, funct7 } => {
                let rd: usize = rd as usize;
                let rs1: usize = rs1 as usize;
                let rs2: usize = rs2 as usize;

                match (funct3, funct7) {
                    (0b000, 0b0000000) => Self::Add { rd, rs1, rs2 },
                    (0b000, 0b0100000) => Self::Sub { rd, rs1, rs2 },
                    (0b111, 0b0000000) => Self::And { rd, rs1, rs2 },
                    (0b110, 0b0000000) => Self::Or { rd, rs1, rs2 },
                    (0b100, 0b0000000) => Self::Xor { rd, rs1, rs2 },
                    (0b001, 0b0000000) => Self::Sll { rd, rs1, rs2 },
                    (0b101, 0b0000000) => Self::Srl { rd, rs1, rs2 },
                    (0b101, 0b0100000) => Self::Sra { rd, rs1, rs2 },
                    (0b010, 0b0000000) => Self::Slt { rd, rs1, rs2 },
                    (0b011, 0b0000000) => Self::Sltu { rd, rs1, rs2 },
                    _ => return Err(EmulatorError::Decode),
                }
            },
            InstructionFormat::I { opcode, rd, funct3, rs1, imm0_11 } => {
                let rd: usize = rd as usize;
                let rs1: usize = rs1 as usize;
                let imm: i16 = sign_extend_12(imm0_11);
                let offset: i16 = imm;
                let shamt: u8 = (imm0_11 & 0x1f) as u8;
                let arithmetic: bool = imm0_11 & 0x400 != 0;
                let unsigned_imm: u16 = imm0_11 & 0xfff;
                assert(shamt == (imm0_11 % 0x20) as u8 && shamt < 32 && arithmetic == ((imm0_11
                    / 0x400) % 2 == 1) && unsigned_imm == (imm0_11 % 0x1000) as u16 && unsigned_imm
                    < 0x1000) by (bit_vector)
                    requires
                        shamt == (imm0_11 & 0x1f) as u8,
                        arithmetic == (imm0_11 & 0x400 != 0),
                        unsigned_imm == imm0_11 & 0xfff,
                ;

                match (opcode, funct3) {
                    (OPCODE_OP_IMM, 0b000) => Self::Addi { rd, rs1, imm },
                    (OPCODE_OP_IMM, 0b111) => Self::Andi { rd, rs1, imm },
                    (OPCODE_OP_IMM, 0b110) => Self::Ori { rd, rs1, imm },
                    (OPCODE_OP_IMM, 0b100) => Self::Xori { rd, rs1, imm },
                    (OPCODE_OP_IMM, 0b001) => Self::Slli { rd, rs1, shamt },
                    (OPCODE_OP_IMM, 0b101) => {
                        if arithmetic {
                            Self::Srai { rd, rs1, shamt }
                        } else {
                            Self::Srli { rd, rs1, shamt }
                        }
                    },
                    (OPCODE_OP_IMM, 0b010) => Self::Slti { rd, rs1, imm },
                    (OPCODE_OP_IMM, 0b011) => Self::Sltiu { rd, rs1, imm: unsigned_imm },
                    (OPCODE_LOAD, 0b000) => Self::Lb { rd, rs1, offset },
                    (OPCODE_LOAD, 0b100) => Self::Lbu { rd, rs1, offset },
                    (OPCODE_LOAD, 0b001) => Self::Lh { rd, rs1, offset },
                    (OPCODE_LOAD, 0b101) => Self::Lhu { rd, rs1, offset },
                    (OPCODE_LOAD, 0b010) => Self::Lw { rd, rs1, offset },
                    (OPCODE_JALR, 0b000) => Self::Jalr { rd, rs1, offset },
                    _ => return Err(EmulatorError::Decode),
                }
            },
            InstructionFormat::S { opcode: _, imm0_4, funct3, rs1, rs2, imm5_11 } => {
                let rs1: usize = rs1 as usize;
                let rs2: usize = rs2 as usize;
                let raw: u16 = ((imm5_11 as u16 & 0x7f) << 5) | (imm0_4 as u16 & 0x1f);
                assert(raw as int == (imm5_11 % 0x80) * 0x20 + imm0_4 % 0x20 && raw < 0x1000)
                    by (bit_vector)
                    requires
                        raw == ((imm5_11 as u16 & 0x7f) << 5) | (imm0_4 as u16 & 0x1f),
                ;
                let offset: i16 = sign_extend_12(raw);

                match funct3 {
                    0b000 => Self::Sb { rs1, rs2, offset },
                    0b001 => Self::Sh { rs1, rs2, offset },
                    0b010 => Self::Sw { rs1, rs2, offset },
                    _ => return Err(EmulatorError::Decode),
                }
            },
            InstructionFormat::B {
                opcode: _,
                funct3,
                rs1,
                rs2,
                imm1_4,
                imm5_10,
                imm11,
                imm12,
            } => {
                let rs1: usize = rs1 as usize;
                let rs2: usize = rs2 as usize;
                let raw: u16 = (imm12 as u16 & 0x1) << 12 | (imm11 as u16 & 0x1) << 11 | (
                imm5_10 as u16 & 0x3f) << 5 | (imm1_4 as u16 & 0x1e);
                let offset: i16 = if raw & 0x1000 != 0 {
                    (raw | 0xe000) as i16
                } else {
                    raw as i16
                };
                assert(offset as int == ({
                    let low = (imm12 % 2) * 0x1000 + (imm11 % 2) * 0x800 + (imm5_10 % 0x40) * 0x20
                        + (imm1_4 % 0x20) / 2 * 2;
                    if low < 0x1000 {
                        low
                    } else {
                        low - 0x2000
                    }
                })) by (bit_vector)
                    requires
                        raw == (imm12 as u16 & 0x1) << 12 | (imm11 as u16 & 0x1) << 11 | (
                        imm5_10 as u16 & 0x3f) << 5 | (imm1_4 as u16 & 0x1e),
                        offset == (if raw & 0x1000 != 0 {
                            (raw | 0xe000) as i16
                        } else {
                            raw as i16
                        }),
                ;

                match funct3 {
                    0b000 => Self::Beq { rs1, rs2, offset },
                    0b001 => Self::Bne { rs1, rs2, offset },
                    0b100 => Self::Blt { rs1, rs2, offset },
                    0b101 => Self::Bge { rs1, rs2, offset },
                    0b110 => Self::Bltu { rs1, rs2, offset },
                    0b111 => Self::Bgeu { rs1, rs2, offset },
                    _ => return Err(EmulatorError::Decode),
                }
            },
            InstructionFormat::U { opcode, rd, imm12_31 } => {
                let rd: usize = rd as usize;
                let imm: u32 = imm12_31 << 12;
                assert(imm == ((imm12_31 % 0x10_0000) * 0x1000) as u32 && imm % 0x1000 == 0)
                    by (bit_vector)
                    requires
                        imm == imm12_31 << 12,
                ;

                match opcode {
                    OPCODE_LUI => Self::Lui { rd, imm },
                    OPCODE_AUIPC => Self::Auipc { rd, imm },
                    _ => return Err(EmulatorError::Decode),
                }
            },
            InstructionFormat::J { opcode: _, rd, imm1_10, imm11, imm12_19, imm20 } => {
                let rd: usize = rd as usize;
                let mut raw: u32 = 0u32;
                raw |= (imm20 as u32 & 0x1) << 20;
                raw |= (imm12_19 as u32) << 12;
                raw |= (imm11 as u32 & 0x1) << 11;
                raw |= (imm1_10 as u32 & 0x3ff) << 1;

                if raw & 0x00100000 != 0 {
                    raw |= 0xffe00000;
                }
                let offset: i32 = raw as i32;
                assert(offset as int == ({
                    let low = (imm20 % 2) * 0x10_0000 + imm12_19 * 0x1000 + (imm11 % 2) * 0x800 + (
                    imm1_10 % 0x400) * 2;
                    if low < 0x10_0000 {
                        low
                    } else {
                        low - 0x20_0000
                    }
                })) by (bit_vector)
                    requires
                        offset == ({
                            let r = 0u32 | (imm20 as u32 & 0x1) << 20 | (imm12_19 as u32) << 12 | (
                            imm11 as u32 & 0x1) << 11 | (imm1_10 as u32 & 0x3ff) << 1;
                            if r & 0x00100000 != 0 {
                                r | 0xffe00000
                            } else {
                                r
                            }
                        }) as i32,
                ;

                Self::Jal { rd, offset }
            },
            InstructionFormat::Other(i) => {
                let opcode: u8 = (i & 0x7f) as u8;
                let pred: u8 = ((i >> 24) & 0xf) as u8;
                let succ: u8 = ((i >> 20) & 0xf) as u8;
                let imm: u32 = (i >> 20) & 0xfff;
                assert(pred < 16 && succ < 16) by (bit_vector)
                    requires
                        pred == ((i >> 24) & 0xf) as u8,
                        succ == ((i >> 20) & 0xf) as u8,
                ;
                match (opcode, imm) {
                    (OPCODE_MISC_MEM, _) => Self::Fence { pred, succ },
                    (OPCODE_SYSTEM, 0) => Self::Ecall,
                    (OPCODE_SYSTEM, 1) => Self::Ebreak,
                    _ => return Err(EmulatorError::Decode),
                }
            },
        };
        Ok(ins)
    }
}

/// The immediates read off the word.  The I-immediate is bits 31 to 20,
/// sign-extended, which is the word shifted right by 20 places with its sign
/// kept; the S-immediate is bits 31 to 25, sign-extended, above bits 11 to
/// 7; the B-immediate is bit 31 as the sign, then bit 7, bits 30 to 25 and
/// bits 11 to 8 above a zero bit; the J-immediate is bit 31 as the sign,
/// then bits 19 to 12, bit 20 and bits 30 to 21 above a zero bit; the
/// U-immediate is the word with its low 12 bits cleared.
pub proof fn lemma_immediates_of_word(word: u32)
    ensures
        i_immediate(((word >> 20) & 0xfff) as u16) == ((word as i32) >> 20) as int,
        s_immediate(funct7_of(word), rd_of(word)) == ((word as i32) >> 25) * 0x20 + (word >> 7)
            % 0x20,
        b_immediate(
            ((word >> 31) & 0x1) as u8,
            ((word >> 7) & 0x1) as u8,
            ((word >> 25) & 0x3f) as u8,
            rd_of(word),
        ) == ((word as i32) >> 31) * 0x1000 + (word >> 7) % 2 * 0x800 + (word >> 25) % 0x40 * 0x20
            + (word >> 8) % 0x10 * 2,
        j_immediate(
            ((word >> 31) & 0x1) as u8,
            ((word >> 12) & 0xff) as u8,
            ((word >> 20) & 0x1) as u8,
            ((word >> 21) & 0x3ff) as u16,
        ) == ((word as i32) >> 31) * 0x10_0000 + (word >> 12) % 0x100 * 0x1000 + (word >> 20) % 2
            * 0x800 + (word >> 21) % 0x400 * 2,
        u_immediate(word >> 12) == word - word % 0x1000,
{
    let w = word;
    assert(({
        let low = (((w >> 20) & 0xfff) as u16) % 0x1000;
        if low < 0x800 {
            low as int
        } else {
            low - 0x1000
        }
    }) == ((w as i32) >> 20) as int) by (bit_vector);
    assert(({
        let low = ((((w >> 25) & 0x7f) as u8) % 0x80) * 0x20 + (((w >> 7) & 0x1f) as u8) % 0x20;
        if low < 0x800 {
            low
        } else {
            low - 0x1000
        }
    }) == ((w as i32) >> 25) * 0x20 + (w >> 7) % 0x20) by (bit_vector);
    assert(({
        let low = ((((w >> 31) & 0x1) as u8) % 2) * 0x1000 + ((((w >> 7) & 0x1) as u8) % 2) * 0x800
            + ((((w >> 25) & 0x3f) as u8) % 0x40) * 0x20 + ((((w >> 7) & 0x1f) as u8) % 0x20) / 2
            * 2;
        if low < 0x1000 {
            low
        } else {
            low - 0x2000
        }
    }) == ((w as i32) >> 31) * 0x1000 + (w >> 7) % 2 * 0x800 + (w >> 25) % 0x40 * 0x20 + (w >> 8)
        % 0x10 * 2) by (bit_vector);
    assert(({
        let low = ((((w >> 31) & 0x1) as u8) % 2) * 0x10_0000 + (((w >> 12) & 0xff) as u8) * 0x1000
            + ((((w >> 20) & 0x1) as u8) % 2) * 0x800 + ((((w >> 21) & 0x3ff) as u16) % 0x400) * 2;
        if low < 0x10_0000 {
            low
        } else {
            low - 0x20_0000
        }
    }) == ((w as i32) >> 31) * 0x10_0000 + (w >> 12) % 0x100 * 0x1000 + (w >> 20) % 2 * 0x800 + (w
        >> 21) % 0x400 * 2) by (bit_vector);
    assert((((w >> 12) % 0x10_0000) * 0x1000) as u32 == w - w % 0x1000) by (bit_vector);
}

/// What the decoder gives is well formed: every immediate lies in the range
/// of its format, and the offset of a branch or a jump is even.
pub proof fn lemma_decode_well_formed(format: InstructionFormat)
    ensures
        Instruction::decode(format) is Some ==> Instruction::decode(format)->Some_0.well_formed(),
{
    if let InstructionFormat::Other(word) = format {
        assert((((word >> 24) & 0xf) as u8) < 16 && (((word >> 20) & 0xf) as u8) < 16)
            by (bit_vector);
    }
}

/// The low 12 bits of `raw` as a two's-complement number.
fn sign_extend_12(raw: u16) -> (imm: i16)
    ensures
        imm == i_immediate(raw),
        -0x800 <= imm < 0x800,
{
    let low: u16 = raw & 0xfff;
    let imm: i16 = if low & 0x800 != 0 {
        (low | 0xf000) as i16
    } else {
        low as i16
    };
    assert(imm as int == ({
        let l = raw % 0x1000;
        if l < 0x800 {
            l as int
        } else {
            l - 0x1000
        }
    })) by (bit_vector)
        requires
            imm == (if (raw & 0xfff) & 0x800 != 0 {
                ((raw & 0xfff) | 0xf000) as i16
            } else {
                (raw & 0xfff) as i16
            }),
    ;
    imm
}

} // verus!
