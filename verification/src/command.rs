//! Instruction words ("platters") and their decoding.
//!
//! A platter is a 32-bit word.  Its top four bits select one of fourteen
//! opcodes.  Opcodes 0 through 12 carry three register indices in the low
//! nine bits; opcode 13 carries one register index in bits 25..28 and a
//! 25-bit immediate in the low bits.

use vstd::prelude::*;

verus! {

/// A platter: the machine's 32-bit unit of data and of instructions.
pub type Plate = u32;

/// Index of one of the eight general-purpose registers.
pub type RegId = u8;

/// One decoded instruction.
#[derive(Clone, Copy, Debug, PartialEq, Eq, Structural)]
pub enum Command {
    CondMove { dst: RegId, src: RegId, cnd: RegId },
    ArrLoad { dst: RegId, arr: RegId, offset: RegId },
    ArrStore { src: RegId, arr: RegId, offset: RegId },
    Add { dst: RegId, op1: RegId, op2: RegId },
    Mul { dst: RegId, op1: RegId, op2: RegId },
    Div { dst: RegId, op1: RegId, op2: RegId },
    NotAnd { dst: RegId, op1: RegId, op2: RegId },
    Halt,
    Alloc { dst: RegId, size: RegId },
    Free { arr: RegId },
    Output { src: RegId },
    Input { dst: RegId },
    LoadProg { arr: RegId, offset: RegId },
    StoreConst { dst: RegId, val: Plate },
}

/// The opcode of a platter: its top four bits.
pub open spec fn spec_opcode(p: Plate) -> u32 {
    (p >> 28) & 0xF
}

/// Register index A of a standard-form platter.
pub open spec fn spec_reg_a(p: Plate) -> RegId {
    (((p >> 6) & 7) as u8)
}

/// Register index B of a standard-form platter.
pub open spec fn spec_reg_b(p: Plate) -> RegId {
    (((p >> 3) & 7) as u8)
}

/// Register index C of a standard-form platter.
pub open spec fn spec_reg_c(p: Plate) -> RegId {
    ((p & 7) as u8)
}

/// Register index of a special-form (orthography) platter.
pub open spec fn spec_special_reg(p: Plate) -> RegId {
    (((p >> 25) & 7) as u8)
}

/// The 25-bit immediate of a special-form platter.
pub open spec fn spec_immediate(p: Plate) -> u32 {
    p & 0x1FFFFFF
}

/// The instruction denoted by a platter whose opcode is 0 through 13.
pub open spec fn spec_decode(p: Plate) -> Command {
    let a = spec_reg_a(p);
    let b = spec_reg_b(p);
    let c = spec_reg_c(p);
    let op = spec_opcode(p);
    if op == 0 {
        Command::CondMove { dst: a, src: b, cnd: c }
    } else if op == 1 {
        Command::ArrLoad { dst: a, arr: b, offset: c }
    } else if op == 2 {
        Command::ArrStore { src: c, arr: a, offset: b }
    } else if op == 3 {
        Command::Add { dst: a, op1: b, op2: c }
    } else if op == 4 {
        Command::Mul { dst: a, op1: b, op2: c }
    } else if op == 5 {
        Command::Div { dst: a, op1: b, op2: c }
    } else if op == 6 {
        Command::NotAnd { dst: a, op1: b, op2: c }
    } else if op == 7 {
        Command::Halt
    } else if op == 8 {
        Command::Alloc { dst: b, size: c }
    } else if op == 9 {
        Command::Free { arr: c }
    } else if op == 10 {
        Command::Output { src: c }
    } else if op == 11 {
        Command::Input { dst: c }
    } else if op == 12 {
        Command::LoadProg { arr: b, offset: c }
    } else {
        Command::StoreConst { dst: spec_special_reg(p), val: spec_immediate(p) }
    }
}

/// The platter for a standard-form instruction: opcode in the top four
/// bits, register indices A, B, C in bits 6..9, 3..6 and 0..3.
pub open spec fn spec_encode_standard(op: u32, a: RegId, b: RegId, c: RegId) -> Plate {
    (op << 28) | ((a as u32) << 6) | ((b as u32) << 3) | (c as u32)
}

/// The platter that denotes a given instruction.
pub open spec fn spec_encode(c: Command) -> Plate {
    match c {
        Command::CondMove { dst, src, cnd } => spec_encode_standard(0, dst, src, cnd),
        Command::ArrLoad { dst, arr, offset } => spec_encode_standard(1, dst, arr, offset),
        Command::ArrStore { src, arr, offset } => spec_encode_standard(2, arr, offset, src),
        Command::Add { dst, op1, op2 } => spec_encode_standard(3, dst, op1, op2),
        Command::Mul { dst, op1, op2 } => spec_encode_standard(4, dst, op1, op2),
        Command::Div { dst, op1, op2 } => spec_encode_standard(5, dst, op1, op2),
        Command::NotAnd { dst, op1, op2 } => spec_encode_standard(6, dst, op1, op2),
        Command::Halt => spec_encode_standard(7, 0, 0, 0),
        Command::Alloc { dst, size } => spec_encode_standard(8, 0, dst, size),
        Command::Free { arr } => spec_encode_standard(9, 0, 0, arr),
        Command::Output { src } => spec_encode_standard(10, 0, 0, src),
        Command::Input { dst } => spec_encode_standard(11, 0, 0, dst),
        Command::LoadProg { arr, offset } => spec_encode_standard(12, 0, arr, offset),
        Command::StoreConst { dst, val } => (13u32 << 28) | ((dst as u32) << 25) | val,
    }
}

impl Command {
    /// Every register index is below 8 and the orthography immediate fits
    /// in 25 bits: exactly the values a decoded platter can carry.
    pub open spec fn wf(self) -> bool {
        match self {
            Command::CondMove { dst, src, cnd } => dst < 8 && src < 8 && cnd < 8,
            Command::ArrLoad { dst, arr, offset } => dst < 8 && arr < 8 && offset < 8,
            Command::ArrStore { src, arr, offset } => src < 8 && arr < 8 && offset < 8,
            Command::Add { dst, op1, op2 } => dst < 8 && op1 < 8 && op2 < 8,
            Command::Mul { dst, op1, op2 } => dst < 8 && op1 < 8 && op2 < 8,
            Command::Div { dst, op1, op2 } => dst < 8 && op1 < 8 && op2 < 8,
            Command::NotAnd { dst, op1, op2 } => dst < 8 && op1 < 8 && op2 < 8,
            Command::Halt => true,
            Command::Alloc { dst, size } => dst < 8 && size < 8,
            Command::Free { arr } => arr < 8,
            Command::Output { src } => src < 8,
            Command::Input { dst } => dst < 8,
            Command::LoadProg { arr, offset } => arr < 8 && offset < 8,
            Command::StoreConst { dst, val } => dst < 8 && val < 0x2000000,
        }
    }

    /// The fields a platter can carry are bounded: three bits for each
    /// register index, 25 bits for the immediate.
    pub proof fn lemma_decode_wf(p: Plate)
        ensures
            spec_decode(p).wf(),
    {
        assert((p >> 6) & 7 < 8 && (p >> 3) & 7 < 8 && p & 7 < 8 && (p >> 25) & 7 < 8 && p
            & 0x1FFFFFF < 0x2000000) by (bit_vector);
    }

    fn decode_registers_standard(p: Plate) -> (r: (RegId, RegId, RegId))
        ensures
            r.0 == spec_reg_a(p),
            r.1 == spec_reg_b(p),
            r.2 == spec_reg_c(p),
    {
        let c = (p & 0b111) as RegId;
        let b = ((p >> 3) & 0b111) as RegId;
        let a = ((p >> 6) & 0b111) as RegId;
        (a, b, c)
    }

    fn decode_special(p: Plate) -> (r: (RegId, Plate))
        ensures
            r.0 == spec_special_reg(p),
            r.1 == spec_immediate(p),
    {
        let a = ((p >> 25) & 0b111) as RegId;
        let v = p & 0b1111111111111111111111111;
        (a, v)
    }

    /// The opcode of a platter.
    pub fn decode_command_id(p: Plate) -> (r: u8)
        ensures
            r as u32 == spec_opcode(p),
            r <= 15,
    {
        proof {
            assert((p >> 28) & 0b1111 <= 15) by (bit_vector);
        }
        ((p >> 28) & 0b1111) as u8
    }

    /// Decode a platter whose opcode is one of the fourteen defined ones.
    /// A platter with opcode 14 or 15 denotes no instruction; the machine
    /// treats it as a fault before decoding.
    pub fn decode(p: Plate) -> (r: Command)
        requires
            spec_opcode(p) <= 13,
        ensures
            r == spec_decode(p),
            r.wf(),
    {
        proof {
            Command::lemma_decode_wf(p);
        }
        match Command::decode_command_id(p) {
            0 => {
                let (a, b, c) = Command::decode_registers_standard(p);
                Command::CondMove { src: b, dst: a, cnd: c }
            },
            1 => {
                let (a, b, c) = Command::decode_registers_standard(p);
                Command::ArrLoad { dst: a, arr: b, offset: c }
            },
            2 => {
                let (a, b, c) = Command::decode_registers_standard(p);
                Command::ArrStore { src: c, arr: a, offset: b }
            },
            3 => {
                let (a, b, c) = Command::decode_registers_standard(p);
                Command::Add { dst: a, op1: b, op2: c }
            },
            4 => {
                let (a, b, c) = Command::decode_registers_standard(p);
                Command::Mul { dst: a, op1: b, op2: c }
            },
            5 => {
                let (a, b, c) = Command::decode_registers_standard(p);
                Command::Div { dst: a, op1: b, op2: c }
            },
            6 => {
                let (a, b, c) = Command::decode_registers_standard(p);
                Command::NotAnd { dst: a, op1: b, op2: c }
            },
            7 => { Command::Halt },
            8 => {
                let (_a, b, c) = Command::decode_registers_standard(p);
                Command::Alloc { dst: b, size: c }
            },
            9 => {
                let (_a, _b, c) = Command::decode_registers_standard(p);
                Command::Free { arr: c }
            },
            10 => {
                let (_a, _b, c) = Command::decode_registers_standard(p);
                Command::Output { src: c }
            },
            11 => {
                let (_a, _b, c) = Command::decode_registers_standard(p);
                Command::Input { dst: c }
            },
            12 => {
                let (_a, b, c) = Command::decode_registers_standard(p);
                Command::LoadProg { arr: b, offset: c }
            },
            13 => {
                let (a, v) = Command::decode_special(p);
                Command::StoreConst { dst: a, val: v }
            },
            _ => {
                proof {
                    assert(false);
                }
                Command::Halt
            },
        }
    }

    /// Build the platter that decodes back to this instruction.
    pub fn encode(&self) -> (p: Plate)
        requires
            self.wf(),
        ensures
            p == spec_encode(*self),
    {
        match *self {
            Command::CondMove { dst, src, cnd } => Command::encode_standard(0, dst, src, cnd),
            Command::ArrLoad { dst, arr, offset } => Command::encode_standard(1, dst, arr, offset),
            Command::ArrStore { src, arr, offset } => Command::encode_standard(2, arr, offset, src),
            Command::Add { dst, op1, op2 } => Command::encode_standard(3, dst, op1, op2),
            Command::Mul { dst, op1, op2 } => Command::encode_standard(4, dst, op1, op2),
            Command::Div { dst, op1, op2 } => Command::encode_standard(5, dst, op1, op2),
            Command::NotAnd { dst, op1, op2 } => Command::encode_standard(6, dst, op1, op2),
            Command::Halt => Command::encode_standard(7, 0, 0, 0),
            Command::Alloc { dst, size } => Command::encode_standard(8, 0, dst, size),
            Command::Free { arr } => Command::encode_standard(9, 0, 0, arr),
            Command::Output { src } => Command::encode_standard(10, 0, 0, src),
            Command::Input { dst } => Command::encode_standard(11, 0, 0, dst),
            Command::LoadProg { arr, offset } => Command::encode_standard(12, 0, arr, offset),
            Command::StoreConst { dst, val } => (13u32 << 28) | ((dst as u32) << 25) | val,
        }
    }

    fn encode_standard(op: u32, a: RegId, b: RegId, c: RegId) -> (p: Plate)
        requires
            op <= 13,
        ensures
            p == spec_encode_standard(op, a, b, c),
    {
        (op << 28) | ((a as u32) << 6) | ((b as u32) << 3) | (c as u32)
    }
}

/// Decoding the fields of a standard-form platter recovers the opcode and
/// the three register indices it was built from.
proof fn lemma_standard_fields(op: u32, a: RegId, b: RegId, c: RegId)
    requires
        op <= 12,
        a < 8,
        b < 8,
        c < 8,
    ensures
        spec_opcode(spec_encode_standard(op, a, b, c)) == op,
        spec_reg_a(spec_encode_standard(op, a, b, c)) == a,
        spec_reg_b(spec_encode_standard(op, a, b, c)) == b,
        spec_reg_c(spec_encode_standard(op, a, b, c)) == c,
{
    let p = (op << 28) | ((a as u32) << 6) | ((b as u32) << 3) | (c as u32);
    assert((p >> 28) & 0xF == op && (p >> 6) & 7 == a as u32 && (p >> 3) & 7 == b as u32 && p & 7
        == c as u32) by (bit_vector)
        requires
            op <= 12 && a < 8 && b < 8 && c < 8 && p == (op << 28) | ((a as u32) << 6) | ((
            b as u32) << 3) | (c as u32),
    ;
}

/// Decoding the fields of a special-form platter recovers the register
/// index and the immediate it was built from.
proof fn lemma_special_fields(a: RegId, v: u32)
    requires
        a < 8,
        v < 0x2000000,
    ensures
        spec_opcode((13u32 << 28) | ((a as u32) << 25) | v) == 13,
        spec_special_reg((13u32 << 28) | ((a as u32) << 25) | v) == a,
        spec_immediate((13u32 << 28) | ((a as u32) << 25) | v) == v,
{
    let p = (13u32 << 28) | ((a as u32) << 25) | v;
    assert((p >> 28) & 0xF == 13 && (p >> 25) & 7 == a as u32 && p & 0x1FFFFFF == v) by (bit_vector)
        requires
            a < 8 && v < 0x2000000 && p == (13u32 << 28) | ((a as u32) << 25) | v,
    ;
}

/// Round trip: decoding the encoding of any well-formed instruction, of
/// any of the fourteen opcode shapes, gives that instruction back.
pub proof fn lemma_decode_encode_roundtrip(c: Command)
    requires
        c.wf(),
    ensures
        spec_opcode(spec_encode(c)) <= 13,
        spec_decode(spec_encode(c)) == c,
{
    match c {
        Command::CondMove { dst, src, cnd } => lemma_standard_fields(0, dst, src, cnd),
        Command::ArrLoad { dst, arr, offset } => lemma_standard_fields(1, dst, arr, offset),
        Command::ArrStore { src, arr, offset } => lemma_standard_fields(2, arr, offset, src),
        Command::Add { dst, op1, op2 } => lemma_standard_fields(3, dst, op1, op2),
        Command::Mul { dst, op1, op2 } => lemma_standard_fields(4, dst, op1, op2),
        Command::Div { dst, op1, op2 } => lemma_standard_fields(5, dst, op1, op2),
        Command::NotAnd { dst, op1, op2 } => lemma_standard_fields(6, dst, op1, op2),
        Command::Halt => lemma_standard_fields(7, 0, 0, 0),
        Command::Alloc { dst, size } => lemma_standard_fields(8, 0, dst, size),
        Command::Free { arr } => lemma_standard_fields(9, 0, 0, arr),
        Command::Output { src } => lemma_standard_fields(10, 0, 0, src),
        Command::Input { dst } => lemma_standard_fields(11, 0, 0, dst),
        Command::LoadProg { arr, offset } => lemma_standard_fields(12, 0, arr, offset),
        Command::StoreConst { dst, val } => lemma_special_fields(dst, val),
    }
}

} // verus!
