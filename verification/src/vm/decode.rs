use vstd::prelude::*;

use crate::error::{InternalError, RuntimeError};
use crate::vm::opcode::{Opcode, lemma_opcode_round_trip, opcode_byte, opcode_of};

verus! {

/// One instruction of a method's code: its opcode, its first two operand
/// bytes (0 where it has fewer), where it starts and where the next one
/// starts.
#[derive(Debug, Clone, Copy, PartialEq, Eq, Structural)]
pub struct Instruction {
    pub op: Opcode,
    pub b1: u8,
    pub b2: u8,
    pub opcode_pc: usize,
    pub next_pc: usize,
}

/// The number of operand bytes that follow opcode `op`.
pub open spec fn operand_len(op: Opcode) -> nat {
    match op {
        Opcode::Bipush | Opcode::Ldc | Opcode::ILoad | Opcode::IStore | Opcode::AStore
        | Opcode::NewArray => 1,
        Opcode::Sipush | Opcode::LdcW | Opcode::Ldc2W | Opcode::IfEq | Opcode::IfNe
        | Opcode::IfLt | Opcode::IfGe | Opcode::IfGt | Opcode::IfLe | Opcode::IfICmpEq
        | Opcode::IfICmpNe | Opcode::IfICmpLt | Opcode::IfICmpGe | Opcode::IfICmpGt
        | Opcode::IfICmpLe | Opcode::IfNull | Opcode::IfNonNull | Opcode::Goto | Opcode::IInc
        | Opcode::GetStatic | Opcode::PutStatic | Opcode::GetField | Opcode::PutField
        | Opcode::InvokeVirtual | Opcode::InvokeSpecial | Opcode::InvokeStatic | Opcode::New
        | Opcode::ANewArray => 2,
        Opcode::InvokeInterface => 4,
        _ => 0,
    }
}

/// Why an instruction cannot be read: the code ends first, or the byte at
/// the given pc is no opcode the interpreter knows.
pub enum DecodeError {
    Truncated(usize),
    BadOpcode(u8, usize),
}

/// The instruction at `pc` of `code`.
pub open spec fn decoded(code: Seq<u8>, pc: usize) -> Result<Instruction, DecodeError> {
    if pc >= code.len() {
        Err(DecodeError::Truncated(pc))
    } else {
        match opcode_of(code[pc as int]) {
            None => Err(DecodeError::BadOpcode(code[pc as int], pc)),
            Some(op) => {
                let n = operand_len(op);
                if pc + 1 + n > code.len() {
                    Err(DecodeError::Truncated(pc))
                } else {
                    Ok(
                        Instruction {
                            op,
                            b1: if n >= 1 {
                                code[pc + 1]
                            } else {
                                0
                            },
                            b2: if n >= 2 {
                                code[pc + 2]
                            } else {
                                0
                            },
                            opcode_pc: pc,
                            next_pc: (pc + 1 + n) as usize,
                        },
                    )
                }
            },
        }
    }
}

/// Whether `r` is the error that `e` describes.
pub open spec fn is_decode_error(r: RuntimeError, e: DecodeError) -> bool {
    match e {
        DecodeError::Truncated(pc) => r matches RuntimeError::Internal(
            InternalError::TruncatedCode { pc: p },
        ) && p == pc,
        DecodeError::BadOpcode(b, pc) => r matches RuntimeError::Internal(
            InternalError::InvalidOpcode { opcode: o, pc: p },
        ) && o == b && p == pc,
    }
}

fn operand_count(op: Opcode) -> (r: usize)
    ensures
        r == operand_len(op),
{
    match op {
        Opcode::Bipush | Opcode::Ldc | Opcode::ILoad | Opcode::IStore | Opcode::AStore
        | Opcode::NewArray => 1,
        Opcode::Sipush | Opcode::LdcW | Opcode::Ldc2W | Opcode::IfEq | Opcode::IfNe
        | Opcode::IfLt | Opcode::IfGe | Opcode::IfGt | Opcode::IfLe | Opcode::IfICmpEq
        | Opcode::IfICmpNe | Opcode::IfICmpLt | Opcode::IfICmpGe | Opcode::IfICmpGt
        | Opcode::IfICmpLe | Opcode::IfNull | Opcode::IfNonNull | Opcode::Goto | Opcode::IInc
        | Opcode::GetStatic | Opcode::PutStatic | Opcode::GetField | Opcode::PutField
        | Opcode::InvokeVirtual | Opcode::InvokeSpecial | Opcode::InvokeStatic | Opcode::New
        | Opcode::ANewArray => 2,
        Opcode::InvokeInterface => 4,
        _ => 0,
    }
}

/// Reads the instruction at `pc` of `code`.
pub fn decode(code: &[u8], pc: usize) -> (r: Result<Instruction, RuntimeError>)
    ensures
        match decoded(code@, pc) {
            Ok(i) => r == Ok::<Instruction, RuntimeError>(i),
            Err(e) => r is Err && is_decode_error(r->Err_0, e),
        },
{
    if pc >= code.len() {
        return Err(RuntimeError::Internal(InternalError::TruncatedCode { pc }));
    }
    let byte = code[pc];
    let op = match Opcode::try_from(byte) {
        Ok(op) => op,
        Err(()) => {
            proof {
                assert(!(exists|o: Opcode| opcode_byte(o) == byte));
            }
            return Err(RuntimeError::Internal(InternalError::InvalidOpcode { opcode: byte, pc }));
        },
    };
    proof {
        lemma_opcode_round_trip(op, op);
    }
    let n = operand_count(op);
    if n >= code.len() - pc {
        return Err(RuntimeError::Internal(InternalError::TruncatedCode { pc }));
    }
    let b1 = if n >= 1 {
        code[pc + 1]
    } else {
        0
    };
    let b2 = if n >= 2 {
        code[pc + 2]
    } else {
        0
    };
    Ok(Instruction { op, b1, b2, opcode_pc: pc, next_pc: pc + 1 + n })
}

/// The unsigned 16-bit operand of an instruction.
pub open spec fn operand_u16(i: Instruction) -> u16 {
    (i.b1 as nat * 256 + i.b2 as nat) as u16
}

/// The signed 16-bit operand of an instruction (a branch offset or a
/// `sipush` value).
pub open spec fn operand_i16(i: Instruction) -> i16 {
    operand_u16(i) as i16
}

/// The unsigned 16-bit operand of an instruction.
pub fn index_u16(i: &Instruction) -> (r: u16)
    ensures
        r == operand_u16(*i),
{
    (i.b1 as u16) * 256 + (i.b2 as u16)
}

/// The signed 16-bit operand of an instruction.
pub fn offset_i16(i: &Instruction) -> (r: i16)
    ensures
        r == operand_i16(*i),
{
    let u = index_u16(i);
    u as i16
}

/// The pc that a branch of `i` goes to: its offset added to where it
/// starts, wrapping around as a `usize`.
pub open spec fn branch_target(i: Instruction) -> usize {
    i.opcode_pc.wrapping_add_signed(operand_i16(i) as isize)
}

/// The pc that a branch of `i` goes to.
pub fn target_of(i: &Instruction) -> (r: usize)
    ensures
        r == branch_target(*i),
{
    let off = offset_i16(i);
    i.opcode_pc.wrapping_add_signed(off as isize)
}

} // verus!
