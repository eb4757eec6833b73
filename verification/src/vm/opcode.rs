use vstd::prelude::*;

verus! {

/// The instructions that the interpreter knows (JVMS chapter 6), each with
/// its byte in `opcode_byte`.
#[derive(Debug, Clone, Copy, PartialEq, Eq, Structural)]
pub enum Opcode {
    AConstNull,
    Bipush,
    Sipush,
    Ldc,
    LdcW,
    Ldc2W,
    IConst0,
    IConst1,
    IConst2,
    IConst3,
    IConst4,
    IConst5,
    FConst0,
    FConst1,
    FConst2,
    ILoad,
    ILoad0,
    ILoad1,
    ILoad2,
    ILoad3,
    FLoad0,
    FLoad1,
    FLoad2,
    FLoad3,
    ALoad0,
    ALoad1,
    ALoad2,
    ALoad3,
    IALoad,
    CALoad,
    AStore,
    AStore0,
    AStore1,
    AStore2,
    AStore3,
    IAStore,
    AAStore,
    CAStore,
    Pop,
    Dup,
    IAdd,
    LAdd,
    ISub,
    IMul,
    FMul,
    IRem,
    LShl,
    IAnd,
    LAnd,
    IInc,
    I2L,
    I2F,
    F2I,
    AALoad,
    IStore,
    IStore0,
    IStore1,
    IStore2,
    IStore3,
    FCmpL,
    FCmpG,
    IfEq,
    IfNe,
    IfLt,
    IfGe,
    IfGt,
    IfLe,
    IfICmpEq,
    IfICmpNe,
    IfICmpLt,
    IfICmpGe,
    IfICmpGt,
    IfICmpLe,
    Goto,
    IReturn,
    FReturn,
    DReturn,
    AReturn,
    Return,
    GetStatic,
    PutStatic,
    GetField,
    PutField,
    InvokeVirtual,
    InvokeSpecial,
    InvokeStatic,
    InvokeInterface,
    New,
    NewArray,
    ANewArray,
    ArrayLength,
    IfNull,
    IfNonNull,
}

/// The byte that encodes `op` in a method's code.
pub open spec fn opcode_byte(op: Opcode) -> u8 {
    match op {
        Opcode::AConstNull => 0x01,
        Opcode::Bipush => 0x10,
        Opcode::Sipush => 0x11,
        Opcode::Ldc => 0x12,
        Opcode::LdcW => 0x13,
        Opcode::Ldc2W => 0x14,
        Opcode::IConst0 => 0x03,
        Opcode::IConst1 => 0x04,
        Opcode::IConst2 => 0x05,
        Opcode::IConst3 => 0x06,
        Opcode::IConst4 => 0x07,
        Opcode::IConst5 => 0x08,
        Opcode::FConst0 => 0x0b,
        Opcode::FConst1 => 0x0c,
        Opcode::FConst2 => 0x0d,
        Opcode::ILoad => 0x15,
        Opcode::ILoad0 => 0x1a,
        Opcode::ILoad1 => 0x1b,
        Opcode::ILoad2 => 0x1c,
        Opcode::ILoad3 => 0x1d,
        Opcode::FLoad0 => 0x22,
        Opcode::FLoad1 => 0x23,
        Opcode::FLoad2 => 0x24,
        Opcode::FLoad3 => 0x25,
        Opcode::ALoad0 => 0x2a,
        Opcode::ALoad1 => 0x2b,
        Opcode::ALoad2 => 0x2c,
        Opcode::ALoad3 => 0x2d,
        Opcode::IALoad => 0x2e,
        Opcode::CALoad => 0x34,
        Opcode::AStore => 0x3a,
        Opcode::AStore0 => 0x4b,
        Opcode::AStore1 => 0x4c,
        Opcode::AStore2 => 0x4d,
        Opcode::AStore3 => 0x4e,
        Opcode::IAStore => 0x4f,
        Opcode::AAStore => 0x53,
        Opcode::CAStore => 0x55,
        Opcode::Pop => 0x57,
        Opcode::Dup => 0x59,
        Opcode::IAdd => 0x60,
        Opcode::LAdd => 0x61,
        Opcode::ISub => 0x64,
        Opcode::IMul => 0x68,
        Opcode::FMul => 0x6a,
        Opcode::IRem => 0x70,
        Opcode::LShl => 0x79,
        Opcode::IAnd => 0x7e,
        Opcode::LAnd => 0x7f,
        Opcode::IInc => 0x84,
        Opcode::I2L => 0x85,
        Opcode::I2F => 0x86,
        Opcode::F2I => 0x8b,
        Opcode::AALoad => 0x32,
        Opcode::IStore => 0x36,
        Opcode::IStore0 => 0x3b,
        Opcode::IStore1 => 0x3c,
        Opcode::IStore2 => 0x3d,
        Opcode::IStore3 => 0x3e,
        Opcode::FCmpL => 0x95,
        Opcode::FCmpG => 0x96,
        Opcode::IfEq => 0x99,
        Opcode::IfNe => 0x9a,
        Opcode::IfLt => 0x9b,
        Opcode::IfGe => 0x9c,
        Opcode::IfGt => 0x9d,
        Opcode::IfLe => 0x9e,
        Opcode::IfICmpEq => 0x9f,
        Opcode::IfICmpNe => 0xa0,
        Opcode::IfICmpLt => 0xa1,
        Opcode::IfICmpGe => 0xa2,
        Opcode::IfICmpGt => 0xa3,
        Opcode::IfICmpLe => 0xa4,
        Opcode::Goto => 0xa7,
        Opcode::IReturn => 0xac,
        Opcode::FReturn => 0xae,
        Opcode::DReturn => 0xaf,
        Opcode::AReturn => 0xb0,
        Opcode::Return => 0xb1,
        Opcode::GetStatic => 0xb2,
        Opcode::PutStatic => 0xb3,
        Opcode::GetField => 0xb4,
        Opcode::PutField => 0xb5,
        Opcode::InvokeVirtual => 0xb6,
        Opcode::InvokeSpecial => 0xb7,
        Opcode::InvokeStatic => 0xb8,
        Opcode::InvokeInterface => 0xb9,
        Opcode::New => 0xbb,
        Opcode::NewArray => 0xbc,
        Opcode::ANewArray => 0xbd,
        Opcode::ArrayLength => 0xbe,
        Opcode::IfNull => 0xc6,
        Opcode::IfNonNull => 0xc7,
    }
}

/// The instruction that byte `b` encodes, where it is one the interpreter
/// knows.
pub open spec fn opcode_of(b: u8) -> Option<Opcode> {
    if exists|op: Opcode| opcode_byte(op) == b {
        Some(choose|op: Opcode| opcode_byte(op) == b)
    } else {
        None
    }
}

impl Opcode {
    /// The instruction that `value` encodes; `Err` for a byte that encodes
    /// none the interpreter knows.
    pub fn try_from(value: u8) -> (r: Result<Self, ()>)
        ensures
            match r {
                Ok(op) => opcode_byte(op) == value,
                Err(()) => forall|op: Opcode| opcode_byte(op) != value,
            },
    {
        match value {
            0x01 => Ok(Self::AConstNull),
            0x10 => Ok(Self::Bipush),
            0x11 => Ok(Self::Sipush),
            0x12 => Ok(Self::Ldc),
            0x13 => Ok(Self::LdcW),
            0x14 => Ok(Self::Ldc2W),
            0x03 => Ok(Self::IConst0),
            0x04 => Ok(Self::IConst1),
            0x05 => Ok(Self::IConst2),
            0x06 => Ok(Self::IConst3),
            0x07 => Ok(Self::IConst4),
            0x08 => Ok(Self::IConst5),
            0x0b => Ok(Self::FConst0),
            0x0c => Ok(Self::FConst1),
            0x0d => Ok(Self::FConst2),
            0x15 => Ok(Self::ILoad),
            0x1a => Ok(Self::ILoad0),
            0x1b => Ok(Self::ILoad1),
            0x1c => Ok(Self::ILoad2),
            0x1d => Ok(Self::ILoad3),
            0x22 => Ok(Self::FLoad0),
            0x23 => Ok(Self::FLoad1),
            0x24 => Ok(Self::FLoad2),
            0x25 => Ok(Self::FLoad3),
            0x2a => Ok(Self::ALoad0),
            0x2b => Ok(Self::ALoad1),
            0x2c => Ok(Self::ALoad2),
            0x2d => Ok(Self::ALoad3),
            0x2e => Ok(Self::IALoad),
            0x34 => Ok(Self::CALoad),
            0x3a => Ok(Self::AStore),
            0x4b => Ok(Self::AStore0),
            0x4c => Ok(Self::AStore1),
            0x4d => Ok(Self::AStore2),
            0x4e => Ok(Self::AStore3),
            0x4f => Ok(Self::IAStore),
            0x53 => Ok(Self::AAStore),
            0x55 => Ok(Self::CAStore),
            0x57 => Ok(Self::Pop),
            0x59 => Ok(Self::Dup),
            0x60 => Ok(Self::IAdd),
            0x61 => Ok(Self::LAdd),
            0x64 => Ok(Self::ISub),
            0x68 => Ok(Self::IMul),
            0x6a => Ok(Self::FMul),
            0x70 => Ok(Self::IRem),
            0x79 => Ok(Self::LShl),
            0x7e => Ok(Self::IAnd),
            0x7f => Ok(Self::LAnd),
            0x84 => Ok(Self::IInc),
            0x85 => Ok(Self::I2L),
            0x86 => Ok(Self::I2F),
            0x8b => Ok(Self::F2I),
            0x32 => Ok(Self::AALoad),
            0x36 => Ok(Self::IStore),
            0x3b => Ok(Self::IStore0),
            0x3c => Ok(Self::IStore1),
            0x3d => Ok(Self::IStore2),
            0x3e => Ok(Self::IStore3),
            0x95 => Ok(Self::FCmpL),
            0x96 => Ok(Self::FCmpG),
            0x99 => Ok(Self::IfEq),
            0x9a => Ok(Self::IfNe),
            0x9b => Ok(Self::IfLt),
            0x9c => Ok(Self::IfGe),
            0x9d => Ok(Self::IfGt),
            0x9e => Ok(Self::IfLe),
            0x9f => Ok(Self::IfICmpEq),
            0xa0 => Ok(Self::IfICmpNe),
            0xa1 => Ok(Self::IfICmpLt),
            0xa2 => Ok(Self::IfICmpGe),
            0xa3 => Ok(Self::IfICmpGt),
            0xa4 => Ok(Self::IfICmpLe),
            0xa7 => Ok(Self::Goto),
            0xac => Ok(Self::IReturn),
            0xae => Ok(Self::FReturn),
            0xaf => Ok(Self::DReturn),
            0xb0 => Ok(Self::AReturn),
            0xb1 => Ok(Self::Return),
            0xb2 => Ok(Self::GetStatic),
            0xb3 => Ok(Self::PutStatic),
            0xb4 => Ok(Self::GetField),
            0xb5 => Ok(Self::PutField),
            0xb6 => Ok(Self::InvokeVirtual),
            0xb7 => Ok(Self::InvokeSpecial),
            0xb8 => Ok(Self::InvokeStatic),
            0xb9 => Ok(Self::InvokeInterface),
            0xbb => Ok(Self::New),
            0xbc => Ok(Self::NewArray),
            0xbd => Ok(Self::ANewArray),
            0xbe => Ok(Self::ArrayLength),
            0xc6 => Ok(Self::IfNull),
            0xc7 => Ok(Self::IfNonNull),
            _ => Err(()),
        }
    }
}

/// Each instruction decodes from its own byte, and no two instructions
/// share a byte.
pub proof fn lemma_opcode_round_trip(op: Opcode, other: Opcode)
    ensures
        opcode_of(opcode_byte(op)) == Some(op),
        opcode_byte(op) == opcode_byte(other) ==> op == other,
{
    assert(opcode_byte(op) == opcode_byte(other) ==> op == other);
    assert(forall|o: Opcode| opcode_byte(o) == opcode_byte(op) ==> o == op);
}

} // verus!
