use vstd::prelude::*;

use crate::vm::value::ObjectRef;

verus! {

/// A failure of the virtual machine itself (as opposed to a Java exception).
#[derive(Debug, Clone)]
pub enum InternalError {
    MethodNotFound { class: String, method: String },
    NoCodeInMethod { method: String },
    ClassNotFound { class: String },
    InvalidConstantPoolEntry { index: u16, expected: String, found: String },
    InvalidSlot,
    InvalidDescriptor,
    InvalidOpcode { opcode: u8, pc: usize },
    NoCurrentFrame { thread_id: usize },
    OperandStackUnderflow { pc: usize },
    ThreadNotFound { thread_id: usize },
    InvalidType { class: String, method: String, pc: usize, expected: String, found: String },
    ClassLoadError { class: String, source_cp: String },
    NoLocalVar { index: usize },
    InvalidArrayType { atype: u8 },
    InvalidHeapEntry { expected: String, found: String },
    InvalidMethodLocals { method: String, expected: usize, actual: usize },
    AbstractMethod { class: String, method: String },
    /// The class's superclass or interface chain leads back to the class
    /// itself while it is being loaded.
    ClassCircularity { class: String },
    /// The interpreter has used up its step budget.
    StepLimitExceeded,
    /// Running code from within running code (a class initializer, a call
    /// made by a native method) nested too deep.
    NestingTooDeep,
    /// The code of a method ended in the middle of an instruction.
    TruncatedCode { pc: usize },
}

/// Why running Java code stopped abnormally.
#[derive(Debug, Clone)]
pub enum RuntimeError {
    /// A failure of the virtual machine itself; never caught by Java code.
    Internal(InternalError),
    /// A Java exception object that is being thrown.
    Thrown(ObjectRef),
}

} // verus!
