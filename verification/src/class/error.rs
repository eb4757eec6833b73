use vstd::prelude::*;

use crate::text::{push_digits, push_str, spec_digits};

verus! {

/// Why a class file (or a part of one) could not be read.
#[derive(Debug, Clone, Copy, PartialEq, Eq)]
pub enum ClassFormatError {
    /// Fewer than `needed` bytes were left at byte offset `position`.
    UnexpectedEof { position: usize, needed: usize },
    /// The bytes of a `CONSTANT_Utf8` entry are not valid modified UTF-8.
    InvalidUtf8 { position: usize },
    /// A constant pool entry with an unsupported tag.
    UnknownConstantTag { tag: u8 },
    /// An attribute whose name (constant pool index `name_index`) is not supported.
    UnknownAttribute { name_index: u16 },
    /// A constant pool index that does not refer to an entry of the expected kind.
    InvalidConstantPoolEntry { index: u16 },
    /// The file does not start with `0xCAFEBABE`.
    BadMagic { magic: u32 },
    /// Only class files of major version 52 (Java 8) are accepted.
    UnsupportedVersion { major: u16 },
    /// `this_class`, `super_class` or an interface index does not name a
    /// `CONSTANT_Class` entry.
    NotAClassEntry { index: u16 },
    /// A `verification_type_info` with an unknown tag.
    UnknownVerificationType { tag: u8 },
    /// A `stack_map_frame` with a reserved frame type (128..=246).
    ReservedFrameType { frame_type: u8 },
}

/// The message that describes `e`: what went wrong and the number that
/// locates or names it.
pub open spec fn error_message(e: ClassFormatError) -> Seq<char> {
    match e {
        ClassFormatError::UnexpectedEof { position, needed } => "unexpected end of data at byte "@ + spec_digits(position as nat) + ", needed "@ + spec_digits(needed as nat),
        ClassFormatError::InvalidUtf8 { position } => "invalid modified UTF-8 at byte "@ + spec_digits(position as nat),
        ClassFormatError::UnknownConstantTag { tag } => "unknown constant pool tag "@ + spec_digits(tag as nat),
        ClassFormatError::UnknownAttribute { name_index } => "unknown attribute named by constant pool entry "@ + spec_digits(name_index as nat),
        ClassFormatError::InvalidConstantPoolEntry { index } => "invalid constant pool entry "@ + spec_digits(index as nat),
        ClassFormatError::BadMagic { magic } => "bad magic number "@ + spec_digits(magic as nat),
        ClassFormatError::UnsupportedVersion { major } => "unsupported class file major version "@ + spec_digits(major as nat),
        ClassFormatError::NotAClassEntry { index } => "not a class entry: constant pool entry "@ + spec_digits(index as nat),
        ClassFormatError::UnknownVerificationType { tag } => "unknown verification type tag "@ + spec_digits(tag as nat),
        ClassFormatError::ReservedFrameType { frame_type } => "reserved stack map frame type "@ + spec_digits(frame_type as nat),
    }
}

impl ClassFormatError {
    /// A message that describes this error.
    pub fn message(&self) -> (r: String)
        ensures
            r@ == error_message(*self),
    {
        let mut s = String::new();
        proof {
            reveal_strlit("unexpected end of data at byte ");
            reveal_strlit("invalid modified UTF-8 at byte ");
            reveal_strlit("unknown constant pool tag ");
            reveal_strlit("unknown attribute named by constant pool entry ");
            reveal_strlit("invalid constant pool entry ");
            reveal_strlit("bad magic number ");
            reveal_strlit("unsupported class file major version ");
            reveal_strlit("not a class entry: constant pool entry ");
            reveal_strlit("unknown verification type tag ");
            reveal_strlit("reserved stack map frame type ");
            reveal_strlit(", needed ");
        }
        match *self {
            ClassFormatError::UnexpectedEof { position, needed } => {
                push_str(&mut s, "unexpected end of data at byte ");
                push_digits(&mut s, position as u64);
                push_str(&mut s, ", needed ");
                push_digits(&mut s, needed as u64);
            },
            ClassFormatError::InvalidUtf8 { position } => {
                push_str(&mut s, "invalid modified UTF-8 at byte ");
                push_digits(&mut s, position as u64);
            },
            ClassFormatError::UnknownConstantTag { tag } => {
                push_str(&mut s, "unknown constant pool tag ");
                push_digits(&mut s, tag as u64);
            },
            ClassFormatError::UnknownAttribute { name_index } => {
                push_str(&mut s, "unknown attribute named by constant pool entry ");
                push_digits(&mut s, name_index as u64);
            },
            ClassFormatError::InvalidConstantPoolEntry { index } => {
                push_str(&mut s, "invalid constant pool entry ");
                push_digits(&mut s, index as u64);
            },
            ClassFormatError::BadMagic { magic } => {
                push_str(&mut s, "bad magic number ");
                push_digits(&mut s, magic as u64);
            },
            ClassFormatError::UnsupportedVersion { major } => {
                push_str(&mut s, "unsupported class file major version ");
                push_digits(&mut s, major as u64);
            },
            ClassFormatError::NotAClassEntry { index } => {
                push_str(&mut s, "not a class entry: constant pool entry ");
                push_digits(&mut s, index as u64);
            },
            ClassFormatError::UnknownVerificationType { tag } => {
                push_str(&mut s, "unknown verification type tag ");
                push_digits(&mut s, tag as u64);
            },
            ClassFormatError::ReservedFrameType { frame_type } => {
                push_str(&mut s, "reserved stack map frame type ");
                push_digits(&mut s, frame_type as u64);
            },
        }
        proof {
            assert(s@ =~= error_message(*self));
        }
        s
    }
}

} // verus!
