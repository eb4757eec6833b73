use vstd::prelude::*;

use crate::class::attributes::{Attribute, AttributeModel, sp_attribute};
use crate::class::class_file::ClassFile;
use crate::class::constant_pool::CpEntry;
use crate::class::error::ClassFormatError;
use crate::class::reader::{ClassReader, PRes, sp_many, sp_u16, lemma_many_err_persists};

verus! {

/// The access flags of a method (JVMS 4.6); bits outside the known flags are
/// dropped.
#[derive(Debug, Clone, Copy, PartialEq, Eq, Structural)]
pub struct MethodAccessFlags {
    pub bits: u16,
}

impl MethodAccessFlags {
    pub const PUBLIC: u16 = 0x0001;
    pub const PRIVATE: u16 = 0x0002;
    pub const PROTECTED: u16 = 0x0004;
    pub const STATIC: u16 = 0x0008;
    pub const FINAL: u16 = 0x0010;
    pub const SYNCHRONIZED: u16 = 0x0020;
    pub const BRIDGE: u16 = 0x0040;
    pub const VARARGS: u16 = 0x0080;
    pub const NATIVE: u16 = 0x0100;
    pub const ABSTRACT: u16 = 0x0400;
    pub const STRICT: u16 = 0x0800;
    pub const SYNTHETIC: u16 = 0x1000;
    /// All known flags together.
    pub const ALL: u16 = 0x1dff;

    /// The flags of `bits` that are known, the others dropped.
    pub fn from_bits_truncate(bits: u16) -> (r: Self)
        ensures
            r.bits == bits & 0x1dff,
    {
        Self { bits: bits & 0x1dff }
    }

    /// Whether every flag of `flag` is set.
    pub fn contains(&self, flag: u16) -> (r: bool)
        ensures
            r == (self.bits & flag == flag),
    {
        self.bits & flag == flag
    }
}

/// A `method_info` structure.
pub struct MethodInfo {
    pub name_index: u16,
    pub descriptor_index: u16,
    pub access_flags: MethodAccessFlags,
    pub attributes: Vec<Attribute>,
}

/// A `MethodInfo` with its attributes as models.
pub struct MethodModel {
    pub name_index: u16,
    pub descriptor_index: u16,
    pub access_flags: u16,
    pub attributes: Seq<AttributeModel>,
}

impl View for MethodInfo {
    type V = MethodModel;

    open spec fn view(&self) -> MethodModel {
        MethodModel {
            name_index: self.name_index,
            descriptor_index: self.descriptor_index,
            access_flags: self.access_flags.bits,
            attributes: self.attributes@.map_values(|a: Attribute| a@),
        }
    }
}

/// `sp_attribute` with the names looked up in `cp`, as a value.
pub open spec fn attribute_item(cp: Seq<CpEntry>) -> spec_fn(Seq<u8>, int) -> PRes<
    AttributeModel,
> {
    |b: Seq<u8>, p: int| sp_attribute(b, p, cp)
}

/// The meaning of a `method_info` at `p`, attribute names looked up in `cp`.
pub open spec fn sp_method_info(b: Seq<u8>, p: int, cp: Seq<CpEntry>) -> PRes<MethodModel> {
    match sp_u16(b, p) {
        Err(e) => Err(e),
        Ok((flags, q1)) => match sp_u16(b, q1) {
            Err(e) => Err(e),
            Ok((ni, q2)) => match sp_u16(b, q2) {
                Err(e) => Err(e),
                Ok((di, q3)) => match sp_u16(b, q3) {
                    Err(e) => Err(e),
                    Ok((n, q4)) => match sp_many(attribute_item(cp), b, q4, n as nat) {
                        Err(e) => Err(e),
                        Ok((attrs, q5)) => Ok(
                            (
                                MethodModel {
                                    name_index: ni,
                                    descriptor_index: di,
                                    access_flags: flags & 0x1dff,
                                    attributes: attrs,
                                },
                                q5,
                            ),
                        ),
                    },
                },
            },
        },
    }
}

/// Reads `count` attributes in a row, names looked up in the constant pool
/// of `class_file`.
pub fn read_attributes(reader: &mut ClassReader, class_file: &ClassFile, count: u16) -> (r: Result<
    Vec<Attribute>,
    ClassFormatError,
>)
    ensures
        final(reader).bytes() == old(reader).bytes(),
        old(reader).pos() <= final(reader).pos() <= final(reader).bytes().len(),
        match sp_many(
            attribute_item(class_file.constant_pool@),
            old(reader).bytes(),
            old(reader).pos(),
            count as nat,
        ) {
            Ok((v, q)) => r is Ok && r->Ok_0@.map_values(|a: Attribute| a@) == v
                && final(reader).pos() == q,
            Err(e) => r == Err::<Vec<Attribute>, _>(e),
        },
{
    let _start = reader.position();
    let ghost b = reader.bytes();
    let ghost p0 = reader.pos();
    let ghost cp = class_file.constant_pool@;
    let mut attributes: Vec<Attribute> = Vec::new();
    let mut i: u16 = 0;
    while i < count
        invariant
            reader.bytes() == b,
            b == old(reader).bytes(),
            cp == class_file.constant_pool@,
            0 <= p0 <= reader.pos() <= b.len(),
            p0 == old(reader).pos(),
            i <= count,
            sp_many(attribute_item(cp), b, p0, i as nat) matches Ok((xs, q)) && q == reader.pos()
                && xs == attributes@.map_values(|a: Attribute| a@),
        decreases count - i,
    {
        match Attribute::read(reader, class_file) {
            Ok(a) => {
                let ghost before = attributes@;
                attributes.push(a);
                proof {
                    assert(attributes@.map_values(|a: Attribute| a@) =~= before.map_values(
                        |a: Attribute| a@,
                    ).push(a@));
                }
                i = i + 1;
            },
            Err(e) => {
                proof {
                    lemma_many_err_persists(attribute_item(cp), b, p0, (i + 1) as nat, count as nat);
                }
                return Err(e);
            },
        }
    }
    Ok(attributes)
}

impl MethodInfo {
    /// Reads a `method_info`: flags, name and descriptor indices, and its
    /// attributes, whose names are looked up in the constant pool of
    /// `class_file`.
    pub fn read(reader: &mut ClassReader, class_file: &ClassFile) -> (r: Result<
        Self,
        ClassFormatError,
    >)
        ensures
            final(reader).bytes() == old(reader).bytes(),
            old(reader).pos() <= final(reader).pos() <= final(reader).bytes().len(),
            match sp_method_info(old(reader).bytes(), old(reader).pos(), class_file.constant_pool@) {
                Ok((v, q)) => r is Ok && r->Ok_0@ == v && final(reader).pos() == q,
                Err(e) => r == Err::<Self, _>(e),
            },
    {
        let access_flags_bitmask = reader.read_u16()?;
        let access_flags = MethodAccessFlags::from_bits_truncate(access_flags_bitmask);
        let name_idx = reader.read_u16()?;
        let descriptor_idx = reader.read_u16()?;
        let attributes_count = reader.read_u16()?;
        let attributes = read_attributes(reader, class_file, attributes_count)?;
        Ok(Self {
            name_index: name_idx,
            descriptor_index: descriptor_idx,
            access_flags,
            attributes,
        })
    }
}

} // verus!
