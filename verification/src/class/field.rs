use vstd::prelude::*;

use crate::class::attributes::{AttributeInfo, attribute_info_item, sp_attribute_info};
use crate::class::error::ClassFormatError;
use crate::class::reader::{ClassReader, PRes, sp_many, sp_u16, lemma_many_err_persists};

verus! {

/// The access flags of a field (JVMS 4.5); bits outside the known flags are
/// dropped.
#[derive(Debug, Clone, Copy, PartialEq, Eq, Structural)]
pub struct FieldAccessFlags {
    pub bits: u16,
}

impl FieldAccessFlags {
    pub const PUBLIC: u16 = 0x0001;
    pub const PRIVATE: u16 = 0x0002;
    pub const PROTECTED: u16 = 0x0004;
    pub const STATIC: u16 = 0x0008;
    pub const FINAL: u16 = 0x0010;
    pub const VOLATILE: u16 = 0x0040;
    pub const TRANSIENT: u16 = 0x0080;
    pub const SYNTHETIC: u16 = 0x1000;
    pub const ENUM: u16 = 0x4000;
    /// All known flags together.
    pub const ALL: u16 = 0x50df;

    /// The flags of `bits` that are known, the others dropped.
    pub fn from_bits_truncate(bits: u16) -> (r: Self)
        ensures
            r.bits == bits & 0x50df,
    {
        Self { bits: bits & 0x50df }
    }

    /// Whether every flag of `flag` is set.
    pub fn contains(&self, flag: u16) -> (r: bool)
        ensures
            r == (self.bits & flag == flag),
    {
        self.bits & flag == flag
    }
}

/// A `field_info` structure.
#[derive(Debug, Clone)]
pub struct FieldInfo {
    pub name_index: u16,
    pub descriptor_index: u16,
    pub access_flags: FieldAccessFlags,
    pub attributes: Vec<AttributeInfo>,
}

/// A `FieldInfo` with its attributes as name indices and raw bytes.
pub struct FieldModel {
    pub name_index: u16,
    pub descriptor_index: u16,
    pub access_flags: u16,
    pub attributes: Seq<(u16, Seq<u8>)>,
}

impl View for FieldInfo {
    type V = FieldModel;

    open spec fn view(&self) -> FieldModel {
        FieldModel {
            name_index: self.name_index,
            descriptor_index: self.descriptor_index,
            access_flags: self.access_flags.bits,
            attributes: self.attributes@.map_values(
                |a: AttributeInfo| (a.attribute_name_index, a.info@),
            ),
        }
    }
}

/// The meaning of a `field_info` at `p`.
pub open spec fn sp_field_info(b: Seq<u8>, p: int) -> PRes<FieldModel> {
    match sp_u16(b, p) {
        Err(e) => Err(e),
        Ok((flags, q1)) => match sp_u16(b, q1) {
            Err(e) => Err(e),
            Ok((ni, q2)) => match sp_u16(b, q2) {
                Err(e) => Err(e),
                Ok((di, q3)) => match sp_u16(b, q3) {
                    Err(e) => Err(e),
                    Ok((n, q4)) => match sp_many(attribute_info_item(), b, q4, n as nat) {
                        Err(e) => Err(e),
                        Ok((attrs, q5)) => Ok(
                            (
                                FieldModel {
                                    name_index: ni,
                                    descriptor_index: di,
                                    access_flags: flags & 0x50df,
                                    attributes: attrs,
                                },
                                q5,
                            ),
                        ),
                    },
                },
            },
        },
    }
}

/// `sp_field_info` as a value.
pub open spec fn field_info_item() -> spec_fn(Seq<u8>, int) -> PRes<FieldModel> {
    |b: Seq<u8>, p: int| sp_field_info(b, p)
}

impl FieldInfo {
    /// Reads a `field_info`: flags, name and descriptor indices, and its
    /// attributes kept raw.
    pub fn read(reader: &mut ClassReader) -> (r: Result<Self, ClassFormatError>)
        ensures
            final(reader).bytes() == old(reader).bytes(),
            old(reader).pos() <= final(reader).pos() <= final(reader).bytes().len(),
            match sp_field_info(old(reader).bytes(), old(reader).pos()) {
                Ok((v, q)) => r is Ok && r->Ok_0@ == v && final(reader).pos() == q,
                Err(e) => r == Err::<Self, _>(e),
            },
    {
        let access_flag_bitmask = reader.read_u16()?;
        let ghost s1 = reader.pos();
        let access_flags = FieldAccessFlags::from_bits_truncate(access_flag_bitmask);
        let name_idx = reader.read_u16()?;
        let ghost s2 = reader.pos();
        let descriptor_idx = reader.read_u16()?;
        let ghost s3 = reader.pos();
        let attributes_count = reader.read_u16()?;
        let _start = reader.position();
        let ghost b = reader.bytes();
        let ghost p0 = reader.pos();
        let mut attributes: Vec<AttributeInfo> = Vec::new();
        let mut i: u16 = 0;
        while i < attributes_count
            invariant
                reader.bytes() == b,
                b == old(reader).bytes(),
                old(reader).pos() <= p0 <= reader.pos() <= b.len(),
                sp_u16(b, old(reader).pos()) == PRes::<u16>::Ok((access_flag_bitmask, s1)),
                sp_u16(b, s1) == PRes::<u16>::Ok((name_idx, s2)),
                sp_u16(b, s2) == PRes::<u16>::Ok((descriptor_idx, s3)),
                sp_u16(b, s3) == PRes::<u16>::Ok((attributes_count, p0)),
                access_flags.bits == access_flag_bitmask & 0x50df,
                i <= attributes_count,
                sp_many(attribute_info_item(), b, p0, i as nat) matches Ok((xs, q)) && q
                    == reader.pos() && xs == attributes@.map_values(
                    |a: AttributeInfo| (a.attribute_name_index, a.info@),
                ),
            decreases attributes_count - i,
        {
            match AttributeInfo::read(reader) {
                Ok(a) => {
                    let ghost before = attributes@;
                    attributes.push(a);
                    proof {
                        assert(attributes@.map_values(
                            |a: AttributeInfo| (a.attribute_name_index, a.info@),
                        ) =~= before.map_values(
                            |a: AttributeInfo| (a.attribute_name_index, a.info@),
                        ).push((a.attribute_name_index, a.info@)));
                    }
                    i = i + 1;
                },
                Err(e) => {
                    proof {
                        lemma_many_err_persists(
                            attribute_info_item(),
                            b,
                            p0,
                            (i + 1) as nat,
                            attributes_count as nat,
                        );
                    }
                    return Err(e);
                },
            }
        }
        Ok(Self {
            name_index: name_idx,
            descriptor_index: descriptor_idx,
            access_flags,
            attributes,
        })
    }
}

} // verus!
