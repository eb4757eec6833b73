use vstd::prelude::*;

use crate::class::attributes::{Attribute, AttributeModel};
use crate::class::constant_pool::{ConstantPool, ConstantPoolEntry, CpEntry, sp_constant_pool};
use crate::class::error::ClassFormatError;
use crate::class::field::{FieldInfo, FieldModel, field_info_item};
use crate::class::method::{MethodInfo, MethodModel, attribute_item, read_attributes, sp_method_info};
use crate::class::reader::{ClassReader, PRes, sp_many, sp_u16, sp_u32, lemma_many_err_persists};

verus! {

/// A parsed class file.
pub struct ClassFile {
    pub constant_pool: ConstantPool,
    pub access_flags: u16,
    pub this_class: u16,
    pub super_class: u16,
    pub interfaces: Vec<u16>,
    pub fields: Vec<FieldInfo>,
    pub methods: Vec<MethodInfo>,
    pub attributes: Vec<Attribute>,
}

/// A `ClassFile` with its parts as models.
pub struct ClassFileModel {
    pub constant_pool: Seq<CpEntry>,
    pub access_flags: u16,
    pub this_class: u16,
    pub super_class: u16,
    pub interfaces: Seq<u16>,
    pub fields: Seq<FieldModel>,
    pub methods: Seq<MethodModel>,
    pub attributes: Seq<AttributeModel>,
}

impl View for ClassFile {
    type V = ClassFileModel;

    open spec fn view(&self) -> ClassFileModel {
        ClassFileModel {
            constant_pool: self.constant_pool@,
            access_flags: self.access_flags,
            this_class: self.this_class,
            super_class: self.super_class,
            interfaces: self.interfaces@,
            fields: self.fields@.map_values(|f: FieldInfo| f@),
            methods: self.methods@.map_values(|m: MethodInfo| m@),
            attributes: self.attributes@.map_values(|a: Attribute| a@),
        }
    }
}

/// Whether entry `i` of `cp` is a `CONSTANT_Class` entry.
pub open spec fn cp_is_class(cp: Seq<CpEntry>, i: int) -> bool {
    0 <= i < cp.len() && cp[i] is Class
}

/// An interface index at `p`, which must name a `CONSTANT_Class` entry.
pub open spec fn sp_interface(b: Seq<u8>, p: int, cp: Seq<CpEntry>) -> PRes<u16> {
    match sp_u16(b, p) {
        Err(e) => Err(e),
        Ok((i, q)) => if cp_is_class(cp, i as int) {
            Ok((i, q))
        } else {
            Err(ClassFormatError::NotAClassEntry { index: i })
        },
    }
}

/// `sp_interface` against `cp`, as a value.
pub open spec fn interface_item(cp: Seq<CpEntry>) -> spec_fn(Seq<u8>, int) -> PRes<u16> {
    |b: Seq<u8>, p: int| sp_interface(b, p, cp)
}

/// `sp_method_info` against `cp`, as a value.
pub open spec fn method_item(cp: Seq<CpEntry>) -> spec_fn(Seq<u8>, int) -> PRes<MethodModel> {
    |b: Seq<u8>, p: int| sp_method_info(b, p, cp)
}

/// The part of a class file after `this_class` and `super_class`.
pub open spec fn sp_class_members(
    b: Seq<u8>,
    p: int,
    cp: Seq<CpEntry>,
    access: u16,
    this_class: u16,
    super_class: u16,
) -> PRes<ClassFileModel> {
    match sp_u16(b, p) {
        Err(e) => Err(e),
        Ok((ic, q1)) => match sp_many(interface_item(cp), b, q1, ic as nat) {
            Err(e) => Err(e),
            Ok((ifaces, q2)) => match sp_u16(b, q2) {
                Err(e) => Err(e),
                Ok((fc, q3)) => match sp_many(field_info_item(), b, q3, fc as nat) {
                    Err(e) => Err(e),
                    Ok((fields, q4)) => match sp_u16(b, q4) {
                        Err(e) => Err(e),
                        Ok((mc, q5)) => match sp_many(method_item(cp), b, q5, mc as nat) {
                            Err(e) => Err(e),
                            Ok((methods, q6)) => match sp_u16(b, q6) {
                                Err(e) => Err(e),
                                Ok((ac, q7)) => match sp_many(attribute_item(cp), b, q7, ac as nat) {
                                    Err(e) => Err(e),
                                    Ok((attrs, q8)) => Ok(
                                        (
                                            ClassFileModel {
                                                constant_pool: cp,
                                                access_flags: access,
                                                this_class,
                                                super_class,
                                                interfaces: ifaces,
                                                fields,
                                                methods,
                                                attributes: attrs,
                                            },
                                            q8,
                                        ),
                                    ),
                                },
                            },
                        },
                    },
                },
            },
        },
    }
}

/// The meaning of a class file starting at `p`: magic `0xCAFEBABE`, version
/// 52, the constant pool, flags, `this_class` and `super_class` (each a
/// `CONSTANT_Class` entry, or 0 for no superclass), then the interfaces,
/// fields, methods and attributes.
pub open spec fn sp_class_file(b: Seq<u8>, p: int) -> PRes<ClassFileModel> {
    match sp_u32(b, p) {
        Err(e) => Err(e),
        Ok((magic, q1)) => if magic != 0xCAFEBABE {
            Err(ClassFormatError::BadMagic { magic })
        } else {
            match sp_u16(b, q1) {
                Err(e) => Err(e),
                Ok((_minor, q2)) => match sp_u16(b, q2) {
                    Err(e) => Err(e),
                    Ok((major, q3)) => if major != 52 {
                        Err(ClassFormatError::UnsupportedVersion { major })
                    } else {
                        match sp_constant_pool(b, q3) {
                            Err(e) => Err(e),
                            Ok((cp, q4)) => match sp_u16(b, q4) {
                                Err(e) => Err(e),
                                Ok((access, q5)) => match sp_u16(b, q5) {
                                    Err(e) => Err(e),
                                    Ok((this_class, q6)) => match sp_u16(b, q6) {
                                        Err(e) => Err(e),
                                        Ok((super_class, q7)) => if !cp_is_class(
                                            cp,
                                            this_class as int,
                                        ) {
                                            Err(
                                                ClassFormatError::NotAClassEntry {
                                                    index: this_class,
                                                },
                                            )
                                        } else if super_class != 0 && !cp_is_class(
                                            cp,
                                            super_class as int,
                                        ) {
                                            Err(
                                                ClassFormatError::NotAClassEntry {
                                                    index: super_class,
                                                },
                                            )
                                        } else {
                                            sp_class_members(
                                                b,
                                                q7,
                                                cp,
                                                access,
                                                this_class,
                                                super_class,
                                            )
                                        },
                                    },
                                },
                            },
                        }
                    },
                },
            }
        },
    }
}

/// Whether entry `index` of `cp` is a `CONSTANT_Class` entry.
fn is_class_entry(cp: &ConstantPool, index: u16) -> (r: bool)
    ensures
        r == cp_is_class(cp@, index as int),
{
    if (index as usize) < cp.entries.len() {
        match &cp.entries[index as usize] {
            ConstantPoolEntry::Class { .. } => true,
            _ => false,
        }
    } else {
        false
    }
}

/// Reads `count` interface indices, each checked against `cp`.
fn read_interfaces(reader: &mut ClassReader, cp: &ConstantPool, count: u16) -> (r: Result<
    Vec<u16>,
    ClassFormatError,
>)
    ensures
        final(reader).bytes() == old(reader).bytes(),
        old(reader).pos() <= final(reader).pos() <= final(reader).bytes().len(),
        match sp_many(interface_item(cp@), old(reader).bytes(), old(reader).pos(), count as nat) {
            Ok((v, q)) => r is Ok && r->Ok_0@ == v && final(reader).pos() == q,
            Err(e) => r == Err::<Vec<u16>, _>(e),
        },
{
    let _start = reader.position();
    let ghost b = reader.bytes();
    let ghost p0 = reader.pos();
    let mut out: Vec<u16> = Vec::new();
    let mut i: u16 = 0;
    while i < count
        invariant
            reader.bytes() == b,
            b == old(reader).bytes(),
            0 <= p0 <= reader.pos() <= b.len(),
            p0 == old(reader).pos(),
            i <= count,
            sp_many(interface_item(cp@), b, p0, i as nat) == PRes::<Seq<u16>>::Ok(
                (out@, reader.pos()),
            ),
        decreases count - i,
    {
        let r: Result<u16, ClassFormatError> = match reader.read_u16() {
            Ok(idx) => if is_class_entry(cp, idx) {
                Ok(idx)
            } else {
                Err(ClassFormatError::NotAClassEntry { index: idx })
            },
            Err(e) => Err(e),
        };
        match r {
            Ok(v) => {
                out.push(v);
                i = i + 1;
            },
            Err(e) => {
                proof {
                    lemma_many_err_persists(interface_item(cp@), b, p0, (i + 1) as nat, count as nat);
                }
                return Err(e);
            },
        }
    }
    Ok(out)
}

/// Reads `count` fields.
fn read_fields(reader: &mut ClassReader, count: u16) -> (r: Result<Vec<FieldInfo>, ClassFormatError>)
    ensures
        final(reader).bytes() == old(reader).bytes(),
        old(reader).pos() <= final(reader).pos() <= final(reader).bytes().len(),
        match sp_many(field_info_item(), old(reader).bytes(), old(reader).pos(), count as nat) {
            Ok((v, q)) => r is Ok && r->Ok_0@.map_values(|f: FieldInfo| f@) == v
                && final(reader).pos() == q,
            Err(e) => r == Err::<Vec<FieldInfo>, _>(e),
        },
{
    let _start = reader.position();
    let ghost b = reader.bytes();
    let ghost p0 = reader.pos();
    let mut out: Vec<FieldInfo> = Vec::new();
    let mut i: u16 = 0;
    while i < count
        invariant
            reader.bytes() == b,
            b == old(reader).bytes(),
            0 <= p0 <= reader.pos() <= b.len(),
            p0 == old(reader).pos(),
            i <= count,
            sp_many(field_info_item(), b, p0, i as nat) matches Ok((xs, q)) && q == reader.pos()
                && xs == out@.map_values(|f: FieldInfo| f@),
        decreases count - i,
    {
        match FieldInfo::read(reader) {
            Ok(v) => {
                let ghost before = out@;
                out.push(v);
                proof {
                    assert(out@.map_values(|f: FieldInfo| f@) =~= before.map_values(
                        |f: FieldInfo| f@,
                    ).push(v@));
                }
                i = i + 1;
            },
            Err(e) => {
                proof {
                    lemma_many_err_persists(field_info_item(), b, p0, (i + 1) as nat, count as nat);
                }
                return Err(e);
            },
        }
    }
    Ok(out)
}

/// Reads `count` methods, attribute names looked up in `class_file`.
fn read_methods(reader: &mut ClassReader, class_file: &ClassFile, count: u16) -> (r: Result<
    Vec<MethodInfo>,
    ClassFormatError,
>)
    ensures
        final(reader).bytes() == old(reader).bytes(),
        old(reader).pos() <= final(reader).pos() <= final(reader).bytes().len(),
        match sp_many(
            method_item(class_file.constant_pool@),
            old(reader).bytes(),
            old(reader).pos(),
            count as nat,
        ) {
            Ok((v, q)) => r is Ok && r->Ok_0@.map_values(|m: MethodInfo| m@) == v
                && final(reader).pos() == q,
            Err(e) => r == Err::<Vec<MethodInfo>, _>(e),
        },
{
    let _start = reader.position();
    let ghost b = reader.bytes();
    let ghost p0 = reader.pos();
    let ghost cp = class_file.constant_pool@;
    let mut out: Vec<MethodInfo> = Vec::new();
    let mut i: u16 = 0;
    while i < count
        invariant
            reader.bytes() == b,
            b == old(reader).bytes(),
            cp == class_file.constant_pool@,
            0 <= p0 <= reader.pos() <= b.len(),
            p0 == old(reader).pos(),
            i <= count,
            sp_many(method_item(cp), b, p0, i as nat) matches Ok((xs, q)) && q == reader.pos()
                && xs == out@.map_values(|m: MethodInfo| m@),
        decreases count - i,
    {
        match MethodInfo::read(reader, class_file) {
            Ok(v) => {
                let ghost before = out@;
                out.push(v);
                proof {
                    assert(out@.map_values(|m: MethodInfo| m@) =~= before.map_values(
                        |m: MethodInfo| m@,
                    ).push(v@));
                }
                i = i + 1;
            },
            Err(e) => {
                proof {
                    lemma_many_err_persists(method_item(cp), b, p0, (i + 1) as nat, count as nat);
                }
                return Err(e);
            },
        }
    }
    Ok(out)
}

impl ClassFile {
    /// Reads a whole class file.
    ///
    /// Fails on a bad magic number, a version other than 52, a
    /// `this_class`, `super_class` (unless 0) or interface index that is not
    /// a `CONSTANT_Class` entry, and wherever a part cannot be read.
    pub fn read(reader: &mut ClassReader) -> (r: Result<Self, ClassFormatError>)
        ensures
            final(reader).bytes() == old(reader).bytes(),
            match sp_class_file(old(reader).bytes(), old(reader).pos()) {
                Ok((v, q)) => r is Ok && r->Ok_0@ == v && final(reader).pos() == q,
                Err(e) => r == Err::<Self, _>(e),
            },
    {
        let mut class_file: Self = Self::new();
        let magic = reader.read_u32()?;
        if magic != 0xCAFEBABE {
            return Err(ClassFormatError::BadMagic { magic });
        }
        let _minor = reader.read_u16()?;
        let major = reader.read_u16()?;
        if major != 52 {
            return Err(ClassFormatError::UnsupportedVersion { major });
        }
        class_file.constant_pool = ConstantPool::read(reader)?;
        class_file.access_flags = reader.read_u16()?;
        class_file.this_class = reader.read_u16()?;
        class_file.super_class = reader.read_u16()?;
        if !is_class_entry(&class_file.constant_pool, class_file.this_class) {
            return Err(ClassFormatError::NotAClassEntry { index: class_file.this_class });
        }
        if class_file.super_class != 0 && !is_class_entry(
            &class_file.constant_pool,
            class_file.super_class,
        ) {
            return Err(ClassFormatError::NotAClassEntry { index: class_file.super_class });
        }
        let interfaces_count = reader.read_u16()?;
        class_file.interfaces = read_interfaces(reader, &class_file.constant_pool, interfaces_count)?;
        let fields_count = reader.read_u16()?;
        class_file.fields = read_fields(reader, fields_count)?;
        let methods_count = reader.read_u16()?;
        class_file.methods = read_methods(reader, &class_file, methods_count)?;
        let attributes_count = reader.read_u16()?;
        class_file.attributes = read_attributes(reader, &class_file, attributes_count)?;
        Ok(class_file)
    }

    /// An empty class file: empty constant pool and lists, all indices 0.
    pub fn new() -> (r: Self)
        ensures
            r@.constant_pool == Seq::<CpEntry>::empty(),
            r.access_flags == 0 && r.this_class == 0 && r.super_class == 0,
            r.interfaces@.len() == 0 && r.fields@.len() == 0 && r.methods@.len() == 0
                && r.attributes@.len() == 0,
    {
        Self {
            constant_pool: ConstantPool::new(),
            access_flags: 0,
            this_class: 0,
            super_class: 0,
            interfaces: Vec::new(),
            fields: Vec::new(),
            methods: Vec::new(),
            attributes: Vec::new(),
        }
    }
}

} // verus!
