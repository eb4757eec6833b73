use vstd::prelude::*;

use crate::class::error::ClassFormatError;
use crate::error::{InternalError, RuntimeError};
use crate::text::owned;
use crate::class::mutf8::{mutf8_decode, spec_mutf8_decode};
use crate::class::reader::{
    ClassReader,
    PRes,
    sp_many,
    sp_u16,
    sp_u8,
    sp_u32,
    sp_bytes,
    lemma_many_err_persists,
};

verus! {

/// One entry of a class file's constant pool.
///
/// `Float` and `Double` hold the raw IEEE 754 bits of the constant.
#[derive(Debug, Clone)]
pub enum ConstantPoolEntry {
    Utf8(String),
    Class { name_index: u16 },
    MethodRef { class_index: u16, name_and_type_index: u16 },
    FieldRef { class_index: u16, name_and_type_index: u16 },
    InterfaceMethodRef { class_index: u16, name_and_type_index: u16 },
    NameAndType { name_index: u16, descriptor_index: u16 },
    Integer(i32),
    Float(u32),
    Long(i64),
    Double(u64),
    String { string_index: u16 },
    Unknown,
}

/// A constant pool entry with its text as a sequence of characters.
pub enum CpEntry {
    Utf8(Seq<char>),
    Class { name_index: u16 },
    MethodRef { class_index: u16, name_and_type_index: u16 },
    FieldRef { class_index: u16, name_and_type_index: u16 },
    InterfaceMethodRef { class_index: u16, name_and_type_index: u16 },
    NameAndType { name_index: u16, descriptor_index: u16 },
    Integer(i32),
    Float(u32),
    Long(i64),
    Double(u64),
    String { string_index: u16 },
    Unknown,
}

impl View for ConstantPoolEntry {
    type V = CpEntry;

    open spec fn view(&self) -> CpEntry {
        match self {
            ConstantPoolEntry::Utf8(s) => CpEntry::Utf8(s@),
            ConstantPoolEntry::Class { name_index } => CpEntry::Class { name_index: *name_index },
            ConstantPoolEntry::MethodRef { class_index, name_and_type_index } =>
                CpEntry::MethodRef {
                    class_index: *class_index,
                    name_and_type_index: *name_and_type_index,
                },
            ConstantPoolEntry::FieldRef { class_index, name_and_type_index } => CpEntry::FieldRef {
                class_index: *class_index,
                name_and_type_index: *name_and_type_index,
            },
            ConstantPoolEntry::InterfaceMethodRef { class_index, name_and_type_index } =>
                CpEntry::InterfaceMethodRef {
                    class_index: *class_index,
                    name_and_type_index: *name_and_type_index,
                },
            ConstantPoolEntry::NameAndType { name_index, descriptor_index } =>
                CpEntry::NameAndType {
                    name_index: *name_index,
                    descriptor_index: *descriptor_index,
                },
            ConstantPoolEntry::Integer(i) => CpEntry::Integer(*i),
            ConstantPoolEntry::Float(f) => CpEntry::Float(*f),
            ConstantPoolEntry::Long(l) => CpEntry::Long(*l),
            ConstantPoolEntry::Double(d) => CpEntry::Double(*d),
            ConstantPoolEntry::String { string_index } => CpEntry::String {
                string_index: *string_index,
            },
            ConstantPoolEntry::Unknown => CpEntry::Unknown,
        }
    }
}

/// Reads a pair of `u16`s and builds an entry from them.
pub open spec fn sp_u16_pair(b: Seq<u8>, p: int) -> PRes<(u16, u16)> {
    match sp_u16(b, p) {
        Err(e) => Err(e),
        Ok((x, q)) => match sp_u16(b, q) {
            Err(e) => Err(e),
            Ok((y, r)) => Ok(((x, y), r)),
        },
    }
}

/// The meaning of the bytes of a `CONSTANT_Utf8` entry after its tag.
pub open spec fn sp_utf8_body(b: Seq<u8>, p: int) -> PRes<Seq<char>> {
    match sp_u16(b, p) {
        Err(e) => Err(e),
        Ok((len, q)) => match sp_bytes(b, q, len as int) {
            Err(e) => Err(e),
            Ok((raw, r)) => match spec_mutf8_decode(raw) {
                Some(s) => Ok((s, r)),
                None => Err(ClassFormatError::InvalidUtf8 { position: q as usize }),
            },
        },
    }
}

/// The meaning of one constant pool entry at byte offset `p`.
pub open spec fn sp_cp_entry(b: Seq<u8>, p: int) -> PRes<CpEntry> {
    match sp_u8(b, p) {
        Err(e) => Err(e),
        Ok((tag, q)) => if tag == 1 {
            match sp_utf8_body(b, q) {
                Ok((s, r)) => Ok((CpEntry::Utf8(s), r)),
                Err(e) => Err(e),
            }
        } else if tag == 7 {
            match sp_u16(b, q) {
                Ok((n, r)) => Ok((CpEntry::Class { name_index: n }, r)),
                Err(e) => Err(e),
            }
        } else if tag == 9 {
            match sp_u16_pair(b, q) {
                Ok(((c, n), r)) => Ok(
                    (CpEntry::FieldRef { class_index: c, name_and_type_index: n }, r),
                ),
                Err(e) => Err(e),
            }
        } else if tag == 10 {
            match sp_u16_pair(b, q) {
                Ok(((c, n), r)) => Ok(
                    (CpEntry::MethodRef { class_index: c, name_and_type_index: n }, r),
                ),
                Err(e) => Err(e),
            }
        } else if tag == 12 {
            match sp_u16_pair(b, q) {
                Ok(((n, d), r)) => Ok(
                    (CpEntry::NameAndType { name_index: n, descriptor_index: d }, r),
                ),
                Err(e) => Err(e),
            }
        } else if tag == 3 {
            match sp_u32(b, q) {
                Ok((bits, r)) => Ok((CpEntry::Integer(bits as i32), r)),
                Err(e) => Err(e),
            }
        } else if tag == 4 {
            match sp_u32(b, q) {
                Ok((bits, r)) => Ok((CpEntry::Float(bits), r)),
                Err(e) => Err(e),
            }
        } else if tag == 8 {
            match sp_u16(b, q) {
                Ok((s, r)) => Ok((CpEntry::String { string_index: s }, r)),
                Err(e) => Err(e),
            }
        } else {
            Err(ClassFormatError::UnknownConstantTag { tag })
        },
    }
}

/// `sp_cp_entry` as a value, for reading lists of entries.
pub open spec fn cp_entry_item() -> spec_fn(Seq<u8>, int) -> PRes<CpEntry> {
    |b: Seq<u8>, p: int| sp_cp_entry(b, p)
}

/// The meaning of a constant pool (its count and entries) at byte offset `p`:
/// slot 0 is unused and holds `Unknown`, then `count - 1` entries follow.
pub open spec fn sp_constant_pool(b: Seq<u8>, p: int) -> PRes<Seq<CpEntry>> {
    match sp_u16(b, p) {
        Err(e) => Err(e),
        Ok((count, q)) => match sp_many(
            cp_entry_item(),
            b,
            q,
            if count >= 1 {
                (count - 1) as nat
            } else {
                0
            },
        ) {
            Err(e) => Err(e),
            Ok((xs, r)) => Ok((seq![CpEntry::Unknown] + xs, r)),
        },
    }
}

/// The text of entry `i` where it is a `CONSTANT_Utf8` entry; otherwise the
/// offending index.
pub open spec fn cp_utf8(cp: Seq<CpEntry>, i: int) -> Result<Seq<char>, u16> {
    if 0 <= i < cp.len() && cp[i] is Utf8 {
        Ok(cp[i]->Utf8_0)
    } else {
        Err(i as u16)
    }
}

/// The name of the class that entry `i` refers to, where it is a
/// `CONSTANT_Class` entry whose name is a `CONSTANT_Utf8` entry; otherwise the
/// first offending index.
/// The name of the kind of entry `i` of `cp`, or "out of bounds".
pub open spec fn cp_kind_text(cp: Seq<CpEntry>, i: int) -> Seq<char> {
    if 0 <= i < cp.len() {
        match cp[i] {
            CpEntry::Utf8(_) => "Utf8"@,
            CpEntry::Class { .. } => "Class"@,
            CpEntry::MethodRef { .. } => "MethodRef"@,
            CpEntry::FieldRef { .. } => "FieldRef"@,
            CpEntry::InterfaceMethodRef { .. } => "InterfaceMethodRef"@,
            CpEntry::NameAndType { .. } => "NameAndType"@,
            CpEntry::Integer(_) => "Integer"@,
            CpEntry::Float(_) => "Float"@,
            CpEntry::Long(_) => "Long"@,
            CpEntry::Double(_) => "Double"@,
            CpEntry::String { .. } => "String"@,
            CpEntry::Unknown => "Unknown"@,
        }
    } else {
        "out of bounds"@
    }
}

pub open spec fn cp_class_name(cp: Seq<CpEntry>, i: int) -> Result<Seq<char>, u16> {
    if 0 <= i < cp.len() && cp[i] is Class {
        cp_utf8(cp, cp[i]->Class_name_index as int)
    } else {
        Err(i as u16)
    }
}

/// The name and descriptor that entry `i` refers to, where it is a
/// `CONSTANT_NameAndType` entry whose parts are `CONSTANT_Utf8` entries;
/// otherwise the first offending index.
pub open spec fn cp_name_and_type(cp: Seq<CpEntry>, i: int) -> Result<(Seq<char>, Seq<char>), u16> {
    if 0 <= i < cp.len() && cp[i] is NameAndType {
        match cp_utf8(cp, cp[i]->NameAndType_name_index as int) {
            Ok(n) => match cp_utf8(cp, cp[i]->descriptor_index as int) {
                Ok(d) => Ok((n, d)),
                Err(e) => Err(e),
            },
            Err(e) => Err(e),
        }
    } else {
        Err(i as u16)
    }
}

/// Class name, member name and descriptor of a reference whose class and
/// name-and-type indices are `c` and `nt`; otherwise the first offending index.
pub open spec fn cp_member(cp: Seq<CpEntry>, c: u16, nt: u16) -> Result<
    (Seq<char>, Seq<char>, Seq<char>),
    u16,
> {
    match cp_class_name(cp, c as int) {
        Ok(cn) => match cp_name_and_type(cp, nt as int) {
            Ok((n, d)) => Ok((cn, n, d)),
            Err(e) => Err(e),
        },
        Err(e) => Err(e),
    }
}

/// The member that entry `i` refers to, where it is a `CONSTANT_Methodref`.
pub open spec fn cp_method_ref(cp: Seq<CpEntry>, i: int) -> Result<
    (Seq<char>, Seq<char>, Seq<char>),
    u16,
> {
    if 0 <= i < cp.len() && cp[i] is MethodRef {
        cp_member(cp, cp[i]->MethodRef_class_index, cp[i]->MethodRef_name_and_type_index)
    } else {
        Err(i as u16)
    }
}

/// The member that entry `i` refers to, where it is a `CONSTANT_Fieldref`.
pub open spec fn cp_field_ref(cp: Seq<CpEntry>, i: int) -> Result<
    (Seq<char>, Seq<char>, Seq<char>),
    u16,
> {
    if 0 <= i < cp.len() && cp[i] is FieldRef {
        cp_member(cp, cp[i]->FieldRef_class_index, cp[i]->FieldRef_name_and_type_index)
    } else {
        Err(i as u16)
    }
}

/// The member that entry `i` refers to, where it is a
/// `CONSTANT_InterfaceMethodref`.
pub open spec fn cp_interface_method_ref(cp: Seq<CpEntry>, i: int) -> Result<
    (Seq<char>, Seq<char>, Seq<char>),
    u16,
> {
    if 0 <= i < cp.len() && cp[i] is InterfaceMethodRef {
        cp_member(
            cp,
            cp[i]->InterfaceMethodRef_class_index,
            cp[i]->InterfaceMethodRef_name_and_type_index,
        )
    } else {
        Err(i as u16)
    }
}

/// Whether `r` reports the constant pool index `index` as invalid.
pub open spec fn is_cp_error(r: RuntimeError, index: u16) -> bool {
    r matches RuntimeError::Internal(InternalError::InvalidConstantPoolEntry { index: i, .. })
        && i == index
}

/// The outcome of a getter, against the outcome of its spec function.
pub open spec fn cp_result_matches<T, V>(r: Result<T, RuntimeError>, s: Result<V, u16>, f: spec_fn(T) -> V) -> bool {
    match s {
        Ok(v) => r is Ok && f(r->Ok_0) == v,
        Err(i) => r is Err && is_cp_error(r->Err_0, i),
    }
}

/// A class file's constant pool. Index 0 is unused.
#[derive(Clone)]
pub struct ConstantPool {
    pub entries: Vec<ConstantPoolEntry>,
}

impl View for ConstantPool {
    type V = Seq<CpEntry>;

    open spec fn view(&self) -> Seq<CpEntry> {
        self.entries@.map_values(|e: ConstantPoolEntry| e@)
    }
}

/// A copy of one entry.
fn copy_entry(e: &ConstantPoolEntry) -> (r: ConstantPoolEntry)
    ensures
        r@ == e@,
{
    match e {
        ConstantPoolEntry::Utf8(s) => ConstantPoolEntry::Utf8(s.clone()),
        ConstantPoolEntry::Class { name_index } => ConstantPoolEntry::Class {
            name_index: *name_index,
        },
        ConstantPoolEntry::MethodRef { class_index, name_and_type_index } =>
            ConstantPoolEntry::MethodRef {
                class_index: *class_index,
                name_and_type_index: *name_and_type_index,
            },
        ConstantPoolEntry::FieldRef { class_index, name_and_type_index } =>
            ConstantPoolEntry::FieldRef {
                class_index: *class_index,
                name_and_type_index: *name_and_type_index,
            },
        ConstantPoolEntry::InterfaceMethodRef { class_index, name_and_type_index } =>
            ConstantPoolEntry::InterfaceMethodRef {
                class_index: *class_index,
                name_and_type_index: *name_and_type_index,
            },
        ConstantPoolEntry::NameAndType { name_index, descriptor_index } =>
            ConstantPoolEntry::NameAndType {
                name_index: *name_index,
                descriptor_index: *descriptor_index,
            },
        ConstantPoolEntry::Integer(i) => ConstantPoolEntry::Integer(*i),
        ConstantPoolEntry::Float(f) => ConstantPoolEntry::Float(*f),
        ConstantPoolEntry::Long(l) => ConstantPoolEntry::Long(*l),
        ConstantPoolEntry::Double(d) => ConstantPoolEntry::Double(*d),
        ConstantPoolEntry::String { string_index } => ConstantPoolEntry::String {
            string_index: *string_index,
        },
        ConstantPoolEntry::Unknown => ConstantPoolEntry::Unknown,
    }
}

/// Reads one constant pool entry.
fn read_entry(reader: &mut ClassReader) -> (r: Result<ConstantPoolEntry, ClassFormatError>)
    ensures
        final(reader).bytes() == old(reader).bytes(),
        match sp_cp_entry(old(reader).bytes(), old(reader).pos()) {
            Ok((v, q)) => r is Ok && r->Ok_0@ == v && final(reader).pos() == q,
            Err(e) => r == Err::<ConstantPoolEntry, _>(e),
        },
{
    let tag = reader.read_u8()?;
    match tag {
        1 => {
            let length = reader.read_u16()?;
            let start = reader.position();
            let bytes = reader.read_bytes(length as usize)?;
            match mutf8_decode(bytes.as_slice()) {
                Some(string) => Ok(ConstantPoolEntry::Utf8(string)),
                None => Err(ClassFormatError::InvalidUtf8 { position: start }),
            }
        },
        7 => {
            let name_index = reader.read_u16()?;
            Ok(ConstantPoolEntry::Class { name_index })
        },
        9 => {
            let class_index = reader.read_u16()?;
            let name_and_type_index = reader.read_u16()?;
            Ok(ConstantPoolEntry::FieldRef { class_index, name_and_type_index })
        },
        10 => {
            let class_index = reader.read_u16()?;
            let name_and_type_index = reader.read_u16()?;
            Ok(ConstantPoolEntry::MethodRef { class_index, name_and_type_index })
        },
        12 => {
            let name_index = reader.read_u16()?;
            let descriptor_index = reader.read_u16()?;
            Ok(ConstantPoolEntry::NameAndType { name_index, descriptor_index })
        },
        3 => {
            let bits = reader.read_u32()?;
            Ok(ConstantPoolEntry::Integer(bits as i32))
        },
        4 => {
            let bits = reader.read_u32()?;
            Ok(ConstantPoolEntry::Float(bits))
        },
        8 => {
            let string_index = reader.read_u16()?;
            Ok(ConstantPoolEntry::String { string_index })
        },
        _ => Err(ClassFormatError::UnknownConstantTag { tag }),
    }
}

impl ConstantPool {
    /// Reads a constant pool: its `u16` count, then `count - 1` entries.
    /// Slot 0 holds `Unknown`.
    pub fn read(reader: &mut ClassReader) -> (r: Result<Self, ClassFormatError>)
        ensures
            final(reader).bytes() == old(reader).bytes(),
            match sp_constant_pool(old(reader).bytes(), old(reader).pos()) {
                Ok((v, q)) => r is Ok && r->Ok_0@ == v && final(reader).pos() == q,
                Err(e) => r == Err::<Self, _>(e),
            },
    {
        let count = reader.read_u16()?;
        let ghost b = reader.bytes();
        let ghost p0 = reader.pos();
        let n: u16 = if count >= 1 { count - 1 } else { 0 };
        let mut entries: Vec<ConstantPoolEntry> = Vec::new();
        entries.push(ConstantPoolEntry::Unknown);
        let mut i: u16 = 0;
        while i < n
            invariant
                reader.bytes() == b,
                b == old(reader).bytes(),
                sp_u16(b, old(reader).pos()) == PRes::<u16>::Ok((count, p0)),
                n == (if count >= 1 { (count - 1) as u16 } else { 0u16 }),
                i <= n,
                entries@.len() == i + 1,
                entries@[0]@ == CpEntry::Unknown,
                sp_many(cp_entry_item(), b, p0, i as nat) matches Ok((xs, q)) && q
                    == reader.pos() && xs == entries@.subrange(1, i + 1).map_values(
                    |e: ConstantPoolEntry| e@,
                ),
            decreases n - i,
        {
            match read_entry(reader) {
                Ok(entry) => {
                    let ghost before = entries@;
                    entries.push(entry);
                    proof {
                        assert(entries@.subrange(1, i + 2) == before.subrange(1, i + 1).push(
                            entry,
                        ));
                        assert(entries@.subrange(1, i + 2).map_values(|e: ConstantPoolEntry| e@)
                            =~= before.subrange(1, i + 1).map_values(
                            |e: ConstantPoolEntry| e@,
                        ).push(entry@));
                    }
                    i = i + 1;
                },
                Err(e) => {
                    proof {
                        lemma_many_err_persists(cp_entry_item(), b, p0, (i + 1) as nat, n as nat);
                    }
                    return Err(e);
                },
            }
        }
        let r = Self { entries };
        proof {
            assert(r@ =~= seq![CpEntry::Unknown] + entries@.subrange(1, n + 1).map_values(
                |e: ConstantPoolEntry| e@,
            ));
        }
        Ok(r)
    }

    /// The name of the kind of entry `i`, or "out of bounds".
    fn kind_name(&self, index: u16) -> (r: &'static str)
        ensures
            r@ == cp_kind_text(self@, index as int),
    {
        if (index as usize) < self.entries.len() {
            match &self.entries[index as usize] {
                ConstantPoolEntry::Utf8(_) => "Utf8",
                ConstantPoolEntry::Class { .. } => "Class",
                ConstantPoolEntry::MethodRef { .. } => "MethodRef",
                ConstantPoolEntry::FieldRef { .. } => "FieldRef",
                ConstantPoolEntry::InterfaceMethodRef { .. } => "InterfaceMethodRef",
                ConstantPoolEntry::NameAndType { .. } => "NameAndType",
                ConstantPoolEntry::Integer(_) => "Integer",
                ConstantPoolEntry::Float(_) => "Float",
                ConstantPoolEntry::Long(_) => "Long",
                ConstantPoolEntry::Double(_) => "Double",
                ConstantPoolEntry::String { .. } => "String",
                ConstantPoolEntry::Unknown => "Unknown",
            }
        } else {
            "out of bounds"
        }
    }

    fn error(&self, index: u16, expected: &str) -> (r: RuntimeError)
        ensures
            is_cp_error(r, index),
    {
        RuntimeError::Internal(
            InternalError::InvalidConstantPoolEntry {
                index,
                expected: owned(expected),
                found: owned(self.kind_name(index)),
            },
        )
    }

    /// The text of entry `index`, which must be a `CONSTANT_Utf8` entry.
    pub fn get_utf8(&self, index: u16) -> (r: Result<String, RuntimeError>)
        ensures
            cp_result_matches(r, cp_utf8(self@, index as int), |s: String| s@),
    {
        if (index as usize) < self.entries.len() {
            match &self.entries[index as usize] {
                ConstantPoolEntry::Utf8(s) => {
                    return Ok(s.clone());
                },
                _ => {},
            }
        }
        Err(self.error(index, "Utf8"))
    }

    /// The name of the class that entry `index` refers to.
    pub fn get_class_name(&self, index: u16) -> (r: Result<String, RuntimeError>)
        ensures
            cp_result_matches(r, cp_class_name(self@, index as int), |s: String| s@),
    {
        if (index as usize) < self.entries.len() {
            match &self.entries[index as usize] {
                ConstantPoolEntry::Class { name_index } => {
                    return self.get_utf8(*name_index);
                },
                _ => {},
            }
        }
        Err(self.error(index, "Class"))
    }

    /// The name and descriptor that entry `index` refers to.
    pub fn get_name_and_type(&self, index: u16) -> (r: Result<(String, String), RuntimeError>)
        ensures
            cp_result_matches(
                r,
                cp_name_and_type(self@, index as int),
                |p: (String, String)| (p.0@, p.1@),
            ),
    {
        if (index as usize) < self.entries.len() {
            match &self.entries[index as usize] {
                ConstantPoolEntry::NameAndType { name_index, descriptor_index } => {
                    let name = self.get_utf8(*name_index)?;
                    let descriptor = self.get_utf8(*descriptor_index)?;
                    return Ok((name, descriptor));
                },
                _ => {},
            }
        }
        Err(self.error(index, "NameAndType"))
    }

    fn get_member(&self, class_index: u16, name_and_type_index: u16) -> (r: Result<
        (String, String, String),
        RuntimeError,
    >)
        ensures
            cp_result_matches(
                r,
                cp_member(self@, class_index, name_and_type_index),
                |t: (String, String, String)| (t.0@, t.1@, t.2@),
            ),
    {
        let class_name = self.get_class_name(class_index)?;
        let (name, descriptor) = self.get_name_and_type(name_and_type_index)?;
        Ok((class_name, name, descriptor))
    }

    /// Class name, method name and descriptor of the `CONSTANT_Methodref` at `index`.
    pub fn get_method_ref(&self, index: u16) -> (r: Result<(String, String, String), RuntimeError>)
        ensures
            cp_result_matches(
                r,
                cp_method_ref(self@, index as int),
                |t: (String, String, String)| (t.0@, t.1@, t.2@),
            ),
    {
        if (index as usize) < self.entries.len() {
            match &self.entries[index as usize] {
                ConstantPoolEntry::MethodRef { class_index, name_and_type_index } => {
                    return self.get_member(*class_index, *name_and_type_index);
                },
                _ => {},
            }
        }
        Err(self.error(index, "MethodRef"))
    }

    /// Class name, field name and descriptor of the `CONSTANT_Fieldref` at `index`.
    pub fn get_field_ref(&self, index: u16) -> (r: Result<(String, String, String), RuntimeError>)
        ensures
            cp_result_matches(
                r,
                cp_field_ref(self@, index as int),
                |t: (String, String, String)| (t.0@, t.1@, t.2@),
            ),
    {
        if (index as usize) < self.entries.len() {
            match &self.entries[index as usize] {
                ConstantPoolEntry::FieldRef { class_index, name_and_type_index } => {
                    return self.get_member(*class_index, *name_and_type_index);
                },
                _ => {},
            }
        }
        Err(self.error(index, "FieldRef"))
    }

    /// Interface name, method name and descriptor of the
    /// `CONSTANT_InterfaceMethodref` at `index`.
    pub fn get_interface_method_ref(&self, index: u16) -> (r: Result<
        (String, String, String),
        RuntimeError,
    >)
        ensures
            cp_result_matches(
                r,
                cp_interface_method_ref(self@, index as int),
                |t: (String, String, String)| (t.0@, t.1@, t.2@),
            ),
    {
        if (index as usize) < self.entries.len() {
            match &self.entries[index as usize] {
                ConstantPoolEntry::InterfaceMethodRef { class_index, name_and_type_index } => {
                    return self.get_member(*class_index, *name_and_type_index);
                },
                _ => {},
            }
        }
        Err(self.error(index, "InterfaceMethodRef"))
    }

    /// An empty constant pool.
    /// A copy of this constant pool.
    pub fn duplicate(&self) -> (r: Self)
        ensures
            r@ == self@,
    {
        let mut out: Vec<ConstantPoolEntry> = Vec::with_capacity(self.entries.len());
        let mut i: usize = 0;
        while i < self.entries.len()
            invariant
                i <= self.entries@.len(),
                out@.map_values(|e: ConstantPoolEntry| e@) == self@.subrange(0, i as int),
            decreases self.entries@.len() - i,
        {
            let e = copy_entry(&self.entries[i]);
            let ghost before = out@;
            out.push(e);
            proof {
                assert(out@.map_values(|e: ConstantPoolEntry| e@) =~= before.map_values(
                    |e: ConstantPoolEntry| e@,
                ).push(e@));
                assert(self@.subrange(0, i + 1) =~= self@.subrange(0, i as int).push(e@));
            }
            i = i + 1;
        }
        proof {
            assert(self@.subrange(0, self.entries@.len() as int) =~= self@);
        }
        Self { entries: out }
    }

    /// An empty constant pool.
    pub fn new() -> (r: Self)
        ensures
            r@ == Seq::<CpEntry>::empty(),
    {
        let r = Self { entries: Vec::new() };
        proof {
            assert(r@ =~= Seq::<CpEntry>::empty());
        }
        r
    }
}

} // verus!
