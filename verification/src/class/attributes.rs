use vstd::prelude::*;

use crate::class::class_file::ClassFile;
use crate::class::constant_pool::{ConstantPool, CpEntry, cp_utf8};
use crate::class::error::ClassFormatError;
use crate::class::reader::{
    ClassReader,
    PRes,
    eof_at,
    sp_many,
    sp_u16,
    sp_u32,
    sp_bytes,
    lemma_many_err_persists,
};
use crate::text::owned;

verus! {

/// One entry of a `Code` attribute's exception table.
#[derive(Debug, Clone, Copy, PartialEq, Eq)]
pub struct ExceptionTableEntry {
    pub start_pc: u16,
    pub end_pc: u16,
    pub handler_pc: u16,
    pub catch_type: u16,
}

/// One entry of a `LineNumberTable` attribute.
#[derive(Debug, Clone, Copy, PartialEq, Eq)]
pub struct LineNumberTableEntry {
    pub start_pc: u16,
    pub line_number: u16,
}

/// An attribute of a class, field, method or `Code` attribute.
pub enum Attribute {
    ConstantValue { constantvalue_index: u16 },
    Code {
        max_stack: u16,
        max_locals: u16,
        code: Vec<u8>,
        exception_table: Vec<ExceptionTableEntry>,
        attributes: Vec<Attribute>,
    },
    SourceFile { sourcefile_idx: u16 },
    LineNumberTable { entries: Vec<LineNumberTableEntry> },
}

/// An `Attribute` with its lists as sequences.
pub enum AttributeModel {
    ConstantValue { constantvalue_index: u16 },
    Code {
        max_stack: u16,
        max_locals: u16,
        code: Seq<u8>,
        exception_table: Seq<ExceptionTableEntry>,
        attributes: Seq<AttributeModel>,
    },
    SourceFile { sourcefile_idx: u16 },
    LineNumberTable { entries: Seq<LineNumberTableEntry> },
}

/// The models of a list of attributes.
pub open spec fn attrs_model(s: Seq<Attribute>) -> Seq<AttributeModel>
    decreases s,
{
    if s.len() == 0 {
        Seq::empty()
    } else {
        attrs_model(s.drop_last()).push(attr_model(s.last()))
    }
}

/// The model of one attribute.
pub open spec fn attr_model(a: Attribute) -> AttributeModel
    decreases a,
{
    match a {
        Attribute::ConstantValue { constantvalue_index } => AttributeModel::ConstantValue {
            constantvalue_index,
        },
        Attribute::Code { max_stack, max_locals, code, exception_table, attributes } =>
            AttributeModel::Code {
                max_stack,
                max_locals,
                code: code@,
                exception_table: exception_table@,
                attributes: attrs_model(attributes@),
            },
        Attribute::SourceFile { sourcefile_idx } => AttributeModel::SourceFile { sourcefile_idx },
        Attribute::LineNumberTable { entries } => AttributeModel::LineNumberTable {
            entries: entries@,
        },
    }
}

impl View for Attribute {
    type V = AttributeModel;

    open spec fn view(&self) -> AttributeModel {
        attr_model(*self)
    }
}

/// A list of attributes read so far, ahead of what follows.
pub open spec fn prepend(xs: Seq<AttributeModel>, rest: PRes<Seq<AttributeModel>>) -> PRes<
    Seq<AttributeModel>,
> {
    match rest {
        Ok((ys, r)) => Ok((xs + ys, r)),
        Err(e) => Err(e),
    }
}

/// One exception table entry at `p`.
pub open spec fn sp_exception_entry(b: Seq<u8>, p: int) -> PRes<ExceptionTableEntry> {
    match sp_u16(b, p) {
        Err(e) => Err(e),
        Ok((s, q1)) => match sp_u16(b, q1) {
            Err(e) => Err(e),
            Ok((en, q2)) => match sp_u16(b, q2) {
                Err(e) => Err(e),
                Ok((h, q3)) => match sp_u16(b, q3) {
                    Err(e) => Err(e),
                    Ok((c, q4)) => Ok(
                        (
                            ExceptionTableEntry {
                                start_pc: s,
                                end_pc: en,
                                handler_pc: h,
                                catch_type: c,
                            },
                            q4,
                        ),
                    ),
                },
            },
        },
    }
}

/// `sp_exception_entry` as a value.
pub open spec fn exception_entry_item() -> spec_fn(Seq<u8>, int) -> PRes<ExceptionTableEntry> {
    |b: Seq<u8>, p: int| sp_exception_entry(b, p)
}

/// One line number table entry at `p`.
pub open spec fn sp_line_entry(b: Seq<u8>, p: int) -> PRes<LineNumberTableEntry> {
    match sp_u16(b, p) {
        Err(e) => Err(e),
        Ok((s, q1)) => match sp_u16(b, q1) {
            Err(e) => Err(e),
            Ok((l, q2)) => Ok((LineNumberTableEntry { start_pc: s, line_number: l }, q2)),
        },
    }
}

/// `sp_line_entry` as a value.
pub open spec fn line_entry_item() -> spec_fn(Seq<u8>, int) -> PRes<LineNumberTableEntry> {
    |b: Seq<u8>, p: int| sp_line_entry(b, p)
}

/// The meaning of `n` attributes in a row at `p`, names looked up in `cp`.
pub open spec fn sp_attr_list(b: Seq<u8>, p: int, cp: Seq<CpEntry>, n: nat) -> PRes<
    Seq<AttributeModel>,
>
    decreases b.len() - p, 1int, n,
{
    if n == 0 {
        Ok((Seq::empty(), p))
    } else {
        match sp_attribute(b, p, cp) {
            Err(e) => Err(e),
            Ok((a, q)) => if p < q <= b.len() {
                prepend(seq![a], sp_attr_list(b, q, cp, (n - 1) as nat))
            } else {
                Err(eof_at(p, 0))
            },
        }
    }
}

/// The body of a `Code` attribute at `p` (after its name and length).
pub open spec fn sp_code_body(b: Seq<u8>, p: int, cp: Seq<CpEntry>) -> PRes<AttributeModel>
    decreases b.len() - p, 0int, 0int,
{
    match sp_u16(b, p) {
        Err(e) => Err(e),
        Ok((ms, q1)) => match sp_u16(b, q1) {
            Err(e) => Err(e),
            Ok((ml, q2)) => match sp_u32(b, q2) {
                Err(e) => Err(e),
                Ok((cl, q3)) => match sp_bytes(b, q3, cl as int) {
                    Err(e) => Err(e),
                    Ok((code, q4)) => match sp_u16(b, q4) {
                        Err(e) => Err(e),
                        Ok((etl, q5)) => match sp_many(exception_entry_item(), b, q5, etl as nat) {
                            Err(e) => Err(e),
                            Ok((et, q6)) => match sp_u16(b, q6) {
                                Err(e) => Err(e),
                                Ok((ac, q7)) => if p < q7 <= b.len() {
                                    match sp_attr_list(b, q7, cp, ac as nat) {
                                        Err(e) => Err(e),
                                        Ok((attrs, q8)) => Ok(
                                            (
                                                AttributeModel::Code {
                                                    max_stack: ms,
                                                    max_locals: ml,
                                                    code,
                                                    exception_table: et,
                                                    attributes: attrs,
                                                },
                                                q8,
                                            ),
                                        ),
                                    }
                                } else {
                                    Err(eof_at(p, 0))
                                },
                            },
                        },
                    },
                },
            },
        },
    }
}

/// The meaning of one attribute at `p`, its name looked up in `cp`.
pub open spec fn sp_attribute(b: Seq<u8>, p: int, cp: Seq<CpEntry>) -> PRes<AttributeModel>
    decreases b.len() - p, 0int, 1int,
{
    match sp_u16(b, p) {
        Err(e) => Err(e),
        Ok((ni, q1)) => match sp_u32(b, q1) {
            Err(e) => Err(e),
            Ok((_len, q2)) => match cp_utf8(cp, ni as int) {
                Err(i) => Err(ClassFormatError::InvalidConstantPoolEntry { index: i }),
                Ok(name) => if name == "ConstantValue"@ {
                    match sp_u16(b, q2) {
                        Ok((v, q3)) => Ok(
                            (AttributeModel::ConstantValue { constantvalue_index: v }, q3),
                        ),
                        Err(e) => Err(e),
                    }
                } else if name == "Code"@ {
                    if p < q2 <= b.len() {
                        sp_code_body(b, q2, cp)
                    } else {
                        Err(eof_at(p, 0))
                    }
                } else if name == "LineNumberTable"@ {
                    match sp_u16(b, q2) {
                        Err(e) => Err(e),
                        Ok((n, q3)) => match sp_many(line_entry_item(), b, q3, n as nat) {
                            Ok((es, q4)) => Ok((AttributeModel::LineNumberTable { entries: es }, q4)),
                            Err(e) => Err(e),
                        },
                    }
                } else if name == "SourceFile"@ {
                    match sp_u16(b, q2) {
                        Ok((v, q3)) => Ok((AttributeModel::SourceFile { sourcefile_idx: v }, q3)),
                        Err(e) => Err(e),
                    }
                } else {
                    Err(ClassFormatError::UnknownAttribute { name_index: ni })
                },
            },
        },
    }
}

/// Reading `n` items with `item` ends at or after `p`, within the bytes.
pub proof fn lemma_many_advances<T>(
    item: spec_fn(Seq<u8>, int) -> PRes<T>,
    b: Seq<u8>,
    p: int,
    n: nat,
)
    requires
        0 <= p <= b.len(),
        forall|q: int|
            #![trigger item(b, q)]
            0 <= q <= b.len() ==> (item(b, q) matches Ok((_, r)) ==> q <= r <= b.len()),
    ensures
        sp_many(item, b, p, n) matches Ok((xs, r)) ==> p <= r <= b.len() && xs.len() == n,
    decreases n,
{
    if n > 0 {
        lemma_many_advances(item, b, p, (n - 1) as nat);
    }
}

/// Reading an attribute (or a list of them) only moves forward.
pub proof fn lemma_attribute_advances(b: Seq<u8>, p: int, cp: Seq<CpEntry>)
    requires
        0 <= p <= b.len(),
    ensures
        sp_attribute(b, p, cp) matches Ok((_, q)) ==> p < q <= b.len(),
{
    assert forall|q: int| #![trigger exception_entry_item()(b, q)] 0 <= q <= b.len() implies (exception_entry_item()(b, q) matches Ok(
        (_, r),
    ) ==> q <= r <= b.len()) by {}
    assert forall|q: int| #![trigger line_entry_item()(b, q)] 0 <= q <= b.len() implies (line_entry_item()(b, q) matches Ok(
        (_, r),
    ) ==> q <= r <= b.len()) by {}
    match sp_u16(b, p) {
        Err(_) => {},
        Ok((ni, q1)) => match sp_u32(b, q1) {
            Err(_) => {},
            Ok((_len, q2)) => {
                if let Ok((n, q3)) = sp_u16(b, q2) {
                    lemma_many_advances(line_entry_item(), b, q3, n as nat);
                }
                lemma_code_body_advances(b, q2, cp);
            },
        },
    }
}

/// Reading a `Code` body only moves forward.
pub proof fn lemma_code_body_advances(b: Seq<u8>, p: int, cp: Seq<CpEntry>)
    requires
        0 <= p <= b.len(),
    ensures
        sp_code_body(b, p, cp) matches Ok((_, q)) ==> p < q <= b.len(),
{
    assert forall|q: int| #![trigger exception_entry_item()(b, q)] 0 <= q <= b.len() implies (exception_entry_item()(b, q) matches Ok(
        (_, r),
    ) ==> q <= r <= b.len()) by {}
    if let Ok((ms, q1)) = sp_u16(b, p) {
        if let Ok((ml, q2)) = sp_u16(b, q1) {
            if let Ok((cl, q3)) = sp_u32(b, q2) {
                if let Ok((code, q4)) = sp_bytes(b, q3, cl as int) {
                    if let Ok((etl, q5)) = sp_u16(b, q4) {
                        lemma_many_advances(exception_entry_item(), b, q5, etl as nat);
                        if let Ok((et, q6)) = sp_many(exception_entry_item(), b, q5, etl as nat) {
                            if let Ok((ac, q7)) = sp_u16(b, q6) {
                                lemma_attr_list_advances(b, q7, cp, ac as nat);
                            }
                        }
                    }
                }
            }
        }
    }
}

/// Reading a list of attributes only moves forward.
pub proof fn lemma_attr_list_advances(b: Seq<u8>, p: int, cp: Seq<CpEntry>, n: nat)
    requires
        0 <= p <= b.len(),
    ensures
        sp_attr_list(b, p, cp, n) matches Ok((xs, q)) ==> p <= q <= b.len() && xs.len() == n,
    decreases n,
{
    if n > 0 {
        if let Ok((a, q)) = sp_attribute(b, p, cp) {
            if p < q <= b.len() {
                lemma_attr_list_advances(b, q, cp, (n - 1) as nat);
            }
        }
    }
}

/// Whether `r` is what the eight bytes of an exception table entry at `p`
/// of `b` say: four big-endian 16-bit numbers, in the order start pc, end
/// pc, handler pc and catch type, each at its own offset; an error where
/// fewer than eight bytes are left.
pub open spec fn entry_at(b: Seq<u8>, p: int, r: Result<ExceptionTableEntry, ClassFormatError>) -> bool {
    if 0 <= p && p + 8 <= b.len() {
        r matches Ok(e) && e.start_pc as int == b[p] as int * 256 + b[p + 1] as int && e.end_pc as int
            == b[p + 2] as int * 256 + b[p + 3] as int && e.handler_pc as int == b[p + 4] as int * 256
            + b[p + 5] as int && e.catch_type as int == b[p + 6] as int * 256 + b[p + 7] as int
    } else {
        r is Err
    }
}

/// An exception table entry is read as four big-endian 16-bit numbers at
/// offsets 0, 2, 4 and 6 from its start: start pc, end pc, handler pc and
/// catch type, in that order, taking eight bytes; with fewer than eight
/// bytes left it cannot be read.
pub proof fn lemma_exception_entry_bytes(b: Seq<u8>, p: int)
    ensures
        0 <= p && p + 8 <= b.len() ==> (sp_exception_entry(b, p) matches Ok((e, q)) && q == p + 8 && e.start_pc as int
            == b[p] as int * 256 + b[p + 1] as int && e.end_pc as int == b[p + 2] as int * 256 + b[p
            + 3] as int && e.handler_pc as int == b[p + 4] as int * 256 + b[p + 5] as int
            && e.catch_type as int == b[p + 6] as int * 256 + b[p + 7] as int),
        !(0 <= p && p + 8 <= b.len()) ==> sp_exception_entry(b, p) is Err,
{
    if 0 <= p && p + 8 <= b.len() {
        crate::class::reader::lemma_be_u16_value(b, p);
        crate::class::reader::lemma_be_u16_value(b, p + 2);
        crate::class::reader::lemma_be_u16_value(b, p + 4);
        crate::class::reader::lemma_be_u16_value(b, p + 6);
    }
}

/// Reads one exception table entry.
fn read_exception_entry(reader: &mut ClassReader) -> (r: Result<
    ExceptionTableEntry,
    ClassFormatError,
>)
    ensures
        final(reader).bytes() == old(reader).bytes(),
        old(reader).pos() <= final(reader).pos() <= final(reader).bytes().len(),
        match sp_exception_entry(old(reader).bytes(), old(reader).pos()) {
            Ok((v, q)) => r == Ok::<ExceptionTableEntry, ClassFormatError>(v) && final(reader).pos()
                == q,
            Err(e) => r == Err::<ExceptionTableEntry, _>(e),
        },
        entry_at(old(reader).bytes(), old(reader).pos(), r),
{
    proof {
        lemma_exception_entry_bytes(old(reader).bytes(), old(reader).pos());
    }
    let start_pc = reader.read_u16()?;
    let end_pc = reader.read_u16()?;
    let handler_pc = reader.read_u16()?;
    let catch_type = reader.read_u16()?;
    Ok(ExceptionTableEntry { start_pc, end_pc, handler_pc, catch_type })
}

/// Reads one line number table entry.
fn read_line_entry(reader: &mut ClassReader) -> (r: Result<
    LineNumberTableEntry,
    ClassFormatError,
>)
    ensures
        final(reader).bytes() == old(reader).bytes(),
        old(reader).pos() <= final(reader).pos() <= final(reader).bytes().len(),
        match sp_line_entry(old(reader).bytes(), old(reader).pos()) {
            Ok((v, q)) => r == Ok::<LineNumberTableEntry, ClassFormatError>(v) && final(reader).pos()
                == q,
            Err(e) => r == Err::<LineNumberTableEntry, _>(e),
        },
{
    let start_pc = reader.read_u16()?;
    let line_number = reader.read_u16()?;
    Ok(LineNumberTableEntry { start_pc, line_number })
}

/// Reads `count` exception table entries.
fn read_exception_table(reader: &mut ClassReader, count: u16) -> (r: Result<
    Vec<ExceptionTableEntry>,
    ClassFormatError,
>)
    ensures
        final(reader).bytes() == old(reader).bytes(),
        old(reader).pos() <= final(reader).pos() <= final(reader).bytes().len(),
        match sp_many(exception_entry_item(), old(reader).bytes(), old(reader).pos(), count as nat) {
            Ok((v, q)) => r is Ok && r->Ok_0@ == v && final(reader).pos() == q,
            Err(e) => r == Err::<Vec<ExceptionTableEntry>, _>(e),
        },
{
    let _start = reader.position();
    let ghost b = reader.bytes();
    let ghost p0 = reader.pos();
    let mut out: Vec<ExceptionTableEntry> = Vec::new();
    let mut i: u16 = 0;
    while i < count
        invariant
            reader.bytes() == b,
            b == old(reader).bytes(),
            p0 == old(reader).pos(),
            0 <= p0 <= reader.pos() <= b.len(),
            i <= count,
            sp_many(exception_entry_item(), b, p0, i as nat) == PRes::<
                Seq<ExceptionTableEntry>,
            >::Ok((out@, reader.pos())),
        decreases count - i,
    {
        match read_exception_entry(reader) {
            Ok(v) => {
                out.push(v);
                i = i + 1;
            },
            Err(e) => {
                proof {
                    lemma_many_err_persists(
                        exception_entry_item(),
                        b,
                        p0,
                        (i + 1) as nat,
                        count as nat,
                    );
                }
                return Err(e);
            },
        }
    }
    Ok(out)
}

/// Reads `count` line number table entries.
fn read_line_table(reader: &mut ClassReader, count: u16) -> (r: Result<
    Vec<LineNumberTableEntry>,
    ClassFormatError,
>)
    ensures
        final(reader).bytes() == old(reader).bytes(),
        old(reader).pos() <= final(reader).pos() <= final(reader).bytes().len(),
        match sp_many(line_entry_item(), old(reader).bytes(), old(reader).pos(), count as nat) {
            Ok((v, q)) => r is Ok && r->Ok_0@ == v && final(reader).pos() == q,
            Err(e) => r == Err::<Vec<LineNumberTableEntry>, _>(e),
        },
{
    let _start = reader.position();
    let ghost b = reader.bytes();
    let ghost p0 = reader.pos();
    let mut out: Vec<LineNumberTableEntry> = Vec::new();
    let mut i: u16 = 0;
    while i < count
        invariant
            reader.bytes() == b,
            b == old(reader).bytes(),
            p0 == old(reader).pos(),
            0 <= p0 <= reader.pos() <= b.len(),
            i <= count,
            sp_many(line_entry_item(), b, p0, i as nat) == PRes::<
                Seq<LineNumberTableEntry>,
            >::Ok((out@, reader.pos())),
        decreases count - i,
    {
        match read_line_entry(reader) {
            Ok(v) => {
                out.push(v);
                i = i + 1;
            },
            Err(e) => {
                proof {
                    lemma_many_err_persists(line_entry_item(), b, p0, (i + 1) as nat, count as nat);
                }
                return Err(e);
            },
        }
    }
    Ok(out)
}

/// The models of `xs` followed by `x`.
proof fn lemma_attrs_model_push(xs: Seq<Attribute>, x: Attribute)
    ensures
        attrs_model(xs.push(x)) == attrs_model(xs).push(attr_model(x)),
{
    assert(xs.push(x).drop_last() =~= xs);
}

/// Reads `count` attributes in a row, names looked up in `cp`.
fn read_attribute_list(reader: &mut ClassReader, cp: &ConstantPool, count: u16) -> (r: Result<
    Vec<Attribute>,
    ClassFormatError,
>)
    ensures
        final(reader).bytes() == old(reader).bytes(),
        old(reader).pos() <= final(reader).pos() <= final(reader).bytes().len(),
        match sp_attr_list(old(reader).bytes(), old(reader).pos(), cp@, count as nat) {
            Ok((v, q)) => r is Ok && attrs_model(r->Ok_0@) == v && final(reader).pos() == q,
            Err(e) => r == Err::<Vec<Attribute>, _>(e),
        },
    decreases old(reader).bytes().len() - old(reader).pos(), 1int,
{
    let _start = reader.position();
    let ghost b = reader.bytes();
    let ghost p0 = reader.pos();
    let mut out: Vec<Attribute> = Vec::new();
    let mut i: u16 = 0;
    while i < count
        invariant
            reader.bytes() == b,
            b == old(reader).bytes(),
            p0 == old(reader).pos(),
            0 <= p0 <= reader.pos() <= b.len(),
            i <= count,
            sp_attr_list(b, p0, cp@, count as nat) == prepend(
                attrs_model(out@),
                sp_attr_list(b, reader.pos(), cp@, (count - i) as nat),
            ),
        decreases count - i,
    {
        let ghost cur = reader.pos();
        proof {
            lemma_attribute_advances(b, cur, cp@);
        }
        match read_attribute(reader, cp) {
            Ok(v) => {
                let ghost before = out@;
                let ghost rest = sp_attr_list(b, reader.pos(), cp@, (count - i - 1) as nat);
                out.push(v);
                proof {
                    lemma_attrs_model_push(before, v);
                    assert(sp_attr_list(b, cur, cp@, (count - i) as nat) == prepend(
                        seq![v@],
                        rest,
                    ));
                    if let Ok((ys, _)) = rest {
                        assert(attrs_model(before) + (seq![v@] + ys) =~= attrs_model(before).push(
                            v@,
                        ) + ys);
                    }
                }
                i = i + 1;
            },
            Err(e) => {
                return Err(e);
            },
        }
    }
    proof {
        assert(attrs_model(out@) + Seq::<AttributeModel>::empty() =~= attrs_model(out@));
    }
    Ok(out)
}

/// Reads one attribute, its name looked up in `cp`.
fn read_attribute(reader: &mut ClassReader, cp: &ConstantPool) -> (r: Result<
    Attribute,
    ClassFormatError,
>)
    ensures
        final(reader).bytes() == old(reader).bytes(),
        old(reader).pos() <= final(reader).pos() <= final(reader).bytes().len(),
        match sp_attribute(old(reader).bytes(), old(reader).pos(), cp@) {
            Ok((v, q)) => r is Ok && r->Ok_0@ == v && final(reader).pos() == q,
            Err(e) => r == Err::<Attribute, _>(e),
        },
    decreases old(reader).bytes().len() - old(reader).pos(), 0int,
{
    let attribute_name_idx = reader.read_u16()?;
    let _attribute_len = reader.read_u32()?;
    let name = match cp.get_utf8(attribute_name_idx) {
        Ok(name) => name,
        Err(_) => {
            return Err(ClassFormatError::InvalidConstantPoolEntry { index: attribute_name_idx });
        },
    };
    if name == owned("ConstantValue") {
        let constantvalue_index = reader.read_u16()?;
        Ok(Attribute::ConstantValue { constantvalue_index })
    } else if name == owned("Code") {
        let max_stack = reader.read_u16()?;
        let max_locals = reader.read_u16()?;
        let code_length = reader.read_u32()?;
        let code = reader.read_bytes(code_length as usize)?;
        let exception_table_length = reader.read_u16()?;
        let exception_table = read_exception_table(reader, exception_table_length)?;
        let attributes_count = reader.read_u16()?;
        let attributes = read_attribute_list(reader, cp, attributes_count)?;
        let r = Attribute::Code { max_stack, max_locals, code, exception_table, attributes };
        Ok(r)
    } else if name == owned("LineNumberTable") {
        let lnt_len = reader.read_u16()?;
        let entries = read_line_table(reader, lnt_len)?;
        Ok(Attribute::LineNumberTable { entries })
    } else if name == owned("SourceFile") {
        let sourcefile_idx = reader.read_u16()?;
        Ok(Attribute::SourceFile { sourcefile_idx })
    } else {
        Err(ClassFormatError::UnknownAttribute { name_index: attribute_name_idx })
    }
}

impl Attribute {
    /// Reads one attribute; its name is looked up in the constant pool of
    /// `class_file`, and only `ConstantValue`, `Code`, `LineNumberTable` and
    /// `SourceFile` are understood.
    pub fn read(reader: &mut ClassReader, class_file: &ClassFile) -> (r: Result<
        Self,
        ClassFormatError,
    >)
        ensures
            final(reader).bytes() == old(reader).bytes(),
            old(reader).pos() <= final(reader).pos() <= final(reader).bytes().len(),
            match sp_attribute(old(reader).bytes(), old(reader).pos(), class_file.constant_pool@) {
                Ok((v, q)) => r is Ok && r->Ok_0@ == v && final(reader).pos() == q,
                Err(e) => r == Err::<Self, _>(e),
            },
    {
        read_attribute(reader, &class_file.constant_pool)
    }
}

/// An attribute kept as its name index and raw bytes.
#[derive(Debug, Clone)]
pub struct AttributeInfo {
    pub attribute_name_index: u16,
    pub info: Vec<u8>,
}

/// The meaning of a raw attribute at `p`.
pub open spec fn sp_attribute_info(b: Seq<u8>, p: int) -> PRes<(u16, Seq<u8>)> {
    match sp_u16(b, p) {
        Err(e) => Err(e),
        Ok((ni, q1)) => match sp_u32(b, q1) {
            Err(e) => Err(e),
            Ok((len, q2)) => match sp_bytes(b, q2, len as int) {
                Err(e) => Err(e),
                Ok((info, q3)) => Ok(((ni, info), q3)),
            },
        },
    }
}

/// `sp_attribute_info` as a value.
pub open spec fn attribute_info_item() -> spec_fn(Seq<u8>, int) -> PRes<(u16, Seq<u8>)> {
    |b: Seq<u8>, p: int| sp_attribute_info(b, p)
}

impl AttributeInfo {
    /// Reads the name index, the length and that many bytes.
    pub fn read(reader: &mut ClassReader) -> (r: Result<Self, ClassFormatError>)
        ensures
            final(reader).bytes() == old(reader).bytes(),
            old(reader).pos() <= final(reader).pos() <= final(reader).bytes().len(),
            match sp_attribute_info(old(reader).bytes(), old(reader).pos()) {
                Ok((v, q)) => r is Ok && r->Ok_0.attribute_name_index == v.0 && r->Ok_0.info@
                    == v.1 && final(reader).pos() == q,
                Err(e) => r == Err::<Self, _>(e),
            },
    {
        let attribute_name_index = reader.read_u16()?;
        let len = reader.read_u32()?;
        let info = reader.read_bytes(len as usize)?;
        Ok(Self { attribute_name_index, info })
    }
}

} // verus!
