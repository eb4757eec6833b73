use vstd::prelude::*;

use crate::class::error::ClassFormatError;
use crate::class::reader::{ClassReader, PRes, sp_many, sp_u16, sp_u8, lemma_many_err_persists};

verus! {

/// One `verification_type_info` of a `StackMapTable` frame.
#[derive(Debug, Clone, Copy, PartialEq, Eq)]
pub enum VerificationTypeInfo {
    Top,
    Integer,
    Float,
    Double,
    Long,
    Null,
    UninitializedThis,
    Object { cpool_index: u16 },
    Uninitialized { offset: u16 },
}

/// The meaning of a `verification_type_info` at byte offset `p`.
pub open spec fn sp_vtype(b: Seq<u8>, p: int) -> PRes<VerificationTypeInfo> {
    match sp_u8(b, p) {
        Err(e) => Err(e),
        Ok((tag, q)) => if tag == 0 {
            Ok((VerificationTypeInfo::Top, q))
        } else if tag == 1 {
            Ok((VerificationTypeInfo::Integer, q))
        } else if tag == 2 {
            Ok((VerificationTypeInfo::Float, q))
        } else if tag == 3 {
            Ok((VerificationTypeInfo::Double, q))
        } else if tag == 4 {
            Ok((VerificationTypeInfo::Long, q))
        } else if tag == 5 {
            Ok((VerificationTypeInfo::Null, q))
        } else if tag == 6 {
            Ok((VerificationTypeInfo::UninitializedThis, q))
        } else if tag == 7 {
            match sp_u16(b, q) {
                Ok((i, r)) => Ok((VerificationTypeInfo::Object { cpool_index: i }, r)),
                Err(e) => Err(e),
            }
        } else if tag == 8 {
            match sp_u16(b, q) {
                Ok((i, r)) => Ok((VerificationTypeInfo::Uninitialized { offset: i }, r)),
                Err(e) => Err(e),
            }
        } else {
            Err(ClassFormatError::UnknownVerificationType { tag })
        },
    }
}

/// `sp_vtype` as a value, for reading lists of them.
pub open spec fn vtype_item() -> spec_fn(Seq<u8>, int) -> PRes<VerificationTypeInfo> {
    |b: Seq<u8>, p: int| sp_vtype(b, p)
}

impl VerificationTypeInfo {
    /// Reads one `verification_type_info`.
    pub fn read(reader: &mut ClassReader) -> (r: Result<Self, ClassFormatError>)
        ensures
            final(reader).bytes() == old(reader).bytes(),
            match sp_vtype(old(reader).bytes(), old(reader).pos()) {
                Ok((v, q)) => r == Ok::<Self, ClassFormatError>(v) && final(reader).pos() == q,
                Err(e) => r == Err::<Self, _>(e),
            },
    {
        let tag = reader.read_u8()?;
        match tag {
            0 => Ok(Self::Top),
            1 => Ok(Self::Integer),
            2 => Ok(Self::Float),
            3 => Ok(Self::Double),
            4 => Ok(Self::Long),
            5 => Ok(Self::Null),
            6 => Ok(Self::UninitializedThis),
            7 => {
                let cpool_index = reader.read_u16()?;
                Ok(Self::Object { cpool_index })
            },
            8 => {
                let offset = reader.read_u16()?;
                Ok(Self::Uninitialized { offset })
            },
            _ => Err(ClassFormatError::UnknownVerificationType { tag }),
        }
    }
}

/// Reads `count` `verification_type_info`s in a row.
fn read_vtypes(reader: &mut ClassReader, count: usize) -> (r: Result<
    Vec<VerificationTypeInfo>,
    ClassFormatError,
>)
    ensures
        final(reader).bytes() == old(reader).bytes(),
        match sp_many(vtype_item(), old(reader).bytes(), old(reader).pos(), count as nat) {
            Ok((v, q)) => r is Ok && r->Ok_0@ == v && final(reader).pos() == q,
            Err(e) => r == Err::<Vec<VerificationTypeInfo>, _>(e),
        },
{
    let ghost b = reader.bytes();
    let ghost p0 = reader.pos();
    let mut out: Vec<VerificationTypeInfo> = Vec::with_capacity(count);
    let mut i: usize = 0;
    while i < count
        invariant
            reader.bytes() == b,
            b == old(reader).bytes(),
            p0 == old(reader).pos(),
            i <= count,
            sp_many(vtype_item(), b, p0, i as nat) == PRes::<Seq<VerificationTypeInfo>>::Ok(
                (out@, reader.pos()),
            ),
        decreases count - i,
    {
        match VerificationTypeInfo::read(reader) {
            Ok(v) => {
                out.push(v);
                i = i + 1;
            },
            Err(e) => {
                proof {
                    lemma_many_err_persists(vtype_item(), b, p0, (i + 1) as nat, count as nat);
                }
                return Err(e);
            },
        }
    }
    Ok(out)
}

/// One frame of a `StackMapTable` attribute.
#[derive(Debug, Clone)]
pub enum StackMapFrame {
    SameFrame { offset_delta: u16 },
    SameLocals1StackItemFrame { offset_delta: u16, stack: VerificationTypeInfo },
    SameLocals1StackItemFrameExtended { offset_delta: u16, stack: VerificationTypeInfo },
    ChopFrame { offset_delta: u16, chopped_locals: u8 },
    SameFrameExtended { offset_delta: u16 },
    AppendFrame { offset_delta: u16, locals: Vec<VerificationTypeInfo> },
    FullFrame {
        offset_delta: u16,
        locals: Vec<VerificationTypeInfo>,
        stack: Vec<VerificationTypeInfo>,
    },
}

/// A `StackMapFrame` with its lists as sequences.
pub enum StackMapFrameModel {
    SameFrame { offset_delta: u16 },
    SameLocals1StackItemFrame { offset_delta: u16, stack: VerificationTypeInfo },
    SameLocals1StackItemFrameExtended { offset_delta: u16, stack: VerificationTypeInfo },
    ChopFrame { offset_delta: u16, chopped_locals: u8 },
    SameFrameExtended { offset_delta: u16 },
    AppendFrame { offset_delta: u16, locals: Seq<VerificationTypeInfo> },
    FullFrame {
        offset_delta: u16,
        locals: Seq<VerificationTypeInfo>,
        stack: Seq<VerificationTypeInfo>,
    },
}

impl View for StackMapFrame {
    type V = StackMapFrameModel;

    open spec fn view(&self) -> StackMapFrameModel {
        match self {
            StackMapFrame::SameFrame { offset_delta } => StackMapFrameModel::SameFrame {
                offset_delta: *offset_delta,
            },
            StackMapFrame::SameLocals1StackItemFrame {
                offset_delta,
                stack,
            } => StackMapFrameModel::SameLocals1StackItemFrame {
                offset_delta: *offset_delta,
                stack: *stack,
            },
            StackMapFrame::SameLocals1StackItemFrameExtended {
                offset_delta,
                stack,
            } => StackMapFrameModel::SameLocals1StackItemFrameExtended {
                offset_delta: *offset_delta,
                stack: *stack,
            },
            StackMapFrame::ChopFrame { offset_delta, chopped_locals } =>
                StackMapFrameModel::ChopFrame {
                    offset_delta: *offset_delta,
                    chopped_locals: *chopped_locals,
                },
            StackMapFrame::SameFrameExtended { offset_delta } =>
                StackMapFrameModel::SameFrameExtended { offset_delta: *offset_delta },
            StackMapFrame::AppendFrame { offset_delta, locals } =>
                StackMapFrameModel::AppendFrame { offset_delta: *offset_delta, locals: locals@ },
            StackMapFrame::FullFrame { offset_delta, locals, stack } =>
                StackMapFrameModel::FullFrame {
                    offset_delta: *offset_delta,
                    locals: locals@,
                    stack: stack@,
                },
        }
    }
}

/// The meaning of a `stack_map_frame` at byte offset `p`.
pub open spec fn sp_stack_map_frame(b: Seq<u8>, p: int) -> PRes<StackMapFrameModel> {
    match sp_u8(b, p) {
        Err(e) => Err(e),
        Ok((ft, q)) => if ft <= 63 {
            Ok((StackMapFrameModel::SameFrame { offset_delta: ft as u16 }, q))
        } else if ft <= 127 {
            match sp_vtype(b, q) {
                Ok((s, r)) => Ok(
                    (
                        StackMapFrameModel::SameLocals1StackItemFrame {
                            offset_delta: (ft - 64) as u16,
                            stack: s,
                        },
                        r,
                    ),
                ),
                Err(e) => Err(e),
            }
        } else if ft <= 246 {
            Err(ClassFormatError::ReservedFrameType { frame_type: ft })
        } else {
            match sp_u16(b, q) {
                Err(e) => Err(e),
                Ok((d, r)) => if ft == 247 {
                    match sp_vtype(b, r) {
                        Ok((s, t)) => Ok(
                            (
                                StackMapFrameModel::SameLocals1StackItemFrameExtended {
                                    offset_delta: d,
                                    stack: s,
                                },
                                t,
                            ),
                        ),
                        Err(e) => Err(e),
                    }
                } else if ft <= 250 {
                    Ok(
                        (
                            StackMapFrameModel::ChopFrame {
                                offset_delta: d,
                                chopped_locals: (251 - ft) as u8,
                            },
                            r,
                        ),
                    )
                } else if ft == 251 {
                    Ok((StackMapFrameModel::SameFrameExtended { offset_delta: d }, r))
                } else if ft <= 254 {
                    match sp_many(vtype_item(), b, r, (ft - 251) as nat) {
                        Ok((ls, t)) => Ok(
                            (StackMapFrameModel::AppendFrame { offset_delta: d, locals: ls }, t),
                        ),
                        Err(e) => Err(e),
                    }
                } else {
                    match sp_u16(b, r) {
                        Err(e) => Err(e),
                        Ok((nl, s1)) => match sp_many(vtype_item(), b, s1, nl as nat) {
                            Err(e) => Err(e),
                            Ok((ls, s2)) => match sp_u16(b, s2) {
                                Err(e) => Err(e),
                                Ok((ns, s3)) => match sp_many(vtype_item(), b, s3, ns as nat) {
                                    Err(e) => Err(e),
                                    Ok((st, s4)) => Ok(
                                        (
                                            StackMapFrameModel::FullFrame {
                                                offset_delta: d,
                                                locals: ls,
                                                stack: st,
                                            },
                                            s4,
                                        ),
                                    ),
                                },
                            },
                        },
                    }
                }
            }
        },
    }
}

impl StackMapFrame {
    /// Reads one `stack_map_frame`.
    pub fn read(reader: &mut ClassReader) -> (r: Result<Self, ClassFormatError>)
        ensures
            final(reader).bytes() == old(reader).bytes(),
            match sp_stack_map_frame(old(reader).bytes(), old(reader).pos()) {
                Ok((v, q)) => r is Ok && r->Ok_0@ == v && final(reader).pos() == q,
                Err(e) => r == Err::<Self, _>(e),
            },
    {
        let frame_type = reader.read_u8()?;
        if frame_type <= 63 {
            Ok(Self::SameFrame { offset_delta: frame_type as u16 })
        } else if frame_type <= 127 {
            let stack = VerificationTypeInfo::read(reader)?;
            Ok(Self::SameLocals1StackItemFrame { offset_delta: (frame_type - 64) as u16, stack })
        } else if frame_type <= 246 {
            Err(ClassFormatError::ReservedFrameType { frame_type })
        } else {
            let offset_delta = reader.read_u16()?;
            if frame_type == 247 {
                let stack = VerificationTypeInfo::read(reader)?;
                Ok(Self::SameLocals1StackItemFrameExtended { offset_delta, stack })
            } else if frame_type <= 250 {
                Ok(Self::ChopFrame { offset_delta, chopped_locals: 251 - frame_type })
            } else if frame_type == 251 {
                Ok(Self::SameFrameExtended { offset_delta })
            } else if frame_type <= 254 {
                let locals = read_vtypes(reader, (frame_type - 251) as usize)?;
                Ok(Self::AppendFrame { offset_delta, locals })
            } else {
                let locals_count = reader.read_u16()?;
                let locals = read_vtypes(reader, locals_count as usize)?;
                let stack_count = reader.read_u16()?;
                let stack = read_vtypes(reader, stack_count as usize)?;
                Ok(Self::FullFrame { offset_delta, locals, stack })
            }
        }
    }
}

} // verus!
