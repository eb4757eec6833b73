use vstd::prelude::*;

use crate::class::attributes::{Attribute, AttributeModel, ExceptionTableEntry};
use crate::class::constant_pool::{ConstantPool, CpEntry, cp_class_name, cp_utf8, is_cp_error};
use crate::class::method::{MethodAccessFlags, MethodInfo, MethodModel};
use crate::error::{InternalError, RuntimeError};
use crate::vm::descriptor::{FieldKind, param_kinds, spec_param_kinds};
use crate::vm::runtime_class::ClassRef;

verus! {

/// An exception handler of a method, with the name of the class it catches
/// (`None` catches everything, as a `finally` block does).
pub struct RuntimeExceptionHandler {
    pub start_pc: u16,
    pub end_pc: u16,
    pub handler_pc: u16,
    pub catch_class: Option<String>,
}

/// A `RuntimeExceptionHandler` as plain values.
pub type HandlerModel = (u16, u16, u16, Option<Seq<char>>);

impl View for RuntimeExceptionHandler {
    type V = HandlerModel;

    open spec fn view(&self) -> HandlerModel {
        (
            self.start_pc,
            self.end_pc,
            self.handler_pc,
            match self.catch_class {
                Some(s) => Some(s@),
                None => None,
            },
        )
    }
}

/// What runs when a method is invoked.
pub enum MethodBody {
    Bytecode(Vec<u8>),
    Native,
    Abstract,
    Unknown,
}

/// A `MethodBody` with its code as a sequence.
pub enum BodyModel {
    Bytecode(Seq<u8>),
    Native,
    Abstract,
    Unknown,
}

impl View for MethodBody {
    type V = BodyModel;

    open spec fn view(&self) -> BodyModel {
        match self {
            MethodBody::Bytecode(c) => BodyModel::Bytecode(c@),
            MethodBody::Native => BodyModel::Native,
            MethodBody::Abstract => BodyModel::Abstract,
            MethodBody::Unknown => BodyModel::Unknown,
        }
    }
}

/// A method of a loaded class.
pub struct RuntimeMethod {
    pub name: String,
    pub descriptor: String,
    pub class: ClassRef,
    pub access: MethodAccessFlags,
    pub max_stack: usize,
    pub max_locals: usize,
    pub body: MethodBody,
    pub exception_handlers: Vec<RuntimeExceptionHandler>,
}

/// A `RuntimeMethod` as plain values.
pub struct MethodView {
    pub name: Seq<char>,
    pub descriptor: Seq<char>,
    pub class: ClassRef,
    pub access: u16,
    pub max_stack: nat,
    pub max_locals: nat,
    pub body: BodyModel,
    pub handlers: Seq<HandlerModel>,
}

impl View for RuntimeMethod {
    type V = MethodView;

    open spec fn view(&self) -> MethodView {
        MethodView {
            name: self.name@,
            descriptor: self.descriptor@,
            class: self.class,
            access: self.access.bits,
            max_stack: self.max_stack as nat,
            max_locals: self.max_locals as nat,
            body: self.body@,
            handlers: self.exception_handlers@.map_values(|h: RuntimeExceptionHandler| h@),
        }
    }
}

/// The last `Code` attribute among the first `n` of `attrs`, as
/// `(max_stack, max_locals, code)`.
pub open spec fn last_code(attrs: Seq<AttributeModel>, n: nat) -> Option<(u16, u16, Seq<u8>)>
    decreases n,
{
    if n == 0 {
        None
    } else {
        match attrs[n - 1] {
            AttributeModel::Code { max_stack, max_locals, code, .. } => Some(
                (max_stack, max_locals, code),
            ),
            _ => last_code(attrs, (n - 1) as nat),
        }
    }
}

/// The handler that an exception table entry becomes: catch type 0 catches
/// everything, any other names a class through `cp`.
pub open spec fn handler_of(cp: Seq<CpEntry>, e: ExceptionTableEntry) -> Result<HandlerModel, u16> {
    if e.catch_type == 0 {
        Ok((e.start_pc, e.end_pc, e.handler_pc, None))
    } else {
        match cp_class_name(cp, e.catch_type as int) {
            Ok(n) => Ok((e.start_pc, e.end_pc, e.handler_pc, Some(n))),
            Err(i) => Err(i),
        }
    }
}

/// The handlers of the first `n` entries of one exception table.
pub open spec fn table_handlers(cp: Seq<CpEntry>, t: Seq<ExceptionTableEntry>, n: nat) -> Result<
    Seq<HandlerModel>,
    u16,
>
    decreases n,
{
    if n == 0 {
        Ok(Seq::empty())
    } else {
        match table_handlers(cp, t, (n - 1) as nat) {
            Err(i) => Err(i),
            Ok(hs) => match handler_of(cp, t[n - 1]) {
                Ok(h) => Ok(hs.push(h)),
                Err(i) => Err(i),
            },
        }
    }
}

/// The handlers of every `Code` attribute among the first `n` of `attrs`, in
/// order.
pub open spec fn code_handlers(cp: Seq<CpEntry>, attrs: Seq<AttributeModel>, n: nat) -> Result<
    Seq<HandlerModel>,
    u16,
>
    decreases n,
{
    if n == 0 {
        Ok(Seq::empty())
    } else {
        match code_handlers(cp, attrs, (n - 1) as nat) {
            Err(i) => Err(i),
            Ok(hs) => match attrs[n - 1] {
                AttributeModel::Code { exception_table, .. } => match table_handlers(
                    cp,
                    exception_table,
                    exception_table.len(),
                ) {
                    Ok(more) => Ok(hs + more),
                    Err(i) => Err(i),
                },
                _ => Ok(hs),
            },
        }
    }
}

/// How a method that comes from `m` runs: its last `Code` attribute, or else
/// `Native` or `Abstract` after its flags; `None` where it has neither.
pub open spec fn body_of(m: MethodModel) -> Option<(nat, nat, BodyModel)> {
    match last_code(m.attributes, m.attributes.len()) {
        Some((s, l, c)) => Some((s as nat, l as nat, BodyModel::Bytecode(c))),
        None => if m.access_flags & 0x0100 == 0x0100 {
            Some((0, 0, BodyModel::Native))
        } else if m.access_flags & 0x0400 == 0x0400 {
            Some((0, 0, BodyModel::Abstract))
        } else {
            None
        },
    }
}

/// Whether `r` is the error for a method named `name` that has no code.
pub open spec fn is_no_code_error(r: RuntimeError, name: Seq<char>) -> bool {
    r matches RuntimeError::Internal(InternalError::NoCodeInMethod { method }) && method@ == name
}

/// The number of slots taken by values of `kinds`.
pub open spec fn slots_of(kinds: Seq<FieldKind>) -> nat
    decreases kinds.len(),
{
    if kinds.len() == 0 {
        0
    } else {
        slots_of(kinds.drop_last()) + kind_width(kinds.last())
    }
}

/// The number of slots taken by a value of kind `k`.
pub open spec fn kind_width(k: FieldKind) -> nat {
    if k == FieldKind::Long || k == FieldKind::Double {
        2
    } else {
        1
    }
}

/// The error for a descriptor that cannot be parsed or whose parameters
/// take more slots than a `usize` counts.
pub open spec fn is_descriptor_error(r: RuntimeError) -> bool {
    r matches RuntimeError::Internal(InternalError::InvalidDescriptor)
}

fn copy_bytes(v: &Vec<u8>) -> (r: Vec<u8>)
    ensures
        r@ == v@,
{
    let mut out: Vec<u8> = Vec::with_capacity(v.len());
    let mut i: usize = 0;
    while i < v.len()
        invariant
            i <= v@.len(),
            out@ == v@.subrange(0, i as int),
        decreases v@.len() - i,
    {
        out.push(v[i]);
        i = i + 1;
    }
    proof {
        assert(out@ =~= v@);
    }
    out
}

/// Appends the handlers of `table` to `out`.
fn push_handlers(
    out: &mut Vec<RuntimeExceptionHandler>,
    table: &Vec<ExceptionTableEntry>,
    cp: &ConstantPool,
) -> (r: Result<(), RuntimeError>)
    ensures
        match table_handlers(cp@, table@, table@.len()) {
            Ok(hs) => r is Ok && final(out)@.map_values(|h: RuntimeExceptionHandler| h@)
                == old(out)@.map_values(|h: RuntimeExceptionHandler| h@) + hs,
            Err(i) => r is Err && is_cp_error(r->Err_0, i),
        },
{
    let ghost start = old(out)@.map_values(|h: RuntimeExceptionHandler| h@);
    let mut j: usize = 0;
    proof {
        assert(start + Seq::<HandlerModel>::empty() =~= start);
    }
    while j < table.len()
        invariant
            j <= table@.len(),
            start == old(out)@.map_values(|h: RuntimeExceptionHandler| h@),
            table_handlers(cp@, table@, j as nat) is Ok,
            out@.map_values(|h: RuntimeExceptionHandler| h@) == start + table_handlers(
                cp@,
                table@,
                j as nat,
            )->Ok_0,
        decreases table@.len() - j,
    {
        let e = table[j];
        let catch_class = if e.catch_type == 0 {
            None
        } else {
            match cp.get_class_name(e.catch_type) {
                Ok(n) => Some(n),
                Err(err) => {
                    proof {
                        lemma_table_err_persists(cp@, table@, (j + 1) as nat, table@.len());
                    }
                    return Err(err);
                },
            }
        };
        let h = RuntimeExceptionHandler {
            start_pc: e.start_pc,
            end_pc: e.end_pc,
            handler_pc: e.handler_pc,
            catch_class,
        };
        let ghost before = out@;
        out.push(h);
        proof {
            assert(out@.map_values(|h: RuntimeExceptionHandler| h@) =~= before.map_values(
                |h: RuntimeExceptionHandler| h@,
            ).push(h@));
            assert(table_handlers(cp@, table@, (j + 1) as nat)->Ok_0 =~= table_handlers(
                cp@,
                table@,
                j as nat,
            )->Ok_0.push(h@));
        }
        j = j + 1;
    }
    Ok(())
}

/// Once the handlers of `k` table entries fail, those of more fail the same way.
proof fn lemma_table_err_persists(cp: Seq<CpEntry>, t: Seq<ExceptionTableEntry>, k: nat, m: nat)
    requires
        k <= m,
        table_handlers(cp, t, k) is Err,
    ensures
        table_handlers(cp, t, m) == table_handlers(cp, t, k),
    decreases m - k,
{
    if k < m {
        lemma_table_err_persists(cp, t, k, (m - 1) as nat);
    }
}

/// Once the handlers of `k` attributes fail, those of more fail the same way.
proof fn lemma_code_err_persists(cp: Seq<CpEntry>, a: Seq<AttributeModel>, k: nat, m: nat)
    requires
        k <= m,
        code_handlers(cp, a, k) is Err,
    ensures
        code_handlers(cp, a, m) == code_handlers(cp, a, k),
    decreases m - k,
{
    if k < m {
        lemma_code_err_persists(cp, a, k, (m - 1) as nat);
    }
}

impl RuntimeMethod {
    /// The method that `method` of the class named `class_name` becomes
    /// once loaded as class `class`: names looked up in `constant_pool`,
    /// body and limits from the last `Code` attribute (or `Native` or
    /// `Abstract` after its flags), exception handlers from all `Code`
    /// attributes in order.
    pub fn from_method_info(
        method: &MethodInfo,
        class: ClassRef,
        constant_pool: &ConstantPool,
        class_name: &str,
    ) -> (r: Result<Self, RuntimeError>)
        ensures
            ({
                let m = method@;
                let cp = constant_pool@;
                match cp_utf8(cp, m.name_index as int) {
                    Err(i) => r is Err && is_cp_error(r->Err_0, i),
                    Ok(name) => match cp_utf8(cp, m.descriptor_index as int) {
                        Err(i) => r is Err && is_cp_error(r->Err_0, i),
                        Ok(d) => match body_of(m) {
                            None => r is Err && is_no_code_error(r->Err_0, name),
                            Some((s, l, b)) => match code_handlers(
                                cp,
                                m.attributes,
                                m.attributes.len(),
                            ) {
                                Err(i) => r is Err && is_cp_error(r->Err_0, i),
                                Ok(hs) => r is Ok && r->Ok_0@ == MethodView {
                                    name,
                                    descriptor: d,
                                    class,
                                    access: m.access_flags,
                                    max_stack: s,
                                    max_locals: l,
                                    body: b,
                                    handlers: hs,
                                },
                            },
                        },
                    },
                }
            }),
    {
        let method_str = constant_pool.get_utf8(method.name_index)?;
        let descriptor = constant_pool.get_utf8(method.descriptor_index)?;
        let ghost attrs = method@.attributes;
        let mut max_stack: usize = 0;
        let mut max_locals: usize = 0;
        let mut body = MethodBody::Unknown;
        let mut found_code_attribute = false;
        let mut i: usize = 0;
        while i < method.attributes.len()
            invariant
                attrs == method@.attributes,
                attrs == method.attributes@.map_values(|a: Attribute| a@),
                i <= method.attributes@.len(),
                found_code_attribute == last_code(attrs, i as nat) is Some,
                !found_code_attribute ==> max_stack == 0 && max_locals == 0,
                found_code_attribute ==> ({
                    let (s, l, c) = last_code(attrs, i as nat)->Some_0;
                    max_stack == s && max_locals == l && body@ == BodyModel::Bytecode(c)
                }),
            decreases method.attributes@.len() - i,
        {
            proof {
                assert(attrs[i as int] == method.attributes@[i as int]@);
            }
            match &method.attributes[i] {
                Attribute::Code { max_stack: stack, max_locals: locals, code, .. } => {
                    max_stack = *stack as usize;
                    max_locals = *locals as usize;
                    body = MethodBody::Bytecode(copy_bytes(code));
                    found_code_attribute = true;
                },
                _ => {},
            }
            i = i + 1;
        }
        proof {
            assert(attrs.len() == method.attributes@.len());
        }
        if !found_code_attribute {
            if method.access_flags.contains(MethodAccessFlags::NATIVE) {
                body = MethodBody::Native;
            } else if method.access_flags.contains(MethodAccessFlags::ABSTRACT) {
                body = MethodBody::Abstract;
            } else {
                return Err(
                    RuntimeError::Internal(InternalError::NoCodeInMethod { method: method_str }),
                );
            }
        }
        let mut exception_handlers: Vec<RuntimeExceptionHandler> = Vec::new();
        let mut k: usize = 0;
        proof {
            assert(exception_handlers@.map_values(|h: RuntimeExceptionHandler| h@) =~= Seq::<
                HandlerModel,
            >::empty());
        }
        while k < method.attributes.len()
            invariant
                attrs == method.attributes@.map_values(|a: Attribute| a@),
                attrs == method@.attributes,
                cp_utf8(constant_pool@, method@.name_index as int) == Ok::<Seq<char>, u16>(
                    method_str@,
                ),
                cp_utf8(constant_pool@, method@.descriptor_index as int) == Ok::<Seq<char>, u16>(
                    descriptor@,
                ),
                body_of(method@) == Some((max_stack as nat, max_locals as nat, body@)),
                k <= method.attributes@.len(),
                code_handlers(constant_pool@, attrs, k as nat) is Ok,
                exception_handlers@.map_values(|h: RuntimeExceptionHandler| h@) == code_handlers(
                    constant_pool@,
                    attrs,
                    k as nat,
                )->Ok_0,
            decreases method.attributes@.len() - k,
        {
            proof {
                assert(attrs[k as int] == method.attributes@[k as int]@);
            }
            match &method.attributes[k] {
                Attribute::Code { exception_table, .. } => {
                    match push_handlers(&mut exception_handlers, exception_table, constant_pool) {
                        Ok(()) => {},
                        Err(e) => {
                            proof {
                                lemma_code_err_persists(
                                    constant_pool@,
                                    attrs,
                                    (k + 1) as nat,
                                    attrs.len(),
                                );
                            }
                            return Err(e);
                        },
                    }
                },
                _ => {},
            }
            k = k + 1;
        }
        Ok(
            Self {
                name: method_str,
                descriptor,
                class,
                access: method.access_flags,
                max_stack,
                max_locals,
                body,
                exception_handlers,
            },
        )
    }

    /// The number of local variable slots that the parameters of a method
    /// of descriptor `descriptor` take: two for each `long` and `double`,
    /// one for the others.
    pub fn param_slot_count_from_descriptor(descriptor: &str) -> (r: Result<usize, RuntimeError>)
        ensures
            match spec_param_kinds(descriptor@) {
                Some(ks) => if slots_of(ks) <= usize::MAX {
                    r == Ok::<usize, RuntimeError>(slots_of(ks) as usize)
                } else {
                    r is Err && is_descriptor_error(r->Err_0)
                },
                None => r is Err && is_descriptor_error(r->Err_0),
            },
    {
        let kinds = match param_kinds(descriptor) {
            Some(k) => k,
            None => {
                return Err(RuntimeError::Internal(InternalError::InvalidDescriptor));
            },
        };
        let mut total: usize = 0;
        let mut i: usize = 0;
        while i < kinds.len()
            invariant
                kinds@ == spec_param_kinds(descriptor@)->Some_0,
                i <= kinds@.len(),
                total == slots_of(kinds@.subrange(0, i as int)),
            decreases kinds@.len() - i,
        {
            proof {
                assert(kinds@.subrange(0, i + 1).drop_last() =~= kinds@.subrange(0, i as int));
            }
            let w: usize = match kinds[i] {
                FieldKind::Long | FieldKind::Double => 2,
                _ => 1,
            };
            proof {
                assert(kinds@.subrange(0, i + 1).last() == kinds@[i as int]);
                assert(slots_of(kinds@.subrange(0, i + 1)) == total + w);
            }
            if total > usize::MAX - w {
                proof {
                    lemma_slots_monotone(kinds@, (i + 1) as nat, kinds@.len());
                    assert(kinds@.subrange(0, kinds@.len() as int) =~= kinds@);
                }
                return Err(RuntimeError::Internal(InternalError::InvalidDescriptor));
            }
            total = total + w;
            i = i + 1;
        }
        proof {
            assert(kinds@.subrange(0, kinds@.len() as int) =~= kinds@);
        }
        Ok(total)
    }

    /// The number of local variable slots that the parameters of this
    /// method take.
    pub fn param_slot_count(&self) -> (r: usize)
        requires
            spec_param_kinds(self.descriptor@) is Some,
            slots_of(spec_param_kinds(self.descriptor@)->Some_0) <= usize::MAX,
        ensures
            r == slots_of(spec_param_kinds(self.descriptor@)->Some_0),
    {
        match Self::param_slot_count_from_descriptor(self.descriptor.as_str()) {
            Ok(n) => n,
            Err(_) => 0,
        }
    }

    /// The number of local variable slots that the arguments of a call take,
    /// the receiver of an instance method included.
    pub fn param_slot_count_with_receiver(&self) -> (r: usize)
        requires
            spec_param_kinds(self.descriptor@) is Some,
            slots_of(spec_param_kinds(self.descriptor@)->Some_0) < usize::MAX,
        ensures
            r == slots_of(spec_param_kinds(self.descriptor@)->Some_0) + if self.access.bits
                & 0x0008 == 0x0008 {
                0nat
            } else {
                1nat
            },
    {
        let n = self.param_slot_count();
        if self.access.contains(MethodAccessFlags::STATIC) {
            n
        } else {
            n + 1
        }
    }
}

/// Taking more parameters never takes fewer slots.
proof fn lemma_slots_monotone(ks: Seq<FieldKind>, a: nat, b: nat)
    requires
        a <= b <= ks.len(),
    ensures
        slots_of(ks.subrange(0, a as int)) <= slots_of(ks.subrange(0, b as int)),
    decreases b - a,
{
    if a < b {
        lemma_slots_monotone(ks, a, (b - 1) as nat);
        assert(ks.subrange(0, b as int).drop_last() =~= ks.subrange(0, b - 1));
    }
}

} // verus!
