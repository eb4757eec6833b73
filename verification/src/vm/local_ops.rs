use vstd::prelude::*;

use crate::error::{InternalError, RuntimeError};
use crate::text::owned;
use crate::vm::decode::{Instruction, branch_target, index_u16, offset_i16, operand_i16, target_of};
use crate::vm::float::{FloatArithmetic, FloatOrdering, compare_float_bits, compare_result, float_order, spec_compare_result};
use crate::vm::frame::{Frame, stack_pop, stack_push};
use crate::vm::opcode::Opcode;
use crate::vm::value::{Value, kind_text};

verus! {

/// A frame as plain values: locals, operand stack and pc.
pub struct FrameModel {
    pub locals: Seq<Value>,
    pub stack: Seq<Value>,
    pub pc: usize,
}

impl Frame {
    /// The locals, operand stack and pc of this frame.
    pub open spec fn model(&self) -> FrameModel {
        FrameModel { locals: self.locals@, stack: self.operand_stack@, pc: self.pc }
    }
}

/// Why an instruction that works on its frame alone failed.
pub enum LocalError {
    /// The operand stack has too few values.
    Underflow,
    /// A value of the wrong kind.
    BadType,
    /// A local variable index out of range.
    NoLocal(usize),
}

/// What an instruction that works on its frame alone does: the frame it
/// leaves, or the error (with the frame as it was left), or the exception
/// it throws (class name and message).
pub enum LocalResult {
    Next(FrameModel),
    Fail(LocalError, FrameModel),
    Throw(Seq<char>, Seq<char>, FrameModel),
}

/// `f` with `v` pushed.
pub open spec fn pushed(f: FrameModel, v: Value) -> FrameModel {
    FrameModel { stack: stack_push(f.stack, v), ..f }
}

/// The top value of `f` and `f` without it.
pub open spec fn popped(f: FrameModel) -> Option<(Value, FrameModel)> {
    if f.stack.len() == 0 {
        None
    } else {
        Some((f.stack.last(), FrameModel { stack: stack_pop(f.stack), ..f }))
    }
}

/// Pushes local `idx`.
pub open spec fn load_local(f: FrameModel, idx: usize) -> LocalResult {
    if idx < f.locals.len() {
        LocalResult::Next(pushed(f, f.locals[idx as int]))
    } else {
        LocalResult::Fail(LocalError::NoLocal(idx), f)
    }
}

/// Pops a value into local `idx`.
pub open spec fn store_local(f: FrameModel, idx: usize) -> LocalResult {
    match popped(f) {
        None => LocalResult::Fail(LocalError::Underflow, f),
        Some((v, g)) => if idx < g.locals.len() {
            LocalResult::Next(FrameModel { locals: g.locals.update(idx as int, v), ..g })
        } else {
            LocalResult::Fail(LocalError::NoLocal(idx), g)
        },
    }
}

/// Pops two values, both of which must be `int`s, and pushes `op` of them.
pub open spec fn int_binary(f: FrameModel, op: spec_fn(i32, i32) -> i32) -> LocalResult {
    match popped(f) {
        None => LocalResult::Fail(LocalError::Underflow, f),
        Some((v2, g)) => match popped(g) {
            None => LocalResult::Fail(LocalError::Underflow, g),
            Some((v1, h)) => match (v1, v2) {
                (Value::Int(a), Value::Int(b)) => LocalResult::Next(pushed(h, Value::Int(op(a, b)))),
                _ => LocalResult::Fail(LocalError::BadType, h),
            },
        },
    }
}

/// Pops two `int`s, each checked as it is popped, and pushes `op` of them.
pub open spec fn int_binary_checked(f: FrameModel, op: spec_fn(i32, i32) -> i32) -> LocalResult {
    match popped(f) {
        None => LocalResult::Fail(LocalError::BadType, f),
        Some((Value::Int(b), g)) => match popped(g) {
            None => LocalResult::Fail(LocalError::BadType, g),
            Some((Value::Int(a), h)) => LocalResult::Next(pushed(h, Value::Int(op(a, b)))),
            Some((_, h)) => LocalResult::Fail(LocalError::BadType, h),
        },
        Some((_, g)) => LocalResult::Fail(LocalError::BadType, g),
    }
}

/// `irem`: pops two `int`s, each checked as it is popped; a zero divisor
/// throws `ArithmeticException`.
pub open spec fn int_remainder(f: FrameModel) -> LocalResult {
    match popped(f) {
        None => LocalResult::Fail(LocalError::BadType, f),
        Some((Value::Int(b), g)) => match popped(g) {
            None => LocalResult::Fail(LocalError::BadType, g),
            Some((Value::Int(a), h)) => if b == 0 {
                LocalResult::Throw("java/lang/ArithmeticException"@, "Tried to device by 0 on `irem`"@, h)
            } else {
                LocalResult::Next(pushed(h, Value::Int(rem_i32(a, b))))
            },
            Some((_, h)) => LocalResult::Fail(LocalError::BadType, h),
        },
        Some((_, g)) => LocalResult::Fail(LocalError::BadType, g),
    }
}

/// The remainder of `a / b` truncated toward zero, as `i32::checked_rem`
/// gives it; 0 for `i32::MIN % -1`, as the JVM defines it.
pub open spec fn rem_i32(a: i32, b: i32) -> i32 {
    match a.checked_rem(b) {
        Some(v) => v,
        None => 0,
    }
}

/// Pops two `long`s (both popped first) and pushes `op` of them.
pub open spec fn long_binary(f: FrameModel, op: spec_fn(i64, i64) -> i64) -> LocalResult {
    match popped(f) {
        None => LocalResult::Fail(LocalError::Underflow, f),
        Some((v2, g)) => match popped(g) {
            None => LocalResult::Fail(LocalError::Underflow, g),
            Some((v1, h)) => match (v1, v2) {
                (Value::Long(a), Value::Long(b)) => LocalResult::Next(
                    pushed(h, Value::Long(op(a, b))),
                ),
                _ => LocalResult::Fail(LocalError::BadType, h),
            },
        },
    }
}

/// `land`: pops two `long`s, each checked as it is popped.
pub open spec fn long_and(f: FrameModel) -> LocalResult {
    match popped(f) {
        None => LocalResult::Fail(LocalError::BadType, f),
        Some((Value::Long(b), g)) => match popped(g) {
            None => LocalResult::Fail(LocalError::BadType, g),
            Some((Value::Long(a), h)) => LocalResult::Next(pushed(h, Value::Long(a & b))),
            Some((_, h)) => LocalResult::Fail(LocalError::BadType, h),
        },
        Some((_, g)) => LocalResult::Fail(LocalError::BadType, g),
    }
}

/// `lshl`: pops an `int` shift and a `long`, each checked as it is popped,
/// and pushes the `long` shifted left by the low six bits of the shift.
pub open spec fn long_shift(f: FrameModel) -> LocalResult {
    match popped(f) {
        None => LocalResult::Fail(LocalError::BadType, f),
        Some((Value::Int(s), g)) => match popped(g) {
            None => LocalResult::Fail(LocalError::BadType, g),
            Some((Value::Long(a), h)) => LocalResult::Next(
                pushed(h, Value::Long(a.wrapping_shl((s & 63) as u32))),
            ),
            Some((_, h)) => LocalResult::Fail(LocalError::BadType, h),
        },
        Some((_, g)) => LocalResult::Fail(LocalError::BadType, g),
    }
}

/// A branch on one popped `int`: to the target where `take` holds of it.
pub open spec fn branch_int(f: FrameModel, target: usize, take: spec_fn(i32) -> bool) -> LocalResult {
    match popped(f) {
        None => LocalResult::Fail(LocalError::Underflow, f),
        Some((Value::Int(v), g)) => LocalResult::Next(
            if take(v) {
                FrameModel { pc: target, ..g }
            } else {
                g
            },
        ),
        Some((_, g)) => LocalResult::Fail(LocalError::BadType, g),
    }
}

/// A branch on two popped `int`s.
pub open spec fn branch_int2(f: FrameModel, target: usize, take: spec_fn(i32, i32) -> bool) -> LocalResult {
    match popped(f) {
        None => LocalResult::Fail(LocalError::Underflow, f),
        Some((v2, g)) => match popped(g) {
            None => LocalResult::Fail(LocalError::Underflow, g),
            Some((v1, h)) => match (v1, v2) {
                (Value::Int(a), Value::Int(b)) => LocalResult::Next(
                    if take(a, b) {
                        FrameModel { pc: target, ..h }
                    } else {
                        h
                    },
                ),
                _ => LocalResult::Fail(LocalError::BadType, h),
            },
        },
    }
}

/// A branch on one popped reference: to the target where it is `null`
/// (or, with `on_null` false, where it is not).
pub open spec fn branch_ref(f: FrameModel, target: usize, on_null: bool) -> LocalResult {
    match popped(f) {
        None => LocalResult::Fail(LocalError::Underflow, f),
        Some((Value::Reference(r), g)) => LocalResult::Next(
            if (r is None) == on_null {
                FrameModel { pc: target, ..g }
            } else {
                g
            },
        ),
        Some((_, g)) => LocalResult::Fail(LocalError::BadType, g),
    }
}

/// The bits of the `float` constants 0.0, 1.0 and 2.0.
pub open spec fn float_const(k: nat) -> u32 {
    if k == 0 {
        0
    } else if k == 1 {
        0x3f80_0000
    } else {
        0x4000_0000
    }
}

/// What instruction `i` does to frame `f` (whose pc is already past `i`),
/// where it works on its frame alone; `None` for the other instructions.
pub open spec fn local_step(f: FrameModel, i: Instruction) -> Option<LocalResult> {
    let t = branch_target(i);
    match i.op {
        Opcode::AConstNull => Some(LocalResult::Next(pushed(f, Value::Reference(None)))),
        Opcode::IConst0 => Some(LocalResult::Next(pushed(f, Value::Int(0)))),
        Opcode::IConst1 => Some(LocalResult::Next(pushed(f, Value::Int(1)))),
        Opcode::IConst2 => Some(LocalResult::Next(pushed(f, Value::Int(2)))),
        Opcode::IConst3 => Some(LocalResult::Next(pushed(f, Value::Int(3)))),
        Opcode::IConst4 => Some(LocalResult::Next(pushed(f, Value::Int(4)))),
        Opcode::IConst5 => Some(LocalResult::Next(pushed(f, Value::Int(5)))),
        Opcode::FConst0 => Some(LocalResult::Next(pushed(f, Value::Float(float_const(0))))),
        Opcode::FConst1 => Some(LocalResult::Next(pushed(f, Value::Float(float_const(1))))),
        Opcode::FConst2 => Some(LocalResult::Next(pushed(f, Value::Float(float_const(2))))),
        Opcode::Bipush => Some(LocalResult::Next(pushed(f, Value::Int((i.b1 as i8) as i32)))),
        Opcode::Sipush => Some(LocalResult::Next(pushed(f, Value::Int(operand_i16(i) as i32)))),
        Opcode::ILoad => Some(load_local(f, i.b1 as usize)),
        Opcode::ILoad0 | Opcode::FLoad0 | Opcode::ALoad0 => Some(load_local(f, 0)),
        Opcode::ILoad1 | Opcode::FLoad1 | Opcode::ALoad1 => Some(load_local(f, 1)),
        Opcode::ILoad2 | Opcode::FLoad2 | Opcode::ALoad2 => Some(load_local(f, 2)),
        Opcode::ILoad3 | Opcode::FLoad3 | Opcode::ALoad3 => Some(load_local(f, 3)),
        Opcode::IStore | Opcode::AStore => Some(store_local(f, i.b1 as usize)),
        Opcode::IStore0 | Opcode::AStore0 => Some(store_local(f, 0)),
        Opcode::IStore1 | Opcode::AStore1 => Some(store_local(f, 1)),
        Opcode::IStore2 | Opcode::AStore2 => Some(store_local(f, 2)),
        Opcode::IStore3 | Opcode::AStore3 => Some(store_local(f, 3)),
        Opcode::Pop => Some(
            match popped(f) {
                None => LocalResult::Fail(LocalError::Underflow, f),
                Some((_, g)) => LocalResult::Next(g),
            },
        ),
        Opcode::Dup => Some(
            if f.stack.len() == 0 {
                LocalResult::Fail(LocalError::Underflow, f)
            } else {
                LocalResult::Next(pushed(f, f.stack.last()))
            },
        ),
        Opcode::IAdd => Some(int_binary(f, |a: i32, b: i32| a.wrapping_add(b))),
        Opcode::ISub => Some(int_binary(f, |a: i32, b: i32| a.wrapping_sub(b))),
        Opcode::IMul => Some(int_binary(f, |a: i32, b: i32| a.wrapping_mul(b))),
        Opcode::IAnd => Some(int_binary_checked(f, |a: i32, b: i32| a & b)),
        Opcode::IRem => Some(int_remainder(f)),
        Opcode::LAdd => Some(long_binary(f, |a: i64, b: i64| a.wrapping_add(b))),
        Opcode::LAnd => Some(long_and(f)),
        Opcode::LShl => Some(long_shift(f)),
        Opcode::IInc => Some(
            if (i.b1 as usize) < f.locals.len() {
                match f.locals[i.b1 as int] {
                    Value::Int(v) => LocalResult::Next(
                        FrameModel {
                            locals: f.locals.update(
                                i.b1 as int,
                                Value::Int(v.wrapping_add((i.b2 as i8) as i32)),
                            ),
                            ..f
                        },
                    ),
                    _ => LocalResult::Fail(LocalError::BadType, f),
                }
            } else {
                LocalResult::Fail(LocalError::NoLocal(i.b1 as usize), f)
            },
        ),
        Opcode::I2L => Some(
            match popped(f) {
                None => LocalResult::Fail(LocalError::Underflow, f),
                Some((Value::Int(v), g)) => LocalResult::Next(pushed(g, Value::Long(v as i64))),
                Some((_, g)) => LocalResult::Fail(LocalError::BadType, g),
            },
        ),
        Opcode::Goto => Some(LocalResult::Next(FrameModel { pc: t, ..f })),
        Opcode::IfEq => Some(branch_int(f, t, |v: i32| v == 0)),
        Opcode::IfNe => Some(branch_int(f, t, |v: i32| v != 0)),
        Opcode::IfLt => Some(branch_int(f, t, |v: i32| v < 0)),
        Opcode::IfGe => Some(branch_int(f, t, |v: i32| v >= 0)),
        Opcode::IfGt => Some(branch_int(f, t, |v: i32| v > 0)),
        Opcode::IfLe => Some(branch_int(f, t, |v: i32| v <= 0)),
        Opcode::IfICmpEq => Some(branch_int2(f, t, |a: i32, b: i32| a == b)),
        Opcode::IfICmpNe => Some(branch_int2(f, t, |a: i32, b: i32| a != b)),
        Opcode::IfICmpLt => Some(branch_int2(f, t, |a: i32, b: i32| a < b)),
        Opcode::IfICmpGe => Some(branch_int2(f, t, |a: i32, b: i32| a >= b)),
        Opcode::IfICmpGt => Some(branch_int2(f, t, |a: i32, b: i32| a > b)),
        Opcode::IfICmpLe => Some(branch_int2(f, t, |a: i32, b: i32| a <= b)),
        Opcode::IfNull => Some(branch_ref(f, t, true)),
        Opcode::IfNonNull => Some(branch_ref(f, t, false)),
        _ => None,
    }
}

/// Whether `r` is the error that `e` describes.
pub open spec fn is_local_error(r: RuntimeError, e: LocalError) -> bool {
    match e {
        LocalError::Underflow => r matches RuntimeError::Internal(
            InternalError::OperandStackUnderflow { .. },
        ),
        LocalError::BadType => r matches RuntimeError::Internal(InternalError::InvalidType { .. }),
        LocalError::NoLocal(idx) => r matches RuntimeError::Internal(
            InternalError::NoLocalVar { index },
        ) && index == idx,
    }
}

/// What a local instruction leaves behind for the interpreter: go on, or
/// throw an exception of the named class with the given message.
pub enum LocalOutcome {
    Next,
    Throw(String, String),
}

/// Whether running a local instruction gave `r` and left frame `after`, as
/// `expected` says.
pub open spec fn local_matches(
    expected: LocalResult,
    r: Result<LocalOutcome, RuntimeError>,
    after: FrameModel,
) -> bool {
    match expected {
        LocalResult::Next(g) => r is Ok && r->Ok_0 is Next && after == g,
        LocalResult::Fail(e, g) => r is Err && is_local_error(r->Err_0, e) && after == g,
        LocalResult::Throw(c, m, g) => r is Ok && (r->Ok_0 matches LocalOutcome::Throw(cc, mm)
            && cc@ == c && mm@ == m) && after == g,
    }
}

/// A name for the kind of a value, for error messages.
fn kind_name(v: Option<Value>) -> (r: &'static str)
    ensures
        r@ == kind_text(v),
{
    match v {
        None => "nothing",
        Some(Value::Int(_)) => "Int",
        Some(Value::Long(_)) => "Long",
        Some(Value::Float(_)) => "Float",
        Some(Value::Double(_)) => "Double",
        Some(Value::Reference(_)) => "Reference",
        Some(Value::ReturnAddress(_)) => "ReturnAddress",
        Some(Value::Empty) => "Empty",
    }
}

/// The error for a value of the wrong kind at `pc` of a method.
pub fn invalid_type(class: &str, method: &str, pc: usize, expected: &str, found: Option<Value>) -> (r:
    RuntimeError)
    ensures
        r matches RuntimeError::Internal(InternalError::InvalidType { .. }),
{
    RuntimeError::Internal(
        InternalError::InvalidType {
            class: owned(class),
            method: owned(method),
            pc,
            expected: owned(expected),
            found: owned(kind_name(found)),
        },
    )
}

fn underflow(pc: usize) -> (r: RuntimeError)
    ensures
        is_local_error(r, LocalError::Underflow),
{
    RuntimeError::Internal(InternalError::OperandStackUnderflow { pc })
}

impl Frame {
    /// Pops a value, as `pop_value` does, or reports an underflow.
    fn pop_or_underflow(&mut self) -> (r: Result<Value, RuntimeError>)
        ensures
            match popped(old(self).model()) {
                None => r is Err && is_local_error(r->Err_0, LocalError::Underflow)
                    && final(self).model() == old(self).model(),
                Some((v, g)) => r == Ok::<Value, RuntimeError>(v) && final(self).model() == g,
            },
            final(self).class == old(self).class,
            final(self).method_index == old(self).method_index,
    {
        match self.pop_value() {
            Some(v) => Ok(v),
            None => Err(underflow(self.pc)),
        }
    }

    fn push_model(&mut self, v: Value)
        ensures
            final(self).model() == pushed(old(self).model(), v),
            final(self).class == old(self).class,
            final(self).method_index == old(self).method_index,
    {
        self.push_value(v);
    }
}

fn load(frame: &mut Frame, idx: usize) -> (r: Result<LocalOutcome, RuntimeError>)
    ensures
        local_matches(load_local(old(frame).model(), idx), r, final(frame).model()),
        final(frame).class == old(frame).class,
        final(frame).method_index == old(frame).method_index,
{
    if idx < frame.locals.len() {
        let v = frame.locals[idx];
        frame.push_model(v);
        Ok(LocalOutcome::Next)
    } else {
        Err(RuntimeError::Internal(InternalError::NoLocalVar { index: idx }))
    }
}

fn store(frame: &mut Frame, idx: usize) -> (r: Result<LocalOutcome, RuntimeError>)
    ensures
        local_matches(store_local(old(frame).model(), idx), r, final(frame).model()),
        final(frame).class == old(frame).class,
        final(frame).method_index == old(frame).method_index,
{
    let v = frame.pop_or_underflow()?;
    if idx < frame.locals.len() {
        frame.locals.set(idx, v);
        Ok(LocalOutcome::Next)
    } else {
        Err(RuntimeError::Internal(InternalError::NoLocalVar { index: idx }))
    }
}

fn branch_on_int(frame: &mut Frame, target: usize, take: bool, v: Value, class: &str, method: &str) -> (r: Result<
    LocalOutcome,
    RuntimeError,
>)
    requires
        v is Int,
    ensures
        r is Ok && r->Ok_0 is Next,
        final(frame).model() == if take {
            FrameModel { pc: target, ..old(frame).model() }
        } else {
            old(frame).model()
        },
        final(frame).class == old(frame).class,
        final(frame).method_index == old(frame).method_index,
{
    if take {
        frame.pc = target;
    }
    Ok(LocalOutcome::Next)
}

/// Runs instruction `i` on `frame` (whose pc is already past `i`), where it
/// works on its frame alone, with `floats` for the `float` instructions;
/// `None` for the instructions that need more of the virtual machine.
pub fn exec_local<F: FloatArithmetic>(
    frame: &mut Frame,
    i: &Instruction,
    floats: &F,
    class: &str,
    method: &str,
) -> (r: Option<Result<LocalOutcome, RuntimeError>>)
    ensures
        final(frame).class == old(frame).class,
        final(frame).method_index == old(frame).method_index,
        match local_step(old(frame).model(), *i) {
            Some(expected) => r is Some && local_matches(expected, r->Some_0, final(frame).model()),
            None => (r is None ==> final(frame).model() == old(frame).model()) && (r is Some ==> ({
                &&& is_float_op(i.op)
                &&& float_shape(old(frame).model(), i.op, r->Some_0, final(frame).model())
            })),
        },
{
    let t = target_of(i);
    match i.op {
        Opcode::AConstNull => {
            frame.push_model(Value::Reference(None));
            Some(Ok(LocalOutcome::Next))
        },
        Opcode::IConst0 => {
            frame.push_model(Value::Int(0));
            Some(Ok(LocalOutcome::Next))
        },
        Opcode::IConst1 => {
            frame.push_model(Value::Int(1));
            Some(Ok(LocalOutcome::Next))
        },
        Opcode::IConst2 => {
            frame.push_model(Value::Int(2));
            Some(Ok(LocalOutcome::Next))
        },
        Opcode::IConst3 => {
            frame.push_model(Value::Int(3));
            Some(Ok(LocalOutcome::Next))
        },
        Opcode::IConst4 => {
            frame.push_model(Value::Int(4));
            Some(Ok(LocalOutcome::Next))
        },
        Opcode::IConst5 => {
            frame.push_model(Value::Int(5));
            Some(Ok(LocalOutcome::Next))
        },
        Opcode::FConst0 => {
            frame.push_model(Value::Float(0));
            Some(Ok(LocalOutcome::Next))
        },
        Opcode::FConst1 => {
            frame.push_model(Value::Float(0x3f80_0000));
            Some(Ok(LocalOutcome::Next))
        },
        Opcode::FConst2 => {
            frame.push_model(Value::Float(0x4000_0000));
            Some(Ok(LocalOutcome::Next))
        },
        Opcode::Bipush => {
            frame.push_model(Value::Int((i.b1 as i8) as i32));
            Some(Ok(LocalOutcome::Next))
        },
        Opcode::Sipush => {
            let v = offset_i16(i);
            frame.push_model(Value::Int(v as i32));
            Some(Ok(LocalOutcome::Next))
        },
        Opcode::ILoad => Some(load(frame, i.b1 as usize)),
        Opcode::ILoad0 | Opcode::FLoad0 | Opcode::ALoad0 => Some(load(frame, 0)),
        Opcode::ILoad1 | Opcode::FLoad1 | Opcode::ALoad1 => Some(load(frame, 1)),
        Opcode::ILoad2 | Opcode::FLoad2 | Opcode::ALoad2 => Some(load(frame, 2)),
        Opcode::ILoad3 | Opcode::FLoad3 | Opcode::ALoad3 => Some(load(frame, 3)),
        Opcode::IStore | Opcode::AStore => Some(store(frame, i.b1 as usize)),
        Opcode::IStore0 | Opcode::AStore0 => Some(store(frame, 0)),
        Opcode::IStore1 | Opcode::AStore1 => Some(store(frame, 1)),
        Opcode::IStore2 | Opcode::AStore2 => Some(store(frame, 2)),
        Opcode::IStore3 | Opcode::AStore3 => Some(store(frame, 3)),
        Opcode::Pop => Some(
            match frame.pop_or_underflow() {
                Ok(_) => Ok(LocalOutcome::Next),
                Err(e) => Err(e),
            },
        ),
        Opcode::Dup => {
            let n = frame.operand_stack.len();
            if n == 0 {
                Some(Err(underflow(frame.pc)))
            } else {
                let top = frame.operand_stack[n - 1];
                frame.push_model(top);
                Some(Ok(LocalOutcome::Next))
            }
        },
        Opcode::IAdd | Opcode::ISub | Opcode::IMul => Some(int_arith(frame, i.op, class, method)),
        Opcode::IAnd | Opcode::IRem => Some(int_checked(frame, i.op, class, method)),
        Opcode::LAdd => Some(long_add(frame, class, method)),
        Opcode::LAnd | Opcode::LShl => Some(long_checked(frame, i.op, class, method)),
        Opcode::IInc => {
            let idx = i.b1 as usize;
            if idx >= frame.locals.len() {
                Some(Err(RuntimeError::Internal(InternalError::NoLocalVar { index: idx })))
            } else {
                match frame.locals[idx] {
                    Value::Int(v) => {
                        frame.locals.set(idx, Value::Int(v.wrapping_add((i.b2 as i8) as i32)));
                        Some(Ok(LocalOutcome::Next))
                    },
                    other => Some(Err(invalid_type(class, method, frame.pc, "Int", Some(other)))),
                }
            }
        },
        Opcode::I2L => Some(
            match frame.pop_or_underflow() {
                Err(e) => Err(e),
                Ok(Value::Int(v)) => {
                    frame.push_model(Value::Long(v as i64));
                    Ok(LocalOutcome::Next)
                },
                Ok(other) => Err(invalid_type(class, method, frame.pc, "Int", Some(other))),
            },
        ),
        Opcode::Goto => {
            frame.pc = t;
            Some(Ok(LocalOutcome::Next))
        },
        Opcode::IfEq | Opcode::IfNe | Opcode::IfLt | Opcode::IfGe | Opcode::IfGt | Opcode::IfLe => {
            Some(if_int(frame, i.op, t, class, method))
        },
        Opcode::IfICmpEq | Opcode::IfICmpNe | Opcode::IfICmpLt | Opcode::IfICmpGe
        | Opcode::IfICmpGt | Opcode::IfICmpLe => Some(if_int2(frame, i.op, t, class, method)),
        Opcode::IfNull | Opcode::IfNonNull => Some(
            match frame.pop_or_underflow() {
                Err(e) => Err(e),
                Ok(Value::Reference(r)) => {
                    let on_null = match i.op {
                        Opcode::IfNull => true,
                        _ => false,
                    };
                    if r.is_none() == on_null {
                        frame.pc = t;
                    }
                    Ok(LocalOutcome::Next)
                },
                Ok(other) => Err(invalid_type(class, method, frame.pc, "Reference", Some(other))),
            },
        ),
        Opcode::FMul | Opcode::FCmpL | Opcode::FCmpG | Opcode::I2F | Opcode::F2I => Some(
            exec_float(frame, i.op, floats, class, method),
        ),
        _ => None,
    }
}

/// Whether `op` is one of the `float` instructions.
pub open spec fn is_float_op(op: Opcode) -> bool {
    op == Opcode::FMul || op == Opcode::FCmpL || op == Opcode::FCmpG || op == Opcode::I2F || op
        == Opcode::F2I
}

/// What a `float` instruction does to the shape of the operand stack: its
/// operands are popped, and a value of the result's kind pushed (none for a
/// comparison with NaN); the values come from the floating-point
/// arithmetic.
pub open spec fn float_shape(
    f: FrameModel,
    op: Opcode,
    r: Result<LocalOutcome, RuntimeError>,
    after: FrameModel,
) -> bool {
    &&& after.locals == f.locals
    &&& after.pc == f.pc
    &&& (r is Ok ==> r->Ok_0 is Next && match op {
        Opcode::FMul => f.stack.len() >= 2 && f.stack.last() is Float && stack_pop(f.stack).last() is Float
            && after.stack.len() == f.stack.len() - 1 && after.stack.last() is Float,
        Opcode::FCmpL | Opcode::FCmpG => f.stack.len() >= 2 && f.stack.last() is Float && stack_pop(
            f.stack,
        ).last() is Float && after.stack == stack_pop(stack_pop(f.stack)) + compared(
            stack_pop(f.stack).last()->Float_0,
            f.stack.last()->Float_0,
        ),
        Opcode::I2F => f.stack.len() >= 1 && f.stack.last() is Int && after.stack.len()
            == f.stack.len() && after.stack.last() is Float,
        _ => f.stack.len() >= 1 && f.stack.last() is Float && after.stack.len() == f.stack.len()
            && after.stack.last() is Int,
    })
}

/// What `fcmpl` and `fcmpg` push for `value1` (the lower operand) and
/// `value2` (the top one): -1 where `value1` is less, 0 where they are
/// equal, 1 where it is greater, and nothing where either is NaN.
pub open spec fn compared(value1: u32, value2: u32) -> Seq<Value> {
    match spec_compare_result(float_order(value1, value2)) {
        Some(c) => seq![Value::Int(c)],
        None => Seq::empty(),
    }
}

/// Whether the float instruction `op` finds what it needs on the operand
/// stack of `f`: two `float`s for `fmul` and the comparisons, an `int` for
/// `i2f`, a `float` for `f2i`.
pub open spec fn float_owed(f: FrameModel, op: Opcode) -> bool {
    match op {
        Opcode::FMul | Opcode::FCmpL | Opcode::FCmpG => f.stack.len() >= 1 && f.stack.last() is Float
            && stack_pop(f.stack).len() >= 1 && stack_pop(f.stack).last() is Float,
        Opcode::I2F => f.stack.len() >= 1 && f.stack.last() is Int,
        _ => f.stack.len() >= 1 && f.stack.last() is Float,
    }
}

fn exec_float<F: FloatArithmetic>(frame: &mut Frame, op: Opcode, floats: &F, class: &str, method: &str) -> (r:
    Result<LocalOutcome, RuntimeError>)
    requires
        is_float_op(op),
    ensures
        final(frame).class == old(frame).class,
        final(frame).method_index == old(frame).method_index,
        float_shape(old(frame).model(), op, r, final(frame).model()),
        r is Ok <==> float_owed(old(frame).model(), op),
{
    match op {
        Opcode::FMul | Opcode::FCmpL | Opcode::FCmpG => {
            let v2 = frame.pop_or_underflow()?;
            let v1 = frame.pop_or_underflow()?;
            match (v1, v2) {
                (Value::Float(a), Value::Float(b)) => {
                    match op {
                        Opcode::FMul => {
                            frame.push_model(Value::Float(floats.float_mul(a, b)));
                        },
                        _ => {
                            let ghost popped = frame.model().stack;
                            match compare_result(compare_float_bits(a, b)) {
                                Some(c) => {
                                    frame.push_model(Value::Int(c));
                                    proof {
                                        assert(frame.model().stack =~= popped + seq![Value::Int(c)]);
                                    }
                                },
                                None => {
                                    proof {
                                        assert(popped + Seq::<Value>::empty() =~= popped);
                                    }
                                },
                            }
                        },
                    }
                    Ok(LocalOutcome::Next)
                },
                (a, _) => Err(invalid_type(class, method, frame.pc, "(Float, Float)", Some(a))),
            }
        },
        Opcode::I2F => {
            let v = frame.pop_or_underflow()?;
            match v {
                Value::Int(x) => {
                    frame.push_model(Value::Float(floats.int_to_float(x)));
                    Ok(LocalOutcome::Next)
                },
                other => Err(invalid_type(class, method, frame.pc, "Int", Some(other))),
            }
        },
        _ => {
            let v = frame.pop_or_underflow()?;
            match v {
                Value::Float(x) => {
                    frame.push_model(Value::Int(floats.float_to_int(x)));
                    Ok(LocalOutcome::Next)
                },
                other => Err(invalid_type(class, method, frame.pc, "Float", Some(other))),
            }
        },
    }
}

fn int_arith(frame: &mut Frame, op: Opcode, class: &str, method: &str) -> (r: Result<
    LocalOutcome,
    RuntimeError,
>)
    requires
        op == Opcode::IAdd || op == Opcode::ISub || op == Opcode::IMul,
    ensures
        final(frame).class == old(frame).class,
        final(frame).method_index == old(frame).method_index,
        local_matches(
            int_binary(
                old(frame).model(),
                if op == Opcode::IAdd {
                    |a: i32, b: i32| a.wrapping_add(b)
                } else if op == Opcode::ISub {
                    |a: i32, b: i32| a.wrapping_sub(b)
                } else {
                    |a: i32, b: i32| a.wrapping_mul(b)
                },
            ),
            r,
            final(frame).model(),
        ),
{
    let v2 = frame.pop_or_underflow()?;
    let v1 = frame.pop_or_underflow()?;
    match (v1, v2) {
        (Value::Int(a), Value::Int(b)) => {
            let v = match op {
                Opcode::IAdd => a.wrapping_add(b),
                Opcode::ISub => a.wrapping_sub(b),
                _ => a.wrapping_mul(b),
            };
            frame.push_model(Value::Int(v));
            Ok(LocalOutcome::Next)
        },
        (a, _) => Err(invalid_type(class, method, frame.pc, "(Int, Int)", Some(a))),
    }
}

fn pop_checked(frame: &mut Frame) -> (r: Option<Value>)
    ensures
        final(frame).class == old(frame).class,
        final(frame).method_index == old(frame).method_index,
        match popped(old(frame).model()) {
            None => r is None && final(frame).model() == old(frame).model(),
            Some((v, g)) => r == Some(v) && final(frame).model() == g,
        },
{
    frame.pop_value()
}

fn int_checked(frame: &mut Frame, op: Opcode, class: &str, method: &str) -> (r: Result<
    LocalOutcome,
    RuntimeError,
>)
    requires
        op == Opcode::IAnd || op == Opcode::IRem,
    ensures
        final(frame).class == old(frame).class,
        final(frame).method_index == old(frame).method_index,
        local_matches(
            if op == Opcode::IAnd {
                int_binary_checked(old(frame).model(), |a: i32, b: i32| a & b)
            } else {
                int_remainder(old(frame).model())
            },
            r,
            final(frame).model(),
        ),
{
    let b = match pop_checked(frame) {
        Some(Value::Int(b)) => b,
        other => {
            return Err(invalid_type(class, method, frame.pc, "Int", other));
        },
    };
    let a = match pop_checked(frame) {
        Some(Value::Int(a)) => a,
        other => {
            return Err(invalid_type(class, method, frame.pc, "Int", other));
        },
    };
    match op {
        Opcode::IAnd => {
            frame.push_model(Value::Int(a & b));
            Ok(LocalOutcome::Next)
        },
        _ => {
            if b == 0 {
                proof {
                    reveal_strlit("java/lang/ArithmeticException");
                    reveal_strlit("Tried to device by 0 on `irem`");
                }
                return Ok(
                    LocalOutcome::Throw(
                        owned("java/lang/ArithmeticException"),
                        owned("Tried to device by 0 on `irem`"),
                    ),
                );
            }
            let v = match a.checked_rem(b) {
                Some(v) => v,
                None => 0,
            };
            frame.push_model(Value::Int(v));
            Ok(LocalOutcome::Next)
        },
    }
}

fn long_add(frame: &mut Frame, class: &str, method: &str) -> (r: Result<LocalOutcome, RuntimeError>)
    ensures
        final(frame).class == old(frame).class,
        final(frame).method_index == old(frame).method_index,
        local_matches(
            long_binary(old(frame).model(), |a: i64, b: i64| a.wrapping_add(b)),
            r,
            final(frame).model(),
        ),
{
    let v2 = frame.pop_or_underflow()?;
    let v1 = frame.pop_or_underflow()?;
    match (v1, v2) {
        (Value::Long(a), Value::Long(b)) => {
            frame.push_model(Value::Long(a.wrapping_add(b)));
            Ok(LocalOutcome::Next)
        },
        (a, _) => Err(invalid_type(class, method, frame.pc, "(Long, Long)", Some(a))),
    }
}

fn long_checked(frame: &mut Frame, op: Opcode, class: &str, method: &str) -> (r: Result<
    LocalOutcome,
    RuntimeError,
>)
    requires
        op == Opcode::LAnd || op == Opcode::LShl,
    ensures
        final(frame).class == old(frame).class,
        final(frame).method_index == old(frame).method_index,
        local_matches(
            if op == Opcode::LAnd {
                long_and(old(frame).model())
            } else {
                long_shift(old(frame).model())
            },
            r,
            final(frame).model(),
        ),
{
    match op {
        Opcode::LAnd => {
            let b = match pop_checked(frame) {
                Some(Value::Long(b)) => b,
                other => {
                    return Err(invalid_type(class, method, frame.pc, "Long", other));
                },
            };
            let a = match pop_checked(frame) {
                Some(Value::Long(a)) => a,
                other => {
                    return Err(invalid_type(class, method, frame.pc, "Long", other));
                },
            };
            frame.push_model(Value::Long(a & b));
            Ok(LocalOutcome::Next)
        },
        _ => {
            let s = match pop_checked(frame) {
                Some(Value::Int(s)) => s,
                other => {
                    return Err(invalid_type(class, method, frame.pc, "Int", other));
                },
            };
            let a = match pop_checked(frame) {
                Some(Value::Long(a)) => a,
                other => {
                    return Err(invalid_type(class, method, frame.pc, "Long", other));
                },
            };
            frame.push_model(Value::Long(a.wrapping_shl((s & 63) as u32)));
            Ok(LocalOutcome::Next)
        },
    }
}

fn if_int(frame: &mut Frame, op: Opcode, target: usize, class: &str, method: &str) -> (r: Result<
    LocalOutcome,
    RuntimeError,
>)
    requires
        op == Opcode::IfEq || op == Opcode::IfNe || op == Opcode::IfLt || op == Opcode::IfGe || op
            == Opcode::IfGt || op == Opcode::IfLe,
    ensures
        final(frame).class == old(frame).class,
        final(frame).method_index == old(frame).method_index,
        local_matches(
            branch_int(
                old(frame).model(),
                target,
                if op == Opcode::IfEq {
                    |v: i32| v == 0
                } else if op == Opcode::IfNe {
                    |v: i32| v != 0
                } else if op == Opcode::IfLt {
                    |v: i32| v < 0
                } else if op == Opcode::IfGe {
                    |v: i32| v >= 0
                } else if op == Opcode::IfGt {
                    |v: i32| v > 0
                } else {
                    |v: i32| v <= 0
                },
            ),
            r,
            final(frame).model(),
        ),
{
    let v = frame.pop_or_underflow()?;
    match v {
        Value::Int(x) => {
            let take = match op {
                Opcode::IfEq => x == 0,
                Opcode::IfNe => x != 0,
                Opcode::IfLt => x < 0,
                Opcode::IfGe => x >= 0,
                Opcode::IfGt => x > 0,
                _ => x <= 0,
            };
            if take {
                frame.pc = target;
            }
            Ok(LocalOutcome::Next)
        },
        other => Err(invalid_type(class, method, frame.pc, "Int", Some(other))),
    }
}

fn if_int2(frame: &mut Frame, op: Opcode, target: usize, class: &str, method: &str) -> (r: Result<
    LocalOutcome,
    RuntimeError,
>)
    requires
        op == Opcode::IfICmpEq || op == Opcode::IfICmpNe || op == Opcode::IfICmpLt || op
            == Opcode::IfICmpGe || op == Opcode::IfICmpGt || op == Opcode::IfICmpLe,
    ensures
        final(frame).class == old(frame).class,
        final(frame).method_index == old(frame).method_index,
        local_matches(
            branch_int2(
                old(frame).model(),
                target,
                if op == Opcode::IfICmpEq {
                    |a: i32, b: i32| a == b
                } else if op == Opcode::IfICmpNe {
                    |a: i32, b: i32| a != b
                } else if op == Opcode::IfICmpLt {
                    |a: i32, b: i32| a < b
                } else if op == Opcode::IfICmpGe {
                    |a: i32, b: i32| a >= b
                } else if op == Opcode::IfICmpGt {
                    |a: i32, b: i32| a > b
                } else {
                    |a: i32, b: i32| a <= b
                },
            ),
            r,
            final(frame).model(),
        ),
{
    let v2 = frame.pop_or_underflow()?;
    let v1 = frame.pop_or_underflow()?;
    match (v1, v2) {
        (Value::Int(a), Value::Int(b)) => {
            let take = match op {
                Opcode::IfICmpEq => a == b,
                Opcode::IfICmpNe => a != b,
                Opcode::IfICmpLt => a < b,
                Opcode::IfICmpGe => a >= b,
                Opcode::IfICmpGt => a > b,
                _ => a <= b,
            };
            if take {
                frame.pc = target;
            }
            Ok(LocalOutcome::Next)
        },
        (a, _) => Err(invalid_type(class, method, frame.pc, "(Int, Int)", Some(a))),
    }
}

} // verus!
