use vstd::prelude::*;

use crate::class::constant_pool::{
    ConstantPoolEntry,
    CpEntry,
    cp_class_name,
    cp_field_ref,
    cp_utf8,
    cp_interface_method_ref,
    cp_method_ref,
};
use crate::error::{InternalError, RuntimeError};
use crate::native::native_registry::call_native;
use crate::text::{owned, push_decimal, push_digits, push_str};
use crate::vm::decode::{Instruction, decode, decoded, index_u16, operand_u16};
use crate::vm::descriptor::{param_kinds, spec_param_kinds};
use crate::vm::float::FloatArithmetic;
use crate::vm::frame::{Frame, stack_pop, stack_push};
use crate::vm::heap::{
    ArrayElementType,
    EntryModel,
    HeapEntry,
    ObjectModel,
    element_type_of,
    heap_array,
    heap_object,
    zero_of,
};
use crate::vm::local_ops::{
    FrameModel,
    is_float_op,
    LocalOutcome,
    LocalResult,
    exec_local,
    invalid_type,
    is_local_error,
    local_step,
};
use crate::vm::opcode::Opcode;
use crate::vm::runtime_class::{
    ClassRef,
    RuntimeClass,
    field_views,
    first_field,
    first_method,
    method_views,
};
use crate::vm::runtime_method::{BodyModel, MethodBody, RuntimeExceptionHandler, RuntimeMethod, slots_of};
use crate::vm::thread::ThreadRef;
use crate::vm::value::{ObjectRef, Value};
use crate::vm::vm::{
    VM,
    assignable,
    ChainLookup,
    chain_defaults,
    classes_grow,
    frames_of,
    lookup,
    only_frames_changed,
    find_pair,
    instance_field,
    interned_as,
    total_slots,
    virtual_method,
};

verus! {

/// How deep running code may nest inside running code (class initializers,
/// calls made by native methods).
pub const MAX_NESTING: usize = 256;

/// What one interpreter step leads to.
pub enum StepOutcome {
    /// The thread goes on.
    Continue,
    /// The thread's last frame returned this value.
    Return(Value),
}

/// Runs threads of a virtual machine.
pub struct Interpreter;

/// Whether `b` is a later state of the virtual machine `a`: still
/// well-formed, with the classes, threads, heap entries and initialized
/// classes of `a` (and maybe more), and no more steps left.
pub open spec fn progressed<F>(a: VM<F>, b: VM<F>) -> bool {
    &&& b.wf()
    &&& classes_grow(a.classes@, b.classes@)
    &&& b.steps_left <= a.steps_left
    &&& a.threads@.len() <= b.threads@.len()
    &&& a.heap@.len() <= b.heap@.len()
    &&& a.static_storage@.len() <= b.static_storage@.len()
    &&& forall|i: int|
        0 <= i < a.static_storage@.len() ==> #[trigger] b.static_storage@[i] == a.static_storage@[i]
    &&& b.classpath == a.classpath
    &&& b.primitive_classes == a.primitive_classes
    &&& crate::vm::vm::objects_kept(a.class_objects@, b.class_objects@)
}

/// Whether the threads of `a` other than `except` have the same frames in
/// `b`.
pub open spec fn frames_kept<F>(a: VM<F>, b: VM<F>, except: Option<ThreadRef>) -> bool {
    forall|k: int|
        0 <= k < a.threads@.len() && except != Some(ThreadRef(k as usize)) ==> (
        #[trigger] b.threads@[k]).frames@ == a.threads@[k].frames@
}

pub proof fn lemma_kept_trans<F>(a: VM<F>, b: VM<F>, c: VM<F>, e1: Option<ThreadRef>, e2: Option<ThreadRef>, e: Option<ThreadRef>)
    requires
        progressed(a, b),
        frames_kept(a, b, e1),
        frames_kept(b, c, e2),
        e1 is Some ==> e == e1,
        e2 is Some ==> e == e2,
    ensures
        frames_kept(a, c, e),
{
    assert forall|k: int|
        0 <= k < a.threads@.len() && e != Some(ThreadRef(k as usize)) implies (
        #[trigger] c.threads@[k]).frames@ == a.threads@[k].frames@ by {
        assert(b.threads@[k].frames@ == a.threads@[k].frames@);
        assert(c.threads@[k].frames@ == b.threads@[k].frames@);
    }
}

/// Whether `b` is a later state of `a` in which the threads other than
/// `except` have their frames as in `a`.
pub open spec fn moved_on<F>(a: VM<F>, b: VM<F>, except: Option<ThreadRef>) -> bool {
    progressed(a, b) && frames_kept(a, b, except)
}

/// The primitive classes keep their names in every later state.
pub proof fn lemma_moved_primitives<F>(a: VM<F>, b: VM<F>, e: Option<ThreadRef>)
    requires
        moved_on(a, b, e),
        crate::vm::vm::primitives_named(a),
    ensures
        crate::vm::vm::primitives_named(b),
{
    crate::vm::vm::lemma_primitives_kept(a, b);
}

pub proof fn lemma_moved_trans<F>(a: VM<F>, b: VM<F>, c: VM<F>, e: Option<ThreadRef>)
    requires
        moved_on(a, b, e),
        moved_on(b, c, e),
    ensures
        moved_on(a, c, e),
{
    lemma_progressed_trans(a, b, c);
    lemma_kept_trans(a, b, c, e, e, e);
}

pub proof fn lemma_progressed_trans<F>(a: VM<F>, b: VM<F>, c: VM<F>)
    requires
        progressed(a, b),
        progressed(b, c),
    ensures
        progressed(a, c),
{
    assert forall|i: int| 0 <= i < a.classes@.len() implies #[trigger] c.classes@[i]
        == a.classes@[i] by {
        assert(c.classes@[i] == b.classes@[i]);
    }
    assert forall|i: int| 0 <= i < a.static_storage@.len() implies #[trigger] c.static_storage@[i]
        == a.static_storage@[i] by {
        assert(c.static_storage@[i] == b.static_storage@[i]);
    }
    assert forall|i: int| 0 <= i < a.class_objects@.len() implies #[trigger] c.class_objects@[i]
        == a.class_objects@[i] by {
        assert(c.class_objects@[i] == b.class_objects@[i]);
    }
}

/// The instruction that thread `t` runs next, with its current frame: the
/// instruction at the frame's pc of the frame's method, where that method
/// has bytecode and the instruction can be read.
pub open spec fn current_instruction<F>(vm: VM<F>, t: ThreadRef) -> Option<(Frame, Instruction)> {
    if t.0 < vm.threads@.len() && frames_of(vm, t).len() > 0 {
        let f = frames_of(vm, t).last();
        if f.class.0 < vm.classes@.len() && f.method_index < vm.classes@[f.class.0 as int].methods@.len() {
            match vm.classes@[f.class.0 as int].methods@[f.method_index as int].body@ {
                BodyModel::Bytecode(code) => match decoded(code, f.pc) {
                    Ok(i) => Some((f, i)),
                    Err(_) => None,
                },
                _ => None,
            }
        } else {
            None
        }
    } else {
        None
    }
}

/// The frame `f` with its pc past instruction `i`.
pub open spec fn advanced(f: Frame, i: Instruction) -> FrameModel {
    FrameModel { pc: i.next_pc, ..f.model() }
}

/// Whether thread `t` of `b` has the frames of `a` with the current one
/// replaced by one of the same method whose locals, stack and pc are `g`.
pub open spec fn top_frame_is<F>(a: VM<F>, b: VM<F>, t: ThreadRef, g: FrameModel) -> bool {
    let (x, y) = (frames_of(a, t), frames_of(b, t));
    &&& y.len() == x.len()
    &&& forall|k: int| 0 <= k < x.len() - 1 ==> #[trigger] y[k] == x[k]
    &&& y.last().model() == g
    &&& y.last().class == x.last().class
    &&& y.last().method_index == x.last().method_index
}

/// Whether one step of thread `t` from `a` to `b`, with result `r`, did
/// what `expected` says an instruction that works on its frame alone does.
pub open spec fn step_matches<F>(
    a: VM<F>,
    b: VM<F>,
    t: ThreadRef,
    expected: LocalResult,
    r: Result<StepOutcome, RuntimeError>,
) -> bool {
    match expected {
        LocalResult::Next(g) => {
            &&& r is Ok && r->Ok_0 is Continue
            &&& top_frame_is(a, b, t, g)
            &&& b.classes@ == a.classes@
            &&& b.heap@ == a.heap@
            &&& b.static_storage@ == a.static_storage@
        },
        LocalResult::Fail(e, g) => {
            &&& r is Err && is_local_error(r->Err_0, e)
            &&& top_frame_is(a, b, t, g)
            &&& b.classes@ == a.classes@
            &&& b.heap@ == a.heap@
        },
        LocalResult::Throw(c, m, g) => {
            &&& r is Err && thrown_new(a, b, c, Some(m), r->Err_0)
            &&& top_frame_is(a, b, t, g)
        },
    }
}

/// Whether `r` reports that the step budget is used up.
pub open spec fn is_step_limit(r: RuntimeError) -> bool {
    r matches RuntimeError::Internal(InternalError::StepLimitExceeded)
}

/// What the next step of a thread runs.
enum NextStep {
    Insn(Instruction),
    Native,
    Abstract,
    Unknown,
}

/// What the current method of a frame runs next.
fn next_step<F>(vm: &VM<F>, frame: &Frame) -> (r: Result<NextStep, RuntimeError>)
    ensures
        frame.class.0 < vm.classes@.len() && frame.method_index < vm.classes@[frame.class.0 as int].methods@.len()
            ==> match vm.classes@[frame.class.0 as int].methods@[frame.method_index as int].body@ {
            BodyModel::Bytecode(code) => match decoded(code, frame.pc) {
                Ok(i) => r matches Ok(NextStep::Insn(j)) && j == i,
                Err(_) => r is Err,
            },
            BodyModel::Native => r matches Ok(NextStep::Native),
            BodyModel::Abstract => r matches Ok(NextStep::Abstract),
            BodyModel::Unknown => r matches Ok(NextStep::Unknown),
        },
{
    let method = vm.get_method(frame.class, frame.method_index)?;
    match &method.body {
        MethodBody::Bytecode(code) => {
            let i = decode(code.as_slice(), frame.pc)?;
            Ok(NextStep::Insn(i))
        },
        MethodBody::Native => Ok(NextStep::Native),
        MethodBody::Abstract => Ok(NextStep::Abstract),
        MethodBody::Unknown => Ok(NextStep::Unknown),
    }
}

/// The names of the class and method that `frame` runs, for error messages;
/// empty where the VM has no such class or method.
fn frame_names<F>(vm: &VM<F>, frame: &Frame) -> (r: (String, String))
    ensures
        r.0@ == if frame.class.0 < vm.classes@.len() {
            vm.classes@[frame.class.0 as int].name@
        } else {
            Seq::<char>::empty()
        },
        r.1@ == if frame.class.0 < vm.classes@.len() && frame.method_index
            < vm.classes@[frame.class.0 as int].methods@.len() {
            vm.classes@[frame.class.0 as int].methods@[frame.method_index as int].name@
        } else {
            Seq::<char>::empty()
        },
{
    let class_name = match vm.get_class(frame.class) {
        Ok(c) => c.name.clone(),
        Err(_) => String::new(),
    };
    let method_name = match vm.get_method(frame.class, frame.method_index) {
        Ok(m) => m.name.clone(),
        Err(_) => String::new(),
    };
    (class_name, method_name)
}

/// `prefix`, the decimal text of `n`, then `suffix`.
fn message_with(prefix: &str, n: i64, suffix: &str) -> (r: String)
    ensures
        r@ == prefix@ + crate::text::spec_decimal(n as int) + suffix@,
{
    let mut s = owned(prefix);
    push_decimal(&mut s, n);
    push_str(&mut s, suffix);
    s
}

/// `prefix`, the decimal text of `n`, then `suffix`.
fn message_with_usize(prefix: &str, n: usize, suffix: &str) -> (r: String)
    ensures
        r@ == prefix@ + crate::text::spec_digits(n as nat) + suffix@,
{
    let mut s = owned(prefix);
    push_digits(&mut s, n as u64);
    push_str(&mut s, suffix);
    s
}

/// The message of an index out of an array's bounds.
fn out_of_bounds(index: i64, len: usize) -> (r: String)
    ensures
        r@ == "Index "@ + crate::text::spec_decimal(index as int) + " out of bounds for length "@
            + crate::text::spec_digits(len as nat),
{
    let mut s = owned("Index ");
    push_decimal(&mut s, index);
    push_str(&mut s, " out of bounds for length ");
    push_digits(&mut s, len as u64);
    s
}

/// Whether `args` fit in `n` locals from slot `slot` on, each starting
/// where the one before ended, a `long` or `double` taking two slots.
pub open spec fn args_fit(args: Seq<Value>, slot: int, n: int) -> bool
    decreases args.len(),
{
    args.len() == 0 || (slot < n && slot <= usize::MAX - 2 && args_fit(
        args.drop_first(),
        slot + if args[0].spec_is_wide() {
            2int
        } else {
            1int
        },
        n,
    ))
}

/// Copies `v` into the locals of `frame` from slot `start` on, a `long` or
/// `double` taking two slots; `Err` where they do not fit.
fn place_args(frame: &mut Frame, args: &Vec<Value>, start: usize) -> (r: Result<(), ()>)
    ensures
        final(frame).class == old(frame).class,
        final(frame).method_index == old(frame).method_index,
        final(frame).pc == old(frame).pc,
        final(frame).operand_stack@ == old(frame).operand_stack@,
        final(frame).locals@.len() == old(frame).locals@.len(),
        r is Ok ==> final(frame).locals@ == placed(old(frame).locals@, args@, start as int),
        r is Ok <==> args_fit(args@, start as int, old(frame).locals@.len() as int),
{
    let mut slot = start;
    let mut k: usize = 0;
    proof {
        assert(args@.subrange(0, args@.len() as int) =~= args@);
    }
    while k < args.len()
        invariant
            k <= args@.len(),
            frame.class == old(frame).class,
            frame.method_index == old(frame).method_index,
            frame.pc == old(frame).pc,
            frame.operand_stack@ == old(frame).operand_stack@,
            frame.locals@.len() == old(frame).locals@.len(),
            placed(old(frame).locals@, args@, start as int) == placed(
                frame.locals@,
                args@.subrange(k as int, args@.len() as int),
                slot as int,
            ),
            args_fit(args@, start as int, old(frame).locals@.len() as int) == args_fit(
                args@.subrange(k as int, args@.len() as int),
                slot as int,
                old(frame).locals@.len() as int,
            ),
        decreases args@.len() - k,
    {
        if slot >= frame.locals.len() || slot > usize::MAX - 2 {
            proof {
                assert(args@.subrange(k as int, args@.len() as int).len() > 0);
            }
            return Err(());
        }
        let arg = args[k];
        proof {
            let rest = args@.subrange(k as int, args@.len() as int);
            assert(rest[0] == arg);
            assert(rest.drop_first() =~= args@.subrange(k + 1, args@.len() as int));
        }
        frame.locals.set(slot, arg);
        slot = if arg.is_wide() {
            slot + 2
        } else {
            slot + 1
        };
        k = k + 1;
    }
    proof {
        assert(args@.subrange(k as int, args@.len() as int).len() == 0);
    }
    Ok(())
}

/// `locals` with `args` stored from slot `slot` on, a `long` or `double`
/// taking two slots.
pub open spec fn placed(locals: Seq<Value>, args: Seq<Value>, slot: int) -> Seq<Value>
    decreases args.len(),
{
    if args.len() == 0 {
        locals
    } else {
        placed(
            locals.update(slot, args[0]),
            args.drop_first(),
            slot + if args[0].spec_is_wide() {
                2int
            } else {
                1int
            },
        )
    }
}

/// The operand stack `s` after popping `n` values, and those values in the
/// order in which they were pushed; `None` where `s` runs out.
pub open spec fn popped(s: Seq<Value>, n: nat) -> Option<(Seq<Value>, Seq<Value>)>
    decreases n,
{
    if n == 0 {
        Some((s, Seq::empty()))
    } else {
        match popped(s, (n - 1) as nat) {
            Some((rest, vals)) => if rest.len() == 0 {
                None
            } else {
                Some((stack_pop(rest), seq![rest.last()] + vals))
            },
            None => None,
        }
    }
}

/// Pops `count` values off `frame`, the last popped first in the result.
fn pop_args(frame: &mut Frame, count: usize) -> (r: Result<Vec<Value>, RuntimeError>)
    ensures
        final(frame).class == old(frame).class,
        final(frame).method_index == old(frame).method_index,
        final(frame).pc == old(frame).pc,
        final(frame).locals == old(frame).locals,
        r matches Ok(v) ==> popped(old(frame).operand_stack@, count as nat) == Some(
            (final(frame).operand_stack@, v@),
        ),
        popped(old(frame).operand_stack@, count as nat) is None <==> r is Err,
{
    let ghost s0 = frame.operand_stack@;
    let mut args: Vec<Value> = Vec::new();
    let mut k: usize = 0;
    while k < count
        invariant
            k <= count,
            args@.len() == k,
            frame.class == old(frame).class,
            frame.method_index == old(frame).method_index,
            frame.pc == old(frame).pc,
            frame.locals == old(frame).locals,
            s0 == old(frame).operand_stack@,
            popped(s0, k as nat) matches Some((rest, vals)) && rest == frame.operand_stack@
                && vals.len() == k && forall|m: int| 0 <= m < k ==> vals[m] == args@[k - 1 - m],
        decreases count - k,
    {
        let ghost vals = popped(s0, k as nat)->Some_0.1;
        match frame.pop_value() {
            Some(v) => {
                args.push(v);
                proof {
                    let nv = seq![v] + vals;
                    assert(popped(s0, (k + 1) as nat) == Some((frame.operand_stack@, nv)));
                    assert forall|m: int| 0 <= m < k + 1 implies nv[m] == args@[k - m] by {
                        if m > 0 {
                            assert(nv[m] == vals[m - 1]);
                        }
                    }
                }
            },
            None => {
                proof {
                    assert(popped(s0, (k + 1) as nat) is None);
                    lemma_popped_none(s0, (k + 1) as nat, count as nat);
                }
                return Err(RuntimeError::Internal(InternalError::OperandStackUnderflow { pc: frame.pc }));
            },
        }
        k = k + 1;
    }
    let ghost vals = popped(s0, count as nat)->Some_0.1;
    let mut out: Vec<Value> = Vec::with_capacity(count);
    let mut j: usize = args.len();
    while j > 0
        invariant
            j <= args@.len(),
            args@.len() == count,
            out@.len() == args@.len() - j,
            vals.len() == count,
            forall|m: int| 0 <= m < count ==> vals[m] == args@[count - 1 - m],
            forall|m: int| 0 <= m < out@.len() ==> out@[m] == vals[m],
        decreases j,
    {
        out.push(args[j - 1]);
        j = j - 1;
    }
    proof {
        assert(out@ =~= vals);
    }
    Ok(out)
}

/// Once the stack runs out, popping more runs out too.
proof fn lemma_popped_none(s: Seq<Value>, a: nat, b: nat)
    requires
        a <= b,
        popped(s, a) is None,
    ensures
        popped(s, b) is None,
    decreases b - a,
{
    if a < b {
        lemma_popped_none(s, a, (b - 1) as nat);
    }
}

/// The number of parameters of a method of descriptor `descriptor`.
fn param_count(descriptor: &str) -> (r: Result<usize, RuntimeError>)
    ensures
        r matches Ok(n) ==> spec_param_kinds(descriptor@) matches Some(ks) && n == ks.len(),
        spec_param_kinds(descriptor@) is Some ==> r is Ok,
{
    match param_kinds(descriptor) {
        Some(k) => Ok(k.len()),
        None => Err(RuntimeError::Internal(InternalError::InvalidDescriptor)),
    }
}

/// Whether frame `g` went on at a handler of its method for exception
/// `obj`, from frame `h`: its pc is the handler's, the handler's range
/// covering the pc of `h`, and its operand stack holds just the exception.
pub open spec fn at_handler(cs: Seq<RuntimeClass>, h: Frame, g: Frame, obj: ObjectRef) -> bool {
    &&& g.class == h.class
    &&& g.method_index == h.method_index
    &&& g.locals@ == h.locals@
    &&& g.operand_stack@ == seq![Value::Reference(Some(obj))]
    &&& h.class.0 < cs.len()
    &&& h.method_index < cs[h.class.0 as int].methods@.len()
    &&& exists|k: int|
        #![trigger cs[h.class.0 as int].methods@[h.method_index as int].exception_handlers@[k]]
        {
            let x = cs[h.class.0 as int].methods@[h.method_index as int].exception_handlers@[k];
            &&& 0 <= k < cs[h.class.0 as int].methods@[h.method_index as int].exception_handlers@.len()
            &&& x.start_pc <= h.pc < x.end_pc
            &&& g.pc == x.handler_pc
        }
}

/// Whether unwinding frames `fs` for exception `obj` left `gs`: the frames
/// above a frame with a handler are gone, and that frame went on at the
/// handler.
pub open spec fn caught(cs: Seq<RuntimeClass>, fs: Seq<Frame>, gs: Seq<Frame>, obj: ObjectRef) -> bool {
    &&& 0 < gs.len() <= fs.len()
    &&& gs.drop_last() == fs.subrange(0, gs.len() - 1)
    &&& at_handler(cs, fs[gs.len() - 1], gs.last(), obj)
}

/// Whether handler `x`, taken for an exception object of class `k` while
/// unwinding from `a` to `b`, catches that object: it catches everything,
/// or its catch class bears the handler's catch name and `k` is assignable
/// to it, in the classes loaded at some point between `a` and `b` (after
/// the catch class was resolved).
pub open spec fn handler_catches<F>(a: VM<F>, b: VM<F>, k: ClassRef, x: RuntimeExceptionHandler) -> bool {
    match text_of(x.catch_class) {
        None => true,
        Some(name) => exists|cs: Seq<RuntimeClass>, c: ClassRef|
            #[trigger] assignable(cs, k, c, cs.len()) == Ok::<bool, ()>(true) && c.0 < cs.len() && cs[c.0 as int].name@
                == name && classes_grow(a.classes@, cs) && classes_grow(cs, b.classes@),
    }
}

/// Whether unwinding thread `t` from `a` to `b` for exception object `obj`
/// of class `k` went on at handler `j` of frame `i` (counted from the
/// bottom): the handler covers the frame's pc and catches the object, the
/// frames above it are gone, and the frame resumes at the handler with
/// only the object on its operand stack; every handler of the frames above
/// and every earlier handler of that frame was passed over rightly.
pub open spec fn took_handler<F>(a: VM<F>, b: VM<F>, t: ThreadRef, k: ClassRef, obj: ObjectRef, i: int, j: int) -> bool {
    let fs = frames_of(a, t);
    let gs = frames_of(b, t);
    &&& 0 <= i < fs.len()
    &&& fs[i].class.0 < b.classes@.len()
    &&& fs[i].method_index < b.classes@[fs[i].class.0 as int].methods@.len()
    &&& 0 <= j < b.classes@[fs[i].class.0 as int].methods@[fs[i].method_index as int].exception_handlers@.len()
    &&& {
        let x = b.classes@[fs[i].class.0 as int].methods@[fs[i].method_index as int].exception_handlers@[j];
        &&& x.start_pc <= fs[i].pc < x.end_pc
        &&& handler_catches(a, b, k, x)
    }
    &&& gs.len() == i + 1
    &&& gs.drop_last() == fs.take(i)
    &&& resumed_at(b, fs[i], gs.last(), j as nat, obj)
    &&& refused_from(a, b, t, k, i + 1)
    &&& forall|l: int|
        0 <= l < j && has_handler(a, fs[i], l) ==> #[trigger] handler_refuses(a, b, k, frame_handler(a, fs[i], l), fs[i].pc)
}

/// Whether handler `x`, met at pc `pc` while unwinding from `a` to `b` for
/// an exception object of class `k`, was passed over rightly: its range
/// does not cover `pc`, or it names a catch class that was not loaded in
/// `a` (a class loaded later is never one that `k` can be used as), or
/// `k` is not assignable to the class of that name in the classes loaded
/// at some point between `a` and `b`.
pub open spec fn handler_refuses<F>(a: VM<F>, b: VM<F>, k: ClassRef, x: RuntimeExceptionHandler, pc: usize) -> bool {
    ||| !(x.start_pc <= pc < x.end_pc)
    ||| (text_of(x.catch_class) matches Some(name) && (a.class_named(name) is None || exists|
        cs: Seq<RuntimeClass>,
        c: ClassRef,
    |
        #[trigger] assignable(cs, k, c, cs.len()) == Ok::<bool, ()>(false) && c.0 < cs.len() && cs[c.0 as int].name@
            == name && classes_grow(a.classes@, cs) && classes_grow(cs, b.classes@)))
}

/// Handler `j` of the method that frame `f` runs, in the classes of `a`.
pub open spec fn frame_handler<F>(a: VM<F>, f: Frame, j: int) -> RuntimeExceptionHandler {
    a.classes@[f.class.0 as int].methods@[f.method_index as int].exception_handlers@[j]
}

/// Whether the method that frame `f` runs is a method of `a` with a
/// handler `j`.
pub open spec fn has_handler<F>(a: VM<F>, f: Frame, j: int) -> bool {
    &&& f.class.0 < a.classes@.len()
    &&& f.method_index < a.classes@[f.class.0 as int].methods@.len()
    &&& 0 <= j < a.classes@[f.class.0 as int].methods@[f.method_index as int].exception_handlers@.len()
}

/// Whether every handler of the frames of thread `t` in `a` from index
/// `lo` up was passed over rightly for an object of class `k`, unwinding
/// from `a` to `b`.
pub open spec fn refused_from<F>(a: VM<F>, b: VM<F>, t: ThreadRef, k: ClassRef, lo: int) -> bool {
    forall|i: int, j: int|
        lo <= i < frames_of(a, t).len() && has_handler(a, frames_of(a, t)[i], j) ==> #[trigger] handler_refuses(
            a,
            b,
            k,
            frame_handler(a, frames_of(a, t)[i], j),
            frames_of(a, t)[i].pc,
        )
}

/// A handler passed over rightly stays so as more classes are loaded.
proof fn lemma_refuses_grow<F>(a: VM<F>, b1: VM<F>, b2: VM<F>, k: ClassRef, x: RuntimeExceptionHandler, pc: usize)
    requires
        handler_refuses(a, b1, k, x, pc),
        classes_grow(b1.classes@, b2.classes@),
    ensures
        handler_refuses(a, b2, k, x, pc),
{
    if x.start_pc <= pc < x.end_pc {
        let name = text_of(x.catch_class)->Some_0;
        if a.class_named(name) is Some {
            let (cs, c) = choose|cs: Seq<RuntimeClass>, c: ClassRef|
                #[trigger] assignable(cs, k, c, cs.len()) == Ok::<bool, ()>(false) && c.0 < cs.len()
                    && cs[c.0 as int].name@ == name && classes_grow(a.classes@, cs) && classes_grow(cs, b1.classes@);
            assert(classes_grow(cs, b2.classes@)) by {
                assert forall|i: int| 0 <= i < cs.len() implies #[trigger] b2.classes@[i] == cs[i] by {
                    assert(b1.classes@[i] == cs[i]);
                }
            }
            assert(assignable(cs, k, c, cs.len()) == Ok::<bool, ()>(false));
        }
    }
}

/// Frames whose handlers were all passed over rightly stay so as more
/// classes are loaded.
proof fn lemma_refused_grow<F>(a: VM<F>, b1: VM<F>, b2: VM<F>, t: ThreadRef, k: ClassRef, lo: int)
    requires
        refused_from(a, b1, t, k, lo),
        classes_grow(b1.classes@, b2.classes@),
    ensures
        refused_from(a, b2, t, k, lo),
{
    assert forall|i: int, j: int|
        lo <= i < frames_of(a, t).len() && has_handler(a, frames_of(a, t)[i], j) implies #[trigger] handler_refuses(
        a,
        b2,
        k,
        frame_handler(a, frames_of(a, t)[i], j),
        frames_of(a, t)[i].pc,
    ) by {
        lemma_refuses_grow(a, b1, b2, k, frame_handler(a, frames_of(a, t)[i], j), frames_of(a, t)[i].pc);
    }
}

/// Handler `j` of frame `i`, which covers the frame's pc and catches the
/// object by way of class `c` among classes `cs`, was taken.
proof fn lemma_took<F>(
    a: VM<F>,
    b: VM<F>,
    t: ThreadRef,
    k: ClassRef,
    obj: ObjectRef,
    i: int,
    j: int,
    cs: Seq<RuntimeClass>,
    c: ClassRef,
)
    requires
        0 <= i < frames_of(a, t).len(),
        frames_of(a, t)[i].class.0 < b.classes@.len(),
        frames_of(a, t)[i].method_index < b.classes@[frames_of(a, t)[i].class.0 as int].methods@.len(),
        0 <= j < b.classes@[frames_of(a, t)[i].class.0 as int].methods@[frames_of(a, t)[i].method_index as int].exception_handlers@.len(),
        ({
            let x = b.classes@[frames_of(a, t)[i].class.0 as int].methods@[frames_of(a, t)[i].method_index as int].exception_handlers@[j];
            &&& x.start_pc <= frames_of(a, t)[i].pc < x.end_pc
            &&& text_of(x.catch_class) matches Some(name) ==> assignable(cs, k, c, cs.len()) == Ok::<bool, ()>(true)
                && c.0 < cs.len() && cs[c.0 as int].name@ == name && classes_grow(a.classes@, cs)
                && classes_grow(cs, b.classes@)
        }),
        frames_of(b, t).len() == i + 1,
        frames_of(b, t).drop_last() == frames_of(a, t).take(i),
        resumed_at(b, frames_of(a, t)[i], frames_of(b, t).last(), j as nat, obj),
        refused_from(a, b, t, k, i + 1),
        forall|l: int|
            0 <= l < j && has_handler(a, frames_of(a, t)[i], l) ==> #[trigger] handler_refuses(
                a,
                b,
                k,
                frame_handler(a, frames_of(a, t)[i], l),
                frames_of(a, t)[i].pc,
            ),
    ensures
        took_handler(a, b, t, k, obj, i, j),
{
}

/// Whether handler `x` catches an exception object of class `k` in `a`:
/// `Some(true)` where it catches everything, or its catch class, loaded in
/// `a`, is one that `k` is assignable to; `Some(false)` where that class is
/// loaded and `k` is not assignable to it; `None` where `a` cannot tell
/// without loading a class.
pub open spec fn catches<F>(a: VM<F>, k: ClassRef, x: RuntimeExceptionHandler) -> Option<bool> {
    match x.catch_class {
        None => Some(true),
        Some(name) => match a.class_named(name@) {
            Some(c) => match assignable(a.classes@, k, ClassRef(c as usize), a.classes@.len() as nat) {
                Ok(b) => Some(b),
                Err(_) => None,
            },
            None => None,
        },
    }
}

/// The first handler of `hs`, from index `j` on, whose range covers `pc`
/// and which catches an exception object of class `k` in `a`.
pub open spec fn first_catch<F>(
    a: VM<F>,
    k: ClassRef,
    hs: Seq<RuntimeExceptionHandler>,
    pc: usize,
    j: nat,
) -> ChainLookup<nat>
    decreases hs.len() - j,
{
    if j >= hs.len() {
        ChainLookup::Missing
    } else if hs[j as int].start_pc <= pc < hs[j as int].end_pc {
        match catches(a, k, hs[j as int]) {
            Some(true) => ChainLookup::Found(j),
            Some(false) => first_catch(a, k, hs, pc, j + 1),
            None => ChainLookup::BadClass,
        }
    } else {
        first_catch(a, k, hs, pc, j + 1)
    }
}

/// The frame, among the first `n` of `fs` searched from the last down, and
/// its handler that catch an exception object of class `k` in `a`.
/// `BadClass` where `a` cannot tell without loading a class, or a frame
/// runs a method that `a` does not have.
pub open spec fn catching_frame<F>(a: VM<F>, k: ClassRef, fs: Seq<Frame>, n: nat) -> ChainLookup<(nat, nat)>
    decreases n,
{
    if n == 0 {
        ChainLookup::Missing
    } else {
        let f = fs[n - 1];
        if f.class.0 < a.classes@.len() && f.method_index < a.classes@[f.class.0 as int].methods@.len() {
            match first_catch(
                a,
                k,
                a.classes@[f.class.0 as int].methods@[f.method_index as int].exception_handlers@,
                f.pc,
                0,
            ) {
                ChainLookup::Found(j) => ChainLookup::Found(((n - 1) as nat, j)),
                ChainLookup::Missing => catching_frame(a, k, fs, (n - 1) as nat),
                ChainLookup::BadClass => ChainLookup::BadClass,
            }
        } else {
            ChainLookup::BadClass
        }
    }
}

/// Whether frame `g` is frame `f` gone on at handler `j` of its method for
/// exception `obj`: at the handler's pc, with only the exception on its
/// operand stack.
pub open spec fn resumed_at<F>(a: VM<F>, f: Frame, g: Frame, j: nat, obj: ObjectRef) -> bool {
    &&& g.class == f.class
    &&& g.method_index == f.method_index
    &&& g.locals@ == f.locals@
    &&& g.operand_stack@ == seq![Value::Reference(Some(obj))]
    &&& g.pc == a.classes@[f.class.0 as int].methods@[f.method_index as int].exception_handlers@[j as int].handler_pc
}

/// What the search of the frames up to the `n`-th of `fs` gives, where the
/// `n`-th frame's own handlers give `fc`.
pub open spec fn after_frame<F>(fc: ChainLookup<nat>, a: VM<F>, k: ClassRef, fs: Seq<Frame>, n: nat) -> ChainLookup<
    (nat, nat),
> {
    match fc {
        ChainLookup::Found(j) => ChainLookup::Found(((n - 1) as nat, j)),
        ChainLookup::Missing => catching_frame(a, k, fs, (n - 1) as nat),
        ChainLookup::BadClass => ChainLookup::BadClass,
    }
}

/// Whether unwinding thread `t` from `a` to `b` for exception `obj`, of
/// class `k`, gave `r` as the handler search says: where a frame catches
/// it, the topmost such frame goes on at its first such handler and the
/// frames above it are gone (`Ok(true)`); where none does, the thread has
/// no frames left (`Ok(false)`).
pub open spec fn unwound_as<F>(
    a: VM<F>,
    b: VM<F>,
    t: ThreadRef,
    k: ClassRef,
    obj: ObjectRef,
    r: Result<bool, RuntimeError>,
) -> bool {
    let fs = frames_of(a, t);
    let gs = frames_of(b, t);
    match catching_frame(a, k, fs, fs.len()) {
        ChainLookup::Found((i, j)) => {
            &&& r == Ok::<bool, RuntimeError>(true)
            &&& gs.len() == i + 1
            &&& gs.drop_last() == fs.take(i as int)
            &&& resumed_at(a, fs[i as int], gs.last(), j, obj)
        },
        ChainLookup::Missing => r == Ok::<bool, RuntimeError>(false) && gs.len() == 0,
        ChainLookup::BadClass => true,
    }
}

/// What one step of thread `t` did from `a` to `b`, giving `r`: `step`'s
/// contract as one statement.
pub open spec fn stepped<F>(a: VM<F>, b: VM<F>, t: ThreadRef, r: Result<StepOutcome, RuntimeError>) -> bool {
    &&& moved_on(a, b, Some(t))
    &&& r matches Ok(StepOutcome::Return(_)) ==> frames_of(b, t).len() == 0
    &&& a.steps_left == 0 ==> r is Err && is_step_limit(r->Err_0)
    &&& a.steps_left > 0 ==> b.steps_left < a.steps_left
    &&& a.steps_left > 0 ==> (current_instruction(a, t) matches Some(
                (f, i),
            ) ==> (local_step(advanced(f, i), i) matches Some(expected) ==> step_matches(
                a,
                b,
                t,
                expected,
                r,
            )))
    &&& a.steps_left > 0 ==> (current_instruction(a, t) matches Some(
                (f, i),
            ) ==> (local_step(advanced(f, i), i) is None && !is_float_op(i.op) && !is_return(i.op)
                && r is Ok ==> r->Ok_0 is Continue && exists|g: Frame, nf: Option<Frame>|
                #![trigger op_done(a, b, Frame { pc: i.next_pc, ..f }, g, nf, i)]
                op_done(a, b, Frame { pc: i.next_pc, ..f }, g, nf, i) && frames_of(
                    b,
                    t,
                ) == frames_after(frames_of(a, t).drop_last(), g, nf)))
    &&& a.steps_left > 0 ==> (current_instruction(a, t) matches Some(
                (f, i),
            ) ==> (local_step(advanced(f, i), i) is None && !is_float_op(i.op) && op_owed(
                a,
                Frame { pc: i.next_pc, ..f },
                i,
            ) ==> r is Ok))
    &&& a.steps_left > 0 ==> (current_instruction(a, t) matches Some(
                (f, i),
            ) ==> (local_step(advanced(f, i), i) is None && !is_float_op(i.op) ==> (op_throws(
                a,
                Frame { pc: i.next_pc, ..f },
                i,
            ) matches Some(n) ==> r is Err && thrown_new(a, b, n, None, r->Err_0))))
    &&& a.steps_left > 0 ==> (current_instruction(a, t) matches Some(
                (f, i),
            ) ==> (is_return(i.op) ==> return_done(
                frames_of(a, t).drop_last(),
                frames_of(b, t),
                f,
                i.op,
                r,
            )))
}

/// Whether unwinding thread `t` from `a` to `b` for exception `obj` gave
/// `r`: `unwind_to_handler`'s contract as one statement.
pub open spec fn unwinding<F>(a: VM<F>, b: VM<F>, t: ThreadRef, obj: ObjectRef, r: Result<bool, RuntimeError>) -> bool {
    &&& moved_on(a, b, Some(t))
    &&& b.steps_left == a.steps_left
    &&& r matches Ok(true) ==> caught(b.classes@, frames_of(a, t), frames_of(b, t), obj)
    &&& r matches Ok(false) ==> frames_of(b, t).len() == 0
    &&& r matches Err(e) ==> e is Internal
    &&& t.0 < a.threads@.len() ==> (heap_object(a.heap@, obj) matches Some(o) ==> unwound_as(
        a,
        b,
        t,
        o.class,
        obj,
        r,
    ))
}

/// Whether the run loop went on from `s` to `s2` on thread `t`: a step that
/// continued, or one that threw an exception that a handler caught.
pub open spec fn went_on<F>(s: VM<F>, s2: VM<F>, t: ThreadRef) -> bool {
    ||| stepped(s, s2, t, Ok(StepOutcome::Continue))
    ||| exists|m: VM<F>, o: ObjectRef|
        #[trigger] stepped(s, m, t, Err::<StepOutcome, RuntimeError>(RuntimeError::Thrown(o)))
            && unwinding(m, s2, t, o, Ok(true))
}

/// Whether the run of thread `t` ended from `s` in `b` with `r`: the value
/// of the step that returned from the thread's last frame; an exception
/// that a step threw and no frame caught; or the internal error of a step
/// or of the handler search, given back at once.
pub open spec fn ended<F>(s: VM<F>, b: VM<F>, t: ThreadRef, r: Result<Value, RuntimeError>) -> bool {
    match r {
        Ok(v) => stepped(s, b, t, Ok(StepOutcome::Return(v))),
        Err(RuntimeError::Thrown(o)) => exists|m: VM<F>|
            #[trigger] stepped(s, m, t, Err::<StepOutcome, RuntimeError>(RuntimeError::Thrown(o)))
                && unwinding(m, b, t, o, Ok(false)),
        Err(RuntimeError::Internal(e)) => {
            ||| stepped(s, b, t, Err::<StepOutcome, RuntimeError>(RuntimeError::Internal(e)))
            ||| exists|m: VM<F>, o: ObjectRef|
                #[trigger] stepped(s, m, t, Err::<StepOutcome, RuntimeError>(RuntimeError::Thrown(o)))
                    && unwinding(m, b, t, o, Err::<bool, RuntimeError>(RuntimeError::Internal(e)))
        },
    }
}

/// Whether `ss` is a run of thread `t` from `a` ending in `b` with `r`: the
/// states between the run loop's rounds, each round going on from the one
/// before, the last one ending the run.
pub open spec fn run_trace<F>(ss: Seq<VM<F>>, a: VM<F>, b: VM<F>, t: ThreadRef, r: Result<Value, RuntimeError>) -> bool {
    &&& ss.len() > 0
    &&& ss[0] == a
    &&& forall|k: int| #![trigger ss[k]] 0 <= k < ss.len() - 1 ==> went_on(ss[k], ss[k + 1], t)
    &&& ended(ss.last(), b, t, r)
}

/// Whether running thread `t` from `a` ended in `b` with `r`, round by round
/// as `step` and `unwind_to_handler` say.
pub open spec fn run_done<F>(a: VM<F>, b: VM<F>, t: ThreadRef, r: Result<Value, RuntimeError>) -> bool {
    exists|ss: Seq<VM<F>>| #[trigger] run_trace(ss, a, b, t, r)
}

/// Whether a call of method `name` with descriptor `d` on object `receiver`
/// with arguments `args`, from `a` to `b`, ran to `r`: after loading what
/// finding the receiver's class took, a new thread started the method that
/// the receiver's class or a superclass declares, with the receiver and the
/// arguments in its locals, and running it gave `r`.
#[verifier::opaque]
pub open spec fn called_virtual<F>(
    a: VM<F>,
    b: VM<F>,
    receiver: ObjectRef,
    name: Seq<char>,
    d: Seq<char>,
    args: Seq<Value>,
    r: Result<Value, RuntimeError>,
) -> bool {
    exists|l: VM<F>, s: VM<F>, t: ThreadRef, c: ClassRef, m: usize|
        #[trigger] started(l, s, t, c, m) && crate::vm::vm::only_loaded(a, l) && (heap_object(a.heap@, receiver)
            matches Some(o) ==> virtual_method(l.classes@, o.class, name, d, l.classes@.len())
            == ChainLookup::Found((c, m as nat))) && frames_of(s, t)[0].locals@ == placed(
            Seq::new(frames_of(s, t)[0].locals@.len(), |i: int| Value::Empty),
            seq![Value::Reference(Some(receiver))] + args,
            0,
        ) && run_done(s, b, t, r)
}

/// Whether a call of method `name` with descriptor `d` on object
/// `receiver` with arguments `args` gets as far as running the method from
/// `a`: the receiver is an object whose class or a superclass declares the
/// method, the receiver and the arguments fit in the method's locals, and
/// one more thread can be made.
pub open spec fn virtual_owed<F>(a: VM<F>, receiver: ObjectRef, name: Seq<char>, d: Seq<char>, args: Seq<Value>) -> bool {
    &&& heap_object(a.heap@, receiver) matches Some(o)
    &&& virtual_method(a.classes@, o.class, name, d, a.classes@.len()) matches ChainLookup::Found((c, m))
    &&& c.0 < a.classes@.len()
    &&& m < a.classes@[c.0 as int].methods@.len()
    &&& args_fit(
        seq![Value::Reference(Some(receiver))] + args,
        0,
        a.classes@[c.0 as int].methods@[m as int].max_locals as int,
    )
    &&& a.threads@.len() < usize::MAX
}

/// Whether the only frame of thread `t` of `s` starts a method
/// `main([Ljava/lang/String;)I`, at pc 0 with an empty operand stack.
pub open spec fn main_frame<F>(s: VM<F>, t: ThreadRef) -> bool {
    let fs = frames_of(s, t);
    &&& fs.len() == 1
    &&& fs[0].class.0 < s.classes@.len()
    &&& fs[0].method_index < s.classes@[fs[0].class.0 as int].methods@.len()
    &&& s.classes@[fs[0].class.0 as int].methods@[fs[0].method_index as int].name@ == "main"@
    &&& s.classes@[fs[0].class.0 as int].methods@[fs[0].method_index as int].descriptor@
        == "([Ljava/lang/String;)I"@
    &&& fs[0].pc == 0
    &&& fs[0].operand_stack@.len() == 0
}

/// Whether some run of a thread that started with one frame ended in the
/// error `e`.
pub open spec fn run_failed<F>(e: RuntimeError) -> bool {
    exists|s: VM<F>, b: VM<F>, t: ThreadRef|
        #[trigger] run_done(s, b, t, Err::<Value, RuntimeError>(e)) && frames_of(s, t).len() == 1
}

/// Whether a program with main class `main_class` may fail in `a` before
/// its `main` method runs: too many threads to start the three runs,
/// `java/lang/System` not loaded and initialized with an
/// `initializeSystemClass()V` method, or the main class not loaded.
pub open spec fn main_unready<F>(a: VM<F>, main_class: Seq<char>) -> bool {
    ||| a.threads@.len() + 3 >= usize::MAX
    ||| !(a.class_named("java/lang/System"@) matches Some(k) && lookup(a.static_storage@, ClassRef(k as usize))
        is Some && crate::vm::runtime_class::first_method(
        crate::vm::runtime_class::method_views(a.classes@[k as int]),
        "initializeSystemClass"@,
        "()V"@,
    ) is Some)
    ||| a.class_named(main_class) is None
}

/// Whether `s` is `a` with a new thread `t` whose only frame starts method
/// `m` of class `c`: at pc 0, with an empty operand stack.
pub open spec fn started<F>(a: VM<F>, s: VM<F>, t: ThreadRef, c: ClassRef, m: usize) -> bool {
    &&& same_but_threads(a, s)
    &&& s.steps_left == a.steps_left
    &&& t.0 == a.threads@.len()
    &&& frames_of(s, t).len() == 1
    &&& frames_of(s, t)[0].class == c
    &&& frames_of(s, t)[0].method_index == m
    &&& frames_of(s, t)[0].pc == 0
    &&& frames_of(s, t)[0].operand_stack@.len() == 0
}

impl Interpreter {
    /// Runs thread `thread_ref` until its last frame returns, and gives the
    /// value returned; an exception that no handler catches comes back as
    /// `RuntimeError::Thrown`.
    pub fn run<F: FloatArithmetic>(vm: &mut VM<F>, thread_ref: ThreadRef) -> (r: Result<
        Value,
        RuntimeError,
    >)
        requires
            old(vm).wf(),
        ensures
            moved_on(*old(vm), *final(vm), Some(thread_ref)),
            r is Ok ==> frames_of(*final(vm), thread_ref).len() == 0,
            r matches Err(RuntimeError::Thrown(_)) ==> frames_of(*final(vm), thread_ref).len() == 0,
            run_done(*old(vm), *final(vm), thread_ref, r),
    {
        Self::run_within(vm, thread_ref, MAX_NESTING)
    }

    /// `run`, with `depth` levels of nested running left.
    pub fn run_within<F: FloatArithmetic>(vm: &mut VM<F>, thread_ref: ThreadRef, depth: usize) -> (r:
        Result<Value, RuntimeError>)
        requires
            old(vm).wf(),
        ensures
            moved_on(*old(vm), *final(vm), Some(thread_ref)),
            r is Ok ==> frames_of(*final(vm), thread_ref).len() == 0,
            r matches Err(RuntimeError::Thrown(_)) ==> frames_of(*final(vm), thread_ref).len() == 0,
            run_done(*old(vm), *final(vm), thread_ref, r),
        decreases depth, 10nat,
    {
        let ghost start = *vm;
        let ghost mut ss: Seq<VM<F>> = seq![start];
        loop
            invariant
                vm.wf(),
                start == *old(vm),
                moved_on(start, *vm, Some(thread_ref)),
                ss.len() > 0,
                ss[0] == start,
                ss.last() == *vm,
                forall|k: int| #![trigger ss[k]] 0 <= k < ss.len() - 1 ==> went_on(ss[k], ss[k + 1], thread_ref),
            decreases vm.steps_left,
        {
            let ghost before = *vm;
            match Self::step(vm, thread_ref, depth) {
                Ok(StepOutcome::Continue) => {
                    proof {
                        lemma_moved_trans(start, before, *vm, Some(thread_ref));
                        let ss2 = ss.push(*vm);
                        assert(went_on(before, *vm, thread_ref));
                        assert forall|k: int| #![trigger ss2[k]] 0 <= k < ss2.len() - 1 implies went_on(
                            ss2[k],
                            ss2[k + 1],
                            thread_ref,
                        ) by {
                            if k < ss.len() - 1 {
                                assert(ss2[k] == ss[k] && ss2[k + 1] == ss[k + 1]);
                            }
                        }
                        ss = ss2;
                    }
                },
                Ok(StepOutcome::Return(v)) => {
                    proof {
                        lemma_moved_trans(start, before, *vm, Some(thread_ref));
                        assert(ended(ss.last(), *vm, thread_ref, Ok::<Value, RuntimeError>(v)));
                        assert(run_trace(ss, start, *vm, thread_ref, Ok::<Value, RuntimeError>(v)));
                    }
                    return Ok(v);
                },
                Err(RuntimeError::Internal(e)) => {
                    proof {
                        lemma_moved_trans(start, before, *vm, Some(thread_ref));
                        let rr = Err::<Value, RuntimeError>(RuntimeError::Internal(e));
                        assert(ended(ss.last(), *vm, thread_ref, rr));
                        assert(run_trace(ss, start, *vm, thread_ref, rr));
                    }
                    return Err(RuntimeError::Internal(e));
                },
                Err(RuntimeError::Thrown(obj_ref)) => {
                    let ghost mid = *vm;
                    proof {
                        lemma_moved_trans(start, before, mid, Some(thread_ref));
                    }
                    let caught = Self::unwind_to_handler(vm, thread_ref, obj_ref);
                    proof {
                        lemma_moved_trans(start, mid, *vm, Some(thread_ref));
                        assert(stepped(
                            before,
                            mid,
                            thread_ref,
                            Err::<StepOutcome, RuntimeError>(RuntimeError::Thrown(obj_ref)),
                        ));
                    }
                    match caught {
                        Ok(true) => {
                            proof {
                                let ss2 = ss.push(*vm);
                                assert(went_on(before, *vm, thread_ref));
                                assert forall|k: int| #![trigger ss2[k]] 0 <= k < ss2.len() - 1 implies went_on(
                                    ss2[k],
                                    ss2[k + 1],
                                    thread_ref,
                                ) by {
                                    if k < ss.len() - 1 {
                                        assert(ss2[k] == ss[k] && ss2[k + 1] == ss[k + 1]);
                                    }
                                }
                                ss = ss2;
                            }
                        },
                        Ok(false) => {
                            proof {
                                let rr = Err::<Value, RuntimeError>(RuntimeError::Thrown(obj_ref));
                                assert(ended(ss.last(), *vm, thread_ref, rr));
                                assert(run_trace(ss, start, *vm, thread_ref, rr));
                            }
                            return Err(RuntimeError::Thrown(obj_ref));
                        },
                        Err(e) => {
                            proof {
                                let rr = Err::<Value, RuntimeError>(e);
                                assert(e is Internal);
                                assert(ended(ss.last(), *vm, thread_ref, rr));
                                assert(run_trace(ss, start, *vm, thread_ref, rr));
                            }
                            return Err(e);
                        },
                    }
                },
            }
        }
    }

    /// Looks for a handler of the exception `obj_ref` in the frames of
    /// thread `thread_ref`, from the current one down; frames without one
    /// are removed. `true` when a handler was found: its frame goes on at
    /// the handler with only the exception on its operand stack.
    #[verifier::spinoff_prover]
    #[verifier::rlimit(100)]
    pub fn unwind_to_handler<F>(vm: &mut VM<F>, thread_ref: ThreadRef, obj_ref: ObjectRef) -> (r:
        Result<bool, RuntimeError>)
        requires
            old(vm).wf(),
        ensures
            moved_on(*old(vm), *final(vm), Some(thread_ref)),
            final(vm).steps_left == old(vm).steps_left,
            r matches Ok(true) ==> caught(
                final(vm).classes@,
                frames_of(*old(vm), thread_ref),
                frames_of(*final(vm), thread_ref),
                obj_ref,
            ),
            r matches Ok(false) ==> frames_of(*final(vm), thread_ref).len() == 0,
            r matches Err(e) ==> e is Internal,
            thread_ref.0 < old(vm).threads@.len() ==> (heap_object(old(vm).heap@, obj_ref) matches Some(o)
                ==> unwound_as(*old(vm), *final(vm), thread_ref, o.class, obj_ref, r)),
            unwinding(*old(vm), *final(vm), thread_ref, obj_ref, r),
            r == Ok::<bool, RuntimeError>(true) ==> (heap_object(old(vm).heap@, obj_ref) matches Some(o) ==> (o.class.0
                < old(vm).classes@.len() ==> exists|i: int, j: int|
                #[trigger] took_handler(*old(vm), *final(vm), thread_ref, o.class, obj_ref, i, j))),
            r == Ok::<bool, RuntimeError>(false) ==> (heap_object(old(vm).heap@, obj_ref) matches Some(o) ==> (o.class.0
                < old(vm).classes@.len() ==> refused_from(*old(vm), *final(vm), thread_ref, o.class, 0))),
    {
        let obj_class = vm.heap.get_object(obj_ref)?.class;
        if thread_ref.0 >= vm.threads.len() {
            return Err(RuntimeError::Internal(InternalError::ThreadNotFound { thread_id: thread_ref.0 }));
        }
        let ghost start = *vm;
        let ghost fs0 = frames_of(start, thread_ref);
        let ghost whole = catching_frame(start, obj_class, fs0, fs0.len());
        let ghost mut lost = false;
        loop
            invariant
                vm.wf(),
                start == *old(vm),
                moved_on(start, *vm, Some(thread_ref)),
                vm.steps_left == start.steps_left,
                thread_ref.0 < vm.threads@.len(),
                fs0 == frames_of(start, thread_ref),
                whole == catching_frame(start, obj_class, fs0, fs0.len()),
                heap_object(start.heap@, obj_ref) matches Some(o) && o.class == obj_class,
                frames_of(*vm, thread_ref).len() <= fs0.len(),
                frames_of(*vm, thread_ref) == fs0.subrange(0, frames_of(*vm, thread_ref).len() as int),
                !lost ==> vm.classes@ == start.classes@,
                !lost ==> whole == catching_frame(
                    start,
                    obj_class,
                    fs0,
                    frames_of(*vm, thread_ref).len(),
                ),
                lost ==> whole is BadClass,
                obj_class.0 < start.classes@.len() ==> refused_from(
                    start,
                    *vm,
                    thread_ref,
                    obj_class,
                    frames_of(*vm, thread_ref).len() as int,
                ),
            decreases frames_of(*vm, thread_ref).len(),
        {
            let (frame_class, frame_method, pc) = {
                let thread = &vm.threads[thread_ref.0];
                let n = thread.frames.len();
                if n == 0 {
                    return Ok(false);
                }
                let f = &thread.frames[n - 1];
                (f.class, f.method_index, f.pc)
            };
            let handlers = copy_handlers(vm.get_method(frame_class, frame_method)?);
            let ghost frames_before = frames_of(*vm, thread_ref);
            let ghost n = frames_before.len();
            let ghost m0 = vm.classes@[frame_class.0 as int].methods@[frame_method as int];
            let ghost hs = m0.exception_handlers@;
            let mut k: usize = 0;
            while k < handlers.len()
                invariant
                    vm.wf(),
                    start == *old(vm),
                    moved_on(start, *vm, Some(thread_ref)),
                    vm.steps_left == start.steps_left,
                    thread_ref.0 < vm.threads@.len(),
                    fs0 == frames_of(start, thread_ref),
                    whole == catching_frame(start, obj_class, fs0, fs0.len()),
                    heap_object(start.heap@, obj_ref) matches Some(o) && o.class == obj_class,
                    frames_of(*vm, thread_ref) == frames_before,
                    n == frames_before.len(),
                    frames_before.len() > 0,
                    frames_before.len() <= fs0.len(),
                    frames_before == fs0.subrange(0, frames_before.len() as int),
                    frames_before.last().class == frame_class,
                    frames_before.last().method_index == frame_method,
                    frames_before.last().pc == pc,
                    frame_class.0 < vm.classes@.len(),
                    frame_method < vm.classes@[frame_class.0 as int].methods@.len(),
                    vm.classes@[frame_class.0 as int].methods@[frame_method as int] == m0,
                    hs == m0.exception_handlers@,
                    handlers@.len() == m0.exception_handlers@.len(),
                    forall|j: int|
                        0 <= j < handlers@.len() ==> (#[trigger] handlers@[j]).0
                            == m0.exception_handlers@[j].start_pc && handlers@[j].1
                            == m0.exception_handlers@[j].end_pc && handlers@[j].2
                            == m0.exception_handlers@[j].handler_pc && text_of(handlers@[j].3)
                            == text_of(m0.exception_handlers@[j].catch_class),
                    k <= handlers@.len(),
                    !lost ==> vm.classes@ == start.classes@,
                    !lost ==> whole == after_frame(
                        first_catch(start, obj_class, hs, pc, k as nat),
                        start,
                        obj_class,
                        fs0,
                        n,
                    ),
                    lost ==> whole is BadClass,
                    obj_class.0 < start.classes@.len() ==> refused_from(start, *vm, thread_ref, obj_class, n as int),
                    obj_class.0 < start.classes@.len() ==> forall|j: int|
                        0 <= j < k && has_handler(start, frames_before.last(), j) ==> #[trigger] handler_refuses(
                            start,
                            *vm,
                            obj_class,
                            frame_handler(start, frames_before.last(), j),
                            pc,
                        ),
                decreases handlers@.len() - k,
            {
                let (start_pc, end_pc, handler_pc) = (handlers[k].0, handlers[k].1, handlers[k].2);
                let in_range = (start_pc as usize) <= pc && pc < (end_pc as usize);
                let ghost mut mcs: Seq<RuntimeClass> = vm.classes@;
                let ghost mut mc: ClassRef = ClassRef(0);
                if in_range {
                    let matches = match &handlers[k].3 {
                        None => true,
                        Some(name) => {
                            let ghost b = *vm;
                            proof {
                                if start.class_named(name@) is None {
                                    lost = true;
                                }
                                crate::vm::vm::lemma_last_named_bound(b.classes@, name@, b.classes@.len());
                                crate::vm::vm::lemma_named_found(b.classes@, name@, b.classes@.len(), 0);
                            }
                            let catch_ref = vm.resolve_class(name.as_str())?;
                            proof {
                                lemma_loaded_progress(b, *vm);
                                lemma_moved_trans(start, b, *vm, Some(thread_ref));
                                if obj_class.0 < start.classes@.len() {
                                    lemma_refused_grow(start, b, *vm, thread_ref, obj_class, n as int);
                                    assert forall|j: int|
                                        0 <= j < k && has_handler(start, frames_before.last(), j) implies #[trigger] handler_refuses(
                                        start,
                                        *vm,
                                        obj_class,
                                        frame_handler(start, frames_before.last(), j),
                                        pc,
                                    ) by {
                                        lemma_refuses_grow(start, b, *vm, obj_class, frame_handler(start, frames_before.last(), j), pc);
                                    }
                                }
                            }
                            let res = vm.is_assignable(obj_class, catch_ref)?;
                            proof {
                                mcs = vm.classes@;
                                mc = catch_ref;
                                if !res && start.class_named(name@) is Some {
                                    crate::vm::vm::lemma_named_kept(start.classes@, b.classes@, name@);
                                    let ni = b.class_named(name@)->Some_0;
                                    assert(b.classes@.len() == b.classes.len());
                                    assert(mc.0 == ni);
                                    assert(mcs[mc.0 as int].name@ == name@);
                                    assert(assignable(mcs, obj_class, mc, mcs.len()) == Ok::<bool, ()>(false));
                                }
                                if res && obj_class.0 < start.classes@.len() {
                                    assert(crate::vm::vm::refs_ok(mcs));
                                    crate::vm::vm::lemma_assignable_below(mcs, obj_class, mc, mcs.len());
                                    assert(b.class_named(name@) is Some);
                                    let ni = b.class_named(name@)->Some_0;
                                    assert(b.classes@.len() == b.classes.len());
                                    assert(mc.0 == ni);
                                    assert(mcs == b.classes@);
                                    assert(b.classes@[ni as int].name@ == name@);
                                    assert(mcs[mc.0 as int].name@ == name@);
                                }
                            }
                            res
                        },
                    };
                    proof {
                        if matches && handlers@[k as int].3 is Some {
                            assert(assignable(mcs, obj_class, mc, mcs.len()) == Ok::<bool, ()>(true));
                            assert(mc.0 < mcs.len());
                            assert(mcs == vm.classes@);
                            assert(obj_class.0 < start.classes@.len() ==> mcs[mc.0 as int].name@
                                == handlers@[k as int].3->Some_0@);
                        }
                    }
                    if matches {
                        let ghost b = *vm;
                        let mut frame = match vm.take_frame(thread_ref) {
                            Some(f) => f,
                            None => {
                                return Ok(false);
                            },
                        };
                        let ghost h = frame;
                        frame.pc = handler_pc as usize;
                        frame.operand_stack.clear();
                        frame.push_value(Value::Reference(Some(obj_ref)));
                        vm.put_frame(thread_ref, frame);
                        proof {
                            lemma_frames_progress(b, *vm, thread_ref);
                            lemma_moved_trans(start, b, *vm, Some(thread_ref));
                            let fs = frames_of(start, thread_ref);
                            let gs = frames_of(*vm, thread_ref);
                            assert(h == frames_before.last());
                            assert(gs == frames_before.drop_last().push(frame));
                            assert(frames_before == fs.subrange(0, frames_before.len() as int));
                            assert(gs.drop_last() =~= fs.subrange(0, gs.len() - 1));
                            assert(gs.drop_last() =~= fs.take(gs.len() - 1));
                            assert(fs[gs.len() - 1] == h);
                            assert(frame.operand_stack@ =~= seq![Value::Reference(Some(obj_ref))]);
                            let cs = vm.classes@;
                            assert(cs[h.class.0 as int].methods@[h.method_index as int].exception_handlers@[k as int].handler_pc == handler_pc);
                            assert(at_handler(cs, h, frame, obj_ref));
                            if obj_class.0 < start.classes@.len() {
                                assert(vm.classes@ == b.classes@);
                                assert(classes_grow(start.classes@, b.classes@));
                                assert(classes_grow(mcs, vm.classes@)) by {
                                    if handlers@[k as int].3 is Some {
                                        assert(mcs == b.classes@);
                                    }
                                }
                                lemma_refused_grow(start, b, *vm, thread_ref, obj_class, n as int);
                                assert(fs[gs.len() - 1] == frames_before.last());
                                assert forall|l: int|
                                    0 <= l < k && has_handler(start, fs[gs.len() - 1], l) implies #[trigger] handler_refuses(
                                    start,
                                    *vm,
                                    obj_class,
                                    frame_handler(start, fs[gs.len() - 1], l),
                                    fs[gs.len() - 1].pc,
                                ) by {
                                    lemma_refuses_grow(start, b, *vm, obj_class, frame_handler(start, fs[gs.len() - 1], l), pc);
                                }
                                lemma_took(start, *vm, thread_ref, obj_class, obj_ref, gs.len() - 1, k as int, mcs, mc);
                            }
                        }
                        return Ok(true);
                    }
                }
                proof {
                    if obj_class.0 < start.classes@.len() && has_handler(start, frames_before.last(), k as int) {
                        assert(start.classes@[frame_class.0 as int] == vm.classes@[frame_class.0 as int]);
                        let x = frame_handler(start, frames_before.last(), k as int);
                        assert(x == m0.exception_handlers@[k as int]);
                        if x.start_pc <= pc < x.end_pc {
                            assert(in_range);
                            assert(handlers@[k as int].3 is Some);
                            let name = text_of(x.catch_class)->Some_0;
                            if start.class_named(name) is Some {
                                assert(classes_grow(mcs, vm.classes@));
                                assert(assignable(mcs, obj_class, mc, mcs.len()) == Ok::<bool, ()>(false));
                            }
                        }
                        assert(handler_refuses(start, *vm, obj_class, x, pc));
                    }
                }
                k = k + 1;
            }
            let ghost b = *vm;
            let _ = vm.take_frame(thread_ref);
            proof {
                lemma_frames_progress(b, *vm, thread_ref);
                lemma_moved_trans(start, b, *vm, Some(thread_ref));
                let fs = frames_of(start, thread_ref);
                assert(frames_of(*vm, thread_ref) =~= fs.subrange(
                    0,
                    frames_of(*vm, thread_ref).len() as int,
                ));
                if obj_class.0 < start.classes@.len() {
                    assert(vm.classes@ == b.classes@);
                    assert(frames_of(*vm, thread_ref).len() == n - 1);
                    assert(fs[n - 1] == frames_before.last());
                    lemma_refused_grow(start, b, *vm, thread_ref, obj_class, n as int);
                    assert forall|i: int, j: int|
                        n - 1 <= i < fs.len() && has_handler(start, fs[i], j) implies #[trigger] handler_refuses(
                        start,
                        *vm,
                        obj_class,
                        frame_handler(start, fs[i], j),
                        fs[i].pc,
                    ) by {
                        if i == n - 1 {
                            lemma_refuses_grow(start, b, *vm, obj_class, frame_handler(start, fs[i], j), fs[i].pc);
                        }
                    }
                }
            }
        }
    }

    /// Runs one instruction of thread `thread_ref` (or its current native
    /// method). Each step uses one of the steps left; none left is an error.
    /// An instruction that works on its frame alone does exactly what
    /// `local_step` says.
    pub fn step<F: FloatArithmetic>(vm: &mut VM<F>, thread_ref: ThreadRef, depth: usize) -> (r:
        Result<StepOutcome, RuntimeError>)
        requires
            old(vm).wf(),
        ensures
            moved_on(*old(vm), *final(vm), Some(thread_ref)),
            r matches Ok(StepOutcome::Return(_)) ==> frames_of(*final(vm), thread_ref).len() == 0,
            old(vm).steps_left == 0 ==> r is Err && is_step_limit(r->Err_0),
            old(vm).steps_left > 0 ==> final(vm).steps_left < old(vm).steps_left,
            old(vm).steps_left > 0 ==> (current_instruction(*old(vm), thread_ref) matches Some(
                (f, i),
            ) ==> (local_step(advanced(f, i), i) matches Some(expected) ==> step_matches(
                *old(vm),
                *final(vm),
                thread_ref,
                expected,
                r,
            ))),
            old(vm).steps_left > 0 ==> (current_instruction(*old(vm), thread_ref) matches Some(
                (f, i),
            ) ==> (local_step(advanced(f, i), i) is None && !is_float_op(i.op) && !is_return(i.op)
                && r is Ok ==> r->Ok_0 is Continue && exists|g: Frame, nf: Option<Frame>|
                #![trigger op_done(*old(vm), *final(vm), Frame { pc: i.next_pc, ..f }, g, nf, i)]
                op_done(*old(vm), *final(vm), Frame { pc: i.next_pc, ..f }, g, nf, i) && frames_of(
                    *final(vm),
                    thread_ref,
                ) == frames_after(frames_of(*old(vm), thread_ref).drop_last(), g, nf))),
            old(vm).steps_left > 0 ==> (current_instruction(*old(vm), thread_ref) matches Some(
                (f, i),
            ) ==> (local_step(advanced(f, i), i) is None && !is_float_op(i.op) && op_owed(
                *old(vm),
                Frame { pc: i.next_pc, ..f },
                i,
            ) ==> r is Ok)),
            old(vm).steps_left > 0 ==> (current_instruction(*old(vm), thread_ref) matches Some(
                (f, i),
            ) ==> (local_step(advanced(f, i), i) is None && !is_float_op(i.op) ==> (op_throws(
                *old(vm),
                Frame { pc: i.next_pc, ..f },
                i,
            ) matches Some(n) ==> r is Err && thrown_new(*old(vm), *final(vm), n, None, r->Err_0)))),
            old(vm).steps_left > 0 ==> (current_instruction(*old(vm), thread_ref) matches Some(
                (f, i),
            ) ==> (is_return(i.op) ==> return_done(
                frames_of(*old(vm), thread_ref).drop_last(),
                frames_of(*final(vm), thread_ref),
                f,
                i.op,
                r,
            ))),
            stepped(*old(vm), *final(vm), thread_ref, r),
        decreases depth, 9nat,
    {
        if vm.steps_left == 0 {
            return Err(RuntimeError::Internal(InternalError::StepLimitExceeded));
        }
        vm.steps_left = vm.steps_left - 1;
        if thread_ref.0 >= vm.threads.len() {
            return Err(RuntimeError::Internal(InternalError::ThreadNotFound { thread_id: thread_ref.0 }));
        }
        let ghost after_tick = *vm;
        let ghost start = *old(vm);
        let mut frame = match vm.take_frame(thread_ref) {
            Some(f) => f,
            None => {
                return Err(
                    RuntimeError::Internal(InternalError::NoCurrentFrame { thread_id: thread_ref.0 }),
                );
            },
        };
        let next = match next_step(vm, &frame) {
            Ok(n) => n,
            Err(e) => {
                vm.put_frame(thread_ref, frame);
                proof {
                    lemma_frames_progress(after_tick, *vm, thread_ref);
                }
                return Err(e);
            },
        };
        let (class_name, method_name) = frame_names(vm, &frame);
        match next {
            NextStep::Insn(i) => {
                frame.pc = i.next_pc;
                let local = exec_local(&mut frame, &i, &vm.floats, class_name.as_str(), method_name.as_str());
                match local {
                    Some(Ok(LocalOutcome::Next)) => {
                        vm.put_frame(thread_ref, frame);
                        proof {
                            lemma_frames_progress(after_tick, *vm, thread_ref);
                        }
                        Ok(StepOutcome::Continue)
                    },
                    Some(Err(e)) => {
                        vm.put_frame(thread_ref, frame);
                        proof {
                            lemma_frames_progress(after_tick, *vm, thread_ref);
                        }
                        Err(e)
                    },
                    Some(Ok(LocalOutcome::Throw(c, m))) => {
                        vm.put_frame(thread_ref, frame);
                        let ghost put = *vm;
                        proof {
                            lemma_frames_progress(after_tick, put, thread_ref);
                        }
                        let e = vm.throw_within(c.as_str(), Some(m.as_str()), depth);
                        proof {
                            lemma_moved_trans(after_tick, put, *vm, Some(thread_ref));
                        }
                        Err(e)
                    },
                    None => {
                        let ghost b = *vm;
                        let ghost fx = frame;
                        let r = exec_vm_op(vm, thread_ref, frame, &i, class_name.as_str(), method_name.as_str(), depth);
                        proof {
                            lemma_moved_trans(after_tick, b, *vm, Some(thread_ref));
                            if r is Ok && !is_return(i.op) && current_instruction(start, thread_ref) is Some {
                                let (f, i0) = current_instruction(start, thread_ref).unwrap();
                                let fa = Frame { pc: i.next_pc, ..f };
                                assert(i0 == i);
                                assert(fx.model() == fa.model());
                                let (g, nf) = choose|g: Frame, nf: Option<Frame>|
                                    op_done(b, *vm, fx, g, nf, i) && frames_of(*vm, thread_ref)
                                        == frames_after(frames_of(b, thread_ref), g, nf);
                                lemma_op_done_from(start, b, *vm, fa, fx, g, nf, i);
                                assert(frames_of(b, thread_ref) == frames_of(start, thread_ref).drop_last());
                            }
                            if current_instruction(start, thread_ref) is Some {
                                let (f, i0) = current_instruction(start, thread_ref).unwrap();
                                let fa = Frame { pc: i.next_pc, ..f };
                                if op_owed(start, fa, i) {
                                    assert(i0 == i);
                                    assert(fx.model() == fa.model());
                                    lemma_op_owed_from(start, b, fa, fx, i);
                                }
                                if local_step(advanced(f, i0), i0) is None && !is_float_op(i0.op) {
                                    assert(i0 == i);
                                    assert(fx.model() == fa.model());
                                    lemma_throws_from(start, b, *vm, fa, fx, i, r->Err_0);
                                }
                            }
                            if is_return(i.op) && current_instruction(start, thread_ref) is Some {
                                let (f, i0) = current_instruction(start, thread_ref).unwrap();
                                assert(i0 == i);
                                assert(fx.operand_stack@ == f.operand_stack@);
                                assert(frames_of(b, thread_ref) == frames_of(start, thread_ref).drop_last());
                            }
                        }
                        r
                    },
                }
            },
            NextStep::Native => {
                vm.put_frame(thread_ref, frame);
                let ghost put = *vm;
                proof {
                    lemma_frames_progress(after_tick, put, thread_ref);
                }
                let r = call_native(vm, thread_ref, depth);
                proof {
                    lemma_moved_trans(after_tick, put, *vm, Some(thread_ref));
                }
                r
            },
            NextStep::Abstract => {
                vm.put_frame(thread_ref, frame);
                let ghost put = *vm;
                proof {
                    lemma_frames_progress(after_tick, put, thread_ref);
                }
                let e = vm.throw_within(
                    "java/lang/Exception",
                    Some("Abstract Methods are not implemented"),
                    depth,
                );
                proof {
                    lemma_moved_trans(after_tick, put, *vm, Some(thread_ref));
                }
                Err(e)
            },
            NextStep::Unknown => {
                let pc = frame.pc;
                vm.put_frame(thread_ref, frame);
                proof {
                    lemma_frames_progress(after_tick, *vm, thread_ref);
                }
                Err(invalid_type(class_name.as_str(), method_name.as_str(), pc, "Function Body", None))
            },
        }
    }
}

/// A change of frames alone is progress.
pub proof fn lemma_frames_progress<F>(a: VM<F>, b: VM<F>, t: ThreadRef)
    requires
        a.wf(),
        only_frames_changed(a, b, t),
    ensures
        moved_on(a, b, Some(t)),
{
    assert(b.classes@ == a.classes@);
}

/// Loading classes alone is progress.
pub proof fn lemma_loaded_progress<F>(a: VM<F>, b: VM<F>)
    requires
        b.wf(),
        crate::vm::vm::only_loaded(a, b),
    ensures
        moved_on(a, b, None),
{
}

/// The handlers of `m` as plain tuples.
/// The characters of `s`, where there is one.
pub open spec fn text_of(s: Option<String>) -> Option<Seq<char>> {
    match s {
        Some(t) => Some(t@),
        None => None,
    }
}

fn copy_handlers(m: &RuntimeMethod) -> (r: Vec<(u16, u16, u16, Option<String>)>)
    ensures
        r@.len() == m.exception_handlers@.len(),
        forall|k: int|
            0 <= k < r@.len() ==> (#[trigger] r@[k]).0 == m.exception_handlers@[k].start_pc && r@[k].1
                == m.exception_handlers@[k].end_pc && r@[k].2 == m.exception_handlers@[k].handler_pc
                && text_of(r@[k].3) == text_of(m.exception_handlers@[k].catch_class),
{
    let mut out: Vec<(u16, u16, u16, Option<String>)> = Vec::new();
    let mut k: usize = 0;
    while k < m.exception_handlers.len()
        invariant
            k <= m.exception_handlers@.len(),
            out@.len() == k,
            forall|j: int|
                0 <= j < k ==> (#[trigger] out@[j]).0 == m.exception_handlers@[j].start_pc
                    && out@[j].1 == m.exception_handlers@[j].end_pc && out@[j].2
                    == m.exception_handlers@[j].handler_pc && text_of(out@[j].3) == text_of(
                    m.exception_handlers@[j].catch_class,
                ),
        decreases m.exception_handlers@.len() - k,
    {
        let h = &m.exception_handlers[k];
        let c = match &h.catch_class {
            Some(s) => Some(s.clone()),
            None => None,
        };
        out.push((h.start_pc, h.end_pc, h.handler_pc, c));
        k = k + 1;
    }
    out
}

/// Runs an instruction that needs more than its frame. `frame` is the
/// current frame of `thread_ref`, taken off the thread, with its pc past
/// the instruction; it goes back unless the instruction returns from it.
fn exec_vm_op<F: FloatArithmetic>(
    vm: &mut VM<F>,
    thread_ref: ThreadRef,
    frame: Frame,
    i: &Instruction,
    class_name: &str,
    method_name: &str,
    depth: usize,
) -> (r: Result<StepOutcome, RuntimeError>)
    requires
        old(vm).wf(),
        thread_ref.0 < old(vm).threads@.len(),
    ensures
        moved_on(*old(vm), *final(vm), Some(thread_ref)),
        r is Ok && !is_return(i.op) ==> r->Ok_0 is Continue && exists|g: Frame, nf: Option<Frame>|
            #![trigger op_done(*old(vm), *final(vm), frame, g, nf, *i)]
            op_done(*old(vm), *final(vm), frame, g, nf, *i) && frames_of(*final(vm), thread_ref)
                == frames_after(frames_of(*old(vm), thread_ref), g, nf),
        is_return(i.op) ==> return_done(
            frames_of(*old(vm), thread_ref),
            frames_of(*final(vm), thread_ref),
            frame,
            i.op,
            r,
        ),
        r matches Ok(StepOutcome::Return(_)) ==> frames_of(*final(vm), thread_ref).len() == 0,
        op_owed(*old(vm), frame, *i) ==> r is Ok,
        op_throws(*old(vm), frame, *i) matches Some(n) ==> r is Err && thrown_new(
            *old(vm),
            *final(vm),
            n,
            None,
            r->Err_0,
        ),
    decreases depth, 8nat,
{
    let ghost frame0 = frame;
    let mut frame = frame;
    let ghost start = *vm;
    match i.op {
        Opcode::IReturn | Opcode::FReturn | Opcode::DReturn | Opcode::AReturn | Opcode::Return => {
            return exec_return(vm, thread_ref, frame, i.op, class_name, method_name);
        },
        _ => {},
    }
    let effect = exec_with_frame(vm, thread_ref, &mut frame, i, class_name, method_name, depth);
    let ghost mid = *vm;
    let ghost g = frame;
    vm.put_frame(thread_ref, frame);
    proof {
        lemma_frames_progress(mid, *vm, thread_ref);
        lemma_moved_trans(start, mid, *vm, Some(thread_ref));
    }
    match effect {
        Ok(None) => {
            proof {
                lemma_op_done_threads(start, mid, *vm, frame0, g, None, *i);
                assert(frames_of(*vm, thread_ref) == frames_after(frames_of(start, thread_ref), g, None));
            }
            Ok(StepOutcome::Continue)
        },
        Ok(Some(new_frame)) => {
            let ghost m2 = *vm;
            vm.put_frame(thread_ref, new_frame);
            proof {
                lemma_frames_progress(m2, *vm, thread_ref);
                lemma_moved_trans(start, m2, *vm, Some(thread_ref));
                lemma_op_done_threads(start, mid, *vm, frame0, g, Some(new_frame), *i);
                assert(frames_of(*vm, thread_ref) == frames_after(
                    frames_of(start, thread_ref),
                    g,
                    Some(new_frame),
                ));
            }
            Ok(StepOutcome::Continue)
        },
        Err(e) => Err(e),
    }
}

/// What the return instruction `op` of frame `f` did, `fs` being the frames
/// of its thread below `f`, `gs` the thread's frames after it, and `r` its
/// result: `return` gives no value; the others give the value on top of the
/// stack (a reference for `areturn`). The value goes on the caller's
/// operand stack, or where there is no caller, it is the thread's result.
pub open spec fn return_done(
    fs: Seq<Frame>,
    gs: Seq<Frame>,
    f: Frame,
    op: Opcode,
    r: Result<StepOutcome, RuntimeError>,
) -> bool {
    let s = f.operand_stack@;
    if op == Opcode::Return {
        &&& gs == fs
        &&& fs.len() == 0 ==> (r matches Ok(StepOutcome::Return(v)) && v == Value::Empty)
        &&& fs.len() > 0 ==> (r matches Ok(StepOutcome::Continue))
    } else if s.len() > 0 && (op != Opcode::AReturn || s.last() is Reference) {
        &&& fs.len() == 0 ==> (r matches Ok(StepOutcome::Return(w)) && w == s.last()) && gs == fs
        &&& fs.len() > 0 ==> {
            &&& r matches Ok(StepOutcome::Continue)
            &&& gs.len() == fs.len()
            &&& gs.drop_last() == fs.drop_last()
            &&& frame_now(fs.last(), gs.last(), stack_push(fs.last().operand_stack@, s.last()))
        }
    } else {
        r is Err
    }
}

/// A return instruction: pops the return value (none for `return`),
/// removes the frame, and pushes the value on the caller's frame; where
/// there is no caller the thread is done and the value is the result.
pub fn exec_return<F>(
    vm: &mut VM<F>,
    thread_ref: ThreadRef,
    frame: Frame,
    op: Opcode,
    class_name: &str,
    method_name: &str,
) -> (r: Result<StepOutcome, RuntimeError>)
    requires
        old(vm).wf(),
        thread_ref.0 < old(vm).threads@.len(),
        op == Opcode::IReturn || op == Opcode::FReturn || op == Opcode::DReturn || op
            == Opcode::AReturn || op == Opcode::Return,
    ensures
        moved_on(*old(vm), *final(vm), Some(thread_ref)),
        final(vm).heap@ == old(vm).heap@,
        final(vm).classes@ == old(vm).classes@,
        return_done(frames_of(*old(vm), thread_ref), frames_of(*final(vm), thread_ref), frame, op, r),
{
    let mut frame = frame;
    let ghost start = *vm;
    if op == Opcode::Return {
        let remaining = vm.threads[thread_ref.0].frames.len();
        if remaining == 0 {
            return Ok(StepOutcome::Return(Value::Empty));
        }
        return Ok(StepOutcome::Continue);
    }
    let ret = match frame.pop_value() {
        Some(v) => v,
        None => {
            let pc = frame.pc;
            vm.put_frame(thread_ref, frame);
            proof {
                lemma_frames_progress(start, *vm, thread_ref);
            }
            return Err(RuntimeError::Internal(InternalError::OperandStackUnderflow { pc }));
        },
    };
    if op == Opcode::AReturn {
        match ret {
            Value::Reference(_) => {},
            _ => {
                let pc = frame.pc;
                vm.put_frame(thread_ref, frame);
                proof {
                    lemma_frames_progress(start, *vm, thread_ref);
                }
                return Err(invalid_type(class_name, method_name, pc, "Reference", Some(ret)));
            },
        }
    }
    match vm.take_frame(thread_ref) {
        Some(mut caller) => {
            let ghost c0 = caller;
            caller.push_value(ret);
            let ghost mid = *vm;
            vm.put_frame(thread_ref, caller);
            proof {
                lemma_frames_progress(start, mid, thread_ref);
                lemma_frames_progress(mid, *vm, thread_ref);
                lemma_moved_trans(start, mid, *vm, Some(thread_ref));
                let fs = frames_of(start, thread_ref);
                let gs = frames_of(*vm, thread_ref);
                assert(c0 == fs.last());
                assert(gs == fs.drop_last().push(caller));
                assert(gs.drop_last() =~= fs.drop_last());
                assert(frame_now(fs.last(), gs.last(), stack_push(fs.last().operand_stack@, ret)));
            }
            Ok(StepOutcome::Continue)
        },
        None => Ok(StepOutcome::Return(ret)),
    }
}

/// Runs an instruction that needs the virtual machine, on `frame` (taken
/// off its thread); gives the new frame where it invokes a method.
#[verifier::spinoff_prover]
#[verifier::rlimit(40)]
fn exec_with_frame<F: FloatArithmetic>(
    vm: &mut VM<F>,
    thread_ref: ThreadRef,
    frame: &mut Frame,
    i: &Instruction,
    class_name: &str,
    method_name: &str,
    depth: usize,
) -> (r: Result<Option<Frame>, RuntimeError>)
    requires
        old(vm).wf(),
        thread_ref.0 < old(vm).threads@.len(),
    ensures
        moved_on(*old(vm), *final(vm), None),
        final(vm).threads@.len() >= old(vm).threads@.len(),
        thread_ref.0 < final(vm).threads@.len(),
        frames_of(*final(vm), thread_ref) == frames_of(*old(vm), thread_ref),
        r matches Ok(nf) ==> op_done(*old(vm), *final(vm), *old(frame), *final(frame), nf, *i),
        op_owed(*old(vm), *old(frame), *i) ==> r is Ok,
        op_throws(*old(vm), *old(frame), *i) matches Some(n) ==> r is Err && thrown_new(
            *old(vm),
            *final(vm),
            n,
            None,
            r->Err_0,
        ),
    decreases depth, 7nat,
{
    let ghost start = *vm;
    let r = match i.op {
        Opcode::GetField | Opcode::PutField => field_op(vm, frame, i, class_name, method_name),
        Opcode::GetStatic | Opcode::PutStatic => static_op(vm, frame, i, depth),
        Opcode::New => new_op(vm, frame, i, depth),
        Opcode::NewArray | Opcode::ANewArray => new_array_op(
            vm,
            frame,
            i,
            class_name,
            method_name,
            depth,
        ),
        Opcode::ArrayLength => array_length_op(vm, frame, class_name, method_name, depth),
        Opcode::IALoad | Opcode::CALoad | Opcode::AALoad => array_load_op(
            vm,
            frame,
            i.op,
            class_name,
            method_name,
            depth,
        ),
        Opcode::IAStore | Opcode::CAStore => int_array_store_op(
            vm,
            frame,
            class_name,
            method_name,
            depth,
        ),
        Opcode::AAStore => ref_array_store_op(vm, frame, class_name, method_name, depth),
        Opcode::Ldc | Opcode::LdcW | Opcode::Ldc2W => ldc_op(vm, frame, i),
        Opcode::InvokeSpecial | Opcode::InvokeStatic | Opcode::InvokeVirtual
        | Opcode::InvokeInterface => invoke_op(vm, frame, i, class_name, method_name, depth),
        _ => Err(
            RuntimeError::Internal(InternalError::InvalidOpcode { opcode: 0, pc: i.opcode_pc }),
        ),
    };
    proof {
        assert(frames_of(*vm, thread_ref) == frames_of(start, thread_ref));
    }
    r
}

/// Loading classes and adding heap entries is progress.
pub proof fn lemma_grew_progress<F>(a: VM<F>, b: VM<F>)
    requires
        b.wf(),
        crate::vm::vm::objects_kept(a.class_objects@, b.class_objects@),
        classes_grow(a.classes@, b.classes@),
        b.threads@ == a.threads@,
        a.heap@.len() <= b.heap@.len(),
        b.static_storage@ == a.static_storage@,
        b.classpath == a.classpath,
        b.primitive_classes == a.primitive_classes,
        b.steps_left == a.steps_left,
    ensures
        moved_on(a, b, None),
{
}

/// Changes of the heap alone are progress.
pub proof fn lemma_heap_progress<F>(a: VM<F>, b: VM<F>)
    requires
        a.wf(),
        crate::vm::vm::objects_kept(a.class_objects@, b.class_objects@),
        b.classes@ == a.classes@,
        b.threads@ == a.threads@,
        a.heap@.len() <= b.heap@.len(),
        b.static_storage@ == a.static_storage@,
        b.classpath == a.classpath,
        b.primitive_classes == a.primitive_classes,
        b.steps_left == a.steps_left,
    ensures
        moved_on(a, b, None),
{
}

/// The class and field names of the field that the `getfield`,
/// `putfield`, `getstatic` or `putstatic` instruction `i` of frame `f`
/// refers to.
pub open spec fn field_ref_of<F>(a: VM<F>, f: Frame, i: Instruction) -> Option<(Seq<char>, Seq<char>)> {
    if f.class.0 < a.classes@.len() {
        match cp_field_ref(a.classes@[f.class.0 as int].constant_pool@, operand_u16(i) as int) {
            Ok((owner, name, d)) => Some((owner, name)),
            Err(_) => None,
        }
    } else {
        None
    }
}

/// The name of the field that the field instruction `i` of frame `f`
/// refers to.
pub open spec fn field_name_of<F>(a: VM<F>, f: Frame, i: Instruction) -> Option<Seq<char>> {
    match field_ref_of(a, f, i) {
        Some((owner, name)) => Some(name),
        None => None,
    }
}

/// Whether `slot` is the slot of the instance field named `name` that
/// lookup from class `c` up its superclass chain finds.
pub open spec fn slot_for(cs: Seq<RuntimeClass>, c: ClassRef, name: Seq<char>, slot: usize) -> bool {
    instance_field(cs, c, name, cs.len()) matches ChainLookup::Found((d, s)) && s == slot
}

/// Whether `slot` is the slot of an instance field named `name`, found from
/// some class of `cs` up its superclass chain.
pub open spec fn names_field(cs: Seq<RuntimeClass>, name: Seq<char>, slot: usize) -> bool {
    exists|c: ClassRef| #[trigger] slot_for(cs, c, name, slot)
}

/// Whether `slot` is the slot of field `name` looked up from the class
/// named `owner` in `a`, where `a` has one: a field instruction finds the
/// field from the class its reference names.
pub open spec fn owner_slot<F>(a: VM<F>, b: VM<F>, owner: Seq<char>, name: Seq<char>, slot: usize) -> bool {
    match a.class_named(owner) {
        Some(k) => slot_for(b.classes@, ClassRef(k as usize), name, slot),
        None => true,
    }
}

/// What `getfield` did from `a`, `f` to `b`, `g`: the object reference on
/// top of the stack is replaced by the value of the object's field named
/// `name`, as found from the class named `owner`.
pub open spec fn get_field_done<F>(a: VM<F>, b: VM<F>, f: Frame, g: Frame, owner: Seq<char>, name: Seq<char>) -> bool {
    let s = f.operand_stack@;
    &&& s.len() > 0
    &&& s.last() matches Value::Reference(Some(o))
    &&& heap_object(a.heap@, o) matches Some(obj)
    &&& exists|slot: usize| #[trigger]
        names_field(b.classes@, name, slot) && owner_slot(a, b, owner, name, slot) && slot
            < obj.fields.len() && frame_now(f, g, stack_push(stack_pop(s), obj.fields[slot as int]))
    &&& b.heap@ == a.heap@
    &&& a.class_named(owner) is Some ==> b.classes@ == a.classes@
}

/// What `putfield` did from `a`, `f` to `b`, `g`: the value and the object
/// reference below it are popped, and the value is stored in the object's
/// field named `name`, as found from the class named `owner`.
pub open spec fn put_field_done<F>(a: VM<F>, b: VM<F>, f: Frame, g: Frame, owner: Seq<char>, name: Seq<char>) -> bool {
    let s = f.operand_stack@;
    let s1 = stack_pop(s);
    &&& s.len() > 0
    &&& s1.len() > 0
    &&& s1.last() matches Value::Reference(Some(o))
    &&& heap_object(a.heap@, o) matches Some(obj)
    &&& exists|slot: usize| #[trigger]
        names_field(b.classes@, name, slot) && owner_slot(a, b, owner, name, slot) && slot
            < obj.fields.len() && b.heap@ == crate::vm::heap::field_written(a.heap@, o, slot, s.last())
    &&& frame_now(f, g, stack_pop(s1))
    &&& a.class_named(owner) is Some ==> b.classes@ == a.classes@
}

/// A `getfield` reads what a `putfield` before it wrote: where both name
/// the same field of a loaded class, and the `getfield` reads the object
/// the `putfield` wrote to, it pushes the value that was stored.
pub proof fn lemma_putfield_then_getfield<F>(
    a: VM<F>,
    b: VM<F>,
    c: VM<F>,
    f: Frame,
    g: Frame,
    f2: Frame,
    g2: Frame,
    owner: Seq<char>,
    name: Seq<char>,
)
    requires
        put_field_done(a, b, f, g, owner, name),
        get_field_done(b, c, f2, g2, owner, name),
        a.class_named(owner) is Some,
        f2.operand_stack@.len() > 0,
        f2.operand_stack@.last() == stack_pop(f.operand_stack@).last(),
    ensures
        g2.operand_stack@ == stack_push(stack_pop(f2.operand_stack@), f.operand_stack@.last()),
{
    let s = f.operand_stack@;
    let o = stack_pop(s).last()->Reference_0->Some_0;
    let obj = heap_object(a.heap@, o)->Some_0;
    let k = a.class_named(owner)->Some_0;
    let s1 = choose|slot: usize|
        names_field(b.classes@, name, slot) && owner_slot(a, b, owner, name, slot) && slot
            < obj.fields.len() && b.heap@ == crate::vm::heap::field_written(a.heap@, o, slot, s.last());
    assert(b.classes@ == a.classes@);
    assert(b.class_named(owner) == a.class_named(owner));
    let obj2 = heap_object(b.heap@, o)->Some_0;
    let s2 = choose|slot: usize|
        names_field(c.classes@, name, slot) && owner_slot(b, c, owner, name, slot) && slot
            < obj2.fields.len() && frame_now(
            f2,
            g2,
            stack_push(stack_pop(f2.operand_stack@), obj2.fields[slot as int]),
        );
    assert(c.classes@ == b.classes@);
    assert(s1 == s2);
    crate::vm::heap::lemma_field_write_then_read(a.heap@, o, s1, s.last(), s1);
}

/// What `getfield` or `putfield` (`i`) did from `a`, `f` to `b`, `g`.
pub open spec fn field_done<F>(a: VM<F>, b: VM<F>, f: Frame, g: Frame, i: Instruction) -> bool {
    match field_ref_of(a, f, i) {
        Some((owner, name)) => if i.op == Opcode::GetField {
            get_field_done(a, b, f, g, owner, name)
        } else {
            put_field_done(a, b, f, g, owner, name)
        },
        None => false,
    }
}

/// Whether `slot` of the heap object `st` holds the static field named
/// `name` of some class of `vm` whose statics are kept in `st`.
pub open spec fn static_slot(
    storage: Seq<(ClassRef, ObjectRef)>,
    cs: Seq<RuntimeClass>,
    name: Seq<char>,
    st: ObjectRef,
    slot: usize,
) -> bool {
    exists|c: ClassRef|
        #![trigger lookup(storage, c)]
        {
            &&& lookup(storage, c) == Some(st)
            &&& c.0 < cs.len()
            &&& first_field(field_views(cs[c.0 as int].static_fields@), name) matches Some(k)
            &&& cs[c.0 as int].static_fields@[k as int].slot == slot
        }
}

/// What `getstatic` did from `f` to `b`, `g`: it pushed the value of the
/// static field named `name`.
pub open spec fn get_static_done<F>(b: VM<F>, f: Frame, g: Frame, name: Seq<char>) -> bool {
    exists|st: ObjectRef, slot: usize|
        #![trigger static_slot(b.static_storage@, b.classes@, name, st, slot)]
        {
            &&& static_slot(b.static_storage@, b.classes@, name, st, slot)
            &&& heap_object(b.heap@, st) matches Some(obj)
            &&& slot < obj.fields.len()
            &&& frame_now(f, g, stack_push(f.operand_stack@, obj.fields[slot as int]))
        }
}

/// What `putstatic` did from `f` to `b`, `g`: it popped the value on top of
/// the stack, which the static field named `name` now holds.
pub open spec fn put_static_done<F>(b: VM<F>, f: Frame, g: Frame, name: Seq<char>) -> bool {
    let s = f.operand_stack@;
    &&& s.len() > 0
    &&& frame_now(f, g, stack_pop(s))
    &&& exists|st: ObjectRef, slot: usize|
        #![trigger static_slot(b.static_storage@, b.classes@, name, st, slot)]
        {
            &&& static_slot(b.static_storage@, b.classes@, name, st, slot)
            &&& heap_object(b.heap@, st) matches Some(obj)
            &&& slot < obj.fields.len()
            &&& obj.fields[slot as int] == s.last()
        }
}

/// What `getstatic` or `putstatic` (`i`) did from `a`, `f` to `b`, `g`.
pub open spec fn static_done<F>(a: VM<F>, b: VM<F>, f: Frame, g: Frame, i: Instruction) -> bool {
    match field_name_of(a, f, i) {
        Some(name) => if i.op == Opcode::GetStatic {
            get_static_done(b, f, g, name)
        } else {
            put_static_done(b, f, g, name)
        },
        None => false,
    }
}

/// What `new` did from `f` to `b`, `g`: it pushed a reference to a new
/// object, the last of the heap, whose fields hold their initial values.
pub open spec fn new_done<F>(a: VM<F>, b: VM<F>, f: Frame, g: Frame, i: Instruction) -> bool {
    let n = b.heap@.len();
    &&& a.heap@.len() < n
    &&& frame_now(f, g, stack_push(f.operand_stack@, Value::Reference(Some(ObjectRef((n - 1) as usize)))))
    &&& b.heap@.last() matches EntryModel::Object(obj)
    &&& obj.class.0 < b.classes@.len()
    &&& obj.fields == chain_defaults(
        b.classes@,
        obj.class,
        Seq::new(total_slots(b.classes@[obj.class.0 as int]), |k: int| Value::Empty),
        b.classes@.len(),
    )
    &&& new_class_of(a, f, i) matches Some(name)
    &&& (a.class_named(name) matches Some(k) ==> obj.class == ClassRef(k as usize))
}

/// Whether `new` (`i`) is bound to succeed on frame `f` of `a`: the class
/// it names is loaded and initialized, and its instance fields, with those
/// of its superclasses, fit and have descriptors that parse.
pub open spec fn new_owed<F>(a: VM<F>, f: Frame, i: Instruction) -> bool {
    &&& new_class_of(a, f, i) matches Some(name)
    &&& a.class_named(name) matches Some(k)
    &&& lookup(a.static_storage@, ClassRef(k as usize)) is Some
    &&& crate::vm::vm::chain_fits(
        a.classes@,
        ClassRef(k as usize),
        total_slots(a.classes@[k as int]),
        a.classes@.len(),
    )
}

/// The name of the class that `new` (`i`) in frame `f` of `a` makes an
/// object of, as its constant pool gives it.
pub open spec fn new_class_of<F>(a: VM<F>, f: Frame, i: Instruction) -> Option<Seq<char>> {
    if f.class.0 < a.classes@.len() {
        match cp_class_name(a.classes@[f.class.0 as int].constant_pool@, operand_u16(i) as int) {
            Ok(name) => Some(name),
            Err(_) => None,
        }
    } else {
        None
    }
}

/// What `newarray` or `anewarray` (`i`) did from `a`, `f` to `b`, `g`: it
/// replaced the length on top of the stack, not negative, by a reference to
/// a new array of that length, the last of the heap, its elements zero (or
/// `null`); `newarray` changed nothing else.
pub open spec fn new_array_done<F>(a: VM<F>, b: VM<F>, f: Frame, g: Frame, i: Instruction) -> bool {
    let s = f.operand_stack@;
    let n = b.heap@.len();
    &&& s.len() > 0
    &&& s.last() matches Value::Int(len)
    &&& len >= 0
    &&& n > a.heap@.len()
    &&& frame_now(f, g, stack_push(stack_pop(s), Value::Reference(Some(ObjectRef((n - 1) as usize)))))
    &&& b.heap@.last() matches EntryModel::Array { element_type, elements, class }
    &&& elements == Seq::new(len as nat, |k: int| zero_of(element_type))
    &&& class is None
    &&& i.op == Opcode::NewArray ==> {
        &&& element_type_of(i.b1) == Some(element_type)
        &&& b.heap@ == a.heap@.push(b.heap@.last())
        &&& same_but_heap(a, b)
    }
    &&& i.op == Opcode::ANewArray ==> element_type is Reference
}

/// The constant pool of the class of `frame`.
fn frame_pool<'a, F>(vm: &'a VM<F>, frame: &Frame) -> (r: Result<
    &'a crate::class::constant_pool::ConstantPool,
    RuntimeError,
>)
    ensures
        frame.class.0 < vm.classes@.len() ==> r is Ok && r->Ok_0@ == vm.classes@[frame.class.0 as int].constant_pool@,
        frame.class.0 >= vm.classes@.len() ==> r is Err,
{
    Ok(&vm.get_class(frame.class)?.constant_pool)
}

/// Whether `getfield` or `putfield` is bound to succeed on frame `f` of
/// `a`: its field reference resolves to a class that is already loaded,
/// the field is found from that class, and the object on the stack (below
/// the value, for `putfield`) has the field's slot.
pub open spec fn field_owed<F>(a: VM<F>, f: Frame, i: Instruction) -> bool {
    let s = f.operand_stack@;
    let so = if i.op == Opcode::PutField {
        stack_pop(s)
    } else {
        s
    };
    &&& i.op == Opcode::PutField ==> s.len() > 0
    &&& so.len() > 0
    &&& so.last() matches Value::Reference(Some(o))
    &&& heap_object(a.heap@, o) matches Some(obj)
    &&& field_ref_of(a, f, i) matches Some((owner, name))
    &&& a.class_named(owner) matches Some(k)
    &&& instance_field(a.classes@, ClassRef(k as usize), name, a.classes@.len()) matches ChainLookup::Found(
        (d, slot),
    )
    &&& slot < obj.fields.len()
}

/// `getfield` and `putfield`.
fn field_op<F>(vm: &mut VM<F>, frame: &mut Frame, i: &Instruction, class_name: &str, method_name: &str) -> (r:
    Result<Option<Frame>, RuntimeError>)
    requires
        old(vm).wf(),
        i.op == Opcode::GetField || i.op == Opcode::PutField,
    ensures
        moved_on(*old(vm), *final(vm), None),
        r is Ok ==> r->Ok_0 is None && field_done(*old(vm), *final(vm), *old(frame), *final(frame), *i),
        field_owed(*old(vm), *old(frame), *i) ==> r is Ok,
{
    let ghost start = *vm;
    let ghost f0 = *frame;
    let index = index_u16(i);
    let value = if i.op == Opcode::PutField {
        match frame.pop_value() {
            Some(v) => Some(v),
            None => {
                return Err(
                    RuntimeError::Internal(InternalError::OperandStackUnderflow { pc: frame.pc }),
                );
            },
        }
    } else {
        None
    };
    let objectref = match frame.pop_value() {
        Some(Value::Reference(Some(r))) => r,
        other => {
            return Err(invalid_type(class_name, method_name, frame.pc, "Reference", other));
        },
    };
    let (owner_name, field_name, _descriptor) = frame_pool(vm, frame)?.get_field_ref(index)?;
    let owner_ref = match vm.resolve_class(owner_name.as_str()) {
        Ok(c) => c,
        Err(e) => {
            proof {
                lemma_loaded_progress(start, *vm);
            }
            return Err(e);
        },
    };
    let ghost loaded = *vm;
    proof {
        lemma_loaded_progress(start, loaded);
    }
    let slot = match vm.find_instance_field(owner_ref, field_name.as_str())? {
        Some((_, slot)) => slot,
        None => {
            return Err(RuntimeError::Internal(InternalError::InvalidSlot));
        },
    };
    proof {
        assert(slot_for(vm.classes@, owner_ref, field_name@, slot));
        assert(names_field(vm.classes@, field_name@, slot));
        assert(owner_slot(start, *vm, owner_name@, field_name@, slot));
    }
    let ghost popped = frame.operand_stack@;
    match value {
        Some(v) => {
            let res = vm.heap.set_field(objectref, slot, v);
            proof {
                lemma_heap_progress(loaded, *vm);
                lemma_moved_trans(start, loaded, *vm, None);
            }
            res?;
            proof {
                assert(put_field_done(start, *vm, f0, *frame, owner_name@, field_name@));
            }
        },
        None => {
            let v = vm.heap.get_field(objectref, slot)?;
            frame.push_value(v);
            proof {
                let obj = heap_object(start.heap@, objectref).unwrap();
                assert(frame_now(f0, *frame, stack_push(popped, obj.fields[slot as int])));
                assert(get_field_done(start, *vm, f0, *frame, owner_name@, field_name@));
            }
        },
    }
    proof {
        assert(field_ref_of(start, f0, *i) == Some((owner_name@, field_name@)));
    }
    Ok(None)
}

/// Whether `getstatic` or `putstatic` is bound to succeed on frame `f` of
/// `a`: its field reference resolves to a class that is already loaded and
/// initialized, which declares a static field of that name whose slot its
/// static storage has (and, for `putstatic`, a value is on the stack).
pub open spec fn static_owed<F>(a: VM<F>, f: Frame, i: Instruction) -> bool {
    &&& i.op == Opcode::PutStatic ==> f.operand_stack@.len() > 0
    &&& field_ref_of(a, f, i) matches Some((owner, name))
    &&& a.class_named(owner) matches Some(k)
    &&& lookup(a.static_storage@, ClassRef(k as usize)) matches Some(st)
    &&& first_field(field_views(a.classes@[k as int].static_fields@), name) matches Some(idx)
    &&& heap_object(a.heap@, st) matches Some(obj)
    &&& a.classes@[k as int].static_fields@[idx as int].slot < obj.fields.len()
}

/// `getstatic` and `putstatic`: the owner class is loaded and initialized
/// first.
fn static_op<F: FloatArithmetic>(vm: &mut VM<F>, frame: &mut Frame, i: &Instruction, depth: usize) -> (r:
    Result<Option<Frame>, RuntimeError>)
    requires
        old(vm).wf(),
        i.op == Opcode::GetStatic || i.op == Opcode::PutStatic,
    ensures
        moved_on(*old(vm), *final(vm), None),
        r is Ok ==> r->Ok_0 is None && static_done(*old(vm), *final(vm), *old(frame), *final(frame), *i),
        static_owed(*old(vm), *old(frame), *i) ==> r is Ok,
    decreases depth, 6nat,
{
    let ghost start = *vm;
    let ghost f0 = *frame;
    let index = index_u16(i);
    let value = if i.op == Opcode::PutStatic {
        match frame.pop_value() {
            Some(v) => Some(v),
            None => {
                return Err(
                    RuntimeError::Internal(InternalError::OperandStackUnderflow { pc: frame.pc }),
                );
            },
        }
    } else {
        None
    };
    let (owner_name, field_name, _descriptor) = frame_pool(vm, frame)?.get_field_ref(index)?;
    let owner_ref = match vm.resolve_class(owner_name.as_str()) {
        Ok(c) => c,
        Err(e) => {
            proof {
                lemma_loaded_progress(start, *vm);
            }
            return Err(e);
        },
    };
    let ghost loaded = *vm;
    proof {
        lemma_loaded_progress(start, loaded);
    }
    let init = vm.ensure_class_initialized_within(owner_ref, depth);
    let ghost inited = *vm;
    proof {
        lemma_moved_trans(start, loaded, inited, None);
    }
    init?;
    proof {
        assert(field_ref_of(start, f0, *i) == Some((owner_name@, field_name@)));
        crate::vm::vm::lemma_last_named_bound(start.classes@, owner_name@, start.classes@.len());
        assert(start.classes@.len() == start.classes.len());
    }
    let slot = match vm.get_class(owner_ref)?.find_static_field(field_name.as_str()) {
        Some(f) => f.slot,
        None => {
            return Err(RuntimeError::Internal(InternalError::InvalidSlot));
        },
    };
    let storage_ref = vm.static_storage_ref(owner_ref)?;
    let ghost popped = frame.operand_stack@;
    match value {
        Some(v) => {
            let res = vm.heap.set_field(storage_ref, slot, v);
            proof {
                lemma_heap_progress(inited, *vm);
                lemma_moved_trans(start, inited, *vm, None);
            }
            res?;
            proof {
                assert(static_slot(vm.static_storage@, vm.classes@, field_name@, storage_ref, slot));
                assert(put_static_done(*vm, f0, *frame, field_name@));
            }
        },
        None => {
            let v = vm.heap.get_field(storage_ref, slot)?;
            frame.push_value(v);
            proof {
                assert(static_slot(vm.static_storage@, vm.classes@, field_name@, storage_ref, slot));
                let obj = heap_object(vm.heap@, storage_ref).unwrap();
                assert(frame_now(f0, *frame, stack_push(popped, obj.fields[slot as int])));
                assert(get_static_done(*vm, f0, *frame, field_name@));
            }
        },
    }
    proof {
        assert(field_name_of(start, f0, *i) == Some(field_name@));
    }
    Ok(None)
}

/// `new`: a new object of the named class, its fields at their initial
/// values, after the class is loaded and initialized.
fn new_op<F: FloatArithmetic>(vm: &mut VM<F>, frame: &mut Frame, i: &Instruction, depth: usize) -> (r: Result<
    Option<Frame>,
    RuntimeError,
>)
    requires
        old(vm).wf(),
    ensures
        moved_on(*old(vm), *final(vm), None),
        r is Ok ==> r->Ok_0 is None && new_done(*old(vm), *final(vm), *old(frame), *final(frame), *i),
        new_owed(*old(vm), *old(frame), *i) ==> r is Ok,
    decreases depth, 6nat,
{
    let ghost start = *vm;
    let index = index_u16(i);
    let class_name = frame_pool(vm, frame)?.get_class_name(index)?;
    proof {
        assert(start.classes@.len() == start.classes.len());
        crate::vm::vm::lemma_last_named_bound(start.classes@, class_name@, start.classes@.len());
    }
    let target = match vm.resolve_class(class_name.as_str()) {
        Ok(c) => c,
        Err(e) => {
            proof {
                lemma_loaded_progress(start, *vm);
            }
            return Err(e);
        },
    };
    let ghost loaded = *vm;
    proof {
        lemma_loaded_progress(start, loaded);
    }
    let init = vm.ensure_class_initialized_within(target, depth);
    let ghost inited = *vm;
    proof {
        lemma_moved_trans(start, loaded, inited, None);
    }
    init?;
    let defaults = vm.default_field_values(target)?;
    let obj_ref = vm.heap.allocate_object_typed(target, defaults.as_slice());
    proof {
        lemma_heap_progress(inited, *vm);
        lemma_moved_trans(start, inited, *vm, None);
    }
    frame.push_value(Value::Reference(Some(obj_ref)));
    proof {
        assert(vm.heap@.last() == vm.heap@[obj_ref.0 as int]);
        assert(start.classes@.len() == start.classes.len());
        crate::vm::vm::lemma_last_named_bound(start.classes@, class_name@, start.classes@.len());
    }
    Ok(None)
}

/// Pops an array length: a negative one throws
/// `NegativeArraySizeException`.
fn pop_length<F: FloatArithmetic>(vm: &mut VM<F>, frame: &mut Frame, class_name: &str, method_name: &str, depth: usize) -> (r:
    Result<usize, RuntimeError>)
    requires
        old(vm).wf(),
    ensures
        moved_on(*old(vm), *final(vm), None),
        final(frame).locals == old(frame).locals,
        final(frame).pc == old(frame).pc,
        final(frame).class == old(frame).class,
        final(frame).method_index == old(frame).method_index,
        r matches Ok(n) ==> {
            &&& old(frame).operand_stack@.len() > 0
            &&& old(frame).operand_stack@.last() matches Value::Int(k)
            &&& k >= 0 && n == k
            &&& final(frame).operand_stack@ == stack_pop(old(frame).operand_stack@)
            &&& *final(vm) == *old(vm)
        },
        old(frame).operand_stack@.len() > 0 && old(frame).operand_stack@.last() is Int
            && old(frame).operand_stack@.last()->Int_0 >= 0 ==> r is Ok,
        old(frame).operand_stack@.len() > 0 && old(frame).operand_stack@.last() is Int
            && old(frame).operand_stack@.last()->Int_0 < 0 ==> r is Err && thrown_new(
            *old(vm),
            *final(vm),
            "java/lang/NegativeArraySizeException"@,
            None,
            r->Err_0,
        ),
    decreases depth, 5nat,
{
    match frame.pop_value() {
        Some(Value::Int(n)) => {
            if n >= 0 {
                Ok(n as usize)
            } else {
                Err(
                    vm.throw_within(
                        "java/lang/NegativeArraySizeException",
                        Some("Cannot create negative sized array"),
                        depth,
                    ),
                )
            }
        },
        other => Err(invalid_type(class_name, method_name, frame.pc, "Int", other)),
    }
}

/// `newarray` and `anewarray`: a new array of the popped length, its
/// elements zero (or `null`).
fn new_array_op<F: FloatArithmetic>(
    vm: &mut VM<F>,
    frame: &mut Frame,
    i: &Instruction,
    class_name: &str,
    method_name: &str,
    depth: usize,
) -> (r: Result<Option<Frame>, RuntimeError>)
    requires
        old(vm).wf(),
        i.op == Opcode::NewArray || i.op == Opcode::ANewArray,
    ensures
        moved_on(*old(vm), *final(vm), None),
        r is Ok ==> r->Ok_0 is None && new_array_done(*old(vm), *final(vm), *old(frame), *final(frame), *i),
        i.op == Opcode::NewArray && new_array_owed(*old(frame), *i) ==> r is Ok,
        new_array_throws(*old(frame)) matches Some(n) ==> r is Err && thrown_new(
            *old(vm),
            *final(vm),
            n,
            None,
            r->Err_0,
        ),
    decreases depth, 6nat,
{
    let ghost start = *vm;
    let length = pop_length(vm, frame, class_name, method_name, depth)?;
    let ghost popped = *vm;
    let element_type = if i.op == Opcode::NewArray {
        match ArrayElementType::try_from(i.b1) {
            Ok(t) => t,
            Err(()) => {
                return Err(RuntimeError::Internal(InternalError::InvalidArrayType { atype: i.b1 }));
            },
        }
    } else {
        let name = frame_pool(vm, frame)?.get_class_name(index_u16(i))?;
        let component = match vm.resolve_class(name.as_str()) {
            Ok(c) => c,
            Err(e) => {
                proof {
                    lemma_loaded_progress(popped, *vm);
                    lemma_moved_trans(start, popped, *vm, None);
                }
                return Err(e);
            },
        };
        ArrayElementType::Reference(component)
    };
    let ghost ready = *vm;
    proof {
        if i.op == Opcode::ANewArray {
            lemma_loaded_progress(popped, ready);
            lemma_moved_trans(start, popped, ready, None);
        }
    }
    let array_ref = vm.heap.allocate_array(None, element_type, length);
    proof {
        lemma_heap_progress(ready, *vm);
        lemma_moved_trans(start, ready, *vm, None);
    }
    frame.push_value(Value::Reference(Some(array_ref)));
    proof {
        assert(vm.heap@.last() == vm.heap@[array_ref.0 as int]);
    }
    Ok(None)
}

/// Whether `b` has the classes, statics, class and thread objects,
/// interned strings and class path of `a`.
pub open spec fn same_but_heap<F>(a: VM<F>, b: VM<F>) -> bool {
    &&& b.classes@ == a.classes@
    &&& b.classpath == a.classpath
    &&& b.static_storage@ == a.static_storage@
    &&& b.class_objects@ == a.class_objects@
    &&& b.thread_objects@ == a.thread_objects@
    &&& b.interned@ == a.interned@
    &&& b.primitive_classes == a.primitive_classes
}

/// Whether `b` is `a` but for its threads and its steps left.
pub open spec fn same_but_threads<F>(a: VM<F>, b: VM<F>) -> bool {
    &&& same_but_heap(a, b)
    &&& b.heap@ == a.heap@
    &&& b.heap.next_identity_hash == a.heap.next_identity_hash
}

/// Whether `g` is frame `f` with its operand stack changed to `stack`.
pub open spec fn frame_now(f: Frame, g: Frame, stack: Seq<Value>) -> bool {
    &&& g.operand_stack@ == stack
    &&& g.locals@ == f.locals@
    &&& g.pc == f.pc
    &&& g.class == f.class
    &&& g.method_index == f.method_index
}

/// What `arraylength` did from `a`, `f` to `b`, `g`: the array reference on
/// top of the stack is replaced by the array's length.
pub open spec fn length_done<F>(a: VM<F>, b: VM<F>, f: Frame, g: Frame) -> bool {
    let s = f.operand_stack@;
    &&& s.len() > 0
    &&& s.last() matches Value::Reference(Some(x))
    &&& heap_array(a.heap@, x) matches Some((t, els))
    &&& frame_now(f, g, stack_push(stack_pop(s), Value::Int(els.len() as i32)))
    &&& same_but_threads(a, b)
}

/// What an array load did from `a`, `f` to `b`, `g`: the array reference
/// and index on top of the stack are replaced by the element at the index,
/// which is within the array's bounds.
pub open spec fn load_done<F>(a: VM<F>, b: VM<F>, f: Frame, g: Frame) -> bool {
    let s = f.operand_stack@;
    let s1 = stack_pop(s);
    &&& s.len() > 0
    &&& s.last() matches Value::Int(idx)
    &&& s1.len() > 0
    &&& s1.last() matches Value::Reference(Some(x))
    &&& heap_array(a.heap@, x) matches Some((t, els))
    &&& (idx as usize) < els.len()
    &&& frame_now(f, g, stack_push(stack_pop(s1), els[(idx as usize) as int]))
    &&& same_but_threads(a, b)
}

/// What an array store did from `a`, `f` to `b`, `g`: the array reference,
/// index and value on top of the stack are gone, and the array's element at
/// the index, within its bounds, is the value; nothing else changed.
pub open spec fn store_done<F>(a: VM<F>, b: VM<F>, f: Frame, g: Frame) -> bool {
    let s = f.operand_stack@;
    let s1 = stack_pop(s);
    let s2 = stack_pop(s1);
    &&& s.len() > 0
    &&& s1.len() > 0
    &&& s1.last() matches Value::Int(idx)
    &&& s2.len() > 0
    &&& s2.last() matches Value::Reference(Some(x))
    &&& heap_array(a.heap@, x) matches Some((t, els))
    &&& (idx as usize) < els.len()
    &&& b.heap@ == a.heap@.update(
        x.0 as int,
        EntryModel::Array {
            element_type: t,
            elements: els.update((idx as usize) as int, s.last()),
            class: a.heap@[x.0 as int]->Array_class,
        },
    )
    &&& b.heap.next_identity_hash == a.heap.next_identity_hash
    &&& same_but_heap(a, b)
    &&& frame_now(f, g, stack_pop(s2))
}

/// An array load reads what an array store before it wrote: where the
/// load takes the array reference and index that the store took, it pushes
/// the value that was stored.
pub proof fn lemma_store_then_load<F>(a: VM<F>, b: VM<F>, c: VM<F>, f: Frame, g: Frame, f2: Frame, g2: Frame)
    requires
        store_done(a, b, f, g),
        load_done(b, c, f2, g2),
        f2.operand_stack@.last() == stack_pop(f.operand_stack@).last(),
        stack_pop(f2.operand_stack@).last() == stack_pop(stack_pop(f.operand_stack@)).last(),
    ensures
        g2.operand_stack@ == stack_push(
            stack_pop(stack_pop(f2.operand_stack@)),
            f.operand_stack@.last(),
        ),
{
}

/// Pops an array reference: `null` throws `NullPointerException` with
/// `message`.
fn pop_array<F: FloatArithmetic>(
    vm: &mut VM<F>,
    frame: &mut Frame,
    class_name: &str,
    method_name: &str,
    expected: &str,
    message: String,
    depth: usize,
) -> (r: Result<ObjectRef, RuntimeError>)
    requires
        old(vm).wf(),
    ensures
        moved_on(*old(vm), *final(vm), None),
        final(frame).locals == old(frame).locals,
        final(frame).pc == old(frame).pc,
        final(frame).class == old(frame).class,
        final(frame).method_index == old(frame).method_index,
        r matches Ok(x) ==> {
            &&& old(frame).operand_stack@.len() > 0
            &&& old(frame).operand_stack@.last() == Value::Reference(Some(x))
            &&& final(frame).operand_stack@ == stack_pop(old(frame).operand_stack@)
            &&& *final(vm) == *old(vm)
        },
        old(frame).operand_stack@.len() > 0 && old(frame).operand_stack@.last() == Value::Reference(
            None,
        ) ==> r is Err && thrown_new(*old(vm), *final(vm), "java/lang/NullPointerException"@, None, r->Err_0),
        old(frame).operand_stack@.len() > 0 && old(frame).operand_stack@.last() is Reference
            && old(frame).operand_stack@.last()->Reference_0 is Some ==> r is Ok,
    decreases depth, 5nat,
{
    match frame.pop_value() {
        Some(Value::Reference(Some(r))) => Ok(r),
        Some(Value::Reference(None)) => Err(
            vm.throw_within("java/lang/NullPointerException", Some(message.as_str()), depth),
        ),
        other => Err(invalid_type(class_name, method_name, frame.pc, expected, other)),
    }
}

/// `arraylength`.
fn array_length_op<F: FloatArithmetic>(
    vm: &mut VM<F>,
    frame: &mut Frame,
    class_name: &str,
    method_name: &str,
    depth: usize,
) -> (r: Result<Option<Frame>, RuntimeError>)
    requires
        old(vm).wf(),
    ensures
        moved_on(*old(vm), *final(vm), None),
        r is Ok ==> length_done(*old(vm), *final(vm), *old(frame), *final(frame)) && r->Ok_0 is None,
        length_owed(*old(vm), *old(frame)) ==> r is Ok,
        length_throws(*old(frame)) matches Some(n) ==> r is Err && thrown_new(
            *old(vm),
            *final(vm),
            n,
            None,
            r->Err_0,
        ),
        old(frame).operand_stack@.len() > 0 && old(frame).operand_stack@.last() == Value::Reference(
            None,
        ) ==> r is Err,
    decreases depth, 6nat,
{
    let reference = pop_array(
        vm,
        frame,
        class_name,
        method_name,
        "Int",
        owned("Tried to get the length on a null array"),
        depth,
    )?;
    let length = vm.heap.array_len(reference)?;
    let ghost popped = frame.operand_stack@;
    frame.push_value(Value::Int(length as i32));
    proof {
        assert(heap_array(vm.heap@, reference) is Some);
        let els = heap_array(vm.heap@, reference).unwrap().1;
        assert(length == els.len());
        assert(frame.operand_stack@ == stack_push(popped, Value::Int(els.len() as i32)));
    }
    Ok(None)
}

/// Pops an array index.
fn pop_index(frame: &mut Frame, class_name: &str, method_name: &str) -> (r: Result<i32, RuntimeError>)
    ensures
        final(frame).locals == old(frame).locals,
        final(frame).pc == old(frame).pc,
        final(frame).class == old(frame).class,
        final(frame).method_index == old(frame).method_index,
        r matches Ok(n) ==> {
            &&& old(frame).operand_stack@.len() > 0
            &&& old(frame).operand_stack@.last() == Value::Int(n)
            &&& final(frame).operand_stack@ == stack_pop(old(frame).operand_stack@)
        },
        old(frame).operand_stack@.len() > 0 && old(frame).operand_stack@.last() is Int ==> r is Ok,
{
    match frame.pop_value() {
        Some(Value::Int(n)) => Ok(n),
        other => Err(invalid_type(class_name, method_name, frame.pc, "Int", other)),
    }
}

/// `iaload`, `caload` and `aaload`: an index out of bounds throws
/// `ArrayIndexOutOfBoundsException`.
fn array_load_op<F: FloatArithmetic>(
    vm: &mut VM<F>,
    frame: &mut Frame,
    op: Opcode,
    class_name: &str,
    method_name: &str,
    depth: usize,
) -> (r: Result<Option<Frame>, RuntimeError>)
    requires
        old(vm).wf(),
    ensures
        moved_on(*old(vm), *final(vm), None),
        r is Ok ==> load_done(*old(vm), *final(vm), *old(frame), *final(frame)) && r->Ok_0 is None,
        load_owed(*old(vm), *old(frame)) ==> r is Ok,
        load_throws(*old(vm), *old(frame)) matches Some(n) ==> r is Err && thrown_new(
            *old(vm),
            *final(vm),
            n,
            None,
            r->Err_0,
        ),
    decreases depth, 6nat,
{
    let ghost start = *vm;
    let index = pop_index(frame, class_name, method_name)?;
    let shown: i64 = if op == Opcode::AALoad {
        index as i64
    } else {
        (index as usize) as i64
    };
    let message = if op == Opcode::AALoad {
        message_with("Tried to access index ", index as i64, " on a `null` array")
    } else {
        message_with_usize("Tried to access index ", index as usize, " on a `null` array")
    };
    let expected = if op == Opcode::IALoad {
        "Int"
    } else {
        "Reference"
    };
    let reference = pop_array(vm, frame, class_name, method_name, expected, message, depth)?;
    let ghost popped = *vm;
    let ghost popped_stack = frame.operand_stack@;
    match vm.heap.array_get(reference, index as usize)? {
        Ok(v) => {
            frame.push_value(v);
            proof {
                let (t, els) = heap_array(vm.heap@, reference).unwrap();
                assert(v == els[(index as usize) as int]);
                assert(frame.operand_stack@ == stack_push(popped_stack, v));
            }
            Ok(None)
        },
        Err(len) => {
            let m = if op == Opcode::AALoad {
                out_of_bounds(index as i64, len)
            } else {
                let mut s = owned("Index ");
                push_digits(&mut s, (index as usize) as u64);
                push_str(&mut s, " out of bounds for length ");
                push_digits(&mut s, len as u64);
                s
            };
            let e = vm.throw_within("java/lang/ArrayIndexOutOfBoundsException", Some(m.as_str()), depth);
            proof {
                lemma_moved_trans(start, popped, *vm, None);
            }
            Err(e)
        },
    }
}

/// `iastore` and `castore`.
fn int_array_store_op<F: FloatArithmetic>(
    vm: &mut VM<F>,
    frame: &mut Frame,
    class_name: &str,
    method_name: &str,
    depth: usize,
) -> (r: Result<Option<Frame>, RuntimeError>)
    requires
        old(vm).wf(),
    ensures
        moved_on(*old(vm), *final(vm), None),
        r is Ok ==> store_done(*old(vm), *final(vm), *old(frame), *final(frame)) && r->Ok_0 is None
            && old(frame).operand_stack@.last() is Int,
        int_store_owed(*old(vm), *old(frame)) ==> r is Ok,
        int_store_throws(*old(vm), *old(frame)) matches Some(n) ==> r is Err && thrown_new(
            *old(vm),
            *final(vm),
            n,
            None,
            r->Err_0,
        ),
    decreases depth, 6nat,
{
    let ghost start = *vm;
    let value = pop_index(frame, class_name, method_name)?;
    let index = pop_index(frame, class_name, method_name)? as usize;
    let reference = pop_array(
        vm,
        frame,
        class_name,
        method_name,
        "Int",
        message_with_usize("Tried to access index ", index, " on a `null` array"),
        depth,
    )?;
    let ghost popped = *vm;
    let len = vm.heap.array_len(reference)?;
    if index >= len {
        let mut s = owned("Index ");
        push_digits(&mut s, index as u64);
        push_str(&mut s, " out of bounds for length ");
        push_digits(&mut s, len as u64);
        let e = vm.throw_within("java/lang/ArrayIndexOutOfBoundsException", Some(s.as_str()), depth);
        proof {
            lemma_moved_trans(start, popped, *vm, None);
        }
        return Err(e);
    }
    let res = vm.heap.array_set(reference, index, Value::Int(value));
    proof {
        lemma_heap_progress(popped, *vm);
        lemma_moved_trans(start, popped, *vm, None);
    }
    res?;
    Ok(None)
}

/// `aastore`: the stored object's class must be assignable to the array's
/// component class, or `ArrayStoreException` is thrown.
fn ref_array_store_op<F: FloatArithmetic>(
    vm: &mut VM<F>,
    frame: &mut Frame,
    class_name: &str,
    method_name: &str,
    depth: usize,
) -> (r: Result<Option<Frame>, RuntimeError>)
    requires
        old(vm).wf(),
    ensures
        moved_on(*old(vm), *final(vm), None),
        r is Ok ==> store_done(*old(vm), *final(vm), *old(frame), *final(frame)) && r->Ok_0 is None
            && old(frame).operand_stack@.last() is Reference,
        ref_store_owed(*old(vm), *old(frame)) ==> r is Ok,
        ref_store_throws(*old(vm), *old(frame)) matches Some(n) ==> r is Err && thrown_new(
            *old(vm),
            *final(vm),
            n,
            None,
            r->Err_0,
        ),
    decreases depth, 6nat,
{
    let ghost start = *vm;
    let pc = frame.pc;
    let value = match frame.pop_value() {
        Some(Value::Reference(r)) => Value::Reference(r),
        other => {
            return Err(invalid_type(class_name, method_name, pc, "Reference", other));
        },
    };
    let index = match frame.pop_value() {
        Some(Value::Int(n)) => n,
        other => {
            return Err(invalid_type(class_name, method_name, pc, "Reference", other));
        },
    };
    let reference = pop_array(
        vm,
        frame,
        class_name,
        method_name,
        "Reference",
        message_with("Tried to access index ", index as i64, " on a `null` array"),
        depth,
    )?;
    let ghost popped = *vm;
    let component = match vm.heap.get_array(reference)?.element_type {
        ArrayElementType::Reference(c) => c,
        _ => {
            return Err(invalid_type(class_name, method_name, pc, "Reference", None));
        },
    };
    match value {
        Value::Reference(Some(obj)) => {
            let obj_class = vm.heap.get_object(obj)?.class;
            let obj_class_name = vm.get_class(obj_class)?.name.clone();
            let component_name = vm.get_class(component)?.name.clone();
            if !vm.is_assignable(obj_class, component)? {
                let mut m = owned("Cannot assign ");
                push_str(&mut m, obj_class_name.as_str());
                push_str(&mut m, " to ");
                push_str(&mut m, component_name.as_str());
                let e = vm.throw_within("java/lang/ArrayStoreException", Some(m.as_str()), depth);
                proof {
                    lemma_moved_trans(start, popped, *vm, None);
                }
                return Err(e);
            }
        },
        _ => {},
    }
    let len = vm.heap.array_len(reference)?;
    if index as usize >= len {
        let e = vm.throw_within(
            "java/lang/ArrayIndexOutOfBoundsException",
            Some(out_of_bounds(index as i64, len).as_str()),
            depth,
        );
        proof {
            lemma_moved_trans(start, popped, *vm, None);
        }
        return Err(e);
    }
    let res = vm.heap.array_set(reference, index as usize, value);
    proof {
        lemma_heap_progress(popped, *vm);
        lemma_moved_trans(start, popped, *vm, None);
    }
    res?;
    Ok(None)
}

/// The constant pool index that an `ldc`, `ldc_w` or `ldc2_w` instruction
/// reads.
pub open spec fn ldc_index(i: Instruction) -> int {
    if i.op == Opcode::Ldc {
        i.b1 as int
    } else {
        operand_u16(i) as int
    }
}

/// The constant that the `ldc` family instruction `i` of frame `f` loads,
/// where it is a number of the instruction's width.
pub open spec fn ldc_number<F>(a: VM<F>, f: Frame, i: Instruction) -> Option<Value> {
    if f.class.0 < a.classes@.len() && 0 <= ldc_index(i) < a.classes@[f.class.0 as int].constant_pool@.len() {
        let wide = i.op == Opcode::Ldc2W;
        match a.classes@[f.class.0 as int].constant_pool@[ldc_index(i)] {
            CpEntry::Integer(v) => if wide { None } else { Some(Value::Int(v)) },
            CpEntry::Float(v) => if wide { None } else { Some(Value::Float(v)) },
            CpEntry::Long(v) => if wide { Some(Value::Long(v)) } else { None },
            CpEntry::Double(v) => if wide { Some(Value::Double(v)) } else { None },
            _ => None,
        }
    } else {
        None
    }
}

/// The characters of the string constant that the `ldc` family
/// instruction `i` of frame `f` loads, where it loads one.
pub open spec fn ldc_string<F>(a: VM<F>, f: Frame, i: Instruction) -> Option<Seq<char>> {
    if i.op != Opcode::Ldc2W && f.class.0 < a.classes@.len() && 0 <= ldc_index(i)
        < a.classes@[f.class.0 as int].constant_pool@.len() {
        let cp = a.classes@[f.class.0 as int].constant_pool@;
        match cp[ldc_index(i)] {
            CpEntry::String { string_index } => match cp_utf8(cp, string_index as int) {
                Ok(s) => Some(s),
                Err(_) => None,
            },
            _ => None,
        }
    } else {
        None
    }
}

/// The name of the class whose `java.lang.Class` object the `ldc` family
/// instruction `i` of frame `f` loads, where it loads one.
pub open spec fn ldc_class<F>(a: VM<F>, f: Frame, i: Instruction) -> Option<Seq<char>> {
    if i.op != Opcode::Ldc2W && f.class.0 < a.classes@.len() && 0 <= ldc_index(i)
        < a.classes@[f.class.0 as int].constant_pool@.len() {
        let cp = a.classes@[f.class.0 as int].constant_pool@;
        match cp[ldc_index(i)] {
            CpEntry::Class { name_index } => match cp_utf8(cp, name_index as int) {
                Ok(s) => Some(s),
                Err(_) => None,
            },
            _ => None,
        }
    } else {
        None
    }
}

/// Whether the `ldc` family instruction `i` of frame `f` loads a string or
/// class constant.
pub open spec fn ldc_reference<F>(a: VM<F>, f: Frame, i: Instruction) -> bool {
    &&& i.op != Opcode::Ldc2W
    &&& f.class.0 < a.classes@.len()
    &&& 0 <= ldc_index(i) < a.classes@[f.class.0 as int].constant_pool@.len()
    &&& a.classes@[f.class.0 as int].constant_pool@[ldc_index(i)] is String
        || a.classes@[f.class.0 as int].constant_pool@[ldc_index(i)] is Class
}

/// What an `ldc` family instruction did from `a`, `f` to `b`, `g`: it pushed
/// its number constant, changing nothing else, or a non-null reference
/// (the interned string or the class's `java.lang.Class` object).
pub open spec fn ldc_done<F>(a: VM<F>, b: VM<F>, f: Frame, g: Frame, i: Instruction) -> bool {
    match ldc_number(a, f, i) {
        Some(v) => frame_now(f, g, stack_push(f.operand_stack@, v)) && same_but_threads(a, b),
        None => {
            &&& ldc_reference(a, f, i)
            &&& g.operand_stack@.len() > 0
            &&& g.operand_stack@.last() matches Value::Reference(Some(o))
            &&& frame_now(f, g, f.operand_stack@.push(g.operand_stack@.last()))
            &&& ldc_string(a, f, i) matches Some(s) ==> interned_as(b.interned@, s) == Some(o)
            &&& ldc_class(a, f, i) matches Some(name) ==> (a.class_named(name) matches Some(k)
                ==> lookup(b.class_objects@, ClassRef(k as usize)) == Some(o))
        },
    }
}

/// What the instruction `i`, one that needs more than its frame and does
/// not return, did from `a`, `f` to `b`, `g` when it succeeded, `nf` being
/// the frame of the method it invokes.
pub open spec fn op_done<F>(a: VM<F>, b: VM<F>, f: Frame, g: Frame, nf: Option<Frame>, i: Instruction) -> bool {
    match i.op {
        Opcode::GetField | Opcode::PutField => nf is None && field_done(a, b, f, g, i),
        Opcode::GetStatic | Opcode::PutStatic => nf is None && static_done(a, b, f, g, i),
        Opcode::New => nf is None && new_done(a, b, f, g, i),
        Opcode::NewArray | Opcode::ANewArray => nf is None && new_array_done(a, b, f, g, i),
        Opcode::ArrayLength => nf is None && length_done(a, b, f, g),
        Opcode::IALoad | Opcode::CALoad | Opcode::AALoad => nf is None && load_done(a, b, f, g),
        Opcode::IAStore | Opcode::CAStore => nf is None && store_done(a, b, f, g)
            && f.operand_stack@.last() is Int,
        Opcode::AAStore => nf is None && store_done(a, b, f, g) && f.operand_stack@.last() is Reference,
        Opcode::Ldc | Opcode::LdcW | Opcode::Ldc2W => nf is None && ldc_done(a, b, f, g, i),
        Opcode::InvokeSpecial | Opcode::InvokeStatic | Opcode::InvokeVirtual
        | Opcode::InvokeInterface => nf matches Some(n) && invoke_done(a, b, f, g, n, i),
        _ => false,
    }
}

/// Whether `arraylength` is bound to succeed on frame `f` of `a`: a
/// reference to an array is on top of the stack.
pub open spec fn length_owed<F>(a: VM<F>, f: Frame) -> bool {
    let s = f.operand_stack@;
    &&& s.len() > 0
    &&& s.last() matches Value::Reference(Some(x))
    &&& heap_array(a.heap@, x) is Some
}

/// Whether an array load is bound to succeed on frame `f` of `a`: an array
/// reference and an index within the array's bounds are on the stack.
pub open spec fn load_owed<F>(a: VM<F>, f: Frame) -> bool {
    let s = f.operand_stack@;
    let s1 = stack_pop(s);
    &&& s.len() > 0
    &&& s.last() matches Value::Int(idx)
    &&& s1.len() > 0
    &&& s1.last() matches Value::Reference(Some(x))
    &&& heap_array(a.heap@, x) matches Some((t, els))
    &&& (idx as usize) < els.len()
}

/// Whether `iastore` or `castore` is bound to succeed on frame `f` of `a`:
/// an array reference, an index within its bounds and an `int` are on the
/// stack.
pub open spec fn int_store_owed<F>(a: VM<F>, f: Frame) -> bool {
    &&& f.operand_stack@.len() > 0
    &&& f.operand_stack@.last() is Int
    &&& {
        let s1 = stack_pop(f.operand_stack@);
        let s2 = stack_pop(s1);
        &&& s1.len() > 0
        &&& s1.last() matches Value::Int(idx)
        &&& s2.len() > 0
        &&& s2.last() matches Value::Reference(Some(x))
        &&& heap_array(a.heap@, x) matches Some((t, els))
        &&& (idx as usize) < els.len()
    }
}

/// Whether the reference `v` may be stored in an array of component class
/// `c` of `a`: `null` may, and so may an object whose class is assignable
/// to `c`.
pub open spec fn storable<F>(a: VM<F>, v: Value, c: ClassRef) -> bool {
    ||| v == Value::Reference(None)
    ||| (v matches Value::Reference(Some(x)) && heap_object(a.heap@, x) matches Some(o) && o.class.0
        < a.classes@.len() && c.0 < a.classes@.len() && assignable(a.classes@, o.class, c, a.classes@.len() as nat)
        == Ok::<bool, ()>(true))
}

/// Whether `aastore` is bound to succeed on frame `f` of `a`: a reference
/// array, an index within its bounds and a reference that it may hold are
/// on the stack.
pub open spec fn ref_store_owed<F>(a: VM<F>, f: Frame) -> bool {
    let s1 = stack_pop(f.operand_stack@);
    let s2 = stack_pop(s1);
    &&& f.operand_stack@.len() > 0
    &&& s1.len() > 0
    &&& s1.last() matches Value::Int(idx)
    &&& s2.len() > 0
    &&& s2.last() matches Value::Reference(Some(x))
    &&& heap_array(a.heap@, x) matches Some((t, els))
    &&& t matches ArrayElementType::Reference(c)
    &&& storable(a, f.operand_stack@.last(), c)
    &&& (idx as usize) < els.len()
}

/// The exception that `aastore` is bound to throw on frame `f` of `a`: a
/// `NullPointerException` for a `null` array, an `ArrayStoreException` for
/// an object whose class is not assignable to the array's component class,
/// an `ArrayIndexOutOfBoundsException` for a reference that it may hold but
/// an index out of its bounds.
pub open spec fn ref_store_throws<F>(a: VM<F>, f: Frame) -> Option<Seq<char>> {
    let s = f.operand_stack@;
    let s1 = stack_pop(s);
    let s2 = stack_pop(s1);
    if s.len() > 0 && s.last() is Reference && s1.len() > 0 && s1.last() is Int && s2.len() > 0
        && s2.last() is Reference {
        let v = s.last();
        let idx = s1.last()->Int_0;
        match s2.last()->Reference_0 {
            None => Some("java/lang/NullPointerException"@),
            Some(x) => match heap_array(a.heap@, x) {
                Some((ArrayElementType::Reference(c), els)) => match v->Reference_0 {
                    Some(y) => match heap_object(a.heap@, y) {
                        Some(o) => if o.class.0 < a.classes@.len() && c.0 < a.classes@.len() {
                            match assignable(a.classes@, o.class, c, a.classes@.len() as nat) {
                                Ok(false) => Some("java/lang/ArrayStoreException"@),
                                Ok(true) => if (idx as usize) >= els.len() {
                                    Some("java/lang/ArrayIndexOutOfBoundsException"@)
                                } else {
                                    None
                                },
                                Err(_) => None,
                            }
                        } else {
                            None
                        },
                        None => None,
                    },
                    None => if (idx as usize) >= els.len() {
                        Some("java/lang/ArrayIndexOutOfBoundsException"@)
                    } else {
                        None
                    },
                },
                _ => None,
            },
        }
    } else {
        None
    }
}

/// Whether `newarray` (`i`) is bound to succeed on frame `f`: a length, not
/// negative, is on top of the stack, and the element type is known.
pub open spec fn new_array_owed(f: Frame, i: Instruction) -> bool {
    let s = f.operand_stack@;
    &&& s.len() > 0
    &&& s.last() matches Value::Int(n)
    &&& n >= 0
    &&& element_type_of(i.b1) is Some
}

/// Whether the instruction `i`, an array instruction, `newarray` or a
/// numeric `ldc`, is bound to succeed on frame `f` of `a`.
pub open spec fn op_owed<F>(a: VM<F>, f: Frame, i: Instruction) -> bool {
    match i.op {
        Opcode::GetField | Opcode::PutField => field_owed(a, f, i),
        Opcode::GetStatic | Opcode::PutStatic => static_owed(a, f, i),
        Opcode::New => new_owed(a, f, i),
        Opcode::ArrayLength => length_owed(a, f),
        Opcode::IALoad | Opcode::CALoad | Opcode::AALoad => load_owed(a, f),
        Opcode::IAStore | Opcode::CAStore => int_store_owed(a, f),
        Opcode::AAStore => ref_store_owed(a, f),
        Opcode::NewArray => new_array_owed(f, i),
        Opcode::Ldc | Opcode::LdcW | Opcode::Ldc2W => ldc_number(a, f, i) is Some || ldc_string(a, f, i)
            is Some,
        _ => false,
    }
}

/// The exception that `arraylength` is bound to throw on frame `f`: a
/// `NullPointerException` for a `null` array.
pub open spec fn length_throws(f: Frame) -> Option<Seq<char>> {
    let s = f.operand_stack@;
    if s.len() > 0 && s.last() == Value::Reference(None) {
        Some("java/lang/NullPointerException"@)
    } else {
        None
    }
}

/// The exception that an access to element `index` of the array that
/// `v` refers to is bound to throw in `a`: a `NullPointerException` for
/// `null`, an `ArrayIndexOutOfBoundsException` for an index out of the
/// array's bounds.
pub open spec fn access_throws<F>(a: VM<F>, v: Value, index: i32) -> Option<Seq<char>> {
    if v == Value::Reference(None) {
        Some("java/lang/NullPointerException"@)
    } else if v is Reference && heap_array(a.heap@, v->Reference_0->Some_0) is Some && (index as usize)
        >= heap_array(a.heap@, v->Reference_0->Some_0)->Some_0.1.len() {
        Some("java/lang/ArrayIndexOutOfBoundsException"@)
    } else {
        None
    }
}

/// The exception that an array load is bound to throw on frame `f` of `a`.
pub open spec fn load_throws<F>(a: VM<F>, f: Frame) -> Option<Seq<char>> {
    let s = f.operand_stack@;
    let s1 = stack_pop(s);
    if s.len() > 0 && s.last() is Int && s1.len() > 0 {
        access_throws(a, s1.last(), s.last()->Int_0)
    } else {
        None
    }
}

/// The exception that `iastore` or `castore` is bound to throw on frame
/// `f` of `a`.
pub open spec fn int_store_throws<F>(a: VM<F>, f: Frame) -> Option<Seq<char>> {
    let s = f.operand_stack@;
    let s1 = stack_pop(s);
    let s2 = stack_pop(s1);
    if s.len() > 0 && s.last() is Int && s1.len() > 0 && s1.last() is Int && s2.len() > 0 {
        access_throws(a, s2.last(), s1.last()->Int_0)
    } else {
        None
    }
}

/// The exception that `newarray` or `anewarray` is bound to throw on frame
/// `f`: a `NegativeArraySizeException` for a negative length.
pub open spec fn new_array_throws(f: Frame) -> Option<Seq<char>> {
    let s = f.operand_stack@;
    if s.len() > 0 && s.last() is Int && s.last()->Int_0 < 0 {
        Some("java/lang/NegativeArraySizeException"@)
    } else {
        None
    }
}

/// The class of the exception that the array instruction `i`, or
/// `newarray` or `anewarray`, is bound to throw on frame `f` of `a`.
pub open spec fn op_throws<F>(a: VM<F>, f: Frame, i: Instruction) -> Option<Seq<char>> {
    match i.op {
        Opcode::ArrayLength => length_throws(f),
        Opcode::IALoad | Opcode::CALoad | Opcode::AALoad => load_throws(a, f),
        Opcode::IAStore | Opcode::CAStore => int_store_throws(a, f),
        Opcode::AAStore => ref_store_throws(a, f),
        Opcode::NewArray | Opcode::ANewArray => new_array_throws(f),
        Opcode::InvokeVirtual | Opcode::InvokeInterface => invoke_throws(a, f, i),
        _ => None,
    }
}

/// `op_throws` and `thrown_new` look at the first state only through what
/// threads and steps left leave out, and `op_throws` at the frame only
/// through its model and class.
pub proof fn lemma_throws_from<F>(
    a: VM<F>,
    a2: VM<F>,
    b: VM<F>,
    f: Frame,
    f2: Frame,
    i: Instruction,
    e: RuntimeError,
)
    requires
        same_but_threads(a, a2),
        f2.model() == f.model(),
        f2.class == f.class,
    ensures
        op_throws(a, f, i) == op_throws(a2, f2, i),
        forall|n: Seq<char>| thrown_new(a2, b, n, None, e) ==> #[trigger] thrown_new(a, b, n, None, e),
{
    assert(f2.operand_stack@ == f.operand_stack@);
    assert forall|n: Seq<char>| thrown_new(a2, b, n, None, e) implies #[trigger] thrown_new(a, b, n, None, e) by {
        assert(a.class_named(n) == a2.class_named(n));
    }
}

/// `op_owed` looks at the state only through what threads and steps left
/// leave out, and at the frame only through its model, class and method.
pub proof fn lemma_op_owed_from<F>(a: VM<F>, a2: VM<F>, f: Frame, f2: Frame, i: Instruction)
    requires
        op_owed(a, f, i),
        same_but_threads(a, a2),
        f2.model() == f.model(),
        f2.class == f.class,
        f2.method_index == f.method_index,
    ensures
        op_owed(a2, f2, i),
{
    assert(f2.operand_stack@ == f.operand_stack@);
}

/// `op_done` does not look at threads or steps left.
pub proof fn lemma_op_done_threads<F>(
    a: VM<F>,
    b: VM<F>,
    c: VM<F>,
    f: Frame,
    g: Frame,
    nf: Option<Frame>,
    i: Instruction,
)
    requires
        op_done(a, b, f, g, nf, i),
        same_but_threads(b, c),
    ensures
        op_done(a, c, f, g, nf, i),
{
}

/// `op_done` looks at the first state only through what threads and steps
/// left leave out, and at the frame only through its model, class and
/// method.
pub proof fn lemma_op_done_from<F>(
    a: VM<F>,
    a2: VM<F>,
    b: VM<F>,
    f: Frame,
    f2: Frame,
    g: Frame,
    nf: Option<Frame>,
    i: Instruction,
)
    requires
        op_done(a2, b, f2, g, nf, i),
        same_but_threads(a, a2),
        f2.model() == f.model(),
        f2.class == f.class,
        f2.method_index == f.method_index,
    ensures
        op_done(a, b, f, g, nf, i),
{
    assert(f2.operand_stack@ == f.operand_stack@ && f2.locals@ == f.locals@ && f2.pc == f.pc);
}

/// The frames of a thread after frame `g`, and `nf` where there is one,
/// are pushed on `fs`.
pub open spec fn frames_after(fs: Seq<Frame>, g: Frame, nf: Option<Frame>) -> Seq<Frame> {
    match nf {
        Some(n) => fs.push(g).push(n),
        None => fs.push(g),
    }
}

/// Whether `op` returns from the current method.
pub open spec fn is_return(op: Opcode) -> bool {
    op == Opcode::IReturn || op == Opcode::FReturn || op == Opcode::DReturn || op == Opcode::AReturn
        || op == Opcode::Return
}

/// What an `ldc` family instruction finds in the constant pool.
enum Constant {
    Value(Value),
    Str(String),
    Class(String),
    Other(&'static str),
}

/// `ldc`, `ldc_w` and `ldc2_w`: pushes a constant of the class's constant
/// pool; a string constant is interned, a class constant gives the class's
/// `java.lang.Class` object.
fn ldc_op<F>(vm: &mut VM<F>, frame: &mut Frame, i: &Instruction) -> (r: Result<Option<Frame>, RuntimeError>)
    requires
        old(vm).wf(),
        i.op == Opcode::Ldc || i.op == Opcode::LdcW || i.op == Opcode::Ldc2W,
    ensures
        moved_on(*old(vm), *final(vm), None),
        r is Ok ==> r->Ok_0 is None && ldc_done(*old(vm), *final(vm), *old(frame), *final(frame), *i),
        ldc_number(*old(vm), *old(frame), *i) is Some ==> r is Ok,
        ldc_string(*old(vm), *old(frame), *i) is Some ==> r is Ok,
{
    let ghost start = *vm;
    let index: u16 = if i.op == Opcode::Ldc {
        i.b1 as u16
    } else {
        index_u16(i)
    };
    let wide = i.op == Opcode::Ldc2W;
    let constant = {
        let pool = frame_pool(vm, frame)?;
        if (index as usize) >= pool.entries.len() {
            return Err(
                RuntimeError::Internal(
                    InternalError::InvalidConstantPoolEntry {
                        index,
                        expected: owned("Any constant pool data type"),
                        found: owned("out of bounds"),
                    },
                ),
            );
        }
        match &pool.entries[index as usize] {
            ConstantPoolEntry::Integer(v) if !wide => Constant::Value(Value::Int(*v)),
            ConstantPoolEntry::Float(v) if !wide => Constant::Value(Value::Float(*v)),
            ConstantPoolEntry::Long(v) if wide => Constant::Value(Value::Long(*v)),
            ConstantPoolEntry::Double(v) if wide => Constant::Value(Value::Double(*v)),
            ConstantPoolEntry::String { string_index } if !wide => Constant::Str(
                pool.get_utf8(*string_index)?,
            ),
            ConstantPoolEntry::Class { name_index } if !wide => Constant::Class(
                pool.get_utf8(*name_index)?,
            ),
            _ => Constant::Other(
                if wide {
                    "Long or Double"
                } else if i.op == Opcode::Ldc {
                    "Any data type"
                } else {
                    "Integer, Float, String or Class"
                },
            ),
        }
    };
    let value = match constant {
        Constant::Value(v) => v,
        Constant::Str(s) => {
            let r = vm.intern_string(s.as_str())?;
            proof {
                lemma_heap_progress(start, *vm);
            }
            Value::Reference(Some(r))
        },
        Constant::Class(name) => {
            let target = match vm.resolve_class(name.as_str()) {
                Ok(c) => c,
                Err(e) => {
                    proof {
                        lemma_loaded_progress(start, *vm);
                    }
                    return Err(e);
                },
            };
            let ghost loaded = *vm;
            proof {
                lemma_loaded_progress(start, loaded);
            }
            let r = vm.class_object_for(target);
            proof {
                lemma_heap_progress(loaded, *vm);
                lemma_moved_trans(start, loaded, *vm, None);
            }
            Value::Reference(Some(r?))
        },
        Constant::Other(expected) => {
            return Err(
                RuntimeError::Internal(
                    InternalError::InvalidConstantPoolEntry {
                        index,
                        expected: owned(expected),
                        found: owned("another entry"),
                    },
                ),
            );
        },
    };
    frame.push_value(value);
    Ok(None)
}

/// The class name, method name and descriptor that the invoke instruction
/// `i` of frame `f` refers to.
pub open spec fn invoke_ref<F>(a: VM<F>, f: Frame, i: Instruction) -> Option<
    (Seq<char>, Seq<char>, Seq<char>),
> {
    if f.class.0 < a.classes@.len() {
        let cp = a.classes@[f.class.0 as int].constant_pool@;
        let r = if i.op == Opcode::InvokeInterface {
            cp_interface_method_ref(cp, operand_u16(i) as int)
        } else {
            cp_method_ref(cp, operand_u16(i) as int)
        };
        match r {
            Ok(t) => Some(t),
            Err(_) => None,
        }
    } else {
        None
    }
}

/// The exception that `invokevirtual` or `invokeinterface` (`i`) is bound
/// to throw on frame `f` of `a`: a `NullPointerException` where its method
/// reference and descriptor are sound and the receiver below the
/// arguments is `null`.
pub open spec fn invoke_throws<F>(a: VM<F>, f: Frame, i: Instruction) -> Option<Seq<char>> {
    match invoke_ref(a, f, i) {
        Some((owner, name, d)) => match spec_param_kinds(d) {
            Some(ks) => match popped(f.operand_stack@, ks.len() + 1) {
                Some((rest, vals)) => if (i.op == Opcode::InvokeVirtual || i.op
                    == Opcode::InvokeInterface) && slots_of(ks) <= usize::MAX && vals[0]
                    == Value::Reference(None) {
                    Some("java/lang/NullPointerException"@)
                } else {
                    None
                },
                None => None,
            },
            None => None,
        },
        None => None,
    }
}

/// What an invoke instruction `i` did from `a`, `f` to `b`, `g`, giving the
/// new frame `nf`: it popped the arguments (and, but for `invokestatic`, the
/// receiver below them) off the stack, and `nf` is a fresh frame of the
/// method to run, with those values in its locals from slot 0 on. That
/// method has the referenced name and descriptor: for `invokestatic` and
/// `invokespecial` the first such method of its class, for `invokevirtual`
/// and `invokeinterface` the first on a superclass chain, the receiver
/// being an object.
pub open spec fn invoke_done<F>(a: VM<F>, b: VM<F>, f: Frame, g: Frame, nf: Frame, i: Instruction) -> bool {
    match invoke_ref(a, f, i) {
        Some((owner, name, d)) => match spec_param_kinds(d) {
            Some(ks) => {
                let k = ks.len() + if i.op == Opcode::InvokeStatic {
                    0nat
                } else {
                    1nat
                };
                &&& popped(f.operand_stack@, k) matches Some((rest, vals))
                &&& frame_now(f, g, rest)
                &&& nf.pc == 0
                &&& nf.operand_stack@.len() == 0
                &&& nf.class.0 < b.classes@.len()
                &&& nf.method_index < b.classes@[nf.class.0 as int].methods@.len()
                &&& nf.locals@ == placed(Seq::new(nf.locals@.len(), |j: int| Value::Empty), vals, 0)
                &&& if i.op == Opcode::InvokeStatic || i.op == Opcode::InvokeSpecial {
                    &&& first_method(method_views(b.classes@[nf.class.0 as int]), name, d) == Some(
                        nf.method_index as nat,
                    )
                    &&& (a.class_named(owner) matches Some(c) ==> nf.class == ClassRef(c as usize))
                } else {
                    &&& vals[0] matches Value::Reference(Some(_))
                    &&& exists|c: ClassRef| #[trigger]
                        virtual_method(b.classes@, c, name, d, b.classes@.len())
                            == ChainLookup::Found((nf.class, nf.method_index as nat))
                    &&& (heap_object(a.heap@, vals[0]->Reference_0->Some_0) matches Some(o)
                        ==> virtual_method(b.classes@, o.class, name, d, b.classes@.len())
                        == ChainLookup::Found((nf.class, nf.method_index as nat)))
                }
            },
            None => false,
        },
        None => false,
    }
}

/// `invokespecial`, `invokestatic`, `invokevirtual` and `invokeinterface`:
/// pops the arguments (and the receiver), and gives the frame of the method
/// to run with them in its locals.
#[verifier::spinoff_prover]
#[verifier::rlimit(40)]
fn invoke_op<F: FloatArithmetic>(
    vm: &mut VM<F>,
    frame: &mut Frame,
    i: &Instruction,
    class_name: &str,
    method_name: &str,
    depth: usize,
) -> (r: Result<Option<Frame>, RuntimeError>)
    requires
        old(vm).wf(),
        i.op == Opcode::InvokeSpecial || i.op == Opcode::InvokeStatic || i.op
            == Opcode::InvokeVirtual || i.op == Opcode::InvokeInterface,
    ensures
        moved_on(*old(vm), *final(vm), None),
        r matches Ok(nf) ==> nf matches Some(n) && invoke_done(
            *old(vm),
            *final(vm),
            *old(frame),
            *final(frame),
            n,
            *i,
        ),
        invoke_throws(*old(vm), *old(frame), *i) matches Some(n) ==> r is Err && thrown_new(
            *old(vm),
            *final(vm),
            n,
            None,
            r->Err_0,
        ),
    decreases depth, 6nat,
{
    let ghost start = *vm;
    let ghost f0 = *frame;
    let index = index_u16(i);
    let (target_class_name, target_name, descriptor) = {
        let pool = frame_pool(vm, frame)?;
        if i.op == Opcode::InvokeInterface {
            pool.get_interface_method_ref(index)?
        } else {
            pool.get_method_ref(index)?
        }
    };
    proof {
        assert(invoke_ref(start, f0, *i) == Some((target_class_name@, target_name@, descriptor@)));
    }
    match i.op {
        Opcode::InvokeSpecial | Opcode::InvokeStatic => {
            let target = match vm.resolve_class(target_class_name.as_str()) {
                Ok(c) => c,
                Err(e) => {
                    proof {
                        lemma_loaded_progress(start, *vm);
                    }
                    return Err(e);
                },
            };
            let ghost loaded = *vm;
            proof {
                lemma_loaded_progress(start, loaded);
                assert(start.classes@.len() == start.classes.len());
                crate::vm::vm::lemma_last_named_bound(start.classes@, target_class_name@, start.classes@.len());
            }
            if i.op == Opcode::InvokeStatic {
                let init = vm.ensure_class_initialized_within(target, depth);
                proof {
                    lemma_moved_trans(start, loaded, *vm, None);
                }
                init?;
            }
            let class = vm.get_class(target)?;
            let idx = match class.find_method(target_name.as_str(), descriptor.as_str()) {
                Some(idx) => idx,
                None => {
                    return Err(
                        RuntimeError::Internal(
                            InternalError::MethodNotFound {
                                class: class.name.clone(),
                                method: target_name,
                            },
                        ),
                    );
                },
            };
            let method = &class.methods[idx];
            let _ = RuntimeMethod::param_slot_count_from_descriptor(method.descriptor.as_str())?;
            let argument_slots = method.param_slot_count();
            let count = param_count(descriptor.as_str())?;
            let ghost cur = *vm;
            let mut args = pop_args(frame, count)?;
            let ghost f1 = *frame;
            let ghost args0 = args@;
            proof {
                assert(first_method(method_views(cur.classes@[target.0 as int]), target_name@, descriptor@)
                    == Some(idx as nat));
            }
            if i.op == Opcode::InvokeSpecial {
                let objectref = match frame.pop_value() {
                    Some(v) => v,
                    None => {
                        return Err(
                            RuntimeError::Internal(
                                InternalError::OperandStackUnderflow { pc: frame.pc },
                            ),
                        );
                    },
                };
                args.insert(0, objectref);
                proof {
                    assert(args@ =~= seq![objectref] + args0);
                    assert(popped(f0.operand_stack@, (count + 1) as nat) == Some(
                        (frame.operand_stack@, args@),
                    ));
                }
                let mut new_frame = Frame::new(method.max_locals, method.max_stack, target, idx);
                if place_args(&mut new_frame, &args, 0).is_err() {
                    return Err(locals_error(target_name.as_str(), argument_slots, method.max_locals));
                }
                proof {
                    assert(invoke_done(start, *vm, f0, *frame, new_frame, *i));
                }
                return Ok(Some(new_frame));
            }
            match &method.body {
                MethodBody::Bytecode(_) => {
                    if method.max_locals < argument_slots {
                        return Err(locals_error(target_name.as_str(), argument_slots, method.max_locals));
                    }
                    let mut new_frame = Frame::new(method.max_locals, method.max_stack, target, idx);
                    if place_args(&mut new_frame, &args, 0).is_err() {
                        return Err(locals_error(target_name.as_str(), argument_slots, method.max_locals));
                    }
                    proof {
                        assert(invoke_done(start, *vm, f0, *frame, new_frame, *i));
                    }
                    Ok(Some(new_frame))
                },
                MethodBody::Native => {
                    let mut new_frame = Frame::new(argument_slots, 0, target, idx);
                    if place_args(&mut new_frame, &args, 0).is_err() {
                        return Err(locals_error(target_name.as_str(), argument_slots, argument_slots));
                    }
                    proof {
                        assert(invoke_done(start, *vm, f0, *frame, new_frame, *i));
                    }
                    Ok(Some(new_frame))
                },
                MethodBody::Abstract => Err(
                    RuntimeError::Internal(
                        InternalError::AbstractMethod { class: target_class_name, method: target_name },
                    ),
                ),
                MethodBody::Unknown => Err(
                    RuntimeError::Internal(InternalError::NoCodeInMethod { method: target_name }),
                ),
            }
        },
        _ => {
            let _ = RuntimeMethod::param_slot_count_from_descriptor(descriptor.as_str())?;
            let count = param_count(descriptor.as_str())?;
            let args = pop_args(frame, count)?;
            let objectref = match frame.pop_value() {
                Some(Value::Reference(Some(r))) => r,
                Some(Value::Reference(None)) => {
                    let message = if i.op == Opcode::InvokeVirtual {
                        "objrectref on invokevirtual is `null`"
                    } else {
                        "objectref on invokeinterface is null"
                    };
                    return Err(vm.throw_within("java/lang/NullPointerException", Some(message), depth));
                },
                other => {
                    return Err(invalid_type(class_name, method_name, frame.pc, "Reference", other));
                },
            };
            let obj_class = match vm.runtime_class_of(objectref) {
                Ok(c) => c,
                Err(e) => {
                    proof {
                        lemma_loaded_progress(start, *vm);
                    }
                    return Err(e);
                },
            };
            proof {
                lemma_loaded_progress(start, *vm);
            }
            let (resolved, idx) = vm.resolve_virtual_method(
                obj_class,
                target_name.as_str(),
                descriptor.as_str(),
            )?;
            let method = vm.get_method(resolved, idx)?;
            let mut all: Vec<Value> = Vec::new();
            all.push(Value::Reference(Some(objectref)));
            let mut k: usize = 0;
            while k < args.len()
                invariant
                    k <= args@.len(),
                    all@ == seq![Value::Reference(Some(objectref))] + args@.subrange(0, k as int),
                decreases args@.len() - k,
            {
                all.push(args[k]);
                proof {
                    assert(args@.subrange(0, k + 1) =~= args@.subrange(0, k as int).push(args@[k as int]));
                }
                k = k + 1;
            }
            proof {
                assert(args@.subrange(0, args@.len() as int) =~= args@);
                assert(popped(f0.operand_stack@, (count + 1) as nat) == Some(
                    (frame.operand_stack@, all@),
                ));
                assert(virtual_method(vm.classes@, obj_class, target_name@, descriptor@, vm.classes@.len())
                    == ChainLookup::Found((resolved, idx as nat)));
            }
            let mut new_frame = Frame::new(method.max_locals, method.max_stack, resolved, idx);
            if place_args(&mut new_frame, &all, 0).is_err() {
                return Err(locals_error(target_name.as_str(), all.len(), method.max_locals));
            }
            proof {
                assert(invoke_done(start, *vm, f0, *frame, new_frame, *i));
            }
            Ok(Some(new_frame))
        },
    }
}

/// The error for a method whose locals cannot hold its arguments.
fn locals_error(method: &str, expected: usize, actual: usize) -> (r: RuntimeError)
    ensures
        r matches RuntimeError::Internal(
            InternalError::InvalidMethodLocals { method: m, expected: e, actual: a },
        ) && m@ == method@ && e == expected && a == actual,
{
    RuntimeError::Internal(InternalError::InvalidMethodLocals { method: owned(method), expected, actual })
}

/// The characters of `s`, where there is one.
pub open spec fn opt_view(s: Option<&str>) -> Option<Seq<char>> {
    match s {
        Some(t) => Some(t@),
        None => None,
    }
}

/// Whether `s` is `a` with the static storage of class `c` made: a new
/// object of class `c` holding the values its static fields start with, at
/// the end of the heap, recorded as `c`'s storage.
pub open spec fn storage_made<F>(a: VM<F>, s: VM<F>, c: ClassRef) -> bool {
    &&& c.0 < a.classes@.len()
    &&& s.heap@ == a.heap@.push(
        EntryModel::Object(
            crate::vm::heap::ObjectModel {
                class: c,
                fields: crate::vm::vm::static_defaults(a.classes@[c.0 as int]),
                class_object: None,
                hash_code: a.heap.next_identity_hash,
            },
        ),
    )
    &&& s.static_storage@ == a.static_storage@.push((c, ObjectRef(a.heap@.len() as usize)))
    &&& s.classes@ == a.classes@
    &&& s.threads@ == a.threads@
    &&& s.steps_left == a.steps_left
}

/// Whether initializing class `c` for the first time took `a` to `b` with
/// `r`: its static storage was made, then its `<clinit>`, where it has one,
/// ran on a new thread; `r` is `Ok` unless that run threw or failed, and
/// then its error.
pub open spec fn initialized<F>(a: VM<F>, b: VM<F>, c: ClassRef, r: Result<(), RuntimeError>) -> bool {
    exists|s: VM<F>|
        #[trigger] storage_made(a, s, c) && match crate::vm::runtime_class::first_method(
            crate::vm::runtime_class::method_views(a.classes@[c.0 as int]),
            "<clinit>"@,
            "()V"@,
        ) {
            None => b == s && r is Ok,
            Some(m) => exists|s2: VM<F>, t: ThreadRef, rr: Result<Value, RuntimeError>|
                #![trigger started(s, s2, t, c, m as usize), run_done(s2, b, t, rr)]
                started(s, s2, t, c, m as usize) && run_done(s2, b, t, rr) && r == match rr {
                    Ok(_) => Ok::<(), RuntimeError>(()),
                    Err(e) => Err(e),
                },
        }
}

/// A first initialization that ran `<clinit>` is one that `initialized`
/// describes.
proof fn lemma_initialized_run<F>(
    a: VM<F>,
    s: VM<F>,
    s2: VM<F>,
    b: VM<F>,
    c: ClassRef,
    m: usize,
    t: ThreadRef,
    rr: Result<Value, RuntimeError>,
)
    requires
        storage_made(a, s, c),
        crate::vm::runtime_class::first_method(
            crate::vm::runtime_class::method_views(a.classes@[c.0 as int]),
            "<clinit>"@,
            "()V"@,
        ) == Some(m as nat),
        started(s, s2, t, c, m),
        run_done(s2, b, t, rr),
    ensures
        initialized(a, b, c, match rr {
            Ok(_) => Ok::<(), RuntimeError>(()),
            Err(e) => Err(e),
        }),
{
    let mm = crate::vm::runtime_class::first_method(
        crate::vm::runtime_class::method_views(a.classes@[c.0 as int]),
        "<clinit>"@,
        "()V"@,
    )->Some_0;
    assert(mm as usize == m);
    assert(started(s, s2, t, c, mm as usize));
    assert(run_done(s2, b, t, rr));
    let r = match rr {
        Ok(_) => Ok::<(), RuntimeError>(()),
        Err(e) => Err(e),
    };
    assert(exists|s3: VM<F>, t3: ThreadRef, rr3: Result<Value, RuntimeError>|
        #![trigger started(s, s3, t3, c, mm as usize), run_done(s3, b, t3, rr3)]
        started(s, s3, t3, c, mm as usize) && run_done(s3, b, t3, rr3) && r == match rr3 {
            Ok(_) => Ok::<(), RuntimeError>(()),
            Err(e) => Err(e),
        });
}

/// A first initialization of a class without `<clinit>` is one that
/// `initialized` describes.
proof fn lemma_initialized_plain<F>(a: VM<F>, s: VM<F>, c: ClassRef)
    requires
        storage_made(a, s, c),
        crate::vm::runtime_class::first_method(
            crate::vm::runtime_class::method_views(a.classes@[c.0 as int]),
            "<clinit>"@,
            "()V"@,
        ) is None,
    ensures
        initialized(a, s, c, Ok::<(), RuntimeError>(())),
{
}

/// Whether an exception of class `name` can be made in `a` without loading
/// or initializing a class: the class is loaded and initialized, and its
/// instance fields, with those of its superclasses, fit and have
/// descriptors that parse.
pub open spec fn exception_ready<F>(a: VM<F>, name: Seq<char>) -> bool {
    &&& a.class_named(name) matches Some(k)
    &&& lookup(a.static_storage@, ClassRef(k as usize)) is Some
    &&& crate::vm::vm::chain_fits(a.classes@, ClassRef(k as usize), total_slots(a.classes@[k as int]), a.classes@.len())
}

/// Whether `r`, the result of throwing an exception of class `name` with
/// detail message `message` from `a` to `b`, is a new object of a loaded
/// class (the class named `name` where `a` had one, and the class loaded
/// for `name` from the class path where that took no other class), whose
/// `detailMessage` field holds a string of the message where the class
/// has that field, and whose other fields hold the values they start with;
/// it is such an object, and no internal error, wherever the exception's
/// class was ready in `a`, and then every object that `a` held is left as
/// it was.
pub open spec fn thrown_new<F>(a: VM<F>, b: VM<F>, name: Seq<char>, message: Option<Seq<char>>, r: RuntimeError) -> bool {
    &&& exception_ready(a, name) ==> r is Thrown
    &&& exception_ready(a, name) ==> crate::vm::heap::entries_kept(a.heap@, b.heap@)
    &&& r matches RuntimeError::Thrown(o) ==> {
        &&& a.heap@.len() <= o.0
        &&& heap_object(b.heap@, o) matches Some(obj)
        &&& obj.class.0 < b.classes@.len()
        &&& a.class_named(name) matches Some(c) ==> obj.class == ClassRef(c as usize)
        &&& crate::vm::vm::loads_directly(a, name) ==> obj.class == ClassRef(a.classes@.len() as usize)
        &&& message matches Some(m) ==> (instance_field(b.classes@, obj.class, "detailMessage"@, b.classes@.len())
            matches ChainLookup::Found((d, slot)) ==> (slot < obj.fields.len() ==> holds_string(
            b.heap@,
            obj.fields[slot as int],
            m,
        )))
        &&& obj.fields.len() == object_defaults(b.classes@, obj.class).len()
        &&& forall|i: int|
            0 <= i < obj.fields.len() ==> #[trigger] obj.fields[i] == object_defaults(b.classes@, obj.class)[i]
                || detail_slot(b.classes@, obj.class) == Some(i)
    }
}

/// The slot of the `detailMessage` field found from class `c` of `cs`,
/// where there is one.
pub open spec fn detail_slot(cs: Seq<RuntimeClass>, c: ClassRef) -> Option<int> {
    match instance_field(cs, c, "detailMessage"@, cs.len()) {
        ChainLookup::Found((d, slot)) => Some(slot as int),
        _ => None,
    }
}

/// The fields of a new object of class `c` of `cs`, each at the value it
/// starts with.
pub open spec fn object_defaults(cs: Seq<RuntimeClass>, c: ClassRef) -> Seq<Value> {
    crate::vm::vm::chain_defaults(cs, c, Seq::new(total_slots(cs[c.0 as int]), |i: int| Value::Empty), cs.len())
}

/// Whether `v` refers to a string object of heap `h` with characters `m`.
pub open spec fn holds_string(h: Seq<EntryModel>, v: Value, m: Seq<char>) -> bool {
    &&& v is Reference
    &&& v->Reference_0 is Some
    &&& v->Reference_0->Some_0.0 < h.len()
    &&& h[v->Reference_0->Some_0.0 as int] == EntryModel::Str(m)
}

impl<F: FloatArithmetic> VM<F> {
    /// Makes an exception object of class `class_name` (loaded and
    /// initialized on the way) with `message` as its detail message, and
    /// gives it as `RuntimeError::Thrown`; a failure on the way comes back
    /// instead.
    pub fn throw(&mut self, class_name: &str, message: Option<&str>) -> (r: RuntimeError)
        requires
            old(self).wf(),
        ensures
            moved_on(*old(self), *final(self), None),
            thrown_new(*old(self), *final(self), class_name@, opt_view(message), r),
            old(self).class_named(class_name@) matches Some(k) ==> (lookup(
                old(self).static_storage@,
                ClassRef(k as usize),
            ) is Some && crate::vm::vm::chain_fits(
                old(self).classes@,
                ClassRef(k as usize),
                total_slots(old(self).classes@[k as int]),
                old(self).classes@.len(),
            ) ==> r is Thrown),
            old(self).class_named(class_name@) is None && crate::vm::classpath::first_file(
                crate::vm::classpath::search_order(old(self).classpath),
                crate::vm::classpath::class_file_name(class_name@),
            ) is None ==> crate::vm::vm::is_class_not_found(r),
            exception_ready(*old(self), class_name@) ==> crate::vm::heap::entries_kept(
                old(self).heap@,
                final(self).heap@,
            ),
            message is None ==> (r matches RuntimeError::Thrown(o) ==> heap_object(final(self).heap@, o)->Some_0.fields
                == object_defaults(final(self).classes@, heap_object(final(self).heap@, o)->Some_0.class)),
    {
        self.throw_within(class_name, message, MAX_NESTING)
    }

    /// `throw`, with `depth` levels of nested running left.
    pub fn throw_within(&mut self, class_name: &str, message: Option<&str>, depth: usize) -> (r:
        RuntimeError)
        requires
            old(self).wf(),
        ensures
            moved_on(*old(self), *final(self), None),
            thrown_new(*old(self), *final(self), class_name@, opt_view(message), r),
            old(self).class_named(class_name@) matches Some(k) ==> (lookup(
                old(self).static_storage@,
                ClassRef(k as usize),
            ) is Some && crate::vm::vm::chain_fits(
                old(self).classes@,
                ClassRef(k as usize),
                total_slots(old(self).classes@[k as int]),
                old(self).classes@.len(),
            ) ==> r is Thrown),
            old(self).class_named(class_name@) is None && crate::vm::classpath::first_file(
                crate::vm::classpath::search_order(old(self).classpath),
                crate::vm::classpath::class_file_name(class_name@),
            ) is None ==> crate::vm::vm::is_class_not_found(r),
            exception_ready(*old(self), class_name@) ==> crate::vm::heap::entries_kept(
                old(self).heap@,
                final(self).heap@,
            ),
            message is None ==> (r matches RuntimeError::Thrown(o) ==> heap_object(final(self).heap@, o)->Some_0.fields
                == object_defaults(final(self).classes@, heap_object(final(self).heap@, o)->Some_0.class)),
        decreases depth, 1nat,
    {
        let ghost start = *self;
        let class_ref = match self.resolve_class(class_name) {
            Ok(c) => c,
            Err(e) => {
                proof {
                    lemma_loaded_progress(start, *self);
                }
                return e;
            },
        };
        let ghost loaded = *self;
        proof {
            lemma_loaded_progress(start, loaded);
            assert(start.classes@.len() == start.classes.len());
            crate::vm::vm::lemma_last_named_bound(start.classes@, class_name@, start.classes@.len());
        }
        let _ = self.ensure_class_initialized_within(class_ref, depth);
        let ghost inited = *self;
        proof {
            lemma_moved_trans(start, loaded, inited, None);
        }
        let defaults = match self.default_field_values(class_ref) {
            Ok(d) => d,
            Err(e) => {
                return e;
            },
        };
        let obj_ref = self.heap.allocate_object_typed(class_ref, defaults.as_slice());
        let ghost made = *self;
        proof {
            reveal_strlit("detailMessage");
        }
        match message {
            Some(msg) => match self.find_instance_field(class_ref, "detailMessage") {
                Ok(Some((_, slot))) => {
                    let str_ref = self.allocate_string(msg);
                    let _ = self.heap.set_field(obj_ref, slot, Value::Reference(Some(str_ref)));
                    proof {
                        assert(self.heap@[str_ref.0 as int] == made.heap@.push(EntryModel::Str(msg@))[str_ref.0 as int]);
                    }
                },
                _ => {},
            },
            None => {},
        }
        proof {
            assert(classes_grow(start.classes@, self.classes@));
            assert(heap_object(self.heap@, obj_ref) is Some);
            if exception_ready(start, class_name@) {
                assert(inited == loaded);
                assert(loaded.heap@ == start.heap@);
                assert(obj_ref.0 == start.heap@.len());
                assert forall|i: int| 0 <= i < start.heap@.len() implies #[trigger] self.heap@[i]
                    == start.heap@[i] by {
                    assert(made.heap@[i] == start.heap@[i]);
                }
            }
        }
        RuntimeError::Thrown(obj_ref)
    }

    /// Allocates the static fields of `class_ref` and runs its `<clinit>`,
    /// once; later calls do nothing.
    pub fn ensure_class_initialized(&mut self, class_ref: ClassRef) -> (r: Result<(), RuntimeError>)
        requires
            old(self).wf(),
        ensures
            moved_on(*old(self), *final(self), None),
            lookup(old(self).static_storage@, class_ref) is Some ==> r is Ok && *final(self) == *old(self),
            r is Ok ==> lookup(final(self).static_storage@, class_ref) is Some,
            lookup(old(self).static_storage@, class_ref) is None && class_ref.0 < old(self).classes@.len()
                && crate::vm::vm::statics_fit(old(self).classes@[class_ref.0 as int]) && (
            crate::vm::runtime_class::first_method(
                crate::vm::runtime_class::method_views(old(self).classes@[class_ref.0 as int]),
                "<clinit>"@,
                "()V"@,
            ) is Some ==> old(self).threads@.len() < usize::MAX) ==> initialized(
                *old(self),
                *final(self),
                class_ref,
                r,
            ),
    {
        self.ensure_class_initialized_within(class_ref, MAX_NESTING)
    }

    /// `ensure_class_initialized`, with `depth` levels of nested running
    /// left.
    #[verifier::spinoff_prover]
    #[verifier::rlimit(60)]
    pub fn ensure_class_initialized_within(&mut self, class_ref: ClassRef, depth: usize) -> (r:
        Result<(), RuntimeError>)
        requires
            old(self).wf(),
        ensures
            moved_on(*old(self), *final(self), None),
            lookup(old(self).static_storage@, class_ref) is Some ==> r is Ok && *final(self) == *old(self),
            r is Ok ==> lookup(final(self).static_storage@, class_ref) is Some,
            lookup(old(self).static_storage@, class_ref) is None && class_ref.0 < old(self).classes@.len()
                && crate::vm::vm::statics_fit(old(self).classes@[class_ref.0 as int]) && (
            crate::vm::runtime_class::first_method(
                crate::vm::runtime_class::method_views(old(self).classes@[class_ref.0 as int]),
                "<clinit>"@,
                "()V"@,
            ) is Some ==> depth > 0 && old(self).threads@.len() < usize::MAX) ==> initialized(
                *old(self),
                *final(self),
                class_ref,
                r,
            ),
        decreases depth, 0nat,
    {
        let ghost start = *self;
        match find_pair(&self.static_storage, class_ref) {
            Some(_) => {
                return Ok(());
            },
            None => {},
        }
        let defaults = self.default_static_field_values(class_ref)?;
        let storage_ref = self.heap.allocate_object_typed(class_ref, defaults.as_slice());
        let ghost pairs = self.static_storage@;
        self.static_storage.push((class_ref, storage_ref));
        proof {
            crate::vm::vm::lemma_assoc_prefix(self.static_storage@, pairs, class_ref, pairs.len());
            assert(self.static_storage@[pairs.len() as int] == (class_ref, storage_ref));
            assert(lookup(self.static_storage@, class_ref) is Some);
            assert(moved_on(start, *self, None));
        }
        let ghost stored = *self;
        proof {
            assert(storage_made(start, stored, class_ref));
        }
        let clinit = self.get_class(class_ref)?.find_method("<clinit>", "()V");
        match clinit {
            Some(idx) => {
                let (max_locals, max_stack) = {
                    let m = self.get_method(class_ref, idx)?;
                    (m.max_locals, m.max_stack)
                };
                if depth == 0 {
                    return Err(RuntimeError::Internal(InternalError::NestingTooDeep));
                }
                let clinit_thread = match self.new_thread_with(
                    Frame::new(max_locals, max_stack, class_ref, idx),
                ) {
                    Ok(t) => t,
                    Err(e) => {
                        proof {
                            lemma_moved_trans(start, stored, *self, None);
                        }
                        return Err(e);
                    },
                };
                let ghost ready = *self;
                proof {
                    lemma_moved_trans(start, stored, ready, None);
                }
                let r = Interpreter::run_within(self, clinit_thread, depth - 1);
                proof {
                    lemma_moved_fresh(start, ready, *self, clinit_thread);
                    lemma_lookup_kept(stored.static_storage@, self.static_storage@, class_ref);
                    lemma_initialized_run(start, stored, ready, *self, class_ref, idx, clinit_thread, r);
                }
                match r {
                    Ok(_) => {},
                    Err(e) => {
                        return Err(e);
                    },
                }
            },
            None => {
                proof {
                    lemma_initialized_plain(start, stored, class_ref);
                }
            },
        }
        Ok(())
    }

    /// A new thread whose only frame is `frame`.
    pub fn new_thread_with(&mut self, frame: Frame) -> (r: Result<ThreadRef, RuntimeError>)
        requires
            old(self).wf(),
        ensures
            moved_on(*old(self), *final(self), None),
            final(self).steps_left == old(self).steps_left,
            final(self).heap@ == old(self).heap@,
            final(self).static_storage@ == old(self).static_storage@,
            r matches Ok(t) ==> t.0 == old(self).threads@.len() && t.0 < final(self).threads@.len()
                && frames_of(*final(self), t) == seq![frame],
            same_but_threads(*old(self), *final(self)),
            r matches Err(e) ==> e is Internal,
            r is Ok <==> old(self).threads@.len() < usize::MAX,
            r is Ok ==> final(self).threads@.len() == old(self).threads@.len() + 1,
    {
        if self.threads.len() == usize::MAX {
            return Err(RuntimeError::Internal(InternalError::ThreadNotFound { thread_id: usize::MAX }));
        }
        let ghost start = *self;
        let t = self.create_thread();
        let ghost made = *self;
        self.put_frame(t, frame);
        proof {
            assert(frames_of(made, t).len() == 0);
            assert(frames_of(*self, t) =~= seq![frame]);
            assert(moved_on(start, made, None));
            assert forall|k: int| 0 <= k < start.threads@.len() implies (
            #[trigger] self.threads@[k]).frames@ == start.threads@[k].frames@ by {
                assert(self.threads@[k] == made.threads@[k]);
            }
        }
        Ok(t)
    }

    /// Runs method `name` with descriptor `descriptor` of class `class_ref`
    /// on a new thread until it returns, and gives the value returned.
    pub fn invoke_static_to_completion(&mut self, class_ref: ClassRef, name: &str, descriptor: &str) -> (r:
        Result<Value, RuntimeError>)
        requires
            old(self).wf(),
        ensures
            moved_on(*old(self), *final(self), None),
            class_ref.0 >= old(self).classes@.len() ==> r is Err && crate::vm::vm::is_class_not_found(r->Err_0),
            class_ref.0 < old(self).classes@.len() && crate::vm::runtime_class::first_method(
                crate::vm::runtime_class::method_views(old(self).classes@[class_ref.0 as int]),
                name@,
                descriptor@,
            ) is None ==> r is Err && crate::vm::vm::is_method_not_found(r->Err_0),
            class_ref.0 < old(self).classes@.len() && old(self).threads@.len() < usize::MAX
                ==> (crate::vm::runtime_class::first_method(
                crate::vm::runtime_class::method_views(old(self).classes@[class_ref.0 as int]),
                name@,
                descriptor@,
            ) matches Some(m) ==> exists|s: VM<F>, t: ThreadRef|
                #[trigger] started(*old(self), s, t, class_ref, m as usize) && run_done(s, *final(self), t, r)),
    {
        self.invoke_static_to_completion_within(class_ref, name, descriptor, MAX_NESTING)
    }

    /// `invoke_static_to_completion`, with `depth` levels of nested running
    /// left.
    pub fn invoke_static_to_completion_within(
        &mut self,
        class_ref: ClassRef,
        name: &str,
        descriptor: &str,
        depth: usize,
    ) -> (r: Result<Value, RuntimeError>)
        requires
            old(self).wf(),
        ensures
            moved_on(*old(self), *final(self), None),
            class_ref.0 >= old(self).classes@.len() ==> r is Err && crate::vm::vm::is_class_not_found(r->Err_0),
            class_ref.0 < old(self).classes@.len() && crate::vm::runtime_class::first_method(
                crate::vm::runtime_class::method_views(old(self).classes@[class_ref.0 as int]),
                name@,
                descriptor@,
            ) is None ==> r is Err && crate::vm::vm::is_method_not_found(r->Err_0),
            class_ref.0 < old(self).classes@.len() && depth > 0 && old(self).threads@.len() < usize::MAX
                ==> (crate::vm::runtime_class::first_method(
                crate::vm::runtime_class::method_views(old(self).classes@[class_ref.0 as int]),
                name@,
                descriptor@,
            ) matches Some(m) ==> exists|s: VM<F>, t: ThreadRef|
                #[trigger] started(*old(self), s, t, class_ref, m as usize) && run_done(s, *final(self), t, r)),
        decreases depth, 0nat,
    {
        let ghost start = *self;
        let class = self.get_class(class_ref)?;
        let method_idx = match class.find_method(name, descriptor) {
            Some(i) => i,
            None => {
                return Err(
                    RuntimeError::Internal(
                        InternalError::MethodNotFound { class: class.name.clone(), method: owned(name) },
                    ),
                );
            },
        };
        let (max_locals, max_stack) = {
            let m = self.get_method(class_ref, method_idx)?;
            (m.max_locals, m.max_stack)
        };
        if depth == 0 {
            return Err(RuntimeError::Internal(InternalError::NestingTooDeep));
        }
        let thread = self.new_thread_with(Frame::new(max_locals, max_stack, class_ref, method_idx))?;
        let ghost ready = *self;
        let r = Interpreter::run_within(self, thread, depth - 1);
        proof {
            lemma_moved_fresh(start, ready, *self, thread);
            let m = crate::vm::runtime_class::first_method(
                crate::vm::runtime_class::method_views(start.classes@[class_ref.0 as int]),
                name@,
                descriptor@,
            )->Some_0;
            assert(m as usize == method_idx);
            assert(started(start, ready, thread, class_ref, m as usize));
            assert(run_done(ready, *self, thread, r));
        }
        r
    }

    /// Runs the method named `name` with descriptor `descriptor` that the
    /// object `receiver` answers to (its class's or an inherited one) with
    /// arguments `args` on a new thread until it returns, and gives the
    /// value returned.
    pub fn invoke_virtual_to_completion(
        &mut self,
        receiver: ObjectRef,
        name: &str,
        descriptor: &str,
        args: Vec<Value>,
    ) -> (r: Result<Value, RuntimeError>)
        requires
            old(self).wf(),
        ensures
            moved_on(*old(self), *final(self), None),
            receiver.0 >= old(self).heap@.len() ==> r is Err && crate::vm::heap::is_heap_error(r->Err_0),
            heap_object(old(self).heap@, receiver) matches Some(o) ==> (virtual_method(
                old(self).classes@,
                o.class,
                name@,
                descriptor@,
                old(self).classes@.len(),
            ) is Missing ==> r is Err && (crate::vm::vm::is_method_not_found(r->Err_0)
                || crate::vm::vm::is_class_not_found(r->Err_0))),
            r is Ok || r is Err && r->Err_0 is Thrown ==> called_virtual(
                *old(self),
                *final(self),
                receiver,
                name@,
                descriptor@,
                args@,
                r,
            ),
            virtual_owed(*old(self), receiver, name@, descriptor@, args@) ==> called_virtual(
                *old(self),
                *final(self),
                receiver,
                name@,
                descriptor@,
                args@,
                r,
            ),
    {
        self.invoke_virtual_to_completion_within(receiver, name, descriptor, args, MAX_NESTING)
    }

    /// `invoke_virtual_to_completion`, with `depth` levels of nested running
    /// left.
    pub fn invoke_virtual_to_completion_within(
        &mut self,
        receiver: ObjectRef,
        name: &str,
        descriptor: &str,
        args: Vec<Value>,
        depth: usize,
    ) -> (r: Result<Value, RuntimeError>)
        requires
            old(self).wf(),
        ensures
            moved_on(*old(self), *final(self), None),
            receiver.0 >= old(self).heap@.len() ==> r is Err && crate::vm::heap::is_heap_error(r->Err_0),
            heap_object(old(self).heap@, receiver) matches Some(o) ==> (virtual_method(
                old(self).classes@,
                o.class,
                name@,
                descriptor@,
                old(self).classes@.len(),
            ) is Missing ==> r is Err && (crate::vm::vm::is_method_not_found(r->Err_0)
                || crate::vm::vm::is_class_not_found(r->Err_0))),
            r is Ok || r is Err && r->Err_0 is Thrown ==> called_virtual(
                *old(self),
                *final(self),
                receiver,
                name@,
                descriptor@,
                args@,
                r,
            ),
            depth > 0 && virtual_owed(*old(self), receiver, name@, descriptor@, args@) ==> called_virtual(
                *old(self),
                *final(self),
                receiver,
                name@,
                descriptor@,
                args@,
                r,
            ),
        decreases depth, 0nat,
    {
        let ghost start = *self;
        let class = self.runtime_class_of(receiver)?;
        let ghost loaded = *self;
        proof {
            lemma_loaded_progress(start, loaded);
        }
        let (resolved, method_idx) = self.resolve_virtual_method(class, name, descriptor)?;
        let (max_locals, max_stack) = {
            let m = self.get_method(resolved, method_idx)?;
            (m.max_locals, m.max_stack)
        };
        let mut frame = Frame::new(max_locals, max_stack, resolved, method_idx);
        let mut all: Vec<Value> = Vec::new();
        all.push(Value::Reference(Some(receiver)));
        let mut k: usize = 0;
        while k < args.len()
            invariant
                k <= args@.len(),
                all@ == seq![Value::Reference(Some(receiver))] + args@.take(k as int),
            decreases args@.len() - k,
        {
            all.push(args[k]);
            proof {
                assert(args@.take(k + 1) =~= args@.take(k as int).push(args@[k as int]));
            }
            k = k + 1;
        }
        proof {
            assert(args@.take(args@.len() as int) =~= args@);
        }
        let ghost empty_frame = frame;
        if place_args(&mut frame, &all, 0).is_err() {
            return Err(
                RuntimeError::Internal(
                    InternalError::InvalidMethodLocals {
                        method: owned(name),
                        expected: all.len(),
                        actual: max_locals,
                    },
                ),
            );
        }
        if depth == 0 {
            return Err(RuntimeError::Internal(InternalError::NestingTooDeep));
        }
        let thread = match self.new_thread_with(frame) {
            Ok(t) => t,
            Err(e) => {
                proof {
                    lemma_moved_trans(start, loaded, *self, None);
                }
                return Err(e);
            },
        };
        let ghost ready = *self;
        proof {
            lemma_moved_trans(start, loaded, ready, None);
        }
        let r = Interpreter::run_within(self, thread, depth - 1);
        proof {
            lemma_moved_fresh(start, ready, *self, thread);
            assert(frames_of(ready, thread)[0] == frame);
            assert(empty_frame.locals@ =~= Seq::new(frame.locals@.len(), |i: int| Value::Empty));
            assert(started(loaded, ready, thread, resolved, method_idx));
            assert(run_done(ready, *self, thread, r));
            reveal(called_virtual);
        }
        r
    }

    /// Runs a program: initializes `java/lang/System`, then runs the
    /// `public static int main(String[])` method of class `main_class` on a
    /// new thread and gives the `int` it returns.
    #[verifier::spinoff_prover]
    #[verifier::rlimit(100)]
    pub fn run_main(&mut self, main_class: &str) -> (r: Result<Value, RuntimeError>)
        requires
            old(self).wf(),
        ensures
            moved_on(*old(self), *final(self), None),
            old(self).threads@.len() < usize::MAX && old(self).class_named("java/lang/System"@) is None
                && crate::vm::classpath::first_file(
                crate::vm::classpath::search_order(old(self).classpath),
                crate::vm::classpath::class_file_name("java/lang/System"@),
            ) is None ==> r is Err && crate::vm::vm::is_class_not_found(r->Err_0),
            r is Ok ==> exists|s: VM<F>, t: ThreadRef|
                #[trigger] main_frame(s, t) && run_done(s, *final(self), t, r) && t.0 == old(self).threads@.len()
                    && (old(self).class_named(main_class@) is Some ==> s.classes@[frames_of(
                    s,
                    t,
                )[0].class.0 as int].name@ == main_class@),
            r matches Err(RuntimeError::Internal(e)) ==> main_unready(*old(self), main_class@) || run_failed::<F>(
                RuntimeError::Internal(e),
            ) || (e matches InternalError::MethodNotFound { class, method } && class@ == main_class@
                && method@ == "main"@),
            r matches Err(RuntimeError::Thrown(o)) ==> main_unready(*old(self), main_class@) || run_failed::<F>(
                RuntimeError::Thrown(o),
            ),
    {
        let ghost start = *self;
        if self.threads.len() == usize::MAX {
            return Err(RuntimeError::Internal(InternalError::ThreadNotFound { thread_id: usize::MAX }));
        }
        let main_thread = self.create_thread();
        let ghost made = *self;
        proof {
            assert forall|k: int| 0 <= k < start.threads@.len() implies (
            #[trigger] made.threads@[k]).frames@ == start.threads@[k].frames@ by {
                assert(made.threads@[k] == start.threads@[k]);
            }
        }
        proof {
            assert(made.classes@ == start.classes@);
        }
        let system_class = match self.resolve_class("java/lang/System") {
            Ok(c) => c,
            Err(e) => {
                proof {
                    lemma_loaded_progress(made, *self);
                    lemma_moved_trans(start, made, *self, None);
                }
                return Err(e);
            },
        };
        let ghost s1 = *self;
        proof {
            lemma_loaded_progress(made, s1);
            lemma_moved_trans(start, made, s1, None);
        }
        let init = self.ensure_class_initialized(system_class);
        let ghost s2 = *self;
        proof {
            lemma_moved_trans(start, s1, s2, None);
        }
        init?;
        let boot = self.invoke_static_to_completion(system_class, "initializeSystemClass", "()V");
        let ghost s3 = *self;
        proof {
            lemma_moved_trans(start, s2, s3, None);
            if !main_unready(start, main_class@) {
                let k = start.class_named("java/lang/System"@)->Some_0;
                crate::vm::vm::lemma_last_named_bound(start.classes@, "java/lang/System"@, start.classes@.len());
                assert(start.classes@.len() == start.classes.len());
                assert(system_class.0 == k);
                assert(s1.classes@ == start.classes@);
                assert(s1.static_storage@ == start.static_storage@);
                assert(s2 == s1);
                if boot is Err {
                    lemma_started_failed(
                        s2,
                        s3,
                        system_class,
                        crate::vm::runtime_class::first_method(
                            crate::vm::runtime_class::method_views(s2.classes@[system_class.0 as int]),
                            "initializeSystemClass"@,
                            "()V"@,
                        )->Some_0 as usize,
                        boot,
                    );
                }
            }
        }
        boot?;
        let main_ref = match self.resolve_class(main_class) {
            Ok(c) => c,
            Err(e) => {
                proof {
                    lemma_loaded_progress(s3, *self);
                    lemma_moved_trans(start, s3, *self, None);
                    if start.class_named(main_class@) is Some {
                        crate::vm::vm::lemma_named_kept(start.classes@, s3.classes@, main_class@);
                    }
                }
                return Err(e);
            },
        };
        let ghost s4 = *self;
        proof {
            lemma_loaded_progress(s3, s4);
            lemma_moved_trans(start, s3, s4, None);
            if start.class_named(main_class@) is Some {
                crate::vm::vm::lemma_named_kept(start.classes@, s3.classes@, main_class@);
                assert(s3.classes@.len() == s3.classes.len());
                let i = s3.class_named(main_class@)->Some_0;
                assert(main_ref == ClassRef(i as usize));
                assert(s4.classes@ == s3.classes@);
                assert(s4.classes@[main_ref.0 as int].name@ == main_class@);
            }
        }
        let class = self.get_class(main_ref)?;
        let mut main_method_idx: Option<usize> = None;
        let mut j: usize = 0;
        while j < class.methods.len()
            invariant
                j <= class.methods@.len(),
                main_method_idx matches Some(m) ==> m < class.methods@.len() && class.methods@[m as int].name@
                    == "main"@ && class.methods@[m as int].descriptor@ == "([Ljava/lang/String;)I"@,
            decreases class.methods@.len() - j,
        {
            let method = &class.methods[j];
            if crate::text::str_eq(method.name.as_str(), "main") && crate::text::str_eq(
                method.descriptor.as_str(),
                "([Ljava/lang/String;)I",
            ) && method.access.contains(crate::class::method::MethodAccessFlags::STATIC)
                && method.access.contains(crate::class::method::MethodAccessFlags::PUBLIC) {
                main_method_idx = Some(j);
            }
            j = j + 1;
        }
        let method_idx = match main_method_idx {
            Some(m) => m,
            None => {
                return Err(
                    RuntimeError::Internal(
                        InternalError::MethodNotFound { class: owned(main_class), method: owned("main") },
                    ),
                );
            },
        };
        let (max_locals, max_stack) = {
            let m = &class.methods[method_idx];
            (m.max_locals, m.max_stack)
        };
        let frame = Frame::new(max_locals, max_stack, main_ref, method_idx);
        self.put_frame(main_thread, frame);
        let ghost s5 = *self;
        proof {
            lemma_frames_progress(s4, s5, main_thread);
        }
        let r = Interpreter::run(self, main_thread);
        proof {
            if r is Err {
                assert(run_done(s5, *self, main_thread, Err::<Value, RuntimeError>(r->Err_0))
                    && frames_of(s5, main_thread).len() == 1);
            }
            lemma_moved_trans(s4, s5, *self, Some(main_thread));
            lemma_moved_fresh(start, s4, *self, main_thread);
            assert(frames_of(s4, main_thread).len() == 0);
            assert(main_frame(s5, main_thread));
        }
        r
    }
}

/// A run started from `a` that ended in an error is a run that failed.
pub proof fn lemma_started_failed<F>(a: VM<F>, b: VM<F>, c: ClassRef, m: usize, r: Result<Value, RuntimeError>)
    requires
        exists|s: VM<F>, t: ThreadRef| #[trigger] started(a, s, t, c, m) && run_done(s, b, t, r),
        r is Err,
    ensures
        run_failed::<F>(r->Err_0),
{
    let (s, t) = choose|s: VM<F>, t: ThreadRef| #[trigger] started(a, s, t, c, m) && run_done(s, b, t, r);
    assert(run_done(s, b, t, Err::<Value, RuntimeError>(r->Err_0)) && frames_of(s, t).len() == 1);
}

/// Changes of the frames of a thread that `a` does not have are no change
/// of the frames of `a`'s threads.
pub proof fn lemma_moved_fresh<F>(a: VM<F>, b: VM<F>, c: VM<F>, t: ThreadRef)
    requires
        moved_on(a, b, None),
        moved_on(b, c, Some(t)),
        t.0 >= a.threads@.len(),
    ensures
        moved_on(a, c, None),
{
    lemma_progressed_trans(a, b, c);
    assert forall|k: int| 0 <= k < a.threads@.len() implies (#[trigger] c.threads@[k]).frames@
        == a.threads@[k].frames@ by {
        assert(b.threads@[k].frames@ == a.threads@[k].frames@);
        assert(ThreadRef(k as usize) != t);
        assert(c.threads@[k].frames@ == b.threads@[k].frames@);
    }
}

/// A class found in a list of pairs is found the same way in a longer list
/// that starts with it.
pub proof fn lemma_lookup_kept(a: Seq<(ClassRef, ObjectRef)>, b: Seq<(ClassRef, ObjectRef)>, k: ClassRef)
    requires
        a.len() <= b.len(),
        forall|i: int| 0 <= i < a.len() ==> #[trigger] b[i] == a[i],
        lookup(a, k) is Some,
    ensures
        lookup(b, k) == lookup(a, k),
{
    crate::vm::vm::lemma_assoc_prefix(b, a, k, a.len());
    crate::vm::vm::lemma_assoc_extend(b, k, a.len(), b.len());
}

} // verus!
