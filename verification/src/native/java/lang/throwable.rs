use vstd::prelude::*;

use crate::error::{InternalError, RuntimeError};
use crate::native::native_context::{NativeContext, bad_argument, is_type_error};
use crate::text::{owned, str_eq};
use crate::vm::float::FloatArithmetic;
use crate::vm::heap::{ArrayElementType, field_written, heap_array, heap_object};
use crate::vm::interpreter::{
    lemma_grew_progress,
    lemma_heap_progress,
    lemma_loaded_progress,
    lemma_moved_trans,
    holds_string,
    moved_on,
    thrown_new,
};
use crate::vm::runtime_class::{ClassRef, RuntimeClass};
use crate::vm::value::{ObjectRef, Value};
use crate::vm::vm::{
    ChainLookup,
    VM,
    assignable,
    chain_defaults,
    chain_fits,
    classes_grow,
    frames_of,
    instance_field,
    replace_char,
    total_slots,
};

verus! {

/// Sets field `name` of `object` (an instance of `class`) to `value`, where
/// the class has such a field.
fn set_named_field<F>(vm: &mut VM<F>, class: ClassRef, object: ObjectRef, name: &str, value: Value) -> (r:
    Result<(), RuntimeError>)
    requires
        old(vm).wf(),
    ensures
        moved_on(*old(vm), *final(vm), None),
        final(vm).heap@.len() == old(vm).heap@.len(),
        forall|i: int|
            0 <= i < old(vm).heap@.len() && i != object.0 ==> #[trigger] final(vm).heap@[i] == old(
                vm,
            ).heap@[i],
        match instance_field(old(vm).classes@, class, name@, old(vm).classes@.len()) {
            ChainLookup::Found((c, slot)) => match heap_object(old(vm).heap@, object) {
                Some(o) => if slot < o.fields.len() {
                    r is Ok && final(vm).heap@ == field_written(old(vm).heap@, object, slot, value)
                } else {
                    r is Err && final(vm).heap@ == old(vm).heap@
                },
                None => r is Err && final(vm).heap@ == old(vm).heap@,
            },
            ChainLookup::Missing => r is Ok && *final(vm) == *old(vm),
            ChainLookup::BadClass => r is Err && *final(vm) == *old(vm),
        },
        final(vm).classes@ == old(vm).classes@,
        r is Ok && heap_object(old(vm).heap@, object) is Some ==> heap_object(final(vm).heap@, object)
            == Some(
            crate::vm::heap::ObjectModel {
                fields: with_field(
                    old(vm).classes@,
                    class,
                    heap_object(old(vm).heap@, object)->Some_0.fields,
                    name@,
                    value,
                ),
                ..heap_object(old(vm).heap@, object)->Some_0
            },
        ),
{
    let ghost start = *vm;
    match vm.find_instance_field(class, name)? {
        Some((_, slot)) => {
            let res = vm.heap.set_field(object, slot, value);
            proof {
                lemma_heap_progress(start, *vm);
            }
            res
        },
        None => Ok(()),
    }
}

/// The frames of `fs` (class and method, the current one last) that a
/// stack trace shows, the current one first: those outside
/// `java/lang/Throwable`.
pub open spec fn traced(cs: Seq<RuntimeClass>, fs: Seq<(ClassRef, usize)>) -> Seq<(ClassRef, usize)>
    decreases fs.len(),
{
    if fs.len() == 0 {
        Seq::empty()
    } else {
        let rest = traced(cs, fs.drop_first());
        let x = fs[0];
        if x.0.0 < cs.len() && cs[x.0.0 as int].name@ == "java/lang/Throwable"@ {
            rest
        } else {
            rest.push(x)
        }
    }
}

/// Loading more classes keeps the trace of frames whose classes were
/// loaded.
proof fn lemma_traced_grow(a: Seq<RuntimeClass>, b: Seq<RuntimeClass>, fs: Seq<(ClassRef, usize)>)
    requires
        classes_grow(a, b),
        forall|j: int| 0 <= j < fs.len() ==> (#[trigger] fs[j]).0.0 < a.len(),
    ensures
        traced(a, fs) == traced(b, fs),
    decreases fs.len(),
{
    if fs.len() > 0 {
        assert(fs[0].0.0 < a.len());
        lemma_traced_grow(a, b, fs.drop_first());
    }
}

/// `fs` with the field `name`, found from class `c`, set to `v`, where `c`
/// has such a field with a slot in `fs`.
pub open spec fn with_field(cs: Seq<RuntimeClass>, c: ClassRef, fs: Seq<Value>, name: Seq<char>, v: Value) -> Seq<
    Value,
> {
    match instance_field(cs, c, name, cs.len()) {
        ChainLookup::Found((d, slot)) => if slot < fs.len() {
            fs.update(slot as int, v)
        } else {
            fs
        },
        _ => fs,
    }
}

/// The fields of a new `StackTraceElement` of class `ec`: their initial
/// values, then `declaringClass` set to the string `d`, `methodName` to the
/// string `m`, `fileName` to `null` and `lineNumber` to -1.
pub open spec fn element_fields(cs: Seq<RuntimeClass>, ec: ClassRef, d: ObjectRef, m: ObjectRef) -> Seq<Value> {
    let f0 = chain_defaults(
        cs,
        ec,
        Seq::new(total_slots(cs[ec.0 as int]), |i: int| Value::Empty),
        cs.len(),
    );
    let f1 = with_field(cs, ec, f0, "declaringClass"@, Value::Reference(Some(d)));
    let f2 = with_field(cs, ec, f1, "methodName"@, Value::Reference(Some(m)));
    let f3 = with_field(cs, ec, f2, "fileName"@, Value::Reference(None));
    with_field(cs, ec, f3, "lineNumber"@, Value::Int(-1i32))
}

/// The name of class `c` of `cs` with `/` replaced by `.`.
pub open spec fn dotted_name(cs: Seq<RuntimeClass>, c: ClassRef) -> Seq<char> {
    cs[c.0 as int].name@.map_values(|ch: char| if ch == '/' { '.' } else { ch })
}

/// Whether `e` refers, in heap `h`, to a `StackTraceElement` (of class
/// `ec`) for the frame running method `p.1` of class `p.0`: its
/// `declaringClass` is the class's dotted name, its `methodName` the
/// method's name, its `fileName` `null` and its `lineNumber` -1; the
/// element and its strings lie at `lo` or after it in the heap.
pub open spec fn element_at(
    h: Seq<crate::vm::heap::EntryModel>,
    cs: Seq<RuntimeClass>,
    ec: ClassRef,
    e: Value,
    p: (ClassRef, usize),
    lo: nat,
) -> bool {
    exists|d: ObjectRef, m: ObjectRef|
        #![trigger element_fields(cs, ec, d, m)]
        {
            &&& e matches Value::Reference(Some(x))
            &&& lo <= x.0 && lo <= d.0 && lo <= m.0
            &&& heap_object(h, x) matches Some(o)
            &&& o.class == ec
            &&& o.fields == element_fields(cs, ec, d, m)
            &&& holds_string(h, Value::Reference(Some(d)), dotted_name(cs, p.0))
            &&& holds_string(h, Value::Reference(Some(m)), cs[p.0.0 as int].methods@[p.1 as int].name@)
        }
}

/// An element stays one where the heap changes only before `lo`, at `a`
/// (no object or string) and past its end.
proof fn lemma_element_kept(
    h: Seq<crate::vm::heap::EntryModel>,
    h2: Seq<crate::vm::heap::EntryModel>,
    cs: Seq<RuntimeClass>,
    ec: ClassRef,
    e: Value,
    p: (ClassRef, usize),
    lo: nat,
    a: int,
)
    requires
        element_at(h, cs, ec, e, p, lo),
        0 <= a < h.len() ==> h[a] is Array,
        h.len() <= h2.len(),
        forall|k: int| lo <= k < h.len() && k != a ==> #[trigger] h2[k] == h[k],
    ensures
        element_at(h2, cs, ec, e, p, lo),
{
    let (d, m) = choose|d: ObjectRef, m: ObjectRef|
        #![trigger element_fields(cs, ec, d, m)]
        {
            &&& e matches Value::Reference(Some(x))
            &&& lo <= x.0 && lo <= d.0 && lo <= m.0
            &&& heap_object(h, x) matches Some(o)
            &&& o.class == ec
            &&& o.fields == element_fields(cs, ec, d, m)
            &&& holds_string(h, Value::Reference(Some(d)), dotted_name(cs, p.0))
            &&& holds_string(h, Value::Reference(Some(m)), cs[p.0.0 as int].methods@[p.1 as int].name@)
        };
    let x = e->Reference_0->Some_0;
    assert(h2[x.0 as int] == h[x.0 as int]);
    assert(h2[d.0 as int] == h[d.0 as int]);
    assert(h2[m.0 as int] == h[m.0 as int]);
    assert(element_fields(cs, ec, d, m) == element_fields(cs, ec, d, m));
}

/// An element that lies at `lo` or after it lies at 0 or after it.
proof fn lemma_element_from_zero(
    h: Seq<crate::vm::heap::EntryModel>,
    cs: Seq<RuntimeClass>,
    ec: ClassRef,
    e: Value,
    p: (ClassRef, usize),
    lo: nat,
)
    requires
        element_at(h, cs, ec, e, p, lo),
    ensures
        element_at(h, cs, ec, e, p, 0),
{
    let (d, m) = choose|d: ObjectRef, m: ObjectRef|
        #![trigger element_fields(cs, ec, d, m)]
        {
            &&& e matches Value::Reference(Some(x))
            &&& lo <= x.0 && lo <= d.0 && lo <= m.0
            &&& heap_object(h, x) matches Some(o)
            &&& o.class == ec
            &&& o.fields == element_fields(cs, ec, d, m)
            &&& holds_string(h, Value::Reference(Some(d)), dotted_name(cs, p.0))
            &&& holds_string(h, Value::Reference(Some(m)), cs[p.0.0 as int].methods@[p.1 as int].name@)
        };
    assert(element_fields(cs, ec, d, m) == element_fields(cs, ec, d, m));
}

/// Whether field `slot` of the object at `t` in heap `h` holds an array
/// whose elements are `StackTraceElement`s for the frames `ps`, in order.
pub open spec fn trace_in_slot(h: Seq<crate::vm::heap::EntryModel>, cs: Seq<RuntimeClass>, t: ObjectRef, slot: int, ps: Seq<(ClassRef, usize)>) -> bool {
    exists|a: ObjectRef, ec: ClassRef|
        #![trigger heap_array(h, a), cs[ec.0 as int]]
        {
            &&& heap_object(h, t) matches Some(obj)
            &&& 0 <= slot < obj.fields.len()
            &&& obj.fields[slot] == Value::Reference(Some(a))
            &&& heap_array(h, a) matches Some((ty, els))
            &&& els.len() == ps.len()
            &&& forall|j: int| 0 <= j < ps.len() ==> element_at(h, cs, ec, #[trigger] els[j], ps[j], 0)
        }
}

/// Whether the object at `t` in heap `h` has a field holding an array whose
/// elements are `StackTraceElement`s for the frames `ps`, in order.
pub open spec fn trace_of(h: Seq<crate::vm::heap::EntryModel>, cs: Seq<RuntimeClass>, t: ObjectRef, ps: Seq<(ClassRef, usize)>) -> bool {
    exists|slot: int| #[trigger] trace_in_slot(h, cs, t, slot, ps)
}

/// Whether the field `name` found from class `c` of `cs`, where there is
/// one, has a slot below `n`.
pub open spec fn field_fits(cs: Seq<RuntimeClass>, c: ClassRef, name: Seq<char>, n: nat) -> bool {
    match instance_field(cs, c, name, cs.len()) {
        ChainLookup::Found((d, slot)) => slot < n,
        ChainLookup::Missing => true,
        ChainLookup::BadClass => false,
    }
}

/// Whether `p` names a method of a class of `cs`.
pub open spec fn method_exists(cs: Seq<RuntimeClass>, p: (ClassRef, usize)) -> bool {
    p.0.0 < cs.len() && p.1 < cs[p.0.0 as int].methods@.len()
}

/// Whether `fillInStackTrace` with arguments `args` on thread `t` of `a` is
/// bound to succeed: the throwable is an object of a class assignable to
/// `java/lang/Throwable`, which has a `stackTrace` field within the
/// object; the thread's frames run methods that exist;
/// `java/lang/StackTraceElement` and its array class are loaded, its fields
/// fit, and the fields the trace sets fit.
pub open spec fn trace_owed<F>(a: VM<F>, args: Seq<Value>, t: crate::vm::thread::ThreadRef) -> bool {
    let cs = a.classes@;
    &&& args.len() == 2
    &&& args[0] matches Value::Reference(Some(x))
    &&& heap_object(a.heap@, x) matches Some(o)
    &&& a.class_named("java/lang/Throwable"@) matches Some(tc)
    &&& assignable(cs, o.class, ClassRef(tc as usize), cs.len() as nat) == Ok::<bool, ()>(true)
    &&& instance_field(cs, ClassRef(tc as usize), "stackTrace"@, cs.len()) matches ChainLookup::Found((d, slot))
    &&& slot < o.fields.len()
    &&& t.0 < a.threads@.len()
    &&& forall|j: int| 0 <= j < frame_pairs(a, t).len() ==> method_exists(cs, #[trigger] frame_pairs(a, t)[j])
    &&& a.class_named("[Ljava/lang/StackTraceElement;"@) is Some
    &&& a.class_named("java/lang/StackTraceElement"@) matches Some(ec)
    &&& chain_fits(cs, ClassRef(ec as usize), total_slots(cs[ec as int]), cs.len())
    &&& field_fits(cs, ClassRef(ec as usize), "declaringClass"@, total_slots(cs[ec as int]))
    &&& field_fits(cs, ClassRef(ec as usize), "methodName"@, total_slots(cs[ec as int]))
    &&& field_fits(cs, ClassRef(ec as usize), "fileName"@, total_slots(cs[ec as int]))
    &&& field_fits(cs, ClassRef(ec as usize), "lineNumber"@, total_slots(cs[ec as int]))
}

/// The class and method of each frame of thread `t`, the current one last.
pub open spec fn frame_pairs<F>(vm: VM<F>, t: crate::vm::thread::ThreadRef) -> Seq<(ClassRef, usize)> {
    frames_of(vm, t).map_values(|f: crate::vm::frame::Frame| (f.class, f.method_index))
}

/// Whether the object at `t` in heap `h` has a field holding an array of
/// `n` non-null references.
pub open spec fn has_trace(h: Seq<crate::vm::heap::EntryModel>, t: ObjectRef, n: nat) -> bool {
    exists|slot: int, a: ObjectRef|
        #![trigger heap_object(h, t)->Some_0.fields[slot], heap_array(h, a)]
        {
            &&& heap_object(h, t) matches Some(obj)
            &&& 0 <= slot < obj.fields.len()
            &&& obj.fields[slot] == Value::Reference(Some(a))
            &&& heap_array(h, a) matches Some((ty, els))
            &&& els.len() == n
            &&& forall|j: int| 0 <= j < n ==> (#[trigger] els[j]) matches Value::Reference(Some(_))
        }
}

/// `java.lang.Throwable.fillInStackTrace(int)`: stores in the throwable's
/// `stackTrace` field a new array of `StackTraceElement`s, one for each
/// frame of the current thread (the current one first) outside
/// `java/lang/Throwable`, with class and method names, no file name and
/// line -1; gives the throwable back.
pub fn fill_in_stack_trace<F: FloatArithmetic>(ctx: &NativeContext, vm: &mut VM<F>, args: &[Value]) -> (r:
    Result<Option<Value>, RuntimeError>)
    requires
        old(vm).wf(),
    ensures
        moved_on(*old(vm), *final(vm), None),
        args@.len() != 2 ==> r is Err && is_type_error(r->Err_0),
        r is Ok ==> r == Ok::<Option<Value>, RuntimeError>(Some(args@[0])),
        r is Ok ==> (args@[0] matches Value::Reference(Some(t)) && has_trace(
            final(vm).heap@,
            t,
            traced(final(vm).classes@, frame_pairs(*old(vm), ctx.thread)).len(),
        )),
        r is Ok ==> (args@[0] matches Value::Reference(Some(t)) && trace_of(
            final(vm).heap@,
            final(vm).classes@,
            t,
            traced(final(vm).classes@, frame_pairs(*old(vm), ctx.thread)),
        )),
        r is Ok ==> (args@[0] matches Value::Reference(Some(t)) && (crate::vm::vm::resolved_index(
            *old(vm),
            "java/lang/Throwable"@,
        ) matches Some(tc) ==> (instance_field(
            final(vm).classes@,
            ClassRef(tc as usize),
            "stackTrace"@,
            final(vm).classes@.len(),
        ) matches ChainLookup::Found((d, slot)) && trace_in_slot(
            final(vm).heap@,
            final(vm).classes@,
            t,
            slot as int,
            traced(final(vm).classes@, frame_pairs(*old(vm), ctx.thread)),
        )))),
        args@.len() == 2 && args@[0] == Value::Reference(None) ==> r is Err && thrown_new(
            *old(vm),
            *final(vm),
            "java/lang/NullPointerException"@,
            Some("this"@),
            r->Err_0,
        ),
        trace_owed(*old(vm), args@, ctx.thread) ==> r is Ok,
        r is Ok ==> (args@[0] matches Value::Reference(Some(t)) && forall|i: int|
            0 <= i < old(vm).heap@.len() && i != t.0 ==> #[trigger] final(vm).heap@[i] == old(vm).heap@[i]),
    decreases ctx.depth, 6nat,
{
    let ghost start = *vm;
    let ghost owed = trace_owed(start, args@, ctx.thread);
    proof {
        assert(start.classes@.len() == start.classes.len());
        crate::vm::vm::lemma_last_named_bound(start.classes@, "java/lang/Throwable"@, start.classes@.len());
        crate::vm::vm::lemma_last_named_bound(start.classes@, "java/lang/StackTraceElement"@, start.classes@.len());
        crate::vm::vm::lemma_last_named_bound(
            start.classes@,
            "[Ljava/lang/StackTraceElement;"@,
            start.classes@.len(),
        );
    }
    if args.len() != 2 {
        return Err(
            bad_argument(
                "java/lang/Throwable",
                "fillInStackTrace",
                "2 arguments to Throwable.fillInStackTrace",
                None,
            ),
        );
    }
    let throwable_ref = match args[0] {
        Value::Reference(Some(reference)) => reference,
        Value::Reference(None) => {
            return Err(ctx.throw(vm, "java/lang/NullPointerException", Some("this")));
        },
        other => {
            return Err(
                bad_argument("java/lang/Throwable", "fillInStackTrace", "java/lang/Throwable", Some(other)),
            );
        },
    };
    let throwable_class = match vm.resolve_class("java/lang/Throwable") {
        Ok(c) => c,
        Err(e) => {
            proof {
                lemma_loaded_progress(start, *vm);
            }
            return Err(e);
        },
    };
    let ghost s1 = *vm;
    proof {
        lemma_loaded_progress(start, s1);
    }
    let actual_class = match vm.runtime_class_of(throwable_ref) {
        Ok(c) => c,
        Err(e) => {
            proof {
                lemma_loaded_progress(s1, *vm);
                lemma_moved_trans(start, s1, *vm, None);
            }
            return Err(e);
        },
    };
    let ghost s2 = *vm;
    proof {
        lemma_loaded_progress(s1, s2);
        lemma_moved_trans(start, s1, s2, None);
    }
    if !vm.is_assignable(actual_class, throwable_class)? {
        let found = match vm.get_class(actual_class) {
            Ok(c) => c.name.clone(),
            Err(_) => owned("another class"),
        };
        return Err(
            RuntimeError::Internal(
                InternalError::InvalidType {
                    expected: owned("java/lang/Throwable"),
                    found,
                    class: owned("java/lang/Throwable"),
                    method: owned("fillInStackTrace"),
                    pc: 0xDEADBEEF,
                },
            ),
        );
    }
    let frame_info = vm.get_thread(ctx.thread())?.frame_snapshot();
    let ghost pairs = frame_pairs(start, ctx.thread);
    proof {
        assert(frame_info@ =~= pairs);
    }
    let mut stack_frames: Vec<(ClassRef, usize)> = Vec::new();
    let mut k: usize = frame_info.len();
    proof {
        assert(pairs.subrange(k as int, pairs.len() as int) =~= Seq::<(ClassRef, usize)>::empty());
    }
    while k > 0
        invariant
            vm.wf(),
            start == *old(vm),
            moved_on(start, *vm, None),
            args@.len() == 2,
            args@[0] == Value::Reference(Some(throwable_ref)),
            k <= frame_info@.len(),
            frame_info@ == pairs,
            *vm == s2,
            stack_frames@ == traced(vm.classes@, pairs.subrange(k as int, pairs.len() as int)),
            forall|j: int| k <= j < pairs.len() ==> (#[trigger] pairs[j]).0.0 < vm.classes@.len(),
            owed == trace_owed(start, args@, ctx.thread),
            owed ==> s2.classes@ == start.classes@ && s2.heap@ == start.heap@,
            owed ==> forall|j: int| 0 <= j < stack_frames@.len() ==> method_exists(
                start.classes@,
                #[trigger] stack_frames@[j],
            ),
            owed ==> forall|j: int| 0 <= j < pairs.len() ==> method_exists(start.classes@, #[trigger] pairs[j]),
        decreases k,
    {
        let (class_ref, method_index) = frame_info[k - 1];
        let class_name = vm.get_class(class_ref)?.name.clone();
        proof {
            let sub = pairs.subrange(k - 1, pairs.len() as int);
            assert(sub.drop_first() =~= pairs.subrange(k as int, pairs.len() as int));
            assert(sub[0] == (class_ref, method_index));
        }
        if !str_eq(class_name.as_str(), "java/lang/Throwable") {
            stack_frames.push((class_ref, method_index));
        }
        k = k - 1;
    }
    proof {
        assert(pairs.subrange(0, pairs.len() as int) =~= pairs);
    }
    let ghost traced_in = vm.classes@;
    let element_class = match vm.resolve_class("java/lang/StackTraceElement") {
        Ok(c) => c,
        Err(e) => {
            proof {
                lemma_loaded_progress(s2, *vm);
                lemma_moved_trans(start, s2, *vm, None);
            }
            return Err(e);
        },
    };
    let ghost s3 = *vm;
    proof {
        lemma_loaded_progress(s2, s3);
        lemma_moved_trans(start, s2, s3, None);
    }
    let array_class = match vm.resolve_class("[Ljava/lang/StackTraceElement;") {
        Ok(c) => c,
        Err(e) => {
            proof {
                lemma_loaded_progress(s3, *vm);
                lemma_moved_trans(start, s3, *vm, None);
            }
            return Err(e);
        },
    };
    let ghost s4 = *vm;
    proof {
        lemma_loaded_progress(s3, s4);
        lemma_moved_trans(start, s3, s4, None);
    }
    let array_ref = vm.heap.allocate_array(
        Some(array_class),
        ArrayElementType::Reference(element_class),
        stack_frames.len(),
    );
    proof {
        lemma_heap_progress(s4, *vm);
        lemma_moved_trans(start, s4, *vm, None);
    }
    proof {
        assert(classes_grow(traced_in, vm.classes@));
    }
    let mut index: usize = 0;
    while index < stack_frames.len()
        invariant
            vm.wf(),
            start == *old(vm),
            moved_on(start, *vm, None),
            args@.len() == 2,
            args@[0] == Value::Reference(Some(throwable_ref)),
            index <= stack_frames@.len(),
            array_ref.0 < vm.heap@.len(),
            array_ref.0 == s4.heap@.len(),
            classes_grow(traced_in, vm.classes@),
            vm.classes@ == s4.classes@,
            element_class.0 < s4.classes@.len(),
            owed == trace_owed(start, args@, ctx.thread),
            owed ==> s4.classes@ == start.classes@,
            owed ==> array_ref.0 == start.heap@.len(),
            forall|q: int| 0 <= q < start.heap@.len() ==> #[trigger] vm.heap@[q] == start.heap@[q],
            start.heap@.len() <= s4.heap@.len(),
            owed ==> start.class_named("java/lang/StackTraceElement"@) == Some(element_class.0 as nat),
            owed ==> start.class_named("java/lang/Throwable"@) == Some(throwable_class.0 as nat),
            owed ==> forall|j: int| 0 <= j < stack_frames@.len() ==> method_exists(
                start.classes@,
                #[trigger] stack_frames@[j],
            ),
            heap_array(vm.heap@, array_ref) matches Some((ty, els)) && els.len() == stack_frames@.len()
                && forall|j: int| 0 <= j < index ==> ((#[trigger] els[j]) matches Value::Reference(Some(_))
                && element_at(vm.heap@, s4.classes@, element_class, els[j], stack_frames@[j], (array_ref.0 + 1) as nat)),
        decreases stack_frames@.len() - index,
    {
        let ghost before = *vm;
        let (class_ref, method_index) = stack_frames[index];
        let class_name = vm.get_class(class_ref)?.name.clone();
        let method_name = vm.get_method(class_ref, method_index)?.name.clone();
        let declaring_class = replace_char(class_name.as_str(), '/', '.');
        let defaults = vm.default_field_values(element_class)?;
        let element_ref = vm.heap.allocate_object_typed(element_class, defaults.as_slice());
        let declaring_ref = vm.allocate_string(declaring_class.as_str());
        let method_name_ref = vm.allocate_string(method_name.as_str());
        let ghost made = *vm;
        proof {
            lemma_grew_progress(before, made);
            lemma_moved_trans(start, before, made, None);
        }
        set_named_field(vm, element_class, element_ref, "declaringClass", Value::Reference(Some(declaring_ref)))?;
        let ghost f1 = *vm;
        proof {
            lemma_moved_trans(start, made, f1, None);
        }
        set_named_field(vm, element_class, element_ref, "methodName", Value::Reference(Some(method_name_ref)))?;
        let ghost f2 = *vm;
        proof {
            lemma_moved_trans(start, f1, f2, None);
        }
        set_named_field(vm, element_class, element_ref, "fileName", Value::Reference(None))?;
        let ghost f3 = *vm;
        proof {
            lemma_moved_trans(start, f2, f3, None);
        }
        set_named_field(vm, element_class, element_ref, "lineNumber", Value::Int(-1))?;
        let ghost f4 = *vm;
        proof {
            lemma_moved_trans(start, f3, f4, None);
        }
        let res = vm.heap.array_set(array_ref, index, Value::Reference(Some(element_ref)));
        proof {
            lemma_heap_progress(f4, *vm);
            lemma_moved_trans(start, f4, *vm, None);
        }
        res?;
        proof {
            let cs = s4.classes@;
            let lo = (array_ref.0 + 1) as nat;
            let hb = before.heap@;
            let he = vm.heap@;
            let els0 = heap_array(hb, array_ref)->Some_0.1;
            let els1 = heap_array(he, array_ref)->Some_0.1;
            assert(els1 == els0.update(index as int, Value::Reference(Some(element_ref))));
            assert forall|k: int| 0 <= k < start.heap@.len() implies #[trigger] he[k] == hb[k] by {
                assert(made.heap@[k] == hb[k]);
                assert(f1.heap@[k] == made.heap@[k]);
                assert(f2.heap@[k] == f1.heap@[k]);
                assert(f3.heap@[k] == f2.heap@[k]);
                assert(f4.heap@[k] == f3.heap@[k]);
            }
            assert forall|k: int| lo <= k < hb.len() && k != array_ref.0 implies #[trigger] he[k] == hb[k] by {
                assert(made.heap@[k] == hb[k]);
                assert(f1.heap@[k] == made.heap@[k]);
                assert(f2.heap@[k] == f1.heap@[k]);
                assert(f3.heap@[k] == f2.heap@[k]);
                assert(f4.heap@[k] == f3.heap@[k]);
            }
            assert forall|j: int| 0 <= j < index implies element_at(he, cs, element_class, #[trigger] els1[j], stack_frames@[j], lo) by {
                assert(els1[j] == els0[j]);
                lemma_element_kept(hb, he, cs, element_class, els0[j], stack_frames@[j], lo, array_ref.0 as int);
            }
            let ef = element_fields(cs, element_class, declaring_ref, method_name_ref);
            assert(heap_object(he, element_ref) matches Some(o) && o.class == element_class && o.fields == ef);
            assert(he[declaring_ref.0 as int] == made.heap@[declaring_ref.0 as int]);
            assert(he[method_name_ref.0 as int] == made.heap@[method_name_ref.0 as int]);
            assert(element_at(he, cs, element_class, els1[index as int], stack_frames@[index as int], lo));
        }
        index = index + 1;
    }
    let stack_trace_slot = match vm.find_instance_field(throwable_class, "stackTrace")? {
        Some((_, slot)) => slot,
        None => {
            return Err(RuntimeError::Internal(InternalError::InvalidSlot));
        },
    };
    let ghost before = *vm;
    let res = vm.heap.set_field(throwable_ref, stack_trace_slot, Value::Reference(Some(array_ref)));
    proof {
        lemma_heap_progress(before, *vm);
        lemma_moved_trans(start, before, *vm, None);
    }
    res?;
    proof {
        lemma_traced_grow(traced_in, vm.classes@, pairs);
        assert(throwable_ref.0 < s2.heap@.len());
        assert(throwable_ref != array_ref);
        let h = vm.heap@;
        let obj = heap_object(h, throwable_ref)->Some_0;
        assert(obj.fields[stack_trace_slot as int] == Value::Reference(Some(array_ref)));
        assert(heap_array(h, array_ref) == heap_array(before.heap@, array_ref));
        assert(has_trace(h, throwable_ref, stack_frames@.len()));
        let lo = (array_ref.0 + 1) as nat;
        let els = heap_array(h, array_ref)->Some_0.1;
        assert(forall|k: int| lo <= k < before.heap@.len() ==> #[trigger] h[k] == before.heap@[k]);
        assert forall|j: int| 0 <= j < stack_frames@.len() implies element_at(
            h,
            vm.classes@,
            element_class,
            #[trigger] els[j],
            traced(vm.classes@, pairs)[j],
            0,
        ) by {
            lemma_element_kept(before.heap@, h, vm.classes@, element_class, els[j], stack_frames@[j], lo, -1);
            lemma_element_from_zero(h, vm.classes@, element_class, els[j], stack_frames@[j], lo);
        }
        assert(trace_in_slot(h, vm.classes@, throwable_ref, stack_trace_slot as int, traced(vm.classes@, pairs)));
        assert(trace_of(h, vm.classes@, throwable_ref, traced(vm.classes@, pairs)));
    }
    Ok(Some(Value::Reference(Some(throwable_ref))))
}

} // verus!
