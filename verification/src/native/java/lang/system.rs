use vstd::prelude::*;

use crate::error::{InternalError, RuntimeError};
use crate::native::native_context::{NativeContext, bad_argument, is_type_error};
use crate::text::owned;
use crate::vm::float::FloatArithmetic;
use crate::vm::heap::{ArrayElementType, EntryModel, entries_kept, heap_array, heap_object};
use crate::vm::interpreter::{
    lemma_grew_progress,
    lemma_heap_progress,
    lemma_loaded_progress,
    lemma_moved_trans,
    called_virtual,
    holds_string,
    storable,
    moved_on,
    thrown_new,
    exception_ready,
    virtual_owed,
};
use crate::vm::value::{ObjectRef, Value};
use crate::vm::vm::{HostInfo, VM, assignable, only_loaded};

verus! {

/// `java.lang.System.registerNatives()`: nothing to do.
pub fn register_natives<F>(_ctx: &NativeContext, vm: &mut VM<F>, _args: &[Value]) -> (r: Result<
    Option<Value>,
    RuntimeError,
>)
    ensures
        r == Ok::<Option<Value>, RuntimeError>(None),
        *final(vm) == *old(vm),
{
    Ok(None)
}

fn pair(key: &str, value: &str) -> (r: (String, String))
    ensures
        r.0@ == key@,
        r.1@ == value@,
{
    (owned(key), owned(value))
}

/// The system properties, key and value, for a machine described by
/// `host`.
pub open spec fn property_list(host: HostInfo) -> Seq<(Seq<char>, Seq<char>)> {
    seq![
        ("java.version"@, "1.8.0"@),
        ("java.vendor"@, "dioptase"@),
        ("java.vendor.url"@, "https://github.com/NotNekodev/dioptase"@),
        ("java.home"@, "/usr/lib/jvm/openjdk8/jre"@),
        ("java.class.version"@, "52.0"@),
        ("java.class.path"@, "."@),
        ("os.name"@, host.os_name@),
        ("os.arch"@, host.os_arch@),
        ("os.version"@, "unknown"@),
        ("file.separator"@, "/"@),
        ("path.separator"@, ":"@),
        ("line.separator"@, "\n"@),
        ("user.name"@, "user"@),
        ("user.home"@, "/home/user"@),
        ("user.dir"@, "."@),
        ("java.io.tmpdir"@, "/tmp"@),
        ("java.specification.version"@, "1.8"@),
        ("java.specification.name"@, "Java Platform API Specification"@),
        ("java.specification.vendor"@, "dioptase"@),
        ("java.vm.name"@, "dioptase VM"@),
        ("java.vm.version"@, host.vm_version@),
        ("java.vm.vendor"@, "dioptase"@),
        ("java.vm.specification.version"@, "1.8"@),
        ("java.vm.specification.name"@, "Java Virtual Machine Specification"@),
        ("java.vm.specification.vendor"@, "dioptase"@),
    ]
}

/// The system properties that `initProperties` sets, key and value, for a
/// machine described by `host`.
pub fn system_properties(host: &HostInfo) -> (r: Vec<(String, String)>)
    ensures
        r@.map_values(|p: (String, String)| (p.0@, p.1@)) == property_list(*host),
{
    let mut v: Vec<(String, String)> = Vec::new();
    v.push(pair("java.version", "1.8.0"));
    v.push(pair("java.vendor", "dioptase"));
    v.push(pair("java.vendor.url", "https://github.com/NotNekodev/dioptase"));
    v.push(pair("java.home", "/usr/lib/jvm/openjdk8/jre"));
    v.push(pair("java.class.version", "52.0"));
    v.push(pair("java.class.path", "."));
    v.push(pair("os.name", host.os_name.as_str()));
    v.push(pair("os.arch", host.os_arch.as_str()));
    v.push(pair("os.version", "unknown"));
    v.push(pair("file.separator", "/"));
    v.push(pair("path.separator", ":"));
    v.push(pair("line.separator", "\n"));
    v.push(pair("user.name", "user"));
    v.push(pair("user.home", "/home/user"));
    v.push(pair("user.dir", "."));
    v.push(pair("java.io.tmpdir", "/tmp"));
    v.push(pair("java.specification.version", "1.8"));
    v.push(pair("java.specification.name", "Java Platform API Specification"));
    v.push(pair("java.specification.vendor", "dioptase"));
    v.push(pair("java.vm.name", "dioptase VM"));
    v.push(pair("java.vm.version", host.vm_version.as_str()));
    v.push(pair("java.vm.vendor", "dioptase"));
    v.push(pair("java.vm.specification.version", "1.8"));
    v.push(pair("java.vm.specification.name", "Java Virtual Machine Specification"));
    v.push(pair("java.vm.specification.vendor", "dioptase"));
    proof {
        assert(v@.map_values(|p: (String, String)| (p.0@, p.1@)) =~= property_list(*host));
    }
    v
}

/// The descriptor of `java.util.Properties.setProperty`.
pub open spec fn set_property_descriptor() -> Seq<char> {
    "(Ljava/lang/String;Ljava/lang/String;)Ljava/lang/Object;"@
}

/// The arguments of a call with references `k` and `v`.
pub open spec fn string_args(k: ObjectRef, v: ObjectRef) -> Seq<Value> {
    seq![Value::Reference(Some(k)), Value::Reference(Some(v))]
}

/// Whether `m` is `a` with two new strings, `k` of characters `key` and
/// then `v` of characters `value`, and nothing else changed.
pub open spec fn strings_made<F>(a: VM<F>, m: VM<F>, k: ObjectRef, v: ObjectRef, key: Seq<char>, value: Seq<char>) -> bool {
    &&& k.0 == a.heap@.len()
    &&& v.0 == a.heap@.len() + 1
    &&& m.heap@ == a.heap@.push(EntryModel::Str(key)).push(EntryModel::Str(value))
    &&& m.heap.next_identity_hash == a.heap.next_identity_hash
    &&& m.classes@ == a.classes@
    &&& m.threads@ == a.threads@
    &&& m.static_storage@ == a.static_storage@
    &&& m.class_objects@ == a.class_objects@
    &&& m.interned@ == a.interned@
    &&& m.steps_left == a.steps_left
    &&& m.classpath == a.classpath
    &&& m.primitive_classes == a.primitive_classes
}

/// Whether a call of `setProperty` on `props` with arguments `args`, with
/// `depth` levels of nested running left, went from `a` to `b` with `res`:
/// it ran the method, as `called_virtual` says, wherever it returned,
/// threw, or could get as far as running the method; otherwise it failed
/// with an internal error before running anything.
pub open spec fn set_property_call<F>(
    a: VM<F>,
    b: VM<F>,
    props: ObjectRef,
    args: Seq<Value>,
    res: Result<Value, RuntimeError>,
    depth: nat,
) -> bool {
    &&& moved_on(a, b, None)
    &&& (res is Ok || res->Err_0 is Thrown || (depth > 0 && virtual_owed(
        a,
        props,
        "setProperty"@,
        set_property_descriptor(),
        args,
    ))) ==> called_virtual(a, b, props, "setProperty"@, set_property_descriptor(), args, res)
    &&& !(res is Ok || res->Err_0 is Thrown || (depth > 0 && virtual_owed(
        a,
        props,
        "setProperty"@,
        set_property_descriptor(),
        args,
    ))) ==> res->Err_0 is Internal
}

/// Whether setting property `p` on `props` went from `a` to `b` with `res`:
/// strings of its key and value were made, and `setProperty` called with
/// them.
pub open spec fn property_step<F>(
    a: VM<F>,
    b: VM<F>,
    props: ObjectRef,
    p: (Seq<char>, Seq<char>),
    res: Result<Value, RuntimeError>,
    depth: nat,
) -> bool {
    exists|m: VM<F>, k: ObjectRef, v: ObjectRef|
        #[trigger] strings_made(a, m, k, v, p.0, p.1) && set_property_call(m, b, props, string_args(k, v), res, depth)
}

/// Whether states `ss` and call results `rs` are a run of setting the first
/// properties of `ps` on `props`, one after another: call `j` goes from
/// `ss[j]` to `ss[j + 1]` with `rs[j]`, and every call but the last
/// returned.
pub open spec fn properties_trace<F>(
    ss: Seq<VM<F>>,
    rs: Seq<Result<Value, RuntimeError>>,
    props: ObjectRef,
    ps: Seq<(Seq<char>, Seq<char>)>,
    depth: nat,
) -> bool {
    &&& ss.len() == rs.len() + 1
    &&& rs.len() <= ps.len()
    &&& forall|j: int| 0 <= j < rs.len() ==> property_step(ss[j], ss[j + 1], props, ps[j], #[trigger] rs[j], depth)
    &&& forall|j: int| 0 <= j < rs.len() - 1 ==> (#[trigger] rs[j]) is Ok
}

/// Whether setting the properties `ps` on `props` in order went from `a`
/// to `b` and gave `r`: the first call that fails ends the run with its
/// error, and where all return, `r` gives back `arg`.
pub open spec fn properties_done<F>(
    a: VM<F>,
    b: VM<F>,
    props: ObjectRef,
    ps: Seq<(Seq<char>, Seq<char>)>,
    depth: nat,
    arg: Value,
    r: Result<Option<Value>, RuntimeError>,
) -> bool {
    exists|ss: Seq<VM<F>>, rs: Seq<Result<Value, RuntimeError>>|
        #[trigger] properties_trace(ss, rs, props, ps, depth) && ss[0] == a && ss.last() == b && if rs.len() > 0
            && rs.last() is Err {
            r == Err::<Option<Value>, RuntimeError>(rs.last()->Err_0)
        } else {
            rs.len() == ps.len() && r == Ok::<Option<Value>, RuntimeError>(Some(arg))
        }
}

/// `java.lang.System.initProperties(Properties)`: calls `setProperty` on
/// the given object for each of the system properties, and gives the
/// object back.
#[verifier::spinoff_prover]
#[verifier::rlimit(60)]
pub fn init_properties<F: FloatArithmetic>(ctx: &NativeContext, vm: &mut VM<F>, args: &[Value]) -> (r:
    Result<Option<Value>, RuntimeError>)
    requires
        old(vm).wf(),
    ensures
        moved_on(*old(vm), *final(vm), None),
        r is Ok ==> args@.len() > 0 && args@[0] is Reference && r == Ok::<
            Option<Value>,
            RuntimeError,
        >(Some(args@[0])),
        args@.len() > 0 && !(args@[0] matches Value::Reference(Some(_))) ==> r is Err && thrown_new(
            *old(vm),
            *final(vm),
            "java/lang/NullPointerException"@,
            None,
            r->Err_0,
        ),
        args@.len() == 0 ==> r is Err && is_type_error(r->Err_0),
        args@.len() > 0 ==> (args@[0] matches Value::Reference(Some(props)) ==> properties_done(
            *old(vm),
            *final(vm),
            props,
            property_list(old(vm).host),
            ctx.depth as nat,
            args@[0],
            r,
        )),
    decreases ctx.depth, 6nat,
{
    let ghost start = *vm;
    if args.len() == 0 {
        return Err(bad_argument("java/lang/System", "initProperties", "1 argument", None));
    }
    let props_ref = match args[0] {
        Value::Reference(Some(r)) => r,
        _ => {
            return Err(ctx.throw(vm, "java/lang/NullPointerException", None));
        },
    };
    let entries = system_properties(&vm.host);
    let ghost ps = property_list(start.host);
    let ghost mut ss: Seq<VM<F>> = seq![start];
    let ghost mut rs: Seq<Result<Value, RuntimeError>> = Seq::empty();
    let mut i: usize = 0;
    while i < entries.len()
        invariant
            vm.wf(),
            start == *old(vm),
            moved_on(start, *vm, None),
            i <= entries@.len(),
            args@.len() > 0 && args@[0] == Value::Reference(Some(props_ref)),
            entries@.map_values(|p: (String, String)| (p.0@, p.1@)) == ps,
            ps == property_list(start.host),
            properties_trace(ss, rs, props_ref, ps, ctx.depth as nat),
            ss[0] == start,
            ss.last() == *vm,
            rs.len() == i,
            forall|j: int| 0 <= j < rs.len() ==> (#[trigger] rs[j]) is Ok,
        decreases entries@.len() - i,
    {
        let ghost before = *vm;
        let key_ref = vm.allocate_string(entries[i].0.as_str());
        let val_ref = vm.allocate_string(entries[i].1.as_str());
        let ghost allocated = *vm;
        proof {
            lemma_grew_progress(before, allocated);
            lemma_moved_trans(start, before, allocated, None);
            assert(entries@.map_values(|p: (String, String)| (p.0@, p.1@))[i as int] == (
            entries@[i as int].0@, entries@[i as int].1@));
            assert(strings_made(before, allocated, key_ref, val_ref, ps[i as int].0, ps[i as int].1));
        }
        let result = vm.invoke_virtual_to_completion_within(
            props_ref,
            "setProperty",
            "(Ljava/lang/String;Ljava/lang/String;)Ljava/lang/Object;",
            vec![Value::Reference(Some(key_ref)), Value::Reference(Some(val_ref))],
            ctx.depth,
        );
        let ghost after = *vm;
        proof {
            lemma_moved_trans(start, allocated, after, None);
            let key = Value::Reference(Some(key_ref));
            let val = Value::Reference(Some(val_ref));
            assert(seq![key, val] == string_args(key_ref, val_ref));
            assert(set_property_call(allocated, after, props_ref, string_args(key_ref, val_ref), result, ctx.depth as nat));
            assert(property_step(before, after, props_ref, ps[i as int], result, ctx.depth as nat));
            let ss0 = ss;
            let rs0 = rs;
            ss = ss.push(after);
            rs = rs.push(result);
            assert forall|j: int| 0 <= j < rs.len() implies property_step(
                ss[j],
                ss[j + 1],
                props_ref,
                ps[j],
                #[trigger] rs[j],
                ctx.depth as nat,
            ) by {
                if j < rs0.len() {
                    assert(rs[j] == rs0[j]);
                    assert(ss[j] == ss0[j]);
                    assert(ss[j + 1] == ss0[j + 1]);
                } else {
                    assert(ss[j] == before);
                }
            }
            assert forall|j: int| 0 <= j < rs.len() - 1 implies (#[trigger] rs[j]) is Ok by {
                assert(rs[j] == rs0[j]);
            }
            assert(properties_trace(ss, rs, props_ref, ps, ctx.depth as nat));
        }
        match result {
            Ok(_) => {},
            Err(e) => {
                proof {
                    assert(rs.last() == result);
                }
                return Err(e);
            },
        }
        i = i + 1;
    }
    Ok(Some(Value::Reference(Some(props_ref))))
}

/// The elements of `dest` from `at` on replaced by `values`.
pub open spec fn copied_into(dest: Seq<Value>, values: Seq<Value>, at: int) -> Seq<Value> {
    Seq::new(
        dest.len(),
        |k: int|
            if at <= k < at + values.len() {
                values[k - at]
            } else {
                dest[k]
            },
    )
}

/// Whether the heap went from `h0` to `h1` as a successful `arraycopy`
/// with arguments `args` leaves it: the source and destination are arrays,
/// and the destination holds the copied elements from `srcPos` on.
pub open spec fn copy_done(h0: Seq<crate::vm::heap::EntryModel>, h1: Seq<crate::vm::heap::EntryModel>, args: Seq<Value>) -> bool {
    &&& args[0] matches Value::Reference(Some(_))
    &&& args[2] matches Value::Reference(Some(_))
    &&& args[1] is Int
    &&& {
        let (s, d, p, n) = (
            args[0]->Reference_0->Some_0,
            args[2]->Reference_0->Some_0,
            args[1]->Int_0 as int,
            args[4]->Int_0 as int,
        );
        &&& heap_array(h0, s) is Some
        &&& heap_array(h0, d) is Some
        &&& heap_array(h1, d) is Some
        &&& heap_array(h1, d)->Some_0.1 == copied_into(
            heap_array(h0, d)->Some_0.1,
            heap_array(h0, s)->Some_0.1.subrange(p, p + n),
            p,
        )
    }
}

/// Whether `args` are five arguments of the kinds that `arraycopy` takes:
/// a non-null source, an `int`, a non-null destination and two `int`s.
pub open spec fn copy_args(args: Seq<Value>) -> bool {
    &&& args.len() == 5
    &&& args[0] matches Value::Reference(Some(_))
    &&& args[1] is Int
    &&& args[2] matches Value::Reference(Some(_))
    &&& args[3] is Int
    &&& args[4] is Int
}

/// The source array of `arraycopy` arguments `args` on heap `h`.
pub open spec fn copy_source(h: Seq<crate::vm::heap::EntryModel>, args: Seq<Value>) -> Option<(ArrayElementType, Seq<Value>)> {
    heap_array(h, args[0]->Reference_0->Some_0)
}

/// The destination array of `arraycopy` arguments `args` on heap `h`.
pub open spec fn copy_dest(h: Seq<crate::vm::heap::EntryModel>, args: Seq<Value>) -> Option<(ArrayElementType, Seq<Value>)> {
    heap_array(h, args[2]->Reference_0->Some_0)
}

/// Whether `arraycopy` with arguments `args` on heap `h` passes its index
/// checks: no negative position or length, both objects arrays, and both
/// ranges inside `int` and inside their arrays.
pub open spec fn copy_in_bounds(h: Seq<crate::vm::heap::EntryModel>, args: Seq<Value>) -> bool {
    let (sp, dp, n) = (args[1]->Int_0 as int, args[3]->Int_0 as int, args[4]->Int_0 as int);
    &&& 0 <= sp && 0 <= dp && 0 <= n
    &&& copy_source(h, args) is Some
    &&& copy_dest(h, args) is Some
    &&& sp + n <= i32::MAX
    &&& dp + n <= i32::MAX
    &&& sp + n <= copy_source(h, args)->Some_0.1.len()
    &&& dp + n <= copy_dest(h, args)->Some_0.1.len()
}

/// Whether a copy between primitive arrays goes through: both arrays have
/// the same primitive element type, and the copied range, which lands at
/// the same positions in the destination as it has in the source, fits in
/// the destination.
pub open spec fn copy_primitive(h: Seq<crate::vm::heap::EntryModel>, args: Seq<Value>) -> bool {
    let t = copy_source(h, args)->Some_0.0;
    &&& !(t is Reference)
    &&& t == copy_dest(h, args)->Some_0.0
    &&& args[1]->Int_0 + args[4]->Int_0 <= copy_dest(h, args)->Some_0.1.len()
}

/// Whether a copy between reference arrays goes through: both arrays hold
/// references, the copied range fits in the destination from the source
/// position on, and each copied element is `null` or an object whose class
/// is assignable to the destination's component class.
pub open spec fn copy_references<F>(a: VM<F>, args: Seq<Value>) -> bool {
    let h = a.heap@;
    let (sp, n) = (args[1]->Int_0 as int, args[4]->Int_0 as int);
    &&& copy_source(h, args)->Some_0.0 is Reference
    &&& copy_dest(h, args)->Some_0.0 matches ArrayElementType::Reference(dc)
    &&& sp + n <= copy_dest(h, args)->Some_0.1.len()
    &&& forall|j: int| sp <= j < sp + n ==> storable(a, #[trigger] copy_source(h, args)->Some_0.1[j], dc)
}

/// Whether a copy between reference arrays stops at source position `j`:
/// every element before it, from the source position on, may be stored in
/// the destination, and the element at `j` is an object whose class is
/// not assignable to the destination's component class.
pub open spec fn copy_refused_at<F>(a: VM<F>, args: Seq<Value>, j: int) -> bool {
    let h = a.heap@;
    let sp = args[1]->Int_0 as int;
    let dc = copy_dest(h, args)->Some_0.0->Reference_0;
    &&& copy_source(h, args)->Some_0.0 is Reference
    &&& copy_dest(h, args)->Some_0.0 is Reference
    &&& sp <= j < sp + args[4]->Int_0
    &&& forall|i: int| sp <= i < j ==> storable(a, #[trigger] copy_source(h, args)->Some_0.1[i], dc)
    &&& copy_source(h, args)->Some_0.1[j] matches Value::Reference(Some(x))
    &&& heap_object(h, x) matches Some(o)
    &&& o.class.0 < a.classes@.len()
    &&& dc.0 < a.classes@.len()
    &&& assignable(a.classes@, o.class, dc, a.classes@.len() as nat) == Ok::<bool, ()>(false)
}

/// No position of the source stops a reference copy when none before `p`
/// does, `p` does not, and some element up to `p` may not be stored.
proof fn lemma_none_refused<F>(a: VM<F>, args: Seq<Value>, p: int)
    requires
        forall|j: int| args[1]->Int_0 <= j < p ==> !copy_refused_at(a, args, j),
        !copy_refused_at(a, args, p),
        !(forall|i: int| args[1]->Int_0 <= i <= p ==> storable(
            a,
            #[trigger] copy_source(a.heap@, args)->Some_0.1[i],
            copy_dest(a.heap@, args)->Some_0.0->Reference_0,
        )),
    ensures
        forall|j: int| !copy_refused_at(a, args, j),
{
    assert forall|j: int| !copy_refused_at(a, args, j) by {
        if p < j && copy_refused_at(a, args, j) {
            assert(forall|i: int| args[1]->Int_0 <= i <= p ==> storable(
                a,
                #[trigger] copy_source(a.heap@, args)->Some_0.1[i],
                copy_dest(a.heap@, args)->Some_0.0->Reference_0,
            ));
        }
    }
}

/// Whether every source element that `arraycopy` with arguments `args`
/// would check, from `srcPos` on, is `null` or an object of `a` (no string
/// or array).
pub open spec fn plain_elements<F>(a: VM<F>, args: Seq<Value>) -> bool {
    let (sp, n) = (args[1]->Int_0 as int, args[4]->Int_0 as int);
    copy_source(a.heap@, args) matches Some((t, els)) ==> forall|j: int|
        sp <= j < sp + n && 0 <= j < els.len() ==> (#[trigger] els[j] == Value::Reference(None) || (
        els[j] matches Value::Reference(Some(x)) && heap_object(a.heap@, x) is Some))
}

/// Whether the three exception classes that `arraycopy` throws are ready
/// in `a`.
pub open spec fn copy_exceptions_ready<F>(a: VM<F>) -> bool {
    &&& exception_ready(a, "java/lang/NullPointerException"@)
    &&& exception_ready(a, "java/lang/IndexOutOfBoundsException"@)
    &&& exception_ready(a, "java/lang/ArrayStoreException"@)
}

/// Whether heap `b` has the entries of heap `a`, no more, with all but the
/// one at `x` as they were.
pub open spec fn others_kept(a: Seq<EntryModel>, b: Seq<EntryModel>, x: ObjectRef) -> bool {
    &&& b.len() == a.len()
    &&& forall|i: int| 0 <= i < a.len() && i != x.0 ==> #[trigger] b[i] == a[i]
}

/// An `int` argument of `arraycopy`.
fn int_arg(args: &[Value], i: usize, what: &str) -> (r: Result<i32, RuntimeError>)
    requires
        i < args@.len(),
    ensures
        args@[i as int] matches Value::Int(v) ==> r == Ok::<i32, RuntimeError>(v),
        !(args@[i as int] is Int) ==> r is Err && is_type_error(r->Err_0),
{
    match args[i] {
        Value::Int(v) => Ok(v),
        other => Err(bad_argument("java/lang/System", "arraycopy", what, Some(other))),
    }
}

/// `java.lang.System.arraycopy(Object, int, Object, int, int)`: copies
/// `length` elements of the source array from `srcPos` on. The checks are
/// those of the JDK (null arrays, negative positions, ranges out of bounds,
/// incompatible element types); the elements are written to the
/// destination from position `srcPos` on.
pub fn arraycopy<F: FloatArithmetic>(ctx: &NativeContext, vm: &mut VM<F>, args: &[Value]) -> (r: Result<
    Option<Value>,
    RuntimeError,
>)
    requires
        old(vm).wf(),
    ensures
        moved_on(*old(vm), *final(vm), None),
        args@.len() != 5 ==> r is Err && is_type_error(r->Err_0),
        r is Ok ==> r == Ok::<Option<Value>, RuntimeError>(None),
        r is Ok && args@.len() == 5 && args@[4] is Int && args@[4]->Int_0 > 0 ==> copy_done(
            old(vm).heap@,
            final(vm).heap@,
            args@,
        ),
        copy_args(args@) && copy_in_bounds(old(vm).heap@, args@) && (args@[4]->Int_0 == 0
            || copy_primitive(old(vm).heap@, args@) || copy_references(*old(vm), args@)) ==> r is Ok,
        args@.len() == 5 && args@[0] == Value::Reference(None) ==> r is Err && thrown_new(
            *old(vm),
            *final(vm),
            "java/lang/NullPointerException"@,
            Some("src"@),
            r->Err_0,
        ),
        args@.len() == 5 && (args@[0] matches Value::Reference(Some(_))) && args@[1] is Int
            && args@[2] == Value::Reference(None) ==> r is Err && thrown_new(
            *old(vm),
            *final(vm),
            "java/lang/NullPointerException"@,
            Some("dest"@),
            r->Err_0,
        ),
        copy_args(args@) && (args@[1]->Int_0 < 0 || args@[3]->Int_0 < 0 || args@[4]->Int_0 < 0)
            ==> r is Err && thrown_new(
            *old(vm),
            *final(vm),
            "java/lang/IndexOutOfBoundsException"@,
            Some("Negative arraycopy index"@),
            r->Err_0,
        ),
        copy_args(args@) && args@[1]->Int_0 >= 0 && args@[3]->Int_0 >= 0 && args@[4]->Int_0 >= 0
            && copy_source(old(vm).heap@, args@) is None ==> r is Err && thrown_new(
            *old(vm),
            *final(vm),
            "java/lang/ArrayStoreException"@,
            Some("source is not an array"@),
            r->Err_0,
        ),
        copy_args(args@) && args@[1]->Int_0 >= 0 && args@[3]->Int_0 >= 0 && args@[4]->Int_0 >= 0
            && copy_source(old(vm).heap@, args@) is Some && copy_dest(old(vm).heap@, args@) is None ==> r is Err
            && thrown_new(
            *old(vm),
            *final(vm),
            "java/lang/ArrayStoreException"@,
            Some("destination is not an array"@),
            r->Err_0,
        ),
        copy_args(args@) && args@[1]->Int_0 >= 0 && args@[3]->Int_0 >= 0 && args@[4]->Int_0 >= 0
            && copy_source(old(vm).heap@, args@) is Some && copy_dest(old(vm).heap@, args@) is Some
            && args@[1]->Int_0 + args@[4]->Int_0 > i32::MAX ==> r is Err && thrown_new(
            *old(vm),
            *final(vm),
            "java/lang/IndexOutOfBoundsException"@,
            Some("source array range overflow"@),
            r->Err_0,
        ),
        copy_args(args@) && args@[1]->Int_0 >= 0 && args@[3]->Int_0 >= 0 && args@[4]->Int_0 >= 0
            && copy_source(old(vm).heap@, args@) is Some && copy_dest(old(vm).heap@, args@) is Some
            && args@[1]->Int_0 + args@[4]->Int_0 <= i32::MAX && args@[3]->Int_0 + args@[4]->Int_0 > i32::MAX
            ==> r is Err && thrown_new(
            *old(vm),
            *final(vm),
            "java/lang/IndexOutOfBoundsException"@,
            Some("destination array range overflow"@),
            r->Err_0,
        ),
        copy_args(args@) && args@[1]->Int_0 >= 0 && args@[3]->Int_0 >= 0 && args@[4]->Int_0 >= 0
            && copy_source(old(vm).heap@, args@) is Some && copy_dest(old(vm).heap@, args@) is Some
            && args@[1]->Int_0 + args@[4]->Int_0 <= i32::MAX && args@[3]->Int_0 + args@[4]->Int_0 <= i32::MAX
            && args@[3]->Int_0 + args@[4]->Int_0 > copy_dest(old(vm).heap@, args@)->Some_0.1.len() ==> r is Err
            && thrown_new(
            *old(vm),
            *final(vm),
            "java/lang/IndexOutOfBoundsException"@,
            Some("destination array bounds"@),
            r->Err_0,
        ),
        copy_args(args@) && args@[1]->Int_0 >= 0 && args@[3]->Int_0 >= 0 && args@[4]->Int_0 >= 0
            && copy_source(old(vm).heap@, args@) is Some && copy_dest(old(vm).heap@, args@) is Some
            && args@[1]->Int_0 + args@[4]->Int_0 <= i32::MAX && args@[3]->Int_0 + args@[4]->Int_0 <= i32::MAX
            && args@[3]->Int_0 + args@[4]->Int_0 <= copy_dest(old(vm).heap@, args@)->Some_0.1.len()
            && args@[1]->Int_0 + args@[4]->Int_0 > copy_source(old(vm).heap@, args@)->Some_0.1.len() ==> r is Err
            && thrown_new(
            *old(vm),
            *final(vm),
            "java/lang/IndexOutOfBoundsException"@,
            Some("source array bounds"@),
            r->Err_0,
        ),
        copy_args(args@) && copy_in_bounds(old(vm).heap@, args@) && args@[4]->Int_0 > 0 && (copy_source(
            old(vm).heap@,
            args@,
        )->Some_0.0 is Reference) != (copy_dest(old(vm).heap@, args@)->Some_0.0 is Reference)
            ==> r is Err && thrown_new(
            *old(vm),
            *final(vm),
            "java/lang/ArrayStoreException"@,
            Some("incompatible array types"@),
            r->Err_0,
        ),
        copy_args(args@) && copy_in_bounds(old(vm).heap@, args@) && args@[4]->Int_0 > 0 && !(copy_source(
            old(vm).heap@,
            args@,
        )->Some_0.0 is Reference) && !(copy_dest(old(vm).heap@, args@)->Some_0.0 is Reference)
            && copy_source(old(vm).heap@, args@)->Some_0.0 != copy_dest(old(vm).heap@, args@)->Some_0.0
            ==> r is Err && thrown_new(
            *old(vm),
            *final(vm),
            "java/lang/ArrayStoreException"@,
            Some("incompatible primitive array types"@),
            r->Err_0,
        ),
        copy_args(args@) && copy_in_bounds(old(vm).heap@, args@) && (exists|j: int| copy_refused_at(*old(vm), args@, j))
            ==> r is Err && thrown_new(
            *old(vm),
            *final(vm),
            "java/lang/ArrayStoreException"@,
            Some("array element has incompatible type"@),
            r->Err_0,
        ),
        r is Ok && args@.len() == 5 ==> (args@[2] matches Value::Reference(Some(d)) && others_kept(
            old(vm).heap@,
            final(vm).heap@,
            d,
        )),
        r is Err && copy_exceptions_ready(*old(vm)) && plain_elements(*old(vm), args@) ==> entries_kept(
            old(vm).heap@,
            final(vm).heap@,
        ),
    decreases ctx.depth, 6nat,
{
    let ghost start = *vm;
    if args.len() != 5 {
        return Err(bad_argument("java/lang/System", "arraycopy", "5 arguments to System.arraycopy", None));
    }
    let src = match args[0] {
        Value::Reference(Some(r)) => r,
        Value::Reference(None) => {
            return Err(ctx.throw(vm, "java/lang/NullPointerException", Some("src")));
        },
        other => {
            return Err(
                bad_argument("java/lang/System", "arraycopy", "Object reference for src", Some(other)),
            );
        },
    };
    let src_pos = int_arg(args, 1, "int for srcPos")?;
    let dest = match args[2] {
        Value::Reference(Some(r)) => r,
        Value::Reference(None) => {
            return Err(ctx.throw(vm, "java/lang/NullPointerException", Some("dest")));
        },
        other => {
            return Err(
                bad_argument("java/lang/System", "arraycopy", "Object reference for dest", Some(other)),
            );
        },
    };
    let dest_pos = int_arg(args, 3, "int for destPos")?;
    let length = int_arg(args, 4, "int for length")?;
    if src_pos < 0 || dest_pos < 0 || length < 0 {
        return Err(
            ctx.throw(vm, "java/lang/IndexOutOfBoundsException", Some("Negative arraycopy index")),
        );
    }
    let (src_type, src_len) = match vm.heap.get_array(src) {
        Ok(a) => (a.element_type, a.elements.len()),
        Err(_) => {
            return Err(
                ctx.throw(vm, "java/lang/ArrayStoreException", Some("source is not an array")),
            );
        },
    };
    let (dest_type, dest_len) = match vm.heap.get_array(dest) {
        Ok(a) => (a.element_type, a.elements.len()),
        Err(_) => {
            return Err(
                ctx.throw(vm, "java/lang/ArrayStoreException", Some("destination is not an array")),
            );
        },
    };
    let src_end = match src_pos.checked_add(length) {
        Some(v) => v as usize,
        None => {
            return Err(
                ctx.throw(
                    vm,
                    "java/lang/IndexOutOfBoundsException",
                    Some("source array range overflow"),
                ),
            );
        },
    };
    match dest_pos.checked_add(length) {
        Some(v) => {
            if v as usize > dest_len {
                return Err(
                    ctx.throw(
                        vm,
                        "java/lang/IndexOutOfBoundsException",
                        Some("destination array bounds"),
                    ),
                );
            }
        },
        None => {
            return Err(
                ctx.throw(
                    vm,
                    "java/lang/IndexOutOfBoundsException",
                    Some("destination array range overflow"),
                ),
            );
        },
    }
    if src_end > src_len {
        return Err(ctx.throw(vm, "java/lang/IndexOutOfBoundsException", Some("source array bounds")));
    }
    if length == 0 {
        return Ok(None);
    }
    let src_is_reference = match src_type {
        ArrayElementType::Reference(_) => true,
        _ => false,
    };
    let dest_component = match dest_type {
        ArrayElementType::Reference(c) => Some(c),
        _ => None,
    };
    if !src_is_reference || dest_component.is_none() {
        if src_is_reference || dest_component.is_some() {
            return Err(
                ctx.throw(vm, "java/lang/ArrayStoreException", Some("incompatible array types")),
            );
        }
        if src_type != dest_type {
            return Err(
                ctx.throw(
                    vm,
                    "java/lang/ArrayStoreException",
                    Some("incompatible primitive array types"),
                ),
            );
        }
    }
    let from = src_pos as usize;
    let values = read_range(vm, src, from, src_end)?;
    let ghost read = *vm;
    proof {
        if copy_args(args@) && copy_in_bounds(start.heap@, args@) && copy_references(start, args@) {
            assert(dest_type == copy_dest(start.heap@, args@)->Some_0.0);
            assert(dest_component == Some(copy_dest(start.heap@, args@)->Some_0.0->Reference_0));
        }
    }
    match dest_component {
        Some(component) => {
            let ghost sp = args@[1]->Int_0 as int;
            let ghost src_els = copy_source(start.heap@, args@)->Some_0.1;
            let ghost dc = copy_dest(start.heap@, args@)->Some_0.0->Reference_0;
            let mut k: usize = 0;
            while k < values.len()
                invariant
                    vm.wf(),
                    start == *old(vm),
                    moved_on(start, *vm, None),
                    args@.len() == 5,
                    copy_args(args@),
                    sp == args@[1]->Int_0,
                    src_els == copy_source(start.heap@, args@)->Some_0.1,
                    dc == copy_dest(start.heap@, args@)->Some_0.0->Reference_0,
                    args@[1]->Int_0 >= 0 && args@[3]->Int_0 >= 0 && args@[4]->Int_0 > 0,
                    copy_source(start.heap@, args@) matches Some((t, _)) && t is Reference,
                    copy_dest(start.heap@, args@) matches Some((t, _)) && t is Reference,
                    k <= values@.len(),
                    vm.heap@ == read.heap@,
                    dest_component == Some(component),
                    copy_in_bounds(start.heap@, args@),
                    copy_in_bounds(start.heap@, args@) ==> read.heap@ == start.heap@ && values@
                        == src_els.subrange(sp, sp + args@[4]->Int_0) && component == dc,
                    copy_in_bounds(start.heap@, args@) && (forall|i: int| sp <= i < sp + k ==> storable(
                        start,
                        #[trigger] src_els[i],
                        dc,
                    )) ==> only_loaded(start, *vm) && vm.classes@ == start.classes@,
                    copy_exceptions_ready(start) && plain_elements(start, args@) ==> only_loaded(start, *vm)
                        && vm.classes@ == start.classes@,
                    copy_in_bounds(start.heap@, args@) ==> forall|j: int| sp <= j < sp + k ==> !copy_refused_at(
                        start,
                        args@,
                        j,
                    ),
                decreases values@.len() - k,
            {
                let ghost p = sp + k;
                let ghost prefix_ok = forall|i: int| sp <= i < p ==> storable(start, #[trigger] src_els[i], dc);
                proof {
                    if copy_in_bounds(start.heap@, args@) {
                        assert(values@[k as int] == src_els[p]);
                        assert(0 <= p < src_els.len());
                    }
                }
                match values[k] {
                    Value::Reference(Some(reference)) => {
                        let ghost before = *vm;
                        let actual = vm.runtime_class_of(reference);
                        proof {
                            lemma_loaded_progress(before, *vm);
                            lemma_moved_trans(start, before, *vm, None);
                        }
                        let actual = match actual {
                            Ok(c) => c,
                            Err(e) => {
                                proof {
                                    if copy_in_bounds(start.heap@, args@) {
                                        lemma_none_refused(start, args@, p);
                                    }
                                }
                                return Err(e);
                            },
                        };
                        let assignable_to = match vm.is_assignable(actual, component) {
                            Ok(b) => b,
                            Err(e) => {
                                proof {
                                    if copy_in_bounds(start.heap@, args@) {
                                        lemma_none_refused(start, args@, p);
                                    }
                                }
                                return Err(e);
                            },
                        };
                        if !assignable_to {
                            let ghost b2 = *vm;
                            let e = ctx.throw(
                                vm,
                                "java/lang/ArrayStoreException",
                                Some("array element has incompatible type"),
                            );
                            proof {
                                lemma_moved_trans(start, b2, *vm, None);
                                if copy_exceptions_ready(start) && plain_elements(start, args@) {
                                    assert(exception_ready(b2, "java/lang/ArrayStoreException"@));
                                    assert(b2.heap@ == start.heap@);
                                }
                                if copy_in_bounds(start.heap@, args@) && !prefix_ok {
                                    lemma_none_refused(start, args@, p);
                                }
                            }
                            return Err(e);
                        }
                    },
                    Value::Reference(None) => {},
                    _ => {
                        proof {
                            if copy_in_bounds(start.heap@, args@) {
                                lemma_none_refused(start, args@, p);
                            }
                        }
                        return Err(
                            RuntimeError::Internal(
                                InternalError::InvalidHeapEntry {
                                    expected: owned("reference value in reference array"),
                                    found: owned("another value"),
                                },
                            ),
                        );
                    },
                }
                proof {
                    if copy_in_bounds(start.heap@, args@) {
                        assert(!copy_refused_at(start, args@, p));
                    }
                }
                k = k + 1;
            }
        },
        None => {},
    }
    let ghost checked = *vm;
    let res = write_range(vm, dest, from, &values);
    proof {
        lemma_moved_trans(start, checked, *vm, None);
    }
    res?;
    Ok(None)
}

/// The elements `from..to` of the array at `array`.
fn read_range<F>(vm: &VM<F>, array: ObjectRef, from: usize, to: usize) -> (r: Result<
    Vec<Value>,
    RuntimeError,
>)
    ensures
        r matches Ok(v) ==> heap_array(vm.heap@, array) is Some && from <= to <= heap_array(
            vm.heap@,
            array,
        )->Some_0.1.len() && v@ == heap_array(vm.heap@, array)->Some_0.1.subrange(
            from as int,
            to as int,
        ),
        heap_array(vm.heap@, array) is Some && from <= to <= heap_array(vm.heap@, array)->Some_0.1.len()
            ==> r is Ok,
{
    let a = vm.heap.get_array(array)?;
    if from > to || to > a.elements.len() {
        return Err(RuntimeError::Internal(InternalError::InvalidSlot));
    }
    let mut out: Vec<Value> = Vec::new();
    let mut k = from;
    while k < to
        invariant
            from <= k <= to <= a.elements@.len(),
            out@ == a.elements@.subrange(from as int, k as int),
        decreases to - k,
    {
        out.push(a.elements[k]);
        proof {
            assert(a.elements@.subrange(from as int, k + 1) =~= a.elements@.subrange(
                from as int,
                k as int,
            ).push(a.elements@[k as int]));
        }
        k = k + 1;
    }
    Ok(out)
}

/// Writes `values` into the array at `array` from position `at` on.
fn write_range<F>(vm: &mut VM<F>, array: ObjectRef, at: usize, values: &Vec<Value>) -> (r: Result<
    (),
    RuntimeError,
>)
    requires
        old(vm).wf(),
    ensures
        moved_on(*old(vm), *final(vm), None),
        r is Ok ==> heap_array(old(vm).heap@, array) is Some && heap_array(final(vm).heap@, array)
            is Some && heap_array(final(vm).heap@, array)->Some_0.1 == copied_into(
            heap_array(old(vm).heap@, array)->Some_0.1,
            values@,
            at as int,
        ),
        heap_array(old(vm).heap@, array) is Some && at + values@.len() <= heap_array(
            old(vm).heap@,
            array,
        )->Some_0.1.len() ==> r is Ok,
        r is Err ==> *final(vm) == *old(vm),
        others_kept(old(vm).heap@, final(vm).heap@, array),
{
    let ghost start = *vm;
    let len = vm.heap.array_len(array)?;
    if at > len || values.len() > len - at {
        return Err(RuntimeError::Internal(InternalError::InvalidSlot));
    }
    let ghost orig = heap_array(vm.heap@, array)->Some_0.1;
    let mut k: usize = 0;
    while k < values.len()
        invariant
            vm.wf(),
            start == *old(vm),
            moved_on(start, *vm, None),
            orig == heap_array(start.heap@, array)->Some_0.1,
            heap_array(start.heap@, array) is Some,
            at + values@.len() <= orig.len(),
            at + values@.len() <= len,
            k <= values@.len(),
            heap_array(vm.heap@, array) is Some,
            heap_array(vm.heap@, array)->Some_0.1 == copied_into(
                orig,
                values@.subrange(0, k as int),
                at as int,
            ),
            others_kept(start.heap@, vm.heap@, array),
        decreases values@.len() - k,
    {
        let ghost before = *vm;
        let res = vm.heap.array_set(array, at + k, values[k]);
        proof {
            lemma_heap_progress(before, *vm);
            lemma_moved_trans(start, before, *vm, None);
        }
        res?;
        proof {
            assert(heap_array(vm.heap@, array)->Some_0.1 =~= copied_into(
                orig,
                values@.subrange(0, k + 1),
                at as int,
            ));
        }
        k = k + 1;
    }
    proof {
        assert(values@.subrange(0, values@.len() as int) =~= values@);
    }
    Ok(())
}

} // verus!
