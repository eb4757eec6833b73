use vstd::prelude::*;

use crate::class::class_file::ClassFile;
use crate::class::reader::ClassReader;
use crate::error::{InternalError, RuntimeError};
use crate::text::{owned, push_str, str_eq};
use crate::vm::classpath::ClassPath;
use crate::vm::descriptor::{FieldKind, spec_type_kind, type_kind};
use crate::vm::frame::filled;
use crate::vm::heap::{EntryModel, Heap, HeapEntry, heap_object};
use crate::vm::runtime_class::{ClassRef, RuntimeClass, field_views, first_field, first_method, method_views};
use crate::vm::runtime_field::FieldEntry;
use crate::vm::runtime_method::RuntimeMethod;
use crate::vm::thread::{Thread, ThreadRef};
use crate::vm::value::{ObjectRef, Value};

verus! {

/// The classes of the primitive types.
#[derive(Debug, Clone, Copy)]
pub struct PrimitiveClasses {
    pub boolean: ClassRef,
    pub byte: ClassRef,
    pub char: ClassRef,
    pub short: ClassRef,
    pub int: ClassRef,
    pub long: ClassRef,
    pub float: ClassRef,
    pub double: ClassRef,
    pub void: ClassRef,
}

/// The virtual machine: loaded classes, threads, the heap and where
/// classes come from.
///
/// `steps_left` is the number of instructions that may still run; `floats`
/// does the floating-point arithmetic.
pub struct VM<F> {
    pub classes: Vec<RuntimeClass>,
    pub threads: Vec<Thread>,
    pub main_thread: ThreadRef,
    pub classpath: ClassPath,
    pub heap: Heap,
    /// The object holding the static fields of each initialized class.
    pub static_storage: Vec<(ClassRef, ObjectRef)>,
    pub exceptions_registered: bool,
    /// The `java.lang.Class` object of each class that has one.
    pub class_objects: Vec<(ClassRef, ObjectRef)>,
    /// The `java.lang.Thread` object of each thread that has one.
    pub thread_objects: Vec<(ThreadRef, ObjectRef)>,
    /// The string object of each interned literal.
    pub interned: Vec<(String, ObjectRef)>,
    pub primitive_classes: PrimitiveClasses,
    pub steps_left: u64,
    pub floats: F,
    /// What the running program learns of the machine it runs on.
    pub host: HostInfo,
}

/// The operating system, architecture and version of this virtual machine
/// that Java programs see as system properties.
pub struct HostInfo {
    pub os_name: String,
    pub os_arch: String,
    pub vm_version: String,
}

/// Whether the superclass and the interfaces of class `c`, at index `i`,
/// were loaded before it.
pub open spec fn class_refs_ok(c: RuntimeClass, i: int) -> bool {
    &&& (c.super_class matches Some(s) ==> s.0 < i)
    &&& forall|k: int| 0 <= k < c.interfaces@.len() ==> (#[trigger] c.interfaces@[k]).0 < i
    &&& c.field_base_slot + 2 * c.instance_fields@.len() <= usize::MAX
    &&& 2 * c.static_fields@.len() <= usize::MAX
}

/// The last class among the first `n` of `cs` named `name`.
pub open spec fn last_named(cs: Seq<RuntimeClass>, name: Seq<char>, n: nat) -> Option<nat>
    decreases n,
{
    if n == 0 {
        None
    } else if cs[n - 1].name@ == name {
        Some((n - 1) as nat)
    } else {
        last_named(cs, name, (n - 1) as nat)
    }
}

/// A class just added is the one its name finds, over any class of that
/// name added before.
pub proof fn lemma_add_then_lookup(cs: Seq<RuntimeClass>, c: RuntimeClass)
    ensures
        last_named(cs.push(c), c.name@, cs.len() + 1) == Some(cs.len()),
{
    assert(cs.push(c)[cs.len() as int] == c);
}

/// The value paired with the first `k` among the first `n` pairs of `s`.
pub open spec fn assoc<K, V>(s: Seq<(K, V)>, k: K, n: nat) -> Option<V>
    decreases n,
{
    if n == 0 {
        None
    } else {
        match assoc(s, k, (n - 1) as nat) {
            Some(v) => Some(v),
            None => if s[n - 1].0 == k {
                Some(s[n - 1].1)
            } else {
                None
            },
        }
    }
}

/// The value paired with `k` in `s`.
pub open spec fn lookup<K, V>(s: Seq<(K, V)>, k: K) -> Option<V> {
    assoc(s, k, s.len())
}

/// Whether interface `i` is `t` or extends it, looking `fuel` levels deep;
/// `Err` where a class on the way is not loaded.
pub open spec fn extends(cs: Seq<RuntimeClass>, i: ClassRef, t: ClassRef, fuel: nat) -> Result<
    bool,
    (),
>
    decreases fuel, 0nat,
{
    if i == t {
        Ok(true)
    } else if fuel == 0 {
        Ok(false)
    } else if i.0 >= cs.len() {
        Err(())
    } else {
        any_extends(cs, cs[i.0 as int].interfaces@, t, (fuel - 1) as nat, 0)
    }
}

/// Whether one of `l` from the `k`-th on extends `t`, in order.
pub open spec fn any_extends(
    cs: Seq<RuntimeClass>,
    l: Seq<ClassRef>,
    t: ClassRef,
    fuel: nat,
    k: nat,
) -> Result<bool, ()>
    decreases fuel, l.len() - k,
{
    if k >= l.len() {
        Ok(false)
    } else {
        match extends(cs, l[k as int], t, fuel) {
            Err(()) => Err(()),
            Ok(true) => Ok(true),
            Ok(false) => any_extends(cs, l, t, fuel, k + 1),
        }
    }
}

/// Whether every class of `cs` refers only to classes before it.
pub open spec fn refs_ok(cs: Seq<RuntimeClass>) -> bool {
    forall|i: int| 0 <= i < cs.len() ==> class_refs_ok(#[trigger] cs[i], i)
}

/// An interface extends only classes that come no later than it.
pub proof fn lemma_extends_below(cs: Seq<RuntimeClass>, i: ClassRef, t: ClassRef, fuel: nat)
    requires
        refs_ok(cs),
    ensures
        extends(cs, i, t, fuel) == Ok::<bool, ()>(true) ==> t.0 <= i.0,
    decreases fuel, 0nat,
{
    if i != t && fuel > 0 && i.0 < cs.len() {
        assert(class_refs_ok(cs[i.0 as int], i.0 as int));
        lemma_any_extends_below(cs, cs[i.0 as int].interfaces@, t, (fuel - 1) as nat, 0, i.0 as nat);
    }
}

/// One of a list of classes, all before `bound`, extends only classes
/// before `bound`.
pub proof fn lemma_any_extends_below(
    cs: Seq<RuntimeClass>,
    l: Seq<ClassRef>,
    t: ClassRef,
    fuel: nat,
    k: nat,
    bound: nat,
)
    requires
        refs_ok(cs),
        forall|x: int| 0 <= x < l.len() ==> (#[trigger] l[x]).0 < bound,
    ensures
        any_extends(cs, l, t, fuel, k) == Ok::<bool, ()>(true) ==> t.0 < bound,
    decreases fuel, l.len() - k,
{
    if k < l.len() {
        lemma_extends_below(cs, l[k as int], t, fuel);
        lemma_any_extends_below(cs, l, t, fuel, k + 1, bound);
    }
}

/// A class loaded after an object's class (a catch class that had to be
/// loaded while unwinding, say) is never one that the object can be used
/// as.
pub proof fn lemma_not_assignable_to_later(cs: Seq<RuntimeClass>, k: ClassRef, c: ClassRef, fuel: nat)
    requires
        refs_ok(cs),
        k.0 < c.0,
    ensures
        assignable(cs, k, c, fuel) != Ok::<bool, ()>(true),
{
    lemma_assignable_below(cs, k, c, fuel);
}

/// An object can be used only as a class that comes no later than its own.
pub proof fn lemma_assignable_below(cs: Seq<RuntimeClass>, c: ClassRef, t: ClassRef, fuel: nat)
    requires
        refs_ok(cs),
    ensures
        assignable(cs, c, t, fuel) == Ok::<bool, ()>(true) ==> t.0 <= c.0,
    decreases fuel,
{
    if c != t && fuel > 0 && c.0 < cs.len() {
        assert(class_refs_ok(cs[c.0 as int], c.0 as int));
        lemma_any_extends_below(cs, cs[c.0 as int].interfaces@, t, cs.len(), 0, c.0 as nat);
        match cs[c.0 as int].super_class {
            Some(s) => {
                lemma_assignable_below(cs, s, t, (fuel - 1) as nat);
            },
            None => {},
        }
    }
}

/// Whether an object of class `c` can be used as a `t`: `c` is `t`, or one
/// of its interfaces extends `t`, or its superclass can; `fuel` bounds the
/// superclass chain.
pub open spec fn assignable(cs: Seq<RuntimeClass>, c: ClassRef, t: ClassRef, fuel: nat) -> Result<
    bool,
    (),
>
    decreases fuel,
{
    if c == t {
        Ok(true)
    } else if fuel == 0 {
        Ok(false)
    } else if c.0 >= cs.len() {
        Err(())
    } else {
        match any_extends(cs, cs[c.0 as int].interfaces@, t, cs.len(), 0) {
            Err(()) => Err(()),
            Ok(true) => Ok(true),
            Ok(false) => match cs[c.0 as int].super_class {
                None => Ok(false),
                Some(s) => assignable(cs, s, t, (fuel - 1) as nat),
            },
        }
    }
}

/// What a walk up the superclass chain finds.
pub enum ChainLookup<T> {
    Found(T),
    Missing,
    /// A class on the way is not loaded.
    BadClass,
}

/// Every class is assignable to itself.
pub proof fn lemma_assignable_reflexive(cs: Seq<RuntimeClass>, c: ClassRef, fuel: nat)
    ensures
        assignable(cs, c, c, fuel) == Ok::<bool, ()>(true),
{
}

/// The first class from `c` up its superclass chain that declares a method
/// named `name` with descriptor `d`, and the method's index there.
pub open spec fn virtual_method(
    cs: Seq<RuntimeClass>,
    c: ClassRef,
    name: Seq<char>,
    d: Seq<char>,
    fuel: nat,
) -> ChainLookup<(ClassRef, nat)>
    decreases fuel,
{
    if fuel == 0 {
        ChainLookup::Missing
    } else if c.0 >= cs.len() {
        ChainLookup::BadClass
    } else {
        match first_method(method_views(cs[c.0 as int]), name, d) {
            Some(i) => ChainLookup::Found((c, i)),
            None => match cs[c.0 as int].super_class {
                None => ChainLookup::Missing,
                Some(s) => virtual_method(cs, s, name, d, (fuel - 1) as nat),
            },
        }
    }
}

/// The first class from `c` up its superclass chain that declares an
/// instance field named `name`, and the field's slot.
pub open spec fn instance_field(cs: Seq<RuntimeClass>, c: ClassRef, name: Seq<char>, fuel: nat) -> ChainLookup<
    (ClassRef, usize),
>
    decreases fuel,
{
    if fuel == 0 {
        ChainLookup::Missing
    } else if c.0 >= cs.len() {
        ChainLookup::BadClass
    } else {
        let fs = field_views(cs[c.0 as int].instance_fields@);
        match first_field(fs, name) {
            Some(i) => ChainLookup::Found((c, cs[c.0 as int].instance_fields@[i as int].slot)),
            None => match cs[c.0 as int].super_class {
                None => ChainLookup::Missing,
                Some(s) => instance_field(cs, s, name, (fuel - 1) as nat),
            },
        }
    }
}

/// The value a field of descriptor `d` starts with: zero, `null`, or
/// `Empty` for `V`; `None` for a descriptor that does not parse.
pub open spec fn default_value(d: Seq<char>) -> Option<Value> {
    match spec_type_kind(d) {
        Some(FieldKind::Boolean) | Some(FieldKind::Byte) | Some(FieldKind::Char) | Some(FieldKind::Short)
        | Some(FieldKind::Int) => Some(Value::Int(0)),
        Some(FieldKind::Long) => Some(Value::Long(0)),
        Some(FieldKind::Float) => Some(Value::Float(0)),
        Some(FieldKind::Double) => Some(Value::Double(0)),
        Some(FieldKind::Array) | Some(FieldKind::Object) => Some(Value::Reference(None)),
        Some(FieldKind::Void) => Some(Value::Empty),
        None => None,
    }
}

/// Whether `r` reports that a class is not loaded or not found.
pub open spec fn is_class_not_found(r: RuntimeError) -> bool {
    r matches RuntimeError::Internal(InternalError::ClassNotFound { .. })
}

/// Whether `r` reports that a thread is not found.
pub open spec fn is_thread_not_found(r: RuntimeError) -> bool {
    r matches RuntimeError::Internal(InternalError::ThreadNotFound { .. })
}

/// Whether `r` reports that a method is not found.
pub open spec fn is_method_not_found(r: RuntimeError) -> bool {
    r matches RuntimeError::Internal(InternalError::MethodNotFound { .. })
}

/// `name` with each `/` replaced by `.`.
pub open spec fn dotted(name: Seq<char>) -> Seq<char> {
    name.map_values(|c: char| if c == '/' { '.' } else { c })
}

/// `name` with each `.` replaced by `/`.
pub open spec fn slashed(name: Seq<char>) -> Seq<char> {
    name.map_values(|c: char| if c == '.' { '/' } else { c })
}

/// `s` with each `from` replaced by `to`.
pub fn replace_char(s: &str, from: char, to: char) -> (r: String)
    ensures
        r@ == s@.map_values(|c: char| if c == from { to } else { c }),
{
    let mut out = String::new();
    let ghost full = s@;
    for c in it: s.chars()
        invariant
            it.seq() == full,
            out@ == full.subrange(0, it.index() as int).map_values(
                |c: char| if c == from { to } else { c },
            ),
    {
        if c == from {
            out.push(to);
        } else {
            out.push(c);
        }
        proof {
            assert(full.subrange(0, it.index() + 1) =~= full.subrange(0, it.index() as int).push(
                c,
            ));
            assert(out@ =~= full.subrange(0, it.index() + 1).map_values(
                |c: char| if c == from { to } else { c },
            ));
        }
    }
    proof {
        assert(full.subrange(0, full.len() as int) =~= full);
    }
    out
}

fn not_found(class: &str) -> (r: RuntimeError)
    ensures
        is_class_not_found(r),
{
    RuntimeError::Internal(InternalError::ClassNotFound { class: owned(class) })
}

impl<F> VM<F> {
    /// Whether each class's superclass and interfaces were loaded before it,
    /// and its slots can be counted.
    pub open spec fn wf(&self) -> bool {
        forall|i: int| 0 <= i < self.classes@.len() ==> class_refs_ok(#[trigger] self.classes@[i], i)
    }

    /// The class named `name`, the last loaded where there are several.
    pub open spec fn class_named(&self, name: Seq<char>) -> Option<nat> {
        last_named(self.classes@, name, self.classes@.len())
    }

    /// A virtual machine whose only classes are those of the nine primitive
    /// types (`boolean` to `void`, in that order), with no threads, an empty
    /// heap and class path, and an unlimited step budget.
    pub fn new(floats: F) -> (r: Self)
        ensures
            r.wf(),
            r.classes@.len() == 9,
            r.classes@[0].name@ == "boolean"@,
            r.classes@[1].name@ == "byte"@,
            r.classes@[2].name@ == "char"@,
            r.classes@[3].name@ == "short"@,
            r.classes@[4].name@ == "int"@,
            r.classes@[5].name@ == "long"@,
            r.classes@[6].name@ == "float"@,
            r.classes@[7].name@ == "double"@,
            r.classes@[8].name@ == "void"@,
            r.primitive_classes.boolean == ClassRef(0),
            r.primitive_classes.byte == ClassRef(1),
            r.primitive_classes.char == ClassRef(2),
            r.primitive_classes.short == ClassRef(3),
            r.primitive_classes.int == ClassRef(4),
            r.primitive_classes.long == ClassRef(5),
            r.primitive_classes.float == ClassRef(6),
            r.primitive_classes.double == ClassRef(7),
            r.primitive_classes.void == ClassRef(8),
            primitives_named(r),
            r.threads@.len() == 0,
            r.heap@.len() == 0,
            r.static_storage@.len() == 0,
            r.class_objects@.len() == 0,
            r.steps_left == u64::MAX,
    {
        let mut vm = Self {
            classes: Vec::new(),
            threads: Vec::new(),
            main_thread: ThreadRef(0),
            classpath: ClassPath::empty(),
            heap: Heap::new(),
            static_storage: Vec::new(),
            exceptions_registered: false,
            class_objects: Vec::new(),
            thread_objects: Vec::new(),
            interned: Vec::new(),
            primitive_classes: PrimitiveClasses {
                boolean: ClassRef(usize::MAX),
                byte: ClassRef(usize::MAX),
                char: ClassRef(usize::MAX),
                short: ClassRef(usize::MAX),
                int: ClassRef(usize::MAX),
                long: ClassRef(usize::MAX),
                float: ClassRef(usize::MAX),
                double: ClassRef(usize::MAX),
                void: ClassRef(usize::MAX),
            },
            steps_left: u64::MAX,
            floats,
            host: HostInfo {
                os_name: owned("unknown"),
                os_arch: owned("unknown"),
                vm_version: owned("unknown"),
            },
        };
        vm.bootstrap_primitives();
        vm
    }

    fn register_primitive_class(&mut self, name: &str) -> (r: ClassRef)
        requires
            old(self).wf(),
            old(self).classes@.len() < 100,
        ensures
            final(self).wf(),
            final(self).classes@ == old(self).classes@.push(final(self).classes@.last()),
            final(self).classes@.last().name@ == name@,
            r == ClassRef(old(self).classes@.len() as usize),
            final(self).threads@ == old(self).threads@,
            final(self).heap == old(self).heap,
            final(self).static_storage@ == old(self).static_storage@,
            final(self).class_objects@ == old(self).class_objects@,
            final(self).primitive_classes == old(self).primitive_classes,
            final(self).steps_left == old(self).steps_left,
    {
        let class_ref = ClassRef(self.classes.len());
        let class = RuntimeClass::primitive(name);
        self.classes.push(class);
        proof {
            assert forall|i: int| 0 <= i < self.classes@.len() implies class_refs_ok(
                #[trigger] self.classes@[i],
                i,
            ) by {
                if i < old(self).classes@.len() {
                    assert(self.classes@[i] == old(self).classes@[i]);
                }
            }
        }
        class_ref
    }

    fn bootstrap_primitives(&mut self)
        requires
            old(self).wf(),
            old(self).classes@.len() == 0,
        ensures
            final(self).wf(),
            final(self).classes@.len() == 9,
            final(self).classes@[0].name@ == "boolean"@,
            final(self).classes@[1].name@ == "byte"@,
            final(self).classes@[2].name@ == "char"@,
            final(self).classes@[3].name@ == "short"@,
            final(self).classes@[4].name@ == "int"@,
            final(self).classes@[5].name@ == "long"@,
            final(self).classes@[6].name@ == "float"@,
            final(self).classes@[7].name@ == "double"@,
            final(self).classes@[8].name@ == "void"@,
            final(self).primitive_classes.boolean == ClassRef(0),
            final(self).primitive_classes.byte == ClassRef(1),
            final(self).primitive_classes.char == ClassRef(2),
            final(self).primitive_classes.short == ClassRef(3),
            final(self).primitive_classes.int == ClassRef(4),
            final(self).primitive_classes.long == ClassRef(5),
            final(self).primitive_classes.float == ClassRef(6),
            final(self).primitive_classes.double == ClassRef(7),
            final(self).primitive_classes.void == ClassRef(8),
            final(self).threads@ == old(self).threads@,
            final(self).heap == old(self).heap,
            final(self).static_storage@ == old(self).static_storage@,
            final(self).class_objects@ == old(self).class_objects@,
            final(self).steps_left == old(self).steps_left,
    {
        let boolean_class = self.register_primitive_class("boolean");
        let ghost c0 = self.classes@[0];
        let byte_class = self.register_primitive_class("byte");
        let ghost c1 = self.classes@[1];
        let char_class = self.register_primitive_class("char");
        let ghost c2 = self.classes@[2];
        let short_class = self.register_primitive_class("short");
        let ghost c3 = self.classes@[3];
        let int_class = self.register_primitive_class("int");
        let ghost c4 = self.classes@[4];
        let long_class = self.register_primitive_class("long");
        let ghost c5 = self.classes@[5];
        let float_class = self.register_primitive_class("float");
        let ghost c6 = self.classes@[6];
        let double_class = self.register_primitive_class("double");
        let ghost c7 = self.classes@[7];
        let void_class = self.register_primitive_class("void");
        proof {
            assert(self.classes@[0] == c0);
            assert(self.classes@[1] == c1);
            assert(self.classes@[2] == c2);
            assert(self.classes@[3] == c3);
            assert(self.classes@[4] == c4);
            assert(self.classes@[5] == c5);
            assert(self.classes@[6] == c6);
            assert(self.classes@[7] == c7);
        }
        self.primitive_classes = PrimitiveClasses {
            boolean: boolean_class,
            byte: byte_class,
            char: char_class,
            short: short_class,
            int: int_class,
            long: long_class,
            float: float_class,
            double: double_class,
            void: void_class,
        };
    }

    /// Sets what Java programs learn of the machine they run on.
    pub fn set_host_info(&mut self, host: HostInfo)
        ensures
            final(self).host == host,
            final(self).classes@ == old(self).classes@,
            final(self).threads@ == old(self).threads@,
            final(self).heap == old(self).heap,
            final(self).static_storage@ == old(self).static_storage@,
            final(self).class_objects@ == old(self).class_objects@,
            final(self).steps_left == old(self).steps_left,
            final(self).classpath == old(self).classpath,
            final(self).primitive_classes == old(self).primitive_classes,
    {
        self.host = host;
    }

    /// Replaces the class path.
    pub fn set_classpath(&mut self, classpath: ClassPath)
        ensures
            final(self).classpath == classpath,
            final(self).classes@ == old(self).classes@,
            final(self).threads@ == old(self).threads@,
            final(self).heap == old(self).heap,
            final(self).static_storage@ == old(self).static_storage@,
            final(self).class_objects@ == old(self).class_objects@,
            final(self).steps_left == old(self).steps_left,
    {
        self.classpath = classpath;
    }

    /// The loaded class named `name`, the last loaded where there are
    /// several.
    pub fn lookup_class(&self, name: &str) -> (r: Option<ClassRef>)
        ensures
            r == match self.class_named(name@) {
                Some(i) => Some(ClassRef(i as usize)),
                None => None::<ClassRef>,
            },
    {
        let mut i: usize = self.classes.len();
        while i > 0
            invariant
                i <= self.classes@.len(),
                last_named(self.classes@, name@, self.classes@.len()) == last_named(
                    self.classes@,
                    name@,
                    i as nat,
                ),
            decreases i,
        {
            if str_eq(self.classes[i - 1].name.as_str(), name) {
                return Some(ClassRef(i - 1));
            }
            i = i - 1;
        }
        None
    }

    /// The loaded class `class_index`.
    pub fn get_class(&self, class_index: ClassRef) -> (r: Result<&RuntimeClass, RuntimeError>)
        ensures
            class_index.0 < self.classes@.len() ==> r is Ok && *r->Ok_0
                == self.classes@[class_index.0 as int],
            class_index.0 >= self.classes@.len() ==> r is Err && is_class_not_found(r->Err_0),
    {
        if class_index.0 < self.classes.len() {
            Ok(&self.classes[class_index.0])
        } else {
            Err(not_found("(class index out of range)"))
        }
    }

    /// Method `method_index` of class `class_index`.
    pub fn get_method(&self, class_index: ClassRef, method_index: usize) -> (r: Result<
        &RuntimeMethod,
        RuntimeError,
    >)
        ensures
            class_index.0 >= self.classes@.len() ==> r is Err && is_class_not_found(r->Err_0),
            class_index.0 < self.classes@.len() && method_index
                >= self.classes@[class_index.0 as int].methods@.len() ==> r is Err
                && is_method_not_found(r->Err_0),
            class_index.0 < self.classes@.len() && method_index
                < self.classes@[class_index.0 as int].methods@.len() ==> r is Ok && *r->Ok_0
                == self.classes@[class_index.0 as int].methods@[method_index as int],
    {
        let class = self.get_class(class_index)?;
        if method_index < class.methods.len() {
            Ok(&class.methods[method_index])
        } else {
            Err(
                RuntimeError::Internal(
                    InternalError::MethodNotFound {
                        class: class.name.clone(),
                        method: owned("(method index out of range)"),
                    },
                ),
            )
        }
    }

    /// Adds `class` as the newest loaded class; a later lookup by its name
    /// finds it.
    pub fn add_class(&mut self, class: RuntimeClass) -> (r: ClassRef)
        requires
            old(self).wf(),
            class_refs_ok(class, old(self).classes@.len() as int),
            old(self).classes@.len() < usize::MAX,
        ensures
            final(self).wf(),
            final(self).classes@ == old(self).classes@.push(class),
            r == ClassRef(old(self).classes@.len() as usize),
            final(self).threads@ == old(self).threads@,
            final(self).heap == old(self).heap,
            final(self).classpath == old(self).classpath,
            final(self).static_storage@ == old(self).static_storage@,
            final(self).class_objects@ == old(self).class_objects@,
            final(self).steps_left == old(self).steps_left,
    {
        let id = self.classes.len();
        self.classes.push(class);
        proof {
            assert forall|i: int| 0 <= i < self.classes@.len() implies class_refs_ok(
                #[trigger] self.classes@[i],
                i,
            ) by {
                if i < old(self).classes@.len() {
                    assert(self.classes@[i] == old(self).classes@[i]);
                }
            }
        }
        ClassRef(id)
    }

    /// A new thread, with no frames.
    pub fn create_thread(&mut self) -> (r: ThreadRef)
        requires
            old(self).threads@.len() < usize::MAX,
        ensures
            r == ThreadRef(old(self).threads@.len() as usize),
            final(self).threads@.len() == old(self).threads@.len() + 1,
            forall|i: int|
                0 <= i < old(self).threads@.len() ==> final(self).threads@[i] == old(
                    self,
                ).threads@[i],
            final(self).threads@.last().frames@.len() == 0,
            final(self).threads@.last().id == r,
            final(self).primitive_classes == old(self).primitive_classes,
            final(self).thread_objects@ == old(self).thread_objects@,
            final(self).interned@ == old(self).interned@,
            final(self).classes@ == old(self).classes@,
            final(self).heap == old(self).heap,
            final(self).classpath == old(self).classpath,
            final(self).static_storage@ == old(self).static_storage@,
            final(self).class_objects@ == old(self).class_objects@,
            final(self).steps_left == old(self).steps_left,
    {
        let id = self.threads.len();
        self.threads.push(Thread::new(ThreadRef(id), owned("thread")));
        ThreadRef(id)
    }

    /// Thread `thread_ref`.
    pub fn get_thread(&self, thread_ref: ThreadRef) -> (r: Result<&Thread, RuntimeError>)
        ensures
            thread_ref.0 < self.threads@.len() ==> r is Ok && *r->Ok_0
                == self.threads@[thread_ref.0 as int],
            thread_ref.0 >= self.threads@.len() ==> r is Err && is_thread_not_found(r->Err_0),
    {
        if thread_ref.0 < self.threads.len() {
            Ok(&self.threads[thread_ref.0])
        } else {
            Err(RuntimeError::Internal(InternalError::ThreadNotFound { thread_id: thread_ref.0 }))
        }
    }

    pub fn heap(&self) -> (r: &Heap)
        ensures
            *r == self.heap,
    {
        &self.heap
    }

    /// The heap, to change; the rest of the virtual machine stays.
    pub fn heap_mut(&mut self) -> (r: &mut Heap)
        ensures
            *r == old(self).heap,
            *final(self) == (VM { heap: *final(r), ..*old(self) }),
    {
        &mut self.heap
    }

    pub fn primitive_classes(&self) -> (r: &PrimitiveClasses)
        ensures
            *r == self.primitive_classes,
    {
        &self.primitive_classes
    }

    /// The object that holds the static fields of `class_ref`, once the
    /// class is initialized.
    pub fn static_storage_ref(&self, class_ref: ClassRef) -> (r: Result<ObjectRef, RuntimeError>)
        ensures
            match lookup(self.static_storage@, class_ref) {
                Some(o) => r == Ok::<ObjectRef, RuntimeError>(o),
                None => r is Err && is_class_not_found(r->Err_0),
            },
    {
        match find_pair(&self.static_storage, class_ref) {
            Some(o) => Ok(o),
            None => Err(not_found("(statics uninitialized)")),
        }
    }

    /// Whether interface `iface` is `target` or extends it.
    pub fn interface_extends(&self, iface: ClassRef, target: ClassRef) -> (r: Result<
        bool,
        RuntimeError,
    >)
        ensures
            match extends(self.classes@, iface, target, self.classes@.len()) {
                Ok(b) => r == Ok::<bool, RuntimeError>(b),
                Err(()) => r is Err && is_class_not_found(r->Err_0),
            },
    {
        self.extends_fuel(iface, target, self.classes.len())
    }

    fn extends_fuel(&self, iface: ClassRef, target: ClassRef, fuel: usize) -> (r: Result<
        bool,
        RuntimeError,
    >)
        ensures
            match extends(self.classes@, iface, target, fuel as nat) {
                Ok(b) => r == Ok::<bool, RuntimeError>(b),
                Err(()) => r is Err && is_class_not_found(r->Err_0),
            },
        decreases fuel, 0nat,
    {
        if iface == target {
            return Ok(true);
        }
        if fuel == 0 {
            return Ok(false);
        }
        let class = self.get_class(iface)?;
        self.any_extends_fuel(&class.interfaces, target, fuel - 1)
    }

    fn any_extends_fuel(&self, l: &Vec<ClassRef>, target: ClassRef, fuel: usize) -> (r: Result<
        bool,
        RuntimeError,
    >)
        ensures
            match any_extends(self.classes@, l@, target, fuel as nat, 0) {
                Ok(b) => r == Ok::<bool, RuntimeError>(b),
                Err(()) => r is Err && is_class_not_found(r->Err_0),
            },
        decreases fuel, l@.len(),
    {
        let mut k: usize = 0;
        while k < l.len()
            invariant
                k <= l@.len(),
                any_extends(self.classes@, l@, target, fuel as nat, 0) == any_extends(
                    self.classes@,
                    l@,
                    target,
                    fuel as nat,
                    k as nat,
                ),
            decreases l@.len() - k,
        {
            if self.extends_fuel(l[k], target, fuel)? {
                return Ok(true);
            }
            k = k + 1;
        }
        Ok(false)
    }

    /// Whether an object of class `from` can be used where a `to` is
    /// expected: `from` is `to`, or a class on its superclass chain is `to`
    /// or has an interface that extends `to`.
    pub fn is_assignable(&self, from: ClassRef, to: ClassRef) -> (r: Result<bool, RuntimeError>)
        ensures
            match assignable(self.classes@, from, to, self.classes@.len() as nat) {
                Ok(b) => r == Ok::<bool, RuntimeError>(b),
                Err(()) => r is Err && is_class_not_found(r->Err_0),
            },
    {
        self.assignable_fuel(from, to, self.classes.len())
    }

    fn assignable_fuel(&self, from: ClassRef, to: ClassRef, fuel: usize) -> (r: Result<
        bool,
        RuntimeError,
    >)
        ensures
            match assignable(self.classes@, from, to, fuel as nat) {
                Ok(b) => r == Ok::<bool, RuntimeError>(b),
                Err(()) => r is Err && is_class_not_found(r->Err_0),
            },
        decreases fuel,
    {
        if from == to {
            return Ok(true);
        }
        if fuel == 0 {
            return Ok(false);
        }
        let class = self.get_class(from)?;
        if self.any_extends_fuel(&class.interfaces, to, self.classes.len())? {
            return Ok(true);
        }
        match class.super_class {
            None => Ok(false),
            Some(s) => self.assignable_fuel(s, to, fuel - 1),
        }
    }

    /// The class that declares the method named `name` with descriptor
    /// `descriptor` that an object of class `start` runs: the first on the
    /// superclass chain from `start`, and the method's index there.
    pub fn resolve_virtual_method(&self, start: ClassRef, name: &str, descriptor: &str) -> (r:
        Result<(ClassRef, usize), RuntimeError>)
        ensures
            match virtual_method(self.classes@, start, name@, descriptor@, self.classes@.len()) {
                ChainLookup::Found((c, i)) => r is Ok && r->Ok_0.0 == c && r->Ok_0.1 as nat == i,
                ChainLookup::Missing => r is Err && (is_method_not_found(r->Err_0)
                    || is_class_not_found(r->Err_0)),
                ChainLookup::BadClass => r is Err && is_class_not_found(r->Err_0),
            },
    {
        let mut current = start;
        let mut fuel: usize = self.classes.len();
        loop
            invariant
                virtual_method(self.classes@, start, name@, descriptor@, self.classes@.len())
                    == virtual_method(self.classes@, current, name@, descriptor@, fuel as nat),
            ensures
                virtual_method(self.classes@, start, name@, descriptor@, self.classes@.len()) is Missing,
            decreases fuel,
        {
            if fuel == 0 {
                break ;
            }
            let class = self.get_class(current)?;
            match class.find_method(name, descriptor) {
                Some(index) => {
                    return Ok((current, index));
                },
                None => {},
            }
            match class.super_class {
                None => {
                    break ;
                },
                Some(s) => {
                    current = s;
                },
            }
            fuel = fuel - 1;
        }
        let class = self.get_class(start)?;
        Err(
            RuntimeError::Internal(
                InternalError::MethodNotFound { class: class.name.clone(), method: owned(name) },
            ),
        )
    }

    /// The class on the superclass chain from `start` that declares an
    /// instance field named `name`, and the field's slot; `None` where none
    /// does.
    pub fn find_instance_field(&self, start: ClassRef, name: &str) -> (r: Result<
        Option<(ClassRef, usize)>,
        RuntimeError,
    >)
        ensures
            match instance_field(self.classes@, start, name@, self.classes@.len()) {
                ChainLookup::Found((c, s)) => r == Ok::<Option<(ClassRef, usize)>, RuntimeError>(
                    Some((c, s)),
                ),
                ChainLookup::Missing => r == Ok::<Option<(ClassRef, usize)>, RuntimeError>(None),
                ChainLookup::BadClass => r is Err && is_class_not_found(r->Err_0),
            },
    {
        let mut current = start;
        let mut fuel: usize = self.classes.len();
        loop
            invariant
                instance_field(self.classes@, start, name@, self.classes@.len()) == instance_field(
                    self.classes@,
                    current,
                    name@,
                    fuel as nat,
                ),
            decreases fuel,
        {
            if fuel == 0 {
                return Ok(None);
            }
            let class = self.get_class(current)?;
            match class.find_field(name) {
                Some(f) => {
                    return Ok(Some((current, f.slot)));
                },
                None => {},
            }
            match class.super_class {
                None => {
                    return Ok(None);
                },
                Some(s) => {
                    current = s;
                },
            }
            fuel = fuel - 1;
        }
    }

    /// The value that a field of descriptor `descriptor` starts with.
    pub fn default_value_for_descriptor(&self, descriptor: &str) -> (r: Result<Value, RuntimeError>)
        ensures
            match default_value(descriptor@) {
                Some(v) => r == Ok::<Value, RuntimeError>(v),
                None => r is Err && r->Err_0 matches RuntimeError::Internal(
                    InternalError::InvalidDescriptor,
                ),
            },
    {
        match type_kind(descriptor) {
            Some(FieldKind::Boolean) | Some(FieldKind::Byte) | Some(FieldKind::Char) | Some(
                FieldKind::Short,
            )
            | Some(FieldKind::Int) => Ok(Value::Int(0)),
            Some(FieldKind::Long) => Ok(Value::Long(0)),
            Some(FieldKind::Float) => Ok(Value::Float(0)),
            Some(FieldKind::Double) => Ok(Value::Double(0)),
            Some(FieldKind::Array) | Some(FieldKind::Object) => Ok(Value::Reference(None)),
            Some(FieldKind::Void) => Ok(Value::Empty),
            None => Err(RuntimeError::Internal(InternalError::InvalidDescriptor)),
        }
    }

    /// The slots of `fields`, each set to the value its descriptor starts
    /// with.
    fn fill_defaults(&self, values: &mut Vec<Value>, fields: &Vec<crate::vm::runtime_field::RuntimeField>) -> (r: Result<(), RuntimeError>)
        ensures
            final(values)@.len() == old(values)@.len(),
            r matches Err(e) ==> e is Internal,
            r is Ok ==> fields_fit(field_views(fields@), old(values)@.len())
                && final(values)@ == set_defaults(old(values)@, field_views(fields@)),
            r is Ok <== fields_fit(field_views(fields@), old(values)@.len()) && defaults_ok(
                field_views(fields@),
            ),
    {
        let ghost start = old(values)@;
        let ghost fs = field_views(fields@);
        let mut i: usize = 0;
        while i < fields.len()
            invariant
                fs == field_views(fields@),
                start == old(values)@,
                i <= fields@.len(),
                values@.len() == start.len(),
                fields_fit(fs.subrange(0, i as int), start.len()),
                values@ == set_defaults(start, fs.subrange(0, i as int)),
            decreases fields@.len() - i,
        {
            let f = &fields[i];
            proof {
                assert(fs[i as int] == f@);
                assert(fs.subrange(0, i + 1).drop_last() =~= fs.subrange(0, i as int));
            }
            if f.slot >= values.len() {
                proof {
                    lemma_fit_prefix(fs, (i + 1) as nat, start.len());
                    lemma_fit_prefix(fs, fs.len(), start.len());
                    assert(fs.subrange(0, fs.len() as int) =~= fs);
                }
                return Err(RuntimeError::Internal(InternalError::InvalidSlot));
            }
            let v = match self.default_value_for_descriptor(f.descriptor.as_str()) {
                Ok(v) => v,
                Err(e) => {
                    proof {
                        lemma_defaults_prefix(fs, (i + 1) as nat);
                        assert(fs.subrange(0, fs.len() as int) =~= fs);
                    }
                    return Err(e);
                },
            };
            values.set(f.slot, v);
            i = i + 1;
        }
        proof {
            assert(fs.subrange(0, fs.len() as int) =~= fs);
        }
        Ok(())
    }

    /// The values that the instance fields of a new object of class
    /// `class_ref` start with, the fields of its superclasses included.
    pub fn default_field_values(&self, class_ref: ClassRef) -> (r: Result<Vec<Value>, RuntimeError>)
        requires
            self.wf(),
            class_ref.0 < self.classes@.len() ==> self.classes@[class_ref.0 as int].field_base_slot
                + 2 * self.classes@[class_ref.0 as int].instance_fields@.len() <= usize::MAX,
        ensures
            r matches Err(e) ==> e is Internal,
            class_ref.0 >= self.classes@.len() ==> r is Err && is_class_not_found(r->Err_0),
            r is Ok ==> class_ref.0 < self.classes@.len() && r->Ok_0@ == chain_defaults(
                self.classes@,
                class_ref,
                Seq::new(
                    total_slots(self.classes@[class_ref.0 as int]),
                    |i: int| Value::Empty,
                ),
                self.classes@.len(),
            ),
            class_ref.0 < self.classes@.len() && chain_fits(
                self.classes@,
                class_ref,
                total_slots(self.classes@[class_ref.0 as int]),
                self.classes@.len(),
            ) ==> r is Ok,
            r is Ok ==> r->Ok_0@.len() == total_slots(self.classes@[class_ref.0 as int]),
    {
        let class = self.get_class(class_ref)?;
        let total = class.total_instance_slot_count();
        let mut fields = filled(Value::Empty, total);
        let ghost init = fields@;
        let mut current = class_ref;
        let mut fuel: usize = self.classes.len();
        loop
            invariant
                self.wf(),
                class_ref.0 < self.classes@.len(),
                init == Seq::new(total_slots(self.classes@[class_ref.0 as int]), |i: int| Value::Empty),
                current.0 < self.classes@.len(),
                chain_defaults(self.classes@, class_ref, init, self.classes@.len())
                    == chain_defaults(self.classes@, current, fields@, fuel as nat),
                fields@.len() == init.len(),
                chain_fits(self.classes@, class_ref, init.len(), self.classes@.len()) ==> chain_fits(
                    self.classes@,
                    current,
                    init.len(),
                    fuel as nat,
                ),
            decreases fuel,
        {
            if fuel == 0 {
                return Ok(fields);
            }
            let c = &self.classes[current.0];
            self.fill_defaults(&mut fields, &c.instance_fields)?;
            match c.super_class {
                None => {
                    return Ok(fields);
                },
                Some(s) => {
                    current = s;
                },
            }
            fuel = fuel - 1;
        }
    }
}

/// Whether the static fields of class `c` fit the slots they take and
/// have descriptors that parse.
pub open spec fn statics_fit(c: RuntimeClass) -> bool {
    &&& fields_fit(field_views(c.static_fields@), crate::vm::runtime_class::fields_slots(field_views(c.static_fields@)))
    &&& defaults_ok(field_views(c.static_fields@))
}

/// The values the static fields of class `c` start with.
pub open spec fn static_defaults(c: RuntimeClass) -> Seq<Value> {
    set_defaults(
        Seq::new(crate::vm::runtime_class::fields_slots(field_views(c.static_fields@)), |i: int| Value::Empty),
        field_views(c.static_fields@),
    )
}

/// Whether each field of `fs` has its slot below `n`.
pub open spec fn fields_fit(fs: Seq<FieldEntry>, n: nat) -> bool {
    forall|i: int| 0 <= i < fs.len() ==> (#[trigger] fs[i]).2 < n
}

/// Whether each field of `fs` has a descriptor that parses.
pub open spec fn defaults_ok(fs: Seq<FieldEntry>) -> bool {
    forall|i: int| 0 <= i < fs.len() ==> default_value((#[trigger] fs[i]).1) is Some
}

/// `values` with the slot of each field of `fs`, in order, set to the value
/// the field starts with.
pub open spec fn set_defaults(values: Seq<Value>, fs: Seq<FieldEntry>) -> Seq<Value>
    decreases fs.len(),
{
    if fs.len() == 0 {
        values
    } else {
        set_defaults(values, fs.drop_last()).update(
            fs.last().2 as int,
            default_value(fs.last().1)->Some_0,
        )
    }
}

/// The instance slots of objects of class `c`, its superclasses' included.
pub open spec fn total_slots(c: RuntimeClass) -> nat {
    c.field_base_slot as nat + crate::vm::runtime_class::fields_slots(field_views(c.instance_fields@))
}

/// Whether the instance fields of class `c` and of its superclasses, up to
/// `fuel` of them, each have a slot below `n` and a descriptor that parses.
pub open spec fn chain_fits(cs: Seq<RuntimeClass>, c: ClassRef, n: nat, fuel: nat) -> bool
    decreases fuel,
{
    fuel == 0 || c.0 >= cs.len() || {
        &&& fields_fit(field_views(cs[c.0 as int].instance_fields@), n)
        &&& defaults_ok(field_views(cs[c.0 as int].instance_fields@))
        &&& match cs[c.0 as int].super_class {
            None => true,
            Some(s) => chain_fits(cs, s, n, (fuel - 1) as nat),
        }
    }
}

/// Whether the fields of class `c` and its superclasses fit does not
/// depend on classes loaded after them, nor on fuel beyond `c`'s index.
pub proof fn lemma_chain_fits_grow(a: Seq<RuntimeClass>, b: Seq<RuntimeClass>, c: ClassRef, n: nat, fa: nat, fb: nat)
    requires
        classes_grow(a, b),
        forall|i: int| 0 <= i < a.len() ==> class_refs_ok(#[trigger] a[i], i),
        c.0 < a.len(),
        fa > c.0,
        fb > c.0,
    ensures
        chain_fits(a, c, n, fa) == chain_fits(b, c, n, fb),
    decreases c.0,
{
    assert(b[c.0 as int] == a[c.0 as int]);
    assert(class_refs_ok(a[c.0 as int], c.0 as int));
    match a[c.0 as int].super_class {
        Some(s) => {
            lemma_chain_fits_grow(a, b, s, n, (fa - 1) as nat, (fb - 1) as nat);
        },
        None => {},
    }
}

/// `values` with the instance fields of `c` and of its superclasses, up
/// to `fuel` of them, set to the values they start with.
pub open spec fn chain_defaults(cs: Seq<RuntimeClass>, c: ClassRef, values: Seq<Value>, fuel: nat) -> Seq<
    Value,
>
    decreases fuel,
{
    if fuel == 0 || c.0 >= cs.len() {
        values
    } else {
        let v = set_defaults(values, field_views(cs[c.0 as int].instance_fields@));
        match cs[c.0 as int].super_class {
            None => v,
            Some(s) => chain_defaults(cs, s, v, (fuel - 1) as nat),
        }
    }
}

proof fn lemma_fit_prefix(fs: Seq<FieldEntry>, k: nat, n: nat)
    requires
        k <= fs.len(),
    ensures
        fields_fit(fs.subrange(0, k as int), n) <== fields_fit(fs, n),
{
    if fields_fit(fs, n) {
        assert forall|i: int| 0 <= i < k implies (#[trigger] fs.subrange(0, k as int)[i]).2 < n by {
            assert(fs.subrange(0, k as int)[i] == fs[i]);
        }
    }
}

proof fn lemma_defaults_prefix(fs: Seq<FieldEntry>, k: nat)
    requires
        k <= fs.len(),
    ensures
        defaults_ok(fs.subrange(0, k as int)) <== defaults_ok(fs),
{
    if defaults_ok(fs) {
        assert forall|i: int| 0 <= i < k implies default_value(
            (#[trigger] fs.subrange(0, k as int)[i]).1,
        ) is Some by {
            assert(fs.subrange(0, k as int)[i] == fs[i]);
        }
    }
}

/// The object paired with class `k` in `pairs`.
pub fn find_pair(pairs: &Vec<(ClassRef, ObjectRef)>, k: ClassRef) -> (r: Option<ObjectRef>)
    ensures
        r == lookup(pairs@, k),
{
    let mut i: usize = 0;
    while i < pairs.len()
        invariant
            i <= pairs@.len(),
            assoc(pairs@, k, i as nat) is None,
        decreases pairs@.len() - i,
    {
        if pairs[i].0.0 == k.0 {
            proof {
                lemma_assoc_extend(pairs@, k, (i + 1) as nat, pairs@.len());
            }
            return Some(pairs[i].1);
        }
        i = i + 1;
    }
    None
}

/// The object paired with thread `k` in `pairs`.
pub fn find_thread_pair(pairs: &Vec<(ThreadRef, ObjectRef)>, k: ThreadRef) -> (r: Option<ObjectRef>)
    ensures
        r == lookup(pairs@, k),
{
    let mut i: usize = 0;
    while i < pairs.len()
        invariant
            i <= pairs@.len(),
            assoc(pairs@, k, i as nat) is None,
        decreases pairs@.len() - i,
    {
        if pairs[i].0.0 == k.0 {
            proof {
                lemma_assoc_extend(pairs@, k, (i + 1) as nat, pairs@.len());
            }
            return Some(pairs[i].1);
        }
        i = i + 1;
    }
    None
}

/// Once `k` is found among the first `a` pairs, the first `b` give the
/// same value.
pub proof fn lemma_assoc_extend<K, V>(s: Seq<(K, V)>, k: K, a: nat, b: nat)
    requires
        a <= b <= s.len(),
        assoc(s, k, a) is Some,
    ensures
        assoc(s, k, b) == assoc(s, k, a),
    decreases b - a,
{
    if a < b {
        lemma_assoc_extend(s, k, a, (b - 1) as nat);
    }
}

/// How deep superclasses and interfaces may nest while classes load; a
/// deeper nesting is reported as circular.
pub const MAX_LOAD_DEPTH: usize = 1024;

/// Whether `b` holds the classes of `a` and maybe more after them.
pub open spec fn classes_grow(a: Seq<RuntimeClass>, b: Seq<RuntimeClass>) -> bool {
    a.len() <= b.len() && forall|i: int| 0 <= i < a.len() ==> #[trigger] b[i] == a[i]
}

/// Whether `c` is a class of `cs` named `n`.
pub open spec fn named_at(cs: Seq<RuntimeClass>, c: ClassRef, n: Seq<char>) -> bool {
    c.0 < cs.len() && cs[c.0 as int].name@ == n
}

/// Whether each primitive class of `vm` is a loaded class that bears the
/// name of its type.
pub open spec fn primitives_named<F>(vm: VM<F>) -> bool {
    let p = vm.primitive_classes;
    let cs = vm.classes@;
    &&& named_at(cs, p.boolean, "boolean"@)
    &&& named_at(cs, p.byte, "byte"@)
    &&& named_at(cs, p.char, "char"@)
    &&& named_at(cs, p.short, "short"@)
    &&& named_at(cs, p.int, "int"@)
    &&& named_at(cs, p.long, "long"@)
    &&& named_at(cs, p.float, "float"@)
    &&& named_at(cs, p.double, "double"@)
    &&& named_at(cs, p.void, "void"@)
}

/// The primitive classes keep their names as more classes are loaded.
pub proof fn lemma_primitives_kept<F>(a: VM<F>, b: VM<F>)
    requires
        primitives_named(a),
        classes_grow(a.classes@, b.classes@),
        b.primitive_classes == a.primitive_classes,
    ensures
        primitives_named(b),
{
    let p = a.primitive_classes;
    assert(b.classes@[p.boolean.0 as int] == a.classes@[p.boolean.0 as int]);
    assert(b.classes@[p.byte.0 as int] == a.classes@[p.byte.0 as int]);
    assert(b.classes@[p.char.0 as int] == a.classes@[p.char.0 as int]);
    assert(b.classes@[p.short.0 as int] == a.classes@[p.short.0 as int]);
    assert(b.classes@[p.int.0 as int] == a.classes@[p.int.0 as int]);
    assert(b.classes@[p.long.0 as int] == a.classes@[p.long.0 as int]);
    assert(b.classes@[p.float.0 as int] == a.classes@[p.float.0 as int]);
    assert(b.classes@[p.double.0 as int] == a.classes@[p.double.0 as int]);
    assert(b.classes@[p.void.0 as int] == a.classes@[p.void.0 as int]);
}

/// Whether the class objects `b` keep those of `a`, in order, and maybe
/// add more.
pub open spec fn objects_kept(a: Seq<(ClassRef, ObjectRef)>, b: Seq<(ClassRef, ObjectRef)>) -> bool {
    &&& a.len() <= b.len()
    &&& forall|i: int| 0 <= i < a.len() ==> #[trigger] b[i] == a[i]
}

/// Whether `b` differs from `a` at most by having loaded more classes.
pub open spec fn only_loaded<F>(a: VM<F>, b: VM<F>) -> bool {
    &&& classes_grow(a.classes@, b.classes@)
    &&& b.threads@ == a.threads@
    &&& b.heap@ == a.heap@
    &&& b.heap.next_identity_hash == a.heap.next_identity_hash
    &&& b.classpath == a.classpath
    &&& b.static_storage@ == a.static_storage@
    &&& b.class_objects@ == a.class_objects@
    &&& b.thread_objects@ == a.thread_objects@
    &&& b.interned@ == a.interned@
    &&& b.primitive_classes == a.primitive_classes
    &&& b.steps_left == a.steps_left
}

/// Whether `r` reports a class whose loading nests too deep.
pub open spec fn is_circularity_error(r: RuntimeError) -> bool {
    r matches RuntimeError::Internal(InternalError::ClassCircularity { .. })
}

/// The class that `last_named` finds among the first `n` is one of them.
pub proof fn lemma_last_named_bound(cs: Seq<RuntimeClass>, name: Seq<char>, n: nat)
    ensures
        last_named(cs, name, n) matches Some(i) ==> i < n,
    decreases n,
{
    if n > 0 {
        lemma_last_named_bound(cs, name, (n - 1) as nat);
    }
}

/// The class a name finds among the first `n` classes bears that name, and
/// a class bearing the name there makes the name find one.
pub proof fn lemma_named_found(cs: Seq<RuntimeClass>, name: Seq<char>, n: nat, j: int)
    requires
        n <= cs.len(),
    ensures
        last_named(cs, name, n) matches Some(i) ==> i < n && cs[i as int].name@ == name,
        0 <= j < n && cs[j].name@ == name ==> last_named(cs, name, n) is Some,
    decreases n,
{
    if n > 0 {
        lemma_named_found(cs, name, (n - 1) as nat, j);
    }
}

/// A name that finds a class still finds one, bearing that name, once more
/// classes are loaded.
pub proof fn lemma_named_kept(a: Seq<RuntimeClass>, b: Seq<RuntimeClass>, name: Seq<char>)
    requires
        classes_grow(a, b),
        last_named(a, name, a.len()) is Some,
    ensures
        last_named(b, name, b.len()) matches Some(i) && i < b.len() && b[i as int].name@ == name,
{
    lemma_named_found(a, name, a.len(), 0);
    let i = last_named(a, name, a.len())->Some_0;
    assert(b[i as int] == a[i as int]);
    lemma_named_found(b, name, b.len(), i as int);
}

proof fn lemma_grow_trans(a: Seq<RuntimeClass>, b: Seq<RuntimeClass>, c: Seq<RuntimeClass>)
    requires
        classes_grow(a, b),
        classes_grow(b, c),
    ensures
        classes_grow(a, c),
{
    assert forall|i: int| 0 <= i < a.len() implies #[trigger] c[i] == a[i] by {
        assert(c[i] == b[i]);
    }
}

pub proof fn lemma_named_grow(a: Seq<RuntimeClass>, b: Seq<RuntimeClass>, name: Seq<char>, n: nat)
    requires
        classes_grow(a, b),
        n <= a.len(),
    ensures
        last_named(a, name, n) == last_named(b, name, n),
    decreases n,
{
    if n > 0 {
        assert(b[n - 1] == a[n - 1]);
        lemma_named_grow(a, b, name, (n - 1) as nat);
    }
}

impl<F> VM<F> {
    /// The loaded class named `binary_name`, loading it (and what it
    /// needs) from the class path where it is not loaded yet.
    pub fn resolve_class(&mut self, binary_name: &str) -> (r: Result<ClassRef, RuntimeError>)
        requires
            old(self).wf(),
        ensures
            r matches Err(e) ==> e is Internal,
            final(self).wf(),
            only_loaded(*old(self), *final(self)),
            r matches Ok(c) ==> c.0 < final(self).classes@.len(),
            old(self).class_named(binary_name@) matches Some(i) ==> r == Ok::<
                ClassRef,
                RuntimeError,
            >(ClassRef(i as usize)) && final(self).classes@ == old(self).classes@,
            old(self).class_named(binary_name@) is None && crate::vm::classpath::first_file(
                crate::vm::classpath::search_order(old(self).classpath),
                crate::vm::classpath::class_file_name(binary_name@),
            ) is None ==> r is Err && is_class_not_found(r->Err_0) && final(self).classes@ == old(
                self,
            ).classes@,
            r matches Ok(c) ==> (final(self).classes@[c.0 as int].name@ == binary_name@
                ==> final(self).class_named(binary_name@) == Some(c.0 as nat)),
            loads_directly(*old(self), binary_name@) ==> r == Ok::<ClassRef, RuntimeError>(
                ClassRef(old(self).classes@.len() as usize),
            ) && final(self).classes@.len() == old(self).classes@.len() + 1 && loaded_from(
                final(self).classes@,
                ClassRef(old(self).classes@.len() as usize),
                class_file_for(*old(self), binary_name@)->Some_0,
            ),
            resolved_index(*old(self), binary_name@) matches Some(i) ==> r == Ok::<ClassRef, RuntimeError>(
                ClassRef(i as usize),
            ),
            old(self).class_named(binary_name@) is None ==> (r matches Ok(c) ==> c.0 >= old(
                self,
            ).classes@.len()),
    {
        proof {
            lemma_last_named_bound(old(self).classes@, binary_name@, old(self).classes@.len());
            assert(old(self).classes@.len() == old(self).classes.len());
        }
        self.resolve_class_within(binary_name, MAX_LOAD_DEPTH)
    }

    #[verifier::spinoff_prover]
    #[verifier::rlimit(40)]
    fn resolve_class_within(&mut self, binary_name: &str, depth: usize) -> (r: Result<
        ClassRef,
        RuntimeError,
    >)
        requires
            old(self).wf(),
        ensures
            r matches Err(e) ==> e is Internal,
            final(self).wf(),
            only_loaded(*old(self), *final(self)),
            r matches Ok(c) ==> c.0 < final(self).classes@.len(),
            old(self).class_named(binary_name@) matches Some(i) ==> r == Ok::<
                ClassRef,
                RuntimeError,
            >(ClassRef(i as usize)) && final(self).classes@ == old(self).classes@,
            old(self).class_named(binary_name@) is None && crate::vm::classpath::first_file(
                crate::vm::classpath::search_order(old(self).classpath),
                crate::vm::classpath::class_file_name(binary_name@),
            ) is None ==> r is Err && is_class_not_found(r->Err_0) && final(self).classes@ == old(
                self,
            ).classes@,
            r matches Ok(c) ==> (final(self).classes@[c.0 as int].name@ == binary_name@
                ==> final(self).class_named(binary_name@) == Some(c.0 as nat)),
            depth > 0 && loads_directly(*old(self), binary_name@) ==> r == Ok::<ClassRef, RuntimeError>(
                ClassRef(old(self).classes@.len() as usize),
            ) && final(self).classes@.len() == old(self).classes@.len() + 1 && loaded_from(
                final(self).classes@,
                ClassRef(old(self).classes@.len() as usize),
                class_file_for(*old(self), binary_name@)->Some_0,
            ),
            old(self).class_named(binary_name@) is None ==> (r matches Ok(c) ==> c.0 >= old(
                self,
            ).classes@.len()),
        decreases depth, 0nat,
    {
        proof {
            lemma_last_named_bound(self.classes@, binary_name@, self.classes@.len());
        }
        match self.lookup_class(binary_name) {
            Some(existing) => {
                proof {
                    assert(self.classes@.len() == self.classes.len());
                }
                return Ok(existing);
            },
            None => {},
        }
        let data = match self.classpath.find_class(binary_name) {
            Some(d) => d,
            None => {
                return Err(
                    RuntimeError::Internal(
                        InternalError::ClassNotFound { class: owned(binary_name) },
                    ),
                );
            },
        };
        if depth == 0 {
            return Err(
                RuntimeError::Internal(InternalError::ClassCircularity { class: owned(binary_name) }),
            );
        }
        let mut reader = ClassReader::new(data);
        let class_file = match ClassFile::read(&mut reader) {
            Ok(cf) => cf,
            Err(e) => {
                return Err(
                    RuntimeError::Internal(
                        InternalError::ClassLoadError {
                            class: owned(binary_name),
                            source_cp: e.message(),
                        },
                    ),
                );
            },
        };
        let r = self.load_class_within(class_file, depth - 1);
        proof {
            if r is Ok {
                assert(self.classes@.len() == r->Ok_0.0 + 1);
            }
        }
        r
    }

    /// Loads `class_file` as the newest class, after its superclass and
    /// interfaces.
    pub fn load_class(&mut self, class_file: ClassFile) -> (r: Result<ClassRef, RuntimeError>)
        requires
            old(self).wf(),
        ensures
            r matches Err(e) ==> e is Internal,
            final(self).wf(),
            only_loaded(*old(self), *final(self)),
            r matches Ok(c) ==> loaded_from(final(self).classes@, c, class_file@),
            r matches Ok(c) ==> (super_name(class_file@) matches Some(n) ==> (old(self).class_named(n) matches Some(
                j,
            ) ==> final(self).classes@[c.0 as int].super_class == Some(ClassRef(j as usize))
                && final(self).classes@[c.0 as int].field_base_slot == total_slots(old(self).classes@[j as int]))),
            class_file@.super_class == 0 ==> (r matches Ok(c) ==> final(self).classes@[c.0 as int].field_base_slot == 0),
            supers_loaded(*old(self), class_file@) && class_file@.fields.len() <= (usize::MAX - base_slot(
                *old(self),
                class_file@,
            )) / 2 && old(self).classes@.len() < usize::MAX && crate::vm::runtime_class::load_class_parts(
                class_file@,
                base_slot(*old(self), class_file@),
                ClassRef(old(self).classes@.len() as usize),
            ) is Ok ==> r is Ok,
            r matches Ok(c) ==> final(self).class_named(final(self).classes@[c.0 as int].name@) == Some(
                c.0 as nat,
            ),
    {
        self.load_class_within(class_file, MAX_LOAD_DEPTH)
    }

    fn load_class_within(&mut self, class_file: ClassFile, depth: usize) -> (r: Result<
        ClassRef,
        RuntimeError,
    >)
        requires
            old(self).wf(),
        ensures
            r matches Err(e) ==> e is Internal,
            final(self).wf(),
            only_loaded(*old(self), *final(self)),
            r matches Ok(c) ==> loaded_from(final(self).classes@, c, class_file@),
            r matches Ok(c) ==> (super_name(class_file@) matches Some(n) ==> (old(self).class_named(n) matches Some(
                j,
            ) ==> final(self).classes@[c.0 as int].super_class == Some(ClassRef(j as usize))
                && final(self).classes@[c.0 as int].field_base_slot == total_slots(old(self).classes@[j as int]))),
            class_file@.super_class == 0 ==> (r matches Ok(c) ==> final(self).classes@[c.0 as int].field_base_slot == 0),
            supers_loaded(*old(self), class_file@) && class_file@.fields.len() <= (usize::MAX - base_slot(
                *old(self),
                class_file@,
            )) / 2 && old(self).classes@.len() < usize::MAX && crate::vm::runtime_class::load_class_parts(
                class_file@,
                base_slot(*old(self), class_file@),
                ClassRef(old(self).classes@.len() as usize),
            ) is Ok ==> r is Ok,
            supers_loaded(*old(self), class_file@) && r is Ok ==> final(self).classes@.len() == old(
                self,
            ).classes@.len() + 1,
            r is Ok ==> final(self).classes@.len() > old(self).classes@.len(),
        decreases depth, 1nat,
    {
        proof {
            assert(self.classes@.len() == self.classes.len());
        }
        let super_class = if class_file.super_class == 0 {
            None
        } else {
            let super_name = class_file.constant_pool.get_class_name(class_file.super_class)?;
            proof {
                lemma_last_named_bound(self.classes@, super_name@, self.classes@.len());
            }
            Some(self.resolve_class_within(super_name.as_str(), depth)?)
        };
        let ghost after_super = *self;
        let mut interfaces: Vec<ClassRef> = Vec::with_capacity(class_file.interfaces.len());
        let mut i: usize = 0;
        while i < class_file.interfaces.len()
            invariant
                self.wf(),
                only_loaded(*old(self), *self),
                supers_loaded(*old(self), class_file@) ==> self.classes@ == old(self).classes@,
                after_super.classes@ == old(self).classes@ ==> (super_name(class_file@) matches Some(n) ==> (old(
                    self,
                ).class_named(n) matches Some(j) ==> super_class == Some(ClassRef(j as usize)))),
                class_file@.super_class == 0 ==> super_class is None,
                supers_loaded(*old(self), class_file@) ==> after_super.classes@ == old(self).classes@,
                super_class matches Some(s) ==> s.0 < self.classes@.len(),
                i <= class_file.interfaces@.len(),
                interfaces@.len() == i,
                forall|k: int| 0 <= k < i ==> (#[trigger] interfaces@[k]).0 < self.classes@.len(),
            decreases class_file.interfaces@.len() - i,
        {
            let iface_name = class_file.constant_pool.get_class_name(class_file.interfaces[i])?;
            let ghost before = *self;
            let c = self.resolve_class_within(iface_name.as_str(), depth)?;
            proof {
                lemma_grow_trans(old(self).classes@, before.classes@, self.classes@);
            }
            interfaces.push(c);
            i = i + 1;
        }
        let field_base_slot = match super_class {
            Some(sc) => self.get_class(sc)?.total_instance_slot_count(),
            None => 0,
        };
        if class_file.fields.len() > (usize::MAX - field_base_slot) / 2 {
            return Err(RuntimeError::Internal(InternalError::InvalidSlot));
        }
        let id = self.classes.len();
        if id == usize::MAX {
            return Err(RuntimeError::Internal(InternalError::InvalidSlot));
        }
        let runtime_class = RuntimeClass::from_class_file(
            &class_file,
            super_class,
            ClassRef(id),
            field_base_slot,
            interfaces,
        )?;
        proof {
            let parts = crate::vm::runtime_class::load_class_parts(
                class_file@,
                field_base_slot as nat,
                ClassRef(id),
            );
            crate::vm::runtime_field::lemma_layout_len(
                class_file@.fields,
                class_file@.constant_pool,
                false,
                field_base_slot as nat,
                class_file@.fields.len(),
            );
            crate::vm::runtime_field::lemma_layout_len(
                class_file@.fields,
                class_file@.constant_pool,
                true,
                0,
                class_file@.fields.len(),
            );
            assert(class_file@.fields.len() == class_file.fields@.len());
            assert(runtime_class.instance_fields@.len() == field_views(runtime_class.instance_fields@).len());
            assert(runtime_class.static_fields@.len() == field_views(runtime_class.static_fields@).len());
        }
        let ghost before = self.classes@;
        self.classes.push(runtime_class);
        proof {
            assert forall|k: int| 0 <= k < self.classes@.len() implies class_refs_ok(
                #[trigger] self.classes@[k],
                k,
            ) by {
                if k < before.len() {
                    assert(self.classes@[k] == before[k]);
                }
            }
            assert(classes_grow(before, self.classes@));
            lemma_grow_trans(old(self).classes@, before, self.classes@);
        }
        Ok(ClassRef(id))
    }
}

/// The name of the superclass that class file `cf` names, where it names
/// one.
pub open spec fn super_name(cf: crate::class::class_file::ClassFileModel) -> Option<Seq<char>> {
    if cf.super_class == 0 {
        None
    } else {
        match crate::class::constant_pool::cp_class_name(cf.constant_pool, cf.super_class as int) {
            Ok(n) => Some(n),
            Err(_) => None,
        }
    }
}

/// The class file that the class path of `a` gives for class `name`, read,
/// where there is one and it can be read.
pub open spec fn class_file_for<F>(a: VM<F>, name: Seq<char>) -> Option<crate::class::class_file::ClassFileModel> {
    match crate::vm::classpath::first_file(
        crate::vm::classpath::search_order(a.classpath),
        crate::vm::classpath::class_file_name(name),
    ) {
        Some(d) => match crate::class::class_file::sp_class_file(d, 0) {
            Ok((v, q)) => Some(v),
            Err(_) => None,
        },
        None => None,
    }
}

/// The class that resolving `name` in `a` gives, where that is known
/// without running anything: the loaded class of that name, or the class
/// that loading it from the class path with nothing else would add.
pub open spec fn resolved_index<F>(a: VM<F>, name: Seq<char>) -> Option<nat> {
    match a.class_named(name) {
        Some(i) => Some(i),
        None => if loads_directly(a, name) {
            Some(a.classes@.len())
        } else {
            None
        },
    }
}

/// Whether resolving `name` in `a` loads it from the class path with
/// nothing else: `name` is not loaded, its class file is found and read,
/// its superclass and interfaces are loaded, its fields and one more class
/// fit, and its parts can be laid out.
pub open spec fn loads_directly<F>(a: VM<F>, name: Seq<char>) -> bool {
    &&& a.class_named(name) is None
    &&& class_file_for(a, name) matches Some(cf)
    &&& supers_loaded(a, cf)
    &&& cf.fields.len() <= (usize::MAX - base_slot(a, cf)) / 2
    &&& a.classes@.len() < usize::MAX
    &&& crate::vm::runtime_class::load_class_parts(cf, base_slot(a, cf), ClassRef(a.classes@.len() as usize)) is Ok
}

/// Whether the superclass and interfaces that class file `cf` names are
/// loaded in `a`.
pub open spec fn supers_loaded<F>(a: VM<F>, cf: crate::class::class_file::ClassFileModel) -> bool {
    &&& cf.super_class != 0 ==> (super_name(cf) matches Some(n) && a.class_named(n) is Some)
    &&& forall|k: int|
        0 <= k < cf.interfaces.len() ==> (crate::class::constant_pool::cp_class_name(
            cf.constant_pool,
            #[trigger] cf.interfaces[k] as int,
        ) matches Ok(n) && a.class_named(n) is Some)
}

/// The slot where the instance fields of a class loaded from `cf` in `a`
/// start: after those of its superclass, where that is loaded.
pub open spec fn base_slot<F>(a: VM<F>, cf: crate::class::class_file::ClassFileModel) -> nat {
    match super_name(cf) {
        Some(n) => match a.class_named(n) {
            Some(j) => total_slots(a.classes@[j as int]),
            None => 0,
        },
        None => 0,
    }
}

/// Whether class `c`, the last of `cs`, was loaded from class file `cf`:
/// its name, fields and methods are those of `cf`, and it has a superclass
/// exactly when `cf` names one.
pub open spec fn loaded_from(
    cs: Seq<RuntimeClass>,
    c: ClassRef,
    cf: crate::class::class_file::ClassFileModel,
) -> bool {
    &&& c.0 + 1 == cs.len()
    &&& {
        let k = cs[c.0 as int];
        &&& (k.super_class is None <==> cf.super_class == 0)
        &&& k.interfaces@.len() == cf.interfaces.len()
        &&& k.constant_pool@ == cf.constant_pool
        &&& crate::vm::runtime_class::load_class_parts(cf, k.field_base_slot as nat, c) matches Ok(
            (name, inst, stat, ms),
        ) && k.name@ == name && field_views(k.instance_fields@) == inst && field_views(
            k.static_fields@,
        ) == stat && method_views(k) == ms
    }
}

/// Whether `b` differs from `a` at most by more classes and more heap
/// entries (and the identity hash counter).
pub open spec fn only_grew<F>(a: VM<F>, b: VM<F>) -> bool {
    &&& classes_grow(a.classes@, b.classes@)
    &&& b.threads@ == a.threads@
    &&& a.heap@.len() <= b.heap@.len()
    &&& forall|i: int| 0 <= i < a.heap@.len() ==> #[trigger] b.heap@[i] == a.heap@[i]
    &&& b.classpath == a.classpath
    &&& b.static_storage@ == a.static_storage@
    &&& b.primitive_classes == a.primitive_classes
    &&& b.steps_left == a.steps_left
}

/// The text `describe_exception` gives for an exception of class `name`
/// with detail message `message`.
pub open spec fn exception_text(name: Seq<char>, message: Option<Seq<char>>) -> Seq<char> {
    match message {
        Some(m) => dotted(name) + ": "@ + m,
        None => dotted(name),
    }
}

impl<F> VM<F> {
    /// The values that the static fields of `class_ref` start with.
    pub fn default_static_field_values(&self, class_ref: ClassRef) -> (r: Result<
        Vec<Value>,
        RuntimeError,
    >)
        requires
            self.wf(),
        ensures
            class_ref.0 >= self.classes@.len() ==> r is Err && is_class_not_found(r->Err_0),
            r is Ok ==> class_ref.0 < self.classes@.len() && r->Ok_0@ == set_defaults(
                Seq::new(
                    crate::vm::runtime_class::fields_slots(
                        field_views(self.classes@[class_ref.0 as int].static_fields@),
                    ),
                    |i: int| Value::Empty,
                ),
                field_views(self.classes@[class_ref.0 as int].static_fields@),
            ),            class_ref.0 < self.classes@.len() && statics_fit(self.classes@[class_ref.0 as int]) ==> r is Ok,
    {
        let class = self.get_class(class_ref)?;
        proof {
            assert(class_refs_ok(self.classes@[class_ref.0 as int], class_ref.0 as int));
        }
        let mut fields = filled(Value::Empty, class.static_slot_count());
        self.fill_defaults(&mut fields, &class.static_fields)?;
        Ok(fields)
    }

    /// Whether class `c` has a `java.lang.Class` object or one can be made
    /// for it: it has one already, or `java/lang/Class` is loaded and its
    /// fields fit.
    pub open spec fn class_object_owed(&self, c: ClassRef) -> bool {
        lookup(self.class_objects@, c) is Some || (self.class_named("java/lang/Class"@) matches Some(k)
            && chain_fits(self.classes@, ClassRef(k as usize), total_slots(self.classes@[k as int]), self.classes@.len()))
    }

    /// The `java.lang.Class` object of `class_ref`, made on first use.
    pub fn class_object_for(&mut self, class_ref: ClassRef) -> (r: Result<ObjectRef, RuntimeError>)
        requires
            old(self).wf(),
        ensures
            final(self).wf(),
            final(self).classes@ == old(self).classes@,
            final(self).threads@ == old(self).threads@,
            final(self).static_storage@ == old(self).static_storage@,
            final(self).steps_left == old(self).steps_left,
            final(self).primitive_classes == old(self).primitive_classes,
            final(self).classpath == old(self).classpath,
            old(self).heap@.len() <= final(self).heap@.len(),
            lookup(old(self).class_objects@, class_ref) matches Some(o) ==> r == Ok::<
                ObjectRef,
                RuntimeError,
            >(o) && final(self).heap@ == old(self).heap@ && final(self).class_objects@ == old(
                self,
            ).class_objects@,
            lookup(old(self).class_objects@, class_ref) is None && r is Ok ==> ({
                let o = r->Ok_0;
                &&& o.0 == old(self).heap@.len()
                &&& final(self).heap@.len() == old(self).heap@.len() + 1
                &&& heap_object(final(self).heap@, o) matches Some(obj) && obj.class_object == Some(
                    class_ref,
                )
                &&& lookup(final(self).class_objects@, class_ref) == Some(o)
            }),
            forall|i: int|
                0 <= i < old(self).heap@.len() ==> #[trigger] final(self).heap@[i] == old(
                    self,
                ).heap@[i],
            old(self).class_object_owed(class_ref) ==> r is Ok,
            objects_kept(old(self).class_objects@, final(self).class_objects@),
    {
        match find_pair(&self.class_objects, class_ref) {
            Some(existing) => {
                return Ok(existing);
            },
            None => {},
        }
        proof {
            assert(self.classes@.len() == self.classes.len());
            lemma_last_named_bound(self.classes@, "java/lang/Class"@, self.classes@.len());
        }
        let class_class = match self.lookup_class("java/lang/Class") {
            Some(c) => c,
            None => {
                return Err(not_found("java/lang/Class"));
            },
        };
        let defaults = self.default_field_values(class_class)?;
        let obj_ref = self.heap.allocate_class_object_typed(
            class_class,
            class_ref,
            defaults.as_slice(),
        );
        let ghost pairs = self.class_objects@;
        self.class_objects.push((class_ref, obj_ref));
        proof {
            assert(self.class_objects@.drop_last() =~= pairs);
            assert(assoc(self.class_objects@, class_ref, pairs.len()) == assoc(
                pairs,
                class_ref,
                pairs.len(),
            )) by {
                lemma_assoc_prefix(self.class_objects@, pairs, class_ref, pairs.len());
            }
        }
        Ok(obj_ref)
    }

    /// The class of the object at `obj_ref`: `java/lang/String` for a
    /// string and `java/lang/Object` for an array.
    pub fn runtime_class_of(&mut self, obj_ref: ObjectRef) -> (r: Result<ClassRef, RuntimeError>)
        requires
            old(self).wf(),
        ensures
            final(self).wf(),
            only_loaded(*old(self), *final(self)),
            heap_object(old(self).heap@, obj_ref) is None ==> (r matches Ok(c) ==> c.0 < final(self).classes@.len()),
            heap_object(old(self).heap@, obj_ref) matches Some(o) ==> r == Ok::<
                ClassRef,
                RuntimeError,
            >(o.class) && final(self).classes@ == old(self).classes@,
            obj_ref.0 >= old(self).heap@.len() ==> r is Err && crate::vm::heap::is_heap_error(
                r->Err_0,
            ),
            r matches Err(e) ==> e is Internal,
    {
        let kind: u8 = match self.heap.get(obj_ref)? {
            HeapEntry::Object(o) => {
                return Ok(o.class);
            },
            HeapEntry::Str(_) => 0,
            HeapEntry::Array(_) => 1,
        };
        if kind == 0 {
            self.resolve_class("java/lang/String")
        } else {
            self.resolve_class("java/lang/Object")
        }
    }

    /// A new string object with the characters of `s`.
    pub fn allocate_string(&mut self, s: &str) -> (r: ObjectRef)
        ensures
            r.0 == old(self).heap@.len(),
            final(self).heap@ == old(self).heap@.push(EntryModel::Str(s@)),
            final(self).heap.next_identity_hash == old(self).heap.next_identity_hash,
            final(self).classes@ == old(self).classes@,
            final(self).threads@ == old(self).threads@,
            final(self).static_storage@ == old(self).static_storage@,
            final(self).class_objects@ == old(self).class_objects@,
            final(self).interned@ == old(self).interned@,
            final(self).steps_left == old(self).steps_left,
            final(self).classpath == old(self).classpath,
            final(self).primitive_classes == old(self).primitive_classes,
    {
        self.heap.allocate_string(owned(s))
    }

    /// The characters of the string object at `obj_ref`.
    pub fn java_string_to_rust(&self, obj_ref: ObjectRef) -> (r: Result<String, RuntimeError>)
        ensures
            (obj_ref.0 < self.heap@.len() && self.heap@[obj_ref.0 as int] is Str) ==> r is Ok
                && r->Ok_0@ == self.heap@[obj_ref.0 as int]->Str_0,
            !(obj_ref.0 < self.heap@.len() && self.heap@[obj_ref.0 as int] is Str) ==> r is Err
                && crate::vm::heap::is_heap_error(r->Err_0),
    {
        let s = self.heap.get_string(obj_ref)?;
        Ok(s.clone())
    }

    /// The string object of the literal `s`: the same object each time for
    /// the same characters.
    pub fn intern_string(&mut self, s: &str) -> (r: Result<ObjectRef, RuntimeError>)
        ensures
            r is Ok,
            final(self).classes@ == old(self).classes@,
            final(self).threads@ == old(self).threads@,
            final(self).static_storage@ == old(self).static_storage@,
            final(self).class_objects@ == old(self).class_objects@,
            final(self).steps_left == old(self).steps_left,
            final(self).classpath == old(self).classpath,
            final(self).primitive_classes == old(self).primitive_classes,
            forall|i: int|
                0 <= i < old(self).heap@.len() ==> #[trigger] final(self).heap@[i] == old(
                    self,
                ).heap@[i],
            old(self).heap@.len() <= final(self).heap@.len(),
            interned_as(old(self).interned@, s@) matches Some(o) ==> r == Ok::<
                ObjectRef,
                RuntimeError,
            >(o) && final(self).heap@ == old(self).heap@,
            interned_as(old(self).interned@, s@) is None ==> r == Ok::<ObjectRef, RuntimeError>(
                ObjectRef(old(self).heap@.len() as usize),
            ) && final(self).heap@ == old(self).heap@.push(EntryModel::Str(s@)),
            interned_as(final(self).interned@, s@) == Some(r->Ok_0),
    {
        let mut i: usize = 0;
        while i < self.interned.len()
            invariant
                i <= self.interned@.len(),
                interned_upto(self.interned@, s@, i as nat) is None,
            decreases self.interned@.len() - i,
        {
            if str_eq(self.interned[i].0.as_str(), s) {
                proof {
                    lemma_interned_extend(self.interned@, s@, (i + 1) as nat, self.interned@.len());
                }
                return Ok(self.interned[i].1);
            }
            i = i + 1;
        }
        let obj = self.allocate_string(s);
        let ghost pairs = self.interned@;
        self.interned.push((owned(s), obj));
        proof {
            lemma_interned_prefix(self.interned@, pairs, s@, pairs.len());
        }
        Ok(obj)
    }

    /// Whether thread `t` has a `java.lang.Thread` object or one can be made
    /// for it: the thread exists, and it has one already, or
    /// `java/lang/Thread` is loaded and its fields fit.
    pub open spec fn thread_object_owed(&self, t: ThreadRef) -> bool {
        &&& t.0 < self.threads@.len()
        &&& lookup(self.thread_objects@, t) is Some || (self.class_named("java/lang/Thread"@) matches Some(k)
            && chain_fits(self.classes@, ClassRef(k as usize), total_slots(self.classes@[k as int]), self.classes@.len()))
    }

    /// The `java.lang.Thread` object of thread `thread_ref`, made on first
    /// use.
    pub fn thread_object_for(&mut self, thread_ref: ThreadRef) -> (r: Result<
        ObjectRef,
        RuntimeError,
    >)
        requires
            old(self).wf(),
        ensures
            final(self).wf(),
            classes_grow(old(self).classes@, final(self).classes@),
            final(self).threads@ == old(self).threads@,
            final(self).static_storage@ == old(self).static_storage@,
            final(self).steps_left == old(self).steps_left,
            final(self).primitive_classes == old(self).primitive_classes,
            final(self).classpath == old(self).classpath,
            final(self).class_objects@ == old(self).class_objects@,
            thread_ref.0 >= old(self).threads@.len() ==> r is Err && is_thread_not_found(
                r->Err_0,
            ),
            thread_ref.0 < old(self).threads@.len() ==> (lookup(old(self).thread_objects@, thread_ref)
                matches Some(o) ==> r == Ok::<ObjectRef, RuntimeError>(o)),
            r matches Ok(o) ==> lookup(final(self).thread_objects@, thread_ref) == Some(o),
            old(self).thread_object_owed(thread_ref) ==> r is Ok,
            old(self).heap@.len() <= final(self).heap@.len(),
            forall|i: int|
                0 <= i < old(self).heap@.len() ==> #[trigger] final(self).heap@[i] == old(
                    self,
                ).heap@[i],
    {
        self.get_thread(thread_ref)?;
        match find_thread_pair(&self.thread_objects, thread_ref) {
            Some(existing) => {
                return Ok(existing);
            },
            None => {},
        }
        proof {
            assert(self.classes@.len() == self.classes.len());
            lemma_last_named_bound(self.classes@, "java/lang/Thread"@, self.classes@.len());
        }
        let thread_class = self.resolve_class("java/lang/Thread")?;
        let defaults = self.default_field_values(thread_class)?;
        let obj = self.heap.allocate_object_typed(thread_class, defaults.as_slice());
        let ghost pairs = self.thread_objects@;
        self.thread_objects.push((thread_ref, obj));
        proof {
            lemma_assoc_prefix(self.thread_objects@, pairs, thread_ref, pairs.len());
            assert(self.thread_objects@[pairs.len() as int] == (thread_ref, obj));
        }
        Ok(obj)
    }

    /// The thread whose `java.lang.Thread` object is `obj_ref`.
    pub fn thread_ref_from_object(&self, obj_ref: ObjectRef) -> (r: Result<ThreadRef, RuntimeError>)
        ensures
            match owner_of(self.thread_objects@, obj_ref, self.thread_objects@.len()) {
                Some(t) => r == Ok::<ThreadRef, RuntimeError>(t),
                None => r is Err && is_thread_not_found(r->Err_0),
            },
    {
        let mut i: usize = 0;
        while i < self.thread_objects.len()
            invariant
                i <= self.thread_objects@.len(),
                owner_of(self.thread_objects@, obj_ref, i as nat) is None,
            decreases self.thread_objects@.len() - i,
        {
            if self.thread_objects[i].1.0 == obj_ref.0 {
                proof {
                    lemma_owner_extend(
                        self.thread_objects@,
                        obj_ref,
                        (i + 1) as nat,
                        self.thread_objects@.len(),
                    );
                }
                return Ok(self.thread_objects[i].0);
            }
            i = i + 1;
        }
        Err(RuntimeError::Internal(InternalError::ThreadNotFound { thread_id: obj_ref.0 }))
    }

    /// A description of the exception object at `obj_ref`: its class name
    /// with dots, and after `: ` its detail message where it has one.
    pub fn describe_exception(&self, obj_ref: ObjectRef) -> (r: String)
        requires
            self.wf(),
        ensures
            heap_object(self.heap@, obj_ref) matches Some(o) ==> r@ == exception_text(
                if o.class.0 < self.classes@.len() {
                    self.classes@[o.class.0 as int].name@
                } else {
                    Seq::empty()
                },
                detail_message(*self, o),
            ),
            heap_object(self.heap@, obj_ref) is None ==> r@ == "<non-Throwable object ObjectRef("@
                + crate::text::spec_digits(obj_ref.0 as nat) + ")>"@,
    {
        let obj = match self.heap.get_object(obj_ref) {
            Ok(o) => o,
            Err(_) => {
                let mut s = owned("<non-Throwable object ObjectRef(");
                crate::text::push_digits(&mut s, obj_ref.0 as u64);
                push_str(&mut s, ")>");
                return s;
            },
        };
        let class_name = match self.get_class(obj.class) {
            Ok(c) => c.name.clone(),
            Err(_) => String::new(),
        };
        let message: Option<String> = match self.find_instance_field(obj.class, "detailMessage") {
            Ok(Some((_, slot))) => {
                if slot < obj.fields.len() {
                    match obj.fields[slot] {
                        Value::Reference(Some(r)) => match self.heap.get_string(r) {
                            Ok(m) => Some(m.clone()),
                            Err(_) => None,
                        },
                        _ => None,
                    }
                } else {
                    None
                }
            },
            _ => None,
        };
        let mut out = replace_char(class_name.as_str(), '/', '.');
        proof {
            assert(out@ =~= dotted(class_name@));
            let o = self.heap@[obj_ref.0 as int]->Object_0;
            assert(o == obj@);
            assert(class_name@ == if o.class.0 < self.classes@.len() {
                    self.classes@[o.class.0 as int].name@
                } else {
                    Seq::empty()
                });
        }
        match message {
            Some(m) => {
                push_str(&mut out, ": ");
                push_str(&mut out, m.as_str());
                proof {
                    reveal_strlit(": ");
                }
            },
            None => {},
        }
        out
    }
}

/// The detail message of exception object `o`: the string its
/// `detailMessage` field refers to, where there is one.
pub open spec fn detail_message<F>(vm: VM<F>, o: crate::vm::heap::ObjectModel) -> Option<Seq<char>> {
    match instance_field(vm.classes@, o.class, "detailMessage"@, vm.classes@.len()) {
        ChainLookup::Found((_, slot)) => if slot < o.fields.len() {
            match o.fields[slot as int] {
                Value::Reference(Some(r)) => if r.0 < vm.heap@.len() && vm.heap@[r.0 as int] is Str {
                    Some(vm.heap@[r.0 as int]->Str_0)
                } else {
                    None
                },
                _ => None,
            }
        } else {
            None
        },
        _ => None,
    }
}

/// The object interned for the characters `s` among the first `n` pairs.
pub open spec fn interned_upto(pairs: Seq<(String, ObjectRef)>, s: Seq<char>, n: nat) -> Option<
    ObjectRef,
>
    decreases n,
{
    if n == 0 {
        None
    } else {
        match interned_upto(pairs, s, (n - 1) as nat) {
            Some(o) => Some(o),
            None => if pairs[n - 1].0@ == s {
                Some(pairs[n - 1].1)
            } else {
                None
            },
        }
    }
}

/// The object interned for the characters `s`.
pub open spec fn interned_as(pairs: Seq<(String, ObjectRef)>, s: Seq<char>) -> Option<ObjectRef> {
    interned_upto(pairs, s, pairs.len())
}

proof fn lemma_interned_extend(pairs: Seq<(String, ObjectRef)>, s: Seq<char>, a: nat, b: nat)
    requires
        a <= b <= pairs.len(),
        interned_upto(pairs, s, a) is Some,
    ensures
        interned_upto(pairs, s, b) == interned_upto(pairs, s, a),
    decreases b - a,
{
    if a < b {
        lemma_interned_extend(pairs, s, a, (b - 1) as nat);
    }
}

proof fn lemma_interned_prefix(
    pairs: Seq<(String, ObjectRef)>,
    prefix: Seq<(String, ObjectRef)>,
    s: Seq<char>,
    n: nat,
)
    requires
        n <= prefix.len() < pairs.len(),
        forall|i: int| 0 <= i < prefix.len() ==> #[trigger] pairs[i] == prefix[i],
    ensures
        interned_upto(pairs, s, n) == interned_upto(prefix, s, n),
    decreases n,
{
    if n > 0 {
        lemma_interned_prefix(pairs, prefix, s, (n - 1) as nat);
    }
}

/// The thread whose object is `o` among the first `n` pairs.
pub open spec fn owner_of(pairs: Seq<(ThreadRef, ObjectRef)>, o: ObjectRef, n: nat) -> Option<
    ThreadRef,
>
    decreases n,
{
    if n == 0 {
        None
    } else {
        match owner_of(pairs, o, (n - 1) as nat) {
            Some(t) => Some(t),
            None => if pairs[n - 1].1 == o {
                Some(pairs[n - 1].0)
            } else {
                None
            },
        }
    }
}

proof fn lemma_owner_extend(pairs: Seq<(ThreadRef, ObjectRef)>, o: ObjectRef, a: nat, b: nat)
    requires
        a <= b <= pairs.len(),
        owner_of(pairs, o, a) is Some,
    ensures
        owner_of(pairs, o, b) == owner_of(pairs, o, a),
    decreases b - a,
{
    if a < b {
        lemma_owner_extend(pairs, o, a, (b - 1) as nat);
    }
}

/// Pairs that a longer list starts with are looked up the same way in it.
pub proof fn lemma_assoc_prefix<K, V>(s: Seq<(K, V)>, prefix: Seq<(K, V)>, k: K, n: nat)
    requires
        n <= prefix.len() <= s.len(),
        forall|i: int| 0 <= i < prefix.len() ==> #[trigger] s[i] == prefix[i],
    ensures
        assoc(s, k, n) == assoc(prefix, k, n),
    decreases n,
{
    if n > 0 {
        lemma_assoc_prefix(s, prefix, k, (n - 1) as nat);
    }
}

/// The frames of thread `t`.
pub open spec fn frames_of<F>(vm: VM<F>, t: ThreadRef) -> Seq<crate::vm::frame::Frame> {
    vm.threads@[t.0 as int].frames@
}

/// Whether `b` is `a` with only the frames of thread `t` changed.
pub open spec fn only_frames_changed<F>(a: VM<F>, b: VM<F>, t: ThreadRef) -> bool {
    &&& b.classes@ == a.classes@
    &&& b.threads@.len() == a.threads@.len()
    &&& forall|k: int|
        0 <= k < a.threads@.len() && k != t.0 ==> #[trigger] b.threads@[k] == a.threads@[k]
    &&& t.0 < a.threads@.len() ==> {
        let (x, y) = (a.threads@[t.0 as int], b.threads@[t.0 as int]);
        x.id == y.id && x.state == y.state && x.priority == y.priority && x.name@ == y.name@
    }
    &&& b.heap@ == a.heap@
    &&& b.heap.next_identity_hash == a.heap.next_identity_hash
    &&& b.classpath == a.classpath
    &&& b.static_storage@ == a.static_storage@
    &&& b.class_objects@ == a.class_objects@
    &&& b.thread_objects@ == a.thread_objects@
    &&& b.interned@ == a.interned@
    &&& b.primitive_classes == a.primitive_classes
    &&& b.steps_left == a.steps_left
}

impl<F> VM<F> {
    /// Removes the current frame of thread `t`.
    pub fn take_frame(&mut self, t: ThreadRef) -> (r: Option<crate::vm::frame::Frame>)
        requires
            t.0 < old(self).threads@.len(),
        ensures
            only_frames_changed(*old(self), *final(self), t),
            frames_of(*old(self), t).len() == 0 ==> r is None && frames_of(*final(self), t)
                == frames_of(*old(self), t),
            frames_of(*old(self), t).len() > 0 ==> r == Some(frames_of(*old(self), t).last())
                && frames_of(*final(self), t) == frames_of(*old(self), t).drop_last(),
    {
        self.threads[t.0].pop_frame()
    }

    /// Makes `frame` the current frame of thread `t`.
    pub fn put_frame(&mut self, t: ThreadRef, frame: crate::vm::frame::Frame)
        requires
            t.0 < old(self).threads@.len(),
        ensures
            only_frames_changed(*old(self), *final(self), t),
            frames_of(*final(self), t) == frames_of(*old(self), t).push(frame),
    {
        self.threads[t.0].push_frame(frame);
    }
}

} // verus!
