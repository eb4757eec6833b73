use vstd::prelude::*;

use crate::error::{InternalError, RuntimeError};
use crate::native::java;
use crate::native::native_context::NativeContext;
use crate::native::sun;
use crate::text::{owned, push_str, str_eq};
use crate::vm::float::FloatArithmetic;
use crate::vm::interpreter::{
    StepOutcome,
    lemma_frames_progress,
    frame_now,
    lemma_moved_trans,
    moved_on,
    thrown_new,
};
use crate::vm::descriptor::spec_param_kinds;
use crate::vm::frame::{Frame, stack_push};
use crate::vm::runtime_method::{is_descriptor_error, slots_of};
use crate::vm::thread::ThreadRef;
use crate::vm::heap::{EntryModel, heap_object};
use crate::vm::value::{ObjectRef, Value};
use crate::vm::vm::{VM, frames_of, lookup};

verus! {

/// The class, name and descriptor of a native method.
#[derive(Debug, Clone, PartialEq, Eq, Hash)]
pub struct NativeMethodIdentifier {
    pub class_name: String,
    pub method_name: String,
    pub descriptor: String,
}

/// A `NativeMethodIdentifier` as plain values.
pub type IdModel = (Seq<char>, Seq<char>, Seq<char>);

impl View for NativeMethodIdentifier {
    type V = IdModel;

    open spec fn view(&self) -> IdModel {
        (self.class_name@, self.method_name@, self.descriptor@)
    }
}

impl NativeMethodIdentifier {
    pub fn new(class_name: String, method_name: String, descriptor: String) -> (r: Self)
        ensures
            r@ == (class_name@, method_name@, descriptor@),
    {
        Self { class_name, method_name, descriptor }
    }

    fn same(&self, other: &Self) -> (r: bool)
        ensures
            r == (self@ == other@),
    {
        str_eq(self.class_name.as_str(), other.class_name.as_str()) && str_eq(
            self.method_name.as_str(),
            other.method_name.as_str(),
        ) && str_eq(self.descriptor.as_str(), other.descriptor.as_str())
    }
}

/// The native methods that the virtual machine implements.
#[derive(Debug, Clone, Copy, PartialEq, Eq, Structural)]
pub enum NativeFunction {
    ObjectRegisterNatives,
    ObjectHashCode,
    ClassRegisterNatives,
    ClassGetPrimitiveClass,
    ClassDesiredAssertionStatus,
    ClassGetName,
    ClassForName,
    SystemRegisterNatives,
    SystemInitProperties,
    SystemArraycopy,
    ThreadRegisterNatives,
    ThreadCurrentThread,
    ThreadSetPriority,
    ThreadIsAlive,
    ThrowableFillInStackTrace,
    FloatToRawIntBits,
    DoubleToRawLongBits,
    DoPrivileged,
    DoPrivilegedAction,
    GetStackAccessControlContext,
    UnsafeRegisterNatives,
    UnsafeArrayBaseOffset,
    UnsafeArrayIndexScale,
    UnsafeAddressSize,
    VmInitialize,
    ReflectionGetCallerClass,
    FileOutputStreamInitIds,
}

/// A built-in native method: where it is declared and what implements it.
pub struct NativeRegistration {
    pub class_name: &'static str,
    pub method_name: &'static str,
    pub descriptor: &'static str,
    pub function: NativeFunction,
}

/// Native methods by identifier; no identifier occurs twice.
pub struct NativeMethodRegistry {
    pub entries: Vec<(NativeMethodIdentifier, NativeFunction)>,
}

/// The registry's entries as plain values.
pub open spec fn registry_view(r: NativeMethodRegistry) -> Seq<(IdModel, NativeFunction)> {
    r.entries@.map_values(|e: (NativeMethodIdentifier, NativeFunction)| (e.0@, e.1))
}

/// The function registered for `id` among `es`.
pub open spec fn registered(es: Seq<(IdModel, NativeFunction)>, id: IdModel) -> Option<NativeFunction> {
    if exists|i: int| 0 <= i < es.len() && es[i].0 == id {
        Some(es[choose|i: int| 0 <= i < es.len() && es[i].0 == id].1)
    } else {
        None
    }
}

/// Whether no identifier occurs twice in `es`.
pub open spec fn keys_unique(es: Seq<(IdModel, NativeFunction)>) -> bool {
    forall|i: int, j: int| 0 <= i < j < es.len() ==> es[i].0 != es[j].0
}

impl NativeMethodRegistry {
    /// Whether no identifier occurs twice.
    pub open spec fn wf(&self) -> bool {
        keys_unique(registry_view(*self))
    }

    /// The function registered for `id`.
    pub open spec fn lookup(&self, id: IdModel) -> Option<NativeFunction> {
        registered(registry_view(*self), id)
    }

    /// An empty registry.
    pub fn new() -> (r: Self)
        ensures
            r.wf(),
            forall|id: IdModel| r.lookup(id) is None,
    {
        let r = Self { entries: Vec::new() };
        proof {
            assert(registry_view(r) =~= Seq::<(IdModel, NativeFunction)>::empty());
        }
        r
    }

    fn position(&self, id: &NativeMethodIdentifier) -> (r: Option<usize>)
        requires
            self.wf(),
        ensures
            match r {
                Some(i) => i < self.entries@.len() && registry_view(*self)[i as int].0 == id@,
                None => forall|i: int|
                    0 <= i < self.entries@.len() ==> registry_view(*self)[i].0 != id@,
            },
    {
        let mut i: usize = 0;
        while i < self.entries.len()
            invariant
                i <= self.entries@.len(),
                forall|j: int| 0 <= j < i ==> registry_view(*self)[j].0 != id@,
            decreases self.entries@.len() - i,
        {
            if self.entries[i].0.same(id) {
                return Some(i);
            }
            i = i + 1;
        }
        None
    }

    /// Registers `function` for `identifier`; gives the function that was
    /// registered for it before, which it replaces.
    pub fn register(&mut self, identifier: NativeMethodIdentifier, function: NativeFunction) -> (r:
        Option<NativeFunction>)
        requires
            old(self).wf(),
        ensures
            final(self).wf(),
            r == old(self).lookup(identifier@),
            final(self).lookup(identifier@) == Some(function),
            forall|id: IdModel| id != identifier@ ==> final(self).lookup(id) == old(self).lookup(id),
    {
        let ghost id = identifier@;
        let ghost before = registry_view(*self);
        match self.position(&identifier) {
            Some(i) => {
                let previous = self.entries[i].1;
                self.entries.set(i, (identifier, function));
                proof {
                    let after = registry_view(*self);
                    assert(after =~= before.update(i as int, (id, function)));
                    lemma_registered_at(before, id, i as int);
                    lemma_registered_at(after, id, i as int);
                    assert forall|k: IdModel| k != id implies registered(after, k) == registered(
                        before,
                        k,
                    ) by {
                        lemma_registered_other(before, after, k, i as int);
                    }
                }
                Some(previous)
            },
            None => {
                self.entries.push((identifier, function));
                proof {
                    let after = registry_view(*self);
                    assert(after =~= before.push((id, function)));
                    lemma_registered_at(after, id, before.len() as int);
                    assert forall|k: IdModel| k != id implies registered(after, k) == registered(
                        before,
                        k,
                    ) by {
                        lemma_registered_push(before, after, k);
                    }
                }
                None
            },
        }
    }

    /// Registers `function` for the native method `class_name.method_name`
    /// with descriptor `descriptor`.
    pub fn register_parts(
        &mut self,
        class_name: &str,
        method_name: &str,
        descriptor: &str,
        function: NativeFunction,
    ) -> (r: Option<NativeFunction>)
        requires
            old(self).wf(),
        ensures
            final(self).wf(),
            r == old(self).lookup((class_name@, method_name@, descriptor@)),
            final(self).lookup((class_name@, method_name@, descriptor@)) == Some(function),
            forall|id: IdModel|
                id != (class_name@, method_name@, descriptor@) ==> final(self).lookup(id) == old(
                    self,
                ).lookup(id),
    {
        self.register(
            NativeMethodIdentifier::new(owned(class_name), owned(method_name), owned(descriptor)),
            function,
        )
    }

    /// The function registered for `id`.
    pub fn get(&self, id: &NativeMethodIdentifier) -> (r: Option<NativeFunction>)
        requires
            self.wf(),
        ensures
            r == self.lookup(id@),
    {
        match self.position(id) {
            Some(i) => {
                proof {
                    lemma_registered_at(registry_view(*self), id@, i as int);
                }
                Some(self.entries[i].1)
            },
            None => None,
        }
    }

    /// Whether a function is registered for `identifier`.
    pub fn contains(&self, identifier: &NativeMethodIdentifier) -> (r: bool)
        requires
            self.wf(),
        ensures
            r == self.lookup(identifier@) is Some,
    {
        self.get(identifier).is_some()
    }

    /// The registry of all native methods that the virtual machine
    /// implements.
    pub fn from_inventory() -> (r: Self)
        ensures
            r.wf(),
            forall|id: IdModel| #[trigger] r.lookup(id) == last_registered(builtin_table(), id),
    {
        let mut registry = Self::new();
        let natives = builtin_natives();
        let ghost table = builtin_table();
        let mut i: usize = 0;
        while i < natives.len()
            invariant
                registry.wf(),
                i <= natives@.len(),
                table == natives@.map_values(|n: NativeRegistration| registration_model(n)),
                forall|id: IdModel| #[trigger]
                    registry.lookup(id) == last_registered(table.take(i as int), id),
            decreases natives@.len() - i,
        {
            let n = &natives[i];
            let _ = registry.register_parts(n.class_name, n.method_name, n.descriptor, n.function);
            proof {
                assert(table.take(i + 1).drop_last() =~= table.take(i as int));
                assert(table.take(i + 1).last() == table[i as int]);
            }
            i = i + 1;
        }
        proof {
            assert(table.take(natives@.len() as int) =~= table);
        }
        registry
    }
}

impl Default for NativeMethodRegistry {
    fn default() -> (r: Self)
        ensures
            r.wf(),
            forall|id: IdModel| r.lookup(id) is None,
    {
        Self::new()
    }
}

proof fn lemma_registered_at(es: Seq<(IdModel, NativeFunction)>, id: IdModel, i: int)
    requires
        keys_unique(es),
        0 <= i < es.len(),
        es[i].0 == id,
    ensures
        registered(es, id) == Some(es[i].1),
{
    let j = choose|j: int| 0 <= j < es.len() && es[j].0 == id;
    if j != i {
        if j < i {
            assert(es[j].0 != es[i].0);
        } else {
            assert(es[i].0 != es[j].0);
        }
    }
}

proof fn lemma_registered_other(
    before: Seq<(IdModel, NativeFunction)>,
    after: Seq<(IdModel, NativeFunction)>,
    k: IdModel,
    i: int,
)
    requires
        keys_unique(before),
        0 <= i < before.len(),
        after.len() == before.len(),
        after[i].0 == before[i].0,
        before[i].0 != k,
        forall|j: int| 0 <= j < before.len() && j != i ==> after[j] == before[j],
    ensures
        registered(after, k) == registered(before, k),
{
    if exists|j: int| 0 <= j < before.len() && before[j].0 == k {
        let j = choose|j: int| 0 <= j < before.len() && before[j].0 == k;
        assert(after[j].0 == k);
        let a = choose|j: int| 0 <= j < after.len() && after[j].0 == k;
        assert(before[a].0 == k);
        if a != j {
            if a < j {
                assert(before[a].0 != before[j].0);
            } else {
                assert(before[j].0 != before[a].0);
            }
        }
    } else {
        assert forall|j: int| 0 <= j < after.len() implies after[j].0 != k by {
            if j != i {
                assert(after[j] == before[j]);
            }
        }
    }
}

proof fn lemma_registered_push(
    before: Seq<(IdModel, NativeFunction)>,
    after: Seq<(IdModel, NativeFunction)>,
    k: IdModel,
)
    requires
        keys_unique(before),
        after.len() == before.len() + 1,
        after[before.len() as int].0 != k,
        forall|j: int| 0 <= j < before.len() ==> after[j] == before[j],
    ensures
        registered(after, k) == registered(before, k),
{
    if exists|j: int| 0 <= j < before.len() && before[j].0 == k {
        let j = choose|j: int| 0 <= j < before.len() && before[j].0 == k;
        assert(after[j].0 == k);
        let a = choose|j: int| 0 <= j < after.len() && after[j].0 == k;
        let b = choose|j: int| 0 <= j < before.len() && before[j].0 == k;
        assert(a < before.len());
        assert(after[a] == before[a]);
        if a != b {
            if a < b {
                assert(before[a].0 != before[b].0);
            } else {
                assert(before[b].0 != before[a].0);
            }
        }
    } else {
        assert forall|j: int| 0 <= j < after.len() implies after[j].0 != k by {
            if j < before.len() {
                assert(after[j] == before[j]);
            }
        }
    }
}

/// The native methods that the virtual machine implements, as plain values:
/// where each is declared and what implements it.
pub open spec fn builtin_table() -> Seq<(IdModel, NativeFunction)> {
    seq![
        (("java/lang/Object"@, "registerNatives"@, "()V"@), NativeFunction::ObjectRegisterNatives),
        (("java/lang/Object"@, "hashCode"@, "()I"@), NativeFunction::ObjectHashCode),
        (("java/lang/Class"@, "registerNatives"@, "()V"@), NativeFunction::ClassRegisterNatives),
        (("java/lang/Class"@, "getPrimitiveClass"@, "(Ljava/lang/String;)Ljava/lang/Class;"@), NativeFunction::ClassGetPrimitiveClass),
        (("java/lang/Class"@, "desiredAssertionStatus0"@, "(Ljava/lang/Class;)Z"@), NativeFunction::ClassDesiredAssertionStatus),
        (("java/lang/Class"@, "getName0"@, "()Ljava/lang/String;"@), NativeFunction::ClassGetName),
        (("java/lang/Class"@, "forName0"@, "(Ljava/lang/String;ZLjava/lang/ClassLoader;Ljava/lang/Class;)Ljava/lang/Class;"@), NativeFunction::ClassForName),
        (("java/lang/System"@, "registerNatives"@, "()V"@), NativeFunction::SystemRegisterNatives),
        (("java/lang/System"@, "initProperties"@, "(Ljava/util/Properties;)Ljava/util/Properties;"@), NativeFunction::SystemInitProperties),
        (("java/lang/System"@, "arraycopy"@, "(Ljava/lang/Object;ILjava/lang/Object;II)V"@), NativeFunction::SystemArraycopy),
        (("java/lang/Thread"@, "registerNatives"@, "()V"@), NativeFunction::ThreadRegisterNatives),
        (("java/lang/Thread"@, "currentThread"@, "()Ljava/lang/Thread;"@), NativeFunction::ThreadCurrentThread),
        (("java/lang/Thread"@, "setPriority0"@, "(I)V"@), NativeFunction::ThreadSetPriority),
        (("java/lang/Thread"@, "isAlive"@, "()Z"@), NativeFunction::ThreadIsAlive),
        (("java/lang/Throwable"@, "fillInStackTrace"@, "(I)Ljava/lang/Throwable;"@), NativeFunction::ThrowableFillInStackTrace),
        (("java/lang/Float"@, "floatToRawIntBits"@, "(F)I"@), NativeFunction::FloatToRawIntBits),
        (("java/lang/Double"@, "doubleToRawLongBits"@, "(D)J"@), NativeFunction::DoubleToRawLongBits),
        (("java/security/AccessController"@, "doPrivileged"@, "(Ljava/security/PrivilegedExceptionAction;)Ljava/lang/Object;"@), NativeFunction::DoPrivileged),
        (("java/security/AccessController"@, "doPrivileged"@, "(Ljava/security/PrivilegedAction;)Ljava/lang/Object;"@), NativeFunction::DoPrivilegedAction),
        (("java/security/AccessController"@, "getStackAccessControlContext"@, "()Ljava/security/AccessControlContext;"@), NativeFunction::GetStackAccessControlContext),
        (("sun/misc/Unsafe"@, "registerNatives"@, "()V"@), NativeFunction::UnsafeRegisterNatives),
        (("sun/misc/Unsafe"@, "arrayBaseOffset"@, "(Ljava/lang/Class;)I"@), NativeFunction::UnsafeArrayBaseOffset),
        (("sun/misc/Unsafe"@, "arrayIndexScale"@, "(Ljava/lang/Class;)I"@), NativeFunction::UnsafeArrayIndexScale),
        (("sun/misc/Unsafe"@, "addressSize"@, "()I"@), NativeFunction::UnsafeAddressSize),
        (("sun/misc/VM"@, "initialize"@, "()V"@), NativeFunction::VmInitialize),
        (("sun/reflect/Reflection"@, "getCallerClass"@, "()Ljava/lang/Class;"@), NativeFunction::ReflectionGetCallerClass),
        (("java/io/FileOutputStream"@, "initIDs"@, "()V"@), NativeFunction::FileOutputStreamInitIds),
    ]
}

/// A built-in native method as plain values.
pub open spec fn registration_model(n: NativeRegistration) -> (IdModel, NativeFunction) {
    ((n.class_name@, n.method_name@, n.descriptor@), n.function)
}

/// The function that registering the entries `es` in order leaves for
/// `id`: the last one registered for it.
pub open spec fn last_registered(es: Seq<(IdModel, NativeFunction)>, id: IdModel) -> Option<NativeFunction>
    decreases es.len(),
{
    if es.len() == 0 {
        None
    } else if es.last().0 == id {
        Some(es.last().1)
    } else {
        last_registered(es.drop_last(), id)
    }
}

/// The native methods that the virtual machine implements.
fn builtin_natives() -> (r: Vec<NativeRegistration>)
    ensures
        r@.map_values(|n: NativeRegistration| registration_model(n)) == builtin_table(),
{
    let mut v: Vec<NativeRegistration> = Vec::new();
    v.push(reg("java/lang/Object", "registerNatives", "()V", NativeFunction::ObjectRegisterNatives));
    v.push(reg("java/lang/Object", "hashCode", "()I", NativeFunction::ObjectHashCode));
    v.push(reg("java/lang/Class", "registerNatives", "()V", NativeFunction::ClassRegisterNatives));
    v.push(
        reg(
            "java/lang/Class",
            "getPrimitiveClass",
            "(Ljava/lang/String;)Ljava/lang/Class;",
            NativeFunction::ClassGetPrimitiveClass,
        ),
    );
    v.push(
        reg(
            "java/lang/Class",
            "desiredAssertionStatus0",
            "(Ljava/lang/Class;)Z",
            NativeFunction::ClassDesiredAssertionStatus,
        ),
    );
    v.push(reg("java/lang/Class", "getName0", "()Ljava/lang/String;", NativeFunction::ClassGetName));
    v.push(
        reg(
            "java/lang/Class",
            "forName0",
            "(Ljava/lang/String;ZLjava/lang/ClassLoader;Ljava/lang/Class;)Ljava/lang/Class;",
            NativeFunction::ClassForName,
        ),
    );
    v.push(reg("java/lang/System", "registerNatives", "()V", NativeFunction::SystemRegisterNatives));
    v.push(
        reg(
            "java/lang/System",
            "initProperties",
            "(Ljava/util/Properties;)Ljava/util/Properties;",
            NativeFunction::SystemInitProperties,
        ),
    );
    v.push(
        reg(
            "java/lang/System",
            "arraycopy",
            "(Ljava/lang/Object;ILjava/lang/Object;II)V",
            NativeFunction::SystemArraycopy,
        ),
    );
    v.push(reg("java/lang/Thread", "registerNatives", "()V", NativeFunction::ThreadRegisterNatives));
    v.push(
        reg(
            "java/lang/Thread",
            "currentThread",
            "()Ljava/lang/Thread;",
            NativeFunction::ThreadCurrentThread,
        ),
    );
    v.push(reg("java/lang/Thread", "setPriority0", "(I)V", NativeFunction::ThreadSetPriority));
    v.push(reg("java/lang/Thread", "isAlive", "()Z", NativeFunction::ThreadIsAlive));
    v.push(
        reg(
            "java/lang/Throwable",
            "fillInStackTrace",
            "(I)Ljava/lang/Throwable;",
            NativeFunction::ThrowableFillInStackTrace,
        ),
    );
    v.push(reg("java/lang/Float", "floatToRawIntBits", "(F)I", NativeFunction::FloatToRawIntBits));
    v.push(
        reg("java/lang/Double", "doubleToRawLongBits", "(D)J", NativeFunction::DoubleToRawLongBits),
    );
    v.push(
        reg(
            "java/security/AccessController",
            "doPrivileged",
            "(Ljava/security/PrivilegedExceptionAction;)Ljava/lang/Object;",
            NativeFunction::DoPrivileged,
        ),
    );
    v.push(
        reg(
            "java/security/AccessController",
            "doPrivileged",
            "(Ljava/security/PrivilegedAction;)Ljava/lang/Object;",
            NativeFunction::DoPrivilegedAction,
        ),
    );
    v.push(
        reg(
            "java/security/AccessController",
            "getStackAccessControlContext",
            "()Ljava/security/AccessControlContext;",
            NativeFunction::GetStackAccessControlContext,
        ),
    );
    v.push(reg("sun/misc/Unsafe", "registerNatives", "()V", NativeFunction::UnsafeRegisterNatives));
    v.push(
        reg(
            "sun/misc/Unsafe",
            "arrayBaseOffset",
            "(Ljava/lang/Class;)I",
            NativeFunction::UnsafeArrayBaseOffset,
        ),
    );
    v.push(
        reg(
            "sun/misc/Unsafe",
            "arrayIndexScale",
            "(Ljava/lang/Class;)I",
            NativeFunction::UnsafeArrayIndexScale,
        ),
    );
    v.push(reg("sun/misc/Unsafe", "addressSize", "()I", NativeFunction::UnsafeAddressSize));
    v.push(reg("sun/misc/VM", "initialize", "()V", NativeFunction::VmInitialize));
    v.push(
        reg(
            "sun/reflect/Reflection",
            "getCallerClass",
            "()Ljava/lang/Class;",
            NativeFunction::ReflectionGetCallerClass,
        ),
    );
    v.push(reg("java/io/FileOutputStream", "initIDs", "()V", NativeFunction::FileOutputStreamInitIds));
    proof {
        assert(v@.map_values(|n: NativeRegistration| registration_model(n)) =~= builtin_table());
    }
    v
}

fn reg(
    class_name: &'static str,
    method_name: &'static str,
    descriptor: &'static str,
    function: NativeFunction,
) -> (r: NativeRegistration)
    ensures
        r.class_name == class_name,
        r.method_name == method_name,
        r.descriptor == descriptor,
        r.function == function,
{
    NativeRegistration { class_name, method_name, descriptor, function }
}

/// What native function `f` does, called with context `ctx` and arguments
/// `args` on `a`, leaving `b` and giving `r`, as far as its own contract
/// says.
pub open spec fn native_done<F>(
    f: NativeFunction,
    ctx: NativeContext,
    a: VM<F>,
    b: VM<F>,
    args: Seq<Value>,
    r: Result<Option<Value>, RuntimeError>,
) -> bool {
    match f {
        NativeFunction::ObjectRegisterNatives | NativeFunction::ClassRegisterNatives
        | NativeFunction::SystemRegisterNatives | NativeFunction::ThreadRegisterNatives
        | NativeFunction::UnsafeRegisterNatives | NativeFunction::VmInitialize
        | NativeFunction::FileOutputStreamInitIds => r == Ok::<Option<Value>, RuntimeError>(None)
            && b == a,
        NativeFunction::ClassDesiredAssertionStatus => r == Ok::<Option<Value>, RuntimeError>(
            Some(Value::Int(0)),
        ) && b == a,
        NativeFunction::GetStackAccessControlContext => r == Ok::<Option<Value>, RuntimeError>(
            Some(Value::Reference(None)),
        ) && b == a,
        NativeFunction::UnsafeAddressSize => r == Ok::<Option<Value>, RuntimeError>(
            Some(Value::Int((usize::BITS / 8) as i32)),
        ) && b == a,
        NativeFunction::FloatToRawIntBits => b == a && if args.len() > 0 && args[0] is Float {
            r == Ok::<Option<Value>, RuntimeError>(Some(Value::Int(args[0]->Float_0 as i32)))
        } else {
            r is Err
        },
        NativeFunction::DoubleToRawLongBits => b == a && if args.len() > 0 && args[0] is Double {
            r == Ok::<Option<Value>, RuntimeError>(Some(Value::Long(args[0]->Double_0 as i64)))
        } else {
            r is Err
        },
        NativeFunction::UnsafeArrayIndexScale => b == a && match sun::misc::unzafe::class_arg_name(a, args) {
            Some(n) => match sun::misc::unzafe::index_scale(n) {
                Some(k) => r == Ok::<Option<Value>, RuntimeError>(Some(Value::Int(k))),
                None => r is Err,
            },
            None => r is Err,
        },
        NativeFunction::UnsafeArrayBaseOffset => (r is Ok ==> r == Ok::<Option<Value>, RuntimeError>(
            Some(Value::Int(sun::misc::unzafe::ARRAY_BASE_OFFSET)),
        )) && match sun::misc::unzafe::class_arg_name(a, args) {
            Some(n) => r is Ok <==> n.len() > 0 && n[0] == '[',
            None => r is Err,
        },
        NativeFunction::ThreadIsAlive => match java::lang::thread::alive_value(a, args) {
            Some(k) => r == Ok::<Option<Value>, RuntimeError>(Some(Value::Int(k))),
            None => true,
        },
        NativeFunction::SystemArraycopy => (r is Ok ==> r == Ok::<Option<Value>, RuntimeError>(None))
            && (r is Ok && args.len() == 5 && args[4] is Int && args[4]->Int_0 > 0
            ==> java::lang::system::copy_done(a.heap@, b.heap@, args)) && (
        java::lang::system::copy_args(args) && java::lang::system::copy_in_bounds(a.heap@, args) && (
        args[4]->Int_0 == 0 || java::lang::system::copy_primitive(a.heap@, args)) ==> r is Ok),
        NativeFunction::ObjectHashCode => args.len() > 0 ==> (args[0] matches Value::Reference(Some(o))
            ==> match heap_object(a.heap@, o) {
            Some(obj) => r == Ok::<Option<Value>, RuntimeError>(Some(Value::Int(obj.hash_code))),
            None => r is Err,
        }),
        NativeFunction::ClassGetName => (r is Ok <==> java::lang::class::class_object_name(a, args)
            is Some) && (r is Ok ==> r->Ok_0 == Some(
            Value::Reference(Some(ObjectRef(a.heap@.len() as usize))),
        ) && b.heap@ == a.heap@.push(
            EntryModel::Str(java::lang::class::class_object_name(a, args)->Some_0),
        )),
        NativeFunction::ClassForName => r matches Ok(v) ==> v matches Some(Value::Reference(Some(_))),
        NativeFunction::SystemInitProperties => r is Ok ==> args.len() > 0 && r
            == Ok::<Option<Value>, RuntimeError>(Some(args[0])),
        NativeFunction::DoPrivileged | NativeFunction::DoPrivilegedAction => r matches Ok(v) ==> v is Some,
        NativeFunction::ThreadSetPriority => r is Ok ==> r == Ok::<Option<Value>, RuntimeError>(None)
            && args.len() > 1 && args[1] is Int && ({
            let t = crate::vm::vm::owner_of(
                a.thread_objects@,
                args[0]->Reference_0->Some_0,
                a.thread_objects@.len(),
            )->Some_0;
            &&& t.0 < b.threads@.len()
            &&& b.threads@[t.0 as int].priority == (args[1]->Int_0 as usize)
        }),
        NativeFunction::ClassGetPrimitiveClass => match java::lang::class::primitive_arg(a, args) {
            Some(c) => r is Ok ==> lookup(b.class_objects@, c) is Some && r->Ok_0 == Some(
                Value::Reference(lookup(b.class_objects@, c)),
            ),
            None => true,
        },
        NativeFunction::ThrowableFillInStackTrace => r is Ok ==> r == Ok::<Option<Value>, RuntimeError>(
            Some(args[0]),
        ) && args[0] is Reference && args[0]->Reference_0 is Some && java::lang::throwable::has_trace(
            b.heap@,
            args[0]->Reference_0->Some_0,
            java::lang::throwable::traced(
                b.classes@,
                java::lang::throwable::frame_pairs(a, ctx.thread),
            ).len(),
        ),
        NativeFunction::ThreadCurrentThread => r is Ok ==> r->Ok_0 is Some && r->Ok_0->Some_0
            is Reference && r->Ok_0->Some_0->Reference_0 is Some && lookup(
            b.thread_objects@,
            ctx.thread,
        ) == r->Ok_0->Some_0->Reference_0,
        NativeFunction::ReflectionGetCallerClass => ctx.thread.0 < a.threads@.len() ==> ({
            let fs = frames_of(a, ctx.thread);
            &&& fs.len() < 2 ==> r == Ok::<Option<Value>, RuntimeError>(Some(Value::Reference(None)))
            &&& fs.len() >= 2 && r is Ok ==> lookup(b.class_objects@, fs[fs.len() - 2].class) is Some
                && r->Ok_0 == Some(Value::Reference(lookup(b.class_objects@, fs[fs.len() - 2].class)))
        }),
    }
}

/// Runs native method `f` with arguments `args`.
pub fn invoke_native<F: FloatArithmetic>(
    f: NativeFunction,
    ctx: &NativeContext,
    vm: &mut VM<F>,
    args: &[Value],
) -> (r: Result<Option<Value>, RuntimeError>)
    requires
        old(vm).wf(),
    ensures
        moved_on(*old(vm), *final(vm), None),
        native_done(f, *ctx, *old(vm), *final(vm), args@, r),
    decreases ctx.depth, 7nat,
{
    match f {
        NativeFunction::ObjectRegisterNatives => java::lang::object::register_natives(ctx, vm, args),
        NativeFunction::ObjectHashCode => java::lang::object::hash_code(ctx, vm, args),
        NativeFunction::ClassRegisterNatives => java::lang::class::register_natives(ctx, vm, args),
        NativeFunction::ClassGetPrimitiveClass => java::lang::class::get_primitive_class(ctx, vm, args),
        NativeFunction::ClassDesiredAssertionStatus => java::lang::class::desired_assertion_status(
            ctx,
            vm,
            args,
        ),
        NativeFunction::ClassGetName => java::lang::class::get_name(ctx, vm, args),
        NativeFunction::ClassForName => java::lang::class::for_name0(ctx, vm, args),
        NativeFunction::SystemRegisterNatives => java::lang::system::register_natives(ctx, vm, args),
        NativeFunction::SystemInitProperties => java::lang::system::init_properties(ctx, vm, args),
        NativeFunction::SystemArraycopy => java::lang::system::arraycopy(ctx, vm, args),
        NativeFunction::ThreadRegisterNatives => java::lang::thread::register_natives(ctx, vm, args),
        NativeFunction::ThreadCurrentThread => java::lang::thread::current_thread(ctx, vm, args),
        NativeFunction::ThreadSetPriority => java::lang::thread::set_priority0(ctx, vm, args),
        NativeFunction::ThreadIsAlive => java::lang::thread::is_alive(ctx, vm, args),
        NativeFunction::ThrowableFillInStackTrace => java::lang::throwable::fill_in_stack_trace(
            ctx,
            vm,
            args,
        ),
        NativeFunction::FloatToRawIntBits => java::lang::float::float_to_raw_int_bits(ctx, vm, args),
        NativeFunction::DoubleToRawLongBits => java::lang::double::double_to_raw_long_bits(
            ctx,
            vm,
            args,
        ),
        NativeFunction::DoPrivileged => java::security::access_controller::do_priviledged(
            ctx,
            vm,
            args,
        ),
        NativeFunction::DoPrivilegedAction => java::security::access_controller::do_privileged_action(
            ctx,
            vm,
            args,
        ),
        NativeFunction::GetStackAccessControlContext =>
            java::security::access_controller::get_stack_access_control_context(ctx, vm, args),
        NativeFunction::UnsafeRegisterNatives => sun::misc::unzafe::register_natives(ctx, vm, args),
        NativeFunction::UnsafeArrayBaseOffset => sun::misc::unzafe::array_base_offset(ctx, vm, args),
        NativeFunction::UnsafeArrayIndexScale => sun::misc::unzafe::array_index_scale(ctx, vm, args),
        NativeFunction::UnsafeAddressSize => sun::misc::unzafe::address_size(ctx, vm, args),
        NativeFunction::VmInitialize => sun::misc::vm::initialize(ctx, vm, args),
        NativeFunction::ReflectionGetCallerClass => sun::reflect::reflection::get_caller_class(
            ctx,
            vm,
            args,
        ),
        NativeFunction::FileOutputStreamInitIds => java::io::file_output_stream::init_ids(
            ctx,
            vm,
            args,
        ),
    }
}

/// The native function that runs for the current frame of thread `t` of
/// `vm`: the one registered for its method, where there is one.
pub open spec fn native_of<F>(vm: VM<F>, t: ThreadRef) -> Option<NativeFunction> {
    match native_target(vm, t) {
        Some(id) => last_registered(builtin_table(), id),
        None => None,
    }
}

/// The arguments that the native method of the current frame of thread `t`
/// of `vm` gets: the frame's first locals, as many as its parameters (and
/// receiver, but for a static method) take.
pub open spec fn native_args<F>(vm: VM<F>, t: ThreadRef) -> Seq<Value> {
    let f = frames_of(vm, t).last();
    let m = vm.classes@[f.class.0 as int].methods@[f.method_index as int];
    let n = slots_of(spec_param_kinds(m.descriptor@)->Some_0) + if m.access.bits & 0x0008 == 0x0008 {
        0nat
    } else {
        1nat
    };
    f.locals@.take(n as int)
}

/// Whether the result `res` of a native call was handed on, from the frames
/// `fs` of its thread to `gs`, as `out` says: as the thread's result where
/// the native frame was the only one, else pushed on the caller's operand
/// stack (nothing for `void`).
pub open spec fn native_handed(fs: Seq<Frame>, gs: Seq<Frame>, out: StepOutcome, res: Option<Value>) -> bool {
    match out {
        StepOutcome::Return(v) => fs.len() == 1 && gs.len() == 0 && v == match res {
            Some(x) => x,
            None => Value::Empty,
        },
        StepOutcome::Continue => {
            let n = fs.len();
            &&& n >= 2
            &&& gs.len() == n - 1
            &&& gs.drop_last() == fs.take(n - 2)
            &&& frame_now(
                fs[n - 2],
                gs.last(),
                match res {
                    Some(x) => stack_push(fs[n - 2].operand_stack@, x),
                    None => fs[n - 2].operand_stack@,
                },
            )
        },
    }
}

/// The class, name and descriptor of the method that the current frame of
/// thread `t` of `vm` runs, where that frame and method exist and the
/// method's descriptor is sound.
pub open spec fn native_target<F>(vm: VM<F>, t: ThreadRef) -> Option<IdModel> {
    if t.0 < vm.threads@.len() && frames_of(vm, t).len() > 0 {
        let f = frames_of(vm, t).last();
        if f.class.0 < vm.classes@.len() && f.method_index < vm.classes@[f.class.0 as int].methods@.len() {
            let c = vm.classes@[f.class.0 as int];
            let m = c.methods@[f.method_index as int];
            match spec_param_kinds(m.descriptor@) {
                Some(ks) => if slots_of(ks) < usize::MAX {
                    Some((c.name@, m.name@, m.descriptor@))
                } else {
                    None
                },
                None => None,
            }
        } else {
            None
        }
    } else {
        None
    }
}

/// Runs the native method of the current frame of thread `thread_ref`:
/// looks it up by class, name and descriptor (an unknown one throws
/// `UnsatisfiedLinkError`), calls it with the frame's argument slots,
/// removes the frame, and hands the result to the caller's frame (or, with
/// no caller, as the thread's result).
pub fn call_native<F: FloatArithmetic>(vm: &mut VM<F>, thread_ref: ThreadRef, depth: usize) -> (r: Result<
    StepOutcome,
    RuntimeError,
>)
    requires
        old(vm).wf(),
    ensures
        moved_on(*old(vm), *final(vm), Some(thread_ref)),
        r matches Ok(StepOutcome::Return(_)) ==> frames_of(*final(vm), thread_ref).len() == 0,
        r matches Ok(StepOutcome::Continue) ==> frames_of(*final(vm), thread_ref).len() + 1 == frames_of(
            *old(vm),
            thread_ref,
        ).len(),
        r is Ok ==> (native_target(*old(vm), thread_ref) matches Some(id) && last_registered(
            builtin_table(),
            id,
        ) is Some),
        native_target(*old(vm), thread_ref) matches Some(id) ==> (last_registered(builtin_table(), id)
            is None ==> r is Err && thrown_new(
            *old(vm),
            *final(vm),
            "java/lang/UnsatisfiedLinkError"@,
            Some(id.0 + "."@ + id.1 + id.2),
            r->Err_0,
        )),
        r matches Ok(out) ==> exists|b: VM<F>, res: Option<Value>|
            #[trigger] native_done(
                native_of(*old(vm), thread_ref)->Some_0,
                NativeContext { thread: thread_ref, depth: depth },
                *old(vm),
                b,
                native_args(*old(vm), thread_ref),
                Ok::<Option<Value>, RuntimeError>(res),
            ) && native_handed(frames_of(*old(vm), thread_ref), frames_of(*final(vm), thread_ref), out, res),
    decreases depth, 8nat,
{
    let ghost start = *vm;
    let (class_ref, method_index) = {
        let thread = vm.get_thread(thread_ref)?;
        match thread.current_frame() {
            Some(f) => (f.class, f.method_index),
            None => {
                return Err(
                    RuntimeError::Internal(InternalError::NoCurrentFrame { thread_id: thread_ref.0 }),
                );
            },
        }
    };
    let (method_name, descriptor, receiver_slots) = {
        let method = vm.get_method(class_ref, method_index)?;
        let slots = crate::vm::runtime_method::RuntimeMethod::param_slot_count_from_descriptor(
            method.descriptor.as_str(),
        )?;
        if slots == usize::MAX {
            return Err(RuntimeError::Internal(InternalError::InvalidDescriptor));
        }
        let receiver = method.param_slot_count_with_receiver();
        (method.name.clone(), method.descriptor.clone(), receiver)
    };
    let class_name = vm.get_class(class_ref)?.name.clone();
    let id = NativeMethodIdentifier::new(class_name, method_name, descriptor);
    let registry = NativeMethodRegistry::from_inventory();
    let native = match registry.get(&id) {
        Some(f) => f,
        None => {
            let mut message = id.class_name.clone();
            push_str(&mut message, ".");
            push_str(&mut message, id.method_name.as_str());
            push_str(&mut message, id.descriptor.as_str());
            let e = vm.throw_within("java/lang/UnsatisfiedLinkError", Some(message.as_str()), depth);
            return Err(e);
        },
    };
    let args = {
        let thread = vm.get_thread(thread_ref)?;
        let frame = match thread.current_frame() {
            Some(f) => f,
            None => {
                return Err(
                    RuntimeError::Internal(InternalError::NoCurrentFrame { thread_id: thread_ref.0 }),
                );
            },
        };
        if receiver_slots > frame.locals.len() {
            return Err(
                RuntimeError::Internal(
                    InternalError::InvalidMethodLocals {
                        method: id.method_name.clone(),
                        expected: receiver_slots,
                        actual: frame.locals.len(),
                    },
                ),
            );
        }
        let mut args: Vec<Value> = Vec::with_capacity(receiver_slots);
        let mut k: usize = 0;
        while k < receiver_slots
            invariant
                k <= receiver_slots <= frame.locals@.len(),
                args@ == frame.locals@.take(k as int),
            decreases receiver_slots - k,
        {
            args.push(frame.locals[k]);
            proof {
                assert(frame.locals@.take(k + 1) =~= frame.locals@.take(k as int).push(frame.locals@[k as int]));
            }
            k = k + 1;
        }
        args
    };
    let ctx = NativeContext::new(thread_ref, depth);
    let result = invoke_native(native, &ctx, vm, args.as_slice());
    let ghost ran = *vm;
    let result = result?;
    proof {
        assert(native_done(
            native_of(start, thread_ref)->Some_0,
            NativeContext { thread: thread_ref, depth: depth },
            start,
            ran,
            native_args(start, thread_ref),
            Ok::<Option<Value>, RuntimeError>(result),
        ));
        assert(frames_of(ran, thread_ref) == frames_of(start, thread_ref));
    }
    if thread_ref.0 >= vm.threads.len() {
        return Err(RuntimeError::Internal(InternalError::ThreadNotFound { thread_id: thread_ref.0 }));
    }
    let _ = vm.take_frame(thread_ref);
    let ghost popped = *vm;
    proof {
        lemma_frames_progress(ran, popped, thread_ref);
        lemma_moved_trans(start, ran, popped, Some(thread_ref));
    }
    match vm.take_frame(thread_ref) {
        Some(mut caller) => {
            match result {
                Some(value) => caller.push_value(value),
                None => {},
            }
            let ghost taken = *vm;
            vm.put_frame(thread_ref, caller);
            proof {
                lemma_frames_progress(popped, taken, thread_ref);
                lemma_frames_progress(taken, *vm, thread_ref);
                lemma_moved_trans(popped, taken, *vm, Some(thread_ref));
                lemma_moved_trans(start, popped, *vm, Some(thread_ref));
                let fs = frames_of(start, thread_ref);
                assert(frames_of(taken, thread_ref) =~= fs.take(fs.len() - 2));
                assert(frames_of(*vm, thread_ref).drop_last() =~= fs.take(fs.len() - 2));
                assert(native_handed(fs, frames_of(*vm, thread_ref), StepOutcome::Continue, result));
            }
            Ok(StepOutcome::Continue)
        },
        None => Ok(
            StepOutcome::Return(
                match result {
                    Some(v) => v,
                    None => Value::Empty,
                },
            ),
        ),
    }
}

} // verus!
