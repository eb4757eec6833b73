use vstd::prelude::*;

use crate::error::{InternalError, RuntimeError};
use crate::text::owned;
use crate::vm::float::FloatArithmetic;
use crate::vm::interpreter::{exception_ready, moved_on, object_defaults, opt_view, thrown_new};
use crate::vm::heap::heap_object;
use crate::vm::heap::entries_kept;
use crate::vm::thread::ThreadRef;
use crate::vm::value::{Value, kind_text};
use crate::vm::classpath::{class_file_name, first_file, search_order};
use crate::vm::runtime_class::ClassRef;
use crate::vm::vm::{VM, chain_fits, is_class_not_found, lookup, total_slots};

verus! {

/// What a native method knows of its call: the thread it runs on, and how
/// deep it may still run Java code.
pub struct NativeContext {
    pub thread: ThreadRef,
    pub depth: usize,
}

impl NativeContext {
    pub fn new(thread: ThreadRef, depth: usize) -> (r: Self)
        ensures
            r.thread == thread,
            r.depth == depth,
    {
        Self { thread, depth }
    }

    /// The thread the native method runs on.
    pub fn thread(&self) -> (r: ThreadRef)
        ensures
            r == self.thread,
    {
        self.thread
    }

    /// Throws an exception of class `class` with detail message `message`.
    pub fn throw<F: FloatArithmetic>(&self, vm: &mut VM<F>, class: &str, message: Option<&str>) -> (r:
        RuntimeError)
        requires
            old(vm).wf(),
        ensures
            moved_on(*old(vm), *final(vm), None),
            thrown_new(*old(vm), *final(vm), class@, opt_view(message), r),
            old(vm).class_named(class@) matches Some(k) ==> (lookup(
                old(vm).static_storage@,
                ClassRef(k as usize),
            ) is Some && chain_fits(
                old(vm).classes@,
                ClassRef(k as usize),
                total_slots(old(vm).classes@[k as int]),
                old(vm).classes@.len(),
            ) ==> r is Thrown),
            old(vm).class_named(class@) is None && first_file(
                search_order(old(vm).classpath),
                class_file_name(class@),
            ) is None ==> is_class_not_found(r),
            exception_ready(*old(vm), class@) ==> entries_kept(old(vm).heap@, final(vm).heap@),
            message is None ==> (r matches RuntimeError::Thrown(o) ==> heap_object(final(vm).heap@, o)->Some_0.fields
                == object_defaults(final(vm).classes@, heap_object(final(vm).heap@, o)->Some_0.class)),
        decreases self.depth, 4nat,
    {
        vm.throw_within(class, message, self.depth)
    }
}

/// A name for the kind of a value, for error messages.
fn kind_of(v: Option<Value>) -> (r: &'static str)
    ensures
        r@ == kind_text(v),
{
    match v {
        None => "nothing",
        Some(Value::Int(_)) => "Int",
        Some(Value::Long(_)) => "Long",
        Some(Value::Float(_)) => "Float",
        Some(Value::Double(_)) => "Double",
        Some(Value::Reference(_)) => "Reference",
        Some(Value::ReturnAddress(_)) => "ReturnAddress",
        Some(Value::Empty) => "Empty",
    }
}

/// Whether `r` reports a value of the wrong kind.
pub open spec fn is_type_error(r: RuntimeError) -> bool {
    r matches RuntimeError::Internal(InternalError::InvalidType { .. })
}

/// The error for an argument of the wrong kind given to native method
/// `class.method`.
pub fn bad_argument(class: &str, method: &str, expected: &str, found: Option<Value>) -> (r:
    RuntimeError)
    ensures
        is_type_error(r),
{
    RuntimeError::Internal(
        InternalError::InvalidType {
            class: owned(class),
            method: owned(method),
            pc: 0xDEADBEEF,
            expected: owned(expected),
            found: owned(kind_of(found)),
        },
    )
}

/// Argument `i` of `args`, where there is one.
pub fn arg(args: &[Value], i: usize) -> (r: Option<Value>)
    ensures
        i < args@.len() ==> r == Some(args@[i as int]),
        i >= args@.len() ==> r is None,
{
    if i < args.len() {
        Some(args[i])
    } else {
        None
    }
}

} // verus!
