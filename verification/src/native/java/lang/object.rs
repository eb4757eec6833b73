use vstd::prelude::*;

use crate::error::RuntimeError;
use crate::native::native_context::{NativeContext, arg, bad_argument, is_type_error};
use crate::vm::float::FloatArithmetic;
use crate::vm::heap::heap_object;
use crate::vm::interpreter::{moved_on, thrown_new};
use crate::vm::value::Value;
use crate::vm::vm::VM;

verus! {

/// `java.lang.Object.registerNatives()`: nothing to do.
pub fn register_natives<F>(_ctx: &NativeContext, vm: &mut VM<F>, _args: &[Value]) -> (r: Result<
    Option<Value>,
    RuntimeError,
>)
    ensures
        r == Ok::<Option<Value>, RuntimeError>(None),
        *final(vm) == *old(vm),
{
    Ok(None)
}

/// `java.lang.Object.hashCode()`: the identity hash code the object got
/// when it was made.
pub fn hash_code<F: FloatArithmetic>(ctx: &NativeContext, vm: &mut VM<F>, args: &[Value]) -> (r:
    Result<Option<Value>, RuntimeError>)
    requires
        old(vm).wf(),
    ensures
        moved_on(*old(vm), *final(vm), None),
        args@.len() > 0 ==> (args@[0] matches Value::Reference(Some(o)) ==> match heap_object(
            old(vm).heap@,
            o,
        ) {
            Some(obj) => r == Ok::<Option<Value>, RuntimeError>(Some(Value::Int(obj.hash_code))),
            None => r is Err,
        }),
        args@.len() > 0 && args@[0] == Value::Reference(None) ==> r is Err && thrown_new(
            *old(vm),
            *final(vm),
            "java/lang/NullPointerException"@,
            Some("Object.hashCode() called on null"@),
            r->Err_0,
        ),
        (args@.len() == 0 || !(args@[0] is Reference)) ==> r is Err && is_type_error(r->Err_0),
        r is Ok ==> *final(vm) == *old(vm),
    decreases ctx.depth, 6nat,
{
    let obj_ref = match arg(args, 0) {
        Some(Value::Reference(Some(r))) => r,
        Some(Value::Reference(None)) => {
            return Err(
                ctx.throw(vm, "java/lang/NullPointerException", Some("Object.hashCode() called on null")),
            );
        },
        other => {
            return Err(bad_argument("java.lang.Object", "hashCode", "Reference", other));
        },
    };
    let hash = vm.heap.get_object(obj_ref)?.hash_code;
    Ok(Some(Value::Int(hash)))
}

} // verus!
