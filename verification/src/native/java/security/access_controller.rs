use vstd::prelude::*;

use crate::error::RuntimeError;
use crate::native::native_context::{NativeContext, arg, bad_argument, is_type_error};
use crate::vm::float::FloatArithmetic;
use crate::vm::interpreter::{called_virtual, lemma_moved_trans, moved_on, virtual_owed};
use crate::vm::value::{ObjectRef, Value};
use crate::vm::vm::VM;

verus! {

/// The result of a native that hands on what a method call gave, as that
/// call's result: `Ok(Some(v))` stands for `Ok(v)`.
pub open spec fn handed_on(r: Result<Option<Value>, RuntimeError>) -> Result<Value, RuntimeError> {
    match r {
        Ok(Some(v)) => Ok(v),
        Ok(None) => Ok(Value::Reference(None)),
        Err(e) => Err(e),
    }
}

/// Runs `action.run()` to completion and gives its result; a `null`
/// action throws.
fn run_action<F: FloatArithmetic>(ctx: &NativeContext, vm: &mut VM<F>, args: &[Value]) -> (r:
    Result<Option<Value>, RuntimeError>)
    requires
        old(vm).wf(),
    ensures
        moved_on(*old(vm), *final(vm), None),
        args@.len() > 0 && args@[0] == Value::Reference(None) ==> r == Err::<Option<Value>, RuntimeError>(
            RuntimeError::Thrown(ObjectRef(0)),
        ),
        (args@.len() == 0 || !(args@[0] is Reference)) ==> r is Err && is_type_error(r->Err_0),
        r matches Ok(v) ==> v is Some,
        args@.len() > 0 ==> (args@[0] matches Value::Reference(Some(action)) ==> (r matches Ok(Some(v))
            ==> called_virtual(
            *old(vm),
            *final(vm),
            action,
            "run"@,
            "()Ljava/lang/Object;"@,
            Seq::empty(),
            Ok::<Value, RuntimeError>(v),
        ))),
        args@.len() > 0 ==> (args@[0] matches Value::Reference(Some(action)) ==> (ctx.depth > 0 && virtual_owed(
            *old(vm),
            action,
            "run"@,
            "()Ljava/lang/Object;"@,
            Seq::empty(),
        ) ==> called_virtual(
            *old(vm),
            *final(vm),
            action,
            "run"@,
            "()Ljava/lang/Object;"@,
            Seq::empty(),
            handed_on(r),
        ))),
    decreases ctx.depth, 5nat,
{
    let action = match arg(args, 0) {
        Some(Value::Reference(Some(r))) => r,
        Some(Value::Reference(None)) => {
            let _ = ctx.throw(vm, "java/lang/NullPointerException", None);
            return Err(RuntimeError::Thrown(ObjectRef(0)));
        },
        other => {
            return Err(bad_argument("java/security/AccessController", "doPrivileged", "Reference", other));
        },
    };
    let result = vm.invoke_virtual_to_completion_within(
        action,
        "run",
        "()Ljava/lang/Object;",
        Vec::new(),
        ctx.depth,
    );
    match result {
        Ok(v) => Ok(Some(v)),
        Err(e) => Err(e),
    }
}

/// `AccessController.doPrivileged(PrivilegedExceptionAction)`: runs the
/// action's `run()` and gives its result.
pub fn do_priviledged<F: FloatArithmetic>(ctx: &NativeContext, vm: &mut VM<F>, args: &[Value]) -> (r:
    Result<Option<Value>, RuntimeError>)
    requires
        old(vm).wf(),
    ensures
        moved_on(*old(vm), *final(vm), None),
        args@.len() > 0 && args@[0] == Value::Reference(None) ==> r == Err::<Option<Value>, RuntimeError>(
            RuntimeError::Thrown(ObjectRef(0)),
        ),
        (args@.len() == 0 || !(args@[0] is Reference)) ==> r is Err && is_type_error(r->Err_0),
        r matches Ok(v) ==> v is Some,
        args@.len() > 0 ==> (args@[0] matches Value::Reference(Some(action)) ==> (r matches Ok(Some(v))
            ==> called_virtual(
            *old(vm),
            *final(vm),
            action,
            "run"@,
            "()Ljava/lang/Object;"@,
            Seq::empty(),
            Ok::<Value, RuntimeError>(v),
        ))),
        args@.len() > 0 ==> (args@[0] matches Value::Reference(Some(action)) ==> (ctx.depth > 0 && virtual_owed(
            *old(vm),
            action,
            "run"@,
            "()Ljava/lang/Object;"@,
            Seq::empty(),
        ) ==> called_virtual(
            *old(vm),
            *final(vm),
            action,
            "run"@,
            "()Ljava/lang/Object;"@,
            Seq::empty(),
            handed_on(r),
        ))),
    decreases ctx.depth, 6nat,
{
    run_action(ctx, vm, args)
}

/// `AccessController.doPrivileged(PrivilegedAction)`: runs the action's
/// `run()` and gives its result.
pub fn do_privileged_action<F: FloatArithmetic>(ctx: &NativeContext, vm: &mut VM<F>, args: &[Value]) -> (r:
    Result<Option<Value>, RuntimeError>)
    requires
        old(vm).wf(),
    ensures
        moved_on(*old(vm), *final(vm), None),
        args@.len() > 0 && args@[0] == Value::Reference(None) ==> r == Err::<Option<Value>, RuntimeError>(
            RuntimeError::Thrown(ObjectRef(0)),
        ),
        (args@.len() == 0 || !(args@[0] is Reference)) ==> r is Err && is_type_error(r->Err_0),
        r matches Ok(v) ==> v is Some,
        args@.len() > 0 ==> (args@[0] matches Value::Reference(Some(action)) ==> (r matches Ok(Some(v))
            ==> called_virtual(
            *old(vm),
            *final(vm),
            action,
            "run"@,
            "()Ljava/lang/Object;"@,
            Seq::empty(),
            Ok::<Value, RuntimeError>(v),
        ))),
        args@.len() > 0 ==> (args@[0] matches Value::Reference(Some(action)) ==> (ctx.depth > 0 && virtual_owed(
            *old(vm),
            action,
            "run"@,
            "()Ljava/lang/Object;"@,
            Seq::empty(),
        ) ==> called_virtual(
            *old(vm),
            *final(vm),
            action,
            "run"@,
            "()Ljava/lang/Object;"@,
            Seq::empty(),
            handed_on(r),
        ))),
    decreases ctx.depth, 6nat,
{
    run_action(ctx, vm, args)
}

/// `AccessController.getStackAccessControlContext()`: `null`.
pub fn get_stack_access_control_context<F>(_ctx: &NativeContext, vm: &mut VM<F>, _args: &[Value]) -> (r:
    Result<Option<Value>, RuntimeError>)
    ensures
        r == Ok::<Option<Value>, RuntimeError>(Some(Value::Reference(None))),
        *final(vm) == *old(vm),
{
    Ok(Some(Value::Reference(None)))
}

} // verus!
