use vstd::prelude::*;

use crate::error::RuntimeError;
use crate::native::native_context::{NativeContext, arg};
use crate::vm::float::FloatArithmetic;
use crate::vm::interpreter::{lemma_grew_progress, moved_on, thrown_new};
use crate::vm::thread::{ThreadRef, ThreadState};
use crate::vm::value::{ObjectRef, Value};
use crate::vm::vm::{VM, lookup, owner_of};

verus! {

/// `java.lang.Thread.registerNatives()`: nothing to do.
pub fn register_natives<F>(_ctx: &NativeContext, vm: &mut VM<F>, _args: &[Value]) -> (r: Result<
    Option<Value>,
    RuntimeError,
>)
    ensures
        r == Ok::<Option<Value>, RuntimeError>(None),
        *final(vm) == *old(vm),
{
    Ok(None)
}

/// `java.lang.Thread.currentThread()`: the `java.lang.Thread` object of
/// the thread running the native method, the same object each time.
pub fn current_thread<F>(ctx: &NativeContext, vm: &mut VM<F>, _args: &[Value]) -> (r: Result<
    Option<Value>,
    RuntimeError,
>)
    requires
        old(vm).wf(),
    ensures
        moved_on(*old(vm), *final(vm), None),
        r matches Ok(v) ==> v matches Some(Value::Reference(Some(o))) && lookup(
            final(vm).thread_objects@,
            ctx.thread,
        ) == Some(o),
        old(vm).thread_object_owed(ctx.thread) ==> r is Ok,
        ctx.thread.0 < old(vm).threads@.len() ==> (lookup(old(vm).thread_objects@, ctx.thread) matches Some(
            o,
        ) ==> r == Ok::<Option<Value>, RuntimeError>(Some(Value::Reference(Some(o))))),
{
    let ghost start = *vm;
    let obj_ref = vm.thread_object_for(ctx.thread());
    proof {
        lemma_grew_progress(start, *vm);
    }
    Ok(Some(Value::Reference(Some(obj_ref?))))
}

/// What `isAlive` gives for the thread whose `java.lang.Thread` object is
/// argument 0 of `args`: 0 for a terminated thread, 1 for another.
pub open spec fn alive_value<F>(vm: VM<F>, args: Seq<Value>) -> Option<i32> {
    if args.len() > 0 && args[0] is Reference && args[0]->Reference_0 is Some {
        match owner_of(vm.thread_objects@, args[0]->Reference_0->Some_0, vm.thread_objects@.len()) {
            Some(t) => if t.0 < vm.threads@.len() {
                if vm.threads@[t.0 as int].state == ThreadState::Terminated {
                    Some(0)
                } else {
                    Some(1)
                }
            } else {
                None
            },
            None => None,
        }
    } else {
        None
    }
}

/// The thread whose `java.lang.Thread` object is argument 0; `null` throws
/// `NullPointerException` and a value that is no reference throws
/// `InternalError`.
fn thread_of<F: FloatArithmetic>(ctx: &NativeContext, vm: &mut VM<F>, args: &[Value]) -> (r: Result<
    ThreadRef,
    RuntimeError,
>)
    requires
        old(vm).wf(),
    ensures
        moved_on(*old(vm), *final(vm), None),
        args@.len() > 0 ==> (args@[0] matches Value::Reference(Some(o)) ==> match owner_of(
            old(vm).thread_objects@,
            o,
            old(vm).thread_objects@.len(),
        ) {
            Some(t) => r == Ok::<ThreadRef, RuntimeError>(t),
            None => r is Err,
        }),
        r is Ok ==> *final(vm) == *old(vm),
        args@.len() > 0 && args@[0] == Value::Reference(None) ==> r is Err && thrown_new(
            *old(vm),
            *final(vm),
            "java/lang/NullPointerException"@,
            None,
            r->Err_0,
        ),
        (args@.len() == 0 || !(args@[0] is Reference)) ==> r is Err && thrown_new(
            *old(vm),
            *final(vm),
            "java/lang/InternalError"@,
            None,
            r->Err_0,
        ),
    decreases ctx.depth, 5nat,
{
    let obj_ref = match arg(args, 0) {
        Some(Value::Reference(Some(r))) => r,
        Some(Value::Reference(None)) => {
            return Err(ctx.throw(vm, "java/lang/NullPointerException", None));
        },
        _ => {
            return Err(ctx.throw(vm, "java/lang/InternalError", None));
        },
    };
    vm.thread_ref_from_object(obj_ref)
}

/// `java.lang.Thread.setPriority0(int)`: sets the priority of the thread.
pub fn set_priority0<F: FloatArithmetic>(ctx: &NativeContext, vm: &mut VM<F>, args: &[Value]) -> (r:
    Result<Option<Value>, RuntimeError>)
    requires
        old(vm).wf(),
    ensures
        moved_on(*old(vm), *final(vm), None),
        r is Ok ==> r == Ok::<Option<Value>, RuntimeError>(None) && args@.len() > 1
            && args@[1] is Int && ({
            let t = owner_of(
                old(vm).thread_objects@,
                args@[0]->Reference_0->Some_0,
                old(vm).thread_objects@.len(),
            )->Some_0;
            &&& t.0 < final(vm).threads@.len()
            &&& final(vm).threads@[t.0 as int].priority == (args@[1]->Int_0 as usize)
        }),
        args@.len() > 0 && args@[0] == Value::Reference(None) ==> r is Err && thrown_new(
            *old(vm),
            *final(vm),
            "java/lang/NullPointerException"@,
            None,
            r->Err_0,
        ),
        (args@.len() == 0 || !(args@[0] is Reference)) ==> r is Err && thrown_new(
            *old(vm),
            *final(vm),
            "java/lang/InternalError"@,
            None,
            r->Err_0,
        ),
        args@.len() > 0 && (args@[0] matches Value::Reference(Some(_))) && !(args@.len() > 1
            && args@[1] is Int) ==> r is Err && thrown_new(
            *old(vm),
            *final(vm),
            "java/lang/NullPointerException"@,
            None,
            r->Err_0,
        ),
    decreases ctx.depth, 6nat,
{
    let ghost start = *vm;
    let obj_ref = match arg(args, 0) {
        Some(Value::Reference(Some(r))) => r,
        Some(Value::Reference(None)) => {
            return Err(ctx.throw(vm, "java/lang/NullPointerException", None));
        },
        _ => {
            return Err(ctx.throw(vm, "java/lang/InternalError", None));
        },
    };
    let priority = match arg(args, 1) {
        Some(Value::Int(p)) => p,
        _ => {
            return Err(ctx.throw(vm, "java/lang/NullPointerException", None));
        },
    };
    let thread_ref = vm.thread_ref_from_object(obj_ref)?;
    if thread_ref.0 >= vm.threads.len() {
        return Err(
            RuntimeError::Internal(
                crate::error::InternalError::ThreadNotFound { thread_id: thread_ref.0 },
            ),
        );
    }
    vm.threads[thread_ref.0].set_priority(priority as usize);
    proof {
        assert forall|k: int| 0 <= k < start.threads@.len() implies (
        #[trigger] vm.threads@[k]).frames@ == start.threads@[k].frames@ by {
            if k != thread_ref.0 {
                assert(vm.threads@[k] == start.threads@[k]);
            }
        }
    }
    Ok(None)
}

/// `java.lang.Thread.isAlive()`: 0 for a terminated thread, 1 for any other.
pub fn is_alive<F: FloatArithmetic>(ctx: &NativeContext, vm: &mut VM<F>, args: &[Value]) -> (r: Result<
    Option<Value>,
    RuntimeError,
>)
    requires
        old(vm).wf(),
    ensures
        moved_on(*old(vm), *final(vm), None),
        r matches Ok(v) ==> v matches Some(Value::Int(k)) && (k == 0 || k == 1),
        alive_value(*old(vm), args@) matches Some(k) ==> r == Ok::<Option<Value>, RuntimeError>(
            Some(Value::Int(k)),
        ),
        args@.len() > 0 && args@[0] == Value::Reference(None) ==> r is Err && thrown_new(
            *old(vm),
            *final(vm),
            "java/lang/NullPointerException"@,
            None,
            r->Err_0,
        ),
        (args@.len() == 0 || !(args@[0] is Reference)) ==> r is Err && thrown_new(
            *old(vm),
            *final(vm),
            "java/lang/InternalError"@,
            None,
            r->Err_0,
        ),
    decreases ctx.depth, 6nat,
{
    let thread_ref = thread_of(ctx, vm, args)?;
    let thread = vm.get_thread(thread_ref)?;
    let alive = match thread.state() {
        ThreadState::Terminated => 0,
        _ => 1,
    };
    Ok(Some(Value::Int(alive)))
}

} // verus!
