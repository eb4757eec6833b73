use vstd::prelude::*;

use crate::error::RuntimeError;
use crate::native::native_context::NativeContext;
use crate::vm::interpreter::{lemma_grew_progress, moved_on};
use crate::vm::value::Value;
use crate::vm::vm::{VM, frames_of, lookup};

verus! {

/// `sun.reflect.Reflection.getCallerClass()`: the `java.lang.Class`
/// object of the class of the frame below the current one, `null` where
/// there is none.
pub fn get_caller_class<F>(ctx: &NativeContext, vm: &mut VM<F>, _args: &[Value]) -> (r: Result<
    Option<Value>,
    RuntimeError,
>)
    requires
        old(vm).wf(),
    ensures
        moved_on(*old(vm), *final(vm), None),
        ctx.thread.0 < old(vm).threads@.len() && frames_of(*old(vm), ctx.thread).len() < 2 ==> r
            == Ok::<Option<Value>, RuntimeError>(Some(Value::Reference(None))),
        ctx.thread.0 < old(vm).threads@.len() && frames_of(*old(vm), ctx.thread).len() >= 2 && r is Ok
            ==> ({
            let fs = frames_of(*old(vm), ctx.thread);
            let c = fs[fs.len() - 2].class;
            &&& lookup(final(vm).class_objects@, c) is Some
            &&& r->Ok_0 == Some(Value::Reference(lookup(final(vm).class_objects@, c)))
        }),
{
    let ghost start = *vm;
    let caller_class = {
        let thread = vm.get_thread(ctx.thread())?;
        let frames = thread.frames();
        if frames.len() < 2 {
            return Ok(Some(Value::Reference(None)));
        }
        frames[frames.len() - 2].class
    };
    let class_object = vm.class_object_for(caller_class);
    proof {
        lemma_grew_progress(start, *vm);
    }
    Ok(Some(Value::Reference(Some(class_object?))))
}

} // verus!
