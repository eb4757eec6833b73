use vstd::prelude::*;

use crate::error::RuntimeError;
use crate::native::native_context::NativeContext;
use crate::vm::value::Value;
use crate::vm::vm::VM;

verus! {

/// `sun.misc.VM.initialize()`: nothing to do.
pub fn initialize<F>(_ctx: &NativeContext, vm: &mut VM<F>, _args: &[Value]) -> (r: Result<
    Option<Value>,
    RuntimeError,
>)
    ensures
        r == Ok::<Option<Value>, RuntimeError>(None),
        *final(vm) == *old(vm),
{
    Ok(None)
}

} // verus!
