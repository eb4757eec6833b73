use vstd::prelude::*;

use crate::error::RuntimeError;
use crate::native::native_context::{NativeContext, arg, bad_argument, is_type_error};
use crate::vm::value::Value;
use crate::vm::vm::VM;

verus! {

/// `java.lang.Float.floatToRawIntBits(float)`: the bits of the `float` as
/// an `int`.
pub fn float_to_raw_int_bits<F>(_ctx: &NativeContext, vm: &mut VM<F>, args: &[Value]) -> (r: Result<
    Option<Value>,
    RuntimeError,
>)
    ensures
        *final(vm) == *old(vm),
        args@.len() > 0 ==> (args@[0] matches Value::Float(b) ==> r == Ok::<
            Option<Value>,
            RuntimeError,
        >(Some(Value::Int(b as i32)))),
        !(args@.len() > 0 && args@[0] is Float) ==> r is Err && is_type_error(r->Err_0),
{
    match arg(args, 0) {
        Some(Value::Float(bits)) => Ok(Some(Value::Int(bits as i32))),
        other => Err(bad_argument("java/lang/Float", "floatToRawIntBits", "Float", other)),
    }
}

} // verus!
