use vstd::prelude::*;

use crate::error::RuntimeError;
use crate::native::native_context::{NativeContext, arg, bad_argument, is_type_error};
use crate::vm::value::Value;
use crate::vm::vm::VM;

verus! {

/// `java.lang.Double.doubleToRawLongBits(double)`: the bits of the
/// `double` as a `long`.
pub fn double_to_raw_long_bits<F>(_ctx: &NativeContext, vm: &mut VM<F>, args: &[Value]) -> (r:
    Result<Option<Value>, RuntimeError>)
    ensures
        *final(vm) == *old(vm),
        args@.len() > 0 ==> (args@[0] matches Value::Double(b) ==> r == Ok::<
            Option<Value>,
            RuntimeError,
        >(Some(Value::Long(b as i64)))),
        !(args@.len() > 0 && args@[0] is Double) ==> r is Err && is_type_error(r->Err_0),
{
    match arg(args, 0) {
        Some(Value::Double(bits)) => Ok(Some(Value::Long(bits as i64))),
        other => Err(bad_argument("java/lang/Double", "doubleToRawLongBits", "Double", other)),
    }
}

} // verus!
