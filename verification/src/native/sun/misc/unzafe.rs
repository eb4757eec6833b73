use vstd::prelude::*;

use crate::error::RuntimeError;
use crate::native::native_context::{NativeContext, arg, bad_argument, is_type_error};
use crate::text::{starts_with, str_eq};
use crate::vm::float::FloatArithmetic;
use crate::vm::interpreter::moved_on;
use crate::vm::value::{ObjectRef, Value};
use crate::vm::heap::heap_object;
use crate::vm::vm::VM;

verus! {

/// The offset of the first element of an array, as `sun.misc.Unsafe`
/// reports it.
pub const ARRAY_BASE_OFFSET: i32 = 16;

/// `sun.misc.Unsafe.registerNatives()`: nothing to do.
pub fn register_natives<F>(_ctx: &NativeContext, vm: &mut VM<F>, _args: &[Value]) -> (r: Result<
    Option<Value>,
    RuntimeError,
>)
    ensures
        r == Ok::<Option<Value>, RuntimeError>(None),
        *final(vm) == *old(vm),
{
    Ok(None)
}

/// The name of the class that the `java.lang.Class` object in argument 1
/// of `args` stands for, where it is one.
pub open spec fn class_arg_name<F>(vm: VM<F>, args: Seq<Value>) -> Option<Seq<char>> {
    if args.len() > 1 && args[1] is Reference && args[1]->Reference_0 is Some {
        match heap_object(vm.heap@, args[1]->Reference_0->Some_0) {
            Some(o) => match o.class_object {
                Some(c) => if c.0 < vm.classes@.len() {
                    Some(vm.classes@[c.0 as int].name@)
                } else {
                    None
                },
                None => None,
            },
            None => None,
        }
    } else {
        None
    }
}

/// The name of the class that the `java.lang.Class` object in argument 1
/// stands for.
fn class_name_of<F>(vm: &VM<F>, args: &[Value], method: &str) -> (r: Result<String, RuntimeError>)
    ensures
        !(args@.len() > 1 && args@[1] matches Value::Reference(Some(_))) ==> r is Err
            && is_type_error(r->Err_0),
        match class_arg_name(*vm, args@) {
            Some(n) => r is Ok && r->Ok_0@ == n,
            None => r is Err,
        },
{
    let class_object = match arg(args, 1) {
        Some(Value::Reference(Some(o))) => o,
        other => {
            return Err(bad_argument("sun/misc/Unsafe", method, "Reference", other));
        },
    };
    let class_ref = vm.heap.get_class_object(class_object)?;
    Ok(vm.get_class(class_ref)?.name.clone())
}

/// `sun.misc.Unsafe.arrayBaseOffset(Class)`: `ARRAY_BASE_OFFSET` for an
/// array class; any other class throws `IllegalArgumentException`.
pub fn array_base_offset<F: FloatArithmetic>(ctx: &NativeContext, vm: &mut VM<F>, args: &[Value]) -> (r:
    Result<Option<Value>, RuntimeError>)
    requires
        old(vm).wf(),
    ensures
        moved_on(*old(vm), *final(vm), None),
        r matches Ok(v) ==> v == Some(Value::Int(ARRAY_BASE_OFFSET)),
        !(args@.len() > 1 && args@[1] matches Value::Reference(Some(_))) ==> r is Err
            && is_type_error(r->Err_0),
        class_arg_name(*old(vm), args@) matches Some(n) ==> (r is Ok <==> n.len() > 0 && n[0]
            == '['),
        class_arg_name(*old(vm), args@) is None ==> r is Err,
    decreases ctx.depth, 6nat,
{
    let name = class_name_of(vm, args, "arrayBaseOffset")?;
    proof {
        reveal_strlit("[");
        assert("["@ =~= seq!['[']);
        if name@.len() >= 1 {
            assert(name@.subrange(0, 1) =~= seq![name@[0]]);
        }
    }
    if !starts_with(name.as_str(), "[") {
        let _ = ctx.throw(
            vm,
            "java/lang/IllegalArgumentException",
            Some("arrayBaseOffset called on an object that isnt an array"),
        );
        return Err(RuntimeError::Thrown(ObjectRef(0)));
    }
    proof {
        assert(name@[0] == name@.subrange(0, 1)[0]);
    }
    Ok(Some(Value::Int(ARRAY_BASE_OFFSET)))
}

/// The size of an element of the array class named `name`: 1 for
/// `boolean` and `byte`, 2 for `char` and `short`, 4 for `int` and
/// `float`, 8 for `long`, `double` and references.
pub open spec fn index_scale(name: Seq<char>) -> Option<i32> {
    if name == "[Z"@ || name == "[B"@ {
        Some(1)
    } else if name == "[C"@ || name == "[S"@ {
        Some(2)
    } else if name == "[I"@ || name == "[F"@ {
        Some(4)
    } else if name == "[J"@ || name == "[D"@ {
        Some(8)
    } else if name.len() >= 2 && name[0] == '[' && (name[1] == 'L' || name[1] == '[') {
        Some(8)
    } else {
        None
    }
}

/// `sun.misc.Unsafe.arrayIndexScale(Class)`: the size of an element of the
/// array class.
pub fn array_index_scale<F>(_ctx: &NativeContext, vm: &mut VM<F>, args: &[Value]) -> (r: Result<
    Option<Value>,
    RuntimeError,
>)
    ensures
        *final(vm) == *old(vm),
        !(args@.len() > 1 && args@[1] matches Value::Reference(Some(_))) ==> r is Err
            && is_type_error(r->Err_0),
        class_arg_name(*old(vm), args@) matches Some(n) ==> match index_scale(n) {
            Some(k) => r == Ok::<Option<Value>, RuntimeError>(Some(Value::Int(k))),
            None => r is Err && is_type_error(r->Err_0),
        },
        class_arg_name(*old(vm), args@) is None ==> r is Err,
{
    let name = class_name_of(vm, args, "arrayBaseOffset")?;
    let n = name.as_str();
    proof {
        reveal_strlit("[L");
        reveal_strlit("[[");
        assert("[L"@ =~= seq!['[', 'L']);
        assert("[["@ =~= seq!['[', '[']);
        if n@.len() >= 2 {
            assert(n@.subrange(0, 2) =~= seq![n@[0], n@[1]]);
        }
    }
    let scale: i32 = if str_eq(n, "[Z") || str_eq(n, "[B") {
        1
    } else if str_eq(n, "[C") || str_eq(n, "[S") {
        2
    } else if str_eq(n, "[I") || str_eq(n, "[F") {
        4
    } else if str_eq(n, "[J") || str_eq(n, "[D") {
        8
    } else if starts_with(n, "[L") || starts_with(n, "[[") {
        8
    } else {
        return Err(bad_argument(n, "Unsafe.arrayIndexScale", "Descritpor", None));
    };
    Ok(Some(Value::Int(scale)))
}

/// `sun.misc.Unsafe.addressSize()`: the size of a pointer in bytes.
pub fn address_size<F>(_ctx: &NativeContext, vm: &mut VM<F>, _args: &[Value]) -> (r: Result<
    Option<Value>,
    RuntimeError,
>)
    ensures
        *final(vm) == *old(vm),
        r == Ok::<Option<Value>, RuntimeError>(Some(Value::Int((usize::BITS / 8) as i32))),
{
    Ok(Some(Value::Int((usize::BITS / 8) as i32)))
}

} // verus!
