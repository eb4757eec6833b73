use vstd::prelude::*;

use crate::error::{InternalError, RuntimeError};
use crate::native::native_context::{NativeContext, arg, bad_argument, is_type_error};
use crate::text::str_eq;
use crate::vm::float::FloatArithmetic;
use crate::vm::classpath::{class_file_name, first_file, search_order};
use crate::vm::interpreter::{
    lemma_grew_progress,
    lemma_loaded_progress,
    lemma_lookup_kept,
    lemma_moved_trans,
    moved_on,
    thrown_new,
};
use crate::vm::runtime_class::ClassRef;
use crate::vm::heap::{EntryModel, heap_object};
use crate::vm::value::{ObjectRef, Value};
use crate::vm::vm::{VM, named_at, primitives_named, chain_fits, class_file_for, classes_grow, loaded_from, loads_directly, lookup, replace_char, total_slots};
use crate::class::constant_pool::cp_class_name;

verus! {

/// `java.lang.Class.registerNatives()`: nothing to do.
pub fn register_natives<F>(_ctx: &NativeContext, vm: &mut VM<F>, _args: &[Value]) -> (r: Result<
    Option<Value>,
    RuntimeError,
>)
    ensures
        r == Ok::<Option<Value>, RuntimeError>(None),
        *final(vm) == *old(vm),
{
    Ok(None)
}

/// The primitive class that `getPrimitiveClass` gives for `name`; `byte`
/// gives the class of `boolean`.
pub open spec fn primitive_for<F>(vm: VM<F>, name: Seq<char>) -> Option<ClassRef> {
    let p = vm.primitive_classes;
    if name == "boolean"@ || name == "byte"@ {
        Some(p.boolean)
    } else if name == "char"@ {
        Some(p.char)
    } else if name == "short"@ {
        Some(p.short)
    } else if name == "int"@ {
        Some(p.int)
    } else if name == "long"@ {
        Some(p.long)
    } else if name == "float"@ {
        Some(p.float)
    } else if name == "double"@ {
        Some(p.double)
    } else if name == "void"@ {
        Some(p.void)
    } else {
        None
    }
}

/// The primitive class named by the string that `args` starts with.
pub open spec fn primitive_arg<F>(vm: VM<F>, args: Seq<Value>) -> Option<ClassRef> {
    if args.len() > 0 && args[0] is Reference && args[0]->Reference_0 is Some {
        let o = args[0]->Reference_0->Some_0;
        if o.0 < vm.heap@.len() && vm.heap@[o.0 as int] is Str {
            primitive_for(vm, vm.heap@[o.0 as int]->Str_0)
        } else {
            None
        }
    } else {
        None
    }
}

/// The characters of the string that `args` starts with, where it starts
/// with a string.
pub open spec fn string_arg<F>(vm: VM<F>, args: Seq<Value>) -> Option<Seq<char>> {
    if args.len() > 0 && args[0] is Reference && args[0]->Reference_0 is Some {
        let o = args[0]->Reference_0->Some_0;
        if o.0 < vm.heap@.len() && vm.heap@[o.0 as int] is Str {
            Some(vm.heap@[o.0 as int]->Str_0)
        } else {
            None
        }
    } else {
        None
    }
}

/// Whether `n` is the name of one of Java's nine primitive types.
pub open spec fn primitive_name(n: Seq<char>) -> bool {
    ||| n == "boolean"@
    ||| n == "byte"@
    ||| n == "char"@
    ||| n == "short"@
    ||| n == "int"@
    ||| n == "long"@
    ||| n == "float"@
    ||| n == "double"@
    ||| n == "void"@
}

/// Each primitive type's name other than `byte` names the primitive class
/// that bears it, so different names give different classes; `byte` gives
/// the class of `boolean`; any other name gives none.
pub proof fn lemma_primitive_for_named<F>(vm: VM<F>, n: Seq<char>)
    requires
        primitives_named(vm),
    ensures
        primitive_name(n) && n != "byte"@ ==> (primitive_for(vm, n) matches Some(c) && named_at(vm.classes@, c, n)),
        n == "byte"@ ==> (primitive_for(vm, n) matches Some(c) && named_at(vm.classes@, c, "boolean"@)),
        !primitive_name(n) ==> primitive_for(vm, n) is None,
{
}

/// `java.lang.Class.getPrimitiveClass(String)`: the `java.lang.Class`
/// object of the primitive type with that name; `null` for another name.
/// The name `"byte"` gives the class object of `boolean`.
pub fn get_primitive_class<F: FloatArithmetic>(ctx: &NativeContext, vm: &mut VM<F>, args: &[Value]) -> (r:
    Result<Option<Value>, RuntimeError>)
    requires
        old(vm).wf(),
    ensures
        moved_on(*old(vm), *final(vm), None),
        args@.len() > 0 ==> (args@[0] matches Value::Reference(Some(o)) ==> (o.0 < old(vm).heap@.len()
            && old(vm).heap@[o.0 as int] is Str && primitive_for(*old(vm), old(vm).heap@[o.0 as int]->Str_0)
            is None ==> r == Ok::<Option<Value>, RuntimeError>(Some(Value::Reference(None))))),
        args@.len() > 0 && !(args@[0] is Reference) ==> r is Err && is_type_error(r->Err_0),
        args@.len() > 0 && args@[0] == Value::Reference(None) ==> r == Ok::<
            Option<Value>,
            RuntimeError,
        >(Some(Value::Reference(None))),
        primitive_arg(*old(vm), args@) matches Some(c) ==> (r is Ok ==> lookup(
            final(vm).class_objects@,
            c,
        ) is Some && r->Ok_0 == Some(Value::Reference(lookup(final(vm).class_objects@, c)))),
        primitive_arg(*old(vm), args@) matches Some(c) ==> (old(vm).class_object_owed(c) ==> r is Ok),
        primitives_named(*old(vm)) ==> (string_arg(*old(vm), args@) matches Some(n) ==> (primitive_name(n)
            && n != "byte"@ ==> (r matches Ok(Some(Value::Reference(Some(o)))) ==> exists|c: ClassRef|
            #[trigger] lookup(final(vm).class_objects@, c) == Some(o) && named_at(final(vm).classes@, c, n)))),
        primitives_named(*old(vm)) && class_class_fits(*old(vm)) ==> (string_arg(*old(vm), args@) matches Some(
            n,
        ) ==> (primitive_name(n) ==> r matches Ok(Some(Value::Reference(Some(_)))))),
        primitives_named(*old(vm)) ==> (string_arg(*old(vm), args@) == Some("byte"@) ==> (r matches Ok(
            Some(Value::Reference(Some(o))),
        ) ==> exists|c: ClassRef|
            #[trigger] lookup(final(vm).class_objects@, c) == Some(o) && named_at(
                final(vm).classes@,
                c,
                "boolean"@,
            ))),
    decreases ctx.depth, 6nat,
{
    let ghost start = *vm;
    let class_name = match arg(args, 0) {
        Some(Value::Reference(Some(objref))) => vm.java_string_to_rust(objref)?,
        Some(Value::Reference(None)) => {
            let _ = ctx.throw(
                vm,
                "java/lang/NullPointerException",
                Some("Called java.lang.Class#getPrimitiveClass() with a null pointer"),
            );
            // The name is then empty, and names no primitive type.
            return Ok(Some(Value::Reference(None)));
        },
        other => {
            let _ = ctx.throw(
                vm,
                "java/lang/InternalError",
                Some("argument 0 to java.lang.Class#getPrimitiveClass() is not a String"),
            );
            return Err(bad_argument("<unknown>", "<unknown>", "java.class.String", other));
        },
    };
    let ghost named = *vm;
    let n = class_name.as_str();
    let p = vm.primitive_classes;
    let primitive = if str_eq(n, "boolean") || str_eq(n, "byte") {
        p.boolean
    } else if str_eq(n, "char") {
        p.char
    } else if str_eq(n, "short") {
        p.short
    } else if str_eq(n, "int") {
        p.int
    } else if str_eq(n, "long") {
        p.long
    } else if str_eq(n, "float") {
        p.float
    } else if str_eq(n, "double") {
        p.double
    } else if str_eq(n, "void") {
        p.void
    } else {
        return Ok(Some(Value::Reference(None)));
    };
    let class_object = vm.class_object_for(primitive);
    proof {
        lemma_grew_progress(named, *vm);
        lemma_moved_trans(start, named, *vm, None);
        if class_object is Ok {
            assert(lookup(vm.class_objects@, primitive) == Some(class_object->Ok_0));
            assert(vm.classes@ == start.classes@);
        }
    }
    Ok(Some(Value::Reference(Some(class_object?))))
}

/// `java.lang.Class.desiredAssertionStatus0(Class)`: assertions are off.
pub fn desired_assertion_status<F>(_ctx: &NativeContext, vm: &mut VM<F>, _args: &[Value]) -> (r:
    Result<Option<Value>, RuntimeError>)
    ensures
        r == Ok::<Option<Value>, RuntimeError>(Some(Value::Int(0))),
        *final(vm) == *old(vm),
{
    Ok(Some(Value::Int(0)))
}

/// The internal name of the class that the `java.lang.Class` object
/// passed first in `args` stands for, where there is one.
pub open spec fn class_object_name<F>(vm: VM<F>, args: Seq<Value>) -> Option<Seq<char>> {
    if args.len() > 0 && args[0] is Reference && args[0]->Reference_0 is Some {
        match heap_object(vm.heap@, args[0]->Reference_0->Some_0) {
            Some(o) => match o.class_object {
                Some(k) => if k.0 < vm.classes@.len() {
                    Some(vm.classes@[k.0 as int].name@)
                } else {
                    None
                },
                None => None,
            },
            None => None,
        }
    } else {
        None
    }
}

/// `java.lang.Class.getName0()`: a new string with the internal name of
/// the class that the `java.lang.Class` object stands for.
pub fn get_name<F>(_ctx: &NativeContext, vm: &mut VM<F>, args: &[Value]) -> (r: Result<
    Option<Value>,
    RuntimeError,
>)
    requires
        old(vm).wf(),
    ensures
        moved_on(*old(vm), *final(vm), None),
        r is Ok <==> class_object_name(*old(vm), args@) is Some,
        r matches Ok(v) ==> v == Some(Value::Reference(Some(ObjectRef(old(vm).heap@.len() as usize))))
            && final(vm).heap@ == old(vm).heap@.push(
            EntryModel::Str(class_object_name(*old(vm), args@)->Some_0),
        ),
        r is Err ==> *final(vm) == *old(vm),
        !(args@.len() > 0 && args@[0] matches Value::Reference(Some(_))) ==> r is Err
            && is_type_error(r->Err_0),
{
    let ghost start = *vm;
    let this = match arg(args, 0) {
        Some(Value::Reference(Some(reference))) => reference,
        _ => {
            return Err(
                bad_argument("...", "java/lang/Class.getName0", "java/lang/Class", None),
            );
        },
    };
    let class_ref = vm.heap.get_class_object(this)?;
    let name = vm.get_class(class_ref)?.name.clone();
    let string_ref = vm.allocate_string(name.as_str());
    proof {
        lemma_grew_progress(start, *vm);
    }
    Ok(Some(Value::Reference(Some(string_ref))))
}

/// The internal name (with `/`) of the class that `Class.forName0` is
/// asked for with arguments `args`, read from the heap of `vm`.
pub open spec fn for_name_target<F>(vm: VM<F>, args: Seq<Value>) -> Option<Seq<char>> {
    if args.len() == 4 && args[0] is Reference && args[0]->Reference_0 is Some {
        let o = args[0]->Reference_0->Some_0;
        if o.0 < vm.heap@.len() && vm.heap@[o.0 as int] is Str {
            Some(vm.heap@[o.0 as int]->Str_0.map_values(|c: char| if c == '.' { '/' } else { c }))
        } else {
            None
        }
    } else {
        None
    }
}

/// Whether `java/lang/Class` is loaded in `a` and the fields of its
/// objects fit.
pub open spec fn class_class_fits<F>(a: VM<F>) -> bool {
    a.class_named("java/lang/Class"@) matches Some(k) && chain_fits(
        a.classes@,
        ClassRef(k as usize),
        total_slots(a.classes@[k as int]),
        a.classes@.len(),
    )
}

/// Whether the class file that the class path gives for `name` in `a`
/// declares a class other than `java/lang/Class`.
pub open spec fn not_class_class<F>(a: VM<F>, name: Seq<char>) -> bool {
    match class_file_for(a, name) {
        Some(cf) => match cp_class_name(cf.constant_pool, cf.this_class as int) {
            Ok(n) => n != "java/lang/Class"@,
            Err(_) => true,
        },
        None => true,
    }
}

/// A class loaded from the class path with nothing else, other than
/// `java/lang/Class`, can be given a class object where `java/lang/Class`
/// could before.
proof fn lemma_owed_after_load<F>(a: VM<F>, b: VM<F>, n: Seq<char>)
    requires
        a.wf(),
        loads_directly(a, n),
        not_class_class(a, n),
        class_class_fits(a),
        classes_grow(a.classes@, b.classes@),
        b.classes@.len() == a.classes@.len() + 1,
        loaded_from(b.classes@, ClassRef(a.classes@.len() as usize), class_file_for(a, n)->Some_0),
    ensures
        b.class_object_owed(ClassRef(a.classes@.len() as usize)),
{
    let k = a.class_named("java/lang/Class"@)->Some_0;
    let len = a.classes@.len();
    crate::vm::vm::lemma_last_named_bound(a.classes@, "java/lang/Class"@, len);
    assert(b.classes@[len as int].name@ != "java/lang/Class"@);
    crate::vm::vm::lemma_named_grow(a.classes@, b.classes@, "java/lang/Class"@, len);
    assert(b.class_named("java/lang/Class"@) == Some(k));
    crate::vm::vm::lemma_chain_fits_grow(
        a.classes@,
        b.classes@,
        ClassRef(k as usize),
        total_slots(a.classes@[k as int]),
        len,
        len + 1,
    );
    assert(b.classes@[k as int] == a.classes@[k as int]);
}

/// `java.lang.Class.forName0(String, boolean, ClassLoader, Class)`: the
/// `java.lang.Class` object of the named class, loaded through the class
/// loader where one is given and from the class path otherwise, and
/// initialized where asked.
#[verifier::spinoff_prover]
#[verifier::rlimit(60)]
pub fn for_name0<F: FloatArithmetic>(ctx: &NativeContext, vm: &mut VM<F>, args: &[Value]) -> (r: Result<
    Option<Value>,
    RuntimeError,
>)
    requires
        old(vm).wf(),
    ensures
        moved_on(*old(vm), *final(vm), None),
        args@.len() != 4 ==> r is Err && is_type_error(r->Err_0),
        args@.len() == 4 && args@[0] == Value::Reference(None) ==> r is Err && thrown_new(
            *old(vm),
            *final(vm),
            "java/lang/NullPointerException"@,
            Some("class name is null"@),
            r->Err_0,
        ),
        r matches Ok(v) ==> v matches Some(Value::Reference(Some(_))),
        args@.len() == 4 && args@[1] is Int && args@[2] == Value::Reference(None) && args@[3] is Reference
            ==> (for_name_target(*old(vm), args@) matches Some(name) ==> (old(vm).class_named(name) is None
            && first_file(search_order(old(vm).classpath), class_file_name(name)) is None ==> r is Err
            && thrown_new(
            *old(vm),
            *final(vm),
            "java/lang/ClassNotFoundException"@,
            Some(old(vm).heap@[args@[0]->Reference_0->Some_0.0 as int]->Str_0),
            r->Err_0,
        ))),
        args@.len() == 4 && args@[1] is Int && args@[2] == Value::Reference(None) && args@[3] is Reference
            ==> (for_name_target(*old(vm), args@) matches Some(name) ==> (old(vm).class_named(name) matches Some(
            k,
        ) ==> (lookup(old(vm).class_objects@, ClassRef(k as usize)) is None && old(vm).class_object_owed(
            ClassRef(k as usize),
        ) ==> (args@[1] != Value::Int(0) && r is Ok ==> lookup(
            final(vm).static_storage@,
            ClassRef(k as usize),
        ) is Some) && (args@[1] == Value::Int(0) || lookup(old(vm).static_storage@, ClassRef(k as usize))
            is Some ==> r is Ok)))),
        args@.len() == 4 && args@[1] is Int && args@[2] == Value::Reference(None) ==> (
        for_name_target(*old(vm), args@) matches Some(name) ==> (old(vm).class_named(name) matches Some(
            c,
        ) ==> (r is Ok ==> r->Ok_0 == Some(
            Value::Reference(lookup(final(vm).class_objects@, ClassRef(c as usize))),
        ) && lookup(final(vm).class_objects@, ClassRef(c as usize)) is Some))),
        args@.len() == 4 && args@[2] == Value::Reference(None) ==> (r matches Ok(Some(Value::Reference(Some(o))))
            ==> exists|c: ClassRef| #[trigger] lookup(final(vm).class_objects@, c) == Some(o)),
        args@.len() == 4 && args@[1] is Int && args@[2] == Value::Reference(None) && args@[3] is Reference
            ==> (for_name_target(*old(vm), args@) matches Some(name) ==> (loads_directly(*old(vm), name) ==> (
        r matches Ok(Some(Value::Reference(Some(o)))) ==> lookup(
            final(vm).class_objects@,
            ClassRef(old(vm).classes@.len() as usize),
        ) == Some(o)))),
        args@.len() == 4 && args@[1] == Value::Int(0) && args@[2] == Value::Reference(None) && args@[3] is Reference
            ==> (for_name_target(*old(vm), args@) matches Some(name) ==> (loads_directly(*old(vm), name)
            && not_class_class(*old(vm), name) && class_class_fits(*old(vm)) && lookup(
            old(vm).class_objects@,
            ClassRef(old(vm).classes@.len() as usize),
        ) is None ==> r is Ok)),
    decreases ctx.depth, 6nat,
{
    let ghost start = *vm;
    if args.len() != 4 {
        return Err(bad_argument("java/lang/Class", "forName0", "4 arguments to Class.forName0", None));
    }
    let name_ref = match args[0] {
        Value::Reference(Some(reference)) => reference,
        Value::Reference(None) => {
            return Err(ctx.throw(vm, "java/lang/NullPointerException", Some("class name is null")));
        },
        other => {
            return Err(bad_argument("java/lang/Class", "forName0", "java/lang/String", Some(other)));
        },
    };
    let name = vm.java_string_to_rust(name_ref)?;
    let initialize = match args[1] {
        Value::Int(value) => value != 0,
        other => {
            return Err(bad_argument("java/lang/Class", "forName0", "boolean", Some(other)));
        },
    };
    let loader = match args[2] {
        Value::Reference(reference) => reference,
        other => {
            return Err(
                bad_argument("java/lang/Class", "forName0", "java/lang/ClassLoader", Some(other)),
            );
        },
    };
    match args[3] {
        Value::Reference(_) => {},
        other => {
            return Err(bad_argument("java/lang/Class", "forName0", "java/lang/Class", Some(other)));
        },
    }
    let internal_name = replace_char(name.as_str(), '.', '/');
    proof {
        assert(start.classes@.len() == start.classes.len());
        crate::vm::vm::lemma_last_named_bound(start.classes@, internal_name@, start.classes@.len());
    }
    let ghost mut resolved = ClassRef(0);
    let class_object = match loader {
        Some(loader_ref) => {
            let name_string = vm.allocate_string(name.as_str());
            let ghost allocated = *vm;
            proof {
                lemma_grew_progress(start, allocated);
            }
            let result = vm.invoke_virtual_to_completion_within(
                loader_ref,
                "loadClass",
                "(Ljava/lang/String;)Ljava/lang/Class;",
                vec![Value::Reference(Some(name_string))],
                ctx.depth,
            );
            proof {
                lemma_moved_trans(start, allocated, *vm, None);
            }
            match result {
                Ok(Value::Reference(Some(class_object))) => class_object,
                Ok(Value::Reference(None)) => {
                    let ghost before = *vm;
                    let e = ctx.throw(vm, "java/lang/ClassNotFoundException", Some(name.as_str()));
                    proof {
                        lemma_moved_trans(start, before, *vm, None);
                    }
                    return Err(e);
                },
                Ok(other) => {
                    return Err(
                        bad_argument("java/lang/Class", "forName0", "java/lang/Class", Some(other)),
                    );
                },
                Err(error) => {
                    return Err(error);
                },
            }
        },
        None => {
            let class_ref = match vm.resolve_class(internal_name.as_str()) {
                Ok(class_ref) => class_ref,
                Err(RuntimeError::Internal(InternalError::ClassNotFound { .. })) => {
                    let ghost before = *vm;
                    proof {
                        lemma_loaded_progress(start, before);
                    }
                    let e = ctx.throw(vm, "java/lang/ClassNotFoundException", Some(name.as_str()));
                    proof {
                        lemma_moved_trans(start, before, *vm, None);
                    }
                    return Err(e);
                },
                Err(error) => {
                    proof {
                        lemma_loaded_progress(start, *vm);
                    }
                    return Err(error);
                },
            };
            let ghost loaded = *vm;
            proof {
                lemma_loaded_progress(start, loaded);
                if for_name_target(start, args@) is Some {
                    let n = for_name_target(start, args@)->Some_0;
                    if loads_directly(start, n) && not_class_class(start, n) && class_class_fits(start) {
                        lemma_owed_after_load(start, loaded, n);
                    }
                }
            }
            let obj = vm.class_object_for(class_ref);
            proof {
                lemma_grew_progress(loaded, *vm);
                lemma_moved_trans(start, loaded, *vm, None);
                resolved = class_ref;
            }
            obj?
        },
    };
    let ghost got = *vm;
    let class_ref = vm.heap.get_class_object(class_object)?;
    if initialize {
        let init = vm.ensure_class_initialized_within(class_ref, ctx.depth);
        proof {
            lemma_moved_trans(start, got, *vm, None);
            if loader is None {
                assert(lookup(got.class_objects@, resolved) == Some(class_object));
                lemma_lookup_kept(got.class_objects@, vm.class_objects@, resolved);
            }
        }
        init?;
    }
    proof {
        if loader is None {
            assert(lookup(vm.class_objects@, resolved) == Some(class_object));
        }
    }
    Ok(Some(Value::Reference(Some(class_object))))
}

} // verus!
