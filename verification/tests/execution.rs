use dioptase::error::{InternalError, RuntimeError};
use dioptase::vm::classpath::{ClassPath, ClassPathEntry, ClassPathFile};
use dioptase::vm::float::{FloatArithmetic, FloatOrdering};
use dioptase::vm::interpreter::Interpreter;
use dioptase::vm::frame::Frame;
use dioptase::native::native_context::NativeContext;
use dioptase::native::native_registry::{invoke_native, NativeFunction};
use dioptase::vm::value::Value;
use dioptase::vm::vm::VM;

struct StdFloats;

impl FloatArithmetic for StdFloats {
    fn float_mul(&self, a: u32, b: u32) -> u32 {
        (f32::from_bits(a) * f32::from_bits(b)).to_bits()
    }
    fn float_compare(&self, a: u32, b: u32) -> FloatOrdering {
        let (x, y) = (f32::from_bits(a), f32::from_bits(b));
        if x == y {
            FloatOrdering::Equal
        } else if x > y {
            FloatOrdering::Greater
        } else if x < y {
            FloatOrdering::Less
        } else {
            FloatOrdering::Unordered
        }
    }
    fn int_to_float(&self, i: i32) -> u32 {
        (i as f32).to_bits()
    }
    fn float_to_int(&self, f: u32) -> i32 {
        f32::from_bits(f) as i32
    }
}

/// A constant pool under construction.
struct Pool {
    bytes: Vec<u8>,
    count: u16,
}

impl Pool {
    fn new() -> Self {
        Pool { bytes: Vec::new(), count: 1 }
    }
    fn add(&mut self, entry: Vec<u8>) -> u16 {
        self.bytes.extend(entry);
        self.count += 1;
        self.count - 1
    }
    fn utf8(&mut self, s: &str) -> u16 {
        let mut e = vec![1u8];
        e.extend((s.len() as u16).to_be_bytes());
        e.extend(s.as_bytes());
        self.add(e)
    }
    fn class(&mut self, name: &str) -> u16 {
        let n = self.utf8(name);
        let mut e = vec![7u8];
        e.extend(n.to_be_bytes());
        self.add(e)
    }
    fn name_and_type(&mut self, name: &str, desc: &str) -> u16 {
        let n = self.utf8(name);
        let d = self.utf8(desc);
        let mut e = vec![12u8];
        e.extend(n.to_be_bytes());
        e.extend(d.to_be_bytes());
        self.add(e)
    }
    fn member(&mut self, tag: u8, class: &str, name: &str, desc: &str) -> u16 {
        let c = self.class(class);
        let nt = self.name_and_type(name, desc);
        let mut e = vec![tag];
        e.extend(c.to_be_bytes());
        e.extend(nt.to_be_bytes());
        self.add(e)
    }
    fn method_ref(&mut self, class: &str, name: &str, desc: &str) -> u16 {
        self.member(10, class, name, desc)
    }
    fn field_ref(&mut self, class: &str, name: &str, desc: &str) -> u16 {
        self.member(9, class, name, desc)
    }
    fn string(&mut self, s: &str) -> u16 {
        let u = self.utf8(s);
        let mut e = vec![8u8];
        e.extend(u.to_be_bytes());
        self.add(e)
    }
    fn integer(&mut self, v: i32) -> u16 {
        let mut e = vec![3u8];
        e.extend(v.to_be_bytes());
        self.add(e)
    }
}

struct Method {
    flags: u16,
    name: &'static str,
    desc: &'static str,
    max_stack: u16,
    max_locals: u16,
    code: Vec<u8>,
    handlers: Vec<(u16, u16, u16, u16)>,
}

fn class_file(pool: &mut Pool, this: &str, fields: &[(u16, &str, &str)], methods: &[Method]) -> Vec<u8> {
    let this_index = pool.class(this);
    let code_name = pool.utf8("Code");
    let mut field_bytes = Vec::new();
    for (flags, name, desc) in fields {
        let n = pool.utf8(name);
        let d = pool.utf8(desc);
        field_bytes.extend(flags.to_be_bytes());
        field_bytes.extend(n.to_be_bytes());
        field_bytes.extend(d.to_be_bytes());
        field_bytes.extend(0u16.to_be_bytes());
    }
    let mut method_bytes = Vec::new();
    for m in methods {
        let n = pool.utf8(m.name);
        let d = pool.utf8(m.desc);
        method_bytes.extend(m.flags.to_be_bytes());
        method_bytes.extend(n.to_be_bytes());
        method_bytes.extend(d.to_be_bytes());
        if m.flags & 0x0100 != 0 {
            // A native method has no Code attribute.
            method_bytes.extend(0u16.to_be_bytes());
            continue;
        }
        method_bytes.extend(1u16.to_be_bytes());
        let mut body = Vec::new();
        body.extend(m.max_stack.to_be_bytes());
        body.extend(m.max_locals.to_be_bytes());
        body.extend((m.code.len() as u32).to_be_bytes());
        body.extend(&m.code);
        body.extend((m.handlers.len() as u16).to_be_bytes());
        for (s, e, h, c) in &m.handlers {
            body.extend(s.to_be_bytes());
            body.extend(e.to_be_bytes());
            body.extend(h.to_be_bytes());
            body.extend(c.to_be_bytes());
        }
        body.extend(0u16.to_be_bytes());
        method_bytes.extend(code_name.to_be_bytes());
        method_bytes.extend((body.len() as u32).to_be_bytes());
        method_bytes.extend(body);
    }
    let mut out = vec![0xCA, 0xFE, 0xBA, 0xBE, 0, 0, 0, 52];
    out.extend(pool.count.to_be_bytes());
    out.extend(&pool.bytes);
    out.extend(0x0021u16.to_be_bytes());
    out.extend(this_index.to_be_bytes());
    out.extend(0u16.to_be_bytes());
    out.extend(0u16.to_be_bytes());
    out.extend((fields.len() as u16).to_be_bytes());
    out.extend(field_bytes);
    out.extend((methods.len() as u16).to_be_bytes());
    out.extend(method_bytes);
    out.extend(0u16.to_be_bytes());
    out
}

fn vm_with(classes: Vec<(&str, Vec<u8>)>) -> VM<StdFloats> {
    let mut vm = VM::new(StdFloats);
    let mut cp = ClassPath::empty();
    let files = classes
        .into_iter()
        .map(|(name, data)| ClassPathFile { name: format!("{}.class", name), data })
        .collect();
    cp.add_application(ClassPathEntry { files });
    vm.set_classpath(cp);
    vm
}

const STATIC_PUBLIC: u16 = 0x0009;

fn factorial_class() -> Vec<u8> {
    let mut pool = Pool::new();
    let fact = pool.method_ref("Factorial", "fact", "(I)I");
    let [hi, lo] = fact.to_be_bytes();
    class_file(
        &mut pool,
        "Factorial",
        &[],
        &[
            Method {
                flags: STATIC_PUBLIC,
                name: "fact",
                desc: "(I)I",
                max_stack: 2,
                max_locals: 2,
                code: vec![
                    0x04, 0x3c, 0x1a, 0x9e, 0x00, 0x0d, 0x1b, 0x1a, 0x68, 0x3c, 0x84, 0x00, 0xff,
                    0xa7, 0xff, 0xf5, 0x1b, 0xac,
                ],
                handlers: vec![],
            },
            Method {
                flags: STATIC_PUBLIC,
                name: "run",
                desc: "()I",
                max_stack: 1,
                max_locals: 0,
                code: vec![0x10, 0x05, 0xb8, hi, lo, 0xac],
                handlers: vec![],
            },
        ],
    )
}

#[test]
fn factorial_of_five_through_invokestatic() {
    let mut vm = vm_with(vec![("Factorial", factorial_class())]);
    let class = vm.resolve_class("Factorial").unwrap();
    let result = vm.invoke_static_to_completion(class, "run", "()I");
    assert!(matches!(result, Ok(Value::Int(120))));
}

#[test]
fn arrays_store_load_and_length() {
    let mut pool = Pool::new();
    let code = vec![
        0x06, 0xbc, 10, 0x4b, // iconst_3, newarray int, astore_0
        0x2a, 0x03, 0x10, 7, 0x4f, // a[0] = 7
        0x2a, 0x04, 0x10, 9, 0x4f, // a[1] = 9
        0x2a, 0x03, 0x2e, 0x2a, 0x04, 0x2e, 0x60, // a[0] + a[1]
        0x2a, 0xbe, 0x60, 0xac, // + a.length, ireturn
    ];
    let bytes = class_file(
        &mut pool,
        "Arrays",
        &[],
        &[Method { flags: STATIC_PUBLIC, name: "sum", desc: "()I", max_stack: 4, max_locals: 1, code, handlers: vec![] }],
    );
    let mut vm = vm_with(vec![("Arrays", bytes)]);
    let class = vm.resolve_class("Arrays").unwrap();
    let result = vm.invoke_static_to_completion(class, "sum", "()I");
    assert!(matches!(result, Ok(Value::Int(19))));
}

fn bare_class(name: &str) -> Vec<u8> {
    let mut pool = Pool::new();
    class_file(&mut pool, name, &[], &[])
}

#[test]
fn division_by_zero_is_caught_by_a_catch_all_handler() {
    let mut pool = Pool::new();
    let code = vec![0x04, 0x03, 0x70, 0xac, 0x57, 0x10, 42, 0xac];
    let bytes = class_file(
        &mut pool,
        "Safe",
        &[],
        &[Method {
            flags: STATIC_PUBLIC,
            name: "safe",
            desc: "()I",
            max_stack: 2,
            max_locals: 0,
            code,
            handlers: vec![(0, 4, 4, 0)],
        }],
    );
    let mut vm = vm_with(vec![
        ("Safe", bytes),
        ("java/lang/ArithmeticException", bare_class("java/lang/ArithmeticException")),
    ]);
    let class = vm.resolve_class("Safe").unwrap();
    let result = vm.invoke_static_to_completion(class, "safe", "()I");
    assert!(matches!(result, Ok(Value::Int(42))));
}

#[test]
fn uncaught_exception_comes_back_as_thrown() {
    let mut pool = Pool::new();
    let code = vec![0x04, 0x03, 0x70, 0xac];
    let bytes = class_file(
        &mut pool,
        "Boom",
        &[],
        &[Method { flags: STATIC_PUBLIC, name: "boom", desc: "()I", max_stack: 2, max_locals: 0, code, handlers: vec![] }],
    );
    let mut vm = vm_with(vec![
        ("Boom", bytes),
        ("java/lang/ArithmeticException", bare_class("java/lang/ArithmeticException")),
    ]);
    let class = vm.resolve_class("Boom").unwrap();
    match vm.invoke_static_to_completion(class, "boom", "()I") {
        Err(RuntimeError::Thrown(obj)) => {
            assert_eq!(vm.describe_exception(obj), "java.lang.ArithmeticException");
        }
        _ => panic!("expected an exception"),
    }
}

#[test]
fn static_field_is_initialized_by_clinit() {
    let mut pool = Pool::new();
    let field = pool.field_ref("Counter", "value", "I");
    let [hi, lo] = field.to_be_bytes();
    let bytes = class_file(
        &mut pool,
        "Counter",
        &[(0x0008, "value", "I")],
        &[
            Method {
                flags: 0x0008,
                name: "<clinit>",
                desc: "()V",
                max_stack: 1,
                max_locals: 0,
                code: vec![0x10, 10, 0xb3, hi, lo, 0xb1],
                handlers: vec![],
            },
            Method {
                flags: STATIC_PUBLIC,
                name: "next",
                desc: "()I",
                max_stack: 2,
                max_locals: 0,
                code: vec![0xb2, hi, lo, 0x04, 0x60, 0x59, 0xb3, hi, lo, 0xac],
                handlers: vec![],
            },
        ],
    );
    let mut vm = vm_with(vec![("Counter", bytes)]);
    let class = vm.resolve_class("Counter").unwrap();
    vm.ensure_class_initialized(class).unwrap();
    assert!(matches!(vm.invoke_static_to_completion(class, "next", "()I"), Ok(Value::Int(11))));
    assert!(matches!(vm.invoke_static_to_completion(class, "next", "()I"), Ok(Value::Int(12))));
}

#[test]
fn new_object_field_round_trip() {
    let mut pool = Pool::new();
    let class_index = pool.class("Point");
    let field = pool.field_ref("Point", "x", "I");
    let [ch, cl] = class_index.to_be_bytes();
    let [fh, fl] = field.to_be_bytes();
    let bytes = class_file(
        &mut pool,
        "Point",
        &[(0x0001, "x", "I")],
        &[Method {
            flags: STATIC_PUBLIC,
            name: "make",
            desc: "()I",
            max_stack: 3,
            max_locals: 0,
            code: vec![0xbb, ch, cl, 0x59, 0x10, 3, 0xb5, fh, fl, 0xb4, fh, fl, 0xac],
            handlers: vec![],
        }],
    );
    let mut vm = vm_with(vec![("Point", bytes)]);
    let class = vm.resolve_class("Point").unwrap();
    assert!(matches!(vm.invoke_static_to_completion(class, "make", "()I"), Ok(Value::Int(3))));
}

#[test]
fn an_endless_loop_runs_out_of_steps() {
    let mut pool = Pool::new();
    let bytes = class_file(
        &mut pool,
        "Spin",
        &[],
        &[Method { flags: STATIC_PUBLIC, name: "spin", desc: "()V", max_stack: 0, max_locals: 0, code: vec![0xa7, 0x00, 0x00], handlers: vec![] }],
    );
    let mut vm = vm_with(vec![("Spin", bytes)]);
    let class = vm.resolve_class("Spin").unwrap();
    vm.steps_left = 1000;
    let result = vm.invoke_static_to_completion(class, "spin", "()V");
    assert!(matches!(result, Err(RuntimeError::Internal(InternalError::StepLimitExceeded))));
    assert_eq!(vm.steps_left, 0);
}

#[test]
fn an_unknown_opcode_is_reported() {
    let mut pool = Pool::new();
    let bytes = class_file(
        &mut pool,
        "Bad",
        &[],
        &[Method { flags: STATIC_PUBLIC, name: "bad", desc: "()V", max_stack: 0, max_locals: 0, code: vec![0xff], handlers: vec![] }],
    );
    let mut vm = vm_with(vec![("Bad", bytes)]);
    let class = vm.resolve_class("Bad").unwrap();
    let result = vm.invoke_static_to_completion(class, "bad", "()V");
    assert!(matches!(result, Err(RuntimeError::Internal(InternalError::InvalidOpcode { opcode: 0xff, pc: 0 }))));
}

#[test]
fn float_instructions_use_the_supplied_arithmetic() {
    let mut pool = Pool::new();
    // fconst_2, fconst_2, fmul, f2i, ireturn
    let bytes = class_file(
        &mut pool,
        "Floats",
        &[],
        &[Method { flags: STATIC_PUBLIC, name: "four", desc: "()I", max_stack: 2, max_locals: 0, code: vec![0x0d, 0x0d, 0x6a, 0x8b, 0xac], handlers: vec![] }],
    );
    let mut vm = vm_with(vec![("Floats", bytes)]);
    let class = vm.resolve_class("Floats").unwrap();
    assert!(matches!(vm.invoke_static_to_completion(class, "four", "()I"), Ok(Value::Int(4))));
}

#[test]
fn step_runs_one_instruction_on_the_current_frame() {
    let mut pool = Pool::new();
    let bytes = class_file(
        &mut pool,
        "One",
        &[],
        &[Method { flags: STATIC_PUBLIC, name: "one", desc: "()I", max_stack: 2, max_locals: 1, code: vec![0x10, 0x07, 0x3b, 0x1a, 0xac], handlers: vec![] }],
    );
    let mut vm = vm_with(vec![("One", bytes)]);
    let class = vm.resolve_class("One").unwrap();
    let index = vm.get_class(class).unwrap().find_method("one", "()I").unwrap();
    let t = vm.create_thread();
    vm.put_frame(t, Frame::new(1, 2, class, index));
    Interpreter::step(&mut vm, t, 4).unwrap();
    {
        let frame = vm.get_thread(t).unwrap().current_frame().unwrap();
        assert_eq!(frame.pc, 2);
        assert_eq!(frame.operand_stack, vec![Value::Int(7)]);
    }
    Interpreter::step(&mut vm, t, 4).unwrap();
    let frame = vm.get_thread(t).unwrap().current_frame().unwrap();
    assert_eq!(frame.locals, vec![Value::Int(7)]);
    assert!(frame.operand_stack.is_empty());
    assert!(matches!(Interpreter::run(&mut vm, t), Ok(Value::Int(7))));
}

/// An exception class with a `detailMessage` field.
fn exception_class(name: &str) -> Vec<u8> {
    let mut pool = Pool::new();
    class_file(&mut pool, name, &[(0x0002, "detailMessage", "Ljava/lang/String;")], &[])
}

fn one_method(class: &str, pool: &mut Pool, code: Vec<u8>, max_stack: u16) -> Vec<u8> {
    class_file(
        pool,
        class,
        &[],
        &[Method { flags: STATIC_PUBLIC, name: "run", desc: "()I", max_stack, max_locals: 1, code, handlers: vec![] }],
    )
}

fn thrown_text(vm: &mut VM<StdFloats>, class: &str) -> String {
    let c = vm.resolve_class(class).unwrap();
    match vm.invoke_static_to_completion(c, "run", "()I") {
        Err(RuntimeError::Thrown(obj)) => vm.describe_exception(obj),
        other => panic!("expected an exception, got {:?}", other),
    }
}

#[test]
fn an_index_out_of_bounds_throws_with_its_message() {
    let mut pool = Pool::new();
    // iconst_3, newarray int, iconst_5, iaload, ireturn
    let bytes = one_method("Oob", &mut pool, vec![0x06, 0xbc, 10, 0x08, 0x2e, 0xac], 2);
    let mut vm = vm_with(vec![
        ("Oob", bytes),
        ("java/lang/ArrayIndexOutOfBoundsException", exception_class("java/lang/ArrayIndexOutOfBoundsException")),
    ]);
    let text = thrown_text(&mut vm, "Oob");
    assert_eq!(text, "java.lang.ArrayIndexOutOfBoundsException: Index 5 out of bounds for length 3");
}

#[test]
fn a_negative_array_size_throws() {
    let mut pool = Pool::new();
    // bipush -1, newarray int, arraylength, ireturn
    let bytes = one_method("Neg", &mut pool, vec![0x10, 0xff, 0xbc, 10, 0xbe, 0xac], 1);
    let mut vm = vm_with(vec![
        ("Neg", bytes),
        ("java/lang/NegativeArraySizeException", exception_class("java/lang/NegativeArraySizeException")),
    ]);
    let text = thrown_text(&mut vm, "Neg");
    assert_eq!(text, "java.lang.NegativeArraySizeException: Cannot create negative sized array");
}

#[test]
fn the_length_of_a_null_array_throws() {
    let mut pool = Pool::new();
    // aconst_null, arraylength, ireturn
    let bytes = one_method("NullLen", &mut pool, vec![0x01, 0xbe, 0xac], 1);
    let mut vm = vm_with(vec![
        ("NullLen", bytes),
        ("java/lang/NullPointerException", exception_class("java/lang/NullPointerException")),
    ]);
    let text = thrown_text(&mut vm, "NullLen");
    assert_eq!(text, "java.lang.NullPointerException: Tried to get the length on a null array");
}

#[test]
fn string_constants_are_interned() {
    let mut pool = Pool::new();
    let s = pool.string("hello") as u8;
    // ldc s, areturn
    let bytes = class_file(
        &mut pool,
        "Intern",
        &[],
        &[Method {
            flags: STATIC_PUBLIC,
            name: "run",
            desc: "()Ljava/lang/String;",
            max_stack: 1,
            max_locals: 0,
            code: vec![0x12, s, 0xb0],
            handlers: vec![],
        }],
    );
    let mut vm = vm_with(vec![("Intern", bytes)]);
    let c = vm.resolve_class("Intern").unwrap();
    let first = vm.invoke_static_to_completion(c, "run", "()Ljava/lang/String;").unwrap();
    let second = vm.invoke_static_to_completion(c, "run", "()Ljava/lang/String;").unwrap();
    assert_eq!(first, second);
    let r = match first {
        Value::Reference(Some(r)) => r,
        other => panic!("expected a string, got {:?}", other),
    };
    assert_eq!(vm.java_string_to_rust(r).unwrap(), "hello");
    assert_eq!(vm.intern_string("hello").unwrap(), r);
    assert_ne!(vm.intern_string("world").unwrap(), r);
}

#[test]
fn integer_constants_load_from_the_pool() {
    let mut pool = Pool::new();
    let k = pool.integer(100_000);
    let [hi, lo] = k.to_be_bytes();
    // ldc_w k, ireturn
    let bytes = one_method("Big", &mut pool, vec![0x13, hi, lo, 0xac], 1);
    let mut vm = vm_with(vec![("Big", bytes)]);
    let c = vm.resolve_class("Big").unwrap();
    assert!(matches!(vm.invoke_static_to_completion(c, "run", "()I"), Ok(Value::Int(100_000))));
}

#[test]
fn invokevirtual_runs_the_objects_method() {
    let mut pool = Pool::new();
    let class_index = pool.class("Animal");
    let legs = pool.method_ref("Animal", "legs", "()I");
    let [ch, cl] = class_index.to_be_bytes();
    let [mh, ml] = legs.to_be_bytes();
    let bytes = class_file(
        &mut pool,
        "Animal",
        &[],
        &[
            Method { flags: 0x0001, name: "legs", desc: "()I", max_stack: 1, max_locals: 1, code: vec![0x07, 0xac], handlers: vec![] },
            Method {
                flags: STATIC_PUBLIC,
                name: "run",
                desc: "()I",
                max_stack: 2,
                max_locals: 0,
                code: vec![0xbb, ch, cl, 0xb6, mh, ml, 0xac],
                handlers: vec![],
            },
        ],
    );
    let mut vm = vm_with(vec![("Animal", bytes)]);
    let c = vm.resolve_class("Animal").unwrap();
    assert!(matches!(vm.invoke_static_to_completion(c, "run", "()I"), Ok(Value::Int(4))));
}

#[test]
fn a_handler_for_the_thrown_class_catches_it() {
    let mut pool = Pool::new();
    let catch = pool.class("java/lang/ArithmeticException");
    // iconst_1, iconst_0, irem, ireturn | handler: pop, bipush 7, ireturn
    let bytes = class_file(
        &mut pool,
        "Typed",
        &[],
        &[Method {
            flags: STATIC_PUBLIC,
            name: "run",
            desc: "()I",
            max_stack: 2,
            max_locals: 0,
            code: vec![0x04, 0x03, 0x70, 0xac, 0x57, 0x10, 7, 0xac],
            handlers: vec![(0, 4, 4, catch)],
        }],
    );
    let mut vm = vm_with(vec![
        ("Typed", bytes),
        ("java/lang/ArithmeticException", exception_class("java/lang/ArithmeticException")),
    ]);
    let c = vm.resolve_class("Typed").unwrap();
    assert!(matches!(vm.invoke_static_to_completion(c, "run", "()I"), Ok(Value::Int(7))));
}

fn native_vm(extra: Vec<(&str, Vec<u8>)>) -> (VM<StdFloats>, NativeContext) {
    let mut classes = vec![("java/lang/Class", bare_class("java/lang/Class"))];
    classes.extend(extra);
    let mut vm = vm_with(classes);
    vm.resolve_class("java/lang/Class").unwrap();
    let t = vm.create_thread();
    (vm, NativeContext::new(t, 8))
}

#[test]
fn get_primitive_class_gives_the_primitive_class_objects() {
    let (mut vm, ctx) = native_vm(vec![]);
    let mut object_for = |vm: &mut VM<StdFloats>, name: &str| {
        let s = vm.allocate_string(name);
        invoke_native(NativeFunction::ClassGetPrimitiveClass, &ctx, vm, &[Value::Reference(Some(s))]).unwrap()
    };
    let int_object = match object_for(&mut vm, "int") {
        Some(Value::Reference(Some(o))) => o,
        other => panic!("expected a class object, got {:?}", other),
    };
    assert_eq!(vm.heap.get_class_object(int_object).unwrap(), vm.primitive_classes.int);
    let boolean_object = object_for(&mut vm, "boolean");
    assert_eq!(object_for(&mut vm, "byte"), boolean_object);
    assert_eq!(object_for(&mut vm, "int"), Some(Value::Reference(Some(int_object))));
    assert_eq!(object_for(&mut vm, "integer"), Some(Value::Reference(None)));
}

#[test]
fn array_index_scale_follows_the_element_type() {
    let (mut vm, ctx) = native_vm(vec![("[J", bare_class("[J")), ("[I", bare_class("[I")), ("Plain", bare_class("Plain"))]);
    let mut scale = |vm: &mut VM<StdFloats>, name: &str| {
        let c = vm.resolve_class(name).unwrap();
        let o = vm.class_object_for(c).unwrap();
        invoke_native(NativeFunction::UnsafeArrayIndexScale, &ctx, vm, &[Value::Reference(None), Value::Reference(Some(o))])
    };
    assert!(matches!(scale(&mut vm, "[J"), Ok(Some(Value::Int(8)))));
    assert!(matches!(scale(&mut vm, "[I"), Ok(Some(Value::Int(4)))));
    assert!(scale(&mut vm, "Plain").is_err());
}

#[test]
fn float_and_double_bits_pass_through() {
    let (mut vm, ctx) = native_vm(vec![]);
    let f = invoke_native(NativeFunction::FloatToRawIntBits, &ctx, &mut vm, &[Value::Float(0x3f80_0000)]);
    assert!(matches!(f, Ok(Some(Value::Int(0x3f80_0000)))));
    let d = invoke_native(NativeFunction::DoubleToRawLongBits, &ctx, &mut vm, &[Value::Double(0xbff0_0000_0000_0000)]);
    assert!(matches!(d, Ok(Some(Value::Long(v))) if v == 0xbff0_0000_0000_0000u64 as i64));
    assert!(invoke_native(NativeFunction::FloatToRawIntBits, &ctx, &mut vm, &[Value::Int(1)]).is_err());
}

#[test]
fn hash_code_is_the_identity_hash() {
    let (mut vm, ctx) = native_vm(vec![("Plain", bare_class("Plain"))]);
    let c = vm.resolve_class("Plain").unwrap();
    let first = vm.heap.allocate_object(c, 0);
    let second = vm.heap.allocate_object(c, 0);
    let h1 = invoke_native(NativeFunction::ObjectHashCode, &ctx, &mut vm, &[Value::Reference(Some(first))]);
    let h2 = invoke_native(NativeFunction::ObjectHashCode, &ctx, &mut vm, &[Value::Reference(Some(second))]);
    let expected1 = vm.heap.get_object(first).unwrap().hash_code;
    assert!(matches!(h1, Ok(Some(Value::Int(h))) if h == expected1));
    assert!(matches!(h2, Ok(Some(Value::Int(h))) if h == expected1 + 1));
}

#[test]
fn for_name_finds_a_class_by_its_dotted_name() {
    let (mut vm, ctx) = native_vm(vec![("pkg/Thing", bare_class("pkg/Thing"))]);
    let name = vm.allocate_string("pkg.Thing");
    let args = [Value::Reference(Some(name)), Value::Int(0), Value::Reference(None), Value::Reference(None)];
    let object = match invoke_native(NativeFunction::ClassForName, &ctx, &mut vm, &args) {
        Ok(Some(Value::Reference(Some(o)))) => o,
        other => panic!("expected a class object, got {:?}", other),
    };
    let thing = vm.lookup_class("pkg/Thing").unwrap();
    assert_eq!(vm.heap.get_class_object(object).unwrap(), thing);
    assert!(invoke_native(NativeFunction::ClassForName, &ctx, &mut vm, &args[..3]).is_err());
}

#[test]
fn arraycopy_writes_from_the_source_position() {
    let (mut vm, ctx) = native_vm(vec![]);
    let src = vm.heap.allocate_array(None, dioptase::vm::heap::ArrayElementType::Int, 4);
    let dest = vm.heap.allocate_array(None, dioptase::vm::heap::ArrayElementType::Int, 4);
    for k in 0..4 {
        vm.heap.array_set(src, k, Value::Int(k as i32 + 1)).unwrap();
    }
    let args = [Value::Reference(Some(src)), Value::Int(1), Value::Reference(Some(dest)), Value::Int(0), Value::Int(2)];
    assert!(matches!(invoke_native(NativeFunction::SystemArraycopy, &ctx, &mut vm, &args), Ok(None)));
    let got: Vec<Value> = (0..4).map(|k| vm.heap.array_get(dest, k).unwrap().unwrap()).collect();
    assert_eq!(got, vec![Value::Int(0), Value::Int(2), Value::Int(3), Value::Int(0)]);
}

#[test]
fn get_caller_class_without_a_caller_is_null() {
    let (mut vm, ctx) = native_vm(vec![]);
    let r = invoke_native(NativeFunction::ReflectionGetCallerClass, &ctx, &mut vm, &[]);
    assert!(matches!(r, Ok(Some(Value::Reference(None)))));
}

#[test]
fn a_load_from_a_null_array_throws() {
    let mut pool = Pool::new();
    // aconst_null, iconst_2, iaload, ireturn
    let bytes = one_method("NullLoad", &mut pool, vec![0x01, 0x05, 0x2e, 0xac], 2);
    let mut vm = vm_with(vec![
        ("NullLoad", bytes),
        ("java/lang/NullPointerException", exception_class("java/lang/NullPointerException")),
    ]);
    let text = thrown_text(&mut vm, "NullLoad");
    assert_eq!(text, "java.lang.NullPointerException: Tried to access index 2 on a `null` array");
}

#[test]
fn remainder_by_zero_throws_arithmetic_exception_with_its_message() {
    let mut pool = Pool::new();
    // iconst_1, iconst_0, irem, ireturn
    let bytes = one_method("Rem", &mut pool, vec![0x04, 0x03, 0x70, 0xac], 2);
    let mut vm = vm_with(vec![
        ("Rem", bytes),
        ("java/lang/ArithmeticException", exception_class("java/lang/ArithmeticException")),
    ]);
    let text = thrown_text(&mut vm, "Rem");
    assert_eq!(text, "java.lang.ArithmeticException: Tried to device by 0 on `irem`");
}

fn arraycopy_exception(args_for: impl Fn(&mut VM<StdFloats>) -> Vec<Value>, class: &str) -> String {
    let (mut vm, ctx) = native_vm(vec![(class, exception_class(class))]);
    let args = args_for(&mut vm);
    match invoke_native(NativeFunction::SystemArraycopy, &ctx, &mut vm, &args) {
        Err(RuntimeError::Thrown(obj)) => vm.describe_exception(obj),
        other => panic!("expected an exception, got {:?}", other),
    }
}

#[test]
fn arraycopy_from_null_throws_null_pointer_exception() {
    let text = arraycopy_exception(
        |vm| {
            let dest = vm.heap.allocate_array(None, dioptase::vm::heap::ArrayElementType::Int, 2);
            vec![Value::Reference(None), Value::Int(0), Value::Reference(Some(dest)), Value::Int(0), Value::Int(1)]
        },
        "java/lang/NullPointerException",
    );
    assert_eq!(text, "java.lang.NullPointerException: src");
}

#[test]
fn arraycopy_with_a_negative_length_throws() {
    let text = arraycopy_exception(
        |vm| {
            let a = vm.heap.allocate_array(None, dioptase::vm::heap::ArrayElementType::Int, 2);
            vec![Value::Reference(Some(a)), Value::Int(0), Value::Reference(Some(a)), Value::Int(0), Value::Int(-1)]
        },
        "java/lang/IndexOutOfBoundsException",
    );
    assert_eq!(text, "java.lang.IndexOutOfBoundsException: Negative arraycopy index");
}

#[test]
fn arraycopy_between_different_primitive_types_throws() {
    let text = arraycopy_exception(
        |vm| {
            let a = vm.heap.allocate_array(None, dioptase::vm::heap::ArrayElementType::Int, 2);
            let b = vm.heap.allocate_array(None, dioptase::vm::heap::ArrayElementType::Long, 2);
            vec![Value::Reference(Some(a)), Value::Int(0), Value::Reference(Some(b)), Value::Int(0), Value::Int(1)]
        },
        "java/lang/ArrayStoreException",
    );
    assert_eq!(text, "java.lang.ArrayStoreException: incompatible primitive array types");
}

#[test]
fn arraycopy_of_nothing_between_different_types_succeeds() {
    let (mut vm, ctx) = native_vm(vec![]);
    let a = vm.heap.allocate_array(None, dioptase::vm::heap::ArrayElementType::Int, 2);
    let b = vm.heap.allocate_array(None, dioptase::vm::heap::ArrayElementType::Long, 2);
    let args = [Value::Reference(Some(a)), Value::Int(1), Value::Reference(Some(b)), Value::Int(2), Value::Int(0)];
    assert!(matches!(invoke_native(NativeFunction::SystemArraycopy, &ctx, &mut vm, &args), Ok(None)));
}

#[test]
fn get_name_gives_the_internal_name_of_the_class() {
    let (mut vm, ctx) = native_vm(vec![("pkg/Thing", bare_class("pkg/Thing"))]);
    let thing = vm.resolve_class("pkg/Thing").unwrap();
    let object = vm.class_object_for(thing).unwrap();
    let r = invoke_native(NativeFunction::ClassGetName, &ctx, &mut vm, &[Value::Reference(Some(object))]);
    let s = match r {
        Ok(Some(Value::Reference(Some(s)))) => s,
        other => panic!("expected a string, got {:?}", other),
    };
    assert_eq!(vm.java_string_to_rust(s).unwrap(), "pkg/Thing");
    assert!(invoke_native(NativeFunction::ClassGetName, &ctx, &mut vm, &[Value::Reference(None)]).is_err());
}

#[test]
fn invokevirtual_on_null_throws_null_pointer_exception() {
    let mut pool = Pool::new();
    let m = pool.method_ref("Virt", "m", "()V");
    let [hi, lo] = m.to_be_bytes();
    // aconst_null, invokevirtual Virt.m()V, iconst_0, ireturn
    let bytes = one_method("Virt", &mut pool, vec![0x01, 0xb6, hi, lo, 0x03, 0xac], 1);
    let mut vm = vm_with(vec![
        ("Virt", bytes),
        ("java/lang/NullPointerException", exception_class("java/lang/NullPointerException")),
    ]);
    let text = thrown_text(&mut vm, "Virt");
    assert_eq!(text, "java.lang.NullPointerException: objrectref on invokevirtual is `null`");
}

#[test]
fn for_name_of_a_missing_class_throws_class_not_found() {
    let cnfe = "java/lang/ClassNotFoundException";
    let (mut vm, ctx) = native_vm(vec![(cnfe, exception_class(cnfe))]);
    let name = vm.allocate_string("pkg.Missing");
    let args = [Value::Reference(Some(name)), Value::Int(1), Value::Reference(None), Value::Reference(None)];
    match invoke_native(NativeFunction::ClassForName, &ctx, &mut vm, &args) {
        Err(RuntimeError::Thrown(obj)) => {
            assert_eq!(vm.describe_exception(obj), "java.lang.ClassNotFoundException: pkg.Missing")
        }
        other => panic!("expected an exception, got {:?}", other),
    }
}

#[test]
fn for_name_of_null_throws_null_pointer_exception() {
    let npe = "java/lang/NullPointerException";
    let (mut vm, ctx) = native_vm(vec![(npe, exception_class(npe))]);
    let args = [Value::Reference(None), Value::Int(0), Value::Reference(None), Value::Reference(None)];
    match invoke_native(NativeFunction::ClassForName, &ctx, &mut vm, &args) {
        Err(RuntimeError::Thrown(obj)) => {
            assert_eq!(vm.describe_exception(obj), "java.lang.NullPointerException: class name is null")
        }
        other => panic!("expected an exception, got {:?}", other),
    }
}

#[test]
fn an_unregistered_native_method_throws_unsatisfied_link_error() {
    let mut pool = Pool::new();
    let ext = pool.method_ref("Nat", "ext", "()I");
    let [hi, lo] = ext.to_be_bytes();
    let bytes = class_file(
        &mut pool,
        "Nat",
        &[],
        &[
            Method { flags: STATIC_PUBLIC, name: "run", desc: "()I", max_stack: 1, max_locals: 0, code: vec![0xb8, hi, lo, 0xac], handlers: vec![] },
            Method { flags: 0x0109, name: "ext", desc: "()I", max_stack: 0, max_locals: 0, code: vec![], handlers: vec![] },
        ],
    );
    let ule = "java/lang/UnsatisfiedLinkError";
    let mut vm = vm_with(vec![("Nat", bytes), (ule, exception_class(ule))]);
    let text = thrown_text(&mut vm, "Nat");
    assert_eq!(text, "java.lang.UnsatisfiedLinkError: Nat.ext()I");
}


#[test]
fn run_main_without_a_system_class_fails() {
    let mut vm = vm_with(vec![]);
    assert!(matches!(vm.run_main("Main"), Err(RuntimeError::Internal(InternalError::ClassNotFound { .. }))));
}

#[test]
fn run_main_initializes_the_system_and_gives_what_main_returns() {
    let mut pool = Pool::new();
    let system = class_file(
        &mut pool,
        "java/lang/System",
        &[],
        &[Method { flags: STATIC_PUBLIC, name: "initializeSystemClass", desc: "()V", max_stack: 0, max_locals: 0, code: vec![0xb1], handlers: vec![] }],
    );
    let mut pool = Pool::new();
    // bipush 7, ireturn
    let main = class_file(
        &mut pool,
        "Main",
        &[],
        &[Method { flags: STATIC_PUBLIC, name: "main", desc: "([Ljava/lang/String;)I", max_stack: 1, max_locals: 1, code: vec![0x10, 7, 0xac], handlers: vec![] }],
    );
    let mut vm = vm_with(vec![("java/lang/System", system), ("Main", main)]);
    assert!(matches!(vm.run_main("Main"), Ok(Value::Int(7))));
}

#[test]
fn invoke_virtual_to_completion_runs_the_receivers_method() {
    let mut pool = Pool::new();
    // iconst_5, ireturn
    let bytes = class_file(
        &mut pool,
        "Box",
        &[],
        &[Method { flags: 0x0001, name: "get", desc: "()I", max_stack: 1, max_locals: 1, code: vec![0x08, 0xac], handlers: vec![] }],
    );
    let mut vm = vm_with(vec![("Box", bytes)]);
    let class = vm.resolve_class("Box").unwrap();
    let defaults = vm.default_field_values(class).unwrap();
    let obj = vm.heap.allocate_object_typed(class, &defaults);
    assert!(matches!(vm.invoke_virtual_to_completion(obj, "get", "()I", vec![]), Ok(Value::Int(5))));
    assert!(vm.invoke_virtual_to_completion(obj, "put", "()I", vec![]).is_err());
}

#[test]
fn aastore_of_an_unassignable_object_throws_array_store_exception() {
    let mut pool = Pool::new();
    let [bh, bl] = pool.class("B").to_be_bytes();
    let [ah, al] = pool.class("A").to_be_bytes();
    // iconst_1, anewarray B, iconst_0, new A, aastore, iconst_0, ireturn
    let bytes = one_method("Store", &mut pool, vec![0x04, 0xbd, bh, bl, 0x03, 0xbb, ah, al, 0x53, 0x03, 0xac], 3);
    let ase = "java/lang/ArrayStoreException";
    let mut vm = vm_with(vec![("Store", bytes), ("A", bare_class("A")), ("B", bare_class("B")), (ase, exception_class(ase))]);
    let text = thrown_text(&mut vm, "Store");
    assert_eq!(text, "java.lang.ArrayStoreException: Cannot assign A to B");
}

#[test]
fn fill_in_stack_trace_records_the_frames_outside_throwable() {
    let mut pool = Pool::new();
    let throwable = class_file(&mut pool, "java/lang/Throwable", &[(0x0002, "stackTrace", "[Ljava/lang/StackTraceElement;")], &[
        Method { flags: 0x0001, name: "fillInStackTrace", desc: "()Ljava/lang/Throwable;", max_stack: 0, max_locals: 1, code: vec![0xb1], handlers: vec![] },
    ]);
    let mut pool = Pool::new();
    let element = class_file(
        &mut pool,
        "java/lang/StackTraceElement",
        &[
            (0x0002, "declaringClass", "Ljava/lang/String;"),
            (0x0002, "methodName", "Ljava/lang/String;"),
            (0x0002, "fileName", "Ljava/lang/String;"),
            (0x0002, "lineNumber", "I"),
        ],
        &[],
    );
    let mut pool = Pool::new();
    let app = class_file(&mut pool, "pkg/App", &[], &[
        Method { flags: STATIC_PUBLIC, name: "go", desc: "()V", max_stack: 0, max_locals: 0, code: vec![0xb1], handlers: vec![] },
    ]);
    let (mut vm, ctx) = native_vm(vec![
        ("java/lang/Throwable", throwable),
        ("java/lang/StackTraceElement", element),
        ("[Ljava/lang/StackTraceElement;", bare_class("[Ljava/lang/StackTraceElement;")),
        ("pkg/App", app),
    ]);
    let app_class = vm.resolve_class("pkg/App").unwrap();
    let throwable_class = vm.resolve_class("java/lang/Throwable").unwrap();
    vm.threads[ctx.thread.0].push_frame(Frame::new(0, 0, app_class, 0));
    vm.threads[ctx.thread.0].push_frame(Frame::new(1, 0, throwable_class, 0));
    let defaults = vm.default_field_values(throwable_class).unwrap();
    let e = vm.heap.allocate_object_typed(throwable_class, &defaults);
    let r = invoke_native(NativeFunction::ThrowableFillInStackTrace, &ctx, &mut vm, &[Value::Reference(Some(e)), Value::Int(0)]);
    assert!(matches!(r, Ok(Some(Value::Reference(Some(x)))) if x == e));
    let trace = match vm.heap.get_field(e, 0).unwrap() {
        Value::Reference(Some(a)) => a,
        other => panic!("expected an array, got {:?}", other),
    };
    assert_eq!(vm.heap.array_len(trace).unwrap(), 1);
    let el = match vm.heap.array_get(trace, 0).unwrap().unwrap() {
        Value::Reference(Some(o)) => o,
        other => panic!("expected an element, got {:?}", other),
    };
    let text = |vm: &VM<StdFloats>, v: Value| match v {
        Value::Reference(Some(s)) => vm.java_string_to_rust(s).unwrap(),
        other => panic!("expected a string, got {:?}", other),
    };
    assert_eq!(text(&vm, vm.heap.get_field(el, 0).unwrap()), "pkg.App");
    assert_eq!(text(&vm, vm.heap.get_field(el, 1).unwrap()), "go");
    assert_eq!(vm.heap.get_field(el, 2).unwrap(), Value::Reference(None));
    assert_eq!(vm.heap.get_field(el, 3).unwrap(), Value::Int(-1));
}

#[test]
fn arraycopy_of_an_unassignable_element_throws_array_store_exception() {
    let ase = "java/lang/ArrayStoreException";
    let (mut vm, ctx) = native_vm(vec![("A", bare_class("A")), ("B", bare_class("B")), (ase, exception_class(ase))]);
    let a = vm.resolve_class("A").unwrap();
    let b = vm.resolve_class("B").unwrap();
    let defaults = vm.default_field_values(a).unwrap();
    let obj = vm.heap.allocate_object_typed(a, &defaults);
    let src = vm.heap.allocate_array(None, dioptase::vm::heap::ArrayElementType::Reference(a), 2);
    let dest = vm.heap.allocate_array(None, dioptase::vm::heap::ArrayElementType::Reference(b), 2);
    vm.heap.array_set(src, 1, Value::Reference(Some(obj))).unwrap();
    let args = [Value::Reference(Some(src)), Value::Int(0), Value::Reference(Some(dest)), Value::Int(0), Value::Int(2)];
    match invoke_native(NativeFunction::SystemArraycopy, &ctx, &mut vm, &args) {
        Err(RuntimeError::Thrown(o)) => {
            assert_eq!(vm.describe_exception(o), "java.lang.ArrayStoreException: array element has incompatible type")
        },
        other => panic!("expected an exception, got {:?}", other),
    }
    assert_eq!(vm.heap.array_get(dest, 0).unwrap().unwrap(), Value::Reference(None));
    assert_eq!(vm.heap.array_get(dest, 1).unwrap().unwrap(), Value::Reference(None));
}

#[test]
fn arraycopy_between_reference_arrays_copies_the_references() {
    let (mut vm, ctx) = native_vm(vec![("A", bare_class("A"))]);
    let a = vm.resolve_class("A").unwrap();
    let defaults = vm.default_field_values(a).unwrap();
    let obj = vm.heap.allocate_object_typed(a, &defaults);
    let src = vm.heap.allocate_array(None, dioptase::vm::heap::ArrayElementType::Reference(a), 3);
    let dest = vm.heap.allocate_array(None, dioptase::vm::heap::ArrayElementType::Reference(a), 3);
    vm.heap.array_set(src, 2, Value::Reference(Some(obj))).unwrap();
    let args = [Value::Reference(Some(src)), Value::Int(1), Value::Reference(Some(dest)), Value::Int(0), Value::Int(2)];
    assert!(matches!(invoke_native(NativeFunction::SystemArraycopy, &ctx, &mut vm, &args), Ok(None)));
    assert_eq!(vm.heap.array_get(dest, 0).unwrap().unwrap(), Value::Reference(None));
    assert_eq!(vm.heap.array_get(dest, 1).unwrap().unwrap(), Value::Reference(None));
    assert_eq!(vm.heap.array_get(dest, 2).unwrap().unwrap(), Value::Reference(Some(obj)));
}

#[test]
fn array_index_scale_of_a_plain_class_is_a_type_error() {
    let (mut vm, ctx) = native_vm(vec![("Plain", bare_class("Plain"))]);
    let c = vm.resolve_class("Plain").unwrap();
    let o = vm.class_object_for(c).unwrap();
    let r = invoke_native(NativeFunction::UnsafeArrayIndexScale, &ctx, &mut vm, &[Value::Reference(None), Value::Reference(Some(o))]);
    assert!(matches!(r, Err(RuntimeError::Internal(dioptase::error::InternalError::InvalidType { .. }))));
}

#[test]
fn arraycopy_to_an_object_that_is_not_an_array_throws() {
    let text = arraycopy_exception(
        |vm| {
            let a = vm.heap.allocate_array(None, dioptase::vm::heap::ArrayElementType::Int, 2);
            let c = vm.resolve_class("java/lang/ArrayStoreException").unwrap();
            let o = vm.heap.allocate_object(c, 0);
            vec![Value::Reference(Some(a)), Value::Int(0), Value::Reference(Some(o)), Value::Int(0), Value::Int(1)]
        },
        "java/lang/ArrayStoreException",
    );
    assert_eq!(text, "java.lang.ArrayStoreException: destination is not an array");
}

#[test]
fn arraycopy_past_the_end_of_the_destination_throws_and_leaves_it() {
    let ioobe = "java/lang/IndexOutOfBoundsException";
    let (mut vm, ctx) = native_vm(vec![(ioobe, exception_class(ioobe))]);
    let a = vm.heap.allocate_array(None, dioptase::vm::heap::ArrayElementType::Int, 4);
    let b = vm.heap.allocate_array(None, dioptase::vm::heap::ArrayElementType::Int, 2);
    vm.heap.array_set(a, 0, Value::Int(5)).unwrap();
    let args = [Value::Reference(Some(a)), Value::Int(0), Value::Reference(Some(b)), Value::Int(1), Value::Int(2)];
    match invoke_native(NativeFunction::SystemArraycopy, &ctx, &mut vm, &args) {
        Err(RuntimeError::Thrown(o)) => {
            assert_eq!(vm.describe_exception(o), "java.lang.IndexOutOfBoundsException: destination array bounds")
        },
        other => panic!("expected an exception, got {:?}", other),
    }
    assert_eq!(vm.heap.array_get(b, 0).unwrap().unwrap(), Value::Int(0));
    assert_eq!(vm.heap.array_get(b, 1).unwrap().unwrap(), Value::Int(0));
}

#[test]
fn arraycopy_with_an_overflowing_source_range_throws() {
    let text = arraycopy_exception(
        |vm| {
            let a = vm.heap.allocate_array(None, dioptase::vm::heap::ArrayElementType::Int, 2);
            vec![Value::Reference(Some(a)), Value::Int(i32::MAX), Value::Reference(Some(a)), Value::Int(0), Value::Int(1)]
        },
        "java/lang/IndexOutOfBoundsException",
    );
    assert_eq!(text, "java.lang.IndexOutOfBoundsException: source array range overflow");
}

fn one_virtual(class: &str, name: &'static str, desc: &'static str, max_locals: u16, code: Vec<u8>) -> Vec<u8> {
    let mut pool = Pool::new();
    class_file(
        &mut pool,
        class,
        &[],
        &[Method { flags: 0x0001, name, desc, max_stack: 2, max_locals, code, handlers: vec![] }],
    )
}

#[test]
fn do_privileged_gives_what_run_returns() {
    // aload_0, areturn
    let act = one_virtual("Act", "run", "()Ljava/lang/Object;", 1, vec![0x2a, 0xb0]);
    let (mut vm, ctx) = native_vm(vec![("Act", act)]);
    let c = vm.resolve_class("Act").unwrap();
    let defaults = vm.default_field_values(c).unwrap();
    let action = vm.heap.allocate_object_typed(c, &defaults);
    let r = invoke_native(NativeFunction::DoPrivilegedAction, &ctx, &mut vm, &[Value::Reference(Some(action))]);
    assert!(matches!(r, Ok(Some(Value::Reference(Some(o)))) if o == action));
    let r = invoke_native(NativeFunction::DoPrivileged, &ctx, &mut vm, &[Value::Reference(Some(action))]);
    assert!(matches!(r, Ok(Some(Value::Reference(Some(o)))) if o == action));
}

#[test]
fn do_privileged_passes_on_what_run_throws() {
    let ae = "java/lang/ArithmeticException";
    // iconst_1, iconst_0, irem, areturn
    let act = one_virtual("Act", "run", "()Ljava/lang/Object;", 1, vec![0x04, 0x03, 0x70, 0xb0]);
    let (mut vm, ctx) = native_vm(vec![("Act", act), (ae, exception_class(ae))]);
    let c = vm.resolve_class("Act").unwrap();
    let defaults = vm.default_field_values(c).unwrap();
    let action = vm.heap.allocate_object_typed(c, &defaults);
    match invoke_native(NativeFunction::DoPrivilegedAction, &ctx, &mut vm, &[Value::Reference(Some(action))]) {
        Err(RuntimeError::Thrown(o)) => assert!(vm.describe_exception(o).starts_with("java.lang.ArithmeticException")),
        other => panic!("expected an exception, got {:?}", other),
    }
}

#[test]
fn init_properties_sets_every_property_and_gives_the_object_back() {
    // aconst_null, areturn
    let props = one_virtual("Props", "setProperty", "(Ljava/lang/String;Ljava/lang/String;)Ljava/lang/Object;", 3, vec![0x01, 0xb0]);
    let (mut vm, ctx) = native_vm(vec![("Props", props)]);
    let c = vm.resolve_class("Props").unwrap();
    let defaults = vm.default_field_values(c).unwrap();
    let p = vm.heap.allocate_object_typed(c, &defaults);
    let before = vm.heap.len();
    let r = invoke_native(NativeFunction::SystemInitProperties, &ctx, &mut vm, &[Value::Reference(Some(p))]);
    assert!(matches!(r, Ok(Some(Value::Reference(Some(o)))) if o == p));
    assert!(vm.heap.len() >= before + 50);
}

#[test]
fn init_properties_without_set_property_fails() {
    let (mut vm, ctx) = native_vm(vec![("Plain", bare_class("Plain"))]);
    let c = vm.resolve_class("Plain").unwrap();
    let p = vm.heap.allocate_object(c, 0);
    let r = invoke_native(NativeFunction::SystemInitProperties, &ctx, &mut vm, &[Value::Reference(Some(p))]);
    assert!(matches!(r, Err(RuntimeError::Internal(_))));
}
