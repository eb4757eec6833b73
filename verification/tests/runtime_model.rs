use dioptase::error::{InternalError, RuntimeError};
use dioptase::native::native_registry::{NativeFunction, NativeMethodIdentifier, NativeMethodRegistry};
use dioptase::text::{push_decimal, push_digits, starts_with, str_eq};
use dioptase::vm::classpath::{ClassPath, ClassPathEntry, ClassPathFile};
use dioptase::vm::decode::decode;
use dioptase::vm::frame::Frame;
use dioptase::vm::heap::{ArrayElementType, Heap, HeapEntry};
use dioptase::vm::opcode::Opcode;
use dioptase::vm::runtime_class::ClassRef;
use dioptase::vm::runtime_method::RuntimeMethod;
use dioptase::vm::thread::{Thread, ThreadRef, ThreadState};
use dioptase::vm::value::{ObjectRef, Value};
use dioptase::vm::descriptor::{param_kinds, FieldKind};
use dioptase::vm::float::{FloatArithmetic, FloatOrdering};
use dioptase::vm::vm::VM;

struct NoFloats;

impl FloatArithmetic for NoFloats {
    fn float_mul(&self, a: u32, _b: u32) -> u32 {
        a
    }
    fn float_compare(&self, _a: u32, _b: u32) -> FloatOrdering {
        FloatOrdering::Unordered
    }
    fn int_to_float(&self, _i: i32) -> u32 {
        0
    }
    fn float_to_int(&self, _f: u32) -> i32 {
        0
    }
}

fn id(class: &str, method: &str, descriptor: &str) -> NativeMethodIdentifier {
    NativeMethodIdentifier::new(class.to_string(), method.to_string(), descriptor.to_string())
}

fn entry(files: &[(&str, &[u8])]) -> ClassPathEntry {
    ClassPathEntry {
        files: files
            .iter()
            .map(|(name, data)| ClassPathFile { name: name.to_string(), data: data.to_vec() })
            .collect(),
    }
}

#[test]
fn push_then_pop_gives_values_back() {
    let mut frame = Frame::new(2, 4, ClassRef(0), 0);
    assert_eq!(frame.locals.len(), 2);
    assert_eq!(frame.pc, 0);
    frame.push_value(Value::Int(5));
    frame.push_value(Value::Long(7));
    assert_eq!(frame.operand_stack.len(), 3);
    assert!(matches!(frame.pop_value(), Some(Value::Long(7))));
    assert_eq!(frame.operand_stack.len(), 1);
    assert!(matches!(frame.pop_value(), Some(Value::Int(5))));
    assert!(frame.pop_value().is_none());
}

#[test]
fn double_takes_two_stack_slots() {
    let mut frame = Frame::new(0, 2, ClassRef(1), 3);
    frame.push_value(Value::Double(0x4000_0000_0000_0000));
    assert_eq!(frame.operand_stack.len(), 2);
    assert!(matches!(frame.operand_stack[0], Value::Empty));
    assert!(matches!(frame.pop_value(), Some(Value::Double(0x4000_0000_0000_0000))));
    assert_eq!(frame.operand_stack.len(), 0);
}

#[test]
fn heap_field_write_then_read() {
    let mut heap = Heap::new();
    let r = heap.allocate_object(ClassRef(3), 2);
    assert_eq!(r.0, 0);
    assert!(heap.set_field(r, 1, Value::Int(9)).is_ok());
    assert!(matches!(heap.get_field(r, 1), Ok(Value::Int(9))));
    assert!(matches!(heap.get_field(r, 0), Ok(Value::Empty)));
    assert!(matches!(
        heap.set_field(r, 2, Value::Int(1)),
        Err(RuntimeError::Internal(InternalError::InvalidSlot))
    ));
    assert!(matches!(
        heap.get_field(ObjectRef(5), 0),
        Err(RuntimeError::Internal(InternalError::InvalidHeapEntry { .. }))
    ));
    assert!(matches!(heap.class_of(r), Ok(Some(ClassRef(3)))));
}

#[test]
fn heap_array_write_then_read() {
    let mut heap = Heap::new();
    let ints = heap.allocate_array(None, ArrayElementType::Int, 3);
    let refs = heap.allocate_array(None, ArrayElementType::Reference(ClassRef(2)), 2);
    assert_eq!(refs.0, 1);
    assert!(matches!(heap.array_get(ints, 0), Ok(Ok(Value::Int(0)))));
    assert!(matches!(heap.array_get(refs, 1), Ok(Ok(Value::Reference(None)))));
    assert!(heap.array_set(ints, 2, Value::Int(4)).is_ok());
    assert!(matches!(heap.array_get(ints, 2), Ok(Ok(Value::Int(4)))));
    assert!(matches!(heap.array_get(ints, 3), Ok(Err(3))));
    assert!(matches!(heap.array_len(ints), Ok(3)));
    assert!(matches!(
        heap.array_set(ints, 3, Value::Int(1)),
        Err(RuntimeError::Internal(InternalError::InvalidSlot))
    ));
    assert!(heap.get_field(ints, 0).is_err());
}

#[test]
fn identity_hashes_count_up_from_one() {
    let mut heap = Heap::new();
    let a = heap.allocate_object(ClassRef(0), 0);
    let b = heap.allocate_object(ClassRef(0), 0);
    assert_eq!(heap.get_object(a).unwrap().hash_code, 1);
    assert_eq!(heap.get_object(b).unwrap().hash_code, 2);
}

#[test]
fn strings_live_on_the_heap() {
    let mut heap = Heap::new();
    let s = heap.allocate_string("hello".to_string());
    assert_eq!(heap.get_string(s).unwrap().as_str(), "hello");
    assert!(heap.get_object(s).is_err());
    assert!(matches!(heap.get(s), Ok(HeapEntry::Str(_))));
}

#[test]
fn with_object_and_with_array_pass_the_entry() {
    let mut heap = Heap::new();
    let o = heap.allocate_object(ClassRef(4), 3);
    let a = heap.allocate_array(None, ArrayElementType::Long, 5);
    assert!(matches!(heap.with_object(o, |obj| Ok(obj.fields.len())), Ok(3)));
    assert!(matches!(heap.with_array(a, |arr| Ok(arr.elements.len())), Ok(5)));
    assert!(heap.with_object(a, |obj| Ok(obj.fields.len())).is_err());
    assert!(heap.with_array(o, |arr| Ok(arr.elements.len())).is_err());
}

#[test]
fn registry_register_then_get() {
    let mut registry = NativeMethodRegistry::new();
    let hash = id("java/lang/Object", "hashCode", "()I");
    assert!(!registry.contains(&hash));
    assert!(registry.register(hash.clone(), NativeFunction::ObjectHashCode).is_none());
    assert!(matches!(registry.get(&hash), Some(NativeFunction::ObjectHashCode)));
    assert!(matches!(
        registry.register(hash.clone(), NativeFunction::ClassGetName),
        Some(NativeFunction::ObjectHashCode)
    ));
    assert!(matches!(registry.get(&hash), Some(NativeFunction::ClassGetName)));
    assert!(registry.get(&id("java/lang/Object", "hashCode", "()J")).is_none());
    assert!(matches!(
        registry.register_parts("java/lang/Float", "floatToRawIntBits", "(F)I", NativeFunction::FloatToRawIntBits),
        None
    ));
    assert!(registry.contains(&id("java/lang/Float", "floatToRawIntBits", "(F)I")));
}

#[test]
fn builtin_registry_knows_the_builtin_natives() {
    let registry = NativeMethodRegistry::from_inventory();
    assert!(matches!(
        registry.get(&id("java/lang/Object", "hashCode", "()I")),
        Some(NativeFunction::ObjectHashCode)
    ));
    assert!(matches!(
        registry.get(&id("java/lang/Class", "getPrimitiveClass", "(Ljava/lang/String;)Ljava/lang/Class;")),
        Some(NativeFunction::ClassGetPrimitiveClass)
    ));
    assert!(registry.get(&id("java/lang/Object", "notify", "()V")).is_none());
}

#[test]
fn classpath_searches_bootstrap_then_extension_then_application() {
    let mut cp = ClassPath::empty();
    cp.add_application(entry(&[("A.class", &[2]), ("C.class", &[5])]));
    cp.add_extension(entry(&[("B.class", &[3])]));
    cp.add_bootstrap(entry(&[("A.class", &[1])]));
    cp.add_application(entry(&[("C.class", &[6])]));
    assert_eq!(cp.find_class("A"), Some(vec![1]));
    assert_eq!(cp.find_class("B"), Some(vec![3]));
    assert_eq!(cp.find_class("C"), Some(vec![5]));
    assert_eq!(cp.find_class("D"), None);
}

#[test]
fn opcodes_come_from_their_bytes() {
    assert!(matches!(Opcode::try_from(0x60), Ok(Opcode::IAdd)));
    assert!(matches!(Opcode::try_from(0xb8), Ok(Opcode::InvokeStatic)));
    assert!(matches!(Opcode::try_from(0x10), Ok(Opcode::Bipush)));
    assert!(Opcode::try_from(0xff).is_err());
    assert!(Opcode::try_from(0xca).is_err());
}

#[test]
fn instructions_decode_with_their_operands() {
    let code = [0x10u8, 0x05, 0x3c, 0xa7, 0xff, 0xfb];
    let bipush = decode(&code, 0).unwrap();
    assert!(matches!(bipush.op, Opcode::Bipush));
    assert_eq!(bipush.b1, 5);
    assert_eq!(bipush.next_pc, 2);
    let store = decode(&code, 2).unwrap();
    assert!(matches!(store.op, Opcode::IStore1));
    assert_eq!(store.next_pc, 3);
    let goto = decode(&code, 3).unwrap();
    assert!(matches!(goto.op, Opcode::Goto));
    assert_eq!((goto.b1, goto.b2), (0xff, 0xfb));
    assert!(decode(&code[..1], 0).is_err());
    assert!(decode(&code, 6).is_err());
}

#[test]
fn long_and_double_parameters_take_two_slots() {
    assert!(matches!(RuntimeMethod::param_slot_count_from_descriptor("(IJD)V"), Ok(5)));
    assert!(matches!(
        RuntimeMethod::param_slot_count_from_descriptor("(Ljava/lang/String;[I)V"),
        Ok(2)
    ));
    assert!(matches!(RuntimeMethod::param_slot_count_from_descriptor("()V"), Ok(0)));
    assert!(RuntimeMethod::param_slot_count_from_descriptor("not a descriptor").is_err());
}

#[test]
fn array_element_types_come_from_newarray_codes() {
    assert!(matches!(ArrayElementType::try_from(4), Ok(ArrayElementType::Boolean)));
    assert!(matches!(ArrayElementType::try_from(10), Ok(ArrayElementType::Int)));
    assert!(matches!(ArrayElementType::try_from(11), Ok(ArrayElementType::Long)));
    assert!(ArrayElementType::try_from(3).is_err());
    assert!(ArrayElementType::try_from(12).is_err());
    assert_eq!(ArrayElementType::Int.descriptor(), "I");
    assert_eq!(ArrayElementType::Boolean.descriptor(), "Z");
    assert_eq!(ArrayElementType::Double.descriptor(), "D");
}

#[test]
fn thread_states_and_frames() {
    let mut thread = Thread::new(ThreadRef(3), "worker".to_string());
    assert!(matches!(thread.state(), ThreadState::New));
    assert_eq!(thread.priority(), 5);
    assert_eq!(thread.name(), "worker");
    thread.start();
    assert!(matches!(thread.state(), ThreadState::Runnable));
    thread.push_frame(Frame::new(1, 1, ClassRef(2), 0));
    thread.push_frame(Frame::new(1, 1, ClassRef(5), 7));
    assert_eq!(thread.frame_depth(), 2);
    assert_eq!(thread.frame_snapshot(), vec![(ClassRef(2), 0), (ClassRef(5), 7)]);
    assert_eq!(thread.current_frame().unwrap().method_index, 7);
    thread.lock_frames().clear();
    assert_eq!(thread.frame_depth(), 0);
    assert!(thread.pop_frame().is_none());
    thread.set_priority(9);
    assert_eq!(thread.priority(), 9);
    thread.terminate();
    assert!(matches!(thread.state(), ThreadState::Terminated));
}

#[test]
fn decimal_text() {
    let mut s = String::from("n=");
    push_decimal(&mut s, -42);
    assert_eq!(s, "n=-42");
    let mut t = String::new();
    push_digits(&mut t, 0);
    push_digits(&mut t, 1234567890);
    assert_eq!(t, "01234567890");
    let mut u = String::new();
    push_decimal(&mut u, i64::MIN);
    assert_eq!(u, "-9223372036854775808");
    assert!(starts_with("[Ljava/lang/Object;", "[L"));
    assert!(!starts_with("[", "[["));
    assert!(str_eq("int", "int"));
    assert!(!str_eq("int", "long"));
}

#[test]
fn descriptors_name_their_parameter_kinds() {
    let kinds = param_kinds("(ZBCSIJFD[ILjava/lang/Object;)V").unwrap();
    assert_eq!(
        kinds,
        vec![
            FieldKind::Boolean,
            FieldKind::Byte,
            FieldKind::Char,
            FieldKind::Short,
            FieldKind::Int,
            FieldKind::Long,
            FieldKind::Float,
            FieldKind::Double,
            FieldKind::Array,
            FieldKind::Object,
        ]
    );
    assert_eq!(param_kinds("()I").unwrap(), vec![]);
    assert!(param_kinds("I").is_none());
    assert!(param_kinds("(Ljava/lang/Object").is_none());
}

#[test]
fn fields_start_at_zero_or_null() {
    let vm = VM::new(NoFloats);
    assert!(matches!(vm.default_value_for_descriptor("Z"), Ok(Value::Int(0))));
    assert!(matches!(vm.default_value_for_descriptor("J"), Ok(Value::Long(0))));
    assert!(matches!(vm.default_value_for_descriptor("D"), Ok(Value::Double(0))));
    assert!(matches!(vm.default_value_for_descriptor("[I"), Ok(Value::Reference(None))));
    assert!(matches!(vm.default_value_for_descriptor("Ljava/lang/String;"), Ok(Value::Reference(None))));
    assert!(matches!(
        vm.default_value_for_descriptor(""),
        Err(RuntimeError::Internal(InternalError::InvalidDescriptor))
    ));
    assert_eq!(vm.get_class(vm.primitive_classes.int).unwrap().name, "int");
    assert_eq!(vm.get_class(vm.primitive_classes.void).unwrap().name, "void");
}

#[test]
fn system_properties_describe_the_host() {
    let host = dioptase::vm::vm::HostInfo {
        os_name: "linux".to_string(),
        os_arch: "x86_64".to_string(),
        vm_version: "0.1.0".to_string(),
    };
    let props = dioptase::native::java::lang::system::system_properties(&host);
    assert_eq!(props.len(), 25);
    assert_eq!(props[0], ("java.version".to_string(), "1.8.0".to_string()));
    assert!(props.contains(&("os.name".to_string(), "linux".to_string())));
    assert!(props.contains(&("os.arch".to_string(), "x86_64".to_string())));
    assert!(props.contains(&("java.vm.version".to_string(), "0.1.0".to_string())));
    assert!(props.contains(&("line.separator".to_string(), "\n".to_string())));
}
