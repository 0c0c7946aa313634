use rjavavm::vm::access_flags::AccessFlags;
use rjavavm::vm::byte_code::{bytes_to_short, ops_to_bytes, parse, parse_op_at, Instruction};
use rjavavm::vm::class::{Class, ClassPtr, Method, MethodReference};
use rjavavm::vm::heap::{Heap, HeapEntry};
use rjavavm::vm::types::Type;
use rjavavm::vm::errors::RunTimeError;
use rjavavm::vm::operand_stack::OperandStack;
use rjavavm::vm::reference_manager::{ReferenceEntry, ReferenceManager};
use rjavavm::vm::stack::{Stack, StackFrame};
use std::collections::HashMap;
use std::rc::Rc;

#[test]
fn from_and_into_u16() {
    let raw: u16 = 0x0009;
    let f = AccessFlags::from(raw);
    assert_eq!(f.bits(), raw);
    let raw2: u16 = f.into();
    assert_eq!(raw2, raw);
}

#[test]
fn flag_checks() {
    let f = AccessFlags::from(AccessFlags::ACC_PUBLIC | AccessFlags::ACC_STATIC);
    assert!(f.is_public());
    assert!(f.is_static());
    assert!(!f.is_private());
}

#[test]
fn contains_combination() {
    let f = AccessFlags::from(AccessFlags::ACC_PUBLIC | AccessFlags::ACC_FINAL);
    assert!(f.contains(AccessFlags::ACC_PUBLIC));
    assert!(f.contains(AccessFlags::ACC_FINAL));
    assert!(!f.contains(AccessFlags::ACC_PROTECTED));
}

#[test]
fn every_flag_query_reads_its_bit() {
    let all = AccessFlags::from_bits(0xffff);
    assert!(all.is_protected() && all.is_final() && all.is_synthetic() && all.is_synchronized());
    assert!(all.is_native() && all.is_abstract() && all.is_strict() && all.is_volatile());
    assert!(all.is_transient() && all.is_enum());
    let none = AccessFlags::from_bits(0);
    assert!(!none.is_public() && !none.is_enum() && !none.is_transient());
}

#[test]
fn test_parse_bipush() {
    let bytes: &[u8] = &[0x10, 0x7f, 0x10, 0x80];
    let ops = parse(bytes).unwrap();
    assert_eq!(ops.len(), 2);
    match ops[0].instruction {
        Instruction::Bipush => assert_eq!(ops[0].args, &[0x7fu8]),
        _ => panic!("expected bipush"),
    }
    match ops[1].instruction {
        Instruction::Bipush => assert_eq!(ops[1].args, &[0x80u8]),
        _ => panic!("expected bipush"),
    }
}

#[test]
fn test_parse_iadd_and_pop() {
    let bytes: &[u8] = &[0x03, 0x04, 0x59, 0x60, 0x57];
    let ops = parse(bytes).unwrap();
    assert_eq!(ops.len(), 5);
    assert!(matches!(ops[2].instruction, Instruction::Dup));
    assert!(matches!(ops[3].instruction, Instruction::Iadd));
    assert!(matches!(ops[4].instruction, Instruction::Pop));
}

#[test]
fn test_parse_iconst_sequence() {
    let bytes: &[u8] = &[0x02, 0x03, 0x04, 0x08];
    let ops = parse(bytes).unwrap();
    assert_eq!(ops.len(), 4);
    match ops[0].instruction {
        Instruction::IconstM1 => (),
        _ => panic!("expected iconst_m1"),
    }
    match ops[1].instruction {
        Instruction::Iconst0 => (),
        _ => panic!("expected iconst_0"),
    }
    match ops[2].instruction {
        Instruction::Iconst1 => (),
        _ => panic!("expected iconst_1"),
    }
    match ops[3].instruction {
        Instruction::Iconst5 => (),
        _ => panic!("expected iconst_5"),
    }
}

#[test]
fn test_parse_simple_sequence() {
    let bytes: &[u8] = &[0x12, 0x05, 0x11, 0x01, 0x02, 0xb1, 0xb2, 0x00, 0x03];
    let ops = parse(bytes).unwrap();
    assert_eq!(ops.len(), 4);
    match ops[0].instruction {
        Instruction::Ldc => assert_eq!(ops[0].args, &[0x05u8]),
        _ => panic!("expected ldc"),
    }
    match ops[1].instruction {
        Instruction::Sipush => assert_eq!(ops[1].args, &[0x01u8, 0x02u8]),
        _ => panic!("expected sipush"),
    }
    match ops[2].instruction {
        Instruction::Return => assert_eq!(ops[2].args.len(), 0),
        _ => panic!("expected return"),
    }
    match ops[3].instruction {
        Instruction::Getstatic => assert_eq!(ops[3].args, &[0x00u8, 0x03u8]),
        _ => panic!("expected getstatic"),
    }
}

#[test]
fn test_parse_invokedynamic_and_invoke() {
    let bytes: &[u8] = &[0xba, 0x00, 0x01, 0x00, 0x00, 0xb6, 0x00, 0x02];
    let ops = parse(bytes).unwrap();
    assert_eq!(ops.len(), 2);
    match ops[0].instruction {
        Instruction::Invokedynamic => assert_eq!(ops[0].args, &[0x00u8, 0x01u8, 0x00u8, 0x00u8]),
        _ => panic!("expected invokedynamic"),
    }
    match ops[1].instruction {
        Instruction::Invokevirtual => assert_eq!(ops[1].args, &[0x00u8, 0x02u8]),
        _ => panic!("expected invokevirtual"),
    }
}

#[test]
fn test_parse_new() {
    let bytes: &[u8] = &[0xbb, 0x00, 0x07];
    let ops = parse(bytes).unwrap();
    assert_eq!(ops.len(), 1);
    match ops[0].instruction {
        Instruction::New => assert_eq!(ops[0].args, &[0x00u8, 0x07u8]),
        _ => panic!("expected new"),
    }
}

#[test]
fn test_parse_aload_and_astore() {
    let bytes: &[u8] = &[0x19, 0x04, 0x3a, 0x02];
    let ops = parse(bytes).unwrap();
    assert_eq!(ops.len(), 2);
    match ops[0].instruction {
        Instruction::Aload => assert_eq!(ops[0].args, &[0x04u8]),
        _ => panic!("expected aload"),
    }
    match ops[1].instruction {
        Instruction::Astore => assert_eq!(ops[1].args, &[0x02u8]),
        _ => panic!("expected astore"),
    }
}

#[test]
fn test_parse_aaload_and_aastore() {
    let bytes: &[u8] = &[0x32, 0x53];
    let ops = parse(bytes).unwrap();
    assert_eq!(ops.len(), 2);
    match ops[0].instruction {
        Instruction::Aaload => assert!(ops[0].args.is_empty()),
        _ => panic!("expected aaload"),
    }
    match ops[1].instruction {
        Instruction::Aastore => assert!(ops[1].args.is_empty()),
        _ => panic!("expected aastore"),
    }
}

#[test]
fn test_parse_areturn() {
    let bytes: &[u8] = &[0xb0];
    let ops = parse(bytes).unwrap();
    assert_eq!(ops.len(), 1);
    match ops[0].instruction {
        Instruction::Areturn => assert!(ops[0].args.is_empty()),
        _ => panic!("expected areturn"),
    }
}

#[test]
fn test_hello_java() {
    let bytes = &[0xb2 as u8, 0x00, 0x07, 0x12, 0x0f, 0xb6, 0x00, 0x11, 0xb1];
    let ops = parse(bytes).unwrap();
    assert_eq!(ops.len(), 4);
    for op in ops.iter() {
        println!("{} {:?}", op.instruction.mnemonic(), op.args);
    }
}

#[test]
fn unknown_opcode_is_named_in_hex() {
    match parse(&[0x03, 0xfe]) {
        Err(RunTimeError::Other(m)) => assert_eq!(m, "Unknown instruction 0xfe"),
        other => panic!("unexpected {:?}", other.map(|v| v.len())),
    }
    match parse_op_at(&[0x0a], 0) {
        Err(RunTimeError::Other(m)) => assert_eq!(m, "Unknown instruction 0x0a"),
        _ => panic!("expected an error"),
    }
}

#[test]
fn missing_operands_and_offsets_are_errors() {
    match parse(&[0x11, 0x01]) {
        Err(RunTimeError::Other(m)) => assert_eq!(m, "Not enough bytes for instruction arguments"),
        _ => panic!("expected an error"),
    }
    match parse_op_at(&[0xb1], 1) {
        Err(RunTimeError::Other(m)) => assert_eq!(m, "offset out of range"),
        _ => panic!("expected an error"),
    }
}

#[test]
fn op_records_its_offset() {
    let (op, n) = parse_op_at(&[0x03, 0xa1, 0xff, 0xfb], 1).unwrap();
    assert_eq!(op.index, 1);
    assert_eq!(n, 2);
    assert!(matches!(op.instruction, Instruction::IfIcmplt));
    assert_eq!(bytes_to_short(op.args), -5);
}

#[test]
fn opcodes_and_mnemonics() {
    assert_eq!(Instruction::Sipush.opcode(), 0x11);
    assert_eq!(Instruction::IfIcmpeq.mnemonic(), "if_icmpeq");
    assert_eq!(Instruction::Iload3.sub(Instruction::Iload0), 3);
    assert_eq!(Instruction::Iconst0.sub(Instruction::Iconst3), -3);
    for b in 0..=255u8 {
        if let Ok((op, _)) = parse_op_at(&[b, 0, 0, 0, 0], 0) {
            assert_eq!(op.instruction.opcode(), b);
        }
    }
}

#[test]
fn short_from_bytes() {
    assert_eq!(bytes_to_short(&[0x01, 0x02]), 0x0102);
    assert_eq!(bytes_to_short(&[0xff, 0xff]), -1);
    assert_eq!(bytes_to_short(&[0x80, 0x00]), i16::MIN);
}

#[test]
fn push_pop_i32() {
    let mut s = OperandStack::new(8);
    s.push(0i32);
    s.push(123i32);
    let v: i32 = s.pop().unwrap();
    assert_eq!(v, 123);
    let v2: i32 = s.pop().unwrap();
    assert_eq!(v2, 0);
    let none: Option<i32> = s.pop();
    assert!(none.is_none());
}

#[test]
fn push_pop_i8() {
    let mut s = OperandStack::new(8);
    s.push(0i8);
    s.push(-5i8);
    let v: i8 = s.pop().unwrap();
    assert_eq!(v, -5);
    let v2: i8 = s.pop().unwrap();
    assert_eq!(v2, 0);
    let none: Option<i8> = s.pop();
    assert!(none.is_none());
}

#[test]
fn push_pop_i64() {
    let mut s = OperandStack::new(8);
    s.push(0i64);
    let n: i64 = 0x0102030405060708i64;
    s.push(n);
    let v: i64 = s.pop().unwrap();
    assert_eq!(v, n);
    let v2: i64 = s.pop().unwrap();
    assert_eq!(v2, 0);
}

#[test]
fn push_pop_f32_f64() {
    // A float takes one slot holding its bits, a double two: the same slots as an
    // `i32` and an `i64` holding those bits.
    let mut s = OperandStack::new(8);
    let f: f32 = 3.14;
    let d: f64 = -12.3456789;
    s.push(f.to_bits() as i32);
    s.push(d.to_bits() as i64);
    let dd = f64::from_bits(s.pop::<i64>().unwrap() as u64);
    let ff = f32::from_bits(s.pop::<i32>().unwrap() as u32);
    assert_eq!(ff.to_bits(), f.to_bits());
    assert_eq!(dd.to_bits(), d.to_bits());
}

#[test]
fn pop_across_widths_and_underflow() {
    let mut s = OperandStack::new(2);
    s.push(-2i16);
    assert_eq!(s.len(), 1);
    let none: Option<i64> = s.pop();
    assert!(none.is_none());
    assert_eq!(s.len(), 0);
    s.push(-1i64);
    assert_eq!(s.len(), 2);
    let low: i32 = s.pop().unwrap();
    let high: i32 = s.pop().unwrap();
    assert_eq!((low, high), (-1, -1));
    s.push(300i32);
    let b: i8 = s.pop().unwrap();
    assert_eq!(b, 44);
}

#[test]
fn allocate_and_resolve_heap() {
    let mut rm = ReferenceManager::new();
    let r = rm.allocate_heap(42u32);
    assert!(r != 0);
    assert_eq!(rm.resolve_heap(r), Some(42u32));
    assert_eq!(rm.len(), 1);
}

#[test]
fn allocate_and_resolve_symbolic() {
    let mut rm = ReferenceManager::new();
    let id = "java/lang/Foo.bar()V".to_string();
    let r = rm.allocate_symbolic(id.clone());
    assert!(r != 0);
    assert_eq!(rm.resolve_symbolic(r), Some(id));
    assert_eq!(rm.len(), 1);
}

#[test]
fn remove_reference() {
    let mut rm = ReferenceManager::new();
    let r1 = rm.allocate_heap(1u32);
    let r2 = rm.allocate_symbolic("X".to_string());
    assert_eq!(rm.len(), 2);
    assert!(matches!(rm.remove(r1), Some(ReferenceEntry::Heap(1u32))));
    assert_eq!(rm.len(), 1);
    assert!(matches!(rm.remove(r2), Some(ReferenceEntry::Symbolic(_))));
    assert_eq!(rm.len(), 0);
}

#[test]
fn references_count_up_from_one() {
    let mut rm = ReferenceManager::new();
    let a = rm.allocate_new();
    let b = rm.allocate_heap(7);
    assert_eq!((a, b), (1, 2));
    assert_eq!(rm.resolve_heap(a), Some(1));
    assert!(matches!(rm.resolve(b), Some(ReferenceEntry::Heap(7))));
    assert_eq!(rm.resolve_symbolic(b), None);
    assert!(rm.resolve(99).is_none());
    assert!(rm.remove(99).is_none());
}

fn dummy_class() -> ClassPtr {
    Rc::new(Class {
        constant_pool: Rc::new(vec![]),
        methods: vec![],
        fields: vec![],
        method_by_index: HashMap::new(),
        field_by_index: HashMap::new(),
    })
}

fn dummy_method(max_locals: u16) -> Rc<Method> {
    Rc::new(Method {
        name: "<dummy>".to_string(),
        access_flags: AccessFlags::from(0u16),
        max_stack: 0,
        max_locals,
        descriptor: "".to_string(),
        code: vec![],
    })
}

fn make_frame(size: usize) -> StackFrame {
    StackFrame {
        operand_stack: OperandStack::new(0),
        local_variables: vec![[0, 0, 0, 0]; size],
        class: dummy_class(),
        method: dummy_method(0),
    }
}

#[test]
fn set_get_variable_value_bool() {
    let mut frame = make_frame(1);
    frame.set_variable_value(0, true).unwrap();
    let v: bool = frame.get_variable_value(0).unwrap();
    assert_eq!(v, true);
}

#[test]
fn set_get_variable_value_i8() {
    let mut frame = make_frame(1);
    frame.set_variable_value(0, -5i8).unwrap();
    let v: i8 = frame.get_variable_value(0).unwrap();
    assert_eq!(v, -5);
}

#[test]
fn set_get_variable_value_u16() {
    let mut frame = make_frame(1);
    frame.set_variable_value(0, 1234u16).unwrap();
    let v: u16 = frame.get_variable_value(0).unwrap();
    assert_eq!(v, 1234);
}

#[test]
fn set_get_variable_value_i32() {
    let mut frame = make_frame(1);
    frame.set_variable_value(0, 42i32).unwrap();
    let v: i32 = frame.get_variable_value(0).unwrap();
    assert_eq!(v, 42);
}

#[test]
fn set_get_variable_value_f32() {
    // A float is kept as its bits in one slot, as an `i32` holding them.
    let f: f32 = 3.14;
    let mut frame = make_frame(1);
    frame.set_variable_value(0, f.to_bits() as i32).unwrap();
    let v = f32::from_bits(frame.get_variable_value::<i32>(0).unwrap() as u32);
    assert_eq!(v.to_bits(), f.to_bits());
}

#[test]
fn set_get_variable_value_i64() {
    let n: i64 = 0x0102030405060708;
    let mut frame = make_frame(2);
    frame.set_variable_value(0, n).unwrap();
    let v: i64 = frame.get_variable_value(0).unwrap();
    assert_eq!(v, n);
}

#[test]
fn set_get_variable_value_f64() {
    // A double is kept as its bits in two slots, as an `i64` holding them.
    let d: f64 = -12.3456789;
    let mut frame = make_frame(2);
    frame.set_variable_value(0, d.to_bits() as i64).unwrap();
    let v = f64::from_bits(frame.get_variable_value::<i64>(0).unwrap() as u64);
    assert_eq!(v.to_bits(), d.to_bits());
}

#[test]
fn set_get_variable_value_at_nonzero_slot() {
    let mut frame = make_frame(3);
    frame.set_variable_value(1, 99i32).unwrap();
    let v: i32 = frame.get_variable_value(1).unwrap();
    assert_eq!(v, 99);
}

#[test]
fn get_variable_value_out_of_range() {
    let frame = make_frame(1);
    let result: Result<i32, RunTimeError> = frame.get_variable_value(5);
    assert!(result.is_err());
}

#[test]
fn set_variable_value_out_of_range() {
    let mut frame = make_frame(1);
    let result = frame.set_variable_value(5, 42i32);
    assert!(result.is_err());
}

#[test]
fn wide_value_needs_two_slots() {
    let mut frame = make_frame(2);
    assert!(frame.set_variable_value(1, 7i64).is_err());
    frame.set_variable_value(0, -1i32).unwrap();
    frame.set_variable_value(1, 300u16).unwrap();
    assert_eq!(frame.get_variable_value::<i32>(0).unwrap(), -1);
    assert_eq!(frame.get_variable_value::<i8>(1).unwrap(), 44);
    assert_eq!(frame.get_variable_value::<bool>(1).unwrap(), true);
    assert!(frame.get_variable_value::<i64>(1).is_err());
}

#[test]
fn new_frame_has_zeroed_locals() {
    let frame = StackFrame::new(MethodReference::new(dummy_method(3), dummy_class())).unwrap();
    assert_eq!(frame.local_variables.len(), 3);
    assert_eq!(frame.get_variable_value::<i64>(1).unwrap(), 0);
    assert_eq!(frame.operand_stack.len(), 0);
}

#[test]
fn stack_keeps_frames_and_return_addresses_in_order() {
    let mut stack = Stack::new();
    assert!(stack.top_frame().is_none());
    stack.push_frame(make_frame(1));
    stack.push_frame(make_frame(4));
    assert_eq!(stack.top_frame().unwrap().local_variables.len(), 4);
    assert_eq!(stack.pop_frame().unwrap().local_variables.len(), 4);
    assert_eq!(stack.pop_frame().unwrap().local_variables.len(), 1);
    assert!(stack.pop_frame().is_none());
    stack.push_return_address(5);
    stack.push_return_address(9);
    assert_eq!(stack.pop_return_address(), Some(9));
    assert_eq!(stack.pop_return_address(), Some(5));
    assert_eq!(stack.pop_return_address(), None);
}

#[test]
fn program_counter_moves_and_wraps() {
    let mut stack = Stack::new();
    assert_eq!(stack.get_pc(), 0);
    stack.move_pc_next();
    stack.increase_pc(4);
    assert_eq!(stack.program_counter(), 5);
    stack.decrease_pc(7);
    assert_eq!(stack.get_pc(), usize::MAX - 1);
    stack.increase_pc(7);
    assert_eq!(stack.get_pc(), 5);
    stack.jump_pc(40);
    assert_eq!(stack.get_pc(), 40);
    stack.set_pc(2);
    assert_eq!(stack.get_pc(), 2);
}

#[test]
fn laying_out_decoded_code_gives_the_code_back() {
    let code: &[u8] = &[0x10, 0x7f, 0x11, 0x01, 0x02, 0xba, 0x00, 0x01, 0x00, 0x00, 0x1a, 0xa1, 0xff, 0xf6, 0xb1];
    let ops = parse(code).unwrap();
    assert_eq!(ops.len(), 6);
    assert_eq!(ops_to_bytes(&ops), code.to_vec());
    let laid_out = ops_to_bytes(&ops);
    let again = parse(&laid_out).unwrap();
    assert_eq!(again.len(), ops.len());
    for (a, b) in again.iter().zip(ops.iter()) {
        assert_eq!(a.index, b.index);
        assert_eq!(a.instruction, b.instruction);
        assert_eq!(a.args, b.args);
    }
}

#[test]
fn allocations_hand_out_distinct_references() {
    let mut rm = ReferenceManager::new();
    let mut seen = std::collections::HashSet::new();
    for i in 0..100u32 {
        let r = if i % 2 == 0 { rm.allocate_new() } else { rm.allocate_symbolic(format!("s{}", i)) };
        assert!(r != 0);
        assert!(seen.insert(r));
    }
    assert_eq!(rm.len(), 100);
}

#[test]
fn ops_read_as_traces() {
    let code: &[u8] = &[0x10, 0x7f, 0x11, 0x01, 0x02, 0xb1];
    let (bipush, _) = parse_op_at(code, 0).unwrap();
    assert_eq!(bipush.text(), "0: bipush 0x7f");
    let (sipush, _) = parse_op_at(code, 2).unwrap();
    assert_eq!(sipush.text(), "2: sipush 0x01 0x02");
    let (ret, _) = parse_op_at(code, 5).unwrap();
    assert_eq!(ret.text(), "5: return");
}

#[test]
fn runtime_errors_read_as_messages() {
    assert_eq!(RunTimeError::UnknownInstruction(0xba).text(), "Unknown instruction: 0xba");
    assert_eq!(RunTimeError::UnknownInstruction(5).text(), "Unknown instruction: 0x05");
    assert_eq!(RunTimeError::Other("plain".to_string()).text(), "plain");
    assert_eq!(RunTimeError::Notimplemented("x".to_string()).text(), "Not implemented: x");
    assert_eq!(RunTimeError::ClassLoadError("y".to_string()).text(), "Class load error: y");
    assert_eq!(RunTimeError::ResolveMethodError("z".to_string()).text(), "Resolve method error: z");
}

#[test]
fn operand_stack_reads_as_its_words() {
    let mut stack = OperandStack::new(4);
    assert_eq!(stack.text(), "OperandStack(len=0) []");
    stack.push(1i32);
    stack.push(-1i32);
    assert_eq!(stack.text(), "OperandStack(len=2) [0x00000001, 0xffffffff]");
    stack.push(0x0102030405060708i64);
    assert_eq!(
        stack.text(),
        "OperandStack(len=4) [0x00000001, 0xffffffff, 0x01020304, 0x05060708]"
    );
}

#[test]
fn allocates_object_and_sets_field() {
    let mut heap = Heap::new();
    let id = heap.allocate_object_with_id(1, "java/io/PrintStream");

    let object = heap.get_object_mut(id).unwrap();
    object.set_field("out:Ljava/lang/String;", Type::Reference(7));

    let object = heap.get_object(id).unwrap();
    assert_eq!(object.class_name, "java/io/PrintStream");
    assert_eq!(object.get_field("out:Ljava/lang/String;"), Some(&Type::Reference(7)));
}

#[test]
fn allocates_array_and_updates_element() {
    let mut heap = Heap::new();
    let id = heap.allocate_array_with_id(2, "Ljava/lang/String;", 2);

    let array = heap.get_array_mut(id).unwrap();
    assert_eq!(array.len(), 2);
    assert_eq!(array.get(0), Some(&Type::Null));
    assert_eq!(array.set(1, Type::Reference(99)), Some(()));

    let array = heap.get_array(id).unwrap();
    assert_eq!(array.get(1), Some(&Type::Reference(99)));
}

#[test]
fn removes_entries() {
    let mut heap = Heap::new();
    let id = heap.allocate_object_with_id(4, "java/lang/Object");
    assert_eq!(heap.len(), 1);
    assert!(matches!(heap.remove(id), Some(HeapEntry::Object(_))));
    assert_eq!(heap.len(), 0);
}

#[test]
fn heap_kinds_and_ids_are_kept_apart() {
    let mut heap = Heap::new();
    heap.allocate_object_with_id(1, "A");
    heap.allocate_array_with_id(2, "I", 3);
    assert_eq!(heap.len(), 2);
    assert!(heap.get_array(1).is_none());
    assert!(heap.get_object(2).is_none());
    assert!(heap.get_object_mut(2).is_none());
    assert!(heap.get_array_mut(1).is_none());
    assert!(heap.get(3).is_none());
    assert!(heap.remove(3).is_none());
    assert_eq!(heap.len(), 2);
    // a second allocation under an id replaces what was there
    heap.allocate_array_with_id(1, "J", 1);
    assert_eq!(heap.len(), 2);
    assert!(heap.get_object(1).is_none());
    assert_eq!(heap.get_array(1).unwrap().element_descriptor, "J");
    let ids: Vec<usize> = heap.entries_ref().iter().map(|e| e.0).collect();
    assert_eq!(ids, vec![1, 2]);
}

#[test]
fn fields_and_elements_read_back_what_was_written() {
    let mut heap = Heap::new();
    heap.allocate_object_with_id(7, "P");
    {
        let o = heap.get_object_mut(7).unwrap();
        o.set_field("x", Type::Int(1));
        o.set_field("y", Type::Float(0x3f80_0000));
        o.set_field("x", Type::Int(2));
        assert_eq!(o.get_field("missing"), None);
    }
    let o = heap.get_object(7).unwrap();
    assert_eq!(o.get_field("x"), Some(&Type::Int(2)));
    assert_eq!(o.get_field("y"), Some(&Type::Float(1.0f32.to_bits())));
    heap.allocate_array_with_id(8, "I", 2);
    match heap.get_mut(8) {
        Some(HeapEntry::Array(a)) => {
            assert_eq!(a.set(2, Type::Int(5)), None);
            assert_eq!(a.set(0, Type::Int(5)), Some(()));
        }
        _ => panic!("expected an array"),
    }
    let a = heap.get_array(8).unwrap();
    assert_eq!(a.get(0), Some(&Type::Int(5)));
    assert_eq!(a.get(1), Some(&Type::Null));
    assert_eq!(a.get(2), None);
}

#[test]
fn each_new_reference_is_untracked_and_counts_one_more() {
    let mut rm = ReferenceManager::new();
    let a = rm.allocate_new();
    let b = rm.allocate_heap(40);
    let c = rm.allocate_symbolic("A.f:I".to_string());
    assert_eq!((a, b, c), (1, 2, 3));
    assert_eq!(rm.len(), 3);
    rm.remove(b);
    assert_eq!(rm.len(), 2);
    let d = rm.allocate_heap(41);
    assert_eq!(d, 4);
    assert_eq!(rm.len(), 3);
    assert_eq!(rm.resolve_heap(d), Some(41));
    assert!(rm.resolve(b).is_none());
}

#[test]
fn decoded_offsets_follow_each_other() {
    // bipush 1; sipush 2; iadd; invokestatic #3; return
    let code: &[u8] = &[0x10, 0x01, 0x11, 0x00, 0x02, 0x60, 0xb8, 0x00, 0x03, 0xb1];
    let ops = parse(code).unwrap();
    let offsets: Vec<usize> = ops.iter().map(|o| o.index).collect();
    assert_eq!(offsets, vec![0, 2, 5, 6, 9]);
    let last = ops.last().unwrap();
    assert_eq!(last.index + 1 + last.args.len(), code.len());
    assert!(parse(&[]).unwrap().is_empty());
}
