use rjavavm::loader::java_class::{ConstantPoolInfo, ConstantPoolPFieldInfo, ConstantPoolTag, RefFieldInfo};
use rjavavm::vm::access_flags::AccessFlags;
use rjavavm::vm::class::{Class, ClassPtr, Field, Method, MethodReference};
use rjavavm::vm::byte_code::{ops_to_bytes, Instruction, Op};
use rjavavm::vm::class_name_from_identifier;
use rjavavm::vm::errors::RunTimeError;
use rjavavm::vm::method_area::MethodArea;
use rjavavm::vm::reference_manager::{ReferenceEntry, ReferenceManager};
use rjavavm::vm::thread::{Fault, Step, Thread};
use std::collections::HashMap;
use std::rc::Rc;

fn utf8(s: &str) -> ConstantPoolInfo {
    ConstantPoolInfo {
        tag: ConstantPoolTag::Utf8,
        info: ConstantPoolPFieldInfo::Utf8Info { length: s.len() as u16, bytes: s.as_bytes().to_vec() },
    }
}

fn utf8_bytes(b: &[u8]) -> ConstantPoolInfo {
    ConstantPoolInfo {
        tag: ConstantPoolTag::Utf8,
        info: ConstantPoolPFieldInfo::Utf8Info { length: b.len() as u16, bytes: b.to_vec() },
    }
}

fn class_entry(name_index: u16) -> ConstantPoolInfo {
    ConstantPoolInfo { tag: ConstantPoolTag::Class, info: ConstantPoolPFieldInfo::ClassInfo { name_index } }
}

fn name_and_type(name_index: u16, descriptor_index: u16) -> ConstantPoolInfo {
    ConstantPoolInfo {
        tag: ConstantPoolTag::NameAndType,
        info: ConstantPoolPFieldInfo::NameAndType { name_index, descriptor_index },
    }
}

fn method_ref(class_index: u16, name_and_type_index: u16) -> ConstantPoolInfo {
    ConstantPoolInfo {
        tag: ConstantPoolTag::Methodref,
        info: ConstantPoolPFieldInfo::MethodRef(RefFieldInfo { class_index, name_and_type_index }),
    }
}

fn field_ref(class_index: u16, name_and_type_index: u16) -> ConstantPoolInfo {
    ConstantPoolInfo {
        tag: ConstantPoolTag::Fieldref,
        info: ConstantPoolPFieldInfo::FieldRef(RefFieldInfo { class_index, name_and_type_index }),
    }
}

fn method(name: &str, descriptor: &str, max_locals: u16, code: Vec<u8>) -> Rc<Method> {
    Rc::new(Method {
        name: name.to_string(),
        descriptor: descriptor.to_string(),
        access_flags: AccessFlags::from_bits(AccessFlags::ACC_STATIC),
        max_stack: 4,
        max_locals,
        code,
    })
}

/// A class `Calc` with `main()V` running `code`, a static `add(II)I`, a static field
/// `count:I`, and references to `Calc.add`, `Calc.count` and `Other.run`.
fn calc_class(code: Vec<u8>) -> ClassPtr {
    let pool = vec![
        method_ref(2, 3),      // #1 Calc.add(II)I
        class_entry(4),        // #2
        name_and_type(5, 6),   // #3
        utf8("Calc"),          // #4
        utf8("add"),           // #5
        utf8("(II)I"),         // #6
        utf8("Code"),          // #7
        utf8("main"),          // #8
        utf8("()V"),           // #9
        field_ref(2, 11),      // #10 Calc.count:I
        name_and_type(12, 13), // #11
        utf8("count"),         // #12
        utf8("I"),             // #13
        method_ref(15, 16),    // #14 Other.run()V
        class_entry(17),       // #15
        name_and_type(18, 9),  // #16
        utf8("Other"),         // #17
        utf8("run"),           // #18
        method_ref(4, 3),      // #19 names a Utf8 entry as its class
        field_ref(2, 21),      // #20 Calc.missing:I
        name_and_type(22, 13), // #21
        utf8("missing"),       // #22
        method_ref(2, 24),     // #23 Calc.sub(II)I
        name_and_type(25, 6),  // #24
        utf8("sub"),           // #25
        utf8_bytes(&[0x48, 0xff, 0x69]), // #26 not valid UTF-8
    ];
    let main = method("main", "()V", 1, code);
    let add = method("add", "(II)I", 2, vec![0x1a, 0x1b, 0x60, 0xb1]);
    let count = Rc::new(Field {
        name: "count".to_string(),
        descriptor: "I".to_string(),
        access_flags: AccessFlags::from_bits(AccessFlags::ACC_STATIC),
        constant_value: None,
    });
    let mut method_by_index = HashMap::new();
    method_by_index.insert(8u16, main.clone());
    method_by_index.insert(5u16, add.clone());
    let mut field_by_index = HashMap::new();
    field_by_index.insert(12u16, count.clone());
    Rc::new(Class {
        constant_pool: Rc::new(pool),
        methods: vec![main, add],
        fields: vec![count],
        method_by_index,
        field_by_index,
    })
}

/// A thread running `main` of a `Calc` class with `code`, the class loaded.
fn thread_for(code: Vec<u8>) -> Thread {
    let class = calc_class(code);
    let mut ma = MethodArea::new();
    ma.insert("Calc".to_string(), class.clone());
    let mut thread = Thread::new(ma, ReferenceManager::new());
    let main = class.methods[0].clone();
    thread.invoke(MethodReference::new(main, class)).unwrap();
    thread
}

fn top_operands(thread: &mut Thread, count: usize) -> Vec<i32> {
    let mut frame = thread.stack.pop_frame().unwrap();
    let mut out = Vec::new();
    for _ in 0..count {
        out.push(frame.operand_stack.pop::<i32>().unwrap());
    }
    out.reverse();
    thread.stack.push_frame(frame);
    out
}

fn step_ok(thread: &mut Thread) {
    match thread.step() {
        Ok(Step::Continue) => {}
        Ok(Step::NeedClass(c)) => panic!("unexpected class request {}", c),
        Ok(Step::Finished) => panic!("unexpected end of the code"),
        Err(f) => panic!("unexpected fault {:?}", f),
    }
}

#[test]
fn pushes_constants_and_moves_on() {
    // bipush -3; sipush 300
    let mut t = thread_for(vec![0x10, 0xfd, 0x11, 0x01, 0x2c]);
    step_ok(&mut t);
    assert_eq!(t.stack.get_pc(), 2);
    step_ok(&mut t);
    assert_eq!(t.stack.get_pc(), 5);
    assert_eq!(top_operands(&mut t, 2), vec![-3, 300]);
}

#[test]
fn end_of_the_code_finishes_the_thread() {
    // bipush 2; return
    let mut t = thread_for(vec![0x10, 0x02, 0xb1]);
    step_ok(&mut t);
    step_ok(&mut t);
    assert_eq!(t.stack.get_pc(), 3);
    assert!(matches!(t.step(), Ok(Step::Finished)));
    // finishing changes nothing
    assert!(matches!(t.step(), Ok(Step::Finished)));
    assert_eq!(t.stack.get_pc(), 3);
    assert_eq!(top_operands(&mut t, 1), vec![2]);
}

#[test]
fn program_counter_past_the_end_is_an_error() {
    let mut t = thread_for(vec![0xb1]);
    t.stack.set_pc(3);
    match t.step() {
        Err(Fault::Error(RunTimeError::Other(m))) => assert_eq!(m, "offset out of range"),
        _ => panic!("expected an error"),
    }
}

#[test]
fn iadd_wraps_and_underflows() {
    // iload_0 (holding i32::MAX); bipush 2; iadd
    let mut t = thread_for(vec![0x1a, 0x10, 0x02, 0x60]);
    {
        let mut frame = t.stack.pop_frame().unwrap();
        frame.set_variable_value(0, i32::MAX).unwrap();
        t.stack.push_frame(frame);
    }
    step_ok(&mut t);
    step_ok(&mut t);
    step_ok(&mut t);
    assert_eq!(top_operands(&mut t, 1), vec![i32::MIN + 1]);
    // bipush 1; iadd
    let mut u = thread_for(vec![0x10, 0x01, 0x60]);
    step_ok(&mut u);
    match u.step() {
        Err(Fault::Error(RunTimeError::Other(m))) => assert_eq!(m, "Operand stack underflow"),
        _ => panic!("expected an underflow"),
    }
}

#[test]
fn empty_stack_cannot_step() {
    let mut t = Thread::new(MethodArea::new(), ReferenceManager::new());
    match t.step() {
        Err(Fault::Error(RunTimeError::Other(m))) => assert_eq!(m, "Stack is empty"),
        _ => panic!("expected an error"),
    }
}

#[test]
fn taken_branch_lands_at_its_target() {
    // 0: iconst_1 (no-op here); 1: bipush 5; 3: bipush 9; 5: if_icmplt +4 -> 9; 8: return; 9: sipush 1
    let mut t = thread_for(vec![0x04, 0x10, 0x05, 0x10, 0x09, 0xa1, 0x00, 0x04, 0xb1, 0x11, 0x00, 0x01]);
    for _ in 0..4 {
        step_ok(&mut t);
    }
    assert_eq!(t.stack.get_pc(), 9);
    assert_eq!(t.stack.top_frame().unwrap().operand_stack.len(), 0);
}

#[test]
fn branch_not_taken_falls_through() {
    // bipush 0; ifne +10; return
    let mut t = thread_for(vec![0x10, 0x00, 0x9a, 0x00, 0x0a, 0xb1]);
    step_ok(&mut t);
    step_ok(&mut t);
    assert_eq!(t.stack.get_pc(), 5);
    // bipush 1; ifne -2 (back to the bipush)
    let mut t = thread_for(vec![0x10, 0x01, 0x9a, 0xff, 0xfe]);
    step_ok(&mut t);
    step_ok(&mut t);
    assert_eq!(t.stack.get_pc(), 0);
}

#[test]
fn branch_on_empty_stack_underflows() {
    let mut t = thread_for(vec![0x9f, 0x00, 0x03]);
    match t.step() {
        Err(Fault::Error(RunTimeError::Other(m))) => assert_eq!(m, "Operand stack underflow"),
        _ => panic!("expected an underflow"),
    }
}

#[test]
fn invokestatic_moves_arguments_into_the_callee() {
    // bipush 7; sipush 300; invokestatic #1 (Calc.add(II)I)
    let mut t = thread_for(vec![0x10, 0x07, 0x11, 0x01, 0x2c, 0xb8, 0x00, 0x01]);
    step_ok(&mut t);
    step_ok(&mut t);
    step_ok(&mut t);
    assert_eq!(t.stack.get_pc(), 0);
    assert_eq!(t.stack.pop_return_address(), Some(5));
    let callee = t.stack.top_frame().unwrap();
    assert_eq!(callee.method.name, "add");
    assert_eq!(callee.get_variable_value::<i32>(0).unwrap(), 7);
    assert_eq!(callee.get_variable_value::<i32>(1).unwrap(), 300);
    // iload_0; iload_1 in the callee
    step_ok(&mut t);
    step_ok(&mut t);
    assert_eq!(top_operands(&mut t, 2), vec![7, 300]);
    let callee = t.stack.pop_frame().unwrap();
    assert_eq!(callee.method.name, "add");
    let caller = t.stack.pop_frame().unwrap();
    assert_eq!(caller.operand_stack.len(), 0);
}

#[test]
fn call_without_its_arguments_underflows() {
    // bipush 7; invokestatic #1 (needs two ints)
    let mut t = thread_for(vec![0x10, 0x07, 0xb8, 0x00, 0x01]);
    step_ok(&mut t);
    match t.step() {
        Err(Fault::Error(RunTimeError::Other(m))) => assert_eq!(m, "Operand stack underflow"),
        _ => panic!("expected an underflow"),
    }
    // the last argument was taken before the first was found missing
    assert_eq!(t.stack.top_frame().unwrap().operand_stack.len(), 0);
}

#[test]
fn call_into_unloaded_class_asks_for_it() {
    // invokestatic #14 (Other.run()V)
    let mut t = thread_for(vec![0xb8, 0x00, 0x0e]);
    match t.step() {
        Ok(Step::NeedClass(c)) => assert_eq!(c, "Other"),
        _ => panic!("expected a class request"),
    }
    assert_eq!(t.stack.get_pc(), 0);
}

#[test]
fn getstatic_pushes_a_symbolic_reference() {
    // getstatic #10 (Calc.count:I)
    let mut t = thread_for(vec![0xb2, 0x00, 0x0a]);
    step_ok(&mut t);
    let r = top_operands(&mut t, 1)[0];
    assert_eq!(r, 1);
    assert_eq!(t.reference_manager.resolve_symbolic(1), Some("Calc.countI".to_string()));
    assert!(t.method_area.get_resolved_field("Calc.countI").is_some());
}

#[test]
fn constant_pool_index_outside_the_pool_stops() {
    let mut t = thread_for(vec![0xb2, 0x00, 0x63]);
    assert!(matches!(t.step(), Err(Fault::Stuck)));
    let mut t = thread_for(vec![0xb8, 0x00, 0x00]);
    assert!(matches!(t.step(), Err(Fault::Stuck)));
}

#[test]
fn wrong_entry_kind_and_unresolvable_refs_are_errors() {
    // getstatic #1 is a Methodref
    let mut t = thread_for(vec![0xb2, 0x00, 0x01]);
    match t.step() {
        Err(Fault::Error(RunTimeError::Other(m))) => assert_eq!(m, "Unexpected tag"),
        _ => panic!("expected an error"),
    }
}

#[test]
fn unsupported_instruction_is_named() {
    let mut t = thread_for(vec![0x07]);
    match t.step() {
        Err(Fault::Error(RunTimeError::Notimplemented(m))) => assert_eq!(m, "Instruction iconst_4"),
        _ => panic!("expected an error"),
    }
}

#[test]
fn iload_out_of_range_is_an_error() {
    let mut t = thread_for(vec![0x15, 0x05]);
    match t.step() {
        Err(Fault::Error(RunTimeError::Other(m))) => assert_eq!(m, "Local variable slot out of range"),
        _ => panic!("expected an error"),
    }
}

#[test]
fn method_area_tracks_classes_and_members() {
    let class = calc_class(vec![0xb1]);
    let mut ma = MethodArea::new();
    assert_eq!(ma.len(), 0);
    ma.insert("Calc".to_string(), class.clone());
    assert!(ma.contains("Calc"));
    assert_eq!(ma.len(), 1);
    assert!(ma.get_resolved_method("Calc.add(II)I").is_some());
    assert!(ma.get_resolved_method("Calc.main()V").is_some());
    assert!(ma.get_resolved_field("Calc.countI").is_some());
    let m = ma.resolve("Calc.add(II)I").unwrap();
    assert_eq!(m.method().name, "add");
    match ma.resolve("Calc.sub(II)I") {
        Err(RunTimeError::ResolveMethodError(msg)) => assert_eq!(msg, "Method Calc.sub(II)I not found"),
        _ => panic!("expected an error"),
    }
    ma.insert("Calc".to_string(), class.clone());
    assert_eq!(ma.len(), 1);
    assert!(ma.get("Calc").is_some());
    assert!(ma.remove("Calc").is_some());
    assert!(!ma.contains("Calc"));
    assert!(ma.remove("Calc").is_none());
    assert_eq!(ma.len(), 0);
    ma.insert_resolved_method("X.y()V".to_string(), MethodReference::new(class.methods[0].clone(), class.clone()));
    assert_eq!(ma.get_resolved_method("X.y()V").unwrap().method().name, "main");
}

#[test]
fn descriptor_parameters() {
    assert_eq!(
        MethodArea::parse_params("(I[JLjava/lang/String;D)V"),
        vec!["I", "[J", "Ljava/lang/String;", "D"]
    );
    assert_eq!(MethodArea::parse_params("()V"), Vec::<String>::new());
    assert_eq!(MethodArea::parse_params("([[Ljava/lang/Object;Z)I"), vec!["[[Ljava/lang/Object;", "Z"]);
}

#[test]
fn class_part_of_identifiers() {
    assert_eq!(class_name_from_identifier("java/lang/System.outLjava/io/PrintStream;"), Some("java/lang/System"));
    assert_eq!(class_name_from_identifier("a.b.c"), Some("a.b"));
    assert_eq!(class_name_from_identifier("nodot"), None);
}

#[test]
fn class_lookups_by_constant_pool_index() {
    let class = calc_class(vec![]);
    assert_eq!(class.get_utf8(4), Some("Calc".to_string()));
    assert_eq!(class.get_utf8(1), None);
    assert_eq!(class.get_class_name(2), Some("Calc".to_string()));
    assert_eq!(class.get_name_and_type(3), Some(("add".to_string(), "(II)I".to_string())));
    assert_eq!(class.resolve_ref_to_identifier(1), Some("Calc.add(II)I".to_string()));
    assert_eq!(class.resolve_ref_to_identifier(10), Some("Calc.countI".to_string()));
    assert_eq!(class.resolve_ref_to_identifier(4), None);
    assert!(class.cp_get(0).is_none());
    assert!(class.cp_get(27).is_none());
    assert_eq!(class.get_utf8(26), Some("H\u{FFFD}i".to_string()));
    assert_eq!(class.find_method_index_by_name("add"), Some(5));
    assert_eq!(class.find_method_index_by_name("mul"), None);
    assert_eq!(class.get_method_by_index(8).unwrap().name, "main");
    assert_eq!(class.get_field_by_index(12).unwrap().name, "count");
}

#[test]
fn references_from_getstatic_are_distinct() {
    let mut t = thread_for(vec![0xb2, 0x00, 0x0a, 0xb2, 0x00, 0x0a]);
    step_ok(&mut t);
    step_ok(&mut t);
    assert_eq!(top_operands(&mut t, 2), vec![1, 2]);
    assert!(matches!(t.reference_manager.resolve(2), Some(ReferenceEntry::Symbolic(_))));
}

#[test]
fn unresolvable_references_are_reported() {
    let mut t = thread_for(vec![0xb8, 0x00, 0x13]);
    match t.step() {
        Err(Fault::Error(RunTimeError::ResolveMethodError(m))) => {
            assert_eq!(m, "Failed to resolve constant pool ref 19")
        }
        _ => panic!("expected a resolve error"),
    }
    let mut t = thread_for(vec![0xb8, 0x00, 0x17]);
    match t.step() {
        Err(Fault::Error(RunTimeError::ResolveMethodError(m))) => {
            assert_eq!(m, "Method Calc.sub(II)I not found")
        }
        _ => panic!("expected a resolve error"),
    }
    let mut t = thread_for(vec![0xb2, 0x00, 0x14]);
    match t.step() {
        Err(Fault::Error(RunTimeError::Other(m))) => assert_eq!(m, "Field Calc.missingI not found"),
        _ => panic!("expected an error"),
    }
}

#[test]
fn loading_the_asked_class_lets_the_step_go_on() {
    let mut t = thread_for(vec![0xb8, 0x00, 0x0e]);
    let asked = match t.step() {
        Ok(Step::NeedClass(c)) => c,
        _ => panic!("expected a class request"),
    };
    assert_eq!(t.method_area.len(), 1);
    let run = method("run", "()V", 0, vec![0xb1]);
    let other = Rc::new(Class {
        constant_pool: Rc::new(vec![]),
        methods: vec![run],
        fields: vec![],
        method_by_index: HashMap::new(),
        field_by_index: HashMap::new(),
    });
    t.method_area.insert(asked, other);
    step_ok(&mut t);
    assert_eq!(t.stack.top_frame().unwrap().method.name, "run");
    assert_eq!(t.method_area.len(), 2);
}

#[test]
fn steps_load_no_class_by_themselves() {
    let mut t = thread_for(vec![0x10, 0x01, 0xb2, 0x00, 0x0a, 0x04]);
    step_ok(&mut t);
    step_ok(&mut t);
    step_ok(&mut t);
    assert_eq!(t.method_area.len(), 1);
    assert!(t.method_area.contains("Calc"));
}

#[test]
fn starting_a_class_runs_its_main() {
    // bipush 2; bipush 3; iadd
    let class = calc_class(vec![0x10, 0x02, 0x10, 0x03, 0x60]);
    let mut thread = Thread::new(MethodArea::new(), ReferenceManager::new());
    let index = thread.start_main(class).unwrap();
    assert_eq!(index, 8);
    assert_eq!(thread.stack.top_frame().unwrap().method.name, "main");
    step_ok(&mut thread);
    step_ok(&mut thread);
    step_ok(&mut thread);
    assert_eq!(top_operands(&mut thread, 1), vec![5]);
}

#[test]
fn class_without_main_cannot_start() {
    let add = method("add", "(II)I", 2, vec![0x1a, 0x1b, 0x60, 0xac]);
    let mut method_by_index = HashMap::new();
    method_by_index.insert(5u16, add.clone());
    let class = Rc::new(Class {
        constant_pool: Rc::new(vec![]),
        methods: vec![add],
        fields: vec![],
        method_by_index,
        field_by_index: HashMap::new(),
    });
    let mut thread = Thread::new(MethodArea::new(), ReferenceManager::new());
    match thread.start_main(class) {
        Err(RunTimeError::Other(m)) => assert_eq!(m, "Main method not found"),
        _ => panic!("expected an error"),
    }
    assert!(thread.stack.top_frame().is_none());
}

#[test]
fn test_iadd_runtime() {
    // a class `TestIadd` whose `main` runs `bipush 11; bipush 31; iadd`
    let args_storage: Vec<Vec<u8>> = vec![vec![11u8], vec![31u8]];
    let ops: Vec<Op> = vec![
        Op { index: 0, instruction: Instruction::Bipush, args: args_storage[0].as_slice() },
        Op { index: 2, instruction: Instruction::Bipush, args: args_storage[1].as_slice() },
        Op { index: 4, instruction: Instruction::Iadd, args: &[] },
    ];
    let code = ops_to_bytes(&ops);
    let main = Rc::new(Method {
        name: "main".to_string(),
        descriptor: "()V".to_string(),
        access_flags: AccessFlags::from(0u16),
        max_stack: 2,
        max_locals: 0,
        code: code.clone(),
    });
    let mut method_by_index = HashMap::new();
    method_by_index.insert(1u16, main.clone());
    let class_ptr = Rc::new(Class {
        constant_pool: Rc::new(vec![]),
        methods: vec![main.clone()],
        fields: vec![],
        method_by_index,
        field_by_index: HashMap::new(),
    });
    let mut ma = MethodArea::new();
    ma.insert("TestIadd".to_string(), class_ptr.clone());
    let mut thread = Thread::new(ma, ReferenceManager::new());
    let class = thread.method_area.get("TestIadd").unwrap().clone();
    thread.start_main(class).expect("runtime run failed");
    loop {
        match thread.step() {
            Ok(Step::Continue) => {}
            Ok(Step::Finished) => break,
            _ => panic!("runtime run failed"),
        }
    }
    let frame = thread.stack.top_frame().unwrap();
    assert!(frame.operand_stack.len() == 1);
    let val: i32 = top_operands(&mut thread, 1)[0];
    assert_eq!(val, 42);
}
