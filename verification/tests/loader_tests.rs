use rjavavm::errors::{map_error, ClassLoadError};
use rjavavm::loader::attributes::{parse_attribute_info, parse_attributes, Attribute};
use rjavavm::loader::class_loader::{load, parse, parse_class_file};
use rjavavm::loader::class_path::{class_file_name, classpath_entries};
use rjavavm::loader::attributes::{
    AttributeInfo, LineNumberTableRecord, MethodParameter, StackMapFrame, VerificationTypeInfo,
};
use rjavavm::loader::java_class::{ConstantPoolPFieldInfo, ConstantPoolTag, JavaClass, RefFieldInfo};
use rjavavm::loader::reader::LoadFailure;
use rjavavm::vm::class::Class;

fn push_u16(out: &mut Vec<u8>, v: u16) {
    out.extend_from_slice(&v.to_be_bytes());
}

fn push_u32(out: &mut Vec<u8>, v: u32) {
    out.extend_from_slice(&v.to_be_bytes());
}

fn push_utf8(out: &mut Vec<u8>, s: &str) {
    out.push(1);
    push_u16(out, s.len() as u16);
    out.extend_from_slice(s.as_bytes());
}

fn push_code(out: &mut Vec<u8>, max_stack: u16, max_locals: u16, code: &[u8]) {
    push_u16(out, 26);
    push_u32(out, 12 + code.len() as u32);
    push_u16(out, max_stack);
    push_u16(out, max_locals);
    push_u32(out, code.len() as u32);
    out.extend_from_slice(code);
    push_u16(out, 0);
    push_u16(out, 0);
}

/// The class file of `public class Hello { static final String hello_str = "Hello JVM";
/// public static void main(String[] a) { System.out.println(hello_str); } }`.
fn hello_class_bytes() -> Vec<u8> {
    let mut b = Vec::new();
    push_u32(&mut b, 0xcafebabe);
    push_u16(&mut b, 0);
    push_u16(&mut b, 65);
    push_u16(&mut b, 29);
    b.extend_from_slice(&[10, 0, 2, 0, 3]);
    b.extend_from_slice(&[7, 0, 4]);
    b.extend_from_slice(&[12, 0, 5, 0, 6]);
    push_utf8(&mut b, "java/lang/Object");
    push_utf8(&mut b, "<init>");
    push_utf8(&mut b, "()V");
    b.extend_from_slice(&[9, 0, 8, 0, 9]);
    b.extend_from_slice(&[7, 0, 10]);
    b.extend_from_slice(&[12, 0, 11, 0, 12]);
    push_utf8(&mut b, "java/lang/System");
    push_utf8(&mut b, "out");
    push_utf8(&mut b, "Ljava/io/PrintStream;");
    b.extend_from_slice(&[7, 0, 14]);
    push_utf8(&mut b, "Hello");
    b.extend_from_slice(&[8, 0, 16]);
    push_utf8(&mut b, "Hello JVM");
    b.extend_from_slice(&[10, 0, 18, 0, 19]);
    b.extend_from_slice(&[7, 0, 20]);
    b.extend_from_slice(&[12, 0, 21, 0, 22]);
    push_utf8(&mut b, "java/io/PrintStream");
    push_utf8(&mut b, "println");
    push_utf8(&mut b, "(Ljava/lang/String;)V");
    push_utf8(&mut b, "hello_str");
    push_utf8(&mut b, "Ljava/lang/String;");
    push_utf8(&mut b, "ConstantValue");
    push_utf8(&mut b, "Code");
    push_utf8(&mut b, "main");
    push_utf8(&mut b, "([Ljava/lang/String;)V");
    push_u16(&mut b, 0x0021);
    push_u16(&mut b, 13);
    push_u16(&mut b, 2);
    push_u16(&mut b, 0);
    // one field: static final String hello_str = "Hello JVM"
    push_u16(&mut b, 1);
    push_u16(&mut b, 0x0018);
    push_u16(&mut b, 23);
    push_u16(&mut b, 24);
    push_u16(&mut b, 1);
    push_u16(&mut b, 25);
    push_u32(&mut b, 2);
    push_u16(&mut b, 15);
    // two methods: <init> and main
    push_u16(&mut b, 2);
    push_u16(&mut b, 0x0001);
    push_u16(&mut b, 5);
    push_u16(&mut b, 6);
    push_u16(&mut b, 1);
    push_code(&mut b, 1, 1, &[0x2a, 0xb7, 0x00, 0x01, 0xb1]);
    push_u16(&mut b, 0x0009);
    push_u16(&mut b, 27);
    push_u16(&mut b, 28);
    push_u16(&mut b, 1);
    push_code(&mut b, 2, 1, &[0xb2, 0x00, 0x07, 0x12, 0x0f, 0xb6, 0x00, 0x11, 0xb1]);
    push_u16(&mut b, 0);
    b
}

#[test]
fn test_load_error() {
    let err = load(None).unwrap_err();
    println!("Error: {:?}", err);
    assert!(matches!(err, ClassLoadError::NotFound(_)));
}

#[test]
fn test_parse() {
    let j_class = load(Some(hello_class_bytes())).unwrap();
    println!("Class:\n{:?}", j_class);
    assert_eq!(j_class.magic_number, 0xcafebabe);
    assert_eq!(j_class.minor_version, 0);
    assert_eq!(j_class.major_version, 65);
    assert_eq!(j_class.constant_pool_count, 29);
}

#[test]
fn test_parse_attribute() {
    let _j_class = load(Some(hello_class_bytes())).unwrap();
    assert!(true)
}

#[test]
fn test_class_init_fields_and_methods() {
    let jclass = load(Some(hello_class_bytes())).unwrap();
    let vm_class = Class::init(&jclass);
    assert_eq!(vm_class.fields.len(), 1);
    assert_eq!(vm_class.fields[0].name, "hello_str");
    assert_eq!(vm_class.fields[0].constant_value.as_deref(), Some("Hello JVM"));
    let names: Vec<String> = vm_class.methods.iter().map(|m| m.name.clone()).collect();
    assert!(names.contains(&"main".to_string()));
}

#[test]
fn parsed_hello_lists_its_members() {
    let jc = parse(hello_class_bytes()).unwrap();
    assert_eq!(jc.constant_pool.len(), 28);
    assert_eq!(jc.this_class, 13);
    assert_eq!(jc.super_class, 2);
    assert_eq!(jc.fields_count, 1);
    assert_eq!(jc.field_info.len(), 1);
    assert_eq!(jc.methods_count, 2);
    assert_eq!(jc.methods.len(), 2);
    assert_eq!(jc.constant_pool[0].tag, ConstantPoolTag::Methodref);
    match &jc.constant_pool[15].info {
        ConstantPoolPFieldInfo::Utf8Info { bytes, .. } => assert_eq!(bytes.as_slice(), b"Hello JVM"),
        other => panic!("expected a Utf8 entry, got {:?}", other),
    }
}

#[test]
fn code_attribute_decodes() {
    let jc = parse(hello_class_bytes()).unwrap();
    let main = &jc.methods[1];
    let attr = parse_attribute_info(&main.attributes[0], &jc.constant_pool).unwrap();
    match attr {
        Attribute::Code { max_stack, max_locals, code, .. } => {
            assert_eq!(max_stack, 2);
            assert_eq!(max_locals, 1);
            assert_eq!(code, vec![0xb2, 0x00, 0x07, 0x12, 0x0f, 0xb6, 0x00, 0x11, 0xb1]);
        }
        other => panic!("expected Code, got {:?}", other),
    }
    assert_eq!(attr_name_index_of_code(&jc), 26);
}

fn attr_name_index_of_code(jc: &JavaClass) -> u16 {
    let a = parse_attribute_info(&jc.methods[0].attributes[0], &jc.constant_pool).unwrap();
    a.name_index()
}

#[test]
fn constant_value_attribute_decodes() {
    let jc = parse(hello_class_bytes()).unwrap();
    let attr = parse_attribute_info(&jc.field_info[0].attributes[0], &jc.constant_pool).unwrap();
    match attr {
        Attribute::ConstantVale { constantvalue_index, attribute_length, .. } => {
            assert_eq!(constantvalue_index, 15);
            assert_eq!(attribute_length, 2);
        }
        other => panic!("expected ConstantValue, got {:?}", other),
    }
}

#[test]
fn magic_number_is_read_as_it_stands() {
    let mut bytes = hello_class_bytes();
    bytes[0] = 0;
    let jc = parse(bytes).unwrap();
    assert_eq!(jc.magic_number, 0x00febabe);
}

#[test]
fn truncated_file_is_reported() {
    let bytes = hello_class_bytes();
    let short = bytes[..40].to_vec();
    match parse_class_file(&short) {
        Err(LoadFailure::Error(ClassLoadError::InvalidFormat(_))) => {}
        Err(LoadFailure::Error(e)) => panic!("unexpected error {:?}", e),
        Err(LoadFailure::Stuck) => panic!("unexpected stop"),
        Ok(_) => panic!("a truncated file should not load"),
    }
}

#[test]
fn map_error_prefixes_the_message() {
    match map_error("failed to fill whole buffer") {
        ClassLoadError::InvalidFormat(m) => assert_eq!(m, "Error: failed to fill whole buffer"),
        other => panic!("unexpected {:?}", other),
    }
}

#[test]
fn raw_attributes_are_split() {
    // two attributes: name #1 with 2 bytes, name #2 with 0 bytes
    let bytes = [0u8, 1, 0, 0, 0, 2, 0xaa, 0xbb, 0, 2, 0, 0, 0, 0];
    let (attrs, end) = parse_attributes(&bytes, 0, 2).unwrap();
    assert_eq!(attrs.len(), 2);
    assert_eq!(attrs[0].attribute_name_index, 1);
    assert_eq!(attrs[0].info, vec![0xaa, 0xbb]);
    assert_eq!(attrs[1].attribute_length, 0);
    assert_eq!(end, bytes.len());
}

#[test]
fn tags_round_trip_through_their_bytes() {
    for b in 0..=255u8 {
        if let Ok(tag) = ConstantPoolTag::try_from(b) {
            assert_eq!(tag.value(), b);
            assert_eq!(ConstantPoolTag::try_from(tag.value()), Ok(tag));
        }
    }
    assert_eq!(ConstantPoolTag::try_from(10), Ok(ConstantPoolTag::Methodref));
    assert_eq!(ConstantPoolTag::Methodref.name(), "Methodref");
    assert!(ConstantPoolTag::try_from(2).is_err());
}

/// The listing of a class as `{}` on the class prints it, built field by field.
fn listing_by_format(jc: &JavaClass) -> String {
    let raw = |a: &AttributeInfo| {
        format!(
            "Attribute(name_index={}, length={}, info={:02x?})",
            a.attribute_name_index, a.attribute_length, &a.info
        )
    };
    let member = |access: u16, name: u16, desc: u16, count: u16, attrs: &Vec<AttributeInfo>| {
        let mut m = format!(
            "access=0x{:04x} name_index={} descriptor_index={} attrs={}\n",
            access, name, desc, count
        );
        if !attrs.is_empty() {
            m.push_str("    Attributes:\n");
            for (i, a) in attrs.iter().enumerate() {
                m.push_str(&format!("      #{}: {}\n", i + 1, raw(a)));
            }
        }
        m
    };
    let mut f = String::new();
    f.push_str(&format!("Magic number: 0x{:08x}\n", jc.magic_number));
    f.push_str(&format!("Major version: {}\n", jc.major_version));
    f.push_str(&format!("Minor version: {}\n", jc.minor_version));
    f.push_str(&format!("Constant pool count: {}\n", jc.constant_pool_count));
    f.push_str(&format!("Access flags: 0x{:04x}\n", jc.access_flags));
    f.push_str(&format!("This class index: {}\n", jc.this_class));
    f.push_str(&format!("Super class index: {}\n", jc.super_class));
    f.push_str(&format!("Interface count: {}\n", jc.interface_count));
    if !jc.interfaces.is_empty() {
        f.push_str(&format!("Interfaces: {:?}\n", jc.interfaces));
    }
    f.push_str(&format!("Fields count: {}\n", jc.fields_count));
    f.push_str(&format!("Methods count: {}\n", jc.methods_count));
    f.push_str(&format!("Attributes count: {}\n", jc.attributes_count));
    if !jc.field_info.is_empty() {
        f.push_str("Fields:\n");
        for (i, m) in jc.field_info.iter().enumerate() {
            let t = member(m.access_flags, m.name_index, m.descriptor_index, m.attributes_count, &m.attributes);
            f.push_str(&format!("  #{}: {}\n", i + 1, t));
        }
    }
    if !jc.methods.is_empty() {
        f.push_str("Methods:\n");
        for (i, m) in jc.methods.iter().enumerate() {
            let t = member(m.access_flags, m.name_index, m.descriptor_index, m.attributes_count, &m.attributes);
            f.push_str(&format!("  #{}: {}\n", i + 1, t));
        }
    }
    if !jc.constant_pool.is_empty() {
        f.push_str("Constant Pool:\n");
        for (i, cp) in jc.constant_pool.iter().enumerate() {
            let body = match &cp.info {
                ConstantPoolPFieldInfo::ClassInfo { name_index } => format!("ClassInfo name_index={}", name_index),
                ConstantPoolPFieldInfo::Utf8Info { length, bytes } => {
                    format!("Utf8Info length={} text={}", length, String::from_utf8_lossy(bytes))
                }
                ConstantPoolPFieldInfo::MethodRef(r) => {
                    format!("MethodRef class_index: {}, name_and_type_index: {}", r.class_index, r.name_and_type_index)
                }
                ConstantPoolPFieldInfo::InterfaceMethodRef(r) => format!(
                    "InterfaceMethodRef class_index: {}, name_and_type_index: {}",
                    r.class_index, r.name_and_type_index
                ),
                ConstantPoolPFieldInfo::FieldRef(r) => {
                    format!("FieldRef class_index: {}, name_and_type_index: {}", r.class_index, r.name_and_type_index)
                }
                ConstantPoolPFieldInfo::NameAndType { name_index, descriptor_index } => {
                    format!("NameAndType name_index={} descriptor_index={}", name_index, descriptor_index)
                }
                ConstantPoolPFieldInfo::String { string_index } => format!("String string_index={}", string_index),
            };
            f.push_str(&format!("  #{}: {} => {}\n", i + 1, cp.tag.name(), body));
        }
    }
    if !jc.attributes_info.is_empty() {
        f.push_str("Attributes:\n");
        for (i, a) in jc.attributes_info.iter().enumerate() {
            f.push_str(&format!("  #{}: {}\n", i + 1, raw(a)));
        }
    }
    f
}

#[test]
fn hello_listing_starts_with_its_numbers() {
    let jc = parse(hello_class_bytes()).unwrap();
    let text = jc.text();
    let head = [
        "Magic number: 0xcafebabe\n",
        "Major version: 65\n",
        "Minor version: 0\n",
        "Constant pool count: 29\n",
        "Access flags: 0x0021\n",
        "This class index: 13\n",
        "Super class index: 2\n",
        "Interface count: 0\n",
        "Fields count: 1\n",
        "Methods count: 2\n",
        "Attributes count: 0\n",
        "Fields:\n",
        "  #1: access=0x0018 name_index=23 descriptor_index=24 attrs=1\n",
        "    Attributes:\n",
        "      #1: Attribute(name_index=25, length=2, info=[00, 0f])\n",
        "\n",
        "Methods:\n",
    ]
    .concat();
    assert!(text.starts_with(&head));
    assert!(text.contains("Constant Pool:\n  #1: Methodref => MethodRef class_index: 2, name_and_type_index: 3\n"));
    assert!(text.contains("  #16: Utf8 => Utf8Info length=9 text=Hello JVM\n"));
    assert!(text.contains("  #15: String => String string_index=16\n"));
    assert!(text.contains("  #7: Fieldref => FieldRef class_index: 8, name_and_type_index: 9\n"));
    assert!(!text.contains("Interfaces:"));
    assert!(text.ends_with("  #28: Utf8 => Utf8Info length=22 text=([Ljava/lang/String;)V\n"));
}

#[test]
fn hello_listing_matches_the_formatted_fields() {
    let jc = parse(hello_class_bytes()).unwrap();
    assert_eq!(jc.text(), listing_by_format(&jc));
}

#[test]
fn listing_shows_interfaces_and_class_attributes() {
    let mut jc = parse(hello_class_bytes()).unwrap();
    jc.interface_count = 2;
    jc.interfaces = vec![13, 300];
    jc.attributes_count = 1;
    jc.attributes_info = vec![AttributeInfo { attribute_name_index: 7, attribute_length: 3, info: vec![0xab, 0x01, 0xff] }];
    let text = jc.text();
    assert!(text.contains("Interface count: 2\nInterfaces: [13, 300]\nFields count: 1\n"));
    assert!(text.ends_with("Attributes:\n  #1: Attribute(name_index=7, length=3, info=[ab, 01, ff])\n"));
    assert_eq!(text, listing_by_format(&jc));
}

#[test]
fn empty_class_lists_only_its_numbers() {
    let jc = JavaClass::default();
    assert_eq!(
        jc.text(),
        "Magic number: 0x00000000\nMajor version: 0\nMinor version: 0\nConstant pool count: 0\n\
         Access flags: 0x0000\nThis class index: 0\nSuper class index: 0\nInterface count: 0\n\
         Fields count: 0\nMethods count: 0\nAttributes count: 0\n"
    );
}

#[test]
fn utf8_entry_shows_invalid_bytes_replaced() {
    let info = ConstantPoolPFieldInfo::Utf8Info { length: 3, bytes: vec![b'a', 0xff, b'b'] };
    assert_eq!(info.text(), "Utf8Info length=3 text=a\u{fffd}b");
}

#[test]
fn entry_debug_text_matches_debug_format() {
    let entries = vec![
        ConstantPoolPFieldInfo::ClassInfo { name_index: 4 },
        ConstantPoolPFieldInfo::Utf8Info { length: 2, bytes: vec![104, 105] },
        ConstantPoolPFieldInfo::NameAndType { name_index: 5, descriptor_index: 6 },
        ConstantPoolPFieldInfo::MethodRef(RefFieldInfo { class_index: 2, name_and_type_index: 3 }),
        ConstantPoolPFieldInfo::InterfaceMethodRef(RefFieldInfo { class_index: 7, name_and_type_index: 8 }),
        ConstantPoolPFieldInfo::FieldRef(RefFieldInfo { class_index: 9, name_and_type_index: 10 }),
        ConstantPoolPFieldInfo::String { string_index: 16 },
    ];
    for e in &entries {
        assert_eq!(e.debug_text(), format!("{:?}", e));
    }
    assert_eq!(RefFieldInfo { class_index: 2, name_and_type_index: 3 }.text(), "class_index: 2, name_and_type_index: 3");
}

#[test]
fn frames_show_as_debug_does() {
    let item = VerificationTypeInfo { tag: 7, cpool_index: Some(12), offset: None };
    let other = VerificationTypeInfo { tag: 8, cpool_index: None, offset: Some(300) };
    assert_eq!(item.debug_text(), format!("{:?}", item));
    let frames = vec![
        StackMapFrame::SameFrame { frame_type: 3 },
        StackMapFrame::SameLocals1StackItemFrame { frame_type: 64, stack: vec![item] },
        StackMapFrame::SameLocals1StackItemFrameExtended { frame_type: 247, offset_delta: 9, stack: vec![other] },
        StackMapFrame::ChopFrame { frame_type: 250, offset_delta: 4 },
        StackMapFrame::SameFrameExtended { frame_type: 251, offset_delta: 1000 },
        StackMapFrame::AppendFrame { frame_type: 253, offset_delta: 2, locals: vec![item, other] },
        StackMapFrame::FullFrame { frame_type: 255, offset_delta: 5, locals: vec![], stack: vec![item, other, item] },
    ];
    for f in &frames {
        assert_eq!(f.debug_text(), format!("{:?}", f));
    }
}

#[test]
fn code_attribute_lists_its_bytes_and_nested_attributes() {
    let nested = Attribute::LineNumberTabel {
        attribute_name_index: 30,
        attribute_length: 10,
        line_number_table_length: 2,
        line_number_table: vec![
            LineNumberTableRecord { start_pc: 0, line_number: 3 },
            LineNumberTableRecord { start_pc: 4, line_number: 5 },
        ],
    };
    let code = Attribute::Code {
        attribute_name_index: 26,
        attribute_length: 60,
        max_stack: 2,
        max_locals: 1,
        code_length: 20,
        code: (0u8..20).collect(),
        exception_table_length: 0,
        exception_table: vec![],
        attributes_count: 1,
        attributes: vec![nested],
    };
    let expected = [
        "Code(name_index=26, length=60, max_stack=2, max_locals=1, code_length=20, ",
        "exception_table_length=0, attributes_count=1)",
        " code=[00, 01, 02, 03, 04, 05, 06, 07, 08, 09, 0a, 0b, 0c, 0d, 0e, 0f]...(+4 bytes)",
        " attributes_count=1\n",
        "      Attributes:\n",
        "        #1 (name_index=30): LineNumberTable(name_index=30, length=10, table_length=2)\n",
        "        #1: start_pc=0, line_number=3\n",
        "        #2: start_pc=4, line_number=5\n",
        "\n",
    ]
    .concat();
    assert_eq!(code.text(), expected);
}

#[test]
fn short_attributes_show_their_fields() {
    let deprecated = Attribute::Deprecated { attribute_name_index: 9, attribute_length: 0 };
    assert_eq!(deprecated.text(), "Deprecated(name_index=9, length=0)");
    let params = Attribute::MethodParameters {
        attribute_name_index: 11,
        attribute_length: 5,
        parameters_count: 1,
        parameters: vec![MethodParameter { name_index: 12, access_flags: 0x10 }],
    };
    assert_eq!(
        params.text(),
        "MethodParameters(name_index=11, length=5, count=1)\n        #1: name_index=12, access_flags=0x0010\n"
    );
    let empty = Attribute::Exceptions {
        attribute_name_index: 2,
        attribute_length: 2,
        number_of_exceptions: 0,
        exception_index_table: vec![],
    };
    assert_eq!(empty.text(), "Exceptions(name_index=2, length=2, count=0)");
}

#[test]
fn load_errors_read_as_messages() {
    assert_eq!(ClassLoadError::NotFound("A".to_string()).text(), "Class not found: A");
    assert_eq!(ClassLoadError::InvalidFormat("bad".to_string()).text(), "Invalid class format: bad");
    assert_eq!(ClassLoadError::Other("x".to_string()).text(), "Class load error: x");
}

#[test]
fn class_names_become_file_names() {
    assert_eq!(class_file_name("com.example.Main"), "com/example/Main.class");
    assert_eq!(class_file_name("Hello"), "Hello.class");
    assert_eq!(class_file_name("test/Hello.class"), "test/Hello.class");
    assert_eq!(class_file_name("a.b.class"), "a/b.class");
    assert_eq!(class_file_name(""), ".class");
}

#[test]
fn class_path_splits_at_colons() {
    assert_eq!(classpath_entries("test:/usr/lib/java"), vec!["test".to_string(), "/usr/lib/java".to_string()]);
    assert_eq!(classpath_entries("::a::b:"), vec!["a".to_string(), "b".to_string()]);
    assert_eq!(classpath_entries("."), vec![".".to_string()]);
    assert!(classpath_entries("").is_empty());
    assert!(classpath_entries(":::").is_empty());
}
