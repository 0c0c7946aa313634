use crate::loader::attributes::{AttributeInfo, AttributeInfoView};
use crate::errors::message;
use crate::loader::reader::{spec_decimal, views};
use crate::text::push_decimal;
use vstd::string::StringExecFns;
use std::rc::Rc;
use vstd::prelude::*;

verus! {

/// The tag byte that opens each constant-pool entry.
#[derive(Copy, Clone, Debug, PartialEq, Eq, Structural)]
pub enum ConstantPoolTag {
    Utf8,
    Integer,
    Float,
    Long,
    Double,
    Class,
    String,
    Fieldref,
    Methodref,
    InterfaceMethodref,
    NameAndType,
    MethodHandle,
    MethodType,
    Dynamic,
    InvokeDynamic,
    Module,
    Package,
}

/// The tag that a byte names, if any.
pub open spec fn spec_tag_of_byte(value: u8) -> Option<ConstantPoolTag> {
    match value {
        1u8 => Some(ConstantPoolTag::Utf8),
        3u8 => Some(ConstantPoolTag::Integer),
        4u8 => Some(ConstantPoolTag::Float),
        5u8 => Some(ConstantPoolTag::Long),
        6u8 => Some(ConstantPoolTag::Double),
        7u8 => Some(ConstantPoolTag::Class),
        8u8 => Some(ConstantPoolTag::String),
        9u8 => Some(ConstantPoolTag::Fieldref),
        10u8 => Some(ConstantPoolTag::Methodref),
        11u8 => Some(ConstantPoolTag::InterfaceMethodref),
        12u8 => Some(ConstantPoolTag::NameAndType),
        15u8 => Some(ConstantPoolTag::MethodHandle),
        16u8 => Some(ConstantPoolTag::MethodType),
        17u8 => Some(ConstantPoolTag::Dynamic),
        18u8 => Some(ConstantPoolTag::InvokeDynamic),
        19u8 => Some(ConstantPoolTag::Module),
        20u8 => Some(ConstantPoolTag::Package),
        _ => None,
    }
}

/// The byte that stands for a tag in a class file.
pub open spec fn spec_tag_value(tag: ConstantPoolTag) -> u8 {
    match tag {
        ConstantPoolTag::Utf8 => 1u8,
        ConstantPoolTag::Integer => 3u8,
        ConstantPoolTag::Float => 4u8,
        ConstantPoolTag::Long => 5u8,
        ConstantPoolTag::Double => 6u8,
        ConstantPoolTag::Class => 7u8,
        ConstantPoolTag::String => 8u8,
        ConstantPoolTag::Fieldref => 9u8,
        ConstantPoolTag::Methodref => 10u8,
        ConstantPoolTag::InterfaceMethodref => 11u8,
        ConstantPoolTag::NameAndType => 12u8,
        ConstantPoolTag::MethodHandle => 15u8,
        ConstantPoolTag::MethodType => 16u8,
        ConstantPoolTag::Dynamic => 17u8,
        ConstantPoolTag::InvokeDynamic => 18u8,
        ConstantPoolTag::Module => 19u8,
        ConstantPoolTag::Package => 20u8,
    }
}

/// The name under which a tag is shown.
pub open spec fn spec_tag_name(tag: ConstantPoolTag) -> Seq<char> {
    match tag {
        ConstantPoolTag::Utf8 => "Utf8"@,
        ConstantPoolTag::Integer => "Integer"@,
        ConstantPoolTag::Float => "Float"@,
        ConstantPoolTag::Long => "Long"@,
        ConstantPoolTag::Double => "Double"@,
        ConstantPoolTag::Class => "Class"@,
        ConstantPoolTag::String => "String"@,
        ConstantPoolTag::Fieldref => "Fieldref"@,
        ConstantPoolTag::Methodref => "Methodref"@,
        ConstantPoolTag::InterfaceMethodref => "InterfaceMethodref"@,
        ConstantPoolTag::NameAndType => "NameAndType"@,
        ConstantPoolTag::MethodHandle => "MethodHandle"@,
        ConstantPoolTag::MethodType => "MethodType"@,
        ConstantPoolTag::Dynamic => "Dynamic"@,
        ConstantPoolTag::InvokeDynamic => "InvokeDynamic"@,
        ConstantPoolTag::Module => "Module"@,
        ConstantPoolTag::Package => "Package"@,
    }
}

impl ConstantPoolTag {
    /// The tag that `value` encodes; `Err(())` for a byte that is no tag.
    pub fn try_from(value: u8) -> (r: Result<ConstantPoolTag, ()>)
        ensures
            r == (match spec_tag_of_byte(value) {
                Some(t) => Ok::<ConstantPoolTag, ()>(t),
                None => Err(()),
            }),
    {
        match value {
            1 => Ok(ConstantPoolTag::Utf8),
            3 => Ok(ConstantPoolTag::Integer),
            4 => Ok(ConstantPoolTag::Float),
            5 => Ok(ConstantPoolTag::Long),
            6 => Ok(ConstantPoolTag::Double),
            7 => Ok(ConstantPoolTag::Class),
            8 => Ok(ConstantPoolTag::String),
            9 => Ok(ConstantPoolTag::Fieldref),
            10 => Ok(ConstantPoolTag::Methodref),
            11 => Ok(ConstantPoolTag::InterfaceMethodref),
            12 => Ok(ConstantPoolTag::NameAndType),
            15 => Ok(ConstantPoolTag::MethodHandle),
            16 => Ok(ConstantPoolTag::MethodType),
            17 => Ok(ConstantPoolTag::Dynamic),
            18 => Ok(ConstantPoolTag::InvokeDynamic),
            19 => Ok(ConstantPoolTag::Module),
            20 => Ok(ConstantPoolTag::Package),
            _ => Err(()),
        }
    }

    /// The byte that encodes this tag.
    pub fn value(self) -> (r: u8)
        ensures
            r == spec_tag_value(self),
    {
        match self {
            ConstantPoolTag::Utf8 => 1,
            ConstantPoolTag::Integer => 3,
            ConstantPoolTag::Float => 4,
            ConstantPoolTag::Long => 5,
            ConstantPoolTag::Double => 6,
            ConstantPoolTag::Class => 7,
            ConstantPoolTag::String => 8,
            ConstantPoolTag::Fieldref => 9,
            ConstantPoolTag::Methodref => 10,
            ConstantPoolTag::InterfaceMethodref => 11,
            ConstantPoolTag::NameAndType => 12,
            ConstantPoolTag::MethodHandle => 15,
            ConstantPoolTag::MethodType => 16,
            ConstantPoolTag::Dynamic => 17,
            ConstantPoolTag::InvokeDynamic => 18,
            ConstantPoolTag::Module => 19,
            ConstantPoolTag::Package => 20,
        }
    }

    /// The tag's name.
    pub fn name(self) -> (r: &'static str)
        ensures
            r@ == spec_tag_name(self),
    {
        match self {
            ConstantPoolTag::Utf8 => "Utf8",
            ConstantPoolTag::Integer => "Integer",
            ConstantPoolTag::Float => "Float",
            ConstantPoolTag::Long => "Long",
            ConstantPoolTag::Double => "Double",
            ConstantPoolTag::Class => "Class",
            ConstantPoolTag::String => "String",
            ConstantPoolTag::Fieldref => "Fieldref",
            ConstantPoolTag::Methodref => "Methodref",
            ConstantPoolTag::InterfaceMethodref => "InterfaceMethodref",
            ConstantPoolTag::NameAndType => "NameAndType",
            ConstantPoolTag::MethodHandle => "MethodHandle",
            ConstantPoolTag::MethodType => "MethodType",
            ConstantPoolTag::Dynamic => "Dynamic",
            ConstantPoolTag::InvokeDynamic => "InvokeDynamic",
            ConstantPoolTag::Module => "Module",
            ConstantPoolTag::Package => "Package",
        }
    }
}

/// Decoding the byte of a tag gives the tag back, and a byte decodes to a tag only
/// when it is that tag's byte.
pub proof fn law_tag_roundtrip(tag: ConstantPoolTag, value: u8)
    ensures
        spec_tag_of_byte(spec_tag_value(tag)) == Some(tag),
        spec_tag_of_byte(value) == Some(tag) ==> spec_tag_value(tag) == value,
{
}

/// The two indices of a field, method or interface-method reference.
#[derive(Copy, Clone, Debug, PartialEq, Eq, Structural)]
pub struct RefFieldInfo {
    pub class_index: u16,
    pub name_and_type_index: u16,
}

/// The body of a constant-pool entry.
#[derive(Debug)]
pub enum ConstantPoolPFieldInfo {
    ClassInfo { name_index: u16 },
    Utf8Info { length: u16, bytes: Vec<u8> },
    NameAndType { name_index: u16, descriptor_index: u16 },
    MethodRef(RefFieldInfo),
    InterfaceMethodRef(RefFieldInfo),
    FieldRef(RefFieldInfo),
    String { string_index: u16 },
}

/// The value of a [`ConstantPoolPFieldInfo`].
pub enum CpInfoView {
    ClassInfo { name_index: u16 },
    Utf8Info { length: u16, bytes: Seq<u8> },
    NameAndType { name_index: u16, descriptor_index: u16 },
    MethodRef(RefFieldInfo),
    InterfaceMethodRef(RefFieldInfo),
    FieldRef(RefFieldInfo),
    String { string_index: u16 },
}

impl View for ConstantPoolPFieldInfo {
    type V = CpInfoView;

    open spec fn view(&self) -> CpInfoView {
        match self {
            ConstantPoolPFieldInfo::ClassInfo { name_index } => CpInfoView::ClassInfo {
                name_index: *name_index,
            },
            ConstantPoolPFieldInfo::Utf8Info { length, bytes } => CpInfoView::Utf8Info {
                length: *length,
                bytes: bytes@,
            },
            ConstantPoolPFieldInfo::NameAndType { name_index, descriptor_index } =>
                CpInfoView::NameAndType {
                name_index: *name_index,
                descriptor_index: *descriptor_index,
            },
            ConstantPoolPFieldInfo::MethodRef(r) => CpInfoView::MethodRef(*r),
            ConstantPoolPFieldInfo::InterfaceMethodRef(r) => CpInfoView::InterfaceMethodRef(*r),
            ConstantPoolPFieldInfo::FieldRef(r) => CpInfoView::FieldRef(*r),
            ConstantPoolPFieldInfo::String { string_index } => CpInfoView::String {
                string_index: *string_index,
            },
        }
    }
}

/// A constant-pool entry: its tag and its body.
#[derive(Debug)]
pub struct ConstantPoolInfo {
    pub tag: ConstantPoolTag,
    pub info: ConstantPoolPFieldInfo,
}

/// The value of a [`ConstantPoolInfo`].
pub struct CpEntryView {
    pub tag: ConstantPoolTag,
    pub info: CpInfoView,
}

impl View for ConstantPoolInfo {
    type V = CpEntryView;

    open spec fn view(&self) -> CpEntryView {
        CpEntryView { tag: self.tag, info: self.info@ }
    }
}

/// The constant pool of a class, entry `#i` at position `i - 1`.
pub type ConstantPoolInfoTable = Rc<Vec<ConstantPoolInfo>>;

/// A field (`field_info`) of a class file.
#[derive(Debug)]
pub struct FieldInfo {
    pub access_flags: u16,
    pub name_index: u16,
    pub descriptor_index: u16,
    pub attributes_count: u16,
    pub attributes: Vec<AttributeInfo>,
}

/// A method (`method_info`) of a class file.
#[derive(Debug)]
pub struct MethodInfo {
    pub access_flags: u16,
    pub name_index: u16,
    pub descriptor_index: u16,
    pub attributes_count: u16,
    pub attributes: Vec<AttributeInfo>,
}

/// The value of a [`FieldInfo`] or a [`MethodInfo`].
pub struct MemberView {
    pub access_flags: u16,
    pub name_index: u16,
    pub descriptor_index: u16,
    pub attributes_count: u16,
    pub attributes: Seq<AttributeInfoView>,
}

impl View for FieldInfo {
    type V = MemberView;

    open spec fn view(&self) -> MemberView {
        MemberView {
            access_flags: self.access_flags,
            name_index: self.name_index,
            descriptor_index: self.descriptor_index,
            attributes_count: self.attributes_count,
            attributes: views(self.attributes@),
        }
    }
}

impl View for MethodInfo {
    type V = MemberView;

    open spec fn view(&self) -> MemberView {
        MemberView {
            access_flags: self.access_flags,
            name_index: self.name_index,
            descriptor_index: self.descriptor_index,
            attributes_count: self.attributes_count,
            attributes: views(self.attributes@),
        }
    }
}

/// A parsed class file.
#[derive(Debug)]
pub struct JavaClass {
    pub magic_number: u32,
    pub minor_version: u16,
    pub major_version: u16,
    pub constant_pool_count: u16,
    pub constant_pool: ConstantPoolInfoTable,
    pub access_flags: u16,
    pub this_class: u16,
    pub super_class: u16,
    pub interface_count: u16,
    pub interfaces: Vec<u16>,
    pub fields_count: u16,
    pub field_info: Vec<FieldInfo>,
    pub methods_count: u16,
    pub methods: Vec<MethodInfo>,
    pub attributes_count: u16,
    pub attributes_info: Vec<AttributeInfo>,
}

/// The value of a [`JavaClass`].
pub struct JavaClassView {
    pub magic_number: u32,
    pub minor_version: u16,
    pub major_version: u16,
    pub constant_pool_count: u16,
    pub constant_pool: Seq<CpEntryView>,
    pub access_flags: u16,
    pub this_class: u16,
    pub super_class: u16,
    pub interface_count: u16,
    pub interfaces: Seq<u16>,
    pub fields_count: u16,
    pub field_info: Seq<MemberView>,
    pub methods_count: u16,
    pub methods: Seq<MemberView>,
    pub attributes_count: u16,
    pub attributes_info: Seq<AttributeInfoView>,
}

impl View for JavaClass {
    type V = JavaClassView;

    open spec fn view(&self) -> JavaClassView {
        JavaClassView {
            magic_number: self.magic_number,
            minor_version: self.minor_version,
            major_version: self.major_version,
            constant_pool_count: self.constant_pool_count,
            constant_pool: views(self.constant_pool@),
            access_flags: self.access_flags,
            this_class: self.this_class,
            super_class: self.super_class,
            interface_count: self.interface_count,
            interfaces: self.interfaces@,
            fields_count: self.fields_count,
            field_info: views(self.field_info@),
            methods_count: self.methods_count,
            methods: views(self.methods@),
            attributes_count: self.attributes_count,
            attributes_info: views(self.attributes_info@),
        }
    }
}

impl Default for JavaClass {
    fn default() -> (r: JavaClass)
        ensures
            r@ == (JavaClassView {
                magic_number: 0,
                minor_version: 0,
                major_version: 0,
                constant_pool_count: 0,
                constant_pool: Seq::empty(),
                access_flags: 0,
                this_class: 0,
                super_class: 0,
                interface_count: 0,
                interfaces: Seq::empty(),
                fields_count: 0,
                field_info: Seq::empty(),
                methods_count: 0,
                methods: Seq::empty(),
                attributes_count: 0,
                attributes_info: Seq::empty(),
            }),
    {
        let r = JavaClass {
            magic_number: 0,
            minor_version: 0,
            major_version: 0,
            constant_pool_count: 0,
            constant_pool: Rc::new(Vec::new()),
            access_flags: 0,
            this_class: 0,
            super_class: 0,
            interface_count: 0,
            interfaces: Vec::new(),
            fields_count: 0,
            field_info: Vec::new(),
            methods_count: 0,
            methods: Vec::new(),
            attributes_count: 0,
            attributes_info: Vec::new(),
        };
        assert(views(r.constant_pool@) =~= Seq::<CpEntryView>::empty());
        assert(views(r.field_info@) =~= Seq::<MemberView>::empty());
        assert(views(r.methods@) =~= Seq::<MemberView>::empty());
        assert(views(r.attributes_info@) =~= Seq::<AttributeInfoView>::empty());
        r
    }
}

/// The decimal notation of each byte, separated by `", "`.
pub open spec fn spec_byte_list(bytes: Seq<u8>) -> Seq<char>
    decreases bytes.len(),
{
    if bytes.len() == 0 {
        Seq::empty()
    } else if bytes.len() == 1 {
        spec_decimal(bytes[0] as nat)
    } else {
        spec_byte_list(bytes.drop_last()) + ", "@ + spec_decimal(bytes.last() as nat)
    }
}

pub open spec fn spec_ref_text(r: RefFieldInfo) -> Seq<char> {
    "RefFieldInfo { class_index: "@ + spec_decimal(r.class_index as nat)
        + ", name_and_type_index: "@ + spec_decimal(r.name_and_type_index as nat) + " }"@
}

/// The text in which an entry body is shown for debugging: its variant and fields.
pub open spec fn spec_debug_text(info: CpInfoView) -> Seq<char> {
    match info {
        CpInfoView::ClassInfo { name_index } => "ClassInfo { name_index: "@ + spec_decimal(
            name_index as nat,
        ) + " }"@,
        CpInfoView::Utf8Info { length, bytes } => "Utf8Info { length: "@ + spec_decimal(
            length as nat,
        ) + ", bytes: ["@ + spec_byte_list(bytes) + "] }"@,
        CpInfoView::NameAndType { name_index, descriptor_index } => "NameAndType { name_index: "@
            + spec_decimal(name_index as nat) + ", descriptor_index: "@ + spec_decimal(
            descriptor_index as nat,
        ) + " }"@,
        CpInfoView::MethodRef(r) => "MethodRef("@ + spec_ref_text(r) + ")"@,
        CpInfoView::InterfaceMethodRef(r) => "InterfaceMethodRef("@ + spec_ref_text(r) + ")"@,
        CpInfoView::FieldRef(r) => "FieldRef("@ + spec_ref_text(r) + ")"@,
        CpInfoView::String { string_index } => "String { string_index: "@ + spec_decimal(
            string_index as nat,
        ) + " }"@,
    }
}

fn ref_text(text: &mut String, r: RefFieldInfo)
    ensures
        final(text)@ == old(text)@ + spec_ref_text(r),
{
    text.append("RefFieldInfo { class_index: ");
    push_decimal(text, r.class_index as u64);
    text.append(", name_and_type_index: ");
    push_decimal(text, r.name_and_type_index as u64);
    text.append(" }");
}

impl ConstantPoolPFieldInfo {
    /// The text in which the entry body is shown for debugging.
    pub fn debug_text(&self) -> (r: String)
        ensures
            r@ == spec_debug_text(self@),
    {
        let mut text = String::new();
        match self {
            ConstantPoolPFieldInfo::ClassInfo { name_index } => {
                text.append("ClassInfo { name_index: ");
                push_decimal(&mut text, *name_index as u64);
                text.append(" }");
            },
            ConstantPoolPFieldInfo::Utf8Info { length, bytes } => {
                text.append("Utf8Info { length: ");
                push_decimal(&mut text, *length as u64);
                text.append(", bytes: [");
                let ghost before = text@;
                let mut i: usize = 0;
                while i < bytes.len()
                    invariant
                        0 <= i <= bytes.len(),
                        text@ == before + spec_byte_list(bytes@.take(i as int)),
                    decreases bytes.len() - i,
                {
                    assert(bytes@.take(i + 1).drop_last() =~= bytes@.take(i as int));
                    if i > 0 {
                        text.append(", ");
                    }
                    push_decimal(&mut text, bytes[i] as u64);
                    i = i + 1;
                }
                assert(bytes@.take(bytes.len() as int) =~= bytes@);
                text.append("] }");
            },
            ConstantPoolPFieldInfo::NameAndType { name_index, descriptor_index } => {
                text.append("NameAndType { name_index: ");
                push_decimal(&mut text, *name_index as u64);
                text.append(", descriptor_index: ");
                push_decimal(&mut text, *descriptor_index as u64);
                text.append(" }");
            },
            ConstantPoolPFieldInfo::MethodRef(r) => {
                text.append("MethodRef(");
                ref_text(&mut text, *r);
                text.append(")");
            },
            ConstantPoolPFieldInfo::InterfaceMethodRef(r) => {
                text.append("InterfaceMethodRef(");
                ref_text(&mut text, *r);
                text.append(")");
            },
            ConstantPoolPFieldInfo::FieldRef(r) => {
                text.append("FieldRef(");
                ref_text(&mut text, *r);
                text.append(")");
            },
            ConstantPoolPFieldInfo::String { string_index } => {
                text.append("String { string_index: ");
                push_decimal(&mut text, *string_index as u64);
                text.append(" }");
            },
        }
        text
    }
}

} // verus!
