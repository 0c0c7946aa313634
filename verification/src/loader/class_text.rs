use crate::loader::attributes::{AttributeInfo, AttributeInfoView};
use crate::loader::java_class::{
    spec_tag_name, ConstantPoolInfo, ConstantPoolPFieldInfo, CpEntryView, CpInfoView, FieldInfo,
    JavaClass, JavaClassView, MemberView, MethodInfo, RefFieldInfo,
};
use crate::loader::listing::spec_attribute_info_text;
use crate::loader::reader::{lemma_views_push, lossy_string, spec_decimal, utf8_lossy, views};
use crate::text::{push_decimal, push_decimal_list, push_hex, push_section, spec_decimal_list, spec_hex, spec_section};
use vstd::prelude::*;
use vstd::string::StringExecFns;

verus! {

/// The two indices of a reference as the class listing shows them.
pub open spec fn spec_ref_display(r: RefFieldInfo) -> Seq<char> {
    "class_index: "@ + spec_decimal(r.class_index as nat) + ", name_and_type_index: "@
        + spec_decimal(r.name_and_type_index as nat)
}

impl RefFieldInfo {
    /// The two indices as the class listing shows them.
    pub fn text(&self) -> (r: String)
        ensures
            r@ == spec_ref_display(*self),
    {
        let mut text = String::from_str("class_index: ");
        push_decimal(&mut text, self.class_index as u64);
        text.append(", name_and_type_index: ");
        push_decimal(&mut text, self.name_and_type_index as u64);
        text
    }
}

/// A constant-pool entry body as the class listing shows it; the text of a `Utf8` entry
/// is its bytes decoded as `String::from_utf8_lossy` decodes them.
pub open spec fn spec_constant_text(info: CpInfoView) -> Seq<char> {
    match info {
        CpInfoView::ClassInfo { name_index } => "ClassInfo name_index="@ + spec_decimal(
            name_index as nat,
        ),
        CpInfoView::Utf8Info { length, bytes } => "Utf8Info length="@ + spec_decimal(length as nat)
            + " text="@ + utf8_lossy(bytes),
        CpInfoView::MethodRef(r) => "MethodRef "@ + spec_ref_display(r),
        CpInfoView::InterfaceMethodRef(r) => "InterfaceMethodRef "@ + spec_ref_display(r),
        CpInfoView::FieldRef(r) => "FieldRef "@ + spec_ref_display(r),
        CpInfoView::NameAndType { name_index, descriptor_index } => "NameAndType name_index="@
            + spec_decimal(name_index as nat) + " descriptor_index="@ + spec_decimal(
            descriptor_index as nat,
        ),
        CpInfoView::String { string_index } => "String string_index="@ + spec_decimal(
            string_index as nat,
        ),
    }
}

impl ConstantPoolPFieldInfo {
    /// The entry body as the class listing shows it.
    pub fn text(&self) -> (r: String)
        ensures
            r@ == spec_constant_text(self@),
    {
        let mut text = String::new();
        match self {
            ConstantPoolPFieldInfo::ClassInfo { name_index } => {
                text.append("ClassInfo name_index=");
                push_decimal(&mut text, *name_index as u64);
            },
            ConstantPoolPFieldInfo::Utf8Info { length, bytes } => {
                text.append("Utf8Info length=");
                push_decimal(&mut text, *length as u64);
                text.append(" text=");
                let decoded = lossy_string(bytes.as_slice());
                text.append(decoded.as_str());
            },
            ConstantPoolPFieldInfo::MethodRef(r) => {
                text.append("MethodRef ");
                text.append(r.text().as_str());
            },
            ConstantPoolPFieldInfo::InterfaceMethodRef(r) => {
                text.append("InterfaceMethodRef ");
                text.append(r.text().as_str());
            },
            ConstantPoolPFieldInfo::FieldRef(r) => {
                text.append("FieldRef ");
                text.append(r.text().as_str());
            },
            ConstantPoolPFieldInfo::NameAndType { name_index, descriptor_index } => {
                text.append("NameAndType name_index=");
                push_decimal(&mut text, *name_index as u64);
                text.append(" descriptor_index=");
                push_decimal(&mut text, *descriptor_index as u64);
            },
            ConstantPoolPFieldInfo::String { string_index } => {
                text.append("String string_index=");
                push_decimal(&mut text, *string_index as u64);
            },
        }
        assert(text@ =~= spec_constant_text(self@));
        text
    }
}

/// The texts of undecoded attributes.
pub open spec fn spec_attribute_info_texts(attrs: Seq<AttributeInfoView>) -> Seq<Seq<char>> {
    attrs.map_values(|a: AttributeInfoView| spec_attribute_info_text(a))
}

/// A field or a method as the class listing shows it: a line with its flags, indices and
/// attribute count, then its attributes, one numbered line each.
pub open spec fn spec_member_text(m: MemberView) -> Seq<char> {
    "access=0x"@ + spec_hex(m.access_flags as nat, 4) + " name_index="@ + spec_decimal(
        m.name_index as nat,
    ) + " descriptor_index="@ + spec_decimal(m.descriptor_index as nat) + " attrs="@
        + spec_decimal(m.attributes_count as nat) + "\n"@ + spec_section(
        "    Attributes:\n"@,
        "      #"@,
        spec_attribute_info_texts(m.attributes),
    )
}

fn attribute_info_texts(attrs: &Vec<AttributeInfo>) -> (r: Vec<String>)
    ensures
        views(r@) == spec_attribute_info_texts(views(attrs@)),
{
    let mut out: Vec<String> = Vec::new();
    let mut i: usize = 0;
    while i < attrs.len()
        invariant
            i <= attrs@.len(),
            views(out@) == spec_attribute_info_texts(views(attrs@)).take(i as int),
        decreases attrs.len() - i,
    {
        let t = attrs[i].text();
        proof {
            lemma_views_push(out@, t);
        }
        out.push(t);
        assert(views(out@) =~= spec_attribute_info_texts(views(attrs@)).take(i + 1));
        i = i + 1;
    }
    assert(spec_attribute_info_texts(views(attrs@)).take(i as int) =~= spec_attribute_info_texts(
        views(attrs@),
    ));
    out
}

fn member_text(
    access_flags: u16,
    name_index: u16,
    descriptor_index: u16,
    attributes_count: u16,
    attributes: &Vec<AttributeInfo>,
) -> (r: String)
    ensures
        r@ == spec_member_text(
            MemberView {
                access_flags,
                name_index,
                descriptor_index,
                attributes_count,
                attributes: views(attributes@),
            },
        ),
{
    let mut text = String::from_str("access=0x");
    push_hex(&mut text, access_flags as u64, 4);
    text.append(" name_index=");
    push_decimal(&mut text, name_index as u64);
    text.append(" descriptor_index=");
    push_decimal(&mut text, descriptor_index as u64);
    text.append(" attrs=");
    push_decimal(&mut text, attributes_count as u64);
    text.append("\n");
    let bodies = attribute_info_texts(attributes);
    push_section(&mut text, "    Attributes:\n", "      #", &bodies);
    text
}

impl FieldInfo {
    /// The field as the class listing shows it.
    pub fn text(&self) -> (r: String)
        ensures
            r@ == spec_member_text(self@),
    {
        member_text(
            self.access_flags,
            self.name_index,
            self.descriptor_index,
            self.attributes_count,
            &self.attributes,
        )
    }
}

impl MethodInfo {
    /// The method as the class listing shows it.
    pub fn text(&self) -> (r: String)
        ensures
            r@ == spec_member_text(self@),
    {
        member_text(
            self.access_flags,
            self.name_index,
            self.descriptor_index,
            self.attributes_count,
            &self.attributes,
        )
    }
}

/// The line of a constant-pool entry: its tag's name, `" => "` and its body.
pub open spec fn spec_entry_text(e: CpEntryView) -> Seq<char> {
    spec_tag_name(e.tag) + " => "@ + spec_constant_text(e.info)
}

/// The texts of constant-pool entries.
pub open spec fn spec_entry_texts(pool: Seq<CpEntryView>) -> Seq<Seq<char>> {
    pool.map_values(|e: CpEntryView| spec_entry_text(e))
}

/// The texts of fields or methods.
pub open spec fn spec_member_texts(ms: Seq<MemberView>) -> Seq<Seq<char>> {
    ms.map_values(|m: MemberView| spec_member_text(m))
}

/// The lines of a class listing from its magic number to its interface count.
pub open spec fn spec_class_numbers(c: JavaClassView) -> Seq<char> {
    "Magic number: 0x"@ + spec_hex(c.magic_number as nat, 8) + "\n"@ + "Major version: "@
        + spec_decimal(c.major_version as nat) + "\n"@ + "Minor version: "@ + spec_decimal(
        c.minor_version as nat,
    ) + "\n"@ + "Constant pool count: "@ + spec_decimal(c.constant_pool_count as nat) + "\n"@
        + "Access flags: 0x"@ + spec_hex(c.access_flags as nat, 4) + "\n"@
        + "This class index: "@ + spec_decimal(c.this_class as nat) + "\n"@
        + "Super class index: "@ + spec_decimal(c.super_class as nat) + "\n"@
        + "Interface count: "@ + spec_decimal(c.interface_count as nat) + "\n"@
}

/// The line of a class listing with its interfaces, where it has any.
pub open spec fn spec_interfaces_line(interfaces: Seq<u16>) -> Seq<char> {
    if interfaces.len() > 0 {
        "Interfaces: ["@ + spec_decimal_list(interfaces) + "]\n"@
    } else {
        Seq::empty()
    }
}

/// The lines of a class listing with its counts of fields, methods and attributes.
pub open spec fn spec_class_counts(c: JavaClassView) -> Seq<char> {
    "Fields count: "@ + spec_decimal(c.fields_count as nat) + "\n"@ + "Methods count: "@
        + spec_decimal(c.methods_count as nat) + "\n"@ + "Attributes count: "@ + spec_decimal(
        c.attributes_count as nat,
    ) + "\n"@
}

/// The first lines of a class listing: its numbers, one line each.
pub open spec fn spec_class_head(c: JavaClassView) -> Seq<char> {
    spec_class_numbers(c) + spec_interfaces_line(c.interfaces) + spec_class_counts(c)
}

/// A class listing: its numbers, then its fields, methods, constant-pool entries and
/// attributes, each kind under a heading and one numbered entry each, a heading left out
/// where there is nothing under it.
pub open spec fn spec_class_text(c: JavaClassView) -> Seq<char> {
    spec_class_head(c) + spec_section("Fields:\n"@, "  #"@, spec_member_texts(c.field_info))
        + spec_section("Methods:\n"@, "  #"@, spec_member_texts(c.methods)) + spec_section(
        "Constant Pool:\n"@,
        "  #"@,
        spec_entry_texts(c.constant_pool),
    ) + spec_section("Attributes:\n"@, "  #"@, spec_attribute_info_texts(c.attributes_info))
}

fn push_count_line(text: &mut String, label: &str, n: u64)
    ensures
        final(text)@ == old(text)@ + label@ + spec_decimal(n as nat) + "\n"@,
{
    text.append(label);
    push_decimal(text, n);
    text.append("\n");
}

fn push_class_numbers(text: &mut String, c: &JavaClass)
    ensures
        final(text)@ == old(text)@ + spec_class_numbers(c@),
{
    text.append("Magic number: 0x");
    push_hex(text, c.magic_number as u64, 8);
    text.append("\n");
    push_count_line(text, "Major version: ", c.major_version as u64);
    push_count_line(text, "Minor version: ", c.minor_version as u64);
    push_count_line(text, "Constant pool count: ", c.constant_pool_count as u64);
    text.append("Access flags: 0x");
    push_hex(text, c.access_flags as u64, 4);
    text.append("\n");
    push_count_line(text, "This class index: ", c.this_class as u64);
    push_count_line(text, "Super class index: ", c.super_class as u64);
    push_count_line(text, "Interface count: ", c.interface_count as u64);
    assert(text@ =~= old(text)@ + spec_class_numbers(c@));
}

fn push_class_head(text: &mut String, c: &JavaClass)
    ensures
        final(text)@ == old(text)@ + spec_class_head(c@),
{
    push_class_numbers(text, c);
    let ghost numbers = text@;
    if c.interfaces.len() > 0 {
        text.append("Interfaces: [");
        push_decimal_list(text, c.interfaces.as_slice());
        text.append("]\n");
    }
    assert(text@ =~= numbers + spec_interfaces_line(c@.interfaces));
    let ghost listed = text@;
    push_count_line(text, "Fields count: ", c.fields_count as u64);
    push_count_line(text, "Methods count: ", c.methods_count as u64);
    push_count_line(text, "Attributes count: ", c.attributes_count as u64);
    assert(text@ =~= listed + spec_class_counts(c@));
    assert(text@ =~= old(text)@ + spec_class_head(c@));
}

fn member_texts_of_fields(ms: &Vec<FieldInfo>) -> (r: Vec<String>)
    ensures
        views(r@) == spec_member_texts(views(ms@)),
{
    let mut out: Vec<String> = Vec::new();
    let mut i: usize = 0;
    while i < ms.len()
        invariant
            i <= ms@.len(),
            views(out@) == spec_member_texts(views(ms@)).take(i as int),
        decreases ms.len() - i,
    {
        let t = ms[i].text();
        proof {
            lemma_views_push(out@, t);
        }
        out.push(t);
        assert(views(out@) =~= spec_member_texts(views(ms@)).take(i + 1));
        i = i + 1;
    }
    assert(spec_member_texts(views(ms@)).take(i as int) =~= spec_member_texts(views(ms@)));
    out
}

fn member_texts_of_methods(ms: &Vec<MethodInfo>) -> (r: Vec<String>)
    ensures
        views(r@) == spec_member_texts(views(ms@)),
{
    let mut out: Vec<String> = Vec::new();
    let mut i: usize = 0;
    while i < ms.len()
        invariant
            i <= ms@.len(),
            views(out@) == spec_member_texts(views(ms@)).take(i as int),
        decreases ms.len() - i,
    {
        let t = ms[i].text();
        proof {
            lemma_views_push(out@, t);
        }
        out.push(t);
        assert(views(out@) =~= spec_member_texts(views(ms@)).take(i + 1));
        i = i + 1;
    }
    assert(spec_member_texts(views(ms@)).take(i as int) =~= spec_member_texts(views(ms@)));
    out
}

fn entry_texts(pool: &Vec<ConstantPoolInfo>) -> (r: Vec<String>)
    ensures
        views(r@) == spec_entry_texts(views(pool@)),
{
    let mut out: Vec<String> = Vec::new();
    let mut i: usize = 0;
    while i < pool.len()
        invariant
            i <= pool@.len(),
            views(out@) == spec_entry_texts(views(pool@)).take(i as int),
        decreases pool.len() - i,
    {
        let entry = &pool[i];
        let mut t = String::from_str(entry.tag.name());
        t.append(" => ");
        let body = entry.info.text();
        t.append(body.as_str());
        proof {
            lemma_views_push(out@, t);
        }
        out.push(t);
        assert(views(out@) =~= spec_entry_texts(views(pool@)).take(i + 1));
        i = i + 1;
    }
    assert(spec_entry_texts(views(pool@)).take(i as int) =~= spec_entry_texts(views(pool@)));
    out
}

impl JavaClass {
    /// The class as the command line lists it.
    pub fn text(&self) -> (r: String)
        ensures
            r@ == spec_class_text(self@),
    {
        let mut text = String::new();
        push_class_head(&mut text, self);
        let fields = member_texts_of_fields(&self.field_info);
        push_section(&mut text, "Fields:\n", "  #", &fields);
        let methods = member_texts_of_methods(&self.methods);
        push_section(&mut text, "Methods:\n", "  #", &methods);
        let pool: &Vec<ConstantPoolInfo> = &self.constant_pool;
        let entries = entry_texts(pool);
        push_section(&mut text, "Constant Pool:\n", "  #", &entries);
        let attributes = attribute_info_texts(&self.attributes_info);
        push_section(&mut text, "Attributes:\n", "  #", &attributes);
        assert(text@ =~= spec_class_text(self@));
        text
    }
}

} // verus!
