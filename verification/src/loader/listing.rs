use crate::loader::attributes::{
    attribute_view, attribute_views, lemma_attribute_views_push, spec_name_index, Annotation, AnnotationView, Attribute, AttributeInfo, AttributeInfoView,
    AttributeView, FrameView, LineNumberTableRecord, LocalVariableTableRecord,
    LocalVariableTypeTableRecord, MethodParameter, StackMapFrame, VerificationTypeInfo,
};
use crate::loader::reader::{lemma_views_push, spec_decimal, views};
use crate::text::{
    push_decimal, push_hex, push_hex_list, push_joined, push_list_block, push_opt, spec_hex,
    spec_hex_list, spec_joined, spec_list_block, spec_opt_text,
};
use vstd::prelude::*;
use vstd::string::StringExecFns;

verus! {

/// A verification type as `{:?}` shows it.
pub open spec fn spec_vti_text(v: VerificationTypeInfo) -> Seq<char> {
    "VerificationTypeInfo { tag: "@ + spec_decimal(v.tag as nat) + ", cpool_index: "@
        + spec_opt_text(v.cpool_index) + ", offset: "@ + spec_opt_text(v.offset) + " }"@
}

/// The texts of the verification types `vs`.
pub open spec fn spec_vti_texts(vs: Seq<VerificationTypeInfo>) -> Seq<Seq<char>> {
    vs.map_values(|v: VerificationTypeInfo| spec_vti_text(v))
}

/// A list of verification types as `{:?}` shows it.
pub open spec fn spec_vti_list(vs: Seq<VerificationTypeInfo>) -> Seq<char> {
    "["@ + spec_joined(spec_vti_texts(vs)) + "]"@
}

/// A stack-map frame as `{:?}` shows it.
pub open spec fn spec_frame_text(f: FrameView) -> Seq<char> {
    match f {
        FrameView::SameFrame { frame_type } => "SameFrame { frame_type: "@ + spec_decimal(
            frame_type as nat,
        ) + " }"@,
        FrameView::SameLocals1StackItemFrame { frame_type, stack } =>
            "SameLocals1StackItemFrame { frame_type: "@ + spec_decimal(frame_type as nat)
            + ", stack: "@ + spec_vti_list(stack) + " }"@,
        FrameView::SameLocals1StackItemFrameExtended { frame_type, offset_delta, stack } =>
            "SameLocals1StackItemFrameExtended { frame_type: "@ + spec_decimal(frame_type as nat)
            + ", offset_delta: "@ + spec_decimal(offset_delta as nat) + ", stack: "@
            + spec_vti_list(stack) + " }"@,
        FrameView::ChopFrame { frame_type, offset_delta } => "ChopFrame { frame_type: "@
            + spec_decimal(frame_type as nat) + ", offset_delta: "@ + spec_decimal(
            offset_delta as nat,
        ) + " }"@,
        FrameView::SameFrameExtended { frame_type, offset_delta } =>
            "SameFrameExtended { frame_type: "@ + spec_decimal(frame_type as nat)
            + ", offset_delta: "@ + spec_decimal(offset_delta as nat) + " }"@,
        FrameView::AppendFrame { frame_type, offset_delta, locals } =>
            "AppendFrame { frame_type: "@ + spec_decimal(frame_type as nat) + ", offset_delta: "@
            + spec_decimal(offset_delta as nat) + ", locals: "@ + spec_vti_list(locals) + " }"@,
        FrameView::FullFrame { frame_type, offset_delta, locals, stack } =>
            "FullFrame { frame_type: "@ + spec_decimal(frame_type as nat) + ", offset_delta: "@
            + spec_decimal(offset_delta as nat) + ", locals: "@ + spec_vti_list(locals)
            + ", stack: "@ + spec_vti_list(stack) + " }"@,
    }
}

impl VerificationTypeInfo {
    /// The verification type as `{:?}` shows it.
    pub fn debug_text(&self) -> (r: String)
        ensures
            r@ == spec_vti_text(*self),
    {
        let mut text = String::from_str("VerificationTypeInfo { tag: ");
        push_decimal(&mut text, self.tag as u64);
        text.append(", cpool_index: ");
        push_opt(&mut text, self.cpool_index);
        text.append(", offset: ");
        push_opt(&mut text, self.offset);
        text.append(" }");
        text
    }
}

fn push_vti_list(text: &mut String, vs: &Vec<VerificationTypeInfo>)
    ensures
        final(text)@ == old(text)@ + spec_vti_list(vs@),
{
    let mut parts: Vec<String> = Vec::new();
    let mut i: usize = 0;
    while i < vs.len()
        invariant
            i <= vs@.len(),
            views(parts@) == spec_vti_texts(vs@).take(i as int),
        decreases vs.len() - i,
    {
        let part = vs[i].debug_text();
        proof {
            lemma_views_push(parts@, part);
        }
        parts.push(part);
        assert(views(parts@) =~= spec_vti_texts(vs@).take(i + 1));
        i = i + 1;
    }
    assert(spec_vti_texts(vs@).take(i as int) =~= spec_vti_texts(vs@));
    text.append("[");
    push_joined(text, &parts);
    text.append("]");
}

proof fn lemma_vti_views(s: Seq<VerificationTypeInfo>)
    ensures
        views(s) == s,
{
    assert(views(s) =~= s);
}

impl StackMapFrame {
    /// The frame as `{:?}` shows it.
    pub fn debug_text(&self) -> (r: String)
        ensures
            r@ == spec_frame_text(self@),
    {
        let mut text = String::new();
        match self {
            StackMapFrame::SameFrame { frame_type } => {
                text.append("SameFrame { frame_type: ");
                push_decimal(&mut text, *frame_type as u64);
                text.append(" }");
            },
            StackMapFrame::SameLocals1StackItemFrame { frame_type, stack } => {
                text.append("SameLocals1StackItemFrame { frame_type: ");
                push_decimal(&mut text, *frame_type as u64);
                text.append(", stack: ");
                proof {
                    lemma_vti_views(stack@);
                }
                push_vti_list(&mut text, stack);
                text.append(" }");
            },
            StackMapFrame::SameLocals1StackItemFrameExtended { frame_type, offset_delta, stack } => {
                text.append("SameLocals1StackItemFrameExtended { frame_type: ");
                push_decimal(&mut text, *frame_type as u64);
                text.append(", offset_delta: ");
                push_decimal(&mut text, *offset_delta as u64);
                text.append(", stack: ");
                proof {
                    lemma_vti_views(stack@);
                }
                push_vti_list(&mut text, stack);
                text.append(" }");
            },
            StackMapFrame::ChopFrame { frame_type, offset_delta } => {
                text.append("ChopFrame { frame_type: ");
                push_decimal(&mut text, *frame_type as u64);
                text.append(", offset_delta: ");
                push_decimal(&mut text, *offset_delta as u64);
                text.append(" }");
            },
            StackMapFrame::SameFrameExtended { frame_type, offset_delta } => {
                text.append("SameFrameExtended { frame_type: ");
                push_decimal(&mut text, *frame_type as u64);
                text.append(", offset_delta: ");
                push_decimal(&mut text, *offset_delta as u64);
                text.append(" }");
            },
            StackMapFrame::AppendFrame { frame_type, offset_delta, locals } => {
                text.append("AppendFrame { frame_type: ");
                push_decimal(&mut text, *frame_type as u64);
                text.append(", offset_delta: ");
                push_decimal(&mut text, *offset_delta as u64);
                text.append(", locals: ");
                proof {
                    lemma_vti_views(locals@);
                }
                push_vti_list(&mut text, locals);
                text.append(" }");
            },
            StackMapFrame::FullFrame { frame_type, offset_delta, locals, stack } => {
                text.append("FullFrame { frame_type: ");
                push_decimal(&mut text, *frame_type as u64);
                text.append(", offset_delta: ");
                push_decimal(&mut text, *offset_delta as u64);
                text.append(", locals: ");
                proof {
                    lemma_vti_views(locals@);
                }
                push_vti_list(&mut text, locals);
                text.append(", stack: ");
                proof {
                    lemma_vti_views(stack@);
                }
                push_vti_list(&mut text, stack);
                text.append(" }");
            },
        }
        assert(text@ =~= spec_frame_text(self@));
        text
    }
}

/// An annotation as the class listing shows it.
pub open spec fn spec_annotation_text(a: AnnotationView) -> Seq<char> {
    "Annotation(type_index="@ + spec_decimal(a.type_index as nat) + ", pairs="@ + spec_decimal(
        a.num_element_value_pairs as nat,
    ) + ")"@
}

impl Annotation {
    /// The annotation as the class listing shows it.
    pub fn text(&self) -> (r: String)
        ensures
            r@ == spec_annotation_text(self@),
    {
        let mut text = String::from_str("Annotation(type_index=");
        push_decimal(&mut text, self.type_index as u64);
        text.append(", pairs=");
        push_decimal(&mut text, self.num_element_value_pairs as u64);
        text.append(")");
        text
    }
}

/// An undecoded attribute as the class listing shows it: its bytes in hexadecimal.
pub open spec fn spec_attribute_info_text(a: AttributeInfoView) -> Seq<char> {
    "Attribute(name_index="@ + spec_decimal(a.name_index as nat) + ", length="@ + spec_decimal(
        a.length as nat,
    ) + ", info=["@ + spec_hex_list(a.info) + "])"@
}

impl AttributeInfo {
    /// The attribute as the class listing shows it.
    pub fn text(&self) -> (r: String)
        ensures
            r@ == spec_attribute_info_text(self@),
    {
        let mut text = String::from_str("Attribute(name_index=");
        push_decimal(&mut text, self.attribute_name_index as u64);
        text.append(", length=");
        push_decimal(&mut text, self.attribute_length as u64);
        text.append(", info=[");
        push_hex_list(&mut text, self.info.as_slice());
        text.append("])");
        text
    }
}

/// A line-number record as the class listing shows it.
pub open spec fn spec_line_body(r: LineNumberTableRecord) -> Seq<char> {
    "start_pc="@ + spec_decimal(r.start_pc as nat) + ", line_number="@ + spec_decimal(
        r.line_number as nat,
    )
}

/// The texts of line-number records.
pub open spec fn spec_line_bodies(rs: Seq<LineNumberTableRecord>) -> Seq<Seq<char>> {
    rs.map_values(|r: LineNumberTableRecord| spec_line_body(r))
}

/// A local-variable record as the class listing shows it.
pub open spec fn spec_local_body(r: LocalVariableTableRecord) -> Seq<char> {
    "start_pc="@ + spec_decimal(r.start_pc as nat) + ", length="@ + spec_decimal(r.length as nat)
        + ", name_index="@ + spec_decimal(r.name_index as nat) + ", descriptor_index="@
        + spec_decimal(r.descriptor_index as nat) + ", index="@ + spec_decimal(r.index as nat)
}

/// The texts of local-variable records.
pub open spec fn spec_local_bodies(rs: Seq<LocalVariableTableRecord>) -> Seq<Seq<char>> {
    rs.map_values(|r: LocalVariableTableRecord| spec_local_body(r))
}

/// A local-variable-type record as the class listing shows it.
pub open spec fn spec_local_type_body(r: LocalVariableTypeTableRecord) -> Seq<char> {
    "start_pc="@ + spec_decimal(r.start_pc as nat) + ", length="@ + spec_decimal(r.length as nat)
        + ", name_index="@ + spec_decimal(r.name_index as nat) + ", signature_index="@
        + spec_decimal(r.signature_index as nat) + ", index="@ + spec_decimal(r.index as nat)
}

/// The texts of local-variable-type records.
pub open spec fn spec_local_type_bodies(rs: Seq<LocalVariableTypeTableRecord>) -> Seq<Seq<char>> {
    rs.map_values(|r: LocalVariableTypeTableRecord| spec_local_type_body(r))
}

/// The texts of stack-map frames.
pub open spec fn spec_frame_bodies(fs: Seq<FrameView>) -> Seq<Seq<char>> {
    fs.map_values(|f: FrameView| spec_frame_text(f))
}

/// The texts of annotations.
pub open spec fn spec_annotation_bodies(annotations: Seq<AnnotationView>) -> Seq<Seq<char>> {
    annotations.map_values(|a: AnnotationView| spec_annotation_text(a))
}

/// The texts of the entries of an exception index table.
pub open spec fn spec_exception_bodies(indices: Seq<u16>) -> Seq<Seq<char>> {
    indices.map_values(|i: u16| "exception_index="@ + spec_decimal(i as nat))
}

/// A method parameter as the class listing shows it.
pub open spec fn spec_parameter_body(p: MethodParameter) -> Seq<char> {
    "name_index="@ + spec_decimal(p.name_index as nat) + ", access_flags=0x"@ + spec_hex(
        p.access_flags as nat,
        4,
    )
}

/// The texts of method parameters.
pub open spec fn spec_parameter_bodies(ps: Seq<MethodParameter>) -> Seq<Seq<char>> {
    ps.map_values(|p: MethodParameter| spec_parameter_body(p))
}

fn line_bodies(rs: &Vec<LineNumberTableRecord>) -> (r: Vec<String>)
    ensures
        views(r@) == spec_line_bodies(rs@),
{
    let mut out: Vec<String> = Vec::new();
    let mut i: usize = 0;
    while i < rs.len()
        invariant
            i <= rs@.len(),
            views(out@) == spec_line_bodies(rs@).take(i as int),
        decreases rs.len() - i,
    {
        let rec = rs[i];
        let mut b = String::from_str("start_pc=");
        push_decimal(&mut b, rec.start_pc as u64);
        b.append(", line_number=");
        push_decimal(&mut b, rec.line_number as u64);
        proof {
            lemma_views_push(out@, b);
        }
        out.push(b);
        assert(views(out@) =~= spec_line_bodies(rs@).take(i + 1));
        i = i + 1;
    }
    assert(spec_line_bodies(rs@).take(i as int) =~= spec_line_bodies(rs@));
    out
}

fn local_bodies(rs: &Vec<LocalVariableTableRecord>) -> (r: Vec<String>)
    ensures
        views(r@) == spec_local_bodies(rs@),
{
    let mut out: Vec<String> = Vec::new();
    let mut i: usize = 0;
    while i < rs.len()
        invariant
            i <= rs@.len(),
            views(out@) == spec_local_bodies(rs@).take(i as int),
        decreases rs.len() - i,
    {
        let rec = rs[i];
        let mut b = String::from_str("start_pc=");
        push_decimal(&mut b, rec.start_pc as u64);
        b.append(", length=");
        push_decimal(&mut b, rec.length as u64);
        b.append(", name_index=");
        push_decimal(&mut b, rec.name_index as u64);
        b.append(", descriptor_index=");
        push_decimal(&mut b, rec.descriptor_index as u64);
        b.append(", index=");
        push_decimal(&mut b, rec.index as u64);
        proof {
            lemma_views_push(out@, b);
        }
        out.push(b);
        assert(views(out@) =~= spec_local_bodies(rs@).take(i + 1));
        i = i + 1;
    }
    assert(spec_local_bodies(rs@).take(i as int) =~= spec_local_bodies(rs@));
    out
}

fn local_type_bodies(rs: &Vec<LocalVariableTypeTableRecord>) -> (r: Vec<String>)
    ensures
        views(r@) == spec_local_type_bodies(rs@),
{
    let mut out: Vec<String> = Vec::new();
    let mut i: usize = 0;
    while i < rs.len()
        invariant
            i <= rs@.len(),
            views(out@) == spec_local_type_bodies(rs@).take(i as int),
        decreases rs.len() - i,
    {
        let rec = rs[i];
        let mut b = String::from_str("start_pc=");
        push_decimal(&mut b, rec.start_pc as u64);
        b.append(", length=");
        push_decimal(&mut b, rec.length as u64);
        b.append(", name_index=");
        push_decimal(&mut b, rec.name_index as u64);
        b.append(", signature_index=");
        push_decimal(&mut b, rec.signature_index as u64);
        b.append(", index=");
        push_decimal(&mut b, rec.index as u64);
        proof {
            lemma_views_push(out@, b);
        }
        out.push(b);
        assert(views(out@) =~= spec_local_type_bodies(rs@).take(i + 1));
        i = i + 1;
    }
    assert(spec_local_type_bodies(rs@).take(i as int) =~= spec_local_type_bodies(rs@));
    out
}

fn frame_bodies(fs: &Vec<StackMapFrame>) -> (r: Vec<String>)
    ensures
        views(r@) == spec_frame_bodies(views(fs@)),
{
    let mut out: Vec<String> = Vec::new();
    let mut i: usize = 0;
    while i < fs.len()
        invariant
            i <= fs@.len(),
            views(out@) == spec_frame_bodies(views(fs@)).take(i as int),
        decreases fs.len() - i,
    {
        let b = fs[i].debug_text();
        proof {
            lemma_views_push(out@, b);
        }
        out.push(b);
        assert(views(out@) =~= spec_frame_bodies(views(fs@)).take(i + 1));
        i = i + 1;
    }
    assert(spec_frame_bodies(views(fs@)).take(i as int) =~= spec_frame_bodies(views(fs@)));
    out
}

fn annotation_bodies(annotations: &Vec<Annotation>) -> (r: Vec<String>)
    ensures
        views(r@) == spec_annotation_bodies(views(annotations@)),
{
    let mut out: Vec<String> = Vec::new();
    let mut i: usize = 0;
    while i < annotations.len()
        invariant
            i <= annotations@.len(),
            views(out@) == spec_annotation_bodies(views(annotations@)).take(i as int),
        decreases annotations.len() - i,
    {
        let b = annotations[i].text();
        proof {
            lemma_views_push(out@, b);
        }
        out.push(b);
        assert(views(out@) =~= spec_annotation_bodies(views(annotations@)).take(i + 1));
        i = i + 1;
    }
    assert(spec_annotation_bodies(views(annotations@)).take(i as int) =~= spec_annotation_bodies(
        views(annotations@),
    ));
    out
}

fn exception_bodies(indices: &Vec<u16>) -> (r: Vec<String>)
    ensures
        views(r@) == spec_exception_bodies(indices@),
{
    let mut out: Vec<String> = Vec::new();
    let mut i: usize = 0;
    while i < indices.len()
        invariant
            i <= indices@.len(),
            views(out@) == spec_exception_bodies(indices@).take(i as int),
        decreases indices.len() - i,
    {
        let mut b = String::from_str("exception_index=");
        push_decimal(&mut b, indices[i] as u64);
        proof {
            lemma_views_push(out@, b);
        }
        out.push(b);
        assert(views(out@) =~= spec_exception_bodies(indices@).take(i + 1));
        i = i + 1;
    }
    assert(spec_exception_bodies(indices@).take(i as int) =~= spec_exception_bodies(indices@));
    out
}

fn parameter_bodies(ps: &Vec<MethodParameter>) -> (r: Vec<String>)
    ensures
        views(r@) == spec_parameter_bodies(ps@),
{
    let mut out: Vec<String> = Vec::new();
    let mut i: usize = 0;
    while i < ps.len()
        invariant
            i <= ps@.len(),
            views(out@) == spec_parameter_bodies(ps@).take(i as int),
        decreases ps.len() - i,
    {
        let p = ps[i];
        let mut b = String::from_str("name_index=");
        push_decimal(&mut b, p.name_index as u64);
        b.append(", access_flags=0x");
        push_hex(&mut b, p.access_flags as u64, 4);
        proof {
            lemma_views_push(out@, b);
        }
        out.push(b);
        assert(views(out@) =~= spec_parameter_bodies(ps@).take(i + 1));
        i = i + 1;
    }
    assert(spec_parameter_bodies(ps@).take(i as int) =~= spec_parameter_bodies(ps@));
    out
}

/// The first bytes of a method body as the class listing shows them: at most sixteen in
/// hexadecimal, and how many more there are.
pub open spec fn spec_code_bytes_text(code: Seq<u8>) -> Seq<char> {
    if code.len() == 0 {
        Seq::empty()
    } else {
        " code=["@ + spec_hex_list(code.take(if code.len() < 16 { code.len() as int } else { 16 }))
            + "]"@ + if code.len() > 16 {
            "...(+"@ + spec_decimal((code.len() - 16) as nat) + " bytes)"@
        } else {
            Seq::empty()
        }
    }
}

/// The head `Kind(name_index=…, length=…)` of an attribute's text.
pub open spec fn spec_head2(kind: Seq<char>, name_index: u16, length: u32) -> Seq<char> {
    kind + "(name_index="@ + spec_decimal(name_index as nat) + ", length="@ + spec_decimal(
        length as nat,
    ) + ")"@
}

/// The head `Kind(name_index=…, length=…, label=…)` of an attribute's text.
pub open spec fn spec_head3(kind: Seq<char>, name_index: u16, length: u32, label: Seq<char>, value: nat) -> Seq<char> {
    kind + "(name_index="@ + spec_decimal(name_index as nat) + ", length="@ + spec_decimal(
        length as nat,
    ) + ", "@ + label + "="@ + spec_decimal(value) + ")"@
}

/// The head of a `Code` attribute's text.
pub open spec fn spec_code_head(
    name_index: u16,
    length: u32,
    max_stack: u16,
    max_locals: u16,
    code_length: u32,
    exception_table_length: u16,
    attributes_count: u16,
) -> Seq<char> {
    "Code(name_index="@ + spec_decimal(name_index as nat) + ", length="@ + spec_decimal(
        length as nat,
    ) + ", max_stack="@ + spec_decimal(max_stack as nat) + ", max_locals="@ + spec_decimal(
        max_locals as nat,
    ) + ", code_length="@ + spec_decimal(code_length as nat) + ", exception_table_length="@
        + spec_decimal(exception_table_length as nat) + ", attributes_count="@ + spec_decimal(
        attributes_count as nat,
    ) + ")"@
}

/// A decoded attribute as the class listing shows it; the attributes nested in a `Code`
/// attribute follow it, one numbered line each.
pub open spec fn spec_attribute_text(a: AttributeView) -> Seq<char>
    decreases a,
{
    match a {
        AttributeView::ConstantVale { attribute_name_index, attribute_length, constantvalue_index } =>
            spec_head3(
            "ConstantValue"@,
            attribute_name_index,
            attribute_length,
            "value_index"@,
            constantvalue_index as nat,
        ),
        AttributeView::Code {
            attribute_name_index,
            attribute_length,
            max_stack,
            max_locals,
            code_length,
            code,
            exception_table_length,
            exception_table,
            attributes_count,
            attributes,
        } => spec_code_head(
            attribute_name_index,
            attribute_length,
            max_stack,
            max_locals,
            code_length,
            exception_table_length,
            attributes_count,
        ) + spec_code_bytes_text(code) + (if exception_table.len() > 0 {
            " exception_table_len="@ + spec_decimal(exception_table.len())
        } else {
            Seq::empty()
        }) + (if attributes.len() > 0 {
            " attributes_count="@ + spec_decimal(attributes.len()) + "\n"@ + "      Attributes:\n"@
                + spec_nested_lines(attributes)
        } else {
            Seq::empty()
        }),
        AttributeView::LineNumberTabel {
            attribute_name_index,
            attribute_length,
            line_number_table_length,
            line_number_table,
        } => spec_head3(
            "LineNumberTable"@,
            attribute_name_index,
            attribute_length,
            "table_length"@,
            line_number_table_length as nat,
        ) + spec_list_block(spec_line_bodies(line_number_table)),
        AttributeView::LocalVariableTable {
            attribute_name_index,
            attribute_length,
            local_variable_table_length,
            local_variable_table,
        } => spec_head3(
            "LocalVariableTable"@,
            attribute_name_index,
            attribute_length,
            "table_length"@,
            local_variable_table_length as nat,
        ) + spec_list_block(spec_local_bodies(local_variable_table)),
        AttributeView::LocalVariableTypeTable {
            attribute_name_index,
            attribute_length,
            local_variable_type_table_length,
            local_variable_type_table,
        } => spec_head3(
            "LocalVariableTypeTable"@,
            attribute_name_index,
            attribute_length,
            "table_length"@,
            local_variable_type_table_length as nat,
        ) + spec_list_block(spec_local_type_bodies(local_variable_type_table)),
        AttributeView::StackMapTable {
            attribute_name_index,
            attribute_length,
            number_of_entries,
            entries,
        } => spec_head3(
            "StackMapTable"@,
            attribute_name_index,
            attribute_length,
            "entries"@,
            number_of_entries as nat,
        ) + spec_list_block(spec_frame_bodies(entries)),
        AttributeView::RuntimeVisibleAnnotations {
            attribute_name_index,
            attribute_length,
            num_annotations,
            annotations,
        } => spec_head3(
            "RuntimeVisibleAnnotations"@,
            attribute_name_index,
            attribute_length,
            "count"@,
            num_annotations as nat,
        ) + spec_list_block(spec_annotation_bodies(annotations)),
        AttributeView::RuntimeInvisibleAnnotations {
            attribute_name_index,
            attribute_length,
            num_annotations,
            annotations,
        } => spec_head3(
            "RuntimeInvisibleAnnotations"@,
            attribute_name_index,
            attribute_length,
            "count"@,
            num_annotations as nat,
        ) + spec_list_block(spec_annotation_bodies(annotations)),
        AttributeView::Exceptions {
            attribute_name_index,
            attribute_length,
            number_of_exceptions,
            exception_index_table,
        } => spec_head3(
            "Exceptions"@,
            attribute_name_index,
            attribute_length,
            "count"@,
            number_of_exceptions as nat,
        ) + spec_list_block(spec_exception_bodies(exception_index_table)),
        AttributeView::Deprecated { attribute_name_index, attribute_length } => spec_head2(
            "Deprecated"@,
            attribute_name_index,
            attribute_length,
        ),
        AttributeView::Signature { attribute_name_index, attribute_length, signature_index } =>
            spec_head3(
            "Signature"@,
            attribute_name_index,
            attribute_length,
            "signature_index"@,
            signature_index as nat,
        ),
        AttributeView::MethodParameters {
            attribute_name_index,
            attribute_length,
            parameters_count,
            parameters,
        } => spec_head3(
            "MethodParameters"@,
            attribute_name_index,
            attribute_length,
            "count"@,
            parameters_count as nat,
        ) + spec_list_block(spec_parameter_bodies(parameters)),
    }
}

/// The attributes nested in a `Code` attribute, one numbered line each with the index
/// of its name.
pub open spec fn spec_nested_lines(attrs: Seq<AttributeView>) -> Seq<char>
    decreases attrs,
{
    if attrs.len() == 0 {
        Seq::empty()
    } else {
        spec_nested_lines(attrs.drop_last()) + "        #"@ + spec_decimal(attrs.len())
            + " (name_index="@ + spec_decimal(spec_name_index(attrs[attrs.len() - 1]) as nat)
            + "): "@ + spec_attribute_text(attrs[attrs.len() - 1]) + "\n"@
    }
}

fn push_code_bytes(text: &mut String, code: &Vec<u8>)
    ensures
        final(text)@ == old(text)@ + spec_code_bytes_text(code@),
{
    if code.len() == 0 {
        assert(old(text)@ + spec_code_bytes_text(code@) =~= old(text)@);
        return;
    }
    let shown: usize = if code.len() < 16 {
        code.len()
    } else {
        16
    };
    text.append(" code=[");
    let all = code.as_slice();
    let head = &all[0..shown];
    assert(head@ =~= code@.take(shown as int));
    push_hex_list(text, head);
    text.append("]");
    if code.len() > 16 {
        text.append("...(+");
        push_decimal(text, (code.len() - 16) as u64);
        text.append(" bytes)");
        assert(text@ =~= old(text)@ + spec_code_bytes_text(code@));
    } else {
        assert(text@ =~= old(text)@ + spec_code_bytes_text(code@));
    }
}

fn push_head2(text: &mut String, kind: &str, name_index: u16, length: u32)
    ensures
        final(text)@ == old(text)@ + spec_head2(kind@, name_index, length),
{
    text.append(kind);
    text.append("(name_index=");
    push_decimal(text, name_index as u64);
    text.append(", length=");
    push_decimal(text, length as u64);
    text.append(")");
    assert(text@ =~= old(text)@ + spec_head2(kind@, name_index, length));
}

fn push_head3(text: &mut String, kind: &str, name_index: u16, length: u32, label: &str, value: u64)
    ensures
        final(text)@ == old(text)@ + spec_head3(kind@, name_index, length, label@, value as nat),
{
    text.append(kind);
    text.append("(name_index=");
    push_decimal(text, name_index as u64);
    text.append(", length=");
    push_decimal(text, length as u64);
    text.append(", ");
    text.append(label);
    text.append("=");
    push_decimal(text, value);
    text.append(")");
    assert(text@ =~= old(text)@ + spec_head3(kind@, name_index, length, label@, value as nat));
}

fn push_code_head(
    text: &mut String,
    name_index: u16,
    length: u32,
    max_stack: u16,
    max_locals: u16,
    code_length: u32,
    exception_table_length: u16,
    attributes_count: u16,
)
    ensures
        final(text)@ == old(text)@ + spec_code_head(
            name_index,
            length,
            max_stack,
            max_locals,
            code_length,
            exception_table_length,
            attributes_count,
        ),
{
    text.append("Code(name_index=");
    push_decimal(text, name_index as u64);
    text.append(", length=");
    push_decimal(text, length as u64);
    text.append(", max_stack=");
    push_decimal(text, max_stack as u64);
    text.append(", max_locals=");
    push_decimal(text, max_locals as u64);
    text.append(", code_length=");
    push_decimal(text, code_length as u64);
    text.append(", exception_table_length=");
    push_decimal(text, exception_table_length as u64);
    text.append(", attributes_count=");
    push_decimal(text, attributes_count as u64);
    text.append(")");
    assert(text@ =~= old(text)@ + spec_code_head(
        name_index,
        length,
        max_stack,
        max_locals,
        code_length,
        exception_table_length,
        attributes_count,
    ));
}

/// Appends the numbered lines of the attributes nested in a `Code` attribute.
fn push_nested(text: &mut String, attributes: &Vec<Attribute>)
    ensures
        final(text)@ == old(text)@ + spec_nested_lines(attribute_views(attributes@)),
    decreases attributes@,
{
    let ghost start = text@;
    let mut i: usize = 0;
    assert(attributes@.take(0) =~= Seq::<Attribute>::empty());
    assert(start + spec_nested_lines(attribute_views(attributes@.take(0))) =~= start);
    while i < attributes.len()
        invariant
            i <= attributes@.len(),
            text@ == start + spec_nested_lines(attribute_views(attributes@.take(i as int))),
        decreases attributes.len() - i,
    {
        let inner = &attributes[i];
        assert(decreases_to!(attributes@ => attributes@[i as int]));
        let inner_text = inner.text();
        proof {
            assert(attributes@.take(i + 1) =~= attributes@.take(i as int).push(*inner));
            lemma_attribute_views_push(attributes@.take(i as int), *inner);
        }
        let ghost before = text@;
        text.append("        #");
        push_decimal(text, (i + 1) as u64);
        text.append(" (name_index=");
        push_decimal(text, inner.name_index() as u64);
        text.append("): ");
        text.append(inner_text.as_str());
        text.append("\n");
        proof {
            let vs = attribute_views(attributes@.take(i + 1));
            lemma_attribute_views_len(attributes@.take(i + 1));
            assert(vs.drop_last() =~= attribute_views(attributes@.take(i as int)));
            assert(vs[vs.len() - 1] == attribute_view(*inner));
            assert(text@ =~= start + spec_nested_lines(vs));
        }
        i = i + 1;
    }
    assert(attributes@.take(i as int) =~= attributes@);
}

impl Attribute {
    /// The attribute as the class listing shows it.
    #[verifier::spinoff_prover]
    #[verifier::rlimit(40)]
    pub fn text(&self) -> (r: String)
        ensures
            r@ == spec_attribute_text(self@),
        decreases self,
    {
        let mut text = String::new();
        match self {
            Attribute::ConstantVale { attribute_name_index, attribute_length, constantvalue_index } => {
                push_head3(
                    &mut text,
                    "ConstantValue",
                    *attribute_name_index,
                    *attribute_length,
                    "value_index",
                    *constantvalue_index as u64,
                );
            },
            Attribute::Code {
                attribute_name_index,
                attribute_length,
                max_stack,
                max_locals,
                code_length,
                code,
                exception_table_length,
                exception_table,
                attributes_count,
                attributes,
            } => {
                push_code_head(
                    &mut text,
                    *attribute_name_index,
                    *attribute_length,
                    *max_stack,
                    *max_locals,
                    *code_length,
                    *exception_table_length,
                    *attributes_count,
                );
                push_code_bytes(&mut text, code);
                let ghost after_code = text@;
                if exception_table.len() > 0 {
                    text.append(" exception_table_len=");
                    push_decimal(&mut text, exception_table.len() as u64);
                }
                let ghost after_table = text@;
                proof {
                    lemma_attribute_views_len(attributes@);
                }
                if attributes.len() > 0 {
                    text.append(" attributes_count=");
                    push_decimal(&mut text, attributes.len() as u64);
                    text.append("\n");
                    text.append("      Attributes:\n");
                    push_nested(&mut text, attributes);
                }
                assert(text@ =~= spec_attribute_text(self@));
            },
            Attribute::LineNumberTabel {
                attribute_name_index,
                attribute_length,
                line_number_table_length,
                line_number_table,
            } => {
                push_head3(
                    &mut text,
                    "LineNumberTable",
                    *attribute_name_index,
                    *attribute_length,
                    "table_length",
                    *line_number_table_length as u64,
                );
                let bodies = line_bodies(line_number_table);
                push_list_block(&mut text, &bodies);
            },
            Attribute::LocalVariableTable {
                attribute_name_index,
                attribute_length,
                local_variable_table_length,
                local_variable_table,
            } => {
                push_head3(
                    &mut text,
                    "LocalVariableTable",
                    *attribute_name_index,
                    *attribute_length,
                    "table_length",
                    *local_variable_table_length as u64,
                );
                let bodies = local_bodies(local_variable_table);
                push_list_block(&mut text, &bodies);
            },
            Attribute::LocalVariableTypeTable {
                attribute_name_index,
                attribute_length,
                local_variable_type_table_length,
                local_variable_type_table,
            } => {
                push_head3(
                    &mut text,
                    "LocalVariableTypeTable",
                    *attribute_name_index,
                    *attribute_length,
                    "table_length",
                    *local_variable_type_table_length as u64,
                );
                let bodies = local_type_bodies(local_variable_type_table);
                push_list_block(&mut text, &bodies);
            },
            Attribute::StackMapTable { attribute_name_index, attribute_length, number_of_entries, entries } => {
                push_head3(
                    &mut text,
                    "StackMapTable",
                    *attribute_name_index,
                    *attribute_length,
                    "entries",
                    *number_of_entries as u64,
                );
                let bodies = frame_bodies(entries);
                push_list_block(&mut text, &bodies);
            },
            Attribute::RuntimeVisibleAnnotations {
                attribute_name_index,
                attribute_length,
                num_annotations,
                annotations,
            } => {
                push_head3(
                    &mut text,
                    "RuntimeVisibleAnnotations",
                    *attribute_name_index,
                    *attribute_length,
                    "count",
                    *num_annotations as u64,
                );
                let bodies = annotation_bodies(annotations);
                push_list_block(&mut text, &bodies);
            },
            Attribute::RuntimeInvisibleAnnotations {
                attribute_name_index,
                attribute_length,
                num_annotations,
                annotations,
            } => {
                push_head3(
                    &mut text,
                    "RuntimeInvisibleAnnotations",
                    *attribute_name_index,
                    *attribute_length,
                    "count",
                    *num_annotations as u64,
                );
                let bodies = annotation_bodies(annotations);
                push_list_block(&mut text, &bodies);
            },
            Attribute::Exceptions {
                attribute_name_index,
                attribute_length,
                number_of_exceptions,
                exception_index_table,
            } => {
                push_head3(
                    &mut text,
                    "Exceptions",
                    *attribute_name_index,
                    *attribute_length,
                    "count",
                    *number_of_exceptions as u64,
                );
                let bodies = exception_bodies(exception_index_table);
                push_list_block(&mut text, &bodies);
            },
            Attribute::Deprecated { attribute_name_index, attribute_length } => {
                push_head2(&mut text, "Deprecated", *attribute_name_index, *attribute_length);
            },
            Attribute::Signature { attribute_name_index, attribute_length, signature_index } => {
                push_head3(
                    &mut text,
                    "Signature",
                    *attribute_name_index,
                    *attribute_length,
                    "signature_index",
                    *signature_index as u64,
                );
            },
            Attribute::MethodParameters {
                attribute_name_index,
                attribute_length,
                parameters_count,
                parameters,
            } => {
                push_head3(
                    &mut text,
                    "MethodParameters",
                    *attribute_name_index,
                    *attribute_length,
                    "count",
                    *parameters_count as u64,
                );
                let bodies = parameter_bodies(parameters);
                push_list_block(&mut text, &bodies);
            },
        }
        assert(text@ =~= spec_attribute_text(self@));
        text
    }
}

proof fn lemma_attribute_views_len(s: Seq<Attribute>)
    ensures
        attribute_views(s).len() == s.len(),
    decreases s.len(),
{
    if s.len() > 0 {
        lemma_attribute_views_len(s.drop_last());
    }
}

} // verus!
