use crate::errors::{map_error, ClassLoadError, LoadErrorView};
use crate::loader::java_class::{
    ConstantPoolInfo, ConstantPoolInfoTable, ConstantPoolPFieldInfo, CpEntryView, CpInfoView,
};
use crate::errors::message;
use crate::loader::reader::{
    agrees, agrees_all, be16, be32, bytes_at, decimal_string, fail_as, failure_agrees, fits,
    lemma_repeat_fails, lemma_views_push, need_u16, need_u32, read_u16_seq, repeat, spec_decimal,
    lossy_string, outcome_agrees, spec_u16_seq, u8_at, utf8_lossy, views, LoadFailure, Parsed,
};
use vstd::string::StringExecFns;
use vstd::prelude::*;

verus! {

/// An attribute as it stands in the class file: the index of its name, its length
/// and its undecoded bytes.
#[derive(Debug)]
pub struct AttributeInfo {
    pub attribute_name_index: u16,
    pub attribute_length: u32,
    pub info: Vec<u8>,
}

/// The value of an [`AttributeInfo`].
pub struct AttributeInfoView {
    pub name_index: u16,
    pub length: u32,
    pub info: Seq<u8>,
}

impl View for AttributeInfo {
    type V = AttributeInfoView;

    open spec fn view(&self) -> AttributeInfoView {
        AttributeInfoView {
            name_index: self.attribute_name_index,
            length: self.attribute_length,
            info: self.info@,
        }
    }
}

#[derive(Debug, Clone, Copy, PartialEq, Eq, Structural)]
pub struct ExceptionTableRecord {
    pub start_pc: u16,
    pub end_pc: u16,
    pub handler_pc: u16,
    pub catch_type: u16,
}

#[derive(Debug, Clone, Copy, PartialEq, Eq, Structural)]
pub struct LineNumberTableRecord {
    pub start_pc: u16,
    pub line_number: u16,
}

#[derive(Debug, Clone, Copy, PartialEq, Eq, Structural)]
pub struct LocalVariableTableRecord {
    pub start_pc: u16,
    pub length: u16,
    pub name_index: u16,
    pub descriptor_index: u16,
    pub index: u16,
}

#[derive(Debug, Clone, Copy, PartialEq, Eq, Structural)]
pub struct LocalVariableTypeTableRecord {
    pub start_pc: u16,
    pub length: u16,
    pub name_index: u16,
    pub signature_index: u16,
    pub index: u16,
}

#[derive(Debug, Clone, Copy, PartialEq, Eq, Structural)]
pub struct VerificationTypeInfo {
    pub tag: u8,
    pub cpool_index: Option<u16>,
    pub offset: Option<u16>,
}

#[derive(Debug, Clone, Copy, PartialEq, Eq, Structural)]
pub struct MethodParameter {
    pub name_index: u16,
    pub access_flags: u16,
}

impl View for ExceptionTableRecord {
    type V = ExceptionTableRecord;

    open spec fn view(&self) -> ExceptionTableRecord {
        *self
    }
}

impl View for LineNumberTableRecord {
    type V = LineNumberTableRecord;

    open spec fn view(&self) -> LineNumberTableRecord {
        *self
    }
}

impl View for LocalVariableTableRecord {
    type V = LocalVariableTableRecord;

    open spec fn view(&self) -> LocalVariableTableRecord {
        *self
    }
}

impl View for LocalVariableTypeTableRecord {
    type V = LocalVariableTypeTableRecord;

    open spec fn view(&self) -> LocalVariableTypeTableRecord {
        *self
    }
}

impl View for VerificationTypeInfo {
    type V = VerificationTypeInfo;

    open spec fn view(&self) -> VerificationTypeInfo {
        *self
    }
}

impl View for MethodParameter {
    type V = MethodParameter;

    open spec fn view(&self) -> MethodParameter {
        *self
    }
}

/// A frame of a `StackMapTable` attribute.
#[derive(Debug)]
pub enum StackMapFrame {
    SameFrame { frame_type: u8 },
    SameLocals1StackItemFrame { frame_type: u8, stack: Vec<VerificationTypeInfo> },
    SameLocals1StackItemFrameExtended {
        frame_type: u8,
        offset_delta: u16,
        stack: Vec<VerificationTypeInfo>,
    },
    ChopFrame { frame_type: u8, offset_delta: u16 },
    SameFrameExtended { frame_type: u8, offset_delta: u16 },
    AppendFrame { frame_type: u8, offset_delta: u16, locals: Vec<VerificationTypeInfo> },
    FullFrame {
        frame_type: u8,
        offset_delta: u16,
        locals: Vec<VerificationTypeInfo>,
        stack: Vec<VerificationTypeInfo>,
    },
}

/// The value of a [`StackMapFrame`].
pub enum FrameView {
    SameFrame { frame_type: u8 },
    SameLocals1StackItemFrame { frame_type: u8, stack: Seq<VerificationTypeInfo> },
    SameLocals1StackItemFrameExtended {
        frame_type: u8,
        offset_delta: u16,
        stack: Seq<VerificationTypeInfo>,
    },
    ChopFrame { frame_type: u8, offset_delta: u16 },
    SameFrameExtended { frame_type: u8, offset_delta: u16 },
    AppendFrame { frame_type: u8, offset_delta: u16, locals: Seq<VerificationTypeInfo> },
    FullFrame {
        frame_type: u8,
        offset_delta: u16,
        locals: Seq<VerificationTypeInfo>,
        stack: Seq<VerificationTypeInfo>,
    },
}

impl View for StackMapFrame {
    type V = FrameView;

    open spec fn view(&self) -> FrameView {
        match self {
            StackMapFrame::SameFrame { frame_type } => FrameView::SameFrame {
                frame_type: *frame_type,
            },
            StackMapFrame::SameLocals1StackItemFrame { frame_type, stack } =>
                FrameView::SameLocals1StackItemFrame { frame_type: *frame_type, stack: views(stack@) },
            StackMapFrame::SameLocals1StackItemFrameExtended {
                frame_type,
                offset_delta,
                stack,
            } => FrameView::SameLocals1StackItemFrameExtended {
                frame_type: *frame_type,
                offset_delta: *offset_delta,
                stack: views(stack@),
            },
            StackMapFrame::ChopFrame { frame_type, offset_delta } => FrameView::ChopFrame {
                frame_type: *frame_type,
                offset_delta: *offset_delta,
            },
            StackMapFrame::SameFrameExtended { frame_type, offset_delta } =>
                FrameView::SameFrameExtended {
                frame_type: *frame_type,
                offset_delta: *offset_delta,
            },
            StackMapFrame::AppendFrame { frame_type, offset_delta, locals } =>
                FrameView::AppendFrame {
                frame_type: *frame_type,
                offset_delta: *offset_delta,
                locals: views(locals@),
            },
            StackMapFrame::FullFrame { frame_type, offset_delta, locals, stack } =>
                FrameView::FullFrame {
                frame_type: *frame_type,
                offset_delta: *offset_delta,
                locals: views(locals@),
                stack: views(stack@),
            },
        }
    }
}

/// An `element_value` of an annotation.
#[derive(Debug)]
pub struct ElementValue {
    pub tag: u8,
    pub const_value_index: Option<u16>,
    pub type_name_index: Option<u16>,
    pub const_name_index: Option<u16>,
    pub annotation_value: Option<Annotation>,
    pub array_values: Option<Vec<ElementValue>>,
}

/// An annotation: its type and its element-value pairs.
#[derive(Debug)]
pub struct Annotation {
    pub type_index: u16,
    pub num_element_value_pairs: u16,
    pub elements: Vec<(u16, ElementValue)>,
}

/// The value of an [`ElementValue`].
pub struct ElementValueView {
    pub tag: u8,
    pub const_value_index: Option<u16>,
    pub type_name_index: Option<u16>,
    pub const_name_index: Option<u16>,
    pub annotation_value: Option<AnnotationView>,
    pub array_values: Option<Seq<ElementValueView>>,
}

/// The value of an [`Annotation`].
pub struct AnnotationView {
    pub type_index: u16,
    pub num_element_value_pairs: u16,
    pub elements: Seq<(u16, ElementValueView)>,
}

pub open spec fn element_value_view(e: ElementValue) -> ElementValueView
    decreases e,
{
    ElementValueView {
        tag: e.tag,
        const_value_index: e.const_value_index,
        type_name_index: e.type_name_index,
        const_name_index: e.const_name_index,
        annotation_value: match e.annotation_value {
            Some(a) => Some(annotation_view(a)),
            None => None,
        },
        array_values: match e.array_values {
            Some(v) => Some(element_value_views(v@)),
            None => None,
        },
    }
}

pub open spec fn annotation_view(a: Annotation) -> AnnotationView
    decreases a,
{
    AnnotationView {
        type_index: a.type_index,
        num_element_value_pairs: a.num_element_value_pairs,
        elements: pair_views(a.elements@),
    }
}

pub open spec fn element_value_views(s: Seq<ElementValue>) -> Seq<ElementValueView>
    decreases s,
{
    if s.len() == 0 {
        Seq::empty()
    } else {
        element_value_views(s.drop_last()).push(element_value_view(s.last()))
    }
}

pub open spec fn pair_views(s: Seq<(u16, ElementValue)>) -> Seq<(u16, ElementValueView)>
    decreases s,
{
    if s.len() == 0 {
        Seq::empty()
    } else {
        pair_views(s.drop_last()).push((s.last().0, element_value_view(s.last().1)))
    }
}

impl View for ElementValue {
    type V = ElementValueView;

    open spec fn view(&self) -> ElementValueView {
        element_value_view(*self)
    }
}

impl View for Annotation {
    type V = AnnotationView;

    open spec fn view(&self) -> AnnotationView {
        annotation_view(*self)
    }
}

/// Reads one attribute header and its bytes at `q`; `msg` is the text of the error
/// for missing attribute bytes.
pub open spec fn raw_attribute_parser(s: Seq<u8>, msg: Seq<char>) -> spec_fn(int) -> Parsed<
    AttributeInfoView,
> {
    |q: int|
        if !fits(s, q, 6) {
            Parsed::Stuck
        } else {
            let len = be32(s, q + 2);
            if !fits(s, q + 6, len as int) {
                Parsed::Fail(LoadErrorView::InvalidFormat(msg))
            } else {
                Parsed::Done(
                    AttributeInfoView {
                        name_index: be16(s, q),
                        length: len,
                        info: s.subrange(q + 6, q + 6 + len),
                    },
                    q + 6 + len,
                )
            }
        }
}

/// The `count` attributes that stand at `pos`.
pub open spec fn spec_raw_attributes(s: Seq<u8>, pos: int, count: u16, msg: Seq<char>) -> Parsed<
    Seq<AttributeInfoView>,
> {
    repeat(raw_attribute_parser(s, msg), pos, count as nat)
}

/// The text of the error for bytes that a read of a fixed size did not find.
pub open spec fn spec_eof_text() -> Seq<char> {
    "Error: failed to fill whole buffer"@
}

fn read_attribute(s: &[u8], pos: usize, msg: &str) -> (r: Result<(AttributeInfo, usize), LoadFailure>)
    ensures
        agrees(r, raw_attribute_parser(s@, msg@)(pos as int)),
{
    let attribute_name_index = match need_u16(s, pos) {
        Ok(v) => v,
        Err(e) => return Err(e),
    };
    let attribute_length = need_u32(s, pos + 2)?;
    match bytes_at(s, pos + 6, attribute_length as usize) {
        Some(info) => Ok(
            (
                AttributeInfo { attribute_name_index, attribute_length, info },
                pos + 6 + attribute_length as usize,
            ),
        ),
        None => Err(LoadFailure::Error(ClassLoadError::InvalidFormat(message(msg)))),
    }
}

/// Reads `count` attributes one after the other from `pos`.
pub fn read_attributes(s: &[u8], pos: usize, count: u16, msg: &str) -> (r: Result<
    (Vec<AttributeInfo>, usize),
    LoadFailure,
>)
    ensures
        agrees_all(r, spec_raw_attributes(s@, pos as int, count, msg@)),
{
    let mut out: Vec<AttributeInfo> = Vec::new();
    let mut p = pos;
    let mut i: u16 = 0;
    assert(views(out@) =~= Seq::<AttributeInfoView>::empty());
    while i < count
        invariant
            0 <= i <= count,
            repeat(raw_attribute_parser(s@, msg@), pos as int, i as nat) == Parsed::Done(
                views(out@),
                p as int,
            ),
        decreases count - i,
    {
        match read_attribute(s, p, msg) {
            Ok((a, q)) => {
                proof {
                    lemma_views_push(out@, a);
                }
                out.push(a);
                p = q;
                i = i + 1;
            },
            Err(e) => {
                proof {
                    lemma_repeat_fails(
                        raw_attribute_parser(s@, msg@),
                        pos as int,
                        i as nat,
                        count as nat,
                        p as int,
                    );
                }
                return Err(e);
            },
        }
    }
    Ok((out, p))
}

/// Reads `attributes_count` attributes from `pos` in `bytes`, each as its name index,
/// its length and its bytes, and the position after them.
pub fn parse_attributes(bytes: &[u8], pos: usize, attributes_count: u16) -> (r: Result<
    (Vec<AttributeInfo>, usize),
    ClassLoadError,
>)
    requires
        !(spec_raw_attributes(bytes@, pos as int, attributes_count, spec_eof_text()) is Stuck),
    ensures
        match r {
            Ok((v, n)) => spec_raw_attributes(bytes@, pos as int, attributes_count, spec_eof_text())
                == Parsed::Done(views(v@), n as int),
            Err(e) => spec_raw_attributes(bytes@, pos as int, attributes_count, spec_eof_text())
                == Parsed::<Seq<AttributeInfoView>>::Fail(e@),
        },
{
    match read_attributes(bytes, pos, attributes_count, "Error: failed to fill whole buffer") {
        Ok(v) => Ok(v),
        Err(LoadFailure::Error(e)) => Err(e),
        Err(LoadFailure::Stuck) => vstd::pervasive::unreached(),
    }
}

/// A decoded attribute.
#[derive(Debug)]
pub enum Attribute {
    ConstantVale { attribute_name_index: u16, attribute_length: u32, constantvalue_index: u16 },
    Code {
        attribute_name_index: u16,
        attribute_length: u32,
        max_stack: u16,
        max_locals: u16,
        code_length: u32,
        code: Vec<u8>,
        exception_table_length: u16,
        exception_table: Vec<ExceptionTableRecord>,
        attributes_count: u16,
        attributes: Vec<Attribute>,
    },
    LineNumberTabel {
        attribute_name_index: u16,
        attribute_length: u32,
        line_number_table_length: u16,
        line_number_table: Vec<LineNumberTableRecord>,
    },
    LocalVariableTable {
        attribute_name_index: u16,
        attribute_length: u32,
        local_variable_table_length: u16,
        local_variable_table: Vec<LocalVariableTableRecord>,
    },
    LocalVariableTypeTable {
        attribute_name_index: u16,
        attribute_length: u32,
        local_variable_type_table_length: u16,
        local_variable_type_table: Vec<LocalVariableTypeTableRecord>,
    },
    StackMapTable {
        attribute_name_index: u16,
        attribute_length: u32,
        number_of_entries: u16,
        entries: Vec<StackMapFrame>,
    },
    RuntimeVisibleAnnotations {
        attribute_name_index: u16,
        attribute_length: u32,
        num_annotations: u16,
        annotations: Vec<Annotation>,
    },
    RuntimeInvisibleAnnotations {
        attribute_name_index: u16,
        attribute_length: u32,
        num_annotations: u16,
        annotations: Vec<Annotation>,
    },
    Exceptions {
        attribute_name_index: u16,
        attribute_length: u32,
        number_of_exceptions: u16,
        exception_index_table: Vec<u16>,
    },
    Deprecated { attribute_name_index: u16, attribute_length: u32 },
    Signature { attribute_name_index: u16, attribute_length: u32, signature_index: u16 },
    MethodParameters {
        attribute_name_index: u16,
        attribute_length: u32,
        parameters_count: u8,
        parameters: Vec<MethodParameter>,
    },
}

/// The value of an [`Attribute`].
pub enum AttributeView {
    ConstantVale { attribute_name_index: u16, attribute_length: u32, constantvalue_index: u16 },
    Code {
        attribute_name_index: u16,
        attribute_length: u32,
        max_stack: u16,
        max_locals: u16,
        code_length: u32,
        code: Seq<u8>,
        exception_table_length: u16,
        exception_table: Seq<ExceptionTableRecord>,
        attributes_count: u16,
        attributes: Seq<AttributeView>,
    },
    LineNumberTabel {
        attribute_name_index: u16,
        attribute_length: u32,
        line_number_table_length: u16,
        line_number_table: Seq<LineNumberTableRecord>,
    },
    LocalVariableTable {
        attribute_name_index: u16,
        attribute_length: u32,
        local_variable_table_length: u16,
        local_variable_table: Seq<LocalVariableTableRecord>,
    },
    LocalVariableTypeTable {
        attribute_name_index: u16,
        attribute_length: u32,
        local_variable_type_table_length: u16,
        local_variable_type_table: Seq<LocalVariableTypeTableRecord>,
    },
    StackMapTable {
        attribute_name_index: u16,
        attribute_length: u32,
        number_of_entries: u16,
        entries: Seq<FrameView>,
    },
    RuntimeVisibleAnnotations {
        attribute_name_index: u16,
        attribute_length: u32,
        num_annotations: u16,
        annotations: Seq<AnnotationView>,
    },
    RuntimeInvisibleAnnotations {
        attribute_name_index: u16,
        attribute_length: u32,
        num_annotations: u16,
        annotations: Seq<AnnotationView>,
    },
    Exceptions {
        attribute_name_index: u16,
        attribute_length: u32,
        number_of_exceptions: u16,
        exception_index_table: Seq<u16>,
    },
    Deprecated { attribute_name_index: u16, attribute_length: u32 },
    Signature { attribute_name_index: u16, attribute_length: u32, signature_index: u16 },
    MethodParameters {
        attribute_name_index: u16,
        attribute_length: u32,
        parameters_count: u8,
        parameters: Seq<MethodParameter>,
    },
}

pub open spec fn attribute_view(a: Attribute) -> AttributeView
    decreases a,
{
    match a {
        Attribute::ConstantVale { attribute_name_index, attribute_length, constantvalue_index } =>
            AttributeView::ConstantVale {
            attribute_name_index,
            attribute_length,
            constantvalue_index,
        },
        Attribute::Code {
            attribute_name_index,
            attribute_length,
            max_stack,
            max_locals,
            code_length,
            code,
            exception_table_length,
            exception_table,
            attributes_count,
            attributes,
        } => AttributeView::Code {
            attribute_name_index,
            attribute_length,
            max_stack,
            max_locals,
            code_length,
            code: code@,
            exception_table_length,
            exception_table: exception_table@,
            attributes_count,
            attributes: attribute_views(attributes@),
        },
        Attribute::LineNumberTabel {
            attribute_name_index,
            attribute_length,
            line_number_table_length,
            line_number_table,
        } => AttributeView::LineNumberTabel {
            attribute_name_index,
            attribute_length,
            line_number_table_length,
            line_number_table: line_number_table@,
        },
        Attribute::LocalVariableTable {
            attribute_name_index,
            attribute_length,
            local_variable_table_length,
            local_variable_table,
        } => AttributeView::LocalVariableTable {
            attribute_name_index,
            attribute_length,
            local_variable_table_length,
            local_variable_table: local_variable_table@,
        },
        Attribute::LocalVariableTypeTable {
            attribute_name_index,
            attribute_length,
            local_variable_type_table_length,
            local_variable_type_table,
        } => AttributeView::LocalVariableTypeTable {
            attribute_name_index,
            attribute_length,
            local_variable_type_table_length,
            local_variable_type_table: local_variable_type_table@,
        },
        Attribute::StackMapTable {
            attribute_name_index,
            attribute_length,
            number_of_entries,
            entries,
        } => AttributeView::StackMapTable {
            attribute_name_index,
            attribute_length,
            number_of_entries,
            entries: views(entries@),
        },
        Attribute::RuntimeVisibleAnnotations {
            attribute_name_index,
            attribute_length,
            num_annotations,
            annotations,
        } => AttributeView::RuntimeVisibleAnnotations {
            attribute_name_index,
            attribute_length,
            num_annotations,
            annotations: views(annotations@),
        },
        Attribute::RuntimeInvisibleAnnotations {
            attribute_name_index,
            attribute_length,
            num_annotations,
            annotations,
        } => AttributeView::RuntimeInvisibleAnnotations {
            attribute_name_index,
            attribute_length,
            num_annotations,
            annotations: views(annotations@),
        },
        Attribute::Exceptions {
            attribute_name_index,
            attribute_length,
            number_of_exceptions,
            exception_index_table,
        } => AttributeView::Exceptions {
            attribute_name_index,
            attribute_length,
            number_of_exceptions,
            exception_index_table: exception_index_table@,
        },
        Attribute::Deprecated { attribute_name_index, attribute_length } =>
            AttributeView::Deprecated { attribute_name_index, attribute_length },
        Attribute::Signature { attribute_name_index, attribute_length, signature_index } =>
            AttributeView::Signature { attribute_name_index, attribute_length, signature_index },
        Attribute::MethodParameters {
            attribute_name_index,
            attribute_length,
            parameters_count,
            parameters,
        } => AttributeView::MethodParameters {
            attribute_name_index,
            attribute_length,
            parameters_count,
            parameters: parameters@,
        },
    }
}

pub open spec fn attribute_views(s: Seq<Attribute>) -> Seq<AttributeView>
    decreases s,
{
    if s.len() == 0 {
        Seq::empty()
    } else {
        attribute_views(s.drop_last()).push(attribute_view(s.last()))
    }
}

impl View for Attribute {
    type V = AttributeView;

    open spec fn view(&self) -> AttributeView {
        attribute_view(*self)
    }
}

/// The index of the attribute's name in the constant pool.
pub open spec fn spec_name_index(a: AttributeView) -> u16 {
    match a {
        AttributeView::ConstantVale { attribute_name_index, .. } => attribute_name_index,
        AttributeView::Code { attribute_name_index, .. } => attribute_name_index,
        AttributeView::LineNumberTabel { attribute_name_index, .. } => attribute_name_index,
        AttributeView::LocalVariableTable { attribute_name_index, .. } => attribute_name_index,
        AttributeView::LocalVariableTypeTable { attribute_name_index, .. } => attribute_name_index,
        AttributeView::StackMapTable { attribute_name_index, .. } => attribute_name_index,
        AttributeView::RuntimeVisibleAnnotations { attribute_name_index, .. } =>
            attribute_name_index,
        AttributeView::RuntimeInvisibleAnnotations { attribute_name_index, .. } =>
            attribute_name_index,
        AttributeView::Exceptions { attribute_name_index, .. } => attribute_name_index,
        AttributeView::Deprecated { attribute_name_index, .. } => attribute_name_index,
        AttributeView::Signature { attribute_name_index, .. } => attribute_name_index,
        AttributeView::MethodParameters { attribute_name_index, .. } => attribute_name_index,
    }
}

impl Attribute {
    /// The index of the attribute's name in the constant pool.
    pub fn name_index(&self) -> (r: u16)
        ensures
            r == spec_name_index(self@),
    {
        match self {
            Attribute::ConstantVale { attribute_name_index, .. } => *attribute_name_index,
            Attribute::Code { attribute_name_index, .. } => *attribute_name_index,
            Attribute::LineNumberTabel { attribute_name_index, .. } => *attribute_name_index,
            Attribute::LocalVariableTable { attribute_name_index, .. } => *attribute_name_index,
            Attribute::LocalVariableTypeTable { attribute_name_index, .. } => *attribute_name_index,
            Attribute::StackMapTable { attribute_name_index, .. } => *attribute_name_index,
            Attribute::RuntimeVisibleAnnotations { attribute_name_index, .. } =>
                *attribute_name_index,
            Attribute::RuntimeInvisibleAnnotations { attribute_name_index, .. } =>
                *attribute_name_index,
            Attribute::Exceptions { attribute_name_index, .. } => *attribute_name_index,
            Attribute::Deprecated { attribute_name_index, .. } => *attribute_name_index,
            Attribute::Signature { attribute_name_index, .. } => *attribute_name_index,
            Attribute::MethodParameters { attribute_name_index, .. } => *attribute_name_index,
        }
    }
}

pub open spec fn exception_record_at(s: Seq<u8>, p: int, k: int) -> ExceptionTableRecord {
    ExceptionTableRecord {
        start_pc: be16(s, p + 8 * k),
        end_pc: be16(s, p + 8 * k + 2),
        handler_pc: be16(s, p + 8 * k + 4),
        catch_type: be16(s, p + 8 * k + 6),
    }
}

pub open spec fn line_record_at(s: Seq<u8>, p: int, k: int) -> LineNumberTableRecord {
    LineNumberTableRecord { start_pc: be16(s, p + 4 * k), line_number: be16(s, p + 4 * k + 2) }
}

pub open spec fn local_record_at(s: Seq<u8>, p: int, k: int) -> LocalVariableTableRecord {
    LocalVariableTableRecord {
        start_pc: be16(s, p + 10 * k),
        length: be16(s, p + 10 * k + 2),
        name_index: be16(s, p + 10 * k + 4),
        descriptor_index: be16(s, p + 10 * k + 6),
        index: be16(s, p + 10 * k + 8),
    }
}

pub open spec fn local_type_record_at(s: Seq<u8>, p: int, k: int) -> LocalVariableTypeTableRecord {
    LocalVariableTypeTableRecord {
        start_pc: be16(s, p + 10 * k),
        length: be16(s, p + 10 * k + 2),
        name_index: be16(s, p + 10 * k + 4),
        signature_index: be16(s, p + 10 * k + 6),
        index: be16(s, p + 10 * k + 8),
    }
}

pub open spec fn parameter_at(s: Seq<u8>, p: int, k: int) -> MethodParameter {
    MethodParameter { name_index: be16(s, p + 4 * k), access_flags: be16(s, p + 4 * k + 2) }
}

fn read_exception_table(s: &[u8], p: usize, n: u16) -> (r: Vec<ExceptionTableRecord>)
    requires
        p + 8 * n <= s.len(),
    ensures
        r@ == Seq::new(n as nat, |k: int| exception_record_at(s@, p as int, k)),
{
    let mut out: Vec<ExceptionTableRecord> = Vec::new();
    let mut i: u16 = 0;
    while i < n
        invariant
            0 <= i <= n,
            p + 8 * n <= s.len(),
            out@ == Seq::new(i as nat, |k: int| exception_record_at(s@, p as int, k)),
        decreases n - i,
    {
        let b = p + 8 * (i as usize);
        let v = read_u16_seq(s, b, 4);
        out.push(ExceptionTableRecord { start_pc: v[0], end_pc: v[1], handler_pc: v[2], catch_type: v[3] });
        i = i + 1;
        assert(out@ =~= Seq::new(i as nat, |k: int| exception_record_at(s@, p as int, k)));
    }
    out
}

fn read_line_table(s: &[u8], p: usize, n: u16) -> (r: Vec<LineNumberTableRecord>)
    requires
        p + 4 * n <= s.len(),
    ensures
        r@ == Seq::new(n as nat, |k: int| line_record_at(s@, p as int, k)),
{
    let mut out: Vec<LineNumberTableRecord> = Vec::new();
    let mut i: u16 = 0;
    while i < n
        invariant
            0 <= i <= n,
            p + 4 * n <= s.len(),
            out@ == Seq::new(i as nat, |k: int| line_record_at(s@, p as int, k)),
        decreases n - i,
    {
        let b = p + 4 * (i as usize);
        let v = read_u16_seq(s, b, 2);
        out.push(LineNumberTableRecord { start_pc: v[0], line_number: v[1] });
        i = i + 1;
        assert(out@ =~= Seq::new(i as nat, |k: int| line_record_at(s@, p as int, k)));
    }
    out
}

fn read_local_table(s: &[u8], p: usize, n: u16) -> (r: Vec<LocalVariableTableRecord>)
    requires
        p + 10 * n <= s.len(),
    ensures
        r@ == Seq::new(n as nat, |k: int| local_record_at(s@, p as int, k)),
{
    let mut out: Vec<LocalVariableTableRecord> = Vec::new();
    let mut i: u16 = 0;
    while i < n
        invariant
            0 <= i <= n,
            p + 10 * n <= s.len(),
            out@ == Seq::new(i as nat, |k: int| local_record_at(s@, p as int, k)),
        decreases n - i,
    {
        let b = p + 10 * (i as usize);
        let v = read_u16_seq(s, b, 5);
        out.push(
            LocalVariableTableRecord {
                start_pc: v[0],
                length: v[1],
                name_index: v[2],
                descriptor_index: v[3],
                index: v[4],
            },
        );
        i = i + 1;
        assert(out@ =~= Seq::new(i as nat, |k: int| local_record_at(s@, p as int, k)));
    }
    out
}

fn read_local_type_table(s: &[u8], p: usize, n: u16) -> (r: Vec<LocalVariableTypeTableRecord>)
    requires
        p + 10 * n <= s.len(),
    ensures
        r@ == Seq::new(n as nat, |k: int| local_type_record_at(s@, p as int, k)),
{
    let mut out: Vec<LocalVariableTypeTableRecord> = Vec::new();
    let mut i: u16 = 0;
    while i < n
        invariant
            0 <= i <= n,
            p + 10 * n <= s.len(),
            out@ == Seq::new(i as nat, |k: int| local_type_record_at(s@, p as int, k)),
        decreases n - i,
    {
        let b = p + 10 * (i as usize);
        let v = read_u16_seq(s, b, 5);
        out.push(
            LocalVariableTypeTableRecord {
                start_pc: v[0],
                length: v[1],
                name_index: v[2],
                signature_index: v[3],
                index: v[4],
            },
        );
        i = i + 1;
        assert(out@ =~= Seq::new(i as nat, |k: int| local_type_record_at(s@, p as int, k)));
    }
    out
}

fn read_parameters(s: &[u8], p: usize, n: u8) -> (r: Vec<MethodParameter>)
    requires
        p + 4 * n <= s.len(),
    ensures
        r@ == Seq::new(n as nat, |k: int| parameter_at(s@, p as int, k)),
{
    let mut out: Vec<MethodParameter> = Vec::new();
    let mut i: u8 = 0;
    while i < n
        invariant
            0 <= i <= n,
            p + 4 * n <= s.len(),
            out@ == Seq::new(i as nat, |k: int| parameter_at(s@, p as int, k)),
        decreases n - i,
    {
        let b = p + 4 * (i as usize);
        let v = read_u16_seq(s, b, 2);
        out.push(MethodParameter { name_index: v[0], access_flags: v[1] });
        i = i + 1;
        assert(out@ =~= Seq::new(i as nat, |k: int| parameter_at(s@, p as int, k)));
    }
    out
}

/// Reads a `verification_type_info` at `q`.
pub open spec fn vti_parser(s: Seq<u8>) -> spec_fn(int) -> Parsed<VerificationTypeInfo> {
    |q: int|
        if !fits(s, q, 1) {
            Parsed::Fail(LoadErrorView::InvalidFormat(spec_eof_text()))
        } else if s[q] == 7 {
            if !fits(s, q + 1, 2) {
                Parsed::Stuck
            } else {
                Parsed::Done(
                    VerificationTypeInfo { tag: 7, cpool_index: Some(be16(s, q + 1)), offset: None },
                    q + 3,
                )
            }
        } else if s[q] == 8 {
            if !fits(s, q + 1, 2) {
                Parsed::Stuck
            } else {
                Parsed::Done(
                    VerificationTypeInfo { tag: 8, cpool_index: None, offset: Some(be16(s, q + 1)) },
                    q + 3,
                )
            }
        } else {
            Parsed::Done(VerificationTypeInfo { tag: s[q], cpool_index: None, offset: None }, q + 1)
        }
}

/// Reads a `stack_map_frame` at `q`.
pub open spec fn frame_parser(s: Seq<u8>) -> spec_fn(int) -> Parsed<FrameView> {
    |q: int|
        if !fits(s, q, 1) {
            Parsed::Fail(LoadErrorView::InvalidFormat(spec_eof_text()))
        } else {
            let ft = s[q];
            let q1 = q + 1;
            if ft <= 63 {
                Parsed::Done(FrameView::SameFrame { frame_type: ft }, q1)
            } else if ft <= 127 {
                match vti_parser(s)(q1) {
                    Parsed::Done(v, r) => Parsed::Done(
                        FrameView::SameLocals1StackItemFrame { frame_type: ft, stack: seq![v] },
                        r,
                    ),
                    o => fail_as(o),
                }
            } else if ft == 247 {
                if !fits(s, q1, 2) {
                    Parsed::Stuck
                } else {
                    match vti_parser(s)(q1 + 2) {
                        Parsed::Done(v, r) => Parsed::Done(
                            FrameView::SameLocals1StackItemFrameExtended {
                                frame_type: ft,
                                offset_delta: be16(s, q1),
                                stack: seq![v],
                            },
                            r,
                        ),
                        o => fail_as(o),
                    }
                }
            } else if 248 <= ft <= 250 {
                if !fits(s, q1, 2) {
                    Parsed::Stuck
                } else {
                    Parsed::Done(
                        FrameView::ChopFrame { frame_type: ft, offset_delta: be16(s, q1) },
                        q1 + 2,
                    )
                }
            } else if ft == 251 {
                if !fits(s, q1, 2) {
                    Parsed::Stuck
                } else {
                    Parsed::Done(
                        FrameView::SameFrameExtended { frame_type: ft, offset_delta: be16(s, q1) },
                        q1 + 2,
                    )
                }
            } else if 252 <= ft <= 254 {
                if !fits(s, q1, 2) {
                    Parsed::Stuck
                } else {
                    match repeat(vti_parser(s), q1 + 2, (ft - 251) as nat) {
                        Parsed::Done(locals, r) => Parsed::Done(
                            FrameView::AppendFrame {
                                frame_type: ft,
                                offset_delta: be16(s, q1),
                                locals,
                            },
                            r,
                        ),
                        o => fail_as(o),
                    }
                }
            } else if ft == 255 {
                if !fits(s, q1, 4) {
                    Parsed::Stuck
                } else {
                    match repeat(vti_parser(s), q1 + 4, be16(s, q1 + 2) as nat) {
                        Parsed::Done(locals, r) => if !fits(s, r, 2) {
                            Parsed::Stuck
                        } else {
                            match repeat(vti_parser(s), r + 2, be16(s, r) as nat) {
                                Parsed::Done(stack, t) => Parsed::Done(
                                    FrameView::FullFrame {
                                        frame_type: ft,
                                        offset_delta: be16(s, q1),
                                        locals,
                                        stack,
                                    },
                                    t,
                                ),
                                o => fail_as(o),
                            }
                        },
                        o => fail_as(o),
                    }
                }
            } else {
                Parsed::Fail(LoadErrorView::Other("Unknown frame_type "@ + spec_decimal(ft as nat)))
            }
        }
}

fn parse_verification_type_info(s: &[u8], q: usize) -> (r: Result<(VerificationTypeInfo, usize), LoadFailure>)
    ensures
        agrees(r, vti_parser(s@)(q as int)),
        r matches Ok((_, t)) ==> q < t <= s.len(),
{
    let tag = match u8_at(s, q) {
        Some(t) => t,
        None => return Err(LoadFailure::Error(eof_error())),
    };
    if tag == 7 {
        let cpool_index = match need_u16(s, q + 1) {
            Ok(v) => v,
            Err(e) => return Err(e),
        };
        Ok((VerificationTypeInfo { tag, cpool_index: Some(cpool_index), offset: None }, q + 3))
    } else if tag == 8 {
        let offset = match need_u16(s, q + 1) {
            Ok(v) => v,
            Err(e) => return Err(e),
        };
        Ok((VerificationTypeInfo { tag, cpool_index: None, offset: Some(offset) }, q + 3))
    } else {
        Ok((VerificationTypeInfo { tag, cpool_index: None, offset: None }, q + 1))
    }
}

/// The error for bytes that a read did not find.
fn eof_error() -> (r: ClassLoadError)
    ensures
        r@ == LoadErrorView::InvalidFormat(spec_eof_text()),
{
    ClassLoadError::InvalidFormat(message("Error: failed to fill whole buffer"))
}

fn read_vtis(s: &[u8], pos: usize, n: u16) -> (r: Result<(Vec<VerificationTypeInfo>, usize), LoadFailure>)
    ensures
        agrees_all(r, repeat(vti_parser(s@), pos as int, n as nat)),
        r matches Ok((_, t)) ==> pos <= t,
{
    let mut out: Vec<VerificationTypeInfo> = Vec::new();
    let mut p = pos;
    let mut i: u16 = 0;
    assert(views(out@) =~= out@);
    while i < n
        invariant
            0 <= i <= n,
            pos <= p,
            repeat(vti_parser(s@), pos as int, i as nat) == Parsed::Done(views(out@), p as int),
        decreases n - i,
    {
        match parse_verification_type_info(s, p) {
            Ok((v, q)) => {
                proof {
                    lemma_views_push(out@, v);
                }
                out.push(v);
                p = q;
                i = i + 1;
            },
            Err(e) => {
                proof {
                    lemma_repeat_fails(vti_parser(s@), pos as int, i as nat, n as nat, p as int);
                }
                return Err(e);
            },
        }
    }
    Ok((out, p))
}

fn parse_frame(s: &[u8], q: usize) -> (r: Result<(StackMapFrame, usize), LoadFailure>)
    ensures
        agrees(r, frame_parser(s@)(q as int)),
{
    let frame_type = match u8_at(s, q) {
        Some(t) => t,
        None => return Err(LoadFailure::Error(eof_error())),
    };
    let q1 = q + 1;
    if frame_type <= 63 {
        Ok((StackMapFrame::SameFrame { frame_type }, q1))
    } else if frame_type <= 127 {
        let (v, r) = parse_verification_type_info(s, q1)?;
        let mut stack = Vec::new();
        stack.push(v);
        assert(views(stack@) =~= seq![v]);
        Ok((StackMapFrame::SameLocals1StackItemFrame { frame_type, stack }, r))
    } else if frame_type == 247 {
        let offset_delta = match need_u16(s, q1) {
            Ok(v) => v,
            Err(e) => return Err(e),
        };
        let (v, r) = parse_verification_type_info(s, q1 + 2)?;
        let mut stack = Vec::new();
        stack.push(v);
        assert(views(stack@) =~= seq![v]);
        Ok((StackMapFrame::SameLocals1StackItemFrameExtended { frame_type, offset_delta, stack }, r))
    } else if 248 <= frame_type && frame_type <= 250 {
        let offset_delta = match need_u16(s, q1) {
            Ok(v) => v,
            Err(e) => return Err(e),
        };
        Ok((StackMapFrame::ChopFrame { frame_type, offset_delta }, q1 + 2))
    } else if frame_type == 251 {
        let offset_delta = match need_u16(s, q1) {
            Ok(v) => v,
            Err(e) => return Err(e),
        };
        Ok((StackMapFrame::SameFrameExtended { frame_type, offset_delta }, q1 + 2))
    } else if 252 <= frame_type && frame_type <= 254 {
        let offset_delta = match need_u16(s, q1) {
            Ok(v) => v,
            Err(e) => return Err(e),
        };
        let k = (frame_type - 251) as u16;
        let (locals, r) = read_vtis(s, q1 + 2, k)?;
        Ok((StackMapFrame::AppendFrame { frame_type, offset_delta, locals }, r))
    } else if frame_type == 255 {
        let offset_delta = match need_u16(s, q1) {
            Ok(v) => v,
            Err(e) => return Err(e),
        };
        let number_of_locals = match need_u16(s, q1 + 2) {
            Ok(v) => v,
            Err(e) => return Err(e),
        };
        let (locals, r) = read_vtis(s, q1 + 4, number_of_locals)?;
        let number_of_stack_items = match need_u16(s, r) {
            Ok(v) => v,
            Err(e) => return Err(e),
        };
        let (stack, t) = read_vtis(s, r + 2, number_of_stack_items)?;
        Ok((StackMapFrame::FullFrame { frame_type, offset_delta, locals, stack }, t))
    } else {
        let mut text = message("Unknown frame_type ");
        let digits = decimal_string(frame_type as u64);
        text.append(digits.as_str());
        Err(LoadFailure::Error(ClassLoadError::Other(text)))
    }
}

fn read_frames(s: &[u8], pos: usize, n: u16) -> (r: Result<(Vec<StackMapFrame>, usize), LoadFailure>)
    ensures
        agrees_all(r, repeat(frame_parser(s@), pos as int, n as nat)),
{
    let mut out: Vec<StackMapFrame> = Vec::new();
    let mut p = pos;
    let mut i: u16 = 0;
    assert(views(out@) =~= Seq::<FrameView>::empty());
    while i < n
        invariant
            0 <= i <= n,
            repeat(frame_parser(s@), pos as int, i as nat) == Parsed::Done(views(out@), p as int),
        decreases n - i,
    {
        match parse_frame(s, p) {
            Ok((v, q)) => {
                proof {
                    lemma_views_push(out@, v);
                }
                out.push(v);
                p = q;
                i = i + 1;
            },
            Err(e) => {
                proof {
                    lemma_repeat_fails(frame_parser(s@), pos as int, i as nat, n as nat, p as int);
                }
                return Err(e);
            },
        }
    }
    Ok((out, p))
}

/// The tags of element values that hold one constant-pool index: `B C D F I J S Z s c`.
pub open spec fn is_const_tag(t: u8) -> bool {
    t == 66 || t == 67 || t == 68 || t == 70 || t == 73 || t == 74 || t == 83 || t == 90 || t
        == 115 || t == 99
}

/// The `element_value` at `p`.
pub open spec fn spec_element_value(s: Seq<u8>, p: int) -> Parsed<ElementValueView>
    decreases s.len() - p, 0int, 0int,
{
    if !fits(s, p, 1) {
        Parsed::Fail(LoadErrorView::InvalidFormat(spec_eof_text()))
    } else {
        let tag = s[p];
        if is_const_tag(tag) {
            if !fits(s, p + 1, 2) {
                Parsed::Stuck
            } else {
                Parsed::Done(
                    ElementValueView {
                        tag,
                        const_value_index: Some(be16(s, p + 1)),
                        type_name_index: None,
                        const_name_index: None,
                        annotation_value: None,
                        array_values: None,
                    },
                    p + 3,
                )
            }
        } else if tag == 101 {
            if !fits(s, p + 1, 4) {
                Parsed::Stuck
            } else {
                Parsed::Done(
                    ElementValueView {
                        tag,
                        const_value_index: None,
                        type_name_index: Some(be16(s, p + 1)),
                        const_name_index: Some(be16(s, p + 3)),
                        annotation_value: None,
                        array_values: None,
                    },
                    p + 5,
                )
            }
        } else if tag == 64 {
            match spec_annotation(s, p + 1) {
                Parsed::Done(a, r) => Parsed::Done(
                    ElementValueView {
                        tag,
                        const_value_index: None,
                        type_name_index: None,
                        const_name_index: None,
                        annotation_value: Some(a),
                        array_values: None,
                    },
                    r,
                ),
                Parsed::Fail(e) => Parsed::Fail(e),
                Parsed::Stuck => Parsed::Stuck,
            }
        } else if tag == 91 {
            if !fits(s, p + 1, 2) {
                Parsed::Stuck
            } else {
                match spec_element_values(s, p + 3, be16(s, p + 1) as nat) {
                    Parsed::Done(vs, r) => Parsed::Done(
                        ElementValueView {
                            tag,
                            const_value_index: None,
                            type_name_index: None,
                            const_name_index: None,
                            annotation_value: None,
                            array_values: Some(vs),
                        },
                        r,
                    ),
                    Parsed::Fail(e) => Parsed::Fail(e),
                    Parsed::Stuck => Parsed::Stuck,
                }
            }
        } else {
            Parsed::Fail(
                LoadErrorView::InvalidFormat(
                    "Unknown element_value tag "@ + spec_decimal(tag as nat),
                ),
            )
        }
    }
}

/// The `annotation` at `p`.
pub open spec fn spec_annotation(s: Seq<u8>, p: int) -> Parsed<AnnotationView>
    decreases s.len() - p, 0int, 0int,
{
    if !fits(s, p, 4) {
        Parsed::Stuck
    } else {
        let n = be16(s, p + 2);
        match spec_pairs(s, p + 4, n as nat) {
            Parsed::Done(ps, r) => Parsed::Done(
                AnnotationView { type_index: be16(s, p), num_element_value_pairs: n, elements: ps },
                r,
            ),
            Parsed::Fail(e) => Parsed::Fail(e),
            Parsed::Stuck => Parsed::Stuck,
        }
    }
}

/// `n` element values one after the other from `start`.
pub open spec fn spec_element_values(s: Seq<u8>, start: int, n: nat) -> Parsed<
    Seq<ElementValueView>,
>
    decreases s.len() - start, 1int, n,
{
    if n == 0 {
        Parsed::Done(Seq::empty(), start)
    } else {
        match spec_element_values(s, start, (n - 1) as nat) {
            Parsed::Done(vs, q) => if !(start <= q <= s.len()) {
                Parsed::Stuck
            } else {
                match spec_element_value(s, q) {
                    Parsed::Done(v, r) => Parsed::Done(vs.push(v), r),
                    Parsed::Fail(e) => Parsed::Fail(e),
                    Parsed::Stuck => Parsed::Stuck,
                }
            },
            Parsed::Fail(e) => Parsed::Fail(e),
            Parsed::Stuck => Parsed::Stuck,
        }
    }
}

/// `n` element-value pairs (name index, then value) one after the other from `start`.
pub open spec fn spec_pairs(s: Seq<u8>, start: int, n: nat) -> Parsed<Seq<(u16, ElementValueView)>>
    decreases s.len() - start, 1int, n,
{
    if n == 0 {
        Parsed::Done(Seq::empty(), start)
    } else {
        match spec_pairs(s, start, (n - 1) as nat) {
            Parsed::Done(ps, q) => if !(start <= q <= s.len()) {
                Parsed::Stuck
            } else if !fits(s, q, 2) {
                Parsed::Stuck
            } else {
                match spec_element_value(s, q + 2) {
                    Parsed::Done(v, r) => Parsed::Done(ps.push((be16(s, q), v)), r),
                    Parsed::Fail(e) => Parsed::Fail(e),
                    Parsed::Stuck => Parsed::Stuck,
                }
            },
            Parsed::Fail(e) => Parsed::Fail(e),
            Parsed::Stuck => Parsed::Stuck,
        }
    }
}

proof fn lemma_element_values_fail(s: Seq<u8>, start: int, i: nat, n: nat)
    requires
        i < n,
        !(spec_element_values(s, start, (i + 1) as nat) is Done),
        spec_element_values(s, start, i) is Done,
    ensures
        spec_element_values(s, start, n) == spec_element_values(s, start, (i + 1) as nat),
    decreases n,
{
    if n > i + 1 {
        lemma_element_values_fail(s, start, i, (n - 1) as nat);
    }
}

proof fn lemma_pairs_fail(s: Seq<u8>, start: int, i: nat, n: nat)
    requires
        i < n,
        !(spec_pairs(s, start, (i + 1) as nat) is Done),
        spec_pairs(s, start, i) is Done,
    ensures
        spec_pairs(s, start, n) == spec_pairs(s, start, (i + 1) as nat),
    decreases n,
{
    if n > i + 1 {
        lemma_pairs_fail(s, start, i, (n - 1) as nat);
    }
}

proof fn lemma_element_value_views_push(s: Seq<ElementValue>, e: ElementValue)
    ensures
        element_value_views(s.push(e)) == element_value_views(s).push(element_value_view(e)),
{
    assert(s.push(e).drop_last() =~= s);
}

proof fn lemma_pair_views_push(s: Seq<(u16, ElementValue)>, e: (u16, ElementValue))
    ensures
        pair_views(s.push(e)) == pair_views(s).push((e.0, element_value_view(e.1))),
{
    assert(s.push(e).drop_last() =~= s);
}

fn parse_element_value(s: &[u8], p: usize) -> (r: Result<(ElementValue, usize), LoadFailure>)
    ensures
        agrees(r, spec_element_value(s@, p as int)),
        r matches Ok((_, t)) ==> p < t <= s.len(),
    decreases s.len() - p, 0int,
{
    let tag = match u8_at(s, p) {
        Some(t) => t,
        None => return Err(LoadFailure::Error(eof_error())),
    };
    if tag == 66 || tag == 67 || tag == 68 || tag == 70 || tag == 73 || tag == 74 || tag == 83
        || tag == 90 || tag == 115 || tag == 99 {
        let idx = match need_u16(s, p + 1) {
            Ok(v) => v,
            Err(e) => return Err(e),
        };
        Ok(
            (
                ElementValue {
                    tag,
                    const_value_index: Some(idx),
                    type_name_index: None,
                    const_name_index: None,
                    annotation_value: None,
                    array_values: None,
                },
                p + 3,
            ),
        )
    } else if tag == 101 {
        let type_name_index = match need_u16(s, p + 1) {
            Ok(v) => v,
            Err(e) => return Err(e),
        };
        let const_name_index = match need_u16(s, p + 3) {
            Ok(v) => v,
            Err(e) => return Err(e),
        };
        Ok(
            (
                ElementValue {
                    tag,
                    const_value_index: None,
                    type_name_index: Some(type_name_index),
                    const_name_index: Some(const_name_index),
                    annotation_value: None,
                    array_values: None,
                },
                p + 5,
            ),
        )
    } else if tag == 64 {
        let (annotation, r) = parse_annotation(s, p + 1)?;
        Ok(
            (
                ElementValue {
                    tag,
                    const_value_index: None,
                    type_name_index: None,
                    const_name_index: None,
                    annotation_value: Some(annotation),
                    array_values: None,
                },
                r,
            ),
        )
    } else if tag == 91 {
        let num_values = match need_u16(s, p + 1) {
            Ok(v) => v,
            Err(e) => return Err(e),
        };
        let start = p + 3;
        let mut vals: Vec<ElementValue> = Vec::new();
        let mut q = start;
        let mut i: u16 = 0;
        while i < num_values
            invariant
                0 <= i <= num_values,
                p + 3 == start,
                fits(s@, p as int, 3),
                s@[p as int] == 91,
                tag == 91,
                num_values == be16(s@, p + 1),
                start <= q <= s.len(),
                spec_element_values(s@, start as int, i as nat) == Parsed::Done(
                    element_value_views(vals@),
                    q as int,
                ),
            decreases num_values - i,
        {
            match parse_element_value(s, q) {
                Ok((v, t)) => {
                    proof {
                        lemma_element_value_views_push(vals@, v);
                    }
                    vals.push(v);
                    q = t;
                    i = i + 1;
                },
                Err(e) => {
                    proof {
                        lemma_element_values_fail(s@, start as int, i as nat, num_values as nat);
                    }
                    return Err(e);
                },
            }
        }
        Ok(
            (
                ElementValue {
                    tag,
                    const_value_index: None,
                    type_name_index: None,
                    const_name_index: None,
                    annotation_value: None,
                    array_values: Some(vals),
                },
                q,
            ),
        )
    } else {
        let mut text = message("Unknown element_value tag ");
        let digits = decimal_string(tag as u64);
        text.append(digits.as_str());
        Err(LoadFailure::Error(ClassLoadError::InvalidFormat(text)))
    }
}

fn parse_annotation(s: &[u8], p: usize) -> (r: Result<(Annotation, usize), LoadFailure>)
    ensures
        agrees(r, spec_annotation(s@, p as int)),
        r matches Ok((_, t)) ==> p < t <= s.len(),
    decreases s.len() - p, 1int,
{
    let type_index = match need_u16(s, p) {
        Ok(v) => v,
        Err(e) => return Err(e),
    };
    let num_element_value_pairs = match need_u16(s, p + 2) {
        Ok(v) => v,
        Err(e) => return Err(e),
    };
    let start = p + 4;
    let mut elements: Vec<(u16, ElementValue)> = Vec::new();
    let mut q = start;
    let mut i: u16 = 0;
    while i < num_element_value_pairs
        invariant
            0 <= i <= num_element_value_pairs,
            p + 4 == start,
            fits(s@, p as int, 4),
            type_index == be16(s@, p as int),
            num_element_value_pairs == be16(s@, p + 2),
            start <= q <= s.len(),
            spec_pairs(s@, start as int, i as nat) == Parsed::Done(pair_views(elements@), q as int),
        decreases num_element_value_pairs - i,
    {
        let element_name_index = match need_u16(s, q) {
            Ok(v) => v,
            Err(e) => {
                proof {
                    lemma_pairs_fail(s@, start as int, i as nat, num_element_value_pairs as nat);
                }
                return Err(e);
            },
        };
        match parse_element_value(s, q + 2) {
            Ok((v, t)) => {
                proof {
                    lemma_pair_views_push(elements@, (element_name_index, v));
                }
                elements.push((element_name_index, v));
                q = t;
                i = i + 1;
            },
            Err(e) => {
                proof {
                    lemma_pairs_fail(s@, start as int, i as nat, num_element_value_pairs as nat);
                }
                return Err(e);
            },
        }
    }
    Ok((Annotation { type_index, num_element_value_pairs, elements }, q))
}

/// Reads an `annotation` at `q`.
pub open spec fn annotation_parser(s: Seq<u8>) -> spec_fn(int) -> Parsed<AnnotationView> {
    |q: int| spec_annotation(s, q)
}

/// The `Code` attribute with header `a`: the code, the exception table, and the
/// attributes nested in it, each decoded in turn (a nested attribute that cannot be
/// decoded stops the loader).
pub open spec fn spec_code(a: AttributeInfoView, cp: Seq<CpEntryView>) -> Parsed<AttributeView>
    decreases a.info.len(), 1int, 0int,
{
    let s = a.info;
    if !fits(s, 0, 8) {
        Parsed::Stuck
    } else {
        let cl = be32(s, 4);
        if !fits(s, 8, cl as int) {
            Parsed::Fail(LoadErrorView::InvalidFormat(spec_eof_text()))
        } else {
            let p = 8 + cl;
            if !fits(s, p, 2) {
                Parsed::Stuck
            } else {
                let etl = be16(s, p);
                if !fits(s, p + 2, 8 * etl) {
                    Parsed::Stuck
                } else {
                    let q = p + 2 + 8 * etl;
                    if !fits(s, q, 2) {
                        Parsed::Stuck
                    } else {
                        let ac = be16(s, q);
                        match spec_raw_attributes(s, q + 2, ac, spec_eof_text()) {
                            Parsed::Done(infos, r) => match spec_attribute_list(
                                infos,
                                cp,
                                s.len(),
                            ) {
                                Parsed::Done(attrs, _) => Parsed::Done(
                                    AttributeView::Code {
                                        attribute_name_index: a.name_index,
                                        attribute_length: a.length,
                                        max_stack: be16(s, 0),
                                        max_locals: be16(s, 2),
                                        code_length: cl,
                                        code: s.subrange(8, 8 + cl),
                                        exception_table_length: etl,
                                        exception_table: Seq::new(
                                            etl as nat,
                                            |k: int| exception_record_at(s, p + 2, k),
                                        ),
                                        attributes_count: ac,
                                        attributes: attrs,
                                    },
                                    r,
                                ),
                                _ => Parsed::Stuck,
                            },
                            Parsed::Fail(e) => Parsed::Fail(e),
                            Parsed::Stuck => Parsed::Stuck,
                        }
                    }
                }
            }
        }
    }
}

/// The attributes `list`, each decoded in turn; `bound` exceeds the length of the
/// bytes of each of them.
pub open spec fn spec_attribute_list(
    list: Seq<AttributeInfoView>,
    cp: Seq<CpEntryView>,
    bound: nat,
) -> Parsed<Seq<AttributeView>>
    decreases bound, 0int, list.len(),
{
    if list.len() == 0 {
        Parsed::Done(Seq::empty(), 0)
    } else {
        match spec_attribute_list(list.drop_last(), cp, bound) {
            Parsed::Done(vs, _) => if list.last().info.len() < bound {
                match spec_attribute(list.last(), cp) {
                    Parsed::Done(v, _) => Parsed::Done(vs.push(v), 0),
                    Parsed::Fail(e) => Parsed::Fail(e),
                    Parsed::Stuck => Parsed::Stuck,
                }
            } else {
                Parsed::Stuck
            },
            Parsed::Fail(e) => Parsed::Fail(e),
            Parsed::Stuck => Parsed::Stuck,
        }
    }
}

/// The attribute with header `a` whose name is `name`.
pub open spec fn spec_named_attribute(
    name: Seq<char>,
    a: AttributeInfoView,
    cp: Seq<CpEntryView>,
) -> Parsed<AttributeView>
    decreases a.info.len(), 2int, 0int,
{
    let s = a.info;
    let ni = a.name_index;
    let len = a.length;
    if name == "Code"@ {
        spec_code(a, cp)
    } else if name == "ConstantValue"@ {
        if !fits(s, 0, 2) {
            Parsed::Stuck
        } else {
            Parsed::Done(
                AttributeView::ConstantVale {
                    attribute_name_index: ni,
                    attribute_length: len,
                    constantvalue_index: be16(s, 0),
                },
                2,
            )
        }
    } else if name == "LineNumberTable"@ {
        if !fits(s, 0, 2) || !fits(s, 2, 4 * be16(s, 0)) {
            Parsed::Stuck
        } else {
            let n = be16(s, 0);
            Parsed::Done(
                AttributeView::LineNumberTabel {
                    attribute_name_index: ni,
                    attribute_length: len,
                    line_number_table_length: n,
                    line_number_table: Seq::new(n as nat, |k: int| line_record_at(s, 2, k)),
                },
                2 + 4 * n,
            )
        }
    } else if name == "StackMapTable"@ {
        if !fits(s, 0, 2) {
            Parsed::Stuck
        } else {
            let n = be16(s, 0);
            match repeat(frame_parser(s), 2, n as nat) {
                Parsed::Done(entries, r) => Parsed::Done(
                    AttributeView::StackMapTable {
                        attribute_name_index: ni,
                        attribute_length: len,
                        number_of_entries: n,
                        entries,
                    },
                    r,
                ),
                o => fail_as(o),
            }
        }
    } else if name == "Exceptions"@ {
        if !fits(s, 0, 2) || !fits(s, 2, 2 * be16(s, 0)) {
            Parsed::Stuck
        } else {
            let n = be16(s, 0);
            Parsed::Done(
                AttributeView::Exceptions {
                    attribute_name_index: ni,
                    attribute_length: len,
                    number_of_exceptions: n,
                    exception_index_table: spec_u16_seq(s, 2, n as nat),
                },
                2 + 2 * n,
            )
        }
    } else if name == "Deprecated"@ {
        Parsed::Done(AttributeView::Deprecated { attribute_name_index: ni, attribute_length: len }, 0)
    } else if name == "Signature"@ {
        if !fits(s, 0, 2) {
            Parsed::Stuck
        } else {
            Parsed::Done(
                AttributeView::Signature {
                    attribute_name_index: ni,
                    attribute_length: len,
                    signature_index: be16(s, 0),
                },
                2,
            )
        }
    } else if name == "MethodParameters"@ {
        if !fits(s, 0, 1) {
            Parsed::Fail(LoadErrorView::InvalidFormat(spec_eof_text()))
        } else if !fits(s, 1, 4 * s[0]) {
            Parsed::Stuck
        } else {
            let n = s[0];
            Parsed::Done(
                AttributeView::MethodParameters {
                    attribute_name_index: ni,
                    attribute_length: len,
                    parameters_count: n,
                    parameters: Seq::new(n as nat, |k: int| parameter_at(s, 1, k)),
                },
                1 + 4 * n,
            )
        }
    } else if name == "RuntimeVisibleAnnotations"@ || name == "RuntimeInvisibleAnnotations"@ {
        if !fits(s, 0, 2) {
            Parsed::Stuck
        } else {
            let n = be16(s, 0);
            match repeat(annotation_parser(s), 2, n as nat) {
                Parsed::Done(annotations, r) => Parsed::Done(
                    if name == "RuntimeVisibleAnnotations"@ {
                        AttributeView::RuntimeVisibleAnnotations {
                            attribute_name_index: ni,
                            attribute_length: len,
                            num_annotations: n,
                            annotations,
                        }
                    } else {
                        AttributeView::RuntimeInvisibleAnnotations {
                            attribute_name_index: ni,
                            attribute_length: len,
                            num_annotations: n,
                            annotations,
                        }
                    },
                    r,
                ),
                o => fail_as(o),
            }
        }
    } else if name == "LocalVariableTable"@ {
        if !fits(s, 0, 2) || !fits(s, 2, 10 * be16(s, 0)) {
            Parsed::Stuck
        } else {
            let n = be16(s, 0);
            Parsed::Done(
                AttributeView::LocalVariableTable {
                    attribute_name_index: ni,
                    attribute_length: len,
                    local_variable_table_length: n,
                    local_variable_table: Seq::new(n as nat, |k: int| local_record_at(s, 2, k)),
                },
                2 + 10 * n,
            )
        }
    } else if name == "LocalVariableTypeTable"@ {
        if !fits(s, 0, 2) || !fits(s, 2, 10 * be16(s, 0)) {
            Parsed::Stuck
        } else {
            let n = be16(s, 0);
            Parsed::Done(
                AttributeView::LocalVariableTypeTable {
                    attribute_name_index: ni,
                    attribute_length: len,
                    local_variable_type_table_length: n,
                    local_variable_type_table: Seq::new(
                        n as nat,
                        |k: int| local_type_record_at(s, 2, k),
                    ),
                },
                2 + 10 * n,
            )
        }
    } else {
        Parsed::Fail(LoadErrorView::Other("Unexpected attribute name: "@ + name))
    }
}

/// The attribute with header `a`: its name is looked up in the constant pool `cp`
/// (an index outside the pool stops the loader).
pub open spec fn spec_attribute(a: AttributeInfoView, cp: Seq<CpEntryView>) -> Parsed<AttributeView>
    decreases a.info.len(), 3int, 0int,
{
    if a.name_index == 0 || a.name_index > cp.len() {
        Parsed::Stuck
    } else {
        match cp[a.name_index - 1].info {
            CpInfoView::Utf8Info { bytes, .. } => spec_named_attribute(utf8_lossy(bytes), a, cp),
            _ => Parsed::Fail(
                LoadErrorView::InvalidFormat(
                    "Attribute name index did not point to a UTF8 entry"@,
                ),
            ),
        }
    }
}

/// Each attribute read from position `p` ends within the input, after `p`.
proof fn lemma_raw_attributes_within(s: Seq<u8>, p: int, n: nat, msg: Seq<char>)
    requires
        0 <= p,
    ensures
        repeat(raw_attribute_parser(s, msg), p, n) matches Parsed::Done(vs, r) ==> p <= r
            <= s.len() || (n == 0 && r == p),
        repeat(raw_attribute_parser(s, msg), p, n) matches Parsed::Done(vs, r) ==> forall|k: int|
            0 <= k < vs.len() ==> p + #[trigger] vs[k].info.len() + 6 <= r,
    decreases n,
{
    if n > 0 {
        lemma_raw_attributes_within(s, p, (n - 1) as nat, msg);
    }
}

/// `name` holds the text `lit`.
fn is_named(name: &String, lit: &str) -> (r: bool)
    ensures
        r == (name@ == lit@),
{
    let other = String::from_str(lit);
    *name == other
}

proof fn lemma_attribute_list_fails(list: Seq<AttributeInfoView>, cp: Seq<CpEntryView>, bound: nat, i: nat)
    requires
        i < list.len(),
        !(spec_attribute_list(list.take(i as int + 1), cp, bound) is Done),
    ensures
        !(spec_attribute_list(list, cp, bound) is Done),
    decreases list.len(),
{
    if list.len() > i + 1 {
        assert(list.drop_last().take(i as int + 1) =~= list.take(i as int + 1));
        lemma_attribute_list_fails(list.drop_last(), cp, bound, i);
    } else {
        assert(list.take(i as int + 1) =~= list);
    }
}

pub(crate) proof fn lemma_attribute_views_push(s: Seq<Attribute>, a: Attribute)
    ensures
        attribute_views(s.push(a)) == attribute_views(s).push(attribute_view(a)),
{
    assert(s.push(a).drop_last() =~= s);
}

fn parse_code(attribute_info: &AttributeInfo, constant_pool: &ConstantPoolInfoTable) -> (r: Result<
    Attribute,
    LoadFailure,
>)
    ensures
        outcome_agrees(r, spec_code(attribute_info@, views(constant_pool@))),
    decreases attribute_info.info@.len(), 1int,
{
    let c = attribute_info.info.as_slice();
    let max_stack = match need_u16(c, 0) {
        Ok(v) => v,
        Err(e) => return Err(e),
    };
    let max_locals = match need_u16(c, 2) {
        Ok(v) => v,
        Err(e) => return Err(e),
    };
    let code_length = match need_u32(c, 4) {
        Ok(v) => v,
        Err(e) => return Err(e),
    };
    let code = match bytes_at(c, 8, code_length as usize) {
        Some(v) => v,
        None => return Err(LoadFailure::Error(eof_error())),
    };
    let p = 8 + code_length as usize;
    let exception_table_length = match need_u16(c, p) {
        Ok(v) => v,
        Err(e) => return Err(e),
    };
    if !(p + 2 <= c.len() && c.len() - (p + 2) >= 8 * (exception_table_length as usize)) {
        return Err(LoadFailure::Stuck);
    }
    let exception_table = read_exception_table(c, p + 2, exception_table_length);
    let q = p + 2 + 8 * (exception_table_length as usize);
    let attributes_count = match need_u16(c, q) {
        Ok(v) => v,
        Err(e) => return Err(e),
    };
    let (infos, r) = read_attributes(c, q + 2, attributes_count, "Error: failed to fill whole buffer")?;
    proof {
        lemma_raw_attributes_within(c@, q + 2, attributes_count as nat, spec_eof_text());
    }
    let ghost cp = views(constant_pool@);
    let ghost all = views(infos@);
    let mut attributes: Vec<Attribute> = Vec::new();
    let mut i: usize = 0;
    assert(all.take(0) =~= Seq::<AttributeInfoView>::empty());
    assert(attribute_views(attributes@) =~= Seq::<AttributeView>::empty());
    #[verifier::loop_isolation(false)]
    while i < infos.len()
        invariant
            0 <= i <= infos.len(),
            all == views(infos@),
            cp == views(constant_pool@),
            c@ == attribute_info.info@,
            forall|k: int| 0 <= k < all.len() ==> #[trigger] all[k].info.len() < c@.len(),
            spec_attribute_list(all.take(i as int), cp, c@.len()) == Parsed::Done(
                attribute_views(attributes@),
                0,
            ),
        decreases infos.len() - i,
    {
        assert(all.take(i + 1).drop_last() =~= all.take(i as int));
        assert(all.take(i + 1).last() == all[i as int]);
        assert(infos[i as int]@ == all[i as int]);
        assert(all[i as int].info.len() < c@.len());
        assert(infos[i as int].info@.len() < attribute_info.info@.len());
        match parse_attribute(&infos[i], constant_pool) {
            Ok(a) => {
                proof {
                    lemma_attribute_views_push(attributes@, a);
                }
                attributes.push(a);
                i = i + 1;
            },
            Err(_) => {
                proof {
                    lemma_attribute_list_fails(all, cp, c@.len(), i as nat);
                    assert(all.take(all.len() as int) =~= all);
                }
                return Err(LoadFailure::Stuck);
            },
        }
    }
    assert(all.take(all.len() as int) =~= all);
    Ok(
        Attribute::Code {
            attribute_name_index: attribute_info.attribute_name_index,
            attribute_length: attribute_info.attribute_length,
            max_stack,
            max_locals,
            code_length,
            code,
            exception_table_length,
            exception_table,
            attributes_count,
            attributes,
        },
    )
}

/// Decodes the attribute `attribute_info` whose name is `attr_name` (the text of the
/// constant-pool entry that its name index points to).
pub fn parse_named_attribute(
    attr_name: &String,
    attribute_info: &AttributeInfo,
    constant_pool: &ConstantPoolInfoTable,
) -> (r: Result<Attribute, LoadFailure>)
    ensures
        outcome_agrees(r, spec_named_attribute(attr_name@, attribute_info@, views(constant_pool@))),
    decreases attribute_info.info@.len(), 2int,
{
    let c = attribute_info.info.as_slice();
    let attribute_name_index = attribute_info.attribute_name_index;
    let attribute_length = attribute_info.attribute_length;
    if is_named(attr_name, "Code") {
        parse_code(attribute_info, constant_pool)
    } else if is_named(attr_name, "ConstantValue") {
        let constantvalue_index = match need_u16(c, 0) {
            Ok(v) => v,
            Err(e) => return Err(e),
        };
        Ok(Attribute::ConstantVale { attribute_name_index, attribute_length, constantvalue_index })
    } else if is_named(attr_name, "LineNumberTable") {
        let n = match need_u16(c, 0) {
            Ok(v) => v,
            Err(e) => return Err(e),
        };
        if c.len() - 2 < 4 * (n as usize) {
            return Err(LoadFailure::Stuck);
        }
        let line_number_table = read_line_table(c, 2, n);
        Ok(
            Attribute::LineNumberTabel {
                attribute_name_index,
                attribute_length,
                line_number_table_length: n,
                line_number_table,
            },
        )
    } else if is_named(attr_name, "StackMapTable") {
        let n = match need_u16(c, 0) {
            Ok(v) => v,
            Err(e) => return Err(e),
        };
        let (entries, _) = read_frames(c, 2, n)?;
        Ok(
            Attribute::StackMapTable {
                attribute_name_index,
                attribute_length,
                number_of_entries: n,
                entries,
            },
        )
    } else if is_named(attr_name, "Exceptions") {
        let n = match need_u16(c, 0) {
            Ok(v) => v,
            Err(e) => return Err(e),
        };
        if c.len() - 2 < 2 * (n as usize) {
            return Err(LoadFailure::Stuck);
        }
        let exception_index_table = read_u16_seq(c, 2, n as usize);
        Ok(
            Attribute::Exceptions {
                attribute_name_index,
                attribute_length,
                number_of_exceptions: n,
                exception_index_table,
            },
        )
    } else if is_named(attr_name, "Deprecated") {
        Ok(Attribute::Deprecated { attribute_name_index, attribute_length })
    } else if is_named(attr_name, "Signature") {
        let signature_index = match need_u16(c, 0) {
            Ok(v) => v,
            Err(e) => return Err(e),
        };
        Ok(Attribute::Signature { attribute_name_index, attribute_length, signature_index })
    } else if is_named(attr_name, "MethodParameters") {
        let parameters_count = match u8_at(c, 0) {
            Some(v) => v,
            None => return Err(LoadFailure::Error(eof_error())),
        };
        if c.len() - 1 < 4 * (parameters_count as usize) {
            return Err(LoadFailure::Stuck);
        }
        let parameters = read_parameters(c, 1, parameters_count);
        Ok(
            Attribute::MethodParameters {
                attribute_name_index,
                attribute_length,
                parameters_count,
                parameters,
            },
        )
    } else if is_named(attr_name, "RuntimeVisibleAnnotations") || is_named(
        attr_name,
        "RuntimeInvisibleAnnotations",
    ) {
        let num_annotations = match need_u16(c, 0) {
            Ok(v) => v,
            Err(e) => return Err(e),
        };
        let (annotations, _) = read_annotations(c, 2, num_annotations)?;
        if is_named(attr_name, "RuntimeVisibleAnnotations") {
            Ok(
                Attribute::RuntimeVisibleAnnotations {
                    attribute_name_index,
                    attribute_length,
                    num_annotations,
                    annotations,
                },
            )
        } else {
            Ok(
                Attribute::RuntimeInvisibleAnnotations {
                    attribute_name_index,
                    attribute_length,
                    num_annotations,
                    annotations,
                },
            )
        }
    } else if is_named(attr_name, "LocalVariableTable") {
        let n = match need_u16(c, 0) {
            Ok(v) => v,
            Err(e) => return Err(e),
        };
        if c.len() - 2 < 10 * (n as usize) {
            return Err(LoadFailure::Stuck);
        }
        let local_variable_table = read_local_table(c, 2, n);
        Ok(
            Attribute::LocalVariableTable {
                attribute_name_index,
                attribute_length,
                local_variable_table_length: n,
                local_variable_table,
            },
        )
    } else if is_named(attr_name, "LocalVariableTypeTable") {
        let n = match need_u16(c, 0) {
            Ok(v) => v,
            Err(e) => return Err(e),
        };
        if c.len() - 2 < 10 * (n as usize) {
            return Err(LoadFailure::Stuck);
        }
        let local_variable_type_table = read_local_type_table(c, 2, n);
        Ok(
            Attribute::LocalVariableTypeTable {
                attribute_name_index,
                attribute_length,
                local_variable_type_table_length: n,
                local_variable_type_table,
            },
        )
    } else {
        let mut text = message("Unexpected attribute name: ");
        text.append(attr_name.as_str());
        Err(LoadFailure::Error(ClassLoadError::Other(text)))
    }
}

fn read_annotations(s: &[u8], pos: usize, n: u16) -> (r: Result<(Vec<Annotation>, usize), LoadFailure>)
    ensures
        agrees_all(r, repeat(annotation_parser(s@), pos as int, n as nat)),
{
    let mut out: Vec<Annotation> = Vec::new();
    let mut p = pos;
    let mut i: u16 = 0;
    assert(views(out@) =~= Seq::<AnnotationView>::empty());
    while i < n
        invariant
            0 <= i <= n,
            repeat(annotation_parser(s@), pos as int, i as nat) == Parsed::Done(
                views(out@),
                p as int,
            ),
        decreases n - i,
    {
        match parse_annotation(s, p) {
            Ok((v, q)) => {
                proof {
                    lemma_views_push(out@, v);
                }
                out.push(v);
                p = q;
                i = i + 1;
            },
            Err(e) => {
                proof {
                    lemma_repeat_fails(annotation_parser(s@), pos as int, i as nat, n as nat, p as int);
                }
                return Err(e);
            },
        }
    }
    Ok((out, p))
}

/// Decodes the attribute `attribute_info`, its name looked up in `constant_pool`: an
/// error where the loader reports one, `Stuck` where it stops the process.
pub fn parse_attribute(attribute_info: &AttributeInfo, constant_pool: &ConstantPoolInfoTable) -> (r: Result<
    Attribute,
    LoadFailure,
>)
    ensures
        outcome_agrees(r, spec_attribute(attribute_info@, views(constant_pool@))),
    decreases attribute_info.info@.len(), 3int,
{
    let idx = attribute_info.attribute_name_index as usize;
    let pool: &Vec<ConstantPoolInfo> = constant_pool;
    if idx == 0 || idx > pool.len() {
        return Err(LoadFailure::Stuck);
    }
    match &pool[idx - 1].info {
        ConstantPoolPFieldInfo::Utf8Info { bytes, .. } => {
            let attr_name = lossy_string(bytes.as_slice());
            parse_named_attribute(&attr_name, attribute_info, constant_pool)
        },
        _ => Err(
            LoadFailure::Error(
                ClassLoadError::InvalidFormat(
                    message("Attribute name index did not point to a UTF8 entry"),
                ),
            ),
        ),
    }
}

/// Decodes the attribute `attribute_info`, its name looked up in `constant_pool`.
pub fn parse_attribute_info(attribute_info: &AttributeInfo, constant_pool: &ConstantPoolInfoTable) -> (r: Result<
    Attribute,
    ClassLoadError,
>)
    requires
        !(spec_attribute(attribute_info@, views(constant_pool@)) is Stuck),
    ensures
        match r {
            Ok(a) => spec_attribute(attribute_info@, views(constant_pool@)) matches Parsed::Done(
                v,
                _,
            ) && v == a@,
            Err(e) => spec_attribute(attribute_info@, views(constant_pool@)) == Parsed::<
                AttributeView,
            >::Fail(e@),
        },
{
    match parse_attribute(attribute_info, constant_pool) {
        Ok(a) => Ok(a),
        Err(LoadFailure::Error(e)) => Err(e),
        Err(LoadFailure::Stuck) => vstd::pervasive::unreached(),
    }
}

/// The big-endian unsigned 16-bit number in the bytes of `s` at `q` and `q + 1`.
pub open spec fn u16_of(s: Seq<u8>, q: int) -> u16 {
    (s[q] as int * 256 + s[q + 1] as int) as u16
}

/// A decoded `Code` attribute has the JVM layout of its bytes: `max_stack` in the first
/// two, `max_locals` in the next two, the code length in the four after them, then that
/// many bytes of code.
pub proof fn law_code_attribute_layout(a: AttributeInfoView, cp: Seq<CpEntryView>)
    ensures
        spec_named_attribute("Code"@, a, cp) matches Parsed::Done(
            AttributeView::Code { max_stack, max_locals, code_length, code, .. },
            _,
        ) ==> {
            let s = a.info;
            &&& max_stack == u16_of(s, 0)
            &&& max_locals == u16_of(s, 2)
            &&& code_length as int == s[4] as int * 16777216 + s[5] as int * 65536 + s[6] as int
                * 256 + s[7] as int
            &&& code == s.subrange(8, 8 + code_length)
        },
{
}

/// A decoded `LineNumberTable` attribute has the JVM layout of its bytes: the number of
/// records in the first two, then four bytes per record, its `start_pc` in the first two
/// and its line number in the next two.
pub proof fn law_line_table_layout(a: AttributeInfoView, cp: Seq<CpEntryView>)
    ensures
        spec_named_attribute("LineNumberTable"@, a, cp) matches Parsed::Done(
            AttributeView::LineNumberTabel { line_number_table_length, line_number_table, .. },
            _,
        ) ==> {
            let s = a.info;
            &&& line_number_table_length == u16_of(s, 0)
            &&& line_number_table.len() == line_number_table_length
            &&& forall|k: int|
                0 <= k < line_number_table.len() ==> (#[trigger] line_number_table[k]).start_pc
                    == u16_of(s, 2 + 4 * k) && line_number_table[k].line_number == u16_of(
                    s,
                    4 + 4 * k,
                )
        },
{
}

} // verus!
