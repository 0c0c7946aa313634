use crate::errors::{message, ClassLoadError, LoadErrorView};
use crate::loader::attributes::{
    raw_attribute_parser, read_attributes, spec_raw_attributes, AttributeInfo, AttributeInfoView,
};
use crate::loader::java_class::{
    spec_tag_name, spec_tag_of_byte, ConstantPoolInfo, ConstantPoolPFieldInfo, ConstantPoolTag,
    CpEntryView, CpInfoView, FieldInfo, JavaClass, JavaClassView, MemberView, MethodInfo,
    RefFieldInfo,
};
use crate::loader::reader::{
    agrees, agrees_all, be16, be32, bytes_at, fail_as, failure_agrees, fits, lemma_repeat_fails,
    lemma_repeat_len, lemma_views_push, need_u16, read_u16_seq, repeat, spec_u16_seq, u16_at, u32_at, u8_at, views,
    LoadFailure, Parsed,
};
use std::rc::Rc;
use vstd::prelude::*;

verus! {

/// The error text for bytes of a constant-pool entry or of an attribute that are missing.
pub open spec fn spec_fields_text() -> Seq<char> {
    "Error parsing constant fields"@
}

/// The body of a constant-pool entry with tag `tag` at `p`.
pub open spec fn spec_cp_info(s: Seq<u8>, p: int, tag: ConstantPoolTag) -> Parsed<CpInfoView> {
    match tag {
        ConstantPoolTag::Utf8 => if !fits(s, p, 2) {
            Parsed::Stuck
        } else {
            let n = be16(s, p);
            if !fits(s, p + 2, n as int) {
                Parsed::Fail(LoadErrorView::InvalidFormat(spec_fields_text()))
            } else {
                Parsed::Done(
                    CpInfoView::Utf8Info { length: n, bytes: s.subrange(p + 2, p + 2 + n) },
                    p + 2 + n,
                )
            }
        },
        ConstantPoolTag::Class => if !fits(s, p, 2) {
            Parsed::Stuck
        } else {
            Parsed::Done(CpInfoView::ClassInfo { name_index: be16(s, p) }, p + 2)
        },
        ConstantPoolTag::String => if !fits(s, p, 2) {
            Parsed::Stuck
        } else {
            Parsed::Done(CpInfoView::String { string_index: be16(s, p) }, p + 2)
        },
        ConstantPoolTag::Fieldref => if !fits(s, p, 4) {
            Parsed::Stuck
        } else {
            Parsed::Done(
                CpInfoView::FieldRef(
                    RefFieldInfo { class_index: be16(s, p), name_and_type_index: be16(s, p + 2) },
                ),
                p + 4,
            )
        },
        ConstantPoolTag::Methodref => if !fits(s, p, 4) {
            Parsed::Stuck
        } else {
            Parsed::Done(
                CpInfoView::MethodRef(
                    RefFieldInfo { class_index: be16(s, p), name_and_type_index: be16(s, p + 2) },
                ),
                p + 4,
            )
        },
        ConstantPoolTag::NameAndType => if !fits(s, p, 4) {
            Parsed::Stuck
        } else {
            Parsed::Done(
                CpInfoView::NameAndType { name_index: be16(s, p), descriptor_index: be16(s, p + 2) },
                p + 4,
            )
        },
        _ => Parsed::Fail(LoadErrorView::Other("unimplemented: "@ + spec_tag_name(tag))),
    }
}

/// Reads one constant-pool entry (tag byte and body) at `q`.
pub open spec fn cp_entry_parser(s: Seq<u8>) -> spec_fn(int) -> Parsed<CpEntryView> {
    |q: int|
        if !fits(s, q, 1) {
            Parsed::Fail(
                LoadErrorView::InvalidFormat(
                    "Failed reading constant pool info: failed to fill whole buffer"@,
                ),
            )
        } else {
            match spec_tag_of_byte(s[q]) {
                None => Parsed::Stuck,
                Some(t) => match spec_cp_info(s, q + 1, t) {
                    Parsed::Done(info, r) => Parsed::Done(CpEntryView { tag: t, info }, r),
                    Parsed::Fail(_) => Parsed::Fail(LoadErrorView::InvalidFormat("Bad Field info"@)),
                    Parsed::Stuck => Parsed::Stuck,
                },
            }
        }
}

/// The constant pool of `count - 1` entries at `p` (a count of zero stops the loader).
pub open spec fn spec_constant_pool(s: Seq<u8>, p: int, count: u16) -> Parsed<Seq<CpEntryView>> {
    if count == 0 {
        Parsed::Stuck
    } else {
        repeat(cp_entry_parser(s), p, (count - 1) as nat)
    }
}

/// Reads a `field_info` or `method_info` at `q`.
pub open spec fn member_parser(s: Seq<u8>) -> spec_fn(int) -> Parsed<MemberView> {
    |q: int|
        if !fits(s, q, 8) {
            Parsed::Stuck
        } else {
            let n = be16(s, q + 6);
            match spec_raw_attributes(s, q + 8, n, spec_fields_text()) {
                Parsed::Done(attrs, r) => Parsed::Done(
                    MemberView {
                        access_flags: be16(s, q),
                        name_index: be16(s, q + 2),
                        descriptor_index: be16(s, q + 4),
                        attributes_count: n,
                        attributes: attrs,
                    },
                    r,
                ),
                other => fail_as(other),
            }
        }
}

/// The `count` interface indices at `p`.
pub open spec fn spec_interfaces(s: Seq<u8>, p: int, count: u16) -> Seq<u16> {
    spec_u16_seq(s, p, count as nat)
}

/// The part of a class file after the constant pool: it starts at `p`; the fields
/// read before it are given.
pub open spec fn spec_class_rest(
    s: Seq<u8>,
    p: int,
    magic: u32,
    minor: u16,
    major: u16,
    cp_count: u16,
    cp: Seq<CpEntryView>,
) -> Parsed<JavaClassView> {
    if !fits(s, p, 8) {
        Parsed::Stuck
    } else {
        let ic = be16(s, p + 6);
        let p2 = p + 8;
        if !fits(s, p2, 2 * ic) {
            Parsed::Fail(
                LoadErrorView::InvalidFormat("Failed reading interfaces: failed to fill whole buffer"@),
            )
        } else if !fits(s, p2 + 2 * ic, 2) {
            Parsed::Stuck
        } else {
            let p3 = p2 + 2 * ic;
            let fc = be16(s, p3);
            match repeat(member_parser(s), p3 + 2, fc as nat) {
                Parsed::Done(fields, p4) => if !fits(s, p4, 2) {
                    Parsed::Stuck
                } else {
                    let mc = be16(s, p4);
                    match repeat(member_parser(s), p4 + 2, mc as nat) {
                        Parsed::Done(methods, p5) => if !fits(s, p5, 2) {
                            Parsed::Stuck
                        } else {
                            let ac = be16(s, p5);
                            match spec_raw_attributes(s, p5 + 2, ac, spec_fields_text()) {
                                Parsed::Done(attrs, p6) => Parsed::Done(
                                    JavaClassView {
                                        magic_number: magic,
                                        minor_version: minor,
                                        major_version: major,
                                        constant_pool_count: cp_count,
                                        constant_pool: cp,
                                        access_flags: be16(s, p),
                                        this_class: be16(s, p + 2),
                                        super_class: be16(s, p + 4),
                                        interface_count: ic,
                                        interfaces: spec_interfaces(s, p2, ic),
                                        fields_count: fc,
                                        field_info: fields,
                                        methods_count: mc,
                                        methods: methods,
                                        attributes_count: ac,
                                        attributes_info: attrs,
                                    },
                                    p6,
                                ),
                                other => fail_as(other),
                            }
                        },
                        other => fail_as(other),
                    }
                },
                other => fail_as(other),
            }
        }
    }
}

/// The big-endian unsigned 16-bit number in the two bytes of `s` at `q` and `q + 1`.
pub open spec fn u16_in(s: Seq<u8>, q: int) -> u16 {
    (s[q] as int * 256 + s[q + 1] as int) as u16
}

/// A constant-pool entry is read as the JVM lays it out: its tag byte, then its fields
/// in order, each a big-endian 16-bit index: `Class` (7) its name; `String` (8) its
/// text; `Fieldref` (9) and `Methodref` (10) their class, then their name-and-type;
/// `NameAndType` (12) its name, then its descriptor; and a `Utf8` entry (1) its byte
/// length, then that many bytes.
pub proof fn law_constant_pool_entry_layout(s: Seq<u8>, q: int)
    requires
        0 <= q < s.len(),
    ensures
        s[q] == 7 && q + 3 <= s.len() ==> cp_entry_parser(s)(q) == Parsed::Done(
            CpEntryView {
                tag: ConstantPoolTag::Class,
                info: CpInfoView::ClassInfo { name_index: u16_in(s, q + 1) },
            },
            q + 3,
        ),
        s[q] == 8 && q + 3 <= s.len() ==> cp_entry_parser(s)(q) == Parsed::Done(
            CpEntryView {
                tag: ConstantPoolTag::String,
                info: CpInfoView::String { string_index: u16_in(s, q + 1) },
            },
            q + 3,
        ),
        s[q] == 9 && q + 5 <= s.len() ==> cp_entry_parser(s)(q) == Parsed::Done(
            CpEntryView {
                tag: ConstantPoolTag::Fieldref,
                info: CpInfoView::FieldRef(
                    RefFieldInfo {
                        class_index: u16_in(s, q + 1),
                        name_and_type_index: u16_in(s, q + 3),
                    },
                ),
            },
            q + 5,
        ),
        s[q] == 10 && q + 5 <= s.len() ==> cp_entry_parser(s)(q) == Parsed::Done(
            CpEntryView {
                tag: ConstantPoolTag::Methodref,
                info: CpInfoView::MethodRef(
                    RefFieldInfo {
                        class_index: u16_in(s, q + 1),
                        name_and_type_index: u16_in(s, q + 3),
                    },
                ),
            },
            q + 5,
        ),
        s[q] == 12 && q + 5 <= s.len() ==> cp_entry_parser(s)(q) == Parsed::Done(
            CpEntryView {
                tag: ConstantPoolTag::NameAndType,
                info: CpInfoView::NameAndType {
                    name_index: u16_in(s, q + 1),
                    descriptor_index: u16_in(s, q + 3),
                },
            },
            q + 5,
        ),
        s[q] == 1 && q + 3 + u16_in(s, q + 1) <= s.len() ==> cp_entry_parser(s)(q)
            == Parsed::Done(
            CpEntryView {
                tag: ConstantPoolTag::Utf8,
                info: CpInfoView::Utf8Info {
                    length: u16_in(s, q + 1),
                    bytes: s.subrange(q + 3, q + 3 + u16_in(s, q + 1)),
                },
            },
            q + 3 + u16_in(s, q + 1),
        ),
{
}

/// What loading the class file `s` gives: the class, an error, or `Stuck` where the
/// loader stops the process.
pub open spec fn spec_class_file(s: Seq<u8>) -> Parsed<JavaClassView> {
    if !fits(s, 0, 4) {
        Parsed::Fail(
            LoadErrorView::InvalidFormat("Failed reading magic number: failed to fill whole buffer"@),
        )
    } else if !fits(s, 4, 4) {
        Parsed::Fail(
            LoadErrorView::InvalidFormat(
                "Failed reading version number: failed to fill whole buffer"@,
            ),
        )
    } else if !fits(s, 8, 2) {
        Parsed::Fail(
            LoadErrorView::InvalidFormat(
                "Failed reading constant pool count: failed to fill whole buffer"@,
            ),
        )
    } else {
        let cp_count = be16(s, 8);
        match spec_constant_pool(s, 10, cp_count) {
            Parsed::Done(cp, p) => spec_class_rest(
                s,
                p,
                be32(s, 0),
                be16(s, 4),
                be16(s, 6),
                cp_count,
                cp,
            ),
            other => fail_as(other),
        }
    }
}

fn parse_constant_pool_info(s: &[u8], pos: usize, tag: ConstantPoolTag) -> (r: Result<
    (ConstantPoolPFieldInfo, usize),
    LoadFailure,
>)
    ensures
        agrees(r, spec_cp_info(s@, pos as int, tag)),
{
    match tag {
        ConstantPoolTag::Utf8 => {
            let length = match need_u16(s, pos) {
                Ok(v) => v,
                Err(e) => return Err(e),
            };
            match bytes_at(s, pos + 2, length as usize) {
                Some(bytes) => Ok(
                    (ConstantPoolPFieldInfo::Utf8Info { length, bytes }, pos + 2 + length as usize),
                ),
                None => Err(
                    LoadFailure::Error(
                        ClassLoadError::InvalidFormat(message("Error parsing constant fields")),
                    ),
                ),
            }
        },
        ConstantPoolTag::Class => {
            let name_index = match need_u16(s, pos) {
                Ok(v) => v,
                Err(e) => return Err(e),
            };
            Ok((ConstantPoolPFieldInfo::ClassInfo { name_index }, pos + 2))
        },
        ConstantPoolTag::String => {
            let string_index = match need_u16(s, pos) {
                Ok(v) => v,
                Err(e) => return Err(e),
            };
            Ok((ConstantPoolPFieldInfo::String { string_index }, pos + 2))
        },
        ConstantPoolTag::Fieldref => {
            let (a, b) = read_two(s, pos)?;
            Ok(
                (
                    ConstantPoolPFieldInfo::FieldRef(
                        RefFieldInfo { class_index: a, name_and_type_index: b },
                    ),
                    pos + 4,
                ),
            )
        },
        ConstantPoolTag::Methodref => {
            let (a, b) = read_two(s, pos)?;
            Ok(
                (
                    ConstantPoolPFieldInfo::MethodRef(
                        RefFieldInfo { class_index: a, name_and_type_index: b },
                    ),
                    pos + 4,
                ),
            )
        },
        ConstantPoolTag::NameAndType => {
            let (a, b) = read_two(s, pos)?;
            Ok((ConstantPoolPFieldInfo::NameAndType { name_index: a, descriptor_index: b }, pos + 4))
        },
        _ => {
            let mut text = message("unimplemented: ");
            text.append(tag.name());
            Err(LoadFailure::Error(ClassLoadError::Other(text)))
        },
    }
}

/// Two consecutive 16-bit values at `pos`; the loader stops where they are missing.
fn read_two(s: &[u8], pos: usize) -> (r: Result<(u16, u16), LoadFailure>)
    ensures
        fits(s@, pos as int, 4) ==> r == Ok::<(u16, u16), LoadFailure>(
            (be16(s@, pos as int), be16(s@, pos + 2)),
        ),
        !fits(s@, pos as int, 4) ==> (r matches Err(LoadFailure::Stuck)),
        r is Ok ==> pos + 4 <= s.len(),
{
    let a = match need_u16(s, pos) {
        Ok(v) => v,
        Err(e) => return Err(e),
    };
    let b = match need_u16(s, pos + 2) {
        Ok(v) => v,
        Err(e) => return Err(e),
    };
    Ok((a, b))
}

fn parse_constant_pool_entry(s: &[u8], pos: usize) -> (r: Result<(ConstantPoolInfo, usize), LoadFailure>)
    ensures
        agrees(r, cp_entry_parser(s@)(pos as int)),
{
    let next_tag = match u8_at(s, pos) {
        Some(b) => b,
        None => {
            return Err(
                LoadFailure::Error(
                    ClassLoadError::InvalidFormat(
                        message("Failed reading constant pool info: failed to fill whole buffer"),
                    ),
                ),
            )
        },
    };
    let tag = match ConstantPoolTag::try_from(next_tag) {
        Ok(t) => t,
        Err(()) => return Err(LoadFailure::Stuck),
    };
    match parse_constant_pool_info(s, pos + 1, tag) {
        Ok((info, q)) => Ok((ConstantPoolInfo { tag, info }, q)),
        Err(LoadFailure::Error(_)) => Err(
            LoadFailure::Error(ClassLoadError::InvalidFormat(message("Bad Field info"))),
        ),
        Err(LoadFailure::Stuck) => Err(LoadFailure::Stuck),
    }
}

fn parse_constant_pool(s: &[u8], pos: usize, count: u16) -> (r: Result<
    (Vec<ConstantPoolInfo>, usize),
    LoadFailure,
>)
    ensures
        agrees_all(r, spec_constant_pool(s@, pos as int, count)),
{
    if count == 0 {
        return Err(LoadFailure::Stuck);
    }
    let n = count - 1;
    let mut out: Vec<ConstantPoolInfo> = Vec::new();
    let mut p = pos;
    let mut i: u16 = 0;
    assert(views(out@) =~= Seq::<CpEntryView>::empty());
    while i < n
        invariant
            0 <= i <= n,
            count > 0,
            n == count - 1,
            repeat(cp_entry_parser(s@), pos as int, i as nat) == Parsed::Done(views(out@), p as int),
        decreases n - i,
    {
        match parse_constant_pool_entry(s, p) {
            Ok((e, q)) => {
                proof {
                    lemma_views_push(out@, e);
                }
                out.push(e);
                p = q;
                i = i + 1;
            },
            Err(e) => {
                proof {
                    lemma_repeat_fails(cp_entry_parser(s@), pos as int, i as nat, n as nat, p as int);
                }
                return Err(e);
            },
        }
    }
    Ok((out, p))
}

fn parse_member(s: &[u8], pos: usize) -> (r: Result<
    (u16, u16, u16, u16, Vec<AttributeInfo>, usize),
    LoadFailure,
>)
    ensures
        match r {
            Ok((af, ni, di, ac, attrs, q)) => member_parser(s@)(pos as int) == Parsed::Done(
                MemberView {
                    access_flags: af,
                    name_index: ni,
                    descriptor_index: di,
                    attributes_count: ac,
                    attributes: views(attrs@),
                },
                q as int,
            ),
            Err(e) => failure_agrees(e, member_parser(s@)(pos as int)),
        },
{
    let (access_flags, name_index) = read_two(s, pos)?;
    let (descriptor_index, attributes_count) = read_two(s, pos + 4)?;
    let (attributes, q) = read_attributes(
        s,
        pos + 8,
        attributes_count,
        "Error parsing constant fields",
    )?;
    Ok((access_flags, name_index, descriptor_index, attributes_count, attributes, q))
}

fn parse_method_info(s: &[u8], pos: usize, methods_count: u16) -> (r: Result<
    (Vec<MethodInfo>, usize),
    LoadFailure,
>)
    ensures
        agrees_all(r, repeat(member_parser(s@), pos as int, methods_count as nat)),
{
    let mut out: Vec<MethodInfo> = Vec::new();
    let mut p = pos;
    let mut i: u16 = 0;
    assert(views(out@) =~= Seq::<MemberView>::empty());
    while i < methods_count
        invariant
            0 <= i <= methods_count,
            repeat(member_parser(s@), pos as int, i as nat) == Parsed::Done(views(out@), p as int),
        decreases methods_count - i,
    {
        match parse_member(s, p) {
            Ok((access_flags, name_index, descriptor_index, attributes_count, attributes, q)) => {
                let m = MethodInfo {
                    access_flags,
                    name_index,
                    descriptor_index,
                    attributes_count,
                    attributes,
                };
                proof {
                    lemma_views_push(out@, m);
                }
                out.push(m);
                p = q;
                i = i + 1;
            },
            Err(e) => {
                proof {
                    lemma_repeat_fails(
                        member_parser(s@),
                        pos as int,
                        i as nat,
                        methods_count as nat,
                        p as int,
                    );
                }
                return Err(e);
            },
        }
    }
    Ok((out, p))
}

fn parse_field_info(s: &[u8], pos: usize, fields_count: u16) -> (r: Result<
    (Vec<FieldInfo>, usize),
    LoadFailure,
>)
    ensures
        agrees_all(r, repeat(member_parser(s@), pos as int, fields_count as nat)),
{
    let mut out: Vec<FieldInfo> = Vec::new();
    let mut p = pos;
    let mut i: u16 = 0;
    assert(views(out@) =~= Seq::<MemberView>::empty());
    while i < fields_count
        invariant
            0 <= i <= fields_count,
            repeat(member_parser(s@), pos as int, i as nat) == Parsed::Done(views(out@), p as int),
        decreases fields_count - i,
    {
        match parse_member(s, p) {
            Ok((access_flags, name_index, descriptor_index, attributes_count, attributes, q)) => {
                let f = FieldInfo {
                    access_flags,
                    name_index,
                    descriptor_index,
                    attributes_count,
                    attributes,
                };
                proof {
                    lemma_views_push(out@, f);
                }
                out.push(f);
                p = q;
                i = i + 1;
            },
            Err(e) => {
                proof {
                    lemma_repeat_fails(
                        member_parser(s@),
                        pos as int,
                        i as nat,
                        fields_count as nat,
                        p as int,
                    );
                }
                return Err(e);
            },
        }
    }
    Ok((out, p))
}

/// Reads the class file `bytes` into a [`JavaClass`]: an error where the file is
/// short or holds what the loader refuses, and `Stuck` where the loader stops the
/// process.
pub fn parse_class_file(bytes: &[u8]) -> (r: Result<JavaClass, LoadFailure>)
    ensures
        match r {
            Ok(c) => spec_class_file(bytes@) matches Parsed::Done(v, _) && v == c@,
            Err(e) => failure_agrees(e, spec_class_file(bytes@)),
        },
{
    let s = bytes;
    let magic_number = match u32_at(s, 0) {
        Some(v) => v,
        None => {
            return Err(
                LoadFailure::Error(
                    ClassLoadError::InvalidFormat(
                        message("Failed reading magic number: failed to fill whole buffer"),
                    ),
                ),
            )
        },
    };
    let (minor_version, major_version) = match u32_at(s, 4) {
        Some(_) => match read_two(s, 4) {
            Ok(v) => v,
            Err(e) => return Err(e),
        },
        None => {
            return Err(
                LoadFailure::Error(
                    ClassLoadError::InvalidFormat(
                        message("Failed reading version number: failed to fill whole buffer"),
                    ),
                ),
            )
        },
    };
    let constant_pool_count = match u16_at(s, 8) {
        Some(v) => v,
        None => {
            return Err(
                LoadFailure::Error(
                    ClassLoadError::InvalidFormat(
                        message("Failed reading constant pool count: failed to fill whole buffer"),
                    ),
                ),
            )
        },
    };
    let (constant_pool, p) = parse_constant_pool(s, 10, constant_pool_count)?;
    let ghost cp = views(constant_pool@);
    let rest = parse_class_rest(
        s,
        p,
        magic_number,
        minor_version,
        major_version,
        constant_pool_count,
        constant_pool,
    );
    rest
}

fn parse_class_rest(
    s: &[u8],
    p: usize,
    magic_number: u32,
    minor_version: u16,
    major_version: u16,
    constant_pool_count: u16,
    constant_pool: Vec<ConstantPoolInfo>,
) -> (r: Result<JavaClass, LoadFailure>)
    ensures
        ({
            let spec = spec_class_rest(
                s@,
                p as int,
                magic_number,
                minor_version,
                major_version,
                constant_pool_count,
                views(constant_pool@),
            );
            match r {
                Ok(c) => spec matches Parsed::Done(v, _) && v == c@,
                Err(e) => failure_agrees(e, spec),
            }
        }),
{
    let (access_flags, this_class) = read_two(s, p)?;
    let (super_class, interface_count) = read_two(s, p + 4)?;
    let p2 = p + 8;
    if !(p2 <= s.len() && s.len() - p2 >= 2 * (interface_count as usize)) {
        return Err(
            LoadFailure::Error(
                ClassLoadError::InvalidFormat(
                    message("Failed reading interfaces: failed to fill whole buffer"),
                ),
            ),
        );
    }
    let interfaces = read_u16_seq(s, p2, interface_count as usize);
    let p3 = p2 + 2 * (interface_count as usize);
    let fields_count = need_u16(s, p3)?;
    let (field_info, p4) = parse_field_info(s, p3 + 2, fields_count)?;
    let methods_count = need_u16(s, p4)?;
    let (methods, p5) = parse_method_info(s, p4 + 2, methods_count)?;
    let attributes_count = need_u16(s, p5)?;
    let (attributes_info, p6) = read_attributes(
        s,
        p5 + 2,
        attributes_count,
        "Error parsing constant fields",
    )?;
    Ok(
        JavaClass {
            magic_number,
            minor_version,
            major_version,
            constant_pool_count,
            constant_pool: Rc::new(constant_pool),
            access_flags,
            this_class,
            super_class,
            interface_count,
            interfaces,
            fields_count,
            field_info,
            methods_count,
            methods,
            attributes_count,
            attributes_info,
        },
    )
}

/// Reads the class file `bytes` into a [`JavaClass`].
pub fn parse(bytes: Vec<u8>) -> (r: Result<JavaClass, ClassLoadError>)
    requires
        !(spec_class_file(bytes@) is Stuck),
    ensures
        match r {
            Ok(c) => spec_class_file(bytes@) matches Parsed::Done(v, _) && v == c@,
            Err(e) => spec_class_file(bytes@) == Parsed::<JavaClassView>::Fail(e@),
        },
{
    match parse_class_file(bytes.as_slice()) {
        Ok(c) => Ok(c),
        Err(LoadFailure::Error(e)) => Err(e),
        Err(LoadFailure::Stuck) => vstd::pervasive::unreached(),
    }
}

/// Loads a class from the contents of its file (`None` where the file could not be read).
pub fn load(contents: Option<Vec<u8>>) -> (r: Result<JavaClass, ClassLoadError>)
    requires
        contents matches Some(bytes) ==> !(spec_class_file(bytes@) is Stuck),
    ensures
        match contents {
            None => r matches Err(e) && e@ == LoadErrorView::NotFound("File not found"@),
            Some(bytes) => match r {
                Ok(c) => spec_class_file(bytes@) matches Parsed::Done(v, _) && v == c@,
                Err(e) => spec_class_file(bytes@) == Parsed::<JavaClassView>::Fail(e@),
            },
        },
{
    match contents {
        None => Err(ClassLoadError::NotFound(message("File not found"))),
        Some(bytes) => parse(bytes),
    }
}

/// In a class that loads, every count of the file is the length of the list it counts,
/// and the constant pool holds one entry less than its count.
pub proof fn law_parsed_counts(s: Seq<u8>)
    ensures
        spec_class_file(s) matches Parsed::Done(c, _) ==> {
            &&& c.constant_pool.len() + 1 == c.constant_pool_count
            &&& c.interfaces.len() == c.interface_count
            &&& c.field_info.len() == c.fields_count
            &&& c.methods.len() == c.methods_count
            &&& c.attributes_info.len() == c.attributes_count
            &&& c.magic_number == be32(s, 0)
            &&& c.minor_version == be16(s, 4)
            &&& c.major_version == be16(s, 6)
        },
{
    if spec_class_file(s) is Done {
        let cp_count = be16(s, 8);
        lemma_repeat_len(cp_entry_parser(s), 10, (cp_count - 1) as nat);
        if let Parsed::Done(cp, p) = spec_constant_pool(s, 10, cp_count) {
            let ic = be16(s, p + 6);
            let p3 = p + 8 + 2 * ic;
            let fc = be16(s, p3);
            lemma_repeat_len(member_parser(s), p3 + 2, fc as nat);
            if let Parsed::Done(fields, p4) = repeat(member_parser(s), p3 + 2, fc as nat) {
                let mc = be16(s, p4);
                lemma_repeat_len(member_parser(s), p4 + 2, mc as nat);
                if let Parsed::Done(methods, p5) = repeat(member_parser(s), p4 + 2, mc as nat) {
                    let ac = be16(s, p5);
                    lemma_repeat_len(
                        raw_attribute_parser(s, spec_fields_text()),
                        p5 + 2,
                        ac as nat,
                    );
                }
            }
        }
    }
}

} // verus!
