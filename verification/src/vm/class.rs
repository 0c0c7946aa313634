use crate::errors::message;
use crate::loader::attributes::{parse_attribute, spec_attribute, Attribute, AttributeInfoView, AttributeView};
use crate::loader::java_class::{
    spec_debug_text, ConstantPoolInfo, ConstantPoolInfoTable, ConstantPoolPFieldInfo, CpEntryView,
    CpInfoView, JavaClass, JavaClassView, MemberView,
};
use crate::loader::reader::{lossy_string, utf8_lossy, views, LoadFailure, Parsed};
use crate::vm::access_flags::AccessFlags;
use std::collections::HashMap;
use std::rc::Rc;
use vstd::prelude::*;
use vstd::string::StringExecFns;

verus! {

broadcast use vstd::std_specs::hash::group_hash_axioms;

/// A method of a loaded class.
#[derive(Debug, Clone)]
pub struct Method {
    pub name: String,
    pub descriptor: String,
    pub access_flags: AccessFlags,
    pub max_stack: u16,
    pub max_locals: u16,
    pub code: Vec<u8>,
}

/// The value of a [`Method`].
pub struct MethodView {
    pub name: Seq<char>,
    pub descriptor: Seq<char>,
    pub access_flags: u16,
    pub max_stack: u16,
    pub max_locals: u16,
    pub code: Seq<u8>,
}

impl View for Method {
    type V = MethodView;

    open spec fn view(&self) -> MethodView {
        MethodView {
            name: self.name@,
            descriptor: self.descriptor@,
            access_flags: self.access_flags.0,
            max_stack: self.max_stack,
            max_locals: self.max_locals,
            code: self.code@,
        }
    }
}

pub type MethodPtr = Rc<Method>;

/// A field of a loaded class.
#[derive(Debug, Clone)]
pub struct Field {
    pub name: String,
    pub descriptor: String,
    pub access_flags: AccessFlags,
    pub constant_value: Option<String>,
}

/// The value of a [`Field`].
pub struct FieldView {
    pub name: Seq<char>,
    pub descriptor: Seq<char>,
    pub access_flags: u16,
    pub constant_value: Option<Seq<char>>,
}

/// The text of an optional string.
pub open spec fn opt_text(o: Option<String>) -> Option<Seq<char>> {
    match o {
        Some(s) => Some(s@),
        None => None,
    }
}

impl View for Field {
    type V = FieldView;

    open spec fn view(&self) -> FieldView {
        FieldView {
            name: self.name@,
            descriptor: self.descriptor@,
            access_flags: self.access_flags.0,
            constant_value: opt_text(self.constant_value),
        }
    }
}

pub type FieldPtr = Rc<Field>;

/// A loaded class: its constant pool, its methods and fields, and these keyed by the
/// constant-pool index of their names.
#[derive(Debug, Clone)]
pub struct Class {
    pub constant_pool: ConstantPoolInfoTable,
    pub methods: Vec<MethodPtr>,
    pub fields: Vec<FieldPtr>,
    pub method_by_index: HashMap<u16, MethodPtr>,
    pub field_by_index: HashMap<u16, FieldPtr>,
}

pub type ClassPtr = Rc<Class>;

/// The value of a [`Class`].
pub struct ClassView {
    pub constant_pool: Seq<CpEntryView>,
    pub methods: Seq<MethodView>,
    pub fields: Seq<FieldView>,
    pub method_by_index: Map<u16, MethodView>,
    pub field_by_index: Map<u16, FieldView>,
}

impl View for Class {
    type V = ClassView;

    open spec fn view(&self) -> ClassView {
        ClassView {
            constant_pool: views(self.constant_pool@),
            methods: views(self.methods@),
            fields: views(self.fields@),
            method_by_index: self.method_by_index@.map_values(|m: MethodPtr| m@),
            field_by_index: self.field_by_index@.map_values(|f: FieldPtr| f@),
        }
    }
}

/// A method together with the class that holds it.
#[derive(Debug, Clone)]
pub struct MethodReference {
    method: MethodPtr,
    class: ClassPtr,
}

impl MethodReference {
    pub closed spec fn spec_method(&self) -> MethodPtr {
        self.method
    }

    pub closed spec fn spec_class(&self) -> ClassPtr {
        self.class
    }

    pub fn new(method: MethodPtr, class: ClassPtr) -> (r: Self)
        ensures
            r.spec_method() == method,
            r.spec_class() == class,
    {
        MethodReference { method, class }
    }

    pub fn method(&self) -> (r: MethodPtr)
        ensures
            r == self.spec_method(),
    {
        self.method.clone()
    }

    pub fn class(&self) -> (r: ClassPtr)
        ensures
            r == self.spec_class(),
    {
        self.class.clone()
    }
}

/// Entry `#index` of the pool, if the pool has it.
pub open spec fn spec_cp_get(cp: Seq<CpEntryView>, index: u16) -> Option<CpEntryView> {
    if 1 <= index <= cp.len() {
        Some(cp[index - 1])
    } else {
        None
    }
}

/// The text of entry `#index`, if it is a `Utf8` entry.
pub open spec fn spec_utf8(cp: Seq<CpEntryView>, index: u16) -> Option<Seq<char>> {
    match spec_cp_get(cp, index) {
        Some(e) => match e.info {
            CpInfoView::Utf8Info { bytes, .. } => Some(utf8_lossy(bytes)),
            _ => None,
        },
        None => None,
    }
}

/// The name of the class that entry `#index` names, if it is a `Class` entry.
pub open spec fn spec_class_name(cp: Seq<CpEntryView>, index: u16) -> Option<Seq<char>> {
    match spec_cp_get(cp, index) {
        Some(e) => match e.info {
            CpInfoView::ClassInfo { name_index } => spec_utf8(cp, name_index),
            _ => None,
        },
        None => None,
    }
}

/// The name and the descriptor of entry `#index`, if it is a `NameAndType` entry.
pub open spec fn spec_name_and_type(cp: Seq<CpEntryView>, index: u16) -> Option<
    (Seq<char>, Seq<char>),
> {
    match spec_cp_get(cp, index) {
        Some(e) => match e.info {
            CpInfoView::NameAndType { name_index, descriptor_index } => match (
                spec_utf8(cp, name_index),
                spec_utf8(cp, descriptor_index),
            ) {
                (Some(n), Some(d)) => Some((n, d)),
                _ => None,
            },
            _ => None,
        },
        None => None,
    }
}

/// `class.name` followed by the descriptor.
pub open spec fn spec_join_identifier(class: Seq<char>, name: Seq<char>, desc: Seq<char>) -> Seq<
    char,
> {
    class + "."@ + name + desc
}

/// The identifier `Class.nameDescriptor` of the member that the reference `r` names.
pub open spec fn spec_ref_identifier(cp: Seq<CpEntryView>, class_index: u16, nat_index: u16) -> Option<
    Seq<char>,
> {
    match (spec_class_name(cp, class_index), spec_name_and_type(cp, nat_index)) {
        (Some(c), Some((n, d))) => Some(spec_join_identifier(c, n, d)),
        _ => None,
    }
}

/// The identifier of the field, method or interface method that entry `#index` refers to.
pub open spec fn spec_identifier(cp: Seq<CpEntryView>, index: u16) -> Option<Seq<char>> {
    match spec_cp_get(cp, index) {
        Some(e) => match e.info {
            CpInfoView::MethodRef(r) => spec_ref_identifier(cp, r.class_index, r.name_and_type_index),
            CpInfoView::InterfaceMethodRef(r) => spec_ref_identifier(
                cp,
                r.class_index,
                r.name_and_type_index,
            ),
            CpInfoView::FieldRef(r) => spec_ref_identifier(cp, r.class_index, r.name_and_type_index),
            _ => None,
        },
        None => None,
    }
}

impl Class {
    pub fn get_method_by_index(&self, index: u16) -> (r: Option<&MethodPtr>)
        ensures
            match r {
                Some(m) => self.method_by_index@.contains_key(index) && *m
                    == self.method_by_index@[index],
                None => !self.method_by_index@.contains_key(index),
            },
    {
        self.method_by_index.get(&index)
    }

    pub fn get_field_by_index(&self, index: u16) -> (r: Option<&FieldPtr>)
        ensures
            match r {
                Some(f) => self.field_by_index@.contains_key(index) && *f
                    == self.field_by_index@[index],
                None => !self.field_by_index@.contains_key(index),
            },
    {
        self.field_by_index.get(&index)
    }

    /// Entry `#index` of the constant pool (entries are numbered from 1).
    pub fn cp_get(&self, index: u16) -> (r: Option<&ConstantPoolInfo>)
        ensures
            match r {
                Some(e) => 1 <= index <= self.constant_pool@.len() && *e
                    == self.constant_pool@[index - 1],
                None => !(1 <= index <= self.constant_pool@.len()),
            },
    {
        if index == 0 {
            return None;
        }
        let pool: &Vec<ConstantPoolInfo> = &self.constant_pool;
        let idx = index as usize;
        if idx == 0 || idx > pool.len() {
            return None;
        }
        Some(&pool[idx - 1])
    }

    /// The text of the `Utf8` entry `#index`.
    pub fn get_utf8(&self, index: u16) -> (r: Option<String>)
        ensures
            opt_text(r) == spec_utf8(self@.constant_pool, index),
    {
        match self.cp_get(index) {
            Some(e) => match &e.info {
                ConstantPoolPFieldInfo::Utf8Info { bytes, .. } => Some(lossy_string(bytes.as_slice())),
                _ => None,
            },
            None => None,
        }
    }

    /// The class name that the `Class` entry `#index` names.
    pub fn get_class_name(&self, index: u16) -> (r: Option<String>)
        ensures
            opt_text(r) == spec_class_name(self@.constant_pool, index),
    {
        match self.cp_get(index) {
            Some(e) => match &e.info {
                ConstantPoolPFieldInfo::ClassInfo { name_index } => self.get_utf8(*name_index),
                _ => None,
            },
            None => None,
        }
    }

    /// The name and the descriptor that the `NameAndType` entry `#index` names.
    pub fn get_name_and_type(&self, index: u16) -> (r: Option<(String, String)>)
        ensures
            match r {
                Some((n, d)) => spec_name_and_type(self@.constant_pool, index) == Some((n@, d@)),
                None => spec_name_and_type(self@.constant_pool, index) is None,
            },
    {
        match self.cp_get(index) {
            Some(e) => match &e.info {
                ConstantPoolPFieldInfo::NameAndType { name_index, descriptor_index } => {
                    let name = match self.get_utf8(*name_index) {
                        Some(n) => n,
                        None => return None,
                    };
                    let desc = match self.get_utf8(*descriptor_index) {
                        Some(d) => d,
                        None => return None,
                    };
                    Some((name, desc))
                },
                _ => None,
            },
            None => None,
        }
    }

    fn ref_identifier(&self, class_index: u16, nat_index: u16) -> (r: Option<String>)
        ensures
            opt_text(r) == spec_ref_identifier(self@.constant_pool, class_index, nat_index),
    {
        let class_name = match self.get_class_name(class_index) {
            Some(c) => c,
            None => return None,
        };
        let (name, desc) = match self.get_name_and_type(nat_index) {
            Some(p) => p,
            None => return None,
        };
        let mut identifier = class_name;
        identifier.append(".");
        identifier.append(name.as_str());
        identifier.append(desc.as_str());
        Some(identifier)
    }

    /// The identifier `Class.nameDescriptor` of the field, method or interface method
    /// that the entry `#index` refers to.
    pub fn resolve_ref_to_identifier(&self, index: u16) -> (r: Option<String>)
        ensures
            opt_text(r) == spec_identifier(self@.constant_pool, index),
    {
        match self.cp_get(index) {
            Some(e) => match &e.info {
                ConstantPoolPFieldInfo::MethodRef(r) => self.ref_identifier(
                    r.class_index,
                    r.name_and_type_index,
                ),
                ConstantPoolPFieldInfo::InterfaceMethodRef(r) => self.ref_identifier(
                    r.class_index,
                    r.name_and_type_index,
                ),
                ConstantPoolPFieldInfo::FieldRef(r) => self.ref_identifier(
                    r.class_index,
                    r.name_and_type_index,
                ),
                _ => None,
            },
            None => None,
        }
    }
}

/// `#idx` is an entry of the pool.
pub open spec fn index_ok(cp: Seq<CpEntryView>, idx: u16) -> bool {
    1 <= idx <= cp.len()
}

/// The text of entry `#idx` when it is a `Utf8` entry, `"<invalid>"` otherwise.
pub open spec fn spec_member_text(cp: Seq<CpEntryView>, idx: u16) -> Seq<char> {
    match cp[idx - 1].info {
        CpInfoView::Utf8Info { bytes, .. } => utf8_lossy(bytes),
        _ => "<invalid>"@,
    }
}

/// The stack size, local count and code of the first `Code` attribute among `attrs`
/// (zeros and no code where there is none); `Stuck` where decoding an attribute up to
/// that one stops the loader.
pub open spec fn spec_find_code(attrs: Seq<AttributeInfoView>, cp: Seq<CpEntryView>) -> Parsed<
    (u16, u16, Seq<u8>),
>
    decreases attrs.len(),
{
    if attrs.len() == 0 {
        Parsed::Done((0, 0, Seq::empty()), 0)
    } else {
        match spec_attribute(attrs[0], cp) {
            Parsed::Stuck => Parsed::Stuck,
            Parsed::Done(AttributeView::Code { max_stack, max_locals, code, .. }, _) => Parsed::Done(
                (max_stack, max_locals, code),
                0,
            ),
            _ => spec_find_code(attrs.drop_first(), cp),
        }
    }
}

proof fn lemma_first_code(attrs: Seq<AttributeInfoView>, cp: Seq<CpEntryView>, k: int)
    requires
        0 <= k < attrs.len(),
        forall|j: int|
            0 <= j < k ==> (#[trigger] spec_attribute(attrs[j], cp) matches Parsed::Done(v, _) && !(
            v is Code)),
        spec_attribute(attrs[k], cp) matches Parsed::Done(AttributeView::Code { .. }, _),
    ensures
        spec_attribute(attrs[k], cp) matches Parsed::Done(
            AttributeView::Code { max_stack, max_locals, code, .. },
            _,
        ) && spec_find_code(attrs, cp) == Parsed::Done((max_stack, max_locals, code), 0),
    decreases k,
{
    if k > 0 {
        let rest = attrs.drop_first();
        assert forall|j: int| 0 <= j < k - 1 implies (#[trigger] spec_attribute(rest[j], cp) matches Parsed::Done(
            v,
            _,
        ) && !(v is Code)) by {
            assert(rest[j] == attrs[j + 1]);
        }
        assert(rest[k - 1] == attrs[k]);
        lemma_first_code(rest, cp, k - 1);
        assert(spec_attribute(attrs[0], cp) matches Parsed::Done(v, _) && !(v is Code));
    }
}

/// A method takes its stack size, its number of local variables and its code from the
/// first attribute among its attributes that decodes as a `Code` attribute: its
/// `max_stack` is that attribute's `max_stack`, its `max_locals` that attribute's
/// `max_locals`, its code that attribute's code.
pub proof fn law_method_takes_its_first_code_attribute(m: MemberView, cp: Seq<CpEntryView>, k: int)
    requires
        0 <= k < m.attributes.len(),
        forall|j: int|
            0 <= j < k ==> (#[trigger] spec_attribute(m.attributes[j], cp) matches Parsed::Done(
                v,
                _,
            ) && !(v is Code)),
        spec_attribute(m.attributes[k], cp) matches Parsed::Done(AttributeView::Code { .. }, _),
        index_ok(cp, m.name_index),
        index_ok(cp, m.descriptor_index),
    ensures
        spec_attribute(m.attributes[k], cp) matches Parsed::Done(
            AttributeView::Code { max_stack, max_locals, code, .. },
            _,
        ) && spec_method(m, cp) matches Some(method) && method.max_stack == max_stack
            && method.max_locals == max_locals && method.code == code,
{
    lemma_first_code(m.attributes, cp, k);
}

/// The method that the class file describes with `m` (`None` where the loader stops).
pub open spec fn spec_method(m: MemberView, cp: Seq<CpEntryView>) -> Option<MethodView> {
    if !index_ok(cp, m.name_index) || !index_ok(cp, m.descriptor_index) {
        None
    } else {
        match spec_find_code(m.attributes, cp) {
            Parsed::Done((ms, ml, code), _) => Some(
                MethodView {
                    name: spec_member_text(cp, m.name_index),
                    descriptor: spec_member_text(cp, m.descriptor_index),
                    access_flags: m.access_flags,
                    max_stack: ms,
                    max_locals: ml,
                    code,
                },
            ),
            _ => None,
        }
    }
}

/// The constant value after a `ConstantValue` attribute pointing at entry `#idx`:
/// the text of a `String` entry, the debug text of an entry of another kind.
pub open spec fn spec_cv_update(cp: Seq<CpEntryView>, idx: u16, cv: Option<Seq<char>>) -> Option<
    Seq<char>,
> {
    if !index_ok(cp, idx) {
        cv
    } else {
        match cp[idx - 1].info {
            CpInfoView::String { string_index } => if index_ok(cp, string_index) {
                match cp[string_index - 1].info {
                    CpInfoView::Utf8Info { bytes, .. } => Some(utf8_lossy(bytes)),
                    _ => cv,
                }
            } else {
                cv
            },
            other => Some(spec_debug_text(other)),
        }
    }
}

/// The constant value that the attributes `attrs` give a field, starting from `cv`;
/// `Stuck` where decoding one of them stops the loader.
pub open spec fn spec_constant_value(
    attrs: Seq<AttributeInfoView>,
    cp: Seq<CpEntryView>,
    cv: Option<Seq<char>>,
) -> Parsed<Option<Seq<char>>>
    decreases attrs.len(),
{
    if attrs.len() == 0 {
        Parsed::Done(cv, 0)
    } else {
        match spec_attribute(attrs[0], cp) {
            Parsed::Stuck => Parsed::Stuck,
            Parsed::Done(AttributeView::ConstantVale { constantvalue_index, .. }, _) =>
                spec_constant_value(
                attrs.drop_first(),
                cp,
                spec_cv_update(cp, constantvalue_index, cv),
            ),
            _ => spec_constant_value(attrs.drop_first(), cp, cv),
        }
    }
}

/// The field that the class file describes with `f` (`None` where the loader stops).
pub open spec fn spec_field(f: MemberView, cp: Seq<CpEntryView>) -> Option<FieldView> {
    if !index_ok(cp, f.name_index) || !index_ok(cp, f.descriptor_index) {
        None
    } else {
        match spec_constant_value(f.attributes, cp, None) {
            Parsed::Done(cv, _) => Some(
                FieldView {
                    name: spec_member_text(cp, f.name_index),
                    descriptor: spec_member_text(cp, f.descriptor_index),
                    access_flags: f.access_flags,
                    constant_value: cv,
                },
            ),
            _ => None,
        }
    }
}

/// The map from `keys[i]` to `vals[i]` for `i < n`, a later key replacing an earlier one.
pub open spec fn spec_index_map<V>(keys: Seq<u16>, vals: Seq<V>, n: nat) -> Map<u16, V>
    decreases n,
{
    if n == 0 {
        Map::empty()
    } else {
        spec_index_map(keys, vals, (n - 1) as nat).insert(keys[n - 1], vals[n - 1])
    }
}

/// The name indices of `members`.
pub open spec fn name_indices(members: Seq<MemberView>) -> Seq<u16> {
    members.map_values(|m: MemberView| m.name_index)
}

/// The class file `jc` can be turned into a class: the loader stops at none of its
/// methods and fields.
pub open spec fn spec_init_ok(jc: JavaClassView) -> bool {
    &&& forall|i: int|
        0 <= i < jc.methods.len() ==> #[trigger] spec_method(jc.methods[i], jc.constant_pool) is Some
    &&& forall|i: int|
        0 <= i < jc.field_info.len() ==> #[trigger] spec_field(jc.field_info[i], jc.constant_pool) is Some
}

/// `c` is the class that the class file `jc` describes.
pub open spec fn spec_class_of(jc: JavaClassView, c: ClassView) -> bool {
    &&& c.constant_pool == jc.constant_pool
    &&& c.methods.len() == jc.methods.len()
    &&& forall|i: int|
        0 <= i < jc.methods.len() ==> spec_method(jc.methods[i], jc.constant_pool) == Some(
            #[trigger] c.methods[i],
        )
    &&& c.fields.len() == jc.field_info.len()
    &&& forall|i: int|
        0 <= i < jc.field_info.len() ==> spec_field(jc.field_info[i], jc.constant_pool) == Some(
            #[trigger] c.fields[i],
        )
    &&& c.method_by_index == spec_index_map(
        name_indices(jc.methods),
        c.methods,
        jc.methods.len(),
    )
    &&& c.field_by_index == spec_index_map(
        name_indices(jc.field_info),
        c.fields,
        jc.field_info.len(),
    )
}

fn member_text(pool: &Vec<ConstantPoolInfo>, idx: u16) -> (r: String)
    requires
        index_ok(views(pool@), idx),
    ensures
        r@ == spec_member_text(views(pool@), idx),
{
    match &pool[(idx - 1) as usize].info {
        ConstantPoolPFieldInfo::Utf8Info { bytes, .. } => lossy_string(bytes.as_slice()),
        _ => message("<invalid>"),
    }
}

fn find_code(attrs: &Vec<crate::loader::attributes::AttributeInfo>, constant_pool: &ConstantPoolInfoTable) -> (r: Option<(u16, u16, Vec<u8>)>)
    ensures
        match r {
            Some((ms, ml, code)) => spec_find_code(views(attrs@), views(constant_pool@))
                == Parsed::Done((ms, ml, code@), 0),
            None => spec_find_code(views(attrs@), views(constant_pool@)) is Stuck,
        },
{
    let ghost all = views(attrs@);
    let ghost cp = views(constant_pool@);
    let mut i: usize = 0;
    assert(all.skip(0) =~= all);
    while i < attrs.len()
        invariant
            0 <= i <= attrs.len(),
            all == views(attrs@),
            cp == views(constant_pool@),
            spec_find_code(all, cp) == spec_find_code(all.skip(i as int), cp),
        decreases attrs.len() - i,
    {
        assert(all.skip(i as int)[0] == all[i as int]);
        assert(all.skip(i as int).drop_first() =~= all.skip(i + 1));
        match parse_attribute(&attrs[i], constant_pool) {
            Ok(Attribute::Code { max_stack, max_locals, code, .. }) => {
                return Some((max_stack, max_locals, code));
            },
            Ok(_) => {},
            Err(LoadFailure::Error(_)) => {},
            Err(LoadFailure::Stuck) => {
                return None;
            },
        }
        i = i + 1;
    }
    assert(all.skip(i as int) =~= Seq::<AttributeInfoView>::empty());
    Some((0, 0, Vec::new()))
}

fn update_constant_value(pool: &Vec<ConstantPoolInfo>, idx: u16, cv: Option<String>) -> (r: Option<String>)
    ensures
        opt_text(r) == spec_cv_update(views(pool@), idx, opt_text(cv)),
{
    let i = idx as usize;
    if !(i > 0 && i <= pool.len()) {
        return cv;
    }
    match &pool[i - 1].info {
        ConstantPoolPFieldInfo::String { string_index } => {
            let si = *string_index as usize;
            if si > 0 && si <= pool.len() {
                match &pool[si - 1].info {
                    ConstantPoolPFieldInfo::Utf8Info { bytes, .. } => Some(
                        lossy_string(bytes.as_slice()),
                    ),
                    _ => cv,
                }
            } else {
                cv
            }
        },
        other => Some(other.debug_text()),
    }
}

fn find_constant_value(attrs: &Vec<crate::loader::attributes::AttributeInfo>, constant_pool: &ConstantPoolInfoTable) -> (r: Option<Option<String>>)
    ensures
        match r {
            Some(cv) => spec_constant_value(views(attrs@), views(constant_pool@), None)
                == Parsed::Done(opt_text(cv), 0),
            None => spec_constant_value(views(attrs@), views(constant_pool@), None) is Stuck,
        },
{
    let ghost all = views(attrs@);
    let ghost cp = views(constant_pool@);
    let pool: &Vec<ConstantPoolInfo> = constant_pool;
    let mut constant_value: Option<String> = None;
    let mut i: usize = 0;
    assert(all.skip(0) =~= all);
    while i < attrs.len()
        invariant
            0 <= i <= attrs.len(),
            all == views(attrs@),
            cp == views(constant_pool@),
            cp == views(pool@),
            spec_constant_value(all, cp, None) == spec_constant_value(
                all.skip(i as int),
                cp,
                opt_text(constant_value),
            ),
        decreases attrs.len() - i,
    {
        assert(all.skip(i as int)[0] == all[i as int]);
        assert(all.skip(i as int).drop_first() =~= all.skip(i + 1));
        match parse_attribute(&attrs[i], constant_pool) {
            Ok(Attribute::ConstantVale { constantvalue_index, .. }) => {
                constant_value = update_constant_value(pool, constantvalue_index, constant_value);
            },
            Ok(_) => {},
            Err(LoadFailure::Error(_)) => {},
            Err(LoadFailure::Stuck) => {
                return None;
            },
        }
        i = i + 1;
    }
    assert(all.skip(i as int) =~= Seq::<AttributeInfoView>::empty());
    Some(constant_value)
}


proof fn lemma_index_map_prefix<V>(keys: Seq<u16>, a: Seq<V>, b: Seq<V>, n: nat)
    requires
        n <= a.len(),
        n <= b.len(),
        forall|j: int| 0 <= j < n ==> a[j] == b[j],
    ensures
        spec_index_map(keys, a, n) == spec_index_map(keys, b, n),
    decreases n,
{
    if n > 0 {
        lemma_index_map_prefix(keys, a, b, (n - 1) as nat);
    }
}

/// Every method of `jc` can be built.
pub open spec fn methods_ok(jc: JavaClassView) -> bool {
    forall|i: int|
        0 <= i < jc.methods.len() ==> #[trigger] spec_method(jc.methods[i], jc.constant_pool) is Some
}

/// Every field of `jc` can be built.
pub open spec fn fields_ok(jc: JavaClassView) -> bool {
    forall|i: int|
        0 <= i < jc.field_info.len() ==> #[trigger] spec_field(jc.field_info[i], jc.constant_pool) is Some
}

/// The method that `m` describes, `None` where the loader stops on it.
fn build_method(m: &crate::loader::java_class::MethodInfo, constant_pool: &ConstantPoolInfoTable) -> (r: Option<MethodPtr>)
    ensures
        match r {
            Some(method) => spec_method(m@, views(constant_pool@)) == Some(method@),
            None => spec_method(m@, views(constant_pool@)) is None,
        },
{
    let pool: &Vec<ConstantPoolInfo> = constant_pool;
    if m.name_index == 0 || m.name_index as usize > pool.len() || m.descriptor_index == 0
        || m.descriptor_index as usize > pool.len() {
        return None;
    }
    let name = member_text(pool, m.name_index);
    let descriptor = member_text(pool, m.descriptor_index);
    let (max_stack, max_locals, code) = match find_code(&m.attributes, constant_pool) {
        Some(found) => found,
        None => {
            return None;
        },
    };
    Some(
        Rc::new(
            Method {
                name,
                descriptor,
                access_flags: AccessFlags::from_bits(m.access_flags),
                max_stack,
                max_locals,
                code,
            },
        ),
    )
}

/// The field that `f` describes, `None` where the loader stops on it.
fn build_field(f: &crate::loader::java_class::FieldInfo, constant_pool: &ConstantPoolInfoTable) -> (r: Option<FieldPtr>)
    ensures
        match r {
            Some(field) => spec_field(f@, views(constant_pool@)) == Some(field@),
            None => spec_field(f@, views(constant_pool@)) is None,
        },
{
    let pool: &Vec<ConstantPoolInfo> = constant_pool;
    if f.name_index == 0 || f.name_index as usize > pool.len() || f.descriptor_index == 0
        || f.descriptor_index as usize > pool.len() {
        return None;
    }
    let name = member_text(pool, f.name_index);
    let descriptor = member_text(pool, f.descriptor_index);
    let constant_value = match find_constant_value(&f.attributes, constant_pool) {
        Some(cv) => cv,
        None => {
            return None;
        },
    };
    Some(
        Rc::new(
            Field {
                name,
                descriptor,
                access_flags: AccessFlags::from_bits(f.access_flags),
                constant_value,
            },
        ),
    )
}

impl Class {
    /// The methods of `class_info`, in order, and keyed by the index of their names
    /// (`None` where a method cannot be built).
    fn load_methods(class_info: &JavaClass) -> (r: Option<(Vec<MethodPtr>, HashMap<u16, MethodPtr>)>)
        ensures
            r is Some <==> methods_ok(class_info@),
            r matches Some((ms, by_index)) ==> {
                &&& ms@.len() == class_info@.methods.len()
                &&& forall|i: int|
                    0 <= i < ms@.len() ==> spec_method(class_info@.methods[i], class_info@.constant_pool)
                        == Some(#[trigger] ms@[i]@)
                &&& by_index@.map_values(|m: MethodPtr| m@) == spec_index_map(
                    name_indices(class_info@.methods),
                    views(ms@),
                    ms@.len(),
                )
            },
    {
        let ghost jc = class_info@;
        let pool: &Vec<ConstantPoolInfo> = &class_info.constant_pool;
        let mut methods: Vec<MethodPtr> = Vec::new();
        let mut method_by_index: HashMap<u16, MethodPtr> = HashMap::new();
        let mut i: usize = 0;
        while i < class_info.methods.len()
            invariant
                0 <= i <= class_info.methods.len(),
                jc == class_info@,
                views(pool@) == jc.constant_pool,
                methods@.len() == i,
                forall|j: int|
                    0 <= j < i ==> spec_method(jc.methods[j], jc.constant_pool) == Some(
                        #[trigger] methods@[j]@,
                    ),
                method_by_index@.map_values(|m: MethodPtr| m@) == spec_index_map(
                    name_indices(jc.methods),
                    views(methods@),
                    i as nat,
                ),
            decreases class_info.methods.len() - i,
        {
            let m = &class_info.methods[i];
            assert(jc.methods[i as int] == m@);
            let method = match build_method(m, &class_info.constant_pool) {
                Some(built) => built,
                None => {
                    return None;
                },
            };
            let ghost old_methods = methods@;
            let ghost old_map = method_by_index@;
            method_by_index.insert(m.name_index, method.clone());
            methods.push(method);
            proof {
                assert(methods@[i as int]@ == spec_method(jc.methods[i as int], jc.constant_pool)->0);
                assert(views(methods@) =~= views(old_methods).push(method@));
                lemma_index_map_prefix(
                    name_indices(jc.methods),
                    views(old_methods),
                    views(methods@),
                    i as nat,
                );
                assert(name_indices(jc.methods)[i as int] == m.name_index);
                assert(method_by_index@.map_values(|m: MethodPtr| m@) =~= old_map.map_values(
                    |m: MethodPtr| m@,
                ).insert(m.name_index, method@));
            }
            i = i + 1;
        }
        assert forall|j: int| 0 <= j < jc.methods.len() implies #[trigger] spec_method(
            jc.methods[j],
            jc.constant_pool,
        ) is Some by {
            assert(spec_method(jc.methods[j], jc.constant_pool) == Some(methods@[j]@));
        }
        Some((methods, method_by_index))
    }

    /// The fields of `class_info`, in order, and keyed by the index of their names
    /// (`None` where a field cannot be built).
    fn load_fields(class_info: &JavaClass) -> (r: Option<(Vec<FieldPtr>, HashMap<u16, FieldPtr>)>)
        ensures
            r is Some <==> fields_ok(class_info@),
            r matches Some((fs, by_index)) ==> {
                &&& fs@.len() == class_info@.field_info.len()
                &&& forall|i: int|
                    0 <= i < fs@.len() ==> spec_field(class_info@.field_info[i], class_info@.constant_pool)
                        == Some(#[trigger] fs@[i]@)
                &&& by_index@.map_values(|f: FieldPtr| f@) == spec_index_map(
                    name_indices(class_info@.field_info),
                    views(fs@),
                    fs@.len(),
                )
            },
    {
        let ghost jc = class_info@;
        let pool: &Vec<ConstantPoolInfo> = &class_info.constant_pool;
        let mut fields: Vec<FieldPtr> = Vec::new();
        let mut field_by_index: HashMap<u16, FieldPtr> = HashMap::new();
        let mut i: usize = 0;
        while i < class_info.field_info.len()
            invariant
                0 <= i <= class_info.field_info.len(),
                jc == class_info@,
                views(pool@) == jc.constant_pool,
                fields@.len() == i,
                forall|j: int|
                    0 <= j < i ==> spec_field(jc.field_info[j], jc.constant_pool) == Some(
                        #[trigger] fields@[j]@,
                    ),
                field_by_index@.map_values(|f: FieldPtr| f@) == spec_index_map(
                    name_indices(jc.field_info),
                    views(fields@),
                    i as nat,
                ),
            decreases class_info.field_info.len() - i,
        {
            let f = &class_info.field_info[i];
            assert(jc.field_info[i as int] == f@);
            let field = match build_field(f, &class_info.constant_pool) {
                Some(built) => built,
                None => {
                    return None;
                },
            };
            let ghost old_fields = fields@;
            let ghost old_map = field_by_index@;
            field_by_index.insert(f.name_index, field.clone());
            fields.push(field);
            proof {
                assert(fields@[i as int]@ == spec_field(jc.field_info[i as int], jc.constant_pool)->0);
                assert(views(fields@) =~= views(old_fields).push(field@));
                lemma_index_map_prefix(
                    name_indices(jc.field_info),
                    views(old_fields),
                    views(fields@),
                    i as nat,
                );
                assert(name_indices(jc.field_info)[i as int] == f.name_index);
                assert(field_by_index@.map_values(|f: FieldPtr| f@) =~= old_map.map_values(
                    |f: FieldPtr| f@,
                ).insert(f.name_index, field@));
            }
            i = i + 1;
        }
        assert forall|j: int| 0 <= j < jc.field_info.len() implies #[trigger] spec_field(
            jc.field_info[j],
            jc.constant_pool,
        ) is Some by {
            assert(spec_field(jc.field_info[j], jc.constant_pool) == Some(fields@[j]@));
        }
        Some((fields, field_by_index))
    }

    /// The class that the class file `class_info` describes. Every method and field of
    /// it must be buildable (see [`Class::try_init`] for a version that checks this).
    pub fn init(class_info: &JavaClass) -> (r: ClassPtr)
        requires
            spec_init_ok(class_info@),
        ensures
            spec_class_of(class_info@, r@),
    {
        match Class::try_init(class_info) {
            Some(c) => c,
            None => {
                proof {
                    assert(methods_ok(class_info@));
                    assert(fields_ok(class_info@));
                }
                vstd::pervasive::unreached()
            },
        }
    }

    /// The class that the class file `class_info` describes, or `None` where one of its
    /// methods or fields cannot be built (a name or descriptor index outside the constant
    /// pool, or an attribute whose decoding cannot go on).
    pub fn try_init(class_info: &JavaClass) -> (r: Option<ClassPtr>)
        ensures
            r is Some <==> spec_init_ok(class_info@),
            r matches Some(c) ==> spec_class_of(class_info@, c@),
    {
        let (methods, method_by_index) = match Class::load_methods(class_info) {
            Some(p) => p,
            None => {
                return None;
            },
        };
        let (fields, field_by_index) = match Class::load_fields(class_info) {
            Some(p) => p,
            None => {
                return None;
            },
        };
        let c = Class {
            constant_pool: class_info.constant_pool.clone(),
            methods,
            fields,
            method_by_index,
            field_by_index,
        };
        proof {
            assert(views(c.methods@).len() == c.methods@.len());
        }
        Some(Rc::new(c))
    }
}


impl Class {
    /// The name index of a method called `name`, if the class has one (which one of
    /// several is left open: the map is walked in no particular order).
    pub fn find_method_index_by_name(&self, name: &str) -> (r: Option<u16>)
        ensures
            match r {
                Some(idx) => self.method_by_index@.contains_key(idx)
                    && self.method_by_index@[idx]@.name == name@,
                None => forall|k: u16| #[trigger]
                    self.method_by_index@.contains_key(k) ==> self.method_by_index@[k]@.name
                        != name@,
            },
    {
        let target = String::from_str(name);
        let ghost keys = vstd::std_specs::iter::IteratorSpec::remaining(
            &vstd::std_specs::hash::spec_keys_iter(&self.method_by_index),
        );
        for k in it: self.method_by_index.keys()
            invariant
                target@ == name@,
                it.seq() == keys,
                keys.unref().to_set() == self.method_by_index@.dom(),
                forall|j: int|
                    0 <= j < it.index() ==> self.method_by_index@[*#[trigger] keys[j]]@.name != name@,
        {
            assert(keys.unref().to_set().contains(*k));
            match self.method_by_index.get(k) {
                Some(m) => {
                    if m.name == target {
                        return Some(*k);
                    }
                },
                None => {},
            }
        }
        assert forall|k: u16| #[trigger]
            self.method_by_index@.contains_key(k) implies self.method_by_index@[k]@.name
            != name@ by {
            assert(keys.unref().to_set().contains(k));
            let j = keys.unref().index_of(k);
            assert(keys.unref()[j] == k);
        }
        None
    }
}

} // verus!
