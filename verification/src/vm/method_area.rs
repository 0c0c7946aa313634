use crate::vm::class::{spec_join_identifier, ClassPtr, FieldPtr, MethodPtr, MethodReference};
use crate::vm::errors::{RunTimeError, RunTimeErrorView};
use crate::vm::name_table::NameTable;
use std::rc::Rc;
use vstd::prelude::*;
use vstd::string::{StrSliceExecFns, StringExecFns};

verus! {

/// The loaded classes, by name, and the methods and fields resolved so far, by their
/// identifiers (`Class.nameDescriptor`).
pub struct MethodArea {
    pub class_constant_pool_map: NameTable<ClassPtr>,
    pub resolved_methods: NameTable<MethodReference>,
    pub resolved_fields: NameTable<FieldPtr>,
}

/// A resolved method as the method and the class that holds it.
pub open spec fn ref_parts(r: MethodReference) -> (MethodPtr, ClassPtr) {
    (r.spec_method(), r.spec_class())
}

/// The methods of `c` from the first to the `n`-th registered in `m` under their
/// identifiers `name.methodDescriptor`.
pub open spec fn spec_register_methods(
    m: Map<Seq<char>, (MethodPtr, ClassPtr)>,
    name: Seq<char>,
    c: ClassPtr,
    n: nat,
) -> Map<Seq<char>, (MethodPtr, ClassPtr)>
    decreases n,
{
    if n == 0 || n > c.methods@.len() {
        m
    } else {
        let meth = c.methods@[n - 1];
        spec_register_methods(m, name, c, (n - 1) as nat).insert(
            spec_join_identifier(name, meth.name@, meth.descriptor@),
            (meth, c),
        )
    }
}

/// The fields of `c` from the first to the `n`-th registered in `m` under their
/// identifiers `name.fieldDescriptor`.
pub open spec fn spec_register_fields(
    m: Map<Seq<char>, FieldPtr>,
    name: Seq<char>,
    c: ClassPtr,
    n: nat,
) -> Map<Seq<char>, FieldPtr>
    decreases n,
{
    if n == 0 || n > c.fields@.len() {
        m
    } else {
        let f = c.fields@[n - 1];
        spec_register_fields(m, name, c, (n - 1) as nat).insert(
            spec_join_identifier(name, f.name@, f.descriptor@),
            f,
        )
    }
}

/// The message of the error for a method that is not resolved.
pub open spec fn spec_unresolved_text(identifier: Seq<char>) -> Seq<char> {
    "Method "@ + identifier + " not found"@
}

impl MethodArea {
    /// The tables are well formed.
    pub open spec fn wf(&self) -> bool {
        &&& self.class_constant_pool_map.wf()
        &&& self.resolved_methods.wf()
        &&& self.resolved_fields.wf()
    }

    /// The loaded classes by name.
    pub open spec fn classes(&self) -> Map<Seq<char>, ClassPtr> {
        self.class_constant_pool_map@
    }

    /// The resolved methods by identifier.
    pub open spec fn methods(&self) -> Map<Seq<char>, (MethodPtr, ClassPtr)> {
        self.resolved_methods@.map_values(|r: MethodReference| ref_parts(r))
    }

    /// The resolved fields by identifier.
    pub open spec fn fields(&self) -> Map<Seq<char>, FieldPtr> {
        self.resolved_fields@
    }

    /// An empty method area.
    pub fn new() -> (r: MethodArea)
        ensures
            r.wf(),
            r.classes() == Map::<Seq<char>, ClassPtr>::empty(),
            r.methods() == Map::<Seq<char>, (MethodPtr, ClassPtr)>::empty(),
            r.fields() == Map::<Seq<char>, FieldPtr>::empty(),
    {
        let r = MethodArea {
            class_constant_pool_map: NameTable::new(),
            resolved_methods: NameTable::new(),
            resolved_fields: NameTable::new(),
        };
        assert(r.methods() =~= Map::<Seq<char>, (MethodPtr, ClassPtr)>::empty());
        r
    }

    /// Loads the class `pool` under `class_name` and resolves its methods and fields.
    pub fn insert(&mut self, class_name: String, pool: ClassPtr)
        requires
            old(self).wf(),
        ensures
            final(self).wf(),
            final(self).classes() == old(self).classes().insert(class_name@, pool),
            final(self).classes().len() == old(self).classes().len() + (if old(self).classes().contains_key(
                class_name@,
            ) {
                0int
            } else {
                1int
            }),
            final(self).methods() == spec_register_methods(
                old(self).methods(),
                class_name@,
                pool,
                pool.methods@.len(),
            ),
            final(self).fields() == spec_register_fields(
                old(self).fields(),
                class_name@,
                pool,
                pool.fields@.len(),
            ),
    {
        self.insert_resolved_for_class(&class_name, &pool);
        self.class_constant_pool_map.insert(class_name, pool);
    }

    /// The method resolved under `identifier`, if there is one.
    pub fn get_resolved_method(&self, identifier: &str) -> (r: Option<&MethodReference>)
        requires
            self.wf(),
        ensures
            match r {
                Some(m) => self.methods().contains_key(identifier@) && ref_parts(*m)
                    == self.methods()[identifier@],
                None => !self.methods().contains_key(identifier@),
            },
    {
        self.resolved_methods.get(identifier)
    }

    /// Resolves `identifier` to `reference`.
    pub fn insert_resolved_method(&mut self, identifier: String, reference: MethodReference)
        requires
            old(self).wf(),
        ensures
            final(self).wf(),
            final(self).methods() == old(self).methods().insert(identifier@, ref_parts(reference)),
            final(self).classes() == old(self).classes(),
            final(self).fields() == old(self).fields(),
    {
        self.resolved_methods.insert(identifier, reference);
        proof {
            assert(self.methods() =~= old(self).methods().insert(identifier@, ref_parts(reference)));
        }
    }

    /// Resolves every method and field of `class_ptr` under its identifier
    /// `class_name.nameDescriptor`.
    pub fn insert_resolved_for_class(&mut self, class_name: &String, class_ptr: &ClassPtr)
        requires
            old(self).wf(),
        ensures
            final(self).wf(),
            final(self).methods() == spec_register_methods(
                old(self).methods(),
                class_name@,
                *class_ptr,
                class_ptr.methods@.len(),
            ),
            final(self).fields() == spec_register_fields(
                old(self).fields(),
                class_name@,
                *class_ptr,
                class_ptr.fields@.len(),
            ),
            final(self).classes() == old(self).classes(),
    {
        let mut i: usize = 0;
        while i < class_ptr.methods.len()
            invariant
                i <= class_ptr.methods@.len(),
                self.wf(),
                self.methods() == spec_register_methods(
                    old(self).methods(),
                    class_name@,
                    *class_ptr,
                    i as nat,
                ),
                self.fields() == old(self).fields(),
                self.classes() == old(self).classes(),
            decreases class_ptr.methods.len() - i,
        {
            let method = &class_ptr.methods[i];
            let mut identifier = class_name.clone();
            identifier.append(".");
            identifier.append(method.name.as_str());
            identifier.append(method.descriptor.as_str());
            let reference = MethodReference::new(Rc::clone(method), Rc::clone(class_ptr));
            let ghost before = self.methods();
            self.resolved_methods.insert(identifier, reference);
            proof {
                assert(self.methods() =~= before.insert(identifier@, ref_parts(reference)));
            }
            i = i + 1;
        }
        let mut j: usize = 0;
        while j < class_ptr.fields.len()
            invariant
                j <= class_ptr.fields@.len(),
                self.wf(),
                self.methods() == spec_register_methods(
                    old(self).methods(),
                    class_name@,
                    *class_ptr,
                    class_ptr.methods@.len(),
                ),
                self.fields() == spec_register_fields(
                    old(self).fields(),
                    class_name@,
                    *class_ptr,
                    j as nat,
                ),
                self.classes() == old(self).classes(),
            decreases class_ptr.fields.len() - j,
        {
            let field = &class_ptr.fields[j];
            let mut identifier = class_name.clone();
            identifier.append(".");
            identifier.append(field.name.as_str());
            identifier.append(field.descriptor.as_str());
            self.resolved_fields.insert(identifier, Rc::clone(field));
            j = j + 1;
        }
    }

    /// The field resolved under `identifier`, if there is one.
    pub fn get_resolved_field(&self, identifier: &str) -> (r: Option<&FieldPtr>)
        requires
            self.wf(),
        ensures
            match r {
                Some(f) => self.fields().contains_key(identifier@) && *f
                    == self.fields()[identifier@],
                None => !self.fields().contains_key(identifier@),
            },
    {
        self.resolved_fields.get(identifier)
    }

    /// The method resolved under `identifier`, or an error where there is none.
    pub fn resolve(&self, identifier: &str) -> (r: Result<MethodReference, RunTimeError>)
        requires
            self.wf(),
        ensures
            match r {
                Ok(m) => self.methods().contains_key(identifier@) && ref_parts(m)
                    == self.methods()[identifier@],
                Err(e) => !self.methods().contains_key(identifier@) && e@
                    == RunTimeErrorView::ResolveMethodError(spec_unresolved_text(identifier@)),
            },
    {
        match self.resolved_methods.get(identifier) {
            Some(m) => Ok(MethodReference::new(m.method(), m.class())),
            None => {
                let mut text = String::from_str("Method ");
                text.append(identifier);
                text.append(" not found");
                Err(RunTimeError::ResolveMethodError(text))
            },
        }
    }

    /// The class loaded under `class_name`, if there is one.
    pub fn get(&self, class_name: &str) -> (r: Option<&ClassPtr>)
        requires
            self.wf(),
        ensures
            match r {
                Some(c) => self.classes().contains_key(class_name@) && *c
                    == self.classes()[class_name@],
                None => !self.classes().contains_key(class_name@),
            },
    {
        self.class_constant_pool_map.get(class_name)
    }

    /// Unloads the class `class_name`, and gives it.
    pub fn remove(&mut self, class_name: &str) -> (r: Option<ClassPtr>)
        requires
            old(self).wf(),
        ensures
            final(self).wf(),
            final(self).classes() == old(self).classes().remove(class_name@),
            final(self).classes().len() == old(self).classes().len() - (if old(self).classes().contains_key(
                class_name@,
            ) {
                1int
            } else {
                0int
            }),
            r == (if old(self).classes().contains_key(class_name@) {
                Some(old(self).classes()[class_name@])
            } else {
                None::<ClassPtr>
            }),
            final(self).methods() == old(self).methods(),
            final(self).fields() == old(self).fields(),
    {
        self.class_constant_pool_map.remove(class_name)
    }

    /// A class is loaded under `class_name`.
    pub fn contains(&self, class_name: &str) -> (r: bool)
        requires
            self.wf(),
        ensures
            r == self.classes().contains_key(class_name@),
    {
        self.class_constant_pool_map.contains(class_name)
    }

    /// The number of loaded classes.
    pub fn len(&self) -> (r: usize)
        requires
            self.wf(),
        ensures
            r == self.classes().len(),
    {
        self.class_constant_pool_map.len()
    }
}

/// The end of the `;`-terminated class name that goes on from `i` of `d` (just past the
/// `;`, or the end of `d` where there is none).
pub open spec fn spec_name_end(d: Seq<char>, i: int) -> int
    decreases d.len() - i,
{
    if i < 0 || i >= d.len() {
        d.len() as int
    } else if d[i] == ';' {
        i + 1
    } else {
        spec_name_end(d, i + 1)
    }
}

/// The end of the field type that starts at `i` of `d`: past any `[`, then past one
/// base-type letter, or past a whole `L...;` class type.
pub open spec fn spec_type_end(d: Seq<char>, i: int) -> int
    decreases d.len() - i,
{
    if i < 0 || i >= d.len() {
        d.len() as int
    } else if d[i] == '[' {
        spec_type_end(d, i + 1)
    } else if d[i] == 'L' {
        spec_name_end(d, i + 1)
    } else {
        i + 1
    }
}

/// The parameter types that `d` lists from `i` on, up to a `)` or its end.
pub open spec fn spec_params_from(d: Seq<char>, i: int) -> Seq<Seq<char>>
    decreases d.len() - i,
{
    if i < 0 || i >= d.len() || d[i] == ')' {
        Seq::empty()
    } else {
        let e = spec_type_end(d, i);
        if e <= i || e > d.len() {
            Seq::empty()
        } else {
            seq![d.subrange(i, e)] + spec_params_from(d, e)
        }
    }
}

/// The parameter types of the method descriptor `d` (`(I[JLjava/lang/String;)V` lists
/// `I`, `[J` and `Ljava/lang/String;`).
pub open spec fn spec_params(d: Seq<char>) -> Seq<Seq<char>> {
    if d.len() > 0 && d[0] == '(' {
        spec_params_from(d, 1)
    } else {
        spec_params_from(d, 0)
    }
}

proof fn lemma_name_end_bounds(d: Seq<char>, i: int)
    requires
        0 <= i <= d.len(),
    ensures
        i <= spec_name_end(d, i) <= d.len(),
    decreases d.len() - i,
{
    if i < d.len() && d[i] != ';' {
        lemma_name_end_bounds(d, i + 1);
    }
}

proof fn lemma_type_end_bounds(d: Seq<char>, i: int)
    requires
        0 <= i < d.len(),
    ensures
        i < spec_type_end(d, i) <= d.len(),
    decreases d.len() - i,
{
    if d[i] == '[' {
        if i + 1 < d.len() {
            lemma_type_end_bounds(d, i + 1);
        } else {
            assert(spec_type_end(d, i + 1) == d.len());
        }
    } else if d[i] == 'L' {
        lemma_name_end_bounds(d, i + 1);
    }
}

impl MethodArea {
    /// The parameter types of the method descriptor `descriptor`, in order.
    pub fn parse_params(descriptor: &str) -> (r: Vec<String>)
        ensures
            r@.map_values(|p: String| p@) == spec_params(descriptor@),
    {
        let ghost d = descriptor@;
        let n = descriptor.unicode_len();
        let mut i: usize = 0;
        if n > 0 && descriptor.get_char(0) == '(' {
            i = 1;
        }
        let mut params: Vec<String> = Vec::new();
        assert(params@.map_values(|p: String| p@) =~= Seq::<Seq<char>>::empty());
        while i < n && descriptor.get_char(i) != ')'
            invariant
                n == d.len(),
                d == descriptor@,
                i <= n,
                spec_params(d) == params@.map_values(|p: String| p@) + spec_params_from(d, i as int),
            decreases n - i,
        {
            let start = i;
            proof {
                lemma_type_end_bounds(d, start as int);
            }
            while i < n && descriptor.get_char(i) == '['
                invariant
                    n == d.len(),
                    d == descriptor@,
                    start <= i <= n,
                    spec_type_end(d, start as int) == spec_type_end(d, i as int),
                decreases n - i,
            {
                i = i + 1;
            }
            if i < n {
                if descriptor.get_char(i) == 'L' {
                    i = i + 1;
                    while i < n && descriptor.get_char(i) != ';'
                        invariant
                            n == d.len(),
                            d == descriptor@,
                            start < i <= n,
                            spec_type_end(d, start as int) == spec_name_end(d, i as int),
                        decreases n - i,
                    {
                        i = i + 1;
                    }
                    if i < n {
                        i = i + 1;
                    }
                } else {
                    i = i + 1;
                }
            }
            assert(i as int == spec_type_end(d, start as int));
            let param = String::from_str(descriptor.substring_char(start, i));
            let ghost before = params@.map_values(|p: String| p@);
            params.push(param);
            assert(params@.map_values(|p: String| p@) =~= before.push(param@));
            assert(before + spec_params_from(d, start as int) =~= params@.map_values(
                |p: String| p@,
            ) + spec_params_from(d, i as int));
        }
        assert(spec_params_from(d, i as int) =~= Seq::<Seq<char>>::empty());
        assert(params@.map_values(|p: String| p@) + Seq::<Seq<char>>::empty() =~= params@.map_values(
            |p: String| p@,
        ));
        params
    }
}

/// Loading the class `c` under `name` resolves each of its methods: under the method's
/// identifier `name.methodDescriptor` stands a method of `c` with that identifier.
pub proof fn law_loaded_methods_resolve(
    m: Map<Seq<char>, (MethodPtr, ClassPtr)>,
    name: Seq<char>,
    c: ClassPtr,
    i: int,
    n: nat,
)
    requires
        0 <= i < n <= c.methods@.len(),
    ensures
        ({
            let meth = c.methods@[i];
            let id = spec_join_identifier(name, meth.name@, meth.descriptor@);
            let after = spec_register_methods(m, name, c, n);
            &&& after.contains_key(id)
            &&& after[id].1 == c
            &&& spec_join_identifier(name, after[id].0.name@, after[id].0.descriptor@) == id
        }),
    decreases n,
{
    if n > i + 1 {
        law_loaded_methods_resolve(m, name, c, i, (n - 1) as nat);
    }
}

/// Loading the class `c` under `name` resolves each of its fields: under the field's
/// identifier `name.fieldDescriptor` stands a field with that identifier.
pub proof fn law_loaded_fields_resolve(
    m: Map<Seq<char>, FieldPtr>,
    name: Seq<char>,
    c: ClassPtr,
    i: int,
    n: nat,
)
    requires
        0 <= i < n <= c.fields@.len(),
    ensures
        ({
            let f = c.fields@[i];
            let id = spec_join_identifier(name, f.name@, f.descriptor@);
            let after = spec_register_fields(m, name, c, n);
            &&& after.contains_key(id)
            &&& spec_join_identifier(name, after[id].name@, after[id].descriptor@) == id
        }),
    decreases n,
{
    if n > i + 1 {
        law_loaded_fields_resolve(m, name, c, i, (n - 1) as nat);
    }
}

} // verus!
