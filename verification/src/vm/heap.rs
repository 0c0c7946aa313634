use crate::vm::name_table::NameTable;
use crate::vm::types::Type;
use vstd::prelude::*;
use vstd::string::StringExecFns;

verus! {

/// The id under which the heap keeps an object or an array; the reference manager hands
/// it out.
pub type HeapId = usize;

/// An object on the heap: the name of its class and its fields by name.
pub struct Object {
    pub class_name: String,
    pub fields: NameTable<Type>,
}

/// The value of an [`Object`].
pub struct ObjectView {
    pub class_name: Seq<char>,
    pub fields: Map<Seq<char>, Type>,
}

impl View for Object {
    type V = ObjectView;

    open spec fn view(&self) -> ObjectView {
        ObjectView { class_name: self.class_name@, fields: self.fields@ }
    }
}

impl Object {
    /// The table of fields is well formed.
    pub open spec fn wf(&self) -> bool {
        self.fields.wf()
    }

    /// An object of the class `class_name` without fields.
    pub fn new(class_name: &str) -> (r: Self)
        ensures
            r.wf(),
            r@ == (ObjectView { class_name: class_name@, fields: Map::empty() }),
    {
        Self { class_name: String::from_str(class_name), fields: NameTable::new() }
    }

    /// The value of the field `name`, if the object has it.
    pub fn get_field(&self, name: &str) -> (r: Option<&Type>)
        requires
            self.wf(),
        ensures
            match r {
                Some(v) => self@.fields.contains_key(name@) && *v == self@.fields[name@],
                None => !self@.fields.contains_key(name@),
            },
    {
        self.fields.get(name)
    }

    /// Sets the field `name` to `value`, adding the field where the object lacks it.
    pub fn set_field(&mut self, name: &str, value: Type)
        requires
            old(self).wf(),
        ensures
            final(self).wf(),
            final(self)@ == (ObjectView {
                fields: old(self)@.fields.insert(name@, value),
                ..old(self)@
            }),
    {
        self.fields.insert(String::from_str(name), value);
    }
}

/// An array on the heap: the descriptor of its elements and the elements.
pub struct Array {
    pub element_descriptor: String,
    pub elements: Vec<Type>,
}

/// The value of an [`Array`].
pub struct ArrayView {
    pub element_descriptor: Seq<char>,
    pub elements: Seq<Type>,
}

impl View for Array {
    type V = ArrayView;

    open spec fn view(&self) -> ArrayView {
        ArrayView { element_descriptor: self.element_descriptor@, elements: self.elements@ }
    }
}

impl Array {
    /// An array of `len` elements, each `null`.
    pub fn new(element_descriptor: &str, len: usize) -> (r: Self)
        ensures
            r@ == (ArrayView {
                element_descriptor: element_descriptor@,
                elements: Seq::new(len as nat, |i: int| Type::Null),
            }),
    {
        let mut elements: Vec<Type> = Vec::new();
        let mut i: usize = 0;
        while i < len
            invariant
                i <= len,
                elements@ == Seq::new(i as nat, |j: int| Type::Null),
            decreases len - i,
        {
            elements.push(Type::Null);
            i = i + 1;
            assert(elements@ =~= Seq::new(i as nat, |j: int| Type::Null));
        }
        Self { element_descriptor: String::from_str(element_descriptor), elements }
    }

    /// The number of elements.
    pub fn len(&self) -> (r: usize)
        ensures
            r == self@.elements.len(),
    {
        self.elements.len()
    }

    /// The element at `index`, if the array has one there.
    pub fn get(&self, index: usize) -> (r: Option<&Type>)
        ensures
            r == (if index < self@.elements.len() {
                Some(&self@.elements[index as int])
            } else {
                None
            }),
    {
        if index < self.elements.len() {
            Some(&self.elements[index])
        } else {
            None
        }
    }

    /// Sets the element at `index` to `value`; `None`, with the array unchanged, where
    /// it has no element there.
    pub fn set(&mut self, index: usize, value: Type) -> (r: Option<()>)
        ensures
            index < old(self)@.elements.len() ==> r == Some(()) && final(self)@ == (ArrayView {
                elements: old(self)@.elements.update(index as int, value),
                ..old(self)@
            }),
            index >= old(self)@.elements.len() ==> r == None::<()> && final(self)@ == old(self)@,
    {
        if index < self.elements.len() {
            self.elements.set(index, value);
            Some(())
        } else {
            None
        }
    }
}

/// What the heap keeps under an id.
pub enum HeapEntry {
    Object(Object),
    Array(Array),
}

/// The value of a [`HeapEntry`].
pub enum HeapEntryView {
    Object(ObjectView),
    Array(ArrayView),
}

impl View for HeapEntry {
    type V = HeapEntryView;

    open spec fn view(&self) -> HeapEntryView {
        match self {
            HeapEntry::Object(o) => HeapEntryView::Object(o@),
            HeapEntry::Array(a) => HeapEntryView::Array(a@),
        }
    }
}

/// An entry is well formed: an object's table of fields is.
pub open spec fn entry_wf(e: HeapEntry) -> bool {
    match e {
        HeapEntry::Object(o) => o.wf(),
        HeapEntry::Array(_) => true,
    }
}

/// The objects and arrays of the interpreter, each under its id.
pub struct Heap {
    entries: Vec<(HeapId, HeapEntry)>,
}

/// The ids of the entries `s`, in order.
pub open spec fn ids_of(s: Seq<(HeapId, HeapEntry)>) -> Seq<HeapId> {
    s.map_values(|e: (HeapId, HeapEntry)| e.0)
}

/// The map from each id of `s` to the value of the entry kept under it.
pub open spec fn heap_view(s: Seq<(HeapId, HeapEntry)>) -> Map<HeapId, HeapEntryView> {
    Map::new(|k: HeapId| ids_of(s).contains(k), |k: HeapId| s[ids_of(s).index_of(k)].1@)
}

impl View for Heap {
    type V = Map<HeapId, HeapEntryView>;

    closed spec fn view(&self) -> Map<HeapId, HeapEntryView> {
        heap_view(self.entries@)
    }
}

proof fn lemma_index_of(s: Seq<(HeapId, HeapEntry)>, i: int)
    requires
        ids_of(s).no_duplicates(),
        0 <= i < s.len(),
    ensures
        ids_of(s).contains(s[i].0),
        ids_of(s).index_of(s[i].0) == i,
        heap_view(s).contains_key(s[i].0),
        heap_view(s)[s[i].0] == s[i].1@,
{
    assert(ids_of(s)[i] == s[i].0);
}

proof fn lemma_contains_at(s: Seq<(HeapId, HeapEntry)>, k: HeapId) -> (i: int)
    requires
        ids_of(s).no_duplicates(),
        ids_of(s).contains(k),
    ensures
        0 <= i < s.len(),
        s[i].0 == k,
        heap_view(s)[k] == s[i].1@,
{
    let i = ids_of(s).index_of(k);
    lemma_index_of(s, i);
    i
}

/// Replacing the entry at position `i` (kept under `k`) by `x` keeps the ids, and gives
/// the map with `x` under `k`.
proof fn lemma_update(s: Seq<(HeapId, HeapEntry)>, i: int, k: HeapId, x: HeapEntry)
    requires
        ids_of(s).no_duplicates(),
        0 <= i < s.len(),
        s[i].0 == k,
    ensures
        ids_of(s.update(i, (k, x))) == ids_of(s),
        heap_view(s.update(i, (k, x))) == heap_view(s).insert(k, x@),
        (forall|j: int| 0 <= j < s.len() ==> entry_wf(#[trigger] s[j].1)) && entry_wf(x) ==> forall|
            j: int,
        | 0 <= j < s.len() ==> entry_wf(#[trigger] s.update(i, (k, x))[j].1),
{
    let t = s.update(i, (k, x));
    assert(ids_of(t) =~= ids_of(s));
    lemma_index_of(t, i);
    assert forall|y: HeapId| #[trigger] heap_view(t).contains_key(y) implies (if y == k {
        heap_view(t)[y] == x@
    } else {
        heap_view(s).contains_key(y) && heap_view(t)[y] == heap_view(s)[y]
    }) by {
        let j = lemma_contains_at(t, y);
        if y != k {
            lemma_index_of(s, j);
        }
    }
    assert forall|y: HeapId| #[trigger] heap_view(s).contains_key(y) implies heap_view(
        t,
    ).contains_key(y) by {
        let j = lemma_contains_at(s, y);
        assert(ids_of(t)[j] == y);
    }
    assert(heap_view(t) =~= heap_view(s).insert(k, x@));
}

impl Heap {
    /// Each id occurs once, and each object's table of fields is well formed.
    pub closed spec fn wf(&self) -> bool {
        &&& ids_of(self.entries@).no_duplicates()
        &&& forall|i: int| 0 <= i < self.entries@.len() ==> entry_wf(#[trigger] self.entries@[i].1)
    }

    /// An empty heap.
    pub fn new() -> (r: Self)
        ensures
            r.wf(),
            r@ == Map::<HeapId, HeapEntryView>::empty(),
    {
        let r = Heap { entries: Vec::new() };
        assert(r@ =~= Map::<HeapId, HeapEntryView>::empty());
        r
    }

    /// The entries of the heap, each id with what is kept under it.
    pub fn entries_ref(&self) -> (r: &[(HeapId, HeapEntry)])
        requires
            self.wf(),
        ensures
            ids_of(r@).no_duplicates(),
            heap_view(r@) == self@,
    {
        self.entries.as_slice()
    }

    /// The position of `id`, if the heap holds it.
    fn find(&self, id: HeapId) -> (r: Option<usize>)
        requires
            self.wf(),
        ensures
            match r {
                Some(i) => i < self.entries@.len() && self.entries@[i as int].0 == id,
                None => !self@.contains_key(id),
            },
    {
        let mut i: usize = 0;
        while i < self.entries.len()
            invariant
                i <= self.entries@.len(),
                forall|j: int| 0 <= j < i ==> self.entries@[j].0 != id,
            decreases self.entries.len() - i,
        {
            if self.entries[i].0 == id {
                return Some(i);
            }
            i = i + 1;
        }
        proof {
            if ids_of(self.entries@).contains(id) {
                let j = lemma_contains_at(self.entries@, id);
            }
        }
        None
    }

    /// Keeps `entry` under `id`, in place of what was kept there.
    fn put(&mut self, id: HeapId, entry: HeapEntry)
        requires
            old(self).wf(),
            entry_wf(entry),
        ensures
            final(self).wf(),
            final(self)@ == old(self)@.insert(id, entry@),
    {
        let ghost x = entry;
        match self.find(id) {
            Some(i) => {
                let ghost s = self.entries@;
                self.entries.set(i, (id, entry));
                proof {
                    lemma_update(s, i as int, id, x);
                    assert(self.entries@ == s.update(i as int, (id, x)));
                }
            },
            None => {
                let ghost s = self.entries@;
                self.entries.push((id, entry));
                proof {
                    let t = self.entries@;
                    assert(ids_of(t) =~= ids_of(s).push(id));
                    assert(!ids_of(s).contains(id));
                    assert forall|y: HeapId| #[trigger] heap_view(t).contains_key(y) implies (if y
                        == id {
                        heap_view(t)[y] == x@
                    } else {
                        old(self)@.contains_key(y) && heap_view(t)[y] == old(self)@[y]
                    }) by {
                        let j = lemma_contains_at(t, y);
                        if y != id {
                            lemma_index_of(s, j);
                        }
                    }
                    assert forall|y: HeapId| #[trigger] old(self)@.contains_key(y) implies heap_view(
                        t,
                    ).contains_key(y) by {
                        let j = lemma_contains_at(s, y);
                        assert(ids_of(t)[j] == y);
                    }
                    assert(heap_view(t).contains_key(id)) by {
                        assert(ids_of(t)[s.len() as int] == id);
                    }
                    assert(heap_view(t) =~= old(self)@.insert(id, x@));
                }
            },
        }
    }

    /// Puts a new object of the class `class_name` under `id` (in place of what was kept
    /// there), and gives `id`.
    pub fn allocate_object_with_id(&mut self, id: HeapId, class_name: &str) -> (r: HeapId)
        requires
            old(self).wf(),
        ensures
            r == id,
            final(self).wf(),
            final(self)@ == old(self)@.insert(
                id,
                HeapEntryView::Object(ObjectView { class_name: class_name@, fields: Map::empty() }),
            ),
    {
        self.put(id, HeapEntry::Object(Object::new(class_name)));
        id
    }

    /// Puts a new array of `len` `null` elements under `id` (in place of what was kept
    /// there), and gives `id`.
    pub fn allocate_array_with_id(&mut self, id: HeapId, element_descriptor: &str, len: usize) -> (r: HeapId)
        requires
            old(self).wf(),
        ensures
            r == id,
            final(self).wf(),
            final(self)@ == old(self)@.insert(
                id,
                HeapEntryView::Array(
                    ArrayView {
                        element_descriptor: element_descriptor@,
                        elements: Seq::new(len as nat, |i: int| Type::Null),
                    },
                ),
            ),
    {
        self.put(id, HeapEntry::Array(Array::new(element_descriptor, len)));
        id
    }

    /// What is kept under `id`, if anything.
    pub fn get(&self, id: HeapId) -> (r: Option<&HeapEntry>)
        requires
            self.wf(),
        ensures
            match r {
                Some(e) => self@.contains_key(id) && e@ == self@[id] && entry_wf(*e),
                None => !self@.contains_key(id),
            },
    {
        match self.find(id) {
            Some(i) => {
                proof {
                    lemma_index_of(self.entries@, i as int);
                }
                Some(&self.entries[i].1)
            },
            None => None,
        }
    }

    /// What is kept under `id`, if anything, to change in place.
    pub fn get_mut(&mut self, id: HeapId) -> (r: Option<&mut HeapEntry>)
        requires
            old(self).wf(),
        ensures
            match r {
                Some(e) => {
                    &&& old(self)@.contains_key(id)
                    &&& (*e)@ == old(self)@[id]
                    &&& entry_wf(*e)
                    &&& final(self)@ == old(self)@.insert(id, (*final(e))@)
                    &&& entry_wf(*final(e)) ==> final(self).wf()
                },
                None => {
                    &&& !old(self)@.contains_key(id)
                    &&& final(self)@ == old(self)@
                    &&& final(self).wf()
                },
            },
    {
        match self.find(id) {
            Some(i) => {
                let ghost s = self.entries@;
                proof {
                    lemma_index_of(s, i as int);
                    assert forall|x: HeapEntry|
                        #![trigger s.update(i as int, (id, x))]
                        heap_view(s.update(i as int, (id, x))) == heap_view(s).insert(id, x@)
                            && ids_of(s.update(i as int, (id, x))) == ids_of(s) && (entry_wf(x)
                            ==> forall|j: int|
                            0 <= j < s.len() ==> entry_wf(#[trigger] s.update(i as int, (id, x))[j].1)) by {
                        lemma_update(s, i as int, id, x);
                    }
                }
                let entry = &mut self.entries[i];
                Some(&mut entry.1)
            },
            None => None,
        }
    }

    /// The object kept under `id`, if an object is kept there.
    pub fn get_object(&self, id: HeapId) -> (r: Option<&Object>)
        requires
            self.wf(),
        ensures
            match r {
                Some(o) => self@.contains_key(id) && self@[id] == HeapEntryView::Object(o@)
                    && o.wf(),
                None => !(self@.contains_key(id) && self@[id] is Object),
            },
    {
        match self.get(id) {
            Some(HeapEntry::Object(o)) => Some(o),
            _ => None,
        }
    }

    /// The object kept under `id`, if an object is kept there, to change in place.
    pub fn get_object_mut(&mut self, id: HeapId) -> (r: Option<&mut Object>)
        requires
            old(self).wf(),
        ensures
            match r {
                Some(o) => {
                    &&& old(self)@.contains_key(id)
                    &&& old(self)@[id] == HeapEntryView::Object(o@)
                    &&& o.wf()
                    &&& final(self)@ == old(self)@.insert(id, HeapEntryView::Object((*final(o))@))
                    &&& final(o).wf() ==> final(self).wf()
                },
                None => {
                    &&& !(old(self)@.contains_key(id) && old(self)@[id] is Object)
                    &&& final(self)@ == old(self)@
                    &&& final(self).wf()
                },
            },
    {
        match self.find(id) {
            Some(i) => {
                let ghost s = self.entries@;
                proof {
                    lemma_index_of(s, i as int);
                    assert forall|x: HeapEntry|
                        #![trigger s.update(i as int, (id, x))]
                        heap_view(s.update(i as int, (id, x))) == heap_view(s).insert(id, x@)
                            && ids_of(s.update(i as int, (id, x))) == ids_of(s) && (entry_wf(x)
                            ==> forall|j: int|
                            0 <= j < s.len() ==> entry_wf(#[trigger] s.update(i as int, (id, x))[j].1)) by {
                        lemma_update(s, i as int, id, x);
                    }
                }
                let entry = &mut self.entries[i];
                match &mut entry.1 {
                    HeapEntry::Object(o) => Some(o),
                    HeapEntry::Array(_) => None,
                }
            },
            None => None,
        }
    }

    /// The array kept under `id`, if an array is kept there.
    pub fn get_array(&self, id: HeapId) -> (r: Option<&Array>)
        requires
            self.wf(),
        ensures
            match r {
                Some(a) => self@.contains_key(id) && self@[id] == HeapEntryView::Array(a@),
                None => !(self@.contains_key(id) && self@[id] is Array),
            },
    {
        match self.get(id) {
            Some(HeapEntry::Array(a)) => Some(a),
            _ => None,
        }
    }

    /// The array kept under `id`, if an array is kept there, to change in place.
    pub fn get_array_mut(&mut self, id: HeapId) -> (r: Option<&mut Array>)
        requires
            old(self).wf(),
        ensures
            final(self).wf(),
            match r {
                Some(a) => {
                    &&& old(self)@.contains_key(id)
                    &&& old(self)@[id] == HeapEntryView::Array(a@)
                    &&& final(self)@ == old(self)@.insert(id, HeapEntryView::Array((*final(a))@))
                },
                None => {
                    &&& !(old(self)@.contains_key(id) && old(self)@[id] is Array)
                    &&& final(self)@ == old(self)@
                },
            },
    {
        match self.find(id) {
            Some(i) => {
                let ghost s = self.entries@;
                proof {
                    lemma_index_of(s, i as int);
                    assert forall|x: HeapEntry|
                        #![trigger s.update(i as int, (id, x))]
                        heap_view(s.update(i as int, (id, x))) == heap_view(s).insert(id, x@)
                            && ids_of(s.update(i as int, (id, x))) == ids_of(s) && (entry_wf(x)
                            ==> forall|j: int|
                            0 <= j < s.len() ==> entry_wf(#[trigger] s.update(i as int, (id, x))[j].1)) by {
                        lemma_update(s, i as int, id, x);
                    }
                }
                let entry = &mut self.entries[i];
                match &mut entry.1 {
                    HeapEntry::Array(a) => Some(a),
                    HeapEntry::Object(_) => None,
                }
            },
            None => None,
        }
    }

    /// Drops what is kept under `id`, and gives it.
    pub fn remove(&mut self, id: HeapId) -> (r: Option<HeapEntry>)
        requires
            old(self).wf(),
        ensures
            final(self).wf(),
            final(self)@ == old(self)@.remove(id),
            match r {
                Some(e) => old(self)@.contains_key(id) && e@ == old(self)@[id],
                None => !old(self)@.contains_key(id),
            },
    {
        match self.find(id) {
            Some(i) => {
                let ghost s = self.entries@;
                proof {
                    lemma_index_of(s, i as int);
                }
                let (_, entry) = self.entries.remove(i);
                proof {
                    let t = self.entries@;
                    assert(t =~= s.remove(i as int));
                    assert(ids_of(t) =~= ids_of(s).remove(i as int));
                    assert forall|a: int, b: int|
                        0 <= a < ids_of(t).len() && 0 <= b < ids_of(t).len() && a != b implies ids_of(
                        t,
                    )[a] != ids_of(t)[b] by {
                        let a2 = if a < i { a } else { a + 1 };
                        let b2 = if b < i { b } else { b + 1 };
                        assert(ids_of(t)[a] == ids_of(s)[a2]);
                        assert(ids_of(t)[b] == ids_of(s)[b2]);
                    }
                    assert forall|j: int| 0 <= j < t.len() implies entry_wf(#[trigger] t[j].1) by {
                        let j2 = if j < i { j } else { j + 1 };
                        assert(t[j] == s[j2]);
                    }
                    assert forall|x: HeapId| #[trigger] heap_view(t).contains_key(x) implies x
                        != id && old(self)@.contains_key(x) && heap_view(t)[x] == old(self)@[x] by {
                        let j = lemma_contains_at(t, x);
                        let j2 = if j < i { j } else { j + 1 };
                        assert(t[j] == s[j2]);
                        lemma_index_of(s, j2);
                    }
                    assert forall|x: HeapId| #[trigger]
                        old(self)@.contains_key(x) && x != id implies heap_view(t).contains_key(x) by {
                        let j = lemma_contains_at(s, x);
                        let j2 = if j < i { j } else { j - 1 };
                        assert(ids_of(t)[j2] == x);
                    }
                    assert(heap_view(t) =~= old(self)@.remove(id));
                }
                Some(entry)
            },
            None => {
                proof {
                    assert(old(self)@.remove(id) =~= old(self)@);
                }
                None
            },
        }
    }

    /// The number of entries.
    pub fn len(&self) -> (r: usize)
        requires
            self.wf(),
        ensures
            r == self@.len(),
    {
        proof {
            let ks = ids_of(self.entries@);
            ks.unique_seq_to_set();
            assert(self@.dom() =~= ks.to_set());
        }
        self.entries.len()
    }
}

/// Reading a field just set gives the value set; every other field reads as before.
pub proof fn law_field_read_after_write(o: ObjectView, name: Seq<char>, value: Type, other: Seq<char>)
    ensures
        ({
            let after = o.fields.insert(name, value);
            &&& after.contains_key(name) && after[name] == value
            &&& other != name ==> (after.contains_key(other) == o.fields.contains_key(other))
                && (o.fields.contains_key(other) ==> after[other] == o.fields[other])
        }),
{
}

/// Reading an element just set gives the value set; every other element reads as before,
/// and the length stays.
pub proof fn law_element_read_after_write(a: ArrayView, index: int, value: Type, other: int)
    requires
        0 <= index < a.elements.len(),
    ensures
        ({
            let after = a.elements.update(index, value);
            &&& after.len() == a.elements.len()
            &&& after[index] == value
            &&& 0 <= other < a.elements.len() && other != index ==> after[other] == a.elements[other]
        }),
{
}

/// A newly allocated object has no fields, and allocating it leaves every other id as it
/// was.
pub proof fn law_allocation_is_fresh(
    h: Map<HeapId, HeapEntryView>,
    id: HeapId,
    class_name: Seq<char>,
    other: HeapId,
)
    ensures
        ({
            let after = h.insert(
                id,
                HeapEntryView::Object(ObjectView { class_name, fields: Map::empty() }),
            );
            &&& after[id] matches HeapEntryView::Object(o) && o.class_name == class_name
                && o.fields.dom().is_empty()
            &&& other != id ==> after.contains_key(other) == h.contains_key(other) && (
            h.contains_key(other) ==> after[other] == h[other])
        }),
{
}

/// After a removal the id holds nothing, and every other id is as it was.
pub proof fn law_remove_forgets(h: Map<HeapId, HeapEntryView>, id: HeapId, other: HeapId)
    ensures
        !h.remove(id).contains_key(id),
        other != id ==> h.remove(id).contains_key(other) == h.contains_key(other) && (
        h.contains_key(other) ==> h.remove(id)[other] == h[other]),
{
}

} // verus!
