use std::collections::HashMap;
use vstd::prelude::*;
use vstd::string::StringExecFns;

verus! {

broadcast use vstd::std_specs::hash::group_hash_axioms;

/// Hands out 32-bit references, each standing for a heap object or for a symbolic
/// identifier (of a field or a method resolved later). References start at 1; 0 is
/// kept for null.
pub struct ReferenceManager {
    next: u32,
    refs: HashMap<u32, ReferenceEntry>,
    /// How many references have been handed out.
    issued: Ghost<nat>,
}

/// What a reference stands for.
#[derive(Debug, Clone)]
pub enum ReferenceEntry {
    /// The id of a heap object.
    Heap(u32),
    /// An identifier not resolved yet.
    Symbolic(String),
}

/// The value of a [`ReferenceEntry`].
pub enum EntryView {
    Heap(u32),
    Symbolic(Seq<char>),
}

impl View for ReferenceEntry {
    type V = EntryView;

    open spec fn view(&self) -> EntryView {
        match self {
            ReferenceEntry::Heap(id) => EntryView::Heap(*id),
            ReferenceEntry::Symbolic(s) => EntryView::Symbolic(s@),
        }
    }
}

/// The value of an optional entry.
pub open spec fn opt_entry_view(e: Option<ReferenceEntry>) -> Option<EntryView> {
    match e {
        Some(x) => Some(x@),
        None => None,
    }
}

/// The reference handed out after `r`: the next number, 0 skipped.
pub open spec fn spec_after(r: u32) -> u32 {
    if r == u32::MAX {
        1
    } else {
        (r + 1) as u32
    }
}

impl View for ReferenceManager {
    type V = Map<u32, EntryView>;

    /// What each tracked reference stands for.
    closed spec fn view(&self) -> Map<u32, EntryView> {
        self.refs@.map_values(|e: ReferenceEntry| e@)
    }
}

impl ReferenceManager {
    /// The manager is well formed: the next reference is never 0, and until the count
    /// wraps around, the next reference is one more than the number handed out and every
    /// tracked reference is one handed out before it.
    pub closed spec fn wf(self) -> bool {
        &&& self.next != 0
        &&& self.issued@ < u32::MAX ==> {
            &&& self.next == self.issued@ + 1
            &&& forall|k: u32| #[trigger] self.refs@.contains_key(k) ==> 1 <= k < self.next
        }
    }

    /// The number of references handed out so far.
    pub closed spec fn spec_issued(self) -> nat {
        self.issued@
    }

    /// The reference that the next allocation hands out.
    pub closed spec fn spec_next(self) -> u32 {
        self.next
    }

    /// A manager that tracks no reference; the first one it hands out is 1.
    pub fn new() -> (r: ReferenceManager)
        ensures
            r.wf(),
            r@ == Map::<u32, EntryView>::empty(),
            r.spec_next() == 1,
            r.spec_issued() == 0,
    {
        let r = ReferenceManager { next: 1, refs: HashMap::new(), issued: Ghost(0) };
        assert(r@ =~= Map::<u32, EntryView>::empty());
        r
    }

    /// Hands out the next reference and moves on, skipping 0.
    fn take_next(&mut self) -> (r: u32)
        requires
            old(self).wf(),
        ensures
            final(self).wf(),
            r == old(self).spec_next(),
            r != 0,
            final(self).spec_next() == spec_after(r),
            final(self)@ == old(self)@,
            final(self).spec_issued() == old(self).spec_issued() + 1,
            old(self).spec_issued() < u32::MAX ==> {
                &&& r == old(self).spec_issued() + 1
                &&& !old(self)@.contains_key(r)
            },
    {
        let r = self.next;
        let mut next = self.next.wrapping_add(1);
        if next == 0 {
            next = 1;
        }
        self.next = next;
        self.issued = Ghost(self.issued@ + 1);
        proof {
            assert(self@ =~= old(self)@);
        }
        r
    }

    fn record(&mut self, r: u32, entry: ReferenceEntry)
        requires
            old(self).wf(),
            old(self).spec_issued() < u32::MAX ==> 1 <= r < old(self).spec_next(),
        ensures
            final(self).wf(),
            final(self)@ == old(self)@.insert(r, entry@),
            final(self).spec_next() == old(self).spec_next(),
            final(self).spec_issued() == old(self).spec_issued(),
            !old(self)@.contains_key(r) ==> final(self)@.len() == old(self)@.len() + 1,
    {
        proof {
            assert(old(self)@.dom() =~= old(self).refs@.dom());
            assert(old(self).refs@.dom().finite());
        }
        self.refs.insert(r, entry);
        proof {
            assert(self@ =~= old(self)@.insert(r, entry@));
        }
    }

    /// Hands out a new reference that stands for the heap object with the same number.
    pub fn allocate_new(&mut self) -> (r: u32)
        requires
            old(self).wf(),
        ensures
            final(self).wf(),
            r == old(self).spec_next(),
            r != 0,
            final(self).spec_next() == spec_after(r),
            final(self)@ == old(self)@.insert(r, EntryView::Heap(r)),
            final(self).spec_issued() == old(self).spec_issued() + 1,
            old(self).spec_issued() < u32::MAX ==> {
                &&& r == old(self).spec_issued() + 1
                &&& !old(self)@.contains_key(r)
                &&& final(self)@.len() == old(self)@.len() + 1
            },
    {
        let r = self.take_next();
        self.record(r, ReferenceEntry::Heap(r));
        r
    }

    /// Hands out a new reference that stands for the heap object `heap_id`.
    pub fn allocate_heap(&mut self, heap_id: u32) -> (r: u32)
        requires
            old(self).wf(),
        ensures
            final(self).wf(),
            r == old(self).spec_next(),
            r != 0,
            final(self).spec_next() == spec_after(r),
            final(self)@ == old(self)@.insert(r, EntryView::Heap(heap_id)),
            final(self).spec_issued() == old(self).spec_issued() + 1,
            old(self).spec_issued() < u32::MAX ==> {
                &&& r == old(self).spec_issued() + 1
                &&& !old(self)@.contains_key(r)
                &&& final(self)@.len() == old(self)@.len() + 1
            },
    {
        let r = self.take_next();
        self.record(r, ReferenceEntry::Heap(heap_id));
        r
    }

    /// Hands out a new reference that stands for the identifier `id` (such as
    /// `pkg/Class.method()V`).
    pub fn allocate_symbolic(&mut self, id: String) -> (r: u32)
        requires
            old(self).wf(),
        ensures
            final(self).wf(),
            r == old(self).spec_next(),
            r != 0,
            final(self).spec_next() == spec_after(r),
            final(self)@ == old(self)@.insert(r, EntryView::Symbolic(id@)),
            final(self).spec_issued() == old(self).spec_issued() + 1,
            old(self).spec_issued() < u32::MAX ==> {
                &&& r == old(self).spec_issued() + 1
                &&& !old(self)@.contains_key(r)
                &&& final(self)@.len() == old(self)@.len() + 1
            },
    {
        let r = self.take_next();
        self.record(r, ReferenceEntry::Symbolic(id));
        r
    }

    /// What `reference` stands for, if it is tracked.
    pub fn resolve(&self, reference: u32) -> (r: Option<ReferenceEntry>)
        ensures
            opt_entry_view(r) == (if self@.contains_key(reference) {
                Some(self@[reference])
            } else {
                None
            }),
    {
        match self.refs.get(&reference) {
            Some(e) => Some(
                match e {
                    ReferenceEntry::Heap(id) => ReferenceEntry::Heap(*id),
                    ReferenceEntry::Symbolic(s) => ReferenceEntry::Symbolic(s.clone()),
                },
            ),
            None => None,
        }
    }

    /// The heap object that `reference` stands for, if it stands for one.
    pub fn resolve_heap(&self, reference: u32) -> (r: Option<u32>)
        ensures
            r == (if self@.contains_key(reference) && self@[reference] is Heap {
                Some(self@[reference]->Heap_0)
            } else {
                None
            }),
    {
        match self.refs.get(&reference) {
            Some(ReferenceEntry::Heap(id)) => Some(*id),
            _ => None,
        }
    }

    /// The identifier that `reference` stands for, if it stands for one.
    pub fn resolve_symbolic(&self, reference: u32) -> (r: Option<String>)
        ensures
            match r {
                Some(s) => self@.contains_key(reference) && self@[reference] == EntryView::Symbolic(
                    s@,
                ),
                None => !(self@.contains_key(reference) && self@[reference] is Symbolic),
            },
    {
        match self.refs.get(&reference) {
            Some(ReferenceEntry::Symbolic(s)) => Some(s.clone()),
            _ => None,
        }
    }

    /// Stops tracking `reference`; gives what it stood for, if it was tracked.
    pub fn remove(&mut self, reference: u32) -> (r: Option<ReferenceEntry>)
        requires
            old(self).wf(),
        ensures
            final(self).wf(),
            opt_entry_view(r) == (if old(self)@.contains_key(reference) {
                Some(old(self)@[reference])
            } else {
                None
            }),
            final(self)@ == old(self)@.remove(reference),
            final(self).spec_next() == old(self).spec_next(),
            final(self).spec_issued() == old(self).spec_issued(),
    {
        let r = self.refs.remove(&reference);
        proof {
            assert(self@ =~= old(self)@.remove(reference));
        }
        r
    }

    /// The number of tracked references.
    pub fn len(&self) -> (r: usize)
        ensures
            r == self@.len(),
    {
        proof {
            assert(self@.dom() =~= self.refs@.dom());
        }
        self.refs.len()
    }
}

/// A reference just handed out for a heap object resolves to that object.
pub proof fn law_resolve_after_allocate(m: Map<u32, EntryView>, r: u32, entry: EntryView)
    ensures
        m.insert(r, entry).contains_key(r),
        m.insert(r, entry)[r] == entry,
{
}

/// A removed reference no longer resolves, and the others still resolve as before.
pub proof fn law_resolve_after_remove(m: Map<u32, EntryView>, r: u32, other: u32)
    requires
        other != r,
    ensures
        !m.remove(r).contains_key(r),
        m.remove(r).contains_key(other) == m.contains_key(other),
        m.contains_key(other) ==> m.remove(r)[other] == m[other],
{
}

/// Each allocation tracks one reference more, as long as the reference handed out was
/// not tracked already.
pub proof fn law_len_after_allocate(m: Map<u32, EntryView>, r: u32, entry: EntryView)
    requires
        m.dom().finite(),
        !m.contains_key(r),
    ensures
        m.insert(r, entry).len() == m.len() + 1,
{
}

/// The reference handed out `k` allocations after `r`.
pub open spec fn spec_nth_after(r: u32, k: nat) -> u32
    decreases k,
{
    if k == 0 {
        r
    } else {
        spec_after(spec_nth_after(r, (k - 1) as nat))
    }
}

proof fn lemma_nth_after(r: u32, k: nat)
    requires
        r != 0,
    ensures
        spec_nth_after(r, k) == (r - 1 + k) % (u32::MAX as int) + 1,
    decreases k,
{
    if k > 0 {
        lemma_nth_after(r, (k - 1) as nat);
        let m = u32::MAX as int;
        let prev = (r - 1 + k - 1) % m;
        assert(0 <= prev < m);
        vstd::arithmetic::div_mod::lemma_add_mod_noop(r - 1 + k - 1, 1, m);
        assert(1int % m == 1);
        if prev + 1 == m {
            assert((prev + 1) % m == 0) by {
                vstd::arithmetic::div_mod::lemma_mod_self_0(m);
            }
        } else {
            assert((prev + 1) % m == prev + 1) by {
                vstd::arithmetic::div_mod::lemma_small_mod((prev + 1) as nat, m as nat);
            }
        }
    }
}

/// References start at 1 and are unique: the references handed out by fewer than
/// `u32::MAX` allocations in a row are all different (the count wraps around after
/// `u32::MAX`, skipping the null reference 0).
pub proof fn law_references_distinct(r: u32, j: nat, k: nat)
    requires
        r != 0,
        j < k,
        k - j < u32::MAX,
    ensures
        spec_nth_after(r, j) != spec_nth_after(r, k),
        spec_nth_after(r, k) != 0,
{
    let m = u32::MAX as int;
    lemma_nth_after(r, j);
    lemma_nth_after(r, k);
    let a = r - 1 + j;
    let b = r - 1 + k;
    if a % m == b % m {
        assert((b - a) % m == 0) by {
            vstd::arithmetic::div_mod::lemma_sub_mod_noop(b, a, m);
            assert((b % m - a % m) % m == 0);
        }
        vstd::arithmetic::div_mod::lemma_small_mod((b - a) as nat, m as nat);
    }
}

/// Until the count of references handed out wraps around, the reference handed out
/// next is one more than that count and is tracked by no one, and every tracked
/// reference lies below it: the `k`-th reference handed out is `k`, so no two are the
/// same.
pub proof fn law_next_reference_is_fresh(rm: ReferenceManager)
    requires
        rm.wf(),
        rm.spec_issued() < u32::MAX,
    ensures
        rm.spec_next() == rm.spec_issued() + 1,
        !rm@.contains_key(rm.spec_next()),
        forall|k: u32| #[trigger] rm@.contains_key(k) ==> 1 <= k < rm.spec_next(),
{
    assert forall|k: u32| #[trigger] rm@.contains_key(k) implies 1 <= k < rm.spec_next() by {
        assert(rm.refs@.contains_key(k));
    }
}

} // verus!
