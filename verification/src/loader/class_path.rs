use crate::loader::reader::{lemma_views_push, views};
use vstd::prelude::*;
use vstd::string::{StrSliceExecFns, StringExecFns};

verus! {

/// Whether `name` ends in `.class`.
pub open spec fn has_class_suffix(name: Seq<char>) -> bool {
    name.len() >= 6 && name.subrange(name.len() - 6, name.len() as int) == ".class"@
}

/// `name` with each `.` turned into `/`.
pub open spec fn spec_dots_to_slashes(name: Seq<char>) -> Seq<char> {
    name.map_values(|c: char| if c == '.' { '/' } else { c })
}

/// The path of the file of the class `name` below a class-path entry: the name without
/// a `.class` ending, its dots as directory separators, and `.class` added.
pub open spec fn spec_class_file_name(name: Seq<char>) -> Seq<char> {
    let base = if has_class_suffix(name) {
        name.subrange(0, name.len() - 6)
    } else {
        name
    };
    spec_dots_to_slashes(base) + ".class"@
}

/// The path of the file of the class `class_name` below a class-path entry (so
/// `com.example.Main` gives `com/example/Main.class`, and `test/Hello.class` stays as
/// it is).
pub fn class_file_name(class_name: &str) -> (r: String)
    ensures
        r@ == spec_class_file_name(class_name@),
{
    let n = class_name.unicode_len();
    let suffix = ".class";
    proof {
        reveal_strlit(".class");
    }
    let mut end = n;
    if n >= 6 {
        let tail = class_name.substring_char(n - 6, n);
        if tail.unicode_len() == 6 && tail_is_class_suffix(tail) {
            end = n - 6;
        }
    }
    assert(end as int == if has_class_suffix(class_name@) {
        class_name@.len() - 6
    } else {
        class_name@.len() as int
    });
    let ghost base = class_name@.subrange(0, end as int);
    let mut text = String::new();
    let mut i: usize = 0;
    while i < end
        invariant
            end <= class_name@.len(),
            i <= end,
            base == class_name@.subrange(0, end as int),
            text@ == spec_dots_to_slashes(base.take(i as int)),
        decreases end - i,
    {
        let c = class_name.get_char(i);
        if c == '.' {
            text.append("/");
            proof {
                reveal_strlit("/");
            }
        } else {
            text.append(class_name.substring_char(i, i + 1));
        }
        assert(spec_dots_to_slashes(base.take(i + 1)) =~= spec_dots_to_slashes(base.take(i as int)).push(
            if c == '.' {
                '/'
            } else {
                c
            },
        ));
        assert(text@ =~= spec_dots_to_slashes(base.take(i + 1)));
        i = i + 1;
    }
    assert(base.take(i as int) =~= base);
    text.append(suffix);
    proof {
        if has_class_suffix(class_name@) {
            assert(base =~= class_name@.subrange(0, class_name@.len() - 6));
        } else {
            assert(base =~= class_name@);
        }
    }
    text
}

fn tail_is_class_suffix(tail: &str) -> (r: bool)
    requires
        tail@.len() == 6,
    ensures
        r == (tail@ == ".class"@),
{
    proof {
        reveal_strlit(".class");
    }
    let r = tail.get_char(0) == '.' && tail.get_char(1) == 'c' && tail.get_char(2) == 'l'
        && tail.get_char(3) == 'a' && tail.get_char(4) == 's' && tail.get_char(5) == 's';
    if r {
        assert(tail@ =~= ".class"@);
    }
    r
}

/// The pieces of `path` between its colons, empty ones included, from the first to the
/// last.
pub open spec fn spec_pieces(path: Seq<char>) -> Seq<Seq<char>>
    decreases path.len(),
{
    if path.len() == 0 {
        seq![Seq::empty()]
    } else {
        let before = spec_pieces(path.drop_last());
        if path.last() == ':' {
            before.push(Seq::empty())
        } else {
            before.drop_last().push(before.last().push(path.last()))
        }
    }
}

/// Whether a piece of a class path names a directory (an empty piece names none).
pub open spec fn is_entry(piece: Seq<char>) -> bool {
    piece.len() > 0
}

/// The entries of a colon-separated class path, in order, empty pieces left out.
pub open spec fn spec_classpath_entries(path: Seq<char>) -> Seq<Seq<char>> {
    spec_pieces(path).filter(|p: Seq<char>| is_entry(p))
}

proof fn lemma_pieces_not_empty(path: Seq<char>)
    ensures
        spec_pieces(path).len() >= 1,
    decreases path.len(),
{
    if path.len() > 0 {
        lemma_pieces_not_empty(path.drop_last());
    }
}

/// The entries of the colon-separated class path `path`, in order, empty pieces left
/// out.
pub fn classpath_entries(path: &str) -> (r: Vec<String>)
    ensures
        views(r@) == spec_classpath_entries(path@),
{
    let n = path.unicode_len();
    let mut out: Vec<String> = Vec::new();
    let mut current = String::new();
    let mut i: usize = 0;
    proof {
        assert(path@.take(0) =~= Seq::<char>::empty());
        assert(spec_pieces(Seq::<char>::empty()).drop_last() =~= Seq::<Seq<char>>::empty());
        assert(Seq::<Seq<char>>::empty().filter(|p: Seq<char>| is_entry(p)) =~= Seq::<
            Seq<char>,
        >::empty()) by {
            reveal_with_fuel(Seq::filter, 1);
        }
    }
    while i < n
        invariant
            n == path@.len(),
            i <= n,
            views(out@) == spec_pieces(path@.take(i as int)).drop_last().filter(
                |p: Seq<char>| is_entry(p),
            ),
            current@ == spec_pieces(path@.take(i as int)).last(),
        decreases n - i,
    {
        let ghost prefix = path@.take(i as int);
        let ghost next = path@.take(i + 1);
        proof {
            assert(next.drop_last() =~= prefix);
            lemma_pieces_not_empty(prefix);
        }
        let c = path.get_char(i);
        if c == ':' {
            proof {
                let ps = spec_pieces(prefix);
                assert(spec_pieces(next) == ps.push(Seq::<char>::empty()));
                assert(spec_pieces(next).drop_last() =~= ps);
                assert(ps =~= ps.drop_last().push(ps.last()));
                ps.drop_last().lemma_filter_push(ps.last(), |p: Seq<char>| is_entry(p));
            }
            if current.unicode_len() > 0 {
                proof {
                    lemma_views_push(out@, current);
                }
                out.push(current);
            }
            current = String::new();
        } else {
            proof {
                let ps = spec_pieces(prefix);
                assert(spec_pieces(next) == ps.drop_last().push(ps.last().push(c)));
                assert(spec_pieces(next).drop_last() =~= ps.drop_last());
            }
            current.append(path.substring_char(i, i + 1));
            assert(current@ =~= spec_pieces(prefix).last().push(c));
        }
        i = i + 1;
    }
    proof {
        assert(path@.take(n as int) =~= path@);
        let ps = spec_pieces(path@);
        lemma_pieces_not_empty(path@);
        assert(ps =~= ps.drop_last().push(ps.last()));
        ps.drop_last().lemma_filter_push(ps.last(), |p: Seq<char>| is_entry(p));
    }
    if current.unicode_len() > 0 {
        proof {
            lemma_views_push(out@, current);
        }
        out.push(current);
    }
    out
}

proof fn lemma_pieces_colon_free(path: Seq<char>)
    ensures
        forall|j: int| 0 <= j < spec_pieces(path).len() ==> !(#[trigger] spec_pieces(path)[j]).contains(':'),
    decreases path.len(),
{
    if path.len() > 0 {
        let before = spec_pieces(path.drop_last());
        lemma_pieces_colon_free(path.drop_last());
        lemma_pieces_not_empty(path.drop_last());
        if path.last() != ':' {
            let last = before.last().push(path.last());
            assert(!before.last().contains(':'));
            assert forall|k: int| 0 <= k < last.len() implies last[k] != ':' by {
                if k < before.last().len() {
                    assert(last[k] == before.last()[k]);
                }
            }
            let after = spec_pieces(path);
            assert forall|j: int| 0 <= j < after.len() implies !(#[trigger] after[j]).contains(':') by {
                if j < before.len() - 1 {
                    assert(after[j] == before[j]);
                }
            }
        } else {
            let after = spec_pieces(path);
            assert forall|j: int| 0 <= j < after.len() implies !(#[trigger] after[j]).contains(':') by {
                if j < before.len() {
                    assert(after[j] == before[j]);
                } else {
                    assert(after[j] =~= Seq::<char>::empty());
                }
            }
        }
    }
}

/// Each entry of a class path is a non-empty run of characters without a colon.
pub proof fn law_entries_are_nonempty_and_colon_free(path: Seq<char>)
    ensures
        forall|j: int|
            0 <= j < spec_classpath_entries(path).len() ==> (#[trigger] spec_classpath_entries(
                path,
            )[j]).len() > 0 && !spec_classpath_entries(path)[j].contains(':'),
{
    let ps = spec_pieces(path);
    let es = spec_classpath_entries(path);
    lemma_pieces_colon_free(path);
    assert forall|j: int| 0 <= j < es.len() implies (#[trigger] es[j]).len() > 0 && !es[j].contains(
        ':',
    ) by {
        ps.lemma_filter_pred(|p: Seq<char>| is_entry(p), j);
        assert(es.contains(es[j]));
        ps.lemma_filter_contains_rev(|p: Seq<char>| is_entry(p), es[j]);
        let k = choose|k: int| 0 <= k < ps.len() && ps[k] == es[j];
        assert(!ps[k].contains(':'));
    }
}

} // verus!
