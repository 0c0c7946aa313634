pub mod access_flags;
pub mod byte_code;
pub mod class;
pub mod errors;
pub mod heap;
pub mod method_area;
pub mod name_table;
pub mod operand_stack;
pub mod reference_manager;
pub mod stack;
pub mod thread;
pub mod types;

pub use access_flags::AccessFlags;
use vstd::prelude::*;
use vstd::string::StrSliceExecFns;

verus! {

/// The position of the last `.` among the first `n` characters of `s`, if any.
pub open spec fn spec_last_dot(s: Seq<char>, n: int) -> Option<int>
    decreases n,
{
    if n <= 0 || n > s.len() {
        None
    } else if s[n - 1] == '.' {
        Some(n - 1)
    } else {
        spec_last_dot(s, n - 1)
    }
}

/// The class part of an identifier `pkg/Class.member...`: what comes before its last
/// `.`, if it has one.
pub open spec fn spec_class_part(identifier: Seq<char>) -> Option<Seq<char>> {
    match spec_last_dot(identifier, identifier.len() as int) {
        Some(p) => Some(identifier.take(p)),
        None => None,
    }
}

/// The class name of an identifier `pkg/Class.member...`: the text before its last
/// `.`, or `None` where it has no `.`.
pub fn class_name_from_identifier(identifier: &str) -> (r: Option<&str>)
    ensures
        match r {
            Some(c) => spec_class_part(identifier@) == Some(c@),
            None => spec_class_part(identifier@) is None,
        },
{
    let ghost s = identifier@;
    let mut n = identifier.unicode_len();
    while n > 0
        invariant
            s == identifier@,
            n <= s.len(),
            spec_last_dot(s, s.len() as int) == spec_last_dot(s, n as int),
        decreases n,
    {
        if identifier.get_char(n - 1) == '.' {
            return Some(identifier.substring_char(0, n - 1));
        }
        n = n - 1;
    }
    None
}

proof fn lemma_last_dot_in_tail(c: Seq<char>, tail: Seq<char>, n: int)
    requires
        c.len() < n <= c.len() + 1 + tail.len(),
        !tail.contains('.'),
    ensures
        spec_last_dot(c + "."@ + tail, n) == Some(c.len() as int),
    decreases n,
{
    let s = c + "."@ + tail;
    reveal_strlit(".");
    if n > c.len() + 1 {
        assert(s[n - 1] == tail[n - 1 - c.len() - 1]);
        lemma_last_dot_in_tail(c, tail, n - 1);
    } else {
        assert(s[n - 1] == '.');
    }
}

/// The class part of the identifier `class.nameDescriptor` of a member is `class`,
/// when neither the name nor the descriptor holds a `.` (as in a valid class file).
pub proof fn law_class_part_of_identifier(class: Seq<char>, name: Seq<char>, descriptor: Seq<char>)
    requires
        !name.contains('.'),
        !descriptor.contains('.'),
    ensures
        spec_class_part(crate::vm::class::spec_join_identifier(class, name, descriptor)) == Some(
            class,
        ),
{
    let tail = name + descriptor;
    assert(!tail.contains('.')) by {
        if tail.contains('.') {
            let i = choose|i: int| 0 <= i < tail.len() && tail[i] == '.';
            if i < name.len() {
                assert(name[i] == '.');
            } else {
                assert(descriptor[i - name.len()] == '.');
            }
        }
    }
    let id = crate::vm::class::spec_join_identifier(class, name, descriptor);
    assert(id =~= class + "."@ + tail);
    reveal_strlit(".");
    lemma_last_dot_in_tail(class, tail, id.len() as int);
    assert(id.take(class.len() as int) =~= class);
}

} // verus!
