use crate::loader::reader::{decimal_string, spec_decimal, views};
use vstd::prelude::*;
use vstd::string::{StrSliceExecFns, StringExecFns};

verus! {

/// The lower-case hexadecimal digit `d`.
pub open spec fn spec_hex_digit(d: int) -> char {
    if d < 10 {
        (48 + d) as char
    } else {
        (87 + d) as char
    }
}

/// The two lower-case hexadecimal digits of `b`.
pub open spec fn spec_hex_byte(b: u8) -> Seq<char> {
    seq![spec_hex_digit(b as int / 16), spec_hex_digit(b as int % 16)]
}

/// The last `width` lower-case hexadecimal digits of `v`, zeros in front.
pub open spec fn spec_hex(v: nat, width: nat) -> Seq<char>
    decreases width,
{
    if width == 0 {
        Seq::empty()
    } else {
        spec_hex((v / 16) as nat, (width - 1) as nat).push(spec_hex_digit((v % 16) as int))
    }
}

/// The hexadecimal digit `d`.
pub(crate) fn hex_digit(d: u8) -> (r: &'static str)
    requires
        d < 16,
    ensures
        r@ == seq![spec_hex_digit(d as int)],
{
    let digits = "0123456789abcdef";
    proof {
        reveal_strlit("0123456789abcdef");
    }
    let r = digits.substring_char(d as usize, d as usize + 1);
    assert(r@ =~= seq![spec_hex_digit(d as int)]);
    r
}

/// Appends the decimal notation of `n`.
pub(crate) fn push_decimal(text: &mut String, n: u64)
    ensures
        final(text)@ == old(text)@ + spec_decimal(n as nat),
{
    let digits = decimal_string(n);
    text.append(digits.as_str());
}

/// Appends the last `width` hexadecimal digits of `v`.
pub(crate) fn push_hex(text: &mut String, v: u64, width: usize)
    ensures
        final(text)@ == old(text)@ + spec_hex(v as nat, width as nat),
    decreases width,
{
    if width > 0 {
        push_hex(text, v / 16, width - 1);
        text.append(hex_digit((v % 16) as u8));
        proof {
            assert(spec_hex(v as nat, width as nat) =~= spec_hex((v / 16) as nat, (width - 1) as nat).push(
                spec_hex_digit((v % 16) as int),
            ));
        }
    } else {
        assert(old(text)@ + spec_hex(v as nat, 0) =~= old(text)@);
    }
}

/// The bytes `bytes` in two hexadecimal digits each, separated by `", "`.
pub open spec fn spec_hex_list(bytes: Seq<u8>) -> Seq<char>
    decreases bytes.len(),
{
    if bytes.len() == 0 {
        Seq::empty()
    } else if bytes.len() == 1 {
        spec_hex(bytes[0] as nat, 2)
    } else {
        spec_hex_list(bytes.drop_last()) + ", "@ + spec_hex(bytes.last() as nat, 2)
    }
}

/// Appends the bytes `bytes` in two hexadecimal digits each, separated by `", "`.
pub(crate) fn push_hex_list(text: &mut String, bytes: &[u8])
    ensures
        final(text)@ == old(text)@ + spec_hex_list(bytes@),
{
    let ghost before = text@;
    let mut i: usize = 0;
    assert(bytes@.take(0) =~= Seq::<u8>::empty());
    assert(before + spec_hex_list(Seq::<u8>::empty()) =~= before);
    while i < bytes.len()
        invariant
            i <= bytes@.len(),
            text@ == before + spec_hex_list(bytes@.take(i as int)),
        decreases bytes.len() - i,
    {
        assert(bytes@.take(i + 1).drop_last() =~= bytes@.take(i as int));
        if i > 0 {
            text.append(", ");
        }
        push_hex(text, bytes[i] as u64, 2);
        proof {
            if i == 0 {
                assert(text@ =~= before + spec_hex_list(bytes@.take(1)));
            } else {
                assert(text@ =~= before + spec_hex_list(bytes@.take(i + 1)));
            }
        }
        i = i + 1;
    }
    assert(bytes@.take(i as int) =~= bytes@);
}

/// The values `values` in decimal, separated by `", "`.
pub open spec fn spec_decimal_list(values: Seq<u16>) -> Seq<char>
    decreases values.len(),
{
    if values.len() == 0 {
        Seq::empty()
    } else if values.len() == 1 {
        spec_decimal(values[0] as nat)
    } else {
        spec_decimal_list(values.drop_last()) + ", "@ + spec_decimal(values.last() as nat)
    }
}

/// Appends the values `values` in decimal, separated by `", "`.
pub(crate) fn push_decimal_list(text: &mut String, values: &[u16])
    ensures
        final(text)@ == old(text)@ + spec_decimal_list(values@),
{
    let ghost before = text@;
    let mut i: usize = 0;
    assert(before + spec_decimal_list(Seq::<u16>::empty()) =~= before);
    assert(values@.take(0) =~= Seq::<u16>::empty());
    while i < values.len()
        invariant
            i <= values@.len(),
            text@ == before + spec_decimal_list(values@.take(i as int)),
        decreases values.len() - i,
    {
        assert(values@.take(i + 1).drop_last() =~= values@.take(i as int));
        if i > 0 {
            text.append(", ");
        }
        push_decimal(text, values[i] as u64);
        proof {
            if i == 0 {
                assert(text@ =~= before + spec_decimal_list(values@.take(1)));
            } else {
                assert(text@ =~= before + spec_decimal_list(values@.take(i + 1)));
            }
        }
        i = i + 1;
    }
    assert(values@.take(i as int) =~= values@);
}

/// An optional number as `Some(n)` or `None`.
pub open spec fn spec_opt_text(o: Option<u16>) -> Seq<char> {
    match o {
        Some(n) => "Some("@ + spec_decimal(n as nat) + ")"@,
        None => "None"@,
    }
}

/// Appends an optional number as `Some(n)` or `None`.
pub(crate) fn push_opt(text: &mut String, o: Option<u16>)
    ensures
        final(text)@ == old(text)@ + spec_opt_text(o),
{
    match o {
        Some(n) => {
            text.append("Some(");
            push_decimal(text, n as u64);
            text.append(")");
        },
        None => {
            text.append("None");
        },
    }
}

/// The line `<prefix><i + 1>: <body>` of a numbered list.
pub open spec fn spec_numbered_line(prefix: Seq<char>, i: nat, body: Seq<char>) -> Seq<char> {
    prefix + spec_decimal(i + 1) + ": "@ + body + "\n"@
}

/// The numbered lines of `bodies`, one after the other, each starting with `prefix`.
pub open spec fn spec_numbered_lines(prefix: Seq<char>, bodies: Seq<Seq<char>>) -> Seq<char>
    decreases bodies.len(),
{
    if bodies.len() == 0 {
        Seq::empty()
    } else {
        spec_numbered_lines(prefix, bodies.drop_last()) + spec_numbered_line(
            prefix,
            (bodies.len() - 1) as nat,
            bodies.last(),
        )
    }
}

/// Appends the numbered lines of `bodies`, each starting with `prefix`.
pub(crate) fn push_numbered_lines(text: &mut String, prefix: &str, bodies: &Vec<String>)
    ensures
        final(text)@ == old(text)@ + spec_numbered_lines(prefix@, views(bodies@)),
{
    let ghost before = text@;
    let ghost all = views(bodies@);
    let mut i: usize = 0;
    assert(all.take(0) =~= Seq::<Seq<char>>::empty());
    assert(before + spec_numbered_lines(prefix@, all.take(0)) =~= before);
    while i < bodies.len()
        invariant
            i <= bodies@.len(),
            all == views(bodies@),
            text@ == before + spec_numbered_lines(prefix@, all.take(i as int)),
        decreases bodies.len() - i,
    {
        assert(all.take(i + 1).drop_last() =~= all.take(i as int));
        text.append(prefix);
        push_decimal(text, (i + 1) as u64);
        text.append(": ");
        text.append(bodies[i].as_str());
        text.append("\n");
        assert(text@ =~= before + spec_numbered_lines(prefix@, all.take(i + 1)));
        i = i + 1;
    }
    assert(all.take(i as int) =~= all);
}

/// A numbered list under a heading: nothing for no lines, else the heading and the
/// lines.
pub open spec fn spec_section(heading: Seq<char>, prefix: Seq<char>, bodies: Seq<Seq<char>>) -> Seq<
    char,
> {
    if bodies.len() == 0 {
        Seq::empty()
    } else {
        heading + spec_numbered_lines(prefix, bodies)
    }
}

/// Appends a numbered list under a heading, or nothing where there are no lines.
pub(crate) fn push_section(text: &mut String, heading: &str, prefix: &str, bodies: &Vec<String>)
    ensures
        final(text)@ == old(text)@ + spec_section(heading@, prefix@, views(bodies@)),
{
    if bodies.len() > 0 {
        text.append(heading);
        push_numbered_lines(text, prefix, bodies);
        assert(text@ =~= old(text)@ + spec_section(heading@, prefix@, views(bodies@)));
    } else {
        assert(old(text)@ + spec_section(heading@, prefix@, views(bodies@)) =~= old(text)@);
    }
}

/// The texts `parts` separated by `", "`.
pub open spec fn spec_joined(parts: Seq<Seq<char>>) -> Seq<char>
    decreases parts.len(),
{
    if parts.len() == 0 {
        Seq::empty()
    } else if parts.len() == 1 {
        parts[0]
    } else {
        spec_joined(parts.drop_last()) + ", "@ + parts.last()
    }
}

/// Appends the texts `parts` separated by `", "`.
pub(crate) fn push_joined(text: &mut String, parts: &Vec<String>)
    ensures
        final(text)@ == old(text)@ + spec_joined(views(parts@)),
{
    let ghost before = text@;
    let ghost all = views(parts@);
    let mut i: usize = 0;
    assert(all.take(0) =~= Seq::<Seq<char>>::empty());
    assert(before + spec_joined(all.take(0)) =~= before);
    while i < parts.len()
        invariant
            i <= parts@.len(),
            all == views(parts@),
            text@ == before + spec_joined(all.take(i as int)),
        decreases parts.len() - i,
    {
        assert(all.take(i + 1).drop_last() =~= all.take(i as int));
        if i > 0 {
            text.append(", ");
        }
        text.append(parts[i].as_str());
        proof {
            if i == 0 {
                assert(text@ =~= before + spec_joined(all.take(1)));
            } else {
                assert(text@ =~= before + spec_joined(all.take(i + 1)));
            }
        }
        i = i + 1;
    }
    assert(all.take(i as int) =~= all);
}

/// A numbered list of an attribute's records: nothing for no records, else a line
/// break and one line each.
pub open spec fn spec_list_block(bodies: Seq<Seq<char>>) -> Seq<char> {
    spec_section("\n"@, "        #"@, bodies)
}

/// Appends a numbered list of an attribute's records.
pub(crate) fn push_list_block(text: &mut String, bodies: &Vec<String>)
    ensures
        final(text)@ == old(text)@ + spec_list_block(views(bodies@)),
{
    push_section(text, "\n", "        #", bodies);
}

} // verus!
