use crate::errors::{ClassLoadError, LoadErrorView};
use byteorder::{BigEndian, ByteOrder};
use vstd::prelude::*;
use vstd::string::{StrSliceExecFns, StringExecFns};

verus! {

/// What reading a piece of a class file from position `p` gives: the value and the
/// position just after it, an error, or `Stuck` when the loader stops the process
/// (a fixed-size field that runs past the end of its buffer, an unknown constant-pool
/// tag, a failed attribute nested in a `Code` attribute, a bad constant-pool index).
pub enum Parsed<V> {
    Done(V, int),
    Fail(LoadErrorView),
    Stuck,
}

/// The failure of a loader step: an error that the loader reports, or an input on
/// which the loader stops the process.
#[derive(Debug)]
pub enum LoadFailure {
    Error(ClassLoadError),
    Stuck,
}

/// `r` is the executable counterpart of the spec outcome `p`.
pub open spec fn agrees<X: View>(r: Result<(X, usize), LoadFailure>, p: Parsed<X::V>) -> bool {
    match r {
        Ok((x, n)) => p == Parsed::Done(x@, n as int),
        Err(e) => failure_agrees(e, p),
    }
}

/// `r` is the executable counterpart of the spec outcome `p`, whatever position `p` ends at.
pub open spec fn outcome_agrees<X: View>(r: Result<X, LoadFailure>, p: Parsed<X::V>) -> bool {
    match r {
        Ok(x) => (p matches Parsed::Done(v, _) && v == x@),
        Err(e) => failure_agrees(e, p),
    }
}

/// `r` is the executable counterpart of the spec outcome `p`, item by item.
pub open spec fn agrees_all<X: View>(
    r: Result<(Vec<X>, usize), LoadFailure>,
    p: Parsed<Seq<X::V>>,
) -> bool {
    match r {
        Ok((xs, n)) => p == Parsed::Done(views(xs@), n as int),
        Err(e) => failure_agrees(e, p),
    }
}

/// The failure `e` is the executable counterpart of the failed outcome `p`.
pub open spec fn failure_agrees<V>(e: LoadFailure, p: Parsed<V>) -> bool {
    match e {
        LoadFailure::Error(err) => p == Parsed::<V>::Fail(err@),
        LoadFailure::Stuck => p is Stuck,
    }
}

/// The same failure, at another value type.
pub open spec fn fail_as<A, B>(p: Parsed<A>) -> Parsed<B> {
    match p {
        Parsed::Fail(e) => Parsed::Fail(e),
        _ => Parsed::Stuck,
    }
}

/// `n` items read one after the other by `f`, starting at `p`.
pub open spec fn repeat<V>(f: spec_fn(int) -> Parsed<V>, p: int, n: nat) -> Parsed<Seq<V>>
    decreases n,
{
    if n == 0 {
        Parsed::Done(Seq::empty(), p)
    } else {
        match repeat(f, p, (n - 1) as nat) {
            Parsed::Done(vs, q) => match f(q) {
                Parsed::Done(v, r) => Parsed::Done(vs.push(v), r),
                Parsed::Fail(e) => Parsed::Fail(e),
                Parsed::Stuck => Parsed::Stuck,
            },
            Parsed::Fail(e) => Parsed::Fail(e),
            Parsed::Stuck => Parsed::Stuck,
        }
    }
}

/// Once an item of a repetition fails, the whole repetition fails the same way.
pub proof fn lemma_repeat_fails<V>(f: spec_fn(int) -> Parsed<V>, p: int, i: nat, n: nat, q: int)
    requires
        i < n,
        repeat(f, p, i) matches Parsed::Done(_, qq) && qq == q,
        !(f(q) is Done),
    ensures
        repeat(f, p, n) == fail_as::<V, Seq<V>>(f(q)),
    decreases n,
{
    if n == i + 1 {
    } else {
        lemma_repeat_fails(f, p, i, (n - 1) as nat, q);
    }
}

/// The views of the items of `s`.
pub open spec fn views<X: View>(s: Seq<X>) -> Seq<X::V> {
    s.map_values(|x: X| x@)
}

pub proof fn lemma_views_push<X: View>(s: Seq<X>, x: X)
    ensures
        views(s.push(x)) == views(s).push(x@),
{
    assert(views(s.push(x)) =~= views(s).push(x@));
}

/// `n` bytes are available at `p`.
pub open spec fn fits(s: Seq<u8>, p: int, n: int) -> bool {
    0 <= p && 0 <= n && p + n <= s.len()
}

/// The big-endian 16-bit value at `p`.
pub open spec fn be16(s: Seq<u8>, p: int) -> u16 {
    (s[p] as int * 256 + s[p + 1] as int) as u16
}

/// The big-endian 32-bit value at `p`.
pub open spec fn be32(s: Seq<u8>, p: int) -> u32 {
    (s[p] as int * 16777216 + s[p + 1] as int * 65536 + s[p + 2] as int * 256
        + s[p + 3] as int) as u32
}

/// `byteorder::BigEndian::read_u16`: the first two bytes of `buf`, most significant
/// first (it panics on a shorter buffer, which `requires` leaves out).
#[verifier::external_body]
fn read_be_u16(buf: &[u8]) -> (r: u16)
    requires
        buf@.len() >= 2,
    ensures
        r == be16(buf@, 0),
{
    BigEndian::read_u16(buf)
}

/// `byteorder::BigEndian::read_u32`: the first four bytes of `buf`, most significant
/// first (it panics on a shorter buffer, which `requires` leaves out).
#[verifier::external_body]
fn read_be_u32(buf: &[u8]) -> (r: u32)
    requires
        buf@.len() >= 4,
    ensures
        r == be32(buf@, 0),
{
    BigEndian::read_u32(buf)
}

/// The byte at `pos`, if there is one.
pub fn u8_at(s: &[u8], pos: usize) -> (r: Option<u8>)
    ensures
        r == (if fits(s@, pos as int, 1) { Some(s@[pos as int]) } else { None::<u8> }),
        r is Some ==> pos < s.len(),
{
    if pos < s.len() {
        Some(s[pos])
    } else {
        None
    }
}

/// The big-endian 16-bit value at `pos`, if two bytes are there.
pub fn u16_at(s: &[u8], pos: usize) -> (r: Option<u16>)
    ensures
        r == (if fits(s@, pos as int, 2) { Some(be16(s@, pos as int)) } else { None::<u16> }),
        r is Some ==> pos + 2 <= s.len(),
{
    if pos <= s.len() && s.len() - pos >= 2 {
        let part = &s[pos..pos + 2];
        let v = read_be_u16(part);
        assert(part@[0] == s@[pos as int] && part@[1] == s@[pos + 1]);
        Some(v)
    } else {
        None
    }
}

/// The big-endian 32-bit value at `pos`, if four bytes are there.
pub fn u32_at(s: &[u8], pos: usize) -> (r: Option<u32>)
    ensures
        r == (if fits(s@, pos as int, 4) { Some(be32(s@, pos as int)) } else { None::<u32> }),
        r is Some ==> pos + 4 <= s.len(),
{
    if pos <= s.len() && s.len() - pos >= 4 {
        let part = &s[pos..pos + 4];
        let v = read_be_u32(part);
        assert(part@[0] == s@[pos as int] && part@[1] == s@[pos + 1] && part@[2] == s@[pos
            + 2] && part@[3] == s@[pos + 3]);
        Some(v)
    } else {
        None
    }
}

/// The 16-bit value at `pos`; the loader stops where it is missing.
pub fn need_u16(s: &[u8], pos: usize) -> (r: Result<u16, LoadFailure>)
    ensures
        fits(s@, pos as int, 2) ==> r == Ok::<u16, LoadFailure>(be16(s@, pos as int)),
        !fits(s@, pos as int, 2) ==> (r matches Err(LoadFailure::Stuck)),
        r is Ok ==> pos + 2 <= s.len(),
{
    match u16_at(s, pos) {
        Some(v) => Ok(v),
        None => Err(LoadFailure::Stuck),
    }
}

/// The 32-bit value at `pos`; the loader stops where it is missing.
pub fn need_u32(s: &[u8], pos: usize) -> (r: Result<u32, LoadFailure>)
    ensures
        fits(s@, pos as int, 4) ==> r == Ok::<u32, LoadFailure>(be32(s@, pos as int)),
        !fits(s@, pos as int, 4) ==> (r matches Err(LoadFailure::Stuck)),
        r is Ok ==> pos + 4 <= s.len(),
{
    match u32_at(s, pos) {
        Some(v) => Ok(v),
        None => Err(LoadFailure::Stuck),
    }
}

/// A copy of the `n` bytes at `pos`, if they are there.
pub fn bytes_at(s: &[u8], pos: usize, n: usize) -> (r: Option<Vec<u8>>)
    ensures
        fits(s@, pos as int, n as int) ==> (r matches Some(v) && v@ == s@.subrange(
            pos as int,
            pos + n,
        )),
        !fits(s@, pos as int, n as int) ==> r is None,
{
    if pos <= s.len() && s.len() - pos >= n {
        Some(vstd::slice::slice_to_vec(&s[pos..pos + n]))
    } else {
        None
    }
}

/// The text that `String::from_utf8_lossy` makes of `bytes`: their UTF-8 decoding, with
/// each invalid sequence replaced by U+FFFD.
pub uninterp spec fn utf8_lossy(bytes: Seq<u8>) -> Seq<char>;

/// `String::from_utf8_lossy` (then owned): the text of `bytes`, stated through
/// [`utf8_lossy`]; the decoding itself is not stated here.
#[verifier::external_body]
pub(crate) fn lossy_string(bytes: &[u8]) -> (r: String)
    ensures
        r@ == utf8_lossy(bytes@),
{
    String::from_utf8_lossy(bytes).into_owned()
}

/// The decimal digit `d`.
pub open spec fn spec_digit(d: nat) -> char {
    (48 + d) as char
}

/// The decimal notation of `n`, without leading zeros.
pub open spec fn spec_decimal(n: nat) -> Seq<char>
    decreases n,
{
    if n < 10 {
        seq![spec_digit(n)]
    } else {
        spec_decimal(n / 10).push(spec_digit(n % 10))
    }
}

/// The decimal digit `d`.
fn decimal_digit(d: u64) -> (r: &'static str)
    requires
        d < 10,
    ensures
        r@ == seq![spec_digit(d as nat)],
{
    let digits = "0123456789";
    proof {
        reveal_strlit("0123456789");
    }
    let r = digits.substring_char(d as usize, d as usize + 1);
    assert(r@ =~= seq![spec_digit(d as nat)]);
    r
}

/// The decimal notation of `n`.
pub(crate) fn decimal_string(n: u64) -> (r: String)
    ensures
        r@ == spec_decimal(n as nat),
    decreases n,
{
    let digit = decimal_digit(n % 10);
    if n < 10 {
        String::from_str(digit)
    } else {
        let mut text = decimal_string(n / 10);
        text.append(digit);
        text
    }
}

/// The `count` big-endian 16-bit values at `pos`.
pub open spec fn spec_u16_seq(s: Seq<u8>, pos: int, count: nat) -> Seq<u16> {
    Seq::new(count, |i: int| be16(s, pos + 2 * i))
}

/// Reads the `count` big-endian 16-bit values at `pos`.
pub fn read_u16_seq(s: &[u8], pos: usize, count: usize) -> (r: Vec<u16>)
    requires
        pos + 2 * count <= s.len(),
    ensures
        r@ == spec_u16_seq(s@, pos as int, count as nat),
{
    let mut out: Vec<u16> = Vec::new();
    let mut i: usize = 0;
    while i < count
        invariant
            0 <= i <= count,
            pos + 2 * count <= s.len(),
            out@ == spec_u16_seq(s@, pos as int, i as nat),
        decreases count - i,
    {
        let v = match u16_at(s, pos + 2 * i) {
            Some(v) => v,
            None => 0,
        };
        out.push(v);
        i = i + 1;
        assert(out@ =~= spec_u16_seq(s@, pos as int, i as nat));
    }
    out
}

/// Items read one after the other never end before they start or after the input.
pub proof fn lemma_repeat_within<V>(f: spec_fn(int) -> Parsed<V>, s: Seq<u8>, p: int, n: nat)
    requires
        0 <= p <= s.len(),
        forall|q: int|
            0 <= q <= s.len() ==> (#[trigger] f(q) matches Parsed::Done(_, r) ==> q <= r
                <= s.len()),
    ensures
        repeat(f, p, n) matches Parsed::Done(_, r) ==> p <= r <= s.len(),
    decreases n,
{
    if n > 0 {
        lemma_repeat_within(f, s, p, (n - 1) as nat);
    }
}

/// The length of `n` items read one after the other is `n`.
pub proof fn lemma_repeat_len<V>(f: spec_fn(int) -> Parsed<V>, p: int, n: nat)
    ensures
        repeat(f, p, n) matches Parsed::Done(vs, _) ==> vs.len() == n,
    decreases n,
{
    if n > 0 {
        lemma_repeat_len(f, p, (n - 1) as nat);
    }
}

} // verus!
