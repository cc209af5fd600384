//! Character-level helpers shared by the HTTP parser: lossy UTF-8 decoding,
//! whitespace classification and ASCII case-insensitive comparison.
use vstd::prelude::*;

verus! {

/// The sequence of characters that lossy UTF-8 decoding yields for the given
/// bytes: valid UTF-8 sequences decode to their characters, invalid sequences
/// are replaced. The result depends on the bytes alone.
pub uninterp spec fn lossy_of(bytes: Seq<u8>) -> Seq<char>;

/// Every byte is an ASCII code point.
pub open spec fn all_ascii(bytes: Seq<u8>) -> bool {
    forall|i: int| 0 <= i < bytes.len() ==> bytes[i] < 128
}

/// Relies on `String::from_utf8_lossy`: it decodes valid UTF-8 unchanged and
/// substitutes the replacement character for invalid sequences, so ASCII
/// bytes decode one for one to the characters with the same code points.
#[verifier::external_body]
pub(crate) fn decode_lossy(data: &[u8]) -> (r: Vec<char>)
    ensures
        r@ == lossy_of(data@),
        all_ascii(data@) ==> r@.len() == data@.len() && (forall|i: int|
            0 <= i < data@.len() ==> r@[i] as u32 == data@[i] as u32),
{
    String::from_utf8_lossy(data).chars().collect()
}

/// Relies on `String`'s `FromIterator<char>` impl: collecting characters
/// yields exactly those characters in order.
#[verifier::external_body]
pub(crate) fn chars_to_string(cs: &Vec<char>) -> (r: String)
    ensures
        r@ == cs@,
{
    cs.iter().collect()
}

/// The Unicode white-space characters, as `char::is_whitespace` counts them.
pub open spec fn is_ws(c: char) -> bool {
    let u = c as u32;
    u == 0x09 || u == 0x0A || u == 0x0B || u == 0x0C || u == 0x0D || u == 0x20 || u == 0x85
        || u == 0xA0 || u == 0x1680 || (0x2000 <= u && u <= 0x200A) || u == 0x2028 || u == 0x2029
        || u == 0x202F || u == 0x205F || u == 0x3000
}

pub(crate) fn is_ws_char(c: char) -> (r: bool)
    ensures
        r == is_ws(c),
{
    let u = c as u32;
    u == 0x09 || u == 0x0A || u == 0x0B || u == 0x0C || u == 0x0D || u == 0x20 || u == 0x85
        || u == 0xA0 || u == 0x1680 || (0x2000 <= u && u <= 0x200A) || u == 0x2028 || u == 0x2029
        || u == 0x202F || u == 0x205F || u == 0x3000
}

/// Two characters are equal up to ASCII case.
pub open spec fn char_eq_ic(a: char, b: char) -> bool {
    a == b || (65 <= a as u32 <= 90 && a as u32 + 32 == b as u32) || (65 <= b as u32 <= 90
        && b as u32 + 32 == a as u32)
}

pub(crate) fn char_eq_ic_exec(a: char, b: char) -> (r: bool)
    ensures
        r == char_eq_ic(a, b),
{
    let ua = a as u32;
    let ub = b as u32;
    a == b || (65 <= ua && ua <= 90 && ua + 32 == ub) || (65 <= ub && ub <= 90 && ub + 32 == ua)
}

/// Equality of two character sequences up to ASCII case.
pub open spec fn eq_ignore_ascii_case(a: Seq<char>, b: Seq<char>) -> bool {
    a.len() == b.len() && (forall|i: int| 0 <= i < a.len() ==> char_eq_ic(a[i], b[i]))
}

pub(crate) fn eq_ignore_ascii_case_exec(a: &Vec<char>, b: &Vec<char>) -> (r: bool)
    ensures
        r == eq_ignore_ascii_case(a@, b@),
{
    if a.len() != b.len() {
        return false;
    }
    let mut i: usize = 0;
    while i < a.len()
        invariant
            0 <= i <= a.len(),
            a.len() == b.len(),
            forall|j: int| 0 <= j < i ==> char_eq_ic(a@[j], b@[j]),
        decreases a.len() - i,
    {
        if !char_eq_ic_exec(a[i], b[i]) {
            return false;
        }
        i += 1;
    }
    true
}

/// Copy of `v[from..to]` as its own vector.
pub(crate) fn copy_range(v: &Vec<char>, from: usize, to: usize) -> (r: Vec<char>)
    requires
        from <= to <= v@.len(),
    ensures
        r@ == v@.subrange(from as int, to as int),
{
    let mut r: Vec<char> = Vec::new();
    let mut i: usize = from;
    while i < to
        invariant
            from <= i <= to <= v@.len(),
            r@ == v@.subrange(from as int, i as int),
        decreases to - i,
    {
        r.push(v[i]);
        proof {
            assert(r@ =~= v@.subrange(from as int, i as int + 1));
        }
        i += 1;
    }
    r
}

} // verus!
