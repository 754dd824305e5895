use vstd::prelude::*;

verus! {

/// Relies on str::chars: the characters of `s`, in order.
#[verifier::external_body]
pub(crate) fn chars_of(s: &str) -> (r: Vec<char>)
    ensures
        r@ == s@,
{
    s.chars().collect()
}

/// Relies on String's FromIterator<&char>: the string made of `v`'s characters.
#[verifier::external_body]
pub(crate) fn string_of(v: &[char]) -> (r: String)
    ensures
        r@ == v@,
{
    v.iter().collect()
}

/// Whether `s` holds `pat` at position `i`.
pub open spec fn occurs_at(s: Seq<char>, pat: Seq<char>, i: int) -> bool {
    0 <= i && i + pat.len() <= s.len() && s.subrange(i, i + pat.len()) == pat
}

pub fn matches_at(s: &Vec<char>, pat: &Vec<char>, i: usize) -> (r: bool)
    ensures
        r == occurs_at(s@, pat@, i as int),
{
    if i > s.len() || pat.len() > s.len() - i {
        return false;
    }
    let mut j: usize = 0;
    while j < pat.len()
        invariant
            i + pat.len() <= s.len(),
            j <= pat.len(),
            forall|k: int| 0 <= k < j ==> s@[i + k] == pat@[k],
        decreases pat.len() - j,
    {
        if s[i + j] != pat[j] {
            assert(s@.subrange(i as int, i + pat.len())[j as int] != pat@[j as int]);
            return false;
        }
        j = j + 1;
    }
    assert(s@.subrange(i as int, i + pat.len()) =~= pat@);
    true
}

/// The lowercase hexadecimal digit, as an ASCII byte, of a value below 16.
pub open spec fn hex_byte(n: u8) -> u8 {
    if n < 10 {
        (48 + n) as u8
    } else {
        (87 + n) as u8
    }
}

pub fn hex_digit(n: u8) -> (r: u8)
    requires
        n < 16,
    ensures
        r == hex_byte(n),
{
    if n < 10 {
        48 + n
    } else {
        87 + n
    }
}

/// Lowercase hexadecimal text of `b` as ASCII bytes, two digits per byte,
/// high digit first.
pub open spec fn hex_bytes(b: Seq<u8>) -> Seq<u8> {
    Seq::new(
        2 * b.len(),
        |i: int| if i % 2 == 0 { hex_byte(b[i / 2] / 16) } else { hex_byte(b[i / 2] % 16) },
    )
}

pub fn hex_encode(b: &Vec<u8>) -> (r: Vec<u8>)
    requires
        b@.len() <= 0x3fff_ffff,
    ensures
        r@ == hex_bytes(b@),
{
    let mut r: Vec<u8> = Vec::new();
    let mut i: usize = 0;
    while i < b.len()
        invariant
            i <= b@.len(),
            b@.len() <= 0x3fff_ffff,
            r@ =~= hex_bytes(b@.take(i as int)),
        decreases b@.len() - i,
    {
        let x = b[i];
        r.push(hex_digit(x / 16));
        r.push(hex_digit(x % 16));
        i = i + 1;
        assert(r@ =~= hex_bytes(b@.take(i as int)));
    }
    assert(b@.take(i as int) =~= b@);
    r
}

} // verus!
