use vstd::prelude::*;

verus! {

pub open spec fn is_digit(c: char) -> bool {
    '0' <= c <= '9'
}

pub open spec fn digit_value(c: char) -> nat {
    (c as u32 - '0' as u32) as nat
}

/// The value of a string of decimal digits.
pub open spec fn decimal_value(d: Seq<char>) -> nat
    decreases d.len(),
{
    if d.len() == 0 {
        0
    } else {
        decimal_value(d.drop_last()) * 10 + digit_value(d.last())
    }
}

pub open spec fn all_digits(d: Seq<char>) -> bool {
    forall|i: int| 0 <= i < d.len() ==> is_digit(#[trigger] d[i])
}

/// `s` without one leading `+`.
pub open spec fn unsigned_part(s: Seq<char>) -> Seq<char> {
    if s.len() > 0 && s[0] == '+' { s.skip(1) } else { s }
}

/// What `str::parse::<u8>` gives: an optional `+`, then one or more decimal
/// digits whose value is at most 255.
pub open spec fn parsed_u8(s: Seq<char>) -> Option<u8> {
    let d = unsigned_part(s);
    if d.len() == 0 || !all_digits(d) {
        None
    } else if decimal_value(d) > 255 {
        None
    } else {
        Some(decimal_value(d) as u8)
    }
}

pub fn parse_u8(s: &str) -> (r: Option<u8>)
    ensures
        r == parsed_u8(s@),
{
    let cs = crate::text::chars_of(s);
    let start: usize = if cs.len() > 0 && cs[0] == '+' { 1 } else { 0 };
    let ghost d = unsigned_part(s@);
    assert(d =~= cs@.skip(start as int));
    if start == cs.len() {
        return None;
    }
    let mut val: u32 = 0;
    let mut i: usize = start;
    while i < cs.len()
        invariant
            start <= i <= cs@.len(),
            cs@ == s@,
            d == unsigned_part(s@),
            d =~= cs@.skip(start as int),
            forall|k: int| 0 <= k < i - start ==> is_digit(#[trigger] d[k]),
            val as nat == if decimal_value(d.take(i - start)) > 256 { 256 } else { decimal_value(d.take(i - start)) },
        decreases cs@.len() - i,
    {
        let c = cs[i];
        if !('0' <= c && c <= '9') {
            assert(d[i - start] == cs@[i as int]);
            assert(!is_digit(d[i - start]));
            assert(!all_digits(d));
            return None;
        }
        let ghost before = d.take(i - start);
        assert(d.take(i + 1 - start).drop_last() =~= before);
        let dv: u32 = c as u32 - '0' as u32;
        let next: u32 = val * 10 + dv;
        val = if next > 256 { 256 } else { next };
        proof {
            let x = decimal_value(before);
            assert(decimal_value(d.take(i + 1 - start)) == x * 10 + dv);
            if x > 256 {
                assert(x * 10 + dv > 256) by (nonlinear_arith)
                    requires
                        x > 256,
                ;
            }
        }
        i = i + 1;
    }
    assert(d.take(i - start) =~= d);
    assert(all_digits(d));
    if val > 255 {
        None
    } else {
        Some(val as u8)
    }
}

/// The decimal digits of `n`, most significant first, `0` for zero.
pub open spec fn decimal_digits(n: nat) -> Seq<char>
    decreases n,
{
    if n < 10 {
        seq![(n + 48) as char]
    } else {
        decimal_digits(n / 10).push(((n % 10) + 48) as char)
    }
}

/// What `to_string` gives for an integer: a `-` before negative values.
pub open spec fn decimal_text(n: int) -> Seq<char> {
    if n < 0 {
        seq!['-'] + decimal_digits((-n) as nat)
    } else {
        decimal_digits(n as nat)
    }
}

pub fn digits_of(n: u64) -> (r: Vec<char>)
    ensures
        r@ == decimal_digits(n as nat),
    decreases n,
{
    if n < 10 {
        let c = ((n + 48) as u8) as char;
        vec![c]
    } else {
        let mut r = digits_of(n / 10);
        let c = ((n % 10 + 48) as u8) as char;
        r.push(c);
        r
    }
}

pub fn decimal_string(n: i32) -> (r: String)
    ensures
        r@ == decimal_text(n as int),
{
    if n < 0 {
        let mut v: Vec<char> = vec!['-'];
        let d = digits_of((0 - (n as i64)) as u64);
        v.extend_from_slice(d.as_slice());
        assert(v@ =~= seq!['-'] + decimal_digits((-n) as nat));
        crate::text::string_of(v.as_slice())
    } else {
        let d = digits_of(n as u64);
        crate::text::string_of(d.as_slice())
    }
}

} // verus!
