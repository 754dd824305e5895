use vstd::prelude::*;
use sha1::Digest;
use crate::number::{decimal_digits, digits_of};
use crate::text::{chars_of, hex_bytes, hex_encode, string_of};

verus! {

/// The SHA-1 digest of `b`.
pub uninterp spec fn sha1_of(b: Seq<u8>) -> Seq<u8>;

/// Relies on sha1's `Sha1::digest`: the 20-byte SHA-1 digest of the input.
#[verifier::external_body]
fn sha1_digest(b: &[u8]) -> (r: Vec<u8>)
    ensures
        r@ == sha1_of(b@),
        r@.len() == 20,
{
    sha1::Sha1::digest(b).to_vec()
}

/// The UTF-16 code units of one character, each little-endian.
pub open spec fn utf16le_char(c: char) -> Seq<u8> {
    let v = c as u32;
    if v < 0x10000 {
        seq![(v % 0x100) as u8, (v / 0x100) as u8]
    } else {
        let w = (v - 0x10000) as u32;
        let hi = (0xD800 + w / 0x400) as u32;
        let lo = (0xDC00 + w % 0x400) as u32;
        seq![(hi % 0x100) as u8, (hi / 0x100) as u8, (lo % 0x100) as u8, (lo / 0x100) as u8]
    }
}

/// A text as UTF-16, little-endian.
pub open spec fn utf16le(s: Seq<char>) -> Seq<u8>
    decreases s.len(),
{
    if s.len() == 0 {
        Seq::empty()
    } else {
        utf16le(s.drop_last()) + utf16le_char(s.last())
    }
}

fn utf16le_bytes(s: &Vec<char>) -> (r: Vec<u8>)
    ensures
        r@ == utf16le(s@),
{
    let mut r: Vec<u8> = Vec::new();
    let mut i: usize = 0;
    while i < s.len()
        invariant
            i <= s@.len(),
            r@ == utf16le(s@.take(i as int)),
        decreases s@.len() - i,
    {
        assert(s@.take(i + 1).drop_last() =~= s@.take(i as int));
        let v: u32 = s[i] as u32;
        let ghost before = r@;
        if v < 0x10000 {
            r.push((v % 0x100) as u8);
            r.push((v / 0x100) as u8);
        } else {
            let w: u32 = v - 0x10000;
            let hi: u32 = 0xD800 + w / 0x400;
            let lo: u32 = 0xDC00 + w % 0x400;
            r.push((hi % 0x100) as u8);
            r.push((hi / 0x100) as u8);
            r.push((lo % 0x100) as u8);
            r.push((lo / 0x100) as u8);
        }
        assert(r@ =~= before + utf16le_char(s@[i as int]));
        i = i + 1;
    }
    assert(s@.take(i as int) =~= s@);
    r
}

/// The text hashed for the machine identifier: machine name, user name
/// (`username` when unknown), operating system and architecture separated by
/// a space, and the processor count.
pub open spec fn machine_text(machine: Seq<char>, user: Option<Seq<char>>, os: Seq<char>, arch: Seq<char>, cpus: nat) -> Seq<char> {
    machine + match user {
        Some(u) => u,
        None => "username"@,
    } + os + seq![' '] + arch + decimal_digits(cpus)
}

/// The five identifier bytes: a check byte that makes the five sum to zero
/// modulo 256, then the first four digest bytes.
pub open spec fn id_bytes(h: Seq<u8>) -> Seq<u8> {
    seq![((256 - (h[0] as int + h[1] as int + h[2] as int + h[3] as int) % 256) % 256) as u8, h[0], h[1], h[2], h[3]]
}

pub open spec fn ascii_chars(b: Seq<u8>) -> Seq<char> {
    b.map_values(|x: u8| x as char)
}

/// The machine identifier: the five identifier bytes of the SHA-1 digest of
/// the machine text in UTF-16, as lowercase hex.
pub open spec fn computer_id_of(machine: Seq<char>, user: Option<Seq<char>>, os: Seq<char>, arch: Seq<char>, cpus: nat) -> Seq<char> {
    ascii_chars(hex_bytes(id_bytes(sha1_of(utf16le(machine_text(machine, user, os, arch, cpus))))))
}

fn append_chars(dst: &mut Vec<char>, s: &str)
    ensures
        final(dst)@ == old(dst)@ + s@,
{
    let cs = chars_of(s);
    dst.extend_from_slice(cs.as_slice());
}

/// The identifier that the user agent carries, from what the host reports.
pub fn make_computer_id(machine_name: &str, user_name: Option<String>, os: &str, arch: &str, processor_count: usize) -> (r: String)
    ensures
        r@ == computer_id_of(machine_name@, crate::login::opt_str(user_name), os@, arch@, processor_count as nat),
{
    let mut text: Vec<char> = Vec::new();
    append_chars(&mut text, machine_name);
    match &user_name {
        Some(u) => append_chars(&mut text, u.as_str()),
        None => append_chars(&mut text, "username"),
    }
    append_chars(&mut text, os);
    text.push(' ');
    append_chars(&mut text, arch);
    let d = digits_of(processor_count as u64);
    text.extend_from_slice(d.as_slice());
    assert(text@ =~= machine_text(machine_name@, crate::login::opt_str(user_name), os@, arch@, processor_count as nat));
    let hash = sha1_digest(utf16le_bytes(&text).as_slice());
    let sum: u32 = (hash[0] as u32 + hash[1] as u32 + hash[2] as u32 + hash[3] as u32) % 256;
    let check: u8 = ((256 - sum) % 256) as u8;
    let bytes: Vec<u8> = vec![check, hash[0], hash[1], hash[2], hash[3]];
    assert(bytes@ =~= id_bytes(hash@));
    let hex = hex_encode(&bytes);
    let mut out: Vec<char> = Vec::new();
    let mut i: usize = 0;
    while i < hex.len()
        invariant
            i <= hex@.len(),
            out@ =~= ascii_chars(hex@.take(i as int)),
        decreases hex@.len() - i,
    {
        out.push(hex[i] as char);
        i = i + 1;
    }
    assert(hex@.take(i as int) =~= hex@);
    string_of(out.as_slice())
}

pub open spec fn user_agent_of(id: Seq<char>) -> Seq<char> {
    "SQEXAuthor/2.0.0(Windows 6.2; ja-jp; "@ + id + ")"@
}

/// The user agent that the login requests send.
pub fn user_agent(computer_id: &str) -> (r: String)
    ensures
        r@ == user_agent_of(computer_id@),
{
    let mut v: Vec<char> = Vec::new();
    append_chars(&mut v, "SQEXAuthor/2.0.0(Windows 6.2; ja-jp; ");
    append_chars(&mut v, computer_id);
    append_chars(&mut v, ")");
    string_of(v.as_slice())
}

} // verus!
