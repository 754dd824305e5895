use vstd::prelude::*;
use crate::crt_rand::{CrtRand, crt_output, crt_state_after};
use crate::error::Error;
use crate::chunk::{chunks, chunks_upto, join_commas, join_with_commas, lemma_join_chunks_len};
use crate::cipher::{base64_url, base64_url_of, blowfish_block_of, blowfish_encrypt_block, is_base64_url_char};
use crate::text::{chars_of, string_of};
use crate::text::{hex_bytes, hex_byte, hex_digit, hex_encode};

verus! {

/// The server timestamp as the ticket uses it: five seconds earlier, rounded
/// down to a whole minute.
pub open spec fn adjusted_time(time: u32) -> u32 {
    ((time - 5) - (time - 5) % 60) as u32
}

/// The raw ticket rendered as lowercase hex, as bytes, with a zero terminator.
pub open spec fn terminated_hex(ticket: Seq<u8>) -> Seq<u8> {
    hex_bytes(ticket).push(0u8)
}

/// The plain sum of a byte sequence.
pub open spec fn byte_sum(s: Seq<u8>) -> nat
    decreases s.len(),
{
    if s.len() == 0 {
        0
    } else {
        (byte_sum(s.drop_last()) + s.last()) as nat
    }
}

/// The 16-bit wrapping checksum of the terminated hex text.
pub open spec fn ticket_sum(ticket: Seq<u8>) -> u16 {
    (byte_sum(terminated_hex(ticket)) % 0x10000) as u16
}

/// The seed of the padding keystream: the checksum's bits read as a signed
/// 16-bit value, sign-extended to 32 bits, xor the adjusted time.
pub open spec fn padding_seed(ticket: Seq<u8>, time: u32) -> u32 {
    let s = ticket_sum(ticket);
    let wide: u32 = if s >= 0x8000 { (s as u32 + 0xFFFF_0000u32) as u32 } else { s as u32 };
    adjusted_time(time) ^ wide
}

/// How many padding bytes follow the 2-byte header and `len` ticket bytes.
pub open spec fn padding_len(len: nat) -> nat {
    (((len + 9) / 8) * 8 - 2 - len) as nat
}

/// The symbol at `i` of the padding alphabet: digits, upper case, lower case,
/// `-` and `_`.
pub open spec fn alphabet_byte(i: int) -> u8 {
    if i < 10 {
        (48 + i) as u8
    } else if i < 36 {
        (55 + i) as u8
    } else if i < 62 {
        (61 + i) as u8
    } else if i == 62 {
        45u8
    } else {
        95u8
    }
}

pub fn alphabet_symbol(i: u32) -> (r: u8)
    requires
        i < 64,
    ensures
        r == alphabet_byte(i as int),
{
    if i < 10 {
        (48 + i) as u8
    } else if i < 36 {
        (55 + i) as u8
    } else if i < 62 {
        (61 + i) as u8
    } else if i == 62 {
        45u8
    } else {
        95u8
    }
}

/// The first `k` padding bytes and the running sum after them, starting from
/// the sum `mix0` and the keystream seeded with `seed`.
pub open spec fn padding_state(mix0: u32, seed: u32, k: nat) -> (Seq<u8>, u32)
    decreases k,
{
    if k == 0 {
        (Seq::empty(), mix0)
    } else {
        let prev = padding_state(mix0, seed, (k - 1) as nat);
        let idx = (prev.1 as int + crt_output(crt_state_after(seed, k)) as int) % 64;
        let c = alphabet_byte(idx);
        (prev.0.push(c), ((prev.1 as int + c as int) % 0x1_0000_0000) as u32)
    }
}

/// The first four bytes of the header-plus-ticket buffer, little-endian.
pub open spec fn initial_mix(ticket: Seq<u8>) -> u32 {
    let raw = terminated_hex(ticket);
    (ticket_sum(ticket) as int + raw[0] as int * 0x10000 + raw[1] as int * 0x100_0000) as u32
}

pub open spec fn final_padding(ticket: Seq<u8>, time: u32) -> (Seq<u8>, u32) {
    padding_state(
        initial_mix(ticket),
        padding_seed(ticket, time),
        padding_len(terminated_hex(ticket).len()),
    )
}

/// The buffer handed to the cipher: the final running sum little-endian with
/// its first two bytes swapped, the terminated hex text past its first two
/// bytes, then the padding.
pub open spec fn plain_buffer(ticket: Seq<u8>, time: u32) -> Seq<u8> {
    let m = final_padding(ticket, time).1;
    seq![((m / 0x100) % 0x100) as u8, (m % 0x100) as u8, ((m / 0x10000) % 0x100) as u8, (m / 0x100_0000) as u8]
        + terminated_hex(ticket).skip(2) + final_padding(ticket, time).0
}

pub open spec fn valid_ticket_input(ticket: Seq<u8>, time: u32) -> bool {
    1 <= ticket.len() <= 0x0fff_ffff && time >= 5
}

fn terminated_hex_of(ticket: &Vec<u8>) -> (r: Vec<u8>)
    requires
        ticket@.len() <= 0x0fff_ffff,
    ensures
        r@ == terminated_hex(ticket@),
{
    let mut r = hex_encode(ticket);
    r.push(0u8);
    r
}

fn checksum(raw: &Vec<u8>) -> (r: u16)
    ensures
        r as nat == byte_sum(raw@) % 0x10000,
{
    let mut sum: u16 = 0;
    let mut i: usize = 0;
    while i < raw.len()
        invariant
            i <= raw@.len(),
            sum as nat == byte_sum(raw@.take(i as int)) % 0x10000,
        decreases raw@.len() - i,
    {
        assert(raw@.take(i + 1).drop_last() =~= raw@.take(i as int));
        sum = ((sum as u32 + raw[i] as u32) % 0x10000) as u16;
        i = i + 1;
    }
    assert(raw@.take(i as int) =~= raw@);
    sum
}

fn make_padding(mix0: u32, seed: u32, count: usize) -> (r: (Vec<u8>, u32))
    ensures
        r.0@ == padding_state(mix0, seed, count as nat).0,
        r.1 == padding_state(mix0, seed, count as nat).1,
{
    let mut rand = CrtRand::new(seed);
    let mut garbage: Vec<u8> = Vec::new();
    let mut mix: u32 = mix0;
    let mut i: usize = 0;
    while i < count
        invariant
            i <= count,
            rand.state() == crt_state_after(seed, i as nat),
            garbage@ == padding_state(mix0, seed, i as nat).0,
            mix == padding_state(mix0, seed, i as nat).1,
        decreases count - i,
    {
        let x = rand.next();
        let w: u32 = ((mix as u64 + x as u64) % 0x1_0000_0000u64) as u32;
        let idx: u32 = w & 0x3Fu32;
        proof {
            assert(w & 0x3F == w % 64) by (bit_vector);
            assert(((mix as int + x as int) % 0x1_0000_0000) % 64 == (mix as int + x as int) % 64)
                by (nonlinear_arith);
        }
        let c = alphabet_symbol(idx);
        garbage.push(c);
        mix = ((mix as u64 + c as u64) % 0x1_0000_0000u64) as u32;
        i = i + 1;
    }
    (garbage, mix)
}

/// Hex digit `i` (0 is the most significant) of the eight-digit rendering of `t`.
pub open spec fn nibble(t: u32, i: int) -> u8 {
    ((t >> ((28 - 4 * i) as u32)) & 0xFu32) as u8
}

/// The cipher key: the adjusted time as eight lowercase hex digits, then `#un@e=x>`.
pub open spec fn key_bytes(t: u32) -> Seq<u8> {
    Seq::new(8, |i: int| hex_byte(nibble(t, i)))
        + seq![35u8, 117u8, 110u8, 64u8, 101u8, 61u8, 120u8, 62u8]
}

/// The first `k` blocks of `data`, each encrypted on its own under `key`.
pub open spec fn ecb(key: Seq<u8>, data: Seq<u8>, k: nat) -> Seq<u8>
    decreases k,
{
    if k == 0 {
        Seq::empty()
    } else {
        ecb(key, data, (k - 1) as nat) + blowfish_block_of(key, data.subrange(8 * (k - 1), 8 * k as int))
    }
}

/// `s` with every `=` turned into `*`.
pub open spec fn starred(s: Seq<char>) -> Seq<char> {
    Seq::new(s.len(), |i: int| if s[i] == '=' { '*' } else { s[i] })
}

pub open spec fn cipher_text(ticket: Seq<u8>, time: u32) -> Seq<u8> {
    let plain = plain_buffer(ticket, time);
    ecb(key_bytes(adjusted_time(time)), plain, plain.len() / 8)
}

/// The encoded ticket before it is cut into pieces.
pub open spec fn encoded_ticket(ticket: Seq<u8>, time: u32) -> Seq<char> {
    starred(base64_url_of(cipher_text(ticket, time)))
}

/// Size of one piece of the ticket text.
pub const SPLIT_SIZE: usize = 300;

/// A character of the encoded ticket: the URL-safe base64 alphabet, with `*`
/// in place of padding.
pub open spec fn is_ticket_char(c: char) -> bool {
    ('A' <= c <= 'Z') || ('a' <= c <= 'z') || ('0' <= c <= '9') || c == '-' || c == '_' || c == '*'
}

/// The length of the buffer handed to the cipher for a ticket of `n` bytes.
pub open spec fn plain_len(n: nat) -> nat {
    ((2 * n + 10) / 8) * 8
}

/// The ticket text: the encoded ticket cut into pieces of 300 characters,
/// joined with commas.
pub open spec fn ticket_text(ticket: Seq<u8>, time: u32) -> Seq<char> {
    join_commas(chunks(encoded_ticket(ticket, time), SPLIT_SIZE as nat))
}

/// An encoded platform ticket: the text sent to the server, and its length
/// without the separating commas.
pub struct Ticket {
    pub text: String,
    pub length: u16,
}

fn key_for(t: u32) -> (r: Vec<u8>)
    ensures
        r@ == key_bytes(t),
{
    let mut r: Vec<u8> = Vec::new();
    let mut i: u32 = 0;
    while i < 8
        invariant
            i <= 8,
            r@ == Seq::new(i as nat, |j: int| hex_byte(nibble(t, j))),
        decreases 8 - i,
    {
        let sh: u32 = 28 - 4 * i;
        let n: u32 = (t >> sh) & 0xFu32;
        assert(n < 16) by (bit_vector)
            requires
                n == (t >> sh) & 0xFu32,
        ;
        r.push(hex_digit(n as u8));
        i = i + 1;
        assert(r@ =~= Seq::new(i as nat, |j: int| hex_byte(nibble(t, j))));
    }
    r.push(35u8);
    r.push(117u8);
    r.push(110u8);
    r.push(64u8);
    r.push(101u8);
    r.push(61u8);
    r.push(120u8);
    r.push(62u8);
    assert(r@ =~= key_bytes(t));
    r
}

fn encrypt(key: &Vec<u8>, data: &Vec<u8>) -> (r: Result<Vec<u8>, Error>)
    requires
        data@.len() % 8 == 0,
        data@.len() > 0,
    ensures
        r is Ok <==> 4 <= key@.len() <= 56,
        r is Ok ==> r->Ok_0@ == ecb(key@, data@, data@.len() / 8),
        r is Ok ==> r->Ok_0@.len() == data@.len(),
        r is Err ==> r->Err_0 == Error::InvalidLength,
{
    let mut out: Vec<u8> = Vec::new();
    let mut s: usize = 0;
    while s < data.len()
        invariant
            data@.len() % 8 == 0,
            s > 0 ==> 4 <= key@.len() <= 56,
            s % 8 == 0,
            s <= data@.len(),
            out@ == ecb(key@, data@, s as nat / 8),
            out@.len() == s,
        decreases data@.len() - s,
    {
        let block = vstd::slice::slice_subrange(data.as_slice(), s, s + 8);
        match blowfish_encrypt_block(key.as_slice(), block) {
            Ok(b) => {
                let mut j: usize = 0;
                let ghost before = out@;
                while j < 8
                    invariant
                        b@.len() == 8,
                        j <= 8,
                        out@ == before + b@.take(j as int),
                    decreases 8 - j,
                {
                    out.push(b[j]);
                    j = j + 1;
                    assert(out@ =~= before + b@.take(j as int));
                }
                assert(b@.take(8) =~= b@);
                assert((s + 8) as nat / 8 == s as nat / 8 + 1);
                assert(data@.subrange(8 * (s as int / 8), 8 * ((s + 8) as int / 8)) =~= block@);
                s = s + 8;
            },
            Err(_) => {
                return Err(Error::InvalidLength);
            },
        }
    }
    Ok(out)
}

fn star_padding(s: &Vec<char>) -> (r: Vec<char>)
    ensures
        r@ == starred(s@),
{
    let mut r: Vec<char> = Vec::new();
    let mut i: usize = 0;
    while i < s.len()
        invariant
            i <= s@.len(),
            r@ =~= starred(s@).take(i as int),
        decreases s@.len() - i,
    {
        if s[i] == '=' {
            r.push('*');
        } else {
            r.push(s[i]);
        }
        i = i + 1;
    }
    assert(r@ =~= starred(s@));
    r
}

proof fn lemma_plain_len(ticket: Seq<u8>, time: u32)
    requires
        valid_ticket_input(ticket, time),
    ensures
        plain_buffer(ticket, time).len() == ((terminated_hex(ticket).len() + 9) / 8) * 8,
        plain_buffer(ticket, time).len() % 8 == 0,
        plain_buffer(ticket, time).len() > 0,
{
    let l = terminated_hex(ticket).len();
    assert(l == 2 * ticket.len() + 1);
    lemma_padding_len(initial_mix(ticket), padding_seed(ticket, time), padding_len(l));
}

proof fn lemma_padding_len(mix0: u32, seed: u32, k: nat)
    ensures
        padding_state(mix0, seed, k).0.len() == k,
    decreases k,
{
    if k > 0 {
        lemma_padding_len(mix0, seed, (k - 1) as nat);
    }
}

fn build_plain(ticket: &Vec<u8>, time: u32) -> (r: Vec<u8>)
    requires
        valid_ticket_input(ticket@, time),
    ensures
        r@ == plain_buffer(ticket@, time),
{
    let t: u32 = (time - 5) - (time - 5) % 60;
    let raw = terminated_hex_of(ticket);
    let sum = checksum(&raw);
    let wide: u32 = if sum >= 0x8000 { sum as u32 + 0xFFFF_0000u32 } else { sum as u32 };
    let seed: u32 = t ^ wide;
    assert(raw@.len() == 2 * ticket@.len() + 1);
    let count: usize = ((raw.len() + 9) / 8) * 8 - 2 - raw.len();
    let mix0: u32 = sum as u32 + raw[0] as u32 * 0x10000 + raw[1] as u32 * 0x100_0000;
    let (garbage, mix) = make_padding(mix0, seed, count);
    let mut buffer: Vec<u8> = Vec::new();
    buffer.push(((mix / 0x100) % 0x100) as u8);
    buffer.push((mix % 0x100) as u8);
    buffer.push(((mix / 0x10000) % 0x100) as u8);
    buffer.push((mix / 0x100_0000) as u8);
    buffer.extend_from_slice(vstd::slice::slice_subrange(raw.as_slice(), 2, raw.len()));
    buffer.extend_from_slice(garbage.as_slice());
    assert(buffer@ =~= plain_buffer(ticket@, time));
    buffer
}

/// The reported ticket length: the encoded ticket's character count, without
/// separators, kept to 16 bits.
pub open spec fn ticket_length(ticket: Seq<u8>, time: u32) -> u16 {
    (encoded_ticket(ticket, time).len() % 0x10000) as u16
}

fn text_of_cipher(enc: &Vec<u8>) -> (r: Ticket)
    ensures
        r.text@ == join_commas(chunks(starred(base64_url_of(enc@)), SPLIT_SIZE as nat)),
        r.length == (starred(base64_url_of(enc@)).len() % 0x10000) as u16,
        starred(base64_url_of(enc@)).len() == 4 * ((enc@.len() + 2) / 3),
        forall|i: int| 0 <= i < starred(base64_url_of(enc@)).len()
            ==> is_ticket_char(#[trigger] starred(base64_url_of(enc@))[i]),
        forall|i: int| 0 <= i < starred(base64_url_of(enc@)).len() && #[trigger] starred(base64_url_of(enc@))[i] == '*'
            ==> i + 2 >= starred(base64_url_of(enc@)).len(),
        enc@.len() > 0 ==> r.text@.len() == starred(base64_url_of(enc@)).len()
            + chunks(starred(base64_url_of(enc@)), SPLIT_SIZE as nat).len() - 1,
{
    let b64 = base64_url(enc.as_slice());
    let cs = chars_of(b64.as_str());
    let stars = star_padding(&cs);
    proof {
        let b = base64_url_of(enc@);
        assert forall|i: int| 0 <= i < stars@.len() implies is_ticket_char(#[trigger] stars@[i]) by {
            assert(is_base64_url_char(b[i]));
        }
        assert forall|i: int| 0 <= i < stars@.len() && #[trigger] stars@[i] == '*' implies i + 2 >= stars@.len() by {
            assert(is_base64_url_char(b[i]));
            assert(b[i] == '=');
        }
    }
    let parts = chunks_upto(&stars, SPLIT_SIZE);
    let joined = join_with_commas(&parts);
    let text = string_of(joined.as_slice());
    let n: usize = if stars.len() == 0 {
        0
    } else {
        proof {
            lemma_join_chunks_len(stars@, SPLIT_SIZE as nat);
        }
        joined.len() - (parts.len() - 1)
    };
    Ticket { text, length: (n % 0x10000) as u16 }
}

impl Ticket {
    /// Encodes a raw platform ticket for the server time `time`.
    pub fn parse(ticket: Vec<u8>, time: u32) -> (r: Result<Ticket, Error>)
        requires
            valid_ticket_input(ticket@, time),
        ensures
            r is Ok,
            r->Ok_0.text@ == ticket_text(ticket@, time),
            r->Ok_0.length == ticket_length(ticket@, time),
            plain_buffer(ticket@, time).len() == plain_len(ticket@.len()),
            plain_buffer(ticket@, time).len() % 8 == 0,
            encoded_ticket(ticket@, time).len() == 4 * ((plain_len(ticket@.len()) + 2) / 3),
            forall|i: int| 0 <= i < encoded_ticket(ticket@, time).len()
                ==> is_ticket_char(#[trigger] encoded_ticket(ticket@, time)[i]),
            forall|i: int| 0 <= i < encoded_ticket(ticket@, time).len()
                && #[trigger] encoded_ticket(ticket@, time)[i] == '*' ==> i + 2 >= encoded_ticket(ticket@, time).len(),
            r->Ok_0.text@.len() == encoded_ticket(ticket@, time).len()
                + chunks(encoded_ticket(ticket@, time), SPLIT_SIZE as nat).len() - 1,
    {
        let t: u32 = (time - 5) - (time - 5) % 60;
        let buffer = build_plain(&ticket, time);
        proof {
            lemma_plain_len(ticket@, time);
        }

        let key = key_for(t);
        let enc = match encrypt(&key, &buffer) {
            Ok(e) => e,
            Err(e) => {
                return Err(e);
            },
        };
        Ok(text_of_cipher(&enc))
    }
}

/// Encoding is a function of the raw ticket and the time alone, so two
/// encodings of one input agree; and the buffer handed to the cipher is a
/// whole number of 8-byte blocks. (`Ticket::parse` states the text's layout:
/// its length is the reported length plus one comma between each two pieces.)
pub proof fn lemma_ticket_encoding(ticket: Seq<u8>, time: u32, first: Ticket, second: Ticket)
    requires
        valid_ticket_input(ticket, time),
        first.text@ == ticket_text(ticket, time) && first.length == ticket_length(ticket, time),
        second.text@ == ticket_text(ticket, time) && second.length == ticket_length(ticket, time),
    ensures
        first.text@ == second.text@,
        first.length == second.length,
        plain_buffer(ticket, time).len() % 8 == 0,
        plain_buffer(ticket, time).len() == plain_len(ticket.len()),
{
    lemma_plain_len(ticket, time);
}

} // verus!
