use ffxiv_login::chunk::chunks_upto;
use ffxiv_login::crt_rand::CrtRand;
use ffxiv_login::ticket::Ticket;

#[test]
fn keystream_matches_c_runtime() {
    let mut r = CrtRand::new(1);
    assert_eq!(r.next(), 41);
    assert_eq!(r.next(), 18467);
    assert_eq!(r.next(), 6334);
}

#[test]
fn keystream_is_deterministic_and_bounded() {
    let mut a = CrtRand::new(0xDEADBEEF);
    let mut b = CrtRand::new(0xDEADBEEF);
    for _ in 0..1000 {
        let x = a.next();
        assert_eq!(x, b.next());
        assert!(x <= 0x7FFF);
    }
}

#[test]
fn chunks_cut_at_size() {
    let s: Vec<char> = std::iter::repeat('a').take(650).collect();
    let parts = chunks_upto(&s, 300);
    assert_eq!(parts.len(), 3);
    assert_eq!(parts[0].len(), 300);
    assert_eq!(parts[1].len(), 300);
    assert_eq!(parts[2].len(), 50);
    assert!(chunks_upto(&Vec::new(), 300).is_empty());
    let exact: Vec<char> = "abcdef".chars().collect();
    assert_eq!(chunks_upto(&exact, 3), vec!["abc".to_string(), "def".to_string()]);
}

#[test]
fn short_ticket_is_one_block() {
    let t = Ticket::parse(vec![0xAB], 1_700_000_000).unwrap();
    // one byte gives three hex bytes with the terminator, padded to one 8-byte block
    assert_eq!(t.length, 12);
    assert_eq!(t.text.len(), 12);
    assert!(t.text.ends_with('*'));
    assert!(!t.text.contains('='));
    assert!(!t.text.contains(','));
}

#[test]
fn ticket_encoding_is_deterministic() {
    let raw: Vec<u8> = (0..=255u8).collect();
    let a = Ticket::parse(raw.clone(), 1_700_000_123).unwrap();
    let b = Ticket::parse(raw, 1_700_000_123).unwrap();
    assert_eq!(a.text, b.text);
    assert_eq!(a.length, b.length);
}

#[test]
fn ticket_time_is_rounded_to_minute() {
    // both times, less five seconds, fall in the minute that starts at 1_700_000_040
    let a = Ticket::parse(vec![1, 2, 3], 1_700_000_045).unwrap();
    let b = Ticket::parse(vec![1, 2, 3], 1_700_000_099).unwrap();
    assert_eq!(a.text, b.text);
    let c = Ticket::parse(vec![1, 2, 3], 1_700_000_044).unwrap();
    assert_ne!(a.text, c.text);
}

#[test]
fn long_ticket_is_split_and_length_skips_commas() {
    let raw: Vec<u8> = (0..200u32).map(|i| (i * 7 % 256) as u8).collect();
    let t = Ticket::parse(raw, 1_700_000_000).unwrap();
    // 401 terminated hex bytes pad to 408, which base64 writes in 544 characters
    assert_eq!(t.length, 544);
    assert_eq!(t.text.len(), 545);
    assert_eq!(t.text.find(','), Some(300));
    assert_eq!(t.text.matches(',').count(), 1);
    assert_eq!(t.text.len() - t.text.matches(',').count(), t.length as usize);
}

#[test]
fn ticket_known_encodings() {
    let t = Ticket::parse(vec![0xAB], 1_700_000_000).unwrap();
    assert_eq!(t.text, "G5Oj5mvMT0U*");
    assert_eq!(t.length, 12);
    let t = Ticket::parse(vec![1, 2, 3], 1_700_000_045).unwrap();
    assert_eq!(t.text, "xubzir35sJJK0afD1y4CIQ**");
    assert_eq!(t.length, 24);
}

#[test]
fn ticket_of_zeros_is_split_once() {
    let t = Ticket::parse(vec![0u8; 120], 1000).unwrap();
    assert_eq!(t.length, 332);
    assert_eq!(t.text.len(), 333);
    assert_eq!(t.text.as_bytes()[300], b',');
    assert_eq!(t.text.matches(',').count(), 1);
    assert!(t.text.ends_with('*'));
    assert!(t.text.chars().all(|c| c.is_ascii_alphanumeric() || "-_*,".contains(c)));
}
