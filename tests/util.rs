use constellation::{Hex, Rand, ToHex};

#[test]
fn hex_of_bytes() {
    let bytes: &[u8] = &[0x00, 0x1f, 0xa0, 0xff];
    let s: String = bytes.to_hex().to_chars().into_iter().collect();
    assert_eq!(s, "001fa0ff");
    let empty: &[u8] = &[];
    assert!(empty.to_hex().to_chars().is_empty());
}

#[test]
fn hex_one_digit_at_a_time() {
    let bytes: &[u8] = &[0xab, 0x09];
    let mut h = Hex::new(bytes);
    assert_eq!(h.next(), Some('a'));
    assert_eq!(h.next(), Some('b'));
    assert_eq!(h.to_chars(), vec!['0', '9']);
    assert_eq!(h.next(), Some('0'));
    assert_eq!(h.next(), Some('9'));
    assert_eq!(h.next(), None);
    assert_eq!(h.next(), None);
}

#[test]
fn rand_keeps_first_then_draws() {
    let mut r: Rand<char> = Rand::new();
    r.push('a', 5);
    r.push('b', 1);
    r.push('c', 0);
    r.push('d', 3);
    assert_eq!(r.get(), Some('c'));
    let empty: Rand<u8> = Rand::default();
    assert_eq!(empty.get(), None);
}

#[test]
fn rand_picks_each_item() {
    let mut seen = [false; 4];
    for _ in 0..400 {
        let mut r: Rand<usize> = Rand::new();
        for i in 0..4 {
            r.push_random(i);
        }
        seen[r.get().unwrap()] = true;
    }
    assert_eq!(seen, [true; 4]);
}
