use tracker_db::decimal::decimal_string;
use tracker_db::info_hash::InfoHash;

fn sample() -> InfoHash {
    let mut a = [0u8; 20];
    for (i, b) in a.iter_mut().enumerate() {
        *b = (i as u8) * 13 + 7;
    }
    InfoHash(a)
}

#[test]
fn to_string_is_lower_case_hex() {
    let h = InfoHash([0xab; 20]);
    assert_eq!(h.to_string(), "ab".repeat(20));
    let h = InfoHash([0x0f, 0x10, 0, 0, 0, 0, 0, 0, 0, 0, 0, 0, 0, 0, 0, 0, 0, 0, 0xff, 0x01]);
    assert_eq!(h.to_string(), format!("0f10{}ff01", "00".repeat(16)));
}

#[test]
fn to_string_exact_digits() {
    let h = sample();
    assert_eq!(
        h.to_string(),
        "0714212e3b4855626f7c8996a3b0bdcad7e4f1fe"
    );
    assert_eq!(h.to_string().len(), 40);
}

#[test]
fn text_round_trip() {
    let h = sample();
    assert_eq!(InfoHash::from_hex(&h.to_string()), Some(h));
}

#[test]
fn from_hex_accepts_upper_case() {
    let h = sample();
    let upper = h.to_string().to_uppercase();
    assert_eq!(InfoHash::from_hex(&upper), Some(h));
}

#[test]
fn from_hex_rejects_odd_length() {
    let text = format!("{}0", sample().to_string());
    assert_eq!(InfoHash::from_hex(&text), None);
}

#[test]
fn from_hex_rejects_non_hex() {
    let mut text = sample().to_string();
    text.replace_range(3..4, "g");
    assert_eq!(InfoHash::from_hex(&text), None);
    assert_eq!(InfoHash::from_hex(&"é".repeat(20)), None);
}

#[test]
fn from_hex_rejects_short_text() {
    let text = &sample().to_string()[..38];
    assert_eq!(InfoHash::from_hex(text), None);
    assert_eq!(InfoHash::from_hex(""), None);
}

#[test]
fn from_hex_keeps_first_twenty_bytes() {
    let text = format!("{}abcd", sample().to_string());
    assert_eq!(InfoHash::from_hex(&text), Some(sample()));
}

#[test]
fn from_bytes_needs_twenty() {
    let h = sample();
    assert_eq!(InfoHash::from_bytes(&h.0), Some(h));
    assert_eq!(InfoHash::from_bytes(&h.0[..19]), None);
    let mut longer = h.0.to_vec();
    longer.push(99);
    assert_eq!(InfoHash::from_bytes(&longer), Some(h));
}

#[test]
fn decimal_matches_display() {
    for x in [0i64, 7, 10, 42, 1000, -1, -7, -10, -12345, i64::MAX, i64::MIN] {
        assert_eq!(decimal_string(x), x.to_string());
    }
    assert_eq!(decimal_string(-305), "-305");
}
