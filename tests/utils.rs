use blockchain::bits::{compact_of, parse_target, target_text};
use blockchain::digest::hash_bytes;
use blockchain::text::decimal_text;
use blockchain::utils::{account_id_from_seed, generate_account_id, get_bits_from_hash, get_timestamp};

#[test]
fn test_generate() {
    println!("{}", generate_account_id());
}

#[test]
fn generated_ids_are_hex_digests() {
    let a = generate_account_id();
    let b = generate_account_id();
    assert_eq!(a.len(), 64);
    assert!(a.chars().all(|c| c.is_ascii_hexdigit() && !c.is_ascii_uppercase()));
    assert_ne!(a, b);
}

#[test]
fn account_id_depends_on_seed() {
    let a = account_id_from_seed(0);
    let b = account_id_from_seed(1);
    assert_eq!(a.len(), 64);
    assert_ne!(a, b);
    assert_eq!(a, account_id_from_seed(0));
}

#[test]
fn blake2s_test_vectors() {
    assert_eq!(
        hash_bytes(b""),
        "69217a3079908094e11121d042354a7c1f55b6482ca1a51e1b250dfd1ed0eef9"
    );
    assert_eq!(
        hash_bytes(b"abc"),
        "508c5e8c327c14e2e1a72ba34eeb452f37458b209ed63a294d999b4c86675982"
    );
}

fn hash_of(prefix: &str, fill: char) -> String {
    let mut s = prefix.to_string();
    while s.len() < 64 {
        s.push(fill);
    }
    s
}

#[test]
fn bits_of_a_hash_without_leading_zeros() {
    assert_eq!(get_bits_from_hash(hash_of("123456", '7')), 0x20123456);
}

#[test]
fn bits_pad_coefficient_with_leading_zeros() {
    assert_eq!(get_bits_from_hash(hash_of("0000ab0000", '1')), 0x200000ab);
}

#[test]
fn bits_round_odd_length_up() {
    assert_eq!(get_bits_from_hash(hash_of("0123456", '7')), 0x20123456);
    assert_eq!(get_bits_from_hash(hash_of("00000", 'f')), 0x1effffff);
    assert_eq!(get_bits_from_hash("1000000".to_string()), 0x06000001);
}

#[test]
fn hashes_without_compact_value() {
    assert_eq!(compact_of(&hash_of("", '0')), None);
    assert_eq!(compact_of("0000001"), None);
    assert_eq!(compact_of("12345g"), None);
    assert_eq!(compact_of("ABCDEF"), None);
    assert_eq!(compact_of("abcdef"), Some(0x03abcdef));
}

#[test]
fn target_text_round_trip() {
    assert_eq!(parse_target("1effffff"), Some(0x1effffff));
    assert_eq!(parse_target("0"), Some(0));
    assert_eq!(parse_target(""), None);
    assert_eq!(parse_target("80000000"), None);
    assert_eq!(parse_target("7fffffff"), Some(i32::MAX));
    assert_eq!(parse_target("xyz"), None);
    assert_eq!(target_text(0x1effffff), "1effffff");
    assert_eq!(target_text(0), "0");
    assert_eq!(target_text(255), "ff");
}

#[test]
fn decimal_texts() {
    assert_eq!(decimal_text(0), "0");
    assert_eq!(decimal_text(1907), "1907");
}

#[test]
fn clock_is_past_the_epoch() {
    assert!(get_timestamp() > 1_600_000_000);
}
