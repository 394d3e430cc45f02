use effer::encryption::{decrypt_bytes, encrypt_text, CryptoError};
use sodiumoxide::crypto::aead;
use sodiumoxide::crypto::aead::chacha20poly1305_ietf as ietf;
use sodiumoxide::crypto::pwhash;
use effer::globals::Globals;
use effer::text::{
    count_of, join_lines, lines, parse_uint, split_char, split_whitespace, starts_with, text_after_last, trim,
    usize_to_string,
};

fn hex(b: &[u8]) -> Vec<u8> {
    b.iter().map(|x| format!("{:02x}", x)).collect::<String>().into_bytes()
}

fn plain() -> Globals {
    Globals::new()
}

#[test]
fn plain_notes_open_to_what_was_sealed() {
    let g = plain();
    let bytes = encrypt_text(&g, "hello\nworld").unwrap();
    assert!(bytes.starts_with(b"0400"));
    assert!(bytes.iter().all(|c| c.is_ascii_hexdigit()));
    assert!(bytes.ends_with(hex(b"hello\nworld").as_slice()));
    let mut h = plain();
    h.derivation = 2;
    assert_eq!(decrypt_bytes(&mut h, &bytes), Ok("hello\nworld".to_string()));
    assert_eq!(h.derivation, 0);
}

#[test]
fn two_seals_of_one_text_differ() {
    let g = plain();
    let a = encrypt_text(&g, "same").unwrap();
    let b = encrypt_text(&g, "same").unwrap();
    assert_ne!(a, b);
}

#[test]
fn short_files_are_refused() {
    let mut g = plain();
    assert_eq!(decrypt_bytes(&mut g, b"0400010203"), Err(CryptoError::InvalidLength));
    assert_eq!(decrypt_bytes(&mut g, b""), Err(CryptoError::InvalidLength));
    assert_eq!(decrypt_bytes(&mut g, b"040"), Err(CryptoError::InvalidHex));
    assert_eq!(decrypt_bytes(&mut g, b"04zz"), Err(CryptoError::InvalidHex));
}

#[test]
fn sealing_needs_a_password_and_a_known_derivation() {
    let mut g = plain();
    g.derivation = 1;
    assert_eq!(encrypt_text(&g, "x"), Err(CryptoError::NeedPassword));
    g.derivation = 7;
    g.password = "pw".to_string();
    assert_eq!(encrypt_text(&g, "x"), Err(CryptoError::WrongDerivation));
}

#[test]
fn a_password_opens_what_it_sealed() {
    let mut g = plain();
    g.derivation = 1;
    g.password = "correct horse".to_string();
    let bytes = encrypt_text(&g, "note one\nnote two").unwrap();
    assert!(bytes.starts_with(b"0401"));
    let mut asks = plain();
    assert_eq!(decrypt_bytes(&mut asks, &bytes), Err(CryptoError::NeedPassword));
    assert_eq!(asks.derivation, 1);
    let mut right = plain();
    right.password = "correct horse".to_string();
    assert_eq!(decrypt_bytes(&mut right, &bytes), Ok("note one\nnote two".to_string()));
    let mut wrong = plain();
    wrong.password = "wrong".to_string();
    assert_eq!(decrypt_bytes(&mut wrong, &bytes), Err(CryptoError::Decryption));
    let mut tampered = bytes.clone();
    let last = tampered.len() - 1;
    tampered[last] = if tampered[last] == b'0' { b'1' } else { b'0' };
    let mut again = plain();
    again.password = "correct horse".to_string();
    assert_eq!(decrypt_bytes(&mut again, &tampered), Err(CryptoError::Decryption));
    assert!(!bytes.windows(4).any(|w| w == b"note"));
}

#[test]
fn lines_and_joins() {
    assert_eq!(lines("a\r\nb\n"), vec!["a".to_string(), "b".to_string()]);
    assert_eq!(lines(""), Vec::<String>::new());
    assert_eq!(lines("\n"), vec![String::new()]);
    assert_eq!(join_lines(&vec!["a".to_string(), "b".to_string()]), "a\nb");
    assert_eq!(lines(&join_lines(&vec!["x".to_string(), "".to_string(), "y".to_string()])), vec!["x", "", "y"]);
}

#[test]
fn text_helpers() {
    assert_eq!(trim("  x y \t"), "x y");
    assert_eq!(split_whitespace(" a  b\tc "), vec!["a".to_string(), "b".to_string(), "c".to_string()]);
    assert_eq!(parse_uint("+42", 255), Some(42));
    assert_eq!(parse_uint("256", 255), None);
    assert_eq!(parse_uint("", 255), None);
    assert_eq!(parse_uint("-1", 255), None);
    assert_eq!(usize_to_string(9075), "9075");
    assert_eq!(usize_to_string(0), "0");
    assert_eq!(text_after_last("move 3 up 2", "up"), " 2");
    assert_eq!(count_of("a-b-c", '-'), 2);
    assert_eq!(split_char("1,2,,3", ','), vec!["1".to_string(), "2".to_string(), String::new(), "3".to_string()]);
    assert!(starts_with("re:abc", "re:"));
    assert!(!starts_with("r", "re:"));
}

fn legacy_key(password: &str, salt: &[u8]) -> sodiumoxide::crypto::aead::Key {
    let salt = pwhash::Salt::from_slice(salt).unwrap();
    let mut key = aead::Key([0; aead::KEYBYTES]);
    pwhash::derive_key_interactive(&mut key.0, password.as_bytes(), &salt).unwrap();
    key
}

#[test]
fn version_3_files_still_open() {
    sodiumoxide::init().unwrap();
    let salt = [7u8; 32];
    let nonce = aead::Nonce([9u8; aead::NONCEBYTES]);
    let key = legacy_key("old pw", &salt);
    let mut header = vec![3u8, 1u8];
    header.extend_from_slice(&salt);
    header.extend_from_slice(&nonce.0);
    let ciphertext = aead::seal(b"old notes", Some(&header), &nonce, &key);
    let mut raw = header.clone();
    raw.extend_from_slice(&ciphertext);
    let bytes = hex(&raw);
    let mut g = Globals::new();
    g.password = "old pw".to_string();
    assert_eq!(decrypt_bytes(&mut g, &bytes), Ok("old notes".to_string()));
    assert_eq!(g.derivation, 1);
    let mut wrong = Globals::new();
    wrong.password = "nope".to_string();
    assert_eq!(decrypt_bytes(&mut wrong, &bytes), Err(CryptoError::Decryption));
}

#[test]
fn version_2_files_still_open() {
    sodiumoxide::init().unwrap();
    let salt = [5u8; 32];
    let nonce = ietf::Nonce([3u8; ietf::NONCEBYTES]);
    let key = ietf::Key(legacy_key("pw2", &salt).0);
    let ciphertext = ietf::seal(b"older notes", Some(&salt), &nonce, &key);
    let mut raw = vec![2u8, 1u8];
    raw.extend_from_slice(&salt);
    raw.extend_from_slice(&nonce.0);
    raw.extend_from_slice(&ciphertext);
    let bytes = hex(&raw);
    let mut g = Globals::new();
    g.password = "pw2".to_string();
    assert_eq!(decrypt_bytes(&mut g, &bytes), Ok("older notes".to_string()));
}
