//! Model hash and scanner tests.

use resource_runtime::method_parser::{CurrentWord, MethodParser};
use resource_runtime::model_hash::{hash, hash_bytes};

#[test]
fn hash_known_values() {
    assert_eq!(hash(""), 0);
    assert_eq!(hash("a"), 3392050242);
    assert_eq!(hash("adder"), 3078201489);
    assert_eq!(hash("mp_m_freemode_01"), 1885233650);
}

#[test]
fn hash_bytes_agrees_with_hash() {
    assert_eq!(hash_bytes(b"adder"), hash("adder"));
    assert_eq!(hash_bytes(&[]), 0);
}

#[test]
fn method_parser_walks_the_bytes() {
    let mut p = MethodParser::new(String::from("ab"));
    assert!(p.is_next_char('a'));
    assert!(!p.is_next_char('b'));
    assert_eq!(p.next_char(), Some(&b'a'));
    assert!(p.is_next_char('b'));
    assert_eq!(p.next_char(), Some(&b'b'));
    assert!(!p.is_next_char('b'));
    assert_eq!(p.next_char(), None);
    assert_eq!(p.next_char(), None);
}

#[test]
fn current_word_accumulates_and_resets() {
    let mut w = CurrentWord::new();
    w.add_char(b'h');
    w.add_char(b'i');
    assert_eq!(w.reset(), String::from("hi"));
    assert_eq!(w.reset(), String::new());
    w.add_char(b'x');
    assert_eq!(w.reset(), String::from("x"));
}
