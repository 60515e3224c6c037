use fluxrpc_core::text::{push_decimal, push_signed_decimal, str_equal};
use fluxrpc_core::TransportMessage;

#[test]
fn decimal_notation() {
    let mut s = String::from("n=");
    push_decimal(&mut s, 0);
    assert_eq!(s, "n=0");
    let mut s = String::new();
    push_decimal(&mut s, u64::MAX);
    assert_eq!(s, u64::MAX.to_string());
    let mut s = String::new();
    push_signed_decimal(&mut s, i64::MIN);
    assert_eq!(s, i64::MIN.to_string());
    let mut s = String::new();
    push_signed_decimal(&mut s, 1024);
    assert_eq!(s, "1024");
}

#[test]
fn string_equality() {
    assert!(str_equal("abc", "abc"));
    assert!(!str_equal("abc", "abd"));
    assert!(!str_equal("", "a"));
}

#[test]
fn transport_message_debug_text() {
    assert_eq!(
        TransportMessage::Text(b"hello".to_vec()).debug_text(),
        "TransportMessage::Text(\"hello\")"
    );
    assert_eq!(
        TransportMessage::Text(vec![b'a', 0xff]).debug_text(),
        "TransportMessage::Text(\"a\u{fffd}\")"
    );
    assert_eq!(
        TransportMessage::Binary(vec![0; 12]).debug_text(),
        "TransportMessage::Binary(len=12)"
    );
    assert!(TransportMessage::Text(b"x".to_vec()) == TransportMessage::Text(b"x".to_vec()));
    assert!(TransportMessage::Text(b"x".to_vec()) != TransportMessage::Binary(b"x".to_vec()));
}
