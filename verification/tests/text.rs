use o3_manager::keys::Key;
use o3_manager::text::{edit_is_safe, edit_text, text_len};

fn apply(text: &str, cursor: usize, key: Key) -> (String, usize) {
    let mut t = text.to_string();
    let mut c = cursor;
    assert!(edit_is_safe(&t, c, key));
    edit_text(&mut t, &mut c, key);
    (t, c)
}

#[test]
fn typing_inserts_at_the_cursor() {
    assert_eq!(apply("ac", 1, Key::Char('b')), ("abc".to_string(), 2));
    assert_eq!(apply("", 0, Key::Char('x')), ("x".to_string(), 1));
}

#[test]
fn backspace_removes_before_the_cursor() {
    assert_eq!(apply("abc", 2, Key::Backspace), ("ac".to_string(), 1));
    assert_eq!(apply("abc", 0, Key::Backspace), ("abc".to_string(), 0));
}

#[test]
fn delete_removes_at_the_cursor() {
    assert_eq!(apply("abc", 1, Key::Delete), ("ac".to_string(), 1));
    assert_eq!(apply("abc", 3, Key::Delete), ("abc".to_string(), 3));
}

#[test]
fn cursor_moves() {
    assert_eq!(apply("abc", 1, Key::Left), ("abc".to_string(), 0));
    assert_eq!(apply("abc", 0, Key::Left), ("abc".to_string(), 0));
    assert_eq!(apply("abc", 1, Key::Right), ("abc".to_string(), 2));
    assert_eq!(apply("abc", 3, Key::Right), ("abc".to_string(), 3));
    assert_eq!(apply("abc", 2, Key::Home), ("abc".to_string(), 0));
    assert_eq!(apply("abc", 0, Key::End), ("abc".to_string(), 3));
    assert_eq!(apply("abc", 1, Key::Up), ("abc".to_string(), 1));
}

#[test]
fn backspace_undoes_typing() {
    let (t, c) = apply("hello", 2, Key::Char('X'));
    assert_eq!((t.as_str(), c), ("heXllo", 3));
    assert_eq!(apply(&t, c, Key::Backspace), ("hello".to_string(), 2));
    let (t, c) = apply("hello", 5, Key::Char('é'));
    assert_eq!(apply(&t, c, Key::Backspace), ("hello".to_string(), 5));
}

#[test]
fn cursor_counts_bytes() {
    // the cursor is a byte position: after a two-byte character it stands inside it
    let (t, c) = apply("ab", 1, Key::Char('é'));
    assert_eq!((t.as_str(), c), ("aéb", 2));
    assert_eq!(text_len(&t), 4);
    assert!(!edit_is_safe(&t, c, Key::Char('x')));
    assert!(!edit_is_safe(&t, c, Key::Delete));
    assert!(!edit_is_safe(&t, 3, Key::Backspace));
    assert!(edit_is_safe(&t, c, Key::Left));
    assert!(edit_is_safe(&t, 4, Key::Backspace));
}

#[test]
fn text_len_is_bytes() {
    assert_eq!(text_len(&"abc".to_string()), 3);
    assert_eq!(text_len(&"é".to_string()), 2);
    assert_eq!(text_len(&String::new()), 0);
}

#[test]
fn cursor_stays_within_the_text() {
    let keys = [
        Key::Char('a'), Key::Char('ß'), Key::Left, Key::Left, Key::Left, Key::Backspace, Key::Delete,
        Key::End, Key::Right, Key::Char('€'), Key::Home, Key::Delete, Key::Delete, Key::Delete, Key::Backspace,
    ];
    let mut t = String::new();
    let mut c = 0;
    for key in keys {
        if edit_is_safe(&t, c, key) {
            edit_text(&mut t, &mut c, key);
        }
        assert!(c <= text_len(&t));
    }
}

#[test]
fn ascii_editing_stays_ascii() {
    let mut t = "note".to_string();
    let mut c = 2;
    for key in [Key::Char('!'), Key::Backspace, Key::Delete, Key::End, Key::Char('?'), Key::Home, Key::Delete] {
        assert!(edit_is_safe(&t, c, key));
        edit_text(&mut t, &mut c, key);
        assert!(t.is_ascii() && c <= t.len());
    }
    assert_eq!((t.as_str(), c), ("oe?", 0));
}
