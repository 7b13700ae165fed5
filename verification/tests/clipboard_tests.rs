use zorforge::clipboard::Clipboard;

#[test]
fn test_new_clipboard() {
    let clipboard = Clipboard::new();
    assert!(clipboard.is_empty());
    assert_eq!(clipboard.len(), 0);
}

#[test]
fn test_yank_and_peek() {
    let mut clipboard = Clipboard::new();
    clipboard.yank("test content".to_string());
    assert_eq!(clipboard.peek(), Some(&"test content".to_string()));
    assert_eq!(clipboard.len(), 1);
}

#[test]
fn test_max_history() {
    let mut clipboard = Clipboard::new_with_capacity(2);
    clipboard.yank("first".to_string());
    clipboard.yank("second".to_string());
    clipboard.yank("third".to_string());

    assert_eq!(clipboard.len(), 2);
    assert_eq!(clipboard.peek(), Some(&"third".to_string()));
    assert_eq!(clipboard.peek_at(1), Some(&"second".to_string()));
    assert_eq!(clipboard.peek_at(2), None);
}

#[test]
fn test_rotation() {
    let mut clipboard = Clipboard::new();
    clipboard.yank("first".to_string());
    clipboard.yank("second".to_string());
    clipboard.yank("third".to_string());

    clipboard.rotate_forward();
    assert_eq!(clipboard.peek(), Some(&"second".to_string()));

    clipboard.rotate_backward();
    assert_eq!(clipboard.peek(), Some(&"third".to_string()));
}

#[test]
fn test_yank_lines() {
    let mut clipboard = Clipboard::new();
    let lines = vec!["line1".to_string(), "line2".to_string(), "line3".to_string()];

    clipboard.yank_lines(lines);
    assert_eq!(clipboard.peek(), Some(&"line1\nline2\nline3".to_string()));

    if let Some(peeked_lines) = clipboard.peek_lines() {
        assert_eq!(peeked_lines, vec!["line1", "line2", "line3"]);
    }
}

#[test]
fn test_clear() {
    let mut clipboard = Clipboard::new();
    clipboard.yank("test".to_string());
    assert!(!clipboard.is_empty());

    clipboard.clear();
    assert!(clipboard.is_empty());
    assert_eq!(clipboard.len(), 0);
}

#[test]
fn test_set_max_history() {
    let mut clipboard = Clipboard::new();
    clipboard.yank("first".to_string());
    clipboard.yank("second".to_string());
    clipboard.yank("third".to_string());

    clipboard.set_max_history(2);
    assert_eq!(clipboard.len(), 2);
    assert_eq!(clipboard.peek(), Some(&"third".to_string()));
    assert_eq!(clipboard.peek_at(1), Some(&"second".to_string()));
}

#[test]
fn test_rotation_round_trip_keeps_order() {
    let mut clipboard = Clipboard::new();
    clipboard.yank("a".to_string());
    clipboard.yank("b".to_string());
    clipboard.yank("c".to_string());

    clipboard.rotate_backward();
    assert_eq!(clipboard.peek(), Some(&"a".to_string()));
    clipboard.rotate_forward();
    assert_eq!(clipboard.peek(), Some(&"c".to_string()));
    assert_eq!(clipboard.peek_at(1), Some(&"b".to_string()));
    assert_eq!(clipboard.peek_at(2), Some(&"a".to_string()));
}

#[test]
fn test_capacity_two_keeps_newest() {
    let mut clipboard = Clipboard::new_with_capacity(2);
    clipboard.yank("first".to_string());
    clipboard.yank("second".to_string());
    clipboard.yank("third".to_string());
    assert_eq!(clipboard.len(), 2);
    assert_eq!(clipboard.peek(), Some(&"third".to_string()));
    assert_eq!(clipboard.peek_at(1), Some(&"second".to_string()));
    assert_eq!(clipboard.peek_at(2), None);
}

#[test]
fn test_empty_yank_is_ignored() {
    let mut clipboard = Clipboard::new();
    clipboard.yank(String::new());
    assert!(clipboard.is_empty());
}

#[test]
fn test_pop_removes_front() {
    let mut clipboard = Clipboard::new();
    clipboard.yank("one".to_string());
    clipboard.yank("two".to_string());
    assert_eq!(clipboard.pop(), Some("two".to_string()));
    assert_eq!(clipboard.peek(), Some(&"one".to_string()));
    assert_eq!(clipboard.len(), 1);
}
