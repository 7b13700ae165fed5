use zorforge::buffer::Buffer;
use zorforge::buffer_manager::BufferManager;

#[test]
fn test_manager_starts_empty() {
    let manager = BufferManager::new();
    assert_eq!(manager.buffer_count(), 0);
    assert_eq!(manager.active_id(), None);
    assert!(!manager.contains(0));
}

#[test]
fn test_add_and_get_buffer() {
    let mut manager = BufferManager::new();
    let mut buffer = Buffer::new();
    buffer.replace_line(0, "doc one".to_string());
    manager.add_buffer(1, buffer);
    assert_eq!(manager.buffer_count(), 1);
    assert_eq!(manager.active_id(), Some(1));
    assert!(manager.contains(1));
    let stored = manager.get_buffer(1).unwrap();
    assert_eq!(stored.get_line(0), Some("doc one".to_string()));
}

#[test]
fn test_switch_buffer_tracks_active() {
    let mut manager = BufferManager::new();
    manager.add_buffer(1, Buffer::new());
    manager.add_buffer(2, Buffer::new());
    assert_eq!(manager.active_id(), Some(2));
    assert!(manager.switch_buffer(1));
    assert_eq!(manager.active_id(), Some(1));
    assert!(!manager.switch_buffer(9));
    assert_eq!(manager.active_id(), Some(1));
}

#[test]
fn test_replacing_keeps_one_entry_per_id() {
    let mut manager = BufferManager::new();
    manager.add_buffer(7, Buffer::new());
    let mut buffer = Buffer::new();
    buffer.replace_line(0, "newer".to_string());
    manager.add_buffer(7, buffer);
    assert_eq!(manager.buffer_count(), 1);
    assert_eq!(manager.get_buffer(7).unwrap().get_line(0), Some("newer".to_string()));
}

#[test]
fn test_least_recently_used_is_evicted() {
    let mut manager = BufferManager::new();
    let mut id: usize = 0;
    while id < 100 {
        manager.add_buffer(id, Buffer::new());
        id += 1;
    }
    assert_eq!(manager.buffer_count(), 100);
    // Buffer 0 is now the least recently used; adding one more evicts it.
    manager.add_buffer(100, Buffer::new());
    assert_eq!(manager.buffer_count(), 100);
    assert!(!manager.contains(0));
    assert!(manager.contains(1));
    assert!(manager.contains(100));
}
