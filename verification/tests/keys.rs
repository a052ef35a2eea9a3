use dagashi::keylogger::{key_to_name, name_to_count, Key, ListenerEvent};

#[test]
fn key_names() {
    assert_eq!(key_to_name(&Key::KeyA), Some("a"));
    assert_eq!(key_to_name(&Key::Num7), Some("7"));
    assert_eq!(key_to_name(&Key::BackSlash), Some("\\"));
    assert_eq!(key_to_name(&Key::ShiftLeft), Some("⇧"));
    assert_eq!(key_to_name(&Key::ShiftRight), Some("⇧"));
    assert_eq!(key_to_name(&Key::MetaRight), Some("⌘"));
    assert_eq!(key_to_name(&Key::F12), Some("F12"));
    assert_eq!(key_to_name(&Key::PageDown), Some("⇟"));
    assert_eq!(key_to_name(&Key::Other), Some("?"));
}

#[test]
fn deaf_mode_counts_nothing() {
    assert_eq!(name_to_count(false, ListenerEvent::KeyPress(Key::KeyQ)), Some("q"));
    assert_eq!(name_to_count(false, ListenerEvent::KeyRelease(Key::KeyQ)), None);
    assert_eq!(name_to_count(false, ListenerEvent::Other), None);
    assert_eq!(name_to_count(true, ListenerEvent::KeyPress(Key::KeyQ)), None);
    assert_eq!(name_to_count(true, ListenerEvent::KeyPress(Key::Space)), None);
}
