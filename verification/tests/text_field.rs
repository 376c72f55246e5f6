use eui_neo_rust::components::input_box::InputBoxNode;

fn field(text: &str, cursor: usize) -> InputBoxNode<()> {
    let mut f = InputBoxNode::new("f".to_string());
    f.text = text.to_string();
    f.cursor_position = cursor;
    f
}

#[test]
fn new_field_defaults() {
    let f: InputBoxNode<()> = InputBoxNode::new("f".to_string());
    assert_eq!(f.text, "");
    assert_eq!(f.placeholder, "");
    assert!(!f.is_focused);
    assert_eq!(f.cursor_position, 0);
    assert!(f.cursor_visible);
}

#[test]
fn insert_at_cursor() {
    let mut f = field("héllo", 1);
    f.insert_text("XY");
    assert_eq!(f.text, "hXYéllo");
    assert_eq!(f.cursor_position, 3);
}

#[test]
fn insert_past_end_appends() {
    let mut f = field("ab", 9);
    f.insert_text("c");
    assert_eq!(f.text, "abc");
    assert_eq!(f.cursor_position, 10);
    f.clamp_cursor();
    assert_eq!(f.cursor_position, 3);
}

#[test]
fn insert_empty_does_nothing() {
    let mut f = field("ab", 1);
    f.insert_text("");
    assert_eq!(f.text, "ab");
    assert_eq!(f.cursor_position, 1);
}

#[test]
fn backspace_deletes_before_cursor() {
    let mut f = field("héllo", 2);
    f.backspace();
    assert_eq!(f.text, "hllo");
    assert_eq!(f.cursor_position, 1);
    let mut start = field("abc", 0);
    start.backspace();
    assert_eq!(start.text, "abc");
    assert_eq!(start.cursor_position, 0);
}

#[test]
fn insert_then_backspace_restores_text() {
    let mut f = field("abc", 1);
    f.insert_text("Z");
    f.backspace();
    assert_eq!(f.text, "abc");
    assert_eq!(f.cursor_position, 1);
}

#[test]
fn click_on_field_focuses_and_moves_cursor_to_end() {
    let mut f = field("hello", 1);
    f.cursor_visible = false;
    let r = f.handle_input(true, true, "", false, false);
    assert!(f.is_focused);
    assert_eq!(f.cursor_position, 5);
    assert!(f.cursor_visible);
    assert!(r.restart_blink);
    assert!(r.changed_after_insert.is_none());
    assert!(r.changed_after_backspace.is_none());
    assert!(r.entered.is_none());
    assert!(f.base.cache_dirty);
}

#[test]
fn click_elsewhere_unfocuses_and_ignores_typing() {
    let mut f = field("hi", 2);
    f.is_focused = true;
    let r = f.handle_input(true, false, "x", true, true);
    assert!(!f.is_focused);
    assert_eq!(f.text, "hi");
    assert!(!r.restart_blink);
    assert!(r.changed_after_insert.is_none());
    assert!(r.entered.is_none());
}

#[test]
fn focused_field_takes_typing_backspace_and_enter() {
    let mut f = field("ab", 2);
    f.is_focused = true;
    let r = f.handle_input(false, false, "cd", true, true);
    assert_eq!(r.changed_after_insert.as_deref(), Some("abcd"));
    assert_eq!(r.changed_after_backspace.as_deref(), Some("abc"));
    assert_eq!(r.entered.as_deref(), Some("abc"));
    assert_eq!(f.text, "abc");
    assert_eq!(f.cursor_position, 3);
    assert!(r.restart_blink);
}

#[test]
fn unfocused_field_without_click_is_unchanged() {
    let mut f = field("ab", 1);
    f.cursor_visible = false;
    let r = f.handle_input(false, true, "zz", true, true);
    assert_eq!(f.text, "ab");
    assert_eq!(f.cursor_position, 1);
    assert!(!f.cursor_visible);
    assert!(!r.restart_blink);
    assert!(r.entered.is_none());
}

#[test]
fn insert_text_then_as_many_backspaces_restores() {
    let mut f = field("aé€z", 2);
    f.insert_text("日本x");
    assert_eq!(f.text, "aé日本x€z");
    for _ in 0..3 {
        f.backspace();
    }
    assert_eq!(f.text, "aé€z");
    assert_eq!(f.cursor_position, 2);
}

#[test]
fn backspace_past_the_end_deletes_the_last_character() {
    let mut f = field("héllo", 9);
    f.backspace();
    assert_eq!(f.text, "héll");
    assert_eq!(f.cursor_position, 4);
    let mut empty = field("", 3);
    empty.backspace();
    assert_eq!(empty.text, "");
    assert_eq!(empty.cursor_position, 0);
}
