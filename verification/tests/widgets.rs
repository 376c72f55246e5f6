use eui_neo_rust::components::sidebar::ItemSpec;
use eui_neo_rust::components::combo_box::ComboBoxNode;
use eui_neo_rust::components::label::LabelNode;
use eui_neo_rust::components::segmented_control::SegmentedControlNode;
use eui_neo_rust::components::sidebar::SidebarNode;
use eui_neo_rust::color::Color;

fn items(list: &[&str]) -> Vec<String> {
    list.iter().map(|s| s.to_string()).collect()
}

#[test]
fn combo_opens_on_field_click() {
    let mut c: ComboBoxNode<()> = ComboBoxNode::new("c".to_string());
    c.items = items(&["A", "B"]);
    assert_eq!(c.handle_click(false, None), None);
    assert!(!c.is_open);
    assert_eq!(c.handle_click(true, None), None);
    assert!(c.is_open);
    assert!(c.open_state_initialized);
}

#[test]
fn combo_selects_clicked_row_and_closes() {
    let mut c: ComboBoxNode<()> = ComboBoxNode::new("c".to_string());
    c.items = items(&["A", "B", "C"]);
    c.is_open = true;
    assert_eq!(c.handle_click(false, Some(1)), Some((1, "B".to_string())));
    assert_eq!(c.selected_index, 1);
    assert!(!c.is_open);
}

#[test]
fn combo_row_past_items_only_closes() {
    let mut c: ComboBoxNode<()> = ComboBoxNode::new("c".to_string());
    c.items = items(&["A"]);
    c.is_open = true;
    assert_eq!(c.handle_click(false, Some(3)), None);
    assert_eq!(c.selected_index, -1);
    assert!(!c.is_open);
    c.is_open = true;
    assert_eq!(c.handle_click(true, None), None);
    assert!(!c.is_open);
}

#[test]
fn segmented_click_clamps_and_reports_change() {
    let mut s: SegmentedControlNode<()> = SegmentedControlNode::new("s".to_string());
    assert_eq!(s.handle_click(2), None);
    s.items = items(&["One", "Two", "Three"]);
    assert_eq!(s.handle_click(0), None);
    assert_eq!(s.handle_click(7), Some((2, "Three".to_string())));
    assert_eq!(s.selected_index, 2);
    assert_eq!(s.handle_click(-4), Some((0, "One".to_string())));
    assert_eq!(s.selected_index, 0);
}

#[test]
fn label_and_sidebar_defaults() {
    let mut l = LabelNode::new("l".to_string());
    assert_eq!(l.text, "");
    assert_eq!(l.color, Color::white());
    assert_eq!(l.font_size, 24.0f32.to_bits());
    assert!(l.use_theme_color);
    l.text = "x".to_string();
    l.use_theme_color = false;
    l.reset_defaults();
    assert_eq!(l.text, "");
    assert!(l.use_theme_color);

    let s: SidebarNode<()> = SidebarNode::new("s".to_string());
    assert_eq!(s.brand_primary, "");
    assert_eq!(s.selected_index, 0);
    assert!(s.items.is_empty());
}

#[test]
fn sidebar_click_selects_entry_and_reports_toggle() {
    let mut s: SidebarNode<u8> = SidebarNode::new("s".to_string());
    for (i, name) in ["Home", "Anim", "Layout"].iter().enumerate() {
        s.items.push(ItemSpec { icon: String::new(), label: name.to_string(), on_click: Some(i as u8) });
    }
    let r = s.handle_click(Some(2), false);
    assert_eq!(r.item, Some(2));
    assert!(!r.theme_toggled);
    assert_eq!(s.selected_index, 2);
    let r = s.handle_click(Some(7), true);
    assert_eq!(r.item, None);
    assert!(r.theme_toggled);
    assert_eq!(s.selected_index, 2);
    let r = s.handle_click(None, false);
    assert_eq!(r.item, None);
    assert!(!r.theme_toggled);
}
