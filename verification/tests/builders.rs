use eui_neo_rust::color::Color;
use eui_neo_rust::components::button::{ButtonIconPlacement, ButtonStyle};
use eui_neo_rust::ui::builders::clone_strings;
use eui_neo_rust::ui::context::UIContext;
use eui_neo_rust::ui::node::UINode;

#[test]
fn label_setters() {
    let mut ctx: UIContext<u8> = UIContext::new();
    ctx.begin("p");
    let red = Color::new(1.0f32.to_bits(), 0, 0, 1.0f32.to_bits());
    let b = ctx.label("l").text("Hi").color(red);
    match &b.node {
        UINode::Label(l) => {
            assert_eq!(l.text, "Hi");
            assert_eq!(l.color, red);
            assert!(!l.use_theme_color);
        }
        _ => panic!("label expected"),
    }
    let b = b.use_theme_color(true);
    match &b.node {
        UINode::Label(l) => assert!(l.use_theme_color),
        _ => panic!("label expected"),
    }
    assert_eq!(b.key, "p.l");
}

#[test]
fn button_setters() {
    let mut ctx: UIContext<u8> = UIContext::new();
    ctx.begin("");
    let b = ctx
        .button("b")
        .text("Save")
        .icon("*")
        .icon_placement(ButtonIconPlacement::Trailing)
        .style(ButtonStyle::Primary)
        .text_color(Color::white())
        .on_click(9);
    match &b.node {
        UINode::Button(n) => {
            assert_eq!(n.text, "Save");
            assert_eq!(n.icon, "*");
            assert_eq!(n.icon_placement, ButtonIconPlacement::Trailing);
            assert_eq!(n.style, ButtonStyle::Primary);
            assert_eq!(n.text_color_override, Some(Color::white()));
            assert_eq!(n.on_click, Some(9));
        }
        _ => panic!("button expected"),
    }
}

#[test]
fn setters_of_another_kind_leave_node_alone() {
    let mut ctx: UIContext<u8> = UIContext::new();
    ctx.begin("");
    ctx.panel("x").build(&mut ctx, false);
    // The key now holds a panel; a label builder for it changes nothing.
    let b = ctx.label("x").text("ignored");
    assert_eq!(b.node.kind_name(), "Panel");
}

#[test]
fn selector_field_dropdown_sidebar_setters() {
    let mut ctx: UIContext<u8> = UIContext::new();
    ctx.begin("");
    let list = vec!["a".to_string(), "b".to_string()];
    let s = ctx.segmented("s").items(&list).selected(1).on_change(1);
    match &s.node {
        UINode::SegmentedControl(n) => {
            assert_eq!(n.items, list);
            assert_eq!(n.selected_index, 1);
            assert_eq!(n.on_change, Some(1));
        }
        _ => panic!(),
    }
    let i = ctx.input("i").placeholder("type").text("abc").on_change(2).on_enter(3);
    match &i.node {
        UINode::InputBox(n) => {
            assert_eq!(n.placeholder, "type");
            assert_eq!(n.text, "abc");
            assert_eq!(n.on_change, Some(2));
            assert_eq!(n.on_enter, Some(3));
        }
        _ => panic!(),
    }
    let c = ctx.combo("c").items(&list).placeholder("pick").selected(0).start_open(true).on_change(4);
    match &c.node {
        UINode::ComboBox(n) => {
            assert_eq!(n.items, list);
            assert_eq!(n.placeholder, "pick");
            assert_eq!(n.selected_index, 0);
            assert!(n.is_open);
            assert!(n.open_state_initialized);
            assert_eq!(n.on_change, Some(4));
        }
        _ => panic!(),
    }
    let sb = ctx
        .sidebar("nav")
        .brand("EUI", "Neo")
        .item("H", "Home", 5)
        .item("A", "Anim", 6)
        .selected_index(1)
        .on_theme_toggle(7);
    match &sb.node {
        UINode::Sidebar(n) => {
            assert_eq!(n.brand_primary, "EUI");
            assert_eq!(n.brand_secondary, "Neo");
            assert_eq!(n.items.len(), 2);
            assert_eq!(n.items[1].label, "Anim");
            assert_eq!(n.items[1].icon, "A");
            assert_eq!(n.items[0].on_click, Some(5));
            assert_eq!(n.selected_index, 1);
            assert_eq!(n.on_theme_toggle, Some(7));
        }
        _ => panic!(),
    }
}

#[test]
fn clone_strings_copies() {
    let v = vec!["x".to_string(), "y".to_string()];
    assert_eq!(clone_strings(&v), v);
    assert!(clone_strings(&[]).is_empty());
}

#[test]
fn start_open_applies_only_the_first_time() {
    let mut ctx: UIContext<u8> = UIContext::new();
    ctx.begin("");
    ctx.combo("c").start_open(true).build(&mut ctx, false);
    ctx.end();
    ctx.begin("");
    let c = ctx.combo("c").start_open(false);
    match &c.node {
        UINode::ComboBox(n) => {
            assert!(n.is_open);
            assert!(n.open_state_initialized);
        }
        _ => panic!(),
    }
}
