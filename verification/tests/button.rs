use eui_neo_rust::color::Color;
use eui_neo_rust::components::button::{ButtonIconPlacement, ButtonNode, ButtonStyle};
use eui_neo_rust::components::label::LabelNode;
use eui_neo_rust::theme::dark_theme;

#[test]
fn base_colors_follow_style_and_theme() {
    let mut button = ButtonNode::<()>::new("b".to_string());
    assert_eq!(button.base_text_color(), dark_theme().text);
    assert_eq!(button.base_border_color(), Color::transparent());
    button.style = ButtonStyle::Primary;
    assert_eq!(button.base_text_color(), Color::white());
    button.style = ButtonStyle::Outline;
    assert_eq!(button.base_border_color(), dark_theme().border);
    assert_eq!(button.base_text_color(), dark_theme().text);

    let mut label = LabelNode::new("l".to_string());
    assert_eq!(label.base_color(), dark_theme().text);
    label.use_theme_color = false;
    label.color = Color::new(1, 2, 3, 4);
    assert_eq!(label.base_color(), Color::new(1, 2, 3, 4));
}

#[test]
fn reset_defaults_clears_text_color_override() {
    let mut button = ButtonNode::<()>::new("button".to_string());
    button.text_color_override = Some(Color::new(
        0.2f32.to_bits(),
        0.4f32.to_bits(),
        0.6f32.to_bits(),
        0.8f32.to_bits(),
    ));

    button.reset_defaults();

    assert_eq!(button.text_color_override, None);
}

#[test]
fn new_button_has_default_configuration() {
    let button = ButtonNode::<()>::new("b".to_string());
    assert_eq!(button.base.key, "b");
    assert_eq!(button.text, "");
    assert_eq!(button.icon, "");
    assert_eq!(button.style, ButtonStyle::Default);
    assert_eq!(button.icon_placement, ButtonIconPlacement::Leading);
    assert!(button.on_click.is_none());
    assert_eq!(button.font_size, 20.0f32.to_bits());
    assert_eq!(button.hover_scale_idle, 1.0f32.to_bits());
    assert_eq!(button.hover_scale_hover, 1.0f32.to_bits());
    assert_eq!(button.hover_scale_duration, 0.16f32.to_bits());
    assert!(button.base.cache_dirty);
    assert!(!button.base.has_compose_snapshot);
}

#[test]
fn reset_defaults_keeps_compose_state() {
    let mut button = ButtonNode::<u8>::new("b".to_string());
    button.text = "Go".to_string();
    button.icon = "x".to_string();
    button.style = ButtonStyle::Outline;
    button.icon_placement = ButtonIconPlacement::Trailing;
    button.on_click = Some(3);
    button.base.begin_compose(7);
    button.reset_defaults();
    assert_eq!(button.text, "");
    assert_eq!(button.icon, "");
    assert_eq!(button.style, ButtonStyle::Default);
    assert_eq!(button.icon_placement, ButtonIconPlacement::Leading);
    assert!(button.on_click.is_none());
    assert_eq!(button.base.compose_stamp, 7);
}

#[test]
fn style_and_placement_codes() {
    assert_eq!(ButtonStyle::Default.code(), 0);
    assert_eq!(ButtonStyle::Primary.code(), 1);
    assert_eq!(ButtonStyle::Outline.code(), 2);
    assert_eq!(ButtonIconPlacement::Leading.code(), 0);
    assert_eq!(ButtonIconPlacement::Trailing.code(), 1);
    assert_eq!(ButtonStyle::default(), ButtonStyle::Default);
    assert_eq!(ButtonIconPlacement::default(), ButtonIconPlacement::Leading);
}
