use eui_neo_rust::color::Color;
use eui_neo_rust::debug::dump::write_json_string;
use eui_neo_rust::easing::Easing;
use eui_neo_rust::pages::animation_page::{cards, SampleKind};
use eui_neo_rust::pages::typography_page::{icon_section, mixed_section, scale_section};
use eui_neo_rust::types::{Anchor, RectGradient, RenderLayer};
use eui_neo_rust::ui::context::FlexDirection;
use eui_neo_rust::ui::draw_order::{sort_draw_order, DrawEntry};

#[test]
fn json_string_escapes() {
    let mut out = String::from("x=");
    write_json_string(&mut out, "a\"b\\c\nd\re\tf\u{1}g\u{1f}h é");
    assert_eq!(out, "x=\"a\\\"b\\\\c\\nd\\re\\tf\\u0001g\\u001fh é\"");
    assert!(out.chars().all(|c| (c as u32) >= 0x20));
    let mut empty = String::new();
    write_json_string(&mut empty, "");
    assert_eq!(empty, "\"\"");
}

#[test]
fn sort_is_stable_by_layer_then_z() {
    let e = |k: &str, layer: RenderLayer, z: i32| DrawEntry { key: k.to_string(), layer, z_index: z };
    let input = vec![
        e("a", RenderLayer::Popup, 0),
        e("b", RenderLayer::Content, 2),
        e("c", RenderLayer::Content, 1),
        e("d", RenderLayer::Backdrop, 9),
        e("e", RenderLayer::Content, 1),
        e("f", RenderLayer::Chrome, -3),
    ];
    let out = sort_draw_order(input);
    let keys: Vec<&str> = out.iter().map(|d| d.key.as_str()).collect();
    assert_eq!(keys, vec!["d", "c", "e", "b", "f", "a"]);
    assert!(sort_draw_order(Vec::new()).is_empty());
}

#[test]
fn layer_indices_and_defaults() {
    assert_eq!(RenderLayer::Backdrop.index(), 0);
    assert_eq!(RenderLayer::Content.index(), 1);
    assert_eq!(RenderLayer::Chrome.index(), 2);
    assert_eq!(RenderLayer::Popup.index(), 3);
    assert_eq!(RenderLayer::default(), RenderLayer::Content);
    assert_eq!(Anchor::default(), Anchor::TopLeft);
    assert_eq!(Easing::default(), Easing::EaseInOut);
    assert_ne!(FlexDirection::Row, FlexDirection::Column);
}

#[test]
fn gradients() {
    let red = Color::new(1, 0, 0, 1);
    let blue = Color::new(0, 0, 1, 1);
    let d = RectGradient::default();
    assert!(!d.enabled);
    assert_eq!(d.top_left, Color::white());
    let s = RectGradient::solid(red);
    assert!(s.enabled);
    assert_eq!((s.top_left, s.top_right, s.bottom_left, s.bottom_right), (red, red, red, red));
    let h = RectGradient::horizontal(red, blue);
    assert_eq!((h.top_left, h.top_right, h.bottom_left, h.bottom_right), (red, blue, red, blue));
    let v = RectGradient::vertical(red, blue);
    assert_eq!((v.top_left, v.top_right, v.bottom_left, v.bottom_right), (red, red, blue, blue));
    let c = RectGradient::corners(red, blue, blue, red);
    assert_eq!((c.top_left, c.top_right, c.bottom_left, c.bottom_right), (red, blue, blue, red));
}

#[test]
fn page_texts() {
    let cs = cards();
    assert_eq!(cs[0].title, "Fade Alpha");
    assert_eq!(cs[1].kind, SampleKind::Scale);
    assert_eq!(cs[2].line2, "x / y with one builder.");
    assert_eq!(cs[3].badge, "panel + polygon");
    assert_eq!(scale_section().title, "Type Scale");
    assert_eq!(mixed_section().subtitle, "Latin, numerals, punctuation, and CJK fallback in one place.");
    assert_eq!(icon_section().title, "Icon Sizes");
}
