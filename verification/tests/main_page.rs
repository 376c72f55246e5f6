use eui_neo_rust::color::Color;
use eui_neo_rust::pages::main_page::{accent_color, MainPageState, MainPageView, ACCENT_COUNT};

#[test]
fn initial_state() {
    let s = MainPageState::new();
    assert_eq!(s.current_view, MainPageView::Home);
    assert_eq!(s.page_reveal_direction, 1);
    assert!(s.home_icon_accent_enabled);
    assert_eq!(s.segmented_items, vec!["Apple", "Banana", "Cherry"]);
    assert_eq!(s.segmented_index, 0);
    assert_eq!(s.input_text, "");
    assert_eq!(s.combo_items, vec!["Item 1", "Item 2", "Item 3"]);
    assert_eq!(s.combo_selection, -1);
    assert_eq!(s.random_seed, 0xC0FF_EE11);
    assert_eq!(s.accent_index, 0);
    assert_eq!(s.state_version, 0);
    assert!(s.is_dark);
}

#[test]
fn switch_view_sets_reveal_direction() {
    let mut s = MainPageState::new();
    assert!(!s.switch_view(MainPageView::Home));
    assert_eq!(s.state_version, 0);
    assert!(s.switch_view(MainPageView::Layout));
    assert_eq!(s.current_view, MainPageView::Layout);
    assert_eq!(s.page_reveal_direction, 1);
    assert_eq!(s.state_version, 1);
    assert!(s.switch_view(MainPageView::Animation));
    assert_eq!(s.page_reveal_direction, -1);
    assert_eq!(s.state_version, 2);
    assert!(s.switch_view(MainPageView::Typography));
    assert_eq!(s.page_reveal_direction, 1);
}

#[test]
fn view_indices() {
    assert_eq!(MainPageView::Home.index(), 0);
    assert_eq!(MainPageView::Animation.index(), 1);
    assert_eq!(MainPageView::Layout.index(), 2);
    assert_eq!(MainPageView::Typography.index(), 3);
}

#[test]
fn setters_bump_version_only_on_change() {
    let mut s = MainPageState::new();
    s.set_segmented_index(0);
    assert_eq!(s.state_version, 0);
    s.set_segmented_index(2);
    assert_eq!(s.segmented_index, 2);
    assert_eq!(s.state_version, 1);
    s.set_input_text("");
    assert_eq!(s.state_version, 1);
    s.set_input_text("hello");
    assert_eq!(s.input_text, "hello");
    assert_eq!(s.state_version, 2);
    s.set_input_text("hello");
    assert_eq!(s.state_version, 2);
    s.set_combo_selection(-1);
    assert_eq!(s.state_version, 2);
    s.set_combo_selection(1);
    assert_eq!(s.combo_selection, 1);
    assert_eq!(s.state_version, 3);
    s.toggle_home_icon_accent();
    assert!(!s.home_icon_accent_enabled);
    assert_eq!(s.state_version, 4);
    s.toggle_theme();
    assert!(!s.is_dark);
    assert_eq!(s.state_version, 5);
}

#[test]
fn randomize_theme_color_follows_generator() {
    let mut s = MainPageState::new();
    let mut seed: u32 = 0xC0FF_EE11;
    let mut current: i32 = 0;
    for _ in 0..50 {
        s.randomize_theme_color();
        seed = seed.wrapping_mul(1664525).wrapping_add(1013904223);
        let mut next = (seed % 10) as i32;
        if next == current {
            next = (next + 1) % 10;
        }
        assert_eq!(s.random_seed, seed);
        assert_eq!(s.accent_index, next);
        assert_ne!(s.accent_index, current);
        assert!(s.accent_index >= 0 && s.accent_index < ACCENT_COUNT as i32);
        current = next;
    }
    assert_eq!(s.state_version, 50);
}

#[test]
fn accent_palette_values() {
    fn c(r: f32, g: f32, b: f32) -> Color {
        Color::new(r.to_bits(), g.to_bits(), b.to_bits(), 1.0f32.to_bits())
    }
    assert_eq!(accent_color(0), c(0.20, 0.50, 0.90));
    assert_eq!(accent_color(1), c(0.12, 0.72, 0.78));
    assert_eq!(accent_color(2), c(0.15, 0.78, 0.48));
    assert_eq!(accent_color(3), c(0.88, 0.42, 0.18));
    assert_eq!(accent_color(4), c(0.92, 0.28, 0.46));
    assert_eq!(accent_color(5), c(0.56, 0.36, 0.96));
    assert_eq!(accent_color(6), c(0.96, 0.68, 0.18));
    assert_eq!(accent_color(7), c(0.78, 0.22, 0.78));
    assert_eq!(accent_color(8), c(0.32, 0.64, 0.24));
    assert_eq!(accent_color(9), c(0.88, 0.18, 0.24));
}
