use eui_neo_rust::color::Color;
use eui_neo_rust::pages::home_page::current_theme_colors_standalone;
use eui_neo_rust::theme::{current_theme_colors, dark_theme, light_theme};
use eui_neo_rust::theme_tokens::{dark_theme_colors, light_theme_colors, make_theme};

fn c(r: f32, g: f32, b: f32, a: f32) -> Color {
    Color::new(r.to_bits(), g.to_bits(), b.to_bits(), a.to_bits())
}

#[test]
fn light_theme_values() {
    let t = light_theme();
    assert_eq!(t.background, c(0.95, 0.95, 0.97, 1.0));
    assert_eq!(t.primary, c(0.20, 0.50, 0.90, 1.0));
    assert_eq!(t.surface, c(1.0, 1.0, 1.0, 1.0));
    assert_eq!(t.surface_hover, c(0.90, 0.90, 0.90, 1.0));
    assert_eq!(t.surface_active, c(0.80, 0.80, 0.80, 1.0));
    assert_eq!(t.text, c(0.0, 0.0, 0.0, 1.0));
    assert_eq!(t.border, c(0.80, 0.80, 0.80, 1.0));
}

#[test]
fn dark_theme_values() {
    let t = dark_theme();
    assert_eq!(t.background, c(0.10, 0.10, 0.12, 1.0));
    assert_eq!(t.primary, c(0.30, 0.60, 1.00, 1.0));
    assert_eq!(t.surface, c(0.15, 0.15, 0.18, 1.0));
    assert_eq!(t.surface_hover, c(0.25, 0.25, 0.28, 1.0));
    assert_eq!(t.surface_active, c(0.35, 0.35, 0.38, 1.0));
    assert_eq!(t.text, c(1.0, 1.0, 1.0, 1.0));
    assert_eq!(t.border, c(0.30, 0.30, 0.30, 1.0));
}

#[test]
fn tokens_carry_theme_and_flag() {
    let t = dark_theme();
    let tok = current_theme_colors(&t, true);
    assert!(tok.dark);
    assert_eq!(tok.primary, t.primary);
    assert_eq!(tok.border, t.border);
    let light = current_theme_colors(&light_theme(), false);
    assert!(!light.dark);
    assert_eq!(light.background, light_theme().background);
}

#[test]
fn theme_token_round_trips() {
    assert_eq!(make_theme(&current_theme_colors(&dark_theme(), false)), dark_theme());
    let tok = dark_theme_colors();
    assert_eq!(current_theme_colors(&make_theme(&tok), tok.dark), tok);
}

#[test]
fn standalone_palettes_match_built_in_themes() {
    assert_eq!(light_theme_colors(), current_theme_colors(&light_theme(), false));
    assert_eq!(dark_theme_colors(), current_theme_colors(&dark_theme(), true));
    assert_eq!(make_theme(&light_theme_colors()), light_theme());
    assert_eq!(current_theme_colors_standalone(), light_theme_colors());
}

#[test]
fn color_constructors() {
    assert_eq!(Color::white(), c(1.0, 1.0, 1.0, 1.0));
    assert_eq!(Color::transparent(), c(0.0, 0.0, 0.0, 0.0));
    let x = Color::new(1, 2, 3, 4);
    assert_eq!((x.r, x.g, x.b, x.a), (1, 2, 3, 4));
}
