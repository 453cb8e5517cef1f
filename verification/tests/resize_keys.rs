use frozen_term::keys::{transform_key, Key, KeyCode, KeyModifiers, Modifiers, NamedKey};
use frozen_term::resize::{negotiate_resize, TerminalSize};
use frozen_term::style::{
    format_eq, get_color, retrieve_font, ColorSpec, Format, FontStyle, FontWeight, Palette, Rgba,
};

const NO_MODS: Modifiers = Modifiers { shift: false, alt: false, control: false, logo: false };

#[test]
fn matching_pixel_size_emits_no_request() {
    // 39 rows at line height 20: 39 * 20 / 0.78 = 1000 pixels high
    // 50 cols at char width 12 (0.6 * 20): 600 pixels wide
    let r = negotiate_resize(600, 1000, 20, 39, 50);
    assert_eq!(r, None);
}

#[test]
fn doubled_pixel_size_doubles_the_target() {
    let r = negotiate_resize(1200, 2000, 20, 39, 50);
    assert_eq!(
        r,
        Some(TerminalSize { rows: 78, cols: 100, pixel_width: 1200, pixel_height: 2000 })
    );
}

#[test]
fn changed_size_carries_the_pixel_geometry() {
    let r = negotiate_resize(640, 480, 16, 25, 80);
    // 39*480/(50*16) = 23; 5*640/(3*16) = 66
    assert_eq!(
        r,
        Some(TerminalSize { rows: 23, cols: 66, pixel_width: 640, pixel_height: 480 })
    );
}

#[test]
fn zero_pixel_size_yields_zero_target() {
    let r = negotiate_resize(0, 0, 20, 24, 80);
    assert_eq!(r, Some(TerminalSize { rows: 0, cols: 0, pixel_width: 0, pixel_height: 0 }));
}

#[test]
fn character_keys_map_directly() {
    let (code, mods) = transform_key(Key::Character('q'), NO_MODS).unwrap();
    assert_eq!(code, KeyCode::Char('q'));
    assert_eq!(
        mods,
        KeyModifiers { shift: false, alt: false, ctrl: false, super_key: false }
    );
}

#[test]
fn named_keys_map_to_symbolic_codes() {
    let cases = [
        (NamedKey::Enter, KeyCode::Enter),
        (NamedKey::Space, KeyCode::Char(' ')),
        (NamedKey::Backspace, KeyCode::Backspace),
        (NamedKey::Delete, KeyCode::Delete),
        (NamedKey::ArrowLeft, KeyCode::LeftArrow),
        (NamedKey::ArrowRight, KeyCode::RightArrow),
        (NamedKey::ArrowUp, KeyCode::UpArrow),
        (NamedKey::ArrowDown, KeyCode::DownArrow),
        (NamedKey::Tab, KeyCode::Tab),
        (NamedKey::Escape, KeyCode::Escape),
        (NamedKey::F1, KeyCode::Function(1)),
        (NamedKey::F2, KeyCode::Function(2)),
        (NamedKey::F3, KeyCode::Function(3)),
        (NamedKey::F4, KeyCode::Function(4)),
        (NamedKey::F5, KeyCode::Function(5)),
        (NamedKey::F6, KeyCode::Function(6)),
        (NamedKey::F7, KeyCode::Function(7)),
        (NamedKey::F8, KeyCode::Function(8)),
        (NamedKey::F9, KeyCode::Function(9)),
        (NamedKey::F10, KeyCode::Function(10)),
        (NamedKey::F11, KeyCode::Function(11)),
        (NamedKey::F12, KeyCode::Function(12)),
    ];
    for (named, expected) in cases {
        let (code, _) = transform_key(Key::Named(named), NO_MODS).unwrap();
        assert_eq!(code, expected);
    }
}

#[test]
fn unmapped_keys_produce_no_action() {
    assert_eq!(transform_key(Key::Named(NamedKey::Other), NO_MODS), None);
    assert_eq!(transform_key(Key::Unidentified, NO_MODS), None);
}

#[test]
fn modifiers_carry_over_independently() {
    let mods = Modifiers { shift: true, alt: false, control: true, logo: true };
    let (_, out) = transform_key(Key::Character('c'), mods).unwrap();
    assert_eq!(out, KeyModifiers { shift: true, alt: false, ctrl: true, super_key: true });
}

fn gray(v: u8) -> Rgba {
    Rgba { r: v, g: v, b: v, a: 255 }
}

#[test]
fn palette_needs_exactly_256_colors() {
    assert!(Palette::new(vec![gray(0); 255]).is_none());
    assert!(Palette::new(vec![gray(0); 256]).is_some());
}

#[test]
fn colors_resolve_against_the_palette() {
    let mut colors = vec![gray(0); 256];
    colors[7] = Rgba { r: 1, g: 2, b: 3, a: 4 };
    let palette = Palette::new(colors).unwrap();

    let true_color = Rgba { r: 9, g: 8, b: 7, a: 6 };
    assert_eq!(
        get_color(ColorSpec::TrueColorWithDefaultFallback(true_color), &palette),
        Some(true_color)
    );
    assert_eq!(
        get_color(ColorSpec::TrueColorWithPaletteFallback(true_color, 7), &palette),
        Some(true_color)
    );
    assert_eq!(
        get_color(ColorSpec::PaletteIndex(7), &palette),
        Some(Rgba { r: 1, g: 2, b: 3, a: 4 })
    );
    assert_eq!(get_color(ColorSpec::Default, &palette), None);
}

#[test]
fn format_equality_is_structural() {
    let mut a = Format::default();
    let b = Format::default();
    assert!(format_eq(&a, &b));
    a.underline = true;
    assert!(!format_eq(&a, &b));
    let mut c = Format::default();
    c.foreground = Some(gray(1));
    let mut d = Format::default();
    d.foreground = Some(gray(1));
    assert!(format_eq(&c, &d));
    d.foreground = Some(gray(2));
    assert!(!format_eq(&c, &d));
}

#[test]
fn bold_wins_over_faint_in_font_choice() {
    let mut f = Format::default();
    assert_eq!(retrieve_font(&f), FontStyle { weight: FontWeight::Normal, italic: false });
    f.faint = true;
    assert_eq!(retrieve_font(&f), FontStyle { weight: FontWeight::Light, italic: false });
    f.bold = true;
    assert_eq!(retrieve_font(&f), FontStyle { weight: FontWeight::Bold, italic: false });
    f.italic = true;
    assert_eq!(retrieve_font(&f), FontStyle { weight: FontWeight::Bold, italic: true });
}
