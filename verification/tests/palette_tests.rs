use jumppad::palette::resolve_palette;

/// The display names of the palettes on offer, in order.
fn palettes() -> Vec<String> {
    [
        "Light", "Dark", "Dracula", "Nord", "Solarized Light", "Solarized Dark", "Gruvbox Light",
        "Gruvbox Dark", "Catppuccin Latte", "Catppuccin Frapp\u{e9}", "Catppuccin Macchiato",
        "Catppuccin Mocha", "Tokyo Night", "Tokyo Night Storm", "Tokyo Night Light", "Kanagawa Wave",
        "Kanagawa Dragon", "Kanagawa Lotus", "Moonfly", "Nightfly", "Oxocarbon", "Ferra",
    ]
    .iter()
    .map(|s| s.to_string())
    .collect()
}

const LIGHT: usize = 0;
const DARK: usize = 1;
const DRACULA: usize = 2;

#[test]
fn an_unknown_palette_falls_back_to_the_one_it_was_handed() {
    assert_eq!(resolve_palette(&palettes(), "nonsense", DARK), DARK);
    assert_eq!(resolve_palette(&palettes(), "nonsense", LIGHT), LIGHT);
}

#[test]
fn palette_names_match_ignoring_case_and_surrounding_space() {
    assert_eq!(resolve_palette(&palettes(), "  solarized LIGHT ", DRACULA), 4);
    assert_eq!(resolve_palette(&palettes(), "dark", DRACULA), DARK);
    assert_eq!(resolve_palette(&palettes(), "light", DRACULA), LIGHT);
    assert_eq!(resolve_palette(&palettes(), "ferra", DRACULA), 21);
}

#[test]
fn only_ascii_case_is_ignored() {
    assert_eq!(resolve_palette(&palettes(), "catppuccin FRAPP\u{c9}", DRACULA), DRACULA);
    assert_eq!(resolve_palette(&palettes(), "catppuccin FRAPP\u{e9}", DRACULA), 9);
}

#[test]
fn both_default_palette_names_resolve_to_their_palettes() {
    assert_eq!(resolve_palette(&palettes(), "Light", DRACULA), LIGHT);
    assert_eq!(resolve_palette(&palettes(), "Dark", DRACULA), DARK);
}
