use carpem::keys::{
    key_event_to_string, parse_key_event, parse_key_sequence, KeyCode, KeyEvent, KeyModifiers,
};
use carpem::style::{
    checked_parse_style, parse_color, parse_style, parse_style_lowered, process_color_string,
    Color, Modifier, Style,
};

#[test]
fn test_parse_style_default() {
    let style = parse_style("");
    assert_eq!(style, Style::default());
}

#[test]
fn test_parse_style_foreground() {
    let style = parse_style("red");
    assert_eq!(style.fg, Some(Color::Indexed(1)));
}

#[test]
fn test_parse_style_background() {
    let style = parse_style("on blue");
    assert_eq!(style.bg, Some(Color::Indexed(4)));
}

#[test]
fn test_parse_style_modifiers() {
    let style = parse_style("underline red on blue");
    assert_eq!(style.fg, Some(Color::Indexed(1)));
    assert_eq!(style.bg, Some(Color::Indexed(4)));
}

#[test]
fn test_process_color_string() {
    let (color, modifiers) = process_color_string("underline bold inverse gray");
    assert_eq!(color, "gray");
    assert!(modifiers.contains(Modifier::underlined()));
    assert!(modifiers.contains(Modifier::bold()));
    assert!(modifiers.contains(Modifier::reversed()));
}

#[test]
fn test_parse_color_rgb() {
    let color = parse_color("rgb123");
    let expected = 16 + 36 + 2 * 6 + 3;
    assert_eq!(color, Some(Color::Indexed(expected)));
}

#[test]
fn test_parse_color_unknown() {
    let color = parse_color("unknown");
    assert_eq!(color, None);
}

#[test]
fn test_simple_keys() {
    let Ok(key) = parse_key_event("a") else { return; };
    assert_eq!(key, KeyEvent::new(KeyCode::Char('a'), KeyModifiers::empty()));

    let Ok(key) = parse_key_event("enter") else { return; };
    assert_eq!(key, KeyEvent::new(KeyCode::Enter, KeyModifiers::empty()));

    let Ok(key) = parse_key_event("esc") else { return; };
    assert_eq!(key, KeyEvent::new(KeyCode::Esc, KeyModifiers::empty()));
}

#[test]
fn test_with_modifiers() {
    let Ok(key) = parse_key_event("ctrl-a") else { return; };
    assert_eq!(key, KeyEvent::new(KeyCode::Char('a'), KeyModifiers::control()));

    let Ok(key) = parse_key_event("alt-enter") else { return; };
    assert_eq!(key, KeyEvent::new(KeyCode::Enter, KeyModifiers::alt()));

    let Ok(key) = parse_key_event("shift-esc") else { return; };
    assert_eq!(key, KeyEvent::new(KeyCode::Esc, KeyModifiers::shift()));
}

#[test]
fn test_multiple_modifiers() {
    let Ok(key) = parse_key_event("ctrl-alt-a") else { return; };
    assert_eq!(
        key,
        KeyEvent::new(KeyCode::Char('a'), KeyModifiers::control().union(KeyModifiers::alt()))
    );

    let Ok(key) = parse_key_event("ctrl-shift-enter") else { return; };
    assert_eq!(
        key,
        KeyEvent::new(KeyCode::Enter, KeyModifiers::control().union(KeyModifiers::shift()))
    );
}

#[test]
fn test_reverse_multiple_modifiers() {
    assert_eq!(
        key_event_to_string(&KeyEvent::new(
            KeyCode::Char('a'),
            KeyModifiers::control().union(KeyModifiers::alt())
        )),
        "ctrl-alt-a".to_string()
    );
}

#[test]
fn test_invalid_keys() {
    assert!(parse_key_event("invalid-key").is_err());
    assert!(parse_key_event("ctrl-invalid-key").is_err());
}

#[test]
fn test_case_insensitivity() {
    let Ok(key) = parse_key_event("CTRL-a") else { return; };
    assert_eq!(key, KeyEvent::new(KeyCode::Char('a'), KeyModifiers::control()));

    let Ok(key) = parse_key_event("AlT-eNtEr") else { return; };
    assert_eq!(key, KeyEvent::new(KeyCode::Enter, KeyModifiers::alt()));
}

// ---------------------------------------------------------------------------
// Further cases
// ---------------------------------------------------------------------------

#[test]
fn style_colour_forms() {
    assert_eq!(parse_color("color12"), Some(Color::Indexed(12)));
    assert_eq!(parse_color("  color+7 "), Some(Color::Indexed(7)));
    assert_eq!(parse_color("color300"), Some(Color::Indexed(0)));
    assert_eq!(parse_color("bright color9"), Some(Color::Indexed(9)));
    assert_eq!(parse_color("gray7"), Some(Color::Indexed(239)));
    assert_eq!(parse_color("gray"), Some(Color::Indexed(232)));
    assert_eq!(parse_color("rgb555"), Some(Color::Indexed(231)));
    assert_eq!(parse_color("rgbxyz"), Some(Color::Indexed(16)));
    assert_eq!(parse_color("bold magenta"), Some(Color::Indexed(13)));
    assert_eq!(parse_color("white"), Some(Color::Indexed(7)));
    assert_eq!(parse_color("\tblack\n"), Some(Color::Indexed(0)));
    assert_eq!(parse_color("Black"), None);
}

#[test]
fn style_words_and_modifiers() {
    let (color, m) = process_color_string("bright grey");
    assert_eq!(color, "gray");
    assert_eq!(m, Modifier::empty());

    let style = parse_style("bold red on bright white");
    assert_eq!(style.fg, Some(Color::Indexed(1)));
    assert_eq!(style.bg, Some(Color::Indexed(7)));
    assert_eq!(style.add_modifier, Modifier::bold());
    assert_eq!(style.sub_modifier, Modifier::empty());

    let style = parse_style("inverse blue ON yellow");
    assert_eq!(style.fg, Some(Color::Indexed(4)));
    assert_eq!(style.bg, None);
    assert_eq!(style.add_modifier, Modifier::reversed());

    let style = parse_style("on underline gray3");
    assert_eq!(style.fg, None);
    assert_eq!(style.bg, Some(Color::Indexed(235)));
    assert_eq!(style.add_modifier, Modifier::underlined());
}

#[test]
fn style_checked_and_lowered() {
    assert_eq!(checked_parse_style("red on gray30"), None);
    assert_eq!(checked_parse_style("rgb9"), None);
    assert_eq!(checked_parse_style("rgb700"), None);
    assert_eq!(checked_parse_style("rgb600").unwrap().fg, Some(Color::Indexed(232)));
    assert_eq!(
        checked_parse_style("red on gray3"),
        Some(Style::default().fg(Color::Indexed(1)).bg(Color::Indexed(235)))
    );
    let style = parse_style_lowered("Red On Blue", "red on blue");
    assert_eq!(style.fg, None);
    assert_eq!(style.bg, None);
    let style = parse_style_lowered("red on blue", "red on blue");
    assert_eq!(style.fg, Some(Color::Indexed(1)));
    assert_eq!(style.bg, Some(Color::Indexed(4)));
}

#[test]
fn style_add_modifier_clears_removed() {
    let mut s = Style::default();
    s.sub_modifier = Modifier::bold().union(Modifier::underlined());
    let s = s.add_modifier(Modifier::bold());
    assert_eq!(s.add_modifier, Modifier::bold());
    assert_eq!(s.sub_modifier, Modifier::underlined());
}

#[test]
fn keys_named_and_shifted() {
    assert_eq!(
        parse_key_event("shift-a").unwrap(),
        KeyEvent::new(KeyCode::Char('A'), KeyModifiers::shift())
    );
    assert_eq!(
        parse_key_event("backtab").unwrap(),
        KeyEvent::new(KeyCode::BackTab, KeyModifiers::shift())
    );
    assert_eq!(parse_key_event("f11").unwrap(), KeyEvent::new(KeyCode::F(11), KeyModifiers::empty()));
    assert_eq!(parse_key_event("minus").unwrap().code, KeyCode::Char('-'));
    assert_eq!(parse_key_event("ctrl--").unwrap().code, KeyCode::Char('-'));
    assert_eq!(parse_key_event("space").unwrap().code, KeyCode::Char(' '));
    assert_eq!(
        parse_key_event("é").unwrap_err(),
        "unknown key identifier 'é' in keybinding\n\texpected a named key like 'enter', 'f1', 'left', or a single character"
    );
    assert_eq!(key_event_to_string(&KeyEvent::new(KeyCode::F(5), KeyModifiers::empty())), "f(5)");
    assert_eq!(key_event_to_string(&KeyEvent::new(KeyCode::Char(' '), KeyModifiers::shift())), "shift-space");
    assert_eq!(key_event_to_string(&KeyEvent::new(KeyCode::Null, KeyModifiers::control())), "ctrl-");
}

#[test]
fn keys_round_trip() {
    let keys = [
        KeyEvent::new(KeyCode::Enter, KeyModifiers::control().union(KeyModifiers::alt())),
        KeyEvent::new(KeyCode::PageDown, KeyModifiers::shift()),
        KeyEvent::new(KeyCode::BackTab, KeyModifiers::shift()),
        KeyEvent::new(KeyCode::Char('x'), KeyModifiers::alt()),
        KeyEvent::new(KeyCode::Char('X'), KeyModifiers::shift()),
        KeyEvent::new(KeyCode::Char('-'), KeyModifiers::control()),
        KeyEvent::new(KeyCode::Char(' '), KeyModifiers::empty()),
    ];
    for k in keys {
        assert_eq!(parse_key_event(&key_event_to_string(&k)).unwrap(), k);
    }
}

#[test]
fn key_sequences() {
    assert_eq!(
        parse_key_sequence("<ctrl-a><enter>").unwrap(),
        vec![
            KeyEvent::new(KeyCode::Char('a'), KeyModifiers::control()),
            KeyEvent::new(KeyCode::Enter, KeyModifiers::empty()),
        ]
    );
    assert_eq!(
        parse_key_sequence("<esc>").unwrap(),
        vec![KeyEvent::new(KeyCode::Esc, KeyModifiers::empty())]
    );
    assert_eq!(
        parse_key_sequence("g").unwrap(),
        vec![KeyEvent::new(KeyCode::Char('g'), KeyModifiers::empty())]
    );
    assert_eq!(
        parse_key_sequence("<a><b").unwrap_err(),
        "syntax error in key sequence `<a><b`: unmatched angle brackets, make sure every '<' has a corresponding '>'"
    );
    assert_eq!(
        parse_key_sequence("<a><b><c><d>").unwrap_err(),
        "the maximum supported sequence lenght is 3 and `<a><b><c><d>`(len=4) is exceeding this value"
    );
    assert!(parse_key_sequence("<a><nothing>").is_err());
}
