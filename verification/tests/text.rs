use parkour_lobby::decimal::to_decimal;
use parkour_lobby::legacy::{from_legacy, TextSegment, TextStyle};
use parkour_lobby::text::{chars_of, same_text};

fn plain() -> TextStyle {
    TextStyle {
        color: None,
        obfuscated: false,
        bold: false,
        strikethrough: false,
        underlined: false,
        italic: false,
    }
}

fn runs(segments: &[TextSegment]) -> Vec<(TextStyle, String)> {
    segments.iter().map(|s| (s.style, s.text.clone())).collect()
}

#[test]
fn decimal_digits() {
    assert_eq!(to_decimal(0), "0");
    assert_eq!(to_decimal(7), "7");
    assert_eq!(to_decimal(10), "10");
    assert_eq!(to_decimal(4096), "4096");
    assert_eq!(to_decimal(u64::MAX), "18446744073709551615");
    for n in [0u64, 1, 9, 10, 99, 100, 12345, u64::MAX / 3] {
        assert_eq!(to_decimal(n).parse::<u64>().unwrap(), n);
    }
}

#[test]
fn legacy_runs_spell_the_text_without_codes() {
    let text = "§6Gold §lbold§r and §zplain§";
    let spelled: String = from_legacy(text).iter().map(|s| s.text.as_str()).collect();
    assert_eq!(spelled, "Gold bold and plain");
    assert!(from_legacy(text).iter().all(|s| !s.text.is_empty()));
}

#[test]
fn text_without_codes_is_one_plain_run() {
    assert_eq!(runs(&from_legacy("Welcome!")), vec![(plain(), "Welcome!".to_string())]);
    assert!(from_legacy("").is_empty());
}

#[test]
fn color_codes_start_new_runs() {
    let green = TextStyle { color: Some(10), ..plain() };
    let red = TextStyle { color: Some(12), ..plain() };
    assert_eq!(
        runs(&from_legacy("Hi §aworld§C!")),
        vec![
            (plain(), "Hi ".to_string()),
            (green, "world".to_string()),
            (red, "!".to_string()),
        ]
    );
}

#[test]
fn modifiers_add_up_and_colors_reset_them() {
    let bold = TextStyle { bold: true, ..plain() };
    let bold_italic = TextStyle { bold: true, italic: true, ..plain() };
    let gold = TextStyle { color: Some(6), ..plain() };
    assert_eq!(
        runs(&from_legacy("§lA§oB§6C§rD")),
        vec![
            (bold, "A".to_string()),
            (bold_italic, "B".to_string()),
            (gold, "C".to_string()),
            (plain(), "D".to_string()),
        ]
    );
}

#[test]
fn unknown_codes_and_a_trailing_section_sign_are_dropped() {
    assert_eq!(runs(&from_legacy("a§zb§")), vec![(plain(), "ab".to_string())]);
    assert_eq!(runs(&from_legacy("§l§l§lx")), vec![(TextStyle { bold: true, ..plain() }, "x".to_string())]);
    assert!(from_legacy("§a§b").is_empty());
}

#[test]
fn chars_and_equality() {
    assert_eq!(chars_of("añb"), vec!['a', 'ñ', 'b']);
    assert!(same_text("abc", "abc"));
    assert!(!same_text("abc", "abd"));
    assert!(!same_text("abc", "ab"));
    assert!(same_text("", ""));
}
