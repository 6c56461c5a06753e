use soon::stats::display_command;
use soon::text::{char_is_whitespace, chars_of, same_text, trimmed};

#[test]
fn whitespace_is_what_std_calls_whitespace() {
    for n in 0u32..=0x10FFFF {
        if let Some(c) = char::from_u32(n) {
            assert_eq!(char_is_whitespace(c), c.is_whitespace(), "U+{:04X}", n);
        }
    }
}

#[test]
fn trimmed_agrees_with_std_trim() {
    for s in [
        "",
        " ",
        "a",
        "  a  ",
        "\t\n a b \r\n",
        "\u{a0}x\u{2003}",
        "\u{3000}\u{3000}",
        "x \u{1680} y",
        " \u{200b} ",
    ] {
        assert_eq!(trimmed(s), s.trim());
    }
}

#[test]
fn chars_of_gives_each_character_once() {
    assert_eq!(chars_of("h\u{e9}llo"), vec!['h', '\u{e9}', 'l', 'l', 'o']);
    assert_eq!(chars_of(""), Vec::<char>::new());
}

#[test]
fn same_text_compares_characters() {
    assert!(same_text("fish", "fish"));
    assert!(!same_text("fish", "Fish"));
    assert!(!same_text("fish", "fis"));
    assert!(same_text("", ""));
}

#[test]
fn long_commands_are_cut_to_the_column() {
    let short = "a".repeat(38);
    assert_eq!(display_command(&short), short);
    let long = "b".repeat(39);
    let shown = display_command(&long);
    assert_eq!(shown.chars().count(), 38);
    assert_eq!(shown, format!("{}\u{2026}", "b".repeat(37)));
    assert_eq!(display_command(""), "");
    let wide = "\u{e9}".repeat(40);
    assert_eq!(display_command(&wide), format!("{}\u{2026}", "\u{e9}".repeat(37)));
}
