use rust_tours::text::{chars_of, is_space, trim};

fn trimmed_text(raw: &str) -> String {
    let text: Vec<char> = chars_of(raw);
    trim(&text).iter().collect()
}

#[test]
fn whitespace_is_what_std_calls_whitespace() {
    let mut code: u32 = 0;
    let mut seen: u32 = 0;
    while code <= 0x10FFFF {
        if let Some(c) = char::from_u32(code) {
            assert_eq!(is_space(c), c.is_whitespace(), "U+{:04X}", code);
            if is_space(c) {
                seen += 1;
            }
        }
        code += 1;
    }
    assert_eq!(seen, 25);
}

#[test]
fn whitespace_named_code_points() {
    for c in ['\t', '\n', '\u{0B}', '\u{0C}', '\r', ' ', '\u{85}', '\u{A0}', '\u{1680}'] {
        assert!(is_space(c));
    }
    for c in ['\u{2000}', '\u{200A}', '\u{2028}', '\u{2029}', '\u{202F}', '\u{205F}', '\u{3000}'] {
        assert!(is_space(c));
    }
    for c in ['0', '9', 'a', '+', '-', '\u{08}', '\u{0E}', '\u{1F}', '\u{200B}', '\u{FEFF}'] {
        assert!(!is_space(c));
    }
}

#[test]
fn chars_of_keeps_every_character_in_order() {
    assert_eq!(chars_of(""), Vec::<char>::new());
    assert_eq!(chars_of("42\n"), vec!['4', '2', '\n']);
    assert_eq!(chars_of("é１\u{3000}"), vec!['é', '１', '\u{3000}']);
}

#[test]
fn trim_takes_off_both_ends() {
    let text: Vec<char> = chars_of("  42\r\n");
    assert_eq!(trim(&text), ['4', '2']);
    assert_eq!(trimmed_text("\u{3000}+7\u{2028}"), "+7");
}

#[test]
fn trim_of_nothing_but_whitespace_is_empty() {
    let empty: Vec<char> = Vec::new();
    assert!(trim(&empty).is_empty());
    let blank: Vec<char> = chars_of(" \t\n");
    assert!(trim(&blank).is_empty());
}

#[test]
fn trim_keeps_inner_whitespace() {
    let text: Vec<char> = chars_of("a b");
    assert_eq!(trim(&text), ['a', ' ', 'b']);
    assert_eq!(trimmed_text(" 1 2 "), "1 2");
}

#[test]
fn trim_is_the_same_from_there_on() {
    for raw in ["  42\n", "x", "", " a b ", "\t\t"] {
        let text: Vec<char> = chars_of(raw);
        let once: Vec<char> = trim(&text).to_vec();
        assert_eq!(trim(&once), &once[..]);
    }
}

#[test]
fn trimming_agrees_with_std() {
    let samples = [
        "",
        " ",
        "42",
        " 42",
        "42 ",
        "\t42\n",
        "42\r\n",
        "\u{3000}42\u{2028}",
        "\u{A0}\u{1680}x y\u{205F}",
        "\u{200B}42",
        "  \n\n  ",
        "a",
        " a b c ",
    ];
    for raw in samples {
        assert_eq!(trimmed_text(raw), raw.trim(), "{:?}", raw);
    }
}
