use sklauncher::text::is_whitespace_char;
use sklauncher::text::trim;

#[test]
fn trim_removes_white_space_at_both_ends() {
    assert_eq!(trim("  ls -la  "), "ls -la");
    assert_eq!(trim("\t\nvim\r\n"), "vim");
}

#[test]
fn trim_keeps_white_space_inside() {
    assert_eq!(trim(" a  b\tc "), "a  b\tc");
}

#[test]
fn trim_of_plain_text_is_the_text() {
    assert_eq!(trim("firefox"), "firefox");
}

#[test]
fn trim_of_empty_and_blank_text_is_empty() {
    assert_eq!(trim(""), "");
    assert_eq!(trim(" \t \n "), "");
    assert_eq!(trim("\u{3000}"), "");
}

#[test]
fn trim_knows_white_space_beyond_ascii() {
    assert_eq!(trim("\u{a0}\u{2003}caf\u{e9}\u{3000}\u{85}"), "caf\u{e9}");
    assert_eq!(trim("\u{1680}x\u{205f}"), "x");
}

#[test]
fn trim_keeps_characters_that_only_look_blank() {
    assert_eq!(trim("\u{200b}x\u{200b}"), "\u{200b}x\u{200b}");
    assert_eq!(trim("\u{180e}x"), "\u{180e}x");
    assert_eq!(trim("\u{feff}x"), "\u{feff}x");
}

#[test]
fn trim_is_idempotent() {
    for s in ["  a b  ", "x", "", " \u{a0}y\t"] {
        let once = trim(s);
        assert_eq!(trim(&once), once);
    }
}

#[test]
fn trim_agrees_with_the_standard_library() {
    let samples = [
        "",
        " ",
        "  ls -la  ",
        "\u{2028}\u{2029}a\u{202f}",
        "\u{b}\u{c}x y\u{1c}",
        "\u{2000}\u{200a}z\u{200b} ",
        "no-space",
        " \u{0}\u{1} ",
    ];
    for s in samples {
        assert_eq!(trim(s), s.trim());
    }
}

#[test]
fn white_space_is_what_the_standard_library_calls_white_space() {
    let mut code: u32 = 0;
    while code <= 0x10ffff {
        if let Some(c) = char::from_u32(code) {
            assert_eq!(is_whitespace_char(c), c.is_whitespace(), "U+{:04X}", code);
        }
        code += 1;
    }
}

#[test]
fn white_space_has_twenty_five_characters() {
    let mut n = 0;
    let mut code: u32 = 0;
    while code <= 0x10ffff {
        if let Some(c) = char::from_u32(code) {
            if is_whitespace_char(c) {
                n += 1;
            }
        }
        code += 1;
    }
    assert_eq!(n, 25);
}
