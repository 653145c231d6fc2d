use hyfetch::ascii::{ascii_size, AsciiSizeError};

#[test]
fn empty_art_has_no_size() {
    assert_eq!(ascii_size(""), Ok((0, 0)));
}

#[test]
fn only_color_codes_has_no_size() {
    assert_eq!(ascii_size("${c1}${c2}${c6}"), Ok((0, 0)));
}

#[test]
fn color_codes_are_not_counted() {
    assert_eq!(ascii_size("${c1}abc\n${c2}de${c3}f"), Ok((3, 2)));
    assert_eq!(ascii_size("${c7}x"), Ok((6, 1)));
}

#[test]
fn width_is_widest_line_and_height_counts_lines() {
    assert_eq!(ascii_size("a\nabcd\nab\n"), Ok((4, 3)));
    assert_eq!(ascii_size("\n\n"), Ok((0, 2)));
}

#[test]
fn width_counts_graphemes() {
    // "e" followed by a combining acute accent is one grapheme; a family emoji
    // built with zero-width joiners is one grapheme too.
    assert_eq!(ascii_size("e\u{301}e\u{301}\n\u{1F468}\u{200D}\u{1F469}\u{200D}\u{1F467}"), Ok((2, 2)));
}

#[test]
fn color_code_in_front_changes_nothing() {
    let art = "  /\\\n /  \\\n/____\\";
    let coded = format!("${{c4}}{art}");
    assert_eq!(ascii_size(&coded), ascii_size(art));
    assert_eq!(ascii_size(art), Ok((6, 3)));
}

#[test]
fn too_wide_art_is_an_error() {
    let wide = "x".repeat(70_000);
    assert_eq!(ascii_size(&wide), Err(AsciiSizeError::WidthOverflow));
}

#[test]
fn too_tall_art_is_an_error() {
    let tall = "x\n".repeat(70_000);
    assert_eq!(ascii_size(&tall), Err(AsciiSizeError::HeightOverflow));
}

#[test]
fn ascii_art_width_is_its_longest_line() {
    assert_eq!(ascii_size("ab"), Ok((2, 1)));
    assert_eq!(ascii_size("a\rb\n${c1}xyz"), Ok((3, 2)));
}
