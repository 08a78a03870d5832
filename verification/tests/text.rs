use lbm_hook::text::{ascii_lower, chars_of, is_whitespace, last_piece_of, split_chars, string_of, trim_lower, Separators};

#[test]
fn path_components_split_on_both_slashes() {
    let path = chars_of(r"C:\Tools/sub\App.EXE");
    assert_eq!(string_of(&last_piece_of(&path, Separators::Path)), "App.EXE");
    assert_eq!(string_of(&last_piece_of(&chars_of("plain"), Separators::Path)), "plain");
    assert!(last_piece_of(&chars_of("dir/"), Separators::Path).is_empty());
}

#[test]
fn split_keeps_empty_pieces() {
    let pieces = split_chars(&chars_of("a;;b;"), Separators::Semicolon);
    let strings: Vec<String> = pieces.iter().map(|p| string_of(p)).collect();
    assert_eq!(strings, vec!["a", "", "b", ""]);
    assert_eq!(split_chars(&chars_of(""), Separators::Comma).len(), 1);
}

#[test]
fn trim_and_lower_follow_std() {
    for s in [" Ab C\t", "\u{2003}X\u{205f}", "", "   ", "ÉCOLE.exe"] {
        let expected = s.trim().to_ascii_lowercase();
        assert_eq!(string_of(&trim_lower(&chars_of(s))), expected);
    }
    for c in ['\u{85}', '\u{a0}', ' ', '\n', 'x', '\u{200b}', '\u{3000}'] {
        assert_eq!(is_whitespace(c), c.is_whitespace());
    }
    for c in ['A', 'Z', 'a', '@', '[', 'É', '1'] {
        assert_eq!(ascii_lower(c), c.to_ascii_lowercase());
    }
}
