use afk::frame::{caption_block, frame_lines, is_blank, is_white_space, rendered_caption_block, split_lines};

#[test]
fn lines_split_like_str_lines() {
    assert_eq!(split_lines("foo\r\nbar\n\nbaz\r"), vec!["foo", "bar", "", "baz\r"]);
    assert_eq!(split_lines("a\n"), vec!["a"]);
    assert_eq!(split_lines("\n"), vec![""]);
    assert_eq!(split_lines(""), Vec::<String>::new());
    assert_eq!(split_lines("é\nü"), vec!["é", "ü"]);
    for text in ["x\r\n\r\ny", "\r\n", " a \n\tb\n\n", "\r"] {
        let ours = split_lines(text);
        let std_lines: Vec<String> = text.lines().map(|l| l.to_string()).collect();
        assert_eq!(ours, std_lines);
    }
}

#[test]
fn white_space_matches_unicode() {
    for c in [' ', '\t', '\n', '\r', '\u{b}', '\u{c}', '\u{85}', '\u{a0}', '\u{1680}', '\u{2000}', '\u{200a}', '\u{2028}', '\u{2029}', '\u{202f}', '\u{205f}', '\u{3000}'] {
        assert!(is_white_space(c));
    }
    for c in ['a', '0', '_', '\u{200b}', '\u{feff}', '\u{1}'] {
        assert!(!is_white_space(c));
    }
    for u in 0..0x11_0000u32 {
        if let Some(c) = char::from_u32(u) {
            assert_eq!(is_white_space(c), c.is_whitespace());
        }
    }
}

#[test]
fn blank_lines() {
    assert!(is_blank(""));
    assert!(is_blank("  \t "));
    assert!(!is_blank("  x "));
}

#[test]
fn rendered_output_that_is_not_utf8() {
    assert_eq!(frame_lines(vec![0x41, 0xff, 0x42]), None);
    assert!(rendered_caption_block(vec![0xc3]).is_none());
}

#[test]
fn rendered_output_decoded_into_lines() {
    let bytes = "ab\n\u{2588}c\n".as_bytes().to_vec();
    assert_eq!(frame_lines(bytes), Some(vec!["ab".to_string(), "\u{2588}c".to_string()]));
    assert_eq!(frame_lines(Vec::new()), Some(Vec::new()));
}

#[test]
fn caption_drops_blank_lines() {
    let b = caption_block("  \nHi\n\n there \n");
    assert_eq!(b.lines, vec!["Hi", " there "]);
    assert_eq!(b.height, 2);
}

#[test]
fn empty_caption_is_one_row() {
    let b = caption_block("");
    assert!(b.lines.is_empty());
    assert_eq!(b.height, 1);
    let b = caption_block("   \n\t\n");
    assert!(b.lines.is_empty());
    assert_eq!(b.height, 1);
}

#[test]
fn plain_caption_is_one_row() {
    let b = caption_block("coffee break");
    assert_eq!(b.lines, vec!["coffee break"]);
    assert_eq!(b.height, 1);
}

#[test]
fn rendered_caption_block_from_bytes() {
    let b = rendered_caption_block(" _ \n|_|\n   \n".as_bytes().to_vec()).unwrap();
    assert_eq!(b.lines, vec![" _ ", "|_|"]);
    assert_eq!(b.height, 2);
}
