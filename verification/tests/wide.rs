use teams_usb_fix::wide::{
    encode_utf16, fill_wide, find_nul, from_utf16_lossy, read_text, to_wide, wide_bytes,
};

#[test]
fn to_wide_appends_a_terminator() {
    assert_eq!(to_wide("Ab"), vec![0x41u16, 0x62, 0]);
    assert_eq!(to_wide(""), vec![0u16]);
}

#[test]
fn encoding_agrees_with_the_standard_library() {
    for text in ["", "plain", "\u{e9}\u{20ac}", "\u{1f600}x\u{10ffff}", "\u{d7ff}\u{e000}\u{ffff}\u{10000}"] {
        let expected: Vec<u16> = text.encode_utf16().collect();
        assert_eq!(encode_utf16(text), expected);
    }
}

#[test]
fn surrogate_pair_of_an_emoji() {
    assert_eq!(encode_utf16("\u{1f600}"), vec![0xD83Du16, 0xDE00]);
}

#[test]
fn decoding_agrees_with_the_standard_library() {
    let cases: Vec<Vec<u16>> = vec![
        vec![],
        vec![0x41, 0x42],
        vec![0xD83D, 0xDE00],
        vec![0xD83D],
        vec![0xDE00],
        vec![0xD83D, 0x41],
        vec![0xD83D, 0xD83D, 0xDE00],
        vec![0xDBFF, 0xDFFF],
        vec![0xDC00, 0xD800],
        vec![0xE000, 0xFFFF, 0xFFFD, 0],
    ];
    for units in cases {
        assert_eq!(from_utf16_lossy(&units), String::from_utf16_lossy(&units));
    }
}

#[test]
fn lone_surrogate_becomes_a_replacement_character() {
    assert_eq!(from_utf16_lossy(&[0x41, 0xD800, 0x42]), "A\u{FFFD}B");
}

#[test]
fn decoding_gives_back_what_was_encoded() {
    let text = "caf\u{e9} \u{1f3a7} \u{10ffff}";
    assert_eq!(from_utf16_lossy(&encode_utf16(text)), text);
}

#[test]
fn wide_text_reads_back_up_to_its_terminator() {
    let wide = to_wide("hub \u{1f50c}");
    let end = find_nul(&wide);
    assert_eq!(end, wide.len() - 1);
    assert_eq!(from_utf16_lossy(&wide[..end]), "hub \u{1f50c}");
}

#[test]
fn fill_wide_keeps_what_lies_behind_the_terminator() {
    let mut buf = [7u16; 6];
    fill_wide("abc", &mut buf);
    assert_eq!(buf, [0x61u16, 0x62, 0x63, 0, 7, 7]);
}

#[test]
fn fill_wide_cuts_off_and_terminates() {
    let mut buf = [7u16; 4];
    fill_wide("abcdef", &mut buf);
    assert_eq!(buf, [0x61u16, 0x62, 0x63, 0]);
    let mut exact = [7u16; 4];
    fill_wide("abc", &mut exact);
    assert_eq!(exact, [0x61u16, 0x62, 0x63, 0]);
    let mut one = [7u16; 1];
    fill_wide("abc", &mut one);
    assert_eq!(one, [0u16]);
}

#[test]
fn fill_wide_may_cut_a_pair_in_two() {
    let mut buf = [0u16; 2];
    fill_wide("\u{1f600}", &mut buf);
    assert_eq!(buf, [0xD83Du16, 0]);
}

#[test]
fn text_is_read_up_to_the_null() {
    assert_eq!(read_text(&[0x6d, 0x73, 0, 0x78]), "ms");
    assert_eq!(read_text(&[0x16d, 0xe9]), "\u{16d}\u{e9}");
    assert_eq!(read_text(&[0xD83D, 0xDE00, 0xD83D, 0, 0x78]), "\u{1f600}\u{fffd}");
    assert_eq!(read_text(&[]), "");
    assert_eq!(read_text(&[0]), "");
}

#[test]
fn units_decoded_without_loss_encode_back() {
    for units in [vec![0x6du16, 0x16d, 0xD83D, 0xDE00, 0xFFFC], vec![]] {
        assert_eq!(encode_utf16(&from_utf16_lossy(&units)), units);
    }
    assert_eq!(encode_utf16(&from_utf16_lossy(&[0xD83D])), vec![0xFFFDu16]);
}

#[test]
fn wide_bytes_are_little_endian() {
    assert_eq!(wide_bytes(&[0x1234, 0x00ff]), vec![0x34u8, 0x12, 0xff, 0x00]);
}
