use kurokku::font_7seg::{digit, encode, encode_text};

#[test]
fn digit_table_matches_encode_for_0_through_9() {
    for d in 0..=9u8 {
        let c = char::from(b'0' + d);
        assert_eq!(Some(digit(d)), encode(c));
    }
}

#[test]
fn digit_bitmasks_are_canonical() {
    // 0 = a+b+c+d+e+f = 0x3F; 1 = b+c = 0x06; 8 = all segments = 0x7F
    assert_eq!(digit(0), 0x3F);
    assert_eq!(digit(1), 0x06);
    assert_eq!(digit(8), 0x7F);
}

#[test]
fn case_insensitive_where_rendering_matches() {
    assert_eq!(encode('A'), encode('a'));
    assert_eq!(encode('E'), encode('e'));
    assert_eq!(encode('F'), encode('f'));
    assert_eq!(encode('P'), encode('p'));
}

#[test]
fn case_distinct_letters_differ() {
    assert_ne!(encode('C'), encode('c'));
    assert_ne!(encode('H'), encode('h'));
    assert_ne!(encode('O'), encode('o'));
    assert_ne!(encode('U'), encode('u'));
}

#[test]
fn uppercase_o_equals_zero() {
    assert_eq!(encode('O'), Some(0x3F));
    assert_eq!(encode('O'), Some(digit(0)));
}

#[test]
fn unsupported_character_returns_none() {
    assert_eq!(encode('?'), None);
    assert_eq!(encode('@'), None);
    assert_eq!(encode('\t'), None);
}

#[test]
fn space_renders_blank() {
    assert_eq!(encode(' '), Some(0x00));
}

#[test]
fn dp_bit_is_never_set_in_base_encoding() {
    for c in ['0', '9', 'A', 'z', '-', '_', '*', ' '] {
        if let Some(b) = encode(c) {
            assert_eq!(b & 0x80, 0, "char {:?} set DP bit", c);
        }
    }
}

#[test]
fn encode_text_clock_style() {
    let out = encode_text("12 34");
    assert_eq!(out.len(), 5);
    assert_eq!(out[0], digit(1));
    assert_eq!(out[1], digit(2));
    assert_eq!(out[2], 0x00);
    assert_eq!(out[3], digit(3));
    assert_eq!(out[4], digit(4));
}

#[test]
fn encode_text_folds_dot_into_previous_byte() {
    let out = encode_text("1.2.3.4");
    assert_eq!(out.len(), 4);
    assert_eq!(out[0], digit(1) | 0x80);
    assert_eq!(out[1], digit(2) | 0x80);
    assert_eq!(out[2], digit(3) | 0x80);
    assert_eq!(out[3], digit(4));
}

#[test]
fn encode_text_ip_address_is_compact() {
    let out = encode_text("10.11.12.13");
    assert_eq!(out.len(), 8);
    assert_eq!(out[1] & 0x80, 0x80);
    assert_eq!(out[3] & 0x80, 0x80);
    assert_eq!(out[5] & 0x80, 0x80);
    assert_eq!(out[7] & 0x80, 0);
}

#[test]
fn encode_text_leading_dot_becomes_standalone() {
    let out = encode_text(".1");
    assert_eq!(out, vec![0x80, digit(1)]);
}

#[test]
fn encode_text_second_dot_after_dp_is_standalone() {
    let out = encode_text("1..");
    assert_eq!(out, vec![digit(1) | 0x80, 0x80]);
}

#[test]
fn encode_text_unsupported_chars_render_blank() {
    let out = encode_text("A?B");
    assert_eq!(out.len(), 3);
    assert_eq!(out[0], encode('A').unwrap());
    assert_eq!(out[1], 0x00);
    assert_eq!(out[2], encode('B').unwrap());
}

#[test]
fn encode_text_empty_input_is_empty() {
    assert_eq!(encode_text(""), Vec::<u8>::new());
}

#[test]
fn encode_degree_sign_and_star_share_glyph() {
    assert_eq!(encode('\u{b0}'), Some(0x63));
    assert_eq!(encode('*'), Some(0x63));
}

#[test]
fn encode_text_dot_after_blank_folds() {
    // An unsupported character renders blank, and a following dot still
    // folds into that blank slot.
    assert_eq!(encode_text("?."), vec![0x80]);
    assert_eq!(encode_text("-."), vec![0x40 | 0x80]);
}
