//! 7-segment font: character to segment bitmask.
//!
//! Bit layout (TM1637 and the usual 7-segment convention):
//!
//! ```text
//!    _a_
//!   |   |
//!   f   b
//!   |_g_|
//!   |   |
//!   e   c
//!   |_d_|
//! ```
//!
//! bit 0 = a, 1 = b, 2 = c, 3 = d, 4 = e, 5 = f, 6 = g.
//! bit 7 (DP/colon) is driver-managed and never set by a glyph.
//!
//! Uppercase and lowercase share a bitmask where the rendering is the
//! same (`A|a`, `E|e`, ...); C/c, H/h, O/o, U/u have distinct renderings.

use vstd::prelude::*;

verus! {

/// The decimal-point / colon bit of a segment byte.
pub const DP_BIT: u8 = 0x80;

/// Segment a (top).
pub const SEG_A: u8 = 0x01;
/// Segment b (upper right).
pub const SEG_B: u8 = 0x02;
/// Segment c (lower right).
pub const SEG_C: u8 = 0x04;
/// Segment d (bottom).
pub const SEG_D: u8 = 0x08;
/// Segment e (lower left).
pub const SEG_E: u8 = 0x10;
/// Segment f (upper left).
pub const SEG_F: u8 = 0x20;
/// Segment g (middle).
pub const SEG_G: u8 = 0x40;

/// The glyph table: the segment bitmask of a character, `None` where the
/// font has no glyph for it.
pub open spec fn glyph(c: char) -> Option<u8> {
    match c {
        '0' => Some(0x3Fu8),
        '1' => Some(0x06u8),
        '2' => Some(0x5Bu8),
        '3' => Some(0x4Fu8),
        '4' => Some(0x66u8),
        '5' => Some(0x6Du8),
        '6' => Some(0x7Du8),
        '7' => Some(0x07u8),
        '8' => Some(0x7Fu8),
        '9' => Some(0x6Fu8),
        'A' | 'a' => Some(0x77u8),
        'B' | 'b' => Some(0x7Cu8),
        'C' => Some(0x39u8),
        'c' => Some(0x58u8),
        'D' | 'd' => Some(0x5Eu8),
        'E' | 'e' => Some(0x79u8),
        'F' | 'f' => Some(0x71u8),
        'G' | 'g' => Some(0x3Du8),
        'H' => Some(0x76u8),
        'h' => Some(0x74u8),
        'I' | 'i' => Some(0x30u8),
        'J' | 'j' => Some(0x1Eu8),
        'K' | 'k' => Some(0x76u8),
        'L' | 'l' => Some(0x38u8),
        'M' | 'm' => Some(0x55u8),
        'N' | 'n' => Some(0x54u8),
        'O' => Some(0x3Fu8),
        'o' => Some(0x5Cu8),
        'P' | 'p' => Some(0x73u8),
        'Q' | 'q' => Some(0x67u8),
        'R' | 'r' => Some(0x50u8),
        'S' | 's' => Some(0x6Du8),
        'T' | 't' => Some(0x78u8),
        'U' => Some(0x3Eu8),
        'u' | 'V' | 'v' => Some(0x1Cu8),
        'W' | 'w' => Some(0x2Au8),
        'X' | 'x' => Some(0x76u8),
        'Y' | 'y' => Some(0x6Eu8),
        'Z' | 'z' => Some(0x5Bu8),
        '-' => Some(0x40u8),
        '_' => Some(0x08u8),
        '*' | '\u{b0}' => Some(0x63u8),
        ' ' => Some(0x00u8),
        _ => None,
    }
}

/// The byte a character occupies in rendered text: its glyph, or blank.
pub open spec fn glyph_or_blank(c: char) -> u8 {
    match glyph(c) {
        Some(b) => b,
        None => 0u8,
    }
}

/// The character of a decimal digit 0-9.
pub open spec fn decimal_char(d: int) -> char {
    if d == 0 { '0' }
    else if d == 1 { '1' }
    else if d == 2 { '2' }
    else if d == 3 { '3' }
    else if d == 4 { '4' }
    else if d == 5 { '5' }
    else if d == 6 { '6' }
    else if d == 7 { '7' }
    else if d == 8 { '8' }
    else { '9' }
}

/// Whether the decimal-point bit of a segment byte is lit.
pub open spec fn has_dp(b: u8) -> bool {
    b & 0x80 != 0
}

/// Rendering of a character sequence: each character takes one byte,
/// except that a `.` is folded into the DP bit of the byte before it when
/// that byte exists and has no DP yet; otherwise the `.` stands alone as
/// `0x80`.
pub open spec fn encode_chars(s: Seq<char>) -> Seq<u8>
    decreases s.len(),
{
    if s.len() == 0 {
        Seq::empty()
    } else {
        let prev = encode_chars(s.drop_last());
        let c = s.last();
        if c == '.' {
            if prev.len() > 0 && !has_dp(prev.last()) {
                prev.update(prev.len() - 1, prev.last() | 0x80u8)
            } else {
                prev.push(0x80u8)
            }
        } else {
            prev.push(glyph_or_blank(c))
        }
    }
}

/// Encode a single character. `None` for unsupported characters.
pub fn encode(c: char) -> (r: Option<u8>)
    ensures
        r == glyph(c),
{
    match c {
        '0' => Some(0x3F),
        '1' => Some(0x06),
        '2' => Some(0x5B),
        '3' => Some(0x4F),
        '4' => Some(0x66),
        '5' => Some(0x6D),
        '6' => Some(0x7D),
        '7' => Some(0x07),
        '8' => Some(0x7F),
        '9' => Some(0x6F),
        'A' | 'a' => Some(0x77),
        'B' | 'b' => Some(0x7C),
        'C' => Some(0x39),
        'c' => Some(0x58),
        'D' | 'd' => Some(0x5E),
        'E' | 'e' => Some(0x79),
        'F' | 'f' => Some(0x71),
        'G' | 'g' => Some(0x3D),
        'H' => Some(0x76),
        'h' => Some(0x74),
        'I' | 'i' => Some(0x30),
        'J' | 'j' => Some(0x1E),
        'K' | 'k' => Some(0x76),
        'L' | 'l' => Some(0x38),
        'M' | 'm' => Some(0x55),
        'N' | 'n' => Some(0x54),
        'O' => Some(0x3F),
        'o' => Some(0x5C),
        'P' | 'p' => Some(0x73),
        'Q' | 'q' => Some(0x67),
        'R' | 'r' => Some(0x50),
        'S' | 's' => Some(0x6D),
        'T' | 't' => Some(0x78),
        'U' => Some(0x3E),
        'u' | 'V' | 'v' => Some(0x1C),
        'W' | 'w' => Some(0x2A),
        'X' | 'x' => Some(0x76),
        'Y' | 'y' => Some(0x6E),
        'Z' | 'z' => Some(0x5B),
        '-' => Some(0x40),
        '_' => Some(0x08),
        '*' | '\u{b0}' => Some(0x63),
        ' ' => Some(0x00),
        _ => None,
    }
}

/// Encode a single digit 0-9. The digit table agrees with `encode` on
/// the characters `'0'..='9'`.
pub fn digit(d: u8) -> (r: u8)
    requires
        d < 10,
    ensures
        glyph(decimal_char(d as int)) == Some(r),
{
    match d {
        0 => 0x3F,
        1 => 0x06,
        2 => 0x5B,
        3 => 0x4F,
        4 => 0x66,
        5 => 0x6D,
        6 => 0x7D,
        7 => 0x07,
        8 => 0x7F,
        _ => 0x6F,
    }
}

/// Encode a string. Unsupported characters render as blank (`0x00`).
///
/// `.` is folded into the previous digit's DP bit (0x80) rather than
/// taking its own slot, so `"1.2.3.4"` produces 4 bytes, not 7. A leading
/// `.` (or a second `.` after a byte that already has its DP set) is
/// emitted as a standalone `0x80` byte.
pub fn encode_text(s: &str) -> (out: Vec<u8>)
    ensures
        out@ == encode_chars(s@),
{
    let mut out: Vec<u8> = Vec::new();
    proof {
        broadcast use vstd::string::group_string_axioms;
    }
    for c in it: s.chars()
        invariant
            it.seq() == s@,
            out@ == encode_chars(s@.take(it.index() as int)),
    {
        let ghost k = it.index() as int;
        assert(s@.take(k + 1).drop_last() =~= s@.take(k));
        if c == '.' {
            let n = out.len();
            if n > 0 && out[n - 1] & 0x80 == 0 {
                let b = out[n - 1] | 0x80;
                out.set(n - 1, b);
            } else {
                out.push(0x80);
            }
        } else {
            let b = match encode(c) {
                Some(b) => b,
                None => 0,
            };
            out.push(b);
        }
    }
    assert(s@.take(s@.len() as int) =~= s@);
    out
}

/// The number of characters of `s` that are not `.`.
pub open spec fn non_dot_count(s: Seq<char>) -> nat
    decreases s.len(),
{
    if s.len() == 0 {
        0
    } else {
        non_dot_count(s.drop_last()) + if s.last() == '.' { 0nat } else { 1nat }
    }
}

/// The shape of every glyph, segment by segment: the digits as on a
/// calculator, the letters in their usual 7-segment forms, `-` the middle
/// bar, `_` the bottom bar, `*` and the degree sign a small upper square,
/// the space dark.
pub proof fn glyph_shapes()
    ensures
        glyph('0') == Some((SEG_A + SEG_B + SEG_C + SEG_D + SEG_E + SEG_F) as u8),
        glyph('1') == Some((SEG_B + SEG_C) as u8),
        glyph('2') == Some((SEG_A + SEG_B + SEG_D + SEG_E + SEG_G) as u8),
        glyph('3') == Some((SEG_A + SEG_B + SEG_C + SEG_D + SEG_G) as u8),
        glyph('4') == Some((SEG_B + SEG_C + SEG_F + SEG_G) as u8),
        glyph('5') == Some((SEG_A + SEG_C + SEG_D + SEG_F + SEG_G) as u8),
        glyph('6') == Some((SEG_A + SEG_C + SEG_D + SEG_E + SEG_F + SEG_G) as u8),
        glyph('7') == Some((SEG_A + SEG_B + SEG_C) as u8),
        glyph('8') == Some((SEG_A + SEG_B + SEG_C + SEG_D + SEG_E + SEG_F + SEG_G) as u8),
        glyph('9') == Some((SEG_A + SEG_B + SEG_C + SEG_D + SEG_F + SEG_G) as u8),
        glyph('A') == Some((SEG_A + SEG_B + SEG_C + SEG_E + SEG_F + SEG_G) as u8),
        glyph('a') == glyph('A'),
        glyph('B') == Some((SEG_C + SEG_D + SEG_E + SEG_F + SEG_G) as u8),
        glyph('b') == glyph('B'),
        glyph('C') == Some((SEG_A + SEG_D + SEG_E + SEG_F) as u8),
        glyph('c') == Some((SEG_D + SEG_E + SEG_G) as u8),
        glyph('D') == Some((SEG_B + SEG_C + SEG_D + SEG_E + SEG_G) as u8),
        glyph('d') == glyph('D'),
        glyph('E') == Some((SEG_A + SEG_D + SEG_E + SEG_F + SEG_G) as u8),
        glyph('e') == glyph('E'),
        glyph('F') == Some((SEG_A + SEG_E + SEG_F + SEG_G) as u8),
        glyph('f') == glyph('F'),
        glyph('G') == Some((SEG_A + SEG_C + SEG_D + SEG_E + SEG_F) as u8),
        glyph('g') == glyph('G'),
        glyph('H') == Some((SEG_B + SEG_C + SEG_E + SEG_F + SEG_G) as u8),
        glyph('h') == Some((SEG_C + SEG_E + SEG_F + SEG_G) as u8),
        glyph('I') == Some((SEG_E + SEG_F) as u8),
        glyph('i') == glyph('I'),
        glyph('J') == Some((SEG_B + SEG_C + SEG_D + SEG_E) as u8),
        glyph('j') == glyph('J'),
        glyph('K') == Some((SEG_B + SEG_C + SEG_E + SEG_F + SEG_G) as u8),
        glyph('k') == glyph('K'),
        glyph('L') == Some((SEG_D + SEG_E + SEG_F) as u8),
        glyph('l') == glyph('L'),
        glyph('M') == Some((SEG_A + SEG_C + SEG_E + SEG_G) as u8),
        glyph('m') == glyph('M'),
        glyph('N') == Some((SEG_C + SEG_E + SEG_G) as u8),
        glyph('n') == glyph('N'),
        glyph('O') == Some((SEG_A + SEG_B + SEG_C + SEG_D + SEG_E + SEG_F) as u8),
        glyph('o') == Some((SEG_C + SEG_D + SEG_E + SEG_G) as u8),
        glyph('P') == Some((SEG_A + SEG_B + SEG_E + SEG_F + SEG_G) as u8),
        glyph('p') == glyph('P'),
        glyph('Q') == Some((SEG_A + SEG_B + SEG_C + SEG_F + SEG_G) as u8),
        glyph('q') == glyph('Q'),
        glyph('R') == Some((SEG_E + SEG_G) as u8),
        glyph('r') == glyph('R'),
        glyph('S') == Some((SEG_A + SEG_C + SEG_D + SEG_F + SEG_G) as u8),
        glyph('s') == glyph('S'),
        glyph('T') == Some((SEG_D + SEG_E + SEG_F + SEG_G) as u8),
        glyph('t') == glyph('T'),
        glyph('U') == Some((SEG_B + SEG_C + SEG_D + SEG_E + SEG_F) as u8),
        glyph('u') == Some((SEG_C + SEG_D + SEG_E) as u8),
        glyph('V') == glyph('u'),
        glyph('v') == glyph('u'),
        glyph('W') == Some((SEG_B + SEG_D + SEG_F) as u8),
        glyph('w') == glyph('W'),
        glyph('X') == Some((SEG_B + SEG_C + SEG_E + SEG_F + SEG_G) as u8),
        glyph('x') == glyph('X'),
        glyph('Y') == Some((SEG_B + SEG_C + SEG_D + SEG_F + SEG_G) as u8),
        glyph('y') == glyph('Y'),
        glyph('Z') == Some((SEG_A + SEG_B + SEG_D + SEG_E + SEG_G) as u8),
        glyph('z') == glyph('Z'),
        glyph('-') == Some(SEG_G),
        glyph('_') == Some(SEG_D),
        glyph('*') == Some((SEG_A + SEG_B + SEG_F + SEG_G) as u8),
        glyph('\u{b0}') == glyph('*'),
        glyph(' ') == Some(0u8),
{
}

/// No glyph of the font lights the DP bit: bit 7 is left to the driver.
pub proof fn glyph_never_sets_dp(c: char)
    ensures
        glyph(c) matches Some(b) ==> !has_dp(b),
        !has_dp(glyph_or_blank(c)),
{
    let b = glyph_or_blank(c);
    assert(b < 0x80);
    assert(b < 0x80 ==> b & 0x80 == 0) by (bit_vector);
}

/// Rendered text never takes more bytes than the text has characters, and
/// every character other than `.` takes exactly one byte of its own.
pub proof fn encoded_length_bounds(s: Seq<char>)
    ensures
        non_dot_count(s) <= encode_chars(s).len() <= s.len(),
    decreases s.len(),
{
    if s.len() > 0 {
        encoded_length_bounds(s.drop_last());
    }
}

/// Text without a `.` renders character for character.
pub proof fn encode_without_dots(s: Seq<char>)
    requires
        !s.contains('.'),
    ensures
        encode_chars(s) == s.map_values(|c: char| glyph_or_blank(c)),
    decreases s.len(),
{
    if s.len() > 0 {
        let t = s.drop_last();
        assert(!t.contains('.')) by {
            if t.contains('.') {
                let k = choose|k: int| 0 <= k < t.len() && t[k] == '.';
                assert(s[k] == '.');
            }
        }
        assert(s.last() != '.') by {
            assert(s[s.len() - 1] == s.last());
        }
        encode_without_dots(t);
        assert(encode_chars(s) =~= s.map_values(|c: char| glyph_or_blank(c)));
    } else {
        assert(encode_chars(s) =~= s.map_values(|c: char| glyph_or_blank(c)));
    }
}

} // verus!
