//! 5x7 dot-matrix font used to draw captions into rendered video frames.
use vstd::prelude::*;

verus! {

/// ASCII upper-casing: lower-case Latin letters map to their capitals, every
/// other character is left as it is.
pub open spec fn ascii_upper(c: char) -> char {
    if 'a' <= c && c <= 'z' {
        ((c as u32) - 32) as char
    } else {
        c
    }
}

/// Rows of the glyph drawn for the (already upper-cased) character `c`, top row
/// first; bit 4 of a row is its leftmost dot. Characters without a glyph of
/// their own are drawn as a hollow box.
pub open spec fn glyph_rows(c: char) -> Seq<u8> {
    match c {
        '0' => seq![0b01110u8, 0b10001u8, 0b10011u8, 0b10101u8, 0b11001u8, 0b10001u8, 0b01110u8],
        '1' => seq![0b00100u8, 0b01100u8, 0b00100u8, 0b00100u8, 0b00100u8, 0b00100u8, 0b01110u8],
        '2' => seq![0b01110u8, 0b10001u8, 0b00001u8, 0b00010u8, 0b00100u8, 0b01000u8, 0b11111u8],
        '3' => seq![0b11110u8, 0b00001u8, 0b00001u8, 0b01110u8, 0b00001u8, 0b00001u8, 0b11110u8],
        '4' => seq![0b00010u8, 0b00110u8, 0b01010u8, 0b10010u8, 0b11111u8, 0b00010u8, 0b00010u8],
        '5' => seq![0b11111u8, 0b10000u8, 0b11110u8, 0b00001u8, 0b00001u8, 0b10001u8, 0b01110u8],
        '6' => seq![0b00110u8, 0b01000u8, 0b10000u8, 0b11110u8, 0b10001u8, 0b10001u8, 0b01110u8],
        '7' => seq![0b11111u8, 0b00001u8, 0b00010u8, 0b00100u8, 0b01000u8, 0b01000u8, 0b01000u8],
        '8' => seq![0b01110u8, 0b10001u8, 0b10001u8, 0b01110u8, 0b10001u8, 0b10001u8, 0b01110u8],
        '9' => seq![0b01110u8, 0b10001u8, 0b10001u8, 0b01111u8, 0b00001u8, 0b00010u8, 0b01100u8],
        ':' => seq![0b00000u8, 0b01100u8, 0b01100u8, 0b00000u8, 0b01100u8, 0b01100u8, 0b00000u8],
        '-' => seq![0b00000u8, 0b00000u8, 0b00000u8, 0b11111u8, 0b00000u8, 0b00000u8, 0b00000u8],
        '/' => seq![0b00001u8, 0b00010u8, 0b00100u8, 0b01000u8, 0b10000u8, 0b00000u8, 0b00000u8],
        '.' => seq![0b00000u8, 0b00000u8, 0b00000u8, 0b00000u8, 0b00000u8, 0b01100u8, 0b01100u8],
        ' ' => seq![0b00000u8, 0b00000u8, 0b00000u8, 0b00000u8, 0b00000u8, 0b00000u8, 0b00000u8],
        'A' => seq![0b01110u8, 0b10001u8, 0b10001u8, 0b11111u8, 0b10001u8, 0b10001u8, 0b10001u8],
        'B' => seq![0b11110u8, 0b10001u8, 0b10001u8, 0b11110u8, 0b10001u8, 0b10001u8, 0b11110u8],
        'C' => seq![0b01110u8, 0b10001u8, 0b10000u8, 0b10000u8, 0b10000u8, 0b10001u8, 0b01110u8],
        'D' => seq![0b11110u8, 0b10001u8, 0b10001u8, 0b10001u8, 0b10001u8, 0b10001u8, 0b11110u8],
        'E' => seq![0b11111u8, 0b10000u8, 0b10000u8, 0b11110u8, 0b10000u8, 0b10000u8, 0b11111u8],
        'F' => seq![0b11111u8, 0b10000u8, 0b10000u8, 0b11110u8, 0b10000u8, 0b10000u8, 0b10000u8],
        'G' => seq![0b01110u8, 0b10001u8, 0b10000u8, 0b10111u8, 0b10001u8, 0b10001u8, 0b01110u8],
        'H' => seq![0b10001u8, 0b10001u8, 0b10001u8, 0b11111u8, 0b10001u8, 0b10001u8, 0b10001u8],
        'I' => seq![0b01110u8, 0b00100u8, 0b00100u8, 0b00100u8, 0b00100u8, 0b00100u8, 0b01110u8],
        'J' => seq![0b00001u8, 0b00001u8, 0b00001u8, 0b00001u8, 0b10001u8, 0b10001u8, 0b01110u8],
        'K' => seq![0b10001u8, 0b10010u8, 0b10100u8, 0b11000u8, 0b10100u8, 0b10010u8, 0b10001u8],
        'L' => seq![0b10000u8, 0b10000u8, 0b10000u8, 0b10000u8, 0b10000u8, 0b10000u8, 0b11111u8],
        'M' => seq![0b10001u8, 0b11011u8, 0b10101u8, 0b10001u8, 0b10001u8, 0b10001u8, 0b10001u8],
        'N' => seq![0b10001u8, 0b11001u8, 0b10101u8, 0b10011u8, 0b10001u8, 0b10001u8, 0b10001u8],
        'O' => seq![0b01110u8, 0b10001u8, 0b10001u8, 0b10001u8, 0b10001u8, 0b10001u8, 0b01110u8],
        'P' => seq![0b11110u8, 0b10001u8, 0b10001u8, 0b11110u8, 0b10000u8, 0b10000u8, 0b10000u8],
        'Q' => seq![0b01110u8, 0b10001u8, 0b10001u8, 0b10001u8, 0b10101u8, 0b10011u8, 0b01101u8],
        'R' => seq![0b11110u8, 0b10001u8, 0b10001u8, 0b11110u8, 0b10100u8, 0b10010u8, 0b10001u8],
        'S' => seq![0b01110u8, 0b10001u8, 0b10000u8, 0b01110u8, 0b00001u8, 0b10001u8, 0b01110u8],
        'T' => seq![0b11111u8, 0b00100u8, 0b00100u8, 0b00100u8, 0b00100u8, 0b00100u8, 0b00100u8],
        'U' => seq![0b10001u8, 0b10001u8, 0b10001u8, 0b10001u8, 0b10001u8, 0b10001u8, 0b01110u8],
        'V' => seq![0b10001u8, 0b10001u8, 0b10001u8, 0b10001u8, 0b01010u8, 0b01010u8, 0b00100u8],
        'W' => seq![0b10001u8, 0b10001u8, 0b10001u8, 0b10101u8, 0b10101u8, 0b11011u8, 0b10001u8],
        'X' => seq![0b10001u8, 0b10001u8, 0b01010u8, 0b00100u8, 0b01010u8, 0b10001u8, 0b10001u8],
        'Y' => seq![0b10001u8, 0b10001u8, 0b01010u8, 0b00100u8, 0b00100u8, 0b00100u8, 0b00100u8],
        'Z' => seq![0b11111u8, 0b00001u8, 0b00010u8, 0b00100u8, 0b01000u8, 0b10000u8, 0b11111u8],
        '_' => seq![0b00000u8, 0b00000u8, 0b00000u8, 0b00000u8, 0b00000u8, 0b00000u8, 0b11111u8],
        _ => seq![0b11111u8, 0b10001u8, 0b10001u8, 0b10001u8, 0b10001u8, 0b10001u8, 0b11111u8],
    }
}

/// The glyph drawn for `c`: letters are drawn the same in either case.
pub open spec fn glyph_for(c: char) -> Seq<u8> {
    glyph_rows(ascii_upper(c))
}

/// Law: every glyph is seven rows of five dots (each row uses only its low five bits).
pub proof fn lemma_glyph_shape(c: char)
    ensures
        glyph_for(c).len() == 7,
        forall|i: int| 0 <= i < 7 ==> #[trigger] glyph_for(c)[i] < 32,
{
}

/// Law: a letter is drawn the same in lower and upper case.
pub proof fn lemma_glyph_case_insensitive(c: char)
    ensures
        glyph_for(c) == glyph_for(ascii_upper(c)),
{
    if 'a' <= c && c <= 'z' {
        assert('A' <= ascii_upper(c) && ascii_upper(c) <= 'Z');
    }
}

/// Upper-cases an ASCII letter, leaving every other character unchanged.
pub fn to_ascii_uppercase(c: char) -> (r: char)
    ensures
        r == ascii_upper(c),
{
    if 'a' <= c && c <= 'z' {
        ((c as u8) - 32) as char
    } else {
        c
    }
}

/// 5x7 dot-matrix bitmap of a character (digits, letters in either case and
/// the symbols `: - / . _` and space; anything else is a hollow box).
pub fn get_glyph_bitmap(ch: char) -> (rows: [u8; 7])
    ensures
        rows@ == glyph_for(ch),
{
    let c = to_ascii_uppercase(ch);
    let rows: [u8; 7] = match c {
        '0' => [0b01110, 0b10001, 0b10011, 0b10101, 0b11001, 0b10001, 0b01110],
        '1' => [0b00100, 0b01100, 0b00100, 0b00100, 0b00100, 0b00100, 0b01110],
        '2' => [0b01110, 0b10001, 0b00001, 0b00010, 0b00100, 0b01000, 0b11111],
        '3' => [0b11110, 0b00001, 0b00001, 0b01110, 0b00001, 0b00001, 0b11110],
        '4' => [0b00010, 0b00110, 0b01010, 0b10010, 0b11111, 0b00010, 0b00010],
        '5' => [0b11111, 0b10000, 0b11110, 0b00001, 0b00001, 0b10001, 0b01110],
        '6' => [0b00110, 0b01000, 0b10000, 0b11110, 0b10001, 0b10001, 0b01110],
        '7' => [0b11111, 0b00001, 0b00010, 0b00100, 0b01000, 0b01000, 0b01000],
        '8' => [0b01110, 0b10001, 0b10001, 0b01110, 0b10001, 0b10001, 0b01110],
        '9' => [0b01110, 0b10001, 0b10001, 0b01111, 0b00001, 0b00010, 0b01100],
        ':' => [0b00000, 0b01100, 0b01100, 0b00000, 0b01100, 0b01100, 0b00000],
        '-' => [0b00000, 0b00000, 0b00000, 0b11111, 0b00000, 0b00000, 0b00000],
        '/' => [0b00001, 0b00010, 0b00100, 0b01000, 0b10000, 0b00000, 0b00000],
        '.' => [0b00000, 0b00000, 0b00000, 0b00000, 0b00000, 0b01100, 0b01100],
        ' ' => [0b00000, 0b00000, 0b00000, 0b00000, 0b00000, 0b00000, 0b00000],
        'A' => [0b01110, 0b10001, 0b10001, 0b11111, 0b10001, 0b10001, 0b10001],
        'B' => [0b11110, 0b10001, 0b10001, 0b11110, 0b10001, 0b10001, 0b11110],
        'C' => [0b01110, 0b10001, 0b10000, 0b10000, 0b10000, 0b10001, 0b01110],
        'D' => [0b11110, 0b10001, 0b10001, 0b10001, 0b10001, 0b10001, 0b11110],
        'E' => [0b11111, 0b10000, 0b10000, 0b11110, 0b10000, 0b10000, 0b11111],
        'F' => [0b11111, 0b10000, 0b10000, 0b11110, 0b10000, 0b10000, 0b10000],
        'G' => [0b01110, 0b10001, 0b10000, 0b10111, 0b10001, 0b10001, 0b01110],
        'H' => [0b10001, 0b10001, 0b10001, 0b11111, 0b10001, 0b10001, 0b10001],
        'I' => [0b01110, 0b00100, 0b00100, 0b00100, 0b00100, 0b00100, 0b01110],
        'J' => [0b00001, 0b00001, 0b00001, 0b00001, 0b10001, 0b10001, 0b01110],
        'K' => [0b10001, 0b10010, 0b10100, 0b11000, 0b10100, 0b10010, 0b10001],
        'L' => [0b10000, 0b10000, 0b10000, 0b10000, 0b10000, 0b10000, 0b11111],
        'M' => [0b10001, 0b11011, 0b10101, 0b10001, 0b10001, 0b10001, 0b10001],
        'N' => [0b10001, 0b11001, 0b10101, 0b10011, 0b10001, 0b10001, 0b10001],
        'O' => [0b01110, 0b10001, 0b10001, 0b10001, 0b10001, 0b10001, 0b01110],
        'P' => [0b11110, 0b10001, 0b10001, 0b11110, 0b10000, 0b10000, 0b10000],
        'Q' => [0b01110, 0b10001, 0b10001, 0b10001, 0b10101, 0b10011, 0b01101],
        'R' => [0b11110, 0b10001, 0b10001, 0b11110, 0b10100, 0b10010, 0b10001],
        'S' => [0b01110, 0b10001, 0b10000, 0b01110, 0b00001, 0b10001, 0b01110],
        'T' => [0b11111, 0b00100, 0b00100, 0b00100, 0b00100, 0b00100, 0b00100],
        'U' => [0b10001, 0b10001, 0b10001, 0b10001, 0b10001, 0b10001, 0b01110],
        'V' => [0b10001, 0b10001, 0b10001, 0b10001, 0b01010, 0b01010, 0b00100],
        'W' => [0b10001, 0b10001, 0b10001, 0b10101, 0b10101, 0b11011, 0b10001],
        'X' => [0b10001, 0b10001, 0b01010, 0b00100, 0b01010, 0b10001, 0b10001],
        'Y' => [0b10001, 0b10001, 0b01010, 0b00100, 0b00100, 0b00100, 0b00100],
        'Z' => [0b11111, 0b00001, 0b00010, 0b00100, 0b01000, 0b10000, 0b11111],
        '_' => [0b00000, 0b00000, 0b00000, 0b00000, 0b00000, 0b00000, 0b11111],
        _ => [0b11111, 0b10001, 0b10001, 0b10001, 0b10001, 0b10001, 0b11111],
    };
    assert(rows@ =~= glyph_rows(c));
    rows
}

/// Whether dot `col` (counted from the left) of a glyph row is lit: bit
/// `4 - col` of the row.
pub open spec fn dot_lit(row_bits: u8, col: int) -> bool {
    (row_bits >> ((4 - col) as u8)) & 1u8 == 1u8
}

/// Law: reading the five dots of a glyph row from left to right as binary digits
/// (a lit dot is a one, the leftmost dot the most significant) gives the row back.
pub proof fn lemma_dots_read_back_row(bits: u8)
    requires
        bits < 32,
    ensures
        bits as int == (if dot_lit(bits, 0) { 16int } else { 0int }) + (if dot_lit(bits, 1) {
            8int
        } else {
            0int
        }) + (if dot_lit(bits, 2) { 4int } else { 0int }) + (if dot_lit(bits, 3) {
            2int
        } else {
            0int
        }) + (if dot_lit(bits, 4) { 1int } else { 0int }),
{
    let b0 = dot_lit(bits, 0);
    let b1 = dot_lit(bits, 1);
    let b2 = dot_lit(bits, 2);
    let b3 = dot_lit(bits, 3);
    let b4 = dot_lit(bits, 4);
    assert(b0 == ((bits >> 4u8) & 1u8 == 1u8));
    assert(b1 == ((bits >> 3u8) & 1u8 == 1u8));
    assert(b2 == ((bits >> 2u8) & 1u8 == 1u8));
    assert(b3 == ((bits >> 1u8) & 1u8 == 1u8));
    assert(b4 == ((bits >> 0u8) & 1u8 == 1u8));
    assert(bits as int == (if b0 { 16int } else { 0int }) + (if b1 { 8int } else { 0int }) + (if b2 {
        4int
    } else {
        0int
    }) + (if b3 { 2int } else { 0int }) + (if b4 { 1int } else { 0int })) by (bit_vector)
        requires
            bits < 32,
            b0 == ((bits >> 4u8) & 1u8 == 1u8),
            b1 == ((bits >> 3u8) & 1u8 == 1u8),
            b2 == ((bits >> 2u8) & 1u8 == 1u8),
            b3 == ((bits >> 1u8) & 1u8 == 1u8),
            b4 == ((bits >> 0u8) & 1u8 == 1u8),
    ;
}

/// Whether the dot at `row`, `col` of a glyph bitmap is lit.
pub fn glyph_dot(rows: &[u8; 7], row: usize, col: usize) -> (lit: bool)
    requires
        row < 7,
        col < 5,
    ensures
        lit == dot_lit(rows@[row as int], col as int),
{
    let bits = rows[row];
    let shift: u8 = (4 - col) as u8;
    let lit = (bits & (1u8 << shift)) != 0;
    assert(lit == ((bits >> shift) & 1u8 == 1u8)) by (bit_vector)
        requires
            shift < 5,
            lit == ((bits & (1u8 << shift)) != 0),
    ;
    lit
}

} // verus!
