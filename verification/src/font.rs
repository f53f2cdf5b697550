//! The bitmap font of the text overlay: reading the hex font file and packing
//! its ASCII glyphs into one texture atlas.

use crate::text;
use crate::text::{is_utf8, parse_hex_u32, trimmed};
use vstd::prelude::*;
use vstd::slice::slice_subrange;
use vstd::utf8::*;

verus! {

pub const GLYPH_W: u32 = 8;

pub const GLYPH_H: u32 = 16;

pub const ATLAS_COLS: u32 = 16;

pub const ATLAS_ROWS: u32 = 8;

pub const ATLAS_W: u32 = 128;

pub const ATLAS_H: u32 = 128;

/// The number of code points that the font covers.
pub const GLYPH_COUNT: usize = 128;

/// A bitmap per ASCII code point: sixteen rows of eight pixels, the leftmost
/// pixel in the highest bit.
pub type Glyphs = [[u8; 16]; 128];

/// The glyph table as a sequence of rows per code point.
pub open spec fn glyph_table(glyphs: Glyphs) -> Seq<Seq<u8>> {
    Seq::new(GLYPH_COUNT as nat, |c: int| glyphs@[c]@)
}

/// The table without any glyph.
pub open spec fn blank_table() -> Seq<Seq<u8>> {
    Seq::new(GLYPH_COUNT as nat, |c: int| Seq::new(GLYPH_H as nat, |r: int| 0u8))
}

/// Where `b` first occurs in `s`, or the length of `s` if it does not.
pub open spec fn find_byte(s: Seq<u8>, b: u8) -> nat
    decreases s.len(),
{
    if s.len() == 0 || s[0] == b {
        0
    } else {
        1 + find_byte(s.skip(1), b)
    }
}

/// What a line of the font file defines: a code point and the text of its
/// bitmap. Blank lines, comments and lines without a colon, without a
/// hexadecimal code point or with one beyond ASCII define nothing.
pub open spec fn font_entry(raw: Seq<u8>) -> Option<(nat, Seq<u8>)> {
    let line = text::trim(raw);
    let colon = find_byte(line, 0x3A) as int;
    if line.len() == 0 || line[0] == 0x23 || colon == line.len() {
        None
    } else {
        match text::parse_hex(text::trim(line.take(colon)), u32::MAX as nat) {
            Some(cp) => if cp < GLYPH_COUNT {
                Some((cp, text::trim(line.skip(colon + 1))))
            } else {
                None
            },
            None => None,
        }
    }
}

/// How many digits a glyph row takes in a bitmap of `len` digits: two in an
/// 8-pixel glyph, four in a 16-pixel one. Other bitmaps are not read.
pub open spec fn row_digits(len: nat) -> Option<int> {
    if len == 32 {
        Some(2)
    } else if len == 64 {
        Some(4)
    } else {
        None
    }
}

/// One row of a bitmap: the first two digits, or zero if they are no number.
pub open spec fn glyph_row(hex: Seq<u8>, stride: int, row: int) -> u8 {
    match text::parse_hex(hex.subrange(row * stride, row * stride + 2), 0xFF) {
        Some(v) => v as u8,
        None => 0,
    }
}

/// The glyph table after one more line.
pub open spec fn with_line(table: Seq<Seq<u8>>, raw: Seq<u8>) -> Seq<Seq<u8>> {
    match font_entry(raw) {
        Some((cp, hex)) => match row_digits(hex.len()) {
            Some(stride) => table.update(
                cp as int,
                Seq::new(GLYPH_H as nat, |row: int| glyph_row(hex, stride, row)),
            ),
            None => table,
        },
        None => table,
    }
}

/// The glyph table after the lines of `text`, in order.
pub open spec fn with_lines(table: Seq<Seq<u8>>, text: Seq<u8>) -> Seq<Seq<u8>>
    decreases text.len(),
{
    if text.len() == 0 {
        table
    } else {
        let n = find_byte(text, 0x0A) as int;
        let next = with_line(table, text.take(n));
        if n + 1 >= text.len() {
            next
        } else {
            with_lines(next, text.skip(n + 1))
        }
    }
}

/// The glyph table of a font file. A file that is not UTF-8 has no glyphs.
pub open spec fn font_table(data: Seq<u8>) -> Seq<Seq<u8>> {
    if valid_utf8(data) {
        with_lines(blank_table(), data)
    } else {
        blank_table()
    }
}

/// Whether one row of a bitmap starts and ends between characters.
pub open spec fn row_cuts_cleanly(hex: Seq<u8>, stride: int, row: int) -> bool {
    is_char_boundary(hex, row * stride) && is_char_boundary(hex, row * stride + 2)
}

pub open spec fn bitmap_cuts_cleanly(hex: Seq<u8>, stride: int) -> bool {
    forall|row: int| 0 <= row < GLYPH_H ==> row_cuts_cleanly(hex, stride, row)
}

/// Whether the rows of a line's bitmap can be cut out between characters.
pub open spec fn line_cuts_cleanly(raw: Seq<u8>) -> bool {
    match font_entry(raw) {
        Some((cp, hex)) => match row_digits(hex.len()) {
            Some(stride) => bitmap_cuts_cleanly(hex, stride),
            None => true,
        },
        None => true,
    }
}

pub open spec fn lines_cut_cleanly(text: Seq<u8>) -> bool
    decreases text.len(),
{
    text.len() > 0 ==> {
        let n = find_byte(text, 0x0A) as int;
        &&& line_cuts_cleanly(text.take(n))
        &&& n + 1 < text.len() ==> lines_cut_cleanly(text.skip(n + 1))
    }
}

/// No bitmap row of the font file starts or ends inside a character.
pub open spec fn font_cuts_cleanly(data: Seq<u8>) -> bool {
    valid_utf8(data) ==> lines_cut_cleanly(data)
}

proof fn lemma_find_byte(s: Seq<u8>, b: u8, i: int)
    requires
        0 <= i <= s.len(),
        forall|j: int| 0 <= j < i ==> s[j] != b,
        i < s.len() ==> s[i] == b,
    ensures
        find_byte(s, b) == i,
    decreases i,
{
    if i > 0 {
        lemma_find_byte(s.skip(1), b, i - 1);
    }
}

/// A text splits around an ASCII byte into two texts.
proof fn lemma_split_at_ascii(text: Seq<u8>, i: int)
    requires
        valid_utf8(text),
        0 <= i < text.len(),
        text[i] <= 0x7F,
    ensures
        valid_utf8(text.take(i)),
        valid_utf8(text.skip(i + 1)),
{
    is_char_boundary_iff_not_is_continuation_byte(text, i);
    valid_utf8_split(text, i);
    let tail = text.subrange(i, text.len() as int);
    assert(tail[0] == text[i]);
    assert(pop_first_scalar(tail) =~= text.skip(i + 1));
    assert(text.take(i) =~= text.subrange(0, i));
}

/// The place of the first `b` in `s`, or the length of `s`.
fn position_of(s: &[u8], b: u8) -> (i: usize)
    ensures
        i == find_byte(s@, b),
        i <= s@.len(),
        i < s@.len() ==> s@[i as int] == b,
{
    let n: usize = s.len();
    let mut i: usize = 0;
    while i < n && s[i] != b
        invariant
            i <= n == s@.len(),
            forall|j: int| 0 <= j < i ==> s@[j] != b,
        decreases n - i,
    {
        i = i + 1;
    }
    proof {
        lemma_find_byte(s@, b, i as int);
    }
    i
}

/// Reads what a line of the font file defines.
fn read_entry(raw: &[u8]) -> (entry: Option<(usize, &[u8])>)
    requires
        valid_utf8(raw@),
    ensures
        match entry {
            Some((cp, hex)) => {
                &&& font_entry(raw@) == Some((cp as nat, hex@))
                &&& cp < GLYPH_COUNT
                &&& valid_utf8(hex@)
            },
            None => font_entry(raw@) is None,
        },
{
    let line = trimmed(raw);
    let n: usize = line.len();
    if n == 0 || line[0] == 0x23 {
        return None;
    }
    let colon: usize = position_of(line, 0x3A);
    if colon == n {
        return None;
    }
    proof {
        lemma_split_at_ascii(line@, colon as int);
        assert(line@.subrange(0, colon as int) =~= line@.take(colon as int));
        assert(line@.subrange(colon + 1, n as int) =~= line@.skip(colon + 1));
    }
    match parse_hex_u32(trimmed(slice_subrange(line, 0, colon))) {
        Some(cp) => if cp < 128 {
            Some((cp as usize, trimmed(slice_subrange(line, colon + 1, n))))
        } else {
            None
        },
        None => None,
    }
}

/// Reads the sixteen rows of a bitmap.
fn read_rows(hex: &[u8], stride: usize) -> (rows: [u8; 16])
    requires
        row_digits(hex@.len()) == Some(stride as int),
    ensures
        rows@ == Seq::new(GLYPH_H as nat, |row: int| glyph_row(hex@, stride as int, row)),
{
    let mut rows: [u8; 16] = [0; 16];
    let mut i: usize = 0;
    while i < 16
        invariant
            i <= 16,
            stride == 2 || stride == 4,
            hex@.len() == 16 * stride,
            forall|j: int| 0 <= j < i ==> #[trigger] rows@[j] == glyph_row(hex@, stride as int, j),
        decreases 16 - i,
    {
        assert(i * stride + 2 <= 16 * stride) by (nonlinear_arith)
            requires
                i < 16,
                stride == 2 || stride == 4,
        ;
        let at: usize = i * stride;
        let digits = slice_subrange(hex, at, at + 2);
        proof {
            lemma_two_digits_fit(digits@);
        }
        rows[i] = match parse_hex_u32(digits) {
            Some(v) => v as u8,
            None => 0,
        };
        i = i + 1;
    }
    assert(rows@ =~= Seq::new(GLYPH_H as nat, |row: int| glyph_row(hex@, stride as int, row)));
    rows
}

/// A number of at most two hexadecimal digits fits in a byte.
proof fn lemma_two_digits_fit(text: Seq<u8>)
    requires
        text.len() == 2,
    ensures
        text::parse_hex(text, u32::MAX as nat) == text::parse_hex(text, 0xFF),
{
    let digits = text::unsigned_digits(text);
    if text::all_hex(digits) {
        reveal_with_fuel(text::hex_value, 3);
        assert(forall|i: int|
            0 <= i < digits.len() ==> text::hex_digit(#[trigger] digits[i]) is Some);
        assert(text::hex_digit(digits.last()) is Some);
        if digits.len() == 2 {
            assert(digits.drop_last().last() == digits[0]);
        }
        assert(text::hex_value(digits) <= 0xFF);
    }
}

/// Reads the ASCII glyphs of a hex font file. A file that is not UTF-8 gives
/// the blank table.
pub fn parse_font_hex_ascii(data: &[u8]) -> (glyphs: Glyphs)
    requires
        font_cuts_cleanly(data@),
    ensures
        glyph_table(glyphs) == font_table(data@),
        forall|c: int| 0 <= c < 128 ==> #[trigger] glyphs@[c]@ == font_table(data@)[c],
{
    let mut glyphs: Glyphs = [[0u8; 16]; 128];
    assert(glyph_table(glyphs) =~= blank_table()) by {
        assert forall|c: int| 0 <= c < GLYPH_COUNT implies glyph_table(glyphs)[c]
            == blank_table()[c] by {
            assert(glyph_table(glyphs)[c] =~= blank_table()[c]);
        }
    }
    if !is_utf8(data) {
        proof {
            law_glyph_table_is_the_table(glyphs);
        }
        return glyphs;
    }
    let n: usize = data.len();
    let mut lo: usize = 0;
    assert(data@.skip(0) =~= data@);
    while lo < n
        invariant
            lo <= n == data@.len(),
            valid_utf8(data@.skip(lo as int)),
            with_lines(glyph_table(glyphs), data@.skip(lo as int)) == with_lines(
                blank_table(),
                data@,
            ),
        decreases n - lo,
    {
        let ghost table = glyph_table(glyphs);
        let ghost text = data@.skip(lo as int);
        let rest = slice_subrange(data, lo, n);
        assert(rest@ =~= text);
        let end: usize = position_of(rest, 0x0A);
        let raw = slice_subrange(rest, 0, end);
        proof {
            assert(raw@ =~= text.take(end as int));
            if end < text.len() {
                lemma_split_at_ascii(text, end as int);
                assert(text.skip(end + 1) =~= data@.skip(lo + end + 1));
            } else {
                assert(raw@ =~= text);
            }
        }
        match read_entry(raw) {
            Some((cp, hex)) => {
                let len: usize = hex.len();
                if len == 32 {
                    glyphs[cp] = read_rows(hex, 2);
                } else if len == 64 {
                    glyphs[cp] = read_rows(hex, 4);
                }
            },
            None => {},
        }
        assert(glyph_table(glyphs) =~= with_line(table, raw@));
        if end >= n - lo {
            lo = n;
            assert(data@.skip(lo as int) =~= Seq::<u8>::empty());
        } else {
            lo = lo + end + 1;
            if lo == n {
                assert(data@.skip(lo as int) =~= Seq::<u8>::empty());
            }
        }
    }
    assert(data@.skip(n as int) =~= Seq::<u8>::empty());
    proof {
        law_glyph_table_is_the_table(glyphs);
    }
    glyphs
}

/// Whether the rows of a line's bitmap can be cut out between characters.
fn check_line(raw: &[u8]) -> (ok: bool)
    requires
        valid_utf8(raw@),
    ensures
        ok == line_cuts_cleanly(raw@),
{
    let (hex, stride): (&[u8], usize) = match read_entry(raw) {
        Some((_, hex)) => {
            let len: usize = hex.len();
            if len == 32 {
                (hex, 2)
            } else if len == 64 {
                (hex, 4)
            } else {
                return true;
            }
        },
        None => {
            return true;
        },
    };
    let ghost code = font_entry(raw@).unwrap().0;
    let mut i: usize = 0;
    while i < 16
        invariant
            i <= 16,
            stride == 2 || stride == 4,
            hex@.len() == 16 * stride,
            font_entry(raw@) == Some((code, hex@)),
            row_digits(hex@.len()) == Some(stride as int),
            valid_utf8(hex@),
            forall|row: int| 0 <= row < i ==> row_cuts_cleanly(hex@, stride as int, row),
        decreases 16 - i,
    {
        assert(i * stride + 2 <= 16 * stride) by (nonlinear_arith)
            requires
                i < 16,
                stride == 2 || stride == 4,
        ;
        let at: usize = i * stride;
        if !at_boundary(hex, at) || !at_boundary(hex, at + 2) {
            assert(!row_cuts_cleanly(hex@, stride as int, i as int));
            assert(!bitmap_cuts_cleanly(hex@, stride as int));
            return false;
        }
        i = i + 1;
    }
    true
}

/// Whether a character starts, or the text ends, at `at`.
fn at_boundary(text: &[u8], at: usize) -> (yes: bool)
    requires
        valid_utf8(text@),
        at <= text@.len(),
    ensures
        yes == is_char_boundary(text@, at as int),
{
    proof {
        is_char_boundary_start_end_of_seq(text@);
        if at < text@.len() {
            is_char_boundary_iff_not_is_continuation_byte(text@, at as int);
        }
    }
    at == text.len() || !(0x80 <= text[at] && text[at] <= 0xBF)
}

/// Whether a font file can be read: no bitmap row starts or ends inside a
/// character.
pub fn font_is_readable(data: &[u8]) -> (ok: bool)
    ensures
        ok == font_cuts_cleanly(data@),
{
    if !is_utf8(data) {
        return true;
    }
    let n: usize = data.len();
    let mut lo: usize = 0;
    assert(data@.skip(0) =~= data@);
    while lo < n
        invariant
            lo <= n == data@.len(),
            valid_utf8(data@),
            valid_utf8(data@.skip(lo as int)),
            lines_cut_cleanly(data@.skip(lo as int)) == lines_cut_cleanly(data@),
        decreases n - lo,
    {
        let ghost text = data@.skip(lo as int);
        let rest = slice_subrange(data, lo, n);
        assert(rest@ =~= text);
        let end: usize = position_of(rest, 0x0A);
        let raw = slice_subrange(rest, 0, end);
        proof {
            assert(raw@ =~= text.take(end as int));
            if end < text.len() {
                lemma_split_at_ascii(text, end as int);
                assert(text.skip(end + 1) =~= data@.skip(lo + end + 1));
            } else {
                assert(raw@ =~= text);
            }
        }
        if !check_line(raw) {
            return false;
        }
        if end >= n - lo {
            lo = n;
        } else {
            lo = lo + end + 1;
        }
        if lo == n {
            assert(data@.skip(lo as int) =~= Seq::<u8>::empty());
        }
    }
    assert(data@.skip(n as int) =~= Seq::<u8>::empty());
    true
}

/// Whether pixel `bit` of a glyph row is set, counted from the left.
pub open spec fn row_bit(row: u8, bit: int) -> bool {
    (row >> ((7 - bit) as u32)) & 1 != 0
}

/// The code point whose cell holds the atlas pixel (`x`, `y`).
pub open spec fn cell_at(x: int, y: int) -> int {
    (y / GLYPH_H as int) * ATLAS_COLS + x / GLYPH_W as int
}

/// The atlas pixel (`x`, `y`): full where the glyph of its cell has a set pixel.
pub open spec fn atlas_pixel(table: Seq<Seq<u8>>, x: int, y: int) -> u8 {
    if row_bit(table[cell_at(x, y)][y % GLYPH_H as int], x % GLYPH_W as int) {
        0xFF
    } else {
        0
    }
}

/// The whole atlas, row by row from the top.
pub open spec fn font_atlas(table: Seq<Seq<u8>>) -> Seq<u8> {
    Seq::new(
        (ATLAS_W * ATLAS_H) as nat,
        |p: int| atlas_pixel(table, p % ATLAS_W as int, p / ATLAS_W as int),
    )
}

/// The left edge of a code point's cell in the atlas.
pub open spec fn cell_x(c: int) -> int {
    (c % ATLAS_COLS as int) * GLYPH_W
}

/// The top edge of a code point's cell in the atlas.
pub open spec fn cell_y(c: int) -> int {
    (c / ATLAS_COLS as int) * GLYPH_H
}

/// Packs the glyphs into one single-channel image, sixteen to a row.
pub fn build_font_atlas(glyphs: &Glyphs) -> (px: Vec<u8>)
    ensures
        px@ == font_atlas(glyph_table(*glyphs)),
{
    let w: usize = ATLAS_W as usize;
    let h: usize = ATLAS_H as usize;
    let ghost table = glyph_table(*glyphs);
    let mut px: Vec<u8> = Vec::with_capacity(w * h);
    let mut p: usize = 0;
    while p < w * h
        invariant
            w == ATLAS_W,
            h == ATLAS_H,
            p <= w * h,
            table == glyph_table(*glyphs),
            px@ == font_atlas(table).take(p as int),
        decreases w * h - p,
    {
        let x: usize = p % w;
        let y: usize = p / w;
        let c: usize = (y / 16) * 16 + x / 8;
        assert(c < 128 && y < 128 && x < 128);
        let bits: u8 = glyphs[c][y % 16];
        let bit: u32 = (x % 8) as u32;
        let on: u8 = (bits >> (7 - bit)) & 1;
        assert(table[c as int] == glyphs@[c as int]@);
        px.push(
            if on != 0 {
                0xFF
            } else {
                0
            },
        );
        assert(px@ =~= font_atlas(table).take(p + 1));
        p = p + 1;
    }
    assert(font_atlas(table).take((w * h) as int) =~= font_atlas(table));
    px
}

/// Each code point has its own cell of the atlas, and the cell shows the glyph.
pub proof fn law_cell_shows_glyph(table: Seq<Seq<u8>>, c: int, row: int, bit: int)
    requires
        0 <= c < GLYPH_COUNT,
        0 <= row < GLYPH_H,
        0 <= bit < GLYPH_W,
    ensures
        0 <= cell_x(c) + bit < ATLAS_W,
        0 <= cell_y(c) + row < ATLAS_H,
        cell_at(cell_x(c) + bit, cell_y(c) + row) == c,
        font_atlas(table)[(cell_y(c) + row) * ATLAS_W + cell_x(c) + bit] == (if row_bit(
            table[c][row],
            bit,
        ) {
            0xFFu8
        } else {
            0u8
        }),
{
    let x = cell_x(c) + bit;
    let y = cell_y(c) + row;
    let p = y * ATLAS_W + x;
    assert(p % ATLAS_W as int == x && p / ATLAS_W as int == y);
}

/// No glyph is lost in the atlas: two fonts with the same atlas are the same.
pub proof fn law_atlas_keeps_glyphs(a: Seq<Seq<u8>>, b: Seq<Seq<u8>>)
    requires
        a.len() == GLYPH_COUNT,
        b.len() == GLYPH_COUNT,
        forall|c: int| 0 <= c < GLYPH_COUNT ==> #[trigger] a[c].len() == GLYPH_H,
        forall|c: int| 0 <= c < GLYPH_COUNT ==> #[trigger] b[c].len() == GLYPH_H,
        font_atlas(a) == font_atlas(b),
    ensures
        a == b,
{
    assert forall|c: int| 0 <= c < GLYPH_COUNT implies a[c] == b[c] by {
        assert forall|row: int| 0 <= row < GLYPH_H implies a[c][row] == b[c][row] by {
            assert forall|bit: int| 0 <= bit < GLYPH_W implies row_bit(a[c][row], bit) == row_bit(
                b[c][row],
                bit,
            ) by {
                law_cell_shows_glyph(a, c, row, bit);
                law_cell_shows_glyph(b, c, row, bit);
            }
            lemma_bits_make_byte(a[c][row], b[c][row]);
        }
        assert(a[c] =~= b[c]);
    }
    assert(a =~= b);
}

/// A byte is determined by its bits.
proof fn lemma_bits_make_byte(a: u8, b: u8)
    requires
        forall|bit: int| 0 <= bit < GLYPH_W ==> row_bit(a, bit) == row_bit(b, bit),
    ensures
        a == b,
{
    assert(row_bit(a, 0) == row_bit(b, 0));
    assert(row_bit(a, 1) == row_bit(b, 1));
    assert(row_bit(a, 2) == row_bit(b, 2));
    assert(row_bit(a, 3) == row_bit(b, 3));
    assert(row_bit(a, 4) == row_bit(b, 4));
    assert(row_bit(a, 5) == row_bit(b, 5));
    assert(row_bit(a, 6) == row_bit(b, 6));
    assert(row_bit(a, 7) == row_bit(b, 7));
    assert(a == b) by (bit_vector)
        requires
            ((a >> 7u32) & 1 != 0) == ((b >> 7u32) & 1 != 0),
            ((a >> 6u32) & 1 != 0) == ((b >> 6u32) & 1 != 0),
            ((a >> 5u32) & 1 != 0) == ((b >> 5u32) & 1 != 0),
            ((a >> 4u32) & 1 != 0) == ((b >> 4u32) & 1 != 0),
            ((a >> 3u32) & 1 != 0) == ((b >> 3u32) & 1 != 0),
            ((a >> 2u32) & 1 != 0) == ((b >> 2u32) & 1 != 0),
            ((a >> 1u32) & 1 != 0) == ((b >> 1u32) & 1 != 0),
            ((a >> 0u32) & 1 != 0) == ((b >> 0u32) & 1 != 0),
    ;
}

/// Whether a text has ASCII characters alone.
pub open spec fn is_ascii_text(text: Seq<u8>) -> bool {
    forall|i: int| 0 <= i < text.len() ==> #[trigger] text[i] <= 0x7F
}

/// A font file of ASCII characters can be cut everywhere.
pub proof fn law_ascii_font_cuts_cleanly(data: Seq<u8>)
    requires
        is_ascii_text(data),
    ensures
        font_cuts_cleanly(data),
{
    if valid_utf8(data) {
        lemma_ascii_lines_cut_cleanly(data);
    }
}

proof fn lemma_ascii_lines_cut_cleanly(text: Seq<u8>)
    requires
        is_ascii_text(text),
        valid_utf8(text),
    ensures
        lines_cut_cleanly(text),
    decreases text.len(),
{
    if text.len() > 0 {
        let n = find_byte(text, 0x0A) as int;
        lemma_find_byte_bound(text, 0x0A);
        if n < text.len() {
            lemma_split_at_ascii(text, n);
        } else {
            assert(text.take(n) =~= text);
        }
        lemma_ascii_line_cuts_cleanly(text.take(n));
        if n + 1 < text.len() {
            lemma_ascii_lines_cut_cleanly(text.skip(n + 1));
        }
    }
}

proof fn lemma_find_byte_bound(s: Seq<u8>, b: u8)
    ensures
        find_byte(s, b) <= s.len(),
        find_byte(s, b) < s.len() ==> s[find_byte(s, b) as int] == b,
    decreases s.len(),
{
    if s.len() > 0 && s[0] != b {
        lemma_find_byte_bound(s.skip(1), b);
    }
}

proof fn lemma_ascii_line_cuts_cleanly(raw: Seq<u8>)
    requires
        is_ascii_text(raw),
        valid_utf8(raw),
    ensures
        line_cuts_cleanly(raw),
{
    if let Some((cp, hex)) = font_entry(raw) {
        let line = text::trim(raw);
        text::lemma_trim_is_part(raw);
        let colon = find_byte(line, 0x3A) as int;
        lemma_find_byte_bound(line, 0x3A);
        lemma_split_at_ascii(line, colon);
        let rest = line.skip(colon + 1);
        text::lemma_trim_is_part(rest);
        if let Some(stride) = row_digits(hex.len()) {
            assert forall|row: int| 0 <= row < GLYPH_H implies row_cuts_cleanly(
                hex,
                stride,
                row,
            ) by {
                assert(0 <= row * stride && row * stride + 2 <= hex.len()) by (nonlinear_arith)
                    requires
                        0 <= row < 16,
                        stride == 2 && hex.len() == 32 || stride == 4 && hex.len() == 64,
                ;
                lemma_ascii_boundary(hex, row * stride);
                lemma_ascii_boundary(hex, row * stride + 2);
            }
        }
    }
}

proof fn lemma_ascii_boundary(text: Seq<u8>, i: int)
    requires
        is_ascii_text(text),
        valid_utf8(text),
        0 <= i <= text.len(),
    ensures
        is_char_boundary(text, i),
{
    if i < text.len() {
        is_char_boundary_iff_not_is_continuation_byte(text, i);
    } else {
        is_char_boundary_start_end_of_seq(text);
    }
}

/// White space that does not end a line.
pub open spec fn is_gap(gap: Seq<u8>) -> bool {
    text::all_blank(gap) && !gap.contains(0x0A)
}

/// Whether a text is empty or ends with the end of a line.
pub open spec fn ends_a_line(text: Seq<u8>) -> bool {
    text.len() == 0 || text.last() == 0x0A
}

/// Whether digits of the given values name a code point: the last two hold its two
/// hexadecimal digits, and there is nothing but zeros before them.
pub open spec fn names_code(values: Seq<int>, c: int) -> bool {
    let n = values.len() as int;
    &&& n > 0
    &&& values[n - 1] == c % 16
    &&& if n == 1 {
        c < 16
    } else {
        values[n - 2] == c / 16
    }
    &&& forall|i: int| 0 <= i < n - 2 ==> #[trigger] values[i] == 0
}

/// The text of a bitmap: UTF-8 on one line that starts and ends with ASCII characters
/// other than white space.
pub open spec fn is_bitmap_text(hex: Seq<u8>) -> bool {
    &&& valid_utf8(hex)
    &&& !hex.contains(0x0A)
    &&& hex.len() > 0
    &&& hex[0] <= 0x7F && !text::is_blank(hex[0])
    &&& hex.last() <= 0x7F && !text::is_blank(hex.last())
}

/// What can stand before the colon of a line: ASCII characters without another colon, which
/// are no comment and neither start nor end with white space.
pub open spec fn is_number_text(number: Seq<u8>) -> bool {
    &&& text::is_ascii(number)
    &&& !number.contains(0x3A)
    &&& !number.contains(0x0A)
    &&& number.len() > 0
    &&& number[0] != 0x23
    &&& !text::is_blank(number[0])
    &&& !text::is_blank(number.last())
}

/// A line of the font file: a number, a colon and a bitmap, with gaps around them.
pub open spec fn font_line(
    gaps: (Seq<u8>, Seq<u8>, Seq<u8>, Seq<u8>),
    number: Seq<u8>,
    hex: Seq<u8>,
) -> Seq<u8> {
    gaps.0 + number + gaps.1 + seq![0x3Au8] + gaps.2 + hex + gaps.3
}

/// Whether four texts are gaps.
pub open spec fn are_gaps(gaps: (Seq<u8>, Seq<u8>, Seq<u8>, Seq<u8>)) -> bool {
    is_gap(gaps.0) && is_gap(gaps.1) && is_gap(gaps.2) && is_gap(gaps.3)
}

proof fn lemma_find_byte_first(s: Seq<u8>, b: u8)
    ensures
        find_byte(s, b) <= s.len(),
        forall|j: int| 0 <= j < find_byte(s, b) ==> s[j] != b,
    decreases s.len(),
{
    if s.len() > 0 && s[0] != b {
        let rest = s.skip(1);
        lemma_find_byte_first(rest, b);
        assert forall|j: int| 0 <= j < find_byte(s, b) implies s[j] != b by {
            if j > 0 {
                assert(rest[j - 1] == s[j]);
            }
        }
    }
}

/// Lines are read one after the other: what stands before the end of a line is read
/// as if nothing followed, and what follows as if it stood alone.
pub proof fn law_lines_are_read_in_turn(table: Seq<Seq<u8>>, a: Seq<u8>, b: Seq<u8>)
    requires
        ends_a_line(a),
    ensures
        with_lines(table, a + b) == with_lines(with_lines(table, a), b),
    decreases a.len(),
{
    if a.len() == 0 {
        assert(a + b =~= b);
    } else {
        let n = find_byte(a, 0x0A) as int;
        lemma_find_byte_first(a, 0x0A);
        lemma_find_byte_bound(a, 0x0A);
        assert(a[a.len() - 1] == 0x0A);
        assert(n < a.len());
        assert forall|j: int| 0 <= j < n implies (a + b)[j] != 0x0A by {
            assert((a + b)[j] == a[j]);
        }
        lemma_find_byte(a + b, 0x0A, n);
        assert((a + b).take(n) =~= a.take(n));
        let next = with_line(table, a.take(n));
        if n + 1 == a.len() {
            assert((a + b).skip(n + 1) =~= b);
        } else {
            assert((a + b).skip(n + 1) =~= a.skip(n + 1) + b);
            assert(a.skip(n + 1).last() == a.last());
            law_lines_are_read_in_turn(next, a.skip(n + 1), b);
        }
    }
}

/// A line is read the same with the end of the line and without.
proof fn lemma_one_line(table: Seq<Seq<u8>>, line: Seq<u8>)
    requires
        !line.contains(0x0A),
    ensures
        with_lines(table, line) == with_line(table, line),
        with_lines(table, line.push(0x0A)) == with_line(table, line),
{
    assert forall|j: int| 0 <= j < line.len() implies line[j] != 0x0A by {
        assert(line.contains(line[j]));
    }
    lemma_find_byte(line, 0x0A, line.len() as int);
    lemma_find_byte(line.push(0x0A), 0x0A, line.len() as int);
    assert(line.take(line.len() as int) =~= line);
    assert(line.push(0x0A).take(line.len() as int) =~= line);
    if line.len() == 0 {
        assert(text::trim_start(line) == line);
        assert(text::trim(line) == line);
    }
}

proof fn lemma_table_size(table: Seq<Seq<u8>>, text: Seq<u8>)
    requires
        table.len() == GLYPH_COUNT,
    ensures
        with_lines(table, text).len() == GLYPH_COUNT,
    decreases text.len(),
{
    if text.len() > 0 {
        let n = find_byte(text, 0x0A) as int;
        if n + 1 < text.len() {
            lemma_table_size(with_line(table, text.take(n)), text.skip(n + 1));
        }
    }
}

/// A file with one more line reads as that line on top of what it held before.
proof fn lemma_last_line(before: Seq<u8>, line: Seq<u8>)
    requires
        valid_utf8(before),
        ends_a_line(before),
        valid_utf8(line),
        !line.contains(0x0A),
    ensures
        font_table(before).len() == GLYPH_COUNT,
        font_table(before + line) == with_line(font_table(before), line),
        font_table(before + line.push(0x0A)) == with_line(font_table(before), line),
{
    let end = seq![0x0Au8];
    text::law_ascii_is_utf8(end);
    valid_utf8_concat(line, end);
    assert(line.push(0x0A) =~= line + end);
    valid_utf8_concat(before, line);
    valid_utf8_concat(before, line.push(0x0A));
    lemma_table_size(blank_table(), before);
    law_lines_are_read_in_turn(blank_table(), before, line);
    law_lines_are_read_in_turn(blank_table(), before, line.push(0x0A));
    lemma_one_line(font_table(before), line);
}

proof fn lemma_zeros(number: Seq<u8>, values: Seq<int>)
    requires
        text::spells(number, values),
    ensures
        (forall|i: int| 0 <= i < values.len() ==> #[trigger] values[i] == 0) ==> text::hex_value(
            number,
        ) == 0,
        (exists|i: int| 0 <= i < values.len() && #[trigger] values[i] != 0) ==> text::hex_value(
            number,
        ) > 0,
    decreases number.len(),
{
    if number.len() > 0 {
        let fewer = number.drop_last();
        let rest = values.drop_last();
        assert(text::is_digit_of(number[number.len() - 1], values[values.len() - 1]));
        assert forall|i: int| 0 <= i < fewer.len() implies text::is_digit_of(
            #[trigger] fewer[i],
            rest[i],
        ) by {
            assert(text::is_digit_of(number[i], values[i]));
        }
        lemma_zeros(fewer, rest);
        if forall|i: int| 0 <= i < values.len() ==> #[trigger] values[i] == 0 {
            assert forall|i: int| 0 <= i < rest.len() implies #[trigger] rest[i] == 0 by {
                assert(values[i] == 0);
            }
        }
        if exists|i: int| 0 <= i < values.len() && #[trigger] values[i] != 0 {
            let i = choose|i: int| 0 <= i < values.len() && #[trigger] values[i] != 0;
            if i < rest.len() {
                assert(rest[i] != 0);
            }
        }
    }
}

proof fn lemma_is_hex(number: Seq<u8>, values: Seq<int>)
    requires
        text::spells(number, values),
        number.len() > 0,
    ensures
        text::unsigned_digits(number) == number,
        text::all_hex(number),
{
    assert(text::is_digit_of(number[0], values[0]));
    assert forall|i: int| 0 <= i < number.len() implies text::hex_digit(
        #[trigger] number[i],
    ) is Some by {
        assert(text::is_digit_of(number[i], values[i]));
    }
}

/// The number of a code point is read as that code point.
proof fn lemma_code_is_read(number: Seq<u8>, values: Seq<int>, c: int)
    requires
        text::spells(number, values),
        names_code(values, c),
        0 <= c < GLYPH_COUNT,
    ensures
        text::parse_hex(number, u32::MAX as nat) == Some(c as nat),
{
    let n = number.len() as int;
    lemma_is_hex(number, values);
    assert(text::is_digit_of(number[n - 1], values[n - 1]));
    let fewer = number.drop_last();
    if n == 1 {
        assert(text::hex_value(fewer) == 0);
    } else {
        assert(text::is_digit_of(number[n - 2], values[n - 2]));
        let rest = fewer.drop_last();
        let zeros = values.take(n - 2);
        assert forall|i: int| 0 <= i < rest.len() implies text::is_digit_of(
            #[trigger] rest[i],
            zeros[i],
        ) by {
            assert(text::is_digit_of(number[i], values[i]));
        }
        lemma_zeros(rest, zeros);
        assert(text::hex_value(rest) == 0);
        assert(fewer.last() == number[n - 2]);
        assert(text::hex_value(fewer) == c / 16);
    }
}

/// A line is read apart at its colon, without the gaps.
proof fn lemma_line_parts(
    gaps: (Seq<u8>, Seq<u8>, Seq<u8>, Seq<u8>),
    number: Seq<u8>,
    hex: Seq<u8>,
)
    requires
        are_gaps(gaps),
        is_number_text(number),
        is_bitmap_text(hex),
    ensures
        valid_utf8(font_line(gaps, number, hex)),
        !font_line(gaps, number, hex).contains(0x0A),
        text::parse_hex(number, u32::MAX as nat) == None::<nat> ==> font_entry(
            font_line(gaps, number, hex),
        ) is None,
        text::parse_hex(number, u32::MAX as nat) matches Some(c) ==> font_entry(
            font_line(gaps, number, hex),
        ) == (if c < GLYPH_COUNT {
            Some((c, hex))
        } else {
            None
        }),
{
    let head = number + gaps.1 + seq![0x3Au8] + gaps.2;
    let core = number + gaps.1 + seq![0x3Au8] + gaps.2 + hex;
    let line = font_line(gaps, number, hex);
    let colon = (number.len() + gaps.1.len()) as int;
    assert forall|i: int| 0 <= i < number.len() implies #[trigger] number[i] != 0x3A && number[i]
        != 0x0A by {
        assert(number.contains(number[i]));
    }
    assert forall|i: int| 0 <= i < hex.len() implies #[trigger] hex[i] != 0x0A by {
        assert(hex.contains(hex[i]));
    }
    lemma_gap(gaps.0);
    lemma_gap(gaps.1);
    lemma_gap(gaps.2);
    lemma_gap(gaps.3);
    let at_mark = number.len() + gaps.1.len();
    assert forall|i: int| 0 <= i < head.len() implies #[trigger] head[i] <= 0x7F && head[i]
        != 0x0A by {
        if i < number.len() {
            assert(head[i] == number[i]);
        } else if i < at_mark {
            assert(head[i] == gaps.1[i - number.len()]);
        } else if i == at_mark {
            assert(head[i] == 0x3A);
        } else {
            assert(head[i] == gaps.2[i - at_mark - 1]);
        }
    }
    assert(line =~= gaps.0 + core + gaps.3);
    assert forall|i: int| 0 <= i < line.len() implies #[trigger] line[i] != 0x0A by {
        if i < gaps.0.len() {
            assert(line[i] == gaps.0[i]);
        } else if i < gaps.0.len() + head.len() {
            assert(line[i] == head[i - gaps.0.len()]);
        } else if i < gaps.0.len() + core.len() {
            assert(line[i] == hex[i - gaps.0.len() - head.len()]);
        } else {
            assert(line[i] == gaps.3[i - gaps.0.len() - core.len()]);
        }
    }
    text::law_ascii_is_utf8(head);
    valid_utf8_concat(head, hex);
    text::law_ascii_is_utf8(gaps.0);
    text::law_ascii_is_utf8(gaps.3);
    valid_utf8_concat(gaps.0, core);
    valid_utf8_concat(gaps.0 + core, gaps.3);
    assert(core[0] == number[0]);
    assert(core.last() == hex.last());
    text::law_trim_leaves_the_text(gaps.0, core, gaps.3);
    assert forall|j: int| 0 <= j < colon implies core[j] != 0x3A by {
        if j < number.len() {
            assert(core[j] == number[j]);
        } else {
            assert(core[j] == gaps.1[j - number.len()]);
        }
    }
    assert(core[colon] == 0x3A);
    lemma_find_byte(core, 0x3A, colon);
    let none = Seq::<u8>::empty();
    assert(core.take(colon) =~= none + number + gaps.1);
    text::law_ascii_is_utf8(number);
    text::law_trim_leaves_the_text(none, number, gaps.1);
    assert(core.skip(colon + 1) =~= gaps.2 + hex + none);
    text::law_trim_leaves_the_text(gaps.2, hex, none);
}

/// Digits can stand before the colon.
proof fn lemma_digits_are_number_text(number: Seq<u8>, values: Seq<int>)
    requires
        text::spells(number, values),
        number.len() > 0,
    ensures
        is_number_text(number),
{
    assert forall|i: int| 0 <= i < number.len() implies #[trigger] number[i] <= 0x7F && number[i]
        != 0x3A && number[i] != 0x0A && number[i] != 0x23 && !text::is_blank(number[i]) by {
        assert(text::is_digit_of(number[i], values[i]));
    }
    assert(number.last() == number[number.len() - 1]);
}

proof fn lemma_gap(gap: Seq<u8>)
    requires
        is_gap(gap),
    ensures
        forall|i: int| 0 <= i < gap.len() ==> #[trigger] gap[i] <= 0x7F && gap[i] != 0x3A && gap[i]
            != 0x0A,
{
    assert forall|i: int| 0 <= i < gap.len() implies #[trigger] gap[i] <= 0x7F && gap[i] != 0x3A
        && gap[i] != 0x0A by {
        assert(gap.contains(gap[i]));
        assert(text::is_blank(gap[i]));
    }
}

/// A line that holds the number of an ASCII code point, a colon and a bitmap of 32 or
/// 64 characters gives that code point its glyph, whatever the file held before, and
/// leaves every other glyph alone. Row by row the glyph has the value of the row's first
/// two digits, and nothing where they are no digits.
pub proof fn law_line_sets_its_glyph(
    before: Seq<u8>,
    gaps: (Seq<u8>, Seq<u8>, Seq<u8>, Seq<u8>),
    number: Seq<u8>,
    values: Seq<int>,
    c: int,
    hex: Seq<u8>,
    stride: int,
)
    requires
        valid_utf8(before),
        ends_a_line(before),
        are_gaps(gaps),
        text::spells(number, values),
        names_code(values, c),
        0 <= c < 128,
        is_bitmap_text(hex),
        stride == 2 && hex.len() == 32 || stride == 4 && hex.len() == 64,
    ensures
        ({
            let table = font_table(before + font_line(gaps, number, hex));
            &&& font_table(before + font_line(gaps, number, hex).push(0x0A)) == table
            &&& table.len() == 128
            &&& table[c].len() == 16
            &&& forall|r: int, a: int, b: int|
                0 <= r < 16 && #[trigger] text::is_digit_of(hex[stride * r], a)
                    && #[trigger] text::is_digit_of(hex[stride * r + 1], b) ==> table[c][r] == 16
                    * a + b
            &&& forall|r: int|
                0 <= r < 16 && hex[stride * r] != 0x2B && !(text::is_digit(hex[stride * r])
                    && text::is_digit(hex[stride * r + 1])) ==> #[trigger] table[c][r] == 0
            &&& forall|e: int| 0 <= e < 128 && e != c ==> #[trigger] table[e] == font_table(before)[e]
        }),
{
    let line = font_line(gaps, number, hex);
    lemma_code_is_read(number, values, c);
    lemma_digits_are_number_text(number, values);
    lemma_line_parts(gaps, number, hex);
    lemma_last_line(before, line);
    let table = font_table(before + line);
    assert(table[c] == Seq::new(GLYPH_H as nat, |row: int| glyph_row(hex, stride, row)));
    assert forall|r: int, a: int, b: int|
        0 <= r < 16 && #[trigger] text::is_digit_of(hex[stride * r], a)
            && #[trigger] text::is_digit_of(hex[stride * r + 1], b) implies table[c][r] == 16 * a
        + b by {
        lemma_row(hex, stride, r);
    }
    assert forall|r: int|
        0 <= r < 16 && hex[stride * r] != 0x2B && !(text::is_digit(hex[stride * r]) && text::is_digit(
            hex[stride * r + 1],
        )) implies #[trigger] table[c][r] == 0 by {
        lemma_row(hex, stride, r);
    }
}

/// What one row of a bitmap is read as.
proof fn lemma_row(hex: Seq<u8>, stride: int, r: int)
    requires
        stride == 2 && hex.len() == 32 || stride == 4 && hex.len() == 64,
        0 <= r < 16,
    ensures
        forall|a: int, b: int|
            #[trigger] text::is_digit_of(hex[stride * r], a) && #[trigger] text::is_digit_of(
                hex[stride * r + 1],
                b,
            ) ==> glyph_row(hex, stride, r) == 16 * a + b,
        hex[stride * r] != 0x2B && !(text::is_digit(hex[stride * r]) && text::is_digit(
            hex[stride * r + 1],
        )) ==> glyph_row(hex, stride, r)
            == 0,
{
    assert(stride * r == r * stride) by (nonlinear_arith);
    assert(0 <= r * stride && r * stride + 2 <= hex.len()) by (nonlinear_arith)
        requires
            0 <= r < 16,
            stride == 2 && hex.len() == 32 || stride == 4 && hex.len() == 64,
    ;
    let two = hex.subrange(r * stride, r * stride + 2);
    assert(two[0] == hex[stride * r] && two[1] == hex[stride * r + 1]);
    assert forall|a: int, b: int|
        #[trigger] text::is_digit_of(hex[stride * r], a) && #[trigger] text::is_digit_of(
            hex[stride * r + 1],
            b,
        ) implies glyph_row(hex, stride, r) == 16 * a + b by {
        let one = seq![two[0]];
        text::law_digits_spell_a_number(Seq::empty(), Seq::empty(), two[0], a, 0xFF);
        text::law_digits_spell_a_number(one, seq![a], two[1], b, 0xFF);
        assert(Seq::<u8>::empty().push(two[0]) =~= one);
        assert(one.push(two[1]) =~= two);
    }
    if two[0] != 0x2B {
        if !text::is_digit(two[0]) {
            text::law_other_bytes_spell_nothing(two, 0, 0xFF);
        }
        if !text::is_digit(two[1]) {
            text::law_other_bytes_spell_nothing(two, 1, 0xFF);
        }
    }
}

/// Lines that define no glyph leave the table as it was: blank lines, comments, lines
/// without a colon.
pub proof fn law_other_lines_change_nothing(before: Seq<u8>, gap: Seq<u8>, line: Seq<u8>)
    requires
        valid_utf8(before),
        ends_a_line(before),
        is_gap(gap),
        valid_utf8(line),
        !line.contains(0x0A),
        line.len() == 0 || line[0] == 0x23 || !line.contains(0x3A),
    ensures
        font_table(before + gap + line) == font_table(before),
        font_table(before + gap + line.push(0x0A)) == font_table(before),
{
    let all = gap + line;
    lemma_gap(gap);
    text::law_ascii_is_utf8(gap);
    valid_utf8_concat(gap, line);
    assert forall|i: int| 0 <= i < all.len() implies all[i] != 0x0A by {
        if i < gap.len() {
            assert(all[i] == gap[i]);
        } else {
            assert(all[i] == line[i - gap.len()]);
            assert(line.contains(line[i - gap.len()]));
        }
    }
    lemma_last_line(before, all);
    assert(before + gap + line =~= before + all);
    assert(before + gap + line.push(0x0A) =~= before + all.push(0x0A));
    if line.len() == 0 {
        text::law_trim_leaves_the_text(gap, line, line);
        assert(all =~= gap + line + line);
    } else if line[0] == 0x23 {
        text::law_trim_keeps_the_first(gap, line);
    } else {
        text::lemma_trim_is_part(all);
        let part = text::trim(all);
        assert forall|j: int| 0 <= j < part.len() implies part[j] != 0x3A by {
            let i = choose|i: int| 0 <= i < all.len() && all[i] == part[j];
            if i < gap.len() {
                assert(all[i] == gap[i]);
            } else {
                assert(all[i] == line[i - gap.len()]);
                assert(line.contains(line[i - gap.len()]));
            }
        }
        lemma_find_byte(part, 0x3A, part.len() as int);
    }
}

/// A bitmap of another length than 32 and 64 characters, and one for a code point beyond
/// ASCII, leave the table as it was.
pub proof fn law_other_glyphs_are_passed_over(
    before: Seq<u8>,
    gaps: (Seq<u8>, Seq<u8>, Seq<u8>, Seq<u8>),
    number: Seq<u8>,
    values: Seq<int>,
    hex: Seq<u8>,
)
    requires
        valid_utf8(before),
        ends_a_line(before),
        are_gaps(gaps),
        text::spells(number, values),
        number.len() > 0,
        is_bitmap_text(hex),
        hex.len() != 32 && hex.len() != 64 || number.len() > 1 && values[values.len() - 2] >= 8
            || exists|i: int| 0 <= i < values.len() - 2 && #[trigger] values[i] != 0,
    ensures
        font_table(before + font_line(gaps, number, hex)) == font_table(before),
{
    lemma_digits_are_number_text(number, values);
    lemma_line_parts(gaps, number, hex);
    lemma_last_line(before, font_line(gaps, number, hex));
    lemma_is_hex(number, values);
    if hex.len() == 32 || hex.len() == 64 {
        let n = number.len() as int;
        let fewer = number.drop_last();
        let rest = fewer.drop_last();
        let high = values.take(n - 2);
        assert(text::is_digit_of(number[n - 1], values[n - 1]));
        assert(text::is_digit_of(number[n - 2], values[n - 2]));
        assert(fewer.last() == number[n - 2]);
        assert forall|i: int| 0 <= i < rest.len() implies text::is_digit_of(
            #[trigger] rest[i],
            high[i],
        ) by {
            assert(text::is_digit_of(number[i], values[i]));
        }
        lemma_zeros(rest, high);
        if exists|i: int| 0 <= i < values.len() - 2 && #[trigger] values[i] != 0 {
            let i = choose|i: int| 0 <= i < values.len() - 2 && #[trigger] values[i] != 0;
            assert(high[i] != 0);
        }
        assert(text::hex_value(fewer) >= 8);
    }
}

/// A file that is not UTF-8, and an empty one, give no glyph at all.
pub proof fn law_unreadable_font_is_blank(data: Seq<u8>, c: int, r: int)
    requires
        !valid_utf8(data) || data.len() == 0,
        0 <= c < 128,
        0 <= r < 16,
    ensures
        font_table(data).len() == 128,
        font_table(data)[c].len() == 16,
        font_table(data)[c][r] == 0,
{
}

/// Bit by bit from the left, a glyph row stands in the atlas at its cell: sixteen cells
/// to a row, each eight pixels wide and sixteen high.
pub proof fn law_atlas_shows_the_bits(table: Seq<Seq<u8>>, c: int, row: int, bit: int)
    requires
        0 <= c < 128,
        0 <= row < 16,
        0 <= bit < 8,
    ensures
        font_atlas(table).len() == 128 * 128,
        font_atlas(table)[((c / 16) * 16 + row) * 128 + (c % 16) * 8 + bit] == (if (table[c][row]
            / bit_weight(bit)) % 2 == 1 {
            255u8
        } else {
            0u8
        }),
{
    law_cell_shows_glyph(table, c, row, bit);
    let b = table[c][row];
    assert(row_bit(b, bit) == ((b / bit_weight(bit)) % 2 == 1)) by {
        assert(((b >> 7u32) & 1 != 0) == ((b / 128) % 2 == 1) && ((b >> 6u32) & 1 != 0) == ((b / 64)
            % 2 == 1) && ((b >> 5u32) & 1 != 0) == ((b / 32) % 2 == 1) && ((b >> 4u32) & 1 != 0)
            == ((b / 16) % 2 == 1) && ((b >> 3u32) & 1 != 0) == ((b / 8) % 2 == 1) && ((b >> 2u32)
            & 1 != 0) == ((b / 4) % 2 == 1) && ((b >> 1u32) & 1 != 0) == ((b / 2) % 2 == 1) && ((b
            >> 0u32) & 1 != 0) == ((b / 1) % 2 == 1)) by (bit_vector);
    }
}

/// The weight of a pixel in its row: the leftmost one counts most.
pub open spec fn bit_weight(bit: int) -> u8 {
    if bit == 0 {
        128
    } else if bit == 1 {
        64
    } else if bit == 2 {
        32
    } else if bit == 3 {
        16
    } else if bit == 4 {
        8
    } else if bit == 5 {
        4
    } else if bit == 6 {
        2
    } else {
        1
    }
}

/// Lines are cut one by one.
proof fn lemma_cuts_in_turn(a: Seq<u8>, b: Seq<u8>)
    requires
        ends_a_line(a),
    ensures
        lines_cut_cleanly(a + b) <==> lines_cut_cleanly(a) && lines_cut_cleanly(b),
    decreases a.len(),
{
    if a.len() == 0 {
        assert(a + b =~= b);
    } else {
        let n = find_byte(a, 0x0A) as int;
        lemma_find_byte_first(a, 0x0A);
        lemma_find_byte_bound(a, 0x0A);
        assert(a[a.len() - 1] == 0x0A);
        assert forall|j: int| 0 <= j < n implies (a + b)[j] != 0x0A by {
            assert((a + b)[j] == a[j]);
        }
        lemma_find_byte(a + b, 0x0A, n);
        assert((a + b).take(n) =~= a.take(n));
        if n + 1 == a.len() {
            assert((a + b).skip(n + 1) =~= b);
        } else {
            assert((a + b).skip(n + 1) =~= a.skip(n + 1) + b);
            assert(a.skip(n + 1).last() == a.last());
            lemma_cuts_in_turn(a.skip(n + 1), b);
        }
    }
}

/// Whether a byte goes on a character that an earlier byte began.
pub open spec fn goes_on(b: u8) -> bool {
    0x80 <= b <= 0xBF
}

/// A font file can be read exactly if no row of a bitmap that it defines begins or ends
/// within a character. Each line adds its own rows to the others.
pub proof fn law_rows_end_between_characters(
    before: Seq<u8>,
    gaps: (Seq<u8>, Seq<u8>, Seq<u8>, Seq<u8>),
    number: Seq<u8>,
    values: Seq<int>,
    c: int,
    hex: Seq<u8>,
    stride: int,
)
    requires
        valid_utf8(before),
        ends_a_line(before),
        are_gaps(gaps),
        text::spells(number, values),
        names_code(values, c),
        0 <= c < 128,
        is_bitmap_text(hex),
        stride == 2 && hex.len() == 32 || stride == 4 && hex.len() == 64,
    ensures
        font_cuts_cleanly(before + font_line(gaps, number, hex)) <==> {
            &&& font_cuts_cleanly(before)
            &&& forall|r: int| 0 <= r < 16 ==> !goes_on(#[trigger] hex[stride * r])
            &&& forall|r: int| 0 <= r < 16 && stride * r + 2 < hex.len() ==> !goes_on(
                #[trigger] hex[stride * r + 2],
            )
        },
{
    let line = font_line(gaps, number, hex);
    lemma_code_is_read(number, values, c);
    lemma_digits_are_number_text(number, values);
    lemma_line_parts(gaps, number, hex);
    valid_utf8_concat(before, line);
    lemma_cuts_in_turn(before, line);
    assert forall|j: int| 0 <= j < line.len() implies line[j] != 0x0A by {
        assert(line.contains(line[j]));
    }
    lemma_find_byte(line, 0x0A, line.len() as int);
    assert(line.take(line.len() as int) =~= line);
    assert(lines_cut_cleanly(line) <==> bitmap_cuts_cleanly(hex, stride));
    assert forall|r: int| 0 <= r < 16 implies (row_cuts_cleanly(hex, stride, r) <==> !goes_on(
        #[trigger] hex[stride * r],
    ) && (stride * r + 2 < hex.len() ==> !goes_on(hex[stride * r + 2]))) by {
        assert(stride * r == r * stride) by (nonlinear_arith);
        assert(0 <= r * stride && r * stride + 2 <= hex.len()) by (nonlinear_arith)
            requires
                0 <= r < 16,
                stride == 2 && hex.len() == 32 || stride == 4 && hex.len() == 64,
        ;
        is_char_boundary_start_end_of_seq(hex);
        is_char_boundary_iff_not_is_continuation_byte(hex, r * stride);
        if r * stride + 2 < hex.len() {
            is_char_boundary_iff_not_is_continuation_byte(hex, r * stride + 2);
        }
    }
    if bitmap_cuts_cleanly(hex, stride) {
        assert forall|r: int| 0 <= r < 16 implies !goes_on(#[trigger] hex[stride * r]) by {
            assert(row_cuts_cleanly(hex, stride, r));
        }
        assert forall|r: int| 0 <= r < 16 && stride * r + 2 < hex.len() implies !goes_on(
            #[trigger] hex[stride * r + 2],
        ) by {
            assert(row_cuts_cleanly(hex, stride, r));
            assert(!goes_on(hex[stride * r]));
        }
    } else {
        let r = choose|r: int| 0 <= r < GLYPH_H && !row_cuts_cleanly(hex, stride, r);
        assert(goes_on(hex[stride * r]) || stride * r + 2 < hex.len() && goes_on(
            hex[stride * r + 2],
        ));
    }
}

/// A font file that is not UTF-8, or is empty, has nothing to cut.
pub proof fn law_nothing_to_cut(data: Seq<u8>)
    requires
        !valid_utf8(data) || data.len() == 0,
    ensures
        font_cuts_cleanly(data),
{
}

/// The table of the glyphs has the rows of each code point at its place.
pub proof fn law_glyph_table_is_the_table(glyphs: Glyphs)
    ensures
        glyph_table(glyphs).len() == 128,
        forall|c: int| 0 <= c < 128 ==> glyph_table(glyphs)[c] == #[trigger] glyphs@[c]@,
{
}

/// The atlas holds a cell for each code point, side by side and one below the other, with
/// no room left.
pub proof fn law_cells_fill_the_atlas()
    ensures
        GLYPH_W == 8 && GLYPH_H == 16,
        ATLAS_COLS * GLYPH_W == ATLAS_W && ATLAS_ROWS * GLYPH_H == ATLAS_H,
        ATLAS_COLS * ATLAS_ROWS == GLYPH_COUNT == 128,
        ATLAS_COLS == 16,
{
}

/// Whatever stands before the colon, the line is for the code point that it spells as a
/// hexadecimal number, and for none where it spells no number or one beyond ASCII: the
/// file then reads as if the line were not there.
pub proof fn law_number_decides(
    before: Seq<u8>,
    gaps: (Seq<u8>, Seq<u8>, Seq<u8>, Seq<u8>),
    number: Seq<u8>,
    hex: Seq<u8>,
    stride: int,
)
    requires
        valid_utf8(before),
        ends_a_line(before),
        are_gaps(gaps),
        is_number_text(number),
        is_bitmap_text(hex),
        stride == 2 && hex.len() == 32 || stride == 4 && hex.len() == 64,
    ensures
        ({
            let table = font_table(before + font_line(gaps, number, hex));
            match text::parse_hex(number, 0xFFFF_FFFF) {
                Some(c) => if c < 128 {
                    &&& table.len() == 128 && table[c as int].len() == 16
                    &&& forall|r: int, a: int, b: int|
                        0 <= r < 16 && #[trigger] text::is_digit_of(hex[stride * r], a)
                            && #[trigger] text::is_digit_of(hex[stride * r + 1], b)
                            ==> table[c as int][r] == 16 * a + b
                    &&& forall|e: int|
                        0 <= e < 128 && e != c ==> #[trigger] table[e] == font_table(before)[e]
                } else {
                    table == font_table(before)
                },
                None => table == font_table(before),
            }
        }),
{
    let line = font_line(gaps, number, hex);
    lemma_line_parts(gaps, number, hex);
    lemma_last_line(before, line);
    let table = font_table(before + line);
    if let Some(c) = text::parse_hex(number, 0xFFFF_FFFF) {
        if c < 128 {
            let c = c as int;
            assert(table[c] == Seq::new(GLYPH_H as nat, |row: int| glyph_row(hex, stride, row)));
            assert forall|r: int, a: int, b: int|
                0 <= r < 16 && #[trigger] text::is_digit_of(hex[stride * r], a)
                    && #[trigger] text::is_digit_of(hex[stride * r + 1], b) implies table[c][r]
                == 16 * a + b by {
                lemma_row(hex, stride, r);
            }
        }
    }
}

} // verus!
