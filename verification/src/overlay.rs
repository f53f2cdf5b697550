//! The text overlay: three diagnostic lines laid out as glyph quads.

use crate::device;
use crate::device::DeviceCaps;
use crate::font;
use crate::font::{ATLAS_COLS, GLYPH_H, GLYPH_W};
use vstd::prelude::*;
use vstd::utf8::*;

verus! {

broadcast use vstd::string::group_string_axioms;

/// The number of glyph quads that the overlay buffer holds.
pub const MAX_TEXT_QUADS: u32 = 1024;

/// How many bytes of the adapter name are shown.
pub const SHOWN_NAME_BYTES: usize = 40;

/// The longest line whose pixel positions fit in 32 bits.
pub const MAX_LINE_BYTES: usize = 0x0FFF_FFF0;

/// The size of a drawn glyph: atlas pixels are drawn twice as large.
pub const QUAD_W: u32 = 16;

pub const QUAD_H: u32 = 32;

/// From the top of one line to the next: a glyph and a gap of two pixels.
pub const LINE_STEP: u32 = 34;

/// The pixel at which the first line starts, in both directions.
pub const TEXT_ORIGIN: u32 = 10;

/// Whether a text is cut between two characters when it is cut to `n` bytes.
pub open spec fn cuts_at(s: Seq<char>, n: int) -> bool {
    encode_utf8(s).len() <= n || is_char_boundary(encode_utf8(s), n)
}

/// The first `n` bytes of a text, or all of it if it is shorter.
pub open spec fn first_bytes(s: Seq<char>, n: int) -> Seq<u8> {
    if encode_utf8(s).len() <= n {
        encode_utf8(s)
    } else {
        encode_utf8(s).take(n)
    }
}

/// The text cut to at most `n` bytes.
pub fn truncate_str(s: &str, n: usize) -> (r: &str)
    requires
        cuts_at(s@, n as int),
    ensures
        encode_utf8(r@) == first_bytes(s@, n as int),
        r@ == truncated(s@, n as int),
{
    if s.as_bytes().len() <= n {
        proof {
            encode_utf8_decode_utf8(s@);
        }
        s
    } else {
        let (head, _tail) = s.split_at(n);
        assert(encode_utf8(s@).subrange(0, n as int) =~= encode_utf8(s@).take(n as int));
        proof {
            encode_utf8_decode_utf8(head@);
        }
        head
    }
}

/// A colour in tenths of full intensity.
#[derive(Clone, Copy, Debug, PartialEq, Eq, Structural)]
pub struct Tint {
    pub r: u8,
    pub g: u8,
    pub b: u8,
    pub a: u8,
}

/// A glyph of the overlay: where it goes on the screen, in pixels, which texels
/// of the font atlas it shows, and its colour.
#[derive(Clone, Copy, Debug, PartialEq, Eq, Structural)]
pub struct TextQuad {
    pub x: u32,
    pub y: u32,
    pub w: u32,
    pub h: u32,
    pub u0: u32,
    pub v0: u32,
    pub u1: u32,
    pub v1: u32,
    pub color: Tint,
}

/// A line of the overlay.
pub struct OverlayLine {
    pub text: String,
    pub color: Tint,
}

impl View for OverlayLine {
    type V = (Seq<char>, Tint);

    open spec fn view(&self) -> (Seq<char>, Tint) {
        (self.text@, self.color)
    }
}

/// The texts and colours of a list of lines.
pub open spec fn line_models(lines: Seq<OverlayLine>) -> Seq<(Seq<char>, Tint)> {
    Seq::new(lines.len(), |i: int| lines[i]@)
}

/// Whether a byte is drawn. Spaces and bytes beyond ASCII only move the pen.
pub open spec fn is_drawn(b: u8) -> bool {
    b != 0x20 && b < 0x80
}

/// The quad of byte `b` in column `column` of a line whose top is at `y`.
pub open spec fn quad_of(b: u8, column: int, y: int, color: Tint) -> TextQuad {
    TextQuad {
        x: (TEXT_ORIGIN + column * QUAD_W) as u32,
        y: y as u32,
        w: QUAD_W,
        h: QUAD_H,
        u0: font::cell_x(b as int) as u32,
        v0: font::cell_y(b as int) as u32,
        u1: (font::cell_x(b as int) + GLYPH_W) as u32,
        v1: (font::cell_y(b as int) + GLYPH_H) as u32,
        color,
    }
}

/// The quads of one line, left to right.
pub open spec fn line_quads(bytes: Seq<u8>, y: int, color: Tint) -> Seq<TextQuad>
    decreases bytes.len(),
{
    if bytes.len() == 0 {
        Seq::empty()
    } else {
        let before = line_quads(bytes.drop_last(), y, color);
        let b = bytes.last();
        if is_drawn(b) {
            before.push(quad_of(b, bytes.len() - 1, y, color))
        } else {
            before
        }
    }
}

/// The top of line `k`.
pub open spec fn line_top(k: int) -> int {
    TEXT_ORIGIN + k * LINE_STEP
}

/// The quads of a list of lines, top to bottom.
pub open spec fn lines_quads(lines: Seq<(Seq<char>, Tint)>) -> Seq<TextQuad>
    decreases lines.len(),
{
    if lines.len() == 0 {
        Seq::empty()
    } else {
        lines_quads(lines.drop_last()) + line_quads(
            encode_utf8(lines.last().0),
            line_top(lines.len() - 1),
            lines.last().1,
        )
    }
}

/// At most as many quads as the overlay buffer holds.
pub open spec fn capped_quads(quads: Seq<TextQuad>) -> Seq<TextQuad> {
    if quads.len() <= MAX_TEXT_QUADS {
        quads
    } else {
        quads.take(MAX_TEXT_QUADS as int)
    }
}

/// The quads of the first bytes of a line come first.
proof fn lemma_line_prefix(bytes: Seq<u8>, k: int, y: int, color: Tint)
    requires
        0 <= k <= bytes.len(),
    ensures
        line_quads(bytes.take(k), y, color).is_prefix_of(line_quads(bytes, y, color)),
    decreases bytes.len() - k,
{
    if k < bytes.len() {
        lemma_line_prefix(bytes, k + 1, y, color);
        assert(bytes.take(k + 1).drop_last() =~= bytes.take(k));
        let a = line_quads(bytes.take(k), y, color);
        let b = line_quads(bytes.take(k + 1), y, color);
        let c = line_quads(bytes, y, color);
        assert(a =~= b.take(a.len() as int));
        assert(a =~= c.take(a.len() as int));
    } else {
        assert(bytes.take(k) =~= bytes);
        let c = line_quads(bytes, y, color);
        assert(c =~= c.take(c.len() as int));
    }
}

/// The quads of the first lines come first.
proof fn lemma_lines_prefix(lines: Seq<(Seq<char>, Tint)>, k: int)
    requires
        0 <= k <= lines.len(),
    ensures
        lines_quads(lines.take(k)).is_prefix_of(lines_quads(lines)),
    decreases lines.len() - k,
{
    if k < lines.len() {
        lemma_lines_prefix(lines, k + 1);
        assert(lines.take(k + 1).drop_last() =~= lines.take(k));
        let a = lines_quads(lines.take(k));
        let b = lines_quads(lines.take(k + 1));
        let c = lines_quads(lines);
        assert(a =~= b.take(a.len() as int));
        assert(a =~= c.take(a.len() as int));
    } else {
        assert(lines.take(k) =~= lines);
        let c = lines_quads(lines);
        assert(c =~= c.take(c.len() as int));
    }
}

/// Lays out lines of text, top to bottom, until the buffer is full.
pub fn layout_lines(lines: &Vec<OverlayLine>) -> (quads: Vec<TextQuad>)
    requires
        lines@.len() <= 0x0100_0000,
        forall|i: int|
            0 <= i < lines@.len() ==> encode_utf8(#[trigger] lines@[i].text@).len()
                <= MAX_LINE_BYTES,
    ensures
        quads@ == capped_quads(lines_quads(line_models(lines@))),
{
    let mut quads: Vec<TextQuad> = Vec::new();
    let mut y: u32 = TEXT_ORIGIN;
    let mut k: usize = 0;
    let ghost models = line_models(lines@);
    assert(models.take(0) =~= Seq::<(Seq<char>, Tint)>::empty());
    while k < lines.len()
        invariant
            k <= lines@.len() <= 0x0100_0000,
            forall|i: int|
                0 <= i < lines@.len() ==> encode_utf8(#[trigger] lines@[i].text@).len()
                    <= MAX_LINE_BYTES,
            models == line_models(lines@),
            y == line_top(k as int),
            quads@ == lines_quads(models.take(k as int)),
            quads@.len() <= MAX_TEXT_QUADS,
        decreases lines@.len() - k,
    {
        let color: Tint = lines[k].color;
        let bytes = lines[k].text.as_str().as_bytes();
        let n: usize = bytes.len();
        let ghost start = lines_quads(models.take(k as int));
        let ghost total = lines_quads(models.take(k + 1));
        proof {
            assert(models.take(k + 1).drop_last() =~= models.take(k as int));
            assert(models.take(k + 1).last() == lines@[k as int]@);
            assert(total == start + line_quads(bytes@, y as int, color));
            assert(bytes@.take(0) =~= Seq::<u8>::empty());
            lemma_lines_prefix(models, k + 1);
        }
        let mut j: usize = 0;
        while j < n
            invariant
                j <= n == bytes@.len(),
                n <= MAX_LINE_BYTES,
                total == start + line_quads(bytes@, y as int, color),
                total.is_prefix_of(lines_quads(models)),
                models == line_models(lines@),
                quads@ == start + line_quads(bytes@.take(j as int), y as int, color),
                quads@.len() <= MAX_TEXT_QUADS,
            decreases n - j,
        {
            if quads.len() >= MAX_TEXT_QUADS as usize {
                proof {
                    lemma_line_prefix(bytes@, j as int, y as int, color);
                    let all = lines_quads(models);
                    assert(quads@ =~= total.take(quads@.len() as int));
                    assert(quads@ =~= all.take(quads@.len() as int));
                    assert(capped_quads(all) =~= quads@);
                }
                return quads;
            }
            let b: u8 = bytes[j];
            assert(bytes@.take(j + 1).drop_last() =~= bytes@.take(j as int));
            if b != 0x20 && b < 0x80 {
                let cx: u32 = (b as u32) % ATLAS_COLS;
                let cy: u32 = (b as u32) / ATLAS_COLS;
                quads.push(
                    TextQuad {
                        x: TEXT_ORIGIN + (j as u32) * QUAD_W,
                        y,
                        w: QUAD_W,
                        h: QUAD_H,
                        u0: cx * GLYPH_W,
                        v0: cy * GLYPH_H,
                        u1: (cx + 1) * GLYPH_W,
                        v1: (cy + 1) * GLYPH_H,
                        color,
                    },
                );
                assert(quads@.last() == quad_of(b, j as int, y as int, color));
            }
            assert(quads@ =~= start + line_quads(bytes@.take(j + 1), y as int, color));
            j = j + 1;
        }
        assert(bytes@.take(n as int) =~= bytes@);
        assert(quads@ =~= total);
        y = y + LINE_STEP;
        k = k + 1;
    }
    assert(models.take(models.len() as int) =~= models);
    quads
}

/// The text cut to at most `n` bytes, as characters.
pub open spec fn truncated(s: Seq<char>, n: int) -> Seq<char> {
    decode_utf8(first_bytes(s, n))
}

/// The line that names the adapter.
pub open spec fn gpu_line(vendor_id: u32, device_name: Seq<char>) -> Seq<char> {
    "GPU: "@ + device::vendor_of(vendor_id) + " "@ + truncated(
        device_name,
        SHOWN_NAME_BYTES as int,
    )
}

/// The line that shows the optimisation switches.
pub open spec fn perf_line(has_async: bool, perf_async: bool, perf_mipskip: bool) -> Seq<char> {
    (if !has_async {
        "ASYNC:N/A"@
    } else if perf_async {
        "ASYNC:ON "@
    } else {
        "ASYNC:OFF"@
    }) + "  "@ + (if perf_mipskip {
        "MIP:ON "@
    } else {
        "MIP:OFF"@
    })
}

/// The three overlay lines: frame rate, adapter, optimisation switches.
pub open spec fn overlay_models(
    fps_text: Seq<char>,
    caps: DeviceCaps,
    perf_async: bool,
    perf_mipskip: bool,
) -> Seq<(Seq<char>, Tint)> {
    seq![
        (fps_text, Tint { r: 10, g: 10, b: 4, a: 10 }),
        (
            gpu_line(caps.vendor_id, caps.device_name@),
            Tint { r: 7, g: 9, b: 10, a: 10 },
        ),
        (
            perf_line(caps.async_compute_family is Some, perf_async, perf_mipskip),
            Tint { r: 7, g: 10, b: 7, a: 10 },
        ),
    ]
}

/// Composes the three overlay lines.
pub fn overlay_lines(
    fps_text: &str,
    caps: &DeviceCaps,
    perf_async: bool,
    perf_mipskip: bool,
) -> (lines: Vec<OverlayLine>)
    requires
        cuts_at(caps.device_name@, SHOWN_NAME_BYTES as int),
    ensures
        line_models(lines@) == overlay_models(fps_text@, *caps, perf_async, perf_mipskip),
{
    let mut gpu_text: String = "GPU: ".to_string();
    gpu_text.append(caps.vendor_str());
    gpu_text.append(" ");
    gpu_text.append(truncate_str(caps.device_name.as_str(), SHOWN_NAME_BYTES));

    let async_str: &str = if caps.has_async_compute() {
        if perf_async {
            "ASYNC:ON "
        } else {
            "ASYNC:OFF"
        }
    } else {
        "ASYNC:N/A"
    };
    let mip_str: &str = if perf_mipskip {
        "MIP:ON "
    } else {
        "MIP:OFF"
    };
    let mut perf_text: String = async_str.to_string();
    perf_text.append("  ");
    perf_text.append(mip_str);

    let mut lines: Vec<OverlayLine> = Vec::new();
    lines.push(
        OverlayLine { text: fps_text.to_string(), color: Tint { r: 10, g: 10, b: 4, a: 10 } },
    );
    lines.push(OverlayLine { text: gpu_text, color: Tint { r: 7, g: 9, b: 10, a: 10 } });
    lines.push(OverlayLine { text: perf_text, color: Tint { r: 7, g: 10, b: 7, a: 10 } });
    assert(line_models(lines@) =~= overlay_models(fps_text@, *caps, perf_async, perf_mipskip));
    lines
}

/// A text has between one and four bytes to a character.
proof fn lemma_encoded_length(s: Seq<char>)
    ensures
        s.len() <= encode_utf8(s).len() <= 4 * s.len(),
    decreases s.len(),
{
    if s.len() > 0 {
        lemma_encoded_length(s.drop_first());
    }
}

/// The composed lines are short.
proof fn lemma_composed_lines_short(caps: DeviceCaps, perf_async: bool, perf_mipskip: bool)
    requires
        cuts_at(caps.device_name@, SHOWN_NAME_BYTES as int),
    ensures
        encode_utf8(gpu_line(caps.vendor_id, caps.device_name@)).len() <= 256,
        encode_utf8(
            perf_line(caps.async_compute_family is Some, perf_async, perf_mipskip),
        ).len() <= 256,
{
    reveal_strlit("GPU: ");
    reveal_strlit(" ");
    reveal_strlit("NVIDIA");
    reveal_strlit("AMD");
    reveal_strlit("Intel");
    reveal_strlit("ARM");
    reveal_strlit("Qualcomm");
    reveal_strlit("ImgTec");
    reveal_strlit("Apple");
    reveal_strlit("Unknown");
    reveal_strlit("ASYNC:N/A");
    reveal_strlit("ASYNC:ON ");
    reveal_strlit("ASYNC:OFF");
    reveal_strlit("  ");
    reveal_strlit("MIP:ON ");
    reveal_strlit("MIP:OFF");
    let name = caps.device_name@;
    let n = SHOWN_NAME_BYTES as int;
    encode_utf8_valid_utf8(name);
    let bytes = first_bytes(name, n);
    assert(bytes.len() <= n && valid_utf8(bytes)) by {
        if encode_utf8(name).len() > n {
            valid_utf8_split(encode_utf8(name), n);
            assert(bytes =~= encode_utf8(name).subrange(0, n));
        }
    }
    decode_utf8_encode_utf8(bytes);
    lemma_encoded_length(truncated(name, n));
    lemma_encoded_length(gpu_line(caps.vendor_id, name));
    lemma_encoded_length(perf_line(caps.async_compute_family is Some, perf_async, perf_mipskip));
}

/// Lays out the overlay: the frame-rate text, the adapter and the optimisation
/// switches.
pub fn build_overlay_text_quads(
    fps_text: &str,
    caps: &DeviceCaps,
    perf_async: bool,
    perf_mipskip: bool,
) -> (quads: Vec<TextQuad>)
    requires
        cuts_at(caps.device_name@, SHOWN_NAME_BYTES as int),
        encode_utf8(fps_text@).len() <= MAX_LINE_BYTES,
    ensures
        quads@ == capped_quads(
            lines_quads(overlay_models(fps_text@, *caps, perf_async, perf_mipskip)),
        ),
        quads@.len() <= MAX_TEXT_QUADS,
{
    let lines = overlay_lines(fps_text, caps, perf_async, perf_mipskip);
    let ghost models = overlay_models(fps_text@, *caps, perf_async, perf_mipskip);
    proof {
        lemma_composed_lines_short(*caps, perf_async, perf_mipskip);
        assert(lines@.len() == models.len());
        assert forall|i: int| 0 <= i < lines@.len() implies encode_utf8(
            #[trigger] lines@[i].text@,
        ).len() <= MAX_LINE_BYTES by {
            assert(models[i] == lines@[i]@);
        }
    }
    layout_lines(&lines)
}

/// A quad shows the atlas cell of its character, so the texels it covers are
/// those of the character's glyph.
pub proof fn law_quad_shows_glyph(
    table: Seq<Seq<u8>>,
    b: u8,
    column: int,
    y: int,
    color: Tint,
    row: int,
    bit: int,
)
    requires
        is_drawn(b),
        0 <= row < GLYPH_H,
        0 <= bit < GLYPH_W,
    ensures
        ({
            let q = quad_of(b, column, y, color);
            &&& q.u0 + bit < q.u1 <= font::ATLAS_W
            &&& q.v0 + row < q.v1 <= font::ATLAS_H
            &&& font::atlas_pixel(table, q.u0 + bit, q.v0 + row) == if font::row_bit(
                table[b as int][row],
                bit,
            ) {
                0xFFu8
            } else {
                0u8
            }
        }),
{
    font::law_cell_shows_glyph(table, b as int, row, bit);
}

/// Quads of one line do not overlap: two columns are a glyph width apart.
pub proof fn law_columns_apart(b: u8, i: int, c: u8, j: int, y: int, color: Tint)
    requires
        0 <= i < j <= MAX_LINE_BYTES,
    ensures
        quad_of(b, i, y, color).x + quad_of(b, i, y, color).w <= quad_of(c, j, y, color).x,
{
}

/// Text is laid out from left to right, sixteen pixels to a byte, from the tenth pixel on.
/// A byte that is no space and is in ASCII is drawn with its cell of the atlas, at twice
/// the size; any other only takes up its room.
pub proof fn law_one_more_byte(bytes: Seq<u8>, b: u8, y: int, color: Tint)
    requires
        bytes.len() < MAX_LINE_BYTES,
        0 <= y <= u32::MAX,
    ensures
        bytes.len() == 0 ==> line_quads(bytes, y, color).len() == 0,
        b == 0x20 || b >= 0x80 ==> line_quads(bytes.push(b), y, color) == line_quads(
            bytes,
            y,
            color,
        ),
        b != 0x20 && b < 0x80 ==> ({
            let more = line_quads(bytes.push(b), y, color);
            let before = line_quads(bytes, y, color);
            let q = more[before.len() as int];
            &&& more == before.push(q)
            &&& q.x == 10 + 16 * bytes.len() && q.y == y
            &&& q.w == 16 && q.h == 32
            &&& q.u0 == (b % 16) * 8 && q.v0 == (b / 16) * 16
            &&& q.u1 == q.u0 + 8 && q.v1 == q.v0 + 16
            &&& q.color == color
        }),
{
    assert(bytes.push(b).drop_last() =~= bytes);
}

/// Lines are laid out from top to bottom, thirty-four pixels to a line, from the tenth
/// pixel on, each in its own color.
pub proof fn law_one_more_line(lines: Seq<(Seq<char>, Tint)>, text: Seq<char>, color: Tint)
    ensures
        lines.len() == 0 ==> lines_quads(lines).len() == 0,
        lines_quads(lines.push((text, color))) == lines_quads(lines) + line_quads(
            encode_utf8(text),
            (10 + 34 * lines.len()) as int,
            color,
        ),
{
    assert(lines.push((text, color)).drop_last() =~= lines);
}

/// What does not fit is left out from the end.
pub proof fn law_text_is_cut_at_the_end(quads: Seq<TextQuad>, i: int)
    requires
        0 <= i < quads.len(),
        i < 1024,
    ensures
        capped_quads(quads).len() == if quads.len() < 1024 {
            quads.len()
        } else {
            1024
        },
        capped_quads(quads)[i] == quads[i],
{
}

/// The overlay has the frame rate on its first line, on its second the adapter by vendor
/// and name, and on its third the two switches: the second queue, which may not be there,
/// and the skipping of empty space.
pub proof fn law_overlay_says(
    fps_text: Seq<char>,
    caps: DeviceCaps,
    perf_async: bool,
    perf_mipskip: bool,
)
    ensures
        ({
            let lines = overlay_models(fps_text, caps, perf_async, perf_mipskip);
            &&& lines.len() == 3
            &&& lines[0].0 == fps_text
            &&& lines[1].0 == "GPU: "@ + device::vendor_of(caps.vendor_id) + " "@ + truncated(
                caps.device_name@,
                40,
            )
            &&& caps.async_compute_family is None && perf_mipskip ==> lines[2].0 == "ASYNC:N/A"@
                + "  "@ + "MIP:ON "@
            &&& caps.async_compute_family is None && !perf_mipskip ==> lines[2].0 == "ASYNC:N/A"@
                + "  "@ + "MIP:OFF"@
            &&& caps.async_compute_family is Some && perf_async && perf_mipskip ==> lines[2].0
                == "ASYNC:ON "@ + "  "@ + "MIP:ON "@
            &&& caps.async_compute_family is Some && perf_async && !perf_mipskip ==> lines[2].0
                == "ASYNC:ON "@ + "  "@ + "MIP:OFF"@
            &&& caps.async_compute_family is Some && !perf_async && perf_mipskip ==> lines[2].0
                == "ASYNC:OFF"@ + "  "@ + "MIP:ON "@
            &&& caps.async_compute_family is Some && !perf_async && !perf_mipskip ==> lines[2].0
                == "ASYNC:OFF"@ + "  "@ + "MIP:OFF"@
            &&& lines[0].1 == (Tint { r: 10, g: 10, b: 4, a: 10 })
            &&& lines[1].1 == (Tint { r: 7, g: 9, b: 10, a: 10 })
            &&& lines[2].1 == (Tint { r: 7, g: 10, b: 7, a: 10 })
        }),
{
}

/// A text that is cut keeps its beginning: as many bytes as it is cut to, or all of them
/// where it has no more.
pub proof fn law_cut_text_is_a_beginning(s: Seq<char>, n: int)
    requires
        n >= 0,
        cuts_at(s, n),
    ensures
        encode_utf8(truncated(s, n)).is_prefix_of(encode_utf8(s)),
        encode_utf8(s).len() <= n ==> truncated(s, n) == s,
        encode_utf8(s).len() > n ==> encode_utf8(truncated(s, n)).len() == n,
{
    let whole = encode_utf8(s);
    let bytes = first_bytes(s, n);
    encode_utf8_valid_utf8(s);
    encode_utf8_decode_utf8(s);
    if whole.len() > n {
        valid_utf8_split(whole, n);
        assert(bytes =~= whole.subrange(0, n));
    }
    decode_utf8_encode_utf8(bytes);
    assert(bytes =~= whole.take(bytes.len() as int));
}

/// The lines of the overlay stand for their texts and colors, in their order.
pub proof fn law_lines_are_their_texts(lines: Seq<OverlayLine>, i: int)
    requires
        0 <= i < lines.len(),
    ensures
        line_models(lines).len() == lines.len(),
        line_models(lines)[i].0 == lines[i].text@,
        line_models(lines)[i].1 == lines[i].color,
{
}

} // verus!
