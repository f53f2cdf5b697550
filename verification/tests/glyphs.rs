use quantum_atom_viz::device::DeviceCaps;
use quantum_atom_viz::font::{build_font_atlas, font_is_readable, parse_font_hex_ascii, Glyphs};
use quantum_atom_viz::overlay::{
    build_overlay_text_quads, layout_lines, overlay_lines, truncate_str, OverlayLine, Tint,
};
use quantum_atom_viz::resources::{image_spec, ImageName};
use quantum_atom_viz::text::{is_utf8, parse_hex_u32, trimmed};

const BLANK: Glyphs = [[0; 16]; 128];

const A_ROWS: [u8; 16] =
    [0, 0, 0, 0, 0x18, 0x24, 0x24, 0x42, 0x42, 0x7E, 0x42, 0x42, 0x42, 0x42, 0, 0];

#[test]
fn hex_numbers() {
    assert_eq!(parse_hex_u32(b"0041"), Some(0x41));
    assert_eq!(parse_hex_u32(b"+fF"), Some(0xFF));
    assert_eq!(parse_hex_u32(b"FFFFFFFF"), Some(u32::MAX));
    assert_eq!(parse_hex_u32(b"100000000"), None);
    assert_eq!(parse_hex_u32(b"0000000000001"), Some(1));
    assert_eq!(parse_hex_u32(b""), None);
    assert_eq!(parse_hex_u32(b"+"), None);
    assert_eq!(parse_hex_u32(b"-1"), None);
    assert_eq!(parse_hex_u32(b"0x41"), None);
    assert_eq!(parse_hex_u32(b"4 1"), None);
}

#[test]
fn hex_numbers_agree_with_std() {
    for s in ["0", "+", "-0", "+-1", "g", "7f", "7F", "ffffffff", "1ffffffff", " 1", "\u{e9}"] {
        assert_eq!(parse_hex_u32(s.as_bytes()), u32::from_str_radix(s, 16).ok(), "{}", s);
    }
}

#[test]
fn trimming_agrees_with_std() {
    let cases = ["", " ", "a", " a b ", "\t\r\nx\u{85}\u{a0}", "\u{2003}\u{3000}y\u{200b}", "\u{1680}"];
    for s in cases {
        assert_eq!(trimmed(s.as_bytes()), s.trim().as_bytes());
    }
}

#[test]
fn utf8_agrees_with_std() {
    let cases: [&[u8]; 8] = [
        b"plain",
        &[0xC3, 0xA9],
        &[0xC0, 0x80],
        &[0xED, 0xA0, 0x80],
        &[0xF4, 0x8F, 0xBF, 0xBF],
        &[0xF4, 0x90, 0x80, 0x80],
        &[0xE2, 0x82],
        &[0x80],
    ];
    for c in cases {
        assert_eq!(is_utf8(c), std::str::from_utf8(c).is_ok());
    }
}

#[test]
fn a_font_of_one_glyph() {
    let g = parse_font_hex_ascii(b"0041:0000000018242442427E424242420000\n");
    assert_eq!(g[0x41], A_ROWS);
    let mut rest = g;
    rest[0x41] = [0; 16];
    assert_eq!(rest, BLANK);
}

#[test]
fn wide_glyphs_give_their_left_half() {
    let mut line = String::from("7f:");
    for r in 0..16 {
        line.push_str(&format!("{:02X}EE", r * 3));
    }
    let g = parse_font_hex_ascii(line.as_bytes());
    for r in 0..16 {
        assert_eq!(g[0x7F][r], (r * 3) as u8);
    }
}

#[test]
fn lines_that_define_nothing() {
    let digits = "FF".repeat(16);
    let text = format!(
        "\n  \n# comment\n#41:{d}\nno colon\n80:{d}\nzz:{d}\n42:{d}0\n43:FF\n100000041:{d}\n",
        d = digits
    );
    assert_eq!(parse_font_hex_ascii(text.as_bytes()), BLANK);
}

#[test]
fn odd_spacing_and_bad_digits() {
    let text = format!("  20 : {}\r\n21:{}", "G1".repeat(16), "+7".repeat(16));
    let g = parse_font_hex_ascii(text.as_bytes());
    assert_eq!(g[0x20], [0; 16]);
    assert_eq!(g[0x21], [7; 16]);
    let g = parse_font_hex_ascii(format!(" 30 : {} ", "1f".repeat(16)).as_bytes());
    assert_eq!(g[0x30], [0x1F; 16]);
}

#[test]
fn the_last_line_of_a_code_point_counts() {
    let text = format!("41:{}\n41:{}\n41:short", "01".repeat(16), "02".repeat(16));
    assert_eq!(parse_font_hex_ascii(text.as_bytes())[0x41], [2; 16]);
}

#[test]
fn a_file_that_is_no_text_is_blank() {
    let mut bytes = format!("41:{}\n", "01".repeat(16)).into_bytes();
    bytes.push(0xFF);
    assert_eq!(parse_font_hex_ascii(&bytes), BLANK);
    assert_eq!(parse_font_hex_ascii(b""), BLANK);
}

#[test]
fn readable_fonts() {
    assert!(font_is_readable(b""));
    assert!(font_is_readable(&[0xFF]));
    assert!(font_is_readable(format!("41:{}", "01".repeat(16)).as_bytes()));
    assert!(font_is_readable("41:\u{e9}".as_bytes()));
    assert!(font_is_readable(format!("80:0{}0", "\u{e9}".repeat(15)).as_bytes()));
    assert!(!font_is_readable(format!("41:0{}0", "\u{e9}".repeat(15)).as_bytes()));
    assert!(font_is_readable(format!("41:{}", "\u{e9}".repeat(16)).as_bytes()));
}

#[test]
fn the_atlas_shows_the_glyphs() {
    let mut g = BLANK;
    g[0x41] = A_ROWS;
    g[0] = [0x80; 16];
    g[127] = [0x01; 16];
    let px = build_font_atlas(&g);
    assert_eq!(px.len(), 128 * 128);
    for y in 0..128usize {
        for x in 0..128usize {
            let c = (y / 16) * 16 + x / 8;
            let on = (g[c][y % 16] >> (7 - x % 8)) & 1 == 1;
            assert_eq!(px[y * 128 + x], if on { 0xFF } else { 0 });
        }
    }
    assert_eq!(px[0], 0xFF);
    assert_eq!(px[128 * 128 - 1], 0xFF);
    assert_eq!(px[(64 + 9) * 128 + 8 + 1], 0xFF);
}

#[test]
fn different_glyphs_give_different_atlases() {
    let mut g = BLANK;
    g[5][3] = 0x10;
    assert_ne!(build_font_atlas(&g), build_font_atlas(&BLANK));
}

#[test]
fn cutting_names() {
    assert_eq!(truncate_str("abc", 5), "abc");
    assert_eq!(truncate_str("abc", 3), "abc");
    assert_eq!(truncate_str("abc", 2), "ab");
    assert_eq!(truncate_str("abc", 0), "");
    assert_eq!(truncate_str("a\u{e9}b", 3), "a\u{e9}");
}

fn caps(name: &str, family: Option<u32>) -> DeviceCaps {
    DeviceCaps {
        vendor_id: 0x8086,
        device_id: 0,
        device_name: name.to_string(),
        driver_version: 0,
        api_version: 0,
        graphics_family: 0,
        async_compute_family: family,
        subgroup_size: 0,
        device_type: 0,
        device_memory_mb: 0,
    }
}

fn texts(c: &DeviceCaps, perf_async: bool, mip: bool) -> Vec<String> {
    overlay_lines("FPS:  60.0", c, perf_async, mip).into_iter().map(|l| l.text).collect()
}

#[test]
fn overlay_texts() {
    let c = caps("Arc", Some(1));
    assert_eq!(texts(&c, true, true), ["FPS:  60.0", "GPU: Intel Arc", "ASYNC:ON   MIP:ON "]);
    assert_eq!(texts(&c, false, false)[2], "ASYNC:OFF  MIP:OFF");
    assert_eq!(texts(&caps("Arc", None), true, false)[2], "ASYNC:N/A  MIP:OFF");
    let long = caps(&"x".repeat(60), None);
    assert_eq!(texts(&long, true, true)[1], format!("GPU: Intel {}", "x".repeat(40)));
}

#[test]
fn overlay_colors() {
    let c = caps("Arc", None);
    let lines = overlay_lines("", &c, true, true);
    assert_eq!(lines[0].color, Tint { r: 10, g: 10, b: 4, a: 10 });
    assert_eq!(lines[1].color, Tint { r: 7, g: 9, b: 10, a: 10 });
    assert_eq!(lines[2].color, Tint { r: 7, g: 10, b: 7, a: 10 });
}

#[test]
fn overlay_quads() {
    let c = caps("Arc", None);
    let quads = build_overlay_text_quads("A \u{e9}B", &c, true, true);
    let a = quads[0];
    assert_eq!((a.x, a.y, a.w, a.h), (10, 10, 16, 32));
    assert_eq!((a.u0, a.v0, a.u1, a.v1), (8, 64, 16, 80));
    assert_eq!(a.color, Tint { r: 10, g: 10, b: 4, a: 10 });
    let b = quads[1];
    assert_eq!((b.x, b.y), (10 + 4 * 16, 10));
    let g = quads[2];
    assert_eq!((g.x, g.y), (10, 44));
    assert_eq!((g.u0, g.v0), (7 * 8, 4 * 16));
    let last = quads[quads.len() - 1];
    assert_eq!(last.y, 78);
    let drawn = 2 + "GPU:IntelArc".len() + "ASYNC:N/AMIP:ON".len();
    assert_eq!(quads.len(), drawn);
}

#[test]
fn overlay_is_capped() {
    let color = Tint { r: 1, g: 2, b: 3, a: 4 };
    let line = |n: usize| OverlayLine { text: "x".repeat(n), color };
    assert_eq!(layout_lines(&vec![line(1023)]).len(), 1023);
    assert_eq!(layout_lines(&vec![line(1020), line(10)]).len(), 1024);
    assert_eq!(layout_lines(&vec![line(5000)]).len(), 1024);
    assert!(layout_lines(&vec![]).is_empty());
}

#[test]
fn the_atlas_fills_its_image() {
    let made = image_spec(ImageName::Font);
    assert_eq!((made.width, made.height, made.depth, made.format), (128, 128, 1, 9));
    assert_eq!(build_font_atlas(&BLANK).len(), (made.width * made.height) as usize);
}
