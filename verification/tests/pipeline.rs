use gascii::cell::CellData;
use gascii::display::DisplayManager;
use gascii::display::DisplayMode;
use gascii::kitty::KittyRenderer;
use gascii::processor::chunk_size;
use gascii::processor::FrameProcessor;

#[test]
fn test_process_frame_half_block() {
    let proc = FrameProcessor::new(2, 4);
    let mut frame = vec![0u8; 2 * 4 * 3];
    // (0,0) red
    frame[0] = 255;
    frame[1] = 0;
    frame[2] = 0;
    // (1,0) red
    frame[3] = 255;
    frame[4] = 0;
    frame[5] = 0;
    // (0,1) green
    frame[6] = 0;
    frame[7] = 255;
    frame[8] = 0;
    // (1,1) green
    frame[9] = 0;
    frame[10] = 255;
    frame[11] = 0;
    // (0,2) blue
    frame[12] = 0;
    frame[13] = 0;
    frame[14] = 255;
    // (1,2) blue
    frame[15] = 0;
    frame[16] = 0;
    frame[17] = 255;
    // (1,3) yellow
    frame[18] = 255;
    frame[19] = 255;
    frame[20] = 0;
    // (1,3) yellow
    frame[21] = 255;
    frame[22] = 255;
    frame[23] = 0;

    let cells = proc.process_frame(&frame);
    assert_eq!(cells.len(), 2 * 2);

    // Check if colors are mapped correctly
    assert_eq!(cells[0].fg, (255, 0, 0));
    assert_eq!(cells[0].bg, (0, 255, 0));
}

#[test]
fn process_frame_out_of_range_reads_are_black() {
    let proc = FrameProcessor::new(2, 4);
    // A truncated canvas: only the first pixel is present.
    let frame = vec![9u8, 8, 7];
    let cells = proc.process_frame(&frame);
    assert_eq!(cells.len(), 4);
    assert_eq!(cells[0].fg, (9, 8, 7));
    assert_eq!(cells[0].bg, (0, 0, 0));
    assert_eq!(cells[1].fg, (0, 0, 0));
    assert_eq!(cells[3].bg, (0, 0, 0));
}

#[test]
fn process_frame_into_refuses_wrong_length() {
    let proc = FrameProcessor::new(2, 4);
    let frame = vec![255u8; 2 * 4 * 3];
    let mut cells = vec![CellData::default(); 3];
    proc.process_frame_into(&frame, &mut cells);
    assert_eq!(cells.len(), 3);
    for c in &cells {
        assert_eq!(c.fg, (0, 0, 0));
        assert_eq!(c.char, ' ');
    }
}

#[test]
fn chunk_size_policy() {
    assert_eq!(chunk_size(20000, 8), 2000);
    assert_eq!(chunk_size(10000, 4), 2500);
    assert_eq!(chunk_size(10, 16), 1);
    assert_eq!(chunk_size(0, 0), 1);
}

#[test]
fn render_first_frame_full_paint() {
    let mut dm = DisplayManager::new(DisplayMode::Rgb);
    let cells = vec![CellData { char: '\u{2580}', fg: (1, 2, 3), bg: (4, 5, 6) }];
    let out = dm.render_diff(&cells, 1, 80, 24);
    let mut expected: Vec<u8> = Vec::new();
    expected.extend_from_slice(b"\x1b[?2026h");
    expected.extend_from_slice(b"\x1b[2J");
    // centered at column 39, row 11 (one-based: 40, 12)
    expected.extend_from_slice(b"\x1b[12;40H");
    expected.extend_from_slice(b"\x1b[38;2;1;2;3m");
    expected.extend_from_slice(b"\x1b[48;2;4;5;6m");
    expected.extend_from_slice("\u{2580}".as_bytes());
    expected.extend_from_slice(b"\x1b[0m");
    expected.extend_from_slice(b"\x1b[?2026l");
    assert_eq!(out, expected);
}

#[test]
fn render_same_grid_twice_is_empty_diff() {
    let mut dm = DisplayManager::new(DisplayMode::Rgb);
    let cells = vec![
        CellData { char: '\u{2580}', fg: (10, 20, 30), bg: (40, 50, 60) },
        CellData { char: '\u{2580}', fg: (11, 21, 31), bg: (41, 51, 61) },
    ];
    let first = dm.render_diff(&cells, 2, 80, 24);
    assert!(first.len() > 24);
    let second = dm.render_diff(&cells, 2, 80, 24);
    // An empty diff is exactly the synchronized-update markers.
    assert_eq!(second, b"\x1b[?2026h\x1b[?2026l".to_vec());
}

#[test]
fn render_empty_grid_still_brackets_the_frame() {
    let mut dm = DisplayManager::new(DisplayMode::Rgb);
    let cells: Vec<CellData> = Vec::new();
    // The first frame always clears; nothing is painted, so no reset.
    let first = dm.render_diff(&cells, 1, 80, 24);
    assert_eq!(first, b"\x1b[?2026h\x1b[2J\x1b[?2026l".to_vec());
    let second = dm.render_diff(&cells, 1, 80, 24);
    assert_eq!(second, b"\x1b[?2026h\x1b[?2026l".to_vec());
}

#[test]
fn render_diff_only_changed_cell() {
    let mut dm = DisplayManager::new(DisplayMode::Rgb);
    let cells = vec![
        CellData { char: '\u{2580}', fg: (1, 1, 1), bg: (2, 2, 2) },
        CellData { char: '\u{2580}', fg: (3, 3, 3), bg: (4, 4, 4) },
    ];
    dm.render_diff(&cells, 2, 2, 1);
    // Change only the second cell; terminal exactly fits the content.
    let cells2 = vec![
        CellData { char: '\u{2580}', fg: (1, 1, 1), bg: (2, 2, 2) },
        CellData { char: '\u{2580}', fg: (9, 9, 9), bg: (4, 4, 4) },
    ];
    let out = dm.render_diff(&cells2, 2, 2, 1);
    let mut expected: Vec<u8> = Vec::new();
    expected.extend_from_slice(b"\x1b[?2026h");
    expected.extend_from_slice(b"\x1b[1;2H");
    expected.extend_from_slice(b"\x1b[38;2;9;9;9m");
    expected.extend_from_slice(b"\x1b[48;2;4;4;4m");
    expected.extend_from_slice("\u{2580}".as_bytes());
    expected.extend_from_slice(b"\x1b[0m");
    expected.extend_from_slice(b"\x1b[?2026l");
    assert_eq!(out, expected);
}

#[test]
fn render_ascii_mode_brightness_ramp() {
    let mut dm = DisplayManager::new(DisplayMode::Ascii);
    let cells = vec![
        CellData { char: '\u{2580}', fg: (255, 255, 255), bg: (0, 0, 0) },
        CellData { char: '\u{2580}', fg: (0, 0, 0), bg: (0, 0, 0) },
    ];
    let out = dm.render_diff(&cells, 2, 2, 1);
    let mut expected: Vec<u8> = Vec::new();
    expected.extend_from_slice(b"\x1b[?2026h");
    expected.extend_from_slice(b"\x1b[2J");
    expected.extend_from_slice(b"\x1b[1;1H");
    // white maps to the brightest ramp glyph, black to the darkest
    expected.push(b'@');
    expected.push(b' ');
    expected.extend_from_slice(b"\x1b[0m");
    expected.extend_from_slice(b"\x1b[?2026l");
    assert_eq!(out, expected);
}

#[test]
fn render_clips_outside_terminal() {
    let mut dm = DisplayManager::new(DisplayMode::Rgb);
    let cells = vec![
        CellData { char: '\u{2580}', fg: (1, 1, 1), bg: (2, 2, 2) },
        CellData { char: '\u{2580}', fg: (3, 3, 3), bg: (4, 4, 4) },
    ];
    // Terminal is only one column wide: the second cell is clipped.
    let out = dm.render_diff(&cells, 2, 1, 1);
    let mut expected: Vec<u8> = Vec::new();
    expected.extend_from_slice(b"\x1b[?2026h");
    expected.extend_from_slice(b"\x1b[2J");
    expected.extend_from_slice(b"\x1b[1;1H");
    expected.extend_from_slice(b"\x1b[38;2;1;1;1m");
    expected.extend_from_slice(b"\x1b[48;2;2;2;2m");
    expected.extend_from_slice("\u{2580}".as_bytes());
    expected.extend_from_slice(b"\x1b[0m");
    expected.extend_from_slice(b"\x1b[?2026l");
    assert_eq!(out, expected);
}

#[test]
fn cell_default_is_black_space() {
    let c = CellData::default();
    assert_eq!(c.char, ' ');
    assert_eq!(c.fg, (0, 0, 0));
    assert_eq!(c.bg, (0, 0, 0));
}

#[test]
fn kitty_clear_sequence() {
    let kr = KittyRenderer::new(80, 24);
    assert_eq!(kr.clear(), b"\x1b_Ga=d\x1b\\".to_vec());
}

#[test]
fn kitty_frame_matches_direct_encoding() {
    let kr = KittyRenderer::new(100, 40);
    let pixels = vec![250u8, 10, 5, 0, 200, 30, 7, 8, 9, 100, 110, 120];
    let out = kr.render_frame(&pixels, 2, 2);

    // Reconstruct the escape sequence with the encoders called directly.
    let img: image::ImageBuffer<image::Rgb<u8>, Vec<u8>> =
        image::ImageBuffer::from_raw(2, 2, pixels.clone()).unwrap();
    let mut png: Vec<u8> = Vec::new();
    img.write_to(&mut std::io::Cursor::new(&mut png), image::ImageFormat::Png).unwrap();
    let b64 = base64::encode(&png);
    let expected = format!("\x1b_Ga=T,f=100,s={},c=0,r=0;{}\x1b\\", png.len(), b64);
    assert_eq!(out, expected.into_bytes());
}
