use gascii::decoder::Producer;
use gascii::extractor::extract_frames;
use gascii::extractor::ExtractError;
use gascii::frame_data::FrameData;
use gascii::frame_manager::FrameManager;
use gascii::frame_manager::FrameStoreError;
use gascii::geometry::compose_canvas;
use gascii::geometry::scaled_dims;
use gascii::terminal::normalize_terminal_size;

fn frame_file(width: u16, height: u16, frame_count: u32, packed: &[u8]) -> Vec<u8> {
    let compressed = lz4::block::compress(packed, None, false).unwrap();
    let mut data = Vec::new();
    data.extend_from_slice(&width.to_le_bytes());
    data.extend_from_slice(&height.to_le_bytes());
    data.extend_from_slice(&frame_count.to_le_bytes());
    data.extend_from_slice(&compressed);
    data
}

#[test]
fn test_load_frames_and_unpack() {
    // Use width=2, height=2, frame_count=2 => pixels_per_frame = 2 * (2*2) = 8
    let width: u16 = 2;
    let height: u16 = 2;
    let frame_count: u32 = 2;

    // Prepare packed data (1 byte per frame since 8 bits)
    let frame1: u8 = 0b10101010; // alternating pixels
    let frame2: u8 = 0b01010101;
    let packed = vec![frame1, frame2];

    let data = frame_file(width, height, frame_count, &packed);

    let mut fm = FrameManager::new();
    let loaded = fm.load_frames(&data).unwrap();
    assert_eq!(loaded, 2);
    assert_eq!(fm.frame_count(), 2);

    let f0 = fm.get_frame(0).unwrap();
    let f1 = fm.get_frame(1).unwrap();

    // Expanded frame length should be pixels_per_frame * 3 + 4 header
    let pixels_per_frame = (width as usize) * ((height as usize) * 2);
    assert_eq!(f0.len(), 4 + pixels_per_frame * 3);
    assert_eq!(f1.len(), 4 + pixels_per_frame * 3);

    // Check a couple of pixel values: first pixel
    // White -> 255, black -> 0
    // For frame1 (0b10101010), first bit (MSB) = 1 -> white
    assert_eq!(f0[4], 255); // R
    assert_eq!(f0[5], 255); // G
    assert_eq!(f0[6], 255); // B

    // For frame2 (0b01010101), first bit = 0 -> black
    assert_eq!(f1[4], 0);
    assert_eq!(f1[5], 0);
    assert_eq!(f1[6], 0);

    // Header carries the dimensions little-endian.
    assert_eq!(&f0[0..4], &[2, 0, 2, 0]);
    // Out-of-range frame index.
    assert!(fm.get_frame(2).is_none());
}

#[test]
fn load_frames_short_and_corrupt_inputs() {
    let mut fm = FrameManager::new();
    // Shorter than the header: loads nothing, not an error.
    assert_eq!(fm.load_frames(&vec![1, 2, 3]).unwrap(), 0);

    // The body decodes to fewer bytes than the header promises.
    let data = frame_file(2, 2, 4, &[0xAAu8]);
    assert_eq!(fm.load_frames(&data), Err(FrameStoreError::Corrupt));

    // The declared sizes overflow what can be held.
    let mut huge = Vec::new();
    huge.extend_from_slice(&65535u16.to_le_bytes());
    huge.extend_from_slice(&65535u16.to_le_bytes());
    huge.extend_from_slice(&0xFFFF_FFFFu32.to_le_bytes());
    assert_eq!(fm.load_frames(&huge), Err(FrameStoreError::TooLarge));

    // A body that is not LZ4 data at all.
    let mut garbage = Vec::new();
    garbage.extend_from_slice(&2u16.to_le_bytes());
    garbage.extend_from_slice(&2u16.to_le_bytes());
    garbage.extend_from_slice(&1u32.to_le_bytes());
    assert_eq!(fm.load_frames(&garbage), Err(FrameStoreError::DecodeFailed));
}

#[test]
fn extract_is_unsupported() {
    assert_eq!(extract_frames(265, 65, 60), Err(ExtractError::Unsupported));
}

#[test]
fn scaled_dims_letterbox_and_fill() {
    // Matching aspect: exact fit either way.
    assert_eq!(scaled_dims(1920, 1080, 320, 180, false), Some((320, 180)));
    assert_eq!(scaled_dims(1920, 1080, 320, 180, true), Some((320, 180)));
    // Square source into a wide target.
    assert_eq!(scaled_dims(100, 100, 80, 40, false), Some((40, 40)));
    assert_eq!(scaled_dims(100, 100, 80, 40, true), Some((80, 80)));
    // Rounding: 100x99 into 50x50 letterbox gives a 50x50-rounded height.
    assert_eq!(scaled_dims(100, 99, 50, 50, false), Some((50, 50)));
    // Tiny sources scale up.
    assert_eq!(scaled_dims(1, 1, 7, 5, false), Some((5, 5)));
}

#[test]
fn compose_letterbox_pads_corners() {
    // A single red pixel centered on a 3x3 canvas: corners stay black.
    let resized = vec![255u8, 0, 0];
    let canvas = compose_canvas(&resized, 1, 1, 3, 3);
    assert_eq!(canvas.len(), 27);
    let pixel = |x: usize, y: usize| -> (u8, u8, u8) {
        let base = (y * 3 + x) * 3;
        (canvas[base], canvas[base + 1], canvas[base + 2])
    };
    assert_eq!(pixel(0, 0), (0, 0, 0));
    assert_eq!(pixel(2, 0), (0, 0, 0));
    assert_eq!(pixel(0, 2), (0, 0, 0));
    assert_eq!(pixel(2, 2), (0, 0, 0));
    assert_eq!(pixel(1, 1), (255, 0, 0));
}

#[test]
fn compose_crop_centers_overflow() {
    // A 4x1 strip of distinct columns cropped to 2x1 keeps the middle two.
    let resized = vec![
        10u8, 0, 0, // column 0
        20, 0, 0, // column 1
        30, 0, 0, // column 2
        40, 0, 0, // column 3
    ];
    let canvas = compose_canvas(&resized, 4, 1, 2, 1);
    assert_eq!(canvas, vec![20, 0, 0, 30, 0, 0]);
}

#[test]
fn producer_scales_and_stamps_timestamps() {
    // 1x1 red source onto a 2x2 canvas at 25 fps (40000us per frame).
    let mut p = Producer::new(2, 2, false, 40_000);
    let rgb = vec![255u8, 0, 0];
    let f0: FrameData = p.next_canvas(&rgb, 1, 1).unwrap();
    assert_eq!(f0.width, 2);
    assert_eq!(f0.height, 2);
    assert_eq!(f0.timestamp_us, 0);
    assert_eq!(f0.buffer.len(), 12);
    // A constant image resamples to itself: the whole canvas is red.
    for px in 0..4 {
        assert_eq!(f0.buffer[3 * px], 255);
        assert_eq!(f0.buffer[3 * px + 1], 0);
        assert_eq!(f0.buffer[3 * px + 2], 0);
    }
    let f1 = p.next_canvas(&rgb, 1, 1).unwrap();
    assert_eq!(f1.timestamp_us, 40_000);
    assert!(f0.timestamp_us <= f1.timestamp_us);
}

#[test]
fn normalize_terminal_size_converts_pixel_reports() {
    // A pixel-sized report is divided down by the character cell size.
    assert_eq!(normalize_terminal_size(2560, 1440, Some(10), Some(20)), (256, 72));
    // A plausible character report is left alone.
    assert_eq!(normalize_terminal_size(120, 40, Some(10), Some(20)), (120, 40));
    // Without a known cell size nothing changes.
    assert_eq!(normalize_terminal_size(2560, 1440, None, None), (2560, 1440));
}
