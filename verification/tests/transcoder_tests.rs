use tractyl_core::transcoder::{page_pixel_at, row_pixel_at, transcode, TranscodeError};

/// Page-mode buffer size for a 32x40 image: 5 pages of 32 bytes.
const CAT_SIZE: usize = 160;

#[test]
fn pixel_correspondence_32x40_sparse() {
    // A hand-constructed sparse source: one known on-bit at (x=5, y=11).
    // Page 11 / 8 = 1, byte 1 * 32 + 5 = 37, bit 11 % 8 = 3.
    let mut src = vec![0u8; CAT_SIZE];
    src[37] = 1 << 3;
    // A second on-bit at (x=31, y=39): page 4, byte 4 * 32 + 31 = 159, bit 7.
    src[159] = 1 << 7;

    let out = transcode(&src, 32, 40).unwrap();
    assert_eq!(out.len(), 40 * 4);

    assert!(page_pixel_at(&src, 32, 40, 5, 11));
    assert!(row_pixel_at(&out, 32, 40, 5, 11));
    assert!(row_pixel_at(&out, 32, 40, 31, 39));

    for x in 0..32 {
        for y in 0..40 {
            assert_eq!(
                row_pixel_at(&out, 32, 40, x, y),
                page_pixel_at(&src, 32, 40, x, y),
                "pixel ({}, {}) moved",
                x,
                y
            );
        }
    }
}

#[test]
fn transcode_is_idempotent() {
    let mut src = vec![0u8; CAT_SIZE];
    for (i, b) in src.iter_mut().enumerate() {
        *b = (i as u8).wrapping_mul(37).wrapping_add(11);
    }
    let first = transcode(&src, 32, 40).unwrap();
    let second = transcode(&src, 32, 40).unwrap();
    assert_eq!(first, second);
}

#[test]
fn transcode_exact_single_bit() {
    // 8x8: bit 0 of the first page byte is pixel (0, 0); row-major that is
    // the top-left bit of the first row byte.
    let mut src = vec![0u8; 8];
    src[0] = 0x01;
    let out = transcode(&src, 8, 8).unwrap();
    assert_eq!(out, vec![0x80, 0, 0, 0, 0, 0, 0, 0]);
}

#[test]
fn transcode_exact_vertical_column() {
    // 8x8: a full page byte is a vertical 8-pixel column at x = 0.
    let mut src = vec![0u8; 8];
    src[0] = 0xff;
    let out = transcode(&src, 8, 8).unwrap();
    assert_eq!(out, vec![0x80; 8]);
}

#[test]
fn transcode_partial_last_page() {
    // 8x12 needs two pages; row 8 lives in the second page.
    let mut src = vec![0u8; 16];
    src[8] = 0x01;
    let out = transcode(&src, 8, 12).unwrap();
    assert_eq!(out.len(), 12);
    assert_eq!(out[8], 0x80);
    assert!(row_pixel_at(&out, 8, 12, 0, 8));
}

#[test]
fn transcode_rejects_unaligned_width() {
    let src = vec![0u8; 20];
    assert_eq!(
        transcode(&src, 10, 16),
        Err(TranscodeError::WidthNotMultipleOfEight)
    );
}

#[test]
fn transcode_rejects_wrong_source_size() {
    let src = vec![0u8; 10];
    assert_eq!(transcode(&src, 8, 16), Err(TranscodeError::SizeMismatch));
}
