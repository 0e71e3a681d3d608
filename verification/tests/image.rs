use screenshot::quartz;
use screenshot::{Layout, Screenshot};

fn image(width: usize, height: usize, row_len: usize, pixel_width: usize, bytes: Vec<u8>) -> Screenshot {
    let layout = Layout { width, height, row_len, pixel_width };
    match quartz::assemble(layout, bytes) {
        Ok(img) => img,
        Err(e) => panic!("{}", e),
    }
}

fn counting(n: u8) -> Vec<u8> {
    (0..n).collect()
}

#[test]
fn accessors_report_the_layout() {
    let img = image(2, 3, 8, 4, counting(24));
    assert_eq!(img.width(), 2);
    assert_eq!(img.height(), 3);
    assert_eq!(img.row_len(), 8);
    assert_eq!(img.pixel_width(), 4);
    assert_eq!(img.raw_len(), 24);
}

#[test]
fn buffer_is_rows_times_row_length_without_padding() {
    let img = image(5, 7, 20, 4, vec![0; 140]);
    assert_eq!(img.raw_len(), img.row_len() * img.height());
    assert!(img.row_len() >= img.width() * img.pixel_width());
}

#[test]
fn buffer_is_short_of_padded_rows() {
    // One pixel, reported with a scanline of 64 bytes: the four bytes are taken, and the
    // buffer is not one scanline long.
    let img = image(1, 1, 64, 4, vec![1, 2, 3, 4]);
    assert_eq!(img.raw_len(), 4);
    assert_eq!(img.row_len() * img.height(), 64);
    assert_eq!(img.raw_len(), img.width() * img.height() * img.pixel_width());
}

#[test]
fn pixel_channels_follow_byte_order() {
    let img = image(2, 2, 8, 4, counting(16));
    let p = img.get_pixel(1, 1);
    assert_eq!(p.b, 12);
    assert_eq!(p.g, 13);
    assert_eq!(p.r, 14);
    assert_eq!(p.a, 15);
    let q = img.get_pixel(0, 0);
    assert_eq!((q.b, q.g, q.r, q.a), (0, 1, 2, 3));
    let r = img.get_pixel(0, 1);
    assert_eq!((r.b, r.g, r.r, r.a), (4, 5, 6, 7));
    let s = img.get_pixel(1, 0);
    assert_eq!((s.b, s.g, s.r, s.a), (8, 9, 10, 11));
}

#[test]
fn pixel_matches_the_raw_bytes_at_its_offset() {
    let bytes: Vec<u8> = (0..48).map(|i| (i * 5 + 1) as u8).collect();
    let img = image(3, 4, 12, 4, bytes.clone());
    for row in 0..4 {
        for col in 0..3 {
            assert!(img.has_pixel(row, col));
            let at = row * img.row_len() + col * img.pixel_width();
            let p = img.get_pixel(row, col);
            assert_eq!([p.b, p.g, p.r, p.a], [bytes[at], bytes[at + 1], bytes[at + 2], bytes[at + 3]]);
        }
    }
}

#[test]
fn pixel_is_a_copy() {
    let img = image(1, 1, 4, 4, vec![9, 8, 7, 6]);
    let p = img.get_pixel(0, 0);
    let q = p;
    assert_eq!((p.a, p.r, p.g, p.b), (q.a, q.r, q.g, q.b));
    assert_eq!((p.a, p.r, p.g, p.b), (6, 7, 8, 9));
}

#[test]
fn last_pixel_is_in_bounds_and_the_next_is_not() {
    let img = image(2, 2, 8, 4, counting(16));
    assert!(img.has_pixel(1, 1));
    assert!(!img.has_pixel(2, 0));
    assert!(!img.has_pixel(1, 2));
    assert!(!img.has_pixel(0, 4));
}

#[test]
fn bounds_go_by_the_offset_alone() {
    // Column 3 of row 0 is past the frame, and is the last pixel of the buffer.
    let img = image(2, 2, 8, 4, counting(16));
    assert!(img.has_pixel(0, 3));
    let p = img.get_pixel(0, 3);
    assert_eq!((p.b, p.g, p.r, p.a), (12, 13, 14, 15));
}

#[test]
fn bounds_survive_huge_coordinates() {
    let img = image(2, 2, 8, 4, counting(16));
    assert!(!img.has_pixel(usize::MAX, 0));
    assert!(!img.has_pixel(0, usize::MAX));
    assert!(!img.has_pixel(usize::MAX, usize::MAX));
    assert!(!img.has_pixel(usize::MAX / 8 + 1, 0));
}

#[test]
fn three_byte_pixels_need_four_bytes_to_read() {
    let img = image(2, 1, 6, 3, counting(6));
    assert!(img.has_pixel(0, 0));
    let p = img.get_pixel(0, 0);
    assert_eq!((p.b, p.g, p.r, p.a), (0, 1, 2, 3));
    assert!(!img.has_pixel(0, 1));
}

#[test]
fn wide_pixels_need_their_whole_width() {
    let img = image(1, 2, 12, 8, counting(16));
    assert!(img.has_pixel(0, 0));
    // Offset 12 leaves four bytes, not eight.
    assert!(!img.has_pixel(1, 0));
}

#[test]
fn empty_image_has_no_pixel() {
    let img = image(0, 0, 0, 4, Vec::new());
    assert_eq!(img.raw_len(), 0);
    assert!(!img.has_pixel(0, 0));
    assert!(img.raw_data().is_empty());
}

#[test]
fn raw_data_is_the_buffer() {
    let img = image(2, 1, 8, 4, vec![1, 2, 3, 4, 5, 6, 7, 8]);
    assert_eq!(img.raw_data(), &[1, 2, 3, 4, 5, 6, 7, 8]);
    let view: &[u8] = img.as_ref();
    assert_eq!(view, &[1, 2, 3, 4, 5, 6, 7, 8]);
    assert_eq!(img.raw_data().len(), img.raw_len());
}

#[test]
fn raw_data_mut_writes_through() {
    let mut img = image(2, 1, 8, 4, vec![1, 2, 3, 4, 5, 6, 7, 8]);
    {
        let bytes = img.raw_data_mut();
        assert_eq!(bytes.len(), 8);
        bytes[3] = 200;
        bytes[4] = 0;
    }
    assert_eq!(img.raw_data(), &[1, 2, 3, 200, 0, 6, 7, 8]);
    assert_eq!(img.get_pixel(0, 0).a, 200);
    assert_eq!(img.get_pixel(0, 1).b, 0);
    assert_eq!((img.width(), img.height(), img.row_len(), img.pixel_width()), (2, 1, 8, 4));
    assert_eq!(img.raw_len(), 8);
}

#[test]
fn pixels_len_is_the_product() {
    assert_eq!(Layout { width: 3, height: 5, row_len: 0, pixel_width: 4 }.checked_pixels_len(), Some(60));
    assert_eq!(
        Layout { width: 1920, height: 1080, row_len: 7680, pixel_width: 4 }.checked_pixels_len(),
        Some(8294400)
    );
    assert_eq!(Layout { width: 0, height: 5, row_len: 9, pixel_width: 4 }.checked_pixels_len(), Some(0));
    assert_eq!(Layout { width: 7, height: 0, row_len: 9, pixel_width: 4 }.checked_pixels_len(), Some(0));
    assert_eq!(Layout { width: 7, height: 5, row_len: 9, pixel_width: 0 }.checked_pixels_len(), Some(0));
}

#[test]
fn pixels_len_gives_up_past_usize() {
    assert_eq!(Layout { width: usize::MAX, height: 2, row_len: 0, pixel_width: 1 }.checked_pixels_len(), None);
    assert_eq!(Layout { width: usize::MAX, height: 1, row_len: 0, pixel_width: 2 }.checked_pixels_len(), None);
    assert_eq!(
        Layout { width: usize::MAX, height: 1, row_len: 0, pixel_width: 1 }.checked_pixels_len(),
        Some(usize::MAX)
    );
    // A factor of zero makes the product zero, however large the others are.
    assert_eq!(
        Layout { width: usize::MAX, height: usize::MAX, row_len: 0, pixel_width: 0 }.checked_pixels_len(),
        Some(0)
    );
    assert_eq!(
        Layout { width: usize::MAX, height: 0, row_len: 0, pixel_width: usize::MAX }.checked_pixels_len(),
        Some(0)
    );
}

#[test]
fn rows_len_is_the_product() {
    assert_eq!(Layout { width: 3, height: 5, row_len: 16, pixel_width: 4 }.checked_rows_len(), Some(80));
    assert_eq!(Layout { width: 3, height: 0, row_len: 16, pixel_width: 4 }.checked_rows_len(), Some(0));
    assert_eq!(Layout { width: 3, height: 5, row_len: 0, pixel_width: 4 }.checked_rows_len(), Some(0));
    assert_eq!(Layout { width: 3, height: 2, row_len: usize::MAX, pixel_width: 4 }.checked_rows_len(), None);
    assert_eq!(
        Layout { width: 3, height: 1, row_len: usize::MAX, pixel_width: 4 }.checked_rows_len(),
        Some(usize::MAX)
    );
}

#[test]
fn rows_hold_pixels_where_they_are_long_enough() {
    assert!(Layout { width: 3, height: 5, row_len: 12, pixel_width: 4 }.rows_hold_pixels());
    assert!(Layout { width: 3, height: 5, row_len: 16, pixel_width: 4 }.rows_hold_pixels());
    assert!(!Layout { width: 3, height: 5, row_len: 11, pixel_width: 4 }.rows_hold_pixels());
    assert!(Layout { width: 0, height: 5, row_len: 0, pixel_width: 4 }.rows_hold_pixels());
    assert!(!Layout { width: usize::MAX, height: 5, row_len: usize::MAX, pixel_width: 2 }.rows_hold_pixels());
    assert!(Layout { width: usize::MAX, height: 5, row_len: usize::MAX, pixel_width: 1 }.rows_hold_pixels());
}

#[test]
fn scanlines_too_short_for_their_pixels_make_no_image() {
    let layout = Layout { width: 2, height: 1, row_len: 7, pixel_width: 4 };
    assert_eq!(quartz::assemble(layout, vec![0; 8]).err(), Some("Image size is inconsistent with W*H*D."));
}
