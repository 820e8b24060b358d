use openterm_rdp::framebuffer::FrameBuffer;

#[test]
fn new_buffer_is_zeroed_and_sized() {
    let fb = FrameBuffer::new(3, 2);
    assert_eq!(fb.width, 3);
    assert_eq!(fb.height, 2);
    assert_eq!(fb.data.len(), 3 * 2 * 4);
    assert!(fb.data.iter().all(|b| *b == 0));
}

#[test]
fn empty_buffer_has_no_bytes() {
    let fb = FrameBuffer::new(0, 0);
    assert!(fb.as_bytes().is_empty());
}

#[test]
fn update_rect_copies_rows_into_place() {
    let mut fb = FrameBuffer::new(4, 3);
    let block: Vec<u8> = (1..=16).collect();
    fb.update_rect(1, 1, 2, 2, &block);
    let row1 = &fb.data[(1 * 4 + 1) * 4..(1 * 4 + 3) * 4];
    assert_eq!(row1, &block[0..8]);
    let row2 = &fb.data[(2 * 4 + 1) * 4..(2 * 4 + 3) * 4];
    assert_eq!(row2, &block[8..16]);
    assert!(fb.data[0..(1 * 4 + 1) * 4].iter().all(|b| *b == 0));
}

#[test]
fn update_rect_skips_rows_past_the_buffer() {
    let mut fb = FrameBuffer::new(2, 2);
    let block: Vec<u8> = vec![9; 2 * 3 * 4];
    fb.update_rect(0, 1, 2, 3, &block);
    assert!(fb.data[0..8].iter().all(|b| *b == 0));
    assert!(fb.data[8..16].iter().all(|b| *b == 9));
}

#[test]
fn update_rect_skips_rows_with_short_source() {
    let mut fb = FrameBuffer::new(2, 2);
    let block: Vec<u8> = vec![7; 8];
    fb.update_rect(0, 0, 2, 2, &block);
    assert!(fb.data[0..8].iter().all(|b| *b == 7));
    assert!(fb.data[8..16].iter().all(|b| *b == 0));
}

#[test]
fn to_rgba_swaps_red_and_blue() {
    let mut fb = FrameBuffer::new(2, 1);
    fb.update_rect(0, 0, 2, 1, &[10, 20, 30, 40, 50, 60, 70, 80]);
    assert_eq!(fb.to_rgba(), vec![30, 20, 10, 40, 70, 60, 50, 80]);
}

#[test]
fn extract_region_reads_rows_in_order() {
    let mut fb = FrameBuffer::new(3, 3);
    let all: Vec<u8> = (0..36).collect();
    fb.update_rect(0, 0, 3, 3, &all);
    let r = fb.extract_region(1, 1, 2, 2);
    assert_eq!(r.len(), 2 * 2 * 4);
    assert_eq!(&r[0..8], &all[16..24]);
    assert_eq!(&r[8..16], &all[28..36]);
}

#[test]
fn vnc_buffer_behaves_alike() {
    let mut fb = openterm_rdp::vnc::FrameBuffer::new(1, 1);
    fb.update_rect(0, 0, 1, 1, &[1, 2, 3, 4]);
    assert_eq!(fb.as_bytes(), &[1, 2, 3, 4]);
}
