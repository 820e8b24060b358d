use base64::Engine;
use openterm_rdp::coalesce::{can_merge_rects, coalesce_dirty_rects, merge_rects, sort_by_position, Bounds};
use openterm_rdp::frame::DirtyRect;
use openterm_rdp::framebuffer::FrameBuffer;

fn screen(w: u16, h: u16) -> FrameBuffer {
    let mut fb = FrameBuffer::new(w, h);
    let pixels: Vec<u8> = (0..(w as usize * h as usize * 4)).map(|i| (i % 251) as u8).collect();
    fb.update_rect(0, 0, w, h, &pixels);
    fb
}

fn stale(x: u16, y: u16, w: u16, h: u16) -> DirtyRect {
    DirtyRect::new(x, y, w, h, &[0u8; 4])
}

#[test]
fn overlapping_rects_merge_into_union() {
    let fb = screen(100, 100);
    let out = coalesce_dirty_rects(vec![stale(0, 0, 50, 50), stale(30, 30, 50, 50)], &fb);
    assert_eq!(out.len(), 1);
    assert_eq!((out[0].x, out[0].y, out[0].width, out[0].height), (0, 0, 80, 80));
    let decoded = base64::engine::general_purpose::STANDARD.decode(&out[0].data).unwrap();
    assert_eq!(decoded, fb.extract_region(0, 0, 80, 80));
}

#[test]
fn edge_sharing_rects_merge() {
    let fb = screen(40, 20);
    let out = coalesce_dirty_rects(vec![stale(10, 0, 10, 10), stale(0, 0, 10, 10)], &fb);
    assert_eq!(out.len(), 1);
    assert_eq!((out[0].x, out[0].y, out[0].width, out[0].height), (0, 0, 20, 10));
}

#[test]
fn separate_rects_stay_apart_in_position_order() {
    let fb = screen(100, 100);
    let out = coalesce_dirty_rects(vec![stale(60, 60, 10, 10), stale(0, 0, 10, 10)], &fb);
    assert_eq!(out.len(), 2);
    assert_eq!((out[0].x, out[0].y, out[0].width, out[0].height), (0, 0, 10, 10));
    assert_eq!((out[1].x, out[1].y, out[1].width, out[1].height), (60, 60, 10, 10));
    let first = base64::engine::general_purpose::STANDARD.decode(&out[0].data).unwrap();
    assert_eq!(first, fb.extract_region(0, 0, 10, 10));
}

#[test]
fn coalescing_nothing_gives_nothing() {
    let fb = screen(4, 4);
    assert!(coalesce_dirty_rects(Vec::new(), &fb).is_empty());
}

#[test]
fn can_merge_detects_gap() {
    assert!(can_merge_rects(&stale(0, 0, 10, 10), &stale(10, 10, 5, 5)));
    assert!(!can_merge_rects(&stale(0, 0, 10, 10), &stale(11, 0, 5, 5)));
    assert!(!can_merge_rects(&stale(0, 0, 10, 10), &stale(0, 11, 5, 5)));
}

#[test]
fn merge_recaptures_the_union() {
    let fb = screen(20, 20);
    let m = merge_rects(stale(2, 2, 3, 3), stale(4, 4, 3, 3), &fb);
    assert_eq!((m.x, m.y, m.width, m.height), (2, 2, 5, 5));
    let decoded = base64::engine::general_purpose::STANDARD.decode(&m.data).unwrap();
    assert_eq!(decoded, fb.extract_region(2, 2, 5, 5));
}

#[test]
fn sort_orders_by_top_then_left() {
    let b = |x: u16, y: u16| Bounds { x, y, width: 1, height: 1 };
    let sorted = sort_by_position(vec![b(5, 2), b(1, 2), b(9, 0)]);
    assert_eq!(sorted, vec![b(9, 0), b(1, 2), b(5, 2)]);
}

#[test]
fn chain_of_touching_rects_merges_in_one_sweep() {
    let fb = screen(64, 64);
    let out = coalesce_dirty_rects(
        vec![stale(0, 0, 4, 4), stale(4, 4, 4, 4), stale(8, 8, 4, 4), stale(40, 40, 2, 2)],
        &fb,
    );
    assert_eq!(out.len(), 2);
    assert_eq!((out[0].x, out[0].y, out[0].width, out[0].height), (0, 0, 12, 12));
    assert_eq!((out[1].x, out[1].y, out[1].width, out[1].height), (40, 40, 2, 2));
}
