use base64::Engine;
use openterm_rdp::frame::{
    DirtyRect, FrameUpdate, RdpQuality, PERF_DISABLE_CURSORSETTINGS, PERF_DISABLE_FULLWINDOWDRAG,
    PERF_DISABLE_MENUANIMATIONS, PERF_DISABLE_THEMING, PERF_DISABLE_WALLPAPER, PERF_ENABLE_DESKTOP_COMPOSITION,
    PERF_ENABLE_FONT_SMOOTHING,
};
use openterm_rdp::framebuffer::FrameBuffer;

#[test]
fn quality_presets_follow_the_table() {
    let ultra = RdpQuality::Ultra.settings();
    assert!(!ultra.lossy_compression);
    assert_eq!(ultra.color_depth, 32);
    assert_eq!(ultra.performance_flags, PERF_ENABLE_FONT_SMOOTHING | PERF_ENABLE_DESKTOP_COMPOSITION);

    let high = RdpQuality::High.settings();
    assert_eq!(high, ultra);

    let balanced = RdpQuality::Balanced.settings();
    assert!(!balanced.lossy_compression);
    assert_eq!(balanced.color_depth, 24);
    assert_eq!(
        balanced.performance_flags,
        PERF_DISABLE_WALLPAPER | PERF_DISABLE_FULLWINDOWDRAG | PERF_ENABLE_FONT_SMOOTHING
            | PERF_ENABLE_DESKTOP_COMPOSITION
    );

    let perf = RdpQuality::Performance.settings();
    assert!(perf.lossy_compression);
    assert_eq!(perf.color_depth, 16);
    assert_eq!(perf.performance_flags, 0x8f);

    let low = RdpQuality::LowBandwidth.settings();
    assert!(low.lossy_compression);
    assert_eq!(low.color_depth, 8);
    assert_eq!(
        low.performance_flags,
        PERF_DISABLE_WALLPAPER | PERF_DISABLE_FULLWINDOWDRAG | PERF_DISABLE_MENUANIMATIONS | PERF_DISABLE_THEMING
            | PERF_DISABLE_CURSORSETTINGS
    );
}

#[test]
fn default_quality_is_high() {
    assert_eq!(RdpQuality::default(), RdpQuality::High);
}

#[test]
fn dirty_rect_new_encodes_payload() {
    let r = DirtyRect::new(1, 2, 3, 4, &[1, 2, 3]);
    assert_eq!((r.x, r.y, r.width, r.height), (1, 2, 3, 4));
    assert_eq!(r.data, "AQID");
    let padded = DirtyRect::new(0, 0, 0, 0, &[0xff]);
    assert_eq!(padded.data, "/w==");
    let empty = DirtyRect::new(0, 0, 0, 0, &[]);
    assert_eq!(empty.data, "");
}

#[test]
fn full_update_encodes_whole_screen() {
    match FrameUpdate::full(1, 1, &[1, 2, 3, 4]) {
        FrameUpdate::Full { width, height, data } => {
            assert_eq!((width, height), (1, 1));
            assert_eq!(data, "AQIDBA==");
        }
        _ => panic!("expected a full update"),
    }
}

#[test]
fn captured_payload_is_four_bytes_per_pixel_and_round_trips() {
    let mut fb = FrameBuffer::new(8, 8);
    let pixels: Vec<u8> = (0..=255).collect();
    fb.update_rect(0, 0, 8, 8, &pixels);
    let rect = DirtyRect::capture(&fb, 2, 3, 4, 2);
    let decoded = base64::engine::general_purpose::STANDARD.decode(&rect.data).unwrap();
    assert_eq!(decoded.len(), 4 * 2 * 4);
    assert_eq!(decoded, fb.extract_region(2, 3, 4, 2));
    let again = DirtyRect::capture(&fb, 2, 3, 4, 2);
    assert_eq!(again.data, rect.data);
    let reencoded = DirtyRect::new(2, 3, 4, 2, &decoded);
    assert_eq!(reencoded.data, rect.data);
}
