use base64::Engine;
use openterm_rdp::frame::{DirtyRect, FrameUpdate, RdpConnectionInfo, RdpQuality};
use openterm_rdp::framebuffer::FrameBuffer;
use openterm_rdp::manager::RdpManager;
use openterm_rdp::pacing::{
    frame_interval, FramePacer, StepEvent, TickOutcome, ACTIVE_INTERVAL_MS, IDLE_INTERVAL_MS,
};
use openterm_rdp::session::{RdpError, RdpClient, StageOutput};

fn screen(w: u16, h: u16) -> FrameBuffer {
    let mut fb = FrameBuffer::new(w, h);
    let pixels: Vec<u8> = (0..(w as usize * h as usize * 4)).map(|i| (i % 241) as u8).collect();
    fb.update_rect(0, 0, w, h, &pixels);
    fb
}

fn rect(x: u16, y: u16, w: u16, h: u16, fb: &FrameBuffer) -> DirtyRect {
    DirtyRect::capture(fb, x, y, w, h)
}

#[test]
fn interval_table() {
    assert_eq!(frame_interval(false, false), 200);
    assert_eq!(frame_interval(true, false), 50);
    assert_eq!(frame_interval(false, true), 50);
    assert_eq!(frame_interval(true, true), 50);
}

#[test]
fn idle_then_active_interval() {
    let fb = screen(8, 8);
    let mut p = FramePacer::new(8, 8, 0);
    assert_eq!(p.current_interval(1000), ACTIVE_INTERVAL_MS);
    assert_eq!(p.current_interval(5000), IDLE_INTERVAL_MS);
    p.note_input(5000);
    assert_eq!(p.current_interval(5001), ACTIVE_INTERVAL_MS);
    assert_eq!(p.current_interval(7001), IDLE_INTERVAL_MS);
    p.tick(StepEvent::NoUpdate, 7001, &fb);
    p.tick(StepEvent::Updated(vec![rect(0, 0, 1, 1, &fb)]), 7002, &fb);
    assert_eq!(p.current_interval(7003), ACTIVE_INTERVAL_MS);
}

#[test]
fn first_quiet_tick_sends_full_frame_once() {
    let fb = screen(4, 2);
    let mut p = FramePacer::new(4, 2, 0);
    match p.tick(StepEvent::NoUpdate, 1, &fb) {
        TickOutcome::Continue(Some(FrameUpdate::Full { width, height, data })) => {
            assert_eq!((width, height), (4, 2));
            assert_eq!(base64::engine::general_purpose::STANDARD.decode(data).unwrap(), fb.data);
        }
        _ => panic!("expected the full frame"),
    }
    assert!(matches!(p.tick(StepEvent::NoUpdate, 500, &fb), TickOutcome::Continue(None)));
}

#[test]
fn continuous_updates_still_send_exactly_one_full_frame_first() {
    let fb = screen(16, 16);
    let mut p = FramePacer::new(16, 16, 0);
    let mut fulls = 0;
    let mut partials = 0;
    for t in 0..20u64 {
        match p.tick(StepEvent::Updated(vec![rect(0, 0, 2, 2, &fb)]), t * 30, &fb) {
            TickOutcome::Continue(Some(FrameUpdate::Full { .. })) => {
                assert_eq!(partials, 0);
                fulls += 1;
            }
            TickOutcome::Continue(Some(FrameUpdate::Partial { rects })) => {
                assert!(!rects.is_empty());
                partials += 1;
            }
            TickOutcome::Continue(None) => {}
            TickOutcome::Stop(_) => panic!("no failure was given"),
        }
    }
    assert_eq!(fulls, 1);
    assert!(partials > 0);
}

#[test]
fn failure_stops_the_loop() {
    let fb = screen(2, 2);
    let mut p = FramePacer::new(2, 2, 0);
    assert!(matches!(
        p.tick(StepEvent::Failed(RdpError::ConnectionClosed), 1, &fb),
        TickOutcome::Stop(RdpError::ConnectionClosed)
    ));
}

#[test]
fn overlapping_updates_in_one_tick_coalesce() {
    let fb = screen(100, 100);
    let mut p = FramePacer::new(100, 100, 0);
    p.tick(StepEvent::NoUpdate, 0, &fb);
    let first = p.tick(StepEvent::Updated(vec![rect(0, 0, 50, 50, &fb)]), 10, &fb);
    assert!(matches!(first, TickOutcome::Continue(None)));
    match p.tick(StepEvent::Updated(vec![rect(30, 30, 50, 50, &fb)]), 60, &fb) {
        TickOutcome::Continue(Some(FrameUpdate::Partial { rects })) => {
            assert_eq!(rects.len(), 1);
            assert_eq!((rects[0].x, rects[0].y, rects[0].width, rects[0].height), (0, 0, 80, 80));
        }
        _ => panic!("expected a partial update"),
    }
}

#[test]
fn connect_then_full_then_partial() {
    let settings = RdpQuality::Performance.settings();
    assert!(settings.lossy_compression);
    assert_eq!(settings.color_depth, 16);

    let info = RdpConnectionInfo {
        host: "desk".to_string(),
        port: 3389,
        username: "me".to_string(),
        domain: Some("corp".to_string()),
    };
    let mut manager: RdpManager<()> = RdpManager::new();
    let id = "s1".to_string();
    assert_eq!(manager.create_session(id.clone(), RdpClient::new(info, 1024, 768), ()), (1024, 768));
    assert_eq!(manager.get_dimensions(&id), Ok((1024, 768)));

    let fb = screen(1024, 768);
    let mut pacer = FramePacer::new(1024, 768, 0);
    match pacer.tick(StepEvent::NoUpdate, 5, &fb) {
        TickOutcome::Continue(Some(FrameUpdate::Full { width, height, .. })) => assert_eq!((width, height), (1024, 768)),
        _ => panic!("expected the full frame first"),
    }

    let step = manager
        .handle_outputs(&id, vec![StageOutput::GraphicsUpdate { left: 10, top: 10, right: 109, bottom: 59 }], &fb)
        .unwrap();
    let rects = step.update.expect("an update");
    match pacer.tick(StepEvent::Updated(rects), 100, &fb) {
        TickOutcome::Continue(Some(FrameUpdate::Partial { rects })) => {
            assert_eq!(rects.len(), 1);
            assert_eq!((rects[0].x, rects[0].y, rects[0].width, rects[0].height), (10, 10, 100, 50));
        }
        _ => panic!("expected a partial update"),
    }
}
