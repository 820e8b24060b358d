use vstd::prelude::*;
use crate::encoding::{base64_of, base64_len, encode_base64, lemma_base64_len_monotonic};
use crate::framebuffer::{FrameBuffer, region_bytes, region_in_bounds, lemma_region_len, lemma_region_within};

verus! {

/// Where and as whom a remote-desktop session was opened.
#[derive(Debug, Clone)]
pub struct RdpConnectionInfo {
    pub host: String,
    pub port: u16,
    pub username: String,
    pub domain: Option<String>,
}

/// Picture-quality preset chosen when connecting.
#[derive(Debug, Clone, Copy, PartialEq, Eq, Structural)]
pub enum RdpQuality {
    Ultra,
    High,
    Balanced,
    Performance,
    LowBandwidth,
}

/// Performance flag: no desktop wallpaper.
pub const PERF_DISABLE_WALLPAPER: u32 = 0x0000_0001;
/// Performance flag: no window contents while dragging.
pub const PERF_DISABLE_FULLWINDOWDRAG: u32 = 0x0000_0002;
/// Performance flag: no menu animations.
pub const PERF_DISABLE_MENUANIMATIONS: u32 = 0x0000_0004;
/// Performance flag: no visual themes.
pub const PERF_DISABLE_THEMING: u32 = 0x0000_0008;
/// Performance flag: no cursor blinking and similar settings.
pub const PERF_DISABLE_CURSORSETTINGS: u32 = 0x0000_0040;
/// Performance flag: font smoothing on.
pub const PERF_ENABLE_FONT_SMOOTHING: u32 = 0x0000_0080;
/// Performance flag: desktop composition on.
pub const PERF_ENABLE_DESKTOP_COMPOSITION: u32 = 0x0000_0100;

/// What a quality preset asks of the server.
#[derive(Debug, Clone, Copy, PartialEq, Eq, Structural)]
pub struct QualitySettings {
    pub lossy_compression: bool,
    pub color_depth: u32,
    pub performance_flags: u32,
}

/// Whether the preset allows lossy bitmap compression.
pub open spec fn spec_lossy(q: RdpQuality) -> bool {
    match q {
        RdpQuality::Performance | RdpQuality::LowBandwidth => true,
        _ => false,
    }
}

/// Bits per pixel that the preset asks for.
pub open spec fn spec_color_depth(q: RdpQuality) -> u32 {
    match q {
        RdpQuality::Ultra => 32,
        RdpQuality::High => 32,
        RdpQuality::Balanced => 24,
        RdpQuality::Performance => 16,
        RdpQuality::LowBandwidth => 8,
    }
}

/// The performance flag set of the preset.
pub open spec fn spec_performance_flags(q: RdpQuality) -> u32 {
    match q {
        RdpQuality::Ultra => PERF_ENABLE_FONT_SMOOTHING | PERF_ENABLE_DESKTOP_COMPOSITION,
        RdpQuality::High => PERF_ENABLE_FONT_SMOOTHING | PERF_ENABLE_DESKTOP_COMPOSITION,
        RdpQuality::Balanced => PERF_DISABLE_WALLPAPER | PERF_DISABLE_FULLWINDOWDRAG | PERF_ENABLE_FONT_SMOOTHING
            | PERF_ENABLE_DESKTOP_COMPOSITION,
        RdpQuality::Performance => PERF_DISABLE_WALLPAPER | PERF_DISABLE_FULLWINDOWDRAG
            | PERF_DISABLE_MENUANIMATIONS | PERF_DISABLE_THEMING | PERF_ENABLE_FONT_SMOOTHING,
        RdpQuality::LowBandwidth => PERF_DISABLE_WALLPAPER | PERF_DISABLE_FULLWINDOWDRAG
            | PERF_DISABLE_MENUANIMATIONS | PERF_DISABLE_THEMING | PERF_DISABLE_CURSORSETTINGS,
    }
}

impl RdpQuality {
    /// Compression, colour depth and performance flags of this preset.
    pub fn settings(self) -> (r: QualitySettings)
        ensures
            r.lossy_compression == spec_lossy(self),
            r.color_depth == spec_color_depth(self),
            r.performance_flags == spec_performance_flags(self),
    {
        match self {
            RdpQuality::Ultra => QualitySettings {
                lossy_compression: false,
                color_depth: 32,
                performance_flags: PERF_ENABLE_FONT_SMOOTHING | PERF_ENABLE_DESKTOP_COMPOSITION,
            },
            RdpQuality::High => QualitySettings {
                lossy_compression: false,
                color_depth: 32,
                performance_flags: PERF_ENABLE_FONT_SMOOTHING | PERF_ENABLE_DESKTOP_COMPOSITION,
            },
            RdpQuality::Balanced => QualitySettings {
                lossy_compression: false,
                color_depth: 24,
                performance_flags: PERF_DISABLE_WALLPAPER | PERF_DISABLE_FULLWINDOWDRAG
                    | PERF_ENABLE_FONT_SMOOTHING | PERF_ENABLE_DESKTOP_COMPOSITION,
            },
            RdpQuality::Performance => QualitySettings {
                lossy_compression: true,
                color_depth: 16,
                performance_flags: PERF_DISABLE_WALLPAPER | PERF_DISABLE_FULLWINDOWDRAG
                    | PERF_DISABLE_MENUANIMATIONS | PERF_DISABLE_THEMING | PERF_ENABLE_FONT_SMOOTHING,
            },
            RdpQuality::LowBandwidth => QualitySettings {
                lossy_compression: true,
                color_depth: 8,
                performance_flags: PERF_DISABLE_WALLPAPER | PERF_DISABLE_FULLWINDOWDRAG
                    | PERF_DISABLE_MENUANIMATIONS | PERF_DISABLE_THEMING | PERF_DISABLE_CURSORSETTINGS,
            },
        }
    }
}

impl Default for RdpQuality {
    fn default() -> (r: Self)
        ensures
            r == RdpQuality::High,
    {
        RdpQuality::High
    }
}

/// A changed screen region with its pixels, base64-encoded for transport.
#[derive(Debug, Clone)]
pub struct DirtyRect {
    pub x: u16,
    pub y: u16,
    pub width: u16,
    pub height: u16,
    pub data: String,
}

impl DirtyRect {
    /// True when this rectangle lies inside `fb` and carries exactly the pixels that
    /// `fb` holds over it.
    pub open spec fn shows(self, fb: FrameBuffer) -> bool {
        &&& region_in_bounds(
            fb.width as int,
            fb.height as int,
            self.x as int,
            self.y as int,
            self.width as int,
            self.height as int,
        )
        &&& self.data@ == base64_of(
            region_bytes(fb.data@, fb.width as int, self.x as int, self.y as int, self.width as int, self.height as int),
        )
    }

    /// A rectangle at (x, y) of the given size, carrying `rgba_data` encoded.
    pub fn new(x: u16, y: u16, width: u16, height: u16, rgba_data: &[u8]) -> (r: Self)
        requires
            base64_len(rgba_data@.len() as int) <= usize::MAX,
        ensures
            r.x == x,
            r.y == y,
            r.width == width,
            r.height == height,
            r.data@ == base64_of(rgba_data@),
    {
        DirtyRect { x, y, width, height, data: encode_base64(rgba_data) }
    }

    /// The rectangle at (x, y) of the given size, with the pixels that `fb` holds there now.
    pub fn capture(fb: &FrameBuffer, x: u16, y: u16, width: u16, height: u16) -> (r: Self)
        requires
            fb.wf(),
            region_in_bounds(fb.width as int, fb.height as int, x as int, y as int, width as int, height as int),
        ensures
            r.x == x,
            r.y == y,
            r.width == width,
            r.height == height,
            r.shows(*fb),
    {
        let pixels = fb.extract_region(x, y, width, height);
        proof {
            lemma_region_len(fb.data@, fb.width as int, fb.height as int, x as int, y as int, width as int, height as int);
            lemma_region_within(fb.width as int, fb.height as int, width as int, height as int);
            lemma_base64_len_monotonic(pixels@.len() as int, fb.data@.len() as int);
        }
        DirtyRect::new(x, y, width, height, pixels.as_slice())
    }
}

/// What the presentation layer receives: the whole screen once, then changed regions.
#[derive(Debug, Clone)]
pub enum FrameUpdate {
    Full { width: u16, height: u16, data: String },
    Partial { rects: Vec<DirtyRect> },
}

impl FrameUpdate {
    /// The whole screen, `rgba_data` encoded.
    pub fn full(width: u16, height: u16, rgba_data: &[u8]) -> (r: Self)
        requires
            base64_len(rgba_data@.len() as int) <= usize::MAX,
        ensures
            r == (FrameUpdate::Full { width, height, data: r->Full_data }),
            r->Full_data@ == base64_of(rgba_data@),
    {
        FrameUpdate::Full { width, height, data: encode_base64(rgba_data) }
    }

    /// The whole of `fb`.
    pub fn of_frame(fb: &FrameBuffer) -> (r: Self)
        requires
            fb.wf(),
        ensures
            r == (FrameUpdate::Full { width: fb.width, height: fb.height, data: r->Full_data }),
            r->Full_data@ == base64_of(fb.data@),
    {
        FrameUpdate::full(fb.width, fb.height, fb.data.as_slice())
    }
}

/// Capturing the same region of an unchanged buffer twice yields the same rectangle,
/// and its payload before encoding is four bytes per pixel.
pub proof fn lemma_capture_stable(fb: FrameBuffer, a: DirtyRect, b: DirtyRect)
    requires
        fb.wf(),
        a.shows(fb),
        b.shows(fb),
        a.x == b.x && a.y == b.y && a.width == b.width && a.height == b.height,
    ensures
        a.data@ == b.data@,
        region_bytes(fb.data@, fb.width as int, a.x as int, a.y as int, a.width as int, a.height as int).len()
            == a.width * a.height * 4,
{
    lemma_region_len(fb.data@, fb.width as int, fb.height as int, a.x as int, a.y as int, a.width as int, a.height as int);
}

} // verus!
