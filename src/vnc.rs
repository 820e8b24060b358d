use vstd::prelude::*;

pub use crate::framebuffer::FrameBuffer;

verus! {

/// Where a VNC session was opened.
#[derive(Debug, Clone)]
pub struct VncConnectionInfo {
    pub host: String,
    pub port: u16,
}

/// A local input event to forward to a VNC server.
#[derive(Debug, Clone, Copy, PartialEq, Eq, Structural)]
pub enum InputEvent {
    Pointer { x: u16, y: u16, button_mask: u8 },
    Key { key: u32, down: bool },
}

} // verus!
