//! Screen capture: the captured image, and the macOS backend, which captures nothing yet.

use vstd::prelude::*;

verus! {

/// A captured screenshot image.
#[derive(Debug)]
pub struct CapturedImage {
    /// Image width in pixels.
    pub width: u32,
    /// Image height in pixels.
    pub height: u32,
    /// Raw RGBA pixel data.
    pub data: Vec<u8>,
}

/// An image with no pixels.
pub open spec fn is_empty_capture(c: CapturedImage) -> bool {
    c.width == 0 && c.height == 0 && c.data@.len() == 0
}

/// macOS screen capture backend.
pub struct MacOSScreenCapture;

impl MacOSScreenCapture {
    pub fn new() -> (r: Self)
        ensures
            r == MacOSScreenCapture,
    {
        MacOSScreenCapture
    }

    /// Capture the entire primary display: not implemented yet, so the image is empty.
    pub fn capture_fullscreen(&self) -> (r: CapturedImage)
        ensures
            is_empty_capture(r),
    {
        CapturedImage { width: 0, height: 0, data: Vec::new() }
    }

    /// Capture a rectangular region of the screen: not implemented yet, so the image is empty.
    pub fn capture_region(&self, x: u32, y: u32, w: u32, h: u32) -> (r: CapturedImage)
        ensures
            is_empty_capture(r),
    {
        CapturedImage { width: 0, height: 0, data: Vec::new() }
    }

    /// Capture a window by its platform id: not implemented yet, so the image is empty.
    pub fn capture_window(&self, window_id: u64) -> (r: CapturedImage)
        ensures
            is_empty_capture(r),
    {
        CapturedImage { width: 0, height: 0, data: Vec::new() }
    }
}

} // verus!
