use vstd::prelude::*;

verus! {

/// The largest iteration bound that a frame may ask for.
pub const MAX_ITER_LIMIT: u32 = 2000;

/// Capacity in bytes of the device's persistent output buffer.
pub const OUTPUT_CAPACITY: usize = 4194304;

/// The ways a render request can fail.
#[derive(Clone, Copy, Debug, PartialEq, Eq, Structural)]
pub enum RenderError {
    /// The iteration bound exceeds `MAX_ITER_LIMIT`.
    InvalidIterationBound,
    /// No compatible device could be acquired.
    DeviceUnavailable,
    /// The drawing surface is missing or of the wrong kind.
    SurfaceUnavailable,
    /// Device work could not be submitted or read back.
    DispatchFailure,
}

/// The integer part of a viewport: pixel dimensions and iteration bound.
#[derive(Clone, Copy, Debug, PartialEq, Eq, Structural)]
pub struct Frame {
    pub width: u32,
    pub height: u32,
    pub max_iter: u32,
}

/// Number of pixels of a `width` by `height` frame.
pub open spec fn pixel_count(width: u32, height: u32) -> nat {
    (width as nat) * (height as nat)
}

/// Number of RGBA8 bytes of a `width` by `height` frame.
pub open spec fn frame_bytes(width: u32, height: u32) -> nat {
    4 * pixel_count(width, height)
}

impl Frame {
    /// A frame is valid when its iteration bound is within the limit.
    pub open spec fn wf(&self) -> bool {
        self.max_iter <= MAX_ITER_LIMIT
    }

    pub open spec fn pixels(&self) -> nat {
        pixel_count(self.width, self.height)
    }

    pub open spec fn bytes(&self) -> nat {
        frame_bytes(self.width, self.height)
    }

    /// Builds a frame, rejecting an iteration bound above `MAX_ITER_LIMIT`
    /// before anything else is done.
    pub fn new(width: u32, height: u32, max_iter: u32) -> (r: Result<Frame, RenderError>)
        ensures
            max_iter <= MAX_ITER_LIMIT ==> r == Ok::<Frame, RenderError>(
                Frame { width, height, max_iter },
            ),
            max_iter > MAX_ITER_LIMIT ==> r == Err::<Frame, RenderError>(
                RenderError::InvalidIterationBound,
            ),
    {
        if max_iter > MAX_ITER_LIMIT {
            Err(RenderError::InvalidIterationBound)
        } else {
            Ok(Frame { width, height, max_iter })
        }
    }

    /// The frame's size in RGBA8 bytes, when it fits the device's output
    /// buffer; `DispatchFailure` otherwise.
    pub fn device_bytes(&self) -> (r: Result<usize, RenderError>)
        ensures
            self.bytes() <= OUTPUT_CAPACITY ==> r == Ok::<usize, RenderError>(
                self.bytes() as usize,
            ),
            self.bytes() > OUTPUT_CAPACITY ==> r == Err::<usize, RenderError>(
                RenderError::DispatchFailure,
            ),
    {
        let w: u64 = self.width as u64;
        let h: u64 = self.height as u64;
        assert(w * h <= 0xffff_ffff_u64 * 0xffff_ffff_u64) by (nonlinear_arith)
            requires
                w <= 0xffff_ffff_u64,
                h <= 0xffff_ffff_u64,
        ;
        let n: u64 = w * h;
        if n > (OUTPUT_CAPACITY as u64) / 4 {
            Err(RenderError::DispatchFailure)
        } else {
            Ok((4 * n) as usize)
        }
    }
}

} // verus!
