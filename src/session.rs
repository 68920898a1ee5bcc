//! The decisions of a device session. The caller owns the device and its
//! buffers; it reports what happened and performs what the session asks.
//!
//! A session starts `Uninitialized`, becomes `Ready` once a device is
//! acquired or `Failed` when none is, and goes `Ready -> Dispatching -> Ready`
//! for each frame. Only one frame is in flight at a time.

use vstd::prelude::*;
use crate::frame::{Frame, RenderError, MAX_ITER_LIMIT, OUTPUT_CAPACITY};
use crate::marshal::{encodes_le, param_block, pixel_swapped, read_frame};

verus! {

#[derive(Clone, Copy, Debug, PartialEq, Eq, Structural)]
pub enum SessionState {
    Uninitialized,
    Ready,
    Dispatching { frame: Frame },
    Failed,
}

/// What the caller must do for one frame: write `params` to the kernel's
/// parameter binding, dispatch a `(frame.width, frame.height, 1)` grid, and
/// read back the first `byte_len` bytes of the output buffer.
pub struct Dispatch {
    pub frame: Frame,
    pub params: Vec<u8>,
    pub byte_len: usize,
}

pub struct Session {
    state: SessionState,
}

impl View for Session {
    type V = SessionState;

    closed spec fn view(&self) -> SessionState {
        self.state
    }
}

impl Session {
    pub fn new() -> (r: Session)
        ensures
            r@ == SessionState::Uninitialized,
    {
        Session { state: SessionState::Uninitialized }
    }

    pub fn state(&self) -> (r: SessionState)
        ensures
            r == self@,
    {
        self.state
    }

    /// Records the outcome of device acquisition: `Ready` when a device was
    /// found, else `Failed` with `DeviceUnavailable`, which is final.
    pub fn device_acquired(&mut self, found: bool) -> (r: Result<(), RenderError>)
        requires
            old(self)@ == SessionState::Uninitialized,
        ensures
            found ==> r == Ok::<(), RenderError>(()) && final(self)@ == SessionState::Ready,
            !found ==> r == Err::<(), RenderError>(RenderError::DeviceUnavailable) && final(self)@
                == SessionState::Failed,
    {
        if found {
            self.state = SessionState::Ready;
            Ok(())
        } else {
            self.state = SessionState::Failed;
            Err(RenderError::DeviceUnavailable)
        }
    }

    /// Starts a frame. A session without a device answers
    /// `DeviceUnavailable`, one with a frame in flight `DispatchFailure`. A
    /// ready session rejects an iteration bound above the limit with
    /// `InvalidIterationBound` and a frame larger than the output buffer with
    /// `DispatchFailure`, and stays ready; otherwise it hands out the frame's
    /// parameter block and enters `Dispatching`.
    pub fn begin_frame(
        &mut self,
        width: u32,
        height: u32,
        max_iter: u32,
        center_re_bits: u32,
        center_im_bits: u32,
        zoom_bits: u32,
    ) -> (r: Result<Dispatch, RenderError>)
        ensures
            (old(self)@ is Uninitialized || old(self)@ is Failed) ==> r == Err::<Dispatch, RenderError>(
                RenderError::DeviceUnavailable,
            ) && final(self)@ == old(self)@,
            old(self)@ is Dispatching ==> r == Err::<Dispatch, RenderError>(RenderError::DispatchFailure)
                && final(self)@ == old(self)@,
            old(self)@ is Ready && max_iter > MAX_ITER_LIMIT ==> r == Err::<Dispatch, RenderError>(
                RenderError::InvalidIterationBound,
            ) && final(self)@ == old(self)@,
            old(self)@ is Ready && max_iter <= MAX_ITER_LIMIT && crate::frame::frame_bytes(width, height)
                > OUTPUT_CAPACITY ==> r == Err::<Dispatch, RenderError>(RenderError::DispatchFailure)
                && final(self)@ == old(self)@,
            old(self)@ is Ready && max_iter <= MAX_ITER_LIMIT && crate::frame::frame_bytes(width, height)
                <= OUTPUT_CAPACITY ==> r is Ok,
            r matches Ok(d) ==> {
                &&& d.frame == (Frame { width, height, max_iter })
                &&& final(self)@ == (SessionState::Dispatching { frame: d.frame })
                &&& d.byte_len == d.frame.bytes()
                &&& encodes_le(seq![width, height, max_iter, center_re_bits, center_im_bits, zoom_bits], d.params@)
            },
    {
        match self.state {
            SessionState::Ready => {},
            SessionState::Dispatching { .. } => {
                return Err(RenderError::DispatchFailure);
            },
            _ => {
                return Err(RenderError::DeviceUnavailable);
            },
        }
        let frame = match Frame::new(width, height, max_iter) {
            Ok(f) => f,
            Err(e) => {
                return Err(e);
            },
        };
        let byte_len = match frame.device_bytes() {
            Ok(n) => n,
            Err(e) => {
                return Err(e);
            },
        };
        let params = param_block(&frame, center_re_bits, center_im_bits, zoom_bits);
        self.state = SessionState::Dispatching { frame };
        Ok(Dispatch { frame, params, byte_len })
    }

    /// Ends the frame in flight with the device's output buffer, stored as
    /// BGRA: the frame's RGBA pixels, or `DispatchFailure` when the buffer is
    /// shorter than the frame. Either way the session is ready again.
    pub fn finish_frame(&mut self, device_data: &[u8]) -> (r: Result<Vec<u8>, RenderError>)
        requires
            old(self)@ is Dispatching,
        ensures
            final(self)@ == SessionState::Ready,
            ({
                let frame = old(self)@->Dispatching_frame;
                &&& r is Err <==> device_data@.len() < frame.bytes()
                &&& r matches Err(e) ==> e == RenderError::DispatchFailure
                &&& r matches Ok(px) ==> px@.len() == frame.bytes() && forall|k: int|
                    0 <= k < frame.pixels() ==> #[trigger] pixel_swapped(device_data@, px@, k)
            }),
    {
        let frame = match self.state {
            SessionState::Dispatching { frame } => frame,
            _ => Frame { width: 0, height: 0, max_iter: 0 },
        };
        self.state = SessionState::Ready;
        read_frame(&frame, device_data)
    }

    /// Abandons the frame in flight after a failed submission or readback;
    /// the session is ready again.
    pub fn abort_frame(&mut self)
        requires
            old(self)@ is Dispatching,
        ensures
            final(self)@ == SessionState::Ready,
    {
        self.state = SessionState::Ready;
    }
}

} // verus!
