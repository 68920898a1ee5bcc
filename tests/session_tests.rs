use mandelbrot::frame::{Frame, RenderError};
use mandelbrot::session::{Session, SessionState};

#[test]
fn session_lifecycle() {
    let mut s = Session::new();
    assert_eq!(s.state(), SessionState::Uninitialized);
    assert_eq!(s.device_acquired(true), Ok(()));
    assert_eq!(s.state(), SessionState::Ready);
    let d = s.begin_frame(2, 1, 100, 1, 2, 3).unwrap();
    assert_eq!(d.frame, Frame { width: 2, height: 1, max_iter: 100 });
    assert_eq!(d.byte_len, 8);
    assert_eq!(d.params, vec![2, 0, 0, 0, 1, 0, 0, 0, 100, 0, 0, 0, 1, 0, 0, 0, 2, 0, 0, 0, 3, 0, 0, 0]);
    assert_eq!(s.state(), SessionState::Dispatching { frame: d.frame });
    let px = s.finish_frame(&[1, 2, 3, 4, 5, 6, 7, 8, 0, 0, 0, 0]).unwrap();
    assert_eq!(px, vec![3, 2, 1, 4, 7, 6, 5, 8]);
    assert_eq!(s.state(), SessionState::Ready);
}

#[test]
fn session_without_device_fails() {
    let mut s = Session::new();
    assert!(matches!(s.begin_frame(1, 1, 1, 0, 0, 0), Err(RenderError::DeviceUnavailable)));
    assert_eq!(s.device_acquired(false), Err(RenderError::DeviceUnavailable));
    assert_eq!(s.state(), SessionState::Failed);
    assert!(matches!(s.begin_frame(1, 1, 1, 0, 0, 0), Err(RenderError::DeviceUnavailable)));
}

#[test]
fn session_rejects_bound_and_stays_ready() {
    let mut s = Session::new();
    s.device_acquired(true).unwrap();
    assert!(matches!(s.begin_frame(1, 1, 2001, 0, 0, 0), Err(RenderError::InvalidIterationBound)));
    assert_eq!(s.state(), SessionState::Ready);
    assert!(s.begin_frame(1, 1, 2000, 0, 0, 0).is_ok());
}

#[test]
fn session_rejects_oversized_frame() {
    let mut s = Session::new();
    s.device_acquired(true).unwrap();
    assert!(matches!(s.begin_frame(2048, 1024, 10, 0, 0, 0), Err(RenderError::DispatchFailure)));
    assert_eq!(s.state(), SessionState::Ready);
}

#[test]
fn session_one_frame_in_flight() {
    let mut s = Session::new();
    s.device_acquired(true).unwrap();
    s.begin_frame(1, 1, 10, 0, 0, 0).unwrap();
    assert!(matches!(s.begin_frame(1, 1, 10, 0, 0, 0), Err(RenderError::DispatchFailure)));
    s.abort_frame();
    assert_eq!(s.state(), SessionState::Ready);
}

#[test]
fn session_short_readback_fails_and_recovers() {
    let mut s = Session::new();
    s.device_acquired(true).unwrap();
    s.begin_frame(2, 2, 10, 0, 0, 0).unwrap();
    assert_eq!(s.finish_frame(&[0u8; 12]), Err(RenderError::DispatchFailure));
    assert_eq!(s.state(), SessionState::Ready);
}
