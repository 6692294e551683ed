use vstd::prelude::*;

use crate::display::Display;
use crate::error::{fold_timeout, folds_timeout, CaptureError, ErrorKind};
use crate::pixel_buffer::{Frame, PixelBuffer, Pixfmt};

verus! {

/// The desktop-duplication backend that a `Capturer` drives.
pub trait DxgiBackend: Sized {
    /// Starts capturing `display`.
    fn new(display: Display) -> Result<Self, CaptureError>;

    /// Leaves the GDI fallback.
    fn cancel_gdi(&mut self);

    /// Waits up to `timeout_ms` milliseconds for the next frame.
    fn frame<'a>(&'a mut self, timeout_ms: u32) -> Result<Frame<'a>, CaptureError>;

    /// Whether frames come through the GDI fallback.
    fn is_gdi(&self) -> bool;

    /// Switches to the GDI fallback; tells whether frames now come through it.
    fn set_gdi(&mut self) -> bool;
}

/// The wait handed to a backend for a timeout of `timeout_ms` milliseconds: the count cut
/// to 32 bits, as `as u32` cuts it.
pub fn backend_wait_ms(timeout_ms: u128) -> (w: u32)
    ensures
        w == timeout_ms as u32,
{
    timeout_ms as u32
}

/// Whether `r` is the frame handed out for the bytes `data` of a capture of the rectangle
/// `rect`: an `Other` error exactly when the rectangle has no rows, otherwise BGRA pixels of
/// the rectangle's width and height over those bytes.
pub open spec fn framed_from_rect<'a>(
    data: Seq<u8>,
    rect: ((i32, i32), usize, usize),
    r: Result<Frame<'a>, CaptureError>,
) -> bool {
    &&& (r is Err <==> rect.2 == 0)
    &&& r matches Err(e) ==> e.kind == ErrorKind::Other && e.message@ == Seq::<char>::empty()
    &&& r matches Ok(Frame::PixelBuffer(pb)) ==> {
        &&& pb.data_view() == data
        &&& pb.pixfmt_view() == Pixfmt::BGRA
        &&& pb.width_view() == rect.1
        &&& pb.height_view() == rect.2
        &&& pb.stride_view() == seq![(data.len() / (rect.2 as nat)) as usize]
    }
}

/// Whether `r` is what a capture that ended with `outcome` hands out: the capture's error
/// unchanged, or, after a successful capture, the frame `framed_from_rect` describes.
pub open spec fn framed_from_outcome<'a>(
    outcome: Result<(), CaptureError>,
    data: Seq<u8>,
    rect: ((i32, i32), usize, usize),
    r: Result<Frame<'a>, CaptureError>,
) -> bool {
    match outcome {
        Err(e) => r == Err::<Frame<'a>, CaptureError>(e),
        Ok(()) => framed_from_rect(data, rect, r),
    }
}

/// A Magnification frame is handed out only after a successful capture, with the
/// rectangle's width and height and at least one row; a failed capture's error comes back
/// unchanged.
pub proof fn law_mag_frame_only_after_capture<'a>(
    outcome: Result<(), CaptureError>,
    data: Seq<u8>,
    rect: ((i32, i32), usize, usize),
    r: Result<Frame<'a>, CaptureError>,
)
    requires
        framed_from_outcome(outcome, data, rect, r),
    ensures
        outcome matches Err(e) ==> r == Err::<Frame<'a>, CaptureError>(e),
        r is Ok ==> outcome is Ok && rect.2 > 0,
        r matches Ok(Frame::PixelBuffer(pb)) ==> pb.width_view() == rect.1 && pb.height_view()
            == rect.2 && pb.data_view() == data,
{
}

/// The wait handed to a backend is the millisecond count modulo 2^32, and the count itself
/// whenever it fits in 32 bits.
pub proof fn law_backend_wait_is_millisecond_count(timeout_ms: u128)
    ensures
        (timeout_ms as u32) as int == timeout_ms as int % 0x1_0000_0000,
        timeout_ms <= u32::MAX ==> (timeout_ms as u32) as int == timeout_ms as int,
{
    assert((timeout_ms as u32) as u128 == timeout_ms % 0x1_0000_0000) by (bit_vector);
}

/// The frame handed out for the bytes `data` of a capture of the rectangle `rect`
/// (`((x, y), width, height)`): BGRA pixels of the rectangle's size, or an `Other` error
/// when the rectangle has no rows.
pub fn frame_from_rect<'a>(data: &'a [u8], rect: ((i32, i32), usize, usize)) -> (r: Result<Frame<'a>, CaptureError>)
    ensures
        framed_from_rect(data@, rect, r),
        r is Err <==> rect.2 == 0,
        r matches Err(e) ==> e.kind == ErrorKind::Other && e.message@ == Seq::<char>::empty(),
        r matches Ok(Frame::PixelBuffer(pb)) ==> {
            &&& pb.data_view() == data@
            &&& pb.pixfmt_view() == Pixfmt::BGRA
            &&& pb.width_view() == rect.1
            &&& pb.height_view() == rect.2
            &&& pb.stride_view() == seq![(data@.len() / (rect.2 as nat)) as usize]
        },
{
    if rect.2 == 0 {
        Err(CaptureError::from_kind(ErrorKind::Other))
    } else {
        Ok(Frame::PixelBuffer(PixelBuffer::with_BGRA(data, rect.1, rect.2)))
    }
}

/// The frame handed out after a capture into `data` that ended with `outcome`, given the
/// backend's rectangle `rect`: a capture error comes back unchanged; after a successful
/// capture, what `frame_from_rect` makes of the bytes and the rectangle.
pub fn frame_from_outcome<'a>(
    outcome: Result<(), CaptureError>,
    data: &'a [u8],
    rect: ((i32, i32), usize, usize),
) -> (r: Result<Frame<'a>, CaptureError>)
    ensures
        framed_from_outcome(outcome, data@, rect, r),
        outcome matches Err(e) ==> r == Err::<Frame<'a>, CaptureError>(e),
        outcome is Ok ==> {
            &&& (r is Err <==> rect.2 == 0)
            &&& r matches Err(e) ==> e.kind == ErrorKind::Other && e.message@ == Seq::<char>::empty()
            &&& r matches Ok(Frame::PixelBuffer(pb)) ==> {
                &&& pb.data_view() == data@
                &&& pb.pixfmt_view() == Pixfmt::BGRA
                &&& pb.width_view() == rect.1
                &&& pb.height_view() == rect.2
                &&& pb.stride_view() == seq![(data@.len() / (rect.2 as nat)) as usize]
            }
        },
{
    match outcome {
        Err(e) => Err(e),
        Ok(()) => frame_from_rect(data, rect),
    }
}

/// A capture of one display, remembering the display's size.
pub struct Capturer<C> {
    inner: C,
    width: usize,
    height: usize,
}

impl<C: DxgiBackend> Capturer<C> {
    /// The width of the captured display, in pixels.
    pub closed spec fn width_view(&self) -> usize {
        self.width
    }

    /// The height of the captured display, in pixels.
    pub closed spec fn height_view(&self) -> usize {
        self.height
    }

    /// The backend that does the capturing.
    pub closed spec fn backend_view(&self) -> C {
        self.inner
    }

    /// Whether `r` is what starting a capturer of a `width` x `height` display gives when the
    /// backend's start gave `started`: the backend's error unchanged, or a capturer over the
    /// started backend that keeps that size.
    pub open spec fn assembled(
        width: usize,
        height: usize,
        started: Result<C, CaptureError>,
        r: Result<Self, CaptureError>,
    ) -> bool {
        match started {
            Err(e) => r == Err::<Self, CaptureError>(e),
            Ok(inner) => r matches Ok(c) && c.backend_view() == inner && c.width_view() == width
                && c.height_view() == height,
        }
    }

    /// A capturer is had exactly when the backend started, over that very backend; a failed
    /// start's error comes back unchanged.
    pub proof fn law_start_passes_backend_on(
        width: usize,
        height: usize,
        started: Result<C, CaptureError>,
        r: Result<Self, CaptureError>,
    )
        requires
            Self::assembled(width, height, started, r),
        ensures
            r is Ok <==> started is Ok,
            started matches Err(e) ==> r matches Err(f) && f == e,
            r matches Ok(c) ==> started == Ok::<C, CaptureError>(c.backend_view()),
    {
    }

    /// A capturer of a `width` x `height` display over the backend that starting it gave,
    /// or the backend's error unchanged.
    pub fn assemble(width: usize, height: usize, started: Result<C, CaptureError>) -> (r: Result<Capturer<C>, CaptureError>)
        ensures
            Self::assembled(width, height, started, r),
            started matches Err(e) ==> r == Err::<Capturer<C>, CaptureError>(e),
            started matches Ok(inner) ==> r matches Ok(c) && c.backend_view() == inner
                && c.width_view() == width && c.height_view() == height,
    {
        match started {
            Ok(inner) => Ok(Capturer { inner, width, height }),
            Err(e) => Err(e),
        }
    }

    /// Starts capturing `display`; the capturer keeps the display's size, read before the
    /// display is handed to the backend. A backend failure is passed on.
    pub fn new(display: Display) -> (r: Result<Capturer<C>, CaptureError>)
        ensures
            r matches Ok(c) ==> c.width_view() == display.width as usize && c.height_view()
                == display.height as usize,
            exists|started: Result<C, CaptureError>|
                #[trigger] call_ensures(C::new, (display,), started) && Self::assembled(
                    display.width as usize,
                    display.height as usize,
                    started,
                    r,
                ),
    {
        let width = display.width();
        let height = display.height();
        Self::assemble(width, height, C::new(display))
    }

    /// Leaves the GDI fallback: the backend's `cancel_gdi` is called on it.
    pub fn cancel_gdi(&mut self)
        ensures
            exists|m: &mut C|
                *m == old(self).backend_view() && mut_ref_future(m) == final(self).backend_view()
                    && #[trigger] call_ensures(C::cancel_gdi, (m,), ()),
            final(self).width_view() == old(self).width_view(),
            final(self).height_view() == old(self).height_view(),
    {
        self.inner.cancel_gdi()
    }

    /// The width of the captured display, in pixels.
    pub fn width(&self) -> (w: usize)
        ensures
            w == self.width_view(),
    {
        self.width
    }

    /// The height of the captured display, in pixels.
    pub fn height(&self) -> (h: usize)
        ensures
            h == self.height_view(),
    {
        self.height
    }

    /// The next frame, waiting up to `timeout_ms` milliseconds (the wait handed to the backend
    /// is `timeout_ms` cut to 32 bits, as `as u32` cuts it); a backend timeout is reported as
    /// `WouldBlock`, and every other outcome as the backend gave it.
    pub fn frame<'a>(&'a mut self, timeout_ms: u128) -> (r: Result<Frame<'a>, CaptureError>)
        ensures
            exists|m: &mut C, b: Result<Frame<'a>, CaptureError>|
                *m == old(self).backend_view() && mut_ref_future(m) == final(self).backend_view()
                    && #[trigger] call_ensures(C::frame, (m, timeout_ms as u32), b) && folds_timeout(b, r),
            final(self).width_view() == old(self).width_view(),
            final(self).height_view() == old(self).height_view(),
            r matches Err(e) ==> e.kind != ErrorKind::TimedOut,
    {
        let wait = backend_wait_ms(timeout_ms);
        fold_timeout(self.inner.frame(wait))
    }

    /// Whether frames come through the GDI fallback: the backend's answer.
    pub fn is_gdi(&self) -> (b: bool)
        ensures
            call_ensures(C::is_gdi, (&self.backend_view(),), b),
    {
        self.inner.is_gdi()
    }

    /// Switches to the GDI fallback; tells whether frames now come through it.
    pub fn set_gdi(&mut self) -> (b: bool)
        ensures
            exists|m: &mut C|
                *m == old(self).backend_view() && mut_ref_future(m) == final(self).backend_view()
                    && #[trigger] call_ensures(C::set_gdi, (m,), b),
            final(self).width_view() == old(self).width_view(),
            final(self).height_view() == old(self).height_view(),
    {
        self.inner.set_gdi()
    }
}

/// The Magnification backend that a `CapturerMag` drives.
pub trait MagBackend: Sized {
    /// Whether the Magnification API can be used here.
    fn is_supported() -> bool;

    /// Starts capturing the `width` x `height` rectangle at `origin`.
    fn new(origin: (i32, i32), width: usize, height: usize) -> Result<Self, CaptureError>;

    /// Leaves the window of class `cls` and title `name` out of the capture.
    fn exclude(&mut self, cls: &str, name: &str) -> Result<bool, CaptureError>;

    /// The captured rectangle: `((x, y), width, height)`.
    fn get_rect(&self) -> ((i32, i32), usize, usize);

    /// Captures the rectangle into `data` as BGRA bytes.
    fn frame(&mut self, data: &mut Vec<u8>) -> Result<(), CaptureError>;
}

/// A capture through the Magnification API, with the buffer its frames are written into.
pub struct CapturerMag<M> {
    inner: M,
    data: Vec<u8>,
}

impl<M: MagBackend> CapturerMag<M> {
    /// The bytes of the frame buffer.
    pub closed spec fn data_view(&self) -> Seq<u8> {
        self.data@
    }

    /// Whether the Magnification API can be used here: the backend's answer.
    pub fn is_supported() -> (b: bool)
        ensures
            call_ensures(M::is_supported, (), b),
    {
        M::is_supported()
    }

    /// The backend that does the capturing.
    pub closed spec fn backend_view(&self) -> M {
        self.inner
    }

    /// Whether `r` is what starting a capture gives when the backend's start gave `started`:
    /// the backend's error unchanged, or a capture over the started backend with an empty
    /// frame buffer.
    pub open spec fn assembled(started: Result<M, CaptureError>, r: Result<Self, CaptureError>) -> bool {
        match started {
            Err(e) => r == Err::<Self, CaptureError>(e),
            Ok(inner) => r matches Ok(c) && c.backend_view() == inner && c.data_view() == Seq::<u8>::empty(),
        }
    }

    /// A capture is had exactly when the backend started, over that very backend; a failed
    /// start's error comes back unchanged.
    pub proof fn law_start_passes_backend_on(started: Result<M, CaptureError>, r: Result<Self, CaptureError>)
        requires
            Self::assembled(started, r),
        ensures
            r is Ok <==> started is Ok,
            started matches Err(e) ==> r matches Err(f) && f == e,
            r matches Ok(c) ==> started == Ok::<M, CaptureError>(c.backend_view()),
    {
    }

    /// A capture over the backend that starting it gave, with an empty frame buffer, or the
    /// backend's error unchanged.
    pub fn assemble(started: Result<M, CaptureError>) -> (r: Result<Self, CaptureError>)
        ensures
            Self::assembled(started, r),
            started matches Err(e) ==> r == Err::<Self, CaptureError>(e),
            started matches Ok(inner) ==> r matches Ok(c) && c.backend_view() == inner
                && c.data_view() == Seq::<u8>::empty(),
    {
        match started {
            Ok(inner) => Ok(CapturerMag { inner, data: Vec::new() }),
            Err(e) => Err(e),
        }
    }

    /// Starts capturing the `width` x `height` rectangle at `origin`, with an empty frame
    /// buffer. A backend failure is passed on.
    pub fn new(origin: (i32, i32), width: usize, height: usize) -> (r: Result<Self, CaptureError>)
        ensures
            r matches Ok(c) ==> c.data_view() == Seq::<u8>::empty(),
            exists|started: Result<M, CaptureError>|
                #[trigger] call_ensures(M::new, (origin, width, height), started) && Self::assembled(started, r),
    {
        Self::assemble(M::new(origin, width, height))
    }

    /// Leaves the window of class `cls` and title `name` out of the capture: the backend's
    /// `exclude` is called with them, in that order, and its answer is returned.
    pub fn exclude(&mut self, cls: &str, name: &str) -> (r: Result<bool, CaptureError>)
        ensures
            exists|m: &mut M|
                *m == old(self).backend_view() && mut_ref_future(m) == final(self).backend_view()
                    && #[trigger] call_ensures(M::exclude, (m, cls, name), r),
            final(self).data_view() == old(self).data_view(),
    {
        self.inner.exclude(cls, name)
    }

    /// The captured rectangle: `((x, y), width, height)`, as the backend answers.
    pub fn get_rect(&self) -> (rect: ((i32, i32), usize, usize))
        ensures
            call_ensures(M::get_rect, (&self.backend_view(),), rect),
    {
        self.inner.get_rect()
    }

    /// Captures the next frame into the buffer, reads the backend's rectangle, and hands out
    /// what `frame_from_outcome` makes of the capture's outcome, the buffer and the rectangle:
    /// a capture error unchanged, BGRA pixels of the rectangle's size, or an `Other` error for
    /// a rectangle without rows.
    pub fn frame<'a>(&'a mut self) -> (r: Result<Frame<'a>, CaptureError>)
        ensures
            exists|m: &mut M, d: &mut Vec<u8>, outcome: Result<(), CaptureError>|
                *m == old(self).backend_view() && mut_ref_future(m) == final(self).backend_view()
                    && (*d)@ == old(self).data_view() && mut_ref_future(d)@ == final(self).data_view()
                    && #[trigger] call_ensures(M::frame, (m, d), outcome) && exists|
                    rect: ((i32, i32), usize, usize),
                |
                    #[trigger] call_ensures(M::get_rect, (&final(self).backend_view(),), rect)
                        && framed_from_outcome(outcome, final(self).data_view(), rect, r),
            r matches Ok(Frame::PixelBuffer(pb)) ==> {
                &&& pb.data_view() == final(self).data_view()
                &&& pb.pixfmt_view() == Pixfmt::BGRA
                &&& pb.height_view() > 0
                &&& pb.stride_view() == seq![(pb.data_view().len() / (pb.height_view() as nat)) as usize]
            },
    {
        let outcome = self.inner.frame(&mut self.data);
        let rect = self.inner.get_rect();
        frame_from_outcome(outcome, self.data.as_slice(), rect)
    }

    /// A Magnification capture never goes through GDI.
    pub fn is_gdi(&self) -> (b: bool)
        ensures
            !b,
    {
        false
    }

    /// A Magnification capture cannot switch to GDI; nothing changes.
    pub fn set_gdi(&mut self) -> (b: bool)
        ensures
            !b,
            *final(self) == *old(self),
    {
        false
    }
}

} // verus!
