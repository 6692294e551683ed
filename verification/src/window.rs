use vstd::prelude::*;

use crate::error::{CaptureError, ErrorKind};
use crate::pixel_buffer::{Frame, PixelBuffer, Pixfmt};

verus! {

/// Reports `WouldBlock` when `b` holds the same bytes as `last`; otherwise keeps a copy of `b`
/// in `last` and succeeds.
pub fn would_block_if_equal(last: &mut Vec<u8>, b: &[u8]) -> (r: Result<(), CaptureError>)
    ensures
        old(last)@ == b@ ==> {
            &&& r is Err
            &&& r->Err_0.kind == ErrorKind::WouldBlock
            &&& final(last)@ == old(last)@
        },
        old(last)@ != b@ ==> {
            &&& r is Ok
            &&& final(last)@ == b@
        },
{
    if last.len() == b.len() {
        let mut i: usize = 0;
        let mut same = true;
        while i < b.len()
            invariant
                0 <= i <= b.len(),
                last.len() == b.len(),
                same == (forall|k: int| 0 <= k < i ==> last@[k] == b@[k]),
            decreases b.len() - i,
        {
            if last[i] != b[i] {
                same = false;
            }
            i += 1;
        }
        if same {
            assert(last@ =~= b@);
            return Err(CaptureError::from_kind(ErrorKind::WouldBlock));
        }
    }
    last.clear();
    let mut i: usize = 0;
    while i < b.len()
        invariant
            0 <= i <= b.len(),
            last@ == b@.take(i as int),
        decreases b.len() - i,
    {
        last.push(b[i]);
        assert(last@ =~= b@.take(i + 1));
        i += 1;
    }
    assert(b@.take(i as int) =~= b@);
    Ok(())
}

/// What one GDI capture attempt of a window produced: `PrintWindow` failed, the copy out of
/// the bitmap (`GetDIBits`) failed, or the bitmap's top-down BGRA bytes.
pub enum GdiCapture {
    PrintFailed,
    CopyFailed,
    Copied(Vec<u8>),
}

/// The bytes a capture attempt copied out of the bitmap, if it got that far.
pub open spec fn captured_bits(capture: GdiCapture) -> Option<Seq<u8>> {
    match capture {
        GdiCapture::Copied(bits) => Some(bits@),
        _ => None,
    }
}

/// Whether an attempt that captured `captured` hands out a frame, given the bytes `last` of
/// the last frame handed out: only copied bytes that differ from `last` are handed out.
pub open spec fn hands_out(last: Seq<u8>, captured: Option<Seq<u8>>) -> bool {
    match captured {
        Some(bits) => bits != last,
        None => false,
    }
}

/// The bytes of the last frame handed out after such an attempt.
pub open spec fn last_after(last: Seq<u8>, captured: Option<Seq<u8>>) -> Seq<u8> {
    match captured {
        Some(bits) => if bits != last {
            bits
        } else {
            last
        },
        None => last,
    }
}

/// Contents handed out once are not handed out again by the next attempt that copies the
/// same bytes: that attempt reports `WouldBlock`.
pub proof fn law_same_contents_not_handed_out_twice(last: Seq<u8>, bits: Seq<u8>)
    requires
        hands_out(last, Some(bits)),
    ensures
        !hands_out(last_after(last, Some(bits)), Some(bits)),
{
}

/// The bytes of the last frame handed out after a run of attempts, taken in order.
pub open spec fn last_after_all(last: Seq<u8>, captures: Seq<Option<Seq<u8>>>) -> Seq<u8>
    decreases captures.len(),
{
    if captures.len() == 0 {
        last
    } else {
        last_after(last_after_all(last, captures.drop_last()), captures.last())
    }
}

/// Attempts that hand nothing out leave the last frame as it was.
proof fn lemma_quiet_run_keeps_last(shown: Seq<u8>, between: Seq<Option<Seq<u8>>>)
    requires
        forall|k: int|
            0 <= k < between.len() ==> !hands_out(
                last_after_all(shown, between.take(k)),
                #[trigger] between[k],
            ),
    ensures
        last_after_all(shown, between) == shown,
    decreases between.len(),
{
    if between.len() > 0 {
        let front = between.drop_last();
        assert forall|k: int| 0 <= k < front.len() implies !hands_out(
            last_after_all(shown, front.take(k)),
            #[trigger] front[k],
        ) by {
            assert(front.take(k) =~= between.take(k));
            assert(front[k] == between[k]);
        }
        lemma_quiet_run_keeps_last(shown, front);
        let k = between.len() - 1;
        assert(between.take(k) =~= front);
        assert(!hands_out(last_after_all(shown, between.take(k)), between[k]));
    }
}

/// A window capture never hands out the same image twice in a row: after a frame with bytes
/// `shown`, and any run of attempts that hand nothing out, the next frame handed out differs
/// from `shown`.
pub proof fn law_no_image_handed_out_twice_in_a_row(
    shown: Seq<u8>,
    between: Seq<Option<Seq<u8>>>,
    next: Seq<u8>,
)
    requires
        forall|k: int|
            0 <= k < between.len() ==> !hands_out(
                last_after_all(shown, between.take(k)),
                #[trigger] between[k],
            ),
        hands_out(last_after_all(shown, between), Some(next)),
    ensures
        next != shown,
{
    lemma_quiet_run_keeps_last(shown, between);
}

/// A capture with no pixels never hands a frame out: when every attempt copies no bytes or
/// fails, no attempt of the run hands out a frame and the last frame stays empty.
pub proof fn law_zero_area_never_hands_out(captures: Seq<Option<Seq<u8>>>)
    requires
        forall|k: int| 0 <= k < captures.len() ==> (#[trigger] captures[k] matches Some(bits) ==> bits.len() == 0),
    ensures
        forall|k: int|
            0 <= k < captures.len() ==> !hands_out(
                last_after_all(Seq::empty(), captures.take(k)),
                #[trigger] captures[k],
            ),
        last_after_all(Seq::empty(), captures) == Seq::<u8>::empty(),
    decreases captures.len(),
{
    if captures.len() > 0 {
        let front = captures.drop_last();
        assert forall|k: int| 0 <= k < front.len() implies (#[trigger] front[k] matches Some(bits) ==> bits.len() == 0) by {
            assert(front[k] == captures[k]);
        }
        law_zero_area_never_hands_out(front);
        let n = captures.len() - 1;
        assert(captures.take(n) =~= front);
        if let Some(bits) = captures[n] {
            assert(bits =~= Seq::<u8>::empty());
        }
        assert forall|k: int| 0 <= k < captures.len() implies !hands_out(
            last_after_all(Seq::empty(), captures.take(k)),
            #[trigger] captures[k],
        ) by {
            if k < n {
                assert(captures.take(k) =~= front.take(k));
                assert(front[k] == captures[k]);
            }
        }
    }
}

/// The state of a single-window capture: the window handle, the capture size, the buffer the
/// bitmap is copied into (four bytes per pixel) and the bytes of the last frame handed out.
pub struct WindowCapturer {
    hwnd: isize,
    width: usize,
    height: usize,
    data: Vec<u8>,
    old: Vec<u8>,
}

impl WindowCapturer {
    /// The buffer holds four bytes per pixel, and the last frame handed out is either none
    /// (empty) or a buffer's worth of bytes.
    #[verifier::type_invariant]
    spec fn buffers_sized(self) -> bool {
        &&& self.data@.len() == self.width * self.height * 4
        &&& (self.old@.len() == 0 || self.old@.len() == self.data@.len())
    }

    /// The window handle.
    pub closed spec fn hwnd_view(&self) -> isize {
        self.hwnd
    }

    /// The capture width in pixels.
    pub closed spec fn width_view(&self) -> usize {
        self.width
    }

    /// The capture height in rows.
    pub closed spec fn height_view(&self) -> usize {
        self.height
    }

    /// The bytes of the bitmap buffer.
    pub closed spec fn data_view(&self) -> Seq<u8> {
        self.data@
    }

    /// The bytes of the last frame handed out.
    pub closed spec fn last_frame_view(&self) -> Seq<u8> {
        self.old@
    }

    /// A capture of window `hwnd` at `width` x `height` pixels, with a zeroed BGRA buffer and no
    /// frame handed out yet.
    pub fn new(hwnd: isize, width: usize, height: usize) -> (c: Self)
        requires
            width * height * 4 <= usize::MAX,
        ensures
            c.hwnd_view() == hwnd,
            c.width_view() == width,
            c.height_view() == height,
            c.data_view() == Seq::new((width * height * 4) as nat, |i: int| 0u8),
            c.last_frame_view() == Seq::<u8>::empty(),
    {
        proof {
            vstd::arithmetic::mul::lemma_mul_nonnegative(width as int, height as int);
        }
        let n: usize = width * height * 4;
        let data = vec![0u8; n];
        assert(data@ =~= Seq::new(n as nat, |i: int| 0u8));
        WindowCapturer { hwnd, width, height, data, old: Vec::new() }
    }

    /// The window handle.
    pub fn hwnd(&self) -> (h: isize)
        ensures
            h == self.hwnd_view(),
    {
        self.hwnd
    }

    /// The capture width in pixels.
    pub fn width(&self) -> (w: usize)
        ensures
            w == self.width_view(),
    {
        self.width
    }

    /// The capture height in rows.
    pub fn height(&self) -> (h: usize)
        ensures
            h == self.height_view(),
    {
        self.height
    }

    /// The width, height and number of rows of the bitmap header that asks GDI for top-down
    /// rows: the width and height as `i32`, the height negated.
    pub fn bitmap_geometry(&self) -> (g: (i32, i32, u32))
        requires
            self.height_view() as i32 != i32::MIN,
        ensures
            g.0 == self.width_view() as i32,
            g.1 == -(self.height_view() as i32),
            g.2 == (self.height_view() as i32) as u32,
    {
        let w = self.width as i32;
        let h = self.height as i32;
        (w, -h, h as u32)
    }

    /// Takes the outcome of one GDI capture attempt: a failed print or copy reports
    /// `WouldBlock`; copied bytes become the buffer, and are handed out as a BGRA frame unless
    /// they equal the last frame handed out, which reports `WouldBlock`. A capture with no
    /// pixels copies no bytes, which always equal the (empty) last frame.
    pub fn frame(&mut self, capture: GdiCapture) -> (r: Result<Frame<'_>, CaptureError>)
        requires
            capture matches GdiCapture::Copied(bits) ==> bits@.len() == old(self).data_view().len(),
        ensures
            final(self).hwnd_view() == old(self).hwnd_view(),
            final(self).width_view() == old(self).width_view(),
            final(self).height_view() == old(self).height_view(),
            r is Ok <==> hands_out(old(self).last_frame_view(), captured_bits(capture)),
            r matches Err(e) ==> e.kind == ErrorKind::WouldBlock,
            final(self).last_frame_view() == last_after(old(self).last_frame_view(), captured_bits(capture)),
            match capture {
                GdiCapture::Copied(bits) => {
                    &&& final(self).data_view() == bits@
                    &&& if bits@ == old(self).last_frame_view() {
                        &&& r is Err
                        &&& r->Err_0.kind == ErrorKind::WouldBlock
                        &&& final(self).last_frame_view() == old(self).last_frame_view()
                    } else {
                        &&& final(self).last_frame_view() == bits@
                        &&& r matches Ok(Frame::PixelBuffer(pb)) && {
                            &&& pb.data_view() == bits@
                            &&& pb.pixfmt_view() == Pixfmt::BGRA
                            &&& pb.width_view() == old(self).width_view()
                            &&& pb.height_view() == old(self).height_view()
                            &&& pb.stride_view() == seq![(bits@.len() / (old(self).height_view() as nat)) as usize]
                        }
                    }
                },
                _ => {
                    &&& r is Err
                    &&& r->Err_0.kind == ErrorKind::WouldBlock
                    &&& final(self).data_view() == old(self).data_view()
                    &&& final(self).last_frame_view() == old(self).last_frame_view()
                },
            },
    {
        proof {
            use_type_invariant(&*self);
        }
        match capture {
            GdiCapture::PrintFailed => Err(CaptureError::from_kind(ErrorKind::WouldBlock)),
            GdiCapture::CopyFailed => Err(CaptureError::from_kind(ErrorKind::WouldBlock)),
            GdiCapture::Copied(bits) => {
                let ghost prev_last = self.old@;
                self.data = bits;
                let mut last: Vec<u8> = Vec::new();
                std::mem::swap(&mut last, &mut self.old);
                let shown = would_block_if_equal(&mut last, self.data.as_slice());
                self.old = last;
                match shown {
                    Err(e) => Err(e),
                    Ok(()) => {
                        proof {
                            if self.height == 0 {
                                let (w, h) = (self.width as int, self.height as int);
                                assert(w * h * 4 == 0) by (nonlinear_arith)
                                    requires
                                        h == 0,
                                ;
                                assert(prev_last =~= self.data@);
                            }
                        }
                        Ok(Frame::PixelBuffer(PixelBuffer::with_BGRA(self.data.as_slice(), self.width, self.height)))
                    },
                }
            },
        }
    }

    /// A window capture always goes through GDI.
    pub fn is_gdi(&self) -> (b: bool)
        ensures
            b,
    {
        true
    }

    /// A window capture always goes through GDI, so switching to it succeeds.
    pub fn set_gdi(&mut self) -> (b: bool)
        ensures
            b,
            *final(self) == *old(self),
    {
        true
    }
}

} // verus!
