use scrap_dxgi::capturer::{backend_wait_ms, frame_from_outcome, frame_from_rect};
use scrap_dxgi::{
    fold_timeout, select_by_names, would_block_if_equal, CaptureError, Capturer, CapturerMag,
    Display, DisplaySource, DxgiBackend, ErrorKind, Frame, GdiCapture, MagBackend, PixelBuffer,
    Pixfmt, WindowCapturer,
};

fn wide(s: &str) -> Vec<u16> {
    s.encode_utf16().collect()
}

fn display(name: &str, width: i32, origin: (i32, i32)) -> Display {
    Display {
        name: wide(name),
        width,
        height: 1080,
        online: true,
        origin,
        adapter_luid: Some(7),
    }
}

fn names(ds: &[Display]) -> Vec<String> {
    ds.iter().map(|d| d.name()).collect()
}

fn widths(ds: &[Display]) -> Vec<i32> {
    ds.iter().map(|d| d.width).collect()
}

#[test]
fn pixel_buffer_stride_is_bytes_per_row() {
    let data = [0u8; 24];
    let pb = PixelBuffer::new(&data, Pixfmt::RGBA, 2, 3);
    assert_eq!(pb.stride(), vec![8]);
    assert_eq!(pb.width(), 2);
    assert_eq!(pb.height(), 3);
    assert_eq!(pb.pixfmt(), Pixfmt::RGBA);
    assert_eq!(pb.data().len(), 24);
}

#[test]
fn pixel_buffer_stride_rounds_down() {
    let data = [1u8; 10];
    let pb = PixelBuffer::with_BGRA(&data, 1, 3);
    assert_eq!(pb.stride(), vec![3]);
    assert_eq!(pb.pixfmt(), Pixfmt::BGRA);
    assert_eq!(pb.data(), &data[..]);
}

#[test]
fn display_getters() {
    let d = display("\\\\.\\DISPLAY1", 1920, (0, 0));
    assert_eq!(d.width(), 1920);
    assert_eq!(d.height(), 1080);
    assert_eq!(d.name(), "\\\\.\\DISPLAY1");
    assert!(d.is_online());
    assert_eq!(d.origin(), (0, 0));
    assert!(d.is_primary());
    assert_eq!(d.adapter_luid(), Some(7));
}

#[test]
fn display_negative_width_converts_like_as() {
    let d = display("X", -1, (0, 0));
    assert_eq!(d.width(), usize::MAX);
}

#[test]
fn display_not_primary_off_origin() {
    assert!(!display("A", 10, (1920, 0)).is_primary());
    assert!(!display("A", 10, (0, -1)).is_primary());
}

#[test]
fn display_name_replaces_lone_surrogate() {
    let d = Display {
        name: vec![0x41, 0xD800, 0x42],
        width: 1,
        height: 1,
        online: false,
        origin: (3, 4),
        adapter_luid: None,
    };
    assert_eq!(d.name(), "A\u{FFFD}B");
    assert!(!d.is_online());
    assert_eq!(d.adapter_luid(), None);
}

#[test]
fn primary_is_not_found() {
    let r = Display::primary();
    assert!(matches!(r, Err(CaptureError { kind: ErrorKind::NotFound, .. })));
}

#[test]
fn select_gdi_when_dxgi_empty() {
    let gdi = vec![display("A", 1, (0, 0)), display("B", 2, (1, 0))];
    let out = Display::select(gdi, Ok(Vec::new()));
    assert_eq!(widths(&out), vec![1, 2]);
}

#[test]
fn select_gdi_when_dxgi_fails() {
    let gdi = vec![display("A", 1, (0, 0))];
    let out = Display::select(gdi, Err(CaptureError::from_kind(ErrorKind::Other)));
    assert_eq!(widths(&out), vec![1]);
}

#[test]
fn select_dxgi_when_lengths_differ() {
    let gdi = vec![display("A", 1, (0, 0))];
    let dxgi = vec![display("A", 10, (0, 0)), display("B", 20, (0, 0))];
    let out = Display::select(gdi, Ok(dxgi));
    assert_eq!(widths(&out), vec![10, 20]);
}

#[test]
fn select_dxgi_when_name_missing() {
    let gdi = vec![display("A", 1, (0, 0)), display("C", 3, (0, 0))];
    let dxgi = vec![display("B", 20, (0, 0)), display("A", 10, (0, 0))];
    let out = Display::select(gdi, Ok(dxgi));
    assert_eq!(widths(&out), vec![20, 10]);
}

#[test]
fn select_reorders_dxgi_by_gdi_names() {
    let gdi = vec![display("B", 2, (0, 0)), display("C", 3, (0, 0)), display("A", 1, (0, 0))];
    let dxgi = vec![display("A", 10, (0, 0)), display("B", 20, (0, 0)), display("C", 30, (0, 0))];
    let out = Display::select(gdi, Ok(dxgi));
    assert_eq!(widths(&out), vec![20, 30, 10]);
    assert_eq!(names(&out), vec!["B", "C", "A"]);
}

#[test]
fn select_duplicate_gdi_name_takes_front_of_pool() {
    let gdi = vec![display("A", 1, (0, 0)), display("A", 2, (0, 0))];
    let dxgi = vec![display("B", 20, (0, 0)), display("A", 10, (0, 0))];
    let out = Display::select(gdi, Ok(dxgi));
    // first "A" takes the DXGI "A"; the second finds no "A" left and takes the front ("B")
    assert_eq!(widths(&out), vec![10, 20]);
}

#[test]
fn select_by_names_uses_given_names() {
    let gdi = vec![display("x", 1, (0, 0)), display("y", 2, (0, 0))];
    let dxgi = vec![display("p", 10, (0, 0)), display("q", 20, (0, 0))];
    let out = select_by_names(
        gdi,
        &vec!["n2".to_string(), "n1".to_string()],
        dxgi,
        vec!["n1".to_string(), "n2".to_string()],
    );
    assert_eq!(widths(&out), vec![20, 10]);
}

#[test]
fn law_report_is_permutation_of_dxgi() {
    let gdi = vec![display("C", 3, (0, 0)), display("A", 1, (0, 0)), display("B", 2, (0, 0))];
    let dxgi = vec![display("A", 10, (0, 0)), display("B", 20, (0, 0)), display("C", 30, (0, 0))];
    let mut out = widths(&Display::select(gdi, Ok(dxgi)));
    assert_eq!(out, vec![30, 10, 20]);
    out.sort();
    assert_eq!(out, vec![10, 20, 30]);
}

struct Source;

impl DisplaySource for Source {
    fn gdi_displays() -> Vec<Display> {
        vec![display("B", 2, (0, 0)), display("A", 1, (0, 0))]
    }
    fn dxgi_displays() -> Result<Vec<Display>, CaptureError> {
        Ok(vec![display("A", 10, (0, 0)), display("B", 20, (0, 0))])
    }
}

struct GdiOnly;

impl DisplaySource for GdiOnly {
    fn gdi_displays() -> Vec<Display> {
        vec![display("G", 5, (0, 0))]
    }
    fn dxgi_displays() -> Result<Vec<Display>, CaptureError> {
        Err(CaptureError::from_kind(ErrorKind::Other))
    }
}

#[test]
fn all_from_source() {
    let out = Display::all::<Source>().unwrap();
    assert_eq!(widths(&out), vec![20, 10]);
    let out = Display::all::<GdiOnly>().unwrap();
    assert_eq!(widths(&out), vec![5]);
}

#[test]
fn fold_timeout_maps_only_timeouts() {
    let r: Result<u8, CaptureError> = fold_timeout(Err(CaptureError {
        kind: ErrorKind::TimedOut,
        message: "late".to_string(),
    }));
    match r {
        Err(e) => {
            assert_eq!(e.kind, ErrorKind::WouldBlock);
            assert_eq!(e.message, "");
        }
        Ok(_) => panic!("expected an error"),
    }
    let r: Result<u8, CaptureError> = fold_timeout(Err(CaptureError {
        kind: ErrorKind::Other,
        message: "gone".to_string(),
    }));
    match r {
        Err(e) => {
            assert_eq!(e.kind, ErrorKind::Other);
            assert_eq!(e.message, "gone");
        }
        Ok(_) => panic!("expected an error"),
    }
    assert_eq!(fold_timeout::<u8>(Ok(3)).unwrap(), 3);
}

#[test]
fn would_block_if_equal_copies_then_blocks() {
    let mut last = Vec::new();
    assert!(would_block_if_equal(&mut last, &[1, 2, 3]).is_ok());
    assert_eq!(last, vec![1, 2, 3]);
    let r = would_block_if_equal(&mut last, &[1, 2, 3]);
    assert_eq!(r.unwrap_err().kind, ErrorKind::WouldBlock);
    assert!(would_block_if_equal(&mut last, &[1, 2]).is_ok());
    assert_eq!(last, vec![1, 2]);
}

#[test]
fn would_block_if_equal_empty_blocks_at_start() {
    let mut last = Vec::new();
    let r = would_block_if_equal(&mut last, &[]);
    assert_eq!(r.unwrap_err().kind, ErrorKind::WouldBlock);
}

#[test]
fn window_capturer_new_zeroed() {
    let c = WindowCapturer::new(42, 2, 3);
    assert_eq!(c.hwnd(), 42);
    assert_eq!(c.width(), 2);
    assert_eq!(c.height(), 3);
    assert!(c.is_gdi());
}

#[test]
fn window_capturer_frames() {
    let mut c = WindowCapturer::new(1, 1, 2);
    assert_eq!(c.frame(GdiCapture::PrintFailed).unwrap_err().kind, ErrorKind::WouldBlock);
    assert_eq!(c.frame(GdiCapture::CopyFailed).unwrap_err().kind, ErrorKind::WouldBlock);
    let bits: Vec<u8> = (1..=8).collect();
    match c.frame(GdiCapture::Copied(bits.clone())) {
        Ok(Frame::PixelBuffer(pb)) => {
            assert_eq!(pb.data(), &bits[..]);
            assert_eq!(pb.pixfmt(), Pixfmt::BGRA);
            assert_eq!(pb.width(), 1);
            assert_eq!(pb.height(), 2);
            assert_eq!(pb.stride(), vec![4]);
        }
        Err(_) => panic!("expected a frame"),
    }
    // the same contents again: no new frame
    assert_eq!(c.frame(GdiCapture::Copied(bits.clone())).unwrap_err().kind, ErrorKind::WouldBlock);
    let other: Vec<u8> = vec![0; 8];
    assert!(c.frame(GdiCapture::Copied(other)).is_ok());
    assert!(c.set_gdi());
}

struct FakeDxgi {
    outcome: Option<ErrorKind>,
    gdi: bool,
    pixels: Vec<u8>,
}

impl DxgiBackend for FakeDxgi {
    fn new(display: Display) -> Result<Self, CaptureError> {
        if display.online {
            let outcome = match display.width {
                0 => Some(ErrorKind::TimedOut),
                -2 => Some(ErrorKind::Other),
                _ => None,
            };
            Ok(FakeDxgi { outcome, gdi: false, pixels: vec![9; 16] })
        } else {
            Err(CaptureError::from_kind(ErrorKind::NotFound))
        }
    }
    fn cancel_gdi(&mut self) {
        self.gdi = false;
    }
    fn frame<'a>(&'a mut self, _timeout_ms: u32) -> Result<Frame<'a>, CaptureError> {
        match self.outcome {
            None => Ok(Frame::PixelBuffer(PixelBuffer::with_BGRA(&self.pixels, 2, 2))),
            Some(k) => Err(CaptureError::from_kind(k)),
        }
    }
    fn is_gdi(&self) -> bool {
        self.gdi
    }
    fn set_gdi(&mut self) -> bool {
        self.gdi = true;
        true
    }
}

#[test]
fn capturer_keeps_display_size() {
    let c: Capturer<FakeDxgi> = Capturer::new(display("A", 1920, (0, 0))).ok().unwrap();
    assert_eq!(c.width(), 1920);
    assert_eq!(c.height(), 1080);
    let mut off = display("B", 5, (0, 0));
    off.online = false;
    let r: Result<Capturer<FakeDxgi>, CaptureError> = Capturer::new(off);
    assert!(matches!(r, Err(CaptureError { kind: ErrorKind::NotFound, .. })));
}

#[test]
fn capturer_frame_folds_timeout() {
    let mut c: Capturer<FakeDxgi> = Capturer::new(display("A", 4, (0, 0))).ok().unwrap();
    match c.frame(100) {
        Ok(Frame::PixelBuffer(pb)) => assert_eq!(pb.stride(), vec![8]),
        Err(_) => panic!("expected a frame"),
    }
    let mut c: Capturer<FakeDxgi> = Capturer::new(display("A", 0, (0, 0))).ok().unwrap();
    assert_eq!(c.frame(100).err().unwrap().kind, ErrorKind::WouldBlock);
    let mut c: Capturer<FakeDxgi> = Capturer::new(display("A", -2, (0, 0))).ok().unwrap();
    assert_eq!(c.frame(100).err().unwrap().kind, ErrorKind::Other);
}

#[test]
fn capturer_gdi_switches() {
    let mut c: Capturer<FakeDxgi> = Capturer::new(display("A", 4, (0, 0))).ok().unwrap();
    assert!(!c.is_gdi());
    assert!(c.set_gdi());
    assert!(c.is_gdi());
    c.cancel_gdi();
    assert!(!c.is_gdi());
    assert_eq!(c.width(), 4);
}

struct FakeMag {
    rect: ((i32, i32), usize, usize),
    excluded: Vec<String>,
}

impl MagBackend for FakeMag {
    fn is_supported() -> bool {
        true
    }
    fn new(origin: (i32, i32), width: usize, height: usize) -> Result<Self, CaptureError> {
        if width == 0 && height == 0 {
            Err(CaptureError::from_kind(ErrorKind::Other))
        } else {
            Ok(FakeMag { rect: (origin, width, height), excluded: Vec::new() })
        }
    }
    fn exclude(&mut self, cls: &str, name: &str) -> Result<bool, CaptureError> {
        self.excluded.push(format!("{}/{}", cls, name));
        Ok(true)
    }
    fn get_rect(&self) -> ((i32, i32), usize, usize) {
        self.rect
    }
    fn frame(&mut self, data: &mut Vec<u8>) -> Result<(), CaptureError> {
        data.clear();
        data.resize(self.rect.1 * self.rect.2 * 4, 7);
        Ok(())
    }
}

#[test]
fn capturer_mag_frames() {
    assert!(CapturerMag::<FakeMag>::is_supported());
    assert!(CapturerMag::<FakeMag>::new((0, 0), 0, 0).is_err());
    let mut c: CapturerMag<FakeMag> = CapturerMag::new((5, 6), 3, 2).ok().unwrap();
    assert_eq!(c.get_rect(), ((5, 6), 3, 2));
    assert_eq!(c.exclude("cls", "title").ok(), Some(true));
    assert!(!c.is_gdi());
    assert!(!c.set_gdi());
    match c.frame() {
        Ok(Frame::PixelBuffer(pb)) => {
            assert_eq!(pb.width(), 3);
            assert_eq!(pb.height(), 2);
            assert_eq!(pb.stride(), vec![12]);
            assert_eq!(pb.pixfmt(), Pixfmt::BGRA);
            assert_eq!(pb.data().len(), 24);
        }
        Err(_) => panic!("expected a frame"),
    }
}

#[test]
fn capturer_mag_empty_rect_gives_no_frame() {
    let mut c: CapturerMag<FakeMag> = CapturerMag::new((0, 0), 4, 0).ok().unwrap();
    assert_eq!(c.frame().err().unwrap().kind, ErrorKind::Other);
}

#[test]
fn window_capturer_zero_height_always_would_block() {
    let mut c = WindowCapturer::new(3, 4, 0);
    for _ in 0..3 {
        assert_eq!(c.frame(GdiCapture::Copied(Vec::new())).unwrap_err().kind, ErrorKind::WouldBlock);
    }
    assert_eq!(c.frame(GdiCapture::PrintFailed).unwrap_err().kind, ErrorKind::WouldBlock);
    assert_eq!(c.frame(GdiCapture::CopyFailed).unwrap_err().kind, ErrorKind::WouldBlock);
}

#[test]
fn law_window_no_image_twice_in_a_row() {
    let mut c = WindowCapturer::new(1, 1, 1);
    let a = vec![1u8, 2, 3, 4];
    assert!(c.frame(GdiCapture::Copied(a.clone())).is_ok());
    assert!(c.frame(GdiCapture::PrintFailed).is_err());
    assert!(c.frame(GdiCapture::CopyFailed).is_err());
    assert!(c.frame(GdiCapture::Copied(a.clone())).is_err());
    match c.frame(GdiCapture::Copied(vec![4, 3, 2, 1])) {
        Ok(Frame::PixelBuffer(pb)) => assert_ne!(pb.data(), &a[..]),
        Err(_) => panic!("expected a frame"),
    }
}

#[test]
fn window_bitmap_geometry_is_top_down() {
    let c = WindowCapturer::new(1, 640, 480);
    assert_eq!(c.bitmap_geometry(), (640, -480, 480));
}

#[test]
fn backend_wait_cuts_to_32_bits() {
    assert_eq!(backend_wait_ms(1), 1);
    assert_eq!(backend_wait_ms(u32::MAX as u128 + 5), 4);
}

#[test]
fn frame_from_rect_sizes_and_errors() {
    let data = [0u8; 24];
    match frame_from_rect(&data, ((1, 2), 3, 2)) {
        Ok(Frame::PixelBuffer(pb)) => {
            assert_eq!(pb.width(), 3);
            assert_eq!(pb.height(), 2);
            assert_eq!(pb.stride(), vec![12]);
            assert_eq!(pb.pixfmt(), Pixfmt::BGRA);
        }
        Err(_) => panic!("expected a frame"),
    }
    assert_eq!(frame_from_rect(&data, ((0, 0), 3, 0)).unwrap_err().kind, ErrorKind::Other);
}

#[test]
fn law_same_named_displays_keep_dxgi_order() {
    let gdi = vec![display("A", 1, (0, 0)), display("B", 2, (0, 0)), display("A", 3, (0, 0))];
    let dxgi = vec![display("A", 10, (0, 0)), display("A", 11, (0, 0)), display("B", 20, (0, 0))];
    let out = Display::select(gdi, Ok(dxgi));
    assert_eq!(widths(&out), vec![10, 20, 11]);
}

#[test]
fn display_name_decodes_surrogate_pairs() {
    let mut d = display("x", 1, (0, 0));
    d.name = "a\u{1F600}b".encode_utf16().collect();
    assert_eq!(d.name(), "a\u{1F600}b");
    // a high surrogate followed by a plain unit: the surrogate alone is replaced
    d.name = vec![0xD83D, 0x41, 0xDE00];
    assert_eq!(d.name(), "\u{FFFD}A\u{FFFD}");
}

#[test]
fn law_utf16_round_trip_on_text() {
    let text = "DISPLAY\u{e9}\u{10FFFF}\u{FFFF}";
    let mut d = display("x", 1, (0, 0));
    d.name = text.encode_utf16().collect();
    assert_eq!(d.name(), text);
}

#[test]
fn frame_from_outcome_passes_errors_on() {
    let data = [0u8; 8];
    let r = frame_from_outcome(
        Err(CaptureError { kind: ErrorKind::NotFound, message: "gone".to_string() }),
        &data,
        ((0, 0), 1, 2),
    );
    let e = r.unwrap_err();
    assert_eq!(e.kind, ErrorKind::NotFound);
    assert_eq!(e.message, "gone");
    match frame_from_outcome(Ok(()), &data, ((0, 0), 1, 2)) {
        Ok(Frame::PixelBuffer(pb)) => {
            assert_eq!(pb.width(), 1);
            assert_eq!(pb.height(), 2);
        }
        Err(_) => panic!("expected a frame"),
    }
    assert_eq!(frame_from_outcome(Ok(()), &data, ((0, 0), 1, 0)).unwrap_err().kind, ErrorKind::Other);
}

#[test]
fn assemble_passes_start_errors_on() {
    let r: Result<Capturer<FakeDxgi>, CaptureError> = Capturer::assemble(
        3,
        4,
        Err(CaptureError { kind: ErrorKind::Other, message: "no device".to_string() }),
    );
    let e = r.err().unwrap();
    assert_eq!(e.message, "no device");
    let c: Capturer<FakeDxgi> = Capturer::assemble(3, 4, FakeDxgi::new(display("A", 1, (0, 0)))).ok().unwrap();
    assert_eq!((c.width(), c.height()), (3, 4));
    let r: Result<CapturerMag<FakeMag>, CaptureError> =
        CapturerMag::assemble(Err(CaptureError::from_kind(ErrorKind::NotFound)));
    assert_eq!(r.err().unwrap().kind, ErrorKind::NotFound);
}
