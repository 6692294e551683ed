//! Screen capture on Windows: displays as DXGI and GDI report them, capturers over the
//! desktop-duplication, Magnification and per-window GDI paths, and the pixel buffers they
//! hand out.

pub mod capturer;
pub mod display;
pub mod error;
pub mod pixel_buffer;
pub mod utf16;
pub mod window;

pub use capturer::{Capturer, CapturerMag, DxgiBackend, MagBackend};
pub use display::{select_by_names, Display, DisplaySource};
pub use error::{fold_timeout, CaptureError, ErrorKind};
pub use pixel_buffer::{Frame, PixelBuffer, Pixfmt};
pub use window::{would_block_if_equal, GdiCapture, WindowCapturer};
