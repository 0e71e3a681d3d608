//! Still captures of a display as a platform-independent pixel buffer.
//!
//! A capture is a short conversation with the display service of the system: open, ask,
//! copy, release. Which call comes next, what an answer means, what must be given back
//! before the capture may end, and what becomes of the bytes is decided here; the calls
//! themselves are made by the caller. Each display service has a module with a session
//! for that conversation:
//!
//! - `x11`, for an X server, which often leaves the alpha plane unset;
//! - `quartz`, for the macOS compositor, whose data length is held against the size;
//! - `gdi`, for the Windows graphics device interface, which hands rows over bottom first.
//!
//! A caller starts a session, asks it for its `request`, makes that call, and hands the
//! reply to `step`, until `step` ends the capture with a `Screenshot` or with the
//! sentence that names the step that failed.
//!
//! `capture` holds what the sessions share, and what is proved of all three: that every
//! native handle handed out during a capture is given back exactly once, however the
//! capture ends. `image` holds the `Screenshot` and the reading of its pixels.

pub mod capture;
pub mod gdi;
pub mod image;
pub mod quartz;
pub mod x11;

pub use capture::{Header, Step};
pub use image::{Layout, Pixel, ScreenResult, Screenshot, ScreenshotView};
