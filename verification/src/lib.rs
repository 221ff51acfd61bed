//! Verified pixel conversion, MJPEG framing and cursor bookkeeping for a
//! screen-capture pipeline.

pub mod clock;
pub mod cursor_bridge;
pub mod cursor_events;
pub mod format;
pub mod jpeg;
pub mod mjpeg;
pub mod mjpeg_decoder;
pub mod pixel;
pub mod wayland_cursor;
pub mod yuv_convert;
