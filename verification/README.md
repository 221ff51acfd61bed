# scrap

Verified pieces of a screen-capture pipeline, written in Verus.

- `src/pixel.rs`, `src/yuv_convert.rs`: integer YUV to RGB conversion of pixels and
  whole planar frames (4:2:0, 4:4:4, luma only).
- `src/mjpeg.rs`, `src/mjpeg_decoder.rs`, `src/jpeg.rs`: an MJPEG encoder (frame
  layout, keyframe schedule, bit-rate average) and decoder on top of the `image`
  crate's JPEG codec.
- `src/cursor_bridge.rs`, `src/wayland_cursor.rs`, `src/cursor_events.rs`: cursor
  state reported by the screen-cast stream, the Wayland cursor cache and its
  decisions, and the registry of cursor-event sinks.
- `src/clock.rs`: clock reads.

`app/` holds the process-wide globals, locking, D-Bus queries, the async event loop
and the floating-point quality ratio.
