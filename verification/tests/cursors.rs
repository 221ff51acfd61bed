use scrap::cursor_bridge::{
    convert_pipewire_cursor_data, notify_cursor_position_update, notify_cursor_update,
    CursorBridge, WaylandCursorData,
};
use scrap::cursor_events::{
    register_cursor_sink, unregister_cursor_sink, CursorEventSink, CursorMetadata, SinkRegistry,
};
use scrap::wayland_cursor::{
    cleanup_wayland_cursor, create_default_cursor_pixels, get_wayland_cursor,
    get_wayland_cursor_data, get_wayland_cursor_pos, try_get_cursor_data_from_wayland,
    try_get_cursor_pos_from_portal, CompositorOutcome, CursorData, WaylandCursorState,
};
use std::sync::atomic::AtomicUsize;
use std::sync::Arc;

fn cursor(id: u64, position: (i32, i32), visible: bool) -> WaylandCursorData {
    WaylandCursorData {
        id,
        hotx: 2,
        hoty: 3,
        width: 1,
        height: 1,
        colors: vec![1, 2, 3, 4],
        position,
        visible,
    }
}

#[test]
fn bridge_starts_empty() {
    let b = CursorBridge::new();
    assert_eq!(b.get_cursor_position(), Some((0, 0)));
    assert_eq!(b.get_current_cursor_id(), None);
    assert!(!b.is_cursor_visible());
    assert!(b.get_cursor_data(1).is_none());
}

#[test]
fn bridge_reads_back_metadata() {
    let mut b = CursorBridge::new();
    b.update_cursor_metadata(cursor(7, (10, 20), true));
    assert_eq!(b.get_cursor_position(), Some((10, 20)));
    assert_eq!(b.get_current_cursor_id(), Some(7));
    assert!(b.is_cursor_visible());
    let d = b.get_cursor_data(7).unwrap();
    assert_eq!((d.id, d.hotx, d.hoty, d.colors.clone(), d.position), (7, 2, 3, vec![1, 2, 3, 4], (10, 20)));
    assert!(b.get_cursor_data(8).is_none());
}

#[test]
fn bridge_keeps_other_cached_cursors() {
    let mut b = CursorBridge::new();
    notify_cursor_update(&mut b, cursor(1, (1, 1), true));
    notify_cursor_update(&mut b, cursor(2, (2, 2), false));
    assert_eq!(b.get_current_cursor_id(), Some(2));
    assert!(!b.is_cursor_visible());
    assert_eq!(b.get_cursor_data(1).unwrap().position, (1, 1));
    assert_eq!(b.get_cursor_data(2).unwrap().position, (2, 2));
}

#[test]
fn position_update_moves_current_not_cached_copy() {
    let mut b = CursorBridge::new();
    b.update_cursor_metadata(cursor(3, (5, 5), true));
    notify_cursor_position_update(&mut b, 40, 50);
    assert_eq!(b.get_cursor_position(), Some((40, 50)));
    assert_eq!(b.get_current_cursor_id(), Some(3));
    assert_eq!(b.get_cursor_data(3).unwrap().position, (5, 5));
}

#[test]
fn position_update_without_cursor() {
    let mut b = CursorBridge::new();
    b.update_cursor_position(-3, 4);
    assert_eq!(b.get_cursor_position(), Some((-3, 4)));
    assert_eq!(b.get_current_cursor_id(), None);
}

#[test]
fn cursor_data_clone_and_default() {
    let c = cursor(9, (1, 2), true);
    let d = c.clone();
    assert_eq!((d.id, d.colors.clone(), d.visible), (9, vec![1, 2, 3, 4], true));
    let z = WaylandCursorData::default();
    assert_eq!((z.id, z.colors.len(), z.position, z.visible), (0, 0, (0, 0), false));
}

#[test]
fn argb_becomes_rgba() {
    let d = convert_pipewire_cursor_data(5, 1, 2, 2, 1, &[0xAABBCCDD, 0x11223344], (3, 4), true);
    assert_eq!(d.colors, vec![0xBB, 0xCC, 0xDD, 0xAA, 0x22, 0x33, 0x44, 0x11]);
    assert_eq!((d.id, d.hotx, d.hoty, d.width, d.height, d.position, d.visible), (5, 1, 2, 2, 1, (3, 4), true));
}

#[test]
fn argb_conversion_of_nothing() {
    let d = convert_pipewire_cursor_data(1, 0, 0, 0, 0, &[], (0, 0), false);
    assert!(d.colors.is_empty());
}

#[test]
fn default_cursor_is_white_arrow() {
    let px = create_default_cursor_pixels();
    assert_eq!(px.len(), 32 * 32 * 4);
    let at = |x: usize, y: usize| &px[(y * 32 + x) * 4..(y * 32 + x) * 4 + 4];
    assert_eq!(at(0, 0), &[255, 255, 255, 255]);
    assert_eq!(at(1, 0), &[0, 0, 0, 0]);
    assert_eq!(at(15, 15), &[255, 255, 255, 255]);
    assert_eq!(at(0, 16), &[0, 0, 0, 0]);
    assert_eq!(at(31, 31), &[0, 0, 0, 0]);
    assert_eq!(px.iter().filter(|&&b| b == 255).count(), 136 * 4);
}

#[test]
fn fallback_cursor_data() {
    let d = try_get_cursor_data_from_wayland(42);
    assert_eq!((d.id, d.hotx, d.hoty, d.width, d.height), (42, 1, 1, 32, 32));
    assert_eq!(d.colors, create_default_cursor_pixels());
    let z = CursorData::default();
    assert_eq!((z.id, z.width, z.colors.len()), (0, 0, 0));
}

#[test]
fn cursor_data_lookup_caches_and_repeats() {
    let mut s = WaylandCursorState::new();
    let a = get_wayland_cursor_data(&mut s, 11);
    let b = get_wayland_cursor_data(&mut s, 11);
    assert_eq!((a.id, a.colors.clone()), (b.id, b.colors.clone()));
    assert_eq!(a.id, 11);
    cleanup_wayland_cursor(&mut s);
    let c = get_wayland_cursor_data(&mut s, 11);
    assert_eq!(c.colors, create_default_cursor_pixels());
}

#[test]
fn compositor_outcomes_for_cursor() {
    let mut s = WaylandCursorState::new();
    assert_eq!(get_wayland_cursor(&mut s, CompositorOutcome::Found(77)), Some(77));
    assert_eq!(s.current_cursor_id(), 77);
    assert_eq!(get_wayland_cursor(&mut s, CompositorOutcome::NotFound), None);
    assert_eq!(s.current_cursor_id(), 77);
    assert_eq!(get_wayland_cursor(&mut s, CompositorOutcome::Unavailable), None);
    assert_eq!(s.current_cursor_id(), 77);
    let id = get_wayland_cursor(&mut s, CompositorOutcome::Failed).unwrap();
    assert!(id > 0);
    assert_eq!(s.current_cursor_id(), 77);
    let d = get_wayland_cursor_data(&mut s, id);
    assert_eq!((d.id, d.width, d.height), (id, 32, 32));
}

#[test]
fn compositor_outcomes_for_position() {
    let mut s = WaylandCursorState::new();
    assert_eq!(get_wayland_cursor_pos(&mut s, CompositorOutcome::Found((3, -4))), Some((3, -4)));
    assert_eq!(get_wayland_cursor_pos(&mut s, CompositorOutcome::NotFound), None);
    assert_eq!(get_wayland_cursor_pos(&mut s, CompositorOutcome::Failed), None);
    assert_eq!(get_wayland_cursor_pos(&mut s, CompositorOutcome::Unavailable), None);
    assert_eq!(try_get_cursor_pos_from_portal(&mut s), None);
}

#[test]
fn cursor_metadata_default_is_visible() {
    let m = CursorMetadata::default();
    assert!(m.visible);
    assert_eq!((m.position, m.hotspot, m.width, m.height, m.timestamp), (None, None, None, None, 0));
    assert!(m.shape_data.is_none());
}

struct Counter(Arc<AtomicUsize>, usize);

impl CursorEventSink for Counter {
    fn on_cursor_metadata_update(&self, metadata: &CursorMetadata) {
        if metadata.visible {
            self.0.fetch_add(self.1, std::sync::atomic::Ordering::SeqCst);
        }
    }
}

#[test]
fn registry_dispatch_and_unregister() {
    let hits = Arc::new(AtomicUsize::new(0));
    let mut reg: SinkRegistry<Counter> = SinkRegistry::new();
    register_cursor_sink(&mut reg, 1, Counter(hits.clone(), 1));
    register_cursor_sink(&mut reg, 2, Counter(hits.clone(), 10));
    register_cursor_sink(&mut reg, 1, Counter(hits.clone(), 100));
    assert_eq!(reg.len(), 3);
    reg.dispatch(&CursorMetadata::default());
    assert_eq!(hits.load(std::sync::atomic::Ordering::SeqCst), 111);
    unregister_cursor_sink(&mut reg, 1);
    assert_eq!(reg.len(), 1);
    reg.dispatch(&CursorMetadata::default());
    assert_eq!(hits.load(std::sync::atomic::Ordering::SeqCst), 121);
    reg.unregister_sink(1);
    assert_eq!(reg.len(), 1);
}

#[test]
fn register_then_unregister_fresh_key_restores() {
    let hits = Arc::new(AtomicUsize::new(0));
    let mut reg: SinkRegistry<Counter> = SinkRegistry::new();
    reg.register_sink(5, Counter(hits.clone(), 1));
    reg.register_sink(6, Counter(hits.clone(), 2));
    reg.unregister_sink(6);
    assert_eq!(reg.len(), 1);
    reg.dispatch(&CursorMetadata::default());
    assert_eq!(hits.load(std::sync::atomic::Ordering::SeqCst), 1);
}

#[test]
fn cursor_lookup_carries_id() {
    let mut s = WaylandCursorState::new();
    for h in [0u64, 5, u64::MAX] {
        let a = get_wayland_cursor_data(&mut s, h);
        let b = get_wayland_cursor_data(&mut s, h);
        assert_eq!((a.id, b.id), (h, h));
    }
}
