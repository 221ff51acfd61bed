//! Cursor capture under native Wayland: the cache of cursor shapes and the decisions
//! taken on what the compositor answered.
//!
//! Talking to the compositor is left to the caller, which hands the outcome in as a
//! [`CompositorOutcome`].
use vstd::prelude::*;
use crate::clock::{millis_since_epoch, system_now};
use crate::cursor_bridge::copy_bytes;

verus! {

broadcast use vstd::std_specs::hash::group_hash_axioms;

/// A cursor shape as sent to the peer; `colors` holds RGBA pixels.
#[derive(Debug)]
pub struct CursorData {
    pub id: u64,
    pub hotx: i32,
    pub hoty: i32,
    pub width: i32,
    pub height: i32,
    pub colors: Vec<u8>,
}

/// The abstract value of a [`CursorData`].
pub struct CursorShape {
    pub id: u64,
    pub hotx: i32,
    pub hoty: i32,
    pub width: i32,
    pub height: i32,
    pub colors: Seq<u8>,
}

impl View for CursorData {
    type V = CursorShape;

    open spec fn view(&self) -> CursorShape {
        CursorShape {
            id: self.id,
            hotx: self.hotx,
            hoty: self.hoty,
            width: self.width,
            height: self.height,
            colors: self.colors@,
        }
    }
}

impl Clone for CursorData {
    fn clone(&self) -> (r: Self)
        ensures
            r@ == self@,
    {
        CursorData {
            id: self.id,
            hotx: self.hotx,
            hoty: self.hoty,
            width: self.width,
            height: self.height,
            colors: copy_bytes(&self.colors),
        }
    }
}

impl Default for CursorData {
    fn default() -> (r: Self)
        ensures
            r@ == (CursorShape { id: 0, hotx: 0, hoty: 0, width: 0, height: 0, colors: Seq::empty() }),
    {
        CursorData { id: 0, hotx: 0, hoty: 0, width: 0, height: 0, colors: Vec::new() }
    }
}

/// Whether pixel (`x`, `y`) of the default cursor belongs to its arrow: the triangle
/// of the first 16 rows whose row `y` spans columns `0..=y`.
pub open spec fn in_default_arrow(x: int, y: int) -> bool {
    0 <= y < 16 && 0 <= x <= y
}

/// Byte `i` of the default cursor's RGBA pixels: opaque white inside the arrow,
/// transparent black elsewhere.
pub open spec fn default_cursor_byte(i: int) -> u8 {
    let p = i / 4;
    if in_default_arrow(p % 32, p / 32) {
        255
    } else {
        0
    }
}

/// The RGBA pixels of the default 32 by 32 cursor.
pub open spec fn default_cursor_pixels() -> Seq<u8> {
    Seq::new(4096, |i: int| default_cursor_byte(i))
}

/// The default cursor shape given the id `id`: the arrow, hot spot at (1, 1).
pub open spec fn default_cursor(id: u64) -> CursorShape {
    CursorShape { id, hotx: 1, hoty: 1, width: 32, height: 32, colors: default_cursor_pixels() }
}

/// Byte `i` of the default cursor after the arrow has been drawn up to row `y`,
/// column `x` (exclusive).
spec fn drawn_byte(i: int, y: int, x: int) -> u8 {
    let p = i / 4;
    let px = p % 32;
    let py = p / 32;
    if (py < y && in_default_arrow(px, py)) || (py == y && py < 16 && 0 <= px < x) {
        255
    } else {
        0
    }
}

spec fn drawn(y: int, x: int) -> Seq<u8> {
    Seq::new(4096, |i: int| drawn_byte(i, y, x))
}

/// Creates the pixels of the default cursor: a 32 by 32 RGBA image, opaque white
/// inside the arrow and transparent elsewhere.
pub fn create_default_cursor_pixels() -> (r: Vec<u8>)
    ensures
        r@ == default_cursor_pixels(),
{
    let mut pixels = vec![0u8; 32 * 32 * 4];
    proof {
        assert(pixels@ =~= drawn(0, 0));
    }
    let mut y: usize = 0;
    while y < 16
        invariant
            y <= 16,
            pixels@ == drawn(y as int, 0),
        decreases 16 - y,
    {
        let mut x: usize = 0;
        while x <= y
            invariant
                y < 16,
                x <= y + 1,
                pixels@ == drawn(y as int, x as int),
            decreases y + 1 - x,
        {
            let idx = (y * 32 + x) * 4;
            let ghost before = pixels@;
            if idx + 3 < pixels.len() {
                pixels[idx] = 255;
                pixels[idx + 1] = 255;
                pixels[idx + 2] = 255;
                pixels[idx + 3] = 255;
            }
            proof {
                let p = (y * 32 + x) as int;
                vstd::arithmetic::div_mod::lemma_fundamental_div_mod_converse(p, 32, y as int, x as int);
                assert forall|i: int| 0 <= i < 4096 implies #[trigger] pixels@[i] == drawn_byte(
                    i,
                    y as int,
                    x + 1,
                ) by {
                    let q = i / 4;
                    if q == p {
                        assert(q % 32 == x && q / 32 == y);
                    } else {
                        assert(pixels@[i] == before[i]);
                        assert(before[i] == drawn_byte(i, y as int, x as int));
                        if q / 32 == y as int {
                            assert(q % 32 != x);
                        }
                    }
                }
                assert(pixels@ =~= drawn(y as int, x + 1));
            }
            x = x + 1;
        }
        proof {
            assert forall|i: int| 0 <= i < 4096 implies #[trigger] drawn_byte(i, y as int, y + 1)
                == drawn_byte(i, y + 1, 0) by {}
            assert(drawn(y as int, y + 1) =~= drawn(y + 1, 0));
        }
        y = y + 1;
    }
    proof {
        assert(drawn(16, 0) =~= default_cursor_pixels());
    }
    pixels
}

/// The cursor data used where no real shape is known: the default arrow under `id`.
pub fn try_get_cursor_data_from_wayland(cursor_id: u64) -> (r: CursorData)
    ensures
        r@ == default_cursor(cursor_id),
{
    CursorData {
        id: cursor_id,
        hotx: 1,
        hoty: 1,
        width: 32,
        height: 32,
        colors: create_default_cursor_pixels(),
    }
}

/// What asking the compositor gave: a value, no value, or a failure; or that it
/// could not be asked, because no D-Bus session could be opened.
#[derive(Debug)]
pub enum CompositorOutcome<T> {
    Found(T),
    NotFound,
    Failed,
    Unavailable,
}

/// The cursor state kept between captures: the id of the current cursor and the
/// cursor shapes seen so far, by id.
pub struct WaylandCursorState {
    current_cursor_id: u64,
    cursor_cache: std::collections::HashMap<u64, CursorData>,
}

/// The abstract value of a [`WaylandCursorState`].
pub struct WaylandCursorModel {
    pub current_cursor_id: u64,
    pub cache: Map<u64, CursorShape>,
}

impl View for WaylandCursorState {
    type V = WaylandCursorModel;

    closed spec fn view(&self) -> WaylandCursorModel {
        WaylandCursorModel {
            current_cursor_id: self.current_cursor_id,
            cache: self.cursor_cache@.map_values(|d: CursorData| d@),
        }
    }
}

/// Every cached shape carries the id it is cached under.
pub open spec fn cache_ids_match(m: WaylandCursorModel) -> bool {
    forall|k: u64| m.cache.contains_key(k) ==> #[trigger] m.cache[k].id == k
}

/// The shape a lookup of `hcursor` yields in state `m`: the cached one, or else the
/// default cursor.
pub open spec fn looked_up(m: WaylandCursorModel, hcursor: u64) -> CursorShape {
    if m.cache.contains_key(hcursor) {
        m.cache[hcursor]
    } else {
        default_cursor(hcursor)
    }
}

/// The state after a lookup of `hcursor`: the shape it yields is cached.
pub open spec fn after_lookup(m: WaylandCursorModel, hcursor: u64) -> WaylandCursorModel {
    WaylandCursorModel { cache: m.cache.insert(hcursor, looked_up(m, hcursor)), ..m }
}

impl WaylandCursorState {
    #[verifier::type_invariant]
    spec fn inv(self) -> bool {
        cache_ids_match(self@)
    }

    /// A state with current cursor 0 and nothing cached.
    pub fn new() -> (r: Self)
        ensures
            r@.current_cursor_id == 0,
            r@.cache == Map::<u64, CursorShape>::empty(),
            cache_ids_match(r@),
    {
        let r = WaylandCursorState { current_cursor_id: 0, cursor_cache: std::collections::HashMap::new() };
        proof {
            assert(r@.cache =~= Map::<u64, CursorShape>::empty());
        }
        r
    }

    /// The id of the current cursor.
    pub fn current_cursor_id(&self) -> (r: u64)
        ensures
            r == self@.current_cursor_id,
    {
        self.current_cursor_id
    }

    /// Caches the default cursor under `cursor_id`, which becomes known.
    pub fn cache_default_cursor(&mut self, cursor_id: u64) -> (r: Option<u64>)
        ensures
            r == Some(cursor_id),
            final(self)@ == (WaylandCursorModel {
                cache: old(self)@.cache.insert(cursor_id, default_cursor(cursor_id)),
                ..old(self)@
            }),
            cache_ids_match(final(self)@),
    {
        proof {
            use_type_invariant(&*self);
        }
        let cursor_data = try_get_cursor_data_from_wayland(cursor_id);
        let mut cache = std::collections::HashMap::new();
        std::mem::swap(&mut cache, &mut self.cursor_cache);
        cache.insert(cursor_id, cursor_data);
        proof {
            assert(cache@.map_values(|d: CursorData| d@) =~= old(self)@.cache.insert(
                cursor_id,
                default_cursor(cursor_id),
            ));
        }
        std::mem::swap(&mut cache, &mut self.cursor_cache);
        proof {
            assert(self@.cache =~= old(self)@.cache.insert(cursor_id, default_cursor(cursor_id)));
        }
        Some(cursor_id)
    }
}

/// The fallback when the compositor gave no cursor: a cursor id is taken from the
/// clock (milliseconds since the Unix epoch) and the default cursor cached under it.
/// With the clock before the epoch no id is produced and nothing changes.
pub fn try_get_cursor_from_portal(state: &mut WaylandCursorState) -> (r: Option<u64>)
    ensures
        match r {
            Some(id) => final(state)@ == (WaylandCursorModel {
                cache: old(state)@.cache.insert(id, default_cursor(id)),
                ..old(state)@
            }),
            None => final(state)@ == old(state)@,
        },
        cache_ids_match(final(state)@),
{
    proof {
        use_type_invariant(&*state);
    }
    match millis_since_epoch(system_now()) {
        Some(cursor_id) => state.cache_default_cursor(cursor_id),
        None => None,
    }
}

/// Decides on what the compositor answered to a cursor query: a cursor id becomes the
/// current cursor; no cursor yields none; a failure falls back to
/// [`try_get_cursor_from_portal`].
pub fn get_wayland_cursor(state: &mut WaylandCursorState, outcome: CompositorOutcome<u64>) -> (r:
    Option<u64>)
    ensures
        match outcome {
            CompositorOutcome::Found(id) => r == Some(id) && final(state)@ == (WaylandCursorModel {
                current_cursor_id: id,
                ..old(state)@
            }),
            CompositorOutcome::NotFound => r is None && final(state)@ == old(state)@,
            CompositorOutcome::Unavailable => r is None && final(state)@ == old(state)@,
            CompositorOutcome::Failed => match r {
                Some(id) => final(state)@ == (WaylandCursorModel {
                    cache: old(state)@.cache.insert(id, default_cursor(id)),
                    ..old(state)@
                }),
                None => final(state)@ == old(state)@,
            },
        },
        cache_ids_match(final(state)@),
{
    proof {
        use_type_invariant(&*state);
    }
    match outcome {
        CompositorOutcome::Found(cursor_id) => {
            state.current_cursor_id = cursor_id;
            Some(cursor_id)
        },
        CompositorOutcome::NotFound => None,
        CompositorOutcome::Unavailable => None,
        CompositorOutcome::Failed => try_get_cursor_from_portal(state),
    }
}

/// The shape of cursor `hcursor`: the cached one, or else the default cursor, which is
/// then cached.
pub fn get_wayland_cursor_data(state: &mut WaylandCursorState, hcursor: u64) -> (r: CursorData)
    ensures
        r@ == looked_up(old(state)@, hcursor),
        r@.id == hcursor,
        final(state)@ == after_lookup(old(state)@, hcursor),
        cache_ids_match(final(state)@),
{
    proof {
        use_type_invariant(&*state);
    }
    match state.cursor_cache.get(&hcursor) {
        Some(cached) => {
            let r = cached.clone();
            proof {
                assert(state@.cache.insert(hcursor, r@) =~= state@.cache);
            }
            return r;
        },
        None => {},
    }
    let cursor_data = try_get_cursor_data_from_wayland(hcursor);
    let cached = cursor_data.clone();
    let mut cache = std::collections::HashMap::new();
    std::mem::swap(&mut cache, &mut state.cursor_cache);
    cache.insert(hcursor, cached);
    proof {
        assert(cache@.map_values(|d: CursorData| d@) =~= old(state)@.cache.insert(
            hcursor,
            default_cursor(hcursor),
        ));
    }
    std::mem::swap(&mut cache, &mut state.cursor_cache);
    proof {
        assert(state@.cache =~= old(state)@.cache.insert(hcursor, default_cursor(hcursor)));
    }
    cursor_data
}

/// Forgets every cached cursor shape.
pub fn cleanup_wayland_cursor(state: &mut WaylandCursorState)
    ensures
        final(state)@ == (WaylandCursorModel {
            cache: Map::<u64, CursorShape>::empty(),
            ..old(state)@
        }),
        cache_ids_match(final(state)@),
{
    proof {
        use_type_invariant(&*state);
    }
    let mut cache = std::collections::HashMap::new();
    std::mem::swap(&mut cache, &mut state.cursor_cache);
    proof {
        assert(state@.cache =~= Map::<u64, CursorShape>::empty());
    }
}

/// The fallback when the compositor gave no position: none is available.
pub fn try_get_cursor_pos_from_portal(state: &mut WaylandCursorState) -> (r: Option<(i32, i32)>)
    ensures
        r is None,
        final(state)@ == old(state)@,
        cache_ids_match(final(state)@),
{
    proof {
        use_type_invariant(&*state);
    }
    None
}

/// Decides on what the compositor answered to a position query: a position is
/// returned; no position, or no D-Bus session to ask with, yields none; a failure
/// falls back to
/// [`try_get_cursor_pos_from_portal`]. The state is left as it was.
pub fn get_wayland_cursor_pos(state: &mut WaylandCursorState, outcome: CompositorOutcome<
    (i32, i32),
>) -> (r: Option<(i32, i32)>)
    ensures
        r == (match outcome {
            CompositorOutcome::Found(p) => Some(p),
            _ => None::<(i32, i32)>,
        }),
        final(state)@ == old(state)@,
        cache_ids_match(final(state)@),
{
    proof {
        use_type_invariant(&*state);
    }
    match outcome {
        CompositorOutcome::Found(pos) => Some(pos),
        CompositorOutcome::NotFound => None,
        CompositorOutcome::Unavailable => None,
        CompositorOutcome::Failed => try_get_cursor_pos_from_portal(state),
    }
}

} // verus!
verus! {

/// Looking a cursor up twice gives the same shape, and the second lookup changes
/// nothing.
pub proof fn lemma_lookup_idempotent(m: WaylandCursorModel, hcursor: u64)
    ensures
        looked_up(after_lookup(m, hcursor), hcursor) == looked_up(m, hcursor),
        after_lookup(after_lookup(m, hcursor), hcursor) == after_lookup(m, hcursor),
{
    assert(after_lookup(after_lookup(m, hcursor), hcursor).cache =~= after_lookup(m, hcursor).cache);
}

/// A cached shape is returned as cached and leaves the state unchanged.
pub proof fn lemma_lookup_cached(m: WaylandCursorModel, hcursor: u64)
    requires
        m.cache.contains_key(hcursor),
    ensures
        looked_up(m, hcursor) == m.cache[hcursor],
        after_lookup(m, hcursor) == m,
{
    assert(after_lookup(m, hcursor).cache =~= m.cache);
}

/// After the cache is cleared, every lookup yields the default cursor.
pub proof fn lemma_lookup_after_cleanup(m: WaylandCursorModel, hcursor: u64)
    ensures
        looked_up(WaylandCursorModel { cache: Map::<u64, CursorShape>::empty(), ..m }, hcursor)
            == default_cursor(hcursor),
{
}

} // verus!
verus! {

/// In a state whose cached shapes carry their keys as ids (every state the functions
/// here produce), a lookup of `hcursor` yields a shape with id `hcursor`, and the
/// state after it keeps that property; with [`lemma_lookup_idempotent`], two lookups
/// in a row give the same shape, carrying the looked-up id.
pub proof fn lemma_lookup_carries_id(m: WaylandCursorModel, hcursor: u64)
    requires
        cache_ids_match(m),
    ensures
        looked_up(m, hcursor).id == hcursor,
        cache_ids_match(after_lookup(m, hcursor)),
{
}

} // verus!
