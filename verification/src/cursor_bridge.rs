//! The cursor bridge: the cursor shapes, position and visibility reported by the
//! screen-cast stream, kept for the cursor queries of the capturer.
use vstd::prelude::*;

verus! {

broadcast use vstd::std_specs::hash::group_hash_axioms;

/// A cursor as the screen-cast stream reports it; `colors` holds RGBA pixels.
#[derive(Debug)]
pub struct WaylandCursorData {
    pub id: u64,
    pub hotx: i32,
    pub hoty: i32,
    pub width: u32,
    pub height: u32,
    pub colors: Vec<u8>,
    pub position: (i32, i32),
    pub visible: bool,
}

/// The abstract value of a [`WaylandCursorData`].
pub struct CursorModel {
    pub id: u64,
    pub hotx: i32,
    pub hoty: i32,
    pub width: u32,
    pub height: u32,
    pub colors: Seq<u8>,
    pub position: (i32, i32),
    pub visible: bool,
}

impl View for WaylandCursorData {
    type V = CursorModel;

    open spec fn view(&self) -> CursorModel {
        CursorModel {
            id: self.id,
            hotx: self.hotx,
            hoty: self.hoty,
            width: self.width,
            height: self.height,
            colors: self.colors@,
            position: self.position,
            visible: self.visible,
        }
    }
}

/// A copy of a byte vector.
pub(crate) fn copy_bytes(v: &Vec<u8>) -> (r: Vec<u8>)
    ensures
        r@ == v@,
{
    let mut r: Vec<u8> = Vec::new();
    let n = v.len();
    for i in 0..n
        invariant
            n == v@.len(),
            r@ == v@.subrange(0, i as int),
    {
        r.push(v[i]);
    }
    proof {
        assert(v@.subrange(0, n as int) =~= v@);
    }
    r
}

impl Clone for WaylandCursorData {
    fn clone(&self) -> (r: Self)
        ensures
            r@ == self@,
    {
        WaylandCursorData {
            id: self.id,
            hotx: self.hotx,
            hoty: self.hoty,
            width: self.width,
            height: self.height,
            colors: copy_bytes(&self.colors),
            position: self.position,
            visible: self.visible,
        }
    }
}

impl Default for WaylandCursorData {
    fn default() -> (r: Self)
        ensures
            r@ == (CursorModel {
                id: 0,
                hotx: 0,
                hoty: 0,
                width: 0,
                height: 0,
                colors: Seq::empty(),
                position: (0, 0),
                visible: false,
            }),
    {
        WaylandCursorData {
            id: 0,
            hotx: 0,
            hoty: 0,
            width: 0,
            height: 0,
            colors: Vec::new(),
            position: (0, 0),
            visible: false,
        }
    }
}

/// The abstract state of a [`CursorBridge`]: the current cursor, the last position
/// reported and the cursors seen so far, by id.
pub struct CursorBridgeModel {
    pub current: Option<CursorModel>,
    pub position: (i32, i32),
    pub cache: Map<u64, CursorModel>,
}

/// The state after a cursor update `d`: `d` becomes the current cursor and is cached
/// under its id, and its position becomes the cursor position.
pub open spec fn after_metadata(m: CursorBridgeModel, d: CursorModel) -> CursorBridgeModel {
    CursorBridgeModel { current: Some(d), position: d.position, cache: m.cache.insert(d.id, d) }
}

/// The state after a position update to (`x`, `y`): the position, and that of the
/// current cursor if there is one, become (`x`, `y`); cached cursors keep theirs.
pub open spec fn after_position(m: CursorBridgeModel, x: i32, y: i32) -> CursorBridgeModel {
    CursorBridgeModel {
        current: match m.current {
            Some(c) => Some(CursorModel { position: (x, y), ..c }),
            None => None,
        },
        position: (x, y),
        cache: m.cache,
    }
}

/// An update handed to a cursor bridge: a cursor update or a position update.
pub enum BridgeUpdate {
    Metadata(CursorModel),
    Position(i32, i32),
}

/// The state of a new bridge after the updates `us`, in turn.
pub open spec fn bridge_after(us: Seq<BridgeUpdate>) -> CursorBridgeModel
    decreases us.len(),
{
    if us.len() == 0 {
        CursorBridgeModel { current: None, position: (0, 0), cache: Map::empty() }
    } else {
        let m = bridge_after(us.drop_last());
        match us.last() {
            BridgeUpdate::Metadata(d) => after_metadata(m, d),
            BridgeUpdate::Position(x, y) => after_position(m, x, y),
        }
    }
}

/// The position given by the last of the updates `us`, or (0, 0) if there is none.
pub open spec fn last_position(us: Seq<BridgeUpdate>) -> (i32, i32) {
    if us.len() == 0 {
        (0, 0)
    } else {
        match us.last() {
            BridgeUpdate::Metadata(d) => d.position,
            BridgeUpdate::Position(x, y) => (x, y),
        }
    }
}

/// The cursor of the last cursor update among `us`, if there is one.
pub open spec fn last_metadata(us: Seq<BridgeUpdate>) -> Option<CursorModel>
    decreases us.len(),
{
    if us.len() == 0 {
        None
    } else {
        match us.last() {
            BridgeUpdate::Metadata(d) => Some(d),
            BridgeUpdate::Position(_, _) => last_metadata(us.drop_last()),
        }
    }
}

/// The cursor of the last cursor update among `us` whose cursor has id `id`, if there
/// is one.
pub open spec fn last_metadata_for(us: Seq<BridgeUpdate>, id: u64) -> Option<CursorModel>
    decreases us.len(),
{
    if us.len() == 0 {
        None
    } else {
        match us.last() {
            BridgeUpdate::Metadata(d) => if d.id == id {
                Some(d)
            } else {
                last_metadata_for(us.drop_last(), id)
            },
            BridgeUpdate::Position(_, _) => last_metadata_for(us.drop_last(), id),
        }
    }
}

/// Shares the cursor reported by the screen-cast stream with the cursor queries.
pub struct CursorBridge {
    current_cursor: Option<WaylandCursorData>,
    cursor_position: (i32, i32),
    cursor_cache: std::collections::HashMap<u64, WaylandCursorData>,
}

impl View for CursorBridge {
    type V = CursorBridgeModel;

    closed spec fn view(&self) -> CursorBridgeModel {
        CursorBridgeModel {
            current: match self.current_cursor {
                Some(c) => Some(c@),
                None => None,
            },
            position: self.cursor_position,
            cache: self.cursor_cache@.map_values(|d: WaylandCursorData| d@),
        }
    }
}

impl CursorBridge {
    /// A bridge with no cursor, at position (0, 0), with nothing cached.
    pub fn new() -> (r: Self)
        ensures
            r@.current is None,
            r@.position == (0i32, 0i32),
            r@.cache == Map::<u64, CursorModel>::empty(),
            r@ == bridge_after(Seq::empty()),
    {
        let r = CursorBridge {
            current_cursor: None,
            cursor_position: (0, 0),
            cursor_cache: std::collections::HashMap::new(),
        };
        proof {
            assert(r@.cache =~= Map::<u64, CursorModel>::empty());
        }
        r
    }

    /// Takes a cursor update from the screen-cast stream.
    pub fn update_cursor_metadata(&mut self, cursor_data: WaylandCursorData)
        ensures
            final(self)@ == after_metadata(old(self)@, cursor_data@),
    {
        self.cursor_position = cursor_data.position;
        let cached = cursor_data.clone();
        self.cursor_cache.insert(cursor_data.id, cached);
        self.current_cursor = Some(cursor_data);
        proof {
            assert(self@.cache =~= old(self)@.cache.insert(cursor_data.id, cursor_data@));
        }
    }

    /// Takes a position update from the screen-cast stream.
    pub fn update_cursor_position(&mut self, x: i32, y: i32)
        ensures
            final(self)@ == after_position(old(self)@, x, y),
    {
        self.cursor_position = (x, y);
        match &mut self.current_cursor {
            Some(cursor) => {
                cursor.position = (x, y);
            },
            None => {},
        }
    }

    /// The current cursor position.
    pub fn get_cursor_position(&self) -> (r: Option<(i32, i32)>)
        ensures
            r == Some(self@.position),
    {
        Some(self.cursor_position)
    }

    /// The id of the current cursor, if there is one.
    pub fn get_current_cursor_id(&self) -> (r: Option<u64>)
        ensures
            r == (match self@.current {
                Some(c) => Some(c.id),
                None => None::<u64>,
            }),
    {
        match &self.current_cursor {
            Some(c) => Some(c.id),
            None => None,
        }
    }

    /// The cursor cached under `cursor_id`, if one is.
    pub fn get_cursor_data(&self, cursor_id: u64) -> (r: Option<WaylandCursorData>)
        ensures
            match r {
                Some(d) => self@.cache.contains_key(cursor_id) && d@ == self@.cache[cursor_id],
                None => !self@.cache.contains_key(cursor_id),
            },
    {
        match self.cursor_cache.get(&cursor_id) {
            Some(d) => Some(d.clone()),
            None => None,
        }
    }

    /// Whether there is a current cursor and it is visible.
    pub fn is_cursor_visible(&self) -> (r: bool)
        ensures
            r == (match self@.current {
                Some(c) => c.visible,
                None => false,
            }),
    {
        match &self.current_cursor {
            Some(c) => c.visible,
            None => false,
        }
    }
}

/// Byte `c` (0 red, 1 green, 2 blue, 3 alpha) of an ARGB pixel.
pub open spec fn rgba_byte(pixel: u32, c: int) -> u8 {
    if c == 0 {
        ((pixel >> 16u32) & 0xffu32) as u8
    } else if c == 1 {
        ((pixel >> 8u32) & 0xffu32) as u8
    } else if c == 2 {
        (pixel & 0xffu32) as u8
    } else {
        ((pixel >> 24u32) & 0xffu32) as u8
    }
}

/// ARGB pixels rewritten as RGBA bytes, four per pixel.
pub open spec fn argb_to_rgba(pixels: Seq<u32>) -> Seq<u8> {
    Seq::new(pixels.len() * 4, |i: int| rgba_byte(pixels[i / 4], i % 4))
}

/// Builds a cursor from the raw cursor data of the screen-cast stream, whose pixels
/// are ARGB, rewriting the pixels as RGBA.
pub fn convert_pipewire_cursor_data(
    id: u64,
    hotx: i32,
    hoty: i32,
    width: u32,
    height: u32,
    pixels: &[u32],
    position: (i32, i32),
    visible: bool,
) -> (r: WaylandCursorData)
    requires
        width * height * 4 <= u32::MAX,
    ensures
        r@ == (CursorModel {
            id,
            hotx,
            hoty,
            width,
            height,
            colors: argb_to_rgba(pixels@),
            position,
            visible,
        }),
{
    let mut colors: Vec<u8> = Vec::with_capacity((width * height * 4) as usize);
    let n = pixels.len();
    for k in 0..n
        invariant
            n == pixels@.len(),
            colors@.len() == 4 * k,
            forall|i: int| 0 <= i < 4 * k ==> colors@[i] == #[trigger] rgba_byte(pixels@[i / 4], i % 4),
    {
        let pixel = pixels[k];
        let a = ((pixel >> 24) & 0xff) as u8;
        let r = ((pixel >> 16) & 0xff) as u8;
        let g = ((pixel >> 8) & 0xff) as u8;
        let b = (pixel & 0xff) as u8;
        colors.push(r);
        colors.push(g);
        colors.push(b);
        colors.push(a);
        proof {
            assert forall|i: int| 0 <= i < 4 * (k + 1) implies colors@[i] == #[trigger] rgba_byte(
                pixels@[i / 4],
                i % 4,
            ) by {
                if i >= 4 * k {
                    assert(i / 4 == k);
                }
            }
        }
    }
    proof {
        assert(colors@ =~= argb_to_rgba(pixels@));
    }
    WaylandCursorData { id, hotx, hoty, width, height, colors, position, visible }
}

/// Hands a cursor update from the screen-cast stream to `bridge`.
pub fn notify_cursor_update(bridge: &mut CursorBridge, cursor_data: WaylandCursorData)
    ensures
        final(bridge)@ == after_metadata(old(bridge)@, cursor_data@),
{
    bridge.update_cursor_metadata(cursor_data);
}

/// Hands a position update from the screen-cast stream to `bridge`.
pub fn notify_cursor_position_update(bridge: &mut CursorBridge, x: i32, y: i32)
    ensures
        final(bridge)@ == after_position(old(bridge)@, x, y),
{
    bridge.update_cursor_position(x, y);
}

} // verus!
verus! {

/// After a cursor update `d`, the bridge reads it back: `d` is the current cursor
/// (so its id is the current id and its visibility the cursor's visibility), it is
/// cached under its id, its position is the cursor position, and the cursors cached
/// under other ids are unchanged.
pub proof fn lemma_metadata_read_back(m: CursorBridgeModel, d: CursorModel, other: u64)
    requires
        other != d.id,
    ensures
        after_metadata(m, d).current == Some(d),
        after_metadata(m, d).cache.contains_key(d.id),
        after_metadata(m, d).cache[d.id] == d,
        after_metadata(m, d).position == d.position,
        after_metadata(m, d).cache.contains_key(other) == m.cache.contains_key(other),
        m.cache.contains_key(other) ==> after_metadata(m, d).cache[other] == m.cache[other],
{
}

/// A position update changes nothing but positions: the cache is unchanged, the
/// current cursor keeps everything but its position, and repeating the update changes
/// nothing more.
pub proof fn lemma_position_update_scope(m: CursorBridgeModel, x: i32, y: i32)
    ensures
        after_position(m, x, y).cache == m.cache,
        after_position(m, x, y).position == (x, y),
        after_position(m, x, y).current is Some == m.current is Some,
        m.current matches Some(c) ==> after_position(m, x, y).current == Some(
            CursorModel { position: (x, y), ..c },
        ),
        after_position(after_position(m, x, y), x, y) == after_position(m, x, y),
{
}

/// A position update after a cursor update moves the current cursor but not the copy
/// cached under its id, which keeps the position the cursor update reported.
pub proof fn lemma_cached_copy_keeps_position(m: CursorBridgeModel, d: CursorModel, x: i32, y: i32)
    ensures
        after_position(after_metadata(m, d), x, y).cache[d.id].position == d.position,
        after_position(after_metadata(m, d), x, y).current matches Some(c) && c.position == (x, y)
            && c.id == d.id,
{
}

/// Converting ARGB pixels yields four RGBA bytes per pixel, each channel moved to its
/// RGBA place.
pub proof fn lemma_rgba_layout(pixels: Seq<u32>, k: int)
    requires
        0 <= k < pixels.len(),
    ensures
        argb_to_rgba(pixels).len() == 4 * pixels.len(),
        argb_to_rgba(pixels)[4 * k] == ((pixels[k] >> 16u32) & 0xffu32) as u8,
        argb_to_rgba(pixels)[4 * k + 1] == ((pixels[k] >> 8u32) & 0xffu32) as u8,
        argb_to_rgba(pixels)[4 * k + 2] == (pixels[k] & 0xffu32) as u8,
        argb_to_rgba(pixels)[4 * k + 3] == ((pixels[k] >> 24u32) & 0xffu32) as u8,
{
    assert((4 * k) / 4 == k && (4 * k) % 4 == 0);
    assert((4 * k + 1) / 4 == k && (4 * k + 1) % 4 == 1);
    assert((4 * k + 2) / 4 == k && (4 * k + 2) % 4 == 2);
    assert((4 * k + 3) / 4 == k && (4 * k + 3) % 4 == 3);
}

} // verus!
verus! {

/// What the queries of a new bridge report after any sequence of updates `us`:
/// the position of the last update, or (0, 0); a current cursor exactly when there
/// was a cursor update, with the id and visibility of the last one (position updates
/// do not change them); and, for each id, a cached cursor exactly when a cursor update
/// carried that id, namely the last such cursor.
pub proof fn lemma_bridge_history(us: Seq<BridgeUpdate>, id: u64)
    ensures
        bridge_after(us).position == last_position(us),
        bridge_after(us).current is Some <==> last_metadata(us) is Some,
        last_metadata(us) matches Some(d) ==> (bridge_after(us).current matches Some(c) && c.id
            == d.id && c.visible == d.visible),
        bridge_after(us).cache.contains_key(id) <==> last_metadata_for(us, id) is Some,
        last_metadata_for(us, id) matches Some(d) ==> bridge_after(us).cache[id] == d,
    decreases us.len(),
{
    if us.len() > 0 {
        lemma_bridge_history(us.drop_last(), id);
    }
}

} // verus!
