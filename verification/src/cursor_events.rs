//! Cursor events: the metadata published by the capture stream and the registry of
//! the sinks it is delivered to.
use vstd::prelude::*;

verus! {

/// Cursor metadata extracted from the video stream.
#[derive(Debug, Clone)]
pub struct CursorMetadata {
    pub position: Option<(i32, i32)>,
    pub visible: bool,
    pub shape_data: Option<Vec<u8>>,
    pub hotspot: Option<(i32, i32)>,
    pub width: Option<u32>,
    pub height: Option<u32>,
    pub timestamp: u64,
}

impl Default for CursorMetadata {
    /// Metadata that knows nothing but that the cursor is visible.
    fn default() -> (r: Self)
        ensures
            r.position is None,
            r.visible,
            r.shape_data is None,
            r.hotspot is None,
            r.width is None,
            r.height is None,
            r.timestamp == 0,
    {
        CursorMetadata {
            position: None,
            visible: true,
            shape_data: None,
            hotspot: None,
            width: None,
            height: None,
            timestamp: 0,
        }
    }
}

/// A component that listens to cursor events.
pub trait CursorEventSink: Send + Sync {
    fn on_cursor_metadata_update(&self, metadata: &CursorMetadata);
}

/// Whether a registry entry is not registered under `key`.
pub open spec fn keyed_otherwise<S>(key: usize) -> spec_fn((usize, S)) -> bool {
    |e: (usize, S)| e.0 != key
}

/// The sinks that cursor events are delivered to, in the order they were registered,
/// each under the key that identifies it (the caller uses the sink's address).
pub struct SinkRegistry<S> {
    sinks: Vec<(usize, S)>,
}

impl<S> View for SinkRegistry<S> {
    type V = Seq<(usize, S)>;

    closed spec fn view(&self) -> Seq<(usize, S)> {
        self.sinks@
    }
}

impl<S> SinkRegistry<S> {
    /// A registry without sinks.
    pub fn new() -> (r: Self)
        ensures
            r@ == Seq::<(usize, S)>::empty(),
    {
        SinkRegistry { sinks: Vec::new() }
    }

    /// The number of registered sinks.
    pub fn len(&self) -> (r: usize)
        ensures
            r == self@.len(),
    {
        self.sinks.len()
    }

    /// Adds `sink` under `key` after the sinks already registered.
    pub fn register_sink(&mut self, key: usize, sink: S)
        ensures
            final(self)@ == old(self)@.push((key, sink)),
    {
        self.sinks.push((key, sink));
    }

    /// Removes every sink registered under `key`; the others keep their order.
    pub fn unregister_sink(&mut self, key: usize)
        ensures
            final(self)@ == old(self)@.filter(keyed_otherwise::<S>(key)),
    {
        let ghost orig = self.sinks@;
        let ghost pred = keyed_otherwise::<S>(key);
        let mut i: usize = 0;
        let ghost mut j: int = 0;
        proof {
            reveal_with_fuel(Seq::filter, 1);
            assert(self.sinks@.take(0) =~= orig.take(0).filter(pred));
            assert(self.sinks@.skip(0) =~= orig.skip(0));
        }
        while i < self.sinks.len()
            invariant
                0 <= i <= j <= orig.len(),
                self.sinks@.len() == i + (orig.len() - j),
                self.sinks@.take(i as int) == orig.take(j).filter(pred),
                self.sinks@.skip(i as int) == orig.skip(j),
                pred == keyed_otherwise::<S>(key),
            decreases orig.len() - j,
        {
            let ghost before = self.sinks@;
            proof {
                assert forall|k: int| 0 <= k < orig.len() - (j + 1) implies #[trigger] before.skip(
                    i + 1,
                )[k] == orig.skip(j + 1)[k] by {
                    assert(before.skip(i as int)[k + 1] == orig.skip(j)[k + 1]);
                }
                assert(before.skip(i + 1) =~= orig.skip(j + 1));
                assert(before[i as int] == before.skip(i as int)[0]);
                assert(orig[j] == orig.skip(j)[0]);
                assert(orig.take(j + 1) =~= orig.take(j).push(orig[j]));
                orig.take(j).lemma_filter_push(orig[j], pred);
            }
            if self.sinks[i].0 == key {
                self.sinks.remove(i);
                proof {
                    assert(self.sinks@.take(i as int) =~= before.take(i as int));
                    assert(self.sinks@.skip(i as int) =~= before.skip(i + 1));
                }
            } else {
                proof {
                    assert(before.take(i + 1) =~= before.take(i as int).push(before[i as int]));
                }
                i = i + 1;
            }
            proof {
                j = j + 1;
            }
        }
        proof {
            assert(self.sinks@.take(i as int) =~= self.sinks@);
            assert(orig.take(j) =~= orig);
        }
    }

    /// Delivers `metadata` to every registered sink, in registration order.
    pub fn dispatch(&self, metadata: &CursorMetadata) where S: CursorEventSink {
        let n = self.sinks.len();
        for i in 0..n
            invariant
                n == self.sinks@.len(),
        {
            self.sinks[i].1.on_cursor_metadata_update(metadata);
        }
    }
}

/// Registers `sink` under `key` with `registry`.
pub fn register_cursor_sink<S>(registry: &mut SinkRegistry<S>, key: usize, sink: S)
    ensures
        final(registry)@ == old(registry)@.push((key, sink)),
{
    registry.register_sink(key, sink);
}

/// Removes the sinks registered under `key` from `registry`.
pub fn unregister_cursor_sink<S>(registry: &mut SinkRegistry<S>, key: usize)
    ensures
        final(registry)@ == old(registry)@.filter(keyed_otherwise::<S>(key)),
{
    registry.unregister_sink(key);
}

} // verus!
verus! {

/// Filtering out `key` keeps a sequence that has no entry under `key` as it is.
proof fn lemma_filter_without_key<S>(s: Seq<(usize, S)>, key: usize)
    requires
        forall|i: int| 0 <= i < s.len() ==> #[trigger] s[i].0 != key,
    ensures
        s.filter(keyed_otherwise::<S>(key)) == s,
    decreases s.len(),
{
    reveal_with_fuel(Seq::filter, 1);
    if s.len() > 0 {
        lemma_filter_without_key(s.drop_last(), key);
        assert(s.drop_last().push(s.last()) =~= s);
    }
}

/// Registering a sink under a key no sink has, then unregistering that key, restores
/// the registry.
pub proof fn lemma_register_then_unregister<S>(s: Seq<(usize, S)>, key: usize, sink: S)
    requires
        forall|i: int| 0 <= i < s.len() ==> #[trigger] s[i].0 != key,
    ensures
        s.push((key, sink)).filter(keyed_otherwise::<S>(key)) == s,
{
    s.lemma_filter_push((key, sink), keyed_otherwise::<S>(key));
    lemma_filter_without_key(s, key);
}

/// After unregistering `key` no sink is registered under it, every other sink is,
/// and unregistering it again changes nothing.
pub proof fn lemma_unregister_removes_key<S>(s: Seq<(usize, S)>, key: usize)
    ensures
        forall|i: int|
            0 <= i < s.filter(keyed_otherwise::<S>(key)).len() ==> #[trigger] s.filter(
                keyed_otherwise::<S>(key),
            )[i].0 != key,
        forall|i: int| 0 <= i < s.len() && s[i].0 != key ==> s.filter(keyed_otherwise::<S>(key)).contains(
            #[trigger] s[i],
        ),
        s.filter(keyed_otherwise::<S>(key)).filter(keyed_otherwise::<S>(key)) == s.filter(
            keyed_otherwise::<S>(key),
        ),
{
    let p = keyed_otherwise::<S>(key);
    s.filter_lemma(p);
    assert forall|i: int| 0 <= i < s.len() && s[i].0 != key implies s.filter(p).contains(
        #[trigger] s[i],
    ) by {
        s.lemma_filter_contains(p, i);
    }
    lemma_filter_without_key(s.filter(p), key);
}

} // verus!
