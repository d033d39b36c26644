//! Cache of image resolutions, keyed by the resolved resource string.
//!
//! Each key holds exactly one entry. An entry is inserted as `Loading`
//! the moment a reference is first seen, and moves exactly once to
//! `Loaded` (with the dimensions the renderer will draw) or `Error` when
//! the background work finishes. The whole cache is cleared when the
//! document reloads.

use vstd::prelude::*;
use crate::text::chars_eq;

verus! {

/// The resolution state of one image key.
#[derive(Clone, Copy, Debug, PartialEq, Eq, Structural)]
pub enum EntryState {
    /// A fetch has been started and has not finished.
    Loading,
    /// The image is decoded; these are the dimensions it will be drawn
    /// at, in pixels.
    Loaded { display_width: u64, display_height: u64 },
    /// The fetch or decode failed; the entry stays as a terminal marker.
    Error,
}

/// Cache of per-key image states. Keys are resolved resource strings as
/// character vectors.
pub struct ImageCache {
    entries: Vec<(Vec<char>, EntryState)>,
}

/// The entry list a cache stands for.
pub open spec fn entry_views(entries: Seq<(Vec<char>, EntryState)>) -> Seq<(Seq<char>, EntryState)> {
    entries.map_values(|e: (Vec<char>, EntryState)| (e.0@, e.1))
}

/// The state stored for `key`, if any: the first entry with that key.
pub open spec fn spec_find(view: Seq<(Seq<char>, EntryState)>, key: Seq<char>) -> Option<EntryState>
    decreases view.len(),
{
    if view.len() == 0 {
        None
    } else if view[0].0 == key {
        Some(view[0].1)
    } else {
        spec_find(view.drop_first(), key)
    }
}

/// The display height stored for `key` when it is loaded.
pub open spec fn loaded_height(view: Seq<(Seq<char>, EntryState)>, key: Seq<char>) -> Option<u64> {
    match spec_find(view, key) {
        Some(EntryState::Loaded { display_width, display_height }) => Some(display_height),
        _ => None,
    }
}

/// The dimensions an image of `width` by `height` pixels is drawn at:
/// the width is capped at `max_width` and the height scaled to keep the
/// aspect ratio.
pub open spec fn display_dims_spec(width: u32, height: u32, max_width: u64) -> (u64, u64) {
    if width as u64 > max_width {
        (max_width, (max_width * height as int / width as int) as u64)
    } else {
        (width as u64, height as u64)
    }
}

/// Compute the drawn dimensions of a decoded image: cap the width at
/// `max_width`, scale the height by the same ratio.
pub fn display_dims(width: u32, height: u32, max_width: u64) -> (r: (u64, u64))
    requires
        max_width > 0,
    ensures
        r == display_dims_spec(width, height, max_width),
        r.1 <= height,
{
    if width as u64 > max_width {
        proof {
            assert(0 <= max_width as int * height as int <= (u64::MAX as int) * (u32::MAX as int)
                && max_width as int * height as int / width as int <= height as int)
                by (nonlinear_arith)
                requires
                    0 < max_width as int <= width as int,
                    max_width <= u64::MAX,
                    0 <= height as int <= u32::MAX,
            ;
        }
        let h: u64 = ((max_width as u128 * height as u128 / width as u128)) as u64;
        (max_width, h)
    } else {
        (width as u64, height as u64)
    }
}

impl ImageCache {
    /// The entries this cache holds, in insertion order.
    pub closed spec fn view(self) -> Seq<(Seq<char>, EntryState)> {
        entry_views(self.entries@)
    }

    /// Every key appears at most once.
    pub open spec fn wf(self) -> bool {
        forall|i: int, j: int|
            0 <= i < j < self.view().len() ==> (#[trigger] self.view()[i]).0 != (
            #[trigger] self.view()[j]).0
    }

    /// The cache holds an entry for `key`.
    pub open spec fn spec_contains(self, key: Seq<char>) -> bool {
        spec_find(self.view(), key) is Some
    }

    pub fn new() -> (c: Self)
        ensures
            c.view() =~= Seq::<(Seq<char>, EntryState)>::empty(),
            c.wf(),
    {
        ImageCache { entries: Vec::new() }
    }

    /// Forget every entry; used when the document reloads.
    pub fn clear(&mut self)
        ensures
            final(self).view() =~= Seq::<(Seq<char>, EntryState)>::empty(),
            final(self).wf(),
    {
        self.entries.clear();
    }

    /// The position of the entry for `key`, if one exists.
    fn position_of(&self, key: &[char]) -> (r: Option<usize>)
        ensures
            match r {
                Some(i) => i < self.view().len() && self.view()[i as int].0 == key@ && spec_find(
                    self.view(),
                    key@,
                ) == Some(self.view()[i as int].1),
                None => spec_find(self.view(), key@) is None,
            },
    {
        let mut i: usize = 0;
        proof {
            assert(self.view().skip(0) =~= self.view());
        }
        while i < self.entries.len()
            invariant
                i <= self.entries.len(),
                forall|k: int| 0 <= k < i ==> (#[trigger] self.view()[k]).0 != key@,
                spec_find(self.view(), key@) == spec_find(
                    self.view().skip(i as int),
                    key@,
                ),
            decreases self.entries.len() - i,
        {
            let hit = chars_eq(self.entries[i].0.as_slice(), key);
            proof {
                assert(self.view()[i as int].0 == self.entries@[i as int].0@);
                assert(self.view().skip(i as int)[0] == self.view()[i as int]);
            }
            if hit {
                proof {
                    assert(spec_find(self.view().skip(i as int), key@) == Some(
                        self.view()[i as int].1,
                    ));
                }
                return Some(i);
            }
            proof {
                assert(self.view().skip(i as int).drop_first() =~= self.view().skip(i + 1));
            }
            i = i + 1;
        }
        proof {
            assert(self.view().skip(i as int) =~= Seq::<(Seq<char>, EntryState)>::empty());
        }
        None
    }

    /// Look up the state stored for `key`.
    pub fn get(&self, key: &[char]) -> (r: Option<EntryState>)
        ensures
            r == spec_find(self.view(), key@),
    {
        match self.position_of(key) {
            Some(i) => Some(self.entries[i].1),
            None => None,
        }
    }

    /// Mark `key` as loading if nothing is cached for it yet.
    ///
    /// Returns true exactly when the caller should start a fetch: the
    /// first time a key is seen, and never again until the cache is
    /// cleared, whatever state the key has reached meanwhile.
    pub fn ensure_loading(&mut self, key: &[char]) -> (started: bool)
        requires
            old(self).wf(),
        ensures
            started == !old(self).spec_contains(key@),
            final(self).view() == if started {
                old(self).view().push((key@, EntryState::Loading))
            } else {
                old(self).view()
            },
            final(self).spec_contains(key@),
            final(self).wf(),
    {
        match self.position_of(key) {
            Some(_) => false,
            None => {
                let mut owned: Vec<char> = Vec::new();
                crate::text::extend_chars(&mut owned, key);
                proof {
                    assert(owned@ =~= key@);
                }
                self.entries.push((owned, EntryState::Loading));
                proof {
                    assert(self.view() =~= old(self).view().push((key@, EntryState::Loading)));
                    lemma_find_absent_push(old(self).view(), key@, EntryState::Loading);
                    assert forall|i: int, j: int|
                        0 <= i < j < self.view().len() implies (#[trigger] self.view()[i]).0 != (
                    #[trigger] self.view()[j]).0 by {
                        if j < self.view().len() - 1 {
                            assert(old(self).view()[i] == self.view()[i]);
                        } else {
                            lemma_find_absent_means_no_key(old(self).view(), key@);
                        }
                    }
                }
                true
            },
        }
    }

    /// Record the outcome of a finished fetch: the entry for `key`
    /// becomes `Loaded` with the drawn dimensions, or `Error`.
    pub fn record_result(&mut self, key: &[char], result: Option<(u32, u32)>, max_width: u64)
        requires
            old(self).wf(),
            max_width > 0,
        ensures
            final(self).wf(),
            spec_find(final(self).view(), key@) == Some(record_state(result, max_width)),
            final(self).view().len() == if old(self).spec_contains(key@) {
                old(self).view().len()
            } else {
                old(self).view().len() + 1
            },
            forall|k: Seq<char>|
                k != key@ ==> #[trigger] spec_find(final(self).view(), k) == spec_find(
                    old(self).view(),
                    k,
                ),
    {
        let state = match result {
            Some((w, h)) => {
                let dims = display_dims(w, h, max_width);
                EntryState::Loaded { display_width: dims.0, display_height: dims.1 }
            },
            None => EntryState::Error,
        };
        match self.position_of(key) {
            Some(i) => {
                let mut owned: Vec<char> = Vec::new();
                crate::text::extend_chars(&mut owned, key);
                proof {
                    assert(owned@ =~= key@);
                }
                self.entries.set(i, (owned, state));
                proof {
                    assert(self.view() =~= old(self).view().update(
                        i as int,
                        (key@, state),
                    ));
                    lemma_find_update_same(old(self).view(), i as int, key@, state);
                }
            },
            None => {
                let mut owned: Vec<char> = Vec::new();
                crate::text::extend_chars(&mut owned, key);
                proof {
                    assert(owned@ =~= key@);
                }
                self.entries.push((owned, state));
                proof {
                    assert(self.view() =~= old(self).view().push((key@, state)));
                    lemma_find_absent_push(old(self).view(), key@, state);
                    assert forall|i: int, j: int|
                        0 <= i < j < self.view().len() implies (#[trigger] self.view()[i]).0 != (
                    #[trigger] self.view()[j]).0 by {
                        if j < self.view().len() - 1 {
                            assert(old(self).view()[i] == self.view()[i]);
                        } else {
                            lemma_find_absent_means_no_key(old(self).view(), key@);
                        }
                    }
                }
            },
        }
    }

    /// The entries, handed out for iteration: pairs of key and state.
    pub fn entries(&self) -> (es: &Vec<(Vec<char>, EntryState)>)
        ensures
            entry_views(es@) == self.view(),
    {
        &self.entries
    }
}

/// The state a finished fetch records: drawn dimensions on success, the
/// error marker otherwise.
pub open spec fn record_state(result: Option<(u32, u32)>, max_width: u64) -> EntryState {
    match result {
        Some((w, h)) => {
            let dims = display_dims_spec(w, h, max_width);
            EntryState::Loaded { display_width: dims.0, display_height: dims.1 }
        },
        None => EntryState::Error,
    }
}

/// Finding a key that is absent from a list still fails after pushing an
/// entry with a different key, and succeeds on the pushed key.
proof fn lemma_find_absent_push(view: Seq<(Seq<char>, EntryState)>, key: Seq<char>, st: EntryState)
    requires
        spec_find(view, key) is None,
    ensures
        spec_find(view.push((key, st)), key) == Some(st),
        forall|k: Seq<char>|
            k != key ==> #[trigger] spec_find(view.push((key, st)), k) == spec_find(view, k),
    decreases view.len(),
{
    let pushed = view.push((key, st));
    if view.len() == 0 {
        assert(pushed[0] == (key, st));
        assert(pushed.drop_first() =~= view);
        assert forall|k: Seq<char>| k != key implies #[trigger] spec_find(pushed, k) == spec_find(
            view,
            k,
        ) by {
            assert(spec_find(pushed, k) == spec_find(view, k));
        }
    } else {
        lemma_find_absent_push(view.drop_first(), key, st);
        assert(pushed.drop_first() =~= view.drop_first().push((key, st)));
        assert(pushed[0] == view[0]);
        assert(view[0].0 != key);
        assert(spec_find(pushed, key) == Some(st));
        assert forall|k: Seq<char>| k != key implies #[trigger] spec_find(pushed, k) == spec_find(
            view,
            k,
        ) by {
            if pushed[0].0 == k {
            } else {
                assert(spec_find(view.drop_first().push((key, st)), k) == spec_find(
                    view.drop_first(),
                    k,
                ));
            }
        }
    }
}

/// If a key is absent, no entry carries it.
proof fn lemma_find_absent_means_no_key(view: Seq<(Seq<char>, EntryState)>, key: Seq<char>)
    requires
        spec_find(view, key) is None,
    ensures
        forall|i: int| 0 <= i < view.len() ==> (#[trigger] view[i]).0 != key,
    decreases view.len(),
{
    if view.len() > 0 {
        lemma_find_absent_means_no_key(view.drop_first(), key);
        assert forall|i: int| 0 <= i < view.len() implies (#[trigger] view[i]).0 != key by {
            if i > 0 {
                assert(view.drop_first()[i - 1] == view[i]);
            }
        }
    }
}

/// Updating the entry at the position where a unique key sits rewrites
/// that key's state and leaves every other key's lookup alone.
proof fn lemma_find_update_same(
    view: Seq<(Seq<char>, EntryState)>,
    i: int,
    key: Seq<char>,
    st: EntryState,
)
    requires
        0 <= i < view.len(),
        view[i].0 == key,
        forall|a: int, b: int|
            0 <= a < b < view.len() ==> (#[trigger] view[a]).0 != (#[trigger] view[b]).0,
    ensures
        spec_find(view.update(i, (key, st)), key) == Some(st),
        forall|k: Seq<char>|
            k != key ==> #[trigger] spec_find(view.update(i, (key, st)), k) == spec_find(view, k),
        forall|a: int, b: int|
            0 <= a < b < view.update(i, (key, st)).len() ==> (#[trigger] view.update(
                i,
                (key, st),
            )[a]).0 != (#[trigger] view.update(i, (key, st))[b]).0,
    decreases view.len(),
{
    let upd = view.update(i, (key, st));
    if i == 0 {
        assert(upd[0] == (key, st));
        assert(upd.drop_first() =~= view.drop_first());
        assert forall|k: Seq<char>| k != key implies #[trigger] spec_find(upd, k) == spec_find(
            view,
            k,
        ) by {
            if view[0].0 == k {
                assert(false);
            } else {
                assert(spec_find(upd, k) == spec_find(upd.drop_first(), k));
                assert(spec_find(view, k) == spec_find(view.drop_first(), k));
            }
        }
    } else {
        assert(upd[0] == view[0]);
        assert(upd.drop_first() =~= view.drop_first().update(i - 1, (key, st)));
        assert forall|a: int, b: int|
            0 <= a < b < view.drop_first().len() implies (#[trigger] view.drop_first()[a]).0 != (
        #[trigger] view.drop_first()[b]).0 by {
            assert(view.drop_first()[a] == view[a + 1]);
            assert(view.drop_first()[b] == view[b + 1]);
        }
        lemma_find_update_same(view.drop_first(), i - 1, key, st);
        assert(view[0].0 != key);
        assert forall|k: Seq<char>| k != key implies #[trigger] spec_find(upd, k) == spec_find(
            view,
            k,
        ) by {
            if view[0].0 == k {
            } else {
                assert(spec_find(view.drop_first().update(i - 1, (key, st)), k) == spec_find(
                    view.drop_first(),
                    k,
                ));
            }
        }
    }
}


/// Lookups survive any later insertion: pushing an entry for another
/// key changes no existing key's state.
pub proof fn lemma_find_push_preserves(
    view: Seq<(Seq<char>, EntryState)>,
    k: Seq<char>,
    k2: Seq<char>,
    st: EntryState,
)
    requires
        k != k2,
    ensures
        spec_find(view.push((k2, st)), k) == spec_find(view, k),
    decreases view.len(),
{
    if view.len() == 0 {
        assert(view.push((k2, st))[0] == (k2, st));
        assert(view.push((k2, st)).drop_first() =~= view);
    } else {
        assert(view.push((k2, st))[0] == view[0]);
        assert(view.push((k2, st)).drop_first() =~= view.drop_first().push((k2, st)));
        lemma_find_push_preserves(view.drop_first(), k, k2, st);
    }
}

/// A fetch starts at most once per key: once `ensure_loading` has
/// marked a key — and however the key's entry later moves to `Loaded`
/// or `Error` through `record_result`, or other keys come and go — the
/// key stays cached, so every later `ensure_loading` for it reports
/// that no new fetch should start. Only clearing the whole cache
/// forgets the key.
pub proof fn lemma_ensure_loading_is_once(
    before: Seq<(Seq<char>, EntryState)>,
    key: Seq<char>,
    other: Seq<char>,
    st: EntryState,
)
    requires
        spec_find(before, key) is Some,
    ensures
        spec_find(before.push((other, st)), key) is Some,
        forall|i: int|
            0 <= i < before.len() ==> spec_find(
                #[trigger] before.update(i, (before[i].0, st)),
                key,
            ) is Some,
{
    if key == other {
        lemma_find_push_hit(before, key, other, st);
    } else {
        lemma_find_push_preserves(before, key, other, st);
    }
    assert forall|i: int| 0 <= i < before.len() implies spec_find(
        #[trigger] before.update(i, (before[i].0, st)),
        key,
    ) is Some by {
        lemma_find_update_any(before, i, st, key);
    }
}

/// Pushing an entry for a key makes it found (whatever was there).
proof fn lemma_find_push_hit(
    view: Seq<(Seq<char>, EntryState)>,
    k: Seq<char>,
    k2: Seq<char>,
    st: EntryState,
)
    requires
        k == k2,
    ensures
        spec_find(view.push((k2, st)), k) is Some,
    decreases view.len(),
{
    if view.len() == 0 {
        assert(view.push((k2, st))[0] == (k2, st));
    } else {
        assert(view.push((k2, st))[0] == view[0]);
        assert(view.push((k2, st)).drop_first() =~= view.drop_first().push((k2, st)));
        if view[0].0 != k {
            lemma_find_push_hit(view.drop_first(), k, k2, st);
        }
    }
}

/// Updating any entry's state in place never makes a present key
/// disappear.
proof fn lemma_find_update_any(
    view: Seq<(Seq<char>, EntryState)>,
    i: int,
    st: EntryState,
    key: Seq<char>,
)
    requires
        0 <= i < view.len(),
        spec_find(view, key) is Some,
    ensures
        spec_find(view.update(i, (view[i].0, st)), key) is Some,
    decreases view.len(),
{
    let upd = view.update(i, (view[i].0, st));
    if i == 0 {
        assert(upd[0] == (view[0].0, st));
        assert(upd.drop_first() =~= view.drop_first());
    } else {
        assert(upd[0] == view[0]);
        assert(upd.drop_first() =~= view.drop_first().update(i - 1, (view[i].0, st)));
        if view[0].0 != key {
            assert(view.drop_first()[i - 1] == view[i]);
            lemma_find_update_any(view.drop_first(), i - 1, st, key);
        }
    }
}

} // verus!
