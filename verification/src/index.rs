//! `TileIndex`: lists of tile identifiers by room, type, status, parent and
//! ensign, and the identifiers ordered by creation tick.

use vstd::prelude::*;
use crate::strmap::StrMap;
use crate::text::{strings_view, remove_all_str};
use crate::tile::Tile;

verus! {

#[derive(Debug, Clone, Default)]
pub struct TileIndex {
    pub by_room: StrMap<Vec<String>>,
    pub by_type: StrMap<Vec<String>>,
    pub by_status: StrMap<Vec<String>>,
    pub by_parent: StrMap<Vec<String>>,
    pub by_ensign: StrMap<Vec<String>>,
    /// `(created tick, tile id)`, ordered by tick.
    pub by_tick: Vec<(u64, String)>,
}

/// The lists of a bucket map, as character sequences.
pub open spec fn buckets(m: StrMap<Vec<String>>) -> Map<Seq<char>, Seq<Seq<char>>> {
    m@.map_values(|v: Vec<String>| strings_view(v@))
}

/// The list under `key`, empty when the key is absent.
pub open spec fn bucket(m: Map<Seq<char>, Seq<Seq<char>>>, key: Seq<char>) -> Seq<Seq<char>> {
    if m.contains_key(key) {
        m[key]
    } else {
        Seq::empty()
    }
}

/// `m` with `id` appended to the list under `key`.
pub open spec fn bucket_push(
    m: Map<Seq<char>, Seq<Seq<char>>>,
    key: Seq<char>,
    id: Seq<char>,
) -> Map<Seq<char>, Seq<Seq<char>>> {
    m.insert(key, bucket(m, key).push(id))
}

/// Whether an identifier is other than `id`.
pub open spec fn other_than(id: Seq<char>) -> spec_fn(Seq<char>) -> bool {
    |q: Seq<char>| q != id
}

/// `m` with every `id` dropped from the list under `key`, when that list
/// exists.
pub open spec fn bucket_drop(
    m: Map<Seq<char>, Seq<Seq<char>>>,
    key: Seq<char>,
    id: Seq<char>,
) -> Map<Seq<char>, Seq<Seq<char>>> {
    if m.contains_key(key) {
        m.insert(key, m[key].filter(other_than(id)))
    } else {
        m
    }
}

/// `m` updated by an optional key: unchanged when there is none.
pub open spec fn bucket_push_opt(
    m: Map<Seq<char>, Seq<Seq<char>>>,
    key: Option<String>,
    id: Seq<char>,
) -> Map<Seq<char>, Seq<Seq<char>>> {
    match key {
        Some(k) => bucket_push(m, k@, id),
        None => m,
    }
}

pub open spec fn bucket_drop_opt(
    m: Map<Seq<char>, Seq<Seq<char>>>,
    key: Option<String>,
    id: Seq<char>,
) -> Map<Seq<char>, Seq<Seq<char>>> {
    match key {
        Some(k) => bucket_drop(m, k@, id),
        None => m,
    }
}

/// The tick list as pairs of ticks and identifier texts.
pub open spec fn tick_entries(v: Seq<(u64, String)>) -> Seq<(u64, Seq<char>)> {
    v.map_values(|e: (u64, String)| (e.0, e.1@))
}

/// Ticks never decrease along the list.
pub open spec fn ticks_sorted(s: Seq<(u64, Seq<char>)>) -> bool {
    forall|i: int, j: int| 0 <= i <= j < s.len() ==> (#[trigger] s[i]).0 <= (#[trigger] s[j]).0
}

/// The length of the longest prefix of `s` whose ticks are earlier than
/// `tick`.
pub open spec fn earlier_prefix_len(s: Seq<(u64, Seq<char>)>, tick: u64) -> nat
    decreases s.len(),
{
    if s.len() == 0 {
        0
    } else if s[0].0 < tick {
        1 + earlier_prefix_len(s.drop_first(), tick)
    } else {
        0
    }
}

/// `entry` placed after the leading entries whose ticks are earlier than
/// its own; in an ordered list, after every entry of an earlier tick and
/// before every entry of the same or a later one.
pub open spec fn tick_insert(s: Seq<(u64, Seq<char>)>, entry: (u64, Seq<char>)) -> Seq<
    (u64, Seq<char>),
> {
    s.insert(earlier_prefix_len(s, entry.0) as int, entry)
}

/// The room lists of an index that recorded `tiles` in order.
pub open spec fn room_buckets_of(tiles: Seq<Tile>) -> Map<Seq<char>, Seq<Seq<char>>>
    decreases tiles.len(),
{
    if tiles.len() == 0 {
        Map::empty()
    } else {
        bucket_push_opt(room_buckets_of(tiles.drop_last()), tiles.last().room_id, tiles.last().id@)
    }
}

/// The type lists of an index that recorded `tiles` in order.
pub open spec fn type_buckets_of(tiles: Seq<Tile>) -> Map<Seq<char>, Seq<Seq<char>>>
    decreases tiles.len(),
{
    if tiles.len() == 0 {
        Map::empty()
    } else {
        bucket_push(
            type_buckets_of(tiles.drop_last()),
            tiles.last().tile_type.spec_text(),
            tiles.last().id@,
        )
    }
}

/// The status lists of an index that recorded `tiles` in order.
pub open spec fn status_buckets_of(tiles: Seq<Tile>) -> Map<Seq<char>, Seq<Seq<char>>>
    decreases tiles.len(),
{
    if tiles.len() == 0 {
        Map::empty()
    } else {
        bucket_push(
            status_buckets_of(tiles.drop_last()),
            tiles.last().status.spec_text(),
            tiles.last().id@,
        )
    }
}

/// The parent lists of an index that recorded `tiles` in order.
pub open spec fn parent_buckets_of(tiles: Seq<Tile>) -> Map<Seq<char>, Seq<Seq<char>>>
    decreases tiles.len(),
{
    if tiles.len() == 0 {
        Map::empty()
    } else {
        bucket_push_opt(
            parent_buckets_of(tiles.drop_last()),
            tiles.last().parent_id,
            tiles.last().id@,
        )
    }
}

/// The ensign lists of an index that recorded `tiles` in order.
pub open spec fn ensign_buckets_of(tiles: Seq<Tile>) -> Map<Seq<char>, Seq<Seq<char>>>
    decreases tiles.len(),
{
    if tiles.len() == 0 {
        Map::empty()
    } else {
        bucket_push_opt(
            ensign_buckets_of(tiles.drop_last()),
            tiles.last().ensign_id,
            tiles.last().id@,
        )
    }
}

/// The tick list of an index that recorded `tiles` in order.
pub open spec fn ticks_of(tiles: Seq<Tile>) -> Seq<(u64, Seq<char>)>
    decreases tiles.len(),
{
    if tiles.len() == 0 {
        Seq::empty()
    } else {
        tick_insert(ticks_of(tiles.drop_last()), (tiles.last().created_tick, tiles.last().id@))
    }
}

/// Where a split position of a list lies: it is the length of the leading
/// run of ticks earlier than `tick`.
proof fn lemma_split_is_prefix_len(s: Seq<(u64, Seq<char>)>, tick: u64, p: int)
    requires
        0 <= p <= s.len(),
        forall|i: int| 0 <= i < p ==> (#[trigger] s[i]).0 < tick,
        forall|i: int| p <= i < s.len() ==> (#[trigger] s[i]).0 >= tick,
    ensures
        earlier_prefix_len(s, tick) == p,
    decreases s.len(),
{
    if s.len() > 0 {
        if p > 0 {
            let rest = s.drop_first();
            assert forall|i: int| 0 <= i < p - 1 implies (#[trigger] rest[i]).0 < tick by {
                assert(rest[i] == s[i + 1]);
            }
            assert forall|i: int| p - 1 <= i < rest.len() implies (#[trigger] rest[i]).0 >= tick by {
                assert(rest[i] == s[i + 1]);
            }
            lemma_split_is_prefix_len(rest, tick, p - 1);
        } else {
            assert(s[0].0 >= tick);
        }
    }
}

/// The leading run is never longer than the list.
pub proof fn lemma_prefix_len_bound(s: Seq<(u64, Seq<char>)>, tick: u64)
    ensures
        earlier_prefix_len(s, tick) <= s.len(),
    decreases s.len(),
{
    if s.len() > 0 {
        lemma_prefix_len_bound(s.drop_first(), tick);
    }
}

/// Appends `id` to the list under `key`, creating the list when absent.
fn push_id(m: &mut StrMap<Vec<String>>, key: &str, id: &str)
    requires
        old(m).wf(),
    ensures
        final(m).wf(),
        buckets(*final(m)) == bucket_push(buckets(*old(m)), key@, id@),
{
    let ghost pre = *m;
    match m.get_mut(key) {
        Some(v) => {
            let ghost pv = *v;
            v.push(id.to_owned());
            proof {
                assert(strings_view(v@) =~= strings_view(pv@).push(id@));
            }
        },
        None => {
            let mut v: Vec<String> = Vec::new();
            v.push(id.to_owned());
            assert(strings_view(v@) =~= seq![id@]);
            m.insert(key.to_owned(), v);
        },
    }
    assert(buckets(*m) =~= bucket_push(buckets(pre), key@, id@));
}

/// Drops every `id` from the list under `key`, when that list exists.
fn drop_id(m: &mut StrMap<Vec<String>>, key: &str, id: &str)
    requires
        old(m).wf(),
    ensures
        final(m).wf(),
        buckets(*final(m)) == bucket_drop(buckets(*old(m)), key@, id@),
{
    let ghost pre = *m;
    match m.get_mut(key) {
        Some(v) => {
            remove_all_str(v, id);
        },
        None => {},
    }
    assert(buckets(*m) =~= bucket_drop(buckets(pre), key@, id@));
}

/// The position of the first entry whose tick is not earlier than `tick`.
fn lower_bound(v: &Vec<(u64, String)>, tick: u64) -> (p: usize)
    requires
        ticks_sorted(tick_entries(v@)),
    ensures
        p <= v@.len(),
        forall|i: int| 0 <= i < p ==> (#[trigger] v@[i]).0 < tick,
        forall|i: int| p <= i < v@.len() ==> (#[trigger] v@[i]).0 >= tick,
        p == earlier_prefix_len(tick_entries(v@), tick),
{
    let mut lo: usize = 0;
    let mut hi: usize = v.len();
    while lo < hi
        invariant
            lo <= hi <= v@.len(),
            ticks_sorted(tick_entries(v@)),
            forall|i: int| 0 <= i < lo ==> (#[trigger] v@[i]).0 < tick,
            forall|i: int| hi <= i < v@.len() ==> (#[trigger] v@[i]).0 >= tick,
        decreases hi - lo,
    {
        let mid = lo + (hi - lo) / 2;
        if v[mid].0 < tick {
            proof {
                assert forall|i: int| 0 <= i <= mid implies (#[trigger] v@[i]).0 < tick by {
                    assert(tick_entries(v@)[i].0 <= tick_entries(v@)[mid as int].0);
                }
            }
            lo = mid + 1;
        } else {
            proof {
                assert forall|i: int| mid <= i < v@.len() implies (#[trigger] v@[i]).0 >= tick by {
                    assert(tick_entries(v@)[mid as int].0 <= tick_entries(v@)[i].0);
                }
            }
            hi = mid;
        }
    }
    proof {
        lemma_split_is_prefix_len(tick_entries(v@), tick, lo as int);
    }
    lo
}

impl TileIndex {
    /// `post` is `pre` after recording `tile`.
    pub open spec fn indexed(pre: TileIndex, post: TileIndex, tile: Tile) -> bool {
        &&& post.wf()
        &&& buckets(post.by_room) == bucket_push_opt(buckets(pre.by_room), tile.room_id, tile.id@)
        &&& buckets(post.by_type) == bucket_push(
            buckets(pre.by_type),
            tile.tile_type.spec_text(),
            tile.id@,
        )
        &&& buckets(post.by_status) == bucket_push(
            buckets(pre.by_status),
            tile.status.spec_text(),
            tile.id@,
        )
        &&& buckets(post.by_parent) == bucket_push_opt(
            buckets(pre.by_parent),
            tile.parent_id,
            tile.id@,
        )
        &&& buckets(post.by_ensign) == bucket_push_opt(
            buckets(pre.by_ensign),
            tile.ensign_id,
            tile.id@,
        )
        &&& tick_entries(post.by_tick@) == tick_insert(
            tick_entries(pre.by_tick@),
            (tile.created_tick, tile.id@),
        )
    }

    /// `post` is `pre` after forgetting `tile`.
    pub open spec fn unindexed(pre: TileIndex, post: TileIndex, tile: Tile) -> bool {
        &&& post.wf()
        &&& buckets(post.by_room) == bucket_drop_opt(buckets(pre.by_room), tile.room_id, tile.id@)
        &&& buckets(post.by_type) == bucket_drop(
            buckets(pre.by_type),
            tile.tile_type.spec_text(),
            tile.id@,
        )
        &&& buckets(post.by_status) == bucket_drop(
            buckets(pre.by_status),
            tile.status.spec_text(),
            tile.id@,
        )
        &&& buckets(post.by_parent) == bucket_drop_opt(
            buckets(pre.by_parent),
            tile.parent_id,
            tile.id@,
        )
        &&& buckets(post.by_ensign) == bucket_drop_opt(
            buckets(pre.by_ensign),
            tile.ensign_id,
            tile.id@,
        )
        &&& tick_entries(post.by_tick@) == tick_entries(pre.by_tick@).filter(
            |e: (u64, Seq<char>)| e.1 != tile.id@,
        )
    }

    /// The index holds exactly what recording `tiles`, in order, into an
    /// empty index gives.
    pub open spec fn holds_exactly(&self, tiles: Seq<Tile>) -> bool {
        &&& self.wf()
        &&& buckets(self.by_room) == room_buckets_of(tiles)
        &&& buckets(self.by_type) == type_buckets_of(tiles)
        &&& buckets(self.by_status) == status_buckets_of(tiles)
        &&& buckets(self.by_parent) == parent_buckets_of(tiles)
        &&& buckets(self.by_ensign) == ensign_buckets_of(tiles)
        &&& tick_entries(self.by_tick@) == ticks_of(tiles)
    }

    /// The index has no entry at all.
    pub open spec fn is_empty_index(&self) -> bool {
        self.holds_exactly(Seq::empty())
    }
}

impl TileIndex {
    /// The bucket maps hold distinct keys and the tick list is ordered.
    pub open spec fn wf(&self) -> bool {
        &&& self.by_room.wf()
        &&& self.by_type.wf()
        &&& self.by_status.wf()
        &&& self.by_parent.wf()
        &&& self.by_ensign.wf()
        &&& ticks_sorted(tick_entries(self.by_tick@))
    }

    /// Whether the tick list is ordered by tick, as every index built by
    /// recording tiles is.
    pub fn tick_order_holds(&self) -> (b: bool)
        ensures
            b == ticks_sorted(tick_entries(self.by_tick@)),
    {
        let ghost s = tick_entries(self.by_tick@);
        let n = self.by_tick.len();
        if n == 0 {
            return true;
        }
        let mut i: usize = 1;
        while i < n
            invariant
                n == self.by_tick@.len(),
                s == tick_entries(self.by_tick@),
                1 <= i <= n,
                forall|a: int, b: int| 0 <= a <= b < i ==> (#[trigger] s[a]).0 <= (#[trigger] s[b]).0,
            decreases n - i,
        {
            if self.by_tick[i - 1].0 > self.by_tick[i].0 {
                assert(s[i - 1].0 > s[i as int].0);
                return false;
            }
            assert forall|a: int, b: int| 0 <= a <= b < i + 1 implies (#[trigger] s[a]).0 <= (
            #[trigger] s[b]).0 by {
                if b == i && a < i {
                    assert(s[a].0 <= s[i - 1].0);
                }
            }
            i = i + 1;
        }
        true
    }

    /// An empty index.
    pub fn new() -> (idx: Self)
        ensures
            idx.is_empty_index(),
    {
        let idx = TileIndex {
            by_room: StrMap::new(),
            by_type: StrMap::new(),
            by_status: StrMap::new(),
            by_parent: StrMap::new(),
            by_ensign: StrMap::new(),
            by_tick: Vec::new(),
        };
        assert(buckets(idx.by_room) =~= Map::<Seq<char>, Seq<Seq<char>>>::empty());
        assert(buckets(idx.by_type) =~= Map::<Seq<char>, Seq<Seq<char>>>::empty());
        assert(buckets(idx.by_status) =~= Map::<Seq<char>, Seq<Seq<char>>>::empty());
        assert(buckets(idx.by_parent) =~= Map::<Seq<char>, Seq<Seq<char>>>::empty());
        assert(buckets(idx.by_ensign) =~= Map::<Seq<char>, Seq<Seq<char>>>::empty());
        assert(room_buckets_of(Seq::empty()) == Map::<Seq<char>, Seq<Seq<char>>>::empty());
        assert(type_buckets_of(Seq::empty()) == Map::<Seq<char>, Seq<Seq<char>>>::empty());
        assert(status_buckets_of(Seq::empty()) == Map::<Seq<char>, Seq<Seq<char>>>::empty());
        assert(parent_buckets_of(Seq::empty()) == Map::<Seq<char>, Seq<Seq<char>>>::empty());
        assert(ensign_buckets_of(Seq::empty()) == Map::<Seq<char>, Seq<Seq<char>>>::empty());
        assert(ticks_of(Seq::empty()) == Seq::<(u64, Seq<char>)>::empty());
        assert(tick_entries(idx.by_tick@) =~= Seq::<(u64, Seq<char>)>::empty());
        idx
    }

    /// Records `tile`: its identifier is appended under its room, type,
    /// status, parent and ensign, and placed in the tick list after every
    /// entry of an earlier tick and before every entry of the same or a
    /// later one.
    pub fn index(&mut self, tile: &Tile)
        requires
            old(self).wf(),
        ensures
            TileIndex::indexed(*old(self), *final(self), *tile),
    {
        if let Some(room_id) = &tile.room_id {
            push_id(&mut self.by_room, room_id.as_str(), tile.id.as_str());
        }
        let tt = tile.tile_type.to_string();
        push_id(&mut self.by_type, tt.as_str(), tile.id.as_str());
        let st = tile.status.to_string();
        push_id(&mut self.by_status, st.as_str(), tile.id.as_str());
        if let Some(parent_id) = &tile.parent_id {
            push_id(&mut self.by_parent, parent_id.as_str(), tile.id.as_str());
        }
        if let Some(ensign_id) = &tile.ensign_id {
            push_id(&mut self.by_ensign, ensign_id.as_str(), tile.id.as_str());
        }
        let ghost pre = tick_entries(self.by_tick@);
        let pos = lower_bound(&self.by_tick, tile.created_tick);
        self.by_tick.insert(pos, (tile.created_tick, tile.id.clone()));
        proof {
            let entry = (tile.created_tick, tile.id@);
            let post = tick_entries(self.by_tick@);
            assert(post =~= pre.insert(pos as int, entry));
            assert(forall|i: int| 0 <= i < pos ==> (#[trigger] pre[i]).0 < entry.0);
            assert(forall|i: int| pos <= i < pre.len() ==> (#[trigger] pre[i]).0 >= entry.0);
            assert forall|i: int, j: int| 0 <= i <= j < post.len() implies (#[trigger] post[i]).0 <= (
            #[trigger] post[j]).0 by {
                if i < pos && j > pos {
                    assert(pre[i].0 <= pre[j - 1].0);
                } else if i < pos && j < pos {
                    assert(pre[i].0 <= pre[j].0);
                } else if i > pos {
                    assert(pre[i - 1].0 <= pre[j - 1].0);
                }
            }
        }
    }

    /// Forgets `tile`: its identifier is dropped from the lists under its
    /// room, type, status, parent and ensign (lists that exist stay, even
    /// when emptied) and every tick entry with its identifier is dropped.
    pub fn remove(&mut self, tile: &Tile)
        requires
            old(self).wf(),
        ensures
            TileIndex::unindexed(*old(self), *final(self), *tile),
    {
        if let Some(room_id) = &tile.room_id {
            drop_id(&mut self.by_room, room_id.as_str(), tile.id.as_str());
        }
        let tt = tile.tile_type.to_string();
        drop_id(&mut self.by_type, tt.as_str(), tile.id.as_str());
        let st = tile.status.to_string();
        drop_id(&mut self.by_status, st.as_str(), tile.id.as_str());
        if let Some(parent_id) = &tile.parent_id {
            drop_id(&mut self.by_parent, parent_id.as_str(), tile.id.as_str());
        }
        if let Some(ensign_id) = &tile.ensign_id {
            drop_id(&mut self.by_ensign, ensign_id.as_str(), tile.id.as_str());
        }
        let ghost orig = tick_entries(self.by_tick@);
        let ghost pred = |e: (u64, Seq<char>)| e.1 != tile.id@;
        let mut kept: Vec<(u64, String)> = Vec::new();
        let mut i: usize = 0;
        while i < self.by_tick.len()
            invariant
                i <= self.by_tick@.len(),
                orig == tick_entries(self.by_tick@),
                pred == (|e: (u64, Seq<char>)| e.1 != tile.id@),
                tick_entries(kept@) == orig.take(i as int).filter(pred),
            decreases self.by_tick@.len() - i,
        {
            proof {
                assert(orig.take(i + 1) =~= orig.take(i as int).push(orig[i as int]));
                orig.take(i as int).lemma_filter_push(orig[i as int], pred);
            }
            if self.by_tick[i].1 != tile.id {
                let e = (self.by_tick[i].0, self.by_tick[i].1.clone());
                kept.push(e);
                assert(tick_entries(kept@) =~= orig.take(i as int).filter(pred).push(orig[i as int]));
            }
            i = i + 1;
        }
        assert(orig.take(self.by_tick@.len() as int) =~= orig);
        proof {
            let f = orig.filter(pred);
            assert forall|a: int, b: int| 0 <= a <= b < f.len() implies (#[trigger] f[a]).0 <= (
            #[trigger] f[b]).0 by {
                lemma_filter_sorted(orig, pred, a, b);
            }
        }
        self.by_tick = kept;
    }

    /// Rebuilds the index from scratch over the given tiles, recording
    /// them in entry order.
    pub fn rebuild(&mut self, tiles: &StrMap<Tile>)
        ensures
            final(self).holds_exactly(tiles.values_seq()),
    {
        let ghost all = tiles.values_seq();
        *self = TileIndex::new();
        assert(all.take(0) =~= Seq::<Tile>::empty());
        let mut i: usize = 0;
        while i < tiles.len()
            invariant
                i <= tiles.spec_len(),
                all == tiles.values_seq(),
                self.holds_exactly(all.take(i as int)),
            decreases tiles.spec_len() - i,
        {
            let t = tiles.value_at_index(i);
            self.index(t);
            proof {
                assert(all.take(i + 1).drop_last() =~= all.take(i as int));
                assert(all.take(i + 1).last() == *t);
            }
            i = i + 1;
        }
        assert(all.take(tiles.spec_len() as int) =~= all);
    }
}

/// Filtering keeps the order of what it keeps.
proof fn lemma_filter_sorted(
    s: Seq<(u64, Seq<char>)>,
    pred: spec_fn((u64, Seq<char>)) -> bool,
    a: int,
    b: int,
)
    requires
        ticks_sorted(s),
        0 <= a <= b < s.filter(pred).len(),
    ensures
        s.filter(pred)[a].0 <= s.filter(pred)[b].0,
    decreases s.len(),
{
    reveal(Seq::filter);
    let f = s.filter(pred);
    let rest = s.drop_last();
    assert(ticks_sorted(rest)) by {
        assert forall|i: int, j: int| 0 <= i <= j < rest.len() implies (#[trigger] rest[i]).0 <= (
        #[trigger] rest[j]).0 by {
            assert(s[i].0 <= s[j].0);
        }
    }
    let rf = rest.filter(pred);
    if pred(s.last()) {
        assert(f == rf.push(s.last()));
        if b < rf.len() {
            lemma_filter_sorted(rest, pred, a, b);
        } else if a < rf.len() {
            lemma_filter_elem_in(rest, pred, a);
            let k = choose|k: int| 0 <= k < rest.len() && rest[k] == rf[a];
            assert(s[k].0 <= s[s.len() - 1].0);
        }
    } else {
        assert(f == rf);
        lemma_filter_sorted(rest, pred, a, b);
    }
}

/// Every element of a filtered sequence comes from the sequence.
proof fn lemma_filter_elem_in(
    s: Seq<(u64, Seq<char>)>,
    pred: spec_fn((u64, Seq<char>)) -> bool,
    a: int,
)
    requires
        0 <= a < s.filter(pred).len(),
    ensures
        exists|k: int| 0 <= k < s.len() && s[k] == s.filter(pred)[a],
{
    s.lemma_filter_contains_rev(pred, s.filter(pred)[a]);
}

} // verus!
