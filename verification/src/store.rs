//! `TileStore`: the tiles of a shell, keyed by identifier, with their index.
//! Writing tiles to disk and reading them back is left to the caller; the
//! store computes where each tile goes and takes loaded tiles back in.

use vstd::prelude::*;
use crate::filter::TileFilter;
use crate::index::TileIndex;
use crate::strmap::StrMap;
use crate::tile::{Tile, lemma_tile_id_injective, random_token, tile_id_string, tile_id_text};
use crate::universe::Universe;

verus! {

#[derive(Debug, Clone)]
pub struct TileStore {
    pub universe: Universe,
    pub tiles: StrMap<Tile>,
    pub index: TileIndex,
}

/// The tiles a list of references points at.
pub open spec fn derefs(v: Seq<&Tile>) -> Seq<Tile> {
    v.map_values(|r: &Tile| *r)
}

/// How many leading tiles of `s` were created at `tick` or later.
pub open spec fn newer_prefix_len(s: Seq<Tile>, tick: u64) -> nat
    decreases s.len(),
{
    if s.len() == 0 {
        0
    } else if s[0].created_tick >= tick {
        1 + newer_prefix_len(s.drop_first(), tick)
    } else {
        0
    }
}

/// The tiles of `s`, newest first; tiles created at the same tick keep
/// their order in `s`.
pub open spec fn newest_first(s: Seq<Tile>) -> Seq<Tile>
    decreases s.len(),
{
    if s.len() == 0 {
        s
    } else {
        let sorted = newest_first(s.drop_last());
        sorted.insert(newer_prefix_len(sorted, s.last().created_tick) as int, s.last())
    }
}

/// The tiles of `tiles` that are children of the tile `parent`.
pub open spec fn children_in(tiles: Seq<Tile>, parent: Seq<char>) -> Seq<Tile> {
    tiles.filter(|t: Tile| t.parent_id matches Some(p) && p@ == parent)
}

/// The tiles of `tiles` that are in the room `room`.
pub open spec fn in_room(tiles: Seq<Tile>, room: Seq<char>) -> Seq<Tile> {
    tiles.filter(|t: Tile| t.room_id matches Some(r) && r@ == room)
}

/// The map after inserting each tile of `s` under its identifier, in order.
pub open spec fn insert_all(m: Map<Seq<char>, Tile>, s: Seq<Tile>) -> Map<Seq<char>, Tile>
    decreases s.len(),
{
    if s.len() == 0 {
        m
    } else {
        insert_all(m, s.drop_last()).insert(s.last().id@, s.last())
    }
}

/// No two tiles of `s` share an identifier.
pub open spec fn distinct_ids(s: Seq<Tile>) -> bool {
    forall|i: int, j: int| 0 <= i < j < s.len() ==> (#[trigger] s[i]).id@ != (#[trigger] s[j]).id@
}

/// Inserting tiles with distinct identifiers into an empty map gives a map
/// that holds each of them under its identifier and nothing else.
pub proof fn lemma_insert_all_distinct(s: Seq<Tile>)
    requires
        distinct_ids(s),
    ensures
        insert_all(Map::empty(), s).dom().finite(),
        insert_all(Map::empty(), s).dom().len() == s.len(),
        forall|i: int|
            0 <= i < s.len() ==> insert_all(Map::empty(), s).contains_key((#[trigger] s[i]).id@)
                && insert_all(Map::empty(), s)[s[i].id@] == s[i],
        forall|k: Seq<char>|
            #[trigger] insert_all(Map::empty(), s).contains_key(k) ==> exists|i: int|
                0 <= i < s.len() && (#[trigger] s[i]).id@ == k,
    decreases s.len(),
{
    broadcast use vstd::set::axiom_set_insert_len, vstd::set::axiom_set_insert_finite;

    if s.len() == 0 {
        assert(Map::<Seq<char>, Tile>::empty().dom() =~= Set::<Seq<char>>::empty());
    } else {
        let prev = s.drop_last();
        let x = s.last();
        let n = s.len() - 1;
        assert forall|i: int, j: int| 0 <= i < j < prev.len() implies (#[trigger] prev[i]).id@
            != (#[trigger] prev[j]).id@ by {
            assert(prev[i] == s[i] && prev[j] == s[j]);
        }
        lemma_insert_all_distinct(prev);
        let m = insert_all(Map::empty(), prev);
        let post = insert_all(Map::empty(), s);
        assert(post == m.insert(x.id@, x));
        if m.contains_key(x.id@) {
            let i = choose|i: int| 0 <= i < prev.len() && (#[trigger] prev[i]).id@ == x.id@;
            assert(prev[i] == s[i]);
            assert(s[i].id@ != s[n].id@);
        }
        assert(post.dom() =~= m.dom().insert(x.id@));
        assert forall|i: int| 0 <= i < s.len() implies post.contains_key((#[trigger] s[i]).id@)
            && post[s[i].id@] == s[i] by {
            if i < n {
                assert(prev[i] == s[i]);
                assert(s[i].id@ != s[n].id@);
            }
        }
        assert forall|k: Seq<char>| #[trigger] post.contains_key(k) implies exists|i: int|
            0 <= i < s.len() && (#[trigger] s[i]).id@ == k by {
            if k == x.id@ {
                assert(s[n].id@ == k);
            } else {
                let i = choose|i: int| 0 <= i < prev.len() && (#[trigger] prev[i]).id@ == k;
                assert(s[i] == prev[i]);
            }
        }
    }
}

/// The number of leading tiles of `s` created at `tick` or later.
fn newer_prefix(s: &Vec<&Tile>, tick: u64) -> (p: usize)
    ensures
        p == newer_prefix_len(derefs(s@), tick),
        p <= s@.len(),
{
    let ghost d = derefs(s@);
    assert(d.skip(0) =~= d);
    let mut i: usize = 0;
    while i < s.len() && s[i].created_tick >= tick
        invariant
            i <= s@.len(),
            d == derefs(s@),
            newer_prefix_len(d, tick) == i + newer_prefix_len(d.skip(i as int), tick),
        decreases s@.len() - i,
    {
        proof {
            let rest = d.skip(i as int);
            assert(rest[0] == d[i as int]);
            assert(rest.drop_first() =~= d.skip(i + 1));
        }
        i = i + 1;
    }
    proof {
        let rest = d.skip(i as int);
        if i < s@.len() {
            assert(rest[0] == d[i as int]);
        } else {
            assert(rest.len() == 0);
        }
    }
    i
}

impl TileStore {
    pub open spec fn wf(&self) -> bool {
        &&& self.tiles.wf()
        &&& self.index.wf()
    }

    /// The stored tiles, in entry order.
    pub open spec fn tile_seq(&self) -> Seq<Tile> {
        self.tiles.values_seq()
    }

    /// An empty store over a copy of `universe`.
    pub fn new(universe: &Universe) -> (s: Self)
        ensures
            s.wf(),
            s.universe == *universe,
            s.tiles@ == Map::<Seq<char>, Tile>::empty(),
            s.tiles.spec_len() == 0,
            s.index.is_empty_index(),
    {
        TileStore { universe: universe.duplicate(), tiles: StrMap::new(), index: TileIndex::new() }
    }

    /// A tile identifier that no stored tile has: `tile-` followed by a
    /// random number, stepped up past the numbers already taken.
    pub fn fresh_tile_id(&self) -> (id: String)
        ensures
            !self.tiles@.contains_key(id@),
            exists|n: nat| id@ == tile_id_text(n),
    {
        let start = random_token() as u128;
        let total = self.tiles.len();
        let mut k: usize = 0;
        let mut id = tile_id_string(start);
        let ghost mut tried: Seq<Seq<char>> = Seq::empty();
        while self.tiles.contains_key(id.as_str())
            invariant
                k <= self.tiles.spec_len() == total,
                start < 0x1_0000_0000_0000_0000,
                id@ == tile_id_text((start + k) as nat),
                tried.len() == k,
                forall|j: int| 0 <= j < k ==> #[trigger] tried[j] == tile_id_text((start + j) as nat),
                forall|j: int| 0 <= j < k ==> self.tiles@.contains_key(#[trigger] tried[j]),
            decreases self.tiles.spec_len() - k,
        {
            proof {
                let more = tried.push(id@);
                assert forall|j: int| 0 <= j <= k implies #[trigger] more[j] == tile_id_text(
                    (start + j) as nat,
                ) by {}
                assert(more.no_duplicates()) by {
                    assert forall|a: int, b: int|
                        0 <= a < more.len() && 0 <= b < more.len() && a != b implies more[a]
                        != more[b] by {
                        if more[a] == more[b] {
                            lemma_tile_id_injective((start + a) as nat, (start + b) as nat);
                        }
                    }
                }
                assert forall|j: int| 0 <= j < more.len() implies self.tiles@.contains_key(
                    #[trigger] more[j],
                ) by {
                    if j < k {
                        assert(more[j] == tried[j]);
                    }
                }
                self.tiles.lemma_distinct_keys_bound(more);
                tried = more;
            }
            k = k + 1;
            id = tile_id_string(start + k as u128);
        }
        id
    }

    /// Stores `tile` under its identifier, replacing any tile stored under
    /// it, and records it in the index. Never fails.
    pub fn store(&mut self, tile: Tile) -> (r: Result<(), String>)
        requires
            old(self).wf(),
        ensures
            r is Ok,
            final(self).wf(),
            final(self).tiles@ == old(self).tiles@.insert(tile.id@, tile),
            final(self).tiles.spec_len() == old(self).tiles.spec_len() + (if old(
                self,
            ).tiles@.contains_key(tile.id@) {
                0int
            } else {
                1int
            }),
            !old(self).tiles@.contains_key(tile.id@) ==> final(self).tile_seq() == old(
                self,
            ).tile_seq().push(tile),
            TileIndex::indexed(old(self).index, final(self).index, tile),
            final(self).universe == old(self).universe,
    {
        let ghost pre = self.tiles;
        let ghost stored = tile;
        self.index.index(&tile);
        let key = tile.id.clone();
        self.tiles.insert(key, tile);
        proof {
            if !pre@.contains_key(stored.id@) {
                assert(self.tiles.values_seq() =~= pre.values_seq().push(stored));
            }
        }
        Ok(())
    }

    /// The tile stored under `tile_id`, if any.
    pub fn get(&self, tile_id: &str) -> (r: Option<&Tile>)
        requires
            self.wf(),
        ensures
            match r {
                Some(t) => self.tiles@.contains_key(tile_id@) && *t == self.tiles@[tile_id@],
                None => !self.tiles@.contains_key(tile_id@),
            },
    {
        self.tiles.get(tile_id)
    }

    /// A mutable reference to the tile stored under `tile_id`, if any; the
    /// index is not updated through it.
    pub fn get_mut(&mut self, tile_id: &str) -> (r: Option<&mut Tile>)
        requires
            old(self).wf(),
        ensures
            final(self).index == old(self).index,
            final(self).universe == old(self).universe,
            match r {
                Some(t) => {
                    &&& old(self).tiles@.contains_key(tile_id@)
                    &&& *t == old(self).tiles@[tile_id@]
                    &&& final(self).wf()
                    &&& final(self).tiles@ == old(self).tiles@.insert(tile_id@, *final(t))
                },
                None => !old(self).tiles@.contains_key(tile_id@) && final(self).tiles == old(
                    self,
                ).tiles,
            },
    {
        self.tiles.get_mut(tile_id)
    }

    /// The stored tiles that `filter` admits, in entry order.
    pub fn query(&self, filter: TileFilter) -> (r: Vec<&Tile>)
        ensures
            derefs(r@) == self.tile_seq().filter(|t: Tile| filter.spec_matches(t)),
    {
        let ghost all = self.tile_seq();
        let ghost pred = |t: Tile| filter.spec_matches(t);
        let mut res: Vec<&Tile> = Vec::new();
        let mut i: usize = 0;
        while i < self.tiles.len()
            invariant
                i <= self.tiles.spec_len(),
                all == self.tile_seq(),
                pred == (|t: Tile| filter.spec_matches(t)),
                derefs(res@) == all.take(i as int).filter(pred),
            decreases self.tiles.spec_len() - i,
        {
            let t = self.tiles.value_at_index(i);
            proof {
                assert(all[i as int] == *t);
                assert(all.take(i + 1) =~= all.take(i as int).push(all[i as int]));
                all.take(i as int).lemma_filter_push(all[i as int], pred);
            }
            if filter.matches(t) {
                res.push(t);
                assert(derefs(res@) =~= all.take(i as int).filter(pred).push(*t));
            }
            i = i + 1;
        }
        assert(all.take(self.tiles.spec_len() as int) =~= all);
        res
    }

    /// The stored tiles whose parent is `tile_id`, in entry order.
    pub fn children_of(&self, tile_id: &str) -> (r: Vec<&Tile>)
        ensures
            derefs(r@) == children_in(self.tile_seq(), tile_id@),
    {
        let f = TileFilter::new().parent(tile_id);
        let r = self.query(f);
        assert((|t: Tile| f.spec_matches(t)) =~= (|t: Tile| t.parent_id matches Some(p) && p@
            == tile_id@));
        r
    }

    /// The stored tiles in the room `room_id`, in entry order.
    pub fn room_tiles(&self, room_id: &str) -> (r: Vec<&Tile>)
        ensures
            derefs(r@) == in_room(self.tile_seq(), room_id@),
    {
        let f = TileFilter::new().room(room_id);
        let r = self.query(f);
        assert((|t: Tile| f.spec_matches(t)) =~= (|t: Tile| t.room_id matches Some(r) && r@
            == room_id@));
        r
    }

    /// The `n` most recently created tiles, newest first; tiles created at
    /// the same tick keep their entry order.
    pub fn recent(&self, n: usize) -> (r: Vec<&Tile>)
        ensures
            derefs(r@) == newest_first(self.tile_seq()).take(
                if n <= self.tiles.spec_len() { n as int } else { self.tiles.spec_len() as int },
            ),
    {
        let ghost all = self.tile_seq();
        let mut sorted: Vec<&Tile> = Vec::new();
        let mut i: usize = 0;
        while i < self.tiles.len()
            invariant
                i <= self.tiles.spec_len(),
                all == self.tile_seq(),
                derefs(sorted@) == newest_first(all.take(i as int)),
                sorted@.len() == i,
            decreases self.tiles.spec_len() - i,
        {
            let t = self.tiles.value_at_index(i);
            let p = newer_prefix(&sorted, t.created_tick);
            proof {
                let pre = all.take(i + 1);
                assert(pre.drop_last() =~= all.take(i as int));
                assert(pre.last() == *t);
                lemma_newest_first_len(all.take(i as int));
            }
            sorted.insert(p, t);
            assert(derefs(sorted@) =~= newest_first(all.take(i as int)).insert(p as int, *t));
            i = i + 1;
        }
        assert(all.take(self.tiles.spec_len() as int) =~= all);
        if n < sorted.len() {
            sorted.truncate(n);
        }
        assert(derefs(sorted@) =~= newest_first(all).take(
            if n <= self.tiles.spec_len() { n as int } else { self.tiles.spec_len() as int },
        ));
        sorted
    }

    /// The number of stored tiles.
    pub fn count(&self) -> (n: usize)
        ensures
            n == self.tiles.spec_len(),
    {
        self.tiles.len()
    }

    /// Replaces the store's tiles by `loaded`: the tiles and the index are
    /// cleared, then each loaded tile is indexed and stored under its
    /// identifier, in order.
    pub fn load_tiles(&mut self, loaded: Vec<Tile>)
        requires
            old(self).wf(),
        ensures
            final(self).wf(),
            final(self).tiles@ == insert_all(Map::<Seq<char>, Tile>::empty(), loaded@),
            distinct_ids(loaded@) ==> final(self).tiles.spec_len() == loaded@.len(),
            final(self).index.holds_exactly(loaded@),
            final(self).universe == old(self).universe,
    {
        self.tiles.clear();
        self.index = TileIndex::new();
        let mut rest = loaded;
        let ghost all = rest@;
        assert(all.len() == rest.len());
        assert(all.take(0) =~= Seq::<Tile>::empty());
        let mut done: usize = 0;
        while rest.len() > 0
            invariant
                self.wf(),
                self.universe == old(self).universe,
                done + rest@.len() == all.len(),
                all.len() <= usize::MAX,
                rest@ == all.skip(done as int),
                self.tiles@ == insert_all(Map::<Seq<char>, Tile>::empty(), all.take(done as int)),
                self.index.holds_exactly(all.take(done as int)),
            decreases rest@.len(),
        {
            assert(done < all.len());
            let tile = rest.remove(0);
            proof {
                assert(all[done as int] == tile);
                assert(all.take(done + 1).drop_last() =~= all.take(done as int));
                assert(all.take(done + 1).last() == tile);
            }
            self.index.index(&tile);
            let key = tile.id.clone();
            self.tiles.insert(key, tile);
            done = done + 1;
            assert(rest@ =~= all.skip(done as int));
        }
        assert(all.take(done as int) =~= all);
        proof {
            if distinct_ids(all) {
                lemma_insert_all_distinct(all);
                self.tiles.lemma_dom_len();
            }
        }
    }
}

/// Ordering newest first keeps the number of tiles.
pub proof fn lemma_newest_first_len(s: Seq<Tile>)
    ensures
        newest_first(s).len() == s.len(),
        forall|tick: u64| #[trigger] newer_prefix_len(newest_first(s), tick) <= s.len(),
    decreases s.len(),
{
    if s.len() > 0 {
        lemma_newest_first_len(s.drop_last());
    }
    assert forall|tick: u64| #[trigger] newer_prefix_len(newest_first(s), tick) <= s.len() by {
        lemma_newer_prefix_bound(newest_first(s), tick);
    }
}

proof fn lemma_newer_prefix_bound(s: Seq<Tile>, tick: u64)
    ensures
        newer_prefix_len(s, tick) <= s.len(),
    decreases s.len(),
{
    if s.len() > 0 {
        lemma_newer_prefix_bound(s.drop_first(), tick);
    }
}

} // verus!
