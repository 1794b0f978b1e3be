//! Properties of the library that span several operations or every state.

use vstd::prelude::*;
use crate::allowance::Allowance;
use crate::filter::TileFilter;
use crate::index::{
    TileIndex, bucket, bucket_drop, bucket_drop_opt, bucket_push, bucket_push_opt, buckets, other_than,
    earlier_prefix_len, lemma_prefix_len_bound, tick_entries, tick_insert, room_buckets_of,
    type_buckets_of, status_buckets_of, parent_buckets_of, ensign_buckets_of, ticks_of,
};
use crate::kernel::{ShellKernel, TILE_COST};
use crate::kernel::{completed_count, enabled_count};
use crate::port::{Port, PortDeadband, PortDirection, PortProtocol, direction_text};
use crate::text::{decimal, digit_char};
use crate::tile::text_preview;
use vstd::utf8::{decode_utf8, encode_utf8};
use crate::store::{TileStore, distinct_ids, insert_all, lemma_insert_all_distinct, newer_prefix_len, newest_first};
use crate::strmap::StrMap;
use crate::tile::{Tile, TileDeadband, TileStatus, TileType};

verus! {

// ---------------------------------------------------------------------------
// Recent tiles
// ---------------------------------------------------------------------------

/// Creation ticks never increase along `s`.
pub open spec fn newest_first_ordered(s: Seq<Tile>) -> bool {
    forall|i: int, j: int|
        0 <= i <= j < s.len() ==> (#[trigger] s[i]).created_tick >= (#[trigger] s[j]).created_tick
}

proof fn lemma_newer_prefix_split(s: Seq<Tile>, tick: u64)
    requires
        newest_first_ordered(s),
    ensures
        newer_prefix_len(s, tick) <= s.len(),
        forall|i: int| 0 <= i < newer_prefix_len(s, tick) ==> (#[trigger] s[i]).created_tick >= tick,
        forall|i: int|
            newer_prefix_len(s, tick) <= i < s.len() ==> (#[trigger] s[i]).created_tick < tick,
    decreases s.len(),
{
    if s.len() > 0 {
        let rest = s.drop_first();
        if s[0].created_tick >= tick {
            assert(newest_first_ordered(rest)) by {
                assert forall|i: int, j: int| 0 <= i <= j < rest.len() implies (
                #[trigger] rest[i]).created_tick >= (#[trigger] rest[j]).created_tick by {
                    assert(s[i + 1].created_tick >= s[j + 1].created_tick);
                }
            }
            lemma_newer_prefix_split(rest, tick);
            assert forall|i: int| 0 <= i < newer_prefix_len(s, tick) implies (
            #[trigger] s[i]).created_tick >= tick by {
                if i > 0 {
                    assert(s[i] == rest[i - 1]);
                }
            }
            assert forall|i: int| newer_prefix_len(s, tick) <= i < s.len() implies (
            #[trigger] s[i]).created_tick < tick by {
                assert(s[i] == rest[i - 1]);
            }
        } else {
            assert forall|i: int| 0 <= i < s.len() implies (#[trigger] s[i]).created_tick < tick by {
                assert(s[0].created_tick >= s[i].created_tick);
            }
        }
    }
}

/// `recent` lists tiles newest first, and lists every tile of the store
/// exactly once before it is cut to the requested number: ordering newest
/// first yields a sequence whose creation ticks never increase and that
/// holds the same tiles, with the same multiplicities, as the store.
pub proof fn law_recent_newest_first(s: Seq<Tile>)
    ensures
        newest_first_ordered(newest_first(s)),
        newest_first(s).to_multiset() == s.to_multiset(),
        newest_first(s).len() == s.len(),
    decreases s.len(),
{
    broadcast use vstd::seq_lib::to_multiset_insert, vstd::seq_lib::to_multiset_build;

    if s.len() > 0 {
        let prev = s.drop_last();
        law_recent_newest_first(prev);
        let sorted = newest_first(prev);
        let x = s.last();
        lemma_newer_prefix_split(sorted, x.created_tick);
        let p = newer_prefix_len(sorted, x.created_tick) as int;
        let r = sorted.insert(p, x);
        assert(r == newest_first(s));
        assert forall|i: int, j: int| 0 <= i <= j < r.len() implies (#[trigger] r[i]).created_tick
            >= (#[trigger] r[j]).created_tick by {
            if i < p && j < p {
                assert(sorted[i].created_tick >= sorted[j].created_tick);
            } else if i < p && j == p {
            } else if i < p {
                assert(sorted[i].created_tick >= sorted[j - 1].created_tick);
            } else if i == p && j > p {
                assert(sorted[j - 1].created_tick < x.created_tick);
            } else if i > p {
                assert(sorted[i - 1].created_tick >= sorted[j - 1].created_tick);
            }
        }
        assert(s == prev.push(x));
        assert(r.to_multiset() == sorted.to_multiset().insert(x));
    }
}

/// Any prefix of a newest-first sequence is newest first, so `recent(n)`
/// returns its tiles newest first whatever `n` is.
pub proof fn law_recent_prefix_ordered(s: Seq<Tile>, n: int)
    requires
        0 <= n <= s.len(),
    ensures
        newest_first_ordered(newest_first(s).take(n)),
        newest_first(s).take(n).len() == n,
{
    law_recent_newest_first(s);
    let t = newest_first(s).take(n);
    assert forall|i: int, j: int| 0 <= i <= j < t.len() implies (#[trigger] t[i]).created_tick
        >= (#[trigger] t[j]).created_tick by {
        assert(newest_first(s)[i].created_tick >= newest_first(s)[j].created_tick);
    }
}

// ---------------------------------------------------------------------------
// Tile creation by a kernel
// ---------------------------------------------------------------------------

/// A shell creates a tile only when its conservation budget covers the
/// tile's cost, so a shell within its budget stays within it.
pub proof fn law_tile_creation_within_budget(
    pre: ShellKernel,
    post: ShellKernel,
    t: Tile,
    id: Seq<char>,
    tile_type: TileType,
    content: Seq<char>,
)
    requires
        pre.conservation_used <= pre.conservation_budget,
        pre.tile_refusal() is None,
        ShellKernel::created_tile(pre, post, t, id, tile_type, content),
    ensures
        post.conservation_used <= post.conservation_budget,
        post.conservation_used == pre.conservation_used + TILE_COST,
{
}

/// A shell creates a tile only while it holds fewer tiles than its
/// configuration allows, so a shell within its tile limit stays within it.
pub proof fn law_tile_creation_within_limit(
    pre: ShellKernel,
    post: ShellKernel,
    t: Tile,
    id: Seq<char>,
    tile_type: TileType,
    content: Seq<char>,
)
    requires
        pre.tile_store.tiles.spec_len() <= pre.config.max_tiles,
        pre.tile_refusal() is None,
        ShellKernel::created_tile(pre, post, t, id, tile_type, content),
    ensures
        post.tile_store.tiles.spec_len() <= post.config.max_tiles,
{
    assert(pre.tile_store.tiles.spec_len() < pre.config.max_tiles);
}

/// The tile a shell hands back is the tile it stored: reading the store at
/// the tile's identifier gives it back.
pub proof fn law_created_tile_is_stored(
    pre: ShellKernel,
    post: ShellKernel,
    t: Tile,
    id: Seq<char>,
    tile_type: TileType,
    content: Seq<char>,
)
    requires
        ShellKernel::created_tile(pre, post, t, id, tile_type, content),
    ensures
        post.tile_store.tiles@.contains_key(t.id@),
        post.tile_store.tiles@[t.id@].same_as(&t),
        post.tile_store.tiles@[t.id@].created_tick == pre.tick,
{
}

/// Two tiles created in turn by a shell get different identifiers: the
/// second identifier is one the store did not hold, and the store holds the
/// first.
pub proof fn law_tiles_created_in_turn_differ(
    pre: ShellKernel,
    mid: ShellKernel,
    first: Tile,
    second: Tile,
    tile_type: TileType,
    content: Seq<char>,
)
    requires
        ShellKernel::created_tile(pre, mid, first, first.id@, tile_type, content),
        !mid.tile_store.tiles@.contains_key(second.id@),
    ensures
        first.id@ != second.id@,
{
}

// ---------------------------------------------------------------------------
// The tile store
// ---------------------------------------------------------------------------

/// Reading a store at the identifier of the tile last stored gives that
/// tile back, and every other identifier reads as before.
pub proof fn law_store_then_get(pre: Map<Seq<char>, Tile>, post: Map<Seq<char>, Tile>, t: Tile, other: Seq<char>)
    requires
        post == pre.insert(t.id@, t),
        other != t.id@,
    ensures
        post.contains_key(t.id@),
        post[t.id@] == t,
        post.contains_key(other) == pre.contains_key(other),
        pre.contains_key(other) ==> post[other] == pre[other],
{
}

/// Storing tiles keeps the index exact: an index that holds exactly what
/// recording `history` gives, after recording `t`, holds exactly what
/// recording `history` and then `t` gives.
pub proof fn law_index_follows_stores(pre: TileIndex, post: TileIndex, history: Seq<Tile>, t: Tile)
    requires
        pre.holds_exactly(history),
        TileIndex::indexed(pre, post, t),
    ensures
        post.holds_exactly(history.push(t)),
{
    let h = history.push(t);
    assert(h.drop_last() =~= history);
}

/// A store whose index is the index rebuilt from its tiles keeps that
/// property when it stores a tile under a new identifier.
pub proof fn law_store_keeps_index_of_tiles(pre: TileStore, post: TileStore, t: Tile)
    requires
        pre.index.holds_exactly(pre.tile_seq()),
        !pre.tiles@.contains_key(t.id@),
        post.tile_seq() == pre.tile_seq().push(t),
        TileIndex::indexed(pre.index, post.index, t),
    ensures
        post.index.holds_exactly(post.tile_seq()),
{
    law_index_follows_stores(pre.index, post.index, pre.tile_seq(), t);
}

/// Flushing a store and loading what was written gives back the same
/// tiles: loading tiles with distinct identifiers, as many as the store
/// held and each one as the store held it under its identifier, yields the
/// store's map.
pub proof fn law_flush_then_load(stored: StrMap<Tile>, loaded: Seq<Tile>)
    requires
        stored.wf(),
        distinct_ids(loaded),
        loaded.len() == stored.spec_len(),
        forall|i: int|
            0 <= i < loaded.len() ==> stored@.contains_key((#[trigger] loaded[i]).id@) && stored@[loaded[i].id@]
                == loaded[i],
    ensures
        insert_all(Map::empty(), loaded) == stored@,
{
    let m = insert_all(Map::empty(), loaded);
    lemma_insert_all_distinct(loaded);
    stored.lemma_dom_len();
    assert forall|k: Seq<char>| m.dom().contains(k) implies stored@.dom().contains(k) by {
        let i = choose|i: int| 0 <= i < loaded.len() && (#[trigger] loaded[i]).id@ == k;
    }
    vstd::set_lib::lemma_subset_equality(m.dom(), stored@.dom());
    assert forall|k: Seq<char>| #[trigger] m.contains_key(k) implies m[k] == stored@[k] by {
        let i = choose|i: int| 0 <= i < loaded.len() && (#[trigger] loaded[i]).id@ == k;
    }
    assert(m =~= stored@);
}

/// A query with no constraint lists every stored tile, in entry order.
pub proof fn law_unconstrained_query_lists_all(s: Seq<Tile>, f: TileFilter)
    requires
        f.is_unconstrained(),
    ensures
        s.filter(|t: Tile| f.spec_matches(t)) == s,
    decreases s.len(),
{
    reveal(Seq::filter);
    if s.len() > 0 {
        law_unconstrained_query_lists_all(s.drop_last(), f);
        assert(s.drop_last().push(s.last()) =~= s);
    }
}

// ---------------------------------------------------------------------------
// Filters
// ---------------------------------------------------------------------------

/// `g` keeps every constraint that `f` sets, and possibly sets more.
pub open spec fn refines(g: TileFilter, f: TileFilter) -> bool {
    &&& (f.room_id is Some ==> g.room_id == f.room_id)
    &&& (f.tile_type is Some ==> g.tile_type == f.tile_type)
    &&& (f.status is Some ==> g.status == f.status)
    &&& (f.ensign_id is Some ==> g.ensign_id == f.ensign_id)
    &&& (f.since_tick is Some ==> g.since_tick == f.since_tick)
    &&& (f.until_tick is Some ==> g.until_tick == f.until_tick)
    &&& (f.parent_id is Some ==> g.parent_id == f.parent_id)
}

/// An unconstrained filter admits every tile.
pub proof fn law_unconstrained_admits_all(f: TileFilter, t: Tile)
    requires
        f.is_unconstrained(),
    ensures
        f.spec_matches(t),
{
}

/// Adding constraints only narrows a filter: whatever the narrower filter
/// admits, the wider one admits too.
pub proof fn law_constraints_narrow(f: TileFilter, g: TileFilter, t: Tile)
    requires
        refines(g, f),
    ensures
        g.spec_matches(t) ==> f.spec_matches(t),
{
}

// ---------------------------------------------------------------------------
// The tile index
// ---------------------------------------------------------------------------

proof fn lemma_filter_insert_rejected(
    s: Seq<(u64, Seq<char>)>,
    p: int,
    e: (u64, Seq<char>),
    pred: spec_fn((u64, Seq<char>)) -> bool,
)
    requires
        0 <= p <= s.len(),
        !pred(e),
    ensures
        s.insert(p, e).filter(pred) == s.filter(pred),
    decreases s.len(),
{
    reveal(Seq::filter);
    if p == s.len() {
        assert(s.insert(p, e) =~= s.push(e));
        s.lemma_filter_push(e, pred);
    } else {
        let rest = s.drop_last();
        lemma_filter_insert_rejected(rest, p, e, pred);
        assert(s.insert(p, e) =~= rest.insert(p, e).push(s.last()));
        rest.insert(p, e).lemma_filter_push(s.last(), pred);
        assert(s =~= rest.push(s.last()));
        rest.lemma_filter_push(s.last(), pred);
    }
}

proof fn lemma_filter_all_kept(s: Seq<(u64, Seq<char>)>, pred: spec_fn((u64, Seq<char>)) -> bool)
    requires
        forall|i: int| 0 <= i < s.len() ==> pred(#[trigger] s[i]),
    ensures
        s.filter(pred) == s,
    decreases s.len(),
{
    reveal(Seq::filter);
    if s.len() > 0 {
        lemma_filter_all_kept(s.drop_last(), pred);
        assert(s.drop_last().push(s.last()) =~= s);
    }
}

/// Forgetting a tile that was just recorded restores the tick list, when
/// the tile's identifier was not in it before.
pub proof fn law_index_then_remove_restores_ticks(
    pre: TileIndex,
    mid: TileIndex,
    post: TileIndex,
    t: Tile,
)
    requires
        forall|i: int|
            0 <= i < tick_entries(pre.by_tick@).len() ==> (#[trigger] tick_entries(pre.by_tick@)[i]).1
                != t.id@,
        TileIndex::indexed(pre, mid, t),
        TileIndex::unindexed(mid, post, t),
    ensures
        tick_entries(post.by_tick@) == tick_entries(pre.by_tick@),
{
    let s = tick_entries(pre.by_tick@);
    let e = (t.created_tick, t.id@);
    let pred = |x: (u64, Seq<char>)| x.1 != t.id@;
    let p = earlier_prefix_len(s, e.0) as int;
    lemma_prefix_len_bound(s, e.0);
    lemma_filter_insert_rejected(s, p, e, pred);
    lemma_filter_all_kept(s, pred);
}

/// Dropping `id` from the list under `k` leaves no `id` there and changes
/// no list's membership of any other identifier.
proof fn lemma_drop_lists(
    m: Map<Seq<char>, Seq<Seq<char>>>,
    k: Seq<char>,
    id: Seq<char>,
    key: Seq<char>,
    x: Seq<char>,
)
    ensures
        !bucket(bucket_drop(m, k, id), k).contains(id),
        x != id ==> bucket(bucket_drop(m, k, id), key).contains(x) == bucket(m, key).contains(x),
{
    let q = other_than(id);
    if m.contains_key(k) {
        let f = m[k].filter(q);
        assert(bucket(bucket_drop(m, k, id), k) == f);
        if key != k {
            assert(bucket(bucket_drop(m, k, id), key) == bucket(m, key));
        }
        if f.contains(id) {
            let i = choose|i: int| 0 <= i < f.len() && f[i] == id;
            m[k].lemma_filter_pred(q, i);
        }
        if key == k && x != id {
            if f.contains(x) {
                m[k].lemma_filter_contains_rev(q, x);
            }
            if m[k].contains(x) {
                let i = choose|i: int| 0 <= i < m[k].len() && m[k][i] == x;
                m[k].lemma_filter_contains(q, i);
            }
        }
    }
}

proof fn lemma_drop_opt_lists(
    m: Map<Seq<char>, Seq<Seq<char>>>,
    k: Option<String>,
    id: Seq<char>,
    key: Seq<char>,
    x: Seq<char>,
)
    ensures
        k matches Some(kk) ==> !bucket(bucket_drop_opt(m, k, id), kk@).contains(id),
        x != id ==> bucket(bucket_drop_opt(m, k, id), key).contains(x) == bucket(m, key).contains(x),
{
    if let Some(kk) = k {
        lemma_drop_lists(m, kk@, id, key, x);
    }
}

/// Appending `id` to the list under `k` lists it there and changes no
/// list's membership of any other identifier.
proof fn lemma_push_lists(
    m: Map<Seq<char>, Seq<Seq<char>>>,
    k: Seq<char>,
    id: Seq<char>,
    key: Seq<char>,
    x: Seq<char>,
)
    ensures
        bucket(bucket_push(m, k, id), k).contains(id),
        x != id ==> bucket(bucket_push(m, k, id), key).contains(x) == bucket(m, key).contains(x),
        bucket(m, key).contains(x) ==> bucket(bucket_push(m, k, id), key).contains(x),
{
    let old_list = bucket(m, k);
    let new_list = old_list.push(id);
    assert(new_list[old_list.len() as int] == id);
    if key == k && old_list.contains(x) {
        let i = choose|i: int| 0 <= i < old_list.len() && old_list[i] == x;
        assert(new_list[i] == x);
    }
    if key == k && x != id {
        if new_list.contains(x) {
            let i = choose|i: int| 0 <= i < new_list.len() && new_list[i] == x;
            assert(old_list[i] == x);
        }
        if old_list.contains(x) {
            let i = choose|i: int| 0 <= i < old_list.len() && old_list[i] == x;
            assert(new_list[i] == x);
        }
    }
}

proof fn lemma_push_opt_lists(
    m: Map<Seq<char>, Seq<Seq<char>>>,
    k: Option<String>,
    id: Seq<char>,
    key: Seq<char>,
    x: Seq<char>,
)
    ensures
        k matches Some(kk) ==> bucket(bucket_push_opt(m, k, id), kk@).contains(id),
        x != id ==> bucket(bucket_push_opt(m, k, id), key).contains(x) == bucket(m, key).contains(x),
        bucket(m, key).contains(x) ==> bucket(bucket_push_opt(m, k, id), key).contains(x),
{
    if let Some(kk) = k {
        lemma_push_lists(m, kk@, id, key, x);
    }
}

/// In a list whose ticks never decrease, the entries before the leading
/// run of earlier ticks are earlier and the rest are not.
proof fn lemma_earlier_prefix_split(s: Seq<(u64, Seq<char>)>, tick: u64)
    requires
        forall|i: int, j: int| 0 <= i <= j < s.len() ==> (#[trigger] s[i]).0 <= (#[trigger] s[j]).0,
    ensures
        forall|i: int| 0 <= i < earlier_prefix_len(s, tick) ==> (#[trigger] s[i]).0 < tick,
        forall|i: int| earlier_prefix_len(s, tick) <= i < s.len() ==> (#[trigger] s[i]).0 >= tick,
    decreases s.len(),
{
    if s.len() > 0 {
        let rest = s.drop_first();
        assert forall|i: int, j: int| 0 <= i <= j < rest.len() implies (#[trigger] rest[i]).0 <= (
        #[trigger] rest[j]).0 by {
            assert(s[i + 1].0 <= s[j + 1].0);
        }
        lemma_earlier_prefix_split(rest, tick);
        lemma_prefix_len_bound(rest, tick);
        if s[0].0 < tick {
            assert forall|i: int| 0 <= i < earlier_prefix_len(s, tick) implies (#[trigger] s[i]).0
                < tick by {
                if i > 0 {
                    assert(s[i] == rest[i - 1]);
                }
            }
            assert forall|i: int| earlier_prefix_len(s, tick) <= i < s.len() implies (
            #[trigger] s[i]).0 >= tick by {
                assert(s[i] == rest[i - 1]);
            }
        } else {
            assert forall|i: int| 0 <= i < s.len() implies (#[trigger] s[i]).0 >= tick by {
                assert(s[0].0 <= s[i].0);
            }
        }
    }
}

/// Inserting an entry into a tick list keeps every entry and adds it.
proof fn lemma_tick_insert_keeps(s: Seq<(u64, Seq<char>)>, entry: (u64, Seq<char>), x: (u64, Seq<char>))
    ensures
        tick_insert(s, entry).contains(entry),
        s.contains(x) ==> tick_insert(s, entry).contains(x),
{
    let p = earlier_prefix_len(s, entry.0) as int;
    lemma_prefix_len_bound(s, entry.0);
    let r = s.insert(p, entry);
    assert(r[p] == entry);
    if s.contains(x) {
        let i = choose|i: int| 0 <= i < s.len() && s[i] == x;
        if i < p {
            assert(r[i] == x);
        } else {
            assert(r[i + 1] == x);
        }
    }
}

/// An index that holds exactly what recording `tiles` gives lists every one
/// of those tiles: under its room, type, status, parent and ensign, and in
/// the tick list with its creation tick. So does the index that `rebuild`
/// makes of a store's tiles.
pub proof fn law_index_lists_every_tile(idx: TileIndex, tiles: Seq<Tile>, i: int)
    requires
        idx.holds_exactly(tiles),
        0 <= i < tiles.len(),
    ensures
        tiles[i].room_id matches Some(r) ==> bucket(buckets(idx.by_room), r@).contains(tiles[i].id@),
        bucket(buckets(idx.by_type), tiles[i].tile_type.spec_text()).contains(tiles[i].id@),
        bucket(buckets(idx.by_status), tiles[i].status.spec_text()).contains(tiles[i].id@),
        tiles[i].parent_id matches Some(p) ==> bucket(buckets(idx.by_parent), p@).contains(tiles[i].id@),
        tiles[i].ensign_id matches Some(g) ==> bucket(buckets(idx.by_ensign), g@).contains(tiles[i].id@),
        tick_entries(idx.by_tick@).contains((tiles[i].created_tick, tiles[i].id@)),
{
    lemma_history_lists(tiles, i);
}

proof fn lemma_history_lists(tiles: Seq<Tile>, i: int)
    requires
        0 <= i < tiles.len(),
    ensures
        tiles[i].room_id matches Some(r) ==> bucket(room_buckets_of(tiles), r@).contains(tiles[i].id@),
        bucket(type_buckets_of(tiles), tiles[i].tile_type.spec_text()).contains(tiles[i].id@),
        bucket(status_buckets_of(tiles), tiles[i].status.spec_text()).contains(tiles[i].id@),
        tiles[i].parent_id matches Some(p) ==> bucket(parent_buckets_of(tiles), p@).contains(tiles[i].id@),
        tiles[i].ensign_id matches Some(g) ==> bucket(ensign_buckets_of(tiles), g@).contains(tiles[i].id@),
        ticks_of(tiles).contains((tiles[i].created_tick, tiles[i].id@)),
    decreases tiles.len(),
{
    let prev = tiles.drop_last();
    let t = tiles.last();
    let x = tiles[i];
    let n = tiles.len() - 1;
    lemma_tick_insert_keeps(ticks_of(prev), (t.created_tick, t.id@), (x.created_tick, x.id@));
    if i < n {
        assert(prev[i] == x);
        lemma_history_lists(prev, i);
    }
    if let Some(r) = x.room_id {
        lemma_push_opt_lists(room_buckets_of(prev), t.room_id, t.id@, r@, x.id@);
    }
    lemma_push_lists(type_buckets_of(prev), t.tile_type.spec_text(), t.id@, x.tile_type.spec_text(), x.id@);
    lemma_push_lists(status_buckets_of(prev), t.status.spec_text(), t.id@, x.status.spec_text(), x.id@);
    if let Some(p) = x.parent_id {
        lemma_push_opt_lists(parent_buckets_of(prev), t.parent_id, t.id@, p@, x.id@);
    }
    if let Some(g) = x.ensign_id {
        lemma_push_opt_lists(ensign_buckets_of(prev), t.ensign_id, t.id@, g@, x.id@);
    }
}

/// After a tile is forgotten no list of the index holds its identifier:
/// not the lists under its room, type, status, parent and ensign, and no
/// tick entry. Every other identifier is listed under every key exactly as
/// before, and every tick entry of another identifier is kept.
pub proof fn law_removed_tile_absent(
    pre: TileIndex,
    post: TileIndex,
    t: Tile,
    key: Seq<char>,
    x: Seq<char>,
    e: (u64, Seq<char>),
)
    requires
        TileIndex::unindexed(pre, post, t),
    ensures
        forall|i: int|
            0 <= i < tick_entries(post.by_tick@).len() ==> (#[trigger] tick_entries(post.by_tick@)[i]).1
                != t.id@,
        t.room_id matches Some(r) ==> !bucket(buckets(post.by_room), r@).contains(t.id@),
        !bucket(buckets(post.by_type), t.tile_type.spec_text()).contains(t.id@),
        !bucket(buckets(post.by_status), t.status.spec_text()).contains(t.id@),
        t.parent_id matches Some(p) ==> !bucket(buckets(post.by_parent), p@).contains(t.id@),
        t.ensign_id matches Some(g) ==> !bucket(buckets(post.by_ensign), g@).contains(t.id@),
        x != t.id@ ==> {
            &&& bucket(buckets(post.by_room), key).contains(x) == bucket(buckets(pre.by_room), key).contains(x)
            &&& bucket(buckets(post.by_type), key).contains(x) == bucket(buckets(pre.by_type), key).contains(x)
            &&& bucket(buckets(post.by_status), key).contains(x) == bucket(buckets(pre.by_status), key).contains(x)
            &&& bucket(buckets(post.by_parent), key).contains(x) == bucket(buckets(pre.by_parent), key).contains(x)
            &&& bucket(buckets(post.by_ensign), key).contains(x) == bucket(buckets(pre.by_ensign), key).contains(x)
        },
        e.1 != t.id@ ==> tick_entries(post.by_tick@).contains(e) == tick_entries(pre.by_tick@).contains(e),
{
    let pred = |y: (u64, Seq<char>)| y.1 != t.id@;
    let s = tick_entries(pre.by_tick@);
    let f = s.filter(pred);
    assert forall|i: int| 0 <= i < f.len() implies (#[trigger] f[i]).1 != t.id@ by {
        s.lemma_filter_pred(pred, i);
    }
    if e.1 != t.id@ {
        if f.contains(e) {
            s.lemma_filter_contains_rev(pred, e);
        }
        if s.contains(e) {
            let i = choose|i: int| 0 <= i < s.len() && s[i] == e;
            s.lemma_filter_contains(pred, i);
        }
    }
    lemma_drop_opt_lists(buckets(pre.by_room), t.room_id, t.id@, key, x);
    lemma_drop_lists(buckets(pre.by_type), t.tile_type.spec_text(), t.id@, key, x);
    lemma_drop_lists(buckets(pre.by_status), t.status.spec_text(), t.id@, key, x);
    lemma_drop_opt_lists(buckets(pre.by_parent), t.parent_id, t.id@, key, x);
    lemma_drop_opt_lists(buckets(pre.by_ensign), t.ensign_id, t.id@, key, x);
}

/// After a tile is recorded, its identifier is listed under its room, type,
/// status, parent and ensign, and the tick list holds one more entry, the
/// tile's tick and identifier, and stays ordered. Every other identifier is
/// listed under every key exactly as before, and every earlier tick entry
/// is kept.
pub proof fn law_indexed_tile_listed(
    pre: TileIndex,
    post: TileIndex,
    t: Tile,
    key: Seq<char>,
    x: Seq<char>,
    e: (u64, Seq<char>),
)
    requires
        pre.wf(),
        TileIndex::indexed(pre, post, t),
    ensures
        t.room_id matches Some(r) ==> bucket(buckets(post.by_room), r@).contains(t.id@),
        bucket(buckets(post.by_type), t.tile_type.spec_text()).contains(t.id@),
        bucket(buckets(post.by_status), t.status.spec_text()).contains(t.id@),
        t.parent_id matches Some(p) ==> bucket(buckets(post.by_parent), p@).contains(t.id@),
        t.ensign_id matches Some(g) ==> bucket(buckets(post.by_ensign), g@).contains(t.id@),
        x != t.id@ ==> {
            &&& bucket(buckets(post.by_room), key).contains(x) == bucket(buckets(pre.by_room), key).contains(x)
            &&& bucket(buckets(post.by_type), key).contains(x) == bucket(buckets(pre.by_type), key).contains(x)
            &&& bucket(buckets(post.by_status), key).contains(x) == bucket(buckets(pre.by_status), key).contains(x)
            &&& bucket(buckets(post.by_parent), key).contains(x) == bucket(buckets(pre.by_parent), key).contains(x)
            &&& bucket(buckets(post.by_ensign), key).contains(x) == bucket(buckets(pre.by_ensign), key).contains(x)
        },
        tick_entries(post.by_tick@).len() == tick_entries(pre.by_tick@).len() + 1,
        tick_entries(post.by_tick@).contains((t.created_tick, t.id@)),
        exists|p: int|
            0 <= p < tick_entries(post.by_tick@).len() && tick_entries(post.by_tick@)[p] == (
            t.created_tick,
            t.id@,
            ) && (forall|i: int| 0 <= i < p ==> (#[trigger] tick_entries(post.by_tick@)[i]).0 < t.created_tick)
                && (forall|i: int|
                p < i < tick_entries(post.by_tick@).len() ==> (#[trigger] tick_entries(post.by_tick@)[i]).0
                    >= t.created_tick),
        tick_entries(pre.by_tick@).contains(e) ==> tick_entries(post.by_tick@).contains(e),
        forall|i: int, j: int|
            0 <= i <= j < tick_entries(post.by_tick@).len() ==> (#[trigger] tick_entries(post.by_tick@)[i]).0
                <= (#[trigger] tick_entries(post.by_tick@)[j]).0,
{
    let s = tick_entries(pre.by_tick@);
    let entry = (t.created_tick, t.id@);
    let p = earlier_prefix_len(s, entry.0) as int;
    lemma_prefix_len_bound(s, entry.0);
    let r = s.insert(p, entry);
    assert(r[p] == entry);
    lemma_earlier_prefix_split(s, entry.0);
    assert forall|i: int| 0 <= i < p implies (#[trigger] r[i]).0 < t.created_tick by {
        assert(r[i] == s[i]);
    }
    assert forall|i: int| p < i < r.len() implies (#[trigger] r[i]).0 >= t.created_tick by {
        assert(r[i] == s[i - 1]);
    }
    if s.contains(e) {
        let i = choose|i: int| 0 <= i < s.len() && s[i] == e;
        if i < p {
            assert(r[i] == e);
        } else {
            assert(r[i + 1] == e);
        }
    }
    lemma_push_opt_lists(buckets(pre.by_room), t.room_id, t.id@, key, x);
    lemma_push_lists(buckets(pre.by_type), t.tile_type.spec_text(), t.id@, key, x);
    lemma_push_lists(buckets(pre.by_status), t.status.spec_text(), t.id@, key, x);
    lemma_push_opt_lists(buckets(pre.by_parent), t.parent_id, t.id@, key, x);
    lemma_push_opt_lists(buckets(pre.by_ensign), t.ensign_id, t.id@, key, x);
}

// ---------------------------------------------------------------------------
// Ports and permissions
// ---------------------------------------------------------------------------

/// Adding a port under an unused identifier and then removing it gives the
/// shell back the ports it had.
pub proof fn law_add_then_remove_port(
    before: Map<Seq<char>, Port>,
    added: Map<Seq<char>, Port>,
    after: Map<Seq<char>, Port>,
    port: Port,
)
    requires
        !before.contains_key(port.id@),
        added == before.insert(port.id@, port),
        after == added.remove(port.id@),
    ensures
        after == before,
{
    assert(after =~= before);
}

/// The permissions after granting `perm` to `before`.
pub open spec fn granted(before: Seq<Seq<char>>, perm: Seq<char>) -> Seq<Seq<char>> {
    if before.contains(perm) {
        before
    } else {
        before.push(perm)
    }
}

/// A granted permission is held; granting it again changes nothing; a
/// permission list without repeats stays without repeats.
pub proof fn law_grant(before: Seq<Seq<char>>, perm: Seq<char>)
    ensures
        granted(before, perm).contains(perm),
        granted(granted(before, perm), perm) == granted(before, perm),
        before.no_duplicates() ==> granted(before, perm).no_duplicates(),
{
    if !before.contains(perm) {
        assert(before.push(perm)[before.len() as int] == perm);
    }
}

/// A revoked permission is no longer held, and every other permission is
/// kept.
pub proof fn law_revoke(before: Seq<Seq<char>>, perm: Seq<char>, other: Seq<char>)
    requires
        other != perm,
    ensures
        !before.filter(|q: Seq<char>| q != perm).contains(perm),
        before.filter(|q: Seq<char>| q != perm).contains(other) == before.contains(other),
{
    let pred = |q: Seq<char>| q != perm;
    let f = before.filter(pred);
    if f.contains(perm) {
        let i = choose|i: int| 0 <= i < f.len() && f[i] == perm;
        before.lemma_filter_pred(pred, i);
    }
    if before.contains(other) {
        let i = choose|i: int| 0 <= i < before.len() && before[i] == other;
        before.lemma_filter_contains(pred, i);
    }
    if f.contains(other) {
        let i = choose|i: int| 0 <= i < f.len() && f[i] == other;
        before.lemma_filter_contains_rev(pred, other);
    }
}

// ---------------------------------------------------------------------------
// Allowances
// ---------------------------------------------------------------------------

/// A use of an API succeeds only when the remaining budget covers its
/// cost, so an allowance within its budget stays within it.
pub proof fn law_use_within_budget(pre: Allowance, post: Allowance, cost: i64)
    requires
        pre.budget_used <= pre.budget,
        pre.spec_remaining() >= cost,
        post == (Allowance { budget_used: (pre.budget_used + cost) as i64, ..pre }),
        i64::MIN <= pre.budget_used + cost,
    ensures
        post.budget_used <= post.budget,
        post.spec_remaining() == pre.spec_remaining() - cost,
{
}

/// Once expired, an allowance stays expired at every later tick.
pub proof fn law_expiry_is_permanent(a: Allowance, tick: u64, later: u64)
    requires
        a.spec_expired(tick),
        tick <= later,
    ensures
        a.spec_expired(later),
{
}



// ---------------------------------------------------------------------------
// Counting in a tick report
// ---------------------------------------------------------------------------

/// The completed tiles are counted one by one: none among no tiles, and one
/// more tile adds one exactly when its status is `Complete`. So the count
/// never exceeds the number of tiles and equals it when every tile is
/// complete.
pub proof fn law_completed_count(s: Seq<Tile>, t: Tile)
    ensures
        completed_count(Seq::<Tile>::empty()) == 0,
        completed_count(s.push(t)) == completed_count(s) + (if t.status == TileStatus::Complete {
            1int
        } else {
            0int
        }),
        completed_count(s) <= s.len(),
        (forall|i: int| 0 <= i < s.len() ==> (#[trigger] s[i]).status == TileStatus::Complete)
            ==> completed_count(s) == s.len(),
        (forall|i: int| 0 <= i < s.len() ==> (#[trigger] s[i]).status != TileStatus::Complete)
            ==> completed_count(s) == 0,
    decreases s.len(),
{
    reveal(Seq::filter);
    assert(s.push(t).drop_last() =~= s);
    assert(Seq::<Tile>::empty().filter(|t: Tile| t.status == TileStatus::Complete) =~= Seq::<Tile>::empty());
    if s.len() > 0 {
        let prev = s.drop_last();
        law_completed_count(prev, s.last());
        assert(prev.push(s.last()) =~= s);
        assert forall|i: int| 0 <= i < prev.len() implies #[trigger] prev[i] == s[i] by {}
    }
}

/// The enabled ports are counted one by one: none among no ports, and one
/// more port adds one exactly when it is enabled.
pub proof fn law_enabled_count(s: Seq<Port>, p: Port)
    ensures
        enabled_count(Seq::<Port>::empty()) == 0,
        enabled_count(s.push(p)) == enabled_count(s) + (if p.enabled {
            1int
        } else {
            0int
        }),
        enabled_count(s) <= s.len(),
        (forall|i: int| 0 <= i < s.len() ==> (#[trigger] s[i]).enabled) ==> enabled_count(s) == s.len(),
        (forall|i: int| 0 <= i < s.len() ==> !(#[trigger] s[i]).enabled) ==> enabled_count(s) == 0,
    decreases s.len(),
{
    reveal(Seq::filter);
    assert(s.push(p).drop_last() =~= s);
    assert(Seq::<Port>::empty().filter(|p: Port| p.enabled) =~= Seq::<Port>::empty());
    if s.len() > 0 {
        let prev = s.drop_last();
        law_enabled_count(prev, s.last());
        assert(prev.push(s.last()) =~= s);
        assert forall|i: int| 0 <= i < prev.len() implies #[trigger] prev[i] == s[i] by {}
    }
}

// ---------------------------------------------------------------------------
// Filters, constraint by constraint
// ---------------------------------------------------------------------------

/// A filter admits a tile exactly when every constraint it sets holds: the
/// tile is in the room, of the type, in the status, of the ensign, created
/// within the tick range and a child of the parent that the filter names.
/// A set room, ensign or parent constraint is never met by a tile that has
/// none.
pub proof fn law_filter_conjunction(f: TileFilter, t: Tile)
    ensures
        f.spec_matches(t) <==> {
            &&& (f.room_id is None || (t.room_id is Some && t.room_id->0@ == f.room_id->0@))
            &&& (f.tile_type is None || t.tile_type == f.tile_type->0)
            &&& (f.status is None || t.status == f.status->0)
            &&& (f.ensign_id is None || (t.ensign_id is Some && t.ensign_id->0@ == f.ensign_id->0@))
            &&& (f.since_tick is None || f.since_tick->0 <= t.created_tick)
            &&& (f.until_tick is None || t.created_tick <= f.until_tick->0)
            &&& (f.parent_id is None || (t.parent_id is Some && t.parent_id->0@ == f.parent_id->0@))
        },
        (f.ensign_id is Some && t.ensign_id is None) ==> !f.spec_matches(t),
        (f.room_id is Some && t.room_id is None) ==> !f.spec_matches(t),
        (f.parent_id is Some && t.parent_id is None) ==> !f.spec_matches(t),
{
}

/// A query lists exactly the stored tiles that its filter admits: a tile
/// without an ensign is never listed by a query that names an ensign.
pub proof fn law_query_respects_filter(s: Seq<Tile>, f: TileFilter, t: Tile)
    ensures
        s.filter(|x: Tile| f.spec_matches(x)).contains(t) <==> (s.contains(t) && f.spec_matches(t)),
        (f.ensign_id is Some && t.ensign_id is None) ==> !s.filter(|x: Tile| f.spec_matches(x)).contains(t),
{
    let pred = |x: Tile| f.spec_matches(x);
    if s.filter(pred).contains(t) {
        s.lemma_filter_contains_rev(pred, t);
        let i = choose|i: int| 0 <= i < s.filter(pred).len() && s.filter(pred)[i] == t;
        s.lemma_filter_pred(pred, i);
    }
    if s.contains(t) && f.spec_matches(t) {
        let i = choose|i: int| 0 <= i < s.len() && s[i] == t;
        s.lemma_filter_contains(pred, i);
    }
}

// ---------------------------------------------------------------------------
// Deadbands
// ---------------------------------------------------------------------------

/// A tile's deadband reading is in band exactly when it lies between the
/// bounds, both included: a reading below the lower bound or above the upper
/// one never is.
pub proof fn law_tile_deadband_in_band(d: TileDeadband)
    ensures
        d.spec_in_band() <==> (d.lower <= d.current && d.current <= d.upper),
        d.current < d.lower ==> !d.spec_in_band(),
        d.current > d.upper ==> !d.spec_in_band(),
        d.lower > d.upper ==> !d.spec_in_band(),
{
}

/// A port's deadband reading is in band exactly when it lies between the
/// bounds, both included.
pub proof fn law_port_deadband_in_band(d: PortDeadband)
    ensures
        d.spec_in_band() <==> (d.lower <= d.current && d.current <= d.upper),
        d.current < d.lower ==> !d.spec_in_band(),
        d.current > d.upper ==> !d.spec_in_band(),
{
}

// ---------------------------------------------------------------------------
// Descriptions
// ---------------------------------------------------------------------------

/// A port's direction is shown as `in`, `out` or `in/out`, a different text
/// for each direction.
pub proof fn law_direction_text(a: PortDirection, b: PortDirection)
    ensures
        direction_text(PortDirection::Inbound) == seq!['i', 'n'],
        direction_text(PortDirection::Outbound) == seq!['o', 'u', 't'],
        direction_text(PortDirection::Bidirectional) == seq!['i', 'n', '/', 'o', 'u', 't'],
        direction_text(a) == direction_text(b) ==> a == b,
{
    reveal_strlit("in");
    reveal_strlit("out");
    reveal_strlit("in/out");
    assert("in"@ =~= seq!['i', 'n']);
    assert("out"@ =~= seq!['o', 'u', 't']);
    assert("in/out"@ =~= seq!['i', 'n', '/', 'o', 'u', 't']);
    if direction_text(a) == direction_text(b) && a != b {
        assert(direction_text(a).len() != direction_text(b).len() || direction_text(a)[0]
            != direction_text(b)[0]);
    }
}

/// A port is described as `Port <id> [<direction>] <protocol> → <target>
/// (<state>)`, the state `active` when the port is enabled and `disabled`
/// otherwise.
pub proof fn law_port_description(p: Port)
    ensures
        p.spec_describe() == seq!['P', 'o', 'r', 't', ' '] + p.id@ + seq![' ', '['] + direction_text(
            p.direction,
        ) + seq![']', ' '] + p.protocol.spec_text() + seq![' ', '→', ' '] + p.target@ + seq![' ', '(']
            + (if p.enabled {
            seq!['a', 'c', 't', 'i', 'v', 'e']
        } else {
            seq!['d', 'i', 's', 'a', 'b', 'l', 'e', 'd']
        }) + seq![')'],
{
    reveal_strlit("Port ");
    reveal_strlit(" [");
    reveal_strlit("] ");
    reveal_strlit(" → ");
    reveal_strlit(" (");
    reveal_strlit("active");
    reveal_strlit("disabled");
    reveal_strlit(")");
    assert("Port "@ =~= seq!['P', 'o', 'r', 't', ' ']);
    assert(" ["@ =~= seq![' ', '[']);
    assert("] "@ =~= seq![']', ' ']);
    assert(" → "@ =~= seq![' ', '→', ' ']);
    assert(" ("@ =~= seq![' ', '(']);
    assert("active"@ =~= seq!['a', 'c', 't', 'i', 'v', 'e']);
    assert("disabled"@ =~= seq!['d', 'i', 's', 'a', 'b', 'l', 'e', 'd']);
    assert(")"@ =~= seq![')']);
}

/// Each protocol is shown by its name; a custom one as `Custom(<name>)`.
pub proof fn law_protocol_text(name: String)
    ensures
        PortProtocol::Telegram.spec_text() == "Telegram"@,
        PortProtocol::Web.spec_text() == "Web"@,
        PortProtocol::WebSocket.spec_text() == "WebSocket"@,
        PortProtocol::Http.spec_text() == "Http"@,
        PortProtocol::Mqtt.spec_text() == "Mqtt"@,
        PortProtocol::Serial.spec_text() == "Serial"@,
        PortProtocol::Gpio.spec_text() == "Gpio"@,
        PortProtocol::Custom(name).spec_text() == "Custom("@ + name@ + ")"@,
{
}

/// Each tile type and each status is shown by its name.
pub proof fn law_type_and_status_text()
    ensures
        TileType::Observation.spec_text() == "Observation"@,
        TileType::Action.spec_text() == "Action"@,
        TileType::Thought.spec_text() == "Thought"@,
        TileType::Delegation.spec_text() == "Delegation"@,
        TileType::Escalation.spec_text() == "Escalation"@,
        TileType::Artifact.spec_text() == "Artifact"@,
        TileType::System.spec_text() == "System"@,
        TileStatus::Active.spec_text() == "Active"@,
        TileStatus::Complete.spec_text() == "Complete"@,
        TileStatus::Deadband.spec_text() == "Deadband"@,
        TileStatus::Escalated.spec_text() == "Escalated"@,
        TileStatus::Archived.spec_text() == "Archived"@,
{
}

/// A digit is shown by its character, and a number of ten or more by the
/// digits of its tenth followed by its last digit.
pub proof fn law_decimal_digits(n: nat)
    ensures
        n < 10 ==> decimal(n) == seq![digit_char(n)] && digit_char(n) as u32 == 48 + n,
        n >= 10 ==> decimal(n) == decimal(n / 10) + decimal(n % 10),
{
}

/// A tile is described as `[<id>] <type> (<type>) room=<room> parent=<parent>
/// children=<count> status=<status> "<text>"`, with `no-room` and `none` for
/// a missing room and parent; a text of at most 60 bytes is shown whole and
/// a longer one cut after 60 bytes and followed by `...`.
pub proof fn law_tile_description(t: Tile)
    ensures
        t.spec_describe() == "["@ + t.id@ + "] "@ + t.tile_type.spec_text() + " ("@
            + t.tile_type.spec_text() + ") room="@ + (match t.room_id {
            Some(r) => r@,
            None => "no-room"@,
        }) + " parent="@ + (match t.parent_id {
            Some(p) => p@,
            None => "none"@,
        }) + " children="@ + decimal(t.children@.len()) + " status="@ + t.status.spec_text()
            + " \""@ + text_preview(t.content.text@) + "\""@,
        encode_utf8(t.content.text@).len() <= 60 ==> text_preview(t.content.text@) == t.content.text@,
        encode_utf8(t.content.text@).len() > 60 ==> text_preview(t.content.text@) == decode_utf8(
            encode_utf8(t.content.text@).subrange(0, 60),
        ) + "..."@,
{
}

} // verus!
