//! `TileFilter`: conjunctive queries over tiles.

use vstd::prelude::*;
use crate::tile::{Tile, TileStatus, TileType};

verus! {

/// A query over tiles: every constraint that is set must hold.
#[derive(Debug, Clone, Default)]
pub struct TileFilter {
    pub room_id: Option<String>,
    pub tile_type: Option<TileType>,
    pub status: Option<TileStatus>,
    pub ensign_id: Option<String>,
    pub since_tick: Option<u64>,
    pub until_tick: Option<u64>,
    pub parent_id: Option<String>,
}

/// Whether an optional string constraint admits an optional string value:
/// an unset constraint admits anything, a set one only an equal value.
pub open spec fn text_admits(want: Option<String>, have: Option<String>) -> bool {
    match want {
        None => true,
        Some(w) => match have {
            Some(h) => h@ == w@,
            None => false,
        },
    }
}

fn text_matches(want: &Option<String>, have: &Option<String>) -> (b: bool)
    ensures
        b == text_admits(*want, *have),
{
    match want {
        None => true,
        Some(w) => match have {
            Some(h) => *h == *w,
            None => false,
        },
    }
}

impl TileFilter {
    /// Whether the filter admits the tile.
    pub open spec fn spec_matches(&self, t: Tile) -> bool {
        &&& text_admits(self.room_id, t.room_id)
        &&& (self.tile_type matches Some(tt) ==> t.tile_type == tt)
        &&& (self.status matches Some(st) ==> t.status == st)
        &&& text_admits(self.ensign_id, t.ensign_id)
        &&& (self.since_tick matches Some(s) ==> t.created_tick >= s)
        &&& (self.until_tick matches Some(u) ==> t.created_tick <= u)
        &&& text_admits(self.parent_id, t.parent_id)
    }

    /// Whether no constraint is set.
    pub open spec fn is_unconstrained(&self) -> bool {
        &&& self.room_id is None
        &&& self.tile_type is None
        &&& self.status is None
        &&& self.ensign_id is None
        &&& self.since_tick is None
        &&& self.until_tick is None
        &&& self.parent_id is None
    }

    /// A filter with no constraint.
    pub fn new() -> (f: Self)
        ensures
            f.is_unconstrained(),
    {
        TileFilter {
            room_id: None,
            tile_type: None,
            status: None,
            ensign_id: None,
            since_tick: None,
            until_tick: None,
            parent_id: None,
        }
    }

    /// This filter, constrained to the room `room_id`.
    pub fn room(self, room_id: &str) -> (f: Self)
        ensures
            f.room_id matches Some(r) && r@ == room_id@,
            f == (TileFilter { room_id: f.room_id, ..self }),
    {
        TileFilter { room_id: Some(room_id.to_owned()), ..self }
    }

    /// This filter, constrained to tiles of type `tile_type`.
    pub fn tile_type(self, tile_type: TileType) -> (f: Self)
        ensures
            f == (TileFilter { tile_type: Some(tile_type), ..self }),
    {
        TileFilter { tile_type: Some(tile_type), ..self }
    }

    /// This filter, constrained to tiles with status `status`.
    pub fn status(self, status: TileStatus) -> (f: Self)
        ensures
            f == (TileFilter { status: Some(status), ..self }),
    {
        TileFilter { status: Some(status), ..self }
    }

    /// This filter, constrained to tiles of the ensign `ensign_id`.
    pub fn ensign(self, ensign_id: &str) -> (f: Self)
        ensures
            f.ensign_id matches Some(e) && e@ == ensign_id@,
            f == (TileFilter { ensign_id: f.ensign_id, ..self }),
    {
        TileFilter { ensign_id: Some(ensign_id.to_owned()), ..self }
    }

    /// This filter, constrained to tiles created at `tick` or later.
    pub fn since_tick(self, tick: u64) -> (f: Self)
        ensures
            f == (TileFilter { since_tick: Some(tick), ..self }),
    {
        TileFilter { since_tick: Some(tick), ..self }
    }

    /// This filter, constrained to tiles created at `tick` or earlier.
    pub fn until_tick(self, tick: u64) -> (f: Self)
        ensures
            f == (TileFilter { until_tick: Some(tick), ..self }),
    {
        TileFilter { until_tick: Some(tick), ..self }
    }

    /// This filter, constrained to children of the tile `parent_id`.
    pub fn parent(self, parent_id: &str) -> (f: Self)
        ensures
            f.parent_id matches Some(p) && p@ == parent_id@,
            f == (TileFilter { parent_id: f.parent_id, ..self }),
    {
        TileFilter { parent_id: Some(parent_id.to_owned()), ..self }
    }

    /// Whether the filter admits the tile: every constraint that is set
    /// holds of it.
    pub fn matches(&self, tile: &Tile) -> (b: bool)
        ensures
            b == self.spec_matches(*tile),
            b <==> ({
                &&& (self.room_id is None || (tile.room_id is Some && tile.room_id->0@
                    == self.room_id->0@))
                &&& (self.tile_type is None || tile.tile_type == self.tile_type->0)
                &&& (self.status is None || tile.status == self.status->0)
                &&& (self.ensign_id is None || (tile.ensign_id is Some && tile.ensign_id->0@
                    == self.ensign_id->0@))
                &&& (self.since_tick is None || self.since_tick->0 <= tile.created_tick)
                &&& (self.until_tick is None || tile.created_tick <= self.until_tick->0)
                &&& (self.parent_id is None || (tile.parent_id is Some && tile.parent_id->0@
                    == self.parent_id->0@))
            }),
            (self.ensign_id is Some && b) ==> (tile.ensign_id is Some && tile.ensign_id->0@
                == self.ensign_id->0@),
    {
        if !text_matches(&self.room_id, &tile.room_id) {
            return false;
        }
        if let Some(tt) = &self.tile_type {
            if tile.tile_type != *tt {
                return false;
            }
        }
        if let Some(st) = &self.status {
            if tile.status != *st {
                return false;
            }
        }
        if !text_matches(&self.ensign_id, &tile.ensign_id) {
            return false;
        }
        if let Some(tick) = self.since_tick {
            if tile.created_tick < tick {
                return false;
            }
        }
        if let Some(tick) = self.until_tick {
            if tile.created_tick > tick {
                return false;
            }
        }
        if !text_matches(&self.parent_id, &tile.parent_id) {
            return false;
        }
        true
    }
}

} // verus!
