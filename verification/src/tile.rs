//! Tiles: the fundamental unit. Every observation, thought and action of a
//! shell is a tile.

use vstd::prelude::*;
use vstd::utf8::*;
use crate::strmap::StrMap;
use crate::text::{decimal, decimal_string, lemma_decimal_injective};

verus! {

#[derive(Debug, Clone, Copy, PartialEq, Eq, Hash, Structural)]
pub enum TileType {
    Observation,
    Action,
    Thought,
    Delegation,
    Escalation,
    Artifact,
    System,
}

impl TileType {
    /// The type as text: its variant's name.
    pub open spec fn spec_text(&self) -> Seq<char> {
        match self {
            TileType::Observation => "Observation"@,
            TileType::Action => "Action"@,
            TileType::Thought => "Thought"@,
            TileType::Delegation => "Delegation"@,
            TileType::Escalation => "Escalation"@,
            TileType::Artifact => "Artifact"@,
            TileType::System => "System"@,
        }
    }

    /// The type as text.
    pub fn to_string(&self) -> (s: String)
        ensures
            s@ == self.spec_text(),
    {
        match self {
            TileType::Observation => String::from_str("Observation"),
            TileType::Action => String::from_str("Action"),
            TileType::Thought => String::from_str("Thought"),
            TileType::Delegation => String::from_str("Delegation"),
            TileType::Escalation => String::from_str("Escalation"),
            TileType::Artifact => String::from_str("Artifact"),
            TileType::System => String::from_str("System"),
        }
    }
}

#[derive(Debug, Clone, Copy, PartialEq, Eq, Hash, Structural)]
pub enum TileStatus {
    Active,
    Complete,
    Deadband,
    Escalated,
    Archived,
}

impl TileStatus {
    /// The status as text: its variant's name.
    pub open spec fn spec_text(&self) -> Seq<char> {
        match self {
            TileStatus::Active => "Active"@,
            TileStatus::Complete => "Complete"@,
            TileStatus::Deadband => "Deadband"@,
            TileStatus::Escalated => "Escalated"@,
            TileStatus::Archived => "Archived"@,
        }
    }

    /// The status as text.
    pub fn to_string(&self) -> (s: String)
        ensures
            s@ == self.spec_text(),
    {
        match self {
            TileStatus::Active => String::from_str("Active"),
            TileStatus::Complete => String::from_str("Complete"),
            TileStatus::Deadband => String::from_str("Deadband"),
            TileStatus::Escalated => String::from_str("Escalated"),
            TileStatus::Archived => String::from_str("Archived"),
        }
    }
}

#[derive(Debug, Clone)]
pub struct TileContent {
    pub text: String,
    pub data: Option<Vec<u8>>,
    pub mime_type: Option<String>,
}

impl TileContent {
    /// Content made of text alone.
    pub fn text(text: &str) -> (c: Self)
        ensures
            c.text@ == text@,
            c.data is None,
            c.mime_type is None,
    {
        TileContent { text: text.to_owned(), data: None, mime_type: None }
    }

    /// Whether two contents hold the same text, data and type.
    pub open spec fn same_as(&self, o: &TileContent) -> bool {
        &&& self.text == o.text
        &&& self.mime_type == o.mime_type
        &&& match (self.data, o.data) {
            (None, None) => true,
            (Some(a), Some(b)) => a@ == b@,
            _ => false,
        }
    }

    /// A copy of this content.
    pub fn duplicate(&self) -> (c: Self)
        ensures
            c.same_as(self),
    {
        let data = match &self.data {
            Some(d) => {
                let mut v: Vec<u8> = Vec::new();
                let mut i: usize = 0;
                while i < d.len()
                    invariant
                        i <= d@.len(),
                        v@ == d@.take(i as int),
                    decreases d@.len() - i,
                {
                    v.push(d[i]);
                    assert(d@.take(i + 1) =~= d@.take(i as int).push(d@[i as int]));
                    i = i + 1;
                }
                assert(d@.take(d@.len() as int) =~= d@);
                Some(v)
            },
            None => None,
        };
        let mime_type = match &self.mime_type {
            Some(m) => Some(m.clone()),
            None => None,
        };
        TileContent { text: self.text.clone(), data, mime_type }
    }
}

/// How a deadband reading moves; rates and amplitudes in milli-units.
#[derive(Debug, Clone, Copy, PartialEq, Eq, Structural)]
pub enum DeadbandTrend {
    Stable,
    Drifting(i64),
    Oscillating(i64),
    Diverging,
}

/// Deadband monitoring of a tile; bounds and reading in milli-units.
#[derive(Debug, Clone, Copy, PartialEq, Eq, Structural)]
pub struct TileDeadband {
    pub lower: i64,
    pub upper: i64,
    pub current: i64,
    pub trend: DeadbandTrend,
}

impl TileDeadband {
    /// A deadband with a stable trend.
    pub fn new(lower: i64, upper: i64, current: i64) -> (d: Self)
        ensures
            d == (TileDeadband { lower, upper, current, trend: DeadbandTrend::Stable }),
    {
        TileDeadband { lower, upper, current, trend: DeadbandTrend::Stable }
    }

    pub open spec fn spec_in_band(&self) -> bool {
        self.lower <= self.current <= self.upper
    }

    /// Whether the reading lies within the bounds, both included.
    pub fn is_in_band(&self) -> (b: bool)
        ensures
            b == self.spec_in_band(),
            b <==> (self.lower <= self.current && self.current <= self.upper),
    {
        self.current >= self.lower && self.current <= self.upper
    }
}

/// The fundamental unit: everything is tiles.
#[derive(Debug, Clone)]
pub struct Tile {
    pub id: String,
    pub room_id: Option<String>,
    pub tile_type: TileType,
    pub parent_id: Option<String>,
    pub children: Vec<String>,
    pub created_tick: u64,
    pub updated_tick: u64,
    pub status: TileStatus,
    pub content: TileContent,
    pub deadband: Option<TileDeadband>,
    pub ensign_id: Option<String>,
    pub model_used: Option<String>,
    pub tokens_used: u32,
    /// Conservation cost of the tile, in milli-units.
    pub conservation_delta: i64,
    pub metadata: StrMap<String>,
}

/// The identifier `tile-<n>`.
pub open spec fn tile_id_text(n: nat) -> Seq<char> {
    "tile-"@ + decimal(n)
}

/// Different numbers give different tile identifiers.
pub proof fn lemma_tile_id_injective(a: nat, b: nat)
    requires
        tile_id_text(a) == tile_id_text(b),
    ensures
        a == b,
{
    let p = "tile-"@;
    let ta = tile_id_text(a);
    let tb = tile_id_text(b);
    assert(decimal(a) =~= ta.subrange(p.len() as int, ta.len() as int));
    assert(decimal(b) =~= tb.subrange(p.len() as int, tb.len() as int));
    lemma_decimal_injective(a, b);
}

/// A random number: the hash of `0u8` under a newly built
/// `std::collections::hash_map::RandomState`. `RandomState::new` draws the
/// random keys; `hash_one` only turns them into a number. The value rests
/// on chance, so nothing is stated of it.
#[verifier::external_body]
pub(crate) fn random_token() -> u64 {
    std::hash::BuildHasher::hash_one(&std::collections::hash_map::RandomState::new(), 0u8)
}

/// The identifier `tile-<n>`.
pub(crate) fn tile_id_string(n: u128) -> (id: String)
    ensures
        id@ == tile_id_text(n as nat),
{
    let digits = decimal_string(n);
    String::from_str("tile-").concat(digits.as_str())
}

/// A tile identifier, `tile-` followed by a random number.
pub(crate) fn next_tile_id() -> (id: String)
    ensures
        exists|n: nat| id@ == tile_id_text(n),
{
    let n = random_token();
    Tile::id_for(n)
}

/// The optional text as shown in a description, `default` when absent.
pub open spec fn opt_text(o: Option<String>, default: Seq<char>) -> Seq<char> {
    match o {
        Some(s) => s@,
        None => default,
    }
}

/// The text of a tile as its description shows it: the first 60 bytes of
/// its UTF-8 encoding followed by `...` when it is longer than that, else
/// the whole text.
pub open spec fn text_preview(text: Seq<char>) -> Seq<char> {
    if encode_utf8(text).len() > 60 {
        decode_utf8(encode_utf8(text).subrange(0, 60)) + "..."@
    } else {
        text
    }
}

/// Whether the text can be cut after its first 60 bytes without splitting
/// a character (always so when it has at most 60 bytes).
pub open spec fn preview_cut_ok(text: Seq<char>) -> bool {
    encode_utf8(text).len() > 60 ==> is_char_boundary(encode_utf8(text), 60)
}

fn copy_opt_string(o: &Option<String>) -> (r: Option<String>)
    ensures
        r == *o,
{
    match o {
        Some(s) => Some(s.clone()),
        None => None,
    }
}

impl Tile {
    /// A new tile's fields, all but its identifier: no room, parent,
    /// children, deadband, ensign or model; active; created and updated at
    /// `tick`; text content; no tokens, no cost, no metadata.
    pub open spec fn is_fresh(&self, tile_type: TileType, content: Seq<char>, tick: u64) -> bool {
        &&& self.room_id is None
        &&& self.tile_type == tile_type
        &&& self.parent_id is None
        &&& self.children@.len() == 0
        &&& self.created_tick == tick
        &&& self.updated_tick == tick
        &&& self.status == TileStatus::Active
        &&& self.content.text@ == content
        &&& self.content.data is None
        &&& self.content.mime_type is None
        &&& self.deadband is None
        &&& self.ensign_id is None
        &&& self.model_used is None
        &&& self.tokens_used == 0
        &&& self.conservation_delta == 0
        &&& self.metadata.wf()
        &&& self.metadata.spec_len() == 0
    }

    /// Whether two tiles hold the same fields.
    pub open spec fn same_as(&self, o: &Tile) -> bool {
        &&& self.id == o.id
        &&& self.room_id == o.room_id
        &&& self.tile_type == o.tile_type
        &&& self.parent_id == o.parent_id
        &&& self.children@ == o.children@
        &&& self.created_tick == o.created_tick
        &&& self.updated_tick == o.updated_tick
        &&& self.status == o.status
        &&& self.content.same_as(&o.content)
        &&& self.deadband == o.deadband
        &&& self.ensign_id == o.ensign_id
        &&& self.model_used == o.model_used
        &&& self.tokens_used == o.tokens_used
        &&& self.conservation_delta == o.conservation_delta
        &&& self.metadata.entry_seq() == o.metadata.entry_seq()
    }

    /// The one-line description of a tile.
    pub open spec fn spec_describe(&self) -> Seq<char> {
        "["@ + self.id@ + "] "@ + self.tile_type.spec_text() + " ("@ + self.tile_type.spec_text()
            + ") room="@ + opt_text(self.room_id, "no-room"@) + " parent="@ + opt_text(
            self.parent_id,
            "none"@,
        ) + " children="@ + decimal(self.children@.len()) + " status="@ + self.status.spec_text()
            + " \""@ + text_preview(self.content.text@) + "\""@
    }

    /// The identifier `tile-<n>`.
    pub fn id_for(n: u64) -> (id: String)
        ensures
            id@ == tile_id_text(n as nat),
    {
        tile_id_string(n as u128)
    }

    /// A new tile with the given identifier, created at `tick`.
    pub fn with_id(id: &str, tile_type: TileType, content: &str, tick: u64) -> (t: Self)
        ensures
            t.id@ == id@,
            t.is_fresh(tile_type, content@, tick),
    {
        Tile {
            id: id.to_owned(),
            room_id: None,
            tile_type,
            parent_id: None,
            children: Vec::new(),
            created_tick: tick,
            updated_tick: tick,
            status: TileStatus::Active,
            content: TileContent::text(content),
            deadband: None,
            ensign_id: None,
            model_used: None,
            tokens_used: 0,
            conservation_delta: 0,
            metadata: StrMap::new(),
        }
    }

    /// A new tile at tick 0, with a random identifier `tile-<n>`.
    pub fn new(tile_type: TileType, content: &str) -> (t: Self)
        ensures
            exists|n: nat| t.id@ == tile_id_text(n),
            t.is_fresh(tile_type, content@, 0),
    {
        Self::with_tick(tile_type, content, 0)
    }

    /// A new tile created at `tick`, with a random identifier `tile-<n>`.
    pub fn with_tick(tile_type: TileType, content: &str, tick: u64) -> (t: Self)
        ensures
            exists|n: nat| t.id@ == tile_id_text(n),
            t.is_fresh(tile_type, content@, tick),
    {
        let id = next_tile_id();
        Self::with_id(id.as_str(), tile_type, content, tick)
    }

    /// The child of this tile with the given identifier: created at this
    /// tile's update tick, in this tile's room, with this tile as parent.
    pub fn child_with_id(&self, id: &str, tile_type: TileType, content: &str) -> (c: Tile)
        ensures
            c.id@ == id@,
            c.tile_type == tile_type,
            c.content.text@ == content@,
            c.created_tick == self.updated_tick,
            c.updated_tick == self.updated_tick,
            c.parent_id == Some(self.id),
            c.room_id == self.room_id,
            c.status == TileStatus::Active,
            c.children@.len() == 0,
            c.deadband is None,
            c.ensign_id is None,
            c.model_used is None,
            c.tokens_used == 0,
            c.conservation_delta == 0,
            c.metadata.wf(),
            c.metadata.spec_len() == 0,
    {
        let mut c = Tile::with_id(id, tile_type, content, self.updated_tick);
        c.parent_id = Some(self.id.clone());
        c.room_id = copy_opt_string(&self.room_id);
        c
    }

    /// A child of this tile with a random identifier other than this
    /// tile's: created at this tile's update tick, in this tile's room, with
    /// this tile as parent.
    pub fn child(&self, tile_type: TileType, content: &str) -> (c: Tile)
        ensures
            exists|n: nat| c.id@ == tile_id_text(n),
            c.tile_type == tile_type,
            c.content.text@ == content@,
            c.created_tick == self.updated_tick,
            c.updated_tick == self.updated_tick,
            c.parent_id == Some(self.id),
            c.room_id == self.room_id,
            c.status == TileStatus::Active,
            c.children@.len() == 0,
            c.deadband is None,
            c.ensign_id is None,
            c.model_used is None,
            c.tokens_used == 0,
            c.conservation_delta == 0,
            c.metadata.wf(),
            c.metadata.spec_len() == 0,
            c.id@ != self.id@,
    {
        let n = random_token() as u128;
        let mut id = tile_id_string(n);
        if id == self.id {
            id = tile_id_string(n + 1);
            proof {
                if id@ == self.id@ {
                    lemma_tile_id_injective(n as nat, (n + 1) as nat);
                }
            }
        }
        self.child_with_id(id.as_str(), tile_type, content)
    }

    pub fn complete(&mut self)
        ensures
            *final(self) == (Tile { status: TileStatus::Complete, ..*old(self) }),
    {
        self.status = TileStatus::Complete;
    }

    pub fn archive(&mut self)
        ensures
            *final(self) == (Tile { status: TileStatus::Archived, ..*old(self) }),
    {
        self.status = TileStatus::Archived;
    }

    /// Marks the tile escalated and records the reason under the metadata
    /// key `escalation_reason`.
    pub fn escalate(&mut self, reason: &str)
        requires
            old(self).metadata.wf(),
        ensures
            final(self).status == TileStatus::Escalated,
            final(self).metadata.wf(),
            final(self).metadata@ == old(self).metadata@.insert(
                "escalation_reason"@,
                final(self).metadata@["escalation_reason"@],
            ),
            final(self).metadata@["escalation_reason"@]@ == reason@,
            final(self).id == old(self).id,
            final(self).room_id == old(self).room_id,
            final(self).tile_type == old(self).tile_type,
            final(self).parent_id == old(self).parent_id,
            final(self).children == old(self).children,
            final(self).created_tick == old(self).created_tick,
            final(self).updated_tick == old(self).updated_tick,
            final(self).content == old(self).content,
            final(self).deadband == old(self).deadband,
            final(self).ensign_id == old(self).ensign_id,
            final(self).model_used == old(self).model_used,
            final(self).tokens_used == old(self).tokens_used,
            final(self).conservation_delta == old(self).conservation_delta,
    {
        self.status = TileStatus::Escalated;
        let value = reason.to_owned();
        self.metadata.insert(String::from_str("escalation_reason"), value);
    }

    pub fn is_in_deadband(&self) -> (b: bool)
        ensures
            b == (match self.deadband {
                Some(d) => d.spec_in_band(),
                None => false,
            }),
            b <==> (self.deadband is Some && self.deadband->0.lower <= self.deadband->0.current
                && self.deadband->0.current <= self.deadband->0.upper),
    {
        match &self.deadband {
            Some(d) => d.is_in_band(),
            None => false,
        }
    }

    /// `[<id>] <type> (<type>) room=<room> parent=<parent> children=<n>
    /// status=<status> "<text>"`, the text cut after 60 bytes.
    pub fn describe(&self) -> (s: String)
        requires
            preview_cut_ok(self.content.text@),
        ensures
            s@ == self.spec_describe(),
    {
        let room: &str = match &self.room_id {
            Some(r) => r.as_str(),
            None => "no-room",
        };
        let parent: &str = match &self.parent_id {
            Some(p) => p.as_str(),
            None => "none",
        };
        let text = self.content.text.as_str();
        let preview: String = if text.as_bytes().len() > 60 {
            let (head, _) = text.split_at(60);
            proof {
                // the head's characters are what its bytes decode to
                encode_utf8_decode_utf8(head@);
            }
            head.to_owned().concat("...")
        } else {
            text.to_owned()
        };
        let tt = self.tile_type.to_string();
        let st = self.status.to_string();
        let n = decimal_string(self.children.len() as u128);
        String::from_str("[").concat(self.id.as_str()).concat("] ").concat(tt.as_str()).concat(
            " (",
        ).concat(tt.as_str()).concat(") room=").concat(room).concat(" parent=").concat(
            parent,
        ).concat(" children=").concat(n.as_str()).concat(" status=").concat(st.as_str()).concat(
            " \"",
        ).concat(preview.as_str()).concat("\"")
    }

    /// A copy of this tile.
    pub fn duplicate(&self) -> (t: Tile)
        ensures
            t.same_as(self),
    {
        Tile {
            id: self.id.clone(),
            room_id: copy_opt_string(&self.room_id),
            tile_type: self.tile_type,
            parent_id: copy_opt_string(&self.parent_id),
            children: crate::text::clone_strings(&self.children),
            created_tick: self.created_tick,
            updated_tick: self.updated_tick,
            status: self.status,
            content: self.content.duplicate(),
            deadband: self.deadband,
            ensign_id: copy_opt_string(&self.ensign_id),
            model_used: copy_opt_string(&self.model_used),
            tokens_used: self.tokens_used,
            conservation_delta: self.conservation_delta,
            metadata: self.metadata.duplicate(),
        }
    }
}

} // verus!
