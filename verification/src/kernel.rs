//! `ShellKernel`: an empty shell with no rooms, no ensigns and no APIs; the
//! construct that creates tiles against a conservation budget, holds ports
//! and allowances, and spawns child shells.

use vstd::prelude::*;
use crate::allowance::Allowance;
use crate::config::{ShellConfig, ShellStatus, ShellTickResult};
use crate::filter::TileFilter;
use crate::index::TileIndex;
use crate::port::Port;
use crate::shell::{generated_shell_id, ShellId, ShellKind};
use crate::store::{derefs, TileStore};
use crate::strmap::StrMap;
use crate::lexical::{lexically_within, within};
use crate::tile::{Tile, TileStatus, TileType, tile_id_text};
use crate::universe::Universe;

verus! {

/// The conservation cost of one tile, in milli-units.
pub const TILE_COST: i64 = 10;

/// The kernel: the hermes-construct.
#[derive(Debug)]
pub struct ShellKernel {
    pub id: ShellId,
    pub kind: ShellKind,
    pub universe: Universe,
    pub tile_store: TileStore,
    pub ports: StrMap<Port>,
    pub allowances: StrMap<Allowance>,
    /// In milli-units.
    pub conservation_budget: i64,
    /// In milli-units.
    pub conservation_used: i64,
    pub autonomy_level: u32,
    pub parent_shell: Option<ShellId>,
    pub child_shells: Vec<ShellId>,
    pub tick: u64,
    pub config: ShellConfig,
}

/// How many of the tiles are complete.
pub open spec fn completed_count(tiles: Seq<Tile>) -> nat {
    tiles.filter(|t: Tile| t.status == TileStatus::Complete).len()
}

/// How many of the ports are enabled.
pub open spec fn enabled_count(ports: Seq<Port>) -> nat {
    ports.filter(|p: Port| p.enabled).len()
}

/// The path of a child shell's universe.
pub open spec fn child_path(parent_path: Seq<char>, name: Seq<char>) -> Seq<char> {
    parent_path + "/children/"@ + name
}

/// The error of `add_port` for an identifier already in use.
pub open spec fn port_exists_message(id: Seq<char>) -> Seq<char> {
    "port "@ + id + " already exists"@
}

/// The error of `remove_port` for an unknown identifier.
pub open spec fn port_missing_message(id: Seq<char>) -> Seq<char> {
    "port "@ + id + " not found"@
}

fn count_completed(tiles: &StrMap<Tile>) -> (n: usize)
    ensures
        n == completed_count(tiles.values_seq()),
{
    let ghost all = tiles.values_seq();
    let ghost pred = |t: Tile| t.status == TileStatus::Complete;
    let mut n: usize = 0;
    let mut i: usize = 0;
    while i < tiles.len()
        invariant
            i <= tiles.spec_len(),
            all == tiles.values_seq(),
            pred == (|t: Tile| t.status == TileStatus::Complete),
            n == all.take(i as int).filter(pred).len(),
            n <= i,
        decreases tiles.spec_len() - i,
    {
        proof {
            assert(all.take(i + 1) =~= all.take(i as int).push(all[i as int]));
            all.take(i as int).lemma_filter_push(all[i as int], pred);
        }
        if tiles.value_at_index(i).status == TileStatus::Complete {
            n = n + 1;
        }
        i = i + 1;
    }
    assert(all.take(tiles.spec_len() as int) =~= all);
    n
}

fn count_enabled(ports: &StrMap<Port>) -> (n: usize)
    ensures
        n == enabled_count(ports.values_seq()),
{
    let ghost all = ports.values_seq();
    let ghost pred = |p: Port| p.enabled;
    let mut n: usize = 0;
    let mut i: usize = 0;
    while i < ports.len()
        invariant
            i <= ports.spec_len(),
            all == ports.values_seq(),
            pred == (|p: Port| p.enabled),
            n == all.take(i as int).filter(pred).len(),
            n <= i,
        decreases ports.spec_len() - i,
    {
        proof {
            assert(all.take(i + 1) =~= all.take(i as int).push(all[i as int]));
            all.take(i as int).lemma_filter_push(all[i as int], pred);
        }
        if ports.value_at_index(i).enabled {
            n = n + 1;
        }
        i = i + 1;
    }
    assert(all.take(ports.spec_len() as int) =~= all);
    n
}

impl ShellKernel {
    pub open spec fn wf(&self) -> bool {
        &&& self.tile_store.wf()
        &&& self.ports.wf()
        &&& self.allowances.wf()
    }

    /// A new empty shell of `kind` over `path`, named `id`: no tiles, ports,
    /// allowances, parent or children; tick 0; autonomy level 1; a
    /// conservation budget of 1,000 units with nothing used; the default
    /// configuration.
    pub open spec fn is_new_shell(&self, kind: ShellKind, path: Seq<char>, id: ShellId) -> bool {
        &&& self.is_empty_shell(kind, path, id)
        &&& self.parent_shell is None
        &&& self.tick == 0
    }

    /// Everything of a new shell but its parent and tick.
    pub open spec fn is_empty_shell(&self, kind: ShellKind, path: Seq<char>, id: ShellId) -> bool {
        &&& self.wf()
        &&& self.id == id
        &&& self.kind == kind
        &&& self.universe.path@ == path
        &&& self.universe.shell_id == id
        &&& self.universe.rooms_dir@ == path + "/rooms"@
        &&& self.universe.tiles_dir@ == path + "/tiles"@
        &&& self.universe.ensigns_dir@ == path + "/ensigns"@
        &&& self.universe.ports_dir@ == path + "/ports"@
        &&& self.universe.config_path@ == path + "/shell.json"@
        &&& self.universe.state_path@ == path + "/state.json"@
        &&& self.tile_store.universe == self.universe
        &&& self.tile_store.tiles.spec_len() == 0
        &&& self.tile_store.index.is_empty_index()
        &&& self.ports.spec_len() == 0
        &&& self.allowances.spec_len() == 0
        &&& self.conservation_budget == 1_000_000
        &&& self.conservation_used == 0
        &&& self.autonomy_level == 1
        &&& self.child_shells@.len() == 0
        &&& self.config.max_tiles == 100_000
        &&& self.config.max_rooms == 100
        &&& self.config.max_ensigns == 50
        &&& self.config.max_child_shells == 20
        &&& self.config.default_deadband_tolerance == 50
        &&& self.config.conservation_limit == 1_000_000
        &&& self.config.log_level@ == "info"@
    }

    /// The new empty shell of `kind` over `path`, named `id`.
    pub fn with_id(kind: ShellKind, path: &str, id: ShellId) -> (k: Self)
        ensures
            k.is_new_shell(kind, path@, id),
    {
        let universe = Universe::new(path, &id);
        ShellKernel {
            tile_store: TileStore::new(&universe),
            id,
            kind,
            universe,
            ports: StrMap::new(),
            allowances: StrMap::new(),
            conservation_budget: 1_000_000,
            conservation_used: 0,
            autonomy_level: 1,
            parent_shell: None,
            child_shells: Vec::new(),
            tick: 0,
            config: ShellConfig::default_config(),
        }
    }

    /// A new empty shell of `kind` over `path`, named from the clock.
    pub fn new(kind: ShellKind, path: &str) -> (k: Self)
        ensures
            exists|n: nat| k.id@ == generated_shell_id(n),
            k.is_new_shell(kind, path@, k.id),
    {
        let id = ShellId::generate();
        Self::with_id(kind, path, id)
    }

    /// Adds `port` under its identifier; fails, changing nothing, when the
    /// identifier is in use.
    pub fn add_port(&mut self, port: Port) -> (r: Result<(), String>)
        requires
            old(self).wf(),
        ensures
            final(self).wf(),
            old(self).ports@.contains_key(port.id@) ==> (r matches Err(e) && e@
                == port_exists_message(port.id@)) && *final(self) == *old(self),
            !old(self).ports@.contains_key(port.id@) ==> r is Ok && final(self).ports@ == old(
                self,
            ).ports@.insert(port.id@, port),
            *final(self) == (ShellKernel { ports: final(self).ports, ..*old(self) }),
    {
        if self.ports.contains_key(port.id.as_str()) {
            let msg = String::from_str("port ").concat(port.id.as_str()).concat(" already exists");
            return Err(msg);
        }
        let key = port.id.clone();
        self.ports.insert(key, port);
        Ok(())
    }

    /// Removes the port `port_id`; fails, changing nothing, when there is
    /// none.
    pub fn remove_port(&mut self, port_id: &str) -> (r: Result<(), String>)
        requires
            old(self).wf(),
        ensures
            final(self).wf(),
            old(self).ports@.contains_key(port_id@) ==> r is Ok && final(self).ports@ == old(
                self,
            ).ports@.remove(port_id@),
            !old(self).ports@.contains_key(port_id@) ==> (r matches Err(e) && e@
                == port_missing_message(port_id@)) && *final(self) == *old(self),
            *final(self) == (ShellKernel { ports: final(self).ports, ..*old(self) }),
    {
        if !self.ports.contains_key(port_id) {
            let msg = String::from_str("port ").concat(port_id).concat(" not found");
            return Err(msg);
        }
        let _ = self.ports.remove(port_id);
        Ok(())
    }

    /// Grants `allowance` under its identifier, replacing any allowance
    /// granted under it.
    pub fn grant_allowance(&mut self, allowance: Allowance)
        requires
            old(self).wf(),
        ensures
            final(self).wf(),
            final(self).allowances@ == old(self).allowances@.insert(allowance.id@, allowance),
            *final(self) == (ShellKernel { allowances: final(self).allowances, ..*old(self) }),
    {
        let key = allowance.id.clone();
        self.allowances.insert(key, allowance);
    }

    /// The shell that `spawn_child` would create for `kind` and `name`:
    /// a new shell in `<universe>/children/<name>`, named from the clock,
    /// whose parent is this shell and whose tick is this shell's. Fails
    /// when the shell already has as many children as its configuration
    /// allows.
    pub fn prepare_child(&self, kind: ShellKind, name: &str) -> (r: Result<ShellKernel, String>)
        ensures
            (self.child_shells@.len() as u32) >= self.config.max_child_shells ==> (r matches Err(e)
                && e@ == "max child shells reached"@),
            (self.child_shells@.len() as u32) < self.config.max_child_shells ==> (r matches Ok(c)
                && (exists|n: nat| c.id@ == generated_shell_id(n))
                && c.is_empty_shell(kind, child_path(self.universe.path@, name@), c.id)
                && c.parent_shell == Some(self.id) && c.tick == self.tick && c.wf()),
    {
        if (self.child_shells.len() as u32) >= self.config.max_child_shells {
            return Err(String::from_str("max child shells reached"));
        }
        let path = self.universe.path.clone().concat("/children/").concat(name);
        let mut child = ShellKernel::new(kind, path.as_str());
        child.parent_shell = Some(self.id.duplicate());
        child.tick = self.tick;
        Ok(child)
    }

    /// Records `child_id` as a child of this shell.
    pub fn register_child(&mut self, child_id: ShellId)
        ensures
            final(self).child_shells@ == old(self).child_shells@.push(child_id),
            *final(self) == (ShellKernel { child_shells: final(self).child_shells, ..*old(self) }),
    {
        self.child_shells.push(child_id);
    }

    /// The identifiers of the child shells, in spawning order.
    pub fn list_children(&self) -> (r: Vec<ShellId>)
        ensures
            r@ == self.child_shells@,
    {
        let mut r: Vec<ShellId> = Vec::new();
        let mut i: usize = 0;
        while i < self.child_shells.len()
            invariant
                i <= self.child_shells@.len(),
                r@ == self.child_shells@.take(i as int),
            decreases self.child_shells@.len() - i,
        {
            r.push(self.child_shells[i].duplicate());
            assert(self.child_shells@.take(i + 1) =~= self.child_shells@.take(i as int).push(
                self.child_shells@[i as int],
            ));
            i = i + 1;
        }
        assert(self.child_shells@.take(self.child_shells@.len() as int) =~= self.child_shells@);
        r
    }

    /// Whether a tile may be created now: the store holds fewer tiles than
    /// the configuration allows (the count taken modulo 2^32) and the
    /// conservation budget covers one more tile.
    pub open spec fn tile_refusal(&self) -> Option<Seq<char>> {
        if (self.tile_store.tiles.spec_len() as u32) >= self.config.max_tiles {
            Some("max tiles reached"@)
        } else if self.conservation_used + TILE_COST > self.conservation_budget {
            Some("conservation budget exceeded"@)
        } else {
            None
        }
    }

    /// `post` is `pre` after creating the tile `t` under the identifier
    /// `id`: a new tile of the given type and text at the current tick,
    /// costing `TILE_COST`, stored and indexed, its cost added to the
    /// conservation used.
    pub open spec fn created_tile(
        pre: ShellKernel,
        post: ShellKernel,
        t: Tile,
        id: Seq<char>,
        tile_type: TileType,
        content: Seq<char>,
    ) -> bool {
        &&& post.wf()
        &&& t.id@ == id
        &&& t.conservation_delta == TILE_COST
        &&& (Tile { conservation_delta: 0, ..t }).is_fresh(tile_type, content, pre.tick)
        &&& post.tile_store.tiles@.contains_key(id)
        &&& post.tile_store.tiles@[id].same_as(&t)
        &&& post.tile_store.tiles@ == pre.tile_store.tiles@.insert(
            id,
            post.tile_store.tiles@[id],
        )
        &&& post.tile_store.tiles.spec_len() == pre.tile_store.tiles.spec_len() + (
        if pre.tile_store.tiles@.contains_key(id) {
            0int
        } else {
            1int
        })
        &&& TileIndex::indexed(pre.tile_store.index, post.tile_store.index, post.tile_store.tiles@[id])
        &&& post.tile_store.universe == pre.tile_store.universe
        &&& post.conservation_used == pre.conservation_used + TILE_COST
        &&& post.conservation_budget == pre.conservation_budget
        &&& post.id == pre.id
        &&& post.kind == pre.kind
        &&& post.universe == pre.universe
        &&& post.ports == pre.ports
        &&& post.allowances == pre.allowances
        &&& post.autonomy_level == pre.autonomy_level
        &&& post.parent_shell == pre.parent_shell
        &&& post.child_shells == pre.child_shells
        &&& post.tick == pre.tick
        &&& post.config == pre.config
    }

    /// Creates a tile under the identifier `id` at the current tick, unless
    /// the tile limit is reached or the conservation budget cannot cover
    /// its cost; gives back a copy of the stored tile.
    pub fn tile_with_id(&mut self, id: &str, tile_type: TileType, content: &str) -> (r: Result<Tile, String>)
        requires
            old(self).wf(),
        ensures
            match old(self).tile_refusal() {
                Some(msg) => (r matches Err(e) && e@ == msg) && *final(self) == *old(self),
                None => r matches Ok(t) && ShellKernel::created_tile(
                    *old(self),
                    *final(self),
                    t,
                    id@,
                    tile_type,
                    content@,
                ),
            },
    {
        if (self.tile_store.count() as u32) >= self.config.max_tiles {
            return Err(String::from_str("max tiles reached"));
        }
        let cost = TILE_COST;
        if (self.conservation_used as i128) + (cost as i128) > (self.conservation_budget as i128) {
            return Err(String::from_str("conservation budget exceeded"));
        }
        let mut tile = Tile::with_id(id, tile_type, content, self.tick);
        self.conservation_used = self.conservation_used + cost;
        tile.conservation_delta = cost;
        let copy = tile.duplicate();
        let ghost stored = tile;
        let _ = self.tile_store.store(tile);
        proof {
            assert(self.tile_store.tiles@[id@] == stored);
        }
        Ok(copy)
    }

    /// Creates a tile at the current tick under an identifier that no stored
    /// tile has, drawn at random, unless the tile limit is reached or the
    /// conservation budget cannot cover its cost; gives back a copy of the
    /// stored tile.
    pub fn tile(&mut self, tile_type: TileType, content: &str) -> (r: Result<Tile, String>)
        requires
            old(self).wf(),
        ensures
            match old(self).tile_refusal() {
                Some(msg) => (r matches Err(e) && e@ == msg) && *final(self) == *old(self),
                None => r matches Ok(t) && (exists|n: nat| t.id@ == tile_id_text(n))
                    && !old(self).tile_store.tiles@.contains_key(t.id@)
                    && final(self).tile_store.tiles.spec_len() == old(self).tile_store.tiles.spec_len() + 1
                    && ShellKernel::created_tile(*old(self), *final(self), t, t.id@, tile_type, content@),
            },
    {
        let id = self.tile_store.fresh_tile_id();
        self.tile_with_id(id.as_str(), tile_type, content)
    }

    /// The stored tiles that `filter` admits, in entry order.
    pub fn query(&self, filter: TileFilter) -> (r: Vec<&Tile>)
        ensures
            derefs(r@) == self.tile_store.tile_seq().filter(|t: Tile| filter.spec_matches(t)),
    {
        self.tile_store.query(filter)
    }

    /// Advances the clock by one tick and reports: no tiles created (none
    /// are created by ticking), the number of complete tiles, the
    /// conservation used so far, the enabled ports and the children (counts
    /// modulo 2^32).
    pub fn advance_tick(&mut self) -> (r: ShellTickResult)
        requires
            old(self).tick < u64::MAX,
        ensures
            *final(self) == (ShellKernel { tick: (old(self).tick + 1) as u64, ..*old(self) }),
            r == (ShellTickResult {
                tiles_created: 0,
                tiles_completed: completed_count(old(self).tile_store.tile_seq()) as u32,
                conservation_delta: old(self).conservation_used,
                active_ports: enabled_count(old(self).ports.values_seq()) as u32,
                children_active: old(self).child_shells@.len() as u32,
            }),
    {
        let tiles_before = self.tile_store.count();
        self.tick = self.tick + 1;
        let completed = count_completed(&self.tile_store.tiles) as u32;
        let created = (self.tile_store.count() as u32) - (tiles_before as u32);
        let active_ports = count_enabled(&self.ports) as u32;
        ShellTickResult {
            tiles_created: created,
            tiles_completed: completed,
            conservation_delta: self.conservation_used,
            active_ports,
            children_active: self.child_shells.len() as u32,
        }
    }

    /// The shell's status, given the number of rooms and ensigns found in
    /// its universe and the universe's disk usage (counts modulo 2^32).
    pub fn status_with(&self, rooms: usize, ensigns: usize, disk_usage: u64) -> (s: ShellStatus)
        ensures
            s.shell_id@ == self.id@,
            s.kind@ == self.kind.spec_label(),
            s.autonomy_level == self.autonomy_level,
            s.rooms == rooms as u32,
            s.ensigns == ensigns as u32,
            s.tiles == self.tile_store.tiles.spec_len() as u32,
            s.ports_active == enabled_count(self.ports.values_seq()) as u32,
            s.children == self.child_shells@.len() as u32,
            s.conservation_remaining == self.conservation_budget - self.conservation_used,
            s.disk_usage == disk_usage,
            s.uptime_ticks == self.tick,
    {
        ShellStatus {
            shell_id: self.id.to_string(),
            kind: self.kind.label(),
            autonomy_level: self.autonomy_level,
            rooms: rooms as u32,
            ensigns: ensigns as u32,
            tiles: self.tile_store.count() as u32,
            ports_active: count_enabled(&self.ports) as u32,
            children: self.child_shells.len() as u32,
            conservation_remaining: self.conservation_budget as i128 - self.conservation_used as i128,
            disk_usage,
            uptime_ticks: self.tick,
        }
    }

    /// Whether the shell is sandboxed: its kind is.
    pub fn is_sandboxed(&self) -> (b: bool)
        ensures
            b == self.kind.spec_sandboxed(),
    {
        self.kind.is_sandboxed()
    }

    /// Whether `path` lies within the universe: it names the universe's
    /// directory or a path below it, compared component by component.
    /// `resolved` holds the canonical forms of the universe's path and of
    /// `path` when both could be resolved on disk; they are compared then.
    /// Otherwise the two paths as written are compared, with `.` and `..`
    /// worked out lexically.
    pub fn can_access_with(&self, path: &str, resolved: Option<(String, String)>) -> (b: bool)
        ensures
            b == (match resolved {
                Some((u, p)) => lexically_within(u@, p@),
                None => lexically_within(self.universe.path@, path@),
            }),
    {
        match resolved {
            Some((u, p)) => within(u.as_str(), p.as_str()),
            None => within(self.universe.path.as_str(), path),
        }
    }

    /// Disables every port, keeping them and their order.
    pub fn disable_all_ports(&mut self)
        requires
            old(self).wf(),
        ensures
            final(self).wf(),
            final(self).ports.spec_len() == old(self).ports.spec_len(),
            forall|i: int|
                0 <= i < old(self).ports.spec_len() ==> #[trigger] final(self).ports.key_at(i)
                    == old(self).ports.key_at(i) && final(self).ports.value_at(i) == (Port {
                    enabled: false,
                    ..old(self).ports.value_at(i)
                }),
            final(self).ports@.dom() == old(self).ports@.dom(),
            forall|k: Seq<char>| #[trigger] final(self).ports@.contains_key(k) ==> !final(self).ports@[k].enabled,
            *final(self) == (ShellKernel { ports: final(self).ports, ..*old(self) }),
    {
        let mut i: usize = 0;
        while i < self.ports.len()
            invariant
                i <= self.ports.spec_len(),
                self.ports.spec_len() == old(self).ports.spec_len(),
                *self == (ShellKernel { ports: self.ports, ..*old(self) }),
                forall|j: int|
                    0 <= j < self.ports.spec_len() ==> #[trigger] self.ports.key_at(j) == old(self).ports.key_at(j),
                forall|j: int|
                    0 <= j < i ==> #[trigger] self.ports.value_at(j) == (Port {
                        enabled: false,
                        ..old(self).ports.value_at(j)
                    }),
                forall|j: int|
                    i <= j < self.ports.spec_len() ==> #[trigger] self.ports.value_at(j) == old(self).ports.value_at(j),
            decreases self.ports.spec_len() - i,
        {
            let ghost before = self.ports;
            let p = self.ports.value_mut_at_index(i);
            p.disable();
            proof {
                assert forall|j: int| 0 <= j < self.ports.spec_len() implies #[trigger] self.ports.key_at(j)
                    == before.key_at(j) && (j != i ==> self.ports.value_at(j) == before.value_at(j)) by {
                    assert(self.ports.entry_seq()[j] == before.entry_seq().update(
                        i as int,
                        (before.entry_seq()[i as int].0, self.ports.value_at(i as int)),
                    )[j]);
                }
                assert(self.ports.value_at(i as int) == (Port {
                    enabled: false,
                    ..before.value_at(i as int)
                }));
                assert forall|j: int| 0 <= j < i + 1 implies #[trigger] self.ports.value_at(j) == (Port {
                    enabled: false,
                    ..old(self).ports.value_at(j)
                }) by {
                    if j < i {
                        assert(self.ports.value_at(j) == before.value_at(j));
                    }
                }
                assert forall|j: int| i + 1 <= j < self.ports.spec_len() implies #[trigger] self.ports.value_at(j)
                    == old(self).ports.value_at(j) by {
                    assert(self.ports.value_at(j) == before.value_at(j));
                }
            }
            i = i + 1;
        }
        proof {
            let pre = old(self).ports;
            let post = self.ports;
            assert forall|a: int, b: int|
                0 <= a < post.spec_len() && 0 <= b < post.spec_len() && a != b implies #[trigger] post.key_at(a)
                != #[trigger] post.key_at(b) by {
                assert(pre.key_at(a) != pre.key_at(b));
            }
            assert forall|k: Seq<char>| post.has_key(k) <==> pre.has_key(k) by {
                if post.has_key(k) {
                    let j = post.index_of(k);
                    assert(pre.key_at(j) == k);
                }
                if pre.has_key(k) {
                    let j = pre.index_of(k);
                    assert(post.key_at(j) == k);
                }
            }
            assert(post@.dom() =~= pre@.dom());
            assert forall|k: Seq<char>| #[trigger] post@.contains_key(k) implies !post@[k].enabled by {
                let j = post.index_of(k);
                post.lemma_view_at(j);
            }
        }
    }
}

} // verus!
