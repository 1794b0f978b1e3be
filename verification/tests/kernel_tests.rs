use lau_shell_kernel::{
    Allowance, Port, PortDirection, PortProtocol, ShellId, ShellKernel, ShellKind, TileFilter,
    TileStatus, TileType,
};

fn tmp() -> tempfile::TempDir {
    tempfile::tempdir().unwrap()
}

fn kernel_path(tmp: &tempfile::TempDir, name: &str) -> String {
    format!("{}/{}", tmp.path().display(), name)
}

/// Spawns a child the way a caller does once the child's universe is
/// created: prepare it, then record it.
fn spawn(k: &mut ShellKernel, kind: ShellKind, name: &str) -> Result<ShellId, String> {
    let child = k.prepare_child(kind, name)?;
    let id = child.id.clone();
    k.register_child(id.clone());
    Ok(id)
}

#[test]
fn kernel_new_is_empty() {
    let tmp = tmp();
    let k = ShellKernel::new(ShellKind::Hermes, &kernel_path(&tmp, "k1"));
    assert!(k.ports.is_empty());
    assert!(k.child_shells.is_empty());
    assert_eq!(k.tile_store.count(), 0);
}

#[test]
fn kernel_new_fields() {
    let k = ShellKernel::with_id(ShellKind::Ensign, "/srv/shell", ShellId::new("sh"));
    assert_eq!(k.id, ShellId::new("sh"));
    assert_eq!(k.universe.path, "/srv/shell");
    assert_eq!(k.tile_store.universe.tiles_dir, "/srv/shell/tiles");
    assert_eq!(k.conservation_budget, 1_000_000);
    assert_eq!(k.conservation_used, 0);
    assert_eq!(k.autonomy_level, 1);
    assert!(k.parent_shell.is_none());
    assert_eq!(k.tick, 0);
    assert_eq!(k.config.max_child_shells, 20);
}

#[test]
fn kernel_add_remove_port() {
    let tmp = tmp();
    let mut k = ShellKernel::new(ShellKind::Hermes, &kernel_path(&tmp, "k3"));
    let p = Port::new("p1", PortProtocol::Http, PortDirection::Inbound);
    k.add_port(p).unwrap();
    assert_eq!(k.ports.len(), 1);
    k.remove_port("p1").unwrap();
    assert!(k.ports.is_empty());
}

#[test]
fn kernel_add_duplicate_port_fails() {
    let tmp = tmp();
    let mut k = ShellKernel::new(ShellKind::Hermes, &kernel_path(&tmp, "k4"));
    k.add_port(Port::new("p1", PortProtocol::Http, PortDirection::Inbound)).unwrap();
    assert!(k.add_port(Port::new("p1", PortProtocol::Http, PortDirection::Inbound)).is_err());
}

#[test]
fn kernel_port_errors() {
    let mut k = ShellKernel::with_id(ShellKind::Hermes, "/x", ShellId::new("s"));
    k.add_port(Port::new("p1", PortProtocol::Http, PortDirection::Inbound)).unwrap();
    assert_eq!(
        k.add_port(Port::new("p1", PortProtocol::Web, PortDirection::Outbound)).unwrap_err(),
        "port p1 already exists"
    );
    assert_eq!(k.ports.get("p1").unwrap().protocol, PortProtocol::Http);
    assert_eq!(k.remove_port("nope").unwrap_err(), "port nope not found");
    assert_eq!(k.ports.len(), 1);
}

#[test]
fn kernel_grant_allowance() {
    let tmp = tmp();
    let mut k = ShellKernel::new(ShellKind::Hermes, &kernel_path(&tmp, "k5"));
    let a = Allowance::new(&k.id.to_string(), "openai");
    k.grant_allowance(a);
    assert_eq!(k.allowances.len(), 1);
}

#[test]
fn kernel_spawn_child() {
    let tmp = tmp();
    let mut k = ShellKernel::new(ShellKind::Hermes, &kernel_path(&tmp, "k6"));
    let child_id = spawn(&mut k, ShellKind::ZeroClaw, "worker-1").unwrap();
    assert_eq!(k.child_shells.len(), 1);
    assert_eq!(k.child_shells[0], child_id);
}

#[test]
fn kernel_prepared_child() {
    let mut k = ShellKernel::with_id(ShellKind::Hermes, "/root-shell", ShellId::new("parent"));
    k.tick = 12;
    let child = k.prepare_child(ShellKind::CUDAClaw, "gpu").unwrap();
    assert_eq!(child.universe.path, "/root-shell/children/gpu");
    assert_eq!(child.parent_shell, Some(ShellId::new("parent")));
    assert_eq!(child.tick, 12);
    assert_eq!(child.kind, ShellKind::CUDAClaw);
    assert!(child.is_sandboxed());
}

#[test]
fn kernel_child_limit() {
    let mut k = ShellKernel::with_id(ShellKind::Hermes, "/p", ShellId::new("p"));
    k.config.max_child_shells = 2;
    spawn(&mut k, ShellKind::ZeroClaw, "a").unwrap();
    spawn(&mut k, ShellKind::ZeroClaw, "b").unwrap();
    assert_eq!(spawn(&mut k, ShellKind::ZeroClaw, "c").unwrap_err(), "max child shells reached");
    assert_eq!(k.child_shells.len(), 2);
}

#[test]
fn kernel_list_children() {
    let tmp = tmp();
    let mut k = ShellKernel::new(ShellKind::Hermes, &kernel_path(&tmp, "k7"));
    spawn(&mut k, ShellKind::ZeroClaw, "w1").unwrap();
    spawn(&mut k, ShellKind::CUDAClaw, "w2").unwrap();
    assert_eq!(k.list_children().len(), 2);
}

#[test]
fn kernel_create_tile() {
    let tmp = tmp();
    let mut k = ShellKernel::new(ShellKind::Hermes, &kernel_path(&tmp, "k8"));
    let t = k.tile(TileType::Observation, "saw it").unwrap();
    assert_eq!(t.content.text, "saw it");
    assert_eq!(k.tile_store.count(), 1);
}

#[test]
fn kernel_tile_costs_and_tick() {
    let mut k = ShellKernel::with_id(ShellKind::Hermes, "/x", ShellId::new("s"));
    k.tick = 4;
    let t = k.tile_with_id("tile-a", TileType::Thought, "t").unwrap();
    assert_eq!(t.id, "tile-a");
    assert_eq!(t.created_tick, 4);
    assert_eq!(t.conservation_delta, 10);
    assert_eq!(k.conservation_used, 10);
    assert_eq!(k.tile_store.get("tile-a").unwrap().conservation_delta, 10);
}

#[test]
fn kernel_query_tiles() {
    let tmp = tmp();
    let mut k = ShellKernel::new(ShellKind::Hermes, &kernel_path(&tmp, "k9"));
    k.tile(TileType::Observation, "obs").unwrap();
    k.tile(TileType::Action, "act").unwrap();
    let results = k.query(TileFilter::new().tile_type(TileType::Observation));
    assert_eq!(results.len(), 1);
}

#[test]
fn kernel_advance_tick() {
    let tmp = tmp();
    let mut k = ShellKernel::new(ShellKind::Hermes, &kernel_path(&tmp, "k10"));
    let result = k.advance_tick();
    assert_eq!(result.tiles_created, 0);
    assert_eq!(k.tick, 1);
}

#[test]
fn kernel_advance_tick_report() {
    let mut k = ShellKernel::with_id(ShellKind::Hermes, "/x", ShellId::new("s"));
    k.tile_with_id("a", TileType::System, "a").unwrap();
    k.tile_with_id("b", TileType::System, "b").unwrap();
    k.tile_store.get_mut("a").unwrap().complete();
    k.add_port(Port::new("p1", PortProtocol::Http, PortDirection::Inbound)).unwrap();
    let mut p2 = Port::new("p2", PortProtocol::Http, PortDirection::Inbound);
    p2.disable();
    k.add_port(p2).unwrap();
    k.register_child(ShellId::new("c"));
    let r = k.advance_tick();
    assert_eq!(r.tiles_created, 0);
    assert_eq!(r.tiles_completed, 1);
    assert_eq!(r.conservation_delta, 20);
    assert_eq!(r.active_ports, 1);
    assert_eq!(r.children_active, 1);
    assert_eq!(k.tick, 1);
}

#[test]
fn kernel_status() {
    let tmp = tmp();
    let mut k = ShellKernel::new(ShellKind::Hermes, &kernel_path(&tmp, "k11"));
    k.tile(TileType::System, "boot").unwrap();
    k.add_port(Port::new("p1", PortProtocol::Http, PortDirection::Inbound)).unwrap();
    let status = k.status_with(0, 0, 0);
    assert_eq!(status.kind, "Hermes");
    assert_eq!(status.tiles, 1);
    assert_eq!(status.ports_active, 1);
    assert_eq!(status.children, 0);
    assert_eq!(status.uptime_ticks, 0);
    assert_eq!(status.shell_id, k.id.0);
    assert_eq!(
        status.conservation_remaining,
        k.conservation_budget as i128 - k.conservation_used as i128
    );
}

#[test]
fn kernel_status_in_full() {
    let mut k = ShellKernel::with_id(ShellKind::Custom("Probe".into()), "/x", ShellId::new("sid"));
    k.tile_with_id("a", TileType::System, "a").unwrap();
    k.advance_tick();
    let s = k.status_with(3, 2, 4096);
    assert_eq!(s.shell_id, "sid");
    assert_eq!(s.kind, "Probe");
    assert_eq!(s.autonomy_level, 1);
    assert_eq!(s.rooms, 3);
    assert_eq!(s.ensigns, 2);
    assert_eq!(s.children, 0);
    assert_eq!(s.conservation_remaining, 999_990);
    assert_eq!(s.disk_usage, 4096);
    assert_eq!(s.uptime_ticks, 1);
}

#[test]
fn kernel_is_sandboxed() {
    let tmp = tmp();
    let k1 = ShellKernel::new(ShellKind::Hermes, &kernel_path(&tmp, "k12"));
    assert!(!k1.is_sandboxed());
    let k2 = ShellKernel::new(ShellKind::ZeroClaw, &kernel_path(&tmp, "k13"));
    assert!(k2.is_sandboxed());
    let k3 = ShellKernel::new(ShellKind::CUDAClaw, &kernel_path(&tmp, "k14"));
    assert!(k3.is_sandboxed());
}

fn resolve(universe: &str, path: &str) -> Option<(String, String)> {
    let u = std::path::Path::new(universe).canonicalize().ok()?;
    let p = std::path::Path::new(path).canonicalize().ok()?;
    Some((u.to_str()?.to_string(), p.to_str()?.to_string()))
}

#[test]
fn kernel_can_access() {
    let tmp = tmp();
    let path = tmp.path().to_str().unwrap().to_string();
    let k = ShellKernel::new(ShellKind::Hermes, &path);
    let sub = tempfile::tempdir_in(tmp.path()).unwrap();
    let inside = sub.path().to_str().unwrap().to_string();
    assert!(k.can_access_with(&inside, resolve(&k.universe.path, &inside)));
    assert!(!k.can_access_with("/etc/passwd", resolve(&k.universe.path, "/etc/passwd")));
}

#[test]
fn kernel_can_access_rules() {
    let k = ShellKernel::with_id(ShellKind::Hermes, "/srv/a", ShellId::new("s"));
    let r = |u: &str, p: &str| Some((u.to_string(), p.to_string()));
    assert!(k.can_access_with("x", r("/srv/a", "/srv/a")));
    assert!(k.can_access_with("x", r("/srv/a", "/srv/a/b/c")));
    assert!(!k.can_access_with("x", r("/srv/a", "/srv/ab")));
    assert!(k.can_access_with("x", r("/", "/etc")));
    assert!(k.can_access_with("x", r("/srv/a/", "/srv/a/b")));
    assert!(k.can_access_with("/srv/a/missing", None));
    assert!(k.can_access_with("/srv/a", None));
    assert!(k.can_access_with("/srv/a/", None));
    assert!(k.can_access_with("/srv/a/./b", None));
    assert!(k.can_access_with("/srv/a//b/../c", None));
    assert!(!k.can_access_with("/srv/abc", None));
    assert!(!k.can_access_with("/srv/a-evil", None));
    assert!(!k.can_access_with("/srv/a/../x", None));
    assert!(!k.can_access_with("/srv/a/b/../../x", None));
    assert!(!k.can_access_with("/srv", None));
    assert!(!k.can_access_with("srv/a/b", None));
}

#[test]
fn kernel_can_access_relative_universe() {
    let k = ShellKernel::with_id(ShellKind::Hermes, "data/u", ShellId::new("s"));
    assert!(k.can_access_with("./data/u/t", None));
    assert!(k.can_access_with("data/x/../u", None));
    assert!(!k.can_access_with("data/u/../../u", None));
    assert!(!k.can_access_with("/data/u", None));
}

#[test]
fn kernel_shutdown() {
    let tmp = tmp();
    let mut k = ShellKernel::new(ShellKind::Hermes, &kernel_path(&tmp, "k16"));
    k.tile(TileType::System, "hello").unwrap();
    k.add_port(Port::new("p1", PortProtocol::Http, PortDirection::Inbound)).unwrap();
    k.disable_all_ports();
    // ports disabled
    assert!(!k.ports.get("p1").unwrap().is_active());
}

#[test]
fn kernel_max_tiles_respected() {
    let tmp = tmp();
    let mut k = ShellKernel::new(ShellKind::Hermes, &kernel_path(&tmp, "k18"));
    k.config.max_tiles = 2;
    k.tile(TileType::System, "t1").unwrap();
    k.tile(TileType::System, "t2").unwrap();
    assert!(k.tile(TileType::System, "t3").is_err());
    assert_eq!(k.tile_store.count(), 2);
}

#[test]
fn kernel_refusals_change_nothing() {
    let mut k = ShellKernel::with_id(ShellKind::Hermes, "/x", ShellId::new("s"));
    k.config.max_tiles = 1;
    k.tile_with_id("a", TileType::System, "a").unwrap();
    assert_eq!(k.tile_with_id("b", TileType::System, "b").unwrap_err(), "max tiles reached");
    assert_eq!(k.tile_store.count(), 1);
    assert_eq!(k.conservation_used, 10);
    k.config.max_tiles = 10;
    k.conservation_budget = 15;
    assert_eq!(
        k.tile_with_id("b", TileType::System, "b").unwrap_err(),
        "conservation budget exceeded"
    );
    assert_eq!(k.conservation_used, 10);
    assert!(k.tile_store.get("b").is_none());
}

#[test]
fn kernel_conservation_budget() {
    let tmp = tmp();
    let mut k = ShellKernel::new(ShellKind::Hermes, &kernel_path(&tmp, "k19"));
    k.conservation_budget = 50; // only enough for 5 tiles at 10 each
    k.tile(TileType::System, "t1").unwrap();
    k.tile(TileType::System, "t2").unwrap();
    k.tile(TileType::System, "t3").unwrap();
    k.tile(TileType::System, "t4").unwrap();
    k.tile(TileType::System, "t5").unwrap();
    assert!(k.tile(TileType::System, "t6").is_err());
    assert_eq!(k.tile_store.count(), 5);
}

#[test]
fn kernel_queries_complete_tiles() {
    let mut k = ShellKernel::with_id(ShellKind::Hermes, "/x", ShellId::new("s"));
    k.tile_with_id("a", TileType::System, "a").unwrap();
    k.tile_with_id("b", TileType::System, "b").unwrap();
    k.tile_store.get_mut("b").unwrap().complete();
    let done = k.query(TileFilter::new().status(TileStatus::Complete));
    assert_eq!(done.len(), 1);
    assert_eq!(done[0].id, "b");
}

#[test]
fn kernel_tiles_created_in_turn_differ() {
    let mut k = ShellKernel::with_id(ShellKind::Hermes, "/x", ShellId::new("s"));
    let a = k.tile(TileType::System, "a").unwrap();
    let b = k.tile(TileType::System, "b").unwrap();
    assert_ne!(a.id, b.id);
    assert!(a.id.starts_with("tile-") && b.id.starts_with("tile-"));
    assert_eq!(k.tile_store.count(), 2);
}

#[test]
fn kernel_child_named_from_clock() {
    let k = ShellKernel::new(ShellKind::Hermes, "/x");
    let child = k.prepare_child(ShellKind::Ensign, "c").unwrap();
    assert!(child.id.0.starts_with("shell-"));
    assert_eq!(child.parent_shell, Some(k.id.clone()));
    assert_eq!(child.universe.path, "/x/children/c");
}

#[test]
fn kernel_mutators_keep_the_rest() {
    let mut k = ShellKernel::with_id(ShellKind::Hermes, "/x", ShellId::new("s"));
    k.add_port(Port::new("p1", PortProtocol::Http, PortDirection::Inbound)).unwrap();
    assert!(k.add_port(Port::new("p1", PortProtocol::Http, PortDirection::Inbound)).is_err());
    assert!(k.remove_port("nope").is_err());
    k.grant_allowance(Allowance::new("s", "api"));
    k.register_child(ShellId::new("c"));
    k.disable_all_ports();
    assert_eq!(k.kind, ShellKind::Hermes);
    assert_eq!(k.id, ShellId::new("s"));
    assert_eq!(k.config.max_tiles, 100_000);
    assert_eq!(k.autonomy_level, 1);
    assert_eq!(k.conservation_budget, 1_000_000);
    assert_eq!(k.ports.len(), 1);
    assert_eq!(k.status_with(0, 0, 0).kind, "Hermes");
}
