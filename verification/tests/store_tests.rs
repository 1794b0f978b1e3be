use lau_shell_kernel::{ShellId, Tile, TileFilter, TileStore, TileType, Universe};

fn tmp() -> tempfile::TempDir {
    tempfile::tempdir().unwrap()
}

fn kernel_path(tmp: &tempfile::TempDir, name: &str) -> String {
    format!("{}/{}", tmp.path().display(), name)
}

#[test]
fn tile_store_store_and_get() {
    let tmp = tmp();
    let sid = ShellId::new("ts1");
    let u = Universe::new(&kernel_path(&tmp, "ts1"), &sid);
    let mut store = TileStore::new(&u);
    let t = Tile::new(TileType::Observation, "hello");
    let id = t.id.clone();
    store.store(t).unwrap();
    assert!(store.get(&id).is_some());
    assert_eq!(store.count(), 1);
}

#[test]
fn tile_store_replaces_same_id() {
    let u = Universe::new("/x", &ShellId::new("s"));
    let mut store = TileStore::new(&u);
    store.store(Tile::with_id("t", TileType::Observation, "one", 0)).unwrap();
    store.store(Tile::with_id("t", TileType::Action, "two", 1)).unwrap();
    assert_eq!(store.count(), 1);
    assert_eq!(store.get("t").unwrap().content.text, "two");
    assert!(store.get("missing").is_none());
}

#[test]
fn tile_store_get_mut() {
    let u = Universe::new("/x", &ShellId::new("s"));
    let mut store = TileStore::new(&u);
    store.store(Tile::with_id("t", TileType::Observation, "one", 0)).unwrap();
    store.get_mut("t").unwrap().complete();
    assert_eq!(store.get("t").unwrap().status, lau_shell_kernel::TileStatus::Complete);
    assert!(store.get_mut("nope").is_none());
}

#[test]
fn tile_store_query() {
    let tmp = tmp();
    let sid = ShellId::new("ts2");
    let u = Universe::new(&kernel_path(&tmp, "ts2"), &sid);
    let mut store = TileStore::new(&u);
    let mut t1 = Tile::new(TileType::Observation, "obs1");
    t1.room_id = Some("r1".to_string());
    let t2 = Tile::new(TileType::Action, "act1");
    store.store(t1).unwrap();
    store.store(t2).unwrap();
    let results = store.query(TileFilter::new().room("r1"));
    assert_eq!(results.len(), 1);
    let results = store.query(TileFilter::new().tile_type(TileType::Action));
    assert_eq!(results.len(), 1);
}

#[test]
fn tile_store_children_of() {
    let tmp = tmp();
    let sid = ShellId::new("ts3");
    let u = Universe::new(&kernel_path(&tmp, "ts3"), &sid);
    let mut store = TileStore::new(&u);
    let parent = Tile::new(TileType::Thought, "think");
    let child = parent.child(TileType::Action, "act");
    let parent_id = parent.id.clone();
    store.store(parent).unwrap();
    store.store(child).unwrap();
    let children = store.children_of(&parent_id);
    assert_eq!(children.len(), 1);
}

#[test]
fn tile_store_recent() {
    let tmp = tmp();
    let sid = ShellId::new("ts4");
    let u = Universe::new(&kernel_path(&tmp, "ts4"), &sid);
    let mut store = TileStore::new(&u);
    for i in 0..10 {
        let mut t = Tile::with_tick(TileType::System, &format!("{}", i), i);
        t.created_tick = i as u64;
        store.store(t).unwrap();
    }
    let recent = store.recent(3);
    assert_eq!(recent.len(), 3);
}

#[test]
fn tile_store_recent_newest_first() {
    let u = Universe::new("/x", &ShellId::new("s"));
    let mut store = TileStore::new(&u);
    for (i, tick) in [3u64, 8, 1, 8, 5].iter().enumerate() {
        store.store(Tile::with_id(&format!("t{}", i), TileType::System, "x", *tick)).unwrap();
    }
    let ids: Vec<&str> = store.recent(4).iter().map(|t| t.id.as_str()).collect();
    assert_eq!(ids, vec!["t1", "t3", "t4", "t0"]);
    assert_eq!(store.recent(100).len(), 5);
    assert!(store.recent(0).is_empty());
}

#[test]
fn tile_with_room_preserved() {
    let tmp = tmp();
    let sid = ShellId::new("r1");
    let u = Universe::new(&kernel_path(&tmp, "r1"), &sid);
    let mut store = TileStore::new(&u);
    let mut t = Tile::new(TileType::Observation, "in room");
    t.room_id = Some("room-42".to_string());
    let id = t.id.clone();
    store.store(t).unwrap();
    let results = store.room_tiles("room-42");
    assert_eq!(results.len(), 1);
    assert_eq!(results[0].id, id);
}

#[test]
fn tile_store_load_tiles_replaces_contents() {
    let u = Universe::new("/x", &ShellId::new("s"));
    let mut store = TileStore::new(&u);
    store.store(Tile::with_id("old", TileType::System, "x", 0)).unwrap();
    let loaded = vec![
        Tile::with_id("a", TileType::System, "1", 2),
        Tile::with_id("b", TileType::Action, "2", 1),
    ];
    store.load_tiles(loaded);
    assert_eq!(store.count(), 2);
    assert!(store.get("old").is_none());
    assert!(store.get("a").is_some());
    assert_eq!(store.index.by_tick.len(), 2);
    assert_eq!(store.index.by_tick[0].1, "b");
}

#[test]
fn tile_store_fresh_tile_id_is_unused() {
    let u = Universe::new("/x", &ShellId::new("s"));
    let mut store = TileStore::new(&u);
    for i in 0..20u64 {
        store.store(Tile::with_id(&Tile::id_for(i), TileType::System, "x", 0)).unwrap();
    }
    let id = store.fresh_tile_id();
    assert!(id.starts_with("tile-"));
    assert!(store.get(&id).is_none());
}

#[test]
fn tile_store_load_tiles_distinct_count() {
    let u = Universe::new("/x", &ShellId::new("s"));
    let mut store = TileStore::new(&u);
    let loaded = vec![
        Tile::with_id("a", TileType::System, "1", 0),
        Tile::with_id("b", TileType::System, "2", 0),
        Tile::with_id("c", TileType::System, "3", 0),
    ];
    store.load_tiles(loaded);
    assert_eq!(store.count(), 3);
    assert_eq!(store.get("b").unwrap().content.text, "2");
}

#[test]
fn tile_index_tick_order_check() {
    let u = Universe::new("/x", &ShellId::new("s"));
    let mut store = TileStore::new(&u);
    store.store(Tile::with_id("a", TileType::System, "1", 3)).unwrap();
    store.store(Tile::with_id("b", TileType::System, "2", 1)).unwrap();
    assert!(store.index.tick_order_holds());
    store.index.by_tick.swap(0, 1);
    assert!(!store.index.tick_order_holds());
}
