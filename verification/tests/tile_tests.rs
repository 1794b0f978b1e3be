use lau_shell_kernel::{
    DeadbandTrend, StrMap, Tile, TileDeadband, TileFilter, TileIndex, TileStatus, TileType,
};

#[test]
fn tile_new() {
    let t = Tile::new(TileType::Observation, "saw something");
    assert_eq!(t.tile_type, TileType::Observation);
    assert_eq!(t.content.text, "saw something");
    assert_eq!(t.status, TileStatus::Active);
    assert!(t.room_id.is_none());
    assert!(t.parent_id.is_none());
    assert!(t.children.is_empty());
}

#[test]
fn tile_ids_are_fresh() {
    let a = Tile::new(TileType::Observation, "a");
    let b = Tile::new(TileType::Observation, "b");
    assert_ne!(a.id, b.id);
    assert!(a.id.starts_with("tile-"));
    assert_eq!(Tile::id_for(42), "tile-42");
}

#[test]
fn tile_child() {
    let parent = Tile::new(TileType::Thought, "thinking...");
    let child = parent.child(TileType::Action, "do it");
    assert_eq!(child.parent_id.as_deref(), Some(parent.id.as_str()));
    assert_eq!(child.content.text, "do it");
    assert_ne!(child.id, parent.id);
}

#[test]
fn tile_child_inherits_room_and_tick() {
    let mut parent = Tile::with_tick(TileType::Thought, "p", 7);
    parent.room_id = Some("bridge".to_string());
    let child = parent.child_with_id("tile-c", TileType::Action, "c");
    assert_eq!(child.id, "tile-c");
    assert_eq!(child.room_id.as_deref(), Some("bridge"));
    assert_eq!(child.created_tick, 7);
    assert_eq!(child.parent_id.as_deref(), Some(parent.id.as_str()));
}

#[test]
fn tile_lifecycle() {
    let mut t = Tile::new(TileType::Action, "act");
    assert_eq!(t.status, TileStatus::Active);
    t.complete();
    assert_eq!(t.status, TileStatus::Complete);
    t.archive();
    assert_eq!(t.status, TileStatus::Archived);
}

#[test]
fn tile_escalate() {
    let mut t = Tile::new(TileType::Action, "help");
    t.escalate("stuck");
    assert_eq!(t.status, TileStatus::Escalated);
    assert_eq!(t.metadata.get("escalation_reason"), Some(&"stuck".to_string()));
}

#[test]
fn tile_escalate_twice_keeps_last_reason() {
    let mut t = Tile::new(TileType::Action, "help");
    t.escalate("first");
    t.escalate("second");
    assert_eq!(t.metadata.len(), 1);
    assert_eq!(t.metadata.get("escalation_reason"), Some(&"second".to_string()));
}

#[test]
fn tile_deadband() {
    let mut t = Tile::new(TileType::Observation, "temp");
    assert!(!t.is_in_deadband());
    t.deadband = Some(TileDeadband::new(10_000, 20_000, 15_000));
    assert!(t.is_in_deadband());
    t.deadband = Some(TileDeadband::new(10_000, 20_000, 25_000));
    assert!(!t.is_in_deadband());
}

#[test]
fn tile_describe() {
    let t = Tile::new(TileType::System, "boot");
    let desc = t.describe();
    assert!(desc.contains(&t.id));
    assert!(desc.contains("System"));
}

#[test]
fn tile_describe_exact() {
    let mut t = Tile::with_id("tile-9", TileType::Thought, "hmm", 3);
    assert_eq!(
        t.describe(),
        "[tile-9] Thought (Thought) room=no-room parent=none children=0 status=Active \"hmm\""
    );
    t.room_id = Some("lab".into());
    t.parent_id = Some("tile-1".into());
    t.children = vec!["a".into(), "b".into(), "c".into(), "d".into(), "e".into(), "f".into(),
        "g".into(), "h".into(), "i".into(), "j".into(), "k".into(), "l".into()];
    t.complete();
    assert_eq!(
        t.describe(),
        "[tile-9] Thought (Thought) room=lab parent=tile-1 children=12 status=Complete \"hmm\""
    );
}

#[test]
fn tile_describe_cuts_long_text() {
    let long = "x".repeat(70);
    let t = Tile::with_id("tile-1", TileType::Artifact, &long, 0);
    let expected = format!(
        "[tile-1] Artifact (Artifact) room=no-room parent=none children=0 status=Active \"{}...\"",
        "x".repeat(60)
    );
    assert_eq!(t.describe(), expected);
    let exact = "y".repeat(60);
    let t2 = Tile::with_id("tile-2", TileType::Artifact, &exact, 0);
    assert!(t2.describe().ends_with(&format!("\"{}\"", exact)));
}

#[test]
fn tile_describe_cuts_by_bytes() {
    let text = "é".repeat(31);
    let t = Tile::with_id("tile-3", TileType::Thought, &text, 0);
    assert!(t.describe().ends_with(&format!("\"{}...\"", "é".repeat(30))));
}

#[test]
fn deadband_trend_variants() {
    let stable = DeadbandTrend::Stable;
    let drifting = DeadbandTrend::Drifting(500);
    let oscillating = DeadbandTrend::Oscillating(1_000);
    let diverging = DeadbandTrend::Diverging;
    // Just ensure they exist and are usable
    assert_eq!(stable, DeadbandTrend::Stable);
    assert_eq!(drifting, DeadbandTrend::Drifting(500));
    assert_eq!(oscillating, DeadbandTrend::Oscillating(1_000));
    assert_eq!(diverging, DeadbandTrend::Diverging);
}

// --- TileFilter ---

#[test]
fn filter_matches_type() {
    let t = Tile::new(TileType::Observation, "x");
    assert!(TileFilter::new().tile_type(TileType::Observation).matches(&t));
    assert!(!TileFilter::new().tile_type(TileType::Action).matches(&t));
}

#[test]
fn filter_matches_room() {
    let mut t = Tile::new(TileType::Observation, "x");
    t.room_id = Some("room-1".to_string());
    assert!(TileFilter::new().room("room-1").matches(&t));
    assert!(!TileFilter::new().room("room-2").matches(&t));
}

#[test]
fn filter_matches_status() {
    let mut t = Tile::new(TileType::Observation, "x");
    t.complete();
    assert!(TileFilter::new().status(TileStatus::Complete).matches(&t));
    assert!(!TileFilter::new().status(TileStatus::Active).matches(&t));
}

#[test]
fn filter_matches_tick_range() {
    let t = Tile::with_tick(TileType::System, "x", 50);
    assert!(TileFilter::new().since_tick(40).matches(&t));
    assert!(!TileFilter::new().since_tick(60).matches(&t));
    assert!(TileFilter::new().until_tick(60).matches(&t));
    assert!(!TileFilter::new().until_tick(40).matches(&t));
}

#[test]
fn filter_tick_bounds_inclusive() {
    let t = Tile::with_tick(TileType::System, "x", 50);
    assert!(TileFilter::new().since_tick(50).until_tick(50).matches(&t));
}

#[test]
fn filter_matches_parent() {
    let parent = Tile::new(TileType::Thought, "p");
    let child = parent.child(TileType::Action, "c");
    assert!(TileFilter::new().parent(&parent.id).matches(&child));
    assert!(!TileFilter::new().parent("nonexistent").matches(&child));
}

#[test]
fn filter_matches_ensign() {
    let mut t = Tile::new(TileType::Observation, "x");
    t.ensign_id = Some("ensign-1".to_string());
    assert!(TileFilter::new().ensign("ensign-1").matches(&t));
    assert!(!TileFilter::new().ensign("ensign-2").matches(&t));
}

#[test]
fn filter_combined() {
    let mut t = Tile::new(TileType::Observation, "x");
    t.room_id = Some("r1".to_string());
    t.complete();
    let f = TileFilter::new().room("r1").status(TileStatus::Complete);
    assert!(f.matches(&t));
}

#[test]
fn filter_unconstrained_admits_everything() {
    let mut t = Tile::with_tick(TileType::Delegation, "x", 9);
    t.room_id = Some("r".into());
    t.ensign_id = Some("e".into());
    assert!(TileFilter::new().matches(&t));
    let narrowed = TileFilter::new().room("r").ensign("other");
    assert!(!narrowed.matches(&t));
    assert!(TileFilter::new().room("r").matches(&t));
}

#[test]
fn filter_room_requires_room() {
    let t = Tile::new(TileType::Observation, "x");
    assert!(!TileFilter::new().room("r").matches(&t));
}

// --- TileIndex ---

#[test]
fn tile_index_and_query() {
    let mut idx = TileIndex::new();
    let t1 = Tile::new(TileType::Observation, "a");
    let t2 = Tile::new(TileType::Action, "b");
    idx.index(&t1);
    idx.index(&t2);
    assert!(idx.by_type.contains_key(&"Observation".to_string()));
    assert!(idx.by_type.contains_key(&"Action".to_string()));
}

#[test]
fn tile_index_remove() {
    let mut idx = TileIndex::new();
    let t = Tile::new(TileType::Observation, "x");
    idx.index(&t);
    assert_eq!(idx.by_type.get("Observation").unwrap().len(), 1);
    idx.remove(&t);
    assert!(idx.by_type.get("Observation").unwrap().is_empty());
}

#[test]
fn tile_index_rebuild() {
    let mut idx = TileIndex::new();
    let mut tiles = StrMap::new();
    for i in 0..5 {
        let mut t = Tile::new(TileType::Observation, &format!("t{}", i));
        t.room_id = Some("r1".to_string());
        tiles.insert(t.id.clone(), t);
    }
    idx.rebuild(&tiles);
    assert_eq!(idx.by_room.get("r1").unwrap().len(), 5);
}

#[test]
fn tile_index_ticks_stay_sorted() {
    let mut idx = TileIndex::new();
    for (i, tick) in [5u64, 1, 9, 5, 3, 0, 9].iter().enumerate() {
        let t = Tile::with_id(&format!("t{}", i), TileType::System, "x", *tick);
        idx.index(&t);
    }
    let ticks: Vec<u64> = idx.by_tick.iter().map(|e| e.0).collect();
    assert_eq!(ticks, vec![0, 1, 3, 5, 5, 9, 9]);
    // a tile goes before the tiles already indexed at its tick
    let ids: Vec<&str> = idx.by_tick.iter().map(|e| e.1.as_str()).collect();
    assert_eq!(ids, vec!["t5", "t1", "t4", "t3", "t0", "t6", "t2"]);
}

#[test]
fn tile_index_then_remove_restores_ticks() {
    let mut idx = TileIndex::new();
    let a = Tile::with_id("a", TileType::System, "x", 2);
    let b = Tile::with_id("b", TileType::System, "x", 4);
    idx.index(&a);
    idx.index(&b);
    let before = idx.by_tick.clone();
    let c = Tile::with_id("c", TileType::System, "x", 3);
    idx.index(&c);
    assert_eq!(idx.by_tick.len(), 3);
    idx.remove(&c);
    assert_eq!(idx.by_tick, before);
}

#[test]
fn tile_index_buckets() {
    let mut idx = TileIndex::new();
    let mut t = Tile::with_id("t1", TileType::Action, "x", 0);
    t.room_id = Some("bridge".into());
    t.parent_id = Some("p".into());
    t.ensign_id = Some("e".into());
    idx.index(&t);
    assert_eq!(idx.by_room.get("bridge").unwrap(), &vec!["t1".to_string()]);
    assert_eq!(idx.by_status.get("Active").unwrap(), &vec!["t1".to_string()]);
    assert_eq!(idx.by_parent.get("p").unwrap(), &vec!["t1".to_string()]);
    assert_eq!(idx.by_ensign.get("e").unwrap(), &vec!["t1".to_string()]);
    idx.remove(&t);
    assert!(idx.by_room.get("bridge").unwrap().is_empty());
    assert!(idx.by_parent.get("p").unwrap().is_empty());
    assert!(idx.by_tick.is_empty());
}
