use lau_shell_kernel::{Port, PortDeadband, PortDirection, PortProtocol};

#[test]
fn port_new_is_active() {
    let p = Port::new("p1", PortProtocol::Http, PortDirection::Inbound);
    assert!(p.is_active());
    assert_eq!(p.id, "p1");
}

#[test]
fn port_enable_disable() {
    let mut p = Port::new("p1", PortProtocol::WebSocket, PortDirection::Bidirectional);
    p.disable();
    assert!(!p.is_active());
    p.enable();
    assert!(p.is_active());
}

#[test]
fn port_permissions() {
    let mut p = Port::new("p1", PortProtocol::Mqtt, PortDirection::Outbound);
    assert!(!p.has_permission("read"));
    p.grant_permission("read");
    assert!(p.has_permission("read"));
    // duplicate grant is no-op
    p.grant_permission("read");
    assert_eq!(p.permissions.len(), 1);
    p.revoke_permission("read");
    assert!(!p.has_permission("read"));
}

#[test]
fn port_describe() {
    let p = Port::new("web-1", PortProtocol::Http, PortDirection::Inbound);
    let desc = p.describe();
    assert!(desc.contains("web-1"));
    assert!(desc.contains("Http"));
    assert!(desc.contains("active"));
}

#[test]
fn port_describe_exact() {
    let mut p = Port::new("tg", PortProtocol::Custom("bus".into()), PortDirection::Bidirectional);
    p.target = "10.0.0.1:80".into();
    assert_eq!(p.describe(), "Port tg [in/out] Custom(bus) → 10.0.0.1:80 (active)");
    p.disable();
    assert_eq!(p.describe(), "Port tg [in/out] Custom(bus) → 10.0.0.1:80 (disabled)");
    let q = Port::new("o", PortProtocol::Serial, PortDirection::Outbound);
    assert_eq!(q.describe(), "Port o [out] Serial →  (active)");
}

#[test]
fn port_deadband() {
    let db = PortDeadband::new(0, 100_000, 50);
    assert!(db.is_in_band());
    let db2 = PortDeadband::new(0, 100_000, 50);
    assert_eq!(db2.check_interval_ms, 50);
}

#[test]
fn port_deadband_bounds() {
    let mut db = PortDeadband::new(-5_000, 5_000, 10);
    assert_eq!(db.current, -5_000);
    db.current = 5_000;
    assert!(db.is_in_band());
    db.current = 5_001;
    assert!(!db.is_in_band());
    db.current = -5_001;
    assert!(!db.is_in_band());
}

#[test]
fn port_revoke_keeps_others_in_order() {
    let mut p = Port::new("p", PortProtocol::Web, PortDirection::Inbound);
    p.grant_permission("a");
    p.grant_permission("b");
    p.grant_permission("c");
    p.grant_permission("b");
    assert_eq!(p.permissions, vec!["a", "b", "c"]);
    p.revoke_permission("b");
    assert_eq!(p.permissions, vec!["a", "c"]);
    p.revoke_permission("zzz");
    assert_eq!(p.permissions, vec!["a", "c"]);
}
