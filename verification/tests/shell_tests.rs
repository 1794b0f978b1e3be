use lau_shell_kernel::{PortProtocol, ShellId, ShellKind, TileContent, TileStatus, TileType};

#[test]
fn shell_id_new() {
    let id = ShellId::new("test-1");
    assert_eq!(id.0, "test-1");
    assert_eq!(id.as_str(), "test-1");
}

#[test]
fn shell_id_display() {
    let id = ShellId::new("abc");
    assert_eq!(id.to_string(), "abc");
}

#[test]
fn shell_id_clone_eq_hash() {
    let a = ShellId::new("x");
    let b = a.clone();
    assert_eq!(a, b);
    let mut hm = std::collections::HashSet::new();
    hm.insert(a.clone());
    assert!(hm.contains(&b));
}

#[test]
fn shell_id_generate_unique() {
    let a = ShellId::generate();
    let b = ShellId::generate();
    assert_ne!(a, b);
}

#[test]
fn shell_id_from_clock_reading() {
    assert_eq!(ShellId::from_clock(0).as_str(), "shell-0");
    assert_eq!(ShellId::from_clock(1234567890123).as_str(), "shell-1234567890123");
    assert!(ShellId::generate().as_str().starts_with("shell-"));
}

#[test]
fn shell_kind_hermes() {
    assert!(ShellKind::Hermes.is_hermes());
    assert!(!ShellKind::Hermes.is_sandboxed());
    assert_eq!(ShellKind::Hermes.label(), "Hermes");
}

#[test]
fn shell_kind_zeroclaw() {
    assert!(!ShellKind::ZeroClaw.is_hermes());
    assert!(ShellKind::ZeroClaw.is_sandboxed());
    assert_eq!(ShellKind::ZeroClaw.label(), "ZeroClaw");
}

#[test]
fn shell_kind_cudaclaw() {
    assert!(ShellKind::CUDAClaw.is_sandboxed());
    assert_eq!(ShellKind::CUDAClaw.label(), "CUDAClaw");
}

#[test]
fn shell_kind_ensign() {
    assert!(!ShellKind::Ensign.is_hermes());
    assert!(!ShellKind::Ensign.is_sandboxed());
    assert_eq!(ShellKind::Ensign.label(), "Ensign");
}

#[test]
fn shell_kind_custom() {
    let c = ShellKind::Custom("MyKind".to_string());
    assert!(!c.is_hermes());
    assert!(!c.is_sandboxed());
    assert_eq!(c.label(), "MyKind");
}

#[test]
fn shell_kind_display() {
    assert_eq!(ShellKind::Hermes.to_string(), "Hermes");
    assert_eq!(ShellKind::Custom("X".into()).to_string(), "X");
}

#[test]
fn tile_types_display() {
    assert_eq!(TileType::Observation.to_string(), "Observation");
    assert_eq!(TileType::Action.to_string(), "Action");
    assert_eq!(TileType::Thought.to_string(), "Thought");
    assert_eq!(TileType::Delegation.to_string(), "Delegation");
    assert_eq!(TileType::Escalation.to_string(), "Escalation");
    assert_eq!(TileType::Artifact.to_string(), "Artifact");
    assert_eq!(TileType::System.to_string(), "System");
}

#[test]
fn tile_status_display() {
    assert_eq!(TileStatus::Active.to_string(), "Active");
    assert_eq!(TileStatus::Complete.to_string(), "Complete");
    assert_eq!(TileStatus::Deadband.to_string(), "Deadband");
    assert_eq!(TileStatus::Escalated.to_string(), "Escalated");
    assert_eq!(TileStatus::Archived.to_string(), "Archived");
}

#[test]
fn tile_content_text() {
    let c = TileContent::text("hello");
    assert_eq!(c.text, "hello");
    assert!(c.data.is_none());
}

#[test]
fn port_protocol_display() {
    assert_eq!(PortProtocol::Telegram.to_string(), "Telegram");
    assert_eq!(PortProtocol::Custom("foo".into()).to_string(), "Custom(foo)");
}

#[test]
fn port_protocol_display_all() {
    assert_eq!(PortProtocol::Web.to_string(), "Web");
    assert_eq!(PortProtocol::WebSocket.to_string(), "WebSocket");
    assert_eq!(PortProtocol::Http.to_string(), "Http");
    assert_eq!(PortProtocol::Mqtt.to_string(), "Mqtt");
    assert_eq!(PortProtocol::Serial.to_string(), "Serial");
    assert_eq!(PortProtocol::Gpio.to_string(), "Gpio");
}
