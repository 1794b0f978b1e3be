use lau_shell_kernel::{Allowance, ShellConfig};

#[test]
fn allowance_new() {
    let a = Allowance::new("shell-1", "openai");
    assert_eq!(a.shell_id, "shell-1");
    assert_eq!(a.api, "openai");
    assert_eq!(a.remaining_budget(), 100_000);
}

#[test]
fn allowance_new_fields() {
    let a = Allowance::new("shell-1", "openai");
    assert_eq!(a.id, "allow-shell-1-openai");
    assert_eq!(a.rate_limit, 100);
    assert_eq!(a.budget, 100_000);
    assert_eq!(a.budget_used, 0);
    assert!(a.permissions.is_empty());
    assert!(a.expires.is_none());
}

#[test]
fn allowance_use_and_exhaust() {
    let mut a = Allowance::new("s1", "api");
    a.use_api(30_000).unwrap();
    assert_eq!(a.remaining_budget(), 70_000);
    a.use_api(70_000).unwrap();
    assert!(a.use_api(1_000).is_err());
}

#[test]
fn allowance_refusal_message_and_no_spend() {
    let mut a = Allowance::new("s1", "api");
    a.use_api(99_970).unwrap();
    let err = a.use_api(1_500).unwrap_err();
    assert_eq!(err, "budget exceeded: remaining 0.03 < cost 1.5");
    assert_eq!(a.budget_used, 99_970);
    a.budget = 0;
    a.budget_used = 2_000;
    assert_eq!(a.use_api(1).unwrap_err(), "budget exceeded: remaining -2 < cost 0.001");
}

#[test]
fn allowance_exact_remaining_is_enough() {
    let mut a = Allowance::new("s1", "api");
    a.use_api(100_000).unwrap();
    assert_eq!(a.remaining_budget(), 0);
    assert!(a.use_api(0).is_ok());
}

#[test]
fn allowance_permissions() {
    let mut a = Allowance::new("s1", "api");
    a.grant("read");
    a.grant("write");
    assert!(a.permissions.contains(&"read".to_string()));
    a.revoke("read");
    assert!(!a.permissions.contains(&"read".to_string()));
}

#[test]
fn allowance_expires() {
    let mut a = Allowance::new("s1", "api");
    a.expires = Some(100);
    assert!(!a.is_expired(99));
    assert!(a.is_expired(100));
    assert!(a.is_expired(101));
}

#[test]
fn allowance_without_expiry_never_expires() {
    let a = Allowance::new("s1", "api");
    assert!(!a.is_expired(0));
    assert!(!a.is_expired(u64::MAX));
}

#[test]
fn config_defaults() {
    let c = ShellConfig::default_config();
    assert_eq!(c.max_tiles, 100_000);
    assert_eq!(c.log_level, "info");
}

#[test]
fn config_minimal() {
    let c = ShellConfig::minimal();
    assert_eq!(c.max_tiles, 1_000);
    assert_eq!(c.log_level, "warn");
}

#[test]
fn config_hermes() {
    let c = ShellConfig::hermes();
    assert_eq!(c.max_tiles, 1_000_000);
    assert_eq!(c.log_level, "debug");
}

#[test]
fn config_presets_in_full() {
    let d = ShellConfig::default();
    assert_eq!(
        (d.max_rooms, d.max_ensigns, d.max_child_shells, d.default_deadband_tolerance, d.conservation_limit),
        (100, 50, 20, 50, 1_000_000)
    );
    let m = ShellConfig::minimal();
    assert_eq!(
        (m.max_rooms, m.max_ensigns, m.max_child_shells, m.default_deadband_tolerance, m.conservation_limit),
        (5, 3, 3, 100, 100_000)
    );
    let h = ShellConfig::hermes();
    assert_eq!(
        (h.max_rooms, h.max_ensigns, h.max_child_shells, h.default_deadband_tolerance, h.conservation_limit),
        (1000, 500, 100, 10, 10_000_000)
    );
}

#[test]
fn allowance_remaining_budget_wide() {
    let mut a = Allowance::new("s", "api");
    a.budget = i64::MAX;
    a.budget_used = i64::MIN;
    assert_eq!(a.remaining_budget(), i64::MAX as i128 - i64::MIN as i128);
    let mut b = Allowance::new("s", "api");
    b.budget = 0;
    b.budget_used = 5;
    assert_eq!(b.remaining_budget(), -5);
    assert_eq!(b.use_api(1).unwrap_err(), "budget exceeded: remaining -0.005 < cost 0.001");
}
