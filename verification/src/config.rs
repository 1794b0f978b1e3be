//! Shell configuration presets and the records a shell reports about
//! itself. Tolerances, limits and amounts are in milli-units.

use vstd::prelude::*;

verus! {

#[derive(Debug, Clone)]
pub struct ShellConfig {
    pub max_tiles: u32,
    pub max_rooms: u32,
    pub max_ensigns: u32,
    pub max_child_shells: u32,
    /// In milli-units.
    pub default_deadband_tolerance: i64,
    /// In milli-units.
    pub conservation_limit: i64,
    pub log_level: String,
}

impl ShellConfig {
    /// The default preset: 100,000 tiles, 100 rooms, 50 ensigns, 20 children,
    /// tolerance 0.05, conservation limit 1,000, log level `info`.
    pub fn default_config() -> (c: Self)
        ensures
            c.max_tiles == 100_000,
            c.max_rooms == 100,
            c.max_ensigns == 50,
            c.max_child_shells == 20,
            c.default_deadband_tolerance == 50,
            c.conservation_limit == 1_000_000,
            c.log_level@ == "info"@,
    {
        ShellConfig {
            max_tiles: 100_000,
            max_rooms: 100,
            max_ensigns: 50,
            max_child_shells: 20,
            default_deadband_tolerance: 50,
            conservation_limit: 1_000_000,
            log_level: String::from_str("info"),
        }
    }

    /// The minimal preset: 1,000 tiles, 5 rooms, 3 ensigns, 3 children,
    /// tolerance 0.1, conservation limit 100, log level `warn`.
    pub fn minimal() -> (c: Self)
        ensures
            c.max_tiles == 1_000,
            c.max_rooms == 5,
            c.max_ensigns == 3,
            c.max_child_shells == 3,
            c.default_deadband_tolerance == 100,
            c.conservation_limit == 100_000,
            c.log_level@ == "warn"@,
    {
        ShellConfig {
            max_tiles: 1_000,
            max_rooms: 5,
            max_ensigns: 3,
            max_child_shells: 3,
            default_deadband_tolerance: 100,
            conservation_limit: 100_000,
            log_level: String::from_str("warn"),
        }
    }

    /// The preset of a Hermes shell: 1,000,000 tiles, 1,000 rooms, 500
    /// ensigns, 100 children, tolerance 0.01, conservation limit 10,000, log
    /// level `debug`.
    pub fn hermes() -> (c: Self)
        ensures
            c.max_tiles == 1_000_000,
            c.max_rooms == 1000,
            c.max_ensigns == 500,
            c.max_child_shells == 100,
            c.default_deadband_tolerance == 10,
            c.conservation_limit == 10_000_000,
            c.log_level@ == "debug"@,
    {
        ShellConfig {
            max_tiles: 1_000_000,
            max_rooms: 1000,
            max_ensigns: 500,
            max_child_shells: 100,
            default_deadband_tolerance: 10,
            conservation_limit: 10_000_000,
            log_level: String::from_str("debug"),
        }
    }
}

impl Default for ShellConfig {
    /// The default preset.
    fn default() -> (c: Self)
        ensures
            c.max_tiles == 100_000,
            c.max_rooms == 100,
            c.max_ensigns == 50,
            c.max_child_shells == 20,
            c.default_deadband_tolerance == 50,
            c.conservation_limit == 1_000_000,
            c.log_level@ == "info"@,
    {
        Self::default_config()
    }
}

/// What one tick of a shell did.
#[derive(Debug, Clone, Copy, PartialEq, Eq, Structural)]
pub struct ShellTickResult {
    pub tiles_created: u32,
    pub tiles_completed: u32,
    /// In milli-units.
    pub conservation_delta: i64,
    pub active_ports: u32,
    pub children_active: u32,
}

/// A snapshot of a shell.
#[derive(Debug, Clone)]
pub struct ShellStatus {
    pub shell_id: String,
    pub kind: String,
    pub autonomy_level: u32,
    pub rooms: u32,
    pub ensigns: u32,
    pub tiles: u32,
    pub ports_active: u32,
    pub children: u32,
    /// In milli-units; wide enough for any budget less any amount used.
    pub conservation_remaining: i128,
    pub disk_usage: u64,
    pub uptime_ticks: u64,
}

} // verus!
