//! The bare shell kernel: shells, their universes, ports, allowances and the
//! tile store that holds every observation, thought and action of a shell.
//!
//! Quantities that are fractional in nature (budgets, costs, deadband bounds,
//! tolerances) are held as whole numbers of milli-units: `1000` stands for one
//! unit, `10` for a hundredth.

pub mod text;
pub mod lexical;
pub mod strmap;
pub mod shell;
pub mod universe;
pub mod port;
pub mod tile;
pub mod filter;
pub mod index;
pub mod store;
pub mod allowance;
pub mod config;
pub mod kernel;
pub mod laws;

pub use allowance::Allowance;
pub use config::{ShellConfig, ShellStatus, ShellTickResult};
pub use filter::TileFilter;
pub use index::TileIndex;
pub use kernel::ShellKernel;
pub use port::{Port, PortDeadband, PortDirection, PortProtocol};
pub use shell::{ShellId, ShellKind};
pub use store::TileStore;
pub use strmap::StrMap;
pub use tile::{DeadbandTrend, Tile, TileContent, TileDeadband, TileStatus, TileType};
pub use universe::Universe;
