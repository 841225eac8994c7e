//! A log-record filtering decorator with per-module severity thresholds.
//!
//! A configuration string of comma-separated `MODULE=LEVEL` entries is parsed
//! into a map from module name to minimum severity level. A filter built from
//! that map, a module-key name and a default level decides, for each record,
//! whether it is forwarded to the downstream sink or dropped.

pub mod config;
pub mod filter;
pub mod level;
pub mod level_map;
pub mod text;

pub use config::ModLevelFilterConfig;
pub use filter::ModLevelFilter;
pub use level::Level;
pub use level_map::ModLevelMap;
