//! Deterministic placement of replicated shards on a fixed set of nodes, and
//! the simulation of a single node failure against that placement.

pub mod builder;
pub mod dump;
pub mod error;
pub mod failover;
pub mod failover_laws;
pub mod graph;
pub mod hit_conservation;
pub mod intake;
pub mod matrix;
pub mod metrics;
pub mod modular;
pub mod placement_laws;
pub mod shift;
pub mod table;
pub mod text;

pub use builder::{build, distribute};
pub use dump::DumpToJava;
pub use error::ConfigError;
pub use failover::{mark_cells, simulate, CellMark, FailoverReport};
pub use graph::DotGraph;
pub use intake::{check_request, plan, Plan};
pub use matrix::{DistributionVariant, Matrix, REPLICATION};
pub use metrics::{failover_delta_sweep, per_column_distinct_count, spread, SweepEntry};
pub use shift::{build_third_shift, rank_cycle, registered_table, resolve};
