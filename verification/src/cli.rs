//! The benchmark runner's command line, as plain values (the parser lives
//! with the program).

use vstd::prelude::*;

use crate::dimensions::{Hardware, MatrixSubset, ScyllaTopology, Storage, Telemetry, TikvTopology, Topology};

verus! {

/// Synthetic continuum benchmarks and experiment matrix runner.
pub struct Cli {
    pub command: Command,
}

/// Benchmark subcommands.
pub enum Command {
    /// Run a single experiment.
    Run {
        experiment: String,
        storage: Storage,
        topology: Topology,
        telemetry: Telemetry,
        hardware: Hardware,
        tikv_topology: Option<TikvTopology>,
    },
    /// Run the benchmark matrix.
    Matrix {
        hardware: Hardware,
        subset: MatrixSubset,
        from: Option<String>,
        skip_existing: bool,
        storages: Option<Vec<Storage>>,
        skip_experiments: Option<Vec<String>>,
        tikv_topology: Option<TikvTopology>,
        scylla_topology: Option<ScyllaTopology>,
    },
    /// Fill the results column of the experiments table from the reports.
    FillResults,
    /// List registered experiment ids.
    Experiments,
    /// Print the captured hardware profile.
    Hardware { profile: Hardware },
    /// Build the fleet projection from collected reports.
    ProjectFleet {
        hardware: Hardware,
        storage: Storage,
        tikv_topology: Option<TikvTopology>,
        scylla_topology: Option<ScyllaTopology>,
        reports_dir: String,
        out: Option<String>,
    },
    /// Build the storage-node scaling curve from peak reports across topologies.
    ProjectScalingCurve { hardware: Hardware, storage: Storage, reports_dir: String, out: Option<String> },
}

} // verus!
