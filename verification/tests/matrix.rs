use std::collections::HashSet;

use continuum::dimensions::{ExperimentId, Hardware, MatrixSubset, Storage, Telemetry, TikvTopology, Topology};
use continuum::matrix::{
    dev_wsl_matrix, matrix_for_subset, native_lab_matrix, native_scale_matrix, plan_matrix,
    sql_adapter_matrix, surreal_scale_matrix, MatrixEnv, MatrixError, MatrixOptions,
};

fn env() -> MatrixEnv {
    MatrixEnv {
        surreal_url: false,
        postgres_url: false,
        scylla_contact_points: false,
        tikv_pd_endpoint: false,
        tikv_topology: None,
        scylla_topology: None,
        surreal_instances: 1,
    }
}

fn options(subset: MatrixSubset) -> MatrixOptions {
    MatrixOptions {
        hardware: Hardware::DevWsl,
        subset,
        from: None,
        skip_existing: false,
        storages: None,
        skip_experiments: None,
        tikv_topology: None,
        scylla_topology: None,
    }
}

#[test]
fn tikv_topology_filter_narrows_lab_colocated_matrix() {
    let all = matrix_for_subset(MatrixSubset::TikvLabColocated, Hardware::AwsT4gMedium, &env());
    let topologies: HashSet<_> = all.iter().filter_map(|(_, d)| d.tikv_topology).collect();
    assert_eq!(topologies.len(), 3);

    let minimal = all
        .iter()
        .filter(|(_, d)| d.tikv_topology == Some(TikvTopology::Minimal))
        .count();
    assert!(minimal > 0);
    assert!(minimal < all.len());

    let filtered: Vec<_> = all
        .into_iter()
        .filter(|(_, d)| d.tikv_topology == Some(TikvTopology::Minimal))
        .collect();
    assert!(filtered.iter().all(|(_, d)| d.storage == Storage::SurrealTikv));
    assert!(filtered
        .iter()
        .all(|(_, d)| d.tikv_topology == Some(TikvTopology::Minimal)));
}

#[test]
fn dev_matrix_shape() {
    let runs = dev_wsl_matrix(&env());
    // 18 experiments × 4 storages, plus a console run for BM-C0 and BM-L1 on each storage.
    assert_eq!(runs.len(), 18 * 4 + 2 * 4);
    assert_eq!(runs[0].0, ExperimentId::BmC0);
    assert_eq!(runs[0].1.storage, Storage::Mem);
    assert_eq!(runs[1].1.telemetry, Telemetry::Console);
    assert!(runs.iter().all(|(id, d)| (*id == ExperimentId::BmC5) == (d.topology == Topology::SharedHandle)));
    let with_remote = dev_wsl_matrix(&MatrixEnv { surreal_url: true, postgres_url: true, ..env() });
    assert_eq!(with_remote.len(), 80 + 17 + 20);
}

#[test]
fn full_matrix_moves_to_hardware() {
    let runs = matrix_for_subset(MatrixSubset::Full, Hardware::CiSmall, &env());
    assert_eq!(runs.len(), 80);
    assert!(runs.iter().all(|(_, d)| d.hardware == Hardware::CiSmall));
}

#[test]
fn sql_matrix_skips_soak() {
    let runs = sql_adapter_matrix(Hardware::DevWsl, &MatrixEnv { postgres_url: true, ..env() });
    assert_eq!(runs.len(), 17 * 2);
    assert!(runs.iter().all(|(id, _)| *id != ExperimentId::BmC6));
    assert_eq!(runs[1].1.storage, Storage::Postgres);
}

#[test]
fn native_matrices_follow_configured_services() {
    let only_sqlite = native_lab_matrix(Hardware::DevWsl, &env());
    assert_eq!(only_sqlite.len(), 9);
    assert!(native_scale_matrix(Hardware::DevWsl, &env()).is_empty());
    let e = MatrixEnv { scylla_contact_points: true, tikv_pd_endpoint: true, ..env() };
    let scale = native_scale_matrix(Hardware::DevWsl, &e);
    assert_eq!(scale.len(), 10);
    assert_eq!(scale[0].1.storage, Storage::Scylla);
    assert!(scale[0].1.scylla_topology.is_some());
    assert_eq!(scale[5].1.tikv_topology, Some(TikvTopology::Minimal));
}

#[test]
fn surreal_scale_uses_multi_node_above_one() {
    let runs = surreal_scale_matrix(Hardware::DevWsl, &env());
    assert_eq!(runs.len(), 6);
    assert_eq!(runs[0].1.surreal_instances, 1);
    assert_eq!(runs[5].1.surreal_instances, 4);
    assert_eq!(runs[0].1.tikv_topology, Some(TikvTopology::Ha3));
}

#[test]
fn plan_refusals() {
    assert!(matches!(
        plan_matrix(&options(MatrixSubset::TikvTopology), &env(), 1),
        Err(MatrixError::NeedsSurreal(MatrixSubset::TikvTopology))
    ));
    assert!(matches!(
        plan_matrix(&options(MatrixSubset::NativeLabPartitioned), &env(), 1),
        Err(MatrixError::NeedsPartitions)
    ));
    let mut o = options(MatrixSubset::Sql);
    o.skip_experiments = Some(vec!["nope".to_string()]);
    assert!(matches!(plan_matrix(&o, &env(), 1), Err(MatrixError::NoValidSkipIds)));
    let mut o = options(MatrixSubset::Sql);
    o.from = Some("bm-zz".to_string());
    match plan_matrix(&o, &env(), 1) {
        Err(MatrixError::UnknownExperiment(name)) => assert_eq!(name, "bm-zz"),
        _ => panic!("expected an unknown experiment"),
    }
}

#[test]
fn plan_filters() {
    let mut o = options(MatrixSubset::Full);
    o.storages = Some(vec![Storage::Sqlite]);
    o.skip_experiments = Some(vec!["bm-c6".to_string(), "".to_string()]);
    o.from = Some("bm-l0".to_string());
    let runs = plan_matrix(&o, &env(), 1).unwrap();
    assert!(runs.iter().all(|(_, d)| d.storage == Storage::Sqlite));
    assert!(runs.iter().all(|(id, _)| *id != ExperimentId::BmC6));
    assert_eq!(runs[0].0, ExperimentId::BmL0);
    // BM-L0..BM-M5 is 11 experiments; BM-L1 also runs with console telemetry.
    assert_eq!(runs.len(), 12);
}

#[test]
fn remote_surreal_subsets_only_run_against_remote_surreal() {
    let mut e = env();
    e.surreal_url = true;
    e.tikv_pd_endpoint = true;
    for subset in [
        MatrixSubset::TikvLabColocated,
        MatrixSubset::TikvTopology,
        MatrixSubset::SurrealScale,
        MatrixSubset::TikvProjectionInputs,
    ] {
        let runs = matrix_for_subset(subset, Hardware::DevWsl, &e);
        assert!(!runs.is_empty());
        for (_, d) in runs {
            assert!(d.needs_remote_surreal());
            assert!(!d.needs_remote_scylla());
            assert_eq!(d.storage, Storage::SurrealTikv);
            assert_eq!(d.topology, Topology::RemoteSurreal);
        }
    }
}
