use continuum::dimensions::{
    backend_kind, build_run_dimensions, load_partition_count, surreal_instances_from_env,
    ComponentHardware, ExperimentId, Hardware, RunDimensions, ScyllaTopology, Storage,
    SurrealDeployment, Telemetry, TikvTopology, Topology,
};
use continuum::types::LogBackendKind;

#[test]
fn scylla_topology_parse_roundtrip() {
    for topo in ScyllaTopology::native_presets() {
        assert_eq!(ScyllaTopology::parse(topo.slug()), Some(topo));
        assert!(topo.storage_node_count() > 0);
    }
    for topo in [ScyllaTopology::ThreeNode, ScyllaTopology::Custom] {
        assert_eq!(ScyllaTopology::parse(topo.slug()), Some(topo));
    }
}

#[test]
fn tikv_topology_parse_roundtrip() {
    for topo in TikvTopology::lab_presets() {
        assert_eq!(TikvTopology::parse(topo.slug()), Some(topo));
    }
    for topo in TikvTopology::native_presets() {
        assert_eq!(TikvTopology::parse(topo.slug()), Some(topo));
        assert!(topo.storage_node_count() > 0);
    }
}

#[test]
fn topology_aliases_and_case() {
    assert_eq!(ScyllaTopology::parse("3N"), Some(ScyllaTopology::ThreeNode));
    assert_eq!(ScyllaTopology::parse("one"), Some(ScyllaTopology::One));
    assert_eq!(ScyllaTopology::parse("scylla-5n"), None);
    assert_eq!(TikvTopology::parse("HA3"), Some(TikvTopology::Ha3));
    assert_eq!(TikvTopology::parse("scale5"), Some(TikvTopology::Scale5));
    assert_eq!(TikvTopology::parse("tikv-ha-4"), None);
    assert_eq!(TikvTopology::from_env(Some("minimal")), Some(TikvTopology::Minimal));
    assert_eq!(TikvTopology::from_env(None), None);
    assert_eq!(ScyllaTopology::from_env(Some("custom")), Some(ScyllaTopology::Custom));
    assert_eq!(TikvTopology::Custom.storage_node_count(), 0);
}

#[test]
fn experiment_ids_roundtrip_in_order() {
    let all = ExperimentId::all();
    assert_eq!(all.len(), 18);
    assert_eq!(all[0], ExperimentId::BmC0);
    assert_eq!(all[17], ExperimentId::BmM5);
    for id in all {
        assert_eq!(ExperimentId::parse(id.slug()), Some(id));
        assert_eq!(ExperimentId::parse(&id.slug().to_uppercase()), Some(id));
    }
    assert_eq!(ExperimentId::parse("bm-x9"), None);
    assert_eq!(ExperimentId::BmC6.pass_criteria(), "<2× isolated at 1 op/s");
    assert_eq!(ExperimentId::BmM3.primary_metric(), "aggregate ops/s");
    assert_eq!(ExperimentId::BmL2.row_key(), "BM-L2");
}

#[test]
fn hardware_slugs_roundtrip() {
    for hw in [Hardware::DevWsl, Hardware::AwsT4gMedium, Hardware::AwsI4iXlarge, Hardware::BareMetalLarge] {
        assert_eq!(Hardware::from_slug(hw.slug()), Some(hw));
    }
    assert_eq!(Hardware::from_slug("DEV-WSL"), None);
    assert!(!Hardware::DevWsl.captures_run_resource_profile());
    assert!(Hardware::CiSmall.captures_run_resource_profile());
    assert!(!Hardware::BareMetalSmall.captures_run_resource_profile());
}

#[test]
fn storage_requirements() {
    assert!(Storage::Scylla.needs_remote_scylla());
    assert!(Storage::TikvRaw.needs_remote_tikv_raw());
    assert!(Storage::SurrealTikv.needs_remote_surreal());
    assert!(!Storage::Sqlite.needs_remote_surreal());
    assert!(Storage::Mem.is_supported());
    assert!(!Telemetry::Stub.is_supported());
    assert_eq!(Storage::TikvRaw.slug(), "tikv-raw");
    assert_eq!(Topology::RemoteSurreal.slug(), "remote-surreal");
    assert_eq!(SurrealDeployment::MultiNode.slug(), "multi-node");
    assert_eq!(backend_kind(Storage::SurrealRocksdb), LogBackendKind::SurrealLocal);
    assert_eq!(backend_kind(Storage::Mem), LogBackendKind::Memory);
}

#[test]
fn run_dimensions_constructors() {
    let d = RunDimensions::isolated(Storage::Sqlite, Telemetry::Console, Hardware::CiSmall);
    assert_eq!(d.topology, Topology::IsolatedLab);
    assert_eq!(d.surreal_instances, 1);
    assert!(d.tikv_topology.is_none());
    let r = RunDimensions::remote_surreal_tikv(Hardware::AwsT3Small, TikvTopology::Ha3, SurrealDeployment::Remote, 3);
    assert_eq!(r.storage, Storage::SurrealTikv);
    assert_eq!(r.topology, Topology::RemoteSurreal);
    assert_eq!(r.telemetry, Telemetry::Off);
    assert!(r.needs_remote_surreal());
    assert!(!r.needs_remote_scylla());
}

#[test]
fn run_dimensions_from_command_line() {
    let d = build_run_dimensions(
        Storage::SurrealTikv,
        Topology::IsolatedLab,
        Telemetry::Console,
        Hardware::DevWsl,
        None,
        Some(TikvTopology::Scale4),
        2,
    );
    assert_eq!(d.tikv_topology, Some(TikvTopology::Scale4));
    assert_eq!(d.surreal_deployment, Some(SurrealDeployment::Colocated));
    assert_eq!(d.surreal_instances, 2);
    assert_eq!(d.telemetry, Telemetry::Off);
    let e = build_run_dimensions(Storage::SurrealTikv, Topology::IsolatedLab, Telemetry::Off, Hardware::DevWsl, None, None, 1);
    assert_eq!(e.tikv_topology, Some(TikvTopology::Minimal));
    let f = build_run_dimensions(Storage::Mem, Topology::SharedHandle, Telemetry::Console, Hardware::DevWsl, Some(TikvTopology::Ha2), None, 1);
    assert_eq!(f.topology, Topology::SharedHandle);
    assert_eq!(f.telemetry, Telemetry::Console);
    assert!(f.tikv_topology.is_none());
}

#[test]
fn environment_counts() {
    assert_eq!(surreal_instances_from_env(Some("4")), 4);
    assert_eq!(surreal_instances_from_env(Some("+7")), 7);
    assert_eq!(surreal_instances_from_env(Some("256")), 1);
    assert_eq!(surreal_instances_from_env(Some("-1")), 1);
    assert_eq!(surreal_instances_from_env(None), 1);
    assert_eq!(load_partition_count(Some("8")), 8);
    assert_eq!(load_partition_count(Some("0")), 1);
    assert_eq!(load_partition_count(Some("x")), 1);
    assert_eq!(load_partition_count(None), 1);
}

#[test]
fn component_hardware_defaults_to_runtime() {
    let c = ComponentHardware::from_run(Hardware::AwsT4gLarge, None, Some("aws-c7i-4xlarge".to_string()));
    assert_eq!(c.runtime, "aws-t4g-large");
    assert_eq!(c.surreal.as_deref(), Some("aws-t4g-large"));
    assert_eq!(c.tikv.as_deref(), Some("aws-c7i-4xlarge"));
}
