use continuum::dimensions::{Storage, Telemetry, Topology};
use continuum::harness::{
    console_telemetry, cpu_model_from_lines, engine_route, is_remote_surreal_url, os_label, shared_handle_kind,
    surreal_connection, BuildRefusal, EngineRoute, SharedKind, SurrealConnection,
};
use continuum::resources::ResourceTally;

#[test]
fn remote_surreal_urls() {
    assert!(is_remote_surreal_url("ws://host:8000"));
    assert!(is_remote_surreal_url("https://db"));
    assert!(!is_remote_surreal_url("mem://"));
    assert!(!is_remote_surreal_url("rocksdb:///tmp/x"));
}

#[test]
fn engine_routes() {
    assert_eq!(engine_route(Storage::Mem, Telemetry::Off), Ok(EngineRoute::Memory));
    assert_eq!(engine_route(Storage::SurrealRocksdb, Telemetry::Console), Ok(EngineRoute::Surreal));
    assert_eq!(engine_route(Storage::TikvRaw, Telemetry::Off), Ok(EngineRoute::TikvRaw));
    assert_eq!(engine_route(Storage::Sqlite, Telemetry::Stub), Err(BuildRefusal::UnsupportedTelemetry(Telemetry::Stub)));
    assert!(console_telemetry(Telemetry::Console));
    assert!(!console_telemetry(Telemetry::Stub));
}

#[test]
fn shared_handles() {
    assert_eq!(shared_handle_kind(Storage::Sqlite, Topology::SharedHandle), Some(SharedKind::Sqlite));
    assert_eq!(shared_handle_kind(Storage::SurrealMem, Topology::SharedHandle), Some(SharedKind::Surreal));
    assert_eq!(shared_handle_kind(Storage::Mem, Topology::SharedHandle), None);
    assert_eq!(shared_handle_kind(Storage::Sqlite, Topology::IsolatedLab), None);
    assert_eq!(surreal_connection(Topology::SharedHandle, true), SurrealConnection::Shared);
    assert_eq!(surreal_connection(Topology::SharedHandle, false), SurrealConnection::Embedded);
    assert_eq!(surreal_connection(Topology::RemoteSurreal, true), SurrealConnection::Remote);
    assert_eq!(surreal_connection(Topology::IsolatedLab, true), SurrealConnection::Embedded);
}

#[test]
fn host_descriptions() {
    let lines = vec![
        "processor\t: 0".to_string(),
        "model name\t: AMD EPYC 7763 64-Core Processor ".to_string(),
        "model name\t: other".to_string(),
    ];
    assert_eq!(cpu_model_from_lines(&lines), "AMD EPYC 7763 64-Core Processor");
    assert_eq!(cpu_model_from_lines(&vec!["flags: x".to_string()]), "unknown");
    assert_eq!(cpu_model_from_lines(&vec!["model name".to_string()]), "model name");
    assert_eq!(os_label("Linux 6.1.0\n", Some("Linux version 5.15 (Microsoft)")), "linux WSL2 (Linux 6.1.0)");
    assert_eq!(os_label("Linux 6.1.0", Some("Linux version 6.1")), "linux (Linux 6.1.0)");
    assert_eq!(os_label("Linux 6.1.0", None), "linux (Linux 6.1.0)");
}

#[test]
fn resource_tally() {
    let mut t = ResourceTally::new();
    t.record_rss(0);
    t.record_rss(100);
    t.record_rss(50);
    t.record_system(7);
    t.record_cpu(5);
    t.record_cpu(3);
    assert_eq!(t.rss_peak, 100);
    assert_eq!(t.system_peak, 7);
    assert_eq!(t.cpu_peak_micro, 5);
    assert_eq!(t.cpu_sum_micro, 8);
    assert_eq!(t.samples, 2);
    assert_eq!(t.rss_peak_with(40, 120), 120);
    assert_eq!(t.system_peak_with(9, 1), 9);
}
