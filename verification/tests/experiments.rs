use continuum::dimensions::{ExperimentId, Hardware, RunDimensions, Storage, Telemetry};
use continuum::experiments::{
    append_summary, bench_payload, bench_stream, bench_stream_for_load, dir_size_bytes, env_count_or, expected_rows, join_notes,
    load_partition_index, load_target_ops, parse_contact_points, partition_key,
    patch_results_line, patch_results_table, preflight, scylla_engine_path, size_label,
    spread_partition_index, storage_disk_path, tagged_summary, tick_nanos, truncation_midpoint,
    worker_key, PageScan, ReportStatus,
};
use continuum::matrix::MatrixEnv;
use continuum::types::{LogBackendKind, LogSeq};

fn env() -> MatrixEnv {
    MatrixEnv {
        surreal_url: false,
        postgres_url: false,
        scylla_contact_points: false,
        tikv_pd_endpoint: false,
        tikv_topology: None,
        scylla_topology: None,
        surreal_instances: 1,
    }
}

#[test]
fn preflight_skips() {
    let d = RunDimensions::isolated(Storage::Mem, Telemetry::Stub, Hardware::DevWsl);
    let s = preflight(d, &env()).unwrap();
    assert_eq!(s.status, ReportStatus::SkippedUnsupported);
    assert_eq!(s.notes, "telemetry stub not implemented");
    let d = RunDimensions::isolated(Storage::Scylla, Telemetry::Off, Hardware::DevWsl);
    let s = preflight(d, &env()).unwrap();
    assert_eq!(s.status, ReportStatus::SkippedNoRemote);
    assert_eq!(s.notes, "CONTINUUM_BENCH_SCYLLA_CONTACT_POINTS not set");
    let d = RunDimensions::isolated(Storage::TikvRaw, Telemetry::Off, Hardware::DevWsl);
    assert_eq!(preflight(d, &env()).unwrap().notes, "CONTINUUM_BENCH_TIKV_PD_ENDPOINT not set");
    let d = RunDimensions::isolated(Storage::SurrealTikv, Telemetry::Off, Hardware::DevWsl);
    assert_eq!(preflight(d, &env()).unwrap().notes, "CONTINUUM_BENCH_SURREAL_URL not set");
    let d = RunDimensions::isolated(Storage::Sqlite, Telemetry::Console, Hardware::DevWsl);
    assert!(preflight(d, &env()).is_none());
    let d = RunDimensions::isolated(Storage::Scylla, Telemetry::Off, Hardware::DevWsl);
    assert!(preflight(d, &MatrixEnv { scylla_contact_points: true, ..env() }).is_none());
}

#[test]
fn notes_and_summaries() {
    assert_eq!(join_notes("p50=1ms PASS".to_string(), Some("ops=3".to_string())), "p50=1ms PASS ops=3");
    assert_eq!(join_notes("FAIL".to_string(), None), "FAIL");
    assert_eq!(tagged_summary("p95=2ms PASS", "sqlite", "off"), "p95=2ms PASS (sqlite/off)");
    let mut cell = "a".to_string();
    append_summary(&mut cell, "b");
    assert_eq!(cell, "a; b");
}

#[test]
fn results_table_patch() {
    let line = "| BM-C0 | append | p50 | flat | — |";
    assert_eq!(patch_results_line(line, "BM-C0", "ok"), "| BM-C0 | append | p50 | flat | ok |");
    assert_eq!(patch_results_line(line, "BM-C1", "ok"), line);
    assert_eq!(patch_results_line("BM-C0 not a row", "BM-C0", "ok"), "BM-C0 not a row");
    assert_eq!(patch_results_line("| BM-C0 | short |", "BM-C0", "ok"), "| BM-C0 | short |");
    let lines = vec![line.to_string(), "text".to_string()];
    let out = patch_results_table(&lines, "BM-C0", "x");
    assert_eq!(out, vec!["| BM-C0 | append | p50 | flat | x |".to_string(), "text".to_string()]);
}

#[test]
fn workload_naming_and_pacing() {
    assert_eq!(load_target_ops(ExperimentId::BmL0), 100);
    assert_eq!(load_target_ops(ExperimentId::BmL3), 100_000);
    assert_eq!(tick_nanos(1000), 1_000_000);
    assert_eq!(size_label(10_000), "10k");
    assert_eq!(size_label(5), "other");
    assert_eq!(truncation_midpoint(LogSeq(50_000)), LogSeq(25_000));
    assert_eq!(truncation_midpoint(LogSeq(7)), LogSeq(3));
    assert_eq!(truncation_midpoint(LogSeq(-7)), LogSeq(-3));
    assert_eq!(truncation_midpoint(LogSeq(i64::MIN)), LogSeq(i64::MIN / 2));
    assert_eq!(partition_key(3), "partition_3");
    assert_eq!(worker_key(12), "worker_12");
    assert_eq!(load_partition_index(10, 4), 2);
    assert_eq!(spread_partition_index(5, 9, 4), 6);
    assert_eq!(env_count_or(Some("16"), 8), 16);
    assert_eq!(env_count_or(Some("many"), 8), 8);
    assert_eq!(env_count_or(None, 10), 10);
    assert_eq!(expected_rows(10, 100), 1000);
    assert_eq!(bench_payload(), vec![0u8; 256]);
    let s = bench_stream(Storage::Sqlite, "bm-c0");
    assert_eq!(s.destination.logical, "bench");
    assert_eq!(s.destination.kind, LogBackendKind::Sqlite);
    assert_eq!(s.topic, "bm-c0");
    assert!(s.key.is_none());
}

#[test]
fn paged_scan() {
    let mut scan = PageScan::new(LogSeq(0));
    assert!(scan.advance(3, LogSeq(3)));
    assert!(scan.advance(2, LogSeq(7)));
    assert!(!scan.advance(0, LogSeq(0)));
    assert_eq!(scan, PageScan { total: 5, cursor: LogSeq(7) });
}

#[test]
fn disk_paths() {
    assert_eq!(storage_disk_path("rocksdb:///tmp/db").as_deref(), Some("/tmp/db"));
    assert_eq!(storage_disk_path("sqlite:///tmp/a.db?mode=rwc").as_deref(), Some("/tmp/a.db"));
    assert_eq!(storage_disk_path("sqlite:///tmp/a.db").as_deref(), Some("/tmp/a.db"));
    assert_eq!(storage_disk_path("mem://"), None);
}

#[test]
fn scylla_bench_settings() {
    let cps = parse_contact_points(" 10.0.0.1:9042, ,10.0.0.2:9042 ,");
    assert_eq!(cps, vec!["10.0.0.1:9042".to_string(), "10.0.0.2:9042".to_string()]);
    assert_eq!(scylla_engine_path(&cps, "continuum"), "scylla://10.0.0.1:9042,10.0.0.2:9042/continuum");
    assert_eq!(scylla_engine_path(&vec![], "ks"), "scylla:///ks");
}

#[test]
fn dir_size_sums_found_files_and_counts_a_failed_walk_as_zero() {
    assert_eq!(dir_size_bytes(Some(vec![4096, 512, 0, 7])), 4615);
    assert_eq!(dir_size_bytes(Some(vec![])), 0);
    assert_eq!(dir_size_bytes(None), 0);
}

#[test]
fn load_streams_are_keyed_only_when_spread() {
    let single = bench_stream_for_load(Storage::Mem, "bm-l1", 7, 1);
    assert_eq!(single.topic, "bm-l1");
    assert_eq!(single.key, None);
    let spread = bench_stream_for_load(Storage::Mem, "bm-l1", 7, 4);
    assert_eq!(spread.key.as_deref(), Some("partition_3"));
    assert_eq!(spread.destination.logical, "bench");
    let first = bench_stream_for_load(Storage::Mem, "bm-l1", 8, 4);
    assert_eq!(first.key.as_deref(), Some("partition_0"));
}
