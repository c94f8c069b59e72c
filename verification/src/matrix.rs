//! The pre-registered benchmark matrices: which experiments run on which
//! dimensions for each matrix subset, and how a matrix run is narrowed by
//! the command line's filters.

use vstd::prelude::*;

use crate::dimensions::{
    all_experiments, experiment_parse_spec, isolated_spec, remote_surreal_tikv_spec, tikv_lab_presets,
    ExperimentId, Hardware, MatrixSubset, RunDimensions, ScyllaTopology, Storage, SurrealDeployment,
    Telemetry, TikvTopology, Topology,
};
use crate::text::{concat, owned};

verus! {

/// One run of a matrix: an experiment on a dimension set.
pub type Run = (ExperimentId, RunDimensions);

/// `f` applied to each element, the results concatenated in order.
pub open spec fn concat_map<A, B>(s: Seq<A>, f: spec_fn(A) -> Seq<B>) -> Seq<B>
    decreases s.len(),
{
    if s.len() == 0 {
        Seq::empty()
    } else {
        concat_map(s.drop_last(), f) + f(s.last())
    }
}

/// The elements that satisfy `keep`, in order.
pub open spec fn keep_where<A>(s: Seq<A>, keep: spec_fn(A) -> bool) -> Seq<A>
    decreases s.len(),
{
    if s.len() == 0 {
        Seq::empty()
    } else if keep(s.last()) {
        keep_where(s.drop_last(), keep).push(s.last())
    } else {
        keep_where(s.drop_last(), keep)
    }
}

/// What a matrix needs to know of the environment: which remote services are
/// configured, and the presets and instance count named there.
#[derive(Clone, Copy, Debug, PartialEq, Eq, Structural)]
pub struct MatrixEnv {
    /// `CONTINUUM_BENCH_SURREAL_URL` is set.
    pub surreal_url: bool,
    /// `CONTINUUM_BENCH_POSTGRES_URL` is set.
    pub postgres_url: bool,
    /// `CONTINUUM_BENCH_SCYLLA_CONTACT_POINTS` (or `CONTINUUM_BENCH_SCYLLA_URL`) is set.
    pub scylla_contact_points: bool,
    /// `CONTINUUM_BENCH_TIKV_PD_ENDPOINT` is set.
    pub tikv_pd_endpoint: bool,
    /// Preset named by `CONTINUUM_BENCH_TIKV_TOPOLOGY`.
    pub tikv_topology: Option<TikvTopology>,
    /// Preset named by `CONTINUUM_BENCH_SCYLLA_TOPOLOGY`.
    pub scylla_topology: Option<ScyllaTopology>,
    /// Instance count from `CONTINUUM_BENCH_SURREAL_INSTANCES`.
    pub surreal_instances: u8,
}

/// Topology an experiment runs under in the lab matrices: BM-C5 measures a
/// shared handle, every other experiment runs isolated.
pub open spec fn exp_topology(exp: ExperimentId) -> Topology {
    if exp == ExperimentId::BmC5 {
        Topology::SharedHandle
    } else {
        Topology::IsolatedLab
    }
}

/// Telemetry modes an experiment sweeps: BM-C0 and BM-L1 also run with console telemetry.
pub open spec fn exp_telemetries(exp: ExperimentId) -> Seq<Telemetry> {
    if exp == ExperimentId::BmC0 || exp == ExperimentId::BmL1 {
        seq![Telemetry::Off, Telemetry::Console]
    } else {
        seq![Telemetry::Off]
    }
}

/// Local lab dimensions (no cluster presets, one Surreal instance).
pub open spec fn lab_dims(storage: Storage, topology: Topology, telemetry: Telemetry, hardware: Hardware) -> RunDimensions {
    RunDimensions { topology, ..isolated_spec(storage, telemetry, hardware) }
}

/// Runs of one experiment on one storage, one per telemetry mode it sweeps.
pub open spec fn lab_runs(exp: ExperimentId, storage: Storage, hardware: Hardware) -> Seq<Run> {
    exp_telemetries(exp).map_values(|t: Telemetry| (exp, lab_dims(storage, exp_topology(exp), t, hardware)))
}

/// Storages of the local development matrix.
pub open spec fn dev_storages() -> Seq<Storage> {
    seq![Storage::Mem, Storage::SurrealMem, Storage::SurrealRocksdb, Storage::Sqlite]
}

/// The remote Surreal runs: every experiment but BM-C5, when a Surreal URL is configured.
pub open spec fn remote_surreal_runs(env: MatrixEnv, hardware: Hardware) -> Seq<Run> {
    if env.surreal_url {
        keep_where(all_experiments(), |e: ExperimentId| e != ExperimentId::BmC5).map_values(
            |e: ExperimentId| (e, lab_dims(Storage::SurrealMem, Topology::RemoteSurreal, Telemetry::Off, hardware)),
        )
    } else {
        Seq::empty()
    }
}

/// The PostgreSQL runs: every experiment with its telemetry sweep, when a Postgres URL is configured.
pub open spec fn postgres_runs(env: MatrixEnv, hardware: Hardware) -> Seq<Run> {
    if env.postgres_url {
        concat_map(all_experiments(), |e: ExperimentId| lab_runs(e, Storage::Postgres, hardware))
    } else {
        Seq::empty()
    }
}

/// The full development matrix.
pub open spec fn dev_wsl_spec(env: MatrixEnv) -> Seq<Run> {
    concat_map(
        all_experiments(),
        |e: ExperimentId| concat_map(dev_storages(), |s: Storage| lab_runs(e, s, Hardware::DevWsl)),
    ) + remote_surreal_runs(env, Hardware::DevWsl) + postgres_runs(env, Hardware::DevWsl)
}

/// Telemetry modes of an experiment.
fn telemetries_for(exp: ExperimentId) -> (t: Vec<Telemetry>)
    ensures
        t@ == exp_telemetries(exp),
{
    if exp == ExperimentId::BmC0 || exp == ExperimentId::BmL1 {
        vec![Telemetry::Off, Telemetry::Console]
    } else {
        vec![Telemetry::Off]
    }
}

/// Appends the runs of one experiment on one storage.
fn push_lab_runs(runs: &mut Vec<Run>, exp: ExperimentId, storage: Storage, hardware: Hardware)
    ensures
        final(runs)@ == old(runs)@ + lab_runs(exp, storage, hardware),
{
    let tels = telemetries_for(exp);
    let topology = if exp == ExperimentId::BmC5 { Topology::SharedHandle } else { Topology::IsolatedLab };
    let ghost base = runs@;
    let ghost want = lab_runs(exp, storage, hardware);
    let mut j: usize = 0;
    while j < tels.len()
        invariant
            j <= tels@.len(),
            tels@ == exp_telemetries(exp),
            topology == exp_topology(exp),
            want == lab_runs(exp, storage, hardware),
            want.len() == tels@.len(),
            runs@ == base + want.take(j as int),
        decreases tels@.len() - j,
    {
        let d = RunDimensions {
            storage,
            topology,
            telemetry: tels[j],
            hardware,
            tikv_topology: None,
            scylla_topology: None,
            surreal_deployment: None,
            surreal_instances: 1,
        };
        runs.push((exp, d));
        assert(want.take(j + 1) =~= want.take(j as int).push(want[j as int]));
        j = j + 1;
    }
    assert(want.take(want.len() as int) =~= want);
}

/// Appends the PostgreSQL runs when a Postgres URL is configured.
fn push_postgres_runs(runs: &mut Vec<Run>, env: &MatrixEnv, hardware: Hardware)
    ensures
        final(runs)@ == old(runs)@ + postgres_runs(*env, hardware),
{
    if !env.postgres_url {
        assert(old(runs)@ + Seq::<Run>::empty() =~= old(runs)@);
        return;
    }
    let all = ExperimentId::all();
    let ghost base = runs@;
    let ghost f = |e: ExperimentId| lab_runs(e, Storage::Postgres, hardware);
    let mut i: usize = 0;
    assert(all@.take(0) =~= Seq::<ExperimentId>::empty());
    assert(base + Seq::<Run>::empty() =~= base);
    while i < all.len()
        invariant
            i <= all@.len(),
            all@ == all_experiments(),
            f == (|e: ExperimentId| lab_runs(e, Storage::Postgres, hardware)),
            runs@ == base + concat_map(all@.take(i as int), f),
        decreases all@.len() - i,
    {
        let exp = all[i];
        push_lab_runs(runs, exp, Storage::Postgres, hardware);
        assert(all@.take(i + 1).drop_last() =~= all@.take(i as int));
        assert(base + concat_map(all@.take(i as int), f) + f(exp) =~= base + concat_map(all@.take(i + 1), f));
        i = i + 1;
    }
    assert(all@.take(all@.len() as int) =~= all@);
}

/// Appends the remote Surreal runs when a Surreal URL is configured.
fn push_remote_surreal_runs(runs: &mut Vec<Run>, env: &MatrixEnv, hardware: Hardware)
    ensures
        final(runs)@ == old(runs)@ + remote_surreal_runs(*env, hardware),
{
    if !env.surreal_url {
        assert(old(runs)@ + Seq::<Run>::empty() =~= old(runs)@);
        return;
    }
    let all = ExperimentId::all();
    let ghost base = runs@;
    let ghost k = |e: ExperimentId| e != ExperimentId::BmC5;
    let ghost g = |e: ExperimentId| (e, lab_dims(Storage::SurrealMem, Topology::RemoteSurreal, Telemetry::Off, hardware));
    let mut i: usize = 0;
    assert(all@.take(0) =~= Seq::<ExperimentId>::empty());
    assert(base + Seq::<Run>::empty() =~= base);
    while i < all.len()
        invariant
            i <= all@.len(),
            all@ == all_experiments(),
            k == (|e: ExperimentId| e != ExperimentId::BmC5),
            g == (|e: ExperimentId| (e, lab_dims(Storage::SurrealMem, Topology::RemoteSurreal, Telemetry::Off, hardware))),
            runs@ == base + keep_where(all@.take(i as int), k).map_values(g),
        decreases all@.len() - i,
    {
        let exp = all[i];
        assert(all@.take(i + 1).drop_last() =~= all@.take(i as int));
        if exp != ExperimentId::BmC5 {
            let d = RunDimensions {
                storage: Storage::SurrealMem,
                topology: Topology::RemoteSurreal,
                telemetry: Telemetry::Off,
                hardware,
                tikv_topology: None,
                scylla_topology: None,
                surreal_deployment: None,
                surreal_instances: 1,
            };
            runs.push((exp, d));
            assert(keep_where(all@.take(i + 1), k).map_values(g) =~= keep_where(all@.take(i as int), k).map_values(g).push(g(exp)));
        }
        i = i + 1;
    }
    assert(all@.take(all@.len() as int) =~= all@);
}

/// Default matrix runs for the local development profile.
pub fn dev_wsl_matrix(env: &MatrixEnv) -> (runs: Vec<Run>)
    ensures
        runs@ == dev_wsl_spec(*env),
{
    let storages: Vec<Storage> = vec![Storage::Mem, Storage::SurrealMem, Storage::SurrealRocksdb, Storage::Sqlite];
    let all = ExperimentId::all();
    let mut runs: Vec<Run> = Vec::new();
    let ghost inner = |e: ExperimentId| concat_map(dev_storages(), |s: Storage| lab_runs(e, s, Hardware::DevWsl));
    let mut i: usize = 0;
    assert(all@.take(0) =~= Seq::<ExperimentId>::empty());
    while i < all.len()
        invariant
            i <= all@.len(),
            all@ == all_experiments(),
            storages@ == dev_storages(),
            inner == (|e: ExperimentId| concat_map(dev_storages(), |s: Storage| lab_runs(e, s, Hardware::DevWsl))),
            runs@ == concat_map(all@.take(i as int), inner),
        decreases all@.len() - i,
    {
        let exp = all[i];
        let ghost before = runs@;
        let ghost h = |s: Storage| lab_runs(exp, s, Hardware::DevWsl);
        let mut j: usize = 0;
        assert(storages@.take(0) =~= Seq::<Storage>::empty());
        assert(before + Seq::<Run>::empty() =~= before);
        while j < storages.len()
            invariant
                j <= storages@.len(),
                storages@ == dev_storages(),
                h == (|s: Storage| lab_runs(exp, s, Hardware::DevWsl)),
                runs@ == before + concat_map(storages@.take(j as int), h),
            decreases storages@.len() - j,
        {
            push_lab_runs(&mut runs, exp, storages[j], Hardware::DevWsl);
            assert(storages@.take(j + 1).drop_last() =~= storages@.take(j as int));
            assert(before + concat_map(storages@.take(j as int), h) + h(storages@[j as int]) =~= before + concat_map(
                storages@.take(j + 1),
                h,
            ));
            j = j + 1;
        }
        assert(storages@.take(storages@.len() as int) =~= storages@);
        assert(inner(exp) == concat_map(dev_storages(), h));
        assert(all@.take(i + 1).drop_last() =~= all@.take(i as int));
        i = i + 1;
    }
    assert(all@.take(all@.len() as int) =~= all@);
    push_remote_surreal_runs(&mut runs, env, Hardware::DevWsl);
    push_postgres_runs(&mut runs, env, Hardware::DevWsl);
    runs
}


/// Every registered experiment but `skip`, in run order.
pub fn experiments_except(skip: ExperimentId) -> (ids: Vec<ExperimentId>)
    ensures
        ids@ == keep_where(all_experiments(), |e: ExperimentId| e != skip),
{
    let all = ExperimentId::all();
    let ghost k = |e: ExperimentId| e != skip;
    let mut ids: Vec<ExperimentId> = Vec::new();
    let mut i: usize = 0;
    assert(all@.take(0) =~= Seq::<ExperimentId>::empty());
    while i < all.len()
        invariant
            i <= all@.len(),
            all@ == all_experiments(),
            k == (|e: ExperimentId| e != skip),
            ids@ == keep_where(all@.take(i as int), k),
        decreases all@.len() - i,
    {
        assert(all@.take(i + 1).drop_last() =~= all@.take(i as int));
        if all[i] != skip {
            ids.push(all[i]);
        }
        i = i + 1;
    }
    assert(all@.take(all@.len() as int) =~= all@);
    ids
}

/// Appends one run per experiment, all on the same dimensions.
fn push_for_exps(runs: &mut Vec<Run>, exps: &Vec<ExperimentId>, dims: RunDimensions)
    ensures
        final(runs)@ == old(runs)@ + exps@.map_values(|e: ExperimentId| (e, dims)),
{
    let ghost base = runs@;
    let ghost want = exps@.map_values(|e: ExperimentId| (e, dims));
    let mut j: usize = 0;
    while j < exps.len()
        invariant
            j <= exps@.len(),
            want == exps@.map_values(|e: ExperimentId| (e, dims)),
            runs@ == base + want.take(j as int),
        decreases exps@.len() - j,
    {
        runs.push((exps[j], dims));
        assert(want.take(j + 1) =~= want.take(j as int).push(want[j as int]));
        j = j + 1;
    }
    assert(want.take(want.len() as int) =~= want);
}

/// Storages of the native-adapter matrices: `SQLite`, then Scylla and raw
/// `TiKV` when their endpoints are configured.
pub open spec fn native_storages_spec(env: MatrixEnv) -> Seq<Storage> {
    seq![Storage::Sqlite] + (if env.scylla_contact_points { seq![Storage::Scylla] } else { Seq::empty() }) + (
    if env.tikv_pd_endpoint {
        seq![Storage::TikvRaw]
    } else {
        Seq::empty()
    })
}

/// The configured remote native storages (Scylla, raw `TiKV`).
pub open spec fn remote_native_storages(env: MatrixEnv) -> Seq<Storage> {
    keep_where(native_storages_spec(env), |s: Storage| s == Storage::Scylla || s == Storage::TikvRaw)
}

/// Dimensions of a native-adapter run: isolated, telemetry off, with the
/// cluster preset from the environment (one Scylla node, minimal `TiKV` by default).
pub open spec fn native_dims_spec(storage: Storage, hardware: Hardware, env: MatrixEnv) -> RunDimensions {
    RunDimensions {
        scylla_topology: if storage == Storage::Scylla {
            Some(
                match env.scylla_topology {
                    Some(t) => t,
                    None => ScyllaTopology::One,
                },
            )
        } else {
            None
        },
        tikv_topology: if storage == Storage::TikvRaw {
            Some(
                match env.tikv_topology {
                    Some(t) => t,
                    None => TikvTopology::Minimal,
                },
            )
        } else {
            None
        },
        ..isolated_spec(storage, Telemetry::Off, hardware)
    }
}

fn native_storages(env: &MatrixEnv) -> (s: Vec<Storage>)
    ensures
        s@ == native_storages_spec(*env),
{
    let mut s: Vec<Storage> = vec![Storage::Sqlite];
    if env.scylla_contact_points {
        s.push(Storage::Scylla);
    }
    if env.tikv_pd_endpoint {
        s.push(Storage::TikvRaw);
    }
    assert(s@ =~= native_storages_spec(*env));
    s
}

fn remote_storages(env: &MatrixEnv) -> (s: Vec<Storage>)
    ensures
        s@ == remote_native_storages(*env),
{
    let mut s: Vec<Storage> = Vec::new();
    if env.scylla_contact_points {
        s.push(Storage::Scylla);
    }
    if env.tikv_pd_endpoint {
        s.push(Storage::TikvRaw);
    }
    let ghost k = |x: Storage| x == Storage::Scylla || x == Storage::TikvRaw;
    let ghost n = native_storages_spec(*env);
    reveal_with_fuel(keep_where, 4);
    if env.scylla_contact_points && env.tikv_pd_endpoint {
        assert(n.drop_last() =~= seq![Storage::Sqlite, Storage::Scylla]);
        assert(n.drop_last().drop_last() =~= seq![Storage::Sqlite]);
        assert(n.drop_last().drop_last().drop_last() =~= Seq::<Storage>::empty());
    } else if env.scylla_contact_points || env.tikv_pd_endpoint {
        assert(n.drop_last() =~= seq![Storage::Sqlite]);
        assert(n.drop_last().drop_last() =~= Seq::<Storage>::empty());
    } else {
        assert(n.drop_last() =~= Seq::<Storage>::empty());
    }
    assert(s@ =~= keep_where(n, k));
    s
}

fn native_dims(storage: Storage, hardware: Hardware, env: &MatrixEnv) -> (d: RunDimensions)
    ensures
        d == native_dims_spec(storage, hardware, *env),
{
    let mut dims = RunDimensions::isolated(storage, Telemetry::Off, hardware);
    if storage == Storage::Scylla {
        dims.scylla_topology = match env.scylla_topology {
            Some(t) => Some(t),
            None => Some(ScyllaTopology::One),
        };
    }
    if storage == Storage::TikvRaw {
        dims.tikv_topology = match env.tikv_topology {
            Some(t) => Some(t),
            None => Some(TikvTopology::Minimal),
        };
    }
    dims
}

/// Appends one native run of `exp` per storage.
fn push_native_for_storages(runs: &mut Vec<Run>, exp: ExperimentId, storages: &Vec<Storage>, hardware: Hardware, env: &MatrixEnv)
    ensures
        final(runs)@ == old(runs)@ + storages@.map_values(|s: Storage| (exp, native_dims_spec(s, hardware, *env))),
{
    let ghost base = runs@;
    let ghost want = storages@.map_values(|s: Storage| (exp, native_dims_spec(s, hardware, *env)));
    let mut j: usize = 0;
    while j < storages.len()
        invariant
            j <= storages@.len(),
            want == storages@.map_values(|s: Storage| (exp, native_dims_spec(s, hardware, *env))),
            runs@ == base + want.take(j as int),
        decreases storages@.len() - j,
    {
        let d = native_dims(storages[j], hardware, env);
        runs.push((exp, d));
        assert(want.take(j + 1) =~= want.take(j as int).push(want[j as int]));
        j = j + 1;
    }
    assert(want.take(want.len() as int) =~= want);
}

/// Storages of the SQL adapter matrix: `SQLite`, and PostgreSQL when its URL is configured.
pub open spec fn sql_storages(env: MatrixEnv) -> Seq<Storage> {
    if env.postgres_url {
        seq![Storage::Sqlite, Storage::Postgres]
    } else {
        seq![Storage::Sqlite]
    }
}

/// SQL adapter matrix: every experiment but the BM-C6 soak, on each SQL
/// storage, telemetry off.
pub open spec fn sql_adapter_spec(hardware: Hardware, env: MatrixEnv) -> Seq<Run> {
    concat_map(
        keep_where(all_experiments(), |e: ExperimentId| e != ExperimentId::BmC6),
        |e: ExperimentId| sql_storages(env).map_values(|s: Storage| (e, lab_dims(s, exp_topology(e), Telemetry::Off, hardware))),
    )
}

/// SQL adapter benchmark matrix: sqlite + postgres (when configured), telemetry off, no BM-C6.
pub fn sql_adapter_matrix(hardware: Hardware, env: &MatrixEnv) -> (runs: Vec<Run>)
    ensures
        runs@ == sql_adapter_spec(hardware, *env),
{
    let storages: Vec<Storage> = if env.postgres_url {
        vec![Storage::Sqlite, Storage::Postgres]
    } else {
        vec![Storage::Sqlite]
    };
    let exps = experiments_except(ExperimentId::BmC6);
    let ghost f = |e: ExperimentId| sql_storages(*env).map_values(|s: Storage| (e, lab_dims(s, exp_topology(e), Telemetry::Off, hardware)));
    let mut runs: Vec<Run> = Vec::new();
    let mut i: usize = 0;
    assert(exps@.take(0) =~= Seq::<ExperimentId>::empty());
    while i < exps.len()
        invariant
            i <= exps@.len(),
            storages@ == sql_storages(*env),
            f == (|e: ExperimentId| sql_storages(*env).map_values(|s: Storage| (e, lab_dims(s, exp_topology(e), Telemetry::Off, hardware)))),
            runs@ == concat_map(exps@.take(i as int), f),
        decreases exps@.len() - i,
    {
        let exp = exps[i];
        let topology = if exp == ExperimentId::BmC5 { Topology::SharedHandle } else { Topology::IsolatedLab };
        let ghost before = runs@;
        let ghost want = f(exp);
        let mut j: usize = 0;
        while j < storages.len()
            invariant
                j <= storages@.len(),
                topology == exp_topology(exp),
                want == sql_storages(*env).map_values(|s: Storage| (exp, lab_dims(s, exp_topology(exp), Telemetry::Off, hardware))),
                storages@ == sql_storages(*env),
                runs@ == before + want.take(j as int),
            decreases storages@.len() - j,
        {
            let d = RunDimensions {
                storage: storages[j],
                topology,
                telemetry: Telemetry::Off,
                hardware,
                tikv_topology: None,
                scylla_topology: None,
                surreal_deployment: None,
                surreal_instances: 1,
            };
            runs.push((exp, d));
            assert(want.take(j + 1) =~= want.take(j as int).push(want[j as int]));
            j = j + 1;
        }
        assert(want.take(want.len() as int) =~= want);
        assert(exps@.take(i + 1).drop_last() =~= exps@.take(i as int));
        i = i + 1;
    }
    assert(exps@.take(exps@.len() as int) =~= exps@);
    runs
}

/// `TiKV` lab matrix: every experiment but BM-C5 on each lab `TiKV` preset,
/// preset by preset.
pub open spec fn tikv_lab_colocated_spec(hardware: Hardware, env: MatrixEnv) -> Seq<Run> {
    concat_map(
        tikv_lab_presets(),
        |t: TikvTopology| keep_where(all_experiments(), |e: ExperimentId| e != ExperimentId::BmC5).map_values(
            |e: ExperimentId| (e, remote_surreal_tikv_spec(hardware, t, SurrealDeployment::Colocated, env.surreal_instances)),
        ),
    )
}

/// `TiKV` lab matrix: all BM-* experiments × each lab `TiKV` preset.
pub fn tikv_lab_colocated_matrix(hardware: Hardware, env: &MatrixEnv) -> (runs: Vec<Run>)
    ensures
        runs@ == tikv_lab_colocated_spec(hardware, *env),
{
    let presets = TikvTopology::lab_presets();
    let exps = experiments_except(ExperimentId::BmC5);
    let ghost f = |t: TikvTopology| keep_where(all_experiments(), |e: ExperimentId| e != ExperimentId::BmC5).map_values(
        |e: ExperimentId| (e, remote_surreal_tikv_spec(hardware, t, SurrealDeployment::Colocated, env.surreal_instances)),
    );
    let mut runs: Vec<Run> = Vec::new();
    let mut i: usize = 0;
    assert(presets@.take(0) =~= Seq::<TikvTopology>::empty());
    while i < presets.len()
        invariant
            i <= presets@.len(),
            presets@ == tikv_lab_presets(),
            exps@ == keep_where(all_experiments(), |e: ExperimentId| e != ExperimentId::BmC5),
            f == (|t: TikvTopology| keep_where(all_experiments(), |e: ExperimentId| e != ExperimentId::BmC5).map_values(
                |e: ExperimentId| (e, remote_surreal_tikv_spec(hardware, t, SurrealDeployment::Colocated, env.surreal_instances)),
            )),
            runs@ == concat_map(presets@.take(i as int), f),
        decreases presets@.len() - i,
    {
        let d = RunDimensions::remote_surreal_tikv(hardware, presets[i], SurrealDeployment::Colocated, env.surreal_instances);
        push_for_exps(&mut runs, &exps, d);
        assert(presets@.take(i + 1).drop_last() =~= presets@.take(i as int));
        i = i + 1;
    }
    assert(presets@.take(presets@.len() as int) =~= presets@);
    runs
}

/// The two ceiling-probe experiments.
pub open spec fn ceiling_probes() -> Seq<ExperimentId> {
    seq![ExperimentId::BmL1, ExperimentId::BmL2]
}

/// `TiKV` topology sweep: BM-L1/L2 on each lab preset, one Surreal instance.
pub open spec fn tikv_topology_spec(hardware: Hardware) -> Seq<Run> {
    concat_map(
        tikv_lab_presets(),
        |t: TikvTopology| ceiling_probes().map_values(
            |e: ExperimentId| (e, remote_surreal_tikv_spec(hardware, t, SurrealDeployment::Colocated, 1)),
        ),
    )
}

/// `TiKV` topology sweep: BM-L1/L2 ceiling probes.
pub fn tikv_topology_matrix(hardware: Hardware) -> (runs: Vec<Run>)
    ensures
        runs@ == tikv_topology_spec(hardware),
{
    let presets = TikvTopology::lab_presets();
    let exps: Vec<ExperimentId> = vec![ExperimentId::BmL1, ExperimentId::BmL2];
    let ghost f = |t: TikvTopology| ceiling_probes().map_values(
        |e: ExperimentId| (e, remote_surreal_tikv_spec(hardware, t, SurrealDeployment::Colocated, 1)),
    );
    let mut runs: Vec<Run> = Vec::new();
    let mut i: usize = 0;
    assert(presets@.take(0) =~= Seq::<TikvTopology>::empty());
    while i < presets.len()
        invariant
            i <= presets@.len(),
            presets@ == tikv_lab_presets(),
            exps@ == ceiling_probes(),
            f == (|t: TikvTopology| ceiling_probes().map_values(
                |e: ExperimentId| (e, remote_surreal_tikv_spec(hardware, t, SurrealDeployment::Colocated, 1)),
            )),
            runs@ == concat_map(presets@.take(i as int), f),
        decreases presets@.len() - i,
    {
        let d = RunDimensions::remote_surreal_tikv(hardware, presets[i], SurrealDeployment::Colocated, 1);
        push_for_exps(&mut runs, &exps, d);
        assert(presets@.take(i + 1).drop_last() =~= presets@.take(i as int));
        i = i + 1;
    }
    assert(presets@.take(presets@.len() as int) =~= presets@);
    runs
}

/// `TiKV` preset of the distributed sweeps: the one from the environment, else `tikv-ha-3`.
pub open spec fn sweep_topology(env: MatrixEnv) -> TikvTopology {
    match env.tikv_topology {
        Some(t) => t,
        None => TikvTopology::Ha3,
    }
}

/// Surreal instance counts of the scale-out sweep.
pub open spec fn scale_instances() -> Seq<u8> {
    seq![1u8, 2u8, 4u8]
}

/// Surreal scale-out sweep: BM-L1/L2 with 1, 2 and 4 instances (several
/// instances run as a multi-node deployment).
pub open spec fn surreal_scale_spec(hardware: Hardware, env: MatrixEnv) -> Seq<Run> {
    concat_map(
        scale_instances(),
        |n: u8| ceiling_probes().map_values(
            |e: ExperimentId| (e, remote_surreal_tikv_spec(
                hardware,
                sweep_topology(env),
                if n > 1 { SurrealDeployment::MultiNode } else { SurrealDeployment::Colocated },
                n,
            )),
        ),
    )
}

/// Surreal scale-out sweep: BM-L1/L2 with 1, 2, 4 instances.
pub fn surreal_scale_matrix(hardware: Hardware, env: &MatrixEnv) -> (runs: Vec<Run>)
    ensures
        runs@ == surreal_scale_spec(hardware, *env),
{
    let topo = match env.tikv_topology {
        Some(t) => t,
        None => TikvTopology::Ha3,
    };
    let counts: Vec<u8> = vec![1u8, 2u8, 4u8];
    let exps: Vec<ExperimentId> = vec![ExperimentId::BmL1, ExperimentId::BmL2];
    let ghost f = |n: u8| ceiling_probes().map_values(
        |e: ExperimentId| (e, remote_surreal_tikv_spec(
            hardware,
            sweep_topology(*env),
            if n > 1 { SurrealDeployment::MultiNode } else { SurrealDeployment::Colocated },
            n,
        )),
    );
    let mut runs: Vec<Run> = Vec::new();
    let mut i: usize = 0;
    assert(counts@.take(0) =~= Seq::<u8>::empty());
    while i < counts.len()
        invariant
            i <= counts@.len(),
            counts@ == scale_instances(),
            exps@ == ceiling_probes(),
            topo == sweep_topology(*env),
            f == (|n: u8| ceiling_probes().map_values(
                |e: ExperimentId| (e, remote_surreal_tikv_spec(
                    hardware,
                    sweep_topology(*env),
                    if n > 1 { SurrealDeployment::MultiNode } else { SurrealDeployment::Colocated },
                    n,
                )),
            )),
            runs@ == concat_map(counts@.take(i as int), f),
        decreases counts@.len() - i,
    {
        let n = counts[i];
        let deployment = if n > 1 { SurrealDeployment::MultiNode } else { SurrealDeployment::Colocated };
        let d = RunDimensions::remote_surreal_tikv(hardware, topo, deployment, n);
        push_for_exps(&mut runs, &exps, d);
        assert(counts@.take(i + 1).drop_last() =~= counts@.take(i as int));
        i = i + 1;
    }
    assert(counts@.take(counts@.len() as int) =~= counts@);
    runs
}

/// The load-tier experiments BM-L0 to BM-L3.
pub open spec fn load_tiers() -> Seq<ExperimentId> {
    seq![ExperimentId::BmL0, ExperimentId::BmL1, ExperimentId::BmL2, ExperimentId::BmL3]
}

/// Load-tier inputs for fleet projection on the sweep preset.
pub open spec fn tikv_projection_inputs_spec(hardware: Hardware, env: MatrixEnv) -> Seq<Run> {
    load_tiers().map_values(
        |e: ExperimentId| (e, remote_surreal_tikv_spec(hardware, sweep_topology(env), SurrealDeployment::Colocated, env.surreal_instances)),
    )
}

/// Load-tier inputs for fleet projection.
pub fn tikv_projection_inputs_matrix(hardware: Hardware, env: &MatrixEnv) -> (runs: Vec<Run>)
    ensures
        runs@ == tikv_projection_inputs_spec(hardware, *env),
{
    let topo = match env.tikv_topology {
        Some(t) => t,
        None => TikvTopology::Ha3,
    };
    let exps: Vec<ExperimentId> = vec![ExperimentId::BmL0, ExperimentId::BmL1, ExperimentId::BmL2, ExperimentId::BmL3];
    let d = RunDimensions::remote_surreal_tikv(hardware, topo, SurrealDeployment::Colocated, env.surreal_instances);
    let mut runs: Vec<Run> = Vec::new();
    push_for_exps(&mut runs, &exps, d);
    assert(runs@ =~= tikv_projection_inputs_spec(hardware, *env));
    runs
}

/// Experiments of the native parity matrix: BM-C0 to BM-C4 and the load tiers.
pub open spec fn native_lab_experiments() -> Seq<ExperimentId> {
    seq![
        ExperimentId::BmC0, ExperimentId::BmC1, ExperimentId::BmC2, ExperimentId::BmC3, ExperimentId::BmC4,
        ExperimentId::BmL0, ExperimentId::BmL1, ExperimentId::BmL2, ExperimentId::BmL3
    ]
}

/// Runs of experiments (outer) on the native storages (inner).
pub open spec fn native_grid(exps: Seq<ExperimentId>, hardware: Hardware, env: MatrixEnv) -> Seq<Run> {
    concat_map(
        exps,
        |e: ExperimentId| native_storages_spec(env).map_values(|s: Storage| (e, native_dims_spec(s, hardware, env))),
    )
}

fn push_native_grid(runs: &mut Vec<Run>, exps: &Vec<ExperimentId>, hardware: Hardware, env: &MatrixEnv)
    ensures
        final(runs)@ == old(runs)@ + native_grid(exps@, hardware, *env),
{
    let storages = native_storages(env);
    let ghost base = runs@;
    let ghost f = |e: ExperimentId| native_storages_spec(*env).map_values(|s: Storage| (e, native_dims_spec(s, hardware, *env)));
    let mut i: usize = 0;
    assert(exps@.take(0) =~= Seq::<ExperimentId>::empty());
    assert(base + Seq::<Run>::empty() =~= base);
    while i < exps.len()
        invariant
            i <= exps@.len(),
            storages@ == native_storages_spec(*env),
            f == (|e: ExperimentId| native_storages_spec(*env).map_values(|s: Storage| (e, native_dims_spec(s, hardware, *env)))),
            runs@ == base + concat_map(exps@.take(i as int), f),
        decreases exps@.len() - i,
    {
        push_native_for_storages(runs, exps[i], &storages, hardware, env);
        assert(exps@.take(i + 1).drop_last() =~= exps@.take(i as int));
        assert(base + concat_map(exps@.take(i as int), f) + f(exps@[i as int]) =~= base + concat_map(exps@.take(i + 1), f));
        i = i + 1;
    }
    assert(exps@.take(exps@.len() as int) =~= exps@);
}

/// Native adapter parity matrix: BM-C*/BM-L* on scylla/tikv-raw when configured (+ sqlite).
pub fn native_lab_matrix(hardware: Hardware, env: &MatrixEnv) -> (runs: Vec<Run>)
    ensures
        runs@ == native_grid(native_lab_experiments(), hardware, *env),
{
    let exps: Vec<ExperimentId> = vec![
        ExperimentId::BmC0, ExperimentId::BmC1, ExperimentId::BmC2, ExperimentId::BmC3, ExperimentId::BmC4,
        ExperimentId::BmL0, ExperimentId::BmL1, ExperimentId::BmL2, ExperimentId::BmL3,
    ];
    let mut runs: Vec<Run> = Vec::new();
    push_native_grid(&mut runs, &exps, hardware, env);
    assert(runs@ =~= native_grid(native_lab_experiments(), hardware, *env));
    runs
}

/// BM-L0–L3 with partitioned keys.
pub fn native_lab_partitioned_matrix(hardware: Hardware, env: &MatrixEnv) -> (runs: Vec<Run>)
    ensures
        runs@ == native_grid(load_tiers(), hardware, *env),
{
    let exps: Vec<ExperimentId> = vec![ExperimentId::BmL0, ExperimentId::BmL1, ExperimentId::BmL2, ExperimentId::BmL3];
    let mut runs: Vec<Run> = Vec::new();
    push_native_grid(&mut runs, &exps, hardware, env);
    assert(runs@ =~= native_grid(load_tiers(), hardware, *env));
    runs
}

/// Runs on the remote native storages (outer) of the given experiments (inner).
pub open spec fn remote_grid(exps: Seq<ExperimentId>, hardware: Hardware, env: MatrixEnv) -> Seq<Run> {
    concat_map(
        remote_native_storages(env),
        |s: Storage| exps.map_values(|e: ExperimentId| (e, native_dims_spec(s, hardware, env))),
    )
}

fn push_remote_grid(runs: &mut Vec<Run>, exps: &Vec<ExperimentId>, hardware: Hardware, env: &MatrixEnv)
    ensures
        final(runs)@ == old(runs)@ + remote_grid(exps@, hardware, *env),
{
    let storages = remote_storages(env);
    let ghost base = runs@;
    let ghost f = |s: Storage| exps@.map_values(|e: ExperimentId| (e, native_dims_spec(s, hardware, *env)));
    let mut i: usize = 0;
    assert(storages@.take(0) =~= Seq::<Storage>::empty());
    assert(base + Seq::<Run>::empty() =~= base);
    while i < storages.len()
        invariant
            i <= storages@.len(),
            storages@ == remote_native_storages(*env),
            f == (|s: Storage| exps@.map_values(|e: ExperimentId| (e, native_dims_spec(s, hardware, *env)))),
            runs@ == base + concat_map(storages@.take(i as int), f),
        decreases storages@.len() - i,
    {
        let d = native_dims(storages[i], hardware, env);
        push_for_exps(runs, exps, d);
        assert(storages@.take(i + 1).drop_last() =~= storages@.take(i as int));
        assert(base + concat_map(storages@.take(i as int), f) + f(storages@[i as int]) =~= base + concat_map(storages@.take(i + 1), f));
        i = i + 1;
    }
    assert(storages@.take(storages@.len() as int) =~= storages@);
}

/// Experiments of the native scale matrix.
pub open spec fn scale_experiments() -> Seq<ExperimentId> {
    seq![ExperimentId::BmP1, ExperimentId::BmP2, ExperimentId::BmM1, ExperimentId::BmM2, ExperimentId::BmM4]
}

/// Experiments of the native projection-input matrix.
pub open spec fn projection_experiments() -> Seq<ExperimentId> {
    seq![ExperimentId::BmL0, ExperimentId::BmL1, ExperimentId::BmL2, ExperimentId::BmL3, ExperimentId::BmM2]
}

/// Native scale matrix: BM-P1/P2/M1/M2/M4 on scylla + tikv-raw when configured.
pub fn native_scale_matrix(hardware: Hardware, env: &MatrixEnv) -> (runs: Vec<Run>)
    ensures
        runs@ == remote_grid(scale_experiments(), hardware, *env),
{
    let exps: Vec<ExperimentId> = vec![
        ExperimentId::BmP1, ExperimentId::BmP2, ExperimentId::BmM1, ExperimentId::BmM2, ExperimentId::BmM4,
    ];
    let mut runs: Vec<Run> = Vec::new();
    push_remote_grid(&mut runs, &exps, hardware, env);
    assert(runs@ =~= remote_grid(scale_experiments(), hardware, *env));
    runs
}

/// BM-M3 hot-stream concurrency sweep on configured native storages.
pub fn native_concurrency_matrix(hardware: Hardware, env: &MatrixEnv) -> (runs: Vec<Run>)
    ensures
        runs@ == remote_grid(seq![ExperimentId::BmM3], hardware, *env),
{
    let exps: Vec<ExperimentId> = vec![ExperimentId::BmM3];
    assert(exps@ =~= seq![ExperimentId::BmM3]);
    let mut runs: Vec<Run> = Vec::new();
    push_remote_grid(&mut runs, &exps, hardware, env);
    assert(runs@ =~= remote_grid(seq![ExperimentId::BmM3], hardware, *env));
    runs
}

/// Native projection inputs: BM-L0–L3 + BM-M2 on configured native storages.
pub fn native_projection_inputs_matrix(hardware: Hardware, env: &MatrixEnv) -> (runs: Vec<Run>)
    ensures
        runs@ == remote_grid(projection_experiments(), hardware, *env),
{
    let exps: Vec<ExperimentId> = vec![
        ExperimentId::BmL0, ExperimentId::BmL1, ExperimentId::BmL2, ExperimentId::BmL3, ExperimentId::BmM2,
    ];
    let mut runs: Vec<Run> = Vec::new();
    push_remote_grid(&mut runs, &exps, hardware, env);
    assert(runs@ =~= remote_grid(projection_experiments(), hardware, *env));
    runs
}

/// Projection inputs, then partition/client scale experiments, for the active topology.
pub fn native_topology_matrix(hardware: Hardware, env: &MatrixEnv) -> (runs: Vec<Run>)
    ensures
        runs@ == remote_grid(projection_experiments(), hardware, *env) + remote_grid(scale_experiments(), hardware, *env),
{
    let mut runs = native_projection_inputs_matrix(hardware, env);
    let mut scale = native_scale_matrix(hardware, env);
    runs.append(&mut scale);
    runs
}

/// A run moved onto another hardware profile.
pub open spec fn on_hardware(r: Run, hardware: Hardware) -> Run {
    (r.0, RunDimensions { hardware, ..r.1 })
}

/// The runs of a matrix subset for a hardware profile.
pub open spec fn matrix_spec(subset: MatrixSubset, hardware: Hardware, env: MatrixEnv) -> Seq<Run> {
    match subset {
        MatrixSubset::Full => dev_wsl_spec(env).map_values(|r: Run| on_hardware(r, hardware)),
        MatrixSubset::Sql => sql_adapter_spec(hardware, env),
        MatrixSubset::TikvLabColocated => tikv_lab_colocated_spec(hardware, env),
        MatrixSubset::TikvTopology => tikv_topology_spec(hardware),
        MatrixSubset::SurrealScale => surreal_scale_spec(hardware, env),
        MatrixSubset::TikvProjectionInputs => tikv_projection_inputs_spec(hardware, env),
        MatrixSubset::NativeLab => native_grid(native_lab_experiments(), hardware, env),
        MatrixSubset::NativeLabPartitioned => native_grid(load_tiers(), hardware, env),
        MatrixSubset::NativeScale => remote_grid(scale_experiments(), hardware, env),
        MatrixSubset::NativeConcurrency => remote_grid(seq![ExperimentId::BmM3], hardware, env),
        MatrixSubset::NativeProjectionInputs => remote_grid(projection_experiments(), hardware, env),
        MatrixSubset::NativeTopology => remote_grid(projection_experiments(), hardware, env) + remote_grid(
            scale_experiments(),
            hardware,
            env,
        ),
    }
}

/// Resolve matrix runs for the given subset and hardware profile.
pub fn matrix_for_subset(subset: MatrixSubset, hardware: Hardware, env: &MatrixEnv) -> (runs: Vec<Run>)
    ensures
        runs@ == matrix_spec(subset, hardware, *env),
{
    match subset {
        MatrixSubset::Full => {
            let dev = dev_wsl_matrix(env);
            let mut runs: Vec<Run> = Vec::new();
            let ghost want = dev@.map_values(|r: Run| on_hardware(r, hardware));
            let mut i: usize = 0;
            while i < dev.len()
                invariant
                    i <= dev@.len(),
                    want == dev@.map_values(|r: Run| on_hardware(r, hardware)),
                    runs@ == want.take(i as int),
                decreases dev@.len() - i,
            {
                let (id, d) = dev[i];
                let mut moved = d;
                moved.hardware = hardware;
                runs.push((id, moved));
                assert(want.take(i + 1) =~= want.take(i as int).push(want[i as int]));
                i = i + 1;
            }
            assert(want.take(want.len() as int) =~= want);
            runs
        },
        MatrixSubset::Sql => sql_adapter_matrix(hardware, env),
        MatrixSubset::TikvLabColocated => tikv_lab_colocated_matrix(hardware, env),
        MatrixSubset::TikvTopology => tikv_topology_matrix(hardware),
        MatrixSubset::SurrealScale => surreal_scale_matrix(hardware, env),
        MatrixSubset::TikvProjectionInputs => tikv_projection_inputs_matrix(hardware, env),
        MatrixSubset::NativeLab => native_lab_matrix(hardware, env),
        MatrixSubset::NativeLabPartitioned => native_lab_partitioned_matrix(hardware, env),
        MatrixSubset::NativeScale => native_scale_matrix(hardware, env),
        MatrixSubset::NativeConcurrency => native_concurrency_matrix(hardware, env),
        MatrixSubset::NativeProjectionInputs => native_projection_inputs_matrix(hardware, env),
        MatrixSubset::NativeTopology => native_topology_matrix(hardware, env),
    }
}


/// Position of an experiment in run order.
pub open spec fn experiment_index(id: ExperimentId) -> nat {
    match id {
        ExperimentId::BmC0 => 0,
        ExperimentId::BmC1 => 1,
        ExperimentId::BmC2 => 2,
        ExperimentId::BmC3 => 3,
        ExperimentId::BmC4 => 4,
        ExperimentId::BmC5 => 5,
        ExperimentId::BmC6 => 6,
        ExperimentId::BmL0 => 7,
        ExperimentId::BmL1 => 8,
        ExperimentId::BmL2 => 9,
        ExperimentId::BmL3 => 10,
        ExperimentId::BmP1 => 11,
        ExperimentId::BmP2 => 12,
        ExperimentId::BmM1 => 13,
        ExperimentId::BmM2 => 14,
        ExperimentId::BmM3 => 15,
        ExperimentId::BmM4 => 16,
        ExperimentId::BmM5 => 17,
    }
}

/// Position of an experiment in run order.
pub fn exp_index(id: ExperimentId) -> (i: usize)
    ensures
        i == experiment_index(id),
{
    match id {
        ExperimentId::BmC0 => 0,
        ExperimentId::BmC1 => 1,
        ExperimentId::BmC2 => 2,
        ExperimentId::BmC3 => 3,
        ExperimentId::BmC4 => 4,
        ExperimentId::BmC5 => 5,
        ExperimentId::BmC6 => 6,
        ExperimentId::BmL0 => 7,
        ExperimentId::BmL1 => 8,
        ExperimentId::BmL2 => 9,
        ExperimentId::BmL3 => 10,
        ExperimentId::BmP1 => 11,
        ExperimentId::BmP2 => 12,
        ExperimentId::BmM1 => 13,
        ExperimentId::BmM2 => 14,
        ExperimentId::BmM3 => 15,
        ExperimentId::BmM4 => 16,
        ExperimentId::BmM5 => 17,
    }
}

/// Options of a matrix run, as given on the command line.
pub struct MatrixOptions {
    pub hardware: Hardware,
    pub subset: MatrixSubset,
    /// Skip experiments before this id (e.g. bm-c4).
    pub from: Option<String>,
    /// Skip runs whose report already exists.
    pub skip_existing: bool,
    /// Restrict to these storage backends.
    pub storages: Option<Vec<Storage>>,
    /// Skip these experiment ids.
    pub skip_experiments: Option<Vec<String>>,
    /// Retain only runs on this `TiKV` preset.
    pub tikv_topology: Option<TikvTopology>,
    /// Retain only runs on this Scylla preset.
    pub scylla_topology: Option<ScyllaTopology>,
}

/// Why a matrix run is refused before it starts.
#[derive(Debug)]
pub enum MatrixError {
    /// The subset needs a remote Surreal stack and no Surreal URL is configured.
    NeedsSurreal(MatrixSubset),
    /// The partitioned subset needs a load partition count above 1.
    NeedsPartitions,
    /// `--skip-experiments` named no valid experiment.
    NoValidSkipIds,
    /// `--from` named no experiment.
    UnknownExperiment(String),
}

/// What a matrix invocation comes to: the runs to execute, or why it is refused.
pub enum PlanOutcome {
    Runs(Seq<Run>),
    NeedsSurreal(MatrixSubset),
    NeedsPartitions,
    NoValidSkipIds,
    UnknownExperiment(Seq<char>),
}

/// The outcome a planning result stands for.
pub open spec fn outcome_of(r: Result<Vec<Run>, MatrixError>) -> PlanOutcome {
    match r {
        Ok(v) => PlanOutcome::Runs(v@),
        Err(MatrixError::NeedsSurreal(s)) => PlanOutcome::NeedsSurreal(s),
        Err(MatrixError::NeedsPartitions) => PlanOutcome::NeedsPartitions,
        Err(MatrixError::NoValidSkipIds) => PlanOutcome::NoValidSkipIds,
        Err(MatrixError::UnknownExperiment(name)) => PlanOutcome::UnknownExperiment(name@),
    }
}

/// Experiments named by a list of slugs (unknown slugs are ignored), in order.
pub open spec fn parsed_ids(names: Seq<Seq<char>>) -> Seq<ExperimentId>
    decreases names.len(),
{
    if names.len() == 0 {
        Seq::empty()
    } else {
        match experiment_parse_spec(names.last()) {
            Some(id) => parsed_ids(names.drop_last()).push(id),
            None => parsed_ids(names.drop_last()),
        }
    }
}

/// Views of a list of strings.
pub open spec fn texts(v: Seq<String>) -> Seq<Seq<char>> {
    v.map_values(|s: String| s@)
}

/// The runs a matrix invocation executes, or why it is refused: subset
/// preconditions first, then the storage filter, the skipped experiments,
/// the starting experiment, and the `TiKV` and Scylla preset filters, in
/// that order.
pub open spec fn plan_spec(
    subset: MatrixSubset,
    hardware: Hardware,
    from: Option<Seq<char>>,
    storages: Option<Seq<Storage>>,
    skip: Option<Seq<Seq<char>>>,
    tikv: Option<TikvTopology>,
    scylla: Option<ScyllaTopology>,
    env: MatrixEnv,
    partitions: usize,
) -> PlanOutcome {
    let needs_surreal = subset == MatrixSubset::TikvLabColocated || subset == MatrixSubset::TikvTopology
        || subset == MatrixSubset::SurrealScale || subset == MatrixSubset::TikvProjectionInputs;
    if needs_surreal && !env.surreal_url {
        PlanOutcome::NeedsSurreal(subset)
    } else if subset == MatrixSubset::NativeLabPartitioned && partitions <= 1 {
        PlanOutcome::NeedsPartitions
    } else {
        let runs0 = matrix_spec(subset, hardware, env);
        let runs1 = match storages {
            Some(f) => keep_where(runs0, |r: Run| f.contains(r.1.storage)),
            None => runs0,
        };
        let skip_ids = match skip {
            Some(names) => parsed_ids(names),
            None => Seq::empty(),
        };
        let bad_skip = match skip {
            Some(names) => skip_ids.len() == 0 && exists|k: int| 0 <= k < names.len() && names[k].len() > 0,
            None => false,
        };
        if bad_skip {
            PlanOutcome::NoValidSkipIds
        } else {
            let runs2 = keep_where(runs1, |r: Run| !skip_ids.contains(r.0));
            match from {
                Some(name) if experiment_parse_spec(name) is None => PlanOutcome::UnknownExperiment(name),
                _ => {
                    let runs3 = match from {
                        Some(name) => {
                            let start = experiment_index(experiment_parse_spec(name)->0);
                            keep_where(runs2, |r: Run| experiment_index(r.0) >= start)
                        },
                        None => runs2,
                    };
                    let runs4 = match tikv {
                        Some(t) => keep_where(runs3, |r: Run| r.1.tikv_topology == Some(t)),
                        None => runs3,
                    };
                    let runs5 = match scylla {
                        Some(t) => keep_where(runs4, |r: Run| r.1.scylla_topology == Some(t)),
                        None => runs4,
                    };
                    PlanOutcome::Runs(runs5)
                },
            }
        }
    }
}


/// Whether a storage is listed.
fn storage_listed(list: &Vec<Storage>, s: Storage) -> (r: bool)
    ensures
        r == list@.contains(s),
{
    let mut i: usize = 0;
    while i < list.len()
        invariant
            i <= list@.len(),
            forall|j: int| 0 <= j < i ==> list@[j] != s,
        decreases list@.len() - i,
    {
        if list[i] == s {
            assert(list@[i as int] == s);
            return true;
        }
        i = i + 1;
    }
    false
}

/// Whether an experiment is listed.
fn id_listed(list: &Vec<ExperimentId>, id: ExperimentId) -> (r: bool)
    ensures
        r == list@.contains(id),
{
    let mut i: usize = 0;
    while i < list.len()
        invariant
            i <= list@.len(),
            forall|j: int| 0 <= j < i ==> list@[j] != id,
        decreases list@.len() - i,
    {
        if list[i] == id {
            assert(list@[i as int] == id);
            return true;
        }
        i = i + 1;
    }
    false
}

/// Experiments named by a list of slugs, unknown ones left out.
fn parse_ids(names: &Vec<String>) -> (ids: Vec<ExperimentId>)
    ensures
        ids@ == parsed_ids(texts(names@)),
{
    let ghost t = texts(names@);
    let mut ids: Vec<ExperimentId> = Vec::new();
    let mut i: usize = 0;
    assert(t.take(0) =~= Seq::<Seq<char>>::empty());
    while i < names.len()
        invariant
            i <= names@.len(),
            t == texts(names@),
            t.len() == names@.len(),
            ids@ == parsed_ids(t.take(i as int)),
        decreases names@.len() - i,
    {
        assert(t.take(i + 1).drop_last() =~= t.take(i as int));
        assert(t.take(i + 1).last() == names@[i as int]@);
        match ExperimentId::parse(names[i].as_str()) {
            Some(id) => {
                ids.push(id);
            },
            None => {},
        }
        i = i + 1;
    }
    assert(t.take(names@.len() as int) =~= t);
    ids
}

/// Whether some name in the list is not empty.
fn any_nonempty(names: &Vec<String>) -> (r: bool)
    ensures
        r == exists|k: int| 0 <= k < names@.len() && texts(names@)[k].len() > 0,
{
    let mut i: usize = 0;
    while i < names.len()
        invariant
            i <= names@.len(),
            forall|j: int| 0 <= j < i ==> texts(names@)[j].len() == 0,
        decreases names@.len() - i,
    {
        if names[i].unicode_len() > 0 {
            assert(texts(names@)[i as int].len() > 0);
            return true;
        }
        i = i + 1;
    }
    false
}

/// Runs on a listed storage.
fn keep_storages(runs: Vec<Run>, list: &Vec<Storage>) -> (out: Vec<Run>)
    ensures
        out@ == keep_where(runs@, |r: Run| list@.contains(r.1.storage)),
{
    let ghost k = |r: Run| list@.contains(r.1.storage);
    let mut out: Vec<Run> = Vec::new();
    let mut i: usize = 0;
    assert(runs@.take(0) =~= Seq::<Run>::empty());
    while i < runs.len()
        invariant
            i <= runs@.len(),
            k == |r: Run| list@.contains(r.1.storage),
            out@ == keep_where(runs@.take(i as int), k),
        decreases runs@.len() - i,
    {
        let r = runs[i];
        assert(runs@.take(i + 1).drop_last() =~= runs@.take(i as int));
        if storage_listed(list, r.1.storage) {
            out.push(r);
        }
        i = i + 1;
    }
    assert(runs@.take(runs@.len() as int) =~= runs@);
    out
}

/// Runs of experiments not skipped.
fn drop_skipped(runs: Vec<Run>, skip_ids: &Vec<ExperimentId>) -> (out: Vec<Run>)
    ensures
        out@ == keep_where(runs@, |r: Run| !skip_ids@.contains(r.0)),
{
    let ghost k = |r: Run| !skip_ids@.contains(r.0);
    let mut out: Vec<Run> = Vec::new();
    let mut i: usize = 0;
    assert(runs@.take(0) =~= Seq::<Run>::empty());
    while i < runs.len()
        invariant
            i <= runs@.len(),
            k == |r: Run| !skip_ids@.contains(r.0),
            out@ == keep_where(runs@.take(i as int), k),
        decreases runs@.len() - i,
    {
        let r = runs[i];
        assert(runs@.take(i + 1).drop_last() =~= runs@.take(i as int));
        if !id_listed(skip_ids, r.0) {
            out.push(r);
        }
        i = i + 1;
    }
    assert(runs@.take(runs@.len() as int) =~= runs@);
    out
}

/// Runs of experiments at or after position `start`.
fn keep_from(runs: Vec<Run>, start: usize) -> (out: Vec<Run>)
    ensures
        out@ == keep_where(runs@, |r: Run| experiment_index(r.0) >= start),
{
    let ghost k = |r: Run| experiment_index(r.0) >= start;
    let mut out: Vec<Run> = Vec::new();
    let mut i: usize = 0;
    assert(runs@.take(0) =~= Seq::<Run>::empty());
    while i < runs.len()
        invariant
            i <= runs@.len(),
            k == |r: Run| experiment_index(r.0) >= start,
            out@ == keep_where(runs@.take(i as int), k),
        decreases runs@.len() - i,
    {
        let r = runs[i];
        assert(runs@.take(i + 1).drop_last() =~= runs@.take(i as int));
        if exp_index(r.0) >= start {
            out.push(r);
        }
        i = i + 1;
    }
    assert(runs@.take(runs@.len() as int) =~= runs@);
    out
}

/// Runs on a `TiKV` preset.
fn keep_tikv(runs: Vec<Run>, t: TikvTopology) -> (out: Vec<Run>)
    ensures
        out@ == keep_where(runs@, |r: Run| r.1.tikv_topology == Some(t)),
{
    let ghost k = |r: Run| r.1.tikv_topology == Some(t);
    let mut out: Vec<Run> = Vec::new();
    let mut i: usize = 0;
    assert(runs@.take(0) =~= Seq::<Run>::empty());
    while i < runs.len()
        invariant
            i <= runs@.len(),
            k == |r: Run| r.1.tikv_topology == Some(t),
            out@ == keep_where(runs@.take(i as int), k),
        decreases runs@.len() - i,
    {
        let r = runs[i];
        assert(runs@.take(i + 1).drop_last() =~= runs@.take(i as int));
        if r.1.tikv_topology == Some(t) {
            out.push(r);
        }
        i = i + 1;
    }
    assert(runs@.take(runs@.len() as int) =~= runs@);
    out
}

/// Runs on a Scylla preset.
fn keep_scylla(runs: Vec<Run>, t: ScyllaTopology) -> (out: Vec<Run>)
    ensures
        out@ == keep_where(runs@, |r: Run| r.1.scylla_topology == Some(t)),
{
    let ghost k = |r: Run| r.1.scylla_topology == Some(t);
    let mut out: Vec<Run> = Vec::new();
    let mut i: usize = 0;
    assert(runs@.take(0) =~= Seq::<Run>::empty());
    while i < runs.len()
        invariant
            i <= runs@.len(),
            k == |r: Run| r.1.scylla_topology == Some(t),
            out@ == keep_where(runs@.take(i as int), k),
        decreases runs@.len() - i,
    {
        let r = runs[i];
        assert(runs@.take(i + 1).drop_last() =~= runs@.take(i as int));
        if r.1.scylla_topology == Some(t) {
            out.push(r);
        }
        i = i + 1;
    }
    assert(runs@.take(runs@.len() as int) =~= runs@);
    out
}

/// Option view of an optional string.
pub open spec fn opt_text_of(o: Option<String>) -> Option<Seq<char>> {
    match o {
        Some(s) => Some(s@),
        None => None,
    }
}

/// The runs a matrix invocation executes, filtered as its options say, or
/// why it is refused (`partitions` is the configured load partition count).
pub fn plan_matrix(opts: &MatrixOptions, env: &MatrixEnv, partitions: usize) -> (r: Result<Vec<Run>, MatrixError>)
    ensures
        outcome_of(r) == plan_spec(
            opts.subset,
            opts.hardware,
            opt_text_of(opts.from),
            match opts.storages {
                Some(v) => Some(v@),
                None => None,
            },
            match opts.skip_experiments {
                Some(v) => Some(texts(v@)),
                None => None,
            },
            opts.tikv_topology,
            opts.scylla_topology,
            *env,
            partitions,
        ),
{
    let subset = opts.subset;
    if crate::dimensions::subset_needs_remote_surreal(subset) && !env.surreal_url {
        return Err(MatrixError::NeedsSurreal(subset));
    }
    if subset == MatrixSubset::NativeLabPartitioned && partitions <= 1 {
        return Err(MatrixError::NeedsPartitions);
    }
    let mut runs = matrix_for_subset(subset, opts.hardware, env);
    match &opts.storages {
        Some(list) => {
            runs = keep_storages(runs, list);
        },
        None => {},
    }
    let skip_ids: Vec<ExperimentId> = match &opts.skip_experiments {
        Some(names) => {
            let ids = parse_ids(names);
            if ids.len() == 0 && any_nonempty(names) {
                return Err(MatrixError::NoValidSkipIds);
            }
            ids
        },
        None => Vec::new(),
    };
    runs = drop_skipped(runs, &skip_ids);
    match &opts.from {
        Some(name) => match ExperimentId::parse(name.as_str()) {
            Some(id) => {
                runs = keep_from(runs, exp_index(id));
            },
            None => {
                return Err(MatrixError::UnknownExperiment(name.clone()));
            },
        },
        None => {},
    }
    match opts.tikv_topology {
        Some(t) => {
            runs = keep_tikv(runs, t);
        },
        None => {},
    }
    match opts.scylla_topology {
        Some(t) => {
            runs = keep_scylla(runs, t);
        },
        None => {},
    }
    Ok(runs)
}


/// What `keep_where` keeps satisfies the predicate and comes from the input.
pub proof fn lemma_keep_where_sound<A>(s: Seq<A>, k: spec_fn(A) -> bool)
    ensures
        keep_where(s, k).len() <= s.len(),
        forall|i: int| 0 <= i < keep_where(s, k).len() ==> k(#[trigger] keep_where(s, k)[i]) && s.contains(
            keep_where(s, k)[i],
        ),
    decreases s.len(),
{
    if s.len() > 0 {
        let d = s.drop_last();
        lemma_keep_where_sound(d, k);
        let kd = keep_where(d, k);
        assert forall|i: int| 0 <= i < keep_where(s, k).len() implies k(#[trigger] keep_where(s, k)[i]) && s.contains(
            keep_where(s, k)[i],
        ) by {
            if i < kd.len() {
                assert(keep_where(s, k)[i] == kd[i]);
                let j = choose|j: int| 0 <= j < d.len() && d[j] == kd[i];
                assert(s[j] == d[j]);
            } else {
                assert(keep_where(s, k)[i] == s.last());
                assert(s[s.len() - 1] == s.last());
            }
        }
    }
}

/// Every element of a `concat_map` comes from `f` applied to an element of the input.
pub proof fn lemma_concat_map_member<A, B>(s: Seq<A>, f: spec_fn(A) -> Seq<B>, y: B)
    requires
        concat_map(s, f).contains(y),
    ensures
        exists|x: A| s.contains(x) && #[trigger] f(x).contains(y),
    decreases s.len(),
{
    if s.len() > 0 {
        let d = s.drop_last();
        let c = concat_map(d, f);
        let j = choose|j: int| 0 <= j < concat_map(s, f).len() && concat_map(s, f)[j] == y;
        if j < c.len() {
            assert(c[j] == y);
            lemma_concat_map_member(d, f, y);
            let x = choose|x: A| d.contains(x) && #[trigger] f(x).contains(y);
            let i = choose|i: int| 0 <= i < d.len() && d[i] == x;
            assert(s[i] == x);
        } else {
            let l = s.last();
            assert(f(l)[j - c.len()] == y);
            assert(s[s.len() - 1] == l);
            assert(f(l).contains(y));
        }
    }
}

/// Every run of the `TiKV` lab matrix is a Surreal-on-`TiKV` run on one of
/// the lab presets.
pub proof fn lemma_tikv_lab_runs(hardware: Hardware, env: MatrixEnv, r: Run)
    requires
        tikv_lab_colocated_spec(hardware, env).contains(r),
    ensures
        r.1.storage == Storage::SurrealTikv,
        r.1.topology == Topology::RemoteSurreal,
        r.1.tikv_topology is Some,
        tikv_lab_presets().contains(r.1.tikv_topology->0),
        r.0 != ExperimentId::BmC5,
{
    let f = |t: TikvTopology| keep_where(all_experiments(), |e: ExperimentId| e != ExperimentId::BmC5).map_values(
        |e: ExperimentId| (e, remote_surreal_tikv_spec(hardware, t, SurrealDeployment::Colocated, env.surreal_instances)),
    );
    lemma_concat_map_member(tikv_lab_presets(), f, r);
    let t = choose|t: TikvTopology| tikv_lab_presets().contains(t) && #[trigger] f(t).contains(r);
    let k = |e: ExperimentId| e != ExperimentId::BmC5;
    let kept = keep_where(all_experiments(), k);
    lemma_keep_where_sound(all_experiments(), k);
    let ft = f(t);
    let i = choose|i: int| 0 <= i < ft.len() && ft[i] == r;
    assert(ft[i] == (kept[i], remote_surreal_tikv_spec(hardware, t, SurrealDeployment::Colocated, env.surreal_instances)));
    assert(k(kept[i]));
}

/// Every run of a subset that needs a remote Surreal (the `TiKV` lab,
/// `TiKV` topology, Surreal scale and projection-input subsets) is a
/// Surreal-on-`TiKV` run against a remote Surreal, on any hardware and in any
/// environment: it needs a remote Surreal, and neither Scylla nor raw `TiKV`.
pub proof fn lemma_remote_surreal_subset_runs(subset: MatrixSubset, hardware: Hardware, env: MatrixEnv, r: Run)
    requires
        subset == MatrixSubset::TikvLabColocated || subset == MatrixSubset::TikvTopology
            || subset == MatrixSubset::SurrealScale || subset == MatrixSubset::TikvProjectionInputs,
        matrix_spec(subset, hardware, env).contains(r),
    ensures
        r.1.storage == Storage::SurrealTikv,
        r.1.topology == Topology::RemoteSurreal,
{
    match subset {
        MatrixSubset::TikvLabColocated => {
            lemma_tikv_lab_runs(hardware, env, r);
        },
        MatrixSubset::TikvTopology => {
            let f = |t: TikvTopology| ceiling_probes().map_values(
                |e: ExperimentId| (e, remote_surreal_tikv_spec(hardware, t, SurrealDeployment::Colocated, 1)),
            );
            lemma_concat_map_member(tikv_lab_presets(), f, r);
            let t = choose|t: TikvTopology| tikv_lab_presets().contains(t) && #[trigger] f(t).contains(r);
            let ft = f(t);
            let i = choose|i: int| 0 <= i < ft.len() && ft[i] == r;
            assert(ft[i].1 == remote_surreal_tikv_spec(hardware, t, SurrealDeployment::Colocated, 1));
        },
        MatrixSubset::SurrealScale => {
            let f = |n: u8| ceiling_probes().map_values(
                |e: ExperimentId| (e, remote_surreal_tikv_spec(
                    hardware,
                    sweep_topology(env),
                    if n > 1 { SurrealDeployment::MultiNode } else { SurrealDeployment::Colocated },
                    n,
                )),
            );
            lemma_concat_map_member(scale_instances(), f, r);
            let n = choose|n: u8| scale_instances().contains(n) && #[trigger] f(n).contains(r);
            let fnn = f(n);
            let i = choose|i: int| 0 <= i < fnn.len() && fnn[i] == r;
            assert(fnn[i].1.storage == Storage::SurrealTikv);
        },
        MatrixSubset::TikvProjectionInputs => {
            let runs = tikv_projection_inputs_spec(hardware, env);
            let i = choose|i: int| 0 <= i < runs.len() && runs[i] == r;
            assert(runs[i].1 == remote_surreal_tikv_spec(hardware, sweep_topology(env), SurrealDeployment::Colocated, env.surreal_instances));
        },
        _ => {},
    }
}

/// The Surreal scale sweep runs 1, 2 or 4 Surreal instances on `TiKV`: a
/// run with several instances is a multi-node deployment, and the run with
/// one instance is colocated.
pub proof fn lemma_surreal_scale_deployments(hardware: Hardware, env: MatrixEnv, r: Run)
    requires
        surreal_scale_spec(hardware, env).contains(r),
    ensures
        r.1.surreal_instances == 1 || r.1.surreal_instances == 2 || r.1.surreal_instances == 4,
        r.1.surreal_instances > 1 ==> r.1.surreal_deployment == Some(SurrealDeployment::MultiNode),
        r.1.surreal_instances == 1 ==> r.1.surreal_deployment == Some(SurrealDeployment::Colocated),
        r.1.storage == Storage::SurrealTikv,
        r.0 == ExperimentId::BmL1 || r.0 == ExperimentId::BmL2,
{
    let f = |n: u8| ceiling_probes().map_values(
        |e: ExperimentId| (e, remote_surreal_tikv_spec(
            hardware,
            sweep_topology(env),
            if n > 1 { SurrealDeployment::MultiNode } else { SurrealDeployment::Colocated },
            n,
        )),
    );
    lemma_concat_map_member(scale_instances(), f, r);
    let n = choose|n: u8| scale_instances().contains(n) && #[trigger] f(n).contains(r);
    let i = choose|j: int| 0 <= j < scale_instances().len() && scale_instances()[j] == n;
    assert(n == 1 || n == 2 || n == 4);
    let fnn = f(n);
    let k = choose|k: int| 0 <= k < fnn.len() && fnn[k] == r;
    assert(fnn[k].0 == ceiling_probes()[k]);
}

/// The runs a matrix invocation executes all come from its subset's matrix
/// and pass every filter given: listed storage, experiment not skipped, at or
/// after the starting experiment, and the requested `TiKV` and Scylla presets.
pub proof fn lemma_plan_respects_filters(
    subset: MatrixSubset,
    hardware: Hardware,
    from: Option<Seq<char>>,
    storages: Option<Seq<Storage>>,
    skip: Option<Seq<Seq<char>>>,
    tikv: Option<TikvTopology>,
    scylla: Option<ScyllaTopology>,
    env: MatrixEnv,
    partitions: usize,
    r: Run,
)
    requires
        plan_spec(subset, hardware, from, storages, skip, tikv, scylla, env, partitions) matches PlanOutcome::Runs(rs)
            && rs.contains(r),
    ensures
        matrix_spec(subset, hardware, env).contains(r),
        storages matches Some(f) ==> f.contains(r.1.storage),
        skip matches Some(names) ==> !parsed_ids(names).contains(r.0),
        from matches Some(name) ==> experiment_index(r.0) >= experiment_index(experiment_parse_spec(name)->0),
        tikv matches Some(t) ==> r.1.tikv_topology == Some(t),
        scylla matches Some(t) ==> r.1.scylla_topology == Some(t),
{
    let runs0 = matrix_spec(subset, hardware, env);
    let ks = |x: Run| storages->0.contains(x.1.storage);
    let runs1 = match storages {
        Some(f) => keep_where(runs0, |x: Run| f.contains(x.1.storage)),
        None => runs0,
    };
    let skip_ids = match skip {
        Some(names) => parsed_ids(names),
        None => Seq::empty(),
    };
    let kk = |x: Run| !skip_ids.contains(x.0);
    let runs2 = keep_where(runs1, kk);
    let runs3 = match from {
        Some(name) => {
            let start = experiment_index(experiment_parse_spec(name)->0);
            keep_where(runs2, |x: Run| experiment_index(x.0) >= start)
        },
        None => runs2,
    };
    let runs4 = match tikv {
        Some(t) => keep_where(runs3, |x: Run| x.1.tikv_topology == Some(t)),
        None => runs3,
    };
    let runs5 = match scylla {
        Some(t) => keep_where(runs4, |x: Run| x.1.scylla_topology == Some(t)),
        None => runs4,
    };
    assert(runs5.contains(r));
    let i5 = choose|i: int| 0 <= i < runs5.len() && runs5[i] == r;
    // each stage keeps only elements of the one before, all passing its filter
    match scylla {
        Some(t) => {
            lemma_keep_where_sound(runs4, |x: Run| x.1.scylla_topology == Some(t));
            assert(runs5[i5] == r);
        },
        None => {},
    }
    assert(runs4.contains(r));
    match tikv {
        Some(t) => {
            lemma_keep_where_sound(runs3, |x: Run| x.1.tikv_topology == Some(t));
            let i4 = choose|i: int| 0 <= i < runs4.len() && runs4[i] == r;
            assert(runs4[i4] == r);
        },
        None => {},
    }
    assert(runs3.contains(r));
    match from {
        Some(name) => {
            let start = experiment_index(experiment_parse_spec(name)->0);
            lemma_keep_where_sound(runs2, |x: Run| experiment_index(x.0) >= start);
            let i3 = choose|i: int| 0 <= i < runs3.len() && runs3[i] == r;
            assert(runs3[i3] == r);
        },
        None => {},
    }
    assert(runs2.contains(r));
    lemma_keep_where_sound(runs1, kk);
    let i2 = choose|i: int| 0 <= i < runs2.len() && runs2[i] == r;
    assert(runs2[i2] == r);
    assert(runs1.contains(r));
    match storages {
        Some(f) => {
            lemma_keep_where_sound(runs0, |x: Run| f.contains(x.1.storage));
            let i1 = choose|i: int| 0 <= i < runs1.len() && runs1[i] == r;
            assert(runs1[i1] == r);
        },
        None => {},
    }
}

} // verus!
