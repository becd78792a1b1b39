//! Which simulations to run for a set of profiles, for the benchmark
//! profiles, and for the fixed scaling benchmarks.
use vstd::prelude::*;
use crate::sim_profile::{SimProfile, dimension_or, is_benchmark};
use crate::spawn_config::SpawnConfig;

verus! {

/// The map side used when a profile gives no size at all.
pub const DEFAULT_MAP_SIDE: i32 = 20;

/// One simulation to run: a label, the map size, the number of agents, the
/// number of ticks, whether its systems are profiled and into which CSV
/// file, and the spawn configuration it starts from, if any.
#[derive(Debug, Clone)]
pub struct SimulationRun {
    pub label: String,
    pub map_width: i32,
    pub map_height: i32,
    pub num_agents: usize,
    pub ticks: usize,
    pub profile_systems: bool,
    pub profile_csv: String,
    pub spawn_config: Option<SpawnConfig>,
}

impl View for SimulationRun {
    type V = (Seq<char>, i32, i32, usize, usize, bool, Seq<char>, Option<SpawnConfig>);

    open spec fn view(&self) -> Self::V {
        (
            self.label@,
            self.map_width,
            self.map_height,
            self.num_agents,
            self.ticks,
            self.profile_systems,
            self.profile_csv@,
            self.spawn_config,
        )
    }
}

/// The run that a profile stands for, profiled as asked, without a spawn
/// configuration.
pub open spec fn profile_run(p: SimProfile, profile_systems: bool, profile_csv: Seq<char>) -> (Seq<char>, i32, i32, usize, usize, bool, Seq<char>, Option<SpawnConfig>) {
    (
        p.name@,
        dimension_or(p.map_width, p.map_size, DEFAULT_MAP_SIDE),
        dimension_or(p.map_height, p.map_size, DEFAULT_MAP_SIDE),
        p.num_agents,
        p.ticks,
        profile_systems,
        profile_csv,
        None,
    )
}

/// The runs of the profiles marked as benchmarks, in order.
pub open spec fn benchmark_runs(
    ps: Seq<SimProfile>,
    profile_systems: bool,
    profile_csv: Seq<char>,
) -> Seq<(Seq<char>, i32, i32, usize, usize, bool, Seq<char>, Option<SpawnConfig>)>
    decreases ps.len(),
{
    if ps.len() == 0 {
        Seq::empty()
    } else if is_benchmark(ps.last()) {
        benchmark_runs(ps.drop_last(), profile_systems, profile_csv).push(
            profile_run(ps.last(), profile_systems, profile_csv),
        )
    } else {
        benchmark_runs(ps.drop_last(), profile_systems, profile_csv)
    }
}

/// The views of a list of runs.
pub open spec fn run_views(runs: Seq<SimulationRun>) -> Seq<(Seq<char>, i32, i32, usize, usize, bool, Seq<char>, Option<SpawnConfig>)> {
    runs.map_values(|r: SimulationRun| r@)
}

/// One scaling benchmark: unprofiled, into `scaling_benchmark.csv`, without
/// a spawn configuration.
pub open spec fn scaling_run(label: Seq<char>, side: i32, agents: usize, ticks: usize) -> (Seq<char>, i32, i32, usize, usize, bool, Seq<char>, Option<SpawnConfig>) {
    (label, side, side, agents, ticks, false, "scaling_benchmark.csv"@, None)
}

/// The fixed scaling benchmarks: growing maps, agent counts and tick counts.
pub open spec fn scaling_runs() -> Seq<(Seq<char>, i32, i32, usize, usize, bool, Seq<char>, Option<SpawnConfig>)> {
    seq![
        scaling_run("base"@, 20i32, 10usize, 10usize),
        scaling_run("10x"@, 200i32, 100usize, 100usize),
        scaling_run("20x"@, 400i32, 400usize, 500usize),
        scaling_run("100x"@, 2000i32, 10000usize, 1000usize),
    ]
}

fn scaling_run_of(label: &str, side: i32, num_agents: usize, ticks: usize) -> (r: SimulationRun)
    ensures
        r@ == scaling_run(label@, side, num_agents, ticks),
{
    SimulationRun {
        label: label.to_owned(),
        map_width: side,
        map_height: side,
        num_agents,
        ticks,
        profile_systems: false,
        profile_csv: "scaling_benchmark.csv".to_owned(),
        spawn_config: None,
    }
}

/// The run that a profile stands for, with sizes defaulting to a 20 by 20
/// map, profiled as asked and without a spawn configuration.
pub fn run_for_profile(p: &SimProfile, profile_systems: bool, profile_csv: &str) -> (r:
    SimulationRun)
    ensures
        r@ == profile_run(*p, profile_systems, profile_csv@),
{
    let (w, h) = p.dimensions(DEFAULT_MAP_SIDE);
    SimulationRun {
        label: p.name.clone(),
        map_width: w,
        map_height: h,
        num_agents: p.num_agents,
        ticks: p.ticks,
        profile_systems,
        profile_csv: profile_csv.to_owned(),
        spawn_config: None,
    }
}

/// The simulations that the scaling benchmarks run, smallest first; the
/// caller runs each of them.
pub fn run_scaling_benchmarks() -> (runs: Vec<SimulationRun>)
    ensures
        run_views(runs@) == scaling_runs(),
{
    let mut runs: Vec<SimulationRun> = Vec::new();
    runs.push(scaling_run_of("base", 20, 10, 10));
    runs.push(scaling_run_of("10x", 200, 100, 100));
    runs.push(scaling_run_of("20x", 400, 400, 500));
    runs.push(scaling_run_of("100x", 2000, 10000, 1000));
    assert(run_views(runs@) =~= scaling_runs());
    runs
}

/// The simulations that a list of profiles (as read from a profiles file)
/// runs: one per profile, in order, profiled as asked; the caller runs each
/// of them.
pub fn run_profiles_from_yaml(
    profiles: &Vec<SimProfile>,
    profile_systems: bool,
    profile_csv: &str,
) -> (runs: Vec<SimulationRun>)
    ensures
        run_views(runs@) == profiles@.map_values(
            |p: SimProfile| profile_run(p, profile_systems, profile_csv@),
        ),
{
    let mut runs: Vec<SimulationRun> = Vec::new();
    let mut i: usize = 0;
    while i < profiles.len()
        invariant
            i <= profiles@.len(),
            run_views(runs@) == profiles@.take(i as int).map_values(
                |p: SimProfile| profile_run(p, profile_systems, profile_csv@),
            ),
        decreases profiles@.len() - i,
    {
        let ghost prev = runs@;
        let r = run_for_profile(&profiles[i], profile_systems, profile_csv);
        runs.push(r);
        assert(run_views(runs@) =~= run_views(prev).push(r@));
        assert(profiles@.take(i + 1) =~= profiles@.take(i as int).push(profiles@[i as int]));
        assert(run_views(runs@) =~= profiles@.take(i + 1).map_values(
            |p: SimProfile| profile_run(p, profile_systems, profile_csv@),
        ));
        i = i + 1;
    }
    assert(profiles@.take(profiles@.len() as int) =~= profiles@);
    runs
}

/// The simulations that the benchmark profiles run: those of the profiles
/// marked as benchmarks, in order, profiled as asked, or the scaling
/// benchmarks when no profile is marked; the caller runs each of them.
pub fn run_benchmark_profiles_from_yaml(
    profiles: &Vec<SimProfile>,
    profile_systems: bool,
    profile_csv: &str,
) -> (runs: Vec<SimulationRun>)
    ensures
        benchmark_runs(profiles@, profile_systems, profile_csv@).len() > 0 ==> run_views(runs@)
            == benchmark_runs(profiles@, profile_systems, profile_csv@),
        benchmark_runs(profiles@, profile_systems, profile_csv@).len() == 0 ==> run_views(runs@)
            == scaling_runs(),
        runs@.len() > 0,
{
    let mut runs: Vec<SimulationRun> = Vec::new();
    let mut i: usize = 0;
    while i < profiles.len()
        invariant
            i <= profiles@.len(),
            run_views(runs@) == benchmark_runs(profiles@.take(i as int), profile_systems, profile_csv@),
        decreases profiles@.len() - i,
    {
        assert(profiles@.take(i + 1).drop_last() =~= profiles@.take(i as int));
        if profiles[i].is_benchmark() {
            let ghost prev = runs@;
            let r = run_for_profile(&profiles[i], profile_systems, profile_csv);
            runs.push(r);
            assert(run_views(runs@) =~= run_views(prev).push(r@));
            assert(run_views(runs@) =~= benchmark_runs(profiles@.take(i + 1), profile_systems, profile_csv@));
        }
        i = i + 1;
    }
    assert(profiles@.take(profiles@.len() as int) =~= profiles@);
    if runs.len() == 0 {
        let scaling = run_scaling_benchmarks();
        assert(run_views(scaling@).len() == scaling_runs().len());
        scaling
    } else {
        runs
    }
}

} // verus!
