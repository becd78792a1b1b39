use community_sim::cli::Args;
use community_sim::log_config::{parse_log_level, LogConfig, LogLevel};
use community_sim::schedule::{run_benchmark_profiles_from_yaml, run_profiles_from_yaml, run_for_profile, run_scaling_benchmarks, SimulationRun};
use community_sim::sim_profile::{find_profile, SimProfile};

fn profile(name: &str, w: Option<i32>, h: Option<i32>, size: Option<i32>, bench: Option<bool>) -> SimProfile {
    SimProfile {
        name: name.to_string(),
        map_width: w,
        map_height: h,
        map_size: size,
        num_agents: 7,
        ticks: 11,
        benchmark: bench,
        quiet: None,
        spawn_config: None,
    }
}

fn key(r: &SimulationRun) -> (String, i32, i32, usize, usize) {
    (r.label.clone(), r.map_width, r.map_height, r.num_agents, r.ticks)
}

fn args(profile: &str) -> Args {
    Args {
        headless: true,
        map_size: 30,
        agents: 5,
        ticks: 9,
        scale: false,
        benchmark_profiles: false,
        agent_types: "config/agent_types.yaml".to_string(),
        profile: profile.to_string(),
        profile_systems: false,
        profile_csv: "system_profile.csv".to_string(),
        log_level: "info".to_string(),
        log_stats: true,
        log_quiet: false,
    }
}

#[test]
fn find_profile_returns_first_match() {
    let ps = vec![profile("small", None, None, Some(10), None), profile("big", None, None, Some(100), None), profile("big", None, None, Some(5), None)];
    let p = find_profile(&ps, "big").unwrap();
    assert_eq!(p.map_size, Some(100));
    assert!(find_profile(&ps, "missing").is_none());
    assert!(find_profile(&[], "small").is_none());
}

#[test]
fn profile_dimensions_fall_back() {
    assert_eq!(profile("a", Some(3), Some(4), Some(9), None).dimensions(20), (3, 4));
    assert_eq!(profile("a", None, Some(4), Some(9), None).dimensions(20), (9, 4));
    assert_eq!(profile("a", None, None, None, None).dimensions(20), (20, 20));
}

#[test]
fn runs_for_profiles() {
    let ps = vec![profile("x", None, None, None, None), profile("y", Some(8), None, Some(6), None)];
    let runs: Vec<_> = run_profiles_from_yaml(&ps, true, "p.csv").iter().map(key).collect();
    assert_eq!(runs, vec![("x".to_string(), 20, 20, 7, 11), ("y".to_string(), 8, 6, 7, 11)]);
    assert_eq!(key(&run_for_profile(&ps[1], true, "p.csv")), ("y".to_string(), 8, 6, 7, 11));
}

#[test]
fn scaling_benchmarks_table() {
    let runs: Vec<_> = run_scaling_benchmarks().iter().map(key).collect();
    assert_eq!(
        runs,
        vec![
            ("base".to_string(), 20, 20, 10, 10),
            ("10x".to_string(), 200, 200, 100, 100),
            ("20x".to_string(), 400, 400, 400, 500),
            ("100x".to_string(), 2000, 2000, 10000, 1000),
        ]
    );
}

#[test]
fn benchmark_profiles_selected() {
    let ps = vec![
        profile("a", None, None, Some(4), Some(true)),
        profile("b", None, None, Some(5), Some(false)),
        profile("c", None, None, Some(6), None),
        profile("d", None, None, Some(7), Some(true)),
    ];
    let runs: Vec<_> = run_benchmark_profiles_from_yaml(&ps, true, "p.csv").iter().map(key).collect();
    assert_eq!(runs, vec![("a".to_string(), 4, 4, 7, 11), ("d".to_string(), 7, 7, 7, 11)]);
}

#[test]
fn benchmark_profiles_fall_back_to_scaling() {
    let ps = vec![profile("b", None, None, Some(5), Some(false))];
    let runs: Vec<_> = run_benchmark_profiles_from_yaml(&ps, true, "p.csv").iter().map(key).collect();
    let scaling: Vec<_> = run_scaling_benchmarks().iter().map(key).collect();
    assert_eq!(runs, scaling);
    assert_eq!(run_benchmark_profiles_from_yaml(&vec![], false, "p.csv").len(), 4);
}

#[test]
fn log_levels_parse_ignoring_case() {
    assert_eq!(parse_log_level("error"), LogLevel::Error);
    assert_eq!(parse_log_level("WARN"), LogLevel::Warn);
    assert_eq!(parse_log_level("Info"), LogLevel::Info);
    assert_eq!(parse_log_level("DeBuG"), LogLevel::Debug);
    assert_eq!(parse_log_level("trace"), LogLevel::Trace);
    assert_eq!(parse_log_level("verbose"), LogLevel::Info);
    assert_eq!(parse_log_level(""), LogLevel::Info);
}

#[test]
fn log_config_default_is_off() {
    let c = LogConfig::default();
    assert!(!c.quiet);
    assert!(!c.stats);
}

#[test]
fn args_select_profile_file() {
    assert!(!args("small").wants_profiles(false));
    assert!(args("small").wants_profiles(true));
    assert!(args("med_run").wants_profiles(false));
}

#[test]
fn args_run_settings() {
    let a = args("small");
    assert_eq!(a.run_settings(None), (30, 30, 5, 9));
    let p = profile("p", None, Some(12), None, None);
    assert_eq!(a.run_settings(Some(&p)), (30, 12, 7, 11));
    let c = a.log_config();
    assert!(c.stats);
    assert!(!c.quiet);
}

#[test]
fn profiling_settings_of_runs() {
    let ps = vec![profile("x", None, None, None, Some(true))];
    for r in run_profiles_from_yaml(&ps, true, "p.csv").iter().chain(run_benchmark_profiles_from_yaml(&ps, true, "p.csv").iter()) {
        assert!(r.profile_systems);
        assert_eq!(r.profile_csv, "p.csv");
        assert!(r.spawn_config.is_none());
    }
    for r in run_scaling_benchmarks().iter().chain(run_benchmark_profiles_from_yaml(&vec![], true, "p.csv").iter()) {
        assert!(!r.profile_systems);
        assert_eq!(r.profile_csv, "scaling_benchmark.csv");
        assert!(r.spawn_config.is_none());
    }
}
