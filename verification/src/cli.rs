//! Command-line options and the run settings they select.
use vstd::prelude::*;
use crate::log_config::LogConfig;
use crate::sim_profile::{SimProfile, dimension_or};
use crate::text::str_eq;

verus! {

/// The command-line options of the simulator.
#[derive(Debug, Clone)]
pub struct Args {
    /// Run in headless mode (no graphics).
    pub headless: bool,
    /// Map size (N by N).
    pub map_size: i32,
    /// Number of agents.
    pub agents: usize,
    /// Number of ticks.
    pub ticks: usize,
    /// Run scaling benchmarks.
    pub scale: bool,
    /// Run the profiles marked as benchmarks.
    pub benchmark_profiles: bool,
    /// File of agent types.
    pub agent_types: String,
    /// Simulation profile name.
    pub profile: String,
    /// Enable system profiling.
    pub profile_systems: bool,
    /// File for system profiling output.
    pub profile_csv: String,
    /// Log level name.
    pub log_level: String,
    /// Enable stats logs.
    pub log_stats: bool,
    /// Enable quiet logs.
    pub log_quiet: bool,
}

/// The profile name that is used when none is asked for.
pub open spec fn default_profile_name() -> Seq<char> {
    "small"@
}

/// Map width, map height, agent count and tick count of a run: from the
/// profile when one was loaded (sizes falling back to `map_size`), else
/// from the options.
pub open spec fn settings_for(args: Args, profile: Option<SimProfile>) -> (i32, i32, usize, usize) {
    match profile {
        Some(p) => (
            dimension_or(p.map_width, p.map_size, args.map_size),
            dimension_or(p.map_height, p.map_size, args.map_size),
            p.num_agents,
            p.ticks,
        ),
        None => (args.map_size, args.map_size, args.agents, args.ticks),
    }
}

impl Args {
    /// Whether the profiles file is to be read: when a profile other than
    /// the default one is asked for, or when the file exists.
    pub fn wants_profiles(&self, profiles_file_exists: bool) -> (b: bool)
        ensures
            b == (self.profile@ != default_profile_name() || profiles_file_exists),
    {
        !str_eq(self.profile.as_str(), "small") || profiles_file_exists
    }

    /// The map width, map height, agent count and tick count to run with.
    pub fn run_settings(&self, profile: Option<&SimProfile>) -> (r: (i32, i32, usize, usize))
        ensures
            r == settings_for(
                *self,
                match profile {
                    Some(p) => Some(*p),
                    None => None,
                },
            ),
    {
        match profile {
            Some(p) => {
                let (w, h) = p.dimensions(self.map_size);
                (w, h, p.num_agents, p.ticks)
            },
            None => (self.map_size, self.map_size, self.agents, self.ticks),
        }
    }

    /// The logging options selected on the command line.
    pub fn log_config(&self) -> (c: LogConfig)
        ensures
            c.quiet == self.log_quiet,
            c.stats == self.log_stats,
    {
        LogConfig { quiet: self.log_quiet, stats: self.log_stats }
    }
}

} // verus!
