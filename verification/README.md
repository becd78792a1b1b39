# community_sim (verified core)

The terrain grid of the community simulator and the decisions around it,
with machine-checked contracts.

- `src/map.rs`: terrain, the map grid, passability and ASCII rendering,
  with the laws that tie them together.
- `src/nearest_water.rs`, `src/search_order.rs`: the breadth-first
  nearest-water search and the order in which it visits cells.
- `src/render_ascii.rs`: ASCII snapshots with food and agents drawn over the
  terrain.
- `src/sim_profile.rs`, `src/schedule.rs`, `src/cli.rs`: profiles, the runs
  they call for, and the run settings chosen from the command line.
- `src/spawn_config.rs`, `src/spawning.rs`: spawn requests listed in spawn
  files, random spawn cells, food amounts, procedural agent types and
  agents added at random cells.
- `src/log_config.rs`, `src/util.rs`, `src/palette.rs`: log levels, agent
  colours and terrain colours.
- `src/agent_types.rs`: agent types from the entries of an agent types file.
- `src/sim_loop.rs`: the order of calls in the simulation loop.
- `src/stats.rs`, `src/stats_window.rs`, `src/event_log_window.rs`: agent
  counts per type in name order, the cached statistics, and what the stats
  and event log windows show.
- `src/initial_spawns.rs`: the spawn requests that start a simulation.
- `src/run_control.rs`: pausing and single-stepping.
- `src/summary.rs`: the summary written at the end of a headless run.
- `app/`: the program around the library: argument parsing, logging, YAML
  files, noise-based terrain generation and SDL2 drawing and input.
