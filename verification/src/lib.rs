//! Verified core of the community simulator: the terrain grid and its
//! queries, ASCII rendering, simulation profiles and run planning, spawn
//! configuration, spawn placement and the simulation loop.
pub mod agent;
pub mod terrain;
pub mod map;
pub mod text;
pub mod navigation;
pub mod render_ascii;
pub mod sim_profile;
pub mod schedule;
pub mod log_config;
pub mod cli;
pub mod spawn_config;
pub mod spawning;
pub mod palette;
pub mod sim_loop;
pub mod util;
pub mod search_order;
pub mod nearest_water;
pub mod stats;
pub mod stats_window;
pub mod summary;
pub mod run_control;
pub mod event_log_window;
pub mod initial_spawns;
pub mod agent_types;
