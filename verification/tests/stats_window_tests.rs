use community_sim::stats::{update_cached_stats, CachedStats};
use community_sim::stats_window::{selected_agent_rows, stats_overlay_rows, stats_window_items, InteractionInfo, SelectedAgentInfo, StatsItem};
use community_sim::text::push_decimal;
use std::collections::VecDeque;

fn row(text: &str, color: (u8, u8, u8)) -> StatsItem {
    StatsItem::Row { text: text.to_string(), color }
}

fn sample_stats() -> CachedStats {
    let mut stats = CachedStats::default();
    let names: Vec<String> = ["wolf", "deer", "wolf"].iter().map(|s| s.to_string()).collect();
    let mut history = VecDeque::new();
    history.push_back(3);
    history.push_back(5);
    update_cached_stats(&names, 42, Some((7, 2)), Some((120, 5, history)), &mut stats);
    stats
}

#[test]
fn window_without_configuration_shows_only_the_heading() {
    let items = stats_window_items(&None, &sample_stats(), None);
    assert_eq!(items, vec![row("Simulation Stats", (220, 220, 220))]);
}

#[test]
fn window_lists_sections_in_configured_order() {
    let components = Some(vec![
        "food_counts".to_string(),
        "agent_counts".to_string(),
        "unknown_section".to_string(),
        "interaction_stats".to_string(),
        "selected_agent".to_string(),
    ]);
    let items = stats_window_items(&components, &sample_stats(), None);
    assert_eq!(
        items,
        vec![
            row("Simulation Stats", (220, 220, 220)),
            row("Food: 42", (255, 220, 180)),
            row("Food spawned/tick: 7", (255, 220, 100)),
            row("Food collected/tick: 2", (255, 180, 100)),
            row("deer: 1", (180, 255, 180)),
            row("wolf: 2", (180, 255, 180)),
            row("Total agents: 3", (180, 255, 180)),
            row("Agent interactions: 120", (180, 200, 255)),
            row("Active interactions: 5", (120, 180, 255)),
            StatsItem::InteractionGraph,
        ]
    );
}

#[test]
fn missing_statistics_read_as_zero() {
    let mut stats = sample_stats();
    update_cached_stats(&Vec::new(), 0, None, None, &mut stats);
    assert!(stats.agent_counts.is_empty());
    assert_eq!(stats.food_spawned_per_tick, 0);
    assert_eq!(stats.food_collected_per_tick, 0);
    assert_eq!(stats.agent_interactions, 0);
    assert_eq!(stats.active_interactions, 0);
    assert!(stats.active_interactions_history.is_empty());
    let items = stats_window_items(&Some(vec!["agent_counts".to_string()]), &stats, None);
    assert_eq!(
        items,
        vec![row("Simulation Stats", (220, 220, 220)), row("Total agents: 0", (180, 255, 180))]
    );
}

#[test]
fn update_keeps_the_given_statistics() {
    let stats = sample_stats();
    assert_eq!(stats.agent_counts, vec![("deer".to_string(), 1), ("wolf".to_string(), 2)]);
    assert_eq!(stats.food_count, 42);
    assert_eq!(stats.food_spawned_per_tick, 7);
    assert_eq!(stats.food_collected_per_tick, 2);
    assert_eq!(stats.agent_interactions, 120);
    assert_eq!(stats.active_interactions, 5);
    assert_eq!(stats.active_interactions_history, VecDeque::from(vec![3, 5]));
}

#[test]
fn decimal_digits_match_display() {
    for n in [0usize, 7, 10, 99, 100, 1234567890, usize::MAX] {
        let mut s = "n=".to_string();
        push_decimal(&mut s, n);
        assert_eq!(s, format!("n={}", n));
    }
}

#[test]
fn overlay_shows_counts_and_resets_food_stats() {
    let mut food_stats = Some((3usize, 1usize));
    let rows = stats_overlay_rows(12, 4, &mut food_stats);
    assert_eq!(
        rows,
        vec![
            ("Agents: 12".to_string(), (200, 200, 255), 10),
            ("Food: 4".to_string(), (180, 255, 180), 32),
            ("Food spawned/tick: 3".to_string(), (255, 220, 100), 54),
            ("Food collected/tick: 1".to_string(), (255, 180, 100), 54),
        ]
    );
    assert_eq!(food_stats, Some((0, 0)));
}

#[test]
fn overlay_without_food_stats() {
    let mut food_stats = None;
    let rows = stats_overlay_rows(0, 0, &mut food_stats);
    assert_eq!(
        rows,
        vec![("Agents: 0".to_string(), (200, 200, 255), 10), ("Food: 0".to_string(), (180, 255, 180), 32)]
    );
    assert_eq!(food_stats, None);
}

fn agent_info(interaction: Option<InteractionInfo>) -> SelectedAgentInfo {
    SelectedAgentInfo {
        entity: "Entity(7)".to_string(),
        position: Some("(1.5, 2.0)".to_string()),
        agent_type: Some(("scout".to_string(), "1.25".to_string())),
        hunger: None,
        energy: Some("80.0".to_string()),
        state: Some("Idle".to_string()),
        interaction,
    }
}

#[test]
fn selected_agent_details_in_order() {
    let interaction = InteractionInfo { target: Some("Entity(3)".to_string()), cooldown: 0, last_partner: None, recent_partners: 2 };
    let rows = selected_agent_rows(&agent_info(Some(interaction)));
    assert_eq!(
        rows,
        vec![
            row("Selected Agent: Entity(7)", (255, 255, 180)),
            row("Position: (1.5, 2.0)", (200, 255, 200)),
            row("Type: scout", (200, 200, 255)),
            row("Move Speed: 1.25", (180, 220, 255)),
            row("Strength: N/A", (180, 220, 255)),
            row("Stamina: N/A", (180, 220, 255)),
            row("Vision: N/A", (180, 220, 255)),
            row("Work Rate: N/A", (180, 220, 255)),
            row("Energy: 80.0", (255, 255, 200)),
            row("State: Idle", (255, 220, 180)),
            row("Interaction: Interacting", (255, 180, 255)),
            row("Target: Entity(3)", (255, 180, 255)),
            row("Recent Partners: 2", (255, 180, 255)),
        ]
    );
}

#[test]
fn interaction_status_cooldown_and_idle() {
    let cooling = InteractionInfo { target: None, cooldown: 4, last_partner: Some("Entity(1)".to_string()), recent_partners: 0 };
    let rows = selected_agent_rows(&agent_info(Some(cooling)));
    assert_eq!(rows[10], row("Interaction: Cooldown", (255, 180, 255)));
    assert_eq!(rows[11], row("Last Partner: Entity(1)", (255, 180, 255)));
    let idle = InteractionInfo { target: None, cooldown: 0, last_partner: None, recent_partners: 5 };
    let rows = selected_agent_rows(&agent_info(Some(idle)));
    assert_eq!(rows[10], row("Interaction: Idle", (255, 180, 255)));
    assert_eq!(rows[11], row("Recent Partners: 5", (255, 180, 255)));
}

#[test]
fn selected_section_shows_only_with_a_selection() {
    let components = Some(vec!["selected_agent".to_string()]);
    let info = agent_info(None);
    let with = stats_window_items(&components, &sample_stats(), Some(&info));
    assert_eq!(with.len(), 1 + 10);
    assert_eq!(with[1], row("Selected Agent: Entity(7)", (255, 255, 180)));
    let without = stats_window_items(&components, &sample_stats(), None);
    assert_eq!(without, vec![row("Simulation Stats", (220, 220, 220))]);
}
