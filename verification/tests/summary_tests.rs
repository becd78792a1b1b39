use community_sim::stats::agent_type_counts;
use community_sim::summary::simulation_summary;

#[test]
fn summary_lists_totals_and_agent_counts() {
    let names: Vec<String> = ["worker", "scout", "worker"].iter().map(|s| s.to_string()).collect();
    let counts = agent_type_counts(&names);
    let summary = simulation_summary(25, "2.50", &counts);
    assert_eq!(
        summary,
        "# Simulation Summary\nTotal interactions: 25\nAverage interactions per tick: 2.50\nAgent counts at end:\n  scout: 1\n  worker: 2\n\n"
    );
}

#[test]
fn summary_without_agents() {
    let summary = simulation_summary(0, "0.00", &Vec::new());
    assert_eq!(
        summary,
        "# Simulation Summary\nTotal interactions: 0\nAverage interactions per tick: 0.00\nAgent counts at end:\n\n"
    );
}
