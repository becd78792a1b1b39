use community_sim::stats::{agent_type_counts, name_lt, total_agents, total_count_fits};

fn names(list: &[&str]) -> Vec<String> {
    list.iter().map(|s| s.to_string()).collect()
}

#[test]
fn counts_each_type_once_in_name_order() {
    let counts = agent_type_counts(&names(&["wolf", "deer", "wolf", "Ant"]));
    assert_eq!(
        counts,
        vec![("Ant".to_string(), 1), ("deer".to_string(), 1), ("wolf".to_string(), 2)]
    );
}

#[test]
fn counts_of_no_agents_are_empty() {
    let counts = agent_type_counts(&Vec::new());
    assert!(counts.is_empty());
    assert_eq!(total_agents(&counts), 0);
}

#[test]
fn counts_add_up_to_the_number_of_agents() {
    let all = names(&["scout", "worker", "worker", "scout", "worker", "queen"]);
    let counts = agent_type_counts(&all);
    assert_eq!(total_agents(&counts), all.len());
    assert_eq!(
        counts,
        vec![("queen".to_string(), 1), ("scout".to_string(), 2), ("worker".to_string(), 3)]
    );
}

#[test]
fn names_compare_by_utf8_bytes() {
    assert!(name_lt(&"z".to_string(), &"é".to_string()));
    assert!(!name_lt(&"é".to_string(), &"z".to_string()));
    assert!(name_lt(&"ab".to_string(), &"abc".to_string()));
    assert!(!name_lt(&"abc".to_string(), &"abc".to_string()));
    assert!(name_lt(&"Zebra".to_string(), &"ant".to_string()));
    let counts = agent_type_counts(&names(&["é", "z", "é"]));
    assert_eq!(counts, vec![("z".to_string(), 1), ("é".to_string(), 2)]);
}

#[test]
fn total_of_a_given_tally() {
    let counts = vec![("a".to_string(), 4usize), ("b".to_string(), 7usize)];
    assert_eq!(total_agents(&counts), 11);
}

#[test]
fn total_fits_only_when_the_sum_does() {
    let small = vec![("a".to_string(), 4usize), ("b".to_string(), 7usize)];
    assert!(total_count_fits(&small));
    let edge = vec![("a".to_string(), usize::MAX - 1), ("b".to_string(), 1usize)];
    assert!(total_count_fits(&edge));
    let over = vec![("a".to_string(), usize::MAX), ("b".to_string(), 1usize)];
    assert!(!total_count_fits(&over));
}
