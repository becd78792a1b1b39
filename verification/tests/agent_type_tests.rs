use community_sim::agent_types::{load_agent_types, AgentEntry, MoveEffectKind};
use community_sim::util::ColorValue;

fn entry(name: Option<&str>, color: ColorValue, effect: Option<&str>) -> AgentEntry {
    AgentEntry { name: name.map(|s| s.to_string()), color, move_effect: effect.map(|s| s.to_string()) }
}

#[test]
fn agent_types_follow_their_entries_in_order() {
    let entries = vec![
        entry(Some("worker"), ColorValue::Text("#FF7043".to_string()), Some("slowed")),
        entry(None, ColorValue::Sequence(vec![Some(1), Some(2), Some(300)]), Some("blocked")),
        entry(Some("scout"), ColorValue::Other, Some("flying")),
        entry(Some("idle"), ColorValue::Sequence(vec![Some(1)]), None),
    ];
    let types = load_agent_types(&entries);
    assert_eq!(types.len(), 4);
    assert_eq!(types[0].name, "worker");
    assert_eq!(types[0].color, (255, 112, 67));
    assert_eq!(types[0].move_effect, MoveEffectKind::Slowed);
    assert_eq!(types[1].name, "");
    assert_eq!(types[1].color, (1, 2, 44));
    assert_eq!(types[1].move_effect, MoveEffectKind::Blocked);
    assert_eq!(types[2].color, (255, 255, 255));
    assert_eq!(types[2].move_effect, MoveEffectKind::Unaffected);
    assert_eq!(types[3].color, (255, 255, 255));
    assert_eq!(types[3].move_effect, MoveEffectKind::Unaffected);
    assert!(load_agent_types(&vec![]).is_empty());
}
