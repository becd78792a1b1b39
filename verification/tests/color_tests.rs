use community_sim::util::{hex_pair, parse_agent_color, ColorValue};

#[test]
fn hex_colors() {
    assert_eq!(parse_agent_color(&ColorValue::Text("#FF7043".to_string())), (255, 112, 67));
    assert_eq!(parse_agent_color(&ColorValue::Text("#ff7043".to_string())), (255, 112, 67));
    assert_eq!(parse_agent_color(&ColorValue::Text("#000000".to_string())), (0, 0, 0));
}

#[test]
fn hex_colors_with_bad_pairs() {
    assert_eq!(parse_agent_color(&ColorValue::Text("#GG0010".to_string())), (255, 0, 16));
    assert_eq!(parse_agent_color(&ColorValue::Text("#+F0A+X".to_string())), (15, 10, 255));
    assert_eq!(hex_pair(b'+', b'7'), 7);
    assert_eq!(hex_pair(b'7', b'+'), 255);
    assert_eq!(hex_pair(b'a', b'B'), 0xab);
}

#[test]
fn non_hex_texts_are_white() {
    assert_eq!(parse_agent_color(&ColorValue::Text("FF7043".to_string())), (255, 255, 255));
    assert_eq!(parse_agent_color(&ColorValue::Text("#FFF".to_string())), (255, 255, 255));
    assert_eq!(parse_agent_color(&ColorValue::Text("#FF70431".to_string())), (255, 255, 255));
    assert_eq!(parse_agent_color(&ColorValue::Text("".to_string())), (255, 255, 255));
}

#[test]
fn list_colors() {
    assert_eq!(parse_agent_color(&ColorValue::Sequence(vec![Some(0), Some(0), Some(255)])), (0, 0, 255));
    assert_eq!(parse_agent_color(&ColorValue::Sequence(vec![Some(1), None, Some(300)])), (1, 255, 44));
    assert_eq!(parse_agent_color(&ColorValue::Sequence(vec![Some(1), Some(2)])), (255, 255, 255));
    assert_eq!(parse_agent_color(&ColorValue::Other), (255, 255, 255));
}
