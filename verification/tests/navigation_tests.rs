use community_sim::map::{Terrain, WorldMap};
use community_sim::navigation::{judge_target_draw, target_passable, TargetDraw, MAX_TARGET_DRAWS};

fn map() -> WorldMap {
    WorldMap { width: 4, height: 1, tiles: vec![vec![Terrain::Grass, Terrain::Forest, Terrain::Water, Terrain::Mountain]] }
}

#[test]
fn targets_allowed_by_terrain() {
    assert!(target_passable(Terrain::Grass, false));
    assert!(target_passable(Terrain::Forest, false));
    assert!(!target_passable(Terrain::Water, true));
    assert!(!target_passable(Terrain::Mountain, false));
    assert!(target_passable(Terrain::Mountain, true));
}

#[test]
fn target_draws_judged() {
    let m = map();
    assert_eq!(judge_target_draw(&m, 0, 0, 0, false), TargetDraw::Accept);
    assert_eq!(judge_target_draw(&m, 2, 0, 0, false), TargetDraw::Retry);
    assert_eq!(judge_target_draw(&m, 3, 0, 0, true), TargetDraw::Accept);
    assert_eq!(judge_target_draw(&m, 3, 0, 999, false), TargetDraw::Retry);
    assert_eq!(judge_target_draw(&m, 3, 0, MAX_TARGET_DRAWS - 1, false), TargetDraw::GiveUp);
    assert_eq!(judge_target_draw(&m, 1, 0, MAX_TARGET_DRAWS - 1, false), TargetDraw::Accept);
}
