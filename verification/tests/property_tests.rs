//! Concrete scenarios for the engine's guarantees: layer ordering beats
//! position, y-sort monotonicity and its disabled flattening, exact
//! stability across frames, stale-depth clearing, and the boundary cases.

use extol_sprite_layer::FrameOutput;
use extol_sprite_layer::RenderZCoordinate;
use extol_sprite_layer::Scene;
use extol_sprite_layer::SpriteLayerEngine;
use extol_sprite_layer::SpriteLayerOptions;
use extol_sprite_layer::clear_z_coordinates;
use extol_sprite_layer::propagate_layers;
use extol_sprite_layer::set_z_coordinates;

const BOTTOM: i64 = 0;
const TOP: i64 = 2;

fn find_z(out: &FrameOutput, id: u64) -> Option<RenderZCoordinate> {
    for (written_id, z) in &out.writes {
        if *written_id == id {
            return Some(*z);
        }
    }
    None
}

#[test]
fn layer_ordering_beats_position() {
    // the bottom-layer object sits lower on screen (smaller y), which
    // within a layer would draw it in front; across layers the layer wins
    let mut scene: Scene<i64> = Scene::new();
    scene.add(1, None, Some(BOTTOM), Some(-500));
    scene.add(2, None, Some(TOP), Some(500));
    let mut engine = SpriteLayerEngine::new();
    let out = engine.run_frame(&scene, &SpriteLayerOptions { y_sort: true });
    let low = find_z(&out, 1).unwrap();
    let high = find_z(&out, 2).unwrap();
    assert!(low.lt(&high));
    assert!(!high.lt(&low));
}

#[test]
fn y_sort_orders_within_layer() {
    // same layer: the object with the smaller y draws in front (larger z)
    let mut scene: Scene<i64> = Scene::new();
    scene.add(1, None, Some(TOP), Some(10));
    scene.add(2, None, Some(TOP), Some(-10));
    let mut engine = SpriteLayerEngine::new();
    let out = engine.run_frame(&scene, &SpriteLayerOptions { y_sort: true });
    let upper = find_z(&out, 1).unwrap();
    let lower = find_z(&out, 2).unwrap();
    assert!(upper.lt(&lower));
    // exact values: two participants, the higher position ranks first
    assert_eq!(upper, RenderZCoordinate { base: TOP, num: 0, den: 2 });
    assert_eq!(lower, RenderZCoordinate { base: TOP, num: 1, den: 2 });
}

#[test]
fn y_sort_disabled_flattens_layer() {
    let mut scene: Scene<i64> = Scene::new();
    scene.add(1, None, Some(TOP), Some(10));
    scene.add(2, None, Some(TOP), Some(-10));
    let mut engine = SpriteLayerEngine::new();
    let out = engine.run_frame(&scene, &SpriteLayerOptions { y_sort: false });
    let a = find_z(&out, 1).unwrap();
    let b = find_z(&out, 2).unwrap();
    assert_eq!(a, RenderZCoordinate { base: TOP, num: 0, den: 1 });
    assert_eq!(a, b);
}

#[test]
fn equal_positions_tie_deterministically() {
    // exact equal keys: the tie breaks by arena order, and the depths are
    // exact rationals, reproducibly num/den = 0/2 and 1/2
    let mut scene: Scene<i64> = Scene::new();
    scene.add(7, None, Some(TOP), Some(42));
    scene.add(8, None, Some(TOP), Some(42));
    let mut engine = SpriteLayerEngine::new();
    let out = engine.run_frame(&scene, &SpriteLayerOptions { y_sort: true });
    assert_eq!(find_z(&out, 7).unwrap(), RenderZCoordinate { base: TOP, num: 0, den: 2 });
    assert_eq!(find_z(&out, 8).unwrap(), RenderZCoordinate { base: TOP, num: 1, den: 2 });
}

#[test]
fn repeated_frame_is_identical() {
    // an unchanged scene yields identical depth values — not merely the
    // same order — and the second frame clears nothing
    let mut scene: Scene<i64> = Scene::new();
    let root = scene.add(1, None, Some(TOP), Some(5));
    scene.add(2, Some(root), None, Some(-3));
    scene.add(3, None, Some(BOTTOM), Some(0));
    let mut engine = SpriteLayerEngine::new();
    let options = SpriteLayerOptions::default();
    let first = engine.run_frame(&scene, &options);
    let second = engine.run_frame(&scene, &options);
    assert_eq!(first.writes, second.writes);
    assert!(second.clears.is_empty());
}

#[test]
fn lost_layer_is_cleared() {
    // frame one: object 2 resolves a layer; frame two: it lost the layer,
    // so its depth must be reset to the neutral baseline
    let mut scene: Scene<i64> = Scene::new();
    scene.add(1, None, Some(TOP), Some(0));
    scene.add(2, None, Some(TOP), Some(1));
    let mut engine = SpriteLayerEngine::new();
    let options = SpriteLayerOptions::default();
    let first = engine.run_frame(&scene, &options);
    assert!(first.clears.is_empty());
    assert!(find_z(&first, 2).is_some());

    let mut changed: Scene<i64> = Scene::new();
    changed.add(1, None, Some(TOP), Some(0));
    changed.add(2, None, None, Some(1));
    let second = engine.run_frame(&changed, &options);
    assert_eq!(second.clears, vec![2]);
    assert!(find_z(&second, 2).is_none());
    assert_eq!(RenderZCoordinate::neutral().floor(), 0);
}

#[test]
fn single_object_layer_gets_exact_base() {
    // boundary: one object alone, y-sorting on — the offset is exactly
    // 0 / 1, a finite, deterministic value
    let mut scene: Scene<i64> = Scene::new();
    scene.add(1, None, Some(TOP), Some(123));
    let mut engine = SpriteLayerEngine::new();
    let out = engine.run_frame(&scene, &SpriteLayerOptions { y_sort: true });
    let z = find_z(&out, 1).unwrap();
    assert_eq!(z, RenderZCoordinate { base: TOP, num: 0, den: 1 });
    assert_eq!(z.floor(), TOP);
}

#[test]
fn empty_scene_does_nothing() {
    let scene: Scene<i64> = Scene::new();
    let mut engine = SpriteLayerEngine::new();
    let out = engine.run_frame(&scene, &SpriteLayerOptions::default());
    assert!(out.writes.is_empty());
    assert!(out.clears.is_empty());
}

#[test]
fn dangling_parent_edge_is_skipped() {
    // a parent edge to an object that does not exist is external-data
    // corruption: the edge is dropped, the object becomes a root with no
    // inherited layer, and the rest of the frame proceeds
    let mut scene: Scene<i64> = Scene::new();
    scene.add(1, None, Some(TOP), Some(0));
    scene.add(2, Some(99), None, Some(0));
    let mut engine = SpriteLayerEngine::new();
    let out = engine.run_frame(&scene, &SpriteLayerOptions::default());
    assert!(find_z(&out, 1).is_some());
    assert!(find_z(&out, 2).is_none());
}

#[test]
fn propagation_passes_through_unlayered_nodes() {
    let mut scene: Scene<i64> = Scene::new();
    let root = scene.add(1, None, Some(TOP), None);
    let mid = scene.add(2, Some(root), None, None);
    let leaf = scene.add(3, Some(mid), None, Some(0));
    let eff = propagate_layers(&scene);
    assert_eq!(eff[root], Some(TOP));
    assert_eq!(eff[mid], Some(TOP));
    assert_eq!(eff[leaf], Some(TOP));
}

#[test]
fn explicit_layer_wins_over_inheritance() {
    let mut scene: Scene<i64> = Scene::new();
    let root = scene.add(1, None, Some(TOP), None);
    let child = scene.add(2, Some(root), Some(BOTTOM), None);
    let grandchild = scene.add(3, Some(child), None, None);
    let eff = propagate_layers(&scene);
    assert_eq!(eff[child], Some(BOTTOM));
    // the override is what propagates further down
    assert_eq!(eff[grandchild], Some(BOTTOM));
}

#[test]
fn assignment_without_transform_uses_default_position() {
    // an object with a layer but no transform still occupies a rank, at
    // the default position 0
    let layers: Vec<Option<i64>> = vec![Some(TOP), Some(TOP)];
    let ys: Vec<Option<i64>> = vec![None, Some(-1)];
    let r = set_z_coordinates(&layers, &ys, true);
    // position 0 (the default) is higher than -1, so index 0 ranks first
    assert_eq!(r[0], Some(RenderZCoordinate { base: TOP, num: 0, den: 2 }));
    assert_eq!(r[1], Some(RenderZCoordinate { base: TOP, num: 1, den: 2 }));
}

#[test]
fn clear_keeps_only_missing_ids() {
    let prev: Vec<u64> = vec![1, 2, 3, 4];
    let current: Vec<u64> = vec![2, 4];
    let stale = clear_z_coordinates(&prev, &current);
    assert_eq!(stale, vec![1, 3]);
}
