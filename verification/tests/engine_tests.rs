//! The engine exercised end to end on small scenes, mirroring typical host
//! usage: build a snapshot, run a frame, inspect the depth writes.

use extol_sprite_layer::FrameOutput;
use extol_sprite_layer::RenderZCoordinate;
use extol_sprite_layer::Scene;
use extol_sprite_layer::SpriteLayerEngine;
use extol_sprite_layer::SpriteLayerOptions;

const BOTTOM: i64 = 0;
const MIDDLE: i64 = 1;
const TOP: i64 = 2;

fn get_z(out: &FrameOutput, id: u64) -> RenderZCoordinate {
    for (written_id, z) in &out.writes {
        if *written_id == id {
            return *z;
        }
    }
    panic!("no depth was written for id {}", id);
}

#[test]
fn plugin_add_smoke_check() {
    // Setting up an engine with default options and running it on an empty
    // scene must not blow anything up.
    let scene: Scene<i64> = Scene::new();
    let mut engine = SpriteLayerEngine::new();
    let options = SpriteLayerOptions::default();
    let _ = engine.run_frame(&scene, &options);
}

#[test]
fn simple() {
    let mut scene: Scene<i64> = Scene::new();
    let top = scene.add(1, None, Some(TOP), Some(1));
    let middle = scene.add(2, None, Some(MIDDLE), Some(1));
    let bottom = scene.add(3, None, Some(BOTTOM), Some(1));
    let top = scene.id_of(top);
    let middle = scene.id_of(middle);
    let bottom = scene.id_of(bottom);

    let mut engine = SpriteLayerEngine::new();
    let options = SpriteLayerOptions::default();
    let out = engine.run_frame(&scene, &options);

    assert!(get_z(&out, bottom).lt(&get_z(&out, middle)));
    assert!(get_z(&out, middle).lt(&get_z(&out, top)));
}

#[test]
fn inherited() {
    let mut scene: Scene<i64> = Scene::new();
    let top = scene.add(1, None, Some(TOP), Some(0));
    let _child_with_layer = scene.add(2, Some(top), Some(MIDDLE), Some(0));
    let _child_without_layer = scene.add(3, Some(top), None, Some(0));

    let mut engine = SpriteLayerEngine::new();
    let options = SpriteLayerOptions::default();
    let out = engine.run_frame(&scene, &options);

    // we use .floor() here since y-sorting can add a fractional amount to
    // the coordinates
    assert_eq!(get_z(&out, 2).floor(), MIDDLE);
    assert_eq!(get_z(&out, 3).floor(), get_z(&out, 1).floor());
}

#[test]
fn y_sorting() {
    // ten objects on one layer at varied vertical positions
    let ys: [i64; 10] = [3, 141, 59, 26, 535, 89, 79, 323, 846, 264];
    let mut scene: Scene<i64> = Scene::new();
    for (i, y) in ys.iter().enumerate() {
        scene.add(i as u64, None, Some(TOP), Some(*y));
    }

    let mut engine = SpriteLayerEngine::new();
    let options = SpriteLayerOptions::default();
    let out = engine.run_frame(&scene, &options);

    // collect (depth, y) per object, then sort one copy by depth and one
    // copy by descending position: the two orders must agree
    let mut positions: Vec<(i64, u64, i64)> = Vec::new();
    for i in 0..ys.len() {
        let z = get_z(&out, i as u64);
        assert_eq!(z.base, TOP);
        positions.push((z.num as i64, i as u64, ys[i]));
    }
    let mut sorted_by_z = positions.clone();
    sorted_by_z.sort_by_key(|&(num, _, _)| num);
    let mut sorted_by_y = positions;
    sorted_by_y.sort_by_key(|&(_, _, y)| std::cmp::Reverse(y));
    assert_eq!(sorted_by_z, sorted_by_y);
}

#[test]
fn child_with_no_transform() {
    let mut scene: Scene<i64> = Scene::new();
    let entity = scene.add(1, None, Some(TOP), Some(0));
    // the intermediate child has neither a transform nor a layer
    let child = scene.add(2, Some(entity), None, None);
    let _grandchild = scene.add(3, Some(child), None, Some(0));

    let mut engine = SpriteLayerEngine::new();
    let options = SpriteLayerOptions::default();
    let out = engine.run_frame(&scene, &options);

    assert_eq!(get_z(&out, 3).floor(), TOP);
    // the transform-less child resolved a layer but gets no depth write
    assert!(out.writes.iter().all(|(id, _)| *id != 2));
}
