use engine::audio::mix;
use engine::game::player::{Player, Position};
use engine::game::room::{find_tile_layer, first_tile_layer, paint_solid, EntityKind, Layer, LayerType, MapEntity, Tile, TileLayerType, TileType, Tiles};
use engine::game::scene::{spawn_list, spawn_plan, GameScene, SceneSystem, Spawn, SpawnPlan};
use engine::game::sprite::Playback;
use engine::game::switch::{Button, LightSwitch, SwitchAction};
use engine::game::{GAME_TILE_COUNT, GAME_TILE_HEIGHT, GAME_TILE_WIDTH};

#[test]
fn attack_lasts_thirty_frames() {
    let mut p = Player::default();
    assert!(!p.is_attacking());
    p.attack();
    assert_eq!(p.attack_timer, 30);
    for _ in 0..29 {
        p.update();
        assert!(p.is_attacking());
        p.attack();
    }
    p.update();
    assert!(!p.is_attacking());
    p.update();
    assert_eq!(p.attack_timer, 0);
}

#[test]
fn buffers_count_down_to_zero() {
    let mut p = Player { in_air: true, was_in_air: false, attack_timer: 0, jump_buffer: 2, coyote_buffer: 1 };
    p.update();
    assert_eq!((p.jump_buffer, p.coyote_buffer), (1, 0));
    p.update();
    p.update();
    assert_eq!((p.jump_buffer, p.coyote_buffer), (0, 0));
    assert!(p.in_air);
}

#[test]
fn positions() {
    assert_eq!(Position::new(3, -4), Position { x: 3, y: -4 });
}

#[test]
fn tile_kinds_toggle() {
    assert_eq!(TileType::Empty.other(), TileType::Solid);
    assert_eq!(TileType::Solid.other().other(), TileType::Solid);
    assert_eq!(Tile::default(), Tile { src_x: 0, src_y: 0, kind: TileType::Empty });
}

#[test]
fn tiles_get_after_set() {
    assert_eq!((GAME_TILE_WIDTH, GAME_TILE_HEIGHT, GAME_TILE_COUNT), (40, 23, 920));
    let mut t = Tiles::empty();
    let solid = Tile { src_x: 8, src_y: 16, kind: TileType::Solid };
    t.set(39, 22, solid);
    assert_eq!(*t.get(39, 22), solid);
    assert_eq!(*t.get(38, 22), Tile::default());
    t.get_mut(0, 1).kind = TileType::Solid;
    assert_eq!(t.get(0, 1).kind, TileType::Solid);
    assert_eq!(t.get(40, 0).kind, TileType::Solid);
}

#[test]
fn layer_lists_solid_tiles_in_order() {
    let mut tiles = Tiles::empty();
    let a = Tile { src_x: 1, src_y: 2, kind: TileType::Solid };
    let b = Tile { src_x: 3, src_y: 4, kind: TileType::Solid };
    tiles.set(5, 2, b);
    tiles.set(7, 0, a);
    tiles.set(6, 0, Tile { src_x: 9, src_y: 9, kind: TileType::Empty });
    let layer = Layer { tileset_id: 0, kind: LayerType::Tiles(TileLayerType::Foreground), tiles, entities: vec![] };
    assert_eq!(layer.tiles(), vec![(7, 0, a), (5, 2, b)]);
}

fn button(name: &str, pressed: bool) -> Button {
    Button { name: name.to_string(), pressed }
}

#[test]
fn buttons_by_name() {
    let buttons = vec![button("b1", false), button("b3", true), button("b3", false)];
    assert!(Button::is_pressed(&buttons, "b3"));
    assert!(!Button::is_pressed(&buttons, "b1"));
    assert!(!Button::is_pressed(&buttons, "b9"));
}

#[test]
fn light_switch_toggles_on_each_new_press() {
    let mut s = LightSwitch::new("b3");
    assert_eq!(s.button_name, "b3");
    assert!(!s.turned_on());
    assert_eq!(s.react(false, false), SwitchAction::Keep);
    assert_eq!(s.react(true, false), SwitchAction::AddLight);
    assert!(s.turned_on());
    assert_eq!(s.react(true, true), SwitchAction::Keep);
    assert_eq!(s.react(false, true), SwitchAction::Keep);
    assert_eq!(s.react(true, true), SwitchAction::RemoveLight);
    assert!(!s.turned_on());
}

#[test]
fn playback_advances_by_durations() {
    let mut p = Playback::new("idle".to_string());
    let durations = [2u32, 1];
    p.tick(&durations);
    assert_eq!((p.current_frame, p.frame_counter), (0, 1));
    p.tick(&durations);
    assert_eq!((p.current_frame, p.frame_counter), (1, 0));
    p.tick(&durations);
    assert_eq!((p.current_frame, p.frame_counter), (0, 0));
    p.stop();
    p.tick(&durations);
    assert_eq!((p.current_frame, p.frame_counter), (0, 0));
}

#[test]
fn playback_switches_animation_on_next_tick() {
    let mut p = Playback::new("idle".to_string());
    p.tick(&[3, 3]);
    p.play("walk");
    assert_eq!(p.next_animation, "walk");
    assert_eq!(p.current_animation, "idle");
    p.tick(&[3, 3]);
    assert_eq!(p.current_animation, "walk");
    assert_eq!((p.current_frame, p.frame_counter), (0, 0));
    p.play("walk");
    assert!(p.playing);
}

#[test]
fn scenes_track_their_entities() {
    let mut s = GameScene::with_room(2, 1);
    assert_eq!((s.room_x, s.room_y), (2, 1));
    s.track(4);
    s.track(9);
    assert_eq!(s.release_entities(), vec![4, 9]);
    assert!(s.release_entities().is_empty());
    let sys = SceneSystem::new();
    assert!(!sys.initialised);
    assert!(!sys.room_changed(0, 0));
    assert!(sys.room_changed(1, 0));
}

#[test]
fn mixing_interleaves_and_stops_at_the_end() {
    let left = [1, 2, 3];
    let right = [10, 20, 30];
    let mut out = [0; 6];
    assert_eq!(mix(Some((&left[..], &right[..])), 0, 1, false, &mut out), (0, false));
    assert_eq!(out, [2, 20, 3, 30, 0, 0]);
    let mut out = [7; 6];
    assert_eq!(mix(Some((&left[..], &right[..])), 0, 1, true, &mut out), (0, true));
    assert_eq!(out, [2, 20, 3, 30, 7, 7]);
    let mut out = [0; 2];
    assert_eq!(mix(Some((&left[..], &right[..])), 0, 0, false, &mut out), (1, true));
    assert_eq!(out, [1, 10]);
    let mut out = [0; 3];
    assert_eq!(mix(Some((&left[..], &right[..2])), 0, 0, false, &mut out), (1, true));
    assert_eq!(out, [1, 10, 2]);
    let mut out = [5; 3];
    assert_eq!(mix(None, 0, 2, true, &mut out), (2, false));
    assert_eq!(out, [0, 0, 0]);
}

#[test]
fn map_entities_by_identifier() {
    let e = |id: &str| MapEntity { px: 0, py: 0, identifier: id.to_string(), custom_fields: vec![] };
    assert_eq!(e("Light").kind(), EntityKind::Light);
    assert_eq!(e("LightBig").kind(), EntityKind::Light);
    assert_eq!(e("Ligh").kind(), EntityKind::Other);
    assert_eq!(e("Button").kind(), EntityKind::Button);
    assert_eq!(e("Buttons").kind(), EntityKind::Other);
    assert_eq!(e("").kind(), EntityKind::Other);
    let entities = Layer { tileset_id: 0, kind: LayerType::Entities, tiles: Tiles::empty(), entities: vec![] };
    let tiles = Layer { tileset_id: 0, kind: LayerType::Tiles(TileLayerType::Background), tiles: Tiles::empty(), entities: vec![] };
    assert_eq!(first_tile_layer(&[entities, tiles]), Some(1));
    assert_eq!(first_tile_layer(&[]), None);
}

#[test]
fn collision_grid_marks_solid_tiles() {
    let mut t = Tiles::empty();
    t.set(3, 1, Tile { src_x: 0, src_y: 0, kind: TileType::Solid });
    let g = t.collision_grid();
    assert_eq!(g.len(), 920);
    assert!(g[43]);
    assert_eq!(g.iter().filter(|c| **c).count(), 1);
}

#[test]
fn tile_walk_hands_out_solid_tiles_then_none() {
    let mut t = Tiles::empty();
    let a = Tile { src_x: 1, src_y: 2, kind: TileType::Solid };
    let b = Tile { src_x: 3, src_y: 4, kind: TileType::Solid };
    t.set(5, 0, a);
    t.set(0, 2, b);
    t.set(7, 1, Tile { src_x: 9, src_y: 9, kind: TileType::Empty });
    let mut walk = t.iter();
    assert_eq!(walk.next(), Some((5, 0, a)));
    assert_eq!(walk.next(), Some((0, 2, b)));
    assert_eq!(walk.next(), None);
    assert_eq!(walk.next(), None);

    let empty = Tiles::empty();
    assert_eq!(empty.iter().next(), None);
}

#[test]
fn editor_brush_paints_the_chosen_tile_layer() {
    let layer = |kind: LayerType| Layer { tileset_id: 7, kind, tiles: Tiles::empty(), entities: vec![] };
    let mut layers = vec![
        layer(LayerType::Entities),
        layer(LayerType::Tiles(TileLayerType::Foreground)),
        layer(LayerType::Tiles(TileLayerType::Background)),
        layer(LayerType::Tiles(TileLayerType::Background)),
    ];
    assert_eq!(find_tile_layer(&layers, TileLayerType::Foreground), Some(1));
    assert_eq!(find_tile_layer(&layers, TileLayerType::Background), Some(2));
    assert_eq!(find_tile_layer(&layers[..1], TileLayerType::Background), None);

    paint_solid(&mut layers, TileLayerType::Background, 3, 1);
    let solid = Tile { src_x: 0, src_y: 0, kind: TileType::Solid };
    assert_eq!(*layers[2].tiles.get(3, 1), solid);
    assert_eq!(layers[2].tiles(), vec![(3, 1, solid)]);
    assert_eq!(layers[1].tiles(), vec![]);
    assert_eq!(layers[3].tiles(), vec![]);
    assert_eq!(layers[2].tileset_id, 7);

    paint_solid(&mut layers, TileLayerType::Foreground, 39, 22);
    assert_eq!(layers[1].tiles(), vec![(39, 22, solid)]);
}

#[test]
fn light_switches_update_together() {
    let mut switches = vec![LightSwitch::new("a"), LightSwitch::new("b"), LightSwitch::new("c")];
    let buttons = vec![button("a", true), button("b", false), button("a", false)];
    let actions = LightSwitch::update(&mut switches, &buttons, &[false, true, false]);
    assert_eq!(actions, vec![SwitchAction::AddLight, SwitchAction::RemoveLight, SwitchAction::Keep]);
    assert!(switches[0].turned_on());
    assert!(!switches[1].turned_on());
    assert!(!switches[2].turned_on());
    // Still held: no new press, the first stays on.
    let actions = LightSwitch::update(&mut switches, &buttons, &[true, false, false]);
    assert_eq!(actions, vec![SwitchAction::Keep, SwitchAction::Keep, SwitchAction::Keep]);
    assert!(switches[0].turned_on());
    // Released, then pressed again: it goes off.
    let released = vec![button("a", false)];
    LightSwitch::update(&mut switches, &released, &[true, false, false]);
    let actions = LightSwitch::update(&mut switches, &buttons, &[true, false, false]);
    assert_eq!(actions[0], SwitchAction::RemoveLight);
    assert!(!switches[0].turned_on());
}

#[test]
fn grids_have_one_tile_per_cell() {
    assert_eq!(Tiles::empty().cell_count(), GAME_TILE_COUNT);
}

#[test]
fn placed_entities_spawn_at_room_offset() {
    let entity = |id: &str, fields: Vec<String>| MapEntity { px: 5, py: -3, identifier: id.to_string(), custom_fields: fields };
    assert_eq!(
        spawn_plan(320, 184, &entity("LightBig", vec![])),
        SpawnPlan { x: 325, y: 181, sprite: "LightBig".to_string(), spawn: Spawn::Light { button: "b3" } }
    );
    assert_eq!(
        spawn_plan(0, 0, &entity("Button", vec!["b7".to_string(), "x".to_string()])),
        SpawnPlan { x: 5, y: -3, sprite: "Button".to_string(), spawn: Spawn::Button { name: "b7".to_string() } }
    );
    assert_eq!(
        spawn_plan(-10, 10, &entity("Crate", vec![])),
        SpawnPlan { x: -5, y: 7, sprite: "Crate".to_string(), spawn: Spawn::Sprite }
    );
}

#[test]
fn spawn_list_covers_entity_layers_in_order() {
    let entity = |id: &str, px: i32| MapEntity { px, py: 1, identifier: id.to_string(), custom_fields: vec!["b1".to_string()] };
    let layers = vec![
        Layer { tileset_id: 0, kind: LayerType::Entities, tiles: Tiles::empty(), entities: vec![entity("Light", 1), entity("Button", 2)] },
        Layer {
            tileset_id: 0,
            kind: LayerType::Tiles(TileLayerType::Foreground),
            tiles: Tiles::empty(),
            entities: vec![entity("Ignored", 9)],
        },
        Layer { tileset_id: 0, kind: LayerType::Entities, tiles: Tiles::empty(), entities: vec![entity("Crate", 3)] },
    ];
    let plans = spawn_list(100, 200, &layers);
    assert_eq!(
        plans,
        vec![
            SpawnPlan { x: 101, y: 201, sprite: "Light".to_string(), spawn: Spawn::Light { button: "b3" } },
            SpawnPlan { x: 102, y: 201, sprite: "Button".to_string(), spawn: Spawn::Button { name: "b1".to_string() } },
            SpawnPlan { x: 103, y: 201, sprite: "Crate".to_string(), spawn: Spawn::Sprite },
        ]
    );
    assert_eq!(spawn_list(0, 0, &[]), vec![]);
}
