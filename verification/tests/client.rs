use corp::client::spawn_point;
use corp::client::OrientationMode;
use corp::client::inventory_line;
use corp::client::is_quit_action;
use corp::assets::{AssetColor, ColorAsset, MaterialAsset, MaterialAssets, PaletteColor};
use corp::client::{
    animation_to_start, colony_scene, components, starmap_destination, vortex_traveller,
    BarrierId, CharacterAction, ColonyScene, DamageZone, DoubleTap, InputBinding,
    InputControlKind, MannequinAnimation, SceneComponents, UIAction,
};
use corp::colony::Colony;

#[test]
fn double_tap_fires_after_two_presses_in_a_window() {
    let mut tap = DoubleTap::default();
    tap.increment();
    assert!(!tap.on_complete(false));
    tap.increment();
    assert!(!tap.on_complete(false));
    assert!(tap.on_complete(true));
    assert_eq!(tap.count(), 0);
}

#[test]
fn double_tap_needs_both_presses_in_one_window() {
    let mut tap = DoubleTap::default();
    tap.increment();
    assert!(!tap.on_complete(true));
    tap.increment();
    assert!(!tap.on_complete(true));
    assert!(!tap.on_complete(true));
}

#[test]
fn move_is_the_only_axis_action() {
    assert_eq!(CharacterAction::Move.input_control_kind(), InputControlKind::DualAxis);
    assert_eq!(CharacterAction::Shoot.input_control_kind(), InputControlKind::Button);
    assert_eq!(CharacterAction::Move.binding(), InputBinding::Wasd);
    assert_eq!(CharacterAction::Use.binding(), InputBinding::KeyE);
    assert_eq!(UIAction::ColonyLiberte.binding(), InputBinding::KeyL);
    assert_eq!(UIAction::Escape.binding(), InputBinding::Escape);
    assert_eq!(UIAction::ColonyIris.binding(), InputBinding::KeyI);
    assert_eq!(UIAction::ColonyPlayground.binding(), InputBinding::KeyP);
}

#[test]
fn star_map_destinations() {
    assert_eq!(starmap_destination(true, true, true), Some(Colony::Iris));
    assert_eq!(starmap_destination(false, true, true), Some(Colony::Liberte));
    assert_eq!(starmap_destination(false, false, true), Some(Colony::Playground));
    assert_eq!(starmap_destination(false, false, false), None);
}

#[test]
fn colony_scenes() {
    assert_eq!(colony_scene(Colony::StarMap), None);
    assert_eq!(colony_scene(Colony::Cloning), Some(ColonyScene::Cloning));
    assert_eq!(colony_scene(Colony::Iris), Some(ColonyScene::Iris));
    assert_eq!(colony_scene(Colony::Liberte), Some(ColonyScene::Liberte));
    assert_eq!(colony_scene(Colony::Playground), Some(ColonyScene::Liberte));
}

#[test]
fn scene_objects_by_name() {
    assert_eq!(components("VortexGate.001"), SceneComponents::VortexGate);
    assert_eq!(components("VortexNode"), SceneComponents::VortexNode);
    assert_eq!(components("BarrierField1"), SceneComponents::BarrierField(BarrierId::B1));
    assert_eq!(components("BarrierControl12.a"), SceneComponents::BarrierControl(BarrierId::B1));
    assert_eq!(components("BarrierField2x"), SceneComponents::BarrierField(BarrierId::B2));
    assert_eq!(components("BarrierControl21"), SceneComponents::BarrierControl(BarrierId::B2));
    assert_eq!(components("BarrierControl13"), SceneComponents::Nothing);
    assert_eq!(components("EnergyNode1"), SceneComponents::EnergyNode);
    assert_eq!(components("Plant Tree 3"), SceneComponents::PlantTree);
    assert_eq!(components("vortexgate"), SceneComponents::Nothing);
    assert_eq!(components(""), SceneComponents::Nothing);
}

#[test]
fn vortex_collisions() {
    assert_eq!(vortex_traveller(1, 2, true, false, false, true), Some(2));
    assert_eq!(vortex_traveller(1, 2, false, true, true, false), Some(1));
    assert_eq!(vortex_traveller(1, 2, false, true, false, true), None);
}

#[test]
fn animations() {
    assert_eq!(animation_to_start(true, false, true), Some(MannequinAnimation::Run));
    assert_eq!(animation_to_start(true, true, false), None);
    assert_eq!(animation_to_start(false, false, false), Some(MannequinAnimation::Idle));
    assert_eq!(animation_to_start(false, true, true), None);
}

#[test]
fn damage_zone() {
    assert_eq!(DamageZone::new(5).damage, 5);
}

#[test]
fn asset_defaults_and_lookups() {
    assert_eq!(ColorAsset::default(), ColorAsset::Unknwon);
    assert_eq!(MaterialAsset::default(), MaterialAsset::Unknown);
    assert_eq!(AssetColor::default(), AssetColor::Unknwon);
    assert_eq!(AssetColor::Red.get_color(), PaletteColor::Red);
    assert_eq!(AssetColor::Unknwon.get_color(), PaletteColor::Pink);
    let materials = MaterialAssets {
        green_material: "green",
        blue_material: "blue",
        orange_red: "orange",
        sea_green: "sea",
        pink_material: "pink",
    };
    assert_eq!(*materials.get_material(&MaterialAsset::Blue), "blue");
    assert_eq!(*materials.get_material(&MaterialAsset::Unknown), "pink");
    assert_eq!(*materials.get_material(&MaterialAsset::SeaGreen), "sea");
}

#[test]
fn orientation_toggles() {
    let m: OrientationMode<(i32, i32)> = OrientationMode::Direction;
    let m = m.toggled((1, 2));
    assert!(matches!(m, OrientationMode::Location((1, 2))));
    let m = m.following((3, 4));
    assert!(matches!(m, OrientationMode::Location((3, 4))));
    let m = m.toggled((5, 6));
    assert!(matches!(m, OrientationMode::Direction));
    let m = m.following((7, 8));
    assert!(matches!(m, OrientationMode::Direction));
}

#[test]
fn inventory_lines() {
    assert_eq!(inventory_line(&vec![]), "Inventory: []");
    assert_eq!(inventory_line(&vec!["Rifle".to_string()]), "Inventory: [Rifle]");
    assert_eq!(
        inventory_line(&vec!["Rifle".to_string(), "Medkit".to_string(), "Key".to_string()]),
        "Inventory: [Rifle, Medkit, Key]"
    );
}

#[test]
fn quit_action() {
    assert!(is_quit_action("QUIT_APP"));
    assert!(!is_quit_action("QUIT_APP2"));
    assert!(!is_quit_action("quit_app"));
}

#[test]
fn players_spawn_at_a_vortex_node() {
    let nodes = [(1, 2), (3, 4), (5, 6)];
    for _ in 0..20 {
        let p = spawn_point(&nodes, (0, 0));
        assert!(nodes.contains(&p));
    }
    let none: [(i32, i32); 0] = [];
    assert_eq!(spawn_point(&none, (1, 10)), (1, 10));
}

#[test]
fn only_one_local_player() {
    assert!(!corp::client::second_local_player(0));
    assert!(corp::client::second_local_player(1));
}
