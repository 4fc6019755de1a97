use simcore::animation::{Animation, AnimationController, AnimationSystem};
use simcore::config::{AudioConfig, GameEngineConfig};
use simcore::geom2::Vector2i;
use simcore::input::{get_default_button_mapping, get_default_mouse_mapping, Action, VirtualButton, VirtualKey};
use simcore::loader::JsonSyncLoader;
use simcore::mesh::{Material, MeshRender};
use simcore::timer::Timer;
use simcore::transform::{default_dirty, LocalTransform, Transform};
use simcore::window::WindowDim;

#[test]
fn animation_advances_and_wraps() {
    let system = AnimationSystem;
    let mut controller = AnimationController::default();
    controller.animations.push((
        String::from("walk"),
        Animation::new(vec![(4, 1), (9, 1)], Timer::of_millis(10)),
    ));
    controller.current_animation = Some(String::from("walk"));

    // frame timer not yet elapsed: sprite shown, nothing advances
    let tick = system.step_controller(&mut controller, 5);
    assert_eq!(tick.sprite_nb, Some(4));
    assert!(!tick.request_delete);
    assert_eq!(controller.animations[0].1.current_index, 0);

    // two elapsed frames move past the first keyframe's hold of one
    system.step_controller(&mut controller, 10);
    let tick = system.step_controller(&mut controller, 10);
    assert_eq!(tick.sprite_nb, Some(4));
    assert_eq!(controller.animations[0].1.current_index, 1);

    let tick = system.step_controller(&mut controller, 10);
    assert_eq!(tick.sprite_nb, Some(9));
}

#[test]
fn unknown_animation_name_is_skipped() {
    let system = AnimationSystem;
    let mut controller = AnimationController::default();
    controller.animations.push((
        String::from("walk"),
        Animation::new(vec![(0, 1)], Timer::of_millis(10)),
    ));
    controller.current_animation = Some(String::from("run"));
    let tick = system.step_controller(&mut controller, 10);
    assert_eq!(tick.sprite_nb, None);
    assert!(!tick.request_delete);

    controller.current_animation = None;
    let tick = system.step_controller(&mut controller, 10);
    assert_eq!(tick.sprite_nb, None);
}

#[test]
fn finishing_one_shot_requests_deletion() {
    let system = AnimationSystem;
    let mut controller = AnimationController::default();
    controller.animations.push((
        String::from("pop"),
        Animation::new(vec![(1, 0)], Timer::of_millis(1)),
    ));
    controller.current_animation = Some(String::from("pop"));
    controller.delete_on_finished = true;

    let tick = system.step_controller(&mut controller, 1);
    assert!(tick.request_delete);
}

#[test]
fn animation_last_frame_flag() {
    let mut a = Animation::new(vec![(0, 1), (1, 1)], Timer::of_millis(10));
    assert!(!a.last_frame());
    a.current_index = 1;
    assert!(a.last_frame());
}

#[test]
fn transform_translate_marks_dirty() {
    let mut t = Transform::default();
    assert!(!t.dirty);
    t.translate(Vector2i::new(300, -50));
    t.translate(Vector2i::new(10, 20));
    assert_eq!(t.translation, Vector2i::new(310, -30));
    assert!(t.dirty);
}

#[test]
fn local_transform_from_global_is_dirty() {
    let mut t = Transform::default();
    t.translation = Vector2i::new(5, 6);
    t.rotation = 250;
    let l = LocalTransform::from(t);
    assert_eq!(l.translation, Vector2i::new(5, 6));
    assert_eq!(l.rotation, 250);
    assert!(l.dirty);
    assert!(default_dirty());

    let built = LocalTransform::new(Vector2i::new(1, 2), 7, Vector2i::new(3, 4));
    assert_eq!(built.scale, Vector2i::new(3, 4));
    assert!(built.dirty);
}

#[test]
fn material_ids_and_sorting_key() {
    let sprite = Material::Sprite {
        sprite_id: String::from("hero"),
        sprite_nb: 0,
        columns: 4,
        rows: 4,
    };
    let shader = Material::Shader {
        vertex_shader_id: String::from("v"),
        fragment_shader_id: String::from("f"),
    };
    assert_eq!(sprite.material_id(), 1);
    assert_eq!(shader.material_id(), 2);

    let render = MeshRender { enabled: true, material: sprite, depth: 3 };
    assert_eq!(render.sorting_key(), 3 * 0x10000 + 1);
}

#[test]
fn window_dim_resizes() {
    let mut d = WindowDim::new(800, 600);
    d.resize(1024, 768);
    assert_eq!(d.width, 1024);
    assert_eq!(d.height, 768);
}

#[test]
fn config_defaults() {
    let g = GameEngineConfig::default();
    assert!(!g.show_gizmos);
    let a = AudioConfig::default();
    assert_eq!(a.background_volume, 100);
    assert_eq!(a.effects_volume, 100);
    assert_eq!(a.channel_nb, 15);
}

#[test]
fn default_input_mappings() {
    let keys = get_default_button_mapping();
    assert_eq!(keys.get(&VirtualKey::W), Some(&Action::MoveUp));
    assert_eq!(keys.get(&VirtualKey::Up), Some(&Action::MoveUp));
    assert_eq!(keys.get(&VirtualKey::F), Some(&Action::Pickup));
    assert_eq!(keys.len(), 10);
    let buttons = get_default_mouse_mapping();
    assert_eq!(buttons.get(&VirtualButton::Button1), Some(&Action::Shoot));
}

#[test]
fn loader_keeps_base_path() {
    let l = JsonSyncLoader::new(String::from("assets"));
    assert_eq!(l.base_path, "assets");
}
