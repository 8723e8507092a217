use stock_rpg::assemblages::Assemblager;
use stock_rpg::component::{Component, ComponentKind};
use stock_rpg::comps::{
    AppearanceBuilder, ApplyForce, Assemblaged, CameraFocus, EmitCollideEvent, Explodeable,
    Hitbox, Interactable, MovementControls, Phys, ScriptEvent,
};
use stock_rpg::frame::{is_valid_schedule, schedule, Frame, Phase, Stage};
use stock_rpg::image_bundle::{ImageBundle, Rect};
use stock_rpg::phys_state::PhysState;
use stock_rpg::scalar::{Scalar, Vec2, Vec3};
use stock_rpg::systems::{
    add_hitboxes_to_phys, begin_appearance, contact_started, explode, exploding,
    find_camera_focus, interact, player, roll_gib, AppearancePlan, ExplodeError, GibRoll,
};
use stock_rpg::world::{LazyAction, World};

fn num(x: f32) -> Scalar {
    Scalar::from_bits(x.to_bits())
}

fn event(function: &str, payload: u32) -> Component {
    Component::ScriptEvent(ScriptEvent { function: String::from(function), payload })
}

fn builder(image: &str, built: bool) -> Component {
    let mut b = AppearanceBuilder::default();
    b.image_name = String::from(image);
    b.built = built;
    Component::AppearanceBuilder(b)
}

fn melon_catalog() -> Assemblager {
    let mut a = Assemblager::empty();
    a.insert(
        "melon gib",
        vec![
            builder("melon_gib_1", false),
            Component::ApplyForce(ApplyForce::default()),
            Component::Hitbox(Hitbox::default()),
        ],
    );
    a.insert("melon", vec![Component::Hitbox(Hitbox::default())]);
    a
}

fn melon_world(x: Explodeable) -> (Assemblager, World, PhysState, u32) {
    let a = melon_catalog();
    let mut world = World::new();
    let mut ps = PhysState::new();
    world.create_entity();
    let melon = a.build_at("melon", &mut world, Vec3 { x: num(3.0), y: num(4.0), z: num(0.0) });
    let melon = melon.unwrap();
    world.flush();
    world.insert(melon, Component::Explodeable(x));
    add_hitboxes_to_phys(&mut world, &mut ps);
    (a, world, ps, melon)
}

fn rolls(n: u32, strength: f32) -> Vec<GibRoll> {
    (0..n)
        .map(|i| {
            let angle = i as f32;
            GibRoll {
                which_gib: 1 + i % 9,
                force: Vec3 {
                    x: num(angle.cos() * strength),
                    y: num(angle.sin() * strength),
                    z: num(0.0),
                },
            }
        })
        .collect()
}

#[test]
fn a_roll_names_one_of_the_nine_images() {
    for _ in 0..200 {
        match roll_gib() {
            Some(v) => assert!((1..10).contains(&v)),
            None => {}
        }
    }
    let seen: Vec<u32> = (0..400).filter_map(|_| roll_gib()).collect();
    if !seen.is_empty() {
        assert!(seen.iter().any(|v| *v != seen[0]));
    }
}

#[test]
fn an_explosion_of_seven_chunks_leaves_seven_melon_gibs_and_removes_the_entity() {
    let x = Explodeable::default();
    assert_eq!(x.chunks_count, 7);
    let strength = f32::from_bits(x.force.vec.x.bits);
    assert_eq!(strength, 12.5);
    let (a, mut world, ps, melon) = melon_world(x);
    assert_eq!(exploding(&world), vec![melon]);
    let throws = rolls(7, strength);
    let ids = explode(&mut world, &ps, &a, melon, &throws).expect("the melon explodes");
    assert_eq!(ids, vec![2, 3, 4, 5, 6, 7, 8]);
    assert_eq!(world.entity_count(), 9);
    assert!(world.is_alive(melon));
    for id in &ids {
        assert!(world.is_alive(*id));
        assert!(!world.has(*id, ComponentKind::Assemblaged));
    }
    world.flush();
    assert!(!world.is_alive(melon));
    assert_eq!(world.removed_phys, vec![melon]);
    for (i, id) in ids.iter().enumerate() {
        assert_eq!(
            world.get(*id, ComponentKind::Assemblaged),
            Some(&Component::Assemblaged(Assemblaged { built_from: String::from("melon gib") }))
        );
        match world.get(*id, ComponentKind::ApplyForce) {
            Some(Component::ApplyForce(f)) => {
                assert_eq!(f.vec, throws[i].force);
                let (fx, fy) = (f32::from_bits(f.vec.x.bits), f32::from_bits(f.vec.y.bits));
                assert!(((fx * fx + fy * fy).sqrt() - strength).abs() < 1e-4);
                assert_eq!(f.duration, x.force.duration);
                assert_eq!(f.decay, x.force.decay);
                assert_eq!(f.time_elapsed, x.force.time_elapsed);
            }
            other => panic!("expected a force, got {:?}", other),
        }
        let image = format!("melon_gib_{}", throws[i].which_gib);
        assert_eq!(world.get(*id, ComponentKind::AppearanceBuilder), Some(&builder(&image, false)));
        match world.get(*id, ComponentKind::Hitbox) {
            Some(Component::Hitbox(h)) => {
                assert_eq!(h.position, Vec3 { x: num(3.0), y: num(4.0), z: num(0.0) })
            }
            other => panic!("expected a hitbox, got {:?}", other),
        }
    }
}

#[test]
fn an_explosion_may_keep_the_entity_and_take_the_explodeable_or_keep_both() {
    let mut x = Explodeable::default();
    x.delete_entity = false;
    x.delete_component = true;
    x.chunks_count = 2;
    let (a, mut world, ps, melon) = melon_world(x);
    assert_eq!(explode(&mut world, &ps, &a, melon, &rolls(2, 1.0)), Ok(vec![2, 3]));
    assert!(!world.has(melon, ComponentKind::Explodeable));
    world.flush();
    assert!(world.is_alive(melon));
    assert_eq!(exploding(&world), Vec::<u32>::new());

    x.delete_component = false;
    let (a, mut world, ps, melon) = melon_world(x);
    assert_eq!(explode(&mut world, &ps, &a, melon, &rolls(2, 1.0)), Ok(vec![2, 3]));
    world.flush();
    assert!(world.is_alive(melon));
    assert!(world.has(melon, ComponentKind::Explodeable));

    x.delete_entity = true;
    x.delete_component = true;
    let (a, mut world, ps, melon) = melon_world(x);
    assert_eq!(explode(&mut world, &ps, &a, melon, &rolls(2, 1.0)), Ok(vec![2, 3]));
    assert!(world.has(melon, ComponentKind::Explodeable));
    world.flush();
    assert!(!world.is_alive(melon));
}

#[test]
fn an_explodeable_with_no_chunks_or_a_negative_count_leaves_none() {
    for count in [0, -4] {
        let mut x = Explodeable::default();
        x.chunks_count = count;
        let (a, mut world, ps, melon) = melon_world(x);
        assert_eq!(explode(&mut world, &ps, &a, melon, &vec![]), Ok(Vec::<u32>::new()));
        assert_eq!(world.lazy, vec![LazyAction::Delete { entity: melon }]);
        assert_eq!(
            explode(&mut world, &ps, &a, melon, &rolls(1, 1.0)),
            Err(ExplodeError::WrongRollCount)
        );
    }
}

#[test]
fn an_explosion_fails_without_explodeable_body_prefab_or_rolls() {
    let (a, mut world, ps, melon) = melon_world(Explodeable::default());
    assert_eq!(
        explode(&mut world, &ps, &a, 0, &rolls(7, 1.0)),
        Err(ExplodeError::NotExplodeable)
    );
    assert_eq!(
        explode(&mut world, &ps, &a, 9, &rolls(7, 1.0)),
        Err(ExplodeError::NotExplodeable)
    );
    assert_eq!(
        explode(&mut world, &ps, &a, melon, &rolls(6, 1.0)),
        Err(ExplodeError::WrongRollCount)
    );
    assert_eq!(
        explode(&mut world, &ps, &a, melon, &rolls(8, 1.0)),
        Err(ExplodeError::WrongRollCount)
    );
    let empty = Assemblager::empty();
    assert_eq!(
        explode(&mut world, &ps, &empty, melon, &rolls(7, 1.0)),
        Err(ExplodeError::PrefabNotFound)
    );
    let mut flat = Assemblager::empty();
    flat.insert("melon gib", vec![builder("melon_gib_1", false)]);
    assert_eq!(
        explode(&mut world, &ps, &flat, melon, &rolls(7, 1.0)),
        Err(ExplodeError::NoHitbox)
    );
    assert_eq!(
        explode(&mut world, &ps, &flat, melon, &rolls(3, 1.0)),
        Err(ExplodeError::NoHitbox)
    );
    world.insert(0, Component::Explodeable(Explodeable::default()));
    assert_eq!(explode(&mut world, &ps, &a, 0, &rolls(7, 1.0)), Err(ExplodeError::MissingPhys));
    assert_eq!(exploding(&world), vec![melon]);
    world.insert(0, Component::Phys(Phys { body: 9 }));
    assert_eq!(explode(&mut world, &ps, &a, 0, &rolls(7, 1.0)), Err(ExplodeError::MissingPhys));
    assert_eq!(exploding(&world), vec![0, melon]);
    assert_eq!(world.entity_count(), 2);
    assert!(world.lazy.is_empty());
}

#[test]
fn an_interaction_raises_the_script_of_the_target_with_the_player_as_payload() {
    let mut world = World::new();
    let p = world.create_entity();
    let door = world.create_entity();
    let wall = world.create_entity();
    world.insert(
        door,
        Component::Interactable(Interactable {
            script: ScriptEvent { function: String::from("open"), payload: 99 },
        }),
    );
    world.insert(door, event("old", 1));
    assert!(interact(&mut world, p, door));
    assert_eq!(world.get(door, ComponentKind::ScriptEvent), Some(&event("open", p)));
    assert!(world.has(door, ComponentKind::Interactable));
    assert!(!interact(&mut world, p, wall));
    assert!(!world.has(wall, ComponentKind::ScriptEvent));
    assert!(!interact(&mut world, p, 9));
}

#[test]
fn the_player_is_the_first_entity_with_body_and_controls() {
    let mut world = World::new();
    for _ in 0..3 {
        world.create_entity();
    }
    assert_eq!(player(&world), None);
    world.insert(0, Component::MovementControls(MovementControls::default()));
    world.insert(1, Component::Phys(Phys { body: 0 }));
    assert_eq!(player(&world), None);
    world.insert(2, Component::MovementControls(MovementControls::default()));
    world.insert(2, Component::Phys(Phys { body: 1 }));
    assert_eq!(player(&world), Some(2));
    world.insert(1, Component::MovementControls(MovementControls::default()));
    assert_eq!(player(&world), Some(1));
}

fn hook(function: &str) -> Component {
    Component::EmitCollideEvent(EmitCollideEvent {
        script: ScriptEvent { function: String::from(function), payload: 0 },
    })
}

#[test]
fn a_contact_raises_the_hooks_of_both_entities_with_each_other_as_payload() {
    let mut world = World::new();
    let mut ps = PhysState::new();
    for _ in 0..3 {
        let e = world.create_entity();
        world.insert(e, Component::Hitbox(Hitbox::default()));
    }
    add_hitboxes_to_phys(&mut world, &mut ps);
    world.insert(0, hook("zero"));
    world.insert(2, hook("two"));
    contact_started(&mut world, &ps, 0, 2);
    assert_eq!(world.get(0, ComponentKind::ScriptEvent), Some(&event("zero", 2)));
    assert_eq!(world.get(2, ComponentKind::ScriptEvent), Some(&event("two", 0)));
    contact_started(&mut world, &ps, 1, 0);
    assert_eq!(world.get(0, ComponentKind::ScriptEvent), Some(&event("zero", 1)));
    assert!(!world.has(1, ComponentKind::ScriptEvent));
    contact_started(&mut world, &ps, 2, 2);
    assert_eq!(world.get(2, ComponentKind::ScriptEvent), Some(&event("two", 2)));
}

#[test]
fn a_contact_with_a_body_that_is_not_tagged_raises_nothing() {
    let mut world = World::new();
    let mut ps = PhysState::new();
    let e = world.create_entity();
    world.insert(e, Component::Hitbox(Hitbox::default()));
    add_hitboxes_to_phys(&mut world, &mut ps);
    world.insert(e, hook("zero"));
    let ground = ps.phys_from_hitbox(&Hitbox::default());
    contact_started(&mut world, &ps, 0, ground.body);
    contact_started(&mut world, &ps, ground.body, 0);
    contact_started(&mut world, &ps, 0, 17);
    assert!(!world.has(e, ComponentKind::ScriptEvent));
}

#[test]
fn an_appearance_is_planned_once_for_a_builder_whose_image_is_known() {
    let images = ImageBundle::new("tree 0 32 64 16 8\nrock 0 1 2 3 4").unwrap();
    let mut world = World::new();
    for _ in 0..4 {
        world.create_entity();
    }
    let mut b = AppearanceBuilder::default();
    b.image_name = String::from("tree");
    b.uv_adjust = Vec2 { x: num(32.0), y: num(0.0) };
    b.size_override = Vec2 { x: num(0.0), y: num(24.0) };
    world.insert(0, Component::AppearanceBuilder(b));
    world.insert(1, builder("cloud", false));
    world.insert(2, builder("rock", true));
    let plan = AppearancePlan {
        base: Rect { x: 32, y: 64, w: 16, h: 8 },
        uv_adjust: Vec2 { x: num(32.0), y: num(0.0) },
        size_override: Vec2 { x: num(0.0), y: num(24.0) },
    };
    assert_eq!(begin_appearance(&mut world, &images, 0), Some(plan));
    assert_eq!(begin_appearance(&mut world, &images, 0), None);
    assert_eq!(begin_appearance(&mut world, &images, 1), None);
    assert_eq!(world.get(1, ComponentKind::AppearanceBuilder), Some(&builder("cloud", true)));
    assert_eq!(begin_appearance(&mut world, &images, 2), None);
    assert_eq!(begin_appearance(&mut world, &images, 3), None);
    assert_eq!(begin_appearance(&mut world, &images, 9), None);
    match world.get(0, ComponentKind::AppearanceBuilder) {
        Some(Component::AppearanceBuilder(b)) => {
            assert!(b.built);
            assert_eq!(b.image_name, "tree");
            assert_eq!(b.uv_adjust, plan.uv_adjust);
        }
        other => panic!("expected a builder, got {:?}", other),
    }
}

#[test]
fn the_camera_takes_its_zoom_from_the_first_focus() {
    let mut world = World::new();
    for _ in 0..3 {
        world.create_entity();
    }
    assert_eq!(find_camera_focus(&world), None);
    let mut near = CameraFocus::default();
    near.zoom = num(2.0);
    let mut far = CameraFocus::default();
    far.zoom = num(0.5);
    world.insert(2, Component::CameraFocus(far));
    assert_eq!(find_camera_focus(&world), Some(far));
    world.insert(1, Component::CameraFocus(near));
    assert_eq!(find_camera_focus(&world), Some(near));
}

#[test]
fn the_schedule_runs_every_stage_once_and_none_before_what_it_depends_on() {
    let order = schedule();
    assert_eq!(order.len(), 11);
    for (i, stage) in order.iter().enumerate() {
        assert_eq!(order.iter().filter(|s| *s == stage).count(), 1);
        if let Some(dependency) = stage.dependency() {
            let at = order.iter().position(|s| *s == dependency).expect("it is scheduled");
            assert!(at < i);
        }
    }
    let at = |stage: Stage| order.iter().position(|s| *s == stage).unwrap();
    assert!(at(Stage::HitboxesToPhys) < at(Stage::ApplyForces));
    assert!(at(Stage::ApplyForces) < at(Stage::PhysicsUpdate));
    for reader in [Stage::LerpCamera, Stage::PlayerInteract, Stage::EditorPlace] {
        assert!(at(Stage::PhysicsUpdate) < at(reader));
    }
    assert!(at(Stage::BuildersToAppears) < at(Stage::Animate));
    assert_eq!(Stage::HitboxesToPhys.name(), "hitboxes to phys");
    assert_eq!(Stage::SaveWorld.name(), "save world to file");
    assert_eq!(Stage::Animate.dependency(), Some(Stage::BuildersToAppears));
    assert_eq!(Stage::BuildersToAppears.dependency(), None);
}

#[test]
fn a_frame_flushes_before_and_behind_the_scripting_phase() {
    let mut world = World::new();
    let e = world.create_entity();
    let mut frame = Frame::new();
    assert!(frame.systems_may_run());
    assert!(!frame.scripts_may_run());
    world.defer(LazyAction::Insert { entity: e, component: event("by a stage", 0) });
    assert_eq!(frame.advance(&mut world), Phase::FirstFlush);
    assert!(world.has(e, ComponentKind::ScriptEvent));
    assert!(!frame.systems_may_run());
    assert_eq!(frame.advance(&mut world), Phase::Scripting);
    assert!(frame.scripts_may_run());
    world.defer(LazyAction::Delete { entity: e });
    assert!(world.is_alive(e));
    assert_eq!(frame.advance(&mut world), Phase::SecondFlush);
    assert!(!world.is_alive(e));
    assert!(!frame.scripts_may_run());
    world.defer(LazyAction::Insert { entity: 0, component: event("late", 0) });
    assert_eq!(frame.advance(&mut world), Phase::Presentation);
    assert_eq!(world.lazy.len(), 1);
    assert_eq!(frame.advance(&mut world), Phase::Systems);
    assert_eq!(world.lazy.len(), 1);
    assert_eq!(frame, Frame::new());
}

#[test]
fn an_order_is_a_schedule_only_if_it_is_whole_and_serves_every_dependency() {
    let order = schedule();
    assert!(is_valid_schedule(&order));
    let mut late_builders = order.clone();
    late_builders.swap(0, 9);
    assert!(!is_valid_schedule(&late_builders));
    let mut early_builders = order.clone();
    let builders = early_builders.remove(9);
    early_builders.insert(0, builders);
    assert!(is_valid_schedule(&early_builders));
    let mut readers_swapped = order.clone();
    readers_swapped.swap(3, 8);
    assert!(is_valid_schedule(&readers_swapped));
    let mut forces_first = order.clone();
    forces_first.swap(0, 1);
    assert!(!is_valid_schedule(&forces_first));
    let mut animate_first = order.clone();
    animate_first.swap(9, 10);
    assert!(!is_valid_schedule(&animate_first));
    let mut short = order.clone();
    short.pop();
    assert!(!is_valid_schedule(&short));
    let mut doubled = order.clone();
    doubled[10] = Stage::SaveWorld;
    assert!(!is_valid_schedule(&doubled));
    let mut long = order.clone();
    long.push(Stage::Animate);
    assert!(!is_valid_schedule(&long));
    assert!(!is_valid_schedule(&vec![]));
}
