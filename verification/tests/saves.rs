use stock_rpg::assemblages::{Assemblager, LoadError};
use stock_rpg::codec::DeserializationError;
use stock_rpg::component::{Component, ComponentKind};
use stock_rpg::comps::{
    Appearance, AppearanceBuilder, Assemblaged, Health, Hitbox, Phys, ScriptingIds,
};
use stock_rpg::json::{Json, Member};
use stock_rpg::phys_state::PhysState;
use stock_rpg::saves::instances_of_json;
use stock_rpg::scalar::{Scalar, Vec2, Vec3, Vec4};
use stock_rpg::systems::add_hitboxes_to_phys;
use stock_rpg::world::{LazyAction, World};

fn num(x: f32) -> Scalar {
    Scalar::from_bits(x.to_bits())
}

fn builder(image: &str, built: bool) -> Component {
    let mut b = AppearanceBuilder::default();
    b.image_name = String::from(image);
    b.built = built;
    Component::AppearanceBuilder(b)
}

fn health(value: f32) -> Component {
    Component::Health(Health { value: num(value), max: num(10.0) })
}

fn tag(name: &str) -> Component {
    Component::Assemblaged(Assemblaged { built_from: String::from(name) })
}

fn hitbox_at(x: f32) -> Hitbox {
    let mut h = Hitbox::default();
    h.position = Vec3 { x: num(x), y: num(0.0), z: num(0.0) };
    h
}

fn catalog() -> Assemblager {
    let mut a = Assemblager::empty();
    a.insert(
        "tree",
        vec![Component::Hitbox(hitbox_at(1.0)), health(5.0), builder("tree", false)],
    );
    a.insert("note", vec![Component::ScriptingIds(ScriptingIds { ids: vec![String::from("n")] })]);
    a
}

fn settled_world() -> (World, PhysState) {
    let a = catalog();
    let mut world = World::new();
    let mut ps = PhysState::new();
    a.build("tree", &mut world).unwrap();
    a.build("note", &mut world).unwrap();
    let untagged = world.create_entity();
    world.insert(untagged, health(1.0));
    a.build_at("tree", &mut world, Vec3::splat(num(4.0))).unwrap();
    let dead = a.build("note", &mut world).unwrap();
    world.flush();
    world.apply(LazyAction::Delete { entity: dead });
    add_hitboxes_to_phys(&mut world, &mut ps);
    world.insert(0, builder("tree", true));
    world.insert(
        0,
        Component::Appearance(Appearance { uvs: Vec4::splat(num(0.5)), size: Vec2::zero() }),
    );
    (world, ps)
}

#[test]
fn what_is_saved_of_an_entity_is_the_snapshot_of_its_body_and_its_saved_components() {
    let (mut world, mut ps) = settled_world();
    let moved = Vec3 { x: num(8.0), y: num(9.0), z: num(0.0) };
    ps.set_location(&Phys { body: 0 }, &moved).unwrap();
    let mut snapshot = hitbox_at(1.0);
    snapshot.position = moved;
    assert_eq!(
        world.saved_components(&ps, 0),
        vec![Component::Hitbox(snapshot), tag("tree"), builder("tree", true), health(5.0)]
    );
    assert_eq!(
        world.saved_components(&ps, 1),
        vec![
            tag("note"),
            Component::ScriptingIds(ScriptingIds { ids: vec![String::from("n")] })
        ]
    );
    world.insert(0, Component::Hitbox(hitbox_at(2.0)));
    let saved = world.saved_components(&ps, 0);
    assert_eq!(saved.len(), 5);
    assert_eq!(saved[0], Component::Hitbox(snapshot));
    assert_eq!(saved[3], Component::Hitbox(hitbox_at(2.0)));
    assert_eq!(saved[4], health(5.0));
}

#[test]
fn only_live_entities_that_are_tagged_are_saved() {
    let (world, ps) = settled_world();
    assert!(world.is_saved(0));
    assert!(world.is_saved(1));
    assert!(!world.is_saved(2));
    assert!(world.is_saved(3));
    assert!(!world.is_saved(4));
    assert!(!world.is_saved(5));
    let (_, instances) = catalog().save_json(&world, &ps);
    match &instances {
        Json::List(entities) => {
            assert_eq!(entities.len(), 3);
            assert_eq!(entities[0], Assemblager::get_json(&world, &ps, 0));
            assert_eq!(entities[1], Assemblager::get_json(&world, &ps, 1));
            assert_eq!(entities[2], Assemblager::get_json(&world, &ps, 3));
        }
        other => panic!("expected a list, got {:?}", other),
    }
}

#[test]
fn the_instance_file_lists_the_tagged_components_of_each_entity() {
    let mut world = World::new();
    let ps = PhysState::new();
    let e = world.create_entity();
    world.insert(e, tag("sick"));
    world.insert(e, health(1.0));
    let (types, instances) = Assemblager::empty().save_json(&world, &ps);
    assert_eq!(types, Json::object(vec![]));
    let expected = Json::list(vec![Json::list(vec![
        Json::object(vec![Member::new(
            "Assemblaged",
            Json::object(vec![Member::new("built_from", Json::text("sick"))]),
        )]),
        Json::object(vec![Member::new(
            "Health",
            Json::object(vec![
                Member::new("value", Json::scalar(num(1.0))),
                Member::new("max", Json::scalar(num(10.0))),
            ]),
        )]),
    ])]);
    assert_eq!(instances, expected);
}

#[test]
fn saving_clearing_and_loading_gives_the_saved_entities_back() {
    let (world, mut ps) = settled_world();
    let moved = Vec3 { x: num(8.0), y: num(9.0), z: num(0.0) };
    ps.set_location(&Phys { body: 0 }, &moved).unwrap();
    let (types, instances) = catalog().save_json(&world, &ps);
    assert_eq!(Assemblager::new(&types).map(|a| a.assemblages), Ok(catalog().assemblages));

    let mut fresh = World::new();
    assert_eq!(Assemblager::load_save(&mut fresh, &instances), Ok(()));
    assert_eq!(fresh.entity_count(), 3);
    assert!(fresh.lazy.is_empty());
    for e in 0..3 {
        assert!(fresh.is_alive(e));
        assert!(!fresh.has(e, ComponentKind::Phys));
        assert!(!fresh.has(e, ComponentKind::Appearance));
    }
    let mut snapshot = hitbox_at(1.0);
    snapshot.position = moved;
    assert_eq!(fresh.get(0, ComponentKind::Hitbox), Some(&Component::Hitbox(snapshot)));
    assert_eq!(fresh.get(0, ComponentKind::Health), Some(&health(5.0)));
    assert_eq!(fresh.get(0, ComponentKind::Assemblaged), Some(&tag("tree")));
    assert_eq!(fresh.get(0, ComponentKind::AppearanceBuilder), Some(&builder("tree", false)));
    assert_eq!(fresh.get(1, ComponentKind::Assemblaged), Some(&tag("note")));
    assert_eq!(
        fresh.get(1, ComponentKind::ScriptingIds),
        Some(&Component::ScriptingIds(ScriptingIds { ids: vec![String::from("n")] }))
    );
    assert!(!fresh.has(1, ComponentKind::Hitbox));
    let mut placed = hitbox_at(1.0);
    placed.position = Vec3::splat(num(4.0));
    assert_eq!(fresh.get(2, ComponentKind::Hitbox), Some(&Component::Hitbox(placed)));
    assert_eq!(fresh.get(2, ComponentKind::AppearanceBuilder), Some(&builder("tree", false)));

    let mut again = PhysState::new();
    add_hitboxes_to_phys(&mut fresh, &mut again);
    let (_, second) = catalog().save_json(&fresh, &again);
    assert_eq!(second, {
        let mut expected = World::new();
        Assemblager::load_save(&mut expected, &instances).unwrap();
        let mut bodies = PhysState::new();
        add_hitboxes_to_phys(&mut expected, &mut bodies);
        catalog().save_json(&expected, &bodies).1
    });
}

#[test]
fn loading_marks_every_appearance_builder_as_not_yet_built_and_flushes() {
    let mut world = World::new();
    let old = world.create_entity();
    world.insert(old, builder("old", true));
    world.defer(LazyAction::Insert { entity: old, component: health(2.0) });
    let file = Json::list(vec![Json::list(vec![
        builder("new", true).serialize_tagged().unwrap(),
        health(1.0).serialize_tagged().unwrap(),
        health(3.0).serialize_tagged().unwrap(),
    ])]);
    assert_eq!(Assemblager::load_save(&mut world, &file), Ok(()));
    assert_eq!(world.entity_count(), 2);
    assert_eq!(world.get(old, ComponentKind::AppearanceBuilder), Some(&builder("old", false)));
    assert_eq!(world.get(old, ComponentKind::Health), Some(&health(2.0)));
    assert_eq!(world.get(1, ComponentKind::AppearanceBuilder), Some(&builder("new", false)));
    assert_eq!(world.get(1, ComponentKind::Health), Some(&health(3.0)));
    assert!(world.lazy.is_empty());
}

#[test]
fn an_instance_file_that_cannot_be_read_leaves_the_world_as_it_is() {
    let mut world = World::new();
    let e = world.create_entity();
    world.insert(e, builder("old", true));
    world.defer(LazyAction::Insert { entity: e, component: health(2.0) });
    let good = Json::list(vec![health(1.0).serialize_tagged().unwrap()]);
    let cases = vec![
        (Json::Null, LoadError::Malformed),
        (Json::object(vec![]), LoadError::Malformed),
        (Json::list(vec![Json::list(vec![]), Json::Bool(true)]), LoadError::Malformed),
        (
            Json::list(vec![
                Json::list(vec![]),
                Json::list(vec![Json::object(vec![Member::new("Wings", Json::Null)])]),
                Json::Null,
            ]),
            LoadError::Component(DeserializationError::UnknownTag(String::from("Wings"))),
        ),
        (
            Json::list(vec![
                good,
                Json::list(vec![Json::object(vec![Member::new("Health", Json::Null)])]),
            ]),
            LoadError::Component(DeserializationError::SchemaMismatch(ComponentKind::Health)),
        ),
    ];
    for (file, error) in cases {
        assert_eq!(instances_of_json(&file), Err(match &error {
            LoadError::Malformed => LoadError::Malformed,
            LoadError::Component(d) => LoadError::Component(match d {
                DeserializationError::UnknownTag(t) => DeserializationError::UnknownTag(t.clone()),
                DeserializationError::SchemaMismatch(k) => {
                    DeserializationError::SchemaMismatch(*k)
                }
                DeserializationError::NotTagged => DeserializationError::NotTagged,
            }),
            LoadError::WorldFull => LoadError::WorldFull,
        }));
        assert_eq!(Assemblager::load_save(&mut world, &file), Err(error));
        assert_eq!(world.entity_count(), 1);
        assert_eq!(world.lazy.len(), 1);
        assert_eq!(world.get(e, ComponentKind::AppearanceBuilder), Some(&builder("old", true)));
    }
}

#[test]
fn an_empty_instance_file_loads_no_entity() {
    let mut world = World::new();
    assert_eq!(Assemblager::load_save(&mut world, &Json::list(vec![])), Ok(()));
    assert_eq!(world.entity_count(), 0);
    assert_eq!(instances_of_json(&Json::list(vec![Json::list(vec![])])), Ok(vec![vec![]]));
    assert_eq!(Assemblager::load_save(&mut world, &Json::list(vec![Json::list(vec![])])), Ok(()));
    assert_eq!(world.entity_count(), 1);
    assert!(world.is_alive(0));
}
