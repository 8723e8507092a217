use stock_rpg::assemblages::{Assemblager, CatalogError, LoadError};
use stock_rpg::codec::DeserializationError;
use stock_rpg::component::{Component, ComponentKind};
use stock_rpg::comps::{
    AppearanceBuilder, ApplyForce, Assemblaged, Health, Hitbox, MovementControls, Phys,
};
use stock_rpg::json::{Json, Member};
use stock_rpg::scalar::{Scalar, Vec3};
use stock_rpg::world::{LazyAction, World};

fn num(x: f32) -> Scalar {
    Scalar::from_bits(x.to_bits())
}

fn builder(image: &str) -> Component {
    let mut b = AppearanceBuilder::default();
    b.image_name = String::from(image);
    Component::AppearanceBuilder(b)
}

fn health(value: f32) -> Component {
    Component::Health(Health { value: num(value), max: num(10.0) })
}

fn tag(name: &str) -> Component {
    Component::Assemblaged(Assemblaged { built_from: String::from(name) })
}

fn catalog() -> Assemblager {
    let mut a = Assemblager::empty();
    a.insert(
        "melon gib",
        vec![builder("melon_gib_1"), Component::ApplyForce(ApplyForce::default())],
    );
    a.insert("tree", vec![Component::Hitbox(Hitbox::default()), health(5.0), builder("tree")]);
    a.insert("ghost", vec![]);
    a
}

#[test]
fn an_empty_catalog_holds_nothing() {
    let a = Assemblager::empty();
    assert!(a.assemblages.is_empty());
    assert!(a.get("tree").is_none());
    assert!(!a.contains("tree"));
    assert!(a.prototype("Health").is_none());
}

#[test]
fn a_prefab_is_found_by_its_name_with_its_components_in_order() {
    let a = catalog();
    assert_eq!(a.find("melon gib"), Some(0));
    assert_eq!(a.find("tree"), Some(1));
    assert_eq!(a.find("ghost"), Some(2));
    assert_eq!(a.find("Tree"), None);
    let tree = a.get("tree").expect("the tree is in the catalog");
    let kinds: Vec<ComponentKind> = tree.iter().map(|c| c.kind()).collect();
    assert_eq!(
        kinds,
        vec![ComponentKind::Hitbox, ComponentKind::Health, ComponentKind::AppearanceBuilder]
    );
    assert_eq!(a.get("ghost"), Some(&vec![]));
}

#[test]
fn storing_a_prefab_under_a_name_that_is_taken_overwrites_it_in_place() {
    let mut a = catalog();
    a.insert("tree", vec![health(1.0)]);
    assert_eq!(a.assemblages.len(), 3);
    assert_eq!(a.find("tree"), Some(1));
    assert_eq!(a.get("tree"), Some(&vec![health(1.0)]));
    assert_eq!(a.get("melon gib").map(|cs| cs.len()), Some(2));
}

#[test]
fn a_prototype_is_registered_under_the_name_of_its_type() {
    let mut a = Assemblager::empty();
    assert!(a.register_component(Component::Health(Health::default())));
    assert!(a.register_component(Component::Hitbox(Hitbox::default())));
    assert!(!a.register_component(Component::Phys(Phys { body: 0 })));
    assert!(!a.register_component(Component::prototype(ComponentKind::Appearance)));
    assert_eq!(a.prototype("Health"), Some(&Component::Health(Health::default())));
    assert_eq!(a.prototype("Hitbox"), Some(&Component::Hitbox(Hitbox::default())));
    assert!(a.prototype("Phys").is_none());
    assert!(a.prototype("MovementControls").is_none());
    assert!(a.prototype("no such type").is_none());
    assert!(a.register_component(health(9.0)));
    assert_eq!(a.prototype("Health"), Some(&health(9.0)));
}

#[test]
fn a_component_is_added_behind_the_others_as_a_copy_of_its_prototype() {
    let mut a = catalog();
    a.register_component(Component::MovementControls(MovementControls { speed: num(4.0) }));
    a.register_component(Component::Health(Health::default()));
    assert_eq!(a.add_component("tree", "MovementControls"), Ok(()));
    let tree = a.get("tree").expect("the tree is in the catalog");
    assert_eq!(tree.len(), 4);
    assert_eq!(tree[3], Component::MovementControls(MovementControls { speed: num(4.0) }));
    assert_eq!(tree[1], health(5.0));
}

#[test]
fn adding_a_component_fails_without_prefab_without_prototype_and_for_a_type_that_is_listed() {
    let mut a = catalog();
    a.register_component(Component::Health(Health::default()));
    let before = catalog();
    assert_eq!(a.add_component("shrub", "Health"), Err(CatalogError::PrefabNotFound));
    assert_eq!(a.add_component("shrub", "Wings"), Err(CatalogError::PrefabNotFound));
    assert_eq!(a.add_component("tree", "Wings"), Err(CatalogError::ComponentNotFound));
    assert_eq!(a.add_component("tree", "MovementControls"), Err(CatalogError::ComponentNotFound));
    assert_eq!(a.add_component("tree", "Health"), Err(CatalogError::AlreadyPresent));
    assert_eq!(a.assemblages, before.assemblages);
    assert_eq!(a.add_component("ghost", "Health"), Ok(()));
}

#[test]
fn a_component_is_removed_by_its_place() {
    let mut a = catalog();
    assert_eq!(a.remove_component("tree", 1), Ok(health(5.0)));
    let tree = a.get("tree").expect("the tree is in the catalog");
    assert_eq!(tree, &vec![Component::Hitbox(Hitbox::default()), builder("tree")]);
    assert_eq!(a.remove_component("tree", 2), Err(CatalogError::IndexOutOfRange));
    assert_eq!(a.remove_component("ghost", 0), Err(CatalogError::IndexOutOfRange));
    assert_eq!(a.remove_component("shrub", 0), Err(CatalogError::PrefabNotFound));
    assert_eq!(a.get("tree").map(|cs| cs.len()), Some(2));
}

#[test]
fn a_prefab_is_copied_under_another_name() {
    let mut a = catalog();
    assert_eq!(a.copy_assemblage("tree", "oak"), Ok(()));
    assert_eq!(a.get("oak"), a.get("tree"));
    assert_eq!(a.find("oak"), Some(3));
    assert_eq!(a.copy_assemblage("shrub", "oak"), Err(CatalogError::PrefabNotFound));
    assert_eq!(a.copy_assemblage("ghost", "tree"), Ok(()));
    assert_eq!(a.get("tree"), Some(&vec![]));
}

#[test]
fn loading_a_saved_catalog_gives_the_same_prefabs_in_the_same_order() {
    let a = catalog();
    let file = a.catalog_json();
    let loaded = Assemblager::new(&file).expect("a saved catalog can be read");
    assert_eq!(loaded.assemblages, a.assemblages);
    assert_eq!(loaded.get("tree"), a.get("tree"));
    assert!(loaded.prototype("Health").is_none());
    assert_eq!(loaded.catalog_json(), file);
}

#[test]
fn the_catalog_file_maps_each_name_to_the_list_of_tagged_components() {
    let mut a = Assemblager::empty();
    a.insert("sick", vec![health(1.0)]);
    let expected = Json::object(vec![Member::new(
        "sick",
        Json::list(vec![Json::object(vec![Member::new(
            "Health",
            Json::object(vec![
                Member::new("value", Json::scalar(num(1.0))),
                Member::new("max", Json::scalar(num(10.0))),
            ]),
        )])]),
    )]);
    assert_eq!(a.catalog_json(), expected);
}

#[test]
fn a_later_member_of_the_catalog_file_overwrites_an_earlier_one_of_its_name() {
    let file = Json::object(vec![
        Member::new("a", Json::list(vec![health(1.0).serialize_tagged().unwrap()])),
        Member::new("b", Json::list(vec![])),
        Member::new("a", Json::list(vec![health(2.0).serialize_tagged().unwrap()])),
    ]);
    let loaded = Assemblager::new(&file).expect("the file can be read");
    assert_eq!(loaded.assemblages.len(), 2);
    assert_eq!(loaded.find("a"), Some(0));
    assert_eq!(loaded.get("a"), Some(&vec![health(2.0)]));
}

#[test]
fn a_catalog_file_of_another_shape_is_rejected() {
    assert_eq!(Assemblager::new(&Json::list(vec![])), Err(LoadError::Malformed));
    assert_eq!(Assemblager::new(&Json::Null), Err(LoadError::Malformed));
    let file = Json::object(vec![Member::new("a", Json::Bool(true))]);
    assert_eq!(Assemblager::new(&file), Err(LoadError::Malformed));
    let file = Json::object(vec![
        Member::new("a", Json::list(vec![])),
        Member::new(
            "b",
            Json::list(vec![Json::object(vec![Member::new("Wings", Json::Null)])]),
        ),
        Member::new("c", Json::Bool(true)),
    ]);
    assert_eq!(
        Assemblager::new(&file),
        Err(LoadError::Component(DeserializationError::UnknownTag(String::from("Wings"))))
    );
    let file = Json::object(vec![Member::new("a", Json::list(vec![Json::Null]))]);
    assert_eq!(
        Assemblager::new(&file),
        Err(LoadError::Component(DeserializationError::NotTagged))
    );
}

#[test]
fn a_draft_defers_the_components_in_catalog_order_and_the_tag_behind_them() {
    let a = catalog();
    let mut world = World::new();
    let first = world.create_entity();
    let b = a.draft("tree", &mut world).expect("the tree is in the catalog");
    assert_eq!(b.entity, 1);
    assert_eq!(b.build(), 1);
    assert!(world.is_alive(1));
    for kind in stock_rpg::component::all_kinds() {
        assert!(!world.has(1, kind));
    }
    assert_eq!(
        world.lazy,
        vec![
            LazyAction::Insert { entity: 1, component: Component::Hitbox(Hitbox::default()) },
            LazyAction::Insert { entity: 1, component: health(5.0) },
            LazyAction::Insert { entity: 1, component: builder("tree") },
            LazyAction::Insert { entity: 1, component: tag("tree") },
        ]
    );
    world.flush();
    assert_eq!(world.get(1, ComponentKind::Hitbox), Some(&Component::Hitbox(Hitbox::default())));
    assert_eq!(world.get(1, ComponentKind::Health), Some(&health(5.0)));
    assert_eq!(world.get(1, ComponentKind::AppearanceBuilder), Some(&builder("tree")));
    assert_eq!(world.get(1, ComponentKind::Assemblaged), Some(&tag("tree")));
    assert!(!world.has(1, ComponentKind::ApplyForce));
    assert!(!world.has(first, ComponentKind::Assemblaged));
}

#[test]
fn drafting_a_prefab_many_times_in_a_frame_gives_as_many_whole_entities() {
    let a = catalog();
    let mut world = World::new();
    let mut ids = Vec::new();
    for _ in 0..5 {
        ids.push(a.build("tree", &mut world).expect("the tree is in the catalog"));
        ids.push(a.build("melon gib", &mut world).expect("the gib is in the catalog"));
    }
    assert_eq!(ids, (0..10).collect::<Vec<u32>>());
    world.flush();
    for id in ids {
        let from = if id % 2 == 0 { "tree" } else { "melon gib" };
        assert_eq!(world.get(id, ComponentKind::Assemblaged), Some(&tag(from)));
        assert_eq!(world.has(id, ComponentKind::Hitbox), id % 2 == 0);
        assert_eq!(world.has(id, ComponentKind::Health), id % 2 == 0);
        assert_eq!(world.has(id, ComponentKind::ApplyForce), id % 2 == 1);
        assert!(world.has(id, ComponentKind::AppearanceBuilder));
    }
}

#[test]
fn of_two_components_of_a_type_the_later_one_is_attached() {
    let mut a = Assemblager::empty();
    a.insert("odd", vec![health(1.0), tag("other"), health(2.0)]);
    let mut world = World::new();
    let e = a.build("odd", &mut world).expect("the prefab is in the catalog");
    world.flush();
    assert_eq!(world.get(e, ComponentKind::Health), Some(&health(2.0)));
    assert_eq!(world.get(e, ComponentKind::Assemblaged), Some(&tag("odd")));
}

#[test]
fn a_draft_from_a_prefab_that_is_missing_changes_nothing() {
    let a = catalog();
    let mut world = World::new();
    world.create_entity();
    assert_eq!(a.draft("shrub", &mut world), Err(CatalogError::PrefabNotFound));
    assert_eq!(a.build("shrub", &mut world), Err(CatalogError::PrefabNotFound));
    assert_eq!(
        a.build_at("shrub", &mut world, Vec3::splat(num(1.0))),
        Err(CatalogError::PrefabNotFound)
    );
    assert_eq!(world.entity_count(), 1);
    assert!(world.lazy.is_empty());
}

#[test]
fn build_at_fails_for_a_prefab_without_hitbox_and_changes_nothing() {
    let a = catalog();
    let mut world = World::new();
    let place = Vec3::splat(num(1.0));
    assert_eq!(a.build_at("melon gib", &mut world, place), Err(CatalogError::NoHitbox));
    assert_eq!(a.build_at("ghost", &mut world, place), Err(CatalogError::NoHitbox));
    assert_eq!(a.build_at("shrub", &mut world, place), Err(CatalogError::PrefabNotFound));
    assert_eq!(world.entity_count(), 0);
    assert!(world.lazy.is_empty());
    assert_eq!(a.cache(&mut world).build_at("ghost", place), Err(CatalogError::NoHitbox));
    assert_eq!(a.build("ghost", &mut world), Ok(0));
}

#[test]
fn build_at_overwrites_the_position_behind_the_attachment_of_the_hitbox() {
    let a = catalog();
    let mut world = World::new();
    let place = Vec3 { x: num(4.0), y: num(-2.0), z: num(0.5) };
    let e = a.build_at("tree", &mut world, place).expect("the tree is in the catalog");
    assert_eq!(
        world.lazy.last(),
        Some(&LazyAction::SetHitboxPosition { entity: e, position: place })
    );
    assert_eq!(world.lazy.len(), 5);
    world.flush();
    match world.get(e, ComponentKind::Hitbox) {
        Some(Component::Hitbox(h)) => {
            assert_eq!(h.position, place);
            assert_eq!(h.scale, Hitbox::default().scale);
        }
        other => panic!("expected a hitbox, got {:?}", other),
    }
}

#[test]
fn a_spawner_builds_as_the_catalog_does() {
    let a = catalog();
    let mut world = World::new();
    {
        let mut spawner = a.cache(&mut world);
        assert_eq!(spawner.build("tree"), Ok(0));
        assert_eq!(spawner.draft("ghost").map(|b| b.build()), Ok(1));
        assert_eq!(spawner.build_at("tree", Vec3::splat(num(2.0))), Ok(2));
        assert_eq!(spawner.build("shrub"), Err(CatalogError::PrefabNotFound));
    }
    world.flush();
    assert_eq!(world.entity_count(), 3);
    assert_eq!(world.get(1, ComponentKind::Assemblaged), Some(&tag("ghost")));
    match world.get(2, ComponentKind::Hitbox) {
        Some(Component::Hitbox(h)) => assert_eq!(h.position, Vec3::splat(num(2.0))),
        other => panic!("expected a hitbox, got {:?}", other),
    }
}
