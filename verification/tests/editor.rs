use stock_rpg::assemblages::{lists, Assemblager};
use stock_rpg::compendium::Compendium;
use stock_rpg::component::{Component, ComponentKind};
use stock_rpg::comps::{
    Assemblaged, BoxOutline, Health, Hitbox, IdsEdit, MovementControls, Phys, ScriptingIds,
};
use stock_rpg::editor::{CopyError, EditError, EditorError, PlaceAction, PushError};
use stock_rpg::local_state::LocalState;
use stock_rpg::phys_state::PhysState;
use stock_rpg::scalar::{Scalar, Vec2, Vec3};
use stock_rpg::systems::add_hitboxes_to_phys;
use stock_rpg::user_input::{Key, UserInput};
use stock_rpg::world::{LazyAction, World};

fn num(x: f32) -> Scalar {
    Scalar::from_bits(x.to_bits())
}

fn health(value: f32) -> Component {
    Component::Health(Health { value: num(value), max: num(10.0) })
}

fn tag(name: &str) -> Component {
    Component::Assemblaged(Assemblaged { built_from: String::from(name) })
}

fn speed(v: f32) -> Component {
    Component::MovementControls(MovementControls { speed: num(v) })
}

fn hitbox_at(x: f32, scale: f32) -> Hitbox {
    let mut h = Hitbox::default();
    h.position = Vec3 { x: num(x), y: num(0.0), z: num(0.0) };
    h.scale = Vec3::splat(num(scale));
    h
}

fn catalog() -> Assemblager {
    let mut a = Assemblager::empty();
    a.insert("tree", vec![Component::Hitbox(hitbox_at(1.0, 0.5)), health(5.0)]);
    a.insert("note", vec![speed(1.0)]);
    a
}

fn settled() -> (Assemblager, World, PhysState) {
    let a = catalog();
    let mut world = World::new();
    let mut ps = PhysState::new();
    a.build("tree", &mut world).unwrap();
    a.build("note", &mut world).unwrap();
    a.build("tree", &mut world).unwrap();
    world.flush();
    add_hitboxes_to_phys(&mut world, &mut ps);
    (a, world, ps)
}

#[test]
fn a_component_is_copied_onto_an_entity_in_place_of_its_own() {
    let (_, mut world, ps) = settled();
    assert_eq!(health(7.0).copy_self_to(&mut world, &ps, 0), Ok(()));
    assert_eq!(world.get(0, ComponentKind::Health), Some(&health(7.0)));
    assert_eq!(speed(2.0).copy_self_to(&mut world, &ps, 0), Ok(()));
    assert_eq!(world.get(0, ComponentKind::MovementControls), Some(&speed(2.0)));
    assert_eq!(world.get(2, ComponentKind::Health), Some(&health(5.0)));
}

#[test]
fn a_copied_hitbox_keeps_the_position_and_rotation_of_the_live_body() {
    let (_, mut world, mut ps) = settled();
    let place = Vec3::splat(num(6.0));
    let turn = Vec3::splat(num(0.5));
    ps.set_position(&Phys { body: 0 }, &place, &turn).unwrap();
    let template = Component::Hitbox(hitbox_at(100.0, 3.0));
    assert_eq!(template.copy_self_to(&mut world, &ps, 0), Ok(()));
    let mut expected = hitbox_at(100.0, 3.0);
    expected.position = place;
    expected.rotation = turn;
    assert_eq!(world.get(0, ComponentKind::Hitbox), Some(&Component::Hitbox(expected)));
}

#[test]
fn copying_fails_onto_a_dead_entity_and_for_a_hitbox_without_live_body() {
    let (_, mut world, ps) = settled();
    let before_lazy = world.lazy.len();
    assert_eq!(health(7.0).copy_self_to(&mut world, &ps, 9), Err(CopyError::DeadEntity));
    let template = Component::Hitbox(hitbox_at(1.0, 1.0));
    assert_eq!(template.copy_self_to(&mut world, &ps, 9), Err(CopyError::DeadEntity));
    assert_eq!(template.copy_self_to(&mut world, &ps, 1), Err(CopyError::MissingPhys));
    world.insert(1, Component::Phys(Phys { body: 77 }));
    assert_eq!(template.copy_self_to(&mut world, &ps, 1), Err(CopyError::MissingPhys));
    assert!(!world.has(1, ComponentKind::Hitbox));
    assert_eq!(world.lazy.len(), before_lazy);
}

#[test]
fn a_push_overwrites_every_instance_of_the_prefab_and_no_other_entity() {
    let (mut a, mut world, mut ps) = settled();
    ps.set_location(&Phys { body: 1 }, &Vec3::splat(num(9.0))).unwrap();
    world.insert(0, health(1.0));
    world.insert(2, speed(3.0));
    a.insert("tree", vec![Component::Hitbox(hitbox_at(50.0, 2.0)), health(8.0)]);
    assert_eq!(a.push_changes("tree", &mut world, &ps), Ok(()));
    assert_eq!(world.get(0, ComponentKind::Health), Some(&health(8.0)));
    assert_eq!(world.get(2, ComponentKind::Health), Some(&health(8.0)));
    assert_eq!(world.get(2, ComponentKind::MovementControls), Some(&speed(3.0)));
    assert_eq!(world.get(1, ComponentKind::MovementControls), Some(&speed(1.0)));
    assert!(!world.has(1, ComponentKind::Health));
    let mut first = hitbox_at(1.0, 2.0);
    first.position = hitbox_at(1.0, 0.5).position;
    assert_eq!(world.get(0, ComponentKind::Hitbox), Some(&Component::Hitbox(first)));
    let mut second = hitbox_at(1.0, 2.0);
    second.position = Vec3::splat(num(9.0));
    assert_eq!(world.get(2, ComponentKind::Hitbox), Some(&Component::Hitbox(second)));
    assert_eq!(world.get(0, ComponentKind::Assemblaged), Some(&tag("tree")));
}

#[test]
fn pushing_twice_is_pushing_once() {
    let (mut a, mut world, ps) = settled();
    world.insert(0, health(1.0));
    a.insert("tree", vec![Component::Hitbox(hitbox_at(50.0, 2.0)), health(8.0), speed(2.0)]);
    assert_eq!(a.push_changes("tree", &mut world, &ps), Ok(()));
    let once: Vec<Vec<Component>> =
        (0..3).map(|e| world.slots[e].components.places.iter().flatten().cloned().collect()).collect();
    assert_eq!(a.push_changes("tree", &mut world, &ps), Ok(()));
    let twice: Vec<Vec<Component>> =
        (0..3).map(|e| world.slots[e].components.places.iter().flatten().cloned().collect()).collect();
    assert_eq!(once, twice);
    assert_eq!(a.push_changes("note", &mut world, &ps), Ok(()));
    let thrice: Vec<Vec<Component>> =
        (0..3).map(|e| world.slots[e].components.places.iter().flatten().cloned().collect()).collect();
    assert_eq!(once, thrice);
}

#[test]
fn a_push_fails_as_a_whole_without_prefab_and_without_live_body() {
    let (mut a, mut world, ps) = settled();
    assert_eq!(a.push_changes("shrub", &mut world, &ps), Err(PushError::PrefabNotFound));
    let bare = world.create_entity();
    world.insert(bare, tag("tree"));
    a.insert("tree", vec![health(8.0), Component::Hitbox(hitbox_at(50.0, 2.0))]);
    assert_eq!(a.push_changes("tree", &mut world, &ps), Err(PushError::MissingPhys));
    assert_eq!(world.get(0, ComponentKind::Health), Some(&health(5.0)));
    assert!(!world.has(0, ComponentKind::Hitbox));
    a.insert("tree", vec![health(8.0)]);
    assert_eq!(a.push_changes("tree", &mut world, &ps), Ok(()));
    assert_eq!(world.get(bare, ComponentKind::Health), Some(&health(8.0)));
}

#[test]
fn entities_are_told_apart_by_the_prefab_they_were_built_from() {
    let (_, mut world, ps) = settled();
    assert!(world.is_built_from(0, "tree"));
    assert!(!world.is_built_from(0, "note"));
    assert!(world.is_built_from(1, "note"));
    assert!(!world.is_built_from(9, "tree"));
    assert_eq!(world.built_from(2).map(|s| s.as_str()), Some("tree"));
    assert_eq!(world.built_from(9), None);
    assert!(world.has_live_body(&ps, 0));
    assert!(!world.has_live_body(&ps, 1));
    assert!(!world.has_live_body(&ps, 9));
    world.apply(LazyAction::Delete { entity: 0 });
    assert!(!world.is_built_from(0, "tree"));
    assert!(lists(&vec![health(1.0), speed(1.0)], ComponentKind::Health));
    assert!(!lists(&vec![health(1.0), speed(1.0)], ComponentKind::Hitbox));
    assert!(!lists(&vec![], ComponentKind::Hitbox));
}

fn outline(c: f32) -> BoxOutline {
    let mut o = BoxOutline::default();
    o.color = Vec3::splat(num(c));
    o
}

#[test]
fn the_first_entity_that_is_chosen_gets_the_first_outline() {
    let (_, mut world, _) = settled();
    let mut c = Compendium::new();
    assert_eq!(c.get_chosen_ent(), None);
    assert!(c.choose_ent(1, &mut world));
    assert_eq!(c.get_chosen_ent(), Some(1));
    let first = Compendium::first_outline();
    assert_eq!(first.color, Vec3 { x: num(0.2), y: num(0.5), z: num(0.6) });
    assert_eq!(first.fade.x, num(0.015));
    assert_eq!(first.fade.y, num(0.075));
    assert_eq!(first.fade.z, num(0.130));
    assert_eq!(first.fade.w, num(0.205));
    assert_eq!(world.get(1, ComponentKind::BoxOutline), Some(&Component::BoxOutline(first)));
}

#[test]
fn the_outline_passes_from_the_entity_chosen_before_to_the_one_chosen_next() {
    let (_, mut world, _) = settled();
    let mut c = Compendium::new();
    assert!(c.choose_ent(0, &mut world));
    world.insert(0, Component::BoxOutline(outline(0.9)));
    assert!(c.choose_ent(2, &mut world));
    assert!(!world.has(0, ComponentKind::BoxOutline));
    assert_eq!(world.get(2, ComponentKind::BoxOutline), Some(&Component::BoxOutline(outline(0.9))));
    assert!(world.is_alive(0));
    assert!(world.lazy.is_empty());
    assert!(c.choose_ent(2, &mut world));
    assert_eq!(world.get(2, ComponentKind::BoxOutline), Some(&Component::BoxOutline(outline(0.9))));
}

#[test]
fn an_entity_that_was_about_to_be_placed_is_deleted_when_another_is_chosen() {
    let (_, mut world, _) = settled();
    let mut c = Compendium::new();
    assert!(c.choose_ent(0, &mut world));
    c.mouselock_chosen_ent = true;
    assert!(c.choose_ent(1, &mut world));
    assert_eq!(world.lazy, vec![LazyAction::Delete { entity: 0 }]);
    assert!(world.has(1, ComponentKind::BoxOutline));
    assert!(c.mouselock_chosen_ent);
    world.flush();
    assert!(!world.is_alive(0));
}

#[test]
fn choosing_a_dead_entity_changes_nothing() {
    let (_, mut world, _) = settled();
    let mut c = Compendium::new();
    assert!(c.choose_ent(0, &mut world));
    assert!(!c.choose_ent(9, &mut world));
    assert_eq!(c.get_chosen_ent(), Some(0));
    assert!(world.has(0, ComponentKind::BoxOutline));
    assert_eq!(c.live_chosen_ent(&world), Some(0));
    world.apply(LazyAction::Delete { entity: 0 });
    assert_eq!(c.live_chosen_ent(&world), None);
    assert_eq!(Compendium::new().live_chosen_ent(&world), None);
}

#[test]
fn letting_go_takes_the_outline_and_the_mouselock() {
    let (_, mut world, _) = settled();
    let mut c = Compendium::new();
    c.unchoose_ent(&mut world);
    assert_eq!(c.get_chosen_ent(), None);
    assert!(c.choose_ent(0, &mut world));
    c.mouselock_chosen_ent = true;
    c.unchoose_ent(&mut world);
    assert_eq!(c.get_chosen_ent(), None);
    assert!(!c.mouselock_chosen_ent);
    assert!(!world.has(0, ComponentKind::BoxOutline));
    assert!(world.is_alive(0));
}

fn frame(keys: Vec<Key>, mouse_pos: Option<Vec2>, mouse_state: Option<bool>) -> LocalState {
    let mut ls = LocalState::new();
    let mut input = UserInput::default();
    input.keys_held = keys;
    input.mouse_pos = mouse_pos;
    input.mouse_state = mouse_state;
    ls.update_from_input(input);
    ls
}

#[test]
fn g_toggles_the_mouselock_while_an_entity_is_chosen() {
    let (_, mut world, _) = settled();
    let mut c = Compendium::new();
    let tap = frame(vec![Key::G], None, None);
    assert_eq!(c.place_controls(&tap, &world), PlaceAction { follow: None, select: false });
    assert!(!c.mouselock_chosen_ent);
    assert!(c.choose_ent(0, &mut world));
    assert_eq!(c.place_controls(&tap, &world), PlaceAction { follow: None, select: false });
    assert!(c.mouselock_chosen_ent);
    assert_eq!(c.place_controls(&tap, &world), PlaceAction { follow: None, select: false });
    assert!(!c.mouselock_chosen_ent);
}

#[test]
fn an_entity_that_follows_the_mouse_is_moved_when_the_cursor_moves_and_placed_by_a_click() {
    let (_, mut world, _) = settled();
    let mut c = Compendium::new();
    assert!(c.choose_ent(0, &mut world));
    c.mouselock_chosen_ent = true;
    let idle = frame(vec![], None, None);
    assert_eq!(c.place_controls(&idle, &world), PlaceAction { follow: None, select: false });
    let moved = frame(vec![], Some(Vec2 { x: num(3.0), y: num(4.0) }), None);
    assert_eq!(c.place_controls(&moved, &world), PlaceAction { follow: Some(0), select: false });
    assert!(c.mouselock_chosen_ent);
    let released = frame(vec![], None, Some(false));
    assert_eq!(c.place_controls(&released, &world), PlaceAction { follow: None, select: false });
    let click = frame(vec![], None, Some(true));
    assert_eq!(c.place_controls(&click, &world), PlaceAction { follow: Some(0), select: true });
    assert!(!c.mouselock_chosen_ent);
    assert_eq!(c.place_controls(&click, &world), PlaceAction { follow: None, select: true });
}

#[test]
fn an_entity_without_link_to_the_physics_world_is_neither_moved_nor_placed() {
    let (_, mut world, _) = settled();
    let mut c = Compendium::new();
    assert!(c.choose_ent(1, &mut world));
    c.mouselock_chosen_ent = true;
    let click = frame(vec![], Some(Vec2 { x: num(3.0), y: num(4.0) }), Some(true));
    assert_eq!(c.place_controls(&click, &world), PlaceAction { follow: None, select: false });
    assert!(c.mouselock_chosen_ent);
    let unlock = frame(vec![Key::G], None, Some(true));
    assert_eq!(c.place_controls(&unlock, &world), PlaceAction { follow: None, select: true });
    assert!(!c.mouselock_chosen_ent);
}

#[test]
fn a_click_chooses_the_entity_that_the_body_under_the_cursor_is_named_after() {
    let (_, mut world, mut ps) = settled();
    let mut c = Compendium::new();
    assert!(c.choose_clicked(&mut world, &ps, 1));
    assert_eq!(c.get_chosen_ent(), Some(2));
    assert!(world.has(2, ComponentKind::BoxOutline));
    assert!(!c.choose_clicked(&mut world, &ps, 5));
    let untagged = ps.phys_from_hitbox(&Hitbox::default());
    assert!(!c.choose_clicked(&mut world, &ps, untagged.body));
    ps.name_as_ent(&untagged, 40).unwrap();
    assert!(!c.choose_clicked(&mut world, &ps, untagged.body));
    assert_eq!(c.get_chosen_ent(), Some(2));
    assert!(c.choose_clicked(&mut world, &ps, 0));
    assert_eq!(c.get_chosen_ent(), Some(0));
    assert!(!world.has(2, ComponentKind::BoxOutline));
}

#[test]
fn the_type_editor_opens_on_a_prefab_and_closes_again() {
    let mut c = Compendium::new();
    c.toggle_editing("tree");
    assert_eq!(c.editing_assemblage.as_deref(), Some("tree"));
    c.toggle_editing("note");
    assert_eq!(c.editing_assemblage, None);
    c.toggle_editing("note");
    assert_eq!(c.editing_assemblage.as_deref(), Some("note"));
}

#[test]
fn a_new_type_is_a_prefab_without_components_under_the_typed_name() {
    let mut a = catalog();
    let mut c = Compendium::new();
    c.wip_type_name = String::from("rock");
    c.new_type(&mut a);
    assert_eq!(a.get("rock"), Some(&vec![]));
    assert_eq!(a.assemblages.len(), 3);
    c.wip_type_name = String::from("tree");
    c.new_type(&mut a);
    assert_eq!(a.get("tree"), Some(&vec![]));
    assert_eq!(a.assemblages.len(), 3);
}

#[test]
fn removing_the_chosen_entity_defers_its_deletion() {
    let (_, mut world, _) = settled();
    let mut c = Compendium::new();
    assert_eq!(c.remove_chosen(&mut world), None);
    assert!(world.lazy.is_empty());
    assert!(c.choose_ent(2, &mut world));
    assert_eq!(c.remove_chosen(&mut world), Some(2));
    assert_eq!(c.get_chosen_ent(), None);
    assert!(world.is_alive(2));
    assert_eq!(world.lazy, vec![LazyAction::Delete { entity: 2 }]);
    world.flush();
    assert!(!world.is_alive(2));
}

#[test]
fn an_entity_is_placed_at_the_offset_of_the_hitbox_of_its_prefab() {
    let (mut a, mut world, _) = settled();
    assert_eq!(a.placement_offset(&world, 0), Ok(hitbox_at(1.0, 0.5).position));
    assert_eq!(a.placement_offset(&world, 1), Err(EditorError::NoHitbox));
    assert_eq!(a.placement_offset(&world, 9), Err(EditorError::NotAssemblaged));
    let bare = world.create_entity();
    assert_eq!(a.placement_offset(&world, bare), Err(EditorError::NotAssemblaged));
    world.insert(bare, tag("shrub"));
    assert_eq!(a.placement_offset(&world, bare), Err(EditorError::PrefabNotFound));
    a.insert(
        "tree",
        vec![
            health(1.0),
            Component::Hitbox(hitbox_at(3.0, 1.0)),
            Component::Hitbox(hitbox_at(4.0, 1.0)),
        ],
    );
    assert_eq!(a.placement_offset(&world, 0), Ok(hitbox_at(3.0, 1.0).position));
}

#[test]
fn a_new_type_is_made_from_an_entity_and_the_entity_is_tagged_with_it() {
    let (mut a, mut world, _) = settled();
    assert_eq!(a.new_type_from_entity(&mut world, 0, "oak"), Ok(()));
    assert_eq!(a.get("oak"), a.get("tree"));
    assert_eq!(world.get(0, ComponentKind::Assemblaged), Some(&tag("oak")));
    assert_eq!(world.get(2, ComponentKind::Assemblaged), Some(&tag("tree")));
    assert_eq!(a.new_type_from_entity(&mut world, 9, "x"), Err(EditorError::NotAssemblaged));
    world.insert(1, tag("shrub"));
    assert_eq!(a.new_type_from_entity(&mut world, 1, "x"), Err(EditorError::PrefabNotFound));
    assert!(!a.contains("x"));
    assert_eq!(world.get(1, ComponentKind::Assemblaged), Some(&tag("shrub")));
}

fn ids(list: &[&str]) -> ScriptingIds {
    ScriptingIds { ids: list.iter().map(|s| String::from(*s)).collect() }
}

#[test]
fn a_text_takes_the_place_of_the_last_id() {
    let mut s = ids(&[]);
    s.edit(IdsEdit::Edited(String::from("door")));
    assert_eq!(s, ids(&["door"]));
    s.edit(IdsEdit::Edited(String::from("gate")));
    assert_eq!(s, ids(&["gate"]));
    s.edit(IdsEdit::New);
    assert_eq!(s, ids(&["gate", "new id"]));
    s.edit(IdsEdit::Edited(String::from("north")));
    assert_eq!(s, ids(&["gate", "north"]));
}

#[test]
fn an_empty_text_removes_a_last_id_of_one_character_only() {
    let mut s = ids(&["gate", "n"]);
    s.edit(IdsEdit::Edited(String::new()));
    assert_eq!(s, ids(&["gate"]));
    s.edit(IdsEdit::Edited(String::new()));
    assert_eq!(s, ids(&["gate"]));
    let mut empty = ids(&[]);
    empty.edit(IdsEdit::Edited(String::new()));
    assert_eq!(empty, ids(&[]));
}

#[test]
fn ids_are_removed_from_the_end_and_picked_to_the_end() {
    let mut s = ids(&["a", "b", "c"]);
    s.edit(IdsEdit::Select(0));
    assert_eq!(s, ids(&["b", "c", "a"]));
    s.edit(IdsEdit::Select(2));
    assert_eq!(s, ids(&["b", "c", "a"]));
    s.edit(IdsEdit::Select(3));
    assert_eq!(s, ids(&["b", "c", "a"]));
    s.edit(IdsEdit::Remove);
    assert_eq!(s, ids(&["b", "c"]));
    s.edit(IdsEdit::Remove);
    s.edit(IdsEdit::Remove);
    s.edit(IdsEdit::Remove);
    assert_eq!(s, ids(&[]));
    s.edit(IdsEdit::Select(0));
    assert_eq!(s, ids(&[]));
}

#[test]
fn placing_builds_an_entity_that_follows_the_mouse_and_replaces_the_one_placed_before() {
    let (a, mut world, _) = settled();
    let mut c = Compendium::new();
    assert_eq!(c.place(&a, &mut world, "tree"), Ok(3));
    assert_eq!(c.get_chosen_ent(), Some(3));
    assert!(c.mouselock_chosen_ent);
    assert_eq!(c.place_assemblage.as_deref(), Some("tree"));
    assert!(world.has(3, ComponentKind::BoxOutline));
    world.flush();
    assert_eq!(world.get(3, ComponentKind::Assemblaged), Some(&tag("tree")));
    assert_eq!(c.place(&a, &mut world, "note"), Ok(4));
    assert_eq!(c.get_chosen_ent(), Some(4));
    assert_eq!(c.place_assemblage.as_deref(), Some("note"));
    world.flush();
    assert!(!world.is_alive(3));
    assert!(world.is_alive(4));
    assert!(world.has(4, ComponentKind::BoxOutline));
    assert_eq!(c.place(&a, &mut world, "shrub"), Err(stock_rpg::assemblages::CatalogError::PrefabNotFound));
    assert_eq!(c.get_chosen_ent(), Some(4));
    assert_eq!(c.place_assemblage.as_deref(), Some("note"));
    assert_eq!(world.entity_count(), 5);
}

#[test]
fn entities_whose_tag_names_no_prefab_are_strays() {
    let (mut a, mut world, _) = settled();
    assert_eq!(a.strays(&world), Vec::<u32>::new());
    world.insert(1, tag("shrub"));
    let bare = world.create_entity();
    assert_eq!(a.strays(&world), vec![1]);
    world.insert(bare, tag("hedge"));
    assert_eq!(a.strays(&world), vec![1, bare]);
    a.insert("shrub", vec![]);
    assert_eq!(a.strays(&world), vec![bare]);
    world.apply(LazyAction::Delete { entity: bare });
    assert_eq!(a.strays(&world), Vec::<u32>::new());
}

#[test]
fn adding_a_component_in_the_editor_changes_the_prefab_and_its_live_instances_at_once() {
    let (mut a, mut world, ps) = settled();
    a.register_component(speed(4.0));
    a.register_component(health(0.0));
    world.insert(1, health(2.0));
    assert_eq!(a.add_component_and_push("tree", "MovementControls", &mut world, &ps), Ok(()));
    let tree = a.get("tree").expect("the tree is in the catalog");
    assert_eq!(tree.len(), 3);
    assert_eq!(tree[0], Component::Hitbox(hitbox_at(1.0, 0.5)));
    assert_eq!(tree[1], health(5.0));
    assert_eq!(tree[2], speed(4.0));
    assert_eq!(a.prototype("MovementControls"), Some(&speed(4.0)));
    for e in [0, 2] {
        assert_eq!(world.get(e, ComponentKind::MovementControls), Some(&speed(4.0)));
        assert_eq!(world.get(e, ComponentKind::Health), Some(&health(5.0)));
        assert!(world.has(e, ComponentKind::Hitbox));
    }
    assert_eq!(world.get(1, ComponentKind::MovementControls), Some(&speed(1.0)));
    assert_eq!(world.get(1, ComponentKind::Health), Some(&health(2.0)));
}

#[test]
fn a_rejected_edit_of_a_prefab_changes_neither_catalog_nor_world() {
    let (mut a, mut world, ps) = settled();
    a.register_component(Component::Hitbox(hitbox_at(9.0, 2.0)));
    a.register_component(health(0.0));
    let before = catalog().assemblages;
    assert_eq!(
        a.add_component_and_push("shrub", "Health", &mut world, &ps),
        Err(EditError::PrefabNotFound)
    );
    assert_eq!(
        a.add_component_and_push("tree", "Wings", &mut world, &ps),
        Err(EditError::ComponentNotFound)
    );
    assert_eq!(
        a.add_component_and_push("tree", "ScriptEvent", &mut world, &ps),
        Err(EditError::ComponentNotFound)
    );
    assert_eq!(
        a.add_component_and_push("tree", "Health", &mut world, &ps),
        Err(EditError::AlreadyPresent)
    );
    assert_eq!(
        a.add_component_and_push("note", "Hitbox", &mut world, &ps),
        Err(EditError::MissingPhys)
    );
    assert_eq!(
        a.remove_component_and_push("shrub", 0, &mut world, &ps),
        Err(EditError::PrefabNotFound)
    );
    assert_eq!(
        a.remove_component_and_push("tree", 2, &mut world, &ps),
        Err(EditError::IndexOutOfRange)
    );
    let bare = world.create_entity();
    world.insert(bare, tag("tree"));
    assert_eq!(
        a.remove_component_and_push("tree", 1, &mut world, &ps),
        Err(EditError::MissingPhys)
    );
    assert_eq!(a.assemblages, before);
    assert!(!world.has(1, ComponentKind::Hitbox));
    assert!(!world.has(bare, ComponentKind::Health));
    assert_eq!(world.get(0, ComponentKind::Health), Some(&health(5.0)));
    assert!(world.lazy.is_empty());
}

#[test]
fn removing_a_component_in_the_editor_pushes_what_is_left() {
    let (mut a, mut world, ps) = settled();
    world.insert(0, health(1.0));
    assert_eq!(
        a.remove_component_and_push("tree", 0, &mut world, &ps),
        Ok(Component::Hitbox(hitbox_at(1.0, 0.5)))
    );
    assert_eq!(a.get("tree"), Some(&vec![health(5.0)]));
    assert_eq!(world.get(0, ComponentKind::Health), Some(&health(5.0)));
    assert_eq!(world.get(2, ComponentKind::Health), Some(&health(5.0)));
    assert_eq!(
        a.remove_component_and_push("tree", 0, &mut world, &ps),
        Ok(health(5.0))
    );
    assert_eq!(a.get("tree"), Some(&vec![]));
    assert_eq!(world.get(0, ComponentKind::Health), Some(&health(5.0)));
}

#[test]
fn the_editor_keeps_what_the_user_typed_and_picked() {
    let (a, mut world, ps) = settled();
    let mut c = Compendium::new();
    c.entity_query = String::from("mel");
    c.wip_type_name = String::from("oak");
    c.component_to_add_index = 3;
    c.editing_assemblage = Some(String::from("tree"));
    assert!(c.choose_ent(0, &mut world));
    assert!(!c.choose_ent(9, &mut world));
    assert!(c.choose_clicked(&mut world, &ps, 1));
    c.place_controls(&frame(vec![Key::G], None, Some(true)), &world);
    assert_eq!(c.place(&a, &mut world, "note"), Ok(3));
    assert_eq!(c.remove_chosen(&mut world), Some(3));
    c.unchoose_ent(&mut world);
    assert_eq!(c.entity_query, "mel");
    assert_eq!(c.wip_type_name, "oak");
    assert_eq!(c.component_to_add_index, 3);
    assert_eq!(c.editing_assemblage.as_deref(), Some("tree"));
    assert_eq!(c.place_assemblage.as_deref(), Some("note"));
    c.toggle_editing("note");
    assert_eq!(c.entity_query, "mel");
    assert_eq!(c.wip_type_name, "oak");
    assert_eq!(c.component_to_add_index, 3);
    assert_eq!(c.place_assemblage.as_deref(), Some("note"));
}
