use stock_rpg::assemblages::Assemblager;
use stock_rpg::component::{Component, ComponentKind};
use stock_rpg::json::{Json, Member};
use stock_rpg::comps::{Hitbox, Phys};
use stock_rpg::editor::{edit_hitbox, CopyError, HitboxEdit};
use stock_rpg::phys_state::{PhysError, PhysState};
use stock_rpg::scalar::{Scalar, Vec3};
use stock_rpg::systems::{add_hitbox_to_phys, add_hitboxes_to_phys, remove_orphaned_bodies};
use stock_rpg::world::{LazyAction, World};

fn num(x: f32) -> Scalar {
    Scalar::from_bits(x.to_bits())
}

fn hitbox(interacts: bool) -> Hitbox {
    Hitbox {
        position: Vec3 { x: num(1.0), y: num(2.0), z: num(3.0) },
        rotation: Vec3 { x: num(0.0), y: num(0.5), z: num(-0.5) },
        scale: Vec3::splat(num(1.0)),
        density: num(2.0),
        physics_interaction: interacts,
    }
}

#[test]
fn the_three_groups_are_set_up_as_the_game_takes_them() {
    let ps = PhysState::new();
    assert!(ps.bodies.is_empty());
    let c = ps.can_collide_group;
    assert!(c.is_member_of(0) && !c.is_member_of(1) && c.is_member_of(2));
    assert!(c.is_group_whitelisted(0) && !c.is_group_whitelisted(1) && c.is_group_whitelisted(2));
    assert!(!c.is_group_blacklisted(0) && c.is_group_blacklisted(1) && !c.is_group_blacklisted(2));
    let d = ps.disabled_group;
    assert!(!d.is_member_of(0) && d.is_member_of(1) && d.is_member_of(2));
    assert!(d.is_group_whitelisted(0) && !d.is_group_whitelisted(1) && d.is_group_whitelisted(2));
    assert!(d.is_group_blacklisted(0) && d.is_group_blacklisted(1) && !d.is_group_blacklisted(2));
    let r = ps.raycast_group;
    assert!(!r.is_member_of(0) && !r.is_member_of(1) && r.is_member_of(2));
    assert!(r.is_group_whitelisted(0) && r.is_group_whitelisted(1) && r.is_group_whitelisted(2));
    assert!(!r.is_group_blacklisted(0) && !r.is_group_blacklisted(1) && !r.is_group_blacklisted(2));
    for g in 3..30 {
        assert!(!c.is_member_of(g) && !d.is_member_of(g) && !r.is_member_of(g));
    }
}

#[test]
fn rays_hit_every_body_and_disabled_bodies_collide_with_none() {
    let ps = PhysState::new();
    assert!(ps.raycast_group.can_interact_with_groups(&ps.disabled_group));
    assert!(ps.raycast_group.can_interact_with_groups(&ps.can_collide_group));
    assert!(!ps.disabled_group.can_interact_with_groups(&ps.can_collide_group));
    assert!(!ps.disabled_group.can_interact_with_groups(&ps.disabled_group));
    assert!(ps.can_collide_group.can_interact_with_groups(&ps.can_collide_group));
}

#[test]
fn a_body_is_built_from_a_hitbox_and_described_by_the_same_hitbox() {
    let mut ps = PhysState::new();
    let solid = ps.phys_from_hitbox(&hitbox(true));
    let ghost = ps.phys_from_hitbox(&hitbox(false));
    assert_eq!(solid, Phys { body: 0 });
    assert_eq!(ghost, Phys { body: 1 });
    assert_eq!(ps.hitbox_from_phys(&solid), Some(hitbox(true)));
    assert_eq!(ps.hitbox_from_phys(&ghost), Some(hitbox(false)));
    assert_eq!(ps.location(&solid), Some(hitbox(true).position));
    assert_eq!(ps.euler_vec(&solid), Some(hitbox(true).rotation));
    assert_eq!(ps.scale(&solid), Some(Vec3::splat(num(1.0))));
    assert_eq!(ps.do_physics_interact(&solid), Some(true));
    assert_eq!(ps.do_physics_interact(&ghost), Some(false));
    assert_eq!(ps.can_interact(&solid, &solid), Some(true));
    assert_eq!(ps.can_interact(&solid, &ghost), Some(false));
    assert_eq!(ps.can_interact(&ghost, &ghost), Some(false));
    let body = ps.rigid_body(&solid).expect("the body was just built");
    assert_eq!(body.name, "");
    assert_eq!(body.user_data, None);
    assert_eq!(body.density, num(2.0));
}

#[test]
fn a_loaded_hitbox_that_does_not_interact_gives_a_disabled_body_with_unit_half_extents() {
    let one = || Json::Int { value: 1, float: Some(num(1.0)) };
    let zero = || Json::Int { value: 0, float: Some(num(0.0)) };
    let instances = Json::list(vec![Json::list(vec![Json::object(vec![Member::new(
        "Hitbox",
        Json::object(vec![
            Member::new("position", Json::list(vec![zero(), zero(), zero()])),
            Member::new("rotation", Json::list(vec![zero(), zero(), zero()])),
            Member::new("scale", Json::list(vec![one(), one(), one()])),
            Member::new("density", Json::scalar(num(1.0))),
            Member::new("physics_interaction", Json::Bool(false)),
        ]),
    )])])]);
    let mut world = World::new();
    let mut ps = PhysState::new();
    assert_eq!(Assemblager::load_save(&mut world, &instances), Ok(()));
    assert_eq!(world.entity_count(), 1);
    let e = 0;
    add_hitboxes_to_phys(&mut world, &mut ps);
    let phys = world.phys(e).expect("the entity got a link");
    let body = ps.rigid_body(&phys).expect("the link leads to a body");
    assert!(!body.groups.is_member_of(0));
    assert!(body.groups.is_member_of(1) && body.groups.is_member_of(2));
    assert!(body.groups.is_group_blacklisted(0) && body.groups.is_group_blacklisted(1));
    assert!(!body.groups.can_interact_with_groups(&ps.can_collide_group));
    assert!(body.groups.can_interact_with_groups(&ps.raycast_group));
    assert_eq!(body.half_extents, Vec3::splat(Scalar::from_bits(1.0f32.to_bits())));
    assert_eq!(body.user_data, Some(e));
    assert_eq!(ps.scale(&phys), Some(Vec3::splat(num(1.0))));
    assert_eq!(ps.do_physics_interact(&phys), Some(false));
}

#[test]
fn a_handle_that_names_no_body_gives_nothing() {
    let mut ps = PhysState::new();
    let missing = Phys { body: 4 };
    assert!(ps.rigid_body(&missing).is_none());
    assert_eq!(ps.location(&missing), None);
    assert_eq!(ps.euler_vec(&missing), None);
    assert_eq!(ps.scale(&missing), None);
    assert_eq!(ps.hitbox_from_phys(&missing), None);
    assert_eq!(ps.do_physics_interact(&missing), None);
    assert_eq!(ps.entity_of(4), None);
    assert_eq!(ps.entity_named(4), None);
    assert_eq!(ps.name_as_ent(&missing, 1), Err(PhysError::NoSuchBody));
    assert_eq!(ps.set_location(&missing, &Vec3::splat(num(1.0))), Err(PhysError::NoSuchBody));
    assert_eq!(
        ps.set_position(&missing, &Vec3::splat(num(1.0)), &Vec3::splat(num(1.0))),
        Err(PhysError::NoSuchBody)
    );
    let solid = ps.phys_from_hitbox(&hitbox(true));
    assert_eq!(ps.can_interact(&solid, &missing), None);
    ps.remove_body(&missing);
    assert_eq!(ps.bodies.len(), 1);
}

#[test]
fn a_tagged_body_is_named_by_the_decimal_numeral_of_its_entity() {
    let mut ps = PhysState::new();
    let phys = ps.phys_from_hitbox(&hitbox(true));
    assert_eq!(ps.name_as_ent(&phys, 17), Ok(()));
    let body = ps.rigid_body(&phys).expect("the body is there");
    assert_eq!(body.name, "17");
    assert_eq!(body.user_data, Some(17));
    assert_eq!(ps.entity_of(0), Some(17));
    assert_eq!(ps.entity_named(0), Some(17));
    assert_eq!(ps.hitbox_from_phys(&phys), Some(hitbox(true)));
    assert_eq!(ps.name_as_ent(&phys, 4_294_967_295), Ok(()));
    assert_eq!(ps.rigid_body(&phys).map(|b| b.name.as_str()), Some("4294967295"));
    assert_eq!(ps.entity_named(0), Some(4_294_967_295));
    assert_eq!(ps.name_as_ent(&phys, 0), Ok(()));
    assert_eq!(ps.rigid_body(&phys).map(|b| b.name.as_str()), Some("0"));
}

#[test]
fn a_name_that_is_no_numeral_names_no_entity() {
    let mut ps = PhysState::new();
    let phys = ps.phys_from_hitbox(&hitbox(true));
    assert_eq!(ps.entity_named(0), None);
    ps.bodies[phys.body].as_mut().unwrap().name = String::from("-3");
    assert_eq!(ps.entity_named(0), None);
    ps.bodies[phys.body].as_mut().unwrap().name = String::from("ground");
    assert_eq!(ps.entity_named(0), None);
    ps.bodies[phys.body].as_mut().unwrap().name = String::from("4294967296");
    assert_eq!(ps.entity_named(0), None);
    ps.bodies[phys.body].as_mut().unwrap().name = String::from(" 12 ");
    assert_eq!(ps.entity_named(0), Some(12));
}

#[test]
fn a_body_is_moved_in_place() {
    let mut ps = PhysState::new();
    let phys = ps.phys_from_hitbox(&hitbox(true));
    let place = Vec3::splat(num(9.0));
    assert_eq!(ps.set_location(&phys, &place), Ok(()));
    assert_eq!(ps.location(&phys), Some(place));
    assert_eq!(ps.euler_vec(&phys), Some(hitbox(true).rotation));
    let turn = Vec3::splat(num(0.25));
    assert_eq!(ps.set_position(&phys, &hitbox(true).position, &turn), Ok(()));
    assert_eq!(ps.location(&phys), Some(hitbox(true).position));
    assert_eq!(ps.euler_vec(&phys), Some(turn));
    assert_eq!(ps.scale(&phys), Some(hitbox(true).scale));
    assert_eq!(ps.bodies.len(), 1);
}

fn world_with_bodies(n: u32) -> (World, PhysState) {
    let mut world = World::new();
    let mut ps = PhysState::new();
    for _ in 0..n {
        let e = world.create_entity();
        world.insert(e, Component::Hitbox(hitbox(true)));
    }
    add_hitboxes_to_phys(&mut world, &mut ps);
    (world, ps)
}

#[test]
fn every_waiting_hitbox_becomes_a_body_that_is_tagged_and_linked() {
    let (world, ps) = world_with_bodies(3);
    for e in 0..3u32 {
        assert!(!world.has(e, ComponentKind::Hitbox));
        let phys = world.phys(e).expect("the entity got a link");
        assert_eq!(phys.body, e as usize);
        assert_eq!(ps.entity_of(phys.body), Some(e));
        assert_eq!(ps.hitbox_from_phys(&phys), Some(hitbox(true)));
    }
    assert_eq!(ps.bodies.len(), 3);
    assert!(world.removed_phys.is_empty());
}

#[test]
fn a_new_hitbox_on_an_entity_with_a_body_replaces_the_body() {
    let (mut world, mut ps) = world_with_bodies(2);
    world.insert(0, Component::Hitbox(hitbox(false)));
    assert!(add_hitbox_to_phys(&mut world, &mut ps, 0));
    assert!(!add_hitbox_to_phys(&mut world, &mut ps, 1));
    assert!(!add_hitbox_to_phys(&mut world, &mut ps, 9));
    assert!(ps.rigid_body(&Phys { body: 0 }).is_none());
    assert_eq!(world.phys(0), Some(Phys { body: 2 }));
    assert_eq!(ps.hitbox_from_phys(&Phys { body: 2 }), Some(hitbox(false)));
    assert_eq!(ps.entity_of(2), Some(0));
    assert_eq!(world.phys(1), Some(Phys { body: 1 }));
    assert!(world.removed_phys.is_empty());
}

#[test]
fn a_body_is_gone_after_the_clean_up_that_follows_the_removal_of_its_link() {
    let (mut world, mut ps) = world_with_bodies(4);
    world.remove(1, ComponentKind::Phys);
    world.defer(LazyAction::Delete { entity: 3 });
    world.flush();
    assert!(ps.rigid_body(&Phys { body: 1 }).is_some());
    remove_orphaned_bodies(&mut world, &mut ps);
    assert!(ps.rigid_body(&Phys { body: 1 }).is_none());
    assert!(ps.rigid_body(&Phys { body: 3 }).is_none());
    assert!(ps.rigid_body(&Phys { body: 0 }).is_some());
    assert!(ps.rigid_body(&Phys { body: 2 }).is_some());
    assert!(world.removed_phys.is_empty());
    let left: Vec<u32> = ps.bodies.iter().flatten().filter_map(|b| b.user_data).collect();
    assert_eq!(left, vec![0, 2]);
    for owner in left {
        let phys = world.phys(owner).expect("the owner of a body links to it");
        assert_eq!(ps.entity_of(phys.body), Some(owner));
    }
    remove_orphaned_bodies(&mut world, &mut ps);
    assert_eq!(ps.bodies.iter().flatten().count(), 2);
}

#[test]
fn bodies_are_removed_by_their_owners() {
    let (_, mut ps) = world_with_bodies(3);
    ps.remove_owned(&vec![2, 0, 7]);
    assert!(ps.bodies[0].is_none());
    assert!(ps.bodies[1].is_some());
    assert!(ps.bodies[2].is_none());
    assert_eq!(ps.bodies.len(), 3);
    let untagged = ps.phys_from_hitbox(&hitbox(true));
    ps.remove_owned(&vec![1]);
    assert!(ps.bodies[1].is_none());
    assert!(ps.rigid_body(&untagged).is_some());
}

#[test]
fn an_edit_that_changes_nothing_does_nothing() {
    let (mut world, mut ps) = world_with_bodies(1);
    assert_eq!(edit_hitbox(&mut world, &mut ps, 0, hitbox(true)), Ok(HitboxEdit::Unchanged));
    assert_eq!(ps.bodies.len(), 1);
    assert_eq!(world.phys(0), Some(Phys { body: 0 }));
}

#[test]
fn an_edit_of_position_or_rotation_moves_the_body_in_place() {
    let (mut world, mut ps) = world_with_bodies(1);
    let mut edited = hitbox(true);
    edited.position = Vec3::splat(num(7.0));
    assert_eq!(edit_hitbox(&mut world, &mut ps, 0, edited), Ok(HitboxEdit::Repositioned));
    assert_eq!(ps.bodies.len(), 1);
    assert_eq!(world.phys(0), Some(Phys { body: 0 }));
    assert_eq!(ps.hitbox_from_phys(&Phys { body: 0 }), Some(edited));
    edited.rotation = Vec3::splat(num(1.0));
    assert_eq!(edit_hitbox(&mut world, &mut ps, 0, edited), Ok(HitboxEdit::Repositioned));
    assert_eq!(ps.hitbox_from_phys(&Phys { body: 0 }), Some(edited));
    assert_eq!(ps.entity_of(0), Some(0));
}

#[test]
fn an_edit_of_scale_or_interaction_rebuilds_the_body() {
    let (mut world, mut ps) = world_with_bodies(2);
    let mut edited = hitbox(true);
    edited.scale = Vec3::splat(num(3.0));
    edited.position = Vec3::splat(num(7.0));
    let link = Phys { body: 2 };
    assert_eq!(edit_hitbox(&mut world, &mut ps, 0, edited), Ok(HitboxEdit::Rebuilt(link)));
    assert!(ps.rigid_body(&Phys { body: 0 }).is_none());
    assert_eq!(world.phys(0), Some(link));
    assert_eq!(ps.hitbox_from_phys(&link), Some(edited));
    assert_eq!(ps.entity_of(2), Some(0));
    assert_eq!(ps.rigid_body(&link).map(|b| b.name.as_str()), Some("0"));
    assert!(world.removed_phys.is_empty());

    edited.physics_interaction = false;
    let link = Phys { body: 3 };
    assert_eq!(edit_hitbox(&mut world, &mut ps, 0, edited), Ok(HitboxEdit::Rebuilt(link)));
    assert_eq!(ps.do_physics_interact(&link), Some(false));
    assert_eq!(world.phys(1), Some(Phys { body: 1 }));
}

#[test]
fn an_edit_of_the_density_alone_moves_the_body_and_keeps_the_density() {
    let (mut world, mut ps) = world_with_bodies(1);
    let mut edited = hitbox(true);
    edited.density = num(5.0);
    assert_eq!(edit_hitbox(&mut world, &mut ps, 0, edited), Ok(HitboxEdit::Repositioned));
    assert_eq!(ps.hitbox_from_phys(&Phys { body: 0 }), Some(hitbox(true)));
}

#[test]
fn an_edit_for_an_entity_without_live_body_fails() {
    let (mut world, mut ps) = world_with_bodies(1);
    let bare = world.create_entity();
    assert_eq!(edit_hitbox(&mut world, &mut ps, bare, hitbox(true)), Err(CopyError::MissingPhys));
    assert_eq!(edit_hitbox(&mut world, &mut ps, 9, hitbox(true)), Err(CopyError::MissingPhys));
    world.insert(bare, Component::Phys(Phys { body: 5 }));
    assert_eq!(edit_hitbox(&mut world, &mut ps, bare, hitbox(true)), Err(CopyError::MissingPhys));
    assert_eq!(ps.bodies.len(), 1);
}
