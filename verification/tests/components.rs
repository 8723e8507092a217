use stock_rpg::component::{kind_from_name, Component, ComponentKind};
use stock_rpg::comps::{
    ApplyForce, Assemblaged, Explodeable, Health, Hitbox, ScriptEvent, ScriptingIds,
    DEFAULT_EXPLOSION_FORCE_BITS, DEFAULT_FORCE_DURATION_BITS,
};
use stock_rpg::scalar::{Scalar, Vec3, HALF_BITS, ONE_BITS, ZERO_BITS};

fn num(x: f32) -> Scalar {
    Scalar::from_bits(x.to_bits())
}

#[test]
fn clone_with_payload_keeps_the_handler_and_sets_the_payload() {
    let event = ScriptEvent { function: String::from("on_touch"), payload: 3 };
    let copy = event.clone_with_payload(41);
    assert_eq!(copy.function, "on_touch");
    assert_eq!(copy.payload, 41);
    assert_eq!(event.payload, 3);
}

#[test]
fn bit_patterns_stand_for_the_reals_they_are_named_after() {
    assert_eq!(f32::from_bits(ZERO_BITS), 0.0);
    assert_eq!(f32::from_bits(HALF_BITS), 0.5);
    assert_eq!(f32::from_bits(ONE_BITS), 1.0);
    assert_eq!(f32::from_bits(DEFAULT_FORCE_DURATION_BITS), 0.15);
    assert_eq!(f32::from_bits(DEFAULT_EXPLOSION_FORCE_BITS), 12.5);
}

#[test]
fn default_hitbox_is_a_unit_cube_at_the_origin_that_collides() {
    let h = Hitbox::default();
    assert_eq!(h.position, Vec3::splat(num(0.0)));
    assert_eq!(h.rotation, Vec3::splat(num(0.0)));
    assert_eq!(h.scale, Vec3::splat(num(0.5)));
    assert_eq!(h.density, num(1.0));
    assert!(h.physics_interaction);
}

#[test]
fn default_force_lasts_fifteen_hundredths_and_does_not_change() {
    let f = ApplyForce::default();
    assert_eq!(f.vec, Vec3::splat(num(0.0)));
    assert_eq!(f.time_elapsed, num(0.0));
    assert_eq!(f.duration, num(0.15));
    assert_eq!(f.decay, num(1.0));
}

#[test]
fn default_explodeable_leaves_seven_chunks_and_deletes_the_entity() {
    let x = Explodeable::default();
    assert!(x.delete_entity);
    assert!(!x.delete_component);
    assert_eq!(x.chunks_count, 7);
    assert_eq!(x.force.vec, Vec3 { x: num(12.5), y: num(0.0), z: num(0.0) });
    assert_eq!(x.force.duration, num(0.15));
}

#[test]
fn every_kind_is_found_again_by_its_name() {
    for kind in stock_rpg::component::all_kinds() {
        assert_eq!(kind_from_name(kind.name()), Some(kind));
        assert_eq!(Component::prototype(kind).kind(), kind);
    }
    assert_eq!(kind_from_name("Hitbox"), Some(ComponentKind::Hitbox));
    assert_eq!(kind_from_name("hitbox"), None);
    assert_eq!(kind_from_name(""), None);
}

#[test]
fn only_phys_and_appearance_are_not_saved() {
    for kind in stock_rpg::component::all_kinds() {
        let expected = kind != ComponentKind::Phys && kind != ComponentKind::Appearance;
        assert_eq!(kind.is_persistent(), expected);
    }
}

#[test]
fn boxed_clone_is_an_equal_and_independent_copy() {
    let first = Component::ScriptingIds(ScriptingIds {
        ids: vec![String::from("door"), String::from("north")],
    });
    let mut copy = first.boxed_clone();
    assert_eq!(copy, first);
    if let Component::ScriptingIds(ids) = &mut copy {
        ids.ids.push(String::from("locked"));
    }
    assert_ne!(copy, first);
    let tag = Component::Assemblaged(Assemblaged { built_from: String::from("tree") });
    assert_eq!(tag.boxed_clone(), tag);
    let health = Component::Health(Health { value: num(3.0), max: num(10.0) });
    assert_eq!(health.clone(), health);
}

#[test]
fn the_prototype_of_a_type_is_its_default_value() {
    assert_eq!(Component::prototype(ComponentKind::Hitbox), Component::Hitbox(Hitbox::default()));
    assert_eq!(
        Component::prototype(ComponentKind::Explodeable),
        Component::Explodeable(Explodeable::default())
    );
    assert_eq!(
        Component::prototype(ComponentKind::ApplyForce),
        Component::ApplyForce(ApplyForce::default())
    );
    assert_eq!(Component::prototype(ComponentKind::Health), Component::Health(Health::default()));
    assert_eq!(
        Component::prototype(ComponentKind::ScriptingIds),
        Component::ScriptingIds(ScriptingIds { ids: vec![] })
    );
    assert_eq!(
        Component::prototype(ComponentKind::ScriptEvent),
        Component::ScriptEvent(ScriptEvent { function: String::new(), payload: 0 })
    );
    assert_eq!(
        Component::prototype(ComponentKind::Assemblaged),
        Component::Assemblaged(Assemblaged { built_from: String::new() })
    );
}
