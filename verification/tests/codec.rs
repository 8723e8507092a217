use stock_rpg::codec::DeserializationError;
use stock_rpg::component::{all_kinds, Component, ComponentKind};
use stock_rpg::comps::{
    Animation, AppearanceBuilder, ApplyForce, Assemblaged, BoxOutline, CameraFocus,
    EmitCollideEvent, Explodeable, Health, Hitbox, Interactable, MovementControls, Phys,
    ScriptEvent, ScriptingIds,
};
use stock_rpg::json::{Json, Member};
use stock_rpg::scalar::{Scalar, Vec2, Vec3, Vec4};

fn num(x: f32) -> Scalar {
    Scalar::from_bits(x.to_bits())
}

fn samples() -> Vec<Component> {
    vec![
        Component::Assemblaged(Assemblaged { built_from: String::from("melon gib") }),
        Component::Interactable(Interactable {
            script: ScriptEvent { function: String::from("open"), payload: 7 },
        }),
        Component::EmitCollideEvent(EmitCollideEvent {
            script: ScriptEvent { function: String::from("bump"), payload: 0 },
        }),
        Component::ScriptEvent(ScriptEvent { function: String::from("tick"), payload: u32::MAX }),
        Component::ScriptingIds(ScriptingIds {
            ids: vec![String::from("a"), String::from(""), String::from("b c")],
        }),
        Component::AppearanceBuilder(AppearanceBuilder {
            image_name: String::from("melon_gib_1"),
            uv_adjust: Vec2 { x: num(32.0), y: num(-1.5) },
            size_override: Vec2 { x: num(0.0), y: num(64.0) },
            built: true,
        }),
        Component::Animation(Animation { frame_count: -3, fps: num(12.0) }),
        Component::CameraFocus(CameraFocus {
            background_color: Vec4 { x: num(0.1), y: num(0.2), z: num(0.3), w: num(1.0) },
            zoom: num(2.0),
            interpolation_speed: num(0.25),
        }),
        Component::BoxOutline(BoxOutline {
            color: Vec3 { x: num(0.2), y: num(0.5), z: num(0.6) },
            fade: Vec4::splat(num(0.015)),
        }),
        Component::Explodeable(Explodeable::default()),
        Component::MovementControls(MovementControls { speed: num(5.0) }),
        Component::ApplyForce(ApplyForce::default()),
        Component::Hitbox(Hitbox::default()),
        Component::Health(Health { value: num(3.0), max: num(10.0) }),
    ]
}

#[test]
fn deserializing_the_tagged_form_gives_the_component_back() {
    let components = samples();
    assert_eq!(components.len(), 14);
    for c in components {
        let tagged = c.serialize_tagged().expect("a saved type has a tagged form");
        assert_eq!(Component::deserialize_tagged(&tagged), Ok(c));
    }
}

#[test]
fn the_samples_cover_every_saved_type() {
    let kinds: Vec<ComponentKind> = samples().iter().map(|c| c.kind()).collect();
    for kind in all_kinds() {
        assert_eq!(kinds.contains(&kind), kind.is_persistent());
    }
}

#[test]
fn the_tagged_form_is_an_object_with_the_type_name_as_its_only_key() {
    let health = Component::Health(Health { value: num(3.0), max: num(10.0) });
    match health.serialize_tagged() {
        Some(Json::Object(members)) => {
            assert_eq!(members.len(), 1);
            assert_eq!(members[0].key, "Health");
            match &members[0].value {
                Json::Object(fields) => {
                    assert_eq!(fields.len(), 2);
                    assert_eq!(fields[0].key, "value");
                    assert!(matches!(fields[0].value, Json::Float(s) if s == num(3.0)));
                    assert_eq!(fields[1].key, "max");
                    assert!(matches!(fields[1].value, Json::Float(s) if s == num(10.0)));
                }
                _ => panic!("the fields are an object"),
            }
        }
        _ => panic!("the tagged form is an object"),
    }
}

#[test]
fn components_that_are_never_saved_have_no_tagged_form() {
    assert!(Component::Phys(Phys { body: 3 }).serialize_tagged().is_none());
    assert!(Component::prototype(ComponentKind::Appearance).serialize_tagged().is_none());
}

fn tagged(tag: &str, value: Json) -> Json {
    Json::object(vec![Member::new(tag, value)])
}

#[test]
fn an_unknown_tag_is_reported_with_the_tag() {
    let j = tagged("Wings", Json::object(vec![]));
    assert_eq!(
        Component::deserialize_tagged(&j),
        Err(DeserializationError::UnknownTag(String::from("Wings")))
    );
    let j = tagged("Phys", Json::object(vec![Member::new("body", Json::integer(1))]));
    assert_eq!(
        Component::deserialize_tagged(&j),
        Err(DeserializationError::UnknownTag(String::from("Phys")))
    );
}

#[test]
fn a_value_of_another_shape_is_a_schema_mismatch() {
    let j = tagged("Health", Json::object(vec![Member::new("value", Json::scalar(num(1.0)))]));
    assert_eq!(
        Component::deserialize_tagged(&j),
        Err(DeserializationError::SchemaMismatch(ComponentKind::Health))
    );
    let j = tagged(
        "ScriptEvent",
        Json::object(vec![
            Member::new("function", Json::text("f")),
            Member::new("payload", Json::integer(-1)),
        ]),
    );
    assert_eq!(
        Component::deserialize_tagged(&j),
        Err(DeserializationError::SchemaMismatch(ComponentKind::ScriptEvent))
    );
    let j = tagged(
        "ScriptEvent",
        Json::object(vec![
            Member::new("function", Json::text("f")),
            Member::new("payload", Json::integer(4_294_967_296)),
        ]),
    );
    assert_eq!(
        Component::deserialize_tagged(&j),
        Err(DeserializationError::SchemaMismatch(ComponentKind::ScriptEvent))
    );
}

#[test]
fn a_value_that_is_no_single_member_object_is_not_tagged() {
    assert_eq!(Component::deserialize_tagged(&Json::Null), Err(DeserializationError::NotTagged));
    assert_eq!(
        Component::deserialize_tagged(&Json::object(vec![])),
        Err(DeserializationError::NotTagged)
    );
    let two = Json::object(vec![
        Member::new("Health", Json::Null),
        Member::new("Hitbox", Json::Null),
    ]);
    assert_eq!(Component::deserialize_tagged(&two), Err(DeserializationError::NotTagged));
}

#[test]
fn an_integer_literal_with_its_reading_is_taken_for_a_real() {
    let one = Json::Int { value: 1, float: Some(num(1.0)) };
    let scale = Json::list(vec![
        Json::Int { value: 1, float: Some(num(1.0)) },
        Json::Int { value: 1, float: Some(num(1.0)) },
        one,
    ]);
    let j = tagged(
        "Hitbox",
        Json::object(vec![
            Member::new("position", Json::vec3(Vec3::splat(num(0.0)))),
            Member::new("rotation", Json::vec3(Vec3::splat(num(0.0)))),
            Member::new("scale", scale),
            Member::new("density", Json::scalar(num(1.0))),
            Member::new("physics_interaction", Json::Bool(false)),
        ]),
    );
    match Component::deserialize_tagged(&j) {
        Ok(Component::Hitbox(h)) => {
            assert_eq!(h.scale, Vec3::splat(num(1.0)));
            assert!(!h.physics_interaction);
        }
        other => panic!("expected a hitbox, got {:?}", other),
    }
    let bare = Json::list(vec![Json::integer(1), Json::integer(1), Json::integer(1)]);
    assert_eq!(bare.as_vec3(), None);
}

#[test]
fn the_first_member_of_a_name_is_the_one_that_is_read() {
    let j = Json::object(vec![
        Member::new("a", Json::integer(1)),
        Member::new("b", Json::integer(2)),
        Member::new("a", Json::integer(3)),
    ]);
    assert!(matches!(j.get("a"), Some(Json::Int { value: 1, .. })));
    assert!(matches!(j.get("b"), Some(Json::Int { value: 2, .. })));
    assert!(j.get("c").is_none());
    assert!(Json::Null.get("a").is_none());
}
