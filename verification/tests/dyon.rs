use stock_rpg::assemblages::Assemblager;
use stock_rpg::component::{Component, ComponentKind};
use stock_rpg::comps::{Assemblaged, Health, Hitbox, Phys, ScriptEvent, ScriptingIds};
use stock_rpg::dyon::{
    add_id_entity, all_with_id, delete_entity, has_id_entity, hp_entity, spawn_at_entity,
    store_hp_entity, teleport_entity, CallOutcome, DyonConsole, DyonState, ScriptCall, ScriptType,
};
use stock_rpg::phys_state::PhysState;
use stock_rpg::scalar::{Scalar, Vec3};
use stock_rpg::systems::add_hitboxes_to_phys;
use stock_rpg::world::{LazyAction, World};

fn num(x: f32) -> Scalar {
    Scalar::from_bits(x.to_bits())
}

fn ids(list: &[&str]) -> Component {
    Component::ScriptingIds(ScriptingIds { ids: list.iter().map(|s| String::from(*s)).collect() })
}

fn event(function: &str, payload: u32) -> Component {
    Component::ScriptEvent(ScriptEvent { function: String::from(function), payload })
}

fn settled() -> (Assemblager, World, PhysState) {
    let mut a = Assemblager::empty();
    a.insert(
        "tree",
        vec![
            Component::Hitbox(Hitbox::default()),
            Component::Health(Health { value: num(5.0), max: num(10.0) }),
        ],
    );
    a.insert("note", vec![ids(&["n", "shared"])]);
    let mut world = World::new();
    let mut ps = PhysState::new();
    a.build("tree", &mut world).unwrap();
    a.build("note", &mut world).unwrap();
    world.flush();
    add_hitboxes_to_phys(&mut world, &mut ps);
    (a, world, ps)
}

#[test]
fn the_console_collects_lines() {
    let mut console = DyonConsole::default();
    assert_eq!(console.0, "");
    console.log("hello");
    console.log("");
    console.log("two words");
    assert_eq!(console.0, "hello\n\ntwo words\n");
}

#[test]
fn the_host_registers_thirteen_functions() {
    let state = DyonState::new();
    let names: Vec<&str> = state.functions.iter().map(|f| f.name.as_str()).collect();
    assert_eq!(
        names,
        vec![
            "teleport_entity",
            "get_cache_entity",
            "save_caches",
            "all_with_id",
            "add_id_entity",
            "has_id_entity",
            "delete_entity",
            "spawn_at_entity",
            "set_hp_entity",
            "set_hp_percent_entity",
            "change_hp_entity",
            "change_hp_percent_entity",
            "log",
        ]
    );
    assert_eq!(state.functions[0].arguments, vec![ScriptType::Number, ScriptType::Vec4]);
    assert_eq!(state.functions[0].returns, ScriptType::Void);
    assert_eq!(state.functions[2].arguments, vec![]);
    assert_eq!(state.functions[3].arguments, vec![ScriptType::Text]);
    assert_eq!(state.functions[3].returns, ScriptType::Numbers);
    assert_eq!(state.functions[5].returns, ScriptType::Bool);
    assert_eq!(state.functions[7].arguments, vec![ScriptType::Number, ScriptType::Text]);
    assert_eq!(state.functions[7].returns, ScriptType::Number);
    assert_eq!(state.functions[11].arguments, vec![ScriptType::Number]);
    assert_eq!(state.functions[12].arguments, vec![ScriptType::Text]);
    assert_eq!(state, DyonState::new());
}

#[test]
fn a_teleport_moves_the_body_and_leaves_its_rotation() {
    let (_, world, mut ps) = settled();
    let place = Vec3 { x: num(1.0), y: num(2.0), z: num(3.0) };
    assert_eq!(teleport_entity(&world, &mut ps, 0, place), Ok(()));
    assert_eq!(ps.location(&Phys { body: 0 }), Some(place));
    assert_eq!(ps.euler_vec(&Phys { body: 0 }), Some(Hitbox::default().rotation));
}

#[test]
fn a_teleport_of_an_entity_without_live_body_is_an_error() {
    let (_, mut world, mut ps) = settled();
    let message = String::from("Teleport requested for non-physical entity.");
    let place = Vec3::splat(num(1.0));
    assert_eq!(teleport_entity(&world, &mut ps, 1, place), Err(message.clone()));
    assert_eq!(teleport_entity(&world, &mut ps, 9, place), Err(message.clone()));
    world.insert(1, Component::Phys(Phys { body: 4 }));
    assert_eq!(teleport_entity(&world, &mut ps, 1, place), Err(message));
    assert_eq!(ps.location(&Phys { body: 0 }), Some(Hitbox::default().position));
}

#[test]
fn entities_are_found_by_their_scripting_ids() {
    let (a, mut world, _) = settled();
    a.build("note", &mut world).unwrap();
    a.build("note", &mut world).unwrap();
    world.flush();
    world.insert(2, ids(&["other"]));
    assert_eq!(all_with_id(&world, "shared"), vec![1, 3]);
    assert_eq!(all_with_id(&world, "other"), vec![2]);
    assert_eq!(all_with_id(&world, "none"), Vec::<u32>::new());
    assert_eq!(all_with_id(&world, ""), Vec::<u32>::new());
    world.apply(LazyAction::Delete { entity: 1 });
    assert_eq!(all_with_id(&world, "shared"), vec![3]);
    assert!(has_id_entity(&world, 3, "shared"));
    assert!(has_id_entity(&world, 3, "n"));
    assert!(!has_id_entity(&world, 3, "share"));
    assert!(!has_id_entity(&world, 1, "shared"));
    assert!(!has_id_entity(&world, 0, "shared"));
    assert!(!has_id_entity(&world, 9, "shared"));
}

#[test]
fn a_scripting_id_is_added_behind_the_others() {
    let (_, mut world, _) = settled();
    assert_eq!(add_id_entity(&mut world, 1, "late"), Ok(()));
    assert_eq!(add_id_entity(&mut world, 1, "n"), Ok(()));
    assert_eq!(world.get(1, ComponentKind::ScriptingIds), Some(&ids(&["n", "shared", "late", "n"])));
    let message =
        String::from("That entity doesn't exist, or doesn't/can't have scripting ids.");
    assert_eq!(add_id_entity(&mut world, 0, "x"), Err(message.clone()));
    assert_eq!(add_id_entity(&mut world, 9, "x"), Err(message));
    assert!(!world.has(0, ComponentKind::ScriptingIds));
}

#[test]
fn a_deletion_by_a_script_takes_effect_at_once() {
    let (_, mut world, _) = settled();
    world.defer(LazyAction::Insert { entity: 1, component: event("waiting", 0) });
    assert_eq!(delete_entity(&mut world, 0), Ok(()));
    assert!(!world.is_alive(0));
    assert!(world.lazy.is_empty());
    assert!(world.has(1, ComponentKind::ScriptEvent));
    assert_eq!(world.removed_phys, vec![0]);
    let message = String::from("That entity doesn't exist.");
    assert_eq!(delete_entity(&mut world, 0), Err(message.clone()));
    assert_eq!(delete_entity(&mut world, 9), Err(message));
}

#[test]
fn a_spawn_builds_the_prefab_at_the_place_of_the_entity() {
    let (a, mut world, mut ps) = settled();
    let place = Vec3 { x: num(1.0), y: num(2.0), z: num(3.0) };
    ps.set_location(&Phys { body: 0 }, &place).unwrap();
    assert_eq!(spawn_at_entity(&mut world, &ps, &a, "tree", 0), Ok(2));
    assert!(world.lazy.is_empty());
    assert_eq!(
        world.get(2, ComponentKind::Assemblaged),
        Some(&Component::Assemblaged(Assemblaged { built_from: String::from("tree") }))
    );
    match world.get(2, ComponentKind::Hitbox) {
        Some(Component::Hitbox(h)) => assert_eq!(h.position, place),
        other => panic!("expected a hitbox, got {:?}", other),
    }
    let hitbox = String::from("can't spawn an assemblage which has no hitbox");
    assert_eq!(spawn_at_entity(&mut world, &ps, &a, "note", 0), Err(hitbox));
    assert_eq!(world.entity_count(), 3);
    assert!(world.lazy.is_empty());
}

#[test]
fn a_spawn_fails_without_position_and_without_prefab() {
    let (a, mut world, ps) = settled();
    let position = String::from("can't spawn at an entity which has no position");
    let prefab = String::from("can't spawn an assemblage which is not in the catalog");
    assert_eq!(spawn_at_entity(&mut world, &ps, &a, "tree", 1), Err(position.clone()));
    assert_eq!(spawn_at_entity(&mut world, &ps, &a, "shrub", 1), Err(position.clone()));
    assert_eq!(spawn_at_entity(&mut world, &ps, &a, "tree", 9), Err(position.clone()));
    assert_eq!(spawn_at_entity(&mut world, &ps, &a, "shrub", 0), Err(prefab));
    let hitbox = String::from("can't spawn an assemblage which has no hitbox");
    assert_eq!(spawn_at_entity(&mut world, &ps, &a, "note", 1), Err(position.clone()));
    assert_eq!(spawn_at_entity(&mut world, &ps, &a, "note", 0), Err(hitbox));
    assert_eq!(world.entity_count(), 2);
    assert!(world.lazy.is_empty());
}

#[test]
fn health_is_read_and_stored_by_entity() {
    let (_, mut world, _) = settled();
    assert_eq!(hp_entity(&world, 0), Ok(Health { value: num(5.0), max: num(10.0) }));
    assert_eq!(store_hp_entity(&mut world, 0, num(7.5)), Ok(()));
    assert_eq!(hp_entity(&world, 0), Ok(Health { value: num(7.5), max: num(10.0) }));
    let message = String::from("Entity does not have health component");
    assert_eq!(hp_entity(&world, 1), Err(message.clone()));
    assert_eq!(hp_entity(&world, 9), Err(message.clone()));
    assert_eq!(store_hp_entity(&mut world, 1, num(1.0)), Err(message.clone()));
    assert_eq!(store_hp_entity(&mut world, 9, num(1.0)), Err(message));
    assert!(!world.has(1, ComponentKind::Health));
}

#[test]
fn the_pass_takes_every_waiting_event_off_its_entity() {
    let (_, mut world, _) = settled();
    world.create_entity();
    world.insert(2, event("third", 30));
    world.insert(0, event("first", 10));
    let state = DyonState::new();
    let calls = state.run(&mut world);
    assert_eq!(
        calls,
        vec![
            ScriptCall { function: String::from("first"), entity: 0, payload: 10 },
            ScriptCall { function: String::from("third"), entity: 2, payload: 30 },
        ]
    );
    for e in 0..3 {
        assert!(!world.has(e, ComponentKind::ScriptEvent));
    }
    assert!(world.has(0, ComponentKind::Health));
    assert!(world.has(1, ComponentKind::ScriptingIds));
    assert_eq!(state.run(&mut world), vec![]);
}

#[test]
fn the_report_adds_the_errors_of_the_pass_to_the_console() {
    let mut console = DyonConsole::default();
    console.log("before");
    let outcomes = vec![
        CallOutcome { function: String::from("open"), error: None },
        CallOutcome { function: String::from("bump"), error: Some(String::from("no such fn")) },
        CallOutcome { function: String::from("tick"), error: Some(String::new()) },
    ];
    DyonState::report(&mut console, Some("line 3"), &outcomes);
    assert_eq!(
        console.0,
        "before\n --- SYNTAX ERROR --- \nline 3\n\n --- ERROR --- \nfn bump: \n no such fn\n\n --- ERROR --- \nfn tick: \n \n\n"
    );
    let mut quiet = DyonConsole::default();
    DyonState::report(&mut quiet, None, &vec![]);
    assert_eq!(quiet.0, "");
    DyonState::report(&mut quiet, None, &outcomes[..1].iter().map(|o| CallOutcome {
        function: o.function.clone(),
        error: o.error.clone(),
    }).collect());
    assert_eq!(quiet.0, "");
    DyonState::report(&mut quiet, Some(""), &vec![]);
    assert_eq!(quiet.0, " --- SYNTAX ERROR --- \n\n\n");
}
