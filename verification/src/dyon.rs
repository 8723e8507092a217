use vstd::prelude::*;
use vstd::string::StringExecFns;
use crate::assemblages::{drafted, lists, lists_kind, Assemblager};
use crate::component::{Component, ComponentKind, ComponentView};
use crate::comps::{texts, Health, ScriptEvent, ScriptEventView, ScriptingIds, ScriptingIdsView};
use crate::phys_state::{PhysState, PhysStateView};
use crate::scalar::{Scalar, Vec3};
use crate::systems::phys_of;
use crate::world::{LazyAction, LazyActionView, World, WorldView};

verus! {

/// The text that the scripting pass shows to the user: what scripts logged
/// and the errors that their calls raised.
#[derive(Debug, PartialEq, Eq)]
pub struct DyonConsole(pub String);

impl View for DyonConsole {
    type V = Seq<char>;

    open spec fn view(&self) -> Seq<char> {
        self.0@
    }
}

impl Default for DyonConsole {
    fn default() -> (r: Self)
        ensures
            r@ == Seq::<char>::empty(),
    {
        DyonConsole(String::new())
    }
}

impl DyonConsole {
    /// Adds a line with the message `msg`.
    pub fn log(&mut self, msg: &str)
        ensures
            final(self)@ == old(self)@ + msg@ + "\n"@,
    {
        self.0.append(msg);
        self.0.append("\n");
    }
}

/// The types of the values that pass between the scripting engine and the
/// functions of the host.
#[derive(Clone, Copy, Debug, PartialEq, Eq, Structural)]
pub enum ScriptType {
    Void,
    Number,
    Bool,
    Text,
    Vec4,
    Object,
    Numbers,
}

/// The signature under which a function of the host is registered with the
/// scripting engine.
#[derive(Debug, PartialEq, Eq)]
pub struct HostFunction {
    pub name: String,
    pub arguments: Vec<ScriptType>,
    pub returns: ScriptType,
}

/// The mathematical value of a [`HostFunction`].
pub struct HostFunctionView {
    pub name: Seq<char>,
    pub arguments: Seq<ScriptType>,
    pub returns: ScriptType,
}

impl View for HostFunction {
    type V = HostFunctionView;

    open spec fn view(&self) -> HostFunctionView {
        HostFunctionView {
            name: self.name@,
            arguments: self.arguments@,
            returns: self.returns,
        }
    }
}

/// The host side of the scripting bridge: the functions that scripts can
/// call.
#[derive(Debug, PartialEq, Eq)]
pub struct DyonState {
    pub functions: Vec<HostFunction>,
}

/// The functions of the host, as they are registered with the engine.
pub open spec fn host_functions() -> Seq<HostFunctionView> {
    seq![
        HostFunctionView {
            name: "teleport_entity"@,
            arguments: seq![ScriptType::Number, ScriptType::Vec4],
            returns: ScriptType::Void,
        },
        HostFunctionView {
            name: "get_cache_entity"@,
            arguments: seq![ScriptType::Number],
            returns: ScriptType::Object,
        },
        HostFunctionView { name: "save_caches"@, arguments: seq![], returns: ScriptType::Void },
        HostFunctionView {
            name: "all_with_id"@,
            arguments: seq![ScriptType::Text],
            returns: ScriptType::Numbers,
        },
        HostFunctionView {
            name: "add_id_entity"@,
            arguments: seq![ScriptType::Number, ScriptType::Text],
            returns: ScriptType::Void,
        },
        HostFunctionView {
            name: "has_id_entity"@,
            arguments: seq![ScriptType::Number, ScriptType::Text],
            returns: ScriptType::Bool,
        },
        HostFunctionView {
            name: "delete_entity"@,
            arguments: seq![ScriptType::Number],
            returns: ScriptType::Void,
        },
        HostFunctionView {
            name: "spawn_at_entity"@,
            arguments: seq![ScriptType::Number, ScriptType::Text],
            returns: ScriptType::Number,
        },
        HostFunctionView {
            name: "set_hp_entity"@,
            arguments: seq![ScriptType::Number, ScriptType::Number],
            returns: ScriptType::Void,
        },
        HostFunctionView {
            name: "set_hp_percent_entity"@,
            arguments: seq![ScriptType::Number, ScriptType::Number],
            returns: ScriptType::Void,
        },
        HostFunctionView {
            name: "change_hp_entity"@,
            arguments: seq![ScriptType::Number, ScriptType::Number],
            returns: ScriptType::Void,
        },
        HostFunctionView {
            name: "change_hp_percent_entity"@,
            arguments: seq![ScriptType::Number],
            returns: ScriptType::Void,
        },
        HostFunctionView {
            name: "log"@,
            arguments: seq![ScriptType::Text],
            returns: ScriptType::Void,
        },
    ]
}

impl View for DyonState {
    type V = Seq<HostFunctionView>;

    open spec fn view(&self) -> Seq<HostFunctionView> {
        Seq::new(self.functions@.len(), |i: int| self.functions[i]@)
    }
}

/// The signature of a host function of one argument.
fn host_function_1(name: &str, a: ScriptType, returns: ScriptType) -> (r: HostFunction)
    ensures
        r@ == (HostFunctionView { name: name@, arguments: seq![a], returns }),
{
    let mut arguments: Vec<ScriptType> = Vec::new();
    arguments.push(a);
    assert(arguments@ =~= seq![a]);
    HostFunction { name: String::from_str(name), arguments, returns }
}

/// The signature of a host function of two arguments.
fn host_function_2(name: &str, a: ScriptType, b: ScriptType, returns: ScriptType) -> (r:
    HostFunction)
    ensures
        r@ == (HostFunctionView { name: name@, arguments: seq![a, b], returns }),
{
    let mut arguments: Vec<ScriptType> = Vec::new();
    arguments.push(a);
    arguments.push(b);
    assert(arguments@ =~= seq![a, b]);
    HostFunction { name: String::from_str(name), arguments, returns }
}

impl DyonState {
    /// The bridge with every function of the host registered.
    pub fn new() -> (r: DyonState)
        ensures
            r@ == host_functions(),
    {
        let mut functions: Vec<HostFunction> = Vec::new();
        functions.push(
            host_function_2(
                "teleport_entity",
                ScriptType::Number,
                ScriptType::Vec4,
                ScriptType::Void,
            ),
        );
        functions.push(host_function_1("get_cache_entity", ScriptType::Number, ScriptType::Object));
        functions.push(
            HostFunction {
                name: String::from_str("save_caches"),
                arguments: Vec::new(),
                returns: ScriptType::Void,
            },
        );
        assert(functions[2]@.arguments =~= seq![]);
        functions.push(host_function_1("all_with_id", ScriptType::Text, ScriptType::Numbers));
        functions.push(
            host_function_2("add_id_entity", ScriptType::Number, ScriptType::Text, ScriptType::Void),
        );
        functions.push(
            host_function_2("has_id_entity", ScriptType::Number, ScriptType::Text, ScriptType::Bool),
        );
        functions.push(host_function_1("delete_entity", ScriptType::Number, ScriptType::Void));
        functions.push(
            host_function_2(
                "spawn_at_entity",
                ScriptType::Number,
                ScriptType::Text,
                ScriptType::Number,
            ),
        );
        functions.push(
            host_function_2(
                "set_hp_entity",
                ScriptType::Number,
                ScriptType::Number,
                ScriptType::Void,
            ),
        );
        functions.push(
            host_function_2(
                "set_hp_percent_entity",
                ScriptType::Number,
                ScriptType::Number,
                ScriptType::Void,
            ),
        );
        functions.push(
            host_function_2(
                "change_hp_entity",
                ScriptType::Number,
                ScriptType::Number,
                ScriptType::Void,
            ),
        );
        functions.push(
            host_function_1("change_hp_percent_entity", ScriptType::Number, ScriptType::Void),
        );
        functions.push(host_function_1("log", ScriptType::Text, ScriptType::Void));
        let r = DyonState { functions };
        assert(r@ =~= host_functions());
        r
    }
}

/// The scripting ids of the live entity `entity`.
pub open spec fn ids_of(w: WorldView, entity: u32) -> Option<Seq<Seq<char>>> {
    match w.get(entity, ComponentKind::ScriptingIds) {
        Some(ComponentView::ScriptingIds(ids)) => Some(ids.ids),
        _ => None,
    }
}

/// The health of the live entity `entity`.
pub open spec fn health_of(w: WorldView, entity: u32) -> Option<Health> {
    match w.get(entity, ComponentKind::Health) {
        Some(ComponentView::Health(h)) => Some(h),
        _ => None,
    }
}

/// The ids of the entities among the first `n` that carry the scripting id
/// `id`, in rising order.
pub open spec fn with_id(w: WorldView, id: Seq<char>, n: int) -> Seq<u32>
    decreases n,
{
    if n <= 0 {
        Seq::empty()
    } else if ids_of(w, (n - 1) as u32) matches Some(ids) && ids.contains(id) {
        with_id(w, id, n - 1).push((n - 1) as u32)
    } else {
        with_id(w, id, n - 1)
    }
}

/// Whether the list of strings holds the text `text`.
pub fn contains_text(list: &Vec<String>, text: &str) -> (r: bool)
    ensures
        r == texts(list@).contains(text@),
{
    let wanted = String::from_str(text);
    let mut i: usize = 0;
    while i < list.len()
        invariant
            i <= list.len(),
            wanted@ == text@,
            forall|j: int| 0 <= j < i ==> texts(list@)[j] != text@,
        decreases list.len() - i,
    {
        if list[i] == wanted {
            assert(texts(list@)[i as int] == text@);
            return true;
        }
        i += 1;
    }
    false
}

/// Message of a teleport that names no entity with a live body.
pub open spec fn teleport_error() -> Seq<char> {
    "Teleport requested for non-physical entity."@
}

/// Message of a call that names no entity with scripting ids.
pub open spec fn ids_error() -> Seq<char> {
    "That entity doesn't exist, or doesn't/can't have scripting ids."@
}

/// Message of a deletion that names no live entity.
pub open spec fn delete_error() -> Seq<char> {
    "That entity doesn't exist."@
}

/// Message of a spawn beside an entity without a live body.
pub open spec fn spawn_position_error() -> Seq<char> {
    "can't spawn at an entity which has no position"@
}

/// Message of a spawn from a prefab that the catalog does not hold.
pub open spec fn spawn_prefab_error() -> Seq<char> {
    "can't spawn an assemblage which is not in the catalog"@
}

/// Message of a spawn from a prefab that lists no hitbox, so that the
/// entity would have no place.
pub open spec fn spawn_hitbox_error() -> Seq<char> {
    "can't spawn an assemblage which has no hitbox"@
}

/// Message of a spawn into a world that cannot number another entity.
pub open spec fn spawn_full_error() -> Seq<char> {
    "can't spawn into a world which is full"@
}

/// Message of a call that names no entity with health.
pub open spec fn health_error() -> Seq<char> {
    "Entity does not have health component"@
}

/// Where the live body of the live entity `entity` is.
pub open spec fn position_of(w: WorldView, ps: PhysStateView, entity: u32) -> Option<Vec3> {
    match phys_of(w, entity) {
        Some(phys) => match ps.body(phys.body) {
            Some(b) => Some(b.position),
            None => None,
        },
        None => None,
    }
}

impl World {
    /// The link of the live entity `entity` to the physics world.
    pub fn phys(&self, entity: u32) -> (r: Option<crate::comps::Phys>)
        requires
            self.wf(),
        ensures
            r == phys_of(self@, entity),
    {
        match self.get(entity, ComponentKind::Phys) {
            Some(Component::Phys(phys)) => Some(*phys),
            _ => None,
        }
    }

    /// The scripting ids of the live entity `entity`.
    pub fn scripting_ids(&self, entity: u32) -> (r: Option<&Vec<String>>)
        requires
            self.wf(),
        ensures
            match r {
                Some(ids) => ids_of(self@, entity) == Some(texts(ids@)),
                None => ids_of(self@, entity) is None,
            },
    {
        match self.get(entity, ComponentKind::ScriptingIds) {
            Some(Component::ScriptingIds(ids)) => Some(&ids.ids),
            _ => None,
        }
    }

    /// The health of the live entity `entity`.
    pub fn health(&self, entity: u32) -> (r: Option<Health>)
        requires
            self.wf(),
        ensures
            r == health_of(self@, entity),
    {
        match self.get(entity, ComponentKind::Health) {
            Some(Component::Health(h)) => Some(*h),
            _ => None,
        }
    }
}

/// Host function: moves the body of the entity `ent_id` to `coords` at once
/// and leaves its rotation.
///
/// Fails with [`teleport_error`], and changes nothing, where the entity is
/// not alive or has no live body.
pub fn teleport_entity(world: &World, ps: &mut PhysState, ent_id: u32, coords: Vec3) -> (r: Result<
    (),
    String,
>)
    requires
        world.wf(),
        old(ps).wf(),
    ensures
        final(ps).wf(),
        match r {
            Ok(()) => position_of(world@, old(ps)@, ent_id) is Some && final(ps)@ == old(
                ps,
            )@.with_bodies(
                old(ps)@.bodies.update(
                    phys_of(world@, ent_id)->0.body as int,
                    Some(
                        old(ps)@.body(phys_of(world@, ent_id)->0.body)->0.moved(
                            coords,
                            old(ps)@.body(phys_of(world@, ent_id)->0.body)->0.rotation,
                        ),
                    ),
                ),
            ),
            Err(msg) => msg@ == teleport_error() && position_of(world@, old(ps)@, ent_id) is None
                && final(ps)@ == old(ps)@,
        },
{
    let moved = match world.phys(ent_id) {
        Some(phys) => ps.set_location(&phys, &coords),
        None => Err(crate::phys_state::PhysError::NoSuchBody),
    };
    match moved {
        Ok(()) => Ok(()),
        Err(_) => Err(String::from_str("Teleport requested for non-physical entity.")),
    }
}

/// Host function: the ids of the live entities that carry the scripting id
/// `search_id`, in rising order.
pub fn all_with_id(world: &World, search_id: &str) -> (r: Vec<u32>)
    requires
        world.wf(),
    ensures
        r@ == with_id(world@, search_id@, world@.slots.len() as int),
{
    let count = world.entity_count();
    let mut out: Vec<u32> = Vec::new();
    let mut e: usize = 0;
    while e < count
        invariant
            e <= count,
            count == world@.slots.len(),
            count <= u32::MAX,
            world.wf(),
            out@ == with_id(world@, search_id@, e as int),
        decreases count - e,
    {
        let found = match world.scripting_ids(e as u32) {
            Some(ids) => contains_text(ids, search_id),
            None => false,
        };
        if found {
            out.push(e as u32);
        }
        e += 1;
    }
    out
}

/// Host function: adds `scripting_id` to the scripting ids of the entity
/// `ent_id`, behind those it has.
///
/// Fails with [`ids_error`], and changes nothing, where the entity is not
/// alive or carries no scripting ids.
pub fn add_id_entity(world: &mut World, ent_id: u32, scripting_id: &str) -> (r: Result<(), String>)
    requires
        old(world).wf(),
    ensures
        final(world).wf(),
        match r {
            Ok(()) => ids_of(old(world)@, ent_id) is Some && final(world)@ == old(world)@.apply(
                LazyActionView::Insert {
                    entity: ent_id,
                    component: ComponentView::ScriptingIds(
                        ScriptingIdsView {
                            ids: ids_of(old(world)@, ent_id)->0.push(scripting_id@),
                        },
                    ),
                },
            ),
            Err(msg) => msg@ == ids_error() && ids_of(old(world)@, ent_id) is None && final(world)@ == old(world)@,
        },
{
    let mut ids = match world.scripting_ids(ent_id) {
        Some(ids) => crate::comps::clone_texts(ids),
        None => {
            return Err(
                String::from_str("That entity doesn't exist, or doesn't/can't have scripting ids."),
            );
        },
    };
    let ghost before = texts(ids@);
    ids.push(String::from_str(scripting_id));
    assert(texts(ids@) =~= before.push(scripting_id@));
    world.insert(ent_id, Component::ScriptingIds(ScriptingIds { ids }));
    Ok(())
}

/// Host function: whether the entity `ent_id` is alive and carries the
/// scripting id `scripting_id`.
pub fn has_id_entity(world: &World, ent_id: u32, scripting_id: &str) -> (r: bool)
    requires
        world.wf(),
    ensures
        r == (ids_of(world@, ent_id) matches Some(ids) && ids.contains(scripting_id@)),
{
    match world.scripting_ids(ent_id) {
        Some(ids) => contains_text(ids, scripting_id),
        None => false,
    }
}

/// Host function: deletes the entity `ent_id` and flushes, so that the
/// deletion and everything deferred before it take effect at once.
///
/// Fails with [`delete_error`], and changes nothing, where the entity is not
/// alive.
pub fn delete_entity(world: &mut World, ent_id: u32) -> (r: Result<(), String>)
    requires
        old(world).wf(),
    ensures
        final(world).wf(),
        match r {
            Ok(()) => old(world)@.is_alive(ent_id) && final(world)@ == old(world)@.with_lazy(
                old(world)@.lazy.push(LazyActionView::Delete { entity: ent_id }),
            ).flushed(),
            Err(msg) => msg@ == delete_error() && !old(world)@.is_alive(ent_id) && final(world)@
                == old(world)@,
        },
{
    if !world.is_alive(ent_id) {
        return Err(String::from_str("That entity doesn't exist."));
    }
    world.defer(LazyAction::Delete { entity: ent_id });
    world.flush();
    Ok(())
}

/// Host function: builds an entity from the prefab called `what_to_spawn`
/// at the place of the entity `ent_id`, flushes, and hands out the new
/// entity's id.
///
/// Fails with [`spawn_position_error`] where the entity `ent_id` is not
/// alive or has no live body, else with [`spawn_prefab_error`] where the
/// catalog has no such prefab, else with [`spawn_hitbox_error`] where the
/// prefab lists no hitbox, else with [`spawn_full_error`] where the world
/// cannot number another entity. A failed call changes nothing.
pub fn spawn_at_entity(
    world: &mut World,
    ps: &PhysState,
    assemblager: &Assemblager,
    what_to_spawn: &str,
    ent_id: u32,
) -> (r: Result<u32, String>)
    requires
        old(world).wf(),
        assemblager.wf(),
    ensures
        final(world).wf(),
        match r {
            Ok(id) => {
                let built = drafted(
                    old(world)@,
                    what_to_spawn@,
                    assemblager@.get(what_to_spawn@)->0,
                );
                &&& position_of(old(world)@, ps@, ent_id) is Some
                &&& assemblager@.get(what_to_spawn@) is Some
                &&& lists_kind(assemblager@.get(what_to_spawn@)->0, ComponentKind::Hitbox)
                &&& id == old(world)@.slots.len()
                &&& final(world)@ == built.with_lazy(
                    built.lazy.push(
                        LazyActionView::SetHitboxPosition {
                            entity: id,
                            position: position_of(old(world)@, ps@, ent_id)->0,
                        },
                    ),
                ).flushed()
            },
            Err(msg) => {
                let no_position = position_of(old(world)@, ps@, ent_id) is None;
                let no_prefab = assemblager@.get(what_to_spawn@) is None;
                let no_hitbox = !lists_kind(
                    assemblager@.get(what_to_spawn@)->0,
                    ComponentKind::Hitbox,
                );
                &&& final(world)@ == old(world)@
                &&& msg@ == spawn_position_error() || msg@ == spawn_prefab_error() || msg@
                    == spawn_hitbox_error() || msg@ == spawn_full_error()
                &&& msg@ == spawn_position_error() <==> no_position
                &&& msg@ == spawn_prefab_error() <==> !no_position && no_prefab
                &&& msg@ == spawn_hitbox_error() <==> !no_position && !no_prefab && no_hitbox
                &&& msg@ == spawn_full_error() <==> !no_position && !no_prefab && !no_hitbox
                    && old(world)@.slots.len() >= u32::MAX
            },
        },
{
    proof {
        lemma_spawn_errors_differ();
    }
    let pos = match world.phys(ent_id) {
        Some(phys) => ps.location(&phys),
        None => None,
    };
    let pos = match pos {
        Some(pos) => pos,
        None => {
            return Err(String::from_str("can't spawn at an entity which has no position"));
        },
    };
    match assemblager.get(what_to_spawn) {
        Some(components) => {
            if !lists(components, ComponentKind::Hitbox) {
                return Err(String::from_str("can't spawn an assemblage which has no hitbox"));
            }
        },
        None => {
            return Err(
                String::from_str("can't spawn an assemblage which is not in the catalog"),
            );
        },
    }
    if world.entity_count() >= 0xFFFF_FFFF {
        return Err(String::from_str("can't spawn into a world which is full"));
    }
    match assemblager.build_at(what_to_spawn, world, pos) {
        Ok(id) => {
            world.flush();
            Ok(id)
        },
        Err(_) => {
            assert(false);
            Err(String::new())
        },
    }
}

/// The four messages of a failed spawn are four different texts.
pub proof fn lemma_spawn_errors_differ()
    ensures
        spawn_position_error() != spawn_prefab_error(),
        spawn_position_error() != spawn_hitbox_error(),
        spawn_position_error() != spawn_full_error(),
        spawn_prefab_error() != spawn_hitbox_error(),
        spawn_prefab_error() != spawn_full_error(),
        spawn_hitbox_error() != spawn_full_error(),
{
    reveal_strlit("can't spawn at an entity which has no position");
    reveal_strlit("can't spawn an assemblage which is not in the catalog");
    reveal_strlit("can't spawn an assemblage which has no hitbox");
    reveal_strlit("can't spawn into a world which is full");
    assert(spawn_position_error().len() == 46);
    assert(spawn_prefab_error().len() == 53);
    assert(spawn_hitbox_error().len() == 45);
    assert(spawn_full_error().len() == 38);
}

/// Host function, first half of every change of health: the health of the
/// entity `ent_id`, from which the caller computes the new value.
///
/// Fails with [`health_error`] where the entity is not alive or has no
/// health.
pub fn hp_entity(world: &World, ent_id: u32) -> (r: Result<Health, String>)
    requires
        world.wf(),
    ensures
        match r {
            Ok(h) => health_of(world@, ent_id) == Some(h),
            Err(msg) => msg@ == health_error() && health_of(world@, ent_id) is None,
        },
{
    match world.health(ent_id) {
        Some(h) => Ok(h),
        None => Err(String::from_str("Entity does not have health component")),
    }
}

/// Host function, second half of every change of health: stores `value` as
/// the health of the entity `ent_id` and leaves its maximum.
///
/// Fails with [`health_error`], and changes nothing, where the entity is not
/// alive or has no health.
pub fn store_hp_entity(world: &mut World, ent_id: u32, value: Scalar) -> (r: Result<(), String>)
    requires
        old(world).wf(),
    ensures
        final(world).wf(),
        match r {
            Ok(()) => health_of(old(world)@, ent_id) is Some && final(world)@ == old(
                world,
            )@.apply(
                LazyActionView::Insert {
                    entity: ent_id,
                    component: ComponentView::Health(
                        Health { value, max: health_of(old(world)@, ent_id)->0.max },
                    ),
                },
            ),
            Err(msg) => msg@ == health_error() && health_of(old(world)@, ent_id) is None && final(world)@ == old(world)@,
        },
{
    match world.health(ent_id) {
        Some(h) => {
            world.insert(ent_id, Component::Health(Health { value, max: h.max }));
            Ok(())
        },
        None => Err(String::from_str("Entity does not have health component")),
    }
}

/// A call of a script handler that the scripting pass is to make: the
/// handler's name, the entity that the event waited on, and the event's
/// payload.
#[derive(Debug, PartialEq, Eq)]
pub struct ScriptCall {
    pub function: String,
    pub entity: u32,
    pub payload: u32,
}

/// The mathematical value of a [`ScriptCall`].
pub struct ScriptCallView {
    pub function: Seq<char>,
    pub entity: u32,
    pub payload: u32,
}

impl View for ScriptCall {
    type V = ScriptCallView;

    open spec fn view(&self) -> ScriptCallView {
        ScriptCallView { function: self.function@, entity: self.entity, payload: self.payload }
    }
}

/// The script event that waits on the live entity `entity`.
pub open spec fn event_of(w: WorldView, entity: u32) -> Option<ScriptEventView> {
    match w.get(entity, ComponentKind::ScriptEvent) {
        Some(ComponentView::ScriptEvent(ev)) => Some(ev),
        _ => None,
    }
}

/// The calls for the script events that wait on the first `n` entities, in
/// the order of the entities' ids.
pub open spec fn pending_calls(w: WorldView, n: int) -> Seq<ScriptCallView>
    decreases n,
{
    if n <= 0 {
        Seq::empty()
    } else {
        match event_of(w, (n - 1) as u32) {
            Some(ev) => pending_calls(w, n - 1).push(
                ScriptCallView {
                    function: ev.function,
                    entity: (n - 1) as u32,
                    payload: ev.payload,
                },
            ),
            None => pending_calls(w, n - 1),
        }
    }
}

/// The world with no script event waiting on any live entity.
pub open spec fn drained(w: WorldView) -> WorldView {
    WorldView {
        slots: Seq::new(
            w.slots.len(),
            |e: int|
                if w.slots[e].alive {
                    w.slots[e].remove(ComponentKind::ScriptEvent)
                } else {
                    w.slots[e]
                },
        ),
        lazy: w.lazy,
        removed_phys: w.removed_phys,
    }
}

/// How a call of a script handler ended: the handler's name, and the error
/// that the call raised, if it raised one.
#[derive(Debug, PartialEq, Eq)]
pub struct CallOutcome {
    pub function: String,
    pub error: Option<String>,
}

/// The mathematical value of a [`CallOutcome`].
pub struct CallOutcomeView {
    pub function: Seq<char>,
    pub error: Option<Seq<char>>,
}

impl View for CallOutcome {
    type V = CallOutcomeView;

    open spec fn view(&self) -> CallOutcomeView {
        CallOutcomeView {
            function: self.function@,
            error: match self.error {
                Some(e) => Some(e@),
                None => None,
            },
        }
    }
}

/// What the console shows for one call: nothing where the call raised no
/// error, else the error under the name of the handler.
pub open spec fn outcome_report(outcome: CallOutcomeView) -> Seq<char> {
    match outcome.error {
        Some(e) => " --- ERROR --- \n"@ + "fn "@ + outcome.function + ": \n "@ + e + "\n\n"@,
        None => Seq::empty(),
    }
}

/// What the console shows for the first `n` calls, in order.
pub open spec fn outcomes_report(outcomes: Seq<CallOutcomeView>, n: int) -> Seq<char>
    decreases n,
{
    if n <= 0 {
        Seq::empty()
    } else {
        outcomes_report(outcomes, n - 1) + outcome_report(outcomes[n - 1])
    }
}

/// What the console shows for a scripting pass: the error of reloading the
/// script, if there was one, then the errors of the calls, in order.
pub open spec fn pass_report(load_error: Option<Seq<char>>, outcomes: Seq<CallOutcomeView>) -> Seq<
    char,
> {
    (match load_error {
        Some(e) => " --- SYNTAX ERROR --- \n"@ + e + "\n\n"@,
        None => Seq::empty(),
    }) + outcomes_report(outcomes, outcomes.len() as int)
}

impl DyonState {
    /// Begins the scripting pass: takes every waiting script event off its
    /// entity and hands out the calls to make, in the order of the entities'
    /// ids. The engine makes the calls, each with exclusive access to the
    /// world, and [`DyonState::report`] ends the pass.
    pub fn run(&self, world: &mut World) -> (calls: Vec<ScriptCall>)
        requires
            old(world).wf(),
        ensures
            final(world).wf(),
            final(world)@ == drained(old(world)@),
            Seq::new(calls@.len(), |i: int| calls[i]@) == pending_calls(
                old(world)@,
                old(world)@.slots.len() as int,
            ),
    {
        let count = world.entity_count();
        let mut calls: Vec<ScriptCall> = Vec::new();
        let mut e: usize = 0;
        assert(Seq::new(calls@.len(), |i: int| calls[i]@) =~= pending_calls(old(world)@, 0));
        while e < count
            invariant
                e <= count,
                count == old(world)@.slots.len(),
                count <= u32::MAX,
                world.wf(),
                world@.slots.len() == count,
                world@.lazy == old(world)@.lazy,
                world@.removed_phys == old(world)@.removed_phys,
                forall|k: int| 0 <= k < e ==> world@.slots[k] == drained(old(world)@).slots[k],
                forall|k: int| e <= k < count ==> world@.slots[k] == old(world)@.slots[k],
                Seq::new(calls@.len(), |i: int| calls[i]@) == pending_calls(old(world)@, e as int),
            decreases count - e,
        {
            let call = match world.get(e as u32, ComponentKind::ScriptEvent) {
                Some(Component::ScriptEvent(ev)) => Some(
                    ScriptCall {
                        function: ev.function.clone(),
                        entity: e as u32,
                        payload: ev.payload,
                    },
                ),
                _ => None,
            };
            let ghost before = Seq::new(calls@.len(), |i: int| calls[i]@);
            match call {
                Some(call) => {
                    let ghost c = call@;
                    calls.push(call);
                    assert(Seq::new(calls@.len(), |i: int| calls[i]@) =~= before.push(c));
                },
                None => {},
            }
            let ghost slot = world@.slots[e as int];
            world.remove(e as u32, ComponentKind::ScriptEvent);
            assert(world@.slots[e as int] == drained(old(world)@).slots[e as int]) by {
                if !slot.alive {
                } else {
                }
            }
            e += 1;
        }
        assert(world@.slots =~= drained(old(world)@).slots);
        calls
    }

    /// Ends the scripting pass: adds to the console the error of reloading
    /// the script, if there was one, and the errors of the calls, in order.
    pub fn report(console: &mut DyonConsole, load_error: Option<&str>, outcomes: &Vec<CallOutcome>)
        ensures
            final(console)@ == old(console)@ + pass_report(
                match load_error {
                    Some(e) => Some(e@),
                    None => None,
                },
                Seq::new(outcomes@.len(), |i: int| outcomes[i]@),
            ),
    {
        let ghost views = Seq::new(outcomes@.len(), |i: int| outcomes[i]@);
        let ghost head = match load_error {
            Some(e) => " --- SYNTAX ERROR --- \n"@ + e@ + "\n\n"@,
            None => Seq::<char>::empty(),
        };
        match load_error {
            Some(e) => {
                console.0.append(" --- SYNTAX ERROR --- \n");
                console.0.append(e);
                console.0.append("\n\n");
                assert(console@ =~= old(console)@ + head);
            },
            None => {
                assert(console@ =~= old(console)@ + head);
            },
        }
        let mut i: usize = 0;
        assert(console@ =~= old(console)@ + (head + outcomes_report(views, 0)));
        while i < outcomes.len()
            invariant
                i <= outcomes.len(),
                views == Seq::new(outcomes@.len(), |i: int| outcomes[i]@),
                console@ == old(console)@ + (head + outcomes_report(views, i as int)),
            decreases outcomes.len() - i,
        {
            let ghost before = console@;
            assert(views[i as int] == outcomes[i as int]@);
            match &outcomes[i].error {
                Some(e) => {
                    console.0.append(" --- ERROR --- \n");
                    console.0.append("fn ");
                    console.0.append(outcomes[i].function.as_str());
                    console.0.append(": \n ");
                    console.0.append(e.as_str());
                    console.0.append("\n\n");
                    assert(console@ =~= before + outcome_report(views[i as int]));
                },
                None => {
                    assert(console@ =~= before + outcome_report(views[i as int]));
                },
            }
            assert(console@ =~= old(console)@ + (head + outcomes_report(views, i as int + 1)));
            i += 1;
        }
    }
}

} // verus!
