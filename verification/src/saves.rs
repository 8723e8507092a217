use vstd::prelude::*;
use crate::assemblages::{
    all_persistent, components_from_json, components_json, components_of_json,
    components_to_json, lemma_components_roundtrip, Assemblager, LoadError, LoadErrorView,
};
use crate::component::{
    all_kinds, all_kinds_spec, kind_index, kind_is_persistent, lemma_all_kinds_complete, views,
    Component, ComponentKind, ComponentView, KIND_COUNT,
};
use crate::comps::{AppearanceBuilder, AppearanceBuilderView, Hitbox};
use crate::editor::live_body;
use crate::json::{lemma_view_unfold, Json, JsonView};
use crate::phys_state::{PhysState, PhysStateView};
use crate::world::{
    assembled, lemma_assembled_alive, lemma_assembled_concat,
    lemma_assembled_prefix, SlotView, World, WorldView,
};

verus! {

/// The components of the first `n` component types that are saved of an
/// entity: those that it carries and that are of a saved type, in the order
/// of the types.
pub open spec fn stored(slot: SlotView, n: int) -> Seq<ComponentView>
    decreases n,
{
    if n <= 0 {
        Seq::empty()
    } else {
        let kind = all_kinds_spec()[n - 1];
        if kind_is_persistent(kind) && slot.get(kind) is Some {
            stored(slot, n - 1).push(slot.get(kind)->0)
        } else {
            stored(slot, n - 1)
        }
    }
}

/// The hitbox that is written for an entity's live body: a snapshot of the
/// body as it is when the entity is saved. Nothing where the entity has no
/// live body.
pub open spec fn snapshot(slot: SlotView, ps: PhysStateView) -> Seq<ComponentView> {
    match live_body(slot, ps) {
        Some(b) => seq![ComponentView::Hitbox(b.hitbox())],
        None => Seq::empty(),
    }
}

/// What is saved of an entity: the snapshot of its live body, then its
/// components of saved types.
pub open spec fn saved_components(slot: SlotView, ps: PhysStateView) -> Seq<ComponentView> {
    snapshot(slot, ps) + stored(slot, KIND_COUNT as int)
}

/// Whether an entity is saved: it is alive and tagged as built from a
/// prefab.
pub open spec fn is_saved(slot: SlotView) -> bool {
    slot.alive && slot.get(ComponentKind::Assemblaged) is Some
}

/// What is saved of the first `n` entities of the world: for each saved
/// entity its components, in the order of the entities' ids.
pub open spec fn saved_entities(w: WorldView, ps: PhysStateView, n: int) -> Seq<
    Seq<ComponentView>,
>
    decreases n,
{
    if n <= 0 {
        Seq::empty()
    } else if is_saved(w.slots[n - 1]) {
        saved_entities(w, ps, n - 1).push(saved_components(w.slots[n - 1], ps))
    } else {
        saved_entities(w, ps, n - 1)
    }
}

/// The instance file for a list of entities: a list with one list for each
/// entity, which holds the tagged forms of the entity's components.
pub open spec fn instances_to_json(entities: Seq<Seq<ComponentView>>) -> JsonView {
    JsonView::List(
        Seq::new(entities.len(), |i: int| JsonView::List(components_to_json(entities[i]))),
    )
}

/// The entities that the first `n` items of an instance file stand for, or
/// the error of the first item that stands for none: `Malformed` where it is
/// no list, else the error of its first unreadable component.
pub open spec fn entities_from_json(items: Seq<JsonView>, n: int) -> Result<
    Seq<Seq<ComponentView>>,
    LoadErrorView,
>
    decreases n,
{
    if n <= 0 {
        Ok(Seq::empty())
    } else {
        match entities_from_json(items, n - 1) {
            Err(e) => Err(e),
            Ok(acc) => match items[n - 1] {
                JsonView::List(cs) => match components_from_json(cs, cs.len() as int) {
                    Ok(entity) => Ok(acc.push(entity)),
                    Err(e) => Err(LoadErrorView::Component(e)),
                },
                _ => Err(LoadErrorView::Malformed),
            },
        }
    }
}

/// The entities that an instance file stands for.
pub open spec fn instances_from_json(j: JsonView) -> Result<
    Seq<Seq<ComponentView>>,
    LoadErrorView,
> {
    match j {
        JsonView::List(items) => entities_from_json(items, items.len() as int),
        _ => Err(LoadErrorView::Malformed),
    }
}

/// An error among the first `n` items is the error of every longer prefix.
pub proof fn lemma_entities_error_stays(items: Seq<JsonView>, n: int, m: int)
    requires
        0 <= n <= m,
        entities_from_json(items, n) is Err,
    ensures
        entities_from_json(items, m) == entities_from_json(items, n),
    decreases m - n,
{
    if n < m {
        lemma_entities_error_stays(items, n, m - 1);
    }
}

/// Reading the first `n` items of a written instance file gives the first
/// `n` entities that were written.
pub proof fn lemma_entities_roundtrip(entities: Seq<Seq<ComponentView>>, n: int)
    requires
        forall|i: int| 0 <= i < entities.len() ==> all_persistent(#[trigger] entities[i]),
        0 <= n <= entities.len(),
    ensures
        entities_from_json(instances_to_json(entities)->List_0, n) == Ok::<
            Seq<Seq<ComponentView>>,
            LoadErrorView,
        >(entities.take(n)),
    decreases n,
{
    if n > 0 {
        lemma_entities_roundtrip(entities, n - 1);
        let cs = entities[n - 1];
        assert(all_persistent(cs));
        lemma_components_roundtrip(cs, cs.len() as int);
        assert(cs.take(cs.len() as int) =~= cs);
        assert(entities.take(n - 1).push(cs) =~= entities.take(n));
    } else {
        assert(entities.take(0) =~= Seq::empty());
    }
}

/// The views of a list of lists of components.
pub open spec fn entity_views(entities: Seq<Vec<Component>>) -> Seq<Seq<ComponentView>> {
    Seq::new(entities.len(), |i: int| views(entities[i]@))
}

/// The entities that an instance file stands for.
///
/// Fails with `Malformed` where the document is no list or one of its items
/// is no list, and with the error of the first component that cannot be
/// read.
pub fn instances_of_json(instances: &Json) -> (r: Result<Vec<Vec<Component>>, LoadError>)
    ensures
        match r {
            Ok(entities) => instances_from_json(instances@) == Ok::<
                Seq<Seq<ComponentView>>,
                LoadErrorView,
            >(entity_views(entities@)) && forall|i: int|
                0 <= i < entities.len() ==> all_persistent(views(#[trigger] entities[i]@)),
            Err(e) => instances_from_json(instances@) == Err::<
                Seq<Seq<ComponentView>>,
                LoadErrorView,
            >(e@),
        },
{
    match instances {
        Json::List(items) => {
            proof {
                lemma_view_unfold(*instances);
            }
            let ghost vs = instances@->List_0;
            let mut out: Vec<Vec<Component>> = Vec::new();
            let mut i: usize = 0;
            assert(entity_views(out@) =~= Seq::empty());
            while i < items.len()
                invariant
                    i <= items.len(),
                    instances@ == JsonView::List(vs),
                    vs.len() == items.len(),
                    forall|k: int| 0 <= k < items.len() ==> (#[trigger] vs[k]) == items[k]@,
                    entities_from_json(vs, i as int) == Ok::<
                        Seq<Seq<ComponentView>>,
                        LoadErrorView,
                    >(entity_views(out@)),
                    forall|k: int|
                        0 <= k < out.len() ==> all_persistent(views(#[trigger] out[k]@)),
                decreases items.len() - i,
            {
                assert(vs[i as int] == items[i as int]@);
                match components_of_json(&items[i]) {
                    Ok(cs) => {
                        let ghost before = entity_views(out@);
                        let ghost added = views(cs@);
                        out.push(cs);
                        assert(entity_views(out@) =~= before.push(added));
                    },
                    Err(e) => {
                        proof {
                            lemma_entities_error_stays(vs, i as int + 1, vs.len() as int);
                        }
                        return Err(e);
                    },
                }
                i += 1;
            }
            Ok(out)
        },
        _ => Err(LoadError::Malformed),
    }
}

/// A slot with an appearance builder marked as not yet built, so that the
/// appearance is built anew.
pub open spec fn unbuilt_slot(slot: SlotView) -> SlotView {
    match slot.get(ComponentKind::AppearanceBuilder) {
        Some(ComponentView::AppearanceBuilder(b)) => if slot.alive {
            slot.insert(
                ComponentView::AppearanceBuilder(
                    AppearanceBuilderView {
                        image_name: b.image_name,
                        uv_adjust: b.uv_adjust,
                        size_override: b.size_override,
                        built: false,
                    },
                ),
            )
        } else {
            slot
        },
        _ => slot,
    }
}

/// The world with every appearance builder marked as not yet built.
pub open spec fn unbuilt(w: WorldView) -> WorldView {
    WorldView {
        slots: Seq::new(w.slots.len(), |e: int| unbuilt_slot(w.slots[e])),
        lazy: w.lazy,
        removed_phys: w.removed_phys,
    }
}

/// The slots of new entities, one for each list of components: a bare slot
/// into which the components of the list were put, in order.
pub open spec fn spawned_slots(entities: Seq<Seq<ComponentView>>) -> Seq<SlotView> {
    Seq::new(
        entities.len(),
        |i: int| assembled(SlotView::fresh(), entities[i], entities[i].len() as int),
    )
}

/// The world after the entities of an instance file were loaded into it:
/// behind the entities that it had stands one new entity for each listed one,
/// in file order, with the listed components; every deferred mutation took
/// effect; and every appearance builder is marked as not yet built.
pub open spec fn loaded(w: WorldView, entities: Seq<Seq<ComponentView>>) -> WorldView {
    unbuilt(
        (WorldView {
            slots: w.slots + spawned_slots(entities),
            lazy: w.lazy,
            removed_phys: w.removed_phys,
        }).flushed(),
    )
}

impl World {
    /// What is saved of the entity `entity`: the snapshot of its live body,
    /// then its components of saved types, in the order of the types.
    pub fn saved_components(&self, ps: &PhysState, entity: u32) -> (r: Vec<Component>)
        requires
            self.wf(),
            self@.is_alive(entity),
        ensures
            views(r@) == saved_components(self@.slots[entity as int], ps@),
            all_persistent(views(r@)),
    {
        let ghost slot = self@.slots[entity as int];
        let mut out: Vec<Component> = Vec::new();
        match self.get(entity, ComponentKind::Phys) {
            Some(Component::Phys(phys)) => match ps.hitbox_from_phys(phys) {
                Some(h) => {
                    out.push(Component::Hitbox(h));
                },
                None => {},
            },
            _ => {},
        }
        assert(views(out@) =~= snapshot(slot, ps@));
        let kinds = all_kinds();
        let mut i: usize = 0;
        assert(views(out@) =~= snapshot(slot, ps@) + stored(slot, 0));
        while i < kinds.len()
            invariant
                i <= kinds.len(),
                kinds@ == all_kinds_spec(),
                kinds.len() == KIND_COUNT,
                self.wf(),
                self@.is_alive(entity),
                slot == self@.slots[entity as int],
                views(out@) == snapshot(slot, ps@) + stored(slot, i as int),
                all_persistent(views(out@)),
            decreases kinds.len() - i,
        {
            let kind = kinds[i];
            if kind.is_persistent() {
                match self.get(entity, kind) {
                    Some(c) => {
                        let ghost before = views(out@);
                        out.push(c.boxed_clone());
                        assert(views(out@) =~= before.push(c@));
                        assert(before.push(c@) =~= snapshot(slot, ps@) + stored(
                            slot,
                            i as int + 1,
                        ));
                    },
                    None => {},
                }
            }
            i += 1;
        }
        out
    }

    /// Whether the entity `entity` is saved: whether it is alive and tagged
    /// as built from a prefab.
    pub fn is_saved(&self, entity: u32) -> (r: bool)
        requires
            self.wf(),
        ensures
            r == (entity < self@.slots.len() && is_saved(self@.slots[entity as int])),
    {
        self.has(entity, ComponentKind::Assemblaged)
    }

    /// Marks every appearance builder as not yet built.
    pub fn unbuild_appearances(&mut self)
        requires
            old(self).wf(),
        ensures
            final(self).wf(),
            final(self)@ == unbuilt(old(self)@),
    {
        let count = self.entity_count();
        let mut e: usize = 0;
        while e < count
            invariant
                e <= count,
                count == old(self)@.slots.len(),
                count <= u32::MAX,
                self.wf(),
                self@.slots.len() == count,
                self@.lazy == old(self)@.lazy,
                self@.removed_phys == old(self)@.removed_phys,
                forall|k: int| 0 <= k < e ==> self@.slots[k] == unbuilt_slot(old(self)@.slots[k]),
                forall|k: int| e <= k < count ==> self@.slots[k] == old(self)@.slots[k],
            decreases count - e,
        {
            let reset = match self.get(e as u32, ComponentKind::AppearanceBuilder) {
                Some(Component::AppearanceBuilder(b)) => Some(
                    AppearanceBuilder {
                        image_name: b.image_name.clone(),
                        uv_adjust: b.uv_adjust,
                        size_override: b.size_override,
                        built: false,
                    },
                ),
                _ => None,
            };
            match reset {
                Some(b) => {
                    self.insert(e as u32, Component::AppearanceBuilder(b));
                },
                None => {},
            }
            e += 1;
        }
        assert(self@.slots =~= unbuilt(old(self)@).slots);
    }
}

impl Assemblager {
    /// What is written to the instance file for the entity `entity`: the
    /// list of the tagged forms of what is saved of it.
    pub fn get_json(world: &World, ps: &PhysState, entity: u32) -> (r: Json)
        requires
            world.wf(),
            world@.is_alive(entity),
        ensures
            r@ == JsonView::List(
                components_to_json(saved_components(world@.slots[entity as int], ps@)),
            ),
    {
        let components = world.saved_components(ps, entity);
        components_json(&components)
    }

    /// The two save files: the catalog file for this catalog, and the
    /// instance file for the world, which lists what is saved of every live
    /// entity that is tagged as built from a prefab, in the order of their
    /// ids.
    pub fn save_json(&self, world: &World, ps: &PhysState) -> (r: (Json, Json))
        requires
            self.wf(),
            world.wf(),
        ensures
            r.0@ == crate::assemblages::catalog_to_json(self@.assemblages),
            r.1@ == instances_to_json(
                saved_entities(world@, ps@, world@.slots.len() as int),
            ),
    {
        let catalog = self.catalog_json();
        let count = world.entity_count();
        let mut items: Vec<Json> = Vec::new();
        let ghost mut written: Seq<Seq<ComponentView>> = Seq::empty();
        let mut e: usize = 0;
        while e < count
            invariant
                e <= count,
                count == world@.slots.len(),
                count <= u32::MAX,
                world.wf(),
                written == saved_entities(world@, ps@, e as int),
                items.len() == written.len(),
                forall|k: int|
                    0 <= k < items.len() ==> (#[trigger] items[k])@ == JsonView::List(
                        components_to_json(written[k]),
                    ),
            decreases count - e,
        {
            if world.is_saved(e as u32) {
                items.push(Assemblager::get_json(world, ps, e as u32));
                proof {
                    written = written.push(saved_components(world@.slots[e as int], ps@));
                }
            }
            e += 1;
        }
        let instances = Json::list(items);
        assert(instances@->List_0 =~= instances_to_json(written)->List_0);
        (catalog, instances)
    }

    /// Loads the entities of an instance file into the world: creates one
    /// entity for each listed one, in file order, and attaches the listed
    /// components in the order of the list; lets every deferred mutation take
    /// effect; and marks every appearance builder as not yet built.
    ///
    /// Fails as [`instances_of_json`] does, and with `WorldFull` where the
    /// ids of the new entities would not fit. A failed call changes nothing.
    pub fn load_save(world: &mut World, instances: &Json) -> (r: Result<(), LoadError>)
        requires
            old(world).wf(),
        ensures
            final(world).wf(),
            match r {
                Ok(()) => instances_from_json(instances@) matches Ok(entities) && old(
                    world,
                )@.slots.len() + entities.len() <= u32::MAX && final(world)@ == loaded(
                    old(world)@,
                    entities,
                ),
                Err(e) => {
                    &&& final(world)@ == old(world)@
                    &&& match instances_from_json(instances@) {
                        Ok(entities) => e@ == LoadErrorView::WorldFull && old(
                            world,
                        )@.slots.len() + entities.len() > u32::MAX,
                        Err(d) => e@ == d,
                    }
                },
            },
    {
        let entities = match instances_of_json(instances) {
            Ok(entities) => entities,
            Err(e) => {
                return Err(e);
            },
        };
        let ghost listed = entity_views(entities@);
        let ghost slots = spawned_slots(listed);
        let ghost w0 = old(world)@;
        if entities.len() > 0xFFFF_FFFF - world.entity_count() {
            return Err(LoadError::WorldFull);
        }
        let mut i: usize = 0;
        assert(w0.slots + slots.take(0) =~= w0.slots);
        while i < entities.len()
            invariant
                i <= entities.len(),
                world.wf(),
                listed == entity_views(entities@),
                slots == spawned_slots(listed),
                w0.slots.len() + entities.len() <= u32::MAX,
                world@.lazy == w0.lazy,
                world@.removed_phys == w0.removed_phys,
                world@.slots == w0.slots + slots.take(i as int),
            decreases entities.len() - i,
        {
            let entity = world.create_entity();
            let components = &entities[i];
            let ghost cs = views(components@);
            let ghost base = world@;
            let mut k: usize = 0;
            assert(base.with_slot(entity, assembled(SlotView::fresh(), cs, 0)).slots
                =~= base.slots);
            while k < components.len()
                invariant
                    k <= components.len(),
                    world.wf(),
                    cs == views(components@),
                    base.is_alive(entity),
                    world@ == base.with_slot(
                        entity,
                        assembled(SlotView::fresh(), cs, k as int),
                    ),
                decreases components.len() - k,
            {
                proof {
                    lemma_assembled_alive(SlotView::fresh(), cs, k as int);
                }
                world.insert(entity, components[k].boxed_clone());
                assert(world@.slots =~= base.with_slot(
                    entity,
                    assembled(SlotView::fresh(), cs, k as int + 1),
                ).slots);
                k += 1;
            }
            assert(slots[i as int] == assembled(SlotView::fresh(), cs, cs.len() as int));
            assert(world@.slots =~= w0.slots + slots.take(i as int + 1));
            i += 1;
        }
        assert(slots.take(entities.len() as int) =~= slots);
        world.flush();
        world.unbuild_appearances();
        Ok(())
    }
}

/// What is saved of an entity is of saved types only.
pub proof fn lemma_saved_persistent(slot: SlotView, ps: PhysStateView, n: int)
    requires
        slot.wf(),
        0 <= n <= KIND_COUNT,
    ensures
        all_persistent(stored(slot, n)),
        all_persistent(snapshot(slot, ps) + stored(slot, n)),
    decreases n,
{
    lemma_all_kinds_complete();
    if n > 0 {
        lemma_saved_persistent(slot, ps, n - 1);
        let kind = all_kinds_spec()[n - 1];
        if kind_is_persistent(kind) && slot.get(kind) is Some {
            assert(slot.components.dom().contains(kind));
            assert(slot.get(kind)->0.kind() == kind);
        }
    }
    let all = snapshot(slot, ps) + stored(slot, n);
    assert forall|i: int| 0 <= i < all.len() implies kind_is_persistent(
        (#[trigger] all[i]).kind(),
    ) by {
        if i >= snapshot(slot, ps).len() {
            assert(all[i] == stored(slot, n)[i - snapshot(slot, ps).len()]);
        }
    }
}

/// What is saved of the entities of a world is of saved types only.
pub proof fn lemma_saved_entities_persistent(w: WorldView, ps: PhysStateView, n: int)
    requires
        forall|e: int| 0 <= e < w.slots.len() ==> (#[trigger] w.slots[e]).wf(),
        0 <= n <= w.slots.len(),
    ensures
        forall|i: int|
            0 <= i < saved_entities(w, ps, n).len() ==> all_persistent(
                #[trigger] saved_entities(w, ps, n)[i],
            ),
    decreases n,
{
    if n > 0 {
        lemma_saved_entities_persistent(w, ps, n - 1);
        assert(w.slots[n - 1].wf());
        lemma_saved_persistent(w.slots[n - 1], ps, KIND_COUNT as int);
        let before = saved_entities(w, ps, n - 1);
        let now = saved_entities(w, ps, n);
        assert forall|i: int| 0 <= i < now.len() implies all_persistent(#[trigger] now[i]) by {
            if i < before.len() {
                assert(now[i] == before[i]);
            }
        }
    }
}

/// Where a saved entity stands in the instance file: behind the saved
/// entities with smaller ids.
pub proof fn lemma_saved_at(w: WorldView, ps: PhysStateView, n: int, e: int)
    requires
        0 <= e < n <= w.slots.len(),
        is_saved(w.slots[e]),
    ensures
        saved_entities(w, ps, e).len() < saved_entities(w, ps, n).len(),
        saved_entities(w, ps, n)[saved_entities(w, ps, e).len() as int] == saved_components(
            w.slots[e],
            ps,
        ),
    decreases n,
{
    if e < n - 1 {
        lemma_saved_at(w, ps, n - 1, e);
    }
}

/// What a slot holds of the type `kind` after an entity's stored components
/// of the first `n` types were put into it: the entity's own component where
/// it is among them, else what the slot held before.
pub proof fn lemma_restore_stored(base: SlotView, slot: SlotView, n: int, kind: ComponentKind)
    requires
        slot.wf(),
        0 <= n <= KIND_COUNT,
    ensures
        assembled(base, stored(slot, n), stored(slot, n).len() as int).get(kind) == if kind_index(
            kind,
        ) < n && kind_is_persistent(kind) && slot.get(kind) is Some {
            slot.get(kind)
        } else {
            base.get(kind)
        },
    decreases n,
{
    lemma_all_kinds_complete();
    if n > 0 {
        lemma_restore_stored(base, slot, n - 1, kind);
        let k = all_kinds_spec()[n - 1];
        let before = stored(slot, n - 1);
        if kind_is_persistent(k) && slot.get(k) is Some {
            let c = slot.get(k)->0;
            assert(slot.components.dom().contains(k));
            assert(c.kind() == k);
            lemma_assembled_prefix(base, before.push(c), before, before.len() as int);
            assert(kind_index(kind) == n - 1 <==> kind == k);
        } else {
            assert(kind_index(kind) == n - 1 <==> kind == k);
        }
    }
}

/// The slot of an entity after a save and a load: a bare slot into which
/// what was saved of the entity was put, with its appearance builder marked
/// as not yet built.
pub open spec fn restored(slot: SlotView, ps: PhysStateView) -> SlotView {
    unbuilt_slot(
        assembled(
            SlotView::fresh(),
            saved_components(slot, ps),
            saved_components(slot, ps).len() as int,
        ),
    )
}

/// What a save and a load keep of an entity. The restored entity is alive.
/// Of every saved type but the hitbox and the appearance builder it carries
/// what the entity carried. Its appearance builder is the entity's, marked as
/// not yet built. Its hitbox is the entity's own where the entity carried
/// one, else the snapshot of the entity's live body where it had one. It has
/// no link to the physics world and no appearance: both are built anew.
pub proof fn lemma_restored(slot: SlotView, ps: PhysStateView, kind: ComponentKind)
    requires
        slot.wf(),
    ensures
        restored(slot, ps).alive,
        !kind_is_persistent(kind) ==> restored(slot, ps).get(kind) is None,
        kind_is_persistent(kind) && kind != ComponentKind::Hitbox && kind
            != ComponentKind::AppearanceBuilder ==> restored(slot, ps).get(kind) == slot.get(kind),
        kind == ComponentKind::AppearanceBuilder ==> restored(slot, ps).get(kind) == match slot.get(
            kind,
        ) {
            Some(ComponentView::AppearanceBuilder(b)) => Some(
                ComponentView::AppearanceBuilder(
                    AppearanceBuilderView {
                        image_name: b.image_name,
                        uv_adjust: b.uv_adjust,
                        size_override: b.size_override,
                        built: false,
                    },
                ),
            ),
            _ => None,
        },
        kind == ComponentKind::Hitbox ==> restored(slot, ps).get(kind) == if slot.get(kind)
            is Some {
            slot.get(kind)
        } else {
            match live_body(slot, ps) {
                Some(b) => Some(ComponentView::Hitbox(b.hitbox())),
                None => None,
            }
        },
{
    lemma_all_kinds_complete();
    let snap = snapshot(slot, ps);
    let rest = stored(slot, KIND_COUNT as int);
    let base = assembled(SlotView::fresh(), snap, snap.len() as int);
    let full = assembled(SlotView::fresh(), snap + rest, (snap + rest).len() as int);
    lemma_assembled_concat(SlotView::fresh(), snap, rest, rest.len() as int);
    assert(full == assembled(base, rest, rest.len() as int));
    lemma_assembled_alive(SlotView::fresh(), snap + rest, (snap + rest).len() as int);
    lemma_restore_stored(base, slot, KIND_COUNT as int, kind);
    lemma_restore_stored(base, slot, KIND_COUNT as int, ComponentKind::AppearanceBuilder);
    assert(base.get(kind) == if kind == ComponentKind::Hitbox && live_body(slot, ps) is Some {
        Some(ComponentView::Hitbox(live_body(slot, ps)->0.hitbox()))
    } else {
        None
    }) by {
        if live_body(slot, ps) is Some {
            assert(snap.len() == 1);
            assert(assembled(SlotView::fresh(), snap, 0) == SlotView::fresh());
            assert(base == SlotView::fresh().insert(snap[0]));
        }
    }
    assert(base.get(ComponentKind::AppearanceBuilder) is None) by {
        if live_body(slot, ps) is Some {
            assert(snap.len() == 1);
            assert(assembled(SlotView::fresh(), snap, 0) == SlotView::fresh());
            assert(base == SlotView::fresh().insert(snap[0]));
        }
    }
    if slot.get(ComponentKind::AppearanceBuilder) is Some {
        assert(slot.components.dom().contains(ComponentKind::AppearanceBuilder));
        assert(slot.get(ComponentKind::AppearanceBuilder)->0.kind()
            == ComponentKind::AppearanceBuilder);
    }
}

/// Instance round trip. Save the instances of a world, and load the file
/// into an empty world. Then reading the file gives exactly what was
/// written; the new world has one entity for each saved entity of the old
/// one, in the order of their ids; and each is the saved entity restored
/// (see [`lemma_restored`] for what that keeps).
pub proof fn lemma_instance_roundtrip(w: WorldView, ps: PhysStateView)
    requires
        forall|e: int| 0 <= e < w.slots.len() ==> (#[trigger] w.slots[e]).wf(),
    ensures
        ({
            let saved = saved_entities(w, ps, w.slots.len() as int);
            let empty = WorldView {
                slots: Seq::empty(),
                lazy: Seq::empty(),
                removed_phys: Seq::empty(),
            };
            let after = loaded(empty, saved);
            &&& instances_from_json(instances_to_json(saved)) == Ok::<
                Seq<Seq<ComponentView>>,
                LoadErrorView,
            >(saved)
            &&& after.slots.len() == saved.len()
            &&& after.lazy == Seq::<crate::world::LazyActionView>::empty()
            &&& forall|e: int|
                0 <= e < w.slots.len() && is_saved(#[trigger] w.slots[e]) ==> {
                    let place = saved_entities(w, ps, e).len() as int;
                    place < after.slots.len() && after.slots[place] == restored(w.slots[e], ps)
                }
        }),
{
    let n = w.slots.len() as int;
    let saved = saved_entities(w, ps, n);
    let empty = WorldView { slots: Seq::empty(), lazy: Seq::empty(), removed_phys: Seq::empty() };
    let after = loaded(empty, saved);
    lemma_saved_entities_persistent(w, ps, n);
    lemma_entities_roundtrip(saved, saved.len() as int);
    assert(saved.take(saved.len() as int) =~= saved);
    let spawned = WorldView {
        slots: empty.slots + spawned_slots(saved),
        lazy: empty.lazy,
        removed_phys: empty.removed_phys,
    };
    assert(spawned.slots =~= spawned_slots(saved));
    assert(spawned.with_lazy(Seq::empty()) == spawned);
    assert(spawned.flushed() == spawned);
    assert forall|e: int| 0 <= e < w.slots.len() && is_saved(#[trigger] w.slots[e]) implies {
        let place = saved_entities(w, ps, e).len() as int;
        place < after.slots.len() && after.slots[place] == restored(w.slots[e], ps)
    } by {
        lemma_saved_at(w, ps, n, e);
    }
}

} // verus!
