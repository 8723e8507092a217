use vstd::prelude::*;
use vstd::string::StringExecFns;
use crate::assemblages::{
    draft_components, drafted, lists, lists_kind, placed, tag, Assemblager,
};
use crate::component::{Component, ComponentKind, ComponentView};
use crate::comps::{
    AppearanceBuilder, AppearanceBuilderView, ApplyForce, CameraFocus, EmitCollideEvent,
    Explodeable, Hitbox,
    Interactable, Phys, ScriptEvent, ScriptEventView,
};
use crate::image_bundle::{lookup, ImageBundle, ImageEntryView, Rect};
use crate::phys_state::{numeral, u32_to_string, PhysState, PhysStateView};
use crate::scalar::{Scalar, Vec2, Vec3, ZERO_BITS};
use crate::world::{
    assembled, bounded, inserts, lemma_apply_all_split, lemma_apply_inserts,
    lemma_apply_spares, lemma_assembled_alive, lemma_assembled_last,
    lemma_flush_block, lemma_last_of_kind, spares, target, LazyAction, LazyActionView,
    SlotView, World, WorldView,
};

verus! {

/// The link of the live entity `entity` to the physics world.
pub open spec fn phys_of(w: WorldView, entity: u32) -> Option<Phys> {
    match w.get(entity, ComponentKind::Phys) {
        Some(ComponentView::Phys(phys)) => Some(phys),
        _ => None,
    }
}

/// Whether every body is accounted for: it is tagged with an entity, and
/// that entity either links to it or stands in the log of entities that lost
/// their link.
pub open spec fn linked(w: WorldView, ps: PhysStateView) -> bool {
    forall|h: int|
        0 <= h < ps.bodies.len() ==> ((#[trigger] ps.bodies[h]) matches Some(b) ==> {
            &&& b.user_data is Some
            &&& (phys_of(w, b.user_data->0) == Some(Phys { body: h as usize })
                || w.removed_phys.contains(b.user_data->0))
        })
}

/// Whether no body is leaked: every body is tagged with a live entity that
/// links to it.
pub open spec fn synced(w: WorldView, ps: PhysStateView) -> bool {
    forall|h: int|
        0 <= h < ps.bodies.len() ==> ((#[trigger] ps.bodies[h]) matches Some(b) ==> {
            &&& b.user_data is Some
            &&& phys_of(w, b.user_data->0) == Some(Phys { body: h as usize })
        })
}

/// The state after the clean-up at the start of the physics update: the
/// bodies of the entities in the log are gone and the log is empty.
pub open spec fn cleaned(w: WorldView, ps: PhysStateView) -> (WorldView, PhysStateView) {
    (
        WorldView { slots: w.slots, lazy: w.lazy, removed_phys: Seq::empty() },
        ps.with_bodies(ps.without_owners(w.removed_phys)),
    )
}

/// The clean-up at the start of the physics update: drains the log of
/// entities that lost their `Phys` component and removes the bodies that are
/// tagged with one of them. Every other body stays.
pub fn remove_orphaned_bodies(world: &mut World, ps: &mut PhysState)
    requires
        old(world).wf(),
        old(ps).wf(),
    ensures
        final(world).wf(),
        final(ps).wf(),
        (final(world)@, final(ps)@) == cleaned(old(world)@, old(ps)@),
{
    let log = world.drain_removed_phys();
    ps.remove_owned(&log);
}

/// Desync prevention, for one entity: when a `Phys` component is taken off
/// an entity, alone or by deleting the entity, the body that it linked to is
/// gone after the next clean-up.
pub proof fn lemma_removed_phys_frees_body(
    w: WorldView,
    ps: PhysStateView,
    entity: u32,
    handle: usize,
    whole: bool,
)
    requires
        phys_of(w, entity) == Some(Phys { body: handle }),
        ps.body(handle) matches Some(b) && b.user_data == Some(entity),
    ensures
        ({
            let removal = if whole {
                LazyActionView::Delete { entity }
            } else {
                LazyActionView::Remove { entity, kind: ComponentKind::Phys }
            };
            let after = w.apply(removal);
            &&& phys_of(after, entity) is None
            &&& cleaned(after, ps).1.body(handle) is None
        }),
{
    let removal = if whole {
        LazyActionView::Delete { entity }
    } else {
        LazyActionView::Remove { entity, kind: ComponentKind::Phys }
    };
    let after = w.apply(removal);
    assert(after.removed_phys == w.removed_phys.push(entity));
    assert(after.removed_phys[w.removed_phys.len() as int] == entity);
    assert(after.removed_phys.contains(entity));
}

/// Desync prevention, for the whole world: where every body is accounted
/// for, no body is leaked after the clean-up.
pub proof fn lemma_cleaned_is_synced(w: WorldView, ps: PhysStateView)
    requires
        linked(w, ps),
    ensures
        synced(cleaned(w, ps).0, cleaned(w, ps).1),
{
    let (w1, ps1) = cleaned(w, ps);
    assert forall|h: int| 0 <= h < ps1.bodies.len() implies ((#[trigger] ps1.bodies[h]) matches Some(
        b,
    ) ==> b.user_data is Some && phys_of(w1, b.user_data->0) == Some(
        Phys { body: h as usize },
    )) by {
        if ps1.bodies[h] is Some {
            assert(ps.bodies[h] is Some);
            let b = ps.bodies[h]->0;
            assert(ps1.bodies[h] == Some(b));
            assert(!w.removed_phys.contains(b.user_data->0));
        }
    }
}

/// A mutation that inserts no `Phys` component keeps every body accounted
/// for: where it takes an entity's link away, it logs the entity.
pub proof fn lemma_apply_keeps_linked(w: WorldView, ps: PhysStateView, action: LazyActionView)
    requires
        linked(w, ps),
        !(action matches LazyActionView::Insert { entity, component } && component is Phys),
    ensures
        linked(w.apply(action), ps),
{
    let after = w.apply(action);
    assert forall|h: int| 0 <= h < ps.bodies.len() implies ((#[trigger] ps.bodies[h]) matches Some(
        b,
    ) ==> b.user_data is Some && (phys_of(after, b.user_data->0) == Some(
        Phys { body: h as usize },
    ) || after.removed_phys.contains(b.user_data->0))) by {
        if ps.bodies[h] is Some {
            let b = ps.bodies[h]->0;
            let e = b.user_data->0;
            if w.removed_phys.contains(e) {
                let i = choose|i: int| 0 <= i < w.removed_phys.len() && w.removed_phys[i] == e;
                if after.removed_phys != w.removed_phys {
                    assert(after.removed_phys[i] == e);
                }
            } else {
                assert(phys_of(w, e) == Some(Phys { body: h as usize }));
                if phys_of(after, e) != Some(Phys { body: h as usize }) {
                    assert(after.removed_phys == w.removed_phys.push(e));
                    assert(after.removed_phys[w.removed_phys.len() as int] == e);
                }
            }
        }
    }
}

/// The hitbox that waits on the live entity `entity` to be turned into a
/// body.
pub open spec fn hitbox_of(w: WorldView, entity: u32) -> Option<Hitbox> {
    match w.get(entity, ComponentKind::Hitbox) {
        Some(ComponentView::Hitbox(h)) => Some(h),
        _ => None,
    }
}

/// The state after the hitbox of `entity`, if it has one, was turned into a
/// body: the body that the entity linked to before is gone, a new body built
/// from the hitbox and tagged with the entity has the next free handle, and
/// the entity has a link to it in place of the hitbox.
pub open spec fn hitbox_added(w: WorldView, ps: PhysStateView, entity: u32) -> (
    WorldView,
    PhysStateView,
) {
    match hitbox_of(w, entity) {
        Some(h) => {
            let cleared = match phys_of(w, entity) {
                Some(phys) => ps.without(phys.body),
                None => ps.bodies,
            };
            let handle = cleared.len() as usize;
            (
                w.with_slot(
                    entity,
                    w.slots[entity as int].remove(ComponentKind::Hitbox).insert(
                        ComponentView::Phys(Phys { body: handle }),
                    ),
                ),
                ps.with_bodies(cleared.push(Some(ps.body_from(h).tagged(entity)))),
            )
        },
        None => (w, ps),
    }
}

/// The state after the hitboxes of the first `n` entities were turned into
/// bodies, in the order of the entities' ids.
pub open spec fn hitboxes_added(w: WorldView, ps: PhysStateView, n: int) -> (
    WorldView,
    PhysStateView,
)
    decreases n,
{
    if n <= 0 {
        (w, ps)
    } else {
        let (w1, ps1) = hitboxes_added(w, ps, n - 1);
        hitbox_added(w1, ps1, (n - 1) as u32)
    }
}

/// Turning a hitbox into a body keeps every body accounted for: the body
/// that the entity linked to before is gone, and the entity links to the new
/// one.
pub proof fn lemma_hitbox_added_keeps_linked(w: WorldView, ps: PhysStateView, entity: u32)
    requires
        linked(w, ps),
        ps.bodies.len() < usize::MAX,
    ensures
        linked(hitbox_added(w, ps, entity).0, hitbox_added(w, ps, entity).1),
{
    let (w1, ps1) = hitbox_added(w, ps, entity);
    if hitbox_of(w, entity) is Some {
        let cleared = match phys_of(w, entity) {
            Some(phys) => ps.without(phys.body),
            None => ps.bodies,
        };
        assert(cleared.len() == ps.bodies.len());
        assert forall|h: int| 0 <= h < ps1.bodies.len() implies ((#[trigger] ps1.bodies[h]) matches Some(
            b,
        ) ==> b.user_data is Some && (phys_of(w1, b.user_data->0) == Some(
            Phys { body: h as usize },
        ) || w1.removed_phys.contains(b.user_data->0))) by {
            if h < ps.bodies.len() && ps1.bodies[h] is Some {
                assert(ps1.bodies[h] == cleared[h]);
                assert(ps.bodies[h] == cleared[h]);
                let b = ps.bodies[h]->0;
                if b.user_data->0 != entity {
                    assert(phys_of(w1, b.user_data->0) == phys_of(w, b.user_data->0));
                }
            }
        }
    }
}

/// How many of the first `n` entities have a hitbox that waits to be turned
/// into a body.
pub open spec fn waiting(w: WorldView, n: int) -> nat
    decreases n,
{
    if n <= 0 {
        0
    } else if hitbox_of(w, (n - 1) as u32) is Some {
        waiting(w, n - 1) + 1
    } else {
        waiting(w, n - 1)
    }
}

/// Whether every link of an entity names a place of the table of bodies.
pub open spec fn links_in_table(w: WorldView, ps: PhysStateView) -> bool {
    forall|e: u32| (#[trigger] phys_of(w, e)) matches Some(p) ==> p.body < ps.bodies.len()
}

/// What the first stage of a frame leaves of the first `n` entities. None
/// of them has a hitbox any more. Each that had one has a link to a new body,
/// which is built from that hitbox (its scale as half extents, its position
/// and rotation, the group that its interaction flag chooses) and tagged with
/// the entity by name and user data. As many bodies were added as hitboxes
/// waited. Every entity without a hitbox is as it was, and so are the queue
/// and the log.
pub proof fn lemma_hitboxes_added(w: WorldView, ps: PhysStateView, n: int)
    requires
        0 <= n <= w.slots.len() <= u32::MAX,
        ps.bodies.len() + n <= usize::MAX,
        links_in_table(w, ps),
    ensures
        ({
            let (w1, ps1) = hitboxes_added(w, ps, n);
            &&& w1.slots.len() == w.slots.len()
            &&& w1.lazy == w.lazy
            &&& w1.removed_phys == w.removed_phys
            &&& ps1.with_bodies(ps.bodies) == ps
            &&& ps1.bodies.len() == ps.bodies.len() + waiting(w, n)
            &&& waiting(w, n) <= n
            &&& forall|e: u32| n <= e < w.slots.len() ==> #[trigger] w1.slots[e as int] == w.slots[e as int]
            &&& forall|e: u32| e < n ==> (#[trigger] hitbox_of(w1, e)) is None
            &&& forall|e: u32|
                e < n && (#[trigger] hitbox_of(w, e)) is None ==> w1.slots[e as int]
                    == w.slots[e as int]
            &&& forall|e: u32|
                e < n && hitbox_of(w, e) is Some ==> ((#[trigger] phys_of(w1, e)) matches Some(
                    p,
                ) && ps.bodies.len() <= p.body < ps1.bodies.len() && ps1.bodies[p.body as int]
                    == Some(ps.body_from(hitbox_of(w, e)->0).tagged(e)))
        }),
    decreases n,
{
    if n > 0 {
        lemma_hitboxes_added(w, ps, n - 1);
        let (w0, ps0) = hitboxes_added(w, ps, n - 1);
        let entity = (n - 1) as u32;
        let (w1, ps1) = hitbox_added(w0, ps0, entity);
        assert(w0.slots[entity as int] == w.slots[entity as int]);
        assert(hitbox_of(w0, entity) == hitbox_of(w, entity));
        assert(phys_of(w0, entity) == phys_of(w, entity));
        if hitbox_of(w, entity) is Some {
            let h = hitbox_of(w, entity)->0;
            let cleared = match phys_of(w0, entity) {
                Some(phys) => ps0.without(phys.body),
                None => ps0.bodies,
            };
            assert(cleared.len() == ps0.bodies.len());
            assert(ps0.body_from(h) == ps.body_from(h));
            assert forall|k: int| ps.bodies.len() <= k < ps0.bodies.len() implies cleared[k]
                == ps0.bodies[k] by {
                if phys_of(w0, entity) is Some {
                    assert(phys_of(w, entity)->0.body < ps.bodies.len());
                }
            }
            assert(ps1.bodies[cleared.len() as int] == Some(ps.body_from(h).tagged(entity)));
            assert forall|e: u32|
                e < n && hitbox_of(w, e) is Some implies ((#[trigger] phys_of(w1, e)) matches Some(
                p,
            ) && ps.bodies.len() <= p.body < ps1.bodies.len() && ps1.bodies[p.body as int] == Some(
                ps.body_from(hitbox_of(w, e)->0).tagged(e),
            )) by {
                if e < entity {
                    assert(w1.slots[e as int] == w0.slots[e as int]);
                    assert(phys_of(w1, e) == phys_of(w0, e));
                    let p = phys_of(w0, e)->0;
                    assert(cleared[p.body as int] == ps0.bodies[p.body as int]);
                    assert(ps1.bodies[p.body as int] == cleared[p.body as int]);
                }
            }
            assert forall|e: u32| e < n implies (#[trigger] hitbox_of(w1, e)) is None by {
                if e < entity {
                    assert(w1.slots[e as int] == w0.slots[e as int]);
                    assert(hitbox_of(w0, e) is None);
                }
            }
            assert forall|e: u32|
                e < n && (#[trigger] hitbox_of(w, e)) is None implies w1.slots[e as int]
                == w.slots[e as int] by {
                assert(w1.slots[e as int] == w0.slots[e as int]);
            }
            assert forall|e: u32| n <= e < w.slots.len() implies #[trigger] w1.slots[e as int]
                == w.slots[e as int] by {
                assert(w1.slots[e as int] == w0.slots[e as int]);
            }
        } else {
            assert forall|e: u32| e < n implies (#[trigger] hitbox_of(w1, e)) is None by {}
        }
    }
}

/// Turns the hitbox of `entity`, if it has one, into a body of the physics
/// world, tags the body with the entity and gives the entity the link to it.
/// Returns whether the entity had a hitbox.
pub fn add_hitbox_to_phys(world: &mut World, ps: &mut PhysState, entity: u32) -> (had: bool)
    requires
        old(world).wf(),
        old(ps).wf(),
    ensures
        final(world).wf(),
        final(ps).wf(),
        had == hitbox_of(old(world)@, entity) is Some,
        (final(world)@, final(ps)@) == hitbox_added(old(world)@, old(ps)@, entity),
{
    let hitbox = match world.get(entity, ComponentKind::Hitbox) {
        Some(Component::Hitbox(h)) => *h,
        _ => {
            return false;
        },
    };
    let former = match world.get(entity, ComponentKind::Phys) {
        Some(Component::Phys(phys)) => Some(*phys),
        _ => None,
    };
    match former {
        Some(phys) => {
            ps.remove_body(&phys);
        },
        None => {},
    }
    let phys = ps.phys_from_hitbox(&hitbox);
    let tagged = ps.name_as_ent(&phys, entity);
    assert(tagged is Ok);
    world.remove(entity, ComponentKind::Hitbox);
    world.insert(entity, Component::Phys(phys));
    proof {
        let (w1, ps1) = hitbox_added(old(world)@, old(ps)@, entity);
        assert(ps@.bodies =~= ps1.bodies);
        assert(world@.slots =~= w1.slots);
    }
    true
}

/// The first stage of a frame: turns every waiting hitbox into a body, in
/// the order of the entities' ids.
pub fn add_hitboxes_to_phys(world: &mut World, ps: &mut PhysState)
    requires
        old(world).wf(),
        old(ps).wf(),
    ensures
        final(world).wf(),
        final(ps).wf(),
        (final(world)@, final(ps)@) == hitboxes_added(
            old(world)@,
            old(ps)@,
            old(world)@.slots.len() as int,
        ),
{
    let count = world.entity_count();
    let mut e: usize = 0;
    while e < count
        invariant
            e <= count,
            count == old(world)@.slots.len(),
            count <= u32::MAX,
            world.wf(),
            ps.wf(),
            world@.slots.len() == count,
            (world@, ps@) == hitboxes_added(old(world)@, old(ps)@, e as int),
        decreases count - e,
    {
        add_hitbox_to_phys(world, ps, e as u32);
        e += 1;
    }
}

/// `Rng::gen_range` of the random number crate, on a fresh `OsRng`: a
/// number in `low .. high`, drawn from the operating system's entropy.
/// `None` where `OsRng::new` fails. The outside function panics where `low`
/// is not below `high`. It also panics where the operating system's source,
/// once opened, keeps failing to give bytes: no input decides that, so no
/// precondition can leave it out.
#[verifier::external_body]
fn gen_range(low: u32, high: u32) -> (r: Option<u32>)
    requires
        low < high,
    ensures
        r matches Some(v) ==> low <= v < high,
{
    match rand::rngs::OsRng::new() {
        Ok(mut rng) => Some(rand::Rng::gen_range(&mut rng, low, high)),
        Err(_) => None,
    }
}

/// The smallest number of a chunk's image.
pub const FIRST_GIB: u32 = 1;

/// The number behind the greatest number of a chunk's image.
pub const END_GIB: u32 = 10;

/// Draws the number of the image of one chunk of an explosion, at random.
/// `None` where the operating system gives no random numbers.
pub fn roll_gib() -> (r: Option<u32>)
    ensures
        r matches Some(v) ==> FIRST_GIB <= v < END_GIB,
{
    gen_range(FIRST_GIB, END_GIB)
}

/// What chance decides of one chunk of an explosion: the number of its image
/// and the force that throws it.
#[derive(Clone, Copy, Debug, PartialEq, Eq, Structural)]
pub struct GibRoll {
    pub which_gib: u32,
    /// A vector of random direction whose length is the strength of the
    /// explosion.
    pub force: Vec3,
}

/// Why an entity did not explode.
#[derive(Clone, Copy, Debug, PartialEq, Eq, Structural)]
pub enum ExplodeError {
    /// The entity is not alive or cannot explode.
    NotExplodeable,
    /// The entity has no live body, so the chunks have no place.
    MissingPhys,
    /// The catalog has no prefab for the chunks.
    PrefabNotFound,
    /// The prefab for the chunks lists no hitbox, so the chunks have no
    /// place.
    NoHitbox,
    /// The number of rolls is not the number of chunks.
    WrongRollCount,
    /// The world cannot number the chunks.
    WorldFull,
}

/// The name of the prefab from which the chunks of an explosion are built.
pub open spec fn gib_prefab() -> Seq<char> {
    "melon gib"@
}

/// The explodeable of the live entity `entity`.
pub open spec fn explodeable_of(w: WorldView, entity: u32) -> Option<Explodeable> {
    match w.get(entity, ComponentKind::Explodeable) {
        Some(ComponentView::Explodeable(x)) => Some(x),
        _ => None,
    }
}

/// How many chunks an explodeable leaves: its count, or none where the
/// count is negative.
pub open spec fn chunk_count(x: Explodeable) -> nat {
    if x.chunks_count > 0 {
        x.chunks_count as nat
    } else {
        0
    }
}

/// What is deferred for one chunk behind its draft: the overwriting of its
/// position, the appearance builder that names its image, and the force that
/// throws it.
pub open spec fn gib_actions(id: u32, pos: Vec3, template: ApplyForce, roll: GibRoll) -> Seq<
    LazyActionView,
> {
    seq![
        LazyActionView::SetHitboxPosition { entity: id, position: pos },
        LazyActionView::Insert {
            entity: id,
            component: ComponentView::AppearanceBuilder(
                AppearanceBuilderView {
                    image_name: "melon_gib_"@ + numeral(roll.which_gib as nat),
                    uv_adjust: Vec2 { x: Scalar { bits: ZERO_BITS }, y: Scalar { bits: ZERO_BITS } },
                    size_override: Vec2 {
                        x: Scalar { bits: ZERO_BITS },
                        y: Scalar { bits: ZERO_BITS },
                    },
                    built: false,
                },
            ),
        },
        LazyActionView::Insert {
            entity: id,
            component: ComponentView::ApplyForce(
                ApplyForce {
                    vec: roll.force,
                    time_elapsed: template.time_elapsed,
                    duration: template.duration,
                    decay: template.decay,
                },
            ),
        },
    ]
}

/// The world after one chunk was spawned at `pos`: an entity drafted from
/// the prefab of the chunks, and behind its draft what [`gib_actions`] lists.
pub open spec fn gib_spawned(
    w: WorldView,
    cs: Seq<ComponentView>,
    pos: Vec3,
    template: ApplyForce,
    roll: GibRoll,
) -> WorldView {
    let built = drafted(w, gib_prefab(), cs);
    built.with_lazy(built.lazy + gib_actions(w.slots.len() as u32, pos, template, roll))
}

/// The world after the first `n` chunks were spawned, in the order of the
/// rolls.
pub open spec fn gibs_spawned(
    w: WorldView,
    cs: Seq<ComponentView>,
    pos: Vec3,
    template: ApplyForce,
    rolls: Seq<GibRoll>,
    n: int,
) -> WorldView
    decreases n,
{
    if n <= 0 {
        w
    } else {
        gib_spawned(gibs_spawned(w, cs, pos, template, rolls, n - 1), cs, pos, template, rolls[n - 1])
    }
}

/// The world after what an explosion does to the entity itself: where the
/// explodeable says so, the entity's deletion is deferred; else, where the
/// explodeable says so, the explodeable is taken off the entity at once.
pub open spec fn spent(w: WorldView, entity: u32, x: Explodeable) -> WorldView {
    if x.delete_entity {
        w.with_lazy(w.lazy.push(LazyActionView::Delete { entity }))
    } else if x.delete_component {
        w.apply(LazyActionView::Remove { entity, kind: ComponentKind::Explodeable })
    } else {
        w
    }
}

/// Every mutation that is deferred for one chunk: those of its draft, then
/// what [`gib_actions`] lists.
pub open spec fn gib_block(
    id: u32,
    cs: Seq<ComponentView>,
    pos: Vec3,
    template: ApplyForce,
    roll: GibRoll,
) -> Seq<LazyActionView> {
    inserts(id, draft_components(gib_prefab(), cs)) + gib_actions(id, pos, template, roll)
}

/// Every mutation that is deferred for the first `n` chunks of an explosion
/// into a world of `base` entities, in order.
pub open spec fn gib_queue(
    base: int,
    cs: Seq<ComponentView>,
    pos: Vec3,
    template: ApplyForce,
    rolls: Seq<GibRoll>,
    n: int,
) -> Seq<LazyActionView>
    decreases n,
{
    if n <= 0 {
        Seq::empty()
    } else {
        gib_queue(base, cs, pos, template, rolls, n - 1) + gib_block(
            (base + n - 1) as u32,
            cs,
            pos,
            template,
            rolls[n - 1],
        )
    }
}

/// The appearance builder of a chunk: it names the image of the chunk's
/// roll and is not yet built.
pub open spec fn gib_builder(roll: GibRoll) -> ComponentView {
    ComponentView::AppearanceBuilder(
        AppearanceBuilderView {
            image_name: "melon_gib_"@ + numeral(roll.which_gib as nat),
            uv_adjust: Vec2 { x: Scalar { bits: ZERO_BITS }, y: Scalar { bits: ZERO_BITS } },
            size_override: Vec2 { x: Scalar { bits: ZERO_BITS }, y: Scalar { bits: ZERO_BITS } },
            built: false,
        },
    )
}

/// The force of a chunk: the vector of the chunk's roll, and the other
/// fields of the explodeable's force.
pub open spec fn gib_force(template: ApplyForce, roll: GibRoll) -> ComponentView {
    ComponentView::ApplyForce(
        ApplyForce {
            vec: roll.force,
            time_elapsed: template.time_elapsed,
            duration: template.duration,
            decay: template.decay,
        },
    )
}

/// What a chunk is after the flush: the components of the prefab of the
/// chunks and the tag put into a bare slot, the hitbox at the place of the
/// explosion, and the chunk's own appearance builder and force in place of
/// those of the prefab.
pub open spec fn gib_slot(
    cs: Seq<ComponentView>,
    pos: Vec3,
    template: ApplyForce,
    roll: GibRoll,
) -> SlotView {
    placed(
        assembled(SlotView::fresh(), draft_components(gib_prefab(), cs), cs.len() as int + 1),
        pos,
    ).insert(gib_builder(roll)).insert(gib_force(template, roll))
}

/// What the mutations of one chunk make of a bare slot.
pub proof fn lemma_gib_block(
    w: WorldView,
    id: u32,
    cs: Seq<ComponentView>,
    pos: Vec3,
    template: ApplyForce,
    roll: GibRoll,
)
    requires
        w.is_alive(id),
        w.slots[id as int] == SlotView::fresh(),
    ensures
        ({
            let block = gib_block(id, cs, pos, template, roll);
            w.apply_all(block, block.len() as int).slots[id as int] == gib_slot(
                cs,
                pos,
                template,
                roll,
            )
        }),
{
    let dc = draft_components(gib_prefab(), cs);
    let front = inserts(id, dc);
    let rest = gib_actions(id, pos, template, roll);
    let n = cs.len() as int + 1;
    lemma_apply_all_split(w, front, rest, 3);
    lemma_apply_inserts(w, id, dc, n);
    lemma_assembled_alive(SlotView::fresh(), dc, n);
    let w1 = w.apply_all(front, front.len() as int);
    assert(w1.slots[id as int] == assembled(SlotView::fresh(), dc, n));
    reveal_with_fuel(WorldView::apply_all, 4);
    let w2 = w1.apply(rest[0]);
    assert(w2.slots[id as int] == placed(w1.slots[id as int], pos));
    assert(w2.is_alive(id));
    let w3 = w2.apply(rest[1]);
    assert(w3.slots[id as int] == w2.slots[id as int].insert(gib_builder(roll)));
    let w4 = w3.apply(rest[2]);
    assert(w4.slots[id as int] == w3.slots[id as int].insert(gib_force(template, roll)));
    assert(w1.apply_all(rest, 3) == w4);
}

/// What the chunks of an explosion leave before the flush: one bare entity
/// for each chunk behind the entities that the world had, and behind the
/// queue that the world had the mutations of the chunks, in order.
pub proof fn lemma_gibs_spawned_shape(
    w: WorldView,
    cs: Seq<ComponentView>,
    pos: Vec3,
    template: ApplyForce,
    rolls: Seq<GibRoll>,
    n: int,
)
    requires
        0 <= n <= rolls.len(),
        w.slots.len() + n <= u32::MAX,
    ensures
        ({
            let g = gibs_spawned(w, cs, pos, template, rolls, n);
            &&& g.slots.len() == w.slots.len() + n
            &&& g.removed_phys == w.removed_phys
            &&& g.lazy == w.lazy + gib_queue(w.slots.len() as int, cs, pos, template, rolls, n)
            &&& forall|k: int| 0 <= k < w.slots.len() ==> g.slots[k] == w.slots[k]
            &&& forall|k: int| w.slots.len() <= k < g.slots.len() ==> g.slots[k] == SlotView::fresh()
        }),
    decreases n,
{
    if n > 0 {
        lemma_gibs_spawned_shape(w, cs, pos, template, rolls, n - 1);
        let g0 = gibs_spawned(w, cs, pos, template, rolls, n - 1);
        let g = gibs_spawned(w, cs, pos, template, rolls, n);
        let q0 = gib_queue(w.slots.len() as int, cs, pos, template, rolls, n - 1);
        let id = g0.slots.len() as u32;
        assert(id == (w.slots.len() + n - 1) as u32);
        assert(g.lazy =~= w.lazy + (q0 + gib_block(id, cs, pos, template, rolls[n - 1])));
    } else {
        assert(w.lazy + Seq::<LazyActionView>::empty() =~= w.lazy);
    }
}

/// The mutations of the first `n` chunks are about those chunks and no
/// other entity.
pub proof fn lemma_gib_queue_targets(
    base: int,
    cs: Seq<ComponentView>,
    pos: Vec3,
    template: ApplyForce,
    rolls: Seq<GibRoll>,
    n: int,
)
    requires
        0 <= n <= rolls.len(),
        0 <= base,
        base + n <= u32::MAX,
    ensures
        forall|k: int|
            0 <= k < gib_queue(base, cs, pos, template, rolls, n).len() ==> base <= target(
                #[trigger] gib_queue(base, cs, pos, template, rolls, n)[k],
            ) < base + n,
    decreases n,
{
    if n > 0 {
        lemma_gib_queue_targets(base, cs, pos, template, rolls, n - 1);
        let q0 = gib_queue(base, cs, pos, template, rolls, n - 1);
        let id = (base + n - 1) as u32;
        let block = gib_block(id, cs, pos, template, rolls[n - 1]);
        let q = gib_queue(base, cs, pos, template, rolls, n);
        let front = inserts(id, draft_components(gib_prefab(), cs));
        assert forall|k: int| 0 <= k < q.len() implies base <= target(#[trigger] q[k]) < base
            + n by {
            if k < q0.len() {
                assert(q[k] == q0[k]);
            } else {
                let j = k - q0.len();
                assert(q[k] == block[j]);
                if j < front.len() {
                    assert(block[j] == front[j]);
                } else {
                    assert(block[j] == gib_actions(id, pos, template, rolls[n - 1])[j
                        - front.len()]);
                }
            }
        }
    }
}

/// The queue of the first `n` chunks is the queue of the first `i`, the
/// mutations of chunk `i`, and a rest that is about later chunks only.
pub proof fn lemma_gib_queue_split(
    base: int,
    cs: Seq<ComponentView>,
    pos: Vec3,
    template: ApplyForce,
    rolls: Seq<GibRoll>,
    n: int,
    i: int,
) -> (rest: Seq<LazyActionView>)
    requires
        0 <= i < n <= rolls.len(),
        0 <= base,
        base + n <= u32::MAX,
    ensures
        gib_queue(base, cs, pos, template, rolls, n) == gib_queue(
            base,
            cs,
            pos,
            template,
            rolls,
            i,
        ) + gib_block((base + i) as u32, cs, pos, template, rolls[i]) + rest,
        forall|k: int| 0 <= k < rest.len() ==> base + i < target(#[trigger] rest[k]) < base + n,
    decreases n,
{
    let q0 = gib_queue(base, cs, pos, template, rolls, n - 1);
    let last = gib_block((base + n - 1) as u32, cs, pos, template, rolls[n - 1]);
    if i == n - 1 {
        let rest = Seq::<LazyActionView>::empty();
        assert(q0 + last + rest =~= q0 + last);
        rest
    } else {
        let rest0 = lemma_gib_queue_split(base, cs, pos, template, rolls, n - 1, i);
        let rest = rest0 + last;
        let qi = gib_queue(base, cs, pos, template, rolls, i);
        let bi = gib_block((base + i) as u32, cs, pos, template, rolls[i]);
        assert(qi + bi + rest =~= (qi + bi + rest0) + last);
        let id = (base + n - 1) as u32;
        let front = inserts(id, draft_components(gib_prefab(), cs));
        assert forall|k: int| 0 <= k < rest.len() implies base + i < target(#[trigger] rest[k])
            < base + n by {
            if k < rest0.len() {
                assert(rest[k] == rest0[k]);
            } else {
                let j = k - rest0.len();
                assert(rest[k] == last[j]);
                if j < front.len() {
                    assert(last[j] == front[j]);
                } else {
                    assert(last[j] == gib_actions(id, pos, template, rolls[n - 1])[j
                        - front.len()]);
                }
            }
        }
        rest
    }
}

/// The chunks of an explosion. Let the queue of a world hold only mutations
/// of entities that the world has, and let a live entity of it explode with
/// the rolls `rolls`. Then after the flush chunk `i` is alive and is what
/// [`gib_slot`] says: it is tagged as built from the prefab of the chunks, it
/// carries the force with the vector of roll `i` and the other fields of the
/// explodeable's force, in place of the force of the prefab, and the
/// appearance builder for the image that roll `i` names; and where the prefab
/// lists a hitbox, its hitbox is at the place of the explosion.
pub proof fn lemma_explosion_chunks(
    w: WorldView,
    cs: Seq<ComponentView>,
    pos: Vec3,
    x: Explodeable,
    rolls: Seq<GibRoll>,
    entity: u32,
    i: int,
)
    requires
        bounded(w.lazy, w.slots.len() as int),
        w.slots.len() + rolls.len() <= u32::MAX,
        entity < w.slots.len(),
        0 <= i < rolls.len(),
    ensures
        ({
            let after = spent(
                gibs_spawned(w, cs, pos, x.force, rolls, rolls.len() as int),
                entity,
                x,
            ).flushed();
            let chunk = (w.slots.len() + i) as u32;
            &&& after.slots.len() == w.slots.len() + rolls.len()
            &&& after.is_alive(chunk)
            &&& after.slots[chunk as int] == gib_slot(cs, pos, x.force, rolls[i])
            &&& after.get(chunk, ComponentKind::Assemblaged) == Some(tag(gib_prefab()))
            &&& after.get(chunk, ComponentKind::ApplyForce) == Some(gib_force(x.force, rolls[i]))
            &&& after.get(chunk, ComponentKind::AppearanceBuilder) == Some(gib_builder(rolls[i]))
            &&& lists_kind(cs, ComponentKind::Hitbox) ==> (after.get(
                chunk,
                ComponentKind::Hitbox,
            ) matches Some(ComponentView::Hitbox(h)) && h.position == pos)
        }),
{
    let n = rolls.len() as int;
    let base = w.slots.len() as int;
    let g = gibs_spawned(w, cs, pos, x.force, rolls, n);
    let s = spent(g, entity, x);
    let chunk = (base + i) as u32;
    lemma_gibs_spawned_shape(w, cs, pos, x.force, rolls, n);
    lemma_gib_queue_targets(base, cs, pos, x.force, rolls, i);
    let rest = lemma_gib_queue_split(base, cs, pos, x.force, rolls, n, i);
    let qi = gib_queue(base, cs, pos, x.force, rolls, i);
    let block = gib_block(chunk, cs, pos, x.force, rolls[i]);
    let before = w.lazy + qi;
    let behind = if x.delete_entity {
        rest.push(LazyActionView::Delete { entity })
    } else {
        rest
    };
    assert(g.lazy =~= before + block + rest);
    if x.delete_entity {
        assert(s.lazy =~= before + block + behind);
    } else if x.delete_component {
        lemma_apply_spares(
            g,
            LazyActionView::Remove { entity, kind: ComponentKind::Explodeable },
            chunk,
        );
    }
    assert(s.lazy == before + block + behind);
    assert(s.slots[chunk as int] == SlotView::fresh());
    assert(spares(before, chunk)) by {
        assert forall|k: int| 0 <= k < before.len() implies target(#[trigger] before[k])
            != chunk by {
            if k < w.lazy.len() {
                assert(before[k] == w.lazy[k]);
            } else {
                assert(before[k] == qi[k - w.lazy.len()]);
            }
        }
    }
    assert(spares(behind, chunk)) by {
        assert forall|k: int| 0 <= k < behind.len() implies target(#[trigger] behind[k])
            != chunk by {
            if k < rest.len() {
                assert(behind[k] == rest[k]);
            }
        }
    }
    lemma_flush_block(s, before, block, behind, chunk);
    lemma_gib_block(s.with_lazy(Seq::empty()), chunk, cs, pos, x.force, rolls[i]);
    let dc = draft_components(gib_prefab(), cs);
    let m = cs.len() as int + 1;
    let drafted_slot = assembled(SlotView::fresh(), dc, m);
    lemma_assembled_alive(SlotView::fresh(), dc, m);
    lemma_assembled_last(SlotView::fresh(), dc, m, m - 1);
    assert(drafted_slot.get(ComponentKind::Assemblaged) == Some(tag(gib_prefab())));
    if lists_kind(cs, ComponentKind::Hitbox) {
        let k = choose|k: int| 0 <= k < cs.len() && (#[trigger] cs[k]).kind()
            == ComponentKind::Hitbox;
        assert(dc[k].kind() == ComponentKind::Hitbox);
        let j = lemma_last_of_kind(dc, m, ComponentKind::Hitbox);
        lemma_assembled_last(SlotView::fresh(), dc, m, j);
        assert(dc[j] is Hitbox);
    }
}

/// The entity that explodes. Let the queue of a world hold no mutation of
/// a live entity, and let that entity explode with the explodeable `x`. Then
/// after the flush the entity is gone where `x` asks for its deletion; else
/// it is alive, with its explodeable taken off where `x` asks for that and
/// else as it was.
pub proof fn lemma_explosion_spends(
    w: WorldView,
    cs: Seq<ComponentView>,
    pos: Vec3,
    x: Explodeable,
    rolls: Seq<GibRoll>,
    entity: u32,
)
    requires
        w.slots.len() + rolls.len() <= u32::MAX,
        w.is_alive(entity),
        spares(w.lazy, entity),
    ensures
        ({
            let after = spent(
                gibs_spawned(w, cs, pos, x.force, rolls, rolls.len() as int),
                entity,
                x,
            ).flushed();
            &&& x.delete_entity ==> !after.is_alive(entity)
            &&& !x.delete_entity && x.delete_component ==> after.slots[entity as int]
                == w.slots[entity as int].remove(ComponentKind::Explodeable)
            &&& !x.delete_entity && !x.delete_component ==> after.slots[entity as int]
                == w.slots[entity as int]
        }),
{
    let n = rolls.len() as int;
    let base = w.slots.len() as int;
    let g = gibs_spawned(w, cs, pos, x.force, rolls, n);
    let s = spent(g, entity, x);
    lemma_gibs_spawned_shape(w, cs, pos, x.force, rolls, n);
    lemma_gib_queue_targets(base, cs, pos, x.force, rolls, n);
    let q = gib_queue(base, cs, pos, x.force, rolls, n);
    let before = w.lazy + q;
    let block = if x.delete_entity {
        seq![LazyActionView::Delete { entity }]
    } else {
        Seq::<LazyActionView>::empty()
    };
    let behind = Seq::<LazyActionView>::empty();
    assert(s.lazy =~= before + block + behind);
    assert(spares(before, entity)) by {
        assert forall|k: int| 0 <= k < before.len() implies target(#[trigger] before[k])
            != entity by {
            if k < w.lazy.len() {
                assert(before[k] == w.lazy[k]);
            } else {
                assert(before[k] == q[k - w.lazy.len()]);
            }
        }
    }
    lemma_flush_block(s, before, block, behind, entity);
    reveal_with_fuel(WorldView::apply_all, 2);
    assert(g.slots[entity as int] == w.slots[entity as int]);
}

/// Lets the entity `entity` explode: spawns one chunk for each roll at the
/// place of the entity's body, each built from the prefab of the chunks, with
/// an appearance builder for the image that its roll names and with the
/// explodeable's force along the vector of its roll; then defers the deletion
/// of the entity or takes its explodeable off, as the explodeable says.
/// Returns the ids of the chunks. Nothing of the chunks is attached before
/// the next flush.
///
/// Fails with `NotExplodeable` where the entity is not alive or has no
/// explodeable, else with `MissingPhys` where it has no live body, else with
/// `PrefabNotFound` where the catalog has no prefab for the chunks, else with
/// `NoHitbox` where that prefab lists no hitbox, else with
/// `WrongRollCount` where there is not one roll for each chunk, else with
/// `WorldFull` where the world cannot number the chunks. A failed call
/// changes nothing.
pub fn explode(
    world: &mut World,
    ps: &PhysState,
    assemblager: &Assemblager,
    entity: u32,
    rolls: &Vec<GibRoll>,
) -> (r: Result<Vec<u32>, ExplodeError>)
    requires
        old(world).wf(),
        assemblager.wf(),
    ensures
        final(world).wf(),
        match r {
            Ok(ids) => {
                let x = explodeable_of(old(world)@, entity)->0;
                let pos = crate::dyon::position_of(old(world)@, ps@, entity)->0;
                let cs = assemblager@.get(gib_prefab())->0;
                &&& explodeable_of(old(world)@, entity) is Some
                &&& crate::dyon::position_of(old(world)@, ps@, entity) is Some
                &&& assemblager@.get(gib_prefab()) is Some
                &&& lists_kind(cs, ComponentKind::Hitbox)
                &&& rolls@.len() == chunk_count(x)
                &&& old(world)@.slots.len() + rolls@.len() <= u32::MAX
                &&& ids@ == Seq::new(
                    rolls@.len(),
                    |i: int| (old(world)@.slots.len() + i) as u32,
                )
                &&& final(world)@ == spent(
                    gibs_spawned(old(world)@, cs, pos, x.force, rolls@, rolls@.len() as int),
                    entity,
                    x,
                )
            },
            Err(e) => {
                let no_explodeable = explodeable_of(old(world)@, entity) is None;
                let no_position = crate::dyon::position_of(old(world)@, ps@, entity) is None;
                let no_prefab = assemblager@.get(gib_prefab()) is None;
                let no_hitbox = !lists_kind(
                    assemblager@.get(gib_prefab())->0,
                    ComponentKind::Hitbox,
                );
                let wrong_count = rolls@.len() != chunk_count(
                    explodeable_of(old(world)@, entity)->0,
                );
                let full = old(world)@.slots.len() + rolls@.len() > u32::MAX;
                &&& final(world)@ == old(world)@
                &&& e == ExplodeError::NotExplodeable <==> no_explodeable
                &&& e == ExplodeError::MissingPhys <==> !no_explodeable && no_position
                &&& e == ExplodeError::PrefabNotFound <==> !no_explodeable && !no_position
                    && no_prefab
                &&& e == ExplodeError::NoHitbox <==> !no_explodeable && !no_position
                    && !no_prefab && no_hitbox
                &&& e == ExplodeError::WrongRollCount <==> !no_explodeable && !no_position
                    && !no_prefab && !no_hitbox && wrong_count
                &&& e == ExplodeError::WorldFull <==> !no_explodeable && !no_position
                    && !no_prefab && !no_hitbox && !wrong_count && full
            },
        },
{
    let x = match world.get(entity, ComponentKind::Explodeable) {
        Some(Component::Explodeable(x)) => *x,
        _ => {
            return Err(ExplodeError::NotExplodeable);
        },
    };
    let pos = match world.phys(entity) {
        Some(phys) => ps.location(&phys),
        None => None,
    };
    let pos = match pos {
        Some(pos) => pos,
        None => {
            return Err(ExplodeError::MissingPhys);
        },
    };
    match assemblager.get("melon gib") {
        Some(components) => {
            if !lists(components, ComponentKind::Hitbox) {
                return Err(ExplodeError::NoHitbox);
            }
        },
        None => {
            return Err(ExplodeError::PrefabNotFound);
        },
    }
    let chunks: usize = if x.chunks_count > 0 {
        x.chunks_count as usize
    } else {
        0
    };
    if rolls.len() != chunks {
        return Err(ExplodeError::WrongRollCount);
    }
    if rolls.len() > 0xFFFF_FFFF - world.entity_count() {
        return Err(ExplodeError::WorldFull);
    }
    let ghost w0 = old(world)@;
    let ghost cs = assemblager@.get(gib_prefab())->0;
    let mut ids: Vec<u32> = Vec::new();
    let mut i: usize = 0;
    while i < rolls.len()
        invariant
            i <= rolls.len(),
            world.wf(),
            assemblager.wf(),
            assemblager@.get(gib_prefab()) == Some(cs),
            lists_kind(cs, ComponentKind::Hitbox),
            w0.slots.len() + rolls.len() <= u32::MAX,
            world@ == gibs_spawned(w0, cs, pos, x.force, rolls@, i as int),
            world@.slots.len() == w0.slots.len() + i,
            ids@ == Seq::new(i as nat, |k: int| (w0.slots.len() + k) as u32),
        decreases rolls.len() - i,
    {
        let ghost before = world@;
        let roll = rolls[i];
        let id = match assemblager.build_at("melon gib", world, pos) {
            Ok(id) => id,
            Err(_) => {
                assert(false);
                0
            },
        };
        let mut image_name = String::from_str("melon_gib_");
        let number = u32_to_string(roll.which_gib);
        image_name.append(number.as_str());
        let mut builder = AppearanceBuilder::default();
        builder.image_name = image_name;
        world.defer(LazyAction::Insert { entity: id, component: Component::AppearanceBuilder(builder) });
        world.defer(
            LazyAction::Insert {
                entity: id,
                component: Component::ApplyForce(
                    ApplyForce {
                        vec: roll.force,
                        time_elapsed: x.force.time_elapsed,
                        duration: x.force.duration,
                        decay: x.force.decay,
                    },
                ),
            },
        );
        proof {
            let built = drafted(before, gib_prefab(), cs);
            let extra = gib_actions(id, pos, x.force, roll);
            assert(world@.lazy =~= built.lazy + extra);
        }
        let ghost ids_before = ids@;
        ids.push(id);
        assert(ids@ =~= Seq::new((i + 1) as nat, |k: int| (w0.slots.len() + k) as u32));
        i += 1;
    }
    if x.delete_entity {
        world.defer(LazyAction::Delete { entity });
    }
    match crate::util::as_some(x.delete_component && !x.delete_entity, entity) {
        Some(kept) => {
            world.remove(kept, ComponentKind::Explodeable);
        },
        None => {},
    }
    Ok(ids)
}

/// The live entities among the first `n` that can explode now: those with an
/// explodeable and a link to the physics world, in rising order.
pub open spec fn explosives(w: WorldView, n: int) -> Seq<u32>
    decreases n,
{
    if n <= 0 {
        Seq::empty()
    } else if explodeable_of(w, (n - 1) as u32) is Some && phys_of(w, (n - 1) as u32) is Some {
        explosives(w, n - 1).push((n - 1) as u32)
    } else {
        explosives(w, n - 1)
    }
}

/// The entities that the explosion effect bursts when its key is tapped:
/// every live entity with an explodeable and a link to the physics world.
pub fn exploding(world: &World) -> (r: Vec<u32>)
    requires
        world.wf(),
    ensures
        r@ == explosives(world@, world@.slots.len() as int),
{
    let count = world.entity_count();
    let mut out: Vec<u32> = Vec::new();
    let mut e: usize = 0;
    while e < count
        invariant
            e <= count,
            count == world@.slots.len(),
            count <= u32::MAX,
            world.wf(),
            out@ == explosives(world@, e as int),
        decreases count - e,
    {
        if world.has(e as u32, ComponentKind::Explodeable) && world.phys(e as u32).is_some() {
            assert(explodeable_of(world@, e as u32) is Some);
            out.push(e as u32);
        } else {
            assert(!(explodeable_of(world@, e as u32) is Some && phys_of(world@, e as u32) is Some));
        }
        e += 1;
    }
    out
}

/// The interactable of the live entity `entity`.
pub open spec fn interactable_of(w: WorldView, entity: u32) -> Option<ScriptEventView> {
    match w.get(entity, ComponentKind::Interactable) {
        Some(ComponentView::Interactable(i)) => Some(i.script),
        _ => None,
    }
}

/// The collision hook of the live entity `entity`.
pub open spec fn collide_hook_of(w: WorldView, entity: u32) -> Option<ScriptEventView> {
    match w.get(entity, ComponentKind::EmitCollideEvent) {
        Some(ComponentView::EmitCollideEvent(c)) => Some(c.script),
        _ => None,
    }
}

/// The world after the script `script` was raised on `entity` with the
/// payload `payload`: the entity carries the script event in place of any
/// that waited on it.
pub open spec fn raised(w: WorldView, entity: u32, script: ScriptEventView, payload: u32) -> WorldView {
    w.apply(
        LazyActionView::Insert {
            entity,
            component: ComponentView::ScriptEvent(
                ScriptEventView { function: script.function, payload },
            ),
        },
    )
}

/// The world after the player `player` interacted with `target`: where the
/// target is interactable, its script is raised on it with the player's id as
/// payload.
pub open spec fn interacted(w: WorldView, player: u32, target: u32) -> WorldView {
    match interactable_of(w, target) {
        Some(script) => raised(w, target, script, player),
        None => w,
    }
}

/// Lets the player `player` interact with `target`: raises the target's
/// script on the target, with the player's id as payload. Returns whether
/// the target is interactable; where it is not, nothing changes.
pub fn interact(world: &mut World, player: u32, target: u32) -> (r: bool)
    requires
        old(world).wf(),
    ensures
        final(world).wf(),
        r == interactable_of(old(world)@, target) is Some,
        final(world)@ == interacted(old(world)@, player, target),
{
    let event = match world.get(target, ComponentKind::Interactable) {
        Some(Component::Interactable(i)) => i.script.clone_with_payload(player),
        _ => {
            return false;
        },
    };
    world.insert(target, Component::ScriptEvent(event));
    true
}

/// The world after a contact between the bodies `one` and `two` began:
/// where both bodies are tagged with an entity, the collision hook of each of
/// the two entities, if it has one, is raised on it with the other entity's
/// id as payload, the first entity's first.
pub open spec fn contacted(w: WorldView, ps: PhysStateView, one: usize, two: usize) -> WorldView {
    match (ps.body(one), ps.body(two)) {
        (Some(a), Some(b)) => match (a.user_data, b.user_data) {
            (Some(ent_one), Some(ent_two)) => {
                let first = match collide_hook_of(w, ent_one) {
                    Some(script) => raised(w, ent_one, script, ent_two),
                    None => w,
                };
                match collide_hook_of(first, ent_two) {
                    Some(script) => raised(first, ent_two, script, ent_one),
                    None => first,
                }
            },
            _ => w,
        },
        _ => w,
    }
}

/// Consumes the event that a contact between the bodies `one` and `two`
/// began: raises the collision hooks of the two entities that own them.
pub fn contact_started(world: &mut World, ps: &PhysState, one: usize, two: usize)
    requires
        old(world).wf(),
    ensures
        final(world).wf(),
        final(world)@ == contacted(old(world)@, ps@, one, two),
{
    let (ent_one, ent_two) = match (ps.entity_of(one), ps.entity_of(two)) {
        (Some(a), Some(b)) => (a, b),
        _ => {
            return ;
        },
    };
    let first = match world.get(ent_one, ComponentKind::EmitCollideEvent) {
        Some(Component::EmitCollideEvent(c)) => Some(c.script.clone_with_payload(ent_two)),
        _ => None,
    };
    match first {
        Some(event) => {
            world.insert(ent_one, Component::ScriptEvent(event));
        },
        None => {},
    }
    let second = match world.get(ent_two, ComponentKind::EmitCollideEvent) {
        Some(Component::EmitCollideEvent(c)) => Some(c.script.clone_with_payload(ent_one)),
        _ => None,
    };
    match second {
        Some(event) => {
            world.insert(ent_two, Component::ScriptEvent(event));
        },
        None => {},
    }
}

/// The first among the entities from `from` on that is alive and carries
/// components of both types; `None` where there is none.
pub open spec fn first_with(w: WorldView, a: ComponentKind, b: ComponentKind, from: int) -> Option<
    u32,
>
    decreases w.slots.len() - from,
{
    if from < 0 || from >= w.slots.len() || from > u32::MAX {
        None
    } else if w.get(from as u32, a) is Some && w.get(from as u32, b) is Some {
        Some(from as u32)
    } else {
        first_with(w, a, b, from + 1)
    }
}

impl World {
    /// The live entity with the smallest id that carries components of both
    /// types.
    pub fn first_with(&self, a: ComponentKind, b: ComponentKind) -> (r: Option<u32>)
        requires
            self.wf(),
        ensures
            r == first_with(self@, a, b, 0),
    {
        let count = self.entity_count();
        let mut e: usize = 0;
        while e < count
            invariant
                e <= count,
                count == self@.slots.len(),
                count <= u32::MAX,
                self.wf(),
                first_with(self@, a, b, 0) == first_with(self@, a, b, e as int),
            decreases count - e,
        {
            if self.has(e as u32, a) && self.has(e as u32, b) {
                return Some(e as u32);
            }
            e += 1;
        }
        None
    }
}

/// The player: the live entity with the smallest id that has a link to the
/// physics world and movement controls.
pub fn player(world: &World) -> (r: Option<u32>)
    requires
        world.wf(),
    ensures
        r == first_with(world@, ComponentKind::Phys, ComponentKind::MovementControls, 0),
{
    world.first_with(ComponentKind::Phys, ComponentKind::MovementControls)
}

/// What is needed to build an entity's appearance: where its image lies in
/// the spritesheet, and what its builder says of size and adjustment.
#[derive(Clone, Copy, Debug, PartialEq, Eq, Structural)]
pub struct AppearancePlan {
    pub base: Rect,
    pub uv_adjust: Vec2,
    pub size_override: Vec2,
}

/// The appearance builder of the live entity `entity`.
pub open spec fn builder_of(w: WorldView, entity: u32) -> Option<AppearanceBuilderView> {
    match w.get(entity, ComponentKind::AppearanceBuilder) {
        Some(ComponentView::AppearanceBuilder(b)) => Some(b),
        _ => None,
    }
}

/// The plan for the appearance of `entity`: it has one where its builder is
/// not yet built and names an image of the index.
pub open spec fn appearance_plan(w: WorldView, images: Seq<ImageEntryView>, entity: u32) -> Option<
    AppearancePlan,
> {
    match builder_of(w, entity) {
        Some(b) => if b.built {
            None
        } else {
            match lookup(images, b.image_name, images.len() as int) {
                Some(base) => Some(
                    AppearancePlan {
                        base,
                        uv_adjust: b.uv_adjust,
                        size_override: b.size_override,
                    },
                ),
                None => None,
            }
        },
        None => None,
    }
}

/// The world after the appearance builder of `entity` was looked at: a
/// builder that was not yet built is marked as built, whether its image was
/// found or not.
pub open spec fn appearance_begun(w: WorldView, entity: u32) -> WorldView {
    match builder_of(w, entity) {
        Some(b) => if b.built {
            w
        } else {
            w.apply(
                LazyActionView::Insert {
                    entity,
                    component: ComponentView::AppearanceBuilder(
                        AppearanceBuilderView {
                            image_name: b.image_name,
                            uv_adjust: b.uv_adjust,
                            size_override: b.size_override,
                            built: true,
                        },
                    ),
                },
            )
        },
        None => w,
    }
}

/// Looks at the appearance builder of `entity`: marks a builder that is not
/// yet built as built, and hands out the plan for the appearance where the
/// builder names an image of the index. The caller computes the appearance
/// from the plan and attaches it.
pub fn begin_appearance(world: &mut World, images: &ImageBundle, entity: u32) -> (r: Option<
    AppearancePlan,
>)
    requires
        old(world).wf(),
    ensures
        final(world).wf(),
        r == appearance_plan(old(world)@, images@, entity),
        final(world)@ == appearance_begun(old(world)@, entity),
{
    let (marked, plan) = match world.get(entity, ComponentKind::AppearanceBuilder) {
        Some(Component::AppearanceBuilder(b)) => {
            if b.built {
                return None;
            }
            let plan = match images.get(b.image_name.as_str()) {
                Some(base) => Some(
                    AppearancePlan {
                        base,
                        uv_adjust: b.uv_adjust,
                        size_override: b.size_override,
                    },
                ),
                None => None,
            };
            (
                AppearanceBuilder {
                    image_name: b.image_name.clone(),
                    uv_adjust: b.uv_adjust,
                    size_override: b.size_override,
                    built: true,
                },
                plan,
            )
        },
        _ => {
            return None;
        },
    };
    world.insert(entity, Component::AppearanceBuilder(marked));
    plan
}

/// The camera focus of the live entity `entity`.
pub open spec fn focus_of(w: WorldView, entity: u32) -> Option<CameraFocus> {
    match w.get(entity, ComponentKind::CameraFocus) {
        Some(ComponentView::CameraFocus(f)) => Some(f),
        _ => None,
    }
}

/// The camera focus that the camera takes its zoom from after a load: that
/// of the live entity with the smallest id that has one.
pub fn find_camera_focus(world: &World) -> (r: Option<CameraFocus>)
    requires
        world.wf(),
    ensures
        r == match first_with(world@, ComponentKind::CameraFocus, ComponentKind::CameraFocus, 0) {
            Some(entity) => focus_of(world@, entity),
            None => None,
        },
{
    match world.first_with(ComponentKind::CameraFocus, ComponentKind::CameraFocus) {
        Some(entity) => match world.get(entity, ComponentKind::CameraFocus) {
            Some(Component::CameraFocus(f)) => Some(*f),
            _ => None,
        },
        None => None,
    }
}

} // verus!
