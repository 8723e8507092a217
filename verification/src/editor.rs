use vstd::prelude::*;
use crate::assemblages::{
    all_persistent, lists, lists_kind, put, tag, Assemblager, AssemblagerView, CatalogError,
};
use crate::compendium::{chosen_world, Compendium, CompendiumView};
use crate::local_state::{LocalState, LocalStateView};
use crate::scalar::Vec3;
use crate::systems::phys_of;
use crate::user_input::Key;
use crate::component::{kind_is_persistent, views, Component, ComponentKind, ComponentView};
use crate::comps::{Assemblaged, Hitbox, Phys};
use crate::phys_state::{BodyView, PhysState, PhysStateView};
use crate::world::{
    lemma_last_of_kind, LazyAction,
    assembled, lemma_assembled_absent, lemma_assembled_alive, lemma_assembled_last, LazyActionView,
    SlotView, World, WorldView,
};

verus! {

/// Why a component could not be copied onto an entity.
#[derive(Clone, Copy, Debug, PartialEq, Eq, Structural)]
pub enum CopyError {
    /// The target entity is not alive.
    DeadEntity,
    /// A hitbox was to be copied onto an entity that has no live body to take
    /// its position and rotation from.
    MissingPhys,
}

/// The live body of an entity: the body that the entity's `Phys` component
/// links to.
pub open spec fn live_body(slot: SlotView, ps: PhysStateView) -> Option<BodyView> {
    match slot.get(ComponentKind::Phys) {
        Some(ComponentView::Phys(phys)) => ps.body(phys.body),
        _ => None,
    }
}

/// The value that copying `c` onto an entity with the live body `body`
/// writes: `c` itself, but for a hitbox, which keeps the position and the
/// rotation of the live body and takes the rest from `c`.
pub open spec fn copy_value(c: ComponentView, body: Option<BodyView>) -> ComponentView {
    match (c, body) {
        (ComponentView::Hitbox(h), Some(b)) => ComponentView::Hitbox(
            Hitbox {
                position: b.position,
                rotation: b.rotation,
                scale: h.scale,
                density: h.density,
                physics_interaction: h.physics_interaction,
            },
        ),
        _ => c,
    }
}

/// Whether `c` can be copied onto an entity with the live body `body`: a
/// hitbox asks for a live body.
pub open spec fn can_copy(c: ComponentView, body: Option<BodyView>) -> bool {
    c is Hitbox ==> body is Some
}

/// The values that copying the components `cs` onto an entity with the live
/// body `body` writes, in order.
pub open spec fn copy_values(cs: Seq<ComponentView>, body: Option<BodyView>) -> Seq<ComponentView> {
    Seq::new(cs.len(), |i: int| copy_value(cs[i], body))
}

/// Whether the live entity `entity` is tagged as built from the prefab
/// called `name`.
pub open spec fn built_from(w: WorldView, entity: u32, name: Seq<char>) -> bool {
    entity < w.slots.len() && is_instance(w.slots[entity as int], name)
}

/// Whether the slot is that of a live entity tagged as built from the prefab
/// called `name`.
pub open spec fn is_instance(slot: SlotView, name: Seq<char>) -> bool {
    slot.alive && slot.get(ComponentKind::Assemblaged) == Some(tag(name))
}

/// The world after the definition `cs` of the prefab called `name` was
/// pushed to its live instances: every live entity tagged with that name has
/// each component of the definition written over its own, in catalog order,
/// a hitbox keeping the entity's live position and rotation. Every other
/// entity is as it was.
pub open spec fn pushed(w: WorldView, ps: PhysStateView, name: Seq<char>, cs: Seq<ComponentView>) -> WorldView {
    WorldView {
        slots: Seq::new(
            w.slots.len(),
            |e: int|
                if is_instance(w.slots[e], name) {
                    assembled(
                        w.slots[e],
                        copy_values(cs, live_body(w.slots[e], ps)),
                        cs.len() as int,
                    )
                } else {
                    w.slots[e]
                },
        ),
        lazy: w.lazy,
        removed_phys: w.removed_phys,
    }
}

/// Whether the definition `cs` can be pushed to every live instance of the
/// prefab called `name`: where it lists a hitbox, each instance has a live
/// body.
pub open spec fn can_push(w: WorldView, ps: PhysStateView, name: Seq<char>, cs: Seq<ComponentView>) -> bool {
    lists_kind(cs, ComponentKind::Hitbox) ==> forall|e: int|
        0 <= e < w.slots.len() && is_instance(#[trigger] w.slots[e], name) ==> live_body(
            w.slots[e],
            ps,
        ) is Some
}

impl Component {
    /// Writes this component's value onto `target`, in place of the
    /// component of its type that the entity has. A hitbox keeps the
    /// position and the rotation of the entity's live body and takes its
    /// other fields from `self`.
    ///
    /// Fails with `DeadEntity` where `target` is not alive, else with
    /// `MissingPhys` where `self` is a hitbox and `target` has no live body.
    /// A failed call changes nothing.
    pub fn copy_self_to(&self, world: &mut World, ps: &PhysState, target: u32) -> (r: Result<
        (),
        CopyError,
    >)
        requires
            old(world).wf(),
        ensures
            final(world).wf(),
            match r {
                Ok(()) => {
                    let slot = old(world)@.slots[target as int];
                    &&& old(world)@.is_alive(target)
                    &&& can_copy(self@, live_body(slot, ps@))
                    &&& final(world)@ == old(world)@.with_slot(
                        target,
                        slot.insert(copy_value(self@, live_body(slot, ps@))),
                    )
                },
                Err(e) => {
                    &&& final(world)@ == old(world)@
                    &&& e == CopyError::DeadEntity <==> !old(world)@.is_alive(target)
                    &&& e == CopyError::MissingPhys <==> old(world)@.is_alive(target) && !can_copy(
                        self@,
                        live_body(old(world)@.slots[target as int], ps@),
                    )
                },
            },
    {
        if !world.is_alive(target) {
            return Err(CopyError::DeadEntity);
        }
        let value = match self {
            Component::Hitbox(h) => {
                let body = match world.get(target, ComponentKind::Phys) {
                    Some(Component::Phys(phys)) => ps.rigid_body(phys),
                    _ => None,
                };
                match body {
                    Some(b) => Component::Hitbox(
                        Hitbox {
                            position: b.position,
                            rotation: b.rotation,
                            scale: h.scale,
                            density: h.density,
                            physics_interaction: h.physics_interaction,
                        },
                    ),
                    None => {
                        return Err(CopyError::MissingPhys);
                    },
                }
            },
            other => other.boxed_clone(),
        };
        world.insert(target, value);
        Ok(())
    }
}

/// Why a prefab's definition could not be pushed to its instances.
#[derive(Clone, Copy, Debug, PartialEq, Eq, Structural)]
pub enum PushError {
    /// The catalog has no prefab of that name.
    PrefabNotFound,
    /// The definition lists a hitbox, and an instance has no live body to
    /// take its position and rotation from.
    MissingPhys,
}

impl World {
    /// Whether the live entity `entity` is tagged as built from the prefab
    /// called `name`.
    pub fn is_built_from(&self, entity: u32, name: &str) -> (r: bool)
        requires
            self.wf(),
        ensures
            r == built_from(self@, entity, name@),
    {
        match self.get(entity, ComponentKind::Assemblaged) {
            Some(Component::Assemblaged(a)) => {
                let wanted = name.to_owned();
                a.built_from == wanted
            },
            _ => false,
        }
    }

    /// Whether the live entity `entity` has a live body.
    pub fn has_live_body(&self, ps: &PhysState, entity: u32) -> (r: bool)
        requires
            self.wf(),
        ensures
            r == (self@.is_alive(entity) && live_body(self@.slots[entity as int], ps@) is Some),
    {
        match self.get(entity, ComponentKind::Phys) {
            Some(Component::Phys(phys)) => ps.rigid_body(phys).is_some(),
            _ => false,
        }
    }
}

/// Copying saved components onto an entity leaves the entity's live body,
/// its tag where the list holds none, and its being alive as they were.
pub proof fn lemma_copy_keeps(slot: SlotView, ps: PhysStateView, vals: Seq<ComponentView>, n: int)
    requires
        0 <= n <= vals.len(),
        all_persistent(vals),
    ensures
        live_body(assembled(slot, vals, n), ps) == live_body(slot, ps),
        assembled(slot, vals, n).alive == slot.alive,
        !lists_kind(vals, ComponentKind::Assemblaged) ==> assembled(slot, vals, n).get(
            ComponentKind::Assemblaged,
        ) == slot.get(ComponentKind::Assemblaged),
{
    lemma_assembled_alive(slot, vals, n);
    assert forall|j: int| 0 <= j < n implies (#[trigger] vals[j]).kind()
        != ComponentKind::Phys by {
        assert(kind_is_persistent(vals[j].kind()));
    }
    lemma_assembled_absent(slot, vals, n, ComponentKind::Phys);
    if !lists_kind(vals, ComponentKind::Assemblaged) {
        lemma_assembled_absent(slot, vals, n, ComponentKind::Assemblaged);
    }
}

/// Putting a list of components into a slot a second time changes nothing.
pub proof fn lemma_assembled_twice(slot: SlotView, cs: Seq<ComponentView>)
    ensures
        assembled(assembled(slot, cs, cs.len() as int), cs, cs.len() as int) == assembled(
            slot,
            cs,
            cs.len() as int,
        ),
{
    let n = cs.len() as int;
    let once = assembled(slot, cs, n);
    let twice = assembled(once, cs, n);
    lemma_assembled_alive(slot, cs, n);
    lemma_assembled_alive(once, cs, n);
    assert forall|kind: ComponentKind| twice.get(kind) == once.get(kind) by {
        if exists|i: int| 0 <= i < n && (#[trigger] cs[i]).kind() == kind {
            let j = lemma_last_of_kind(cs, n, kind);
            lemma_assembled_last(slot, cs, n, j);
            lemma_assembled_last(once, cs, n, j);
        } else {
            lemma_assembled_absent(once, cs, n, kind);
        }
    }
    assert forall|kind: ComponentKind| #[trigger]
        twice.components.dom().contains(kind) == once.components.dom().contains(kind) by {
        assert(twice.get(kind) == once.get(kind));
    }
    assert forall|kind: ComponentKind| twice.components.dom().contains(kind) implies #[trigger] twice.components[kind]
        == once.components[kind] by {
        assert(twice.get(kind) == once.get(kind));
    }
    assert(twice.components =~= once.components);
}

/// Push-changes idempotence: pushing a prefab's definition to its live
/// instances a second time, with the catalog and the bodies unchanged in
/// between, leaves every entity as the first push left it. The definition
/// must list no tag: a push of one would re-tag the instances.
pub proof fn lemma_push_idempotent(
    w: WorldView,
    ps: PhysStateView,
    name: Seq<char>,
    cs: Seq<ComponentView>,
)
    requires
        all_persistent(cs),
        !lists_kind(cs, ComponentKind::Assemblaged),
    ensures
        pushed(pushed(w, ps, name, cs), ps, name, cs) == pushed(w, ps, name, cs),
{
    let once = pushed(w, ps, name, cs);
    let twice = pushed(once, ps, name, cs);
    let n = cs.len() as int;
    assert forall|e: int| 0 <= e < w.slots.len() implies twice.slots[e] == once.slots[e] by {
        let slot = w.slots[e];
        let vals = copy_values(cs, live_body(slot, ps));
        assert(all_persistent(vals)) by {
            assert forall|i: int| 0 <= i < vals.len() implies kind_is_persistent(
                (#[trigger] vals[i]).kind(),
            ) by {
                assert(kind_is_persistent(cs[i].kind()));
            }
        }
        assert(!lists_kind(vals, ComponentKind::Assemblaged)) by {
            if lists_kind(vals, ComponentKind::Assemblaged) {
                let i = choose|i: int|
                    0 <= i < vals.len() && (#[trigger] vals[i]).kind()
                        == ComponentKind::Assemblaged;
                assert(cs[i].kind() == ComponentKind::Assemblaged);
            }
        }
        if is_instance(slot, name) {
            lemma_copy_keeps(slot, ps, vals, n);
            assert(is_instance(once.slots[e], name));
            assert(live_body(once.slots[e], ps) == live_body(slot, ps));
            lemma_assembled_twice(slot, vals);
        }
    }
    assert(twice.slots =~= once.slots);
}

impl Assemblager {
    /// Pushes the definition of the prefab called `assemblage_key` to its
    /// live instances: copies each component of the definition, in catalog
    /// order, onto every live entity that is tagged as built from that prefab.
    /// The instances are overwritten, not compared; a hitbox keeps the
    /// instance's live position and rotation.
    ///
    /// Fails with `PrefabNotFound` where the catalog has no such prefab, and
    /// with `MissingPhys` where the definition lists a hitbox and an instance
    /// has no live body. A failed call changes nothing.
    #[verifier::loop_isolation(false)]
    pub fn push_changes(&self, assemblage_key: &str, world: &mut World, ps: &PhysState) -> (r: Result<
        (),
        PushError,
    >)
        requires
            self.wf(),
            old(world).wf(),
        ensures
            final(world).wf(),
            match r {
                Ok(()) => self@.get(assemblage_key@) matches Some(cs) && can_push(
                    old(world)@,
                    ps@,
                    assemblage_key@,
                    cs,
                ) && final(world)@ == pushed(old(world)@, ps@, assemblage_key@, cs),
                Err(e) => {
                    &&& final(world)@ == old(world)@
                    &&& e == PushError::PrefabNotFound <==> self@.get(assemblage_key@) is None
                    &&& e == PushError::MissingPhys <==> (self@.get(assemblage_key@) matches Some(
                        cs,
                    ) && !can_push(old(world)@, ps@, assemblage_key@, cs))
                },
            },
    {
        let components = match self.get(assemblage_key) {
            Some(cs) => cs,
            None => {
                return Err(PushError::PrefabNotFound);
            },
        };
        let ghost cs = views(components@);
        let ghost w0 = old(world)@;
        let ghost name = assemblage_key@;
        let count = world.entity_count();
        if lists(components, ComponentKind::Hitbox) {
            let mut e: usize = 0;
            while e < count
                invariant
                    e <= count,
                    forall|k: int|
                        0 <= k < e && is_instance(#[trigger] w0.slots[k], name) ==> live_body(
                            w0.slots[k],
                            ps@,
                        ) is Some,
                decreases count - e,
            {
                if world.is_built_from(e as u32, assemblage_key) && !world.has_live_body(
                    ps,
                    e as u32,
                ) {
                    assert(is_instance(w0.slots[e as int], name));
                    return Err(PushError::MissingPhys);
                }
                e += 1;
            }
        }
        assert(can_push(w0, ps@, name, cs));
        let mut e: usize = 0;
        while e < count
            invariant
                e <= count,
                world.wf(),
                world@.slots.len() == count,
                world@.lazy == w0.lazy,
                world@.removed_phys == w0.removed_phys,
                forall|k: int| 0 <= k < e ==> world@.slots[k] == pushed(w0, ps@, name, cs).slots[k],
                forall|k: int| e <= k < count ==> world@.slots[k] == w0.slots[k],
            decreases count - e,
        {
            if world.is_built_from(e as u32, assemblage_key) {
                let ghost slot = w0.slots[e as int];
                let ghost body = live_body(slot, ps@);
                let ghost vals = copy_values(cs, body);
                proof {
                    assert(all_persistent(vals)) by {
                        assert forall|i: int| 0 <= i < vals.len() implies kind_is_persistent(
                            (#[trigger] vals[i]).kind(),
                        ) by {
                            assert(kind_is_persistent(cs[i].kind()));
                        }
                    }
                }
                let mut i: usize = 0;
                while i < components.len()
                    invariant
                        i <= components.len(),
                        world.wf(),
                        world@.slots.len() == count,
                        world@.lazy == w0.lazy,
                        world@.removed_phys == w0.removed_phys,
                        world@.slots[e as int] == assembled(slot, vals, i as int),
                        forall|k: int|
                            0 <= k < e ==> world@.slots[k] == pushed(w0, ps@, name, cs).slots[k],
                        forall|k: int| e < k < count ==> world@.slots[k] == w0.slots[k],
                    decreases components.len() - i,
                {
                    proof {
                        lemma_copy_keeps(slot, ps@, vals, i as int);
                        assert(is_instance(w0.slots[e as int], name));
                        assert(cs[i as int] == components[i as int]@);
                        if cs[i as int] is Hitbox {
                            assert(cs[i as int].kind() == ComponentKind::Hitbox);
                            assert(lists_kind(cs, ComponentKind::Hitbox));
                        }
                    }
                    let copied = components[i].copy_self_to(world, ps, e as u32);
                    assert(copied is Ok);
                    assert(vals[i as int] == copy_value(cs[i as int], body));
                    i += 1;
                }
            }
            e += 1;
        }
        assert(world@.slots =~= pushed(w0, ps@, name, cs).slots);
        Ok(())
    }
}

/// What an edit of an entity's hitbox did to the entity's body.
#[derive(Clone, Copy, Debug, PartialEq, Eq, Structural)]
pub enum HitboxEdit {
    /// The edited hitbox is the one that describes the body: nothing was
    /// done.
    Unchanged,
    /// Scale and interaction flag are as they were: the body was moved and
    /// turned in place.
    Repositioned,
    /// Scale or interaction flag changed: the body was destroyed, and a new
    /// one was built from the edited hitbox, tagged with the entity and
    /// linked to it.
    Rebuilt(Phys),
}

/// What an edit of the hitbox of a body does, by the hitbox `before` that
/// describes the body and the hitbox `edited` that the user left.
pub open spec fn hitbox_edit_kind(before: Hitbox, edited: Hitbox, next_handle: usize) -> HitboxEdit {
    if edited == before {
        HitboxEdit::Unchanged
    } else if edited.scale == before.scale && edited.physics_interaction
        == before.physics_interaction {
        HitboxEdit::Repositioned
    } else {
        HitboxEdit::Rebuilt(Phys { body: next_handle })
    }
}

/// The state after the user left `edited` as the hitbox of the entity
/// `entity`, whose link is `phys` and whose body is described by `before`.
pub open spec fn hitbox_edited(
    w: WorldView,
    ps: PhysStateView,
    entity: u32,
    phys: Phys,
    edited: Hitbox,
) -> (WorldView, PhysStateView) {
    let body = ps.body(phys.body)->0;
    match hitbox_edit_kind(body.hitbox(), edited, ps.bodies.len() as usize) {
        HitboxEdit::Unchanged => (w, ps),
        HitboxEdit::Repositioned => (
            w,
            ps.with_bodies(
                ps.bodies.update(
                    phys.body as int,
                    Some(body.moved(edited.position, edited.rotation)),
                ),
            ),
        ),
        HitboxEdit::Rebuilt(link) => (
            w.apply(
                LazyActionView::Insert { entity, component: ComponentView::Phys(link) },
            ),
            ps.with_bodies(
                ps.without(phys.body).push(Some(ps.body_from(edited).tagged(entity))),
            ),
        ),
    }
}

/// Applies the hitbox `edited` that the user left for the entity `entity`
/// to the entity's body. Where `edited` is the hitbox that describes the
/// body, nothing is done. Where only position or rotation (or density)
/// differ, the body is moved and turned in place. Where scale or interaction
/// flag differ, the body is destroyed and a new one is built from `edited`,
/// tagged with the entity and linked to it.
///
/// Fails with `MissingPhys`, and changes nothing, where the entity has no
/// live body.
pub fn edit_hitbox(world: &mut World, ps: &mut PhysState, entity: u32, edited: Hitbox) -> (r: Result<
    HitboxEdit,
    CopyError,
>)
    requires
        old(world).wf(),
        old(ps).wf(),
    ensures
        final(world).wf(),
        final(ps).wf(),
        match r {
            Ok(edit) => {
                let phys = phys_of(old(world)@, entity)->0;
                &&& phys_of(old(world)@, entity) is Some
                &&& old(ps)@.body(phys.body) is Some
                &&& edit == hitbox_edit_kind(
                    old(ps)@.body(phys.body)->0.hitbox(),
                    edited,
                    old(ps)@.bodies.len() as usize,
                )
                &&& (final(world)@, final(ps)@) == hitbox_edited(
                    old(world)@,
                    old(ps)@,
                    entity,
                    phys,
                    edited,
                )
            },
            Err(e) => {
                &&& e == CopyError::MissingPhys
                &&& !(phys_of(old(world)@, entity) matches Some(phys) && old(ps)@.body(phys.body)
                    is Some)
                &&& final(world)@ == old(world)@
                &&& final(ps)@ == old(ps)@
            },
        },
{
    let phys = match world.phys(entity) {
        Some(phys) => phys,
        None => {
            return Err(CopyError::MissingPhys);
        },
    };
    let before = match ps.hitbox_from_phys(&phys) {
        Some(h) => h,
        None => {
            return Err(CopyError::MissingPhys);
        },
    };
    if edited == before {
        return Ok(HitboxEdit::Unchanged);
    }
    if edited.scale == before.scale && edited.physics_interaction == before.physics_interaction {
        let moved = ps.set_position(&phys, &edited.position, &edited.rotation);
        assert(moved is Ok);
        return Ok(HitboxEdit::Repositioned);
    }
    ps.remove_body(&phys);
    let link = ps.phys_from_hitbox(&edited);
    let tagged = ps.name_as_ent(&link, entity);
    assert(tagged is Ok);
    world.insert(entity, Component::Phys(link));
    proof {
        let (w1, ps1) = hitbox_edited(old(world)@, old(ps)@, entity, phys, edited);
        assert(ps@.bodies =~= ps1.bodies);
    }
    Ok(HitboxEdit::Rebuilt(link))
}

/// What the place controls ask of the physics side in a frame.
#[derive(Clone, Copy, Debug, PartialEq, Eq, Structural)]
pub struct PlaceAction {
    /// The entity to move to where the cursor points on the ground, if any.
    pub follow: Option<u32>,
    /// Whether to choose the entity whose body the cursor points at.
    pub select: bool,
}

/// Whether the mouse button went down in the last frame.
pub open spec fn clicked(ls: LocalStateView) -> bool {
    ls.last_input.mouse_state == Some(true)
}

/// Whether the chosen entity follows the mouse after the keys of the frame
/// were seen: `G` toggles it while an entity is chosen.
pub open spec fn mouselock_after_keys(chosen: Option<u32>, mouselock: bool, ls: LocalStateView) -> bool {
    if chosen is Some && ls.tapped_keys.contains(Key::G) {
        !mouselock
    } else {
        mouselock
    }
}

/// Whether the chosen entity is moved in this frame: it follows the mouse,
/// has a link to the physics world, and the cursor moved or the button went
/// down.
pub open spec fn follows(
    chosen: Option<u32>,
    mouselock: bool,
    ls: LocalStateView,
    w: WorldView,
) -> bool {
    &&& chosen is Some
    &&& mouselock_after_keys(chosen, mouselock, ls)
    &&& phys_of(w, chosen->0) is Some
    &&& (ls.last_input.mouse_pos is Some || clicked(ls))
}

/// Whether the chosen entity follows the mouse at the end of the frame: a
/// click places an entity that follows it and has a link to the physics
/// world.
pub open spec fn mouselock_after(
    chosen: Option<u32>,
    mouselock: bool,
    ls: LocalStateView,
    w: WorldView,
) -> bool {
    let locked = mouselock_after_keys(chosen, mouselock, ls);
    if chosen is Some && locked && phys_of(w, chosen->0) is Some && clicked(ls) {
        false
    } else {
        locked
    }
}

impl Compendium {
    /// The place controls of one frame. While an entity is chosen, a tap of
    /// `G` toggles whether it follows the mouse. An entity that follows the
    /// mouse and has a link to the physics world is to be moved when the
    /// cursor moved or the button went down, and a click places it: it
    /// follows the mouse no more. A click while nothing follows the mouse
    /// (any more) asks to choose what the cursor points at.
    pub fn place_controls(&mut self, ls: &LocalState, world: &World) -> (r: PlaceAction)
        requires
            world.wf(),
        ensures
            final(self)@ == (CompendiumView {
                mouselock_chosen_ent: mouselock_after(
                    old(self).chosen_ent,
                    old(self).mouselock_chosen_ent,
                    ls@,
                    world@,
                ),
                ..old(self)@
            }),
            r.follow == if follows(
                old(self).chosen_ent,
                old(self).mouselock_chosen_ent,
                ls@,
                world@,
            ) {
                old(self).chosen_ent
            } else {
                None
            },
            r.select == (clicked(ls@) && !final(self).mouselock_chosen_ent),
    {
        let mouse_clicked_this_frame = match ls.last_input.mouse_state {
            Some(down) => down,
            None => false,
        };
        let mut follow: Option<u32> = None;
        match self.chosen_ent {
            Some(ent) => {
                if ls.tapped(Key::G) {
                    self.mouselock_chosen_ent = !self.mouselock_chosen_ent;
                }
                if self.mouselock_chosen_ent && world.phys(ent).is_some() {
                    if ls.last_input.mouse_pos.is_some() || mouse_clicked_this_frame {
                        follow = Some(ent);
                    }
                    if mouse_clicked_this_frame {
                        self.mouselock_chosen_ent = false;
                    }
                }
            },
            None => {},
        }
        PlaceAction { follow, select: mouse_clicked_this_frame && !self.mouselock_chosen_ent }
    }

    /// Chooses the entity that the name of the body with handle `handle`
    /// names: the body that the cursor points at. Returns whether an entity
    /// was chosen; where the name names no live entity, nothing changes. A
    /// click on the body of a live entity that is tagged with it chooses that
    /// entity.
    pub fn choose_clicked(&mut self, world: &mut World, ps: &PhysState, handle: usize) -> (r: bool)
        requires
            old(world).wf(),
        ensures
            final(world).wf(),
            ({
                let named = match ps@.body(handle) {
                    Some(b) => crate::phys_state::json_u32(b.name),
                    None => None,
                };
                &&& r == (named matches Some(id) && old(world)@.is_alive(id))
                &&& r ==> final(self)@ == (CompendiumView { chosen_ent: named, ..old(self)@ })
                    && final(world)@ == chosen_world(
                    old(world)@,
                    old(self).chosen_ent,
                    old(self).mouselock_chosen_ent,
                    named->0,
                )
                &&& !r ==> final(self)@ == old(self)@ && final(world)@ == old(world)@
            }),
            forall|id: u32|
                ps@.body(handle) matches Some(b) && b.name == crate::phys_state::numeral(
                    id as nat,
                ) && old(world)@.is_alive(id) ==> r && final(self).chosen_ent == Some(id),
    {
        match ps.entity_named(handle) {
            Some(id) => self.choose_ent(id, world),
            None => false,
        }
    }

    /// Shows the prefab called `assemblage_key` in the type editor, or
    /// closes the type editor where it shows a prefab.
    pub fn toggle_editing(&mut self, assemblage_key: &str)
        ensures
            final(self)@ == (CompendiumView {
                editing_assemblage: match old(self)@.editing_assemblage {
                    Some(_) => None,
                    None => Some(assemblage_key@),
                },
                ..old(self)@
            }),
    {
        if self.editing_assemblage.is_some() {
            self.editing_assemblage = None;
        } else {
            self.editing_assemblage = Some(assemblage_key.to_owned());
        }
    }

    /// Makes the typed name a new type: stores a prefab without components
    /// under it, in place of any prefab of that name.
    pub fn new_type(&self, assemblager: &mut Assemblager)
        requires
            old(assemblager).wf(),
        ensures
            final(assemblager).wf(),
            final(assemblager)@.components == old(assemblager)@.components,
            final(assemblager)@.assemblages == put(
                old(assemblager)@.assemblages,
                self.wip_type_name@,
                Seq::empty(),
            ),
    {
        let components: Vec<Component> = Vec::new();
        assert(views(components@) =~= Seq::empty());
        assemblager.insert(self.wip_type_name.as_str(), components);
    }

    /// Begins to place an entity of the prefab called `assemblage_key`:
    /// builds one, chooses it in place of the entity chosen before, and lets it
    /// follow the mouse until a click places it.
    ///
    /// Fails with `PrefabNotFound`, and changes nothing, where the catalog has
    /// no such prefab.
    pub fn place(&mut self, assemblager: &Assemblager, world: &mut World, assemblage_key: &str) -> (r: Result<
        u32,
        CatalogError,
    >)
        requires
            assemblager.wf(),
            old(world).wf(),
            old(world)@.slots.len() < u32::MAX,
        ensures
            final(world).wf(),
            match r {
                Ok(entity) => {
                    &&& assemblager@.get(assemblage_key@) is Some
                    &&& entity == old(world)@.slots.len()
                    &&& final(world)@ == chosen_world(
                        crate::assemblages::drafted(
                            old(world)@,
                            assemblage_key@,
                            assemblager@.get(assemblage_key@)->0,
                        ),
                        old(self).chosen_ent,
                        old(self).mouselock_chosen_ent,
                        entity,
                    )
                    &&& final(self)@ == (CompendiumView {
                        chosen_ent: Some(entity),
                        mouselock_chosen_ent: true,
                        place_assemblage: Some(assemblage_key@),
                        ..old(self)@
                    })
                },
                Err(e) => {
                    &&& e == CatalogError::PrefabNotFound
                    &&& assemblager@.get(assemblage_key@) is None
                    &&& final(world)@ == old(world)@
                    &&& final(self)@ == old(self)@
                },
            },
    {
        let entity = match assemblager.build(assemblage_key, world) {
            Ok(entity) => entity,
            Err(e) => {
                return Err(e);
            },
        };
        let chosen = self.choose_ent(entity, world);
        assert(chosen);
        self.mouselock_chosen_ent = true;
        self.place_assemblage = Some(assemblage_key.to_owned());
        Ok(entity)
    }

    /// Removes the chosen entity: defers its deletion and chooses nothing.
    /// Returns the entity, if one was chosen.
    pub fn remove_chosen(&mut self, world: &mut World) -> (r: Option<u32>)
        requires
            old(world).wf(),
        ensures
            final(world).wf(),
            r == old(self).chosen_ent,
            final(self)@ == (CompendiumView { chosen_ent: None, ..old(self)@ }),
            final(world)@ == match r {
                Some(ent) => old(world)@.with_lazy(
                    old(world)@.lazy.push(LazyActionView::Delete { entity: ent }),
                ),
                None => old(world)@,
            },
    {
        let chosen = self.chosen_ent;
        match chosen {
            Some(ent) => {
                world.defer(LazyAction::Delete { entity: ent });
            },
            None => {},
        }
        self.chosen_ent = None;
        chosen
    }
}

/// The name of the prefab that the live entity `entity` is tagged with.
pub open spec fn prefab_of(w: WorldView, entity: u32) -> Option<Seq<char>> {
    match w.get(entity, ComponentKind::Assemblaged) {
        Some(ComponentView::Assemblaged(a)) => Some(a.built_from),
        _ => None,
    }
}

/// The first hitbox in a list of components.
pub open spec fn first_hitbox(cs: Seq<ComponentView>, from: int) -> Option<Hitbox>
    decreases cs.len() - from,
{
    if from < 0 || from >= cs.len() {
        None
    } else {
        match cs[from] {
            ComponentView::Hitbox(h) => Some(h),
            _ => first_hitbox(cs, from + 1),
        }
    }
}

/// Why the editor could not do what it was asked.
#[derive(Clone, Copy, Debug, PartialEq, Eq, Structural)]
pub enum EditorError {
    /// The entity is not alive or is not tagged as built from a prefab.
    NotAssemblaged,
    /// The catalog has no prefab of the name that the entity is tagged
    /// with.
    PrefabNotFound,
    /// The prefab lists no hitbox.
    NoHitbox,
}

impl World {
    /// The name of the prefab that the live entity `entity` is tagged with.
    pub fn built_from(&self, entity: u32) -> (r: Option<&String>)
        requires
            self.wf(),
        ensures
            match r {
                Some(name) => prefab_of(self@, entity) == Some(name@),
                None => prefab_of(self@, entity) is None,
            },
    {
        match self.get(entity, ComponentKind::Assemblaged) {
            Some(Component::Assemblaged(a)) => Some(&a.built_from),
            _ => None,
        }
    }
}

impl Assemblager {
    /// The offset at which an entity is placed on the ground: the position
    /// in the first hitbox of the prefab that the entity is tagged with.
    ///
    /// Fails with `NotAssemblaged` where the entity is not alive or not
    /// tagged, else with `PrefabNotFound` where the catalog has no prefab of
    /// that name, else with `NoHitbox` where the prefab lists no hitbox.
    #[verifier::loop_isolation(false)]
    pub fn placement_offset(&self, world: &World, entity: u32) -> (r: Result<Vec3, EditorError>)
        requires
            self.wf(),
            world.wf(),
        ensures
            match r {
                Ok(pos) => prefab_of(world@, entity) matches Some(name) && self@.get(name) matches Some(
                    cs,
                ) && first_hitbox(cs, 0) matches Some(h) && pos == h.position,
                Err(e) => {
                    &&& e == EditorError::NotAssemblaged || e == EditorError::PrefabNotFound || e
                        == EditorError::NoHitbox
                    &&& e == EditorError::NotAssemblaged <==> prefab_of(world@, entity) is None
                    &&& e == EditorError::PrefabNotFound <==> (prefab_of(world@, entity) matches Some(
                        name,
                    ) && self@.get(name) is None)
                    &&& e == EditorError::NoHitbox <==> (prefab_of(world@, entity) matches Some(
                        name,
                    ) && self@.get(name) matches Some(cs) && first_hitbox(cs, 0) is None)
                },
            },
    {
        let name = match world.built_from(entity) {
            Some(name) => name,
            None => {
                return Err(EditorError::NotAssemblaged);
            },
        };
        let components = match self.get(name.as_str()) {
            Some(cs) => cs,
            None => {
                return Err(EditorError::PrefabNotFound);
            },
        };
        let ghost cs = views(components@);
        let mut i: usize = 0;
        while i < components.len()
            invariant
                i <= components.len(),
                cs == views(components@),
                first_hitbox(cs, 0) == first_hitbox(cs, i as int),
            decreases components.len() - i,
        {
            assert(cs[i as int] == components[i as int]@);
            match &components[i] {
                Component::Hitbox(h) => {
                    return Ok(h.position);
                },
                _ => {},
            }
            i += 1;
        }
        Err(EditorError::NoHitbox)
    }

    /// Makes a new type from the entity `entity`: stores a copy of the
    /// components of the prefab that the entity is tagged with under `name`,
    /// in place of any prefab of that name, and tags the entity with `name`.
    ///
    /// Fails with `NotAssemblaged` where the entity is not alive or not
    /// tagged, else with `PrefabNotFound` where the catalog has no prefab of
    /// the name that it is tagged with. A failed call changes nothing.
    pub fn new_type_from_entity(&mut self, world: &mut World, entity: u32, name: &str) -> (r: Result<
        (),
        EditorError,
    >)
        requires
            old(self).wf(),
            old(world).wf(),
        ensures
            final(self).wf(),
            final(world).wf(),
            final(self)@.components == old(self)@.components,
            match r {
                Ok(()) => {
                    let from = prefab_of(old(world)@, entity)->0;
                    &&& prefab_of(old(world)@, entity) is Some
                    &&& old(self)@.get(from) is Some
                    &&& final(self)@.assemblages == put(
                        old(self)@.assemblages,
                        name@,
                        old(self)@.get(from)->0,
                    )
                    &&& final(world)@ == old(world)@.apply(
                        LazyActionView::Insert { entity, component: tag(name@) },
                    )
                },
                Err(e) => {
                    &&& final(self)@ == old(self)@
                    &&& final(world)@ == old(world)@
                    &&& e == EditorError::NotAssemblaged || e == EditorError::PrefabNotFound
                    &&& e == EditorError::NotAssemblaged <==> prefab_of(old(world)@, entity)
                        is None
                    &&& e == EditorError::PrefabNotFound <==> (prefab_of(
                        old(world)@,
                        entity,
                    ) matches Some(from) && old(self)@.get(from) is None)
                },
            },
    {
        let from = match world.built_from(entity) {
            Some(from) => from.clone(),
            None => {
                return Err(EditorError::NotAssemblaged);
            },
        };
        match self.copy_assemblage(from.as_str(), name) {
            Ok(()) => {},
            Err(_) => {
                return Err(EditorError::PrefabNotFound);
            },
        }
        world.insert(entity, Component::Assemblaged(Assemblaged { built_from: name.to_owned() }));
        Ok(())
    }
}

/// Whether the live entity `entity` is tagged as built from a prefab that
/// the catalog does not hold.
pub open spec fn is_stray(catalog: AssemblagerView, w: WorldView, entity: u32) -> bool {
    prefab_of(w, entity) matches Some(name) && catalog.get(name) is None
}

/// The entities among the first `n` that are tagged with a prefab that the
/// catalog does not hold, in rising order.
pub open spec fn strays(catalog: AssemblagerView, w: WorldView, n: int) -> Seq<u32>
    decreases n,
{
    if n <= 0 {
        Seq::empty()
    } else if is_stray(catalog, w, (n - 1) as u32) {
        strays(catalog, w, n - 1).push((n - 1) as u32)
    } else {
        strays(catalog, w, n - 1)
    }
}

impl Assemblager {
    /// The live entities that break the rule that every tag names a prefab
    /// of the catalog, in rising order. The rule holds where there are none.
    pub fn strays(&self, world: &World) -> (r: Vec<u32>)
        requires
            self.wf(),
            world.wf(),
        ensures
            r@ == strays(self@, world@, world@.slots.len() as int),
    {
        let count = world.entity_count();
        let mut out: Vec<u32> = Vec::new();
        let mut e: usize = 0;
        while e < count
            invariant
                e <= count,
                count == world@.slots.len(),
                count <= u32::MAX,
                self.wf(),
                world.wf(),
                out@ == strays(self@, world@, e as int),
            decreases count - e,
        {
            let stray = match world.built_from(e as u32) {
                Some(name) => !self.contains(name.as_str()),
                None => false,
            };
            if stray {
                out.push(e as u32);
            }
            e += 1;
        }
        out
    }
}

/// Why an edit of a prefab that is pushed to its instances was rejected.
#[derive(Clone, Copy, Debug, PartialEq, Eq, Structural)]
pub enum EditError {
    /// The catalog has no prefab of that name.
    PrefabNotFound,
    /// No prototype is registered under that type name.
    ComponentNotFound,
    /// The prefab already lists a component of that type.
    AlreadyPresent,
    /// The prefab lists no component at that place.
    IndexOutOfRange,
    /// The edited definition lists a hitbox, and an instance has no live
    /// body to take its position and rotation from.
    MissingPhys,
}

/// The prototype that is registered under the type name `name`.
pub open spec fn prototype_named(catalog: AssemblagerView, name: Seq<char>) -> Option<
    ComponentView,
> {
    match crate::codec::kind_of_name(name) {
        Some(kind) => catalog.prototype(kind),
        None => None,
    }
}

/// What storing a prefab under a name that the catalog holds does: the
/// prefab is found under that name, and the names stay distinct.
pub proof fn lemma_put_get(
    a: Seq<crate::assemblages::AssemblageView>,
    name: Seq<char>,
    cs: Seq<ComponentView>,
)
    requires
        crate::assemblages::names_distinct(a),
    ensures
        crate::assemblages::names_distinct(put(a, name, cs)),
        crate::assemblages::has_name(put(a, name, cs), name),
        put(a, name, cs)[crate::assemblages::index_of(put(a, name, cs), name)].components == cs,
        crate::assemblages::has_name(a, name) ==> crate::assemblages::index_of(
            put(a, name, cs),
            name,
        ) == crate::assemblages::index_of(a, name),
{
    let b = put(a, name, cs);
    if crate::assemblages::has_name(a, name) {
        let i = crate::assemblages::index_of(a, name);
        assert forall|x: int, y: int| 0 <= x < y < b.len() implies (#[trigger] b[x]).name != (
        #[trigger] b[y]).name by {
            assert(b[x].name == a[x].name);
            assert(b[y].name == a[y].name);
        }
        assert(b[i].name == name);
        crate::assemblages::lemma_index_of(b, name, i);
    } else {
        let n = a.len() as int;
        assert forall|x: int, y: int| 0 <= x < y < b.len() implies (#[trigger] b[x]).name != (
        #[trigger] b[y]).name by {
            if y == n {
                assert(b[x] == a[x]);
                assert(a[x].name != name);
            } else {
                assert(b[x] == a[x]);
                assert(b[y] == a[y]);
            }
        }
        assert(b[n].name == name);
        crate::assemblages::lemma_index_of(b, name, n);
    }
}

/// Storing another definition of a prefab and then its former one leaves
/// the catalog as it was.
pub proof fn lemma_put_back(
    a: Seq<crate::assemblages::AssemblageView>,
    name: Seq<char>,
    other: Seq<ComponentView>,
)
    requires
        crate::assemblages::names_distinct(a),
        crate::assemblages::has_name(a, name),
    ensures
        put(
            put(a, name, other),
            name,
            a[crate::assemblages::index_of(a, name)].components,
        ) == a,
{
    let i = crate::assemblages::index_of(a, name);
    lemma_put_get(a, name, other);
    let b = put(a, name, other);
    let c = put(b, name, a[i].components);
    assert(c =~= a);
}

impl Assemblager {
    /// The editor's "add component": adds to the prefab called
    /// `assemblage_key` a copy of the prototype registered under
    /// `component_name`, behind the components it has, and pushes the new
    /// definition to the live instances of the prefab.
    ///
    /// Fails with `PrefabNotFound` where there is no such prefab, else with
    /// `ComponentNotFound` where there is no such prototype, else with
    /// `AlreadyPresent` where the prefab lists a component of that type, else
    /// with `MissingPhys` where the new definition cannot be pushed. A failed
    /// call changes nothing, in the catalog or in the world.
    pub fn add_component_and_push(
        &mut self,
        assemblage_key: &str,
        component_name: &str,
        world: &mut World,
        ps: &PhysState,
    ) -> (r: Result<(), EditError>)
        requires
            old(self).wf(),
            old(world).wf(),
        ensures
            final(self).wf(),
            final(world).wf(),
            final(self)@.components == old(self)@.components,
            ({
                let listed = old(self)@.get(assemblage_key@);
                let prototype = prototype_named(old(self)@, component_name@);
                let definition = listed->0.push(prototype->0);
                match r {
                    Ok(()) => {
                        &&& listed is Some
                        &&& prototype is Some
                        &&& !lists_kind(listed->0, prototype->0.kind())
                        &&& can_push(old(world)@, ps@, assemblage_key@, definition)
                        &&& final(self)@.assemblages == put(
                            old(self)@.assemblages,
                            assemblage_key@,
                            definition,
                        )
                        &&& final(world)@ == pushed(
                            old(world)@,
                            ps@,
                            assemblage_key@,
                            definition,
                        )
                    },
                    Err(e) => {
                        let present = lists_kind(listed->0, prototype->0.kind());
                        &&& final(self)@ == old(self)@
                        &&& final(world)@ == old(world)@
                        &&& e == EditError::PrefabNotFound || e == EditError::ComponentNotFound
                            || e == EditError::AlreadyPresent || e == EditError::MissingPhys
                        &&& e == EditError::PrefabNotFound <==> listed is None
                        &&& e == EditError::ComponentNotFound <==> listed is Some && prototype
                            is None
                        &&& e == EditError::AlreadyPresent <==> listed is Some && prototype
                            is Some && present
                        &&& e == EditError::MissingPhys <==> listed is Some && prototype is Some
                            && !present && !can_push(
                            old(world)@,
                            ps@,
                            assemblage_key@,
                            definition,
                        )
                    },
                }
            }),
    {
        let saved = match self.get(assemblage_key) {
            Some(cs) => crate::component::clone_components(cs),
            None => {
                return Err(EditError::PrefabNotFound);
            },
        };
        let ghost a = old(self)@.assemblages;
        let ghost listed = old(self)@.get(assemblage_key@)->0;
        let ghost prototype = prototype_named(old(self)@, component_name@);
        proof {
            match crate::codec::kind_of_name(component_name@) {
                Some(kind) => {
                    assert forall|k: ComponentKind|
                        crate::component::kind_name(k) == component_name@ implies k == kind by {
                        crate::component::lemma_kind_names_distinct(k, kind);
                    }
                },
                None => {},
            }
        }
        match self.add_component(assemblage_key, component_name) {
            Ok(()) => {},
            Err(e) => {
                return Err(
                    match e {
                        CatalogError::ComponentNotFound => EditError::ComponentNotFound,
                        _ => EditError::AlreadyPresent,
                    },
                );
            },
        }
        proof {
            lemma_put_get(a, assemblage_key@, listed.push(prototype->0));
        }
        match self.push_changes(assemblage_key, world, ps) {
            Ok(()) => Ok(()),
            Err(_) => {
                self.insert(assemblage_key, saved);
                proof {
                    lemma_put_back(a, assemblage_key@, listed.push(prototype->0));
                }
                Err(EditError::MissingPhys)
            },
        }
    }

    /// The editor's "remove component": takes the component at place `index`
    /// out of the prefab called `assemblage_key`, pushes the new definition to
    /// the live instances of the prefab, and hands the component out. The
    /// instances keep their own component of that type: a push overwrites
    /// with what the definition lists and takes nothing away.
    ///
    /// Fails with `PrefabNotFound` where there is no such prefab, else with
    /// `IndexOutOfRange` where the prefab has no component at that place, else
    /// with `MissingPhys` where the new definition cannot be pushed. A failed
    /// call changes nothing, in the catalog or in the world.
    pub fn remove_component_and_push(
        &mut self,
        assemblage_key: &str,
        index: usize,
        world: &mut World,
        ps: &PhysState,
    ) -> (r: Result<Component, EditError>)
        requires
            old(self).wf(),
            old(world).wf(),
        ensures
            final(self).wf(),
            final(world).wf(),
            final(self)@.components == old(self)@.components,
            ({
                let listed = old(self)@.get(assemblage_key@);
                let definition = listed->0.remove(index as int);
                match r {
                    Ok(c) => {
                        &&& listed is Some
                        &&& index < listed->0.len()
                        &&& c@ == listed->0[index as int]
                        &&& can_push(old(world)@, ps@, assemblage_key@, definition)
                        &&& final(self)@.assemblages == put(
                            old(self)@.assemblages,
                            assemblage_key@,
                            definition,
                        )
                        &&& final(world)@ == pushed(
                            old(world)@,
                            ps@,
                            assemblage_key@,
                            definition,
                        )
                    },
                    Err(e) => {
                        &&& final(self)@ == old(self)@
                        &&& final(world)@ == old(world)@
                        &&& e == EditError::PrefabNotFound || e == EditError::IndexOutOfRange || e
                            == EditError::MissingPhys
                        &&& e == EditError::PrefabNotFound <==> listed is None
                        &&& e == EditError::IndexOutOfRange <==> listed is Some && index
                            >= listed->0.len()
                        &&& e == EditError::MissingPhys <==> listed is Some && index
                            < listed->0.len() && !can_push(
                            old(world)@,
                            ps@,
                            assemblage_key@,
                            definition,
                        )
                    },
                }
            }),
    {
        let saved = match self.get(assemblage_key) {
            Some(cs) => crate::component::clone_components(cs),
            None => {
                return Err(EditError::PrefabNotFound);
            },
        };
        let ghost a = old(self)@.assemblages;
        let ghost listed = old(self)@.get(assemblage_key@)->0;
        let removed = match self.remove_component(assemblage_key, index) {
            Ok(c) => c,
            Err(_) => {
                return Err(EditError::IndexOutOfRange);
            },
        };
        proof {
            lemma_put_get(a, assemblage_key@, listed.remove(index as int));
        }
        match self.push_changes(assemblage_key, world, ps) {
            Ok(()) => Ok(removed),
            Err(_) => {
                self.insert(assemblage_key, saved);
                proof {
                    lemma_put_back(a, assemblage_key@, listed.remove(index as int));
                }
                Err(EditError::MissingPhys)
            },
        }
    }
}

} // verus!
