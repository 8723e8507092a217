use vstd::prelude::*;
use crate::component::{
    kind_index, lemma_all_kinds_complete, Component, ComponentKind, ComponentView, KIND_COUNT,
};
use crate::comps::Hitbox;
use crate::scalar::Vec3;

verus! {

/// At most one component of each type.
#[derive(Debug, PartialEq, Eq)]
pub struct ComponentSet {
    /// One place for each component type, at the type's index.
    pub places: Vec<Option<Component>>,
}

impl ComponentSet {
    /// Each component stands at the place of its own type.
    pub open spec fn wf(&self) -> bool {
        &&& self.places.len() == KIND_COUNT
        &&& forall|i: int|
            0 <= i < KIND_COUNT ==> ((#[trigger] self.places[i]) matches Some(c) ==> kind_index(
                c@.kind(),
            ) == i)
    }
}

impl View for ComponentSet {
    type V = Map<ComponentKind, ComponentView>;

    open spec fn view(&self) -> Map<ComponentKind, ComponentView> {
        Map::new(
            |k: ComponentKind| self.places[kind_index(k)] is Some,
            |k: ComponentKind| self.places[kind_index(k)]->0@,
        )
    }
}

/// What the world holds of one entity: whether it is alive, and its
/// components.
#[derive(Debug, PartialEq, Eq)]
pub struct Slot {
    pub alive: bool,
    pub components: ComponentSet,
}

/// The mathematical value of a [`Slot`].
pub struct SlotView {
    pub alive: bool,
    pub components: Map<ComponentKind, ComponentView>,
}

impl Slot {
    /// The components are well formed.
    pub open spec fn wf(&self) -> bool {
        self.components.wf()
    }
}

impl View for Slot {
    type V = SlotView;

    open spec fn view(&self) -> SlotView {
        SlotView { alive: self.alive, components: self.components@ }
    }
}

impl SlotView {
    /// The slot of a new entity: alive, with no component.
    pub open spec fn fresh() -> SlotView {
        SlotView { alive: true, components: Map::empty() }
    }

    /// The slot of a deleted entity: dead, with no component.
    pub open spec fn dead() -> SlotView {
        SlotView { alive: false, components: Map::empty() }
    }

    /// The component of type `kind`, if the entity carries one.
    pub open spec fn get(self, kind: ComponentKind) -> Option<ComponentView> {
        if self.components.dom().contains(kind) {
            Some(self.components[kind])
        } else {
            None
        }
    }

    /// This slot with `c` in the place of its type.
    pub open spec fn insert(self, c: ComponentView) -> SlotView {
        SlotView { alive: self.alive, components: self.components.insert(c.kind(), c) }
    }

    /// This slot without a component of type `kind`.
    pub open spec fn remove(self, kind: ComponentKind) -> SlotView {
        SlotView { alive: self.alive, components: self.components.remove(kind) }
    }

    /// Each component is filed under its own type.
    pub open spec fn wf(self) -> bool {
        forall|k: ComponentKind| #[trigger]
            self.components.dom().contains(k) ==> self.components[k].kind() == k
    }
}

/// A mutation of the world that waits for the next flush.
#[derive(Debug, PartialEq, Eq)]
pub enum LazyAction {
    /// Attach `component` to `entity`, in place of any component of the same
    /// type.
    Insert { entity: u32, component: Component },
    /// Take the component of type `kind` off `entity`.
    Remove { entity: u32, kind: ComponentKind },
    /// Delete `entity` with all its components.
    Delete { entity: u32 },
    /// Overwrite the position in the hitbox of `entity`.
    SetHitboxPosition { entity: u32, position: Vec3 },
}

/// The mathematical value of a [`LazyAction`].
pub enum LazyActionView {
    Insert { entity: u32, component: ComponentView },
    Remove { entity: u32, kind: ComponentKind },
    Delete { entity: u32 },
    SetHitboxPosition { entity: u32, position: Vec3 },
}

impl View for LazyAction {
    type V = LazyActionView;

    open spec fn view(&self) -> LazyActionView {
        match self {
            LazyAction::Insert { entity, component } => LazyActionView::Insert {
                entity: *entity,
                component: component@,
            },
            LazyAction::Remove { entity, kind } => LazyActionView::Remove {
                entity: *entity,
                kind: *kind,
            },
            LazyAction::Delete { entity } => LazyActionView::Delete { entity: *entity },
            LazyAction::SetHitboxPosition { entity, position } => LazyActionView::SetHitboxPosition {
                entity: *entity,
                position: *position,
            },
        }
    }
}

/// The entities with their components, the queue of deferred mutations, and
/// the log of entities that lost their link to the physics world.
#[derive(Debug, PartialEq, Eq)]
pub struct World {
    /// One slot for each entity ever created; an entity's id is its index.
    pub slots: Vec<Slot>,
    /// Deferred mutations, oldest first.
    pub lazy: Vec<LazyAction>,
    /// The ids of the entities whose `Phys` component was removed since the
    /// log was last drained, oldest first.
    pub removed_phys: Vec<u32>,
}

/// The mathematical value of a [`World`].
pub struct WorldView {
    pub slots: Seq<SlotView>,
    pub lazy: Seq<LazyActionView>,
    pub removed_phys: Seq<u32>,
}

impl View for World {
    type V = WorldView;

    open spec fn view(&self) -> WorldView {
        WorldView {
            slots: Seq::new(self.slots@.len(), |i: int| self.slots[i]@),
            lazy: Seq::new(self.lazy@.len(), |i: int| self.lazy[i]@),
            removed_phys: self.removed_phys@,
        }
    }
}

impl WorldView {
    /// Whether `entity` was created and not deleted since.
    pub open spec fn is_alive(self, entity: u32) -> bool {
        entity < self.slots.len() && self.slots[entity as int].alive
    }

    /// The component of type `kind` that the live entity `entity` carries.
    pub open spec fn get(self, entity: u32, kind: ComponentKind) -> Option<ComponentView> {
        if self.is_alive(entity) {
            self.slots[entity as int].get(kind)
        } else {
            None
        }
    }

    /// This world with `slot` in the place of entity `entity`.
    pub open spec fn with_slot(self, entity: u32, slot: SlotView) -> WorldView {
        WorldView {
            slots: self.slots.update(entity as int, slot),
            lazy: self.lazy,
            removed_phys: self.removed_phys,
        }
    }

    /// This world with one more entry in the log of removed `Phys`
    /// components, where `lost` holds.
    pub open spec fn log_removed(self, entity: u32, lost: bool) -> WorldView {
        WorldView {
            slots: self.slots,
            lazy: self.lazy,
            removed_phys: if lost {
                self.removed_phys.push(entity)
            } else {
                self.removed_phys
            },
        }
    }

    /// This world with `queue` as its queue of deferred mutations.
    pub open spec fn with_lazy(self, queue: Seq<LazyActionView>) -> WorldView {
        WorldView { slots: self.slots, lazy: queue, removed_phys: self.removed_phys }
    }

    /// The world after one mutation took effect. A mutation of an entity
    /// that is not alive changes nothing. Taking a `Phys` component off an
    /// entity, alone or with the whole entity, is entered in the log.
    pub open spec fn apply(self, action: LazyActionView) -> WorldView {
        match action {
            LazyActionView::Insert { entity, component } => if self.is_alive(entity) {
                self.with_slot(entity, self.slots[entity as int].insert(component))
            } else {
                self
            },
            LazyActionView::Remove { entity, kind } => if self.is_alive(entity) {
                self.with_slot(entity, self.slots[entity as int].remove(kind)).log_removed(
                    entity,
                    kind == ComponentKind::Phys && self.get(entity, ComponentKind::Phys) is Some,
                )
            } else {
                self
            },
            LazyActionView::Delete { entity } => if self.is_alive(entity) {
                self.with_slot(entity, SlotView::dead()).log_removed(
                    entity,
                    self.get(entity, ComponentKind::Phys) is Some,
                )
            } else {
                self
            },
            LazyActionView::SetHitboxPosition { entity, position } => match self.get(
                entity,
                ComponentKind::Hitbox,
            ) {
                Some(ComponentView::Hitbox(h)) => self.with_slot(
                    entity,
                    self.slots[entity as int].insert(
                        ComponentView::Hitbox(
                            Hitbox {
                                position,
                                rotation: h.rotation,
                                scale: h.scale,
                                density: h.density,
                                physics_interaction: h.physics_interaction,
                            },
                        ),
                    ),
                ),
                _ => self,
            },
        }
    }

    /// The world after the first `n` of `actions` took effect, in order.
    pub open spec fn apply_all(self, actions: Seq<LazyActionView>, n: int) -> WorldView
        decreases n,
    {
        if n <= 0 {
            self
        } else {
            self.apply_all(actions, n - 1).apply(actions[n - 1])
        }
    }

    /// The world after a flush: every deferred mutation took effect, oldest
    /// first, and the queue is empty.
    pub open spec fn flushed(self) -> WorldView {
        self.with_lazy(Seq::empty()).apply_all(self.lazy, self.lazy.len() as int)
    }
}

impl ComponentSet {
    /// The set without components.
    pub fn new() -> (r: ComponentSet)
        ensures
            r.wf(),
            r@ == Map::<ComponentKind, ComponentView>::empty(),
    {
        let mut places: Vec<Option<Component>> = Vec::new();
        let mut i: usize = 0;
        while i < KIND_COUNT
            invariant
                i <= KIND_COUNT,
                places.len() == i,
                forall|j: int| 0 <= j < i ==> places[j] is None,
            decreases KIND_COUNT - i,
        {
            places.push(None);
            i += 1;
        }
        let r = ComponentSet { places };
        proof {
            lemma_all_kinds_complete();
            assert(r@ =~= Map::empty());
        }
        r
    }

    /// The component of type `kind` in this set.
    pub fn get(&self, kind: ComponentKind) -> (r: Option<&Component>)
        requires
            self.wf(),
        ensures
            match r {
                Some(c) => self@.dom().contains(kind) && self@[kind] == c@ && c@.kind() == kind,
                None => !self@.dom().contains(kind),
            },
    {
        proof {
            lemma_all_kinds_complete();
        }
        self.places[kind.index()].as_ref()
    }

    /// Puts `c` in the place of its type.
    pub fn insert(&mut self, c: Component)
        requires
            old(self).wf(),
        ensures
            final(self).wf(),
            final(self)@ == old(self)@.insert(c@.kind(), c@),
    {
        proof {
            lemma_all_kinds_complete();
        }
        let i = c.kind().index();
        self.places.set(i, Some(c));
        assert(self@ =~= old(self)@.insert(c@.kind(), c@));
    }

    /// Empties the place of the type `kind`.
    pub fn remove(&mut self, kind: ComponentKind)
        requires
            old(self).wf(),
        ensures
            final(self).wf(),
            final(self)@ == old(self)@.remove(kind),
    {
        proof {
            lemma_all_kinds_complete();
        }
        self.places.set(kind.index(), None);
        assert(self@ =~= old(self)@.remove(kind));
    }

    /// Empties every place.
    pub fn clear(&mut self)
        requires
            old(self).wf(),
        ensures
            final(self).wf(),
            final(self)@ == Map::<ComponentKind, ComponentView>::empty(),
    {
        let mut i: usize = 0;
        while i < KIND_COUNT
            invariant
                i <= KIND_COUNT,
                self.places.len() == KIND_COUNT,
                forall|j: int| 0 <= j < i ==> self.places[j] is None,
                forall|j: int|
                    i <= j < KIND_COUNT ==> ((#[trigger] self.places[j]) matches Some(c)
                        ==> kind_index(c@.kind()) == j),
            decreases KIND_COUNT - i,
        {
            self.places.set(i, None);
            i += 1;
        }
        proof {
            lemma_all_kinds_complete();
            assert(self@ =~= Map::empty());
        }
    }
}

impl Slot {
    /// The slot of a new entity.
    pub fn fresh() -> (r: Slot)
        ensures
            r.wf(),
            r@ == SlotView::fresh(),
    {
        Slot { alive: true, components: ComponentSet::new() }
    }

    /// The component of type `kind` in this slot.
    pub fn get(&self, kind: ComponentKind) -> (r: Option<&Component>)
        requires
            self.wf(),
        ensures
            match r {
                Some(c) => self@.get(kind) == Some(c@) && c@.kind() == kind,
                None => self@.get(kind) is None,
            },
    {
        self.components.get(kind)
    }

    /// Puts `c` in the place of its type.
    pub fn insert(&mut self, c: Component)
        requires
            old(self).wf(),
        ensures
            final(self).wf(),
            final(self)@ == old(self)@.insert(c@),
    {
        self.components.insert(c);
    }

    /// Empties the place of the type `kind`.
    pub fn remove(&mut self, kind: ComponentKind)
        requires
            old(self).wf(),
        ensures
            final(self).wf(),
            final(self)@ == old(self)@.remove(kind),
    {
        self.components.remove(kind);
    }

    /// Marks the entity dead and empties every place.
    pub fn kill(&mut self)
        requires
            old(self).wf(),
        ensures
            final(self).wf(),
            final(self)@ == SlotView::dead(),
    {
        self.components.clear();
        self.alive = false;
    }
}

impl World {
    /// Every slot is well formed, and the entities can be numbered.
    pub open spec fn wf(&self) -> bool {
        &&& self.slots.len() <= u32::MAX
        &&& forall|i: int| 0 <= i < self.slots.len() ==> (#[trigger] self.slots[i]).wf()
    }

    /// A world without entities, with nothing deferred and nothing logged.
    pub fn new() -> (r: World)
        ensures
            r.wf(),
            r@ == (WorldView {
                slots: Seq::empty(),
                lazy: Seq::empty(),
                removed_phys: Seq::empty(),
            }),
    {
        let r = World { slots: Vec::new(), lazy: Vec::new(), removed_phys: Vec::new() };
        assert(r@.slots =~= Seq::empty());
        assert(r@.lazy =~= Seq::empty());
        r
    }

    /// How many entities were ever created.
    pub fn entity_count(&self) -> (r: usize)
        ensures
            r == self@.slots.len(),
    {
        self.slots.len()
    }

    /// Creates an entity. It is alive at once and carries nothing; its id is
    /// the number of entities created before it.
    pub fn create_entity(&mut self) -> (entity: u32)
        requires
            old(self).wf(),
            old(self)@.slots.len() < u32::MAX,
        ensures
            final(self).wf(),
            entity == old(self)@.slots.len(),
            final(self)@ == (WorldView {
                slots: old(self)@.slots.push(SlotView::fresh()),
                lazy: old(self)@.lazy,
                removed_phys: old(self)@.removed_phys,
            }),
    {
        let entity = self.slots.len() as u32;
        self.slots.push(Slot::fresh());
        assert(self@.slots =~= old(self)@.slots.push(SlotView::fresh()));
        assert(self@.lazy =~= old(self)@.lazy);
        entity
    }

    /// Whether `entity` was created and not deleted since.
    pub fn is_alive(&self, entity: u32) -> (r: bool)
        ensures
            r == self@.is_alive(entity),
    {
        (entity as usize) < self.slots.len() && self.slots[entity as usize].alive
    }

    /// The component of type `kind` that the live entity `entity` carries.
    pub fn get(&self, entity: u32, kind: ComponentKind) -> (r: Option<&Component>)
        requires
            self.wf(),
        ensures
            match r {
                Some(c) => self@.get(entity, kind) == Some(c@) && c@.kind() == kind,
                None => self@.get(entity, kind) is None,
            },
    {
        if self.is_alive(entity) {
            self.slots[entity as usize].get(kind)
        } else {
            None
        }
    }

    /// Whether the live entity `entity` carries a component of type `kind`.
    pub fn has(&self, entity: u32, kind: ComponentKind) -> (r: bool)
        requires
            self.wf(),
        ensures
            r == self@.get(entity, kind) is Some,
    {
        self.get(entity, kind).is_some()
    }

    /// Lets one mutation take effect now.
    pub fn apply(&mut self, action: LazyAction)
        requires
            old(self).wf(),
        ensures
            final(self).wf(),
            final(self)@ == old(self)@.apply(action@),
    {
        match action {
            LazyAction::Insert { entity, component } => {
                if self.is_alive(entity) {
                    let ghost c = component@;
                    self.slots[entity as usize].insert(component);
                    assert(self@.slots =~= old(self)@.slots.update(
                        entity as int,
                        old(self)@.slots[entity as int].insert(c),
                    ));
                    assert(self@.lazy =~= old(self)@.lazy);
                }
            },
            LazyAction::Remove { entity, kind } => {
                if self.is_alive(entity) {
                    let lost = match kind {
                        ComponentKind::Phys => self.has(entity, ComponentKind::Phys),
                        _ => false,
                    };
                    self.slots[entity as usize].remove(kind);
                    if lost {
                        self.removed_phys.push(entity);
                    }
                    assert(self@.slots =~= old(self)@.slots.update(
                        entity as int,
                        old(self)@.slots[entity as int].remove(kind),
                    ));
                    assert(self@.lazy =~= old(self)@.lazy);
                }
            },
            LazyAction::Delete { entity } => {
                if self.is_alive(entity) {
                    let lost = self.has(entity, ComponentKind::Phys);
                    self.slots[entity as usize].kill();
                    if lost {
                        self.removed_phys.push(entity);
                    }
                    assert(self@.slots =~= old(self)@.slots.update(
                        entity as int,
                        SlotView::dead(),
                    ));
                    assert(self@.lazy =~= old(self)@.lazy);
                }
            },
            LazyAction::SetHitboxPosition { entity, position } => {
                let moved = match self.get(entity, ComponentKind::Hitbox) {
                    Some(Component::Hitbox(h)) => Some(
                        Hitbox {
                            position,
                            rotation: h.rotation,
                            scale: h.scale,
                            density: h.density,
                            physics_interaction: h.physics_interaction,
                        },
                    ),
                    _ => None,
                };
                match moved {
                    Some(h) => {
                        self.slots[entity as usize].insert(Component::Hitbox(h));
                        assert(self@.slots =~= old(self)@.slots.update(
                            entity as int,
                            old(self)@.slots[entity as int].insert(ComponentView::Hitbox(h)),
                        ));
                        assert(self@.lazy =~= old(self)@.lazy);
                    },
                    None => {},
                }
            },
        }
    }

    /// Attaches `component` to `entity` now.
    pub fn insert(&mut self, entity: u32, component: Component)
        requires
            old(self).wf(),
        ensures
            final(self).wf(),
            final(self)@ == old(self)@.apply(
                LazyActionView::Insert { entity, component: component@ },
            ),
    {
        self.apply(LazyAction::Insert { entity, component });
    }

    /// Takes the component of type `kind` off `entity` now.
    pub fn remove(&mut self, entity: u32, kind: ComponentKind)
        requires
            old(self).wf(),
        ensures
            final(self).wf(),
            final(self)@ == old(self)@.apply(LazyActionView::Remove { entity, kind }),
    {
        self.apply(LazyAction::Remove { entity, kind });
    }

    /// Puts a mutation at the end of the queue of deferred mutations.
    pub fn defer(&mut self, action: LazyAction)
        requires
            old(self).wf(),
        ensures
            final(self).wf(),
            final(self)@ == old(self)@.with_lazy(old(self)@.lazy.push(action@)),
    {
        self.lazy.push(action);
        assert(self@.lazy =~= old(self)@.lazy.push(action@));
        assert(self@.slots =~= old(self)@.slots);
    }

    /// The flush: lets every deferred mutation take effect, in the order in
    /// which they were deferred, and leaves the queue empty.
    pub fn flush(&mut self)
        requires
            old(self).wf(),
        ensures
            final(self).wf(),
            final(self)@ == old(self)@.flushed(),
    {
        let mut actions: Vec<LazyAction> = Vec::new();
        std::mem::swap(&mut self.lazy, &mut actions);
        let ghost queue = old(self)@.lazy;
        let ghost start = old(self)@.with_lazy(Seq::empty());
        assert(self@.lazy =~= Seq::empty());
        assert(self@.slots =~= old(self)@.slots);
        assert(self@ == start);
        let n = actions.len();
        let mut i: usize = 0;
        while i < n
            invariant
                i <= n,
                n == actions.len(),
                self.wf(),
                queue.len() == n,
                forall|j: int| 0 <= j < n ==> queue[j] == actions[j]@,
                self@ == start.apply_all(queue, i as int),
            decreases n - i,
        {
            let action = clone_action(&actions[i]);
            self.apply(action);
            i += 1;
        }
    }

    /// Hands out the log of removed `Phys` components and empties it.
    pub fn drain_removed_phys(&mut self) -> (log: Vec<u32>)
        requires
            old(self).wf(),
        ensures
            final(self).wf(),
            log@ == old(self)@.removed_phys,
            final(self)@ == (WorldView {
                slots: old(self)@.slots,
                lazy: old(self)@.lazy,
                removed_phys: Seq::empty(),
            }),
    {
        let mut log: Vec<u32> = Vec::new();
        std::mem::swap(&mut self.removed_phys, &mut log);
        assert(self@.slots =~= old(self)@.slots);
        assert(self@.lazy =~= old(self)@.lazy);
        log
    }
}

/// A copy of a deferred mutation.
pub fn clone_action(action: &LazyAction) -> (r: LazyAction)
    ensures
        r@ == action@,
{
    match action {
        LazyAction::Insert { entity, component } => LazyAction::Insert {
            entity: *entity,
            component: component.boxed_clone(),
        },
        LazyAction::Remove { entity, kind } => LazyAction::Remove { entity: *entity, kind: *kind },
        LazyAction::Delete { entity } => LazyAction::Delete { entity: *entity },
        LazyAction::SetHitboxPosition { entity, position } => LazyAction::SetHitboxPosition {
            entity: *entity,
            position: *position,
        },
    }
}

/// The entity that a mutation is about.
pub open spec fn target(action: LazyActionView) -> u32 {
    match action {
        LazyActionView::Insert { entity, component } => entity,
        LazyActionView::Remove { entity, kind } => entity,
        LazyActionView::Delete { entity } => entity,
        LazyActionView::SetHitboxPosition { entity, position } => entity,
    }
}

/// Whether none of the mutations is about `entity`.
pub open spec fn spares(actions: Seq<LazyActionView>, entity: u32) -> bool {
    forall|i: int| 0 <= i < actions.len() ==> target(#[trigger] actions[i]) != entity
}

/// Whether every one of the mutations is about one of the first `n`
/// entities.
pub open spec fn bounded(actions: Seq<LazyActionView>, n: int) -> bool {
    forall|i: int| 0 <= i < actions.len() ==> target(#[trigger] actions[i]) < n
}

/// The world with one more slot behind those it has.
pub open spec fn with_extra_slot(w: WorldView, extra: SlotView) -> WorldView {
    WorldView { slots: w.slots.push(extra), lazy: w.lazy, removed_phys: w.removed_phys }
}

/// The mutations that attach the components `cs` to `entity`, in order.
pub open spec fn inserts(entity: u32, cs: Seq<ComponentView>) -> Seq<LazyActionView> {
    Seq::new(cs.len(), |i: int| LazyActionView::Insert { entity, component: cs[i] })
}

/// The slot after the first `n` of the components `cs` were put into it, in
/// order: a later component takes the place of an earlier one of its type.
pub open spec fn assembled(slot: SlotView, cs: Seq<ComponentView>, n: int) -> SlotView
    decreases n,
{
    if n <= 0 {
        slot
    } else {
        assembled(slot, cs, n - 1).insert(cs[n - 1])
    }
}

/// A mutation leaves every entity alone that it is not about, and creates
/// none.
pub proof fn lemma_apply_spares(w: WorldView, action: LazyActionView, entity: u32)
    requires
        target(action) != entity,
    ensures
        w.apply(action).slots.len() == w.slots.len(),
        entity < w.slots.len() ==> w.apply(action).slots[entity as int] == w.slots[entity as int],
        w.apply(action).lazy == w.lazy,
{
}

/// Mutations leave every entity alone that none of them is about.
pub proof fn lemma_apply_all_spares(
    w: WorldView,
    actions: Seq<LazyActionView>,
    n: int,
    entity: u32,
)
    requires
        spares(actions, entity),
        0 <= n <= actions.len(),
    ensures
        w.apply_all(actions, n).slots.len() == w.slots.len(),
        entity < w.slots.len() ==> w.apply_all(actions, n).slots[entity as int]
            == w.slots[entity as int],
        w.apply_all(actions, n).lazy == w.lazy,
    decreases n,
{
    if n > 0 {
        lemma_apply_all_spares(w, actions, n - 1, entity);
        lemma_apply_spares(w.apply_all(actions, n - 1), actions[n - 1], entity);
    }
}

/// What a mutation does to an entity depends on that entity's slot alone.
pub proof fn lemma_apply_local(a: WorldView, b: WorldView, action: LazyActionView, entity: u32)
    requires
        entity < a.slots.len(),
        entity < b.slots.len(),
        a.slots[entity as int] == b.slots[entity as int],
    ensures
        a.apply(action).slots[entity as int] == b.apply(action).slots[entity as int],
        a.apply(action).slots.len() == a.slots.len(),
        b.apply(action).slots.len() == b.slots.len(),
{
    if target(action) != entity {
        lemma_apply_spares(a, action, entity);
        lemma_apply_spares(b, action, entity);
    }
}

/// What mutations do to an entity depends on that entity's slot alone.
pub proof fn lemma_apply_all_local(
    a: WorldView,
    b: WorldView,
    actions: Seq<LazyActionView>,
    n: int,
    entity: u32,
)
    requires
        entity < a.slots.len(),
        entity < b.slots.len(),
        a.slots[entity as int] == b.slots[entity as int],
        0 <= n <= actions.len(),
    ensures
        a.apply_all(actions, n).slots[entity as int] == b.apply_all(actions, n).slots[entity as int],
        a.apply_all(actions, n).slots.len() == a.slots.len(),
        b.apply_all(actions, n).slots.len() == b.slots.len(),
    decreases n,
{
    if n > 0 {
        lemma_apply_all_local(a, b, actions, n - 1, entity);
        lemma_apply_local(
            a.apply_all(actions, n - 1),
            b.apply_all(actions, n - 1),
            actions[n - 1],
            entity,
        );
    }
}

/// Where the mutations of the queue that are about an entity stand together,
/// with mutations of other entities before and behind them, the flush does to
/// the entity what those mutations alone do to it.
pub proof fn lemma_flush_block(
    w: WorldView,
    before: Seq<LazyActionView>,
    block: Seq<LazyActionView>,
    behind: Seq<LazyActionView>,
    entity: u32,
)
    requires
        entity < w.slots.len(),
        w.lazy == before + block + behind,
        spares(before, entity),
        spares(behind, entity),
    ensures
        w.flushed().slots.len() == w.slots.len(),
        w.flushed().slots[entity as int] == w.with_lazy(Seq::empty()).apply_all(
            block,
            block.len() as int,
        ).slots[entity as int],
{
    let w0 = w.with_lazy(Seq::empty());
    let w1 = w0.apply_all(before, before.len() as int);
    let w2 = w1.apply_all(block, block.len() as int);
    let w3 = w2.apply_all(behind, behind.len() as int);
    lemma_apply_all_split(w0, before + block, behind, behind.len() as int);
    lemma_apply_all_split(w0, before, block, block.len() as int);
    assert(w.flushed() == w3);
    lemma_apply_all_spares(w0, before, before.len() as int, entity);
    lemma_apply_all_local(w1, w0, block, block.len() as int, entity);
    lemma_apply_all_spares(w2, behind, behind.len() as int, entity);
}

/// Mutations create no entity and delete no slot.
pub proof fn lemma_apply_all_frame_len(w: WorldView, actions: Seq<LazyActionView>, n: int)
    requires
        0 <= n <= actions.len(),
    ensures
        w.apply_all(actions, n).slots.len() == w.slots.len(),
    decreases n,
{
    if n > 0 {
        lemma_apply_all_frame_len(w, actions, n - 1);
    }
}

/// A mutation of one of the entities that a world has does the same to the
/// world with one more slot behind them, and leaves that slot alone.
pub proof fn lemma_apply_extra_slot(w: WorldView, extra: SlotView, action: LazyActionView)
    requires
        target(action) < w.slots.len(),
    ensures
        with_extra_slot(w, extra).apply(action) == with_extra_slot(w.apply(action), extra),
{
    let e = target(action);
    let a = with_extra_slot(w, extra).apply(action);
    let b = with_extra_slot(w.apply(action), extra);
    assert(with_extra_slot(w, extra).slots[e as int] == w.slots[e as int]);
    assert(a.slots =~= b.slots);
}

/// Mutations of entities that a world has do the same to the world with one
/// more slot behind them, and leave that slot alone.
pub proof fn lemma_apply_all_extra_slot(
    w: WorldView,
    extra: SlotView,
    actions: Seq<LazyActionView>,
    n: int,
)
    requires
        bounded(actions, w.slots.len() as int),
        0 <= n <= actions.len(),
    ensures
        with_extra_slot(w, extra).apply_all(actions, n) == with_extra_slot(
            w.apply_all(actions, n),
            extra,
        ),
        w.apply_all(actions, n).slots.len() == w.slots.len(),
    decreases n,
{
    if n > 0 {
        lemma_apply_all_extra_slot(w, extra, actions, n - 1);
        lemma_apply_extra_slot(w.apply_all(actions, n - 1), extra, actions[n - 1]);
    }
}

/// Letting a queue take effect is letting its front part take effect and
/// then the rest.
pub proof fn lemma_apply_all_split(
    w: WorldView,
    front: Seq<LazyActionView>,
    rest: Seq<LazyActionView>,
    n: int,
)
    requires
        0 <= n <= rest.len(),
    ensures
        w.apply_all(front + rest, front.len() + n) == w.apply_all(
            front,
            front.len() as int,
        ).apply_all(rest, n),
    decreases n,
{
    let all = front + rest;
    if n > 0 {
        lemma_apply_all_split(w, front, rest, n - 1);
        assert(all[front.len() + n - 1] == rest[n - 1]);
    } else {
        lemma_apply_all_prefix(w, front, all, front.len() as int);
    }
}

/// What the first `n` mutations of a queue do depends on those `n` only.
pub proof fn lemma_apply_all_prefix(
    w: WorldView,
    a: Seq<LazyActionView>,
    b: Seq<LazyActionView>,
    n: int,
)
    requires
        0 <= n <= a.len(),
        n <= b.len(),
        forall|i: int| 0 <= i < n ==> a[i] == b[i],
    ensures
        w.apply_all(a, n) == w.apply_all(b, n),
    decreases n,
{
    if n > 0 {
        lemma_apply_all_prefix(w, a, b, n - 1);
    }
}

/// Attaching components to a live entity, one mutation for each, fills its
/// slot in the order of the list and touches nothing else.
pub proof fn lemma_apply_inserts(w: WorldView, entity: u32, cs: Seq<ComponentView>, n: int)
    requires
        w.is_alive(entity),
        0 <= n <= cs.len(),
    ensures
        w.apply_all(inserts(entity, cs), n) == w.with_slot(
            entity,
            assembled(w.slots[entity as int], cs, n),
        ),
    decreases n,
{
    if n > 0 {
        lemma_apply_inserts(w, entity, cs, n - 1);
        let before = w.apply_all(inserts(entity, cs), n - 1);
        assert(before.is_alive(entity)) by {
            lemma_assembled_alive(w.slots[entity as int], cs, n - 1);
        }
        assert(before.apply(inserts(entity, cs)[n - 1]).slots =~= w.with_slot(
            entity,
            assembled(w.slots[entity as int], cs, n),
        ).slots);
    } else {
        assert(w.with_slot(entity, w.slots[entity as int]).slots =~= w.slots);
    }
}

/// What putting the first `n` components of a list into a slot makes of it
/// depends on those `n` only.
pub proof fn lemma_assembled_prefix(
    slot: SlotView,
    a: Seq<ComponentView>,
    b: Seq<ComponentView>,
    n: int,
)
    requires
        0 <= n <= a.len(),
        n <= b.len(),
        forall|i: int| 0 <= i < n ==> a[i] == b[i],
    ensures
        assembled(slot, a, n) == assembled(slot, b, n),
    decreases n,
{
    if n > 0 {
        lemma_assembled_prefix(slot, a, b, n - 1);
    }
}

/// Putting a list of components into a slot is putting its front part into
/// it and then the rest.
pub proof fn lemma_assembled_concat(
    slot: SlotView,
    front: Seq<ComponentView>,
    rest: Seq<ComponentView>,
    n: int,
)
    requires
        0 <= n <= rest.len(),
    ensures
        assembled(slot, front + rest, front.len() + n) == assembled(
            assembled(slot, front, front.len() as int),
            rest,
            n,
        ),
    decreases n,
{
    if n > 0 {
        lemma_assembled_concat(slot, front, rest, n - 1);
        assert((front + rest)[front.len() + n - 1] == rest[n - 1]);
    } else {
        lemma_assembled_prefix(slot, front + rest, front, front.len() as int);
    }
}

/// Putting components into a slot leaves the entity as alive as it was.
pub proof fn lemma_assembled_alive(slot: SlotView, cs: Seq<ComponentView>, n: int)
    requires
        0 <= n <= cs.len(),
    ensures
        assembled(slot, cs, n).alive == slot.alive,
    decreases n,
{
    if n > 0 {
        lemma_assembled_alive(slot, cs, n - 1);
    }
}

/// After components were put into a slot, it holds of each type the last
/// component of that type in the list.
pub proof fn lemma_assembled_last(slot: SlotView, cs: Seq<ComponentView>, n: int, i: int)
    requires
        0 <= i < n <= cs.len(),
        forall|j: int| i < j < n ==> (#[trigger] cs[j]).kind() != cs[i].kind(),
    ensures
        assembled(slot, cs, n).get(cs[i].kind()) == Some(cs[i]),
    decreases n,
{
    if i < n - 1 {
        lemma_assembled_last(slot, cs, n - 1, i);
        assert(cs[n - 1].kind() != cs[i].kind());
    }
}

/// The last place among the first `n` of the list that holds a component of
/// type `kind`, where one of them does.
pub proof fn lemma_last_of_kind(cs: Seq<ComponentView>, n: int, kind: ComponentKind) -> (j: int)
    requires
        0 <= n <= cs.len(),
        exists|i: int| 0 <= i < n && (#[trigger] cs[i]).kind() == kind,
    ensures
        0 <= j < n,
        cs[j].kind() == kind,
        forall|i: int| j < i < n ==> (#[trigger] cs[i]).kind() != cs[j].kind(),
    decreases n,
{
    if cs[n - 1].kind() == kind {
        n - 1
    } else {
        let w = choose|i: int| 0 <= i < n && (#[trigger] cs[i]).kind() == kind;
        assert(0 <= w < n - 1 && cs[w].kind() == kind);
        lemma_last_of_kind(cs, n - 1, kind)
    }
}

/// After components were put into a slot, it holds what it held before of
/// every type that the list does not name.
pub proof fn lemma_assembled_absent(
    slot: SlotView,
    cs: Seq<ComponentView>,
    n: int,
    kind: ComponentKind,
)
    requires
        0 <= n <= cs.len(),
        forall|j: int| 0 <= j < n ==> (#[trigger] cs[j]).kind() != kind,
    ensures
        assembled(slot, cs, n).get(kind) == slot.get(kind),
    decreases n,
{
    if n > 0 {
        lemma_assembled_absent(slot, cs, n - 1, kind);
        assert(cs[n - 1].kind() != kind);
    }
}

} // verus!
