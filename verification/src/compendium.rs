use vstd::prelude::*;
use crate::component::{Component, ComponentKind, ComponentView};
use crate::comps::BoxOutline;
use crate::scalar::{Scalar, Vec3, Vec4, HALF_BITS};
use crate::world::{LazyAction, LazyActionView, World, WorldView};

verus! {

/// The state of the editor: what the user typed, picked and chose.
#[derive(Debug)]
pub struct Compendium {
    pub entity_query: String,
    /// The name typed for a new type.
    pub wip_type_name: String,
    /// The place in the list of components that the user picked.
    pub component_to_add_index: i32,
    /// Whether the chosen entity follows the mouse until it is placed.
    pub mouselock_chosen_ent: bool,
    /// The prefab that the type editor shows.
    pub editing_assemblage: Option<String>,
    /// The prefab from which the next entity is placed.
    pub place_assemblage: Option<String>,
    /// The entity that the user chose.
    pub chosen_ent: Option<u32>,
}

/// The mathematical value of a [`Compendium`].
pub struct CompendiumView {
    pub entity_query: Seq<char>,
    pub wip_type_name: Seq<char>,
    pub component_to_add_index: i32,
    pub mouselock_chosen_ent: bool,
    pub editing_assemblage: Option<Seq<char>>,
    pub place_assemblage: Option<Seq<char>>,
    pub chosen_ent: Option<u32>,
}

/// The text of a string that may be missing.
pub open spec fn text_of(s: Option<String>) -> Option<Seq<char>> {
    match s {
        Some(t) => Some(t@),
        None => None,
    }
}

impl View for Compendium {
    type V = CompendiumView;

    open spec fn view(&self) -> CompendiumView {
        CompendiumView {
            entity_query: self.entity_query@,
            wip_type_name: self.wip_type_name@,
            component_to_add_index: self.component_to_add_index,
            mouselock_chosen_ent: self.mouselock_chosen_ent,
            editing_assemblage: text_of(self.editing_assemblage),
            place_assemblage: text_of(self.place_assemblage),
            chosen_ent: self.chosen_ent,
        }
    }
}

/// The outline of an entity that is chosen while no other one is.
pub open spec fn first_outline() -> BoxOutline {
    BoxOutline {
        color: Vec3 {
            x: Scalar { bits: 0x3E4C_CCCD },
            y: Scalar { bits: HALF_BITS },
            z: Scalar { bits: 0x3F19_999A },
        },
        fade: Vec4 {
            x: Scalar { bits: 0x3C75_C28F },
            y: Scalar { bits: 0x3D99_999A },
            z: Scalar { bits: 0x3E05_1EB8 },
            w: Scalar { bits: 0x3E51_EB85 },
        },
    }
}

/// The outline of the live entity `entity`.
pub open spec fn outline_of(w: WorldView, entity: u32) -> Option<BoxOutline> {
    match w.get(entity, ComponentKind::BoxOutline) {
        Some(ComponentView::BoxOutline(o)) => Some(o),
        _ => None,
    }
}

/// The outline that passes to the entity that is chosen next: that of the
/// entity chosen before, where there is one and it has one, else the first
/// outline.
pub open spec fn passed_outline(w: WorldView, chosen: Option<u32>) -> BoxOutline {
    match chosen {
        Some(old_ent) => match outline_of(w, old_ent) {
            Some(o) => o,
            None => first_outline(),
        },
        None => first_outline(),
    }
}

/// The world after the entity chosen before gave way: where it was about to
/// be placed, its deletion is deferred; else its outline is taken off it.
pub open spec fn released(w: WorldView, chosen: Option<u32>, mouselock: bool) -> WorldView {
    match chosen {
        Some(old_ent) => if mouselock {
            w.with_lazy(w.lazy.push(LazyActionView::Delete { entity: old_ent }))
        } else {
            w.apply(LazyActionView::Remove { entity: old_ent, kind: ComponentKind::BoxOutline })
        },
        None => w,
    }
}

/// The world after `ent` was chosen in place of `chosen`.
pub open spec fn chosen_world(w: WorldView, chosen: Option<u32>, mouselock: bool, ent: u32) -> WorldView {
    released(w, chosen, mouselock).apply(
        LazyActionView::Insert {
            entity: ent,
            component: ComponentView::BoxOutline(passed_outline(w, chosen)),
        },
    )
}

impl Compendium {
    /// The editor with nothing typed, picked or chosen.
    pub fn new() -> (r: Compendium)
        ensures
            r@ == (CompendiumView {
                entity_query: Seq::empty(),
                wip_type_name: Seq::empty(),
                component_to_add_index: 0,
                mouselock_chosen_ent: false,
                editing_assemblage: None,
                place_assemblage: None,
                chosen_ent: None,
            }),
    {
        Compendium {
            entity_query: String::new(),
            wip_type_name: String::new(),
            component_to_add_index: 0,
            mouselock_chosen_ent: false,
            editing_assemblage: None,
            place_assemblage: None,
            chosen_ent: None,
        }
    }

    /// The outline of an entity that is chosen while no other one is.
    pub fn first_outline() -> (r: BoxOutline)
        ensures
            r == first_outline(),
    {
        BoxOutline {
            color: Vec3 {
                x: Scalar::from_bits(0x3E4C_CCCD),
                y: Scalar::from_bits(HALF_BITS),
                z: Scalar::from_bits(0x3F19_999A),
            },
            fade: Vec4 {
                x: Scalar::from_bits(0x3C75_C28F),
                y: Scalar::from_bits(0x3D99_999A),
                z: Scalar::from_bits(0x3E05_1EB8),
                w: Scalar::from_bits(0x3E51_EB85),
            },
        }
    }

    /// Chooses the entity `ent`. The entity chosen before gives way: where
    /// it was about to be placed, its deletion is deferred, else it loses its
    /// outline. Its outline passes to `ent`.
    ///
    /// Returns `false`, and changes nothing, where `ent` is not alive.
    pub fn choose_ent(&mut self, ent: u32, world: &mut World) -> (r: bool)
        requires
            old(world).wf(),
        ensures
            final(world).wf(),
            r == old(world)@.is_alive(ent),
            r ==> final(self)@ == (CompendiumView { chosen_ent: Some(ent), ..old(self)@ })
                && final(world)@ == chosen_world(
                old(world)@,
                old(self).chosen_ent,
                old(self).mouselock_chosen_ent,
                ent,
            ),
            !r ==> final(self)@ == old(self)@ && final(world)@ == old(world)@,
    {
        if !world.is_alive(ent) {
            return false;
        }
        let outline = match self.chosen_ent {
            Some(old_ent) => {
                let save_box = match world.get(old_ent, ComponentKind::BoxOutline) {
                    Some(Component::BoxOutline(o)) => *o,
                    _ => Compendium::first_outline(),
                };
                if self.mouselock_chosen_ent {
                    world.defer(LazyAction::Delete { entity: old_ent });
                } else {
                    world.remove(old_ent, ComponentKind::BoxOutline);
                }
                save_box
            },
            None => Compendium::first_outline(),
        };
        world.insert(ent, Component::BoxOutline(outline));
        self.chosen_ent = Some(ent);
        true
    }

    /// The entity that the user chose.
    pub fn get_chosen_ent(&self) -> (r: Option<u32>)
        ensures
            r == self.chosen_ent,
    {
        self.chosen_ent
    }

    /// Lets go of the chosen entity: it loses its outline, and nothing is
    /// chosen or follows the mouse any more.
    pub fn unchoose_ent(&mut self, world: &mut World)
        requires
            old(world).wf(),
        ensures
            final(world).wf(),
            final(self)@ == (CompendiumView {
                chosen_ent: None,
                mouselock_chosen_ent: false,
                ..old(self)@
            }),
            final(world)@ == match old(self).chosen_ent {
                Some(ent) => old(world)@.apply(
                    LazyActionView::Remove { entity: ent, kind: ComponentKind::BoxOutline },
                ),
                None => old(world)@,
            },
    {
        match self.chosen_ent {
            Some(ent) => {
                world.remove(ent, ComponentKind::BoxOutline);
            },
            None => {},
        }
        self.chosen_ent = None;
        self.mouselock_chosen_ent = false;
    }

    /// The chosen entity, where it is alive.
    pub fn live_chosen_ent(&self, world: &World) -> (r: Option<u32>)
        ensures
            r == match self.chosen_ent {
                Some(ent) => if world@.is_alive(ent) {
                    Some(ent)
                } else {
                    None
                },
                None => None,
            },
    {
        match self.chosen_ent {
            Some(ent) => crate::util::as_some(world.is_alive(ent), ent),
            None => None,
        }
    }
}

} // verus!
