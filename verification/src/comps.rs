use vstd::prelude::*;
use vstd::string::{StrSliceExecFns, StringExecFns};
use crate::scalar::{Scalar, Vec2, Vec3, Vec4, HALF_BITS, ONE_BITS, ZERO_BITS};

verus! {

/// Bit pattern of the real `0.15`, the default duration of a force.
pub const DEFAULT_FORCE_DURATION_BITS: u32 = 0x3E19_999A;

/// Bit pattern of the real `12.5`, the default strength of an explosion.
pub const DEFAULT_EXPLOSION_FORCE_BITS: u32 = 0x4148_0000;

/// How many chunks an exploding entity leaves by default.
pub const DEFAULT_CHUNKS_COUNT: i32 = 7;

/// Tag on every entity built from an assemblage: the key it was built from.
#[derive(Debug, PartialEq, Eq)]
pub struct Assemblaged {
    pub built_from: String,
}

pub struct AssemblagedView {
    pub built_from: Seq<char>,
}

impl View for Assemblaged {
    type V = AssemblagedView;

    open spec fn view(&self) -> AssemblagedView {
        AssemblagedView { built_from: self.built_from@ }
    }
}

impl Clone for Assemblaged {
    fn clone(&self) -> (r: Self)
        ensures
            r@ == self@,
    {
        Assemblaged { built_from: self.built_from.clone() }
    }
}

impl Default for Assemblaged {
    fn default() -> (r: Self)
        ensures
            r@.built_from == Seq::<char>::empty(),
    {
        Assemblaged { built_from: String::new() }
    }
}

/// A call into the scripting engine that waits for the scripting pass: the
/// handler's name and one number handed to it.
#[derive(Debug, PartialEq, Eq)]
pub struct ScriptEvent {
    pub function: String,
    pub payload: u32,
}

pub struct ScriptEventView {
    pub function: Seq<char>,
    pub payload: u32,
}

impl View for ScriptEvent {
    type V = ScriptEventView;

    open spec fn view(&self) -> ScriptEventView {
        ScriptEventView { function: self.function@, payload: self.payload }
    }
}

impl Clone for ScriptEvent {
    fn clone(&self) -> (r: Self)
        ensures
            r@ == self@,
    {
        ScriptEvent { function: self.function.clone(), payload: self.payload }
    }
}

impl Default for ScriptEvent {
    fn default() -> (r: Self)
        ensures
            r@ == (ScriptEventView { function: Seq::<char>::empty(), payload: 0 }),
    {
        ScriptEvent { function: String::new(), payload: 0 }
    }
}

impl ScriptEvent {
    /// A copy of this event that names the same handler and carries `pld`.
    pub fn clone_with_payload(&self, pld: u32) -> (r: Self)
        ensures
            r@ == (ScriptEventView { function: self@.function, payload: pld }),
    {
        let mut clone = self.clone();
        clone.payload = pld;
        clone
    }
}

/// Lets the player trigger `script` on the entity by interacting with it.
#[derive(Debug, PartialEq, Eq)]
pub struct Interactable {
    pub script: ScriptEvent,
}

pub struct InteractableView {
    pub script: ScriptEventView,
}

impl View for Interactable {
    type V = InteractableView;

    open spec fn view(&self) -> InteractableView {
        InteractableView { script: self.script@ }
    }
}

impl Clone for Interactable {
    fn clone(&self) -> (r: Self)
        ensures
            r@ == self@,
    {
        Interactable { script: self.script.clone() }
    }
}

impl Default for Interactable {
    fn default() -> (r: Self)
        ensures
            r@.script == (ScriptEventView { function: Seq::<char>::empty(), payload: 0 }),
    {
        Interactable { script: ScriptEvent::default() }
    }
}

/// Makes a contact between this entity's body and another one raise `script`.
#[derive(Debug, PartialEq, Eq)]
pub struct EmitCollideEvent {
    pub script: ScriptEvent,
}

pub struct EmitCollideEventView {
    pub script: ScriptEventView,
}

impl View for EmitCollideEvent {
    type V = EmitCollideEventView;

    open spec fn view(&self) -> EmitCollideEventView {
        EmitCollideEventView { script: self.script@ }
    }
}

impl Clone for EmitCollideEvent {
    fn clone(&self) -> (r: Self)
        ensures
            r@ == self@,
    {
        EmitCollideEvent { script: self.script.clone() }
    }
}

impl Default for EmitCollideEvent {
    fn default() -> (r: Self)
        ensures
            r@.script == (ScriptEventView { function: Seq::<char>::empty(), payload: 0 }),
    {
        EmitCollideEvent { script: ScriptEvent::default() }
    }
}

/// The names by which scripts find an entity.
#[derive(Debug, PartialEq, Eq)]
pub struct ScriptingIds {
    pub ids: Vec<String>,
}

pub struct ScriptingIdsView {
    pub ids: Seq<Seq<char>>,
}

/// The texts of a list of strings.
pub open spec fn texts(v: Seq<String>) -> Seq<Seq<char>> {
    Seq::new(v.len(), |i: int| v[i]@)
}

impl View for ScriptingIds {
    type V = ScriptingIdsView;

    open spec fn view(&self) -> ScriptingIdsView {
        ScriptingIdsView { ids: texts(self.ids@) }
    }
}

/// A copy of a list of strings.
pub fn clone_texts(v: &Vec<String>) -> (r: Vec<String>)
    ensures
        texts(r@) == texts(v@),
{
    let mut out: Vec<String> = Vec::new();
    let mut i: usize = 0;
    while i < v.len()
        invariant
            i <= v.len(),
            out.len() == i,
            forall|j: int| 0 <= j < i ==> out[j]@ == v[j]@,
        decreases v.len() - i,
    {
        out.push(v[i].clone());
        i += 1;
    }
    assert(texts(out@) =~= texts(v@));
    out
}

impl Clone for ScriptingIds {
    fn clone(&self) -> (r: Self)
        ensures
            r@ == self@,
    {
        ScriptingIds { ids: clone_texts(&self.ids) }
    }
}

impl Default for ScriptingIds {
    fn default() -> (r: Self)
        ensures
            r@.ids == Seq::<Seq<char>>::empty(),
    {
        let r = ScriptingIds { ids: Vec::new() };
        assert(r@.ids =~= Seq::<Seq<char>>::empty());
        r
    }
}

/// What the user did to a list of scripting ids in the editor.
#[derive(Debug, PartialEq, Eq)]
pub enum IdsEdit {
    /// Left this text in the field that shows the last id.
    Edited(String),
    /// Asked for a new id.
    New,
    /// Asked for the last id to be removed.
    Remove,
    /// Picked the id at this place.
    Select(usize),
}

/// The mathematical value of an [`IdsEdit`].
pub enum IdsEditView {
    Edited(Seq<char>),
    New,
    Remove,
    Select(usize),
}

impl View for IdsEdit {
    type V = IdsEditView;

    open spec fn view(&self) -> IdsEditView {
        match self {
            IdsEdit::Edited(t) => IdsEditView::Edited(t@),
            IdsEdit::New => IdsEditView::New,
            IdsEdit::Remove => IdsEditView::Remove,
            IdsEdit::Select(i) => IdsEditView::Select(*i),
        }
    }
}

/// The name that a new scripting id gets.
pub open spec fn new_id() -> Seq<char> {
    "new id"@
}

/// A list of scripting ids after an edit. A text that is not empty takes
/// the place of the last id, or becomes the first id. An empty text removes
/// the last id where that is a single character. A new id gets the name
/// [`new_id`] and stands last. Removing takes the last id. An id that is
/// picked moves to the end.
pub open spec fn ids_edited(ids: Seq<Seq<char>>, edit: IdsEditView) -> Seq<Seq<char>> {
    match edit {
        IdsEditView::Edited(text) => if text.len() > 0 {
            if ids.len() > 0 {
                ids.drop_last().push(text)
            } else {
                ids.push(text)
            }
        } else if ids.len() > 0 && ids.last().len() == 1 {
            ids.drop_last()
        } else {
            ids
        },
        IdsEditView::New => ids.push(new_id()),
        IdsEditView::Remove => if ids.len() > 0 {
            ids.drop_last()
        } else {
            ids
        },
        IdsEditView::Select(i) => if i < ids.len() {
            ids.remove(i as int).push(ids[i as int])
        } else {
            ids
        },
    }
}

impl ScriptingIds {
    /// Applies an edit of the user to the list of ids.
    pub fn edit(&mut self, edit: IdsEdit)
        ensures
            final(self)@.ids == ids_edited(old(self)@.ids, edit@),
    {
        let ghost before = texts(self.ids@);
        match edit {
            IdsEdit::Edited(text) => {
                if text.as_str().unicode_len() > 0 {
                    if self.ids.len() > 0 {
                        self.ids.pop();
                    }
                    self.ids.push(text);
                    assert(texts(self.ids@) =~= ids_edited(before, edit@));
                } else {
                    let n = self.ids.len();
                    if n > 0 && self.ids[n - 1].as_str().unicode_len() == 1 {
                        assert(before.last() == self.ids[n - 1]@);
                        self.ids.pop();
                        assert(texts(self.ids@) =~= ids_edited(before, edit@));
                    } else {
                        assert(n > 0 ==> before.last() == self.ids[n - 1]@);
                    }
                }
            },
            IdsEdit::New => {
                self.ids.push(String::from_str("new id"));
                assert(texts(self.ids@) =~= ids_edited(before, edit@));
            },
            IdsEdit::Remove => {
                if self.ids.len() > 0 {
                    self.ids.pop();
                    assert(texts(self.ids@) =~= ids_edited(before, edit@));
                }
            },
            IdsEdit::Select(i) => {
                if i < self.ids.len() {
                    let clicked = self.ids.remove(i);
                    self.ids.push(clicked);
                    assert(texts(self.ids@) =~= ids_edited(before, edit@));
                }
            },
        }
    }
}

/// What the entity looks like, as uv corners in the spritesheet and a size.
/// Derived from an [`AppearanceBuilder`]; never saved.
#[derive(Clone, Copy, Debug, PartialEq, Eq, Structural)]
pub struct Appearance {
    pub uvs: Vec4,
    pub size: Vec2,
}

/// Names the image from which the entity's [`Appearance`] is to be built.
#[derive(Debug, PartialEq, Eq)]
pub struct AppearanceBuilder {
    pub image_name: String,
    pub uv_adjust: Vec2,
    pub size_override: Vec2,
    pub built: bool,
}

pub struct AppearanceBuilderView {
    pub image_name: Seq<char>,
    pub uv_adjust: Vec2,
    pub size_override: Vec2,
    pub built: bool,
}

impl View for AppearanceBuilder {
    type V = AppearanceBuilderView;

    open spec fn view(&self) -> AppearanceBuilderView {
        AppearanceBuilderView {
            image_name: self.image_name@,
            uv_adjust: self.uv_adjust,
            size_override: self.size_override,
            built: self.built,
        }
    }
}

impl Clone for AppearanceBuilder {
    fn clone(&self) -> (r: Self)
        ensures
            r@ == self@,
    {
        AppearanceBuilder {
            image_name: self.image_name.clone(),
            uv_adjust: self.uv_adjust,
            size_override: self.size_override,
            built: self.built,
        }
    }
}

impl Default for AppearanceBuilder {
    fn default() -> (r: Self)
        ensures
            r@ == (AppearanceBuilderView {
                image_name: Seq::<char>::empty(),
                uv_adjust: Vec2 { x: Scalar { bits: ZERO_BITS }, y: Scalar { bits: ZERO_BITS } },
                size_override: Vec2 {
                    x: Scalar { bits: ZERO_BITS },
                    y: Scalar { bits: ZERO_BITS },
                },
                built: false,
            }),
    {
        AppearanceBuilder {
            image_name: String::new(),
            uv_adjust: Vec2::zero(),
            size_override: Vec2::zero(),
            built: false,
        }
    }
}

/// Cycles the entity's appearance through the frames of a sprite strip.
#[derive(Clone, Copy, Debug, PartialEq, Eq, Structural)]
pub struct Animation {
    pub frame_count: i32,
    pub fps: Scalar,
}

impl Default for Animation {
    fn default() -> (r: Self)
        ensures
            r == (Animation { frame_count: 0, fps: Scalar { bits: ZERO_BITS } }),
    {
        Animation { frame_count: 0, fps: Scalar::zero() }
    }
}

/// Makes the camera follow the entity.
#[derive(Clone, Copy, Debug, PartialEq, Eq, Structural)]
pub struct CameraFocus {
    pub background_color: Vec4,
    pub zoom: Scalar,
    pub interpolation_speed: Scalar,
}

impl Default for CameraFocus {
    fn default() -> (r: Self)
        ensures
            r.background_color == (Vec4 {
                x: Scalar { bits: ZERO_BITS },
                y: Scalar { bits: ZERO_BITS },
                z: Scalar { bits: ZERO_BITS },
                w: Scalar { bits: ZERO_BITS },
            }),
            r.zoom.bits == ZERO_BITS,
            r.interpolation_speed.bits == ZERO_BITS,
    {
        CameraFocus {
            background_color: Vec4::splat(Scalar::zero()),
            zoom: Scalar::zero(),
            interpolation_speed: Scalar::zero(),
        }
    }
}

/// The outline drawn round the entity that the editor has selected.
#[derive(Clone, Copy, Debug, PartialEq, Eq, Structural)]
pub struct BoxOutline {
    pub color: Vec3,
    pub fade: Vec4,
}

impl Default for BoxOutline {
    fn default() -> (r: Self)
        ensures
            r.color == (Vec3 {
                x: Scalar { bits: ZERO_BITS },
                y: Scalar { bits: ZERO_BITS },
                z: Scalar { bits: ZERO_BITS },
            }),
            r.fade == (Vec4 {
                x: Scalar { bits: ZERO_BITS },
                y: Scalar { bits: ZERO_BITS },
                z: Scalar { bits: ZERO_BITS },
                w: Scalar { bits: ZERO_BITS },
            }),
    {
        BoxOutline { color: Vec3::splat(Scalar::zero()), fade: Vec4::splat(Scalar::zero()) }
    }
}

/// Lets the keyboard move the entity, at `speed`.
#[derive(Clone, Copy, Debug, PartialEq, Eq, Structural)]
pub struct MovementControls {
    pub speed: Scalar,
}

impl Default for MovementControls {
    fn default() -> (r: Self)
        ensures
            r.speed.bits == ZERO_BITS,
    {
        MovementControls { speed: Scalar::zero() }
    }
}

/// A force that acts on the entity's body until `time_elapsed` reaches
/// `duration`.
#[derive(Clone, Copy, Debug, PartialEq, Eq, Structural)]
pub struct ApplyForce {
    pub vec: Vec3,
    pub time_elapsed: Scalar,
    pub duration: Scalar,
    pub decay: Scalar,
}

impl Default for ApplyForce {
    fn default() -> (r: Self)
        ensures
            r == (ApplyForce {
                vec: Vec3 {
                    x: Scalar { bits: ZERO_BITS },
                    y: Scalar { bits: ZERO_BITS },
                    z: Scalar { bits: ZERO_BITS },
                },
                time_elapsed: Scalar { bits: ZERO_BITS },
                duration: Scalar { bits: DEFAULT_FORCE_DURATION_BITS },
                decay: Scalar { bits: ONE_BITS },
            }),
    {
        ApplyForce {
            vec: Vec3::splat(Scalar::zero()),
            time_elapsed: Scalar::zero(),
            duration: Scalar::from_bits(DEFAULT_FORCE_DURATION_BITS),
            decay: Scalar::one(),
        }
    }
}

impl ApplyForce {
    /// The default force, acting along `vec`.
    pub fn with_vec(vec: Vec3) -> (r: Self)
        ensures
            r == (ApplyForce {
                vec,
                time_elapsed: Scalar { bits: ZERO_BITS },
                duration: Scalar { bits: DEFAULT_FORCE_DURATION_BITS },
                decay: Scalar { bits: ONE_BITS },
            }),
    {
        let mut f = ApplyForce::default();
        f.vec = vec;
        f
    }
}

/// Lets the explosion effect burst the entity into `chunks_count` pieces.
#[derive(Clone, Copy, Debug, PartialEq, Eq, Structural)]
pub struct Explodeable {
    pub delete_entity: bool,
    pub delete_component: bool,
    pub chunks_count: i32,
    pub force: ApplyForce,
}

impl Default for Explodeable {
    fn default() -> (r: Self)
        ensures
            r.delete_entity,
            !r.delete_component,
            r.chunks_count == DEFAULT_CHUNKS_COUNT,
            r.force == (ApplyForce {
                vec: Vec3 {
                    x: Scalar { bits: DEFAULT_EXPLOSION_FORCE_BITS },
                    y: Scalar { bits: ZERO_BITS },
                    z: Scalar { bits: ZERO_BITS },
                },
                time_elapsed: Scalar { bits: ZERO_BITS },
                duration: Scalar { bits: DEFAULT_FORCE_DURATION_BITS },
                decay: Scalar { bits: ONE_BITS },
            }),
    {
        Explodeable {
            delete_entity: true,
            delete_component: false,
            chunks_count: DEFAULT_CHUNKS_COUNT,
            force: ApplyForce::with_vec(
                Vec3 {
                    x: Scalar::from_bits(DEFAULT_EXPLOSION_FORCE_BITS),
                    y: Scalar::zero(),
                    z: Scalar::zero(),
                },
            ),
        }
    }
}

/// The declarative description of a physical body: a template while it sits in
/// a prefab or a save file, a snapshot while it is read off a live body.
/// Rotation is in Euler angles, in radians.
#[derive(Clone, Copy, Debug, PartialEq, Eq, Structural)]
pub struct Hitbox {
    pub position: Vec3,
    pub rotation: Vec3,
    pub scale: Vec3,
    pub density: Scalar,
    pub physics_interaction: bool,
}

impl Default for Hitbox {
    fn default() -> (r: Self)
        ensures
            r == (Hitbox {
                position: Vec3 {
                    x: Scalar { bits: ZERO_BITS },
                    y: Scalar { bits: ZERO_BITS },
                    z: Scalar { bits: ZERO_BITS },
                },
                rotation: Vec3 {
                    x: Scalar { bits: ZERO_BITS },
                    y: Scalar { bits: ZERO_BITS },
                    z: Scalar { bits: ZERO_BITS },
                },
                scale: Vec3 {
                    x: Scalar { bits: HALF_BITS },
                    y: Scalar { bits: HALF_BITS },
                    z: Scalar { bits: HALF_BITS },
                },
                density: Scalar { bits: ONE_BITS },
                physics_interaction: true,
            }),
    {
        Hitbox {
            position: Vec3::splat(Scalar::zero()),
            rotation: Vec3::splat(Scalar::zero()),
            scale: Vec3::splat(Scalar::from_bits(HALF_BITS)),
            density: Scalar::one(),
            physics_interaction: true,
        }
    }
}

/// The link from an entity to its rigid body in the physics world.
#[derive(Clone, Copy, Debug, PartialEq, Eq, Structural)]
pub struct Phys {
    pub body: usize,
}

/// Hit points.
#[derive(Clone, Copy, Debug, PartialEq, Eq, Structural)]
pub struct Health {
    pub value: Scalar,
    pub max: Scalar,
}

impl Default for Health {
    fn default() -> (r: Self)
        ensures
            r == (Health { value: Scalar { bits: ZERO_BITS }, max: Scalar { bits: ZERO_BITS } }),
    {
        Health { value: Scalar::zero(), max: Scalar::zero() }
    }
}

} // verus!
