use vstd::prelude::*;
use vstd::string::StringExecFns;
use crate::scalar::{Scalar, Vec2, Vec3, Vec4, HALF_BITS, ONE_BITS, ZERO_BITS};
use crate::comps::{
    DEFAULT_CHUNKS_COUNT, DEFAULT_EXPLOSION_FORCE_BITS, DEFAULT_FORCE_DURATION_BITS,
    Animation, Appearance, AppearanceBuilder, AppearanceBuilderView, ApplyForce, Assemblaged,
    AssemblagedView, BoxOutline, CameraFocus, EmitCollideEvent, EmitCollideEventView, Explodeable,
    Health, Hitbox, Interactable, InteractableView, MovementControls, Phys, ScriptEvent,
    ScriptEventView, ScriptingIds, ScriptingIdsView,
};

verus! {

/// How many types of component there are.
pub const KIND_COUNT: usize = 16;

/// The types of component that an entity can carry, one of each at most.
#[derive(Clone, Copy, Debug, PartialEq, Eq, Structural)]
pub enum ComponentKind {
    Assemblaged,
    Interactable,
    EmitCollideEvent,
    ScriptEvent,
    ScriptingIds,
    AppearanceBuilder,
    Appearance,
    Animation,
    CameraFocus,
    BoxOutline,
    Explodeable,
    MovementControls,
    ApplyForce,
    Hitbox,
    Phys,
    Health,
}

/// A component of any type: what a prefab lists and what an entity carries.
#[derive(Debug, PartialEq, Eq)]
pub enum Component {
    Assemblaged(Assemblaged),
    Interactable(Interactable),
    EmitCollideEvent(EmitCollideEvent),
    ScriptEvent(ScriptEvent),
    ScriptingIds(ScriptingIds),
    AppearanceBuilder(AppearanceBuilder),
    Appearance(Appearance),
    Animation(Animation),
    CameraFocus(CameraFocus),
    BoxOutline(BoxOutline),
    Explodeable(Explodeable),
    MovementControls(MovementControls),
    ApplyForce(ApplyForce),
    Hitbox(Hitbox),
    Phys(Phys),
    Health(Health),
}

/// The mathematical value of a [`Component`].
pub enum ComponentView {
    Assemblaged(AssemblagedView),
    Interactable(InteractableView),
    EmitCollideEvent(EmitCollideEventView),
    ScriptEvent(ScriptEventView),
    ScriptingIds(ScriptingIdsView),
    AppearanceBuilder(AppearanceBuilderView),
    Appearance(Appearance),
    Animation(Animation),
    CameraFocus(CameraFocus),
    BoxOutline(BoxOutline),
    Explodeable(Explodeable),
    MovementControls(MovementControls),
    ApplyForce(ApplyForce),
    Hitbox(Hitbox),
    Phys(Phys),
    Health(Health),
}

impl View for Component {
    type V = ComponentView;

    open spec fn view(&self) -> ComponentView {
        match self {
            Component::Assemblaged(c) => ComponentView::Assemblaged(c@),
            Component::Interactable(c) => ComponentView::Interactable(c@),
            Component::EmitCollideEvent(c) => ComponentView::EmitCollideEvent(c@),
            Component::ScriptEvent(c) => ComponentView::ScriptEvent(c@),
            Component::ScriptingIds(c) => ComponentView::ScriptingIds(c@),
            Component::AppearanceBuilder(c) => ComponentView::AppearanceBuilder(c@),
            Component::Appearance(c) => ComponentView::Appearance(*c),
            Component::Animation(c) => ComponentView::Animation(*c),
            Component::CameraFocus(c) => ComponentView::CameraFocus(*c),
            Component::BoxOutline(c) => ComponentView::BoxOutline(*c),
            Component::Explodeable(c) => ComponentView::Explodeable(*c),
            Component::MovementControls(c) => ComponentView::MovementControls(*c),
            Component::ApplyForce(c) => ComponentView::ApplyForce(*c),
            Component::Hitbox(c) => ComponentView::Hitbox(*c),
            Component::Phys(c) => ComponentView::Phys(*c),
            Component::Health(c) => ComponentView::Health(*c),
        }
    }
}

impl ComponentView {
    /// The type of this component.
    pub open spec fn kind(self) -> ComponentKind {
        match self {
            ComponentView::Assemblaged(_) => ComponentKind::Assemblaged,
            ComponentView::Interactable(_) => ComponentKind::Interactable,
            ComponentView::EmitCollideEvent(_) => ComponentKind::EmitCollideEvent,
            ComponentView::ScriptEvent(_) => ComponentKind::ScriptEvent,
            ComponentView::ScriptingIds(_) => ComponentKind::ScriptingIds,
            ComponentView::AppearanceBuilder(_) => ComponentKind::AppearanceBuilder,
            ComponentView::Appearance(_) => ComponentKind::Appearance,
            ComponentView::Animation(_) => ComponentKind::Animation,
            ComponentView::CameraFocus(_) => ComponentKind::CameraFocus,
            ComponentView::BoxOutline(_) => ComponentKind::BoxOutline,
            ComponentView::Explodeable(_) => ComponentKind::Explodeable,
            ComponentView::MovementControls(_) => ComponentKind::MovementControls,
            ComponentView::ApplyForce(_) => ComponentKind::ApplyForce,
            ComponentView::Hitbox(_) => ComponentKind::Hitbox,
            ComponentView::Phys(_) => ComponentKind::Phys,
            ComponentView::Health(_) => ComponentKind::Health,
        }
    }
}

/// The real `0.0`.
pub open spec fn zero() -> Scalar {
    Scalar { bits: ZERO_BITS }
}

/// The triple of zeros.
pub open spec fn zero3() -> Vec3 {
    Vec3 { x: zero(), y: zero(), z: zero() }
}

/// The default force: none, lasting `0.15`, unchanged while it lasts.
pub open spec fn default_force() -> ApplyForce {
    ApplyForce {
        vec: zero3(),
        time_elapsed: zero(),
        duration: Scalar { bits: DEFAULT_FORCE_DURATION_BITS },
        decay: Scalar { bits: ONE_BITS },
    }
}

/// The default script event: no handler, payload 0.
pub open spec fn default_event() -> ScriptEventView {
    ScriptEventView { function: Seq::empty(), payload: 0 }
}

/// The default value of each component type.
pub open spec fn default_view(kind: ComponentKind) -> ComponentView {
    match kind {
        ComponentKind::Assemblaged => ComponentView::Assemblaged(
            AssemblagedView { built_from: Seq::empty() },
        ),
        ComponentKind::Interactable => ComponentView::Interactable(
            InteractableView { script: default_event() },
        ),
        ComponentKind::EmitCollideEvent => ComponentView::EmitCollideEvent(
            EmitCollideEventView { script: default_event() },
        ),
        ComponentKind::ScriptEvent => ComponentView::ScriptEvent(default_event()),
        ComponentKind::ScriptingIds => ComponentView::ScriptingIds(
            ScriptingIdsView { ids: Seq::empty() },
        ),
        ComponentKind::AppearanceBuilder => ComponentView::AppearanceBuilder(
            AppearanceBuilderView {
                image_name: Seq::empty(),
                uv_adjust: Vec2 { x: zero(), y: zero() },
                size_override: Vec2 { x: zero(), y: zero() },
                built: false,
            },
        ),
        ComponentKind::Appearance => ComponentView::Appearance(
            Appearance {
                uvs: Vec4 { x: zero(), y: zero(), z: zero(), w: zero() },
                size: Vec2 { x: zero(), y: zero() },
            },
        ),
        ComponentKind::Animation => ComponentView::Animation(
            Animation { frame_count: 0, fps: zero() },
        ),
        ComponentKind::CameraFocus => ComponentView::CameraFocus(
            CameraFocus {
                background_color: Vec4 { x: zero(), y: zero(), z: zero(), w: zero() },
                zoom: zero(),
                interpolation_speed: zero(),
            },
        ),
        ComponentKind::BoxOutline => ComponentView::BoxOutline(
            BoxOutline {
                color: zero3(),
                fade: Vec4 { x: zero(), y: zero(), z: zero(), w: zero() },
            },
        ),
        ComponentKind::Explodeable => ComponentView::Explodeable(
            Explodeable {
                delete_entity: true,
                delete_component: false,
                chunks_count: DEFAULT_CHUNKS_COUNT,
                force: ApplyForce {
                    vec: Vec3 {
                        x: Scalar { bits: DEFAULT_EXPLOSION_FORCE_BITS },
                        y: zero(),
                        z: zero(),
                    },
                    time_elapsed: zero(),
                    duration: Scalar { bits: DEFAULT_FORCE_DURATION_BITS },
                    decay: Scalar { bits: ONE_BITS },
                },
            },
        ),
        ComponentKind::MovementControls => ComponentView::MovementControls(
            MovementControls { speed: zero() },
        ),
        ComponentKind::ApplyForce => ComponentView::ApplyForce(default_force()),
        ComponentKind::Hitbox => ComponentView::Hitbox(
            Hitbox {
                position: zero3(),
                rotation: zero3(),
                scale: Vec3 {
                    x: Scalar { bits: HALF_BITS },
                    y: Scalar { bits: HALF_BITS },
                    z: Scalar { bits: HALF_BITS },
                },
                density: Scalar { bits: ONE_BITS },
                physics_interaction: true,
            },
        ),
        ComponentKind::Phys => ComponentView::Phys(Phys { body: 0 }),
        ComponentKind::Health => ComponentView::Health(Health { value: zero(), max: zero() }),
    }
}

/// The name of a component type: its tag in a save file and its key in the
/// table of prototypes.
pub open spec fn kind_name(kind: ComponentKind) -> Seq<char> {
    match kind {
        ComponentKind::Assemblaged => "Assemblaged"@,
        ComponentKind::Interactable => "Interactable"@,
        ComponentKind::EmitCollideEvent => "EmitCollideEvent"@,
        ComponentKind::ScriptEvent => "ScriptEvent"@,
        ComponentKind::ScriptingIds => "ScriptingIds"@,
        ComponentKind::AppearanceBuilder => "AppearanceBuilder"@,
        ComponentKind::Appearance => "Appearance"@,
        ComponentKind::Animation => "Animation"@,
        ComponentKind::CameraFocus => "CameraFocus"@,
        ComponentKind::BoxOutline => "BoxOutline"@,
        ComponentKind::Explodeable => "Explodeable"@,
        ComponentKind::MovementControls => "MovementControls"@,
        ComponentKind::ApplyForce => "ApplyForce"@,
        ComponentKind::Hitbox => "Hitbox"@,
        ComponentKind::Phys => "Phys"@,
        ComponentKind::Health => "Health"@,
    }
}

/// Whether components of this type are written to save files and can stand in
/// a prefab. The two that are derived from live state are not.
pub open spec fn kind_is_persistent(kind: ComponentKind) -> bool {
    kind != ComponentKind::Appearance && kind != ComponentKind::Phys
}

impl ComponentKind {
    /// The name of this component type.
    pub fn name(&self) -> (r: &'static str)
        ensures
            r@ == kind_name(*self),
    {
        match self {
            ComponentKind::Assemblaged => "Assemblaged",
            ComponentKind::Interactable => "Interactable",
            ComponentKind::EmitCollideEvent => "EmitCollideEvent",
            ComponentKind::ScriptEvent => "ScriptEvent",
            ComponentKind::ScriptingIds => "ScriptingIds",
            ComponentKind::AppearanceBuilder => "AppearanceBuilder",
            ComponentKind::Appearance => "Appearance",
            ComponentKind::Animation => "Animation",
            ComponentKind::CameraFocus => "CameraFocus",
            ComponentKind::BoxOutline => "BoxOutline",
            ComponentKind::Explodeable => "Explodeable",
            ComponentKind::MovementControls => "MovementControls",
            ComponentKind::ApplyForce => "ApplyForce",
            ComponentKind::Hitbox => "Hitbox",
            ComponentKind::Phys => "Phys",
            ComponentKind::Health => "Health",
        }
    }

    /// The place of this component type among all of them.
    pub fn index(&self) -> (r: usize)
        ensures
            r == kind_index(*self),
            r < KIND_COUNT,
    {
        match self {
            ComponentKind::Assemblaged => 0,
            ComponentKind::Interactable => 1,
            ComponentKind::EmitCollideEvent => 2,
            ComponentKind::ScriptEvent => 3,
            ComponentKind::ScriptingIds => 4,
            ComponentKind::AppearanceBuilder => 5,
            ComponentKind::Appearance => 6,
            ComponentKind::Animation => 7,
            ComponentKind::CameraFocus => 8,
            ComponentKind::BoxOutline => 9,
            ComponentKind::Explodeable => 10,
            ComponentKind::MovementControls => 11,
            ComponentKind::ApplyForce => 12,
            ComponentKind::Hitbox => 13,
            ComponentKind::Phys => 14,
            ComponentKind::Health => 15,
        }
    }

    /// Whether components of this type are saved.
    pub fn is_persistent(&self) -> (r: bool)
        ensures
            r == kind_is_persistent(*self),
    {
        match self {
            ComponentKind::Appearance => false,
            ComponentKind::Phys => false,
            _ => true,
        }
    }
}

impl Component {
    /// The type of this component.
    pub fn kind(&self) -> (r: ComponentKind)
        ensures
            r == self@.kind(),
    {
        match self {
            Component::Assemblaged(_) => ComponentKind::Assemblaged,
            Component::Interactable(_) => ComponentKind::Interactable,
            Component::EmitCollideEvent(_) => ComponentKind::EmitCollideEvent,
            Component::ScriptEvent(_) => ComponentKind::ScriptEvent,
            Component::ScriptingIds(_) => ComponentKind::ScriptingIds,
            Component::AppearanceBuilder(_) => ComponentKind::AppearanceBuilder,
            Component::Appearance(_) => ComponentKind::Appearance,
            Component::Animation(_) => ComponentKind::Animation,
            Component::CameraFocus(_) => ComponentKind::CameraFocus,
            Component::BoxOutline(_) => ComponentKind::BoxOutline,
            Component::Explodeable(_) => ComponentKind::Explodeable,
            Component::MovementControls(_) => ComponentKind::MovementControls,
            Component::ApplyForce(_) => ComponentKind::ApplyForce,
            Component::Hitbox(_) => ComponentKind::Hitbox,
            Component::Phys(_) => ComponentKind::Phys,
            Component::Health(_) => ComponentKind::Health,
        }
    }

    /// The name of this component's type.
    pub fn name(&self) -> (r: &'static str)
        ensures
            r@ == kind_name(self@.kind()),
    {
        self.kind().name()
    }

    /// An independently owned copy of this component.
    pub fn boxed_clone(&self) -> (r: Component)
        ensures
            r@ == self@,
    {
        match self {
            Component::Assemblaged(c) => Component::Assemblaged(c.clone()),
            Component::Interactable(c) => Component::Interactable(c.clone()),
            Component::EmitCollideEvent(c) => Component::EmitCollideEvent(c.clone()),
            Component::ScriptEvent(c) => Component::ScriptEvent(c.clone()),
            Component::ScriptingIds(c) => Component::ScriptingIds(c.clone()),
            Component::AppearanceBuilder(c) => Component::AppearanceBuilder(c.clone()),
            Component::Appearance(c) => Component::Appearance(*c),
            Component::Animation(c) => Component::Animation(*c),
            Component::CameraFocus(c) => Component::CameraFocus(*c),
            Component::BoxOutline(c) => Component::BoxOutline(*c),
            Component::Explodeable(c) => Component::Explodeable(*c),
            Component::MovementControls(c) => Component::MovementControls(*c),
            Component::ApplyForce(c) => Component::ApplyForce(*c),
            Component::Hitbox(c) => Component::Hitbox(*c),
            Component::Phys(c) => Component::Phys(*c),
            Component::Health(c) => Component::Health(*c),
        }
    }

    /// The representative value of a component type: what "add component"
    /// puts into a prefab.
    pub fn prototype(kind: ComponentKind) -> (r: Component)
        ensures
            r@ == default_view(kind),
            r@.kind() == kind,
    {
        match kind {
            ComponentKind::Assemblaged => Component::Assemblaged(Assemblaged::default()),
            ComponentKind::Interactable => Component::Interactable(Interactable::default()),
            ComponentKind::EmitCollideEvent => Component::EmitCollideEvent(
                EmitCollideEvent::default(),
            ),
            ComponentKind::ScriptEvent => Component::ScriptEvent(ScriptEvent::default()),
            ComponentKind::ScriptingIds => Component::ScriptingIds(ScriptingIds::default()),
            ComponentKind::AppearanceBuilder => Component::AppearanceBuilder(
                AppearanceBuilder::default(),
            ),
            ComponentKind::Appearance => Component::Appearance(
                Appearance {
                    uvs: crate::scalar::Vec4::splat(crate::scalar::Scalar::zero()),
                    size: crate::scalar::Vec2::zero(),
                },
            ),
            ComponentKind::Animation => Component::Animation(Animation::default()),
            ComponentKind::CameraFocus => Component::CameraFocus(CameraFocus::default()),
            ComponentKind::BoxOutline => Component::BoxOutline(BoxOutline::default()),
            ComponentKind::Explodeable => Component::Explodeable(Explodeable::default()),
            ComponentKind::MovementControls => Component::MovementControls(
                MovementControls::default(),
            ),
            ComponentKind::ApplyForce => Component::ApplyForce(ApplyForce::default()),
            ComponentKind::Hitbox => Component::Hitbox(Hitbox::default()),
            ComponentKind::Phys => Component::Phys(Phys { body: 0 }),
            ComponentKind::Health => Component::Health(Health::default()),
        }
    }
}

impl Clone for Component {
    fn clone(&self) -> (r: Self)
        ensures
            r@ == self@,
    {
        self.boxed_clone()
    }
}

/// The views of a list of components, in order.
pub open spec fn views(cs: Seq<Component>) -> Seq<ComponentView> {
    Seq::new(cs.len(), |i: int| cs[i]@)
}

/// A copy of a list of components, in the same order.
pub fn clone_components(cs: &Vec<Component>) -> (r: Vec<Component>)
    ensures
        views(r@) == views(cs@),
{
    let mut out: Vec<Component> = Vec::new();
    let mut i: usize = 0;
    while i < cs.len()
        invariant
            i <= cs.len(),
            out.len() == i,
            forall|j: int| 0 <= j < i ==> out[j]@ == cs[j]@,
        decreases cs.len() - i,
    {
        out.push(cs[i].boxed_clone());
        i += 1;
    }
    assert(views(out@) =~= views(cs@));
    out
}

/// The component type with the given name, if there is one.
pub fn kind_from_name(name: &str) -> (r: Option<ComponentKind>)
    ensures
        match r {
            Some(k) => kind_name(k) == name@,
            None => forall|k: ComponentKind| kind_name(k) != name@,
        },
{
    let all = all_kinds();
    let wanted = String::from_str(name);
    let mut i: usize = 0;
    while i < all.len()
        invariant
            i <= all.len(),
            wanted@ == name@,
            all@ == all_kinds_spec(),
            forall|j: int| 0 <= j < i ==> kind_name(#[trigger] all[j]) != name@,
        decreases all.len() - i,
    {
        let candidate = String::from_str(all[i].name());
        if candidate == wanted {
            return Some(all[i]);
        }
        i += 1;
    }
    assert forall|k: ComponentKind| kind_name(k) != name@ by {
        lemma_all_kinds_complete();
        assert(all[kind_index(k)] == k);
    }
    None
}

/// Every component type, in the order in which an entity's components are
/// written to a save file.
pub fn all_kinds() -> (r: Vec<ComponentKind>)
    ensures
        r@ == all_kinds_spec(),
{
    let r = vec![
        ComponentKind::Assemblaged,
        ComponentKind::Interactable,
        ComponentKind::EmitCollideEvent,
        ComponentKind::ScriptEvent,
        ComponentKind::ScriptingIds,
        ComponentKind::AppearanceBuilder,
        ComponentKind::Appearance,
        ComponentKind::Animation,
        ComponentKind::CameraFocus,
        ComponentKind::BoxOutline,
        ComponentKind::Explodeable,
        ComponentKind::MovementControls,
        ComponentKind::ApplyForce,
        ComponentKind::Hitbox,
        ComponentKind::Phys,
        ComponentKind::Health,
    ];
    assert(r@ =~= all_kinds_spec());
    r
}

/// Every component type, in save-file order.
pub open spec fn all_kinds_spec() -> Seq<ComponentKind> {
    seq![
        ComponentKind::Assemblaged,
        ComponentKind::Interactable,
        ComponentKind::EmitCollideEvent,
        ComponentKind::ScriptEvent,
        ComponentKind::ScriptingIds,
        ComponentKind::AppearanceBuilder,
        ComponentKind::Appearance,
        ComponentKind::Animation,
        ComponentKind::CameraFocus,
        ComponentKind::BoxOutline,
        ComponentKind::Explodeable,
        ComponentKind::MovementControls,
        ComponentKind::ApplyForce,
        ComponentKind::Hitbox,
        ComponentKind::Phys,
        ComponentKind::Health,
    ]
}

/// The place of a component type in [`all_kinds_spec`].
pub open spec fn kind_index(kind: ComponentKind) -> int {
    match kind {
        ComponentKind::Assemblaged => 0,
        ComponentKind::Interactable => 1,
        ComponentKind::EmitCollideEvent => 2,
        ComponentKind::ScriptEvent => 3,
        ComponentKind::ScriptingIds => 4,
        ComponentKind::AppearanceBuilder => 5,
        ComponentKind::Appearance => 6,
        ComponentKind::Animation => 7,
        ComponentKind::CameraFocus => 8,
        ComponentKind::BoxOutline => 9,
        ComponentKind::Explodeable => 10,
        ComponentKind::MovementControls => 11,
        ComponentKind::ApplyForce => 12,
        ComponentKind::Hitbox => 13,
        ComponentKind::Phys => 14,
        ComponentKind::Health => 15,
    }
}

/// [`all_kinds_spec`] lists every component type, each at its
/// [`kind_index`].
pub proof fn lemma_all_kinds_complete()
    ensures
        all_kinds_spec().len() == 16,
        forall|k: ComponentKind|
            0 <= #[trigger] kind_index(k) < 16 && all_kinds_spec()[kind_index(k)] == k,
{
}

/// No two component types share a name.
pub proof fn lemma_kind_names_distinct(a: ComponentKind, b: ComponentKind)
    requires
        kind_name(a) == kind_name(b),
    ensures
        a == b,
{
    reveal_strlit("Assemblaged");
    reveal_strlit("Interactable");
    reveal_strlit("EmitCollideEvent");
    reveal_strlit("ScriptEvent");
    reveal_strlit("ScriptingIds");
    reveal_strlit("AppearanceBuilder");
    reveal_strlit("Appearance");
    reveal_strlit("Animation");
    reveal_strlit("CameraFocus");
    reveal_strlit("BoxOutline");
    reveal_strlit("Explodeable");
    reveal_strlit("MovementControls");
    reveal_strlit("ApplyForce");
    reveal_strlit("Hitbox");
    reveal_strlit("Phys");
    reveal_strlit("Health");
    let n = kind_name(a);
    let m = kind_name(b);
    assert(n.len() == m.len());
    assert(n[0] == m[0]);
    assert(n[1] == m[1]);
    assert(n[3] == m[3]);
}

} // verus!
