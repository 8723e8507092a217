use vstd::prelude::*;
use ncollide3d::pipeline::object::CollisionGroups;
use crate::comps::{Hitbox, Phys};
use crate::scalar::{Scalar, Vec3};

verus! {

/// The collision groups of the collision library: a set of groups that a body
/// is a member of, a whitelist and a blacklist. Verus sees nothing inside.
#[verifier::external_type_specification]
#[verifier::external_body]
pub struct ExCollisionGroups(CollisionGroups);

/// The groups that `g` is a member of.
pub uninterp spec fn group_members(g: CollisionGroups) -> Set<int>;

/// The groups that `g` whitelists.
pub uninterp spec fn group_whitelist(g: CollisionGroups) -> Set<int>;

/// The groups that `g` blacklists.
pub uninterp spec fn group_blacklist(g: CollisionGroups) -> Set<int>;

/// How many collision groups there are; they are numbered from 0.
pub const GROUP_COUNT: usize = 30;

/// Every collision group.
pub open spec fn all_groups() -> Set<int> {
    Set::new(|g: int| 0 <= g < GROUP_COUNT)
}

/// The set of the numbers in a list.
pub open spec fn numbers(groups: Seq<usize>) -> Set<int> {
    Set::new(|g: int| exists|i: int| 0 <= i < groups.len() && #[trigger] groups[i] == g)
}

/// Whether two bodies with these groups may interact: neither is a member
/// of a group that the other blacklists, and each is a member of a group that
/// the other whitelists.
pub open spec fn groups_interact(a: CollisionGroups, b: CollisionGroups) -> bool {
    &&& group_members(a).disjoint(group_blacklist(b))
    &&& group_members(b).disjoint(group_blacklist(a))
    &&& !group_members(a).disjoint(group_whitelist(b))
    &&& !group_members(b).disjoint(group_whitelist(a))
}

/// `CollisionGroups::new`. The result is a member of every group,
/// whitelists every group and blacklists none.
#[verifier::external_body]
fn new_groups() -> (g: CollisionGroups)
    ensures
        group_members(g) == all_groups(),
        group_whitelist(g) == all_groups(),
        group_blacklist(g) == Set::<int>::empty(),
{
    CollisionGroups::new()
}

/// `CollisionGroups::with_membership`. The result is a member of exactly
/// the listed groups; its whitelist and blacklist are those of `g`. The
/// outside function panics on a group number of 30 or more.
#[verifier::external_body]
fn with_membership(g: CollisionGroups, groups: &Vec<usize>) -> (r: CollisionGroups)
    requires
        forall|i: int| 0 <= i < groups.len() ==> groups[i] < GROUP_COUNT,
    ensures
        group_members(r) == numbers(groups@),
        group_whitelist(r) == group_whitelist(g),
        group_blacklist(r) == group_blacklist(g),
{
    g.with_membership(groups.as_slice())
}

/// `CollisionGroups::with_whitelist`. The result whitelists exactly the
/// listed groups; its membership and blacklist are those of `g`. The outside
/// function panics on a group number of 30 or more.
#[verifier::external_body]
fn with_whitelist(g: CollisionGroups, groups: &Vec<usize>) -> (r: CollisionGroups)
    requires
        forall|i: int| 0 <= i < groups.len() ==> groups[i] < GROUP_COUNT,
    ensures
        group_members(r) == group_members(g),
        group_whitelist(r) == numbers(groups@),
        group_blacklist(r) == group_blacklist(g),
{
    g.with_whitelist(groups.as_slice())
}

/// `CollisionGroups::with_blacklist`. The result blacklists exactly the
/// listed groups; its membership and whitelist are those of `g`. The outside
/// function panics on a group number of 30 or more.
#[verifier::external_body]
fn with_blacklist(g: CollisionGroups, groups: &Vec<usize>) -> (r: CollisionGroups)
    requires
        forall|i: int| 0 <= i < groups.len() ==> groups[i] < GROUP_COUNT,
    ensures
        group_members(r) == group_members(g),
        group_whitelist(r) == group_whitelist(g),
        group_blacklist(r) == numbers(groups@),
{
    g.with_blacklist(groups.as_slice())
}

/// `CollisionGroups::is_member_of`: whether `g` is a member of the group
/// `group_id`. The outside function panics on a group number of 30 or more.
#[verifier::external_body]
fn is_member_of(g: &CollisionGroups, group_id: usize) -> (r: bool)
    requires
        group_id < GROUP_COUNT,
    ensures
        r == group_members(*g).contains(group_id as int),
{
    g.is_member_of(group_id)
}

/// `CollisionGroups::can_interact_with_groups`: whether neither of the two
/// is a member of a group that the other blacklists and each is a member of a
/// group that the other whitelists.
#[verifier::external_body]
fn can_interact_with_groups(a: &CollisionGroups, b: &CollisionGroups) -> (r: bool)
    ensures
        r == groups_interact(*a, *b),
{
    a.can_interact_with_groups(b)
}

/// Whether `g` is the group of bodies that collide: member of groups 0 and
/// 2, whitelisting 0 and 2, blacklisting 1.
pub open spec fn is_colliding_group(g: CollisionGroups) -> bool {
    &&& group_members(g) =~= set![0int, 2int]
    &&& group_whitelist(g) =~= set![0int, 2int]
    &&& group_blacklist(g) =~= set![1int]
}

/// Whether `g` is the group of bodies that only rays can hit: member of
/// groups 1 and 2, whitelisting 0 and 2, blacklisting 0 and 1.
pub open spec fn is_disabled_group(g: CollisionGroups) -> bool {
    &&& group_members(g) =~= set![1int, 2int]
    &&& group_whitelist(g) =~= set![0int, 2int]
    &&& group_blacklist(g) =~= set![0int, 1int]
}

/// Whether `g` is the group of rays: member of group 2, whitelisting 0, 1
/// and 2, blacklisting none.
pub open spec fn is_raycast_group(g: CollisionGroups) -> bool {
    &&& group_members(g) =~= set![2int]
    &&& group_whitelist(g) =~= set![0int, 1int, 2int]
    &&& group_blacklist(g) =~= Set::<int>::empty()
}

/// How the three groups interact: a ray hits bodies of both kinds, bodies
/// that collide do so with each other, and a body that only rays can hit
/// collides with no body of either kind.
pub proof fn lemma_group_interactions(
    colliding: CollisionGroups,
    disabled: CollisionGroups,
    raycast: CollisionGroups,
)
    requires
        is_colliding_group(colliding),
        is_disabled_group(disabled),
        is_raycast_group(raycast),
    ensures
        groups_interact(raycast, disabled),
        groups_interact(raycast, colliding),
        !groups_interact(disabled, colliding),
        !groups_interact(disabled, disabled),
        groups_interact(colliding, colliding),
{
    assert(group_members(raycast).contains(2) && group_whitelist(disabled).contains(2));
    assert(group_members(disabled).contains(2) && group_whitelist(raycast).contains(2));
    assert(group_members(colliding).contains(2) && group_whitelist(raycast).contains(2));
    assert(group_members(raycast).contains(2) && group_whitelist(colliding).contains(2));
    assert(group_members(colliding).contains(0) && group_blacklist(disabled).contains(0));
    assert(group_members(disabled).contains(1) && group_blacklist(disabled).contains(1));
    assert(group_members(colliding).contains(0) && group_whitelist(colliding).contains(0));
}

/// The list of the two group numbers `a` and `b`.
fn group_list(a: usize, b: usize) -> (r: Vec<usize>)
    requires
        a < GROUP_COUNT,
        b < GROUP_COUNT,
    ensures
        r@ == seq![a, b],
        numbers(r@) =~= set![a as int, b as int],
{
    let mut r: Vec<usize> = Vec::new();
    r.push(a);
    r.push(b);
    assert(r@ =~= seq![a, b]);
    assert(r@[0] == a && r@[1] == b);
    r
}

/// The character of a decimal digit.
pub open spec fn digit_char(d: nat) -> char {
    if d == 0 {
        '0'
    } else if d == 1 {
        '1'
    } else if d == 2 {
        '2'
    } else if d == 3 {
        '3'
    } else if d == 4 {
        '4'
    } else if d == 5 {
        '5'
    } else if d == 6 {
        '6'
    } else if d == 7 {
        '7'
    } else if d == 8 {
        '8'
    } else {
        '9'
    }
}

/// The decimal numeral of a number: its digits, the most significant first,
/// without leading zeros; `0` for zero.
pub open spec fn numeral(n: nat) -> Seq<char>
    decreases n,
{
    if n < 10 {
        seq![digit_char(n)]
    } else {
        numeral(n / 10).push(digit_char(n % 10))
    }
}

/// `u32::to_string` of the standard library: the decimal numeral of `id`.
#[verifier::external_body]
pub(crate) fn u32_to_string(id: u32) -> (r: String)
    ensures
        r@ == numeral(id as nat),
{
    id.to_string()
}

/// What `serde_json::from_str::<u32>` makes of a text: the number that the
/// text is the JSON numeral of, or `None` where the call fails.
pub uninterp spec fn json_u32(text: Seq<char>) -> Option<u32>;

/// `serde_json::from_str::<u32>`, with its error dropped. The call reads its
/// argument and nothing else. The decimal numeral of a number is a JSON
/// numeral of that number.
#[verifier::external_body]
fn u32_from_json(text: &str) -> (r: Option<u32>)
    ensures
        r == json_u32(text@),
        forall|id: u32| text@ == numeral(id as nat) ==> r == Some(id),
{
    serde_json::from_str::<u32>(text).ok()
}

/// A rigid body with its one cuboid collider, as far as the game reads and
/// writes it. The transform mirrors the one that the physics engine holds:
/// whoever steps the engine writes the new transforms back.
#[derive(Debug)]
pub struct Body {
    /// The body's name: the decimal numeral of the id of the entity that owns
    /// it, once the body is tagged.
    pub name: String,
    /// The id of the entity that owns the body, once the body is tagged.
    pub user_data: Option<u32>,
    pub position: Vec3,
    /// Euler angles, in radians.
    pub rotation: Vec3,
    /// The half extents of the collider.
    pub half_extents: Vec3,
    pub density: Scalar,
    pub groups: CollisionGroups,
}

/// The mathematical value of a [`Body`].
pub struct BodyView {
    pub name: Seq<char>,
    pub user_data: Option<u32>,
    pub position: Vec3,
    pub rotation: Vec3,
    pub half_extents: Vec3,
    pub density: Scalar,
    pub groups: CollisionGroups,
}

impl View for Body {
    type V = BodyView;

    open spec fn view(&self) -> BodyView {
        BodyView {
            name: self.name@,
            user_data: self.user_data,
            position: self.position,
            rotation: self.rotation,
            half_extents: self.half_extents,
            density: self.density,
            groups: self.groups,
        }
    }
}

impl BodyView {
    /// The hitbox that describes this body: its transform, the half extents
    /// of its collider as the scale, its density, and whether it is a member
    /// of group 0, the group of bodies that collide.
    pub open spec fn hitbox(self) -> Hitbox {
        Hitbox {
            position: self.position,
            rotation: self.rotation,
            scale: self.half_extents,
            density: self.density,
            physics_interaction: group_members(self.groups).contains(0),
        }
    }

    /// This body at another place.
    pub open spec fn moved(self, position: Vec3, rotation: Vec3) -> BodyView {
        BodyView {
            name: self.name,
            user_data: self.user_data,
            position,
            rotation,
            half_extents: self.half_extents,
            density: self.density,
            groups: self.groups,
        }
    }

    /// This body, tagged as owned by `entity`.
    pub open spec fn tagged(self, entity: u32) -> BodyView {
        BodyView {
            name: numeral(entity as nat),
            user_data: Some(entity),
            position: self.position,
            rotation: self.rotation,
            half_extents: self.half_extents,
            density: self.density,
            groups: self.groups,
        }
    }
}

/// Why the physics bridge rejected a call.
#[derive(Clone, Copy, Debug, PartialEq, Eq, Structural)]
pub enum PhysError {
    /// The handle names no body of the physics world.
    NoSuchBody,
}

/// The physics bridge: the rigid bodies by handle, and the three collision
/// groups that the game uses.
#[derive(Debug)]
pub struct PhysState {
    /// The bodies; a body's handle is its index. A removed body leaves its
    /// place empty, so the handles of the others stay.
    pub bodies: Vec<Option<Body>>,
    pub can_collide_group: CollisionGroups,
    pub disabled_group: CollisionGroups,
    pub raycast_group: CollisionGroups,
}

/// The mathematical value of a [`PhysState`].
pub struct PhysStateView {
    pub bodies: Seq<Option<BodyView>>,
    pub can_collide_group: CollisionGroups,
    pub disabled_group: CollisionGroups,
    pub raycast_group: CollisionGroups,
}

/// The view of a place in the table of bodies.
pub open spec fn place_view(place: Option<Body>) -> Option<BodyView> {
    match place {
        Some(b) => Some(b@),
        None => None,
    }
}

impl View for PhysState {
    type V = PhysStateView;

    open spec fn view(&self) -> PhysStateView {
        PhysStateView {
            bodies: Seq::new(self.bodies@.len(), |i: int| place_view(self.bodies[i])),
            can_collide_group: self.can_collide_group,
            disabled_group: self.disabled_group,
            raycast_group: self.raycast_group,
        }
    }
}

impl PhysStateView {
    /// The three groups are what the game takes them for.
    pub open spec fn wf(self) -> bool {
        &&& is_colliding_group(self.can_collide_group)
        &&& is_disabled_group(self.disabled_group)
        &&& is_raycast_group(self.raycast_group)
    }

    /// The body with handle `handle`.
    pub open spec fn body(self, handle: usize) -> Option<BodyView> {
        if handle < self.bodies.len() {
            self.bodies[handle as int]
        } else {
            None
        }
    }

    /// This state with `bodies` as its table of bodies.
    pub open spec fn with_bodies(self, bodies: Seq<Option<BodyView>>) -> PhysStateView {
        PhysStateView {
            bodies,
            can_collide_group: self.can_collide_group,
            disabled_group: self.disabled_group,
            raycast_group: self.raycast_group,
        }
    }

    /// The body that is built from `hitbox`: a cuboid with the hitbox's scale
    /// as half extents, at the hitbox's transform, in the group of bodies
    /// that collide where the hitbox interacts physically and in the group
    /// that only rays can hit where it does not; not yet tagged.
    pub open spec fn body_from(self, hitbox: Hitbox) -> BodyView {
        BodyView {
            name: Seq::empty(),
            user_data: None,
            position: hitbox.position,
            rotation: hitbox.rotation,
            half_extents: hitbox.scale,
            density: hitbox.density,
            groups: if hitbox.physics_interaction {
                self.can_collide_group
            } else {
                self.disabled_group
            },
        }
    }

    /// The table of bodies without the body with handle `handle`.
    pub open spec fn without(self, handle: usize) -> Seq<Option<BodyView>> {
        if handle < self.bodies.len() {
            self.bodies.update(handle as int, None)
        } else {
            self.bodies
        }
    }

    /// The table of bodies without the bodies that are tagged as owned by an
    /// entity of `owners`.
    pub open spec fn without_owners(self, owners: Seq<u32>) -> Seq<Option<BodyView>> {
        Seq::new(
            self.bodies.len(),
            |h: int|
                match self.bodies[h] {
                    Some(b) => if b.user_data is Some && owners.contains(b.user_data->0) {
                        None
                    } else {
                        Some(b)
                    },
                    None => None,
                },
        )
    }
}

impl PhysState {
    /// The invariant of the bridge.
    pub open spec fn wf(&self) -> bool {
        self@.wf()
    }

    /// A physics world without bodies, with the three groups set up.
    pub fn new() -> (r: PhysState)
        ensures
            r.wf(),
            r@.bodies == Seq::<Option<BodyView>>::empty(),
    {
        let membership = group_list(0, 2);
        let whitelist = group_list(0, 2);
        let mut blacklist: Vec<usize> = Vec::new();
        blacklist.push(1);
        assert(numbers(blacklist@) =~= set![1int]) by {
            assert(blacklist@[0] == 1);
        }
        let can_collide_group = with_blacklist(
            with_whitelist(with_membership(new_groups(), &membership), &whitelist),
            &blacklist,
        );
        let membership = group_list(1, 2);
        let whitelist = group_list(0, 2);
        let blacklist = group_list(0, 1);
        let disabled_group = with_blacklist(
            with_whitelist(with_membership(new_groups(), &membership), &whitelist),
            &blacklist,
        );
        let mut membership: Vec<usize> = Vec::new();
        membership.push(2);
        assert(numbers(membership@) =~= set![2int]) by {
            assert(membership@[0] == 2);
        }
        let mut whitelist: Vec<usize> = Vec::new();
        whitelist.push(0);
        whitelist.push(1);
        whitelist.push(2);
        assert(numbers(whitelist@) =~= set![0int, 1int, 2int]) by {
            assert(whitelist@[0] == 0 && whitelist@[1] == 1 && whitelist@[2] == 2);
        }
        let blacklist: Vec<usize> = Vec::new();
        assert(numbers(blacklist@) =~= Set::<int>::empty());
        let raycast_group = with_blacklist(
            with_whitelist(with_membership(new_groups(), &membership), &whitelist),
            &blacklist,
        );
        let r = PhysState { bodies: Vec::new(), can_collide_group, disabled_group, raycast_group };
        assert(r@.bodies =~= Seq::<Option<BodyView>>::empty());
        r
    }

    /// The body with the handle that `phys` holds.
    pub fn rigid_body(&self, phys: &Phys) -> (r: Option<&Body>)
        ensures
            match r {
                Some(b) => self@.body(phys.body) == Some(b@),
                None => self@.body(phys.body) is None,
            },
    {
        if phys.body < self.bodies.len() {
            self.bodies[phys.body].as_ref()
        } else {
            None
        }
    }

    /// Builds a body from a hitbox and hands out the link to it. The new
    /// body takes the next free handle and is not yet tagged.
    pub fn phys_from_hitbox(&mut self, hitbox: &Hitbox) -> (phys: Phys)
        requires
            old(self).wf(),
        ensures
            final(self).wf(),
            phys.body == old(self)@.bodies.len(),
            final(self)@ == old(self)@.with_bodies(
                old(self)@.bodies.push(Some(old(self)@.body_from(*hitbox))),
            ),
    {
        let groups = if hitbox.physics_interaction {
            self.can_collide_group
        } else {
            self.disabled_group
        };
        let body = Body {
            name: String::new(),
            user_data: None,
            position: hitbox.position,
            rotation: hitbox.rotation,
            half_extents: hitbox.scale,
            density: hitbox.density,
            groups,
        };
        let handle = self.bodies.len();
        self.bodies.push(Some(body));
        assert(self@.bodies =~= old(self)@.bodies.push(Some(old(self)@.body_from(*hitbox))));
        Phys { body: handle }
    }

    /// Tags the body of `phys` as owned by the entity `ent`: the entity's id
    /// becomes the body's user data, and the decimal numeral of the id its
    /// name.
    ///
    /// Fails with `NoSuchBody`, and changes nothing, where `phys` links to no
    /// body.
    pub fn name_as_ent(&mut self, phys: &Phys, ent: u32) -> (r: Result<(), PhysError>)
        requires
            old(self).wf(),
        ensures
            final(self).wf(),
            match r {
                Ok(()) => old(self)@.body(phys.body) is Some && final(self)@ == old(
                    self,
                )@.with_bodies(
                    old(self)@.bodies.update(
                        phys.body as int,
                        Some(old(self)@.body(phys.body)->0.tagged(ent)),
                    ),
                ),
                Err(e) => old(self)@.body(phys.body) is None && final(self)@ == old(self)@,
            },
    {
        let current = match self.rigid_body(phys) {
            Some(b) => Body {
                name: u32_to_string(ent),
                user_data: Some(ent),
                position: b.position,
                rotation: b.rotation,
                half_extents: b.half_extents,
                density: b.density,
                groups: b.groups,
            },
            None => {
                return Err(PhysError::NoSuchBody);
            },
        };
        self.bodies.set(phys.body, Some(current));
        assert(self@.bodies =~= old(self)@.bodies.update(
            phys.body as int,
            Some(old(self)@.body(phys.body)->0.tagged(ent)),
        ));
        Ok(())
    }

    /// Whether the body of `phys` collides with other bodies: whether it is
    /// a member of group 0. `None` where `phys` links to no body.
    pub fn do_physics_interact(&self, phys: &Phys) -> (r: Option<bool>)
        ensures
            r == match self@.body(phys.body) {
                Some(b) => Some(group_members(b.groups).contains(0)),
                None => None,
            },
    {
        match self.rigid_body(phys) {
            Some(b) => Some(is_member_of(&b.groups, 0)),
            None => None,
        }
    }

    /// Whether the bodies of `a` and `b` may interact, by their collision
    /// groups. `None` where one of the two links to no body.
    pub fn can_interact(&self, a: &Phys, b: &Phys) -> (r: Option<bool>)
        ensures
            r == match (self@.body(a.body), self@.body(b.body)) {
                (Some(x), Some(y)) => Some(groups_interact(x.groups, y.groups)),
                _ => None,
            },
    {
        match (self.rigid_body(a), self.rigid_body(b)) {
            (Some(x), Some(y)) => Some(can_interact_with_groups(&x.groups, &y.groups)),
            _ => None,
        }
    }

    /// Where the body of `phys` is.
    pub fn location(&self, phys: &Phys) -> (r: Option<Vec3>)
        ensures
            r == match self@.body(phys.body) {
                Some(b) => Some(b.position),
                None => None,
            },
    {
        match self.rigid_body(phys) {
            Some(b) => Some(b.position),
            None => None,
        }
    }

    /// How the body of `phys` is turned, in Euler angles.
    pub fn euler_vec(&self, phys: &Phys) -> (r: Option<Vec3>)
        ensures
            r == match self@.body(phys.body) {
                Some(b) => Some(b.rotation),
                None => None,
            },
    {
        match self.rigid_body(phys) {
            Some(b) => Some(b.rotation),
            None => None,
        }
    }

    /// The half extents of the collider of the body of `phys`.
    pub fn scale(&self, phys: &Phys) -> (r: Option<Vec3>)
        ensures
            r == match self@.body(phys.body) {
                Some(b) => Some(b.half_extents),
                None => None,
            },
    {
        match self.rigid_body(phys) {
            Some(b) => Some(b.half_extents),
            None => None,
        }
    }

    /// The hitbox that describes the body of `phys` as it is now.
    pub fn hitbox_from_phys(&self, phys: &Phys) -> (r: Option<Hitbox>)
        ensures
            r == match self@.body(phys.body) {
                Some(b) => Some(b.hitbox()),
                None => None,
            },
    {
        match self.rigid_body(phys) {
            Some(b) => Some(
                Hitbox {
                    position: b.position,
                    rotation: b.rotation,
                    scale: b.half_extents,
                    density: b.density,
                    physics_interaction: is_member_of(&b.groups, 0),
                },
            ),
            None => None,
        }
    }

    /// The entity that owns the body with handle `handle`, by the body's
    /// user data.
    pub fn entity_of(&self, handle: usize) -> (r: Option<u32>)
        ensures
            r == match self@.body(handle) {
                Some(b) => b.user_data,
                None => None,
            },
    {
        match self.rigid_body(&Phys { body: handle }) {
            Some(b) => b.user_data,
            None => None,
        }
    }

    /// The entity that the name of the body with handle `handle` names: the
    /// number that the name is the JSON numeral of. For a body that is
    /// tagged, that is the entity that owns it.
    pub fn entity_named(&self, handle: usize) -> (r: Option<u32>)
        ensures
            r == match self@.body(handle) {
                Some(b) => json_u32(b.name),
                None => None,
            },
            forall|id: u32|
                self@.body(handle) matches Some(b) && b.name == numeral(id as nat) ==> r == Some(
                    id,
                ),
    {
        match self.rigid_body(&Phys { body: handle }) {
            Some(b) => u32_from_json(b.name.as_str()),
            None => None,
        }
    }

    /// Moves and turns the body of `phys` in place.
    ///
    /// Fails with `NoSuchBody`, and changes nothing, where `phys` links to no
    /// body.
    pub fn set_position(&mut self, phys: &Phys, location: &Vec3, rotation: &Vec3) -> (r: Result<
        (),
        PhysError,
    >)
        requires
            old(self).wf(),
        ensures
            final(self).wf(),
            match r {
                Ok(()) => old(self)@.body(phys.body) is Some && final(self)@ == old(
                    self,
                )@.with_bodies(
                    old(self)@.bodies.update(
                        phys.body as int,
                        Some(old(self)@.body(phys.body)->0.moved(*location, *rotation)),
                    ),
                ),
                Err(e) => old(self)@.body(phys.body) is None && final(self)@ == old(self)@,
            },
    {
        let moved = match self.rigid_body(phys) {
            Some(b) => Body {
                name: b.name.clone(),
                user_data: b.user_data,
                position: *location,
                rotation: *rotation,
                half_extents: b.half_extents,
                density: b.density,
                groups: b.groups,
            },
            None => {
                return Err(PhysError::NoSuchBody);
            },
        };
        self.bodies.set(phys.body, Some(moved));
        assert(self@.bodies =~= old(self)@.bodies.update(
            phys.body as int,
            Some(old(self)@.body(phys.body)->0.moved(*location, *rotation)),
        ));
        Ok(())
    }

    /// Moves the body of `phys` in place and leaves its rotation.
    ///
    /// Fails with `NoSuchBody`, and changes nothing, where `phys` links to no
    /// body.
    pub fn set_location(&mut self, phys: &Phys, location: &Vec3) -> (r: Result<(), PhysError>)
        requires
            old(self).wf(),
        ensures
            final(self).wf(),
            match r {
                Ok(()) => old(self)@.body(phys.body) is Some && final(self)@ == old(
                    self,
                )@.with_bodies(
                    old(self)@.bodies.update(
                        phys.body as int,
                        Some(
                            old(self)@.body(phys.body)->0.moved(
                                *location,
                                old(self)@.body(phys.body)->0.rotation,
                            ),
                        ),
                    ),
                ),
                Err(e) => old(self)@.body(phys.body) is None && final(self)@ == old(self)@,
            },
    {
        match self.euler_vec(phys) {
            Some(rotation) => self.set_position(phys, location, &rotation),
            None => Err(PhysError::NoSuchBody),
        }
    }

    /// Removes the body of `phys`, if there is one, and leaves its place
    /// empty.
    pub fn remove_body(&mut self, phys: &Phys)
        requires
            old(self).wf(),
        ensures
            final(self).wf(),
            final(self)@ == old(self)@.with_bodies(old(self)@.without(phys.body)),
    {
        if phys.body < self.bodies.len() {
            self.bodies.set(phys.body, None);
        }
        assert(self@.bodies =~= old(self)@.without(phys.body));
    }

    /// Removes the bodies that are tagged as owned by an entity of `owners`.
    /// Every other body stays, under its handle.
    pub fn remove_owned(&mut self, owners: &Vec<u32>)
        requires
            old(self).wf(),
        ensures
            final(self).wf(),
            final(self)@ == old(self)@.with_bodies(old(self)@.without_owners(owners@)),
    {
        let n = self.bodies.len();
        let mut h: usize = 0;
        while h < n
            invariant
                h <= n,
                n == self.bodies.len(),
                n == old(self).bodies.len(),
                self.wf(),
                self.can_collide_group == old(self).can_collide_group,
                self.disabled_group == old(self).disabled_group,
                self.raycast_group == old(self).raycast_group,
                forall|k: int|
                    0 <= k < h ==> place_view(#[trigger] self.bodies[k]) == old(
                        self,
                    )@.without_owners(owners@)[k],
                forall|k: int| h <= k < n ==> (#[trigger] self.bodies[k]) == old(self).bodies[k],
            decreases n - h,
        {
            let owned = match &self.bodies[h] {
                Some(b) => match b.user_data {
                    Some(e) => contains_id(owners, e),
                    None => false,
                },
                None => false,
            };
            if owned {
                self.bodies.set(h, None);
            }
            h += 1;
        }
        assert(self@.bodies =~= old(self)@.without_owners(owners@));
    }
}

/// Whether `id` is in the list.
pub fn contains_id(ids: &Vec<u32>, id: u32) -> (r: bool)
    ensures
        r == ids@.contains(id),
{
    let mut i: usize = 0;
    while i < ids.len()
        invariant
            i <= ids.len(),
            forall|j: int| 0 <= j < i ==> ids[j] != id,
        decreases ids.len() - i,
    {
        if ids[i] == id {
            return true;
        }
        i += 1;
    }
    false
}

/// A hitbox and the body built from it describe each other without loss:
/// the hitbox that describes the body is the hitbox that the body was built
/// from.
pub proof fn lemma_hitbox_body_roundtrip(ps: PhysStateView, hitbox: Hitbox)
    requires
        ps.wf(),
    ensures
        ps.body_from(hitbox).hitbox() == hitbox,
        ps.body_from(hitbox).tagged(0).hitbox() == hitbox,
{
    assert(group_members(ps.can_collide_group).contains(0));
    assert(!group_members(ps.disabled_group).contains(0));
}

} // verus!
