use vstd::prelude::*;
use crate::codec::{
    deserialize_tagged_spec, lemma_tagged_roundtrip, serialize_tagged_spec, DeserializationError,
    DeserializationErrorView,
};
use crate::component::{
    clone_components, kind_is_persistent, kind_name, views, Component, ComponentKind,
    ComponentView,
};
use crate::comps::{Assemblaged, AssemblagedView};
use crate::json::{lemma_view_unfold, Json, JsonView, Member};
use crate::scalar::Vec3;
use crate::world::{
    assembled, bounded, inserts, lemma_apply_all_extra_slot, lemma_apply_all_spares,
    with_extra_slot, lemma_apply_all_split, lemma_apply_inserts,
    lemma_assembled_absent, lemma_assembled_alive, lemma_assembled_last, spares, ComponentSet,
    LazyAction, LazyActionView, SlotView, World, WorldView,
};

verus! {

/// A named, ordered list of component prototypes: a prefab.
#[derive(Debug, PartialEq, Eq)]
pub struct Assemblage {
    pub name: String,
    pub components: Vec<Component>,
}

/// The mathematical value of an [`Assemblage`].
pub struct AssemblageView {
    pub name: Seq<char>,
    pub components: Seq<ComponentView>,
}

impl View for Assemblage {
    type V = AssemblageView;

    open spec fn view(&self) -> AssemblageView {
        AssemblageView { name: self.name@, components: views(self.components@) }
    }
}

/// Why a save file could not be read.
#[derive(Debug, PartialEq, Eq)]
pub enum LoadError {
    /// The document does not have the shape of the file: the catalog is no
    /// object, the list of instances is no list, or what stands for one
    /// prefab or one entity is no list.
    Malformed,
    /// One of the listed components could not be read.
    Component(DeserializationError),
    /// The world cannot number the entities that the file lists.
    WorldFull,
}

/// The mathematical value of a [`LoadError`].
pub enum LoadErrorView {
    Malformed,
    Component(DeserializationErrorView),
    WorldFull,
}

impl View for LoadError {
    type V = LoadErrorView;

    open spec fn view(&self) -> LoadErrorView {
        match self {
            LoadError::Malformed => LoadErrorView::Malformed,
            LoadError::Component(e) => LoadErrorView::Component(e@),
            LoadError::WorldFull => LoadErrorView::WorldFull,
        }
    }
}

/// Whether every component of the list is of a type that is saved.
pub open spec fn all_persistent(cs: Seq<ComponentView>) -> bool {
    forall|i: int| 0 <= i < cs.len() ==> kind_is_persistent((#[trigger] cs[i]).kind())
}

/// The tagged forms of a list of components, in order.
pub open spec fn components_to_json(cs: Seq<ComponentView>) -> Seq<JsonView> {
    Seq::new(cs.len(), |i: int| serialize_tagged_spec(cs[i])->0)
}

/// The components that the first `n` of `items` stand for, in order, or the
/// error of the first of them that stands for none.
pub open spec fn components_from_json(items: Seq<JsonView>, n: int) -> Result<
    Seq<ComponentView>,
    DeserializationErrorView,
>
    decreases n,
{
    if n <= 0 {
        Ok(Seq::empty())
    } else {
        match components_from_json(items, n - 1) {
            Err(e) => Err(e),
            Ok(cs) => match deserialize_tagged_spec(items[n - 1]) {
                Ok(c) => Ok(cs.push(c)),
                Err(e) => Err(e),
            },
        }
    }
}

/// An error among the first `n` items is the error of every longer prefix.
pub proof fn lemma_components_error_stays(items: Seq<JsonView>, n: int, m: int)
    requires
        0 <= n <= m,
        components_from_json(items, n) is Err,
    ensures
        components_from_json(items, m) == components_from_json(items, n),
    decreases m - n,
{
    if n < m {
        lemma_components_error_stays(items, n, m - 1);
    }
}

/// Reading back the tagged forms of a list of saved components gives the
/// same list, in the same order.
pub proof fn lemma_components_roundtrip(cs: Seq<ComponentView>, n: int)
    requires
        all_persistent(cs),
        0 <= n <= cs.len(),
    ensures
        components_from_json(components_to_json(cs), n) == Ok::<
            Seq<ComponentView>,
            DeserializationErrorView,
        >(cs.take(n)),
    decreases n,
{
    if n > 0 {
        lemma_components_roundtrip(cs, n - 1);
        lemma_tagged_roundtrip(cs[n - 1]);
        assert(cs.take(n - 1).push(cs[n - 1]) =~= cs.take(n));
    } else {
        assert(cs.take(0) =~= Seq::empty());
    }
}

/// The tagged forms of a list of saved components, as a JSON list.
pub fn components_json(cs: &Vec<Component>) -> (r: Json)
    requires
        all_persistent(views(cs@)),
    ensures
        r@ == JsonView::List(components_to_json(views(cs@))),
{
    let mut items: Vec<Json> = Vec::new();
    let mut i: usize = 0;
    while i < cs.len()
        invariant
            i <= cs.len(),
            items.len() == i,
            all_persistent(views(cs@)),
            forall|j: int| 0 <= j < i ==> items[j]@ == serialize_tagged_spec(cs[j]@)->0,
        decreases cs.len() - i,
    {
        assert(kind_is_persistent(views(cs@)[i as int].kind()));
        match cs[i].serialize_tagged() {
            Some(j) => {
                items.push(j);
            },
            None => {
                assert(false);
            },
        }
        i += 1;
    }
    let r = Json::list(items);
    assert(r@->List_0 =~= components_to_json(views(cs@)));
    r
}

/// The components that a JSON list of tagged values stands for.
///
/// Fails with `Malformed` where `j` is no list, and with the error of the
/// first item that stands for no component.
pub fn components_of_json(j: &Json) -> (r: Result<Vec<Component>, LoadError>)
    ensures
        match r {
            Ok(cs) => j@ is List && components_from_json(j@->List_0, j@->List_0.len() as int)
                == Ok::<Seq<ComponentView>, DeserializationErrorView>(views(cs@))
                && all_persistent(views(cs@)),
            Err(e) => match e@ {
                LoadErrorView::Malformed => !(j@ is List),
                LoadErrorView::Component(d) => j@ is List && components_from_json(
                    j@->List_0,
                    j@->List_0.len() as int,
                ) == Err::<Seq<ComponentView>, DeserializationErrorView>(d),
                LoadErrorView::WorldFull => false,
            },
        },
{
    match j {
        Json::List(items) => {
            proof {
                lemma_view_unfold(*j);
            }
            let ghost vs = j@->List_0;
            let mut out: Vec<Component> = Vec::new();
            let mut i: usize = 0;
            assert(views(out@) =~= Seq::empty());
            while i < items.len()
                invariant
                    i <= items.len(),
                    j@ == JsonView::List(vs),
                    vs.len() == items.len(),
                    forall|k: int| 0 <= k < items.len() ==> (#[trigger] vs[k]) == items[k]@,
                    components_from_json(vs, i as int) == Ok::<
                        Seq<ComponentView>,
                        DeserializationErrorView,
                    >(views(out@)),
                    all_persistent(views(out@)),
                decreases items.len() - i,
            {
                assert(vs[i as int] == items[i as int]@);
                match Component::deserialize_tagged(&items[i]) {
                    Ok(c) => {
                        let ghost before = views(out@);
                        out.push(c);
                        assert(views(out@) =~= before.push(c@));
                    },
                    Err(e) => {
                        proof {
                            lemma_components_error_stays(vs, i as int + 1, vs.len() as int);
                        }
                        return Err(LoadError::Component(e));
                    },
                }
                i += 1;
            }
            Ok(out)
        },
        _ => Err(LoadError::Malformed),
    }
}

/// Why an edit of the catalog, or a build from it, was rejected.
#[derive(Clone, Copy, Debug, PartialEq, Eq, Structural)]
pub enum CatalogError {
    /// The catalog has no prefab of that name.
    PrefabNotFound,
    /// No prototype is registered under that type name.
    ComponentNotFound,
    /// The prefab already lists a component of that type.
    AlreadyPresent,
    /// The prefab lists no component at that place.
    IndexOutOfRange,
    /// The prefab lists no hitbox, so an entity built from it has no
    /// position to set.
    NoHitbox,
}

/// Whether no two prefabs of the list share a name.
pub open spec fn names_distinct(a: Seq<AssemblageView>) -> bool {
    forall|i: int, j: int|
        0 <= i < j < a.len() ==> (#[trigger] a[i]).name != (#[trigger] a[j]).name
}

/// Whether the list holds a prefab called `name`.
pub open spec fn has_name(a: Seq<AssemblageView>, name: Seq<char>) -> bool {
    exists|i: int| 0 <= i < a.len() && (#[trigger] a[i]).name == name
}

/// The place of a prefab called `name` in the list.
pub open spec fn index_of(a: Seq<AssemblageView>, name: Seq<char>) -> int {
    choose|i: int| 0 <= i < a.len() && (#[trigger] a[i]).name == name
}

/// The list with `components` as the prefab called `name`: in the place of
/// the prefab of that name where there is one, at the end where there is none.
pub open spec fn put(a: Seq<AssemblageView>, name: Seq<char>, components: Seq<ComponentView>) -> Seq<
    AssemblageView,
> {
    if has_name(a, name) {
        a.update(index_of(a, name), AssemblageView { name, components })
    } else {
        a.push(AssemblageView { name, components })
    }
}

/// Whether a list of components holds one of type `kind`.
pub open spec fn lists_kind(cs: Seq<ComponentView>, kind: ComponentKind) -> bool {
    exists|i: int| 0 <= i < cs.len() && (#[trigger] cs[i]).kind() == kind
}

/// Whether the list holds a component of type `kind`.
pub fn lists(cs: &Vec<Component>, kind: ComponentKind) -> (r: bool)
    ensures
        r == lists_kind(views(cs@), kind),
{
    let mut i: usize = 0;
    while i < cs.len()
        invariant
            i <= cs.len(),
            forall|j: int| 0 <= j < i ==> (#[trigger] views(cs@)[j]).kind() != kind,
        decreases cs.len() - i,
    {
        if same_kind(cs[i].kind(), kind) {
            assert(views(cs@)[i as int].kind() == kind);
            return true;
        }
        assert(views(cs@)[i as int].kind() != kind);
        i += 1;
    }
    false
}

/// The catalog: the prefabs by name, and one prototype for each registered
/// component type.
#[derive(Debug, PartialEq, Eq)]
pub struct Assemblager {
    /// The prefabs. No two share a name.
    pub assemblages: Vec<Assemblage>,
    /// The prototypes, one at most for each component type.
    pub components: ComponentSet,
}

/// The mathematical value of an [`Assemblager`].
pub struct AssemblagerView {
    pub assemblages: Seq<AssemblageView>,
    pub components: Map<ComponentKind, ComponentView>,
}

impl View for Assemblager {
    type V = AssemblagerView;

    open spec fn view(&self) -> AssemblagerView {
        AssemblagerView {
            assemblages: Seq::new(self.assemblages@.len(), |i: int| self.assemblages[i]@),
            components: self.components@,
        }
    }
}

impl AssemblagerView {
    /// Prefab names are unique, every listed component and every prototype
    /// is of a type that is saved, and each prototype is filed under its own
    /// type.
    pub open spec fn wf(self) -> bool {
        &&& names_distinct(self.assemblages)
        &&& forall|i: int|
            0 <= i < self.assemblages.len() ==> all_persistent(
                (#[trigger] self.assemblages[i]).components,
            )
        &&& forall|k: ComponentKind| #[trigger]
            self.components.dom().contains(k) ==> self.components[k].kind() == k
                && kind_is_persistent(k)
    }

    /// The components of the prefab called `name`, in build order.
    pub open spec fn get(self, name: Seq<char>) -> Option<Seq<ComponentView>> {
        if has_name(self.assemblages, name) {
            Some(self.assemblages[index_of(self.assemblages, name)].components)
        } else {
            None
        }
    }

    /// The prototype registered for the component type `kind`.
    pub open spec fn prototype(self, kind: ComponentKind) -> Option<ComponentView> {
        if self.components.dom().contains(kind) {
            Some(self.components[kind])
        } else {
            None
        }
    }
}

/// In a list of distinct names, the prefab called `name` stands at one place
/// only.
pub proof fn lemma_index_of(a: Seq<AssemblageView>, name: Seq<char>, i: int)
    requires
        names_distinct(a),
        0 <= i < a.len(),
        a[i].name == name,
    ensures
        has_name(a, name),
        index_of(a, name) == i,
{
    let j = index_of(a, name);
    if j < i {
        assert(a[j].name != a[i].name);
    } else if i < j {
        assert(a[i].name != a[j].name);
    }
}

impl Assemblager {
    /// The invariant of the catalog.
    pub open spec fn wf(&self) -> bool {
        &&& self.components.wf()
        &&& self@.wf()
    }

    /// A catalog without prefabs and without prototypes.
    pub fn empty() -> (r: Assemblager)
        ensures
            r.wf(),
            r@.assemblages == Seq::<AssemblageView>::empty(),
            r@.components == Map::<ComponentKind, ComponentView>::empty(),
    {
        let r = Assemblager { assemblages: Vec::new(), components: ComponentSet::new() };
        assert(r@.assemblages =~= Seq::<AssemblageView>::empty());
        r
    }

    /// The place of the prefab called `assemblage_key`.
    pub fn find(&self, assemblage_key: &str) -> (r: Option<usize>)
        requires
            self.wf(),
        ensures
            match r {
                Some(i) => i < self@.assemblages.len() && has_name(
                    self@.assemblages,
                    assemblage_key@,
                ) && i == index_of(self@.assemblages, assemblage_key@),
                None => !has_name(self@.assemblages, assemblage_key@),
            },
    {
        let wanted = assemblage_key.to_owned();
        let mut i: usize = 0;
        while i < self.assemblages.len()
            invariant
                i <= self.assemblages.len(),
                wanted@ == assemblage_key@,
                self.wf(),
                forall|j: int| 0 <= j < i ==> (#[trigger] self@.assemblages[j]).name != wanted@,
            decreases self.assemblages.len() - i,
        {
            if self.assemblages[i].name == wanted {
                proof {
                    assert(self@.assemblages[i as int].name == wanted@);
                    lemma_index_of(self@.assemblages, wanted@, i as int);
                }
                return Some(i);
            }
            assert(self@.assemblages[i as int].name != wanted@);
            i += 1;
        }
        None
    }

    /// The components of the prefab called `assemblage_key`, in build order.
    pub fn get(&self, assemblage_key: &str) -> (r: Option<&Vec<Component>>)
        requires
            self.wf(),
        ensures
            match r {
                Some(cs) => self@.get(assemblage_key@) == Some(views(cs@)) && all_persistent(
                    views(cs@),
                ),
                None => self@.get(assemblage_key@) is None,
            },
    {
        match self.find(assemblage_key) {
            Some(i) => {
                assert(self@.assemblages[i as int] == self.assemblages[i as int]@);
                Some(&self.assemblages[i].components)
            },
            None => None,
        }
    }

    /// Whether the catalog holds a prefab called `assemblage_key`.
    pub fn contains(&self, assemblage_key: &str) -> (r: bool)
        requires
            self.wf(),
        ensures
            r == self@.get(assemblage_key@) is Some,
    {
        self.find(assemblage_key).is_some()
    }

    /// Stores `components` as the prefab called `name`, in place of any
    /// prefab of that name.
    pub fn insert(&mut self, name: &str, components: Vec<Component>)
        requires
            old(self).wf(),
            all_persistent(views(components@)),
        ensures
            final(self).wf(),
            final(self)@.assemblages == put(old(self)@.assemblages, name@, views(components@)),
            final(self)@.components == old(self)@.components,
            final(self)@.get(name@) == Some(views(components@)),
    {
        let ghost cs = views(components@);
        let entry = Assemblage { name: name.to_owned(), components };
        match self.find(name) {
            Some(i) => {
                self.assemblages.set(i, entry);
                assert(self@.assemblages =~= put(old(self)@.assemblages, name@, cs));
                assert(forall|j: int|
                    0 <= j < self@.assemblages.len() ==> (#[trigger] self@.assemblages[j]).name
                        == old(self)@.assemblages[j].name);
                proof {
                    lemma_index_of(self@.assemblages, name@, i as int);
                }
            },
            None => {
                self.assemblages.push(entry);
                assert(self@.assemblages =~= put(old(self)@.assemblages, name@, cs));
                proof {
                    let n = old(self)@.assemblages.len() as int;
                    assert(forall|j: int|
                        0 <= j < n ==> (#[trigger] self@.assemblages[j])
                            == old(self)@.assemblages[j]);
                    lemma_index_of(self@.assemblages, name@, n);
                }
            },
        }
    }

    /// Stores `component` as the prototype of its type, in place of any
    /// earlier one. A component of a type that is never saved is not stored.
    /// Returns whether it was stored.
    pub fn register_component(&mut self, component: Component) -> (stored: bool)
        requires
            old(self).wf(),
        ensures
            final(self).wf(),
            stored == kind_is_persistent(component@.kind()),
            final(self)@.assemblages == old(self)@.assemblages,
            final(self)@.components == if stored {
                old(self)@.components.insert(component@.kind(), component@)
            } else {
                old(self)@.components
            },
    {
        if component.kind().is_persistent() {
            self.components.insert(component);
            assert(self@.assemblages =~= old(self)@.assemblages);
            true
        } else {
            false
        }
    }

    /// The prototype registered under the type name `component_name`.
    pub fn prototype(&self, component_name: &str) -> (r: Option<&Component>)
        requires
            self.wf(),
        ensures
            match r {
                Some(c) => kind_name(c@.kind()) == component_name@ && self@.prototype(c@.kind())
                    == Some(c@),
                None => forall|k: ComponentKind|
                    kind_name(k) == component_name@ ==> self@.prototype(k) is None,
            },
    {
        match crate::component::kind_from_name(component_name) {
            Some(kind) => {
                proof {
                    assert forall|k: ComponentKind| kind_name(k) == component_name@ implies k
                        == kind by {
                        crate::component::lemma_kind_names_distinct(k, kind);
                    }
                }
                self.components.get(kind)
            },
            None => None,
        }
    }
}

/// The catalog file: an object with one member for each prefab, in catalog
/// order, whose key is the prefab's name and whose value is the list of the
/// tagged forms of its components.
pub open spec fn catalog_to_json(a: Seq<AssemblageView>) -> JsonView {
    JsonView::Object(
        Seq::new(
            a.len(),
            |i: int| (a[i].name, JsonView::List(components_to_json(a[i].components))),
        ),
    )
}

/// The prefabs that the first `n` members of a catalog object stand for. A
/// later member overwrites an earlier one of the same name. The result is the
/// error of the first member that stands for no prefab: `Malformed` where its
/// value is no list, else the error of its first unreadable component.
pub open spec fn assemblages_from_json(ms: Seq<(Seq<char>, JsonView)>, n: int) -> Result<
    Seq<AssemblageView>,
    LoadErrorView,
>
    decreases n,
{
    if n <= 0 {
        Ok(Seq::empty())
    } else {
        match assemblages_from_json(ms, n - 1) {
            Err(e) => Err(e),
            Ok(acc) => match ms[n - 1].1 {
                JsonView::List(items) => match components_from_json(items, items.len() as int) {
                    Ok(cs) => Ok(put(acc, ms[n - 1].0, cs)),
                    Err(e) => Err(LoadErrorView::Component(e)),
                },
                _ => Err(LoadErrorView::Malformed),
            },
        }
    }
}

/// The prefabs that a catalog file stands for.
pub open spec fn catalog_from_json(j: JsonView) -> Result<Seq<AssemblageView>, LoadErrorView> {
    match j {
        JsonView::Object(ms) => assemblages_from_json(ms, ms.len() as int),
        _ => Err(LoadErrorView::Malformed),
    }
}

/// An error among the first `n` members is the error of every longer prefix.
pub proof fn lemma_assemblages_error_stays(ms: Seq<(Seq<char>, JsonView)>, n: int, m: int)
    requires
        0 <= n <= m,
        assemblages_from_json(ms, n) is Err,
    ensures
        assemblages_from_json(ms, m) == assemblages_from_json(ms, n),
    decreases m - n,
{
    if n < m {
        lemma_assemblages_error_stays(ms, n, m - 1);
    }
}

/// Reading the first `n` members of a written catalog gives its first `n`
/// prefabs.
pub proof fn lemma_assemblages_roundtrip(a: Seq<AssemblageView>, n: int)
    requires
        names_distinct(a),
        forall|i: int| 0 <= i < a.len() ==> all_persistent((#[trigger] a[i]).components),
        0 <= n <= a.len(),
    ensures
        assemblages_from_json(catalog_to_json(a)->Object_0, n) == Ok::<
            Seq<AssemblageView>,
            LoadErrorView,
        >(a.take(n)),
    decreases n,
{
    let ms = catalog_to_json(a)->Object_0;
    if n > 0 {
        lemma_assemblages_roundtrip(a, n - 1);
        let entry = a[n - 1];
        let cs = entry.components;
        assert(all_persistent(cs));
        lemma_components_roundtrip(cs, cs.len() as int);
        assert(cs.take(cs.len() as int) =~= cs);
        assert(ms[n - 1] == (entry.name, JsonView::List(components_to_json(cs))));
        let acc = a.take(n - 1);
        assert(!has_name(acc, entry.name)) by {
            if has_name(acc, entry.name) {
                let i = index_of(acc, entry.name);
                assert(acc[i] == a[i]);
                assert(a[i].name != a[n - 1].name);
            }
        }
        assert(acc.push(AssemblageView { name: entry.name, components: cs }) =~= a.take(n));
    } else {
        assert(a.take(0) =~= Seq::empty());
    }
}

/// Catalog round trip: loading a saved catalog gives the same prefabs, under
/// the same names, each with the same components in the same order.
pub proof fn lemma_catalog_roundtrip(catalog: AssemblagerView)
    requires
        catalog.wf(),
    ensures
        catalog_from_json(catalog_to_json(catalog.assemblages)) == Ok::<
            Seq<AssemblageView>,
            LoadErrorView,
        >(catalog.assemblages),
        forall|name: Seq<char>|
            (AssemblagerView {
                assemblages: catalog_from_json(catalog_to_json(catalog.assemblages))->Ok_0,
                components: catalog.components,
            }).get(name) == catalog.get(name),
{
    let a = catalog.assemblages;
    lemma_assemblages_roundtrip(a, a.len() as int);
    assert(a.take(a.len() as int) =~= a);
}

impl Assemblager {
    /// The catalog file for this catalog.
    pub fn catalog_json(&self) -> (r: Json)
        requires
            self.wf(),
        ensures
            r@ == catalog_to_json(self@.assemblages),
    {
        let mut members: Vec<Member> = Vec::new();
        let mut i: usize = 0;
        while i < self.assemblages.len()
            invariant
                i <= self.assemblages.len(),
                members.len() == i,
                self.wf(),
                forall|k: int|
                    0 <= k < i ==> members[k].key@ == self@.assemblages[k].name
                        && members[k].value@ == JsonView::List(
                        components_to_json(self@.assemblages[k].components),
                    ),
            decreases self.assemblages.len() - i,
        {
            let entry = &self.assemblages[i];
            assert(self@.assemblages[i as int] == entry@);
            let list = components_json(&entry.components);
            members.push(Member::new(entry.name.as_str(), list));
            i += 1;
        }
        let r = Json::object(members);
        assert(r@->Object_0 =~= catalog_to_json(self@.assemblages)->Object_0);
        r
    }

    /// The catalog that a catalog file stands for, with no prototype
    /// registered yet.
    ///
    /// Fails with `Malformed` where the document is no object or the value of
    /// a member is no list, and with the error of the first component that
    /// cannot be read.
    pub fn new(catalog: &Json) -> (r: Result<Assemblager, LoadError>)
        ensures
            match r {
                Ok(a) => a.wf() && catalog_from_json(catalog@) == Ok::<
                    Seq<AssemblageView>,
                    LoadErrorView,
                >(a@.assemblages) && a@.components == Map::<
                    ComponentKind,
                    ComponentView,
                >::empty(),
                Err(e) => catalog_from_json(catalog@) == Err::<
                    Seq<AssemblageView>,
                    LoadErrorView,
                >(e@),
            },
    {
        match catalog {
            Json::Object(members) => {
                proof {
                    lemma_view_unfold(*catalog);
                }
                let ghost ms = catalog@->Object_0;
                let mut out = Assemblager::empty();
                let mut i: usize = 0;
                while i < members.len()
                    invariant
                        i <= members.len(),
                        catalog@ == JsonView::Object(ms),
                        ms.len() == members.len(),
                        forall|k: int|
                            0 <= k < members.len() ==> (#[trigger] ms[k]) == (
                                members[k].key@,
                                members[k].value@,
                            ),
                        out.wf(),
                        out@.components == Map::<ComponentKind, ComponentView>::empty(),
                        assemblages_from_json(ms, i as int) == Ok::<
                            Seq<AssemblageView>,
                            LoadErrorView,
                        >(out@.assemblages),
                    decreases members.len() - i,
                {
                    assert(ms[i as int] == (members[i as int].key@, members[i as int].value@));
                    match components_of_json(&members[i].value) {
                        Ok(cs) => {
                            out.insert(members[i].key.as_str(), cs);
                        },
                        Err(e) => {
                            proof {
                                lemma_assemblages_error_stays(ms, i as int + 1, ms.len() as int);
                            }
                            return Err(e);
                        },
                    }
                    i += 1;
                }
                Ok(out)
            },
            _ => Err(LoadError::Malformed),
        }
    }
}

/// The handle of an entity under construction: its id is fixed, and its
/// components wait in the queue of deferred mutations.
#[derive(Clone, Copy, Debug, PartialEq, Eq, Structural)]
pub struct LazyBuilder {
    pub entity: u32,
}

impl LazyBuilder {
    /// Ends the construction and hands out the entity's id.
    pub fn build(self) -> (entity: u32)
        ensures
            entity == self.entity,
    {
        self.entity
    }
}

impl Component {
    /// Schedules the attachment of a copy of this component to the entity
    /// under construction: the copy is attached at the next flush.
    pub fn add_to_lazy_builder(&self, builder: &LazyBuilder, world: &mut World)
        requires
            old(world).wf(),
        ensures
            final(world).wf(),
            final(world)@ == old(world)@.with_lazy(
                old(world)@.lazy.push(
                    LazyActionView::Insert { entity: builder.entity, component: self@ },
                ),
            ),
    {
        world.defer(LazyAction::Insert { entity: builder.entity, component: self.boxed_clone() });
    }
}

/// The tag that marks an entity as built from the prefab called `name`.
pub open spec fn tag(name: Seq<char>) -> ComponentView {
    ComponentView::Assemblaged(AssemblagedView { built_from: name })
}

/// What a draft attaches to the new entity, in order: the components of the
/// prefab in catalog order, then the tag.
pub open spec fn draft_components(name: Seq<char>, cs: Seq<ComponentView>) -> Seq<ComponentView> {
    cs.push(tag(name))
}

/// The world after an entity was drafted from the prefab called `name` with
/// the components `cs`: one more entity, alive and bare, and at the end of
/// the queue one mutation for each component that the draft attaches.
pub open spec fn drafted(w: WorldView, name: Seq<char>, cs: Seq<ComponentView>) -> WorldView {
    WorldView {
        slots: w.slots.push(SlotView::fresh()),
        lazy: w.lazy + inserts(w.slots.len() as u32, draft_components(name, cs)),
        removed_phys: w.removed_phys,
    }
}

impl Assemblager {
    /// Drafts an entity from the prefab called `assemblage_key`: creates the
    /// entity and defers, in catalog order, the attachment of a copy of each
    /// component of the prefab, and after them of the tag that names the
    /// prefab. Nothing is attached before the next flush.
    ///
    /// Fails with `PrefabNotFound`, and leaves the world as it is, where the
    /// catalog has no prefab of that name.
    pub fn draft(&self, assemblage_key: &str, world: &mut World) -> (r: Result<
        LazyBuilder,
        CatalogError,
    >)
        requires
            self.wf(),
            old(world).wf(),
            old(world)@.slots.len() < u32::MAX,
        ensures
            final(world).wf(),
            match r {
                Ok(builder) => self@.get(assemblage_key@) is Some && builder.entity == old(
                    world,
                )@.slots.len() && final(world)@ == drafted(
                    old(world)@,
                    assemblage_key@,
                    self@.get(assemblage_key@)->0,
                ),
                Err(e) => e == CatalogError::PrefabNotFound && self@.get(assemblage_key@) is None
                    && final(world)@ == old(world)@,
            },
    {
        match self.get(assemblage_key) {
            None => Err(CatalogError::PrefabNotFound),
            Some(components) => {
                let entity = world.create_entity();
                let builder = LazyBuilder { entity };
                let ghost base = world@;
                let ghost cs = views(components@);
                let ghost all = inserts(entity, draft_components(assemblage_key@, cs));
                let mut i: usize = 0;
                assert(base.lazy + all.take(0) =~= base.lazy);
                while i < components.len()
                    invariant
                        i <= components.len(),
                        world.wf(),
                        builder.entity == entity,
                        cs == views(components@),
                        all == inserts(entity, draft_components(assemblage_key@, cs)),
                        world@ == base.with_lazy(base.lazy + all.take(i as int)),
                    decreases components.len() - i,
                {
                    components[i].add_to_lazy_builder(&builder, world);
                    assert(all[i as int] == LazyActionView::Insert {
                        entity,
                        component: cs[i as int],
                    });
                    assert((base.lazy + all.take(i as int)).push(all[i as int]) =~= base.lazy
                        + all.take(i as int + 1));
                    i += 1;
                }
                let tag_component = Component::Assemblaged(
                    Assemblaged { built_from: assemblage_key.to_owned() },
                );
                tag_component.add_to_lazy_builder(&builder, world);
                assert(all[cs.len() as int] == LazyActionView::Insert {
                    entity,
                    component: tag(assemblage_key@),
                });
                assert((base.lazy + all.take(cs.len() as int)).push(all[cs.len() as int])
                    =~= base.lazy + all);
                Ok(builder)
            },
        }
    }

    /// Builds an entity from the prefab called `assemblage_key`: a draft that
    /// is ended at once.
    pub fn build(&self, assemblage_key: &str, world: &mut World) -> (r: Result<u32, CatalogError>)
        requires
            self.wf(),
            old(world).wf(),
            old(world)@.slots.len() < u32::MAX,
        ensures
            final(world).wf(),
            match r {
                Ok(entity) => self@.get(assemblage_key@) is Some && entity == old(
                    world,
                )@.slots.len() && final(world)@ == drafted(
                    old(world)@,
                    assemblage_key@,
                    self@.get(assemblage_key@)->0,
                ),
                Err(e) => e == CatalogError::PrefabNotFound && self@.get(assemblage_key@) is None
                    && final(world)@ == old(world)@,
            },
    {
        match self.draft(assemblage_key, world) {
            Ok(builder) => Ok(builder.build()),
            Err(e) => Err(e),
        }
    }

    /// Builds an entity from the prefab called `assemblage_key` and defers,
    /// behind the attachment of its components, the overwriting of its
    /// hitbox's position with `pos`.
    ///
    /// Fails with `PrefabNotFound` where the catalog has no prefab of that
    /// name, else with `NoHitbox` where the prefab lists no hitbox, so that
    /// the position would be lost. A failed call changes nothing.
    pub fn build_at(&self, assemblage_key: &str, world: &mut World, pos: Vec3) -> (r: Result<
        u32,
        CatalogError,
    >)
        requires
            self.wf(),
            old(world).wf(),
            old(world)@.slots.len() < u32::MAX,
        ensures
            final(world).wf(),
            match r {
                Ok(entity) => {
                    let built = drafted(
                        old(world)@,
                        assemblage_key@,
                        self@.get(assemblage_key@)->0,
                    );
                    &&& self@.get(assemblage_key@) is Some
                    &&& lists_kind(self@.get(assemblage_key@)->0, ComponentKind::Hitbox)
                    &&& entity == old(world)@.slots.len()
                    &&& final(world)@ == built.with_lazy(
                        built.lazy.push(
                            LazyActionView::SetHitboxPosition { entity, position: pos },
                        ),
                    )
                },
                Err(e) => {
                    &&& final(world)@ == old(world)@
                    &&& e == CatalogError::PrefabNotFound || e == CatalogError::NoHitbox
                    &&& e == CatalogError::PrefabNotFound <==> self@.get(assemblage_key@) is None
                    &&& e == CatalogError::NoHitbox <==> (self@.get(assemblage_key@) matches Some(
                        cs,
                    ) && !lists_kind(cs, ComponentKind::Hitbox))
                },
            },
    {
        match self.get(assemblage_key) {
            Some(components) => {
                if !lists(components, ComponentKind::Hitbox) {
                    return Err(CatalogError::NoHitbox);
                }
            },
            None => {
                return Err(CatalogError::PrefabNotFound);
            },
        }
        match self.build(assemblage_key, world) {
            Ok(entity) => {
                world.defer(LazyAction::SetHitboxPosition { entity, position: pos });
                Ok(entity)
            },
            Err(e) => Err(e),
        }
    }

    /// Adds to the prefab called `assemblage_key` a copy of the prototype
    /// registered under `component_name`, behind the components it has.
    ///
    /// Fails with `PrefabNotFound` where there is no such prefab, else with
    /// `ComponentNotFound` where there is no such prototype, else with
    /// `AlreadyPresent` where the prefab lists a component of that type. A
    /// failed call changes nothing.
    #[verifier::loop_isolation(false)]
    pub fn add_component(&mut self, assemblage_key: &str, component_name: &str) -> (r: Result<
        (),
        CatalogError,
    >)
        requires
            old(self).wf(),
        ensures
            final(self).wf(),
            final(self)@.components == old(self)@.components,
            match r {
                Ok(()) => exists|kind: ComponentKind|
                    {
                        &&& kind_name(kind) == component_name@
                        &&& old(self)@.prototype(kind) is Some
                        &&& old(self)@.get(assemblage_key@) is Some
                        &&& !lists_kind(old(self)@.get(assemblage_key@)->0, kind)
                        &&& final(self)@.assemblages == put(
                            old(self)@.assemblages,
                            assemblage_key@,
                            old(self)@.get(assemblage_key@)->0.push(
                                old(self)@.prototype(kind)->0,
                            ),
                        )
                    },
                Err(e) => {
                    let no_prefab = old(self)@.get(assemblage_key@) is None;
                    let no_prototype = forall|k: ComponentKind|
                        kind_name(k) == component_name@ ==> old(self)@.prototype(k) is None;
                    &&& final(self)@ == old(self)@
                    &&& e == CatalogError::PrefabNotFound <==> no_prefab
                    &&& e == CatalogError::ComponentNotFound <==> !no_prefab && no_prototype
                    &&& e == CatalogError::AlreadyPresent <==> !no_prefab && !no_prototype
                    &&& e == CatalogError::AlreadyPresent ==> exists|k: ComponentKind|
                        kind_name(k) == component_name@ && lists_kind(
                            old(self)@.get(assemblage_key@)->0,
                            k,
                        )
                    &&& e == CatalogError::PrefabNotFound || e == CatalogError::ComponentNotFound
                        || e == CatalogError::AlreadyPresent
                },
            },
    {
        let index = match self.find(assemblage_key) {
            Some(i) => i,
            None => {
                return Err(CatalogError::PrefabNotFound);
            },
        };
        let addition = match self.prototype(component_name) {
            Some(c) => c.boxed_clone(),
            None => {
                return Err(CatalogError::ComponentNotFound);
            },
        };
        let kind = addition.kind();
        assert(self@.assemblages[index as int] == self.assemblages[index as int]@);
        let current = &self.assemblages[index].components;
        let ghost listed = old(self)@.get(assemblage_key@)->0;
        assert(listed == views(current@));
        let mut i: usize = 0;
        while i < current.len()
            invariant
                i <= current.len(),
                forall|j: int| 0 <= j < i ==> (#[trigger] views(current@)[j]).kind() != kind,
            decreases current.len() - i,
        {
            if same_kind(current[i].kind(), kind) {
                assert(listed[i as int].kind() == kind);
                assert(lists_kind(listed, kind));
                return Err(CatalogError::AlreadyPresent);
            }
            assert(views(current@)[i as int].kind() != kind);
            i += 1;
        }
        let mut components = clone_components(current);
        let ghost before = views(components@);
        components.push(addition);
        assert(views(components@) =~= before.push(addition@));
        assert(!lists_kind(listed, kind)) by {
            if lists_kind(listed, kind) {
                let j = choose|j: int| 0 <= j < listed.len() && (#[trigger] listed[j]).kind() == kind;
                assert(views(current@)[j].kind() != kind);
            }
        }
        self.insert(assemblage_key, components);
        Ok(())
    }

    /// Takes the component at place `index` out of the prefab called
    /// `assemblage_key` and hands it out.
    ///
    /// Fails with `PrefabNotFound` where there is no such prefab, else with
    /// `IndexOutOfRange` where the prefab has no component at that place. A
    /// failed call changes nothing.
    pub fn remove_component(&mut self, assemblage_key: &str, index: usize) -> (r: Result<
        Component,
        CatalogError,
    >)
        requires
            old(self).wf(),
        ensures
            final(self).wf(),
            final(self)@.components == old(self)@.components,
            match r {
                Ok(c) => {
                    &&& old(self)@.get(assemblage_key@) is Some
                    &&& index < old(self)@.get(assemblage_key@)->0.len()
                    &&& c@ == old(self)@.get(assemblage_key@)->0[index as int]
                    &&& final(self)@.assemblages == put(
                        old(self)@.assemblages,
                        assemblage_key@,
                        old(self)@.get(assemblage_key@)->0.remove(index as int),
                    )
                },
                Err(e) => {
                    &&& final(self)@ == old(self)@
                    &&& e == CatalogError::PrefabNotFound || e == CatalogError::IndexOutOfRange
                    &&& e == CatalogError::PrefabNotFound <==> old(self)@.get(assemblage_key@)
                        is None
                    &&& e == CatalogError::IndexOutOfRange <==> (old(self)@.get(
                        assemblage_key@,
                    ) matches Some(cs) && index >= cs.len())
                },
            },
    {
        let place = match self.find(assemblage_key) {
            Some(i) => i,
            None => {
                return Err(CatalogError::PrefabNotFound);
            },
        };
        assert(self@.assemblages[place as int] == self.assemblages[place as int]@);
        if index >= self.assemblages[place].components.len() {
            return Err(CatalogError::IndexOutOfRange);
        }
        let mut components = clone_components(&self.assemblages[place].components);
        let ghost before = views(components@);
        let removed = components.remove(index);
        assert(views(components@) =~= before.remove(index as int));
        self.insert(assemblage_key, components);
        Ok(removed)
    }

    /// Stores a copy of the components of the prefab called `built_from` as
    /// the prefab called `name`, in place of any prefab of that name.
    ///
    /// Fails with `PrefabNotFound`, and changes nothing, where there is no
    /// prefab called `built_from`.
    pub fn copy_assemblage(&mut self, built_from: &str, name: &str) -> (r: Result<
        (),
        CatalogError,
    >)
        requires
            old(self).wf(),
        ensures
            final(self).wf(),
            final(self)@.components == old(self)@.components,
            match r {
                Ok(()) => old(self)@.get(built_from@) is Some && final(self)@.assemblages == put(
                    old(self)@.assemblages,
                    name@,
                    old(self)@.get(built_from@)->0,
                ),
                Err(e) => e == CatalogError::PrefabNotFound && old(self)@.get(built_from@) is None
                    && final(self)@ == old(self)@,
            },
    {
        let components = match self.get(built_from) {
            Some(cs) => clone_components(cs),
            None => {
                return Err(CatalogError::PrefabNotFound);
            },
        };
        self.insert(name, components);
        Ok(())
    }
}

/// Whether two component types are the same.
pub fn same_kind(a: ComponentKind, b: ComponentKind) -> (r: bool)
    ensures
        r == (a == b),
{
    a.index() == b.index()
}

/// Whether no component behind place `i` of the list is of the type of the
/// component at place `i`.
pub open spec fn is_last_of_kind(cs: Seq<ComponentView>, i: int) -> bool {
    forall|j: int| i < j < cs.len() ==> (#[trigger] cs[j]).kind() != cs[i].kind()
}

/// Build order. Let an entity be drafted from the prefab called `name` with
/// components `cs`, and let the queue hold, before and behind the mutations of
/// that draft, any mutations that are about other entities (those of other
/// drafts of the same prefab among them). Then after the flush the entity is
/// alive and its slot is what putting the components of the prefab into a bare
/// slot, in catalog order, and the tag behind them, makes of it. So it carries
/// exactly one tag, which names the prefab; of each other type that the prefab
/// lists, the last component of that type; and nothing else.
pub proof fn lemma_build_order(
    w: WorldView,
    before: Seq<LazyActionView>,
    behind: Seq<LazyActionView>,
    entity: u32,
    name: Seq<char>,
    cs: Seq<ComponentView>,
)
    requires
        w.is_alive(entity),
        w.slots[entity as int] == SlotView::fresh(),
        w.lazy == before + inserts(entity, draft_components(name, cs)) + behind,
        spares(before, entity),
        spares(behind, entity),
    ensures
        w.flushed().lazy == Seq::<LazyActionView>::empty(),
        w.flushed().is_alive(entity),
        w.flushed().slots[entity as int] == assembled(
            SlotView::fresh(),
            draft_components(name, cs),
            cs.len() as int + 1,
        ),
        w.flushed().get(entity, ComponentKind::Assemblaged) == Some(tag(name)),
        forall|i: int|
            0 <= i < cs.len() && cs[i].kind() != ComponentKind::Assemblaged && #[trigger] is_last_of_kind(
                cs,
                i,
            ) ==> w.flushed().get(entity, cs[i].kind()) == Some(cs[i]),
        forall|kind: ComponentKind|
            kind != ComponentKind::Assemblaged && !lists_kind(cs, kind) ==> (#[trigger] w.flushed().get(
                entity,
                kind,
            )) is None,
{
    let dc = draft_components(name, cs);
    let mid = inserts(entity, dc);
    let n: int = cs.len() as int + 1;
    let w0 = w.with_lazy(Seq::empty());
    let w1 = w0.apply_all(before, before.len() as int);
    let w2 = w1.apply_all(mid, mid.len() as int);
    let w3 = w2.apply_all(behind, behind.len() as int);
    lemma_apply_all_split(w0, before + mid, behind, behind.len() as int);
    lemma_apply_all_split(w0, before, mid, mid.len() as int);
    assert(w.flushed() == w3);
    lemma_apply_all_spares(w0, before, before.len() as int, entity);
    lemma_apply_inserts(w1, entity, dc, n);
    lemma_apply_all_spares(w2, behind, behind.len() as int, entity);
    lemma_assembled_alive(SlotView::fresh(), dc, n);
    let slot = assembled(SlotView::fresh(), dc, n);
    assert(w3.slots[entity as int] == slot);
    lemma_assembled_last(SlotView::fresh(), dc, n, n - 1);
    assert forall|i: int|
        0 <= i < cs.len() && cs[i].kind() != ComponentKind::Assemblaged && #[trigger] is_last_of_kind(
            cs,
            i,
        ) implies w3.get(entity, cs[i].kind()) == Some(cs[i]) by {
        assert forall|j: int| i < j < n implies (#[trigger] dc[j]).kind() != dc[i].kind() by {
            if j < cs.len() {
                assert(cs[j].kind() != cs[i].kind());
            }
        }
        lemma_assembled_last(SlotView::fresh(), dc, n, i);
    }
    assert forall|kind: ComponentKind|
        kind != ComponentKind::Assemblaged && !lists_kind(cs, kind) implies (#[trigger] w3.get(
        entity,
        kind,
    )) is None by {
        assert forall|j: int| 0 <= j < n implies (#[trigger] dc[j]).kind() != kind by {
            if j < cs.len() {
                assert(cs[j].kind() != kind);
            }
        }
        lemma_assembled_absent(SlotView::fresh(), dc, n, kind);
    }
}

/// The catalog together with the world that it builds into, so that a
/// caller who builds many entities names both once.
pub struct Spawner<'a> {
    pub assemblager: &'a Assemblager,
    pub world: &'a mut World,
}

impl Assemblager {
    /// A spawner for this catalog and `world`.
    pub fn cache<'a>(&'a self, world: &'a mut World) -> (r: Spawner<'a>)
        ensures
            r.assemblager == self,
            *r.world == *old(world),
            *final(r.world) == *final(world),
    {
        Spawner { assemblager: self, world }
    }
}

impl<'a> Spawner<'a> {
    /// Drafts an entity, as [`Assemblager::draft`] does.
    pub fn draft(&mut self, assemblage_key: &str) -> (r: Result<LazyBuilder, CatalogError>)
        requires
            old(self).assemblager.wf(),
            old(self).world.wf(),
            old(self).world@.slots.len() < u32::MAX,
        ensures
            final(self).assemblager == old(self).assemblager,
            final(self).world.wf(),
            match r {
                Ok(builder) => old(self).assemblager@.get(assemblage_key@) is Some
                    && builder.entity == old(self).world@.slots.len() && final(self).world@
                    == drafted(
                    old(self).world@,
                    assemblage_key@,
                    old(self).assemblager@.get(assemblage_key@)->0,
                ),
                Err(e) => e == CatalogError::PrefabNotFound && old(self).assemblager@.get(
                    assemblage_key@,
                ) is None && final(self).world@ == old(self).world@,
            },
    {
        self.assemblager.draft(assemblage_key, self.world)
    }

    /// Builds an entity, as [`Assemblager::build`] does.
    pub fn build(&mut self, assemblage_key: &str) -> (r: Result<u32, CatalogError>)
        requires
            old(self).assemblager.wf(),
            old(self).world.wf(),
            old(self).world@.slots.len() < u32::MAX,
        ensures
            final(self).assemblager == old(self).assemblager,
            final(self).world.wf(),
            match r {
                Ok(entity) => old(self).assemblager@.get(assemblage_key@) is Some && entity == old(
                    self,
                ).world@.slots.len() && final(self).world@ == drafted(
                    old(self).world@,
                    assemblage_key@,
                    old(self).assemblager@.get(assemblage_key@)->0,
                ),
                Err(e) => e == CatalogError::PrefabNotFound && old(self).assemblager@.get(
                    assemblage_key@,
                ) is None && final(self).world@ == old(self).world@,
            },
    {
        self.assemblager.build(assemblage_key, self.world)
    }

    /// Builds an entity at a place, as [`Assemblager::build_at`] does.
    pub fn build_at(&mut self, assemblage_key: &str, pos: Vec3) -> (r: Result<u32, CatalogError>)
        requires
            old(self).assemblager.wf(),
            old(self).world.wf(),
            old(self).world@.slots.len() < u32::MAX,
        ensures
            final(self).assemblager == old(self).assemblager,
            final(self).world.wf(),
            match r {
                Ok(entity) => {
                    let built = drafted(
                        old(self).world@,
                        assemblage_key@,
                        old(self).assemblager@.get(assemblage_key@)->0,
                    );
                    &&& old(self).assemblager@.get(assemblage_key@) is Some
                    &&& lists_kind(
                        old(self).assemblager@.get(assemblage_key@)->0,
                        ComponentKind::Hitbox,
                    )
                    &&& entity == old(self).world@.slots.len()
                    &&& final(self).world@ == built.with_lazy(
                        built.lazy.push(
                            LazyActionView::SetHitboxPosition { entity, position: pos },
                        ),
                    )
                },
                Err(e) => {
                    &&& final(self).world@ == old(self).world@
                    &&& e == CatalogError::PrefabNotFound || e == CatalogError::NoHitbox
                    &&& e == CatalogError::PrefabNotFound <==> old(self).assemblager@.get(
                        assemblage_key@,
                    ) is None
                    &&& e == CatalogError::NoHitbox <==> (old(self).assemblager@.get(
                        assemblage_key@,
                    ) matches Some(cs) && !lists_kind(cs, ComponentKind::Hitbox))
                },
            },
    {
        self.assemblager.build_at(assemblage_key, self.world, pos)
    }
}

/// Build order, from the draft itself. Let the queue of a world hold only
/// mutations of entities that the world has, and let an entity be drafted from
/// the prefab called `name` with components `cs`. Then after the flush the
/// new entity is alive and its slot is what putting the components of the
/// prefab into a bare slot, in catalog order, and the tag behind them, makes
/// of it: it carries exactly one tag, which names the prefab; of each other
/// type that the prefab lists, the last component of that type; and nothing
/// else.
pub proof fn lemma_draft_flush(w: WorldView, name: Seq<char>, cs: Seq<ComponentView>)
    requires
        w.slots.len() < u32::MAX,
        bounded(w.lazy, w.slots.len() as int),
    ensures
        ({
            let entity = w.slots.len() as u32;
            let after = drafted(w, name, cs).flushed();
            &&& after.lazy == Seq::<LazyActionView>::empty()
            &&& after.is_alive(entity)
            &&& after.slots[entity as int] == assembled(
                SlotView::fresh(),
                draft_components(name, cs),
                cs.len() as int + 1,
            )
            &&& after.get(entity, ComponentKind::Assemblaged) == Some(tag(name))
            &&& forall|i: int|
                0 <= i < cs.len() && cs[i].kind() != ComponentKind::Assemblaged && #[trigger] is_last_of_kind(
                    cs,
                    i,
                ) ==> after.get(entity, cs[i].kind()) == Some(cs[i])
            &&& forall|kind: ComponentKind|
                kind != ComponentKind::Assemblaged && !lists_kind(cs, kind) ==> (#[trigger] after.get(
                    entity,
                    kind,
                )) is None
        }),
{
    let entity = w.slots.len() as u32;
    let d = drafted(w, name, cs);
    let mid = inserts(entity, draft_components(name, cs));
    assert(d.lazy =~= w.lazy + mid + Seq::<LazyActionView>::empty());
    assert(spares(w.lazy, entity)) by {
        assert forall|i: int| 0 <= i < w.lazy.len() implies crate::world::target(
            #[trigger] w.lazy[i],
        ) != entity by {}
    }
    lemma_build_order(d, w.lazy, Seq::empty(), entity, name, cs);
}

/// The world after `m` entities were drafted, one after the other, from the
/// prefab called `name` with components `cs`.
pub open spec fn drafted_times(w: WorldView, name: Seq<char>, cs: Seq<ComponentView>, m: nat) -> WorldView
    decreases m,
{
    if m == 0 {
        w
    } else {
        drafted(drafted_times(w, name, cs, (m - 1) as nat), name, cs)
    }
}

/// What `m` drafts leave: `m` more entities, and a queue that holds only
/// mutations of entities that the world has.
pub proof fn lemma_drafted_times_shape(
    w: WorldView,
    name: Seq<char>,
    cs: Seq<ComponentView>,
    m: nat,
)
    requires
        w.slots.len() + m <= u32::MAX,
        bounded(w.lazy, w.slots.len() as int),
    ensures
        drafted_times(w, name, cs, m).slots.len() == w.slots.len() + m,
        bounded(drafted_times(w, name, cs, m).lazy, (w.slots.len() + m) as int),
    decreases m,
{
    if m > 0 {
        lemma_drafted_times_shape(w, name, cs, (m - 1) as nat);
        let d = drafted_times(w, name, cs, (m - 1) as nat);
        let after = drafted(d, name, cs);
        let entity = d.slots.len() as u32;
        let mid = inserts(entity, draft_components(name, cs));
        assert forall|i: int| 0 <= i < after.lazy.len() implies crate::world::target(
            #[trigger] after.lazy[i],
        ) < w.slots.len() + m by {
            if i < d.lazy.len() {
                assert(after.lazy[i] == d.lazy[i]);
            } else {
                assert(after.lazy[i] == mid[i - d.lazy.len()]);
            }
        }
    }
}

/// Build order, for any number of drafts in one frame. Let the queue of a
/// world hold only mutations of entities that the world has, and let `m`
/// entities be drafted from the prefab called `name` before one flush. Then
/// the entities have `m` different ids, and after the flush each of them is
/// alive and is what putting the components of the prefab into a bare slot,
/// in catalog order, and the tag behind them, makes of it: no mutation of one
/// draft lands on the entity of another.
pub proof fn lemma_drafts_flush(
    w: WorldView,
    name: Seq<char>,
    cs: Seq<ComponentView>,
    m: nat,
    i: nat,
)
    requires
        w.slots.len() + m <= u32::MAX,
        bounded(w.lazy, w.slots.len() as int),
        i < m,
    ensures
        ({
            let after = drafted_times(w, name, cs, m).flushed();
            let entity = (w.slots.len() + i) as u32;
            &&& after.slots.len() == w.slots.len() + m
            &&& after.is_alive(entity)
            &&& after.slots[entity as int] == assembled(
                SlotView::fresh(),
                draft_components(name, cs),
                cs.len() as int + 1,
            )
            &&& after.get(entity, ComponentKind::Assemblaged) == Some(tag(name))
        }),
    decreases m,
{
    let d = drafted_times(w, name, cs, (m - 1) as nat);
    let after = drafted(d, name, cs);
    lemma_drafted_times_shape(w, name, cs, (m - 1) as nat);
    let last = d.slots.len() as u32;
    let dc = draft_components(name, cs);
    let mid = inserts(last, dc);
    let entity = (w.slots.len() + i) as u32;
    if i == m - 1 {
        lemma_draft_flush(d, name, cs);
        lemma_apply_all_extra_slot(
            d.with_lazy(Seq::empty()),
            SlotView::fresh(),
            d.lazy,
            d.lazy.len() as int,
        );
        lemma_drafted_times_shape(w, name, cs, m);
        crate::world::lemma_apply_all_frame_len(
            after.with_lazy(Seq::empty()),
            after.lazy,
            after.lazy.len() as int,
        );
    } else {
        lemma_drafts_flush(w, name, cs, (m - 1) as nat, i);
        let d0 = d.with_lazy(Seq::empty());
        let a0 = after.with_lazy(Seq::empty());
        assert(a0 == with_extra_slot(d0, SlotView::fresh()));
        lemma_apply_all_split(a0, d.lazy, mid, mid.len() as int);
        lemma_apply_all_extra_slot(d0, SlotView::fresh(), d.lazy, d.lazy.len() as int);
        let settled = a0.apply_all(d.lazy, d.lazy.len() as int);
        assert(settled == with_extra_slot(d.flushed(), SlotView::fresh()));
        assert(settled.slots[entity as int] == d.flushed().slots[entity as int]);
        assert(spares(mid, entity)) by {
            assert forall|k: int| 0 <= k < mid.len() implies crate::world::target(
                #[trigger] mid[k],
            ) != entity by {}
        }
        lemma_apply_all_spares(settled, mid, mid.len() as int, entity);
        assert(after.lazy == d.lazy + mid);
        assert(after.flushed() == settled.apply_all(mid, mid.len() as int));
    }
}

/// The slot with the position of its hitbox overwritten; unchanged where it
/// holds no hitbox.
pub open spec fn placed(slot: SlotView, pos: Vec3) -> SlotView {
    match slot.get(ComponentKind::Hitbox) {
        Some(ComponentView::Hitbox(h)) => slot.insert(
            ComponentView::Hitbox(
                crate::comps::Hitbox {
                    position: pos,
                    rotation: h.rotation,
                    scale: h.scale,
                    density: h.density,
                    physics_interaction: h.physics_interaction,
                },
            ),
        ),
        _ => slot,
    }
}

/// Build order of `build_at`. Let an entity be built at `pos` from the prefab
/// called `name` with components `cs`, and let the queue hold, before and
/// behind the mutations of that build, any mutations that are about other
/// entities. Then the overwriting of the position takes effect behind the
/// attachment of the components: after the flush the entity's slot is the
/// slot that the draft alone would leave, with `pos` as the position of its
/// hitbox. Where the prefab lists a hitbox, as every prefab does from which
/// `build_at` builds, the entity carries a hitbox at `pos`.
pub proof fn lemma_build_at_order(
    w: WorldView,
    before: Seq<LazyActionView>,
    behind: Seq<LazyActionView>,
    entity: u32,
    name: Seq<char>,
    cs: Seq<ComponentView>,
    pos: Vec3,
)
    requires
        w.is_alive(entity),
        w.slots[entity as int] == SlotView::fresh(),
        w.lazy == before + inserts(entity, draft_components(name, cs)).push(
            LazyActionView::SetHitboxPosition { entity, position: pos },
        ) + behind,
        spares(before, entity),
        spares(behind, entity),
    ensures
        w.flushed().is_alive(entity),
        w.flushed().slots[entity as int] == placed(
            assembled(SlotView::fresh(), draft_components(name, cs), cs.len() as int + 1),
            pos,
        ),
        lists_kind(cs, ComponentKind::Hitbox) ==> (w.flushed().get(
            entity,
            ComponentKind::Hitbox,
        ) matches Some(ComponentView::Hitbox(h)) && h.position == pos),
{
    let dc = draft_components(name, cs);
    let mid = inserts(entity, dc);
    let set = LazyActionView::SetHitboxPosition { entity, position: pos };
    let n: int = cs.len() as int + 1;
    let w0 = w.with_lazy(Seq::empty());
    let w1 = w0.apply_all(before, before.len() as int);
    let w2 = w1.apply_all(mid, mid.len() as int);
    let w3 = w2.apply(set);
    let w4 = w3.apply_all(behind, behind.len() as int);
    lemma_apply_all_split(w0, before + mid.push(set), behind, behind.len() as int);
    lemma_apply_all_split(w0, before, mid.push(set), mid.len() as int + 1);
    crate::world::lemma_apply_all_prefix(w1, mid.push(set), mid, mid.len() as int);
    assert(mid.push(set)[mid.len() as int] == set);
    assert(w1.apply_all(mid.push(set), mid.len() as int + 1) == w3);
    assert(w.flushed() == w4);
    lemma_apply_all_spares(w0, before, before.len() as int, entity);
    lemma_apply_inserts(w1, entity, dc, n);
    lemma_assembled_alive(SlotView::fresh(), dc, n);
    lemma_apply_all_spares(w3, behind, behind.len() as int, entity);
    let slot = assembled(SlotView::fresh(), dc, n);
    assert(w2.slots[entity as int] == slot);
    assert(w3.slots[entity as int] == placed(slot, pos));
    if lists_kind(cs, ComponentKind::Hitbox) {
        let i = choose|i: int| 0 <= i < cs.len() && (#[trigger] cs[i]).kind()
            == ComponentKind::Hitbox;
        assert(dc[i].kind() == ComponentKind::Hitbox);
        let j = crate::world::lemma_last_of_kind(dc, n, ComponentKind::Hitbox);
        lemma_assembled_last(SlotView::fresh(), dc, n, j);
        assert(slot.get(ComponentKind::Hitbox) == Some(dc[j]));
        assert(dc[j] is Hitbox);
    }
}

} // verus!
