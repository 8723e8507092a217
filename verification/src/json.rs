use vstd::prelude::*;
use vstd::string::StringExecFns;
use crate::scalar::{Scalar, Vec2, Vec3, Vec4};

verus! {

/// A JSON document as a tree.
#[derive(Debug, PartialEq, Eq)]
pub enum Json {
    Null,
    Bool(bool),
    /// An integer literal, with its single-precision reading where the party
    /// that built the tree supplied one.
    Int { value: i64, float: Option<Scalar> },
    /// A number that is no integer literal.
    Float(Scalar),
    Text(String),
    List(Vec<Json>),
    /// An object: its members in document order.
    Object(Vec<Member>),
}

/// One member of a JSON object.
#[derive(Debug, PartialEq, Eq)]
pub struct Member {
    pub key: String,
    pub value: Json,
}

/// The mathematical value of a [`Json`] tree.
pub enum JsonView {
    Null,
    Bool(bool),
    Int { value: i64, float: Option<Scalar> },
    Float(Scalar),
    Text(Seq<char>),
    List(Seq<JsonView>),
    Object(Seq<(Seq<char>, JsonView)>),
}

impl View for Json {
    type V = JsonView;

    open spec fn view(&self) -> JsonView
        decreases self,
    {
        match self {
            Json::Null => JsonView::Null,
            Json::Bool(b) => JsonView::Bool(*b),
            Json::Int { value, float } => JsonView::Int { value: *value, float: *float },
            Json::Float(s) => JsonView::Float(*s),
            Json::Text(t) => JsonView::Text(t@),
            Json::List(items) => JsonView::List(
                Seq::new(
                    items@.len(),
                    |i: int|
                        if 0 <= i < items.len() {
                            items[i].view()
                        } else {
                            JsonView::Null
                        },
                ),
            ),
            Json::Object(members) => JsonView::Object(
                Seq::new(
                    members@.len(),
                    |i: int|
                        if 0 <= i < members.len() {
                            (members[i].key@, members[i].value.view())
                        } else {
                            (Seq::empty(), JsonView::Null)
                        },
                ),
            ),
        }
    }
}

/// What the view of a list or an object is, item by item.
pub proof fn lemma_view_unfold(j: Json)
    ensures
        j matches Json::List(items) ==> j@ is List && j@->List_0.len() == items@.len() && forall|
            i: int,
        |
            0 <= i < items@.len() ==> (#[trigger] j@->List_0[i]) == items@[i]@,
        j matches Json::Object(members) ==> j@ is Object && j@->Object_0.len() == members@.len()
            && forall|i: int|
            0 <= i < members@.len() ==> (#[trigger] j@->Object_0[i]) == (
                members@[i].key@,
                members@[i].value@,
            ),
{
    reveal_with_fuel(<Json as View>::view, 2);
}

/// The value of the first member of `ms`, from place `from` on, whose key is
/// `key`.
pub open spec fn lookup_from(ms: Seq<(Seq<char>, JsonView)>, key: Seq<char>, from: int) -> Option<
    JsonView,
>
    decreases ms.len() - from,
{
    if from < 0 || from >= ms.len() {
        None
    } else if ms[from].0 == key {
        Some(ms[from].1)
    } else {
        lookup_from(ms, key, from + 1)
    }
}

/// The member `key` of a JSON object: the value of the first member with that
/// key. `None` where there is none, or where `j` is no object.
pub open spec fn field(j: JsonView, key: Seq<char>) -> Option<JsonView> {
    match j {
        JsonView::Object(ms) => lookup_from(ms, key, 0),
        _ => None,
    }
}

/// Where member `i` is the first one with key `key`, looking the key up from
/// any place up to `i` finds that member's value.
pub proof fn lemma_lookup_hit(ms: Seq<(Seq<char>, JsonView)>, key: Seq<char>, from: int, i: int)
    requires
        0 <= from <= i < ms.len(),
        ms[i].0 == key,
        forall|j: int| from <= j < i ==> (#[trigger] ms[j]).0 != key,
    ensures
        lookup_from(ms, key, from) == Some(ms[i].1),
    decreases i - from,
{
    if from < i {
        lemma_lookup_hit(ms, key, from + 1, i);
    }
}

/// The JSON number that stands for a real.
pub open spec fn enc_scalar(s: Scalar) -> JsonView {
    JsonView::Float(s)
}

/// The real that a JSON value stands for: any number that is no integer
/// literal, or an integer literal that carries its reading as a real.
pub open spec fn dec_scalar(j: JsonView) -> Option<Scalar> {
    match j {
        JsonView::Float(s) => Some(s),
        JsonView::Int { value, float: Some(s) } => Some(s),
        _ => None,
    }
}

/// The JSON number that stands for an integer.
pub open spec fn enc_int(v: int) -> JsonView {
    JsonView::Int { value: v as i64, float: None }
}

/// The integer that a JSON value stands for, where it lies in `lo ..= hi`.
pub open spec fn dec_int(j: JsonView, lo: int, hi: int) -> Option<int> {
    match j {
        JsonView::Int { value, float } => if lo <= value <= hi {
            Some(value as int)
        } else {
            None
        },
        _ => None,
    }
}

pub open spec fn dec_bool(j: JsonView) -> Option<bool> {
    match j {
        JsonView::Bool(b) => Some(b),
        _ => None,
    }
}

pub open spec fn dec_text(j: JsonView) -> Option<Seq<char>> {
    match j {
        JsonView::Text(t) => Some(t),
        _ => None,
    }
}

pub open spec fn enc_vec2(v: Vec2) -> JsonView {
    JsonView::List(seq![JsonView::Float(v.x), JsonView::Float(v.y)])
}

pub open spec fn dec_vec2(j: JsonView) -> Option<Vec2> {
    match j {
        JsonView::List(items) => if items.len() == 2 && dec_scalar(items[0]) is Some && dec_scalar(
            items[1],
        ) is Some {
            Some(Vec2 { x: dec_scalar(items[0])->0, y: dec_scalar(items[1])->0 })
        } else {
            None
        },
        _ => None,
    }
}

pub open spec fn enc_vec3(v: Vec3) -> JsonView {
    JsonView::List(seq![JsonView::Float(v.x), JsonView::Float(v.y), JsonView::Float(v.z)])
}

pub open spec fn dec_vec3(j: JsonView) -> Option<Vec3> {
    match j {
        JsonView::List(items) => if items.len() == 3 && dec_scalar(items[0]) is Some && dec_scalar(
            items[1],
        ) is Some && dec_scalar(items[2]) is Some {
            Some(
                Vec3 {
                    x: dec_scalar(items[0])->0,
                    y: dec_scalar(items[1])->0,
                    z: dec_scalar(items[2])->0,
                },
            )
        } else {
            None
        },
        _ => None,
    }
}

pub open spec fn enc_vec4(v: Vec4) -> JsonView {
    JsonView::List(
        seq![
            JsonView::Float(v.x),
            JsonView::Float(v.y),
            JsonView::Float(v.z),
            JsonView::Float(v.w),
        ],
    )
}

pub open spec fn dec_vec4(j: JsonView) -> Option<Vec4> {
    match j {
        JsonView::List(items) => if items.len() == 4 && dec_scalar(items[0]) is Some && dec_scalar(
            items[1],
        ) is Some && dec_scalar(items[2]) is Some && dec_scalar(items[3]) is Some {
            Some(
                Vec4 {
                    x: dec_scalar(items[0])->0,
                    y: dec_scalar(items[1])->0,
                    z: dec_scalar(items[2])->0,
                    w: dec_scalar(items[3])->0,
                },
            )
        } else {
            None
        },
        _ => None,
    }
}

/// The JSON list of strings that stands for a list of texts.
pub open spec fn enc_texts(ts: Seq<Seq<char>>) -> JsonView {
    JsonView::List(Seq::new(ts.len(), |i: int| JsonView::Text(ts[i])))
}

/// The list of texts that a JSON list of strings stands for.
pub open spec fn dec_texts(j: JsonView) -> Option<Seq<Seq<char>>> {
    match j {
        JsonView::List(items) => if forall|i: int| 0 <= i < items.len() ==> (#[trigger] items[i]) is Text {
            Some(Seq::new(items.len(), |i: int| items[i]->Text_0))
        } else {
            None
        },
        _ => None,
    }
}

impl Json {
    /// The JSON string with the text of `s`.
    pub fn text(s: &str) -> (r: Json)
        ensures
            r@ == JsonView::Text(s@),
    {
        Json::Text(String::from_str(s))
    }

    /// The JSON number that stands for the integer `v`.
    pub fn integer(v: i64) -> (r: Json)
        ensures
            r@ == enc_int(v as int),
    {
        Json::Int { value: v, float: None }
    }

    /// The JSON object with the given members.
    pub fn object(members: Vec<Member>) -> (r: Json)
        ensures
            r@ is Object,
            r@->Object_0.len() == members.len(),
            forall|i: int|
                0 <= i < members.len() ==> r@->Object_0[i] == (members[i].key@, members[i].value@),
    {
        let r = Json::Object(members);
        proof {
            lemma_view_unfold(r);
        }
        r
    }

    /// The JSON list with the given items.
    pub fn list(items: Vec<Json>) -> (r: Json)
        ensures
            r@ is List,
            r@->List_0.len() == items.len(),
            forall|i: int| 0 <= i < items.len() ==> r@->List_0[i] == items[i]@,
    {
        let r = Json::List(items);
        proof {
            lemma_view_unfold(r);
        }
        r
    }

    /// The member `key` of this object.
    pub fn get(&self, key: &str) -> (r: Option<&Json>)
        ensures
            match r {
                Some(v) => field(self@, key@) == Some(v@),
                None => field(self@, key@) is None,
            },
    {
        match self {
            Json::Object(members) => {
                let wanted = String::from_str(key);
                let ghost ms = self@->Object_0;
                proof {
                    lemma_view_unfold(*self);
                }
                let mut i: usize = 0;
                while i < members.len()
                    invariant
                        i <= members.len(),
                        wanted@ == key@,
                        self@ == JsonView::Object(ms),
                        ms.len() == members.len(),
                        forall|j: int|
                            0 <= j < members.len() ==> ms[j] == (
                                members[j].key@,
                                members[j].value@,
                            ),
                        lookup_from(ms, key@, 0) == lookup_from(ms, key@, i as int),
                    decreases members.len() - i,
                {
                    if members[i].key == wanted {
                        assert(ms[i as int] == (members[i as int].key@, members[i as int].value@));
                        return Some(&members[i].value);
                    }
                    assert(ms[i as int] == (members[i as int].key@, members[i as int].value@));
                    i += 1;
                }
                None
            },
            _ => None,
        }
    }

    /// The real that this value stands for.
    pub fn as_scalar(&self) -> (r: Option<Scalar>)
        ensures
            r == dec_scalar(self@),
    {
        match self {
            Json::Float(s) => Some(*s),
            Json::Int { value, float } => *float,
            _ => None,
        }
    }

    /// The integer that this value stands for, where it lies in `lo ..= hi`.
    pub fn as_int(&self, lo: i64, hi: i64) -> (r: Option<i64>)
        ensures
            match r {
                Some(v) => dec_int(self@, lo as int, hi as int) == Some(v as int),
                None => dec_int(self@, lo as int, hi as int) is None,
            },
    {
        match self {
            Json::Int { value, float } => if lo <= *value && *value <= hi {
                Some(*value)
            } else {
                None
            },
            _ => None,
        }
    }

    /// The truth value that this value stands for.
    pub fn as_bool(&self) -> (r: Option<bool>)
        ensures
            r == dec_bool(self@),
    {
        match self {
            Json::Bool(b) => Some(*b),
            _ => None,
        }
    }

    /// The text of this JSON string.
    pub fn as_text(&self) -> (r: Option<String>)
        ensures
            match r {
                Some(t) => dec_text(self@) == Some(t@),
                None => dec_text(self@) is None,
            },
    {
        match self {
            Json::Text(t) => Some(t.clone()),
            _ => None,
        }
    }

    /// The pair of reals that this list of two numbers stands for.
    pub fn as_vec2(&self) -> (r: Option<Vec2>)
        ensures
            r == dec_vec2(self@),
    {
        match self {
            Json::List(items) => {
                proof {
                    lemma_view_unfold(*self);
                }
                if items.len() != 2 {
                    return None;
                }
                match (items[0].as_scalar(), items[1].as_scalar()) {
                    (Some(x), Some(y)) => Some(Vec2 { x, y }),
                    _ => None,
                }
            },
            _ => None,
        }
    }

    /// The triple of reals that this list of three numbers stands for.
    pub fn as_vec3(&self) -> (r: Option<Vec3>)
        ensures
            r == dec_vec3(self@),
    {
        match self {
            Json::List(items) => {
                proof {
                    lemma_view_unfold(*self);
                }
                if items.len() != 3 {
                    return None;
                }
                match (items[0].as_scalar(), items[1].as_scalar(), items[2].as_scalar()) {
                    (Some(x), Some(y), Some(z)) => Some(Vec3 { x, y, z }),
                    _ => None,
                }
            },
            _ => None,
        }
    }

    /// The four reals that this list of four numbers stands for.
    pub fn as_vec4(&self) -> (r: Option<Vec4>)
        ensures
            r == dec_vec4(self@),
    {
        match self {
            Json::List(items) => {
                proof {
                    lemma_view_unfold(*self);
                }
                if items.len() != 4 {
                    return None;
                }
                match (
                    items[0].as_scalar(),
                    items[1].as_scalar(),
                    items[2].as_scalar(),
                    items[3].as_scalar(),
                ) {
                    (Some(x), Some(y), Some(z), Some(w)) => Some(Vec4 { x, y, z, w }),
                    _ => None,
                }
            },
            _ => None,
        }
    }

    /// The texts of this list of JSON strings.
    pub fn as_texts(&self) -> (r: Option<Vec<String>>)
        ensures
            match r {
                Some(ts) => dec_texts(self@) == Some(crate::comps::texts(ts@)),
                None => dec_texts(self@) is None,
            },
    {
        match self {
            Json::List(items) => {
                let ghost vs = self@->List_0;
                proof {
                    lemma_view_unfold(*self);
                }
                let mut out: Vec<String> = Vec::new();
                let mut i: usize = 0;
                while i < items.len()
                    invariant
                        i <= items.len(),
                        out.len() == i,
                        self@ == JsonView::List(vs),
                        vs.len() == items.len(),
                        forall|j: int| 0 <= j < items.len() ==> vs[j] == items[j]@,
                        forall|j: int| 0 <= j < i ==> (#[trigger] vs[j]) is Text,
                        forall|j: int| 0 <= j < i ==> out[j]@ == vs[j]->Text_0,
                    decreases items.len() - i,
                {
                    match &items[i] {
                        Json::Text(t) => {
                            out.push(t.clone());
                        },
                        _ => {
                            assert(vs[i as int] == items[i as int]@);
                            assert(!(vs[i as int] is Text));
                            return None;
                        },
                    }
                    i += 1;
                }
                assert(crate::comps::texts(out@) =~= Seq::new(vs.len(), |i: int| vs[i]->Text_0));
                Some(out)
            },
            _ => None,
        }
    }

    /// The JSON number that stands for the real `s`.
    pub fn scalar(s: Scalar) -> (r: Json)
        ensures
            r@ == enc_scalar(s),
    {
        Json::Float(s)
    }

    /// The JSON list that stands for a pair of reals.
    pub fn vec2(v: Vec2) -> (r: Json)
        ensures
            r@ == enc_vec2(v),
    {
        let mut items: Vec<Json> = Vec::new();
        items.push(Json::Float(v.x));
        items.push(Json::Float(v.y));
        let r = Json::List(items);
        proof {
            lemma_view_unfold(r);
        }
        assert(r@->List_0 =~= enc_vec2(v)->List_0);
        r
    }

    /// The JSON list that stands for a triple of reals.
    pub fn vec3(v: Vec3) -> (r: Json)
        ensures
            r@ == enc_vec3(v),
    {
        let mut items: Vec<Json> = Vec::new();
        items.push(Json::Float(v.x));
        items.push(Json::Float(v.y));
        items.push(Json::Float(v.z));
        let r = Json::List(items);
        proof {
            lemma_view_unfold(r);
        }
        assert(r@->List_0 =~= enc_vec3(v)->List_0);
        r
    }

    /// The JSON list that stands for four reals.
    pub fn vec4(v: Vec4) -> (r: Json)
        ensures
            r@ == enc_vec4(v),
    {
        let mut items: Vec<Json> = Vec::new();
        items.push(Json::Float(v.x));
        items.push(Json::Float(v.y));
        items.push(Json::Float(v.z));
        items.push(Json::Float(v.w));
        let r = Json::List(items);
        proof {
            lemma_view_unfold(r);
        }
        assert(r@->List_0 =~= enc_vec4(v)->List_0);
        r
    }

    /// The JSON list of strings that stands for a list of texts.
    pub fn texts(ts: &Vec<String>) -> (r: Json)
        ensures
            r@ == enc_texts(crate::comps::texts(ts@)),
    {
        let mut items: Vec<Json> = Vec::new();
        let mut i: usize = 0;
        while i < ts.len()
            invariant
                i <= ts.len(),
                items.len() == i,
                forall|j: int| 0 <= j < i ==> items[j]@ == JsonView::Text(ts[j]@),
            decreases ts.len() - i,
        {
            items.push(Json::Text(ts[i].clone()));
            i += 1;
        }
        let r = Json::List(items);
        proof {
            lemma_view_unfold(r);
        }
        assert(r@->List_0 =~= enc_texts(crate::comps::texts(ts@))->List_0);
        r
    }
}

impl Member {
    /// The member with key `key` and value `value`.
    pub fn new(key: &str, value: Json) -> (r: Member)
        ensures
            r.key@ == key@,
            r.value == value,
    {
        Member { key: String::from_str(key), value }
    }
}

} // verus!

