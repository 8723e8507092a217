use vstd::prelude::*;
use vstd::string::{StrSliceExecFns, StringExecFns};
use crate::codec::serialize_tagged_spec;
use crate::component::{Component, ComponentView};
use crate::json::{Json, JsonView};

verus! {

/// A value that may have a tagged form to save.
pub trait MaybeSerialize: View {
    /// The tagged form of a value, if it has one.
    spec fn tagged_form(v: Self::V) -> Option<JsonView>;

    /// The tagged form of this value, `{ "<type name>": <fields> }`, or
    /// `None` where values of its type are not saved.
    fn maybe_serialize(&self) -> (r: Option<Json>)
        ensures
            match r {
                Some(j) => Self::tagged_form(self@) == Some(j@),
                None => Self::tagged_form(self@) is None,
            },
    ;
}

impl MaybeSerialize for Component {
    open spec fn tagged_form(v: ComponentView) -> Option<JsonView> {
        serialize_tagged_spec(v)
    }

    fn maybe_serialize(&self) -> (r: Option<Json>) {
        self.serialize_tagged()
    }
}

/// `Boolinator::as_some` of the boolinator crate: `Some(some)` where `cond`
/// holds, `None` where it does not.
#[verifier::external_body]
pub(crate) fn as_some<T>(cond: bool, some: T) -> (r: Option<T>)
    ensures
        r == if cond {
            Some(some)
        } else {
            None::<T>
        },
{
    boolinator::Boolinator::as_some(cond, some)
}

/// The place behind the last colon among the first `n` characters of a
/// text; 0 where there is none.
pub open spec fn behind_last_colon(s: Seq<char>, n: int) -> int
    decreases n,
{
    if n <= 0 {
        0
    } else if s[n - 1] == ':' {
        n
    } else {
        behind_last_colon(s, n - 1)
    }
}

/// The name of a type without the path of its module: what stands behind
/// the last colon of the full name, and the whole name where it holds no
/// colon.
pub open spec fn short_name(full: Seq<char>) -> Seq<char> {
    full.subrange(behind_last_colon(full, full.len() as int), full.len() as int)
}

/// The name of a type without the path of its module.
pub fn short_type_name(full: &str) -> (r: String)
    ensures
        r@ == short_name(full@),
{
    let n = full.unicode_len();
    let mut start: usize = 0;
    let mut i: usize = 0;
    while i < n
        invariant
            i <= n,
            n == full@.len(),
            start <= i,
            start == behind_last_colon(full@, i as int),
        decreases n - i,
    {
        if full.get_char(i) == ':' {
            start = i + 1;
        }
        i += 1;
    }
    String::from_str(full.substring_char(start, n))
}

/// The text of a tagged value: the short name of the type as the one key of
/// an object, and the text of the value behind it.
pub open spec fn tagged_text(full_name: Seq<char>, value: Seq<char>) -> Seq<char> {
    "{\""@ + short_name(full_name) + "\": "@ + value + "}"@
}

/// The text of a tagged value, from the full name of its type and the text
/// of the value.
pub fn tag_text(full_name: &str, value: &str) -> (r: String)
    ensures
        r@ == tagged_text(full_name@, value@),
{
    let mut out = String::from_str("{\"");
    let name = short_type_name(full_name);
    out.append(name.as_str());
    out.append("\": ");
    out.append(value);
    out.append("}");
    out
}

} // verus!
