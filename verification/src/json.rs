//! JSON documents of `serde_json`, by what they hold.

use vstd::prelude::*;

verus! {

/// A number of a JSON document. `NegInt` is below 0, and `Fraction` holds the text that
/// `serde_json` prints for it.
pub enum NumberView {
    PosInt(u64),
    NegInt(i64),
    Fraction(Seq<char>),
}

/// What a JSON value holds.
pub enum JsonView {
    Null,
    Bool(bool),
    Number(NumberView),
    Text(Seq<char>),
    Array(Seq<JsonView>),
    Object(Map<Seq<char>, JsonView>),
}

/// `serde_json::Value`.
#[verifier::external_type_specification]
#[verifier::external_body]
pub struct ExValue(serde_json::Value);

/// `serde_json::Map`.
#[verifier::external_type_specification]
#[verifier::external_body]
#[verifier::reject_recursive_types(K)]
#[verifier::reject_recursive_types(V)]
pub struct ExMap<K, V>(serde_json::Map<K, V>);

/// What the value `v` holds.
pub uninterp spec fn held(v: serde_json::Value) -> JsonView;

/// What the map `m` holds, by key.
pub uninterp spec fn members(m: serde_json::Map<String, serde_json::Value>) -> Map<
    Seq<char>,
    JsonView,
>;

/// The document that `serde_json::from_str` reads from `text`, or nothing where it fails.
pub uninterp spec fn json_reading(text: Seq<char>) -> Option<JsonView>;

/// The text that `serde_json::Value` prints for a document, with the members of an object sorted
/// by key, as `serde_json` has it without its feature `preserve_order`.
pub uninterp spec fn json_text(v: JsonView) -> Seq<char>;

/// The text that `serde_json::to_string_pretty` prints for a document, with the members of an
/// object sorted by key.
pub uninterp spec fn json_pretty(v: JsonView) -> Seq<char>;

/// Whether `v` nests at most `depth` arrays and objects in one another.
pub open spec fn nests_within(v: JsonView, depth: nat) -> bool
    decreases depth,
{
    match v {
        JsonView::Array(items) => depth > 0 && forall|i: int|
            0 <= i < items.len() ==> nests_within(#[trigger] items[i], (depth - 1) as nat),
        JsonView::Object(entries) => depth > 0 && forall|key: Seq<char>|
            entries.contains_key(key) ==> nests_within(#[trigger] entries[key], (depth - 1) as nat),
        _ => true,
    }
}

/// Whether no number of `v` is a fraction, down to `depth` arrays and objects.
pub open spec fn integral(v: JsonView, depth: nat) -> bool
    decreases depth,
{
    match v {
        JsonView::Number(n) => !(n is Fraction),
        JsonView::Array(items) => depth > 0 ==> forall|i: int|
            0 <= i < items.len() ==> integral(#[trigger] items[i], (depth - 1) as nat),
        JsonView::Object(entries) => depth > 0 ==> forall|key: Seq<char>|
            entries.contains_key(key) ==> integral(#[trigger] entries[key], (depth - 1) as nat),
        _ => true,
    }
}

/// Whether `v` and `w` are the same document but for the values of fractions, down to `depth`
/// arrays and objects.
pub open spec fn alike(v: JsonView, w: JsonView, depth: nat) -> bool
    decreases depth,
{
    match (v, w) {
        (
            JsonView::Number(NumberView::Fraction(_)),
            JsonView::Number(NumberView::Fraction(_)),
        ) => true,
        (JsonView::Array(a), JsonView::Array(b)) => {
            &&& a.len() == b.len()
            &&& depth > 0 ==> forall|i: int|
                0 <= i < a.len() ==> alike(#[trigger] a[i], b[i], (depth - 1) as nat)
        },
        (JsonView::Object(a), JsonView::Object(b)) => {
            &&& a.dom() == b.dom()
            &&& depth > 0 ==> forall|key: Seq<char>|
                a.contains_key(key) ==> alike(#[trigger] a[key], b[key], (depth - 1) as nat)
        },
        _ => v == w,
    }
}

/// `serde_json::from_str` to a `serde_json::Value`: the document is named. A document that is
/// read nests at most 127 arrays and objects, the limit of `serde_json`.
#[verifier::external_body]
pub(crate) fn parse(text: &str) -> (r: Option<serde_json::Value>)
    ensures
        r is Some <==> json_reading(text@) is Some,
        r matches Some(v) ==> {
            &&& json_reading(text@) == Some(held(v))
            &&& nests_within(held(v), 127)
        },
{
    serde_json::from_str(text).ok()
}

/// `serde_json::Value::get` with a string: the member of an object, and nothing of any other
/// value.
#[verifier::external_body]
pub(crate) fn get<'a>(v: &'a serde_json::Value, key: &str) -> (r: Option<&'a serde_json::Value>)
    ensures
        r is Some <==> (held(*v) matches JsonView::Object(entries) && entries.contains_key(key@)),
        r matches Some(member) ==> held(*v)->Object_0[key@] == held(*member),
{
    v.get(key)
}

/// `serde_json::Value::as_object`: the map of an object, and nothing of any other value.
#[verifier::external_body]
pub(crate) fn as_object(v: &serde_json::Value) -> (r: Option<
    &serde_json::Map<String, serde_json::Value>,
>)
    ensures
        r is Some <==> held(*v) is Object,
        r matches Some(m) ==> held(*v) == JsonView::Object(members(*m)),
{
    v.as_object()
}

/// `serde_json::Value::is_null`.
#[verifier::external_body]
pub(crate) fn is_null(v: &serde_json::Value) -> (r: bool)
    ensures
        r == (held(*v) is Null),
{
    v.is_null()
}

/// `serde_json::Value::as_bool`: a boolean, and nothing of any other value.
#[verifier::external_body]
pub(crate) fn as_bool(v: &serde_json::Value) -> (r: Option<bool>)
    ensures
        r == match held(*v) {
            JsonView::Bool(b) => Some(b),
            _ => None,
        },
{
    v.as_bool()
}

/// `serde_json::Value::is_number`.
#[verifier::external_body]
pub(crate) fn is_number(v: &serde_json::Value) -> (r: bool)
    ensures
        r == (held(*v) is Number),
{
    v.is_number()
}

/// `n` as an `i64`: an integer that it holds, and nothing of a fraction.
pub open spec fn signed_part(n: NumberView) -> Option<i64> {
    match n {
        NumberView::PosInt(n) => if n <= i64::MAX {
            Some(n as i64)
        } else {
            None
        },
        NumberView::NegInt(n) => Some(n),
        NumberView::Fraction(_) => None,
    }
}

/// `n` as a `u64`: an integer that it holds, and nothing of a fraction.
pub open spec fn unsigned_part(n: NumberView) -> Option<u64> {
    match n {
        NumberView::PosInt(n) => Some(n),
        _ => None,
    }
}

/// `serde_json::Value::as_i64`: an integer that an `i64` holds, and nothing of a fraction or of
/// any other value.
#[verifier::external_body]
pub(crate) fn as_i64(v: &serde_json::Value) -> (r: Option<i64>)
    ensures
        r == match held(*v) {
            JsonView::Number(n) => signed_part(n),
            _ => None,
        },
{
    v.as_i64()
}

/// `serde_json::Value::as_u64`: an integer that is not negative, and nothing of a fraction or of
/// any other value.
#[verifier::external_body]
pub(crate) fn as_u64(v: &serde_json::Value) -> (r: Option<u64>)
    ensures
        r == match held(*v) {
            JsonView::Number(n) => unsigned_part(n),
            _ => None,
        },
{
    v.as_u64()
}

/// `serde_json::Value::as_str`: a text, and nothing of any other value.
#[verifier::external_body]
pub(crate) fn as_str(v: &serde_json::Value) -> (r: Option<&str>)
    ensures
        r is Some <==> held(*v) is Text,
        r matches Some(s) ==> held(*v) == JsonView::Text(s@),
{
    v.as_str()
}

/// `serde_json::Map::get`.
#[verifier::external_body]
pub(crate) fn map_get<'a>(
    m: &'a serde_json::Map<String, serde_json::Value>,
    key: &str,
) -> (r: Option<&'a serde_json::Value>)
    ensures
        r is Some <==> members(*m).contains_key(key@),
        r matches Some(v) ==> members(*m)[key@] == held(*v),
{
    m.get(key)
}

/// An object without members.
pub open spec fn no_members() -> Map<Seq<char>, JsonView> {
    Map::empty()
}

/// `serde_json::Map::new`: an empty map.
#[verifier::external_body]
pub(crate) fn map_new() -> (r: serde_json::Map<String, serde_json::Value>)
    ensures
        members(r) == no_members(),
{
    serde_json::Map::new()
}

/// `serde_json::Map::insert`: `key` holds `v` afterwards, and no other key is touched.
#[verifier::external_body]
pub(crate) fn map_insert(
    m: &mut serde_json::Map<String, serde_json::Value>,
    key: &str,
    v: serde_json::Value,
)
    ensures
        members(*final(m)) == members(*old(m)).insert(key@, held(v)),
{
    m.insert(key.to_owned(), v);
}

/// `serde_json::Value::Bool`.
#[verifier::external_body]
pub(crate) fn value_of_bool(b: bool) -> (r: serde_json::Value)
    ensures
        held(r) == JsonView::Bool(b),
{
    serde_json::Value::Bool(b)
}

/// The number `n` in a JSON document.
pub open spec fn signed_number(n: i64) -> JsonView {
    if n < 0 {
        JsonView::Number(NumberView::NegInt(n))
    } else {
        JsonView::Number(NumberView::PosInt(n as u64))
    }
}

/// `serde_json::Value::from` of an `i64`.
#[verifier::external_body]
pub(crate) fn value_of_i64(n: i64) -> (r: serde_json::Value)
    ensures
        held(r) == signed_number(n),
{
    serde_json::Value::from(n)
}

/// `serde_json::Value::from` of a `u64`.
#[verifier::external_body]
pub(crate) fn value_of_u64(n: u64) -> (r: serde_json::Value)
    ensures
        held(r) == JsonView::Number(NumberView::PosInt(n)),
{
    serde_json::Value::from(n)
}

/// `serde_json::Value::String`.
#[verifier::external_body]
pub(crate) fn value_of_text(s: &str) -> (r: serde_json::Value)
    ensures
        held(r) == JsonView::Text(s@),
{
    serde_json::Value::String(s.to_owned())
}

/// `serde_json::Value::Object`.
#[verifier::external_body]
pub(crate) fn value_of_object(m: serde_json::Map<String, serde_json::Value>) -> (r:
    serde_json::Value)
    ensures
        held(r) == JsonView::Object(members(m)),
{
    serde_json::Value::Object(m)
}

/// The members of an object. `null` stands for an object without members.
pub open spec fn members_or_none(v: JsonView) -> Map<Seq<char>, JsonView> {
    match v {
        JsonView::Object(entries) => entries,
        _ => no_members(),
    }
}

/// Assignment to `serde_json::Value` indexed by a string: `key` of the object holds `v`
/// afterwards, and no other key is touched. A `null` becomes an object first; any other value
/// would panic.
#[verifier::external_body]
pub(crate) fn set_member(root: &mut serde_json::Value, key: &str, v: serde_json::Value)
    requires
        held(*old(root)) is Object || held(*old(root)) is Null,
    ensures
        held(*final(root)) == JsonView::Object(
            members_or_none(held(*old(root))).insert(key@, held(v)),
        ),
{
    root[key] = v;
}

/// `serde_json::Value::to_string`: the document on one line; the text is named.
#[verifier::external_body]
pub(crate) fn print(v: &serde_json::Value) -> (r: String)
    ensures
        r@ == json_text(held(*v)),
{
    v.to_string()
}

/// `serde_json::to_string_pretty`, which does not fail on a `serde_json::Value`: the text is
/// named. Within the nesting that `serde_json` reads, a document without fractions is read back
/// from its text as it was. One with fractions, where it is read back, has fractions in the same
/// places and is otherwise as it was. Of fractions nothing is said of whether they are within the
/// range that `serde_json` reads, nor of the values that it reads.
#[verifier::external_body]
pub(crate) fn print_pretty(v: &serde_json::Value) -> (r: Option<String>)
    ensures
        r is Some,
        r matches Some(text) ==> text@ == json_pretty(held(*v)),
        r matches Some(text) ==> (nests_within(held(*v), 127) && integral(held(*v), 127)
            ==> json_reading(text@) == Some(held(*v))),
        r matches Some(text) ==> (nests_within(held(*v), 127) ==> (json_reading(text@) matches Some(
            read,
        ) ==> alike(held(*v), read, 127))),
{
    serde_json::to_string_pretty(v).ok()
}

} // verus!
