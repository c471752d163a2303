//! JSON documents, as `serde_json` reads, builds and prints them.

use vstd::prelude::*;
use vstd::utf8::encode_utf8;

verus! {

/// What a JSON value says. Numbers are told apart as `serde_json` keeps them: whole numbers that
/// fit 64 bits, and all others as a double, here by its bits.
pub enum JsonView {
    Null,
    Bool(bool),
    Unsigned(u64),
    Negative(i64),
    Float(u64),
    Text(Seq<char>),
    Array(Seq<JsonView>),
    Object(Map<Seq<char>, JsonView>),
}

/// A JSON value of `serde_json`.
#[verifier::external_type_specification]
#[verifier::external_body]
pub struct ExValue(serde_json::Value);

/// An error of `serde_json`.
#[verifier::external_type_specification]
#[verifier::external_body]
pub struct ExJsonError(serde_json::Error);

/// What a `serde_json::Value` holds.
pub uninterp spec fn json_view(value: serde_json::Value) -> JsonView;

/// What `serde_json::from_slice` reads in a document, `None` where it refuses it.
pub uninterp spec fn json_document(bytes: Seq<u8>) -> Option<JsonView>;

/// The text that `serde_json::to_string_pretty` prints of a value; the members of an object come in the
/// order of their keys.
pub uninterp spec fn pretty_text(v: JsonView) -> Seq<char>;

/// The member of an object with the given key.
pub open spec fn member(v: JsonView, key: Seq<char>) -> Option<JsonView> {
    match v {
        JsonView::Object(m) => if m.dom().contains(key) {
            Some(m[key])
        } else {
            None
        },
        _ => None,
    }
}

/// The text of an optional value, `None` where there is no value or it is no text.
pub open spec fn text_in(v: Option<JsonView>) -> Option<Seq<char>> {
    match v {
        Some(JsonView::Text(s)) => Some(s),
        _ => None,
    }
}

/// The number of an optional value, `None` where there is no value or it is no whole number from
/// 0 to 2^64 - 1.
pub open spec fn number_in(v: Option<JsonView>) -> Option<u64> {
    match v {
        Some(JsonView::Unsigned(n)) => Some(n),
        _ => None,
    }
}

/// The deepest nesting that `serde_json` reads.
pub const MAX_DEPTH: usize = 127;

/// A value that nests no deeper than the given depth.
pub open spec fn nests_within(v: JsonView, depth: nat) -> bool
    decreases depth,
{
    if v is Array {
        depth > 0 && forall|i: int|
            0 <= i < (v->Array_0).len() ==> nests_within(
                #[trigger] (v->Array_0)[i],
                (depth - 1) as nat,
            )
    } else if v is Object {
        depth > 0 && forall|k: Seq<char>| #[trigger]
            (v->Object_0).dom().contains(k) ==> nests_within(
                (v->Object_0)[k],
                (depth - 1) as nat,
            )
    } else {
        true
    }
}

/// A value without doubles that nests no deeper than the given depth.
pub open spec fn exact_within(v: JsonView, depth: nat) -> bool
    decreases depth,
{
    if v is Float {
        false
    } else if v is Array {
        depth > 0 && forall|i: int|
            0 <= i < (v->Array_0).len() ==> exact_within(
                #[trigger] (v->Array_0)[i],
                (depth - 1) as nat,
            )
    } else if v is Object {
        depth > 0 && forall|k: Seq<char>| #[trigger]
            (v->Object_0).dom().contains(k) ==> exact_within(
                (v->Object_0)[k],
                (depth - 1) as nat,
            )
    } else {
        true
    }
}

/// Two values, nesting no deeper than the given depth, that are the same but for what their doubles
/// are: where one has a double, so has the other.
pub open spec fn same_but_doubles(a: JsonView, b: JsonView, depth: nat) -> bool
    decreases depth,
{
    if a is Float {
        b is Float
    } else if a is Array {
        &&& b is Array
        &&& depth > 0
        &&& (a->Array_0).len() == (b->Array_0).len()
        &&& forall|i: int|
            0 <= i < (a->Array_0).len() ==> same_but_doubles(
                #[trigger] (a->Array_0)[i],
                (b->Array_0)[i],
                (depth - 1) as nat,
            )
    } else if a is Object {
        &&& b is Object
        &&& depth > 0
        &&& (a->Object_0).dom() == (b->Object_0).dom()
        &&& forall|k: Seq<char>| #[trigger]
            (a->Object_0).dom().contains(k) ==> same_but_doubles(
                (a->Object_0)[k],
                (b->Object_0)[k],
                (depth - 1) as nat,
            )
    } else {
        a == b
    }
}

/// Values without doubles that are the same but for doubles are the same.
pub proof fn same_without_doubles(a: JsonView, b: JsonView, depth: nat)
    requires
        same_but_doubles(a, b, depth),
        exact_within(a, depth),
    ensures
        a == b,
    decreases depth,
{
    if a is Array {
        assert forall|i: int| 0 <= i < (a->Array_0).len() implies (a->Array_0)[i] == (b->Array_0)[i] by {
            same_without_doubles((a->Array_0)[i], (b->Array_0)[i], (depth - 1) as nat);
        }
        assert(a->Array_0 =~= b->Array_0);
    } else if a is Object {
        assert forall|k: Seq<char>| (a->Object_0).dom().contains(k) implies (a->Object_0)[k]
            == (b->Object_0)[k] by {
            same_without_doubles((a->Object_0)[k], (b->Object_0)[k], (depth - 1) as nat);
        }
        assert(a->Object_0 =~= b->Object_0);
    }
}

/// `serde_json::from_slice`, read as a `Value`: gives the document's content a name. The reader
/// follows no deeper nesting than its limit.
#[verifier::external_body]
pub(crate) fn parse_json(bytes: &[u8]) -> (r: Result<serde_json::Value, serde_json::Error>)
    ensures
        r matches Ok(v) ==> json_document(bytes@) == Some(json_view(v)) && nests_within(
            json_view(v),
            MAX_DEPTH as nat,
        ),
        r is Err ==> json_document(bytes@) is None,
{
    serde_json::from_slice(bytes)
}

/// `serde_json::to_string_pretty` of a `Value`: it succeeds, and gives what it prints a name. The text
/// reads back as the same value but for its doubles, provided that the value nests no deeper than the
/// reader follows. A double is finite. It is printed with a point or an exponent and reads back as a
/// double, perhaps a neighbouring one; the largest of all, 1.7976931348623157e308, reads back as itself.
#[verifier::external_body]
pub(crate) fn print_json(v: &serde_json::Value) -> (r: Result<String, serde_json::Error>)
    ensures
        r is Ok,
        r matches Ok(text) ==> text@ == pretty_text(json_view(*v)),
        r matches Ok(text) ==> (nests_within(json_view(*v), MAX_DEPTH as nat) ==> (json_document(
            encode_utf8(text@),
        ) matches Some(w) && same_but_doubles(json_view(*v), w, MAX_DEPTH as nat))),
{
    serde_json::to_string_pretty(v)
}

/// `serde_json::Value::get` with a text as the index: the member of an object with that key.
#[verifier::external_body]
pub(crate) fn get_member<'a>(v: &'a serde_json::Value, key: &str) -> (r: Option<
    &'a serde_json::Value,
>)
    ensures
        r matches Some(x) ==> member(json_view(*v), key@) == Some(json_view(*x)),
        r is None ==> member(json_view(*v), key@) is None,
{
    v.get(key)
}

/// `serde_json::Value::as_str`: the text, if the value is one.
#[verifier::external_body]
pub(crate) fn as_text<'a>(v: &'a serde_json::Value) -> (r: Option<&'a str>)
    ensures
        r matches Some(s) ==> json_view(*v) == JsonView::Text(s@),
        r is None ==> !(json_view(*v) is Text),
{
    v.as_str()
}

/// `serde_json::Value::as_u64`: the number, if the value is a whole number that fits.
#[verifier::external_body]
pub(crate) fn as_number(v: &serde_json::Value) -> (r: Option<u64>)
    ensures
        r matches Some(n) ==> json_view(*v) == JsonView::Unsigned(n),
        r is None ==> !(json_view(*v) is Unsigned),
{
    v.as_u64()
}

/// `serde_json::Value::is_object`.
#[verifier::external_body]
pub(crate) fn is_object(v: &serde_json::Value) -> (r: bool)
    ensures
        r == (json_view(*v) is Object),
{
    v.is_object()
}

/// `serde_json::Value::is_null`.
#[verifier::external_body]
pub(crate) fn is_null(v: &serde_json::Value) -> (r: bool)
    ensures
        r == (json_view(*v) == JsonView::Null),
{
    v.is_null()
}

/// `serde_json::Value`'s `clone`: a value that says the same.
pub assume_specification[ <serde_json::Value as std::clone::Clone>::clone ](
    v: &serde_json::Value,
) -> (r: serde_json::Value)
    ensures
        json_view(r) == json_view(*v),
;

/// `serde_json::Value::String`.
#[verifier::external_body]
pub(crate) fn json_text(s: String) -> (r: serde_json::Value)
    ensures
        json_view(r) == JsonView::Text(s@),
{
    serde_json::Value::String(s)
}

/// `serde_json::Value::from` of an unsigned number.
#[verifier::external_body]
pub(crate) fn json_number(n: u64) -> (r: serde_json::Value)
    ensures
        json_view(r) == JsonView::Unsigned(n),
{
    serde_json::Value::from(n)
}

/// `serde_json::Value::Bool`.
#[verifier::external_body]
pub(crate) fn json_bool(b: bool) -> (r: serde_json::Value)
    ensures
        json_view(r) == JsonView::Bool(b),
{
    serde_json::Value::Bool(b)
}

/// `serde_json::Value::Array`: the given values in their order.
#[verifier::external_body]
pub(crate) fn json_array(items: Vec<serde_json::Value>) -> (r: serde_json::Value)
    ensures
        json_view(r) == JsonView::Array(items@.map_values(|v: serde_json::Value| json_view(v))),
{
    serde_json::Value::Array(items)
}

/// `serde_json::Value::Object` of a new `serde_json::Map`: the empty object.
#[verifier::external_body]
pub(crate) fn empty_object() -> (r: serde_json::Value)
    ensures
        json_view(r) == JsonView::Object(Map::empty()),
{
    serde_json::Value::Object(serde_json::Map::new())
}

/// Assignment through `serde_json::Value`'s index by a text: puts a member into an object, in
/// place of one with the same key; null counts as the empty object. On any other value it panics.
#[verifier::external_body]
pub(crate) fn put_member(v: &mut serde_json::Value, key: &str, x: serde_json::Value)
    requires
        json_view(*old(v)) is Object || json_view(*old(v)) == JsonView::Null,
    ensures
        json_view(*old(v)) matches JsonView::Object(m) ==> json_view(*final(v)) == JsonView::Object(
            m.insert(key@, json_view(x)),
        ),
        json_view(*old(v)) == JsonView::Null ==> json_view(*final(v)) == JsonView::Object(
            map![key@ => json_view(x)],
        ),
{
    v[key] = x;
}

/// The text that a member of an object holds, copied.
pub(crate) fn member_text(v: &serde_json::Value, key: &str) -> (r: Option<String>)
    ensures
        crate::text::text_opt(r) == text_in(member(json_view(*v), key@)),
{
    match get_member(v, key) {
        Some(x) => match as_text(x) {
            Some(s) => Some(s.to_string()),
            None => None,
        },
        None => None,
    }
}

/// The number that a member of an object holds.
pub(crate) fn member_number(v: &serde_json::Value, key: &str) -> (r: Option<u64>)
    ensures
        r == number_in(member(json_view(*v), key@)),
{
    match get_member(v, key) {
        Some(x) => as_number(x),
        None => None,
    }
}

} // verus!
