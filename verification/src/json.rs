//! JSON documents as plain values, read with `serde_json`.
use vstd::prelude::*;

use crate::text::str_eq;

verus! {

/// A JSON value. A number is kept as the text `serde_json` prints for it;
/// an object's members are kept in the order `serde_json` walks them.
#[derive(Debug)]
pub enum JsonValue {
    Null,
    Bool(bool),
    Number(String),
    Str(String),
    Array(Vec<JsonValue>),
    Object(Vec<(String, JsonValue)>),
}

#[verifier::external_type_specification]
#[verifier::external_body]
pub struct ExJsonValue(serde_json::Value);

/// What `serde_json::from_str` makes of a text: the value it reads, or, when
/// it rejects the text, the message its error displays.
pub uninterp spec fn json_from_text(text: Seq<char>) -> Result<JsonValue, Seq<char>>;

/// The value `serde_json::from_slice` reads from bytes, or `None` when it
/// rejects them.
pub uninterp spec fn json_from_bytes(bytes: Seq<u8>) -> Option<JsonValue>;

/// Converts a `serde_json::Value` to the library's `JsonValue`, variant by
/// variant (a number by its `Display` text). Nothing is stated of the result
/// here: the parsing wrappers below name what the composition gives.
#[verifier::external_body]
fn json_value_of(v: &serde_json::Value) -> JsonValue {
    match v {
        serde_json::Value::Null => JsonValue::Null,
        serde_json::Value::Bool(b) => JsonValue::Bool(*b),
        serde_json::Value::Number(n) => JsonValue::Number(n.to_string()),
        serde_json::Value::String(s) => JsonValue::Str(s.clone()),
        serde_json::Value::Array(items) => JsonValue::Array(items.iter().map(json_value_of).collect()),
        serde_json::Value::Object(map) => JsonValue::Object(
            map.iter().map(|(k, x)| (k.clone(), json_value_of(x))).collect(),
        ),
    }
}

/// Calls `serde_json::from_str::<serde_json::Value>`, and on an error its
/// `Display` text. Claims only that the outcome is a function of the text,
/// named `json_from_text`: the value read, or the error's message.
#[verifier::external_body]
pub(crate) fn parse_json_text(text: &str) -> (r: Result<JsonValue, String>)
    ensures
        match r {
            Ok(v) => json_from_text(text@) == Ok::<JsonValue, Seq<char>>(v),
            Err(m) => json_from_text(text@) == Err::<JsonValue, Seq<char>>(m@),
        },
{
    match serde_json::from_str::<serde_json::Value>(text) {
        Ok(v) => Ok(json_value_of(&v)),
        Err(e) => Err(e.to_string()),
    }
}

/// Calls `serde_json::from_slice::<serde_json::Value>`; as `parse_json_text`,
/// with the name `json_from_bytes`.
#[verifier::external_body]
pub(crate) fn parse_json_bytes(bytes: &[u8]) -> (r: Option<JsonValue>)
    ensures
        r == json_from_bytes(bytes@),
{
    serde_json::from_slice::<serde_json::Value>(bytes).ok().map(|v| json_value_of(&v))
}

/// Calls `serde_json::to_string` on a string, which writes it as a JSON
/// string literal. States the documented case of text with no character
/// that JSON escapes: the text in double quotes.
#[verifier::external_body]
pub(crate) fn json_string_literal(s: &str) -> (r: String)
    ensures
        (forall|i: int| 0 <= i < s@.len() ==> s@[i] != '"' && s@[i] != '\\' && (s@[i] as u32) >= 0x20)
            ==> r@ == seq!['"'] + s@ + seq!['"'],
{
    serde_json::to_string(s).unwrap_or_default()
}

// ---------------------------------------------------------------------------
// Reading values
// ---------------------------------------------------------------------------
/// The index of the first member named `key`.
pub open spec fn member_index(members: Seq<(String, JsonValue)>, key: Seq<char>) -> Option<int>
    decreases members.len(),
{
    if members.len() == 0 {
        None
    } else if members[0].0@ == key {
        Some(0)
    } else {
        match member_index(members.drop_first(), key) {
            Some(i) => Some(i + 1),
            None => None,
        }
    }
}

/// `Value::get(key)`: the member of an object, `None` for anything else.
pub open spec fn json_get(v: JsonValue, key: Seq<char>) -> Option<JsonValue> {
    match v {
        JsonValue::Object(members) => match member_index(members@, key) {
            Some(i) => Some(members@[i].1),
            None => None,
        },
        _ => None,
    }
}

proof fn lemma_member_index(members: Seq<(String, JsonValue)>, key: Seq<char>, i: int)
    requires
        0 <= i <= members.len(),
        forall|k: int| 0 <= k < i ==> (#[trigger] members[k]).0@ != key,
    ensures
        i < members.len() && members[i].0@ == key ==> member_index(members, key) == Some(i),
        i == members.len() ==> member_index(members, key) is None,
    decreases i,
{
    if i > 0 {
        assert forall|k: int| 0 <= k < i - 1 implies (#[trigger] members.drop_first()[k]).0@ != key by {
            assert(members.drop_first()[k] == members[k + 1]);
        }
        lemma_member_index(members.drop_first(), key, i - 1);
        if i < members.len() {
            assert(members.drop_first()[i - 1] == members[i]);
        }
        assert(members[0].0@ != key);
    }
}

pub fn get<'a>(v: &'a JsonValue, key: &str) -> (r: Option<&'a JsonValue>)
    ensures
        match r {
            Some(x) => json_get(*v, key@) == Some(*x),
            None => json_get(*v, key@) is None,
        },
{
    match v {
        JsonValue::Object(members) => {
            let mut i: usize = 0;
            while i < members.len()
                invariant
                    i <= members.len(),
                    *v == JsonValue::Object(*members),
                    forall|k: int| 0 <= k < i ==> (#[trigger] members@[k]).0@ != key@,
                decreases members.len() - i,
            {
                if str_eq(members[i].0.as_str(), key) {
                    proof {
                        lemma_member_index(members@, key@, i as int);
                        assert(members@[i as int].0@ == key@);
                        assert(member_index(members@, key@) == Some(i as int));
                        assert(*v == JsonValue::Object(*members));
                        assert(json_get(*v, key@) == Some(members@[i as int].1));
                    }
                    return Some(&members[i].1);
                }
                i += 1;
            }
            proof {
                lemma_member_index(members@, key@, i as int);
            }
            None
        },
        _ => None,
    }
}

pub open spec fn json_str(v: Option<JsonValue>) -> Option<Seq<char>> {
    match v {
        Some(JsonValue::Str(s)) => Some(s@),
        _ => None,
    }
}

pub fn as_str(v: Option<&JsonValue>) -> (r: Option<&String>)
    ensures
        match r {
            Some(s) => json_str(match v {
                Some(x) => Some(*x),
                None => None,
            }) == Some(s@),
            None => json_str(match v {
                Some(x) => Some(*x),
                None => None,
            }) is None,
        },
{
    match v {
        Some(JsonValue::Str(s)) => Some(s),
        _ => None,
    }
}

// ---------------------------------------------------------------------------
// Equality
// ---------------------------------------------------------------------------
/// Equality of JSON values (numbers by their text).
pub open spec fn json_same(a: JsonValue, b: JsonValue) -> bool
    decreases a, 1int,
{
    match a {
        JsonValue::Null => b is Null,
        JsonValue::Bool(x) => b matches JsonValue::Bool(y) && x == y,
        JsonValue::Number(x) => b matches JsonValue::Number(y) && x@ == y@,
        JsonValue::Str(x) => b matches JsonValue::Str(y) && x@ == y@,
        JsonValue::Array(xs) => match b {
            JsonValue::Array(ys) => items_same(xs@, ys@),
            _ => false,
        },
        JsonValue::Object(xs) => match b {
            JsonValue::Object(ys) => members_same(xs@, ys@),
            _ => false,
        },
    }
}

/// Two arrays' items are pairwise the same.
pub open spec fn items_same(xs: Seq<JsonValue>, ys: Seq<JsonValue>) -> bool
    decreases xs, 0int,
{
    if xs.len() == 0 {
        ys.len() == 0
    } else {
        &&& ys.len() > 0
        &&& json_same(xs[0], ys[0])
        &&& items_same(xs.drop_first(), ys.drop_first())
    }
}

/// Two objects' members are pairwise the same: same names, same values, same order.
pub open spec fn members_same(xs: Seq<(String, JsonValue)>, ys: Seq<(String, JsonValue)>) -> bool
    decreases xs, 0int,
{
    if xs.len() == 0 {
        ys.len() == 0
    } else {
        &&& ys.len() > 0
        &&& xs[0].0@ == ys[0].0@
        &&& json_same(xs[0].1, ys[0].1)
        &&& members_same(xs.drop_first(), ys.drop_first())
    }
}

proof fn lemma_items_same(xs: Seq<JsonValue>, ys: Seq<JsonValue>)
    ensures
        items_same(xs, ys) <==> (xs.len() == ys.len() && forall|i: int|
            0 <= i < xs.len() ==> #[trigger] json_same(xs[i], ys[i])),
    decreases xs.len(),
{
    if xs.len() > 0 && ys.len() > 0 {
        lemma_items_same(xs.drop_first(), ys.drop_first());
        assert(items_same(xs, ys) == (json_same(xs[0], ys[0]) && items_same(xs.drop_first(), ys.drop_first())));
        if xs.len() == ys.len() && forall|i: int| 0 <= i < xs.len() ==> #[trigger] json_same(xs[i], ys[i]) {
            assert forall|i: int| 0 <= i < xs.drop_first().len() implies #[trigger] json_same(
                xs.drop_first()[i],
                ys.drop_first()[i],
            ) by {
                assert(json_same(xs[i + 1], ys[i + 1]));
            }
        }
        if items_same(xs, ys) {
            assert forall|i: int| 0 <= i < xs.len() implies #[trigger] json_same(xs[i], ys[i]) by {
                if i > 0 {
                    assert(json_same(xs.drop_first()[i - 1], ys.drop_first()[i - 1]));
                }
            }
        }
    }
}

/// Two members have the same name and the same value.
pub open spec fn member_same(x: (String, JsonValue), y: (String, JsonValue)) -> bool {
    x.0@ == y.0@ && json_same(x.1, y.1)
}

proof fn lemma_members_same(xs: Seq<(String, JsonValue)>, ys: Seq<(String, JsonValue)>)
    ensures
        members_same(xs, ys) <==> (xs.len() == ys.len() && forall|i: int|
            0 <= i < xs.len() ==> #[trigger] member_same(xs[i], ys[i])),
    decreases xs.len(),
{
    if xs.len() > 0 && ys.len() > 0 {
        let (xt, yt) = (xs.drop_first(), ys.drop_first());
        lemma_members_same(xt, yt);
        assert(members_same(xs, ys) == (member_same(xs[0], ys[0]) && members_same(xt, yt)));
        if xs.len() == ys.len() && forall|i: int| 0 <= i < xs.len() ==> #[trigger] member_same(xs[i], ys[i]) {
            assert(member_same(xs[0], ys[0]));
            assert forall|i: int| 0 <= i < xt.len() implies #[trigger] member_same(xt[i], yt[i]) by {
                assert(member_same(xs[i + 1], ys[i + 1]));
            }
        }
        if members_same(xs, ys) {
            assert forall|i: int| 0 <= i < xs.len() implies #[trigger] member_same(xs[i], ys[i]) by {
                if i > 0 {
                    assert(member_same(xt[i - 1], yt[i - 1]));
                }
            }
        }
    }
}

/// `==` on JSON values.
pub fn json_equal(a: &JsonValue, b: &JsonValue) -> (r: bool)
    ensures
        r == json_same(*a, *b),
    decreases a,
{
    match a {
        JsonValue::Null => match b {
            JsonValue::Null => {
                true
            },
            _ => false,
        },
        JsonValue::Bool(x) => match b {
            JsonValue::Bool(y) => *x == *y,
            _ => false,
        },
        JsonValue::Number(x) => match b {
            JsonValue::Number(y) => str_eq(x.as_str(), y.as_str()),
            _ => false,
        },
        JsonValue::Str(x) => match b {
            JsonValue::Str(y) => str_eq(x.as_str(), y.as_str()),
            _ => false,
        },
        JsonValue::Array(xs) => match b {
            JsonValue::Array(ys) => {
                proof {
                    lemma_items_same(xs@, ys@);
                }
                if xs.len() != ys.len() {
                    return false;
                }
                let mut i: usize = 0;
                while i < xs.len()
                    invariant
                        i <= xs.len(),
                        xs.len() == ys.len(),
                        items_same(xs@, ys@) <==> forall|k: int|
                            0 <= k < xs@.len() ==> #[trigger] json_same(xs@[k], ys@[k]),
                        *a == JsonValue::Array(*xs),
                        *b == JsonValue::Array(*ys),
                        forall|k: int| 0 <= k < i ==> #[trigger] json_same(xs@[k], ys@[k]),
                    decreases xs.len() - i,
                {
                    proof {
                        assert(decreases_to!(*a => (*a)->Array_0));
                        assert(decreases_to!(*a => xs@[i as int]));
                    }
                    let same = json_equal(&xs[i], &ys[i]);
                    if !same {
                        assert(!json_same(xs@[i as int], ys@[i as int]));
                        return false;
                    }
                    i += 1;
                }
                true
            },
            _ => false,
        },
        JsonValue::Object(xs) => match b {
            JsonValue::Object(ys) => {
                proof {
                    lemma_members_same(xs@, ys@);
                }
                if xs.len() != ys.len() {
                    return false;
                }
                let mut i: usize = 0;
                while i < xs.len()
                    invariant
                        i <= xs.len(),
                        xs.len() == ys.len(),
                        members_same(xs@, ys@) <==> forall|k: int|
                            0 <= k < xs@.len() ==> #[trigger] member_same(xs@[k], ys@[k]),
                        *a == JsonValue::Object(*xs),
                        *b == JsonValue::Object(*ys),
                        forall|k: int| 0 <= k < i ==> #[trigger] member_same(xs@[k], ys@[k]),
                    decreases xs.len() - i,
                {
                    proof {
                        assert(decreases_to!(*a => (*a)->Object_0));
                        assert(decreases_to!(xs@[i as int] => xs@[i as int].1));
                        assert(decreases_to!(*a => xs@[i as int].1));
                    }
                    let key_x: &str = xs[i].0.as_str();
                    let key_y: &str = ys[i].0.as_str();
                    if !str_eq(key_x, key_y) {
                        assert(!member_same(xs@[i as int], ys@[i as int]));
                        return false;
                    }
                    let same = json_equal(&xs[i].1, &ys[i].1);
                    if !same {
                        assert(!member_same(xs@[i as int], ys@[i as int]));
                        return false;
                    }
                    assert(member_same(xs@[i as int], ys@[i as int]));
                    i += 1;
                }
                true
            },
            _ => false,
        },
    }
}

} // verus!
