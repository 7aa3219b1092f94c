use vstd::prelude::*;

verus! {

/// A JSON number, by the integer views the logic reads: the value as a `u64` and as an
/// `i64` where it has one (a fraction, or an integer out of range, has neither).
#[derive(Debug, Clone, Copy, PartialEq, Eq, Structural)]
pub struct JsonNumber {
    pub as_u64: Option<u64>,
    pub as_i64: Option<i64>,
}

/// A JSON document.
#[derive(Debug)]
pub enum JsonValue {
    Null,
    Bool(bool),
    Number(JsonNumber),
    String(String),
    Array(Vec<JsonValue>),
    Object(Vec<JsonMember>),
}

/// One member of a JSON object.
#[derive(Debug)]
pub struct JsonMember {
    pub key: String,
    pub value: JsonValue,
}

/// The value of the first member named `key`.
pub open spec fn member_value(members: Seq<JsonMember>, key: Seq<char>) -> Option<JsonValue>
    decreases members.len(),
{
    if members.len() == 0 {
        None
    } else if members[0].key@ == key {
        Some(members[0].value)
    } else {
        member_value(members.drop_first(), key)
    }
}

/// The member `key` of `v` when `v` is an object that has it.
pub open spec fn json_get(v: JsonValue, key: Seq<char>) -> Option<JsonValue> {
    match v {
        JsonValue::Object(members) => member_value(members@, key),
        _ => None,
    }
}

/// `json_get` on an optional value.
pub open spec fn json_get_opt(v: Option<JsonValue>, key: Seq<char>) -> Option<JsonValue> {
    match v {
        Some(v) => json_get(v, key),
        None => None,
    }
}

/// The text of a JSON string.
pub open spec fn json_str(v: Option<JsonValue>) -> Option<Seq<char>> {
    match v {
        Some(JsonValue::String(s)) => Some(s@),
        _ => None,
    }
}

/// A JSON number as a `u64`.
pub open spec fn json_u64(v: Option<JsonValue>) -> Option<u64> {
    match v {
        Some(JsonValue::Number(n)) => n.as_u64,
        _ => None,
    }
}

/// A JSON number as an `i64`.
pub open spec fn json_i64(v: Option<JsonValue>) -> Option<i64> {
    match v {
        Some(JsonValue::Number(n)) => n.as_i64,
        _ => None,
    }
}

/// A JSON boolean.
pub open spec fn json_bool(v: Option<JsonValue>) -> Option<bool> {
    match v {
        Some(JsonValue::Bool(b)) => Some(b),
        _ => None,
    }
}

/// `v` itself unless it is absent, then `fallback`.
pub open spec fn or_value(v: Option<JsonValue>, fallback: JsonValue) -> JsonValue {
    match v {
        Some(v) => v,
        None => fallback,
    }
}

proof fn lemma_member_value_skip(members: Seq<JsonMember>, key: Seq<char>, i: int)
    requires
        0 <= i <= members.len(),
        forall|k: int| 0 <= k < i ==> (#[trigger] members[k]).key@ != key,
    ensures
        member_value(members, key) == member_value(members.skip(i), key),
    decreases i,
{
    if i > 0 {
        assert(members[0].key@ != key);
        assert(members.drop_first().skip(i - 1) =~= members.skip(i));
        assert forall|k: int| 0 <= k < i - 1 implies (#[trigger] members.drop_first()[k]).key@ != key by {
            assert(members.drop_first()[k] == members[k + 1]);
        }
        lemma_member_value_skip(members.drop_first(), key, i - 1);
    } else {
        assert(members.skip(0) =~= members);
    }
}

impl JsonValue {
    /// The member `key`, when this is an object that has it.
    pub fn get(&self, key: &str) -> (r: Option<&JsonValue>)
        ensures
            match r {
                Some(x) => json_get(*self, key@) == Some(*x),
                None => json_get(*self, key@) is None,
            },
    {
        match self {
            JsonValue::Object(members) => {
                let mut i: usize = 0;
                while i < members.len()
                    invariant
                        i <= members@.len(),
                        *self == JsonValue::Object(*members),
                        forall|k: int| 0 <= k < i ==> (#[trigger] members@[k]).key@ != key@,
                    decreases members@.len() - i,
                {
                    if members[i].key == key.to_owned() {
                        proof {
                            lemma_member_value_skip(members@, key@, i as int);
                            assert(members@.skip(i as int)[0] == members@[i as int]);
                        }
                        return Some(&members[i].value);
                    }
                    i = i + 1;
                }
                proof {
                    lemma_member_value_skip(members@, key@, i as int);
                }
                None
            },
            _ => None,
        }
    }

    /// The text, when this is a string.
    pub fn as_str(&self) -> (r: Option<&String>)
        ensures
            match r {
                Some(s) => json_str(Some(*self)) == Some(s@),
                None => json_str(Some(*self)) is None,
            },
    {
        match self {
            JsonValue::String(s) => Some(s),
            _ => None,
        }
    }

    /// The number as a `u64`, when it is one.
    pub fn as_u64(&self) -> (r: Option<u64>)
        ensures
            r == json_u64(Some(*self)),
    {
        match self {
            JsonValue::Number(n) => n.as_u64,
            _ => None,
        }
    }

    /// The number as an `i64`, when it is one.
    pub fn as_i64(&self) -> (r: Option<i64>)
        ensures
            r == json_i64(Some(*self)),
    {
        match self {
            JsonValue::Number(n) => n.as_i64,
            _ => None,
        }
    }

    /// The boolean, when this is one.
    pub fn as_bool(&self) -> (r: Option<bool>)
        ensures
            r == json_bool(Some(*self)),
    {
        match self {
            JsonValue::Bool(b) => Some(*b),
            _ => None,
        }
    }

    /// Whether this is `null`.
    pub fn is_null(&self) -> (r: bool)
        ensures
            r == (*self is Null),
    {
        match self {
            JsonValue::Null => true,
            _ => false,
        }
    }
}

/// The member `key` of `v`, or nothing when `v` is absent.
pub fn get_opt<'a>(v: Option<&'a JsonValue>, key: &str) -> (r: Option<&'a JsonValue>)
    ensures
        match r {
            Some(x) => json_get_opt(opt_deref(v), key@) == Some(*x),
            None => json_get_opt(opt_deref(v), key@) is None,
        },
{
    match v {
        Some(v) => v.get(key),
        None => None,
    }
}

/// An optional reference as an optional value.
pub open spec fn opt_deref(v: Option<&JsonValue>) -> Option<JsonValue> {
    match v {
        Some(x) => Some(*x),
        None => None,
    }
}

/// The text of an optional value, when it is a string.
pub fn str_of(v: Option<&JsonValue>) -> (r: Option<&String>)
    ensures
        match r {
            Some(s) => json_str(opt_deref(v)) == Some(s@),
            None => json_str(opt_deref(v)) is None,
        },
{
    match v {
        Some(v) => v.as_str(),
        None => None,
    }
}

/// An optional value as a `u64`.
pub fn u64_of(v: Option<&JsonValue>) -> (r: Option<u64>)
    ensures
        r == json_u64(opt_deref(v)),
{
    match v {
        Some(v) => v.as_u64(),
        None => None,
    }
}

/// An optional value as an `i64`.
pub fn i64_of(v: Option<&JsonValue>) -> (r: Option<i64>)
    ensures
        r == json_i64(opt_deref(v)),
{
    match v {
        Some(v) => v.as_i64(),
        None => None,
    }
}

/// An optional value as a boolean.
pub fn bool_of(v: Option<&JsonValue>) -> (r: Option<bool>)
    ensures
        r == json_bool(opt_deref(v)),
{
    match v {
        Some(v) => v.as_bool(),
        None => None,
    }
}

} // verus!

verus! {

/// A `serde_json` document.
#[verifier::external_type_specification]
#[verifier::external_body]
pub struct ExSerdeValue(serde_json::Value);

/// What `serde_json::from_str` makes of a text, as a `JsonValue`: nothing when the text is
/// not one JSON document.
pub uninterp spec fn json_document(text: Seq<char>) -> Option<JsonValue>;

/// What `serde_json::to_string` writes for the document that `serde_json::from_str` reads
/// from a text (the text itself, should writing fail): its canonical form, by which the
/// same document is recognised however it was spaced.
pub uninterp spec fn json_canonical(text: Seq<char>) -> Option<Seq<char>>;

/// What `serde_json::from_slice` makes of bytes, as a `JsonValue`: nothing when they are
/// not one JSON document.
pub uninterp spec fn json_document_bytes(bytes: Seq<u8>) -> Option<JsonValue>;

/// A `serde_json` document as a `JsonValue`, member for member and item for item; a number
/// keeps its `u64` and `i64` readings (`Number::as_u64`, `Number::as_i64`). Nothing is
/// stated of it on its own: the parsers below state their results through their names.
#[verifier::external_body]
fn from_serde(value: &serde_json::Value) -> JsonValue {
    match value {
        serde_json::Value::Null => JsonValue::Null,
        serde_json::Value::Bool(b) => JsonValue::Bool(*b),
        serde_json::Value::Number(n) => JsonValue::Number(JsonNumber { as_u64: n.as_u64(), as_i64: n.as_i64() }),
        serde_json::Value::String(s) => JsonValue::String(s.clone()),
        serde_json::Value::Array(items) => JsonValue::Array(items.iter().map(from_serde).collect()),
        serde_json::Value::Object(map) => JsonValue::Object(
            map.iter().map(|(key, item)| JsonMember { key: key.clone(), value: from_serde(item) }).collect(),
        ),
    }
}

/// `serde_json::from_str` on a text, then `serde_json::to_string` of what it read (the
/// text itself when writing fails). Stated: a result exactly when the text is a JSON
/// document; the document is `json_document` of the text and the written form
/// `json_canonical` of it.
#[verifier::external_body]
pub(crate) fn parse_json_text(text: &str) -> (r: Option<(JsonValue, String)>)
    ensures
        r is Some <==> json_document(text@) is Some,
        r matches Some((v, f)) ==> Some(v) == json_document(text@) && Some(f@) == json_canonical(text@),
{
    match serde_json::from_str::<serde_json::Value>(text) {
        Ok(value) => Some((from_serde(&value), serde_json::to_string(&value).unwrap_or_else(|_| text.to_owned()))),
        Err(_) => None,
    }
}

/// `serde_json::from_slice` on bytes. Stated: the result is `json_document_bytes` of them.
#[verifier::external_body]
pub(crate) fn parse_json_bytes(bytes: &[u8]) -> (r: Option<JsonValue>)
    ensures
        r == json_document_bytes(bytes@),
{
    match serde_json::from_slice::<serde_json::Value>(bytes) {
        Ok(value) => Some(from_serde(&value)),
        Err(_) => None,
    }
}

/// What `serde_json::to_string` writes for the member `key` of the document that
/// `serde_json::from_str` reads from a text (for `null` when the member is missing).
pub uninterp spec fn json_member_text(text: Seq<char>, key: Seq<char>) -> Seq<char>;

/// `serde_json::from_str` on a text, `Value::get` of `key`, and `Value::to_string` of that
/// member (of `null` when the text is not JSON or has no such member). Stated: the result is
/// `json_member_text` of the text and the key.
#[verifier::external_body]
pub(crate) fn member_text(text: &str, key: &str) -> (r: String)
    ensures
        r@ == json_member_text(text@, key@),
{
    let value = serde_json::from_str::<serde_json::Value>(text).unwrap_or(serde_json::Value::Null);
    value.get(key).cloned().unwrap_or(serde_json::Value::Null).to_string()
}

/// The member `key` of `v`, or `null` when `v` has none.
pub open spec fn member_or_null(v: JsonValue, key: Seq<char>) -> JsonValue {
    match json_get(v, key) {
        Some(x) => x,
        None => JsonValue::Null,
    }
}

/// Takes the member `key` out of `v` (see `member_or_null`).
pub fn take_member(v: JsonValue, key: &str) -> (r: JsonValue)
    ensures
        r == member_or_null(v, key@),
{
    let ghost whole = v;
    match v {
        JsonValue::Object(mut members) => {
            let ghost all = members@;
            proof {
                assert(json_get(whole, key@) == member_value(all, key@));
            }
            let mut i: usize = 0;
            while i < members.len()
                invariant
                    i <= members@.len(),
                    members@ == all,
                    json_get(whole, key@) == member_value(all, key@),
                    whole == v,
                    forall|k: int| 0 <= k < i ==> (#[trigger] all[k]).key@ != key@,
                decreases members@.len() - i,
            {
                let name = crate::text::chars_of(members[i].key.as_str());
                if crate::text::chars_equal(&name, key) {
                    proof {
                        lemma_member_value_skip(all, key@, i as int);
                        assert(all.skip(i as int)[0] == all[i as int]);
                    }
                    let member = members.remove(i);
                    proof {
                        assert(member == all[i as int]);
                        assert(all.skip(i as int)[0].key@ == key@);
                        assert(member_value(all.skip(i as int), key@) == Some(all[i as int].value));
                    }
                    return member.value;
                }
                i = i + 1;
            }
            proof {
                lemma_member_value_skip(all, key@, i as int);
                assert(all.skip(i as int).len() == 0);
            }
            JsonValue::Null
        },
        _ => JsonValue::Null,
    }
}

} // verus!
