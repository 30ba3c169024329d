use vstd::prelude::*;

verus! {

/// A JSON value, held in the library's own types so that navigation over it
/// is verified. Object entries keep their order; keys are unique as produced
/// by the parser, and lookup takes the first entry with the given key.
pub enum JsonVal {
    Null,
    Bool(bool),
    /// A number, kept as its decimal text; this library never reads one.
    Num(String),
    Str(String),
    Arr(Vec<JsonVal>),
    Obj(Vec<(String, JsonVal)>),
}

/// The value under the first entry with the given key, if any.
pub open spec fn obj_lookup(entries: Seq<(String, JsonVal)>, key: Seq<char>) -> Option<JsonVal>
    decreases entries.len(),
{
    if entries.len() == 0 {
        None
    } else if entries[0].0@ == key {
        Some(entries[0].1)
    } else {
        obj_lookup(entries.drop_first(), key)
    }
}

/// Member access: defined only on objects.
pub open spec fn spec_member(v: JsonVal, key: Seq<char>) -> Option<JsonVal> {
    match v {
        JsonVal::Obj(entries) => obj_lookup(entries@, key),
        _ => None,
    }
}

/// Element access: defined only on arrays, within bounds.
pub open spec fn spec_elem(v: JsonVal, i: int) -> Option<JsonVal> {
    match v {
        JsonVal::Arr(items) => if 0 <= i < items@.len() {
            Some(items@[i])
        } else {
            None
        },
        _ => None,
    }
}

/// The characters of a string value; nothing of any other value.
pub open spec fn spec_str(v: JsonVal) -> Option<Seq<char>> {
    match v {
        JsonVal::Str(s) => Some(s@),
        _ => None,
    }
}

proof fn lemma_obj_lookup_hit(entries: Seq<(String, JsonVal)>, key: Seq<char>, i: int)
    requires
        0 <= i < entries.len(),
        entries[i].0@ == key,
        forall|k: int| 0 <= k < i ==> entries[k].0@ != key,
    ensures
        obj_lookup(entries, key) == Some(entries[i].1),
    decreases i,
{
    if i > 0 {
        lemma_obj_lookup_hit(entries.drop_first(), key, i - 1);
    }
}

proof fn lemma_obj_lookup_miss(entries: Seq<(String, JsonVal)>, key: Seq<char>)
    requires
        forall|k: int| 0 <= k < entries.len() ==> entries[k].0@ != key,
    ensures
        obj_lookup(entries, key) is None,
    decreases entries.len(),
{
    if entries.len() > 0 {
        lemma_obj_lookup_miss(entries.drop_first(), key);
    }
}

impl JsonVal {
    /// The value under `key`, when this value is an object that has it.
    pub fn member<'a>(&'a self, key: &str) -> (r: Option<&'a JsonVal>)
        ensures
            match r {
                Some(v) => spec_member(*self, key@) == Some(*v),
                None => spec_member(*self, key@) is None,
            },
    {
        match self {
            JsonVal::Obj(entries) => {
                let key_string = String::from_str(key);
                let n = entries.len();
                let mut idx: usize = 0;
                while idx < n
                    invariant
                        idx <= n,
                        n == entries@.len(),
                        forall|k: int| 0 <= k < idx ==> entries@[k].0@ != key@,
                        key_string@ == key@,
                        spec_member(*self, key@) == obj_lookup(entries@, key@),
                    decreases n - idx,
                {
                    if entries[idx].0 == key_string {
                        proof {
                            lemma_obj_lookup_hit(entries@, key@, idx as int);
                        }
                        return Some(&entries[idx].1);
                    }
                    idx += 1;
                }
                proof {
                    lemma_obj_lookup_miss(entries@, key@);
                }
                None
            },
            _ => None,
        }
    }

    /// The element at `i`, when this value is an array of more than `i` items.
    pub fn elem<'a>(&'a self, i: usize) -> (r: Option<&'a JsonVal>)
        ensures
            match r {
                Some(v) => spec_elem(*self, i as int) == Some(*v),
                None => spec_elem(*self, i as int) is None,
            },
    {
        match self {
            JsonVal::Arr(items) => {
                if i < items.len() {
                    Some(&items[i])
                } else {
                    None
                }
            },
            _ => None,
        }
    }

    /// The contents of a string value.
    pub fn str_value<'a>(&'a self) -> (r: Option<&'a str>)
        ensures
            match r {
                Some(s) => spec_str(*self) == Some(s@),
                None => spec_str(*self) is None,
            },
    {
        match self {
            JsonVal::Str(s) => Some(s.as_str()),
            _ => None,
        }
    }
}

/// json's own value type, declared opaquely so that the conversion below can
/// take it.
#[verifier::external_type_specification]
#[verifier::external_body]
pub struct ExJsonValue(json::JsonValue);

/// The value a text denotes as JSON, if it is well-formed: what json::parse
/// returns, carried into the library's own representation.
pub uninterp spec fn json_of(s: Seq<char>) -> Option<JsonVal>;

/// Relies on json::parse: whether a text is well-formed JSON, and the value
/// it denotes, depend on the text alone.
#[verifier::external_body]
pub(crate) fn parse_json(s: &str) -> (r: Option<JsonVal>)
    ensures
        r == json_of(s@),
{
    match json::parse(s) {
        Ok(v) => Some(from_json_value(&v)),
        Err(_) => None,
    }
}

/// Relies on json::JsonValue's variants: each arm moves one variant's fields
/// into the library's representation of the same value.
#[verifier::external_body]
fn from_json_value(v: &json::JsonValue) -> JsonVal {
    match v {
        json::JsonValue::Null => JsonVal::Null,
        json::JsonValue::Boolean(b) => JsonVal::Bool(*b),
        json::JsonValue::Number(n) => JsonVal::Num(n.to_string()),
        json::JsonValue::Short(s) => JsonVal::Str(s.as_str().to_string()),
        json::JsonValue::String(s) => JsonVal::Str(s.clone()),
        json::JsonValue::Array(items) => JsonVal::Arr(items.iter().map(from_json_value).collect()),
        json::JsonValue::Object(o) => JsonVal::Obj(
            o.iter().map(|(k, x)| (k.to_string(), from_json_value(x))).collect(),
        ),
    }
}

} // verus!
