//! An owned JSON value (what the service logs) and its mathematical model.
//!
//! Objects keep their entries in a vector; the functions here keep keys
//! unique the way a JSON map does (inserting an existing key replaces its value).

use vstd::prelude::*;
use crate::text::str_chars;

verus! {

broadcast use vstd::string::group_string_axioms;

/// Mathematical model of a JSON value.
pub enum JsonModel {
    Null,
    Bool(bool),
    /// The number's JSON text.
    Number(Seq<char>),
    Str(Seq<char>),
    Array(Seq<JsonModel>),
    Object(Seq<(Seq<char>, JsonModel)>),
}

/// An owned JSON value.
#[derive(Debug)]
pub enum JsonValue {
    Null,
    Bool(bool),
    /// The number's JSON text (for instance `200` or `1.5`).
    Number(String),
    Str(String),
    Array(Vec<JsonValue>),
    /// Entries of an object, in insertion order.
    Object(Vec<(String, JsonValue)>),
}

impl JsonValue {
    /// The model of this value.
    pub open spec fn model(self) -> JsonModel
        decreases self,
    {
        match self {
            JsonValue::Null => JsonModel::Null,
            JsonValue::Bool(b) => JsonModel::Bool(b),
            JsonValue::Number(n) => JsonModel::Number(n@),
            JsonValue::Str(s) => JsonModel::Str(s@),
            JsonValue::Array(a) => JsonModel::Array(
                Seq::new(
                    a@.len(),
                    |i: int|
                        if 0 <= i < a@.len() {
                            a@[i].model()
                        } else {
                            JsonModel::Null
                        },
                ),
            ),
            JsonValue::Object(es) => JsonModel::Object(
                Seq::new(
                    es@.len(),
                    |i: int|
                        if 0 <= i < es@.len() {
                            (es@[i].0@, es@[i].1.model())
                        } else {
                            (Seq::empty(), JsonModel::Null)
                        },
                ),
            ),
        }
    }
}

/// Model of a sequence of entries.
pub open spec fn entries_model(es: Seq<(String, JsonValue)>) -> Seq<(Seq<char>, JsonModel)> {
    Seq::new(es.len(), |i: int| (es[i].0@, es[i].1.model()))
}

/// Model of a sequence of values.
pub open spec fn values_model(a: Seq<JsonValue>) -> Seq<JsonModel> {
    Seq::new(a.len(), |i: int| a[i].model())
}

pub proof fn lemma_object_model(es: Vec<(String, JsonValue)>)
    ensures
        JsonValue::Object(es).model() == JsonModel::Object(entries_model(es@)),
{
    assert(JsonValue::Object(es).model()->Object_0 =~= entries_model(es@));
}

pub proof fn lemma_array_model(a: Vec<JsonValue>)
    ensures
        JsonValue::Array(a).model() == JsonModel::Array(values_model(a@)),
{
    assert(JsonValue::Array(a).model()->Array_0 =~= values_model(a@));
}

/// Index of the first entry whose key is `k`, if any.
pub open spec fn find_key(es: Seq<(Seq<char>, JsonModel)>, k: Seq<char>) -> Option<int>
    decreases es.len(),
{
    if es.len() == 0 {
        None
    } else if es[0].0 == k {
        Some(0)
    } else {
        match find_key(es.drop_first(), k) {
            Some(i) => Some(i + 1),
            None => None,
        }
    }
}

/// The value stored under `k`, as a JSON map lookup gives it.
pub open spec fn lookup(es: Seq<(Seq<char>, JsonModel)>, k: Seq<char>) -> Option<JsonModel> {
    match find_key(es, k) {
        Some(i) => Some(es[i].1),
        None => None,
    }
}

/// `es` after inserting `v` under `k`: an existing entry is replaced in place,
/// otherwise the entry is appended.
pub open spec fn insert_entry(es: Seq<(Seq<char>, JsonModel)>, k: Seq<char>, v: JsonModel) -> Seq<
    (Seq<char>, JsonModel),
> {
    match find_key(es, k) {
        Some(i) => es.update(i, (k, v)),
        None => es.push((k, v)),
    }
}

/// No key occurs twice.
pub open spec fn keys_unique(es: Seq<(Seq<char>, JsonModel)>) -> bool {
    forall|i: int, j: int| 0 <= i < j < es.len() ==> es[i].0 != es[j].0
}

/// `find_key` gives the first index holding `k`.
pub proof fn lemma_find_key_first(es: Seq<(Seq<char>, JsonModel)>, k: Seq<char>, i: int)
    requires
        0 <= i < es.len(),
        es[i].0 == k,
        forall|j: int| 0 <= j < i ==> es[j].0 != k,
    ensures
        find_key(es, k) == Some(i),
    decreases i,
{
    if i > 0 {
        assert forall|j: int| 0 <= j < i - 1 implies es.drop_first()[j].0 != k by {
            assert(es.drop_first()[j] == es[j + 1]);
        }
        lemma_find_key_first(es.drop_first(), k, i - 1);
    }
}

/// `find_key` finds nothing when no entry holds `k`.
pub proof fn lemma_find_key_none(es: Seq<(Seq<char>, JsonModel)>, k: Seq<char>)
    requires
        forall|j: int| 0 <= j < es.len() ==> es[j].0 != k,
    ensures
        find_key(es, k) is None,
    decreases es.len(),
{
    if es.len() > 0 {
        assert forall|j: int| 0 <= j < es.len() - 1 implies es.drop_first()[j].0 != k by {
            assert(es.drop_first()[j] == es[j + 1]);
        }
        lemma_find_key_none(es.drop_first(), k);
    }
}

/// What `find_key` gives, described by indices.
pub proof fn lemma_find_key(es: Seq<(Seq<char>, JsonModel)>, k: Seq<char>)
    ensures
        match find_key(es, k) {
            Some(i) => 0 <= i < es.len() && es[i].0 == k && forall|j: int|
                0 <= j < i ==> es[j].0 != k,
            None => forall|j: int| 0 <= j < es.len() ==> es[j].0 != k,
        },
    decreases es.len(),
{
    if es.len() > 0 && es[0].0 != k {
        lemma_find_key(es.drop_first(), k);
        match find_key(es.drop_first(), k) {
            Some(i) => {
                assert forall|j: int| 0 <= j < i + 1 implies es[j].0 != k by {
                    if j > 0 {
                        assert(es[j] == es.drop_first()[j - 1]);
                    }
                }
            },
            None => {
                assert forall|j: int| 0 <= j < es.len() implies es[j].0 != k by {
                    if j > 0 {
                        assert(es[j] == es.drop_first()[j - 1]);
                    }
                }
            },
        }
    }
}

/// Inserting into a map: the inserted key reads back the inserted value, every
/// other key reads back what it read before, and keys stay unique.
pub proof fn lemma_insert_entry(
    es: Seq<(Seq<char>, JsonModel)>,
    k: Seq<char>,
    v: JsonModel,
    other: Seq<char>,
)
    requires
        keys_unique(es),
    ensures
        keys_unique(insert_entry(es, k, v)),
        lookup(insert_entry(es, k, v), k) == Some(v),
        other != k ==> lookup(insert_entry(es, k, v), other) == lookup(es, other),
{
    let r = insert_entry(es, k, v);
    lemma_find_key(es, k);
    lemma_find_key(es, other);
    match find_key(es, k) {
        Some(i) => {
            assert forall|j: int| 0 <= j < i implies r[j].0 != k by {
                assert(r[j] == es[j]);
            }
            lemma_find_key_first(r, k, i);
            if other != k {
                match find_key(es, other) {
                    Some(j) => {
                        assert forall|l: int| 0 <= l < j implies r[l].0 != other by {
                            assert(r[l].0 == es[l].0 || l == i);
                        }
                        lemma_find_key_first(r, other, j);
                    },
                    None => {
                        assert forall|l: int| 0 <= l < r.len() implies r[l].0 != other by {
                            assert(r[l].0 == es[l].0 || l == i);
                        }
                        lemma_find_key_none(r, other);
                    },
                }
            }
            assert forall|a: int, b: int| 0 <= a < b < r.len() implies r[a].0 != r[b].0 by {
                if a != i && b != i {
                    assert(r[a] == es[a] && r[b] == es[b]);
                } else if a == i {
                    assert(r[b] == es[b]);
                    assert(es[i].0 == k);
                } else {
                    assert(r[a] == es[a]);
                    assert(es[i].0 == k);
                }
            }
        },
        None => {
            let n = es.len() as int;
            assert forall|j: int| 0 <= j < n implies r[j].0 != k by {
                assert(r[j] == es[j]);
            }
            lemma_find_key_first(r, k, n);
            if other != k {
                match find_key(es, other) {
                    Some(j) => {
                        assert forall|l: int| 0 <= l < j implies r[l].0 != other by {
                            assert(r[l] == es[l]);
                        }
                        lemma_find_key_first(r, other, j);
                    },
                    None => {
                        assert forall|l: int| 0 <= l < r.len() implies r[l].0 != other by {
                            if l < n {
                                assert(r[l] == es[l]);
                            }
                        }
                        lemma_find_key_none(r, other);
                    },
                }
            }
            assert forall|a: int, b: int| 0 <= a < b < r.len() implies r[a].0 != r[b].0 by {
                assert(r[a] == es[a]);
                if b < n {
                    assert(r[b] == es[b]);
                }
            }
        },
    }
}

impl JsonValue {
    /// A JSON string.
    pub fn string(s: &str) -> (r: JsonValue)
        ensures
            r.model() == JsonModel::Str(s@),
    {
        JsonValue::Str(s.to_owned())
    }

    /// An empty JSON object.
    pub fn new_object() -> (r: JsonValue)
        ensures
            r.model() == JsonModel::Object(Seq::empty()),
    {
        let es: Vec<(String, JsonValue)> = Vec::new();
        proof {
            lemma_object_model(es);
            assert(entries_model(es@) =~= Seq::<(Seq<char>, JsonModel)>::empty());
        }
        JsonValue::Object(es)
    }

    /// The string, if this is a JSON string.
    pub fn as_str(&self) -> (r: Option<&str>)
        ensures
            match self.model() {
                JsonModel::Str(s) => r matches Some(t) && t@ == s,
                _ => r is None,
            },
    {
        match self {
            JsonValue::Str(s) => Some(s.as_str()),
            _ => None,
        }
    }

    /// Whether this is JSON `null`.
    pub fn is_null(&self) -> (r: bool)
        ensures
            r == (self.model() == JsonModel::Null),
    {
        match self {
            JsonValue::Null => true,
            _ => {
                assert(self.model() != JsonModel::Null);
                false
            },
        }
    }

    /// The value stored under `key`, if this is an object that has it.
    pub fn get(&self, key: &str) -> (r: Option<&JsonValue>)
        ensures
            match self.model() {
                JsonModel::Object(es) => match lookup(es, key@) {
                    Some(m) => r matches Some(v) && v.model() == m,
                    None => r is None,
                },
                _ => r is None,
            },
    {
        match self {
            JsonValue::Object(es) => {
                proof {
                    lemma_object_model(*es);
                }
                let ghost m = entries_model(es@);
                let mut i: usize = 0;
                while i < es.len()
                    invariant
                        i <= es.len(),
                        m == entries_model(es@),
                        self.model() == JsonModel::Object(m),
                        forall|j: int| 0 <= j < i ==> m[j].0 != key@,
                    decreases es.len() - i,
                {
                    if str_eq(es[i].0.as_str(), key) {
                        proof {
                            lemma_find_key_first(m, key@, i as int);
                            assert(m[i as int].1 == es@[i as int].1.model());
                        }
                        return Some(&es[i].1);
                    }
                    i = i + 1;
                }
                proof {
                    lemma_find_key_none(m, key@);
                }
                None
            },
            _ => None,
        }
    }
}

/// The model of an optional value.
pub open spec fn option_model(v: Option<JsonValue>) -> Option<JsonModel> {
    match v {
        Some(x) => Some(x.model()),
        None => None,
    }
}

#[verifier::external_type_specification]
#[verifier::external_body]
pub struct ExSerdeJsonValue(serde_json::Value);

/// What `serde_json::from_slice::<serde_json::Value>` makes of `bytes`: the value it
/// parses (numbers as `serde_json` prints them, object entries in the parsed map's order), or
/// `None` when the bytes are not one JSON text.
pub uninterp spec fn json_parse(bytes: Seq<u8>) -> Option<JsonModel>;

/// Copies a `serde_json::Value` into a `JsonValue`, variant by variant. Nothing is
/// claimed of the copy here; the wrappers that call it state what they give.
#[verifier::external_body]
pub(crate) fn value_from_serde(v: serde_json::Value) -> JsonValue {
    match v {
        serde_json::Value::Null => JsonValue::Null,
        serde_json::Value::Bool(b) => JsonValue::Bool(b),
        serde_json::Value::Number(n) => JsonValue::Number(n.to_string()),
        serde_json::Value::String(s) => JsonValue::Str(s),
        serde_json::Value::Array(a) => JsonValue::Array(a.into_iter().map(value_from_serde).collect()),
        serde_json::Value::Object(m) => JsonValue::Object(
            m.into_iter().map(|(k, x)| (k, value_from_serde(x))).collect(),
        ),
    }
}

/// Calls `serde_json::from_slice::<serde_json::Value>` and copies the result out
/// (`None` on a parse error). Claims that the result is the named function of the bytes.
#[verifier::external_body]
pub(crate) fn parse_json(bytes: &[u8]) -> (r: Option<JsonValue>)
    ensures
        option_model(r) == json_parse(bytes@),
{
    serde_json::from_slice::<serde_json::Value>(bytes).ok().map(value_from_serde)
}

/// The members of the JSON object that `text` is, in order and with repeated keys kept
/// (each value parsed by `serde_json`), or `None` when `text` is not one JSON object.
pub uninterp spec fn json_object_entries(text: Seq<char>) -> Option<Seq<(Seq<char>, JsonModel)>>;

/// The model of optional object members.
pub open spec fn option_entries_model(v: Option<Vec<(String, JsonValue)>>) -> Option<
    Seq<(Seq<char>, JsonModel)>,
> {
    match v {
        Some(es) => Some(entries_model(es@)),
        None => None,
    }
}

/// Reads `text` as a JSON object with `serde_with`'s `Map` adapter on a `serde_json`
/// deserializer, which keeps every member in order, repeated keys too, and copies the
/// members out. Claims that the result is the named function of the text.
#[verifier::external_body]
pub(crate) fn parse_json_object_entries(text: &str) -> (r: Option<Vec<(String, JsonValue)>>)
    ensures
        option_entries_model(r) == json_object_entries(text@),
{
    let mut de = serde_json::Deserializer::from_str(text);
    let members: Vec<(String, serde_json::Value)> =
        serde_with::As::<serde_with::Map<serde_with::Same, serde_with::Same>>::deserialize(&mut de).ok()?;
    de.end().ok()?;
    Some(members.into_iter().map(|(k, v)| (k, value_from_serde(v))).collect())
}

/// The value of the one member under `k`, or `None` when `k` is missing or repeated.
pub open spec fn sole_value(es: Seq<(Seq<char>, JsonModel)>, k: Seq<char>) -> Option<JsonModel> {
    if exists|i: int| is_sole_key(es, k, i) {
        Some(es[choose|i: int| is_sole_key(es, k, i)].1)
    } else {
        None
    }
}

/// Member `i` is the only one under `k`.
pub open spec fn is_sole_key(es: Seq<(Seq<char>, JsonModel)>, k: Seq<char>, i: int) -> bool {
    &&& 0 <= i < es.len()
    &&& es[i].0 == k
    &&& forall|j: int| 0 <= j < es.len() && j != i ==> es[j].0 != k
}

/// The value of the one member of `es` under `k`; `None` when `k` is missing or repeated.
pub fn sole_entry<'a>(es: &'a Vec<(String, JsonValue)>, k: &str) -> (r: Option<&'a JsonValue>)
    ensures
        match sole_value(entries_model(es@), k@) {
            Some(m) => r matches Some(v) && v.model() == m,
            None => r is None,
        },
{
    let ghost m = entries_model(es@);
    let mut found: Option<usize> = None;
    let mut i: usize = 0;
    while i < es.len()
        invariant
            i <= es.len(),
            m == entries_model(es@),
            match found {
                None => forall|j: int| 0 <= j < i ==> m[j].0 != k@,
                Some(f) => f < i && m[f as int].0 == k@ && forall|j: int|
                    0 <= j < i && j != f ==> m[j].0 != k@,
            },
        decreases es.len() - i,
    {
        if str_eq(es[i].0.as_str(), k) {
            match found {
                Some(f) => {
                    proof {
                        assert(m[i as int].0 == k@);
                        assert forall|x: int| !is_sole_key(m, k@, x) by {
                            if is_sole_key(m, k@, x) {
                                if x == f as int {
                                    assert(m[i as int].0 != k@);
                                } else {
                                    assert(m[f as int].0 != k@);
                                }
                            }
                        }
                    }
                    return None;
                },
                None => {
                    found = Some(i);
                },
            }
        }
        i = i + 1;
    }
    match found {
        Some(f) => {
            proof {
                assert(is_sole_key(m, k@, f as int));
                let c = choose|x: int| is_sole_key(m, k@, x);
                assert(c == f as int);
            }
            Some(&es[f].1)
        },
        None => {
            proof {
                assert forall|x: int| !is_sole_key(m, k@, x) by {
                    if 0 <= x < m.len() {
                        assert(m[x].0 != k@);
                    }
                }
            }
            None
        },
    }
}

/// Copies a `JsonValue` into a `serde_json::Value`, variant by variant; a number whose
/// text is not a JSON number becomes `null`. Nothing is claimed of the copy here;
/// `to_json_text` states what the copy and the serialization give.
#[verifier::external_body]
fn value_to_serde(v: &JsonValue) -> serde_json::Value {
    match v {
        JsonValue::Null => serde_json::Value::Null,
        JsonValue::Bool(b) => serde_json::Value::Bool(*b),
        JsonValue::Number(n) => n.parse::<serde_json::Number>().map(serde_json::Value::Number).unwrap_or(serde_json::Value::Null),
        JsonValue::Str(s) => serde_json::Value::String(s.clone()),
        JsonValue::Array(a) => serde_json::Value::Array(a.iter().map(value_to_serde).collect()),
        JsonValue::Object(es) => serde_json::Value::Object(es.iter().map(|(k, x)| (k.clone(), value_to_serde(x))).collect()),
    }
}

/// The compact JSON text that `serde_json::to_string` writes for `value` (a number whose
/// text is not a JSON number is written as `null`).
pub uninterp spec fn json_text(value: JsonModel) -> Seq<char>;

/// Calls `serde_json::to_string` on the value. Claims that the text is the named function
/// of the value. Serializing a `serde_json::Value` does not fail (its map keys are strings).
#[verifier::external_body]
pub(crate) fn to_json_text(v: &JsonValue) -> (r: String)
    ensures
        r@ == json_text(v.model()),
{
    serde_json::to_string(&value_to_serde(v)).unwrap_or_default()
}

/// `a` and `b` hold the same characters.
pub fn str_eq(a: &str, b: &str) -> (r: bool)
    ensures
        r == (a@ == b@),
{
    let x = str_chars(a);
    let y = str_chars(b);
    if x.len() != y.len() {
        return false;
    }
    let mut i: usize = 0;
    while i < x.len()
        invariant
            i <= x.len() == y.len(),
            x@ == a@,
            y@ == b@,
            forall|k: int| 0 <= k < i ==> x@[k] == y@[k],
        decreases x.len() - i,
    {
        if x[i] != y[i] {
            return false;
        }
        i = i + 1;
    }
    assert(x@ =~= y@);
    true
}

/// Inserts `v` under `k` into the object entries `es`, as a JSON map insert does.
pub fn object_insert(es: &mut Vec<(String, JsonValue)>, k: String, v: JsonValue)
    ensures
        entries_model(final(es)@) == insert_entry(entries_model(old(es)@), k@, v.model()),
{
    let ghost m = entries_model(es@);
    let ghost km = k@;
    let ghost vm = v.model();
    let mut i: usize = 0;
    while i < es.len()
        invariant
            i <= es.len(),
            m == entries_model(es@),
            m == entries_model(old(es)@),
            km == k@,
            vm == v.model(),
            forall|j: int| 0 <= j < i ==> m[j].0 != km,
        decreases es.len() - i,
    {
        if str_eq(es[i].0.as_str(), k.as_str()) {
            proof {
                lemma_find_key_first(m, km, i as int);
            }
            es.set(i, (k, v));
            assert(entries_model(es@) =~= m.update(i as int, (km, vm)));
            return ;
        }
        i = i + 1;
    }
    proof {
        lemma_find_key_none(m, km);
    }
    es.push((k, v));
    assert(entries_model(es@) =~= m.push((km, vm)));
}

} // verus!
