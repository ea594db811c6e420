//! A JSON document model the verified logic reads.
//!
//! Numbers are kept in their textual form; objects keep their fields in
//! order, and a lookup finds the first field with the key.

use vstd::prelude::*;

use crate::text::str_eq;

verus! {

/// A JSON value.
#[derive(Debug, PartialEq, Eq)]
pub enum JsonValue {
    Null,
    Bool(bool),
    /// A number, in its textual JSON form.
    Number(String),
    String(String),
    Array(Vec<JsonValue>),
    Object(Vec<(String, JsonValue)>),
}

/// The mathematical form of a JSON value.
pub enum JsonView {
    Null,
    Bool(bool),
    Number(Seq<char>),
    Str(Seq<char>),
    Array(Seq<JsonView>),
    Object(Seq<(Seq<char>, JsonView)>),
}

impl JsonValue {
    /// The mathematical form of this value.
    pub open spec fn view(&self) -> JsonView
        decreases self, 1int,
    {
        match self {
            JsonValue::Null => JsonView::Null,
            JsonValue::Bool(b) => JsonView::Bool(*b),
            JsonValue::Number(n) => JsonView::Number(n@),
            JsonValue::String(s) => JsonView::Str(s@),
            JsonValue::Array(items) => JsonView::Array(items_view(items@)),
            JsonValue::Object(fields) => JsonView::Object(fields_view(fields@)),
        }
    }
}

/// The views of a sequence of values.
pub open spec fn items_view(s: Seq<JsonValue>) -> Seq<JsonView>
    decreases s, 0int,
{
    if s.len() == 0 {
        Seq::empty()
    } else {
        items_view(s.drop_last()).push(s.last().view())
    }
}

/// The views of a sequence of object fields.
pub open spec fn fields_view(s: Seq<(String, JsonValue)>) -> Seq<(Seq<char>, JsonView)>
    decreases s, 0int,
{
    if s.len() == 0 {
        Seq::empty()
    } else {
        fields_view(s.drop_last()).push((s.last().0@, s.last().1.view()))
    }
}

/// The view of a sequence of items is taken item by item.
pub proof fn lemma_items_view(s: Seq<JsonValue>)
    ensures
        items_view(s).len() == s.len(),
        forall|i: int| 0 <= i < s.len() ==> #[trigger] items_view(s)[i] == s[i].view(),
    decreases s.len(),
{
    if s.len() > 0 {
        lemma_items_view(s.drop_last());
    }
}

/// The view of a sequence of fields is taken field by field.
pub proof fn lemma_fields_view(s: Seq<(String, JsonValue)>)
    ensures
        fields_view(s).len() == s.len(),
        forall|i: int|
            0 <= i < s.len() ==> #[trigger] fields_view(s)[i] == (s[i].0@, s[i].1.view()),
    decreases s.len(),
{
    if s.len() > 0 {
        lemma_fields_view(s.drop_last());
    }
}

/// The value of the first field named `key`, if any.
pub open spec fn field_spec(fields: Seq<(Seq<char>, JsonView)>, key: Seq<char>) -> Option<JsonView>
    decreases fields.len(),
{
    if fields.len() == 0 {
        None
    } else if fields[0].0 == key {
        Some(fields[0].1)
    } else {
        field_spec(fields.drop_first(), key)
    }
}

impl JsonView {
    /// `self[key]` when `self` is an object holding that key.
    pub open spec fn get(self, key: Seq<char>) -> Option<JsonView> {
        match self {
            JsonView::Object(fields) => field_spec(fields, key),
            _ => None,
        }
    }

    /// The string, when `self` is a JSON string.
    pub open spec fn as_str(self) -> Option<Seq<char>> {
        match self {
            JsonView::Str(s) => Some(s),
            _ => None,
        }
    }

    /// The string held under `key`, when `self` is an object and the field
    /// is a string.
    pub open spec fn get_str(self, key: Seq<char>) -> Option<Seq<char>> {
        match self.get(key) {
            Some(v) => v.as_str(),
            None => None,
        }
    }

    /// Whether `self` is an object with a field named `key`.
    pub open spec fn has_key(self, key: Seq<char>) -> bool {
        self.get(key) is Some
    }
}

impl JsonValue {
    /// The field named `key`, when `self` is an object.
    pub fn get(&self, key: &str) -> (r: Option<&JsonValue>)
        ensures
            match r {
                Some(v) => self.view().get(key@) == Some(v.view()),
                None => self.view().get(key@) is None,
            },
    {
        match self {
            JsonValue::Object(fields) => {
                proof {
                    lemma_fields_view(fields@);
                }
                let ghost fv = fields_view(fields@);
                let n = fields.len();
                let mut i: usize = 0;
                assert(fv.subrange(0, n as int) =~= fv);
                while i < n
                    invariant
                        n == fields@.len(),
                        fv == fields_view(fields@),
                        fv.len() == n,
                        forall|j: int|
                            0 <= j < n ==> #[trigger] fv[j] == (fields@[j].0@, fields@[j].1.view()),
                        self.view().get(key@) == field_spec(fv, key@),
                        i <= n,
                        field_spec(fv, key@) == field_spec(fv.subrange(i as int, n as int), key@),
                    decreases n - i,
                {
                    proof {
                        let rest = fv.subrange(i as int, n as int);
                        assert(rest.drop_first() =~= fv.subrange(i + 1, n as int));
                        assert(rest[0] == fv[i as int]);
                    }
                    if str_eq(fields[i].0.as_str(), key) {
                        return Some(&fields[i].1);
                    }
                    i = i + 1;
                }
                None
            },
            _ => None,
        }
    }

    /// The string, when `self` is a JSON string.
    pub fn as_str(&self) -> (r: Option<&str>)
        ensures
            match r {
                Some(s) => self.view().as_str() == Some(s@),
                None => self.view().as_str() is None,
            },
    {
        match self {
            JsonValue::String(s) => Some(s.as_str()),
            _ => None,
        }
    }

    /// The elements, when `self` is a JSON array.
    pub fn as_array(&self) -> (r: Option<&Vec<JsonValue>>)
        ensures
            match r {
                Some(a) => self.view() == JsonView::Array(items_view(a@)),
                None => !(self.view() is Array),
            },
    {
        match self {
            JsonValue::Array(a) => Some(a),
            _ => None,
        }
    }

    /// Whether `self` is a JSON object.
    pub fn is_object(&self) -> (r: bool)
        ensures
            r == (self.view() is Object),
    {
        matches!(self, JsonValue::Object(_))
    }

    /// The string held under `key`, when `self` is an object and the field
    /// is a string.
    pub fn get_str(&self, key: &str) -> (r: Option<&str>)
        ensures
            match r {
                Some(s) => self.view().get_str(key@) == Some(s@),
                None => self.view().get_str(key@) is None,
            },
    {
        match self.get(key) {
            Some(v) => v.as_str(),
            None => None,
        }
    }
}

/// A copy of `v`.
pub fn clone_json(v: &JsonValue) -> (r: JsonValue)
    ensures
        r.view() == v.view(),
    decreases v,
{
    match v {
        JsonValue::Null => JsonValue::Null,
        JsonValue::Bool(b) => JsonValue::Bool(*b),
        JsonValue::Number(n) => JsonValue::Number(n.clone()),
        JsonValue::String(s) => JsonValue::String(s.clone()),
        JsonValue::Array(items) => {
            let mut out: Vec<JsonValue> = Vec::new();
            let n = items.len();
            let mut i: usize = 0;
            while i < n
                invariant
                    n == items@.len(),
                    i <= n,
                    out@.len() == i,
                    forall|j: int| 0 <= j < i ==> #[trigger] out@[j].view() == items@[j].view(),
                    *v == JsonValue::Array(*items),
                decreases n - i,
            {
                assert(decreases_to!(*v => (*v)->Array_0));
                assert(decreases_to!(*items => items@));
                assert(decreases_to!(items@ => items@[i as int]));
                let c = clone_json(&items[i]);
                out.push(c);
                i = i + 1;
            }
            proof {
                lemma_items_view(out@);
                lemma_items_view(items@);
                assert(items_view(out@) =~= items_view(items@));
            }
            JsonValue::Array(out)
        },
        JsonValue::Object(fields) => {
            let mut out: Vec<(String, JsonValue)> = Vec::new();
            let n = fields.len();
            let mut i: usize = 0;
            while i < n
                invariant
                    n == fields@.len(),
                    i <= n,
                    out@.len() == i,
                    forall|j: int|
                        0 <= j < i ==> #[trigger] out@[j].0@ == fields@[j].0@ && out@[j].1.view()
                            == fields@[j].1.view(),
                    *v == JsonValue::Object(*fields),
                decreases n - i,
            {
                assert(decreases_to!(*v => (*v)->Object_0));
                assert(decreases_to!(*fields => fields@));
                assert(decreases_to!(fields@ => fields@[i as int]));
                assert(decreases_to!(fields@[i as int] => fields@[i as int].1));
                let c = clone_json(&fields[i].1);
                out.push((fields[i].0.clone(), c));
                i = i + 1;
            }
            proof {
                lemma_fields_view(out@);
                lemma_fields_view(fields@);
                assert(fields_view(out@) =~= fields_view(fields@));
            }
            JsonValue::Object(out)
        },
    }
}


/// The position of the first field named `key`, or -1.
pub open spec fn field_index(fields: Seq<(Seq<char>, JsonView)>, key: Seq<char>) -> int
    decreases fields.len(),
{
    if fields.len() == 0 {
        -1
    } else if fields[0].0 == key {
        0
    } else {
        let r = field_index(fields.drop_first(), key);
        if r < 0 {
            -1
        } else {
            r + 1
        }
    }
}

/// `field_index` is a position of `fields`, and `field_spec` reads it.
pub proof fn lemma_field_index(fields: Seq<(Seq<char>, JsonView)>, key: Seq<char>)
    ensures
        -1 <= field_index(fields, key) < fields.len(),
        field_index(fields, key) >= 0 ==> fields[field_index(fields, key)].0 == key
            && field_spec(fields, key) == Some(fields[field_index(fields, key)].1),
        field_index(fields, key) < 0 ==> field_spec(fields, key) is None,
    decreases fields.len(),
{
    if fields.len() > 0 {
        lemma_field_index(fields.drop_first(), key);
    }
}

impl JsonValue {
    /// The position of the first field named `key`, when `self` is an object
    /// holding that key.
    pub fn find_field(&self, key: &str) -> (r: Option<usize>)
        ensures
            match self {
                JsonValue::Object(fields) => match r {
                    Some(i) => i as int == field_index(fields_view(fields@), key@) && i
                        < fields@.len(),
                    None => field_index(fields_view(fields@), key@) < 0,
                },
                _ => r is None,
            },
    {
        match self {
            JsonValue::Object(fields) => {
                proof {
                    lemma_fields_view(fields@);
                }
                let ghost fv = fields_view(fields@);
                let n = fields.len();
                let mut i: usize = 0;
                while i < n
                    invariant
                        n == fields@.len(),
                        fv == fields_view(fields@),
                        fv.len() == n,
                        forall|j: int|
                            0 <= j < n ==> #[trigger] fv[j] == (fields@[j].0@, fields@[j].1.view()),
                        i <= n,
                        *self == JsonValue::Object(*fields),
                        forall|j: int| 0 <= j < i ==> fv[j].0 != key@,
                    decreases n - i,
                {
                    if str_eq(fields[i].0.as_str(), key) {
                        proof {
                            lemma_first_match(fv, key@, i as int);
                        }
                        return Some(i);
                    }
                    i = i + 1;
                }
                proof {
                    lemma_no_match(fv, key@);
                }
                None
            },
            _ => None,
        }
    }
}

proof fn lemma_first_match(fields: Seq<(Seq<char>, JsonView)>, key: Seq<char>, i: int)
    requires
        0 <= i < fields.len(),
        fields[i].0 == key,
        forall|j: int| 0 <= j < i ==> fields[j].0 != key,
    ensures
        field_index(fields, key) == i,
    decreases i,
{
    if i > 0 {
        lemma_first_match(fields.drop_first(), key, i - 1);
    }
}

proof fn lemma_no_match(fields: Seq<(Seq<char>, JsonView)>, key: Seq<char>)
    requires
        forall|j: int| 0 <= j < fields.len() ==> fields[j].0 != key,
    ensures
        field_index(fields, key) < 0,
    decreases fields.len(),
{
    if fields.len() > 0 {
        lemma_no_match(fields.drop_first(), key);
    }
}

/// Fields whose keys and value views are `expected`, one for one, have
/// `expected` as their view.
pub proof fn lemma_fields_match(f: Seq<(String, JsonValue)>, expected: Seq<(Seq<char>, JsonView)>)
    requires
        f.len() == expected.len(),
        forall|i: int| 0 <= i < f.len() ==> (#[trigger] f[i].0@, f[i].1.view()) == expected[i],
    ensures
        fields_view(f) == expected,
{
    lemma_fields_view(f);
    assert(fields_view(f) =~= expected);
}

/// `serde_json::Value`, carried through to its serializer.
#[verifier::external_type_specification]
#[verifier::external_body]
pub struct ExSerdeValue(serde_json::Value);

/// The `serde_json::Value` of a value, one for one; a number's text is read
/// with `serde_json::from_str` (text that is not a number gives `null`).
#[verifier::external_body]
fn serde_value_of(v: &JsonValue) -> serde_json::Value {
    match v {
        JsonValue::Null => serde_json::Value::Null,
        JsonValue::Bool(b) => serde_json::Value::Bool(*b),
        JsonValue::Number(t) => serde_json::from_str(t).unwrap_or(serde_json::Value::Null),
        JsonValue::String(s) => serde_json::Value::String(s.clone()),
        JsonValue::Array(a) => serde_json::Value::Array(a.iter().map(serde_value_of).collect()),
        JsonValue::Object(f) => serde_json::Value::Object(
            f.iter().map(|(k, x)| (k.clone(), serde_value_of(x))).collect(),
        ),
    }
}

/// What `serde_json::to_string` gives for the value `v`: its compact JSON
/// text. It depends on `v` alone.
pub uninterp spec fn json_value_text(v: JsonView) -> Seq<char>;

/// `serde_json::to_string` on the value (serializing a value does not fail).
#[verifier::external_body]
pub(crate) fn json_text(v: &JsonValue) -> (r: String)
    ensures
        r@ == json_value_text(v.view()),
{
    serde_json::to_string(&serde_value_of(v)).unwrap_or_default()
}

} // verus!
