//! JSON documents.
use vstd::prelude::*;
use vstd::string::*;
use vstd::utf8::encode_utf8;
use crate::text::str_eq;

verus! {

/// A JSON value. Of several fields with one name the last counts.
#[derive(Debug, PartialEq, Eq)]
pub enum Json {
    /// `null`.
    Null,
    /// `true` or `false`.
    Bool(bool),
    /// An integer of zero or more.
    Unsigned(u64),
    /// An integer below zero.
    Negative(i64),
    /// Any other number, as it is written.
    Fraction(String),
    /// A string.
    Text(String),
    /// An array.
    List(Vec<Json>),
    /// An object.
    Fields(Vec<(String, Json)>),
}

/// What a [`Json`] value says.
pub enum JsonView {
    Null,
    Bool(bool),
    Unsigned(u64),
    Negative(i64),
    Fraction(Seq<char>),
    Text(Seq<char>),
    List(Seq<JsonView>),
    Fields(Map<Seq<char>, JsonView>),
}

/// What a value says.
pub open spec fn json_view(j: Json) -> JsonView
    decreases j,
{
    match j {
        Json::Null => JsonView::Null,
        Json::Bool(b) => JsonView::Bool(b),
        Json::Unsigned(n) => JsonView::Unsigned(n),
        Json::Negative(n) => JsonView::Negative(n),
        Json::Fraction(s) => JsonView::Fraction(s@),
        Json::Text(s) => JsonView::Text(s@),
        Json::List(v) => JsonView::List(list_view(v@)),
        Json::Fields(v) => JsonView::Fields(fields_view(v@)),
    }
}

/// What the values of a list say.
pub open spec fn list_view(v: Seq<Json>) -> Seq<JsonView>
    decreases v,
{
    if v.len() == 0 {
        Seq::empty()
    } else {
        list_view(v.drop_last()).push(json_view(v.last()))
    }
}

/// What the fields of an object say.
pub open spec fn fields_view(v: Seq<(String, Json)>) -> Map<Seq<char>, JsonView>
    decreases v,
{
    if v.len() == 0 {
        Map::empty()
    } else {
        fields_view(v.drop_last()).insert(v.last().0@, json_view(v.last().1))
    }
}

impl View for Json {
    type V = JsonView;

    open spec fn view(&self) -> JsonView {
        json_view(*self)
    }
}

#[verifier::external_type_specification]
#[verifier::external_body]
pub struct ExValue(serde_json::Value);

/// Converts a `serde_json::Value`, variant by variant.
#[verifier::external_body]
fn from_value(v: serde_json::Value) -> Json {
    match v {
        serde_json::Value::Null => Json::Null,
        serde_json::Value::Bool(b) => Json::Bool(b),
        serde_json::Value::Number(n) => match (n.as_u64(), n.as_i64()) {
            (Some(u), _) => Json::Unsigned(u),
            (None, Some(i)) => Json::Negative(i),
            (None, None) => Json::Fraction(n.to_string()),
        },
        serde_json::Value::String(s) => Json::Text(s),
        serde_json::Value::Array(a) => Json::List(a.into_iter().map(from_value).collect()),
        serde_json::Value::Object(m) => Json::Fields(m.into_iter().map(|(k, v)| (k, from_value(v))).collect()),
    }
}

/// What bytes are as a JSON document, or the message of the error they give.
pub uninterp spec fn json_document(data: Seq<u8>) -> std::result::Result<JsonView, Seq<char>>;

/// The compact text of a value.
pub uninterp spec fn json_text(j: JsonView) -> Seq<char>;

/// The indented text of a value.
pub uninterp spec fn json_pretty(j: JsonView) -> Seq<char>;

/// Whether a value holds no number but integers, and no more than `depth`
/// arrays and objects within each other.
pub open spec fn plain(j: JsonView, depth: nat) -> bool
    decreases depth,
{
    match j {
        JsonView::Negative(n) => n < 0,
        JsonView::Fraction(_) => false,
        JsonView::List(v) => depth > 0 && forall|i: int|
            0 <= i < v.len() ==> plain(#[trigger] v[i], (depth - 1) as nat),
        JsonView::Fields(m) => depth > 0 && m.dom().finite() && forall|k: Seq<char>|
            m.contains_key(k) ==> plain(#[trigger] m[k], (depth - 1) as nat),
        _ => true,
    }
}

/// Calls `serde_json::from_slice`: the value, or the message of the error, depends
/// on the bytes alone. What `serde_json` wrote for a value without fractions, not
/// nested deeper than its parser allows, it reads back as that value.
#[verifier::external_body]
pub(crate) fn parse_json(data: &[u8]) -> (r: std::result::Result<Json, String>)
    ensures
        match r {
            Ok(j) => json_document(data@) is Ok && json_document(data@)->Ok_0 == j@,
            Err(e) => json_document(data@) is Err && json_document(data@)->Err_0 == e@,
        },
        forall|j: JsonView|
            plain(j, 127) && data@ == encode_utf8(#[trigger] json_text(j)) ==> r is Ok
                && r->Ok_0@ == j,
{
    match serde_json::from_slice(data) {
        Ok(v) => Ok(from_value(v)),
        Err(e) => Err(e.to_string()),
    }
}

/// What a text is as a JSON array, or the message of the error it gives.
pub uninterp spec fn json_list_document(text: Seq<char>) -> std::result::Result<
    Seq<JsonView>,
    Seq<char>,
>;

/// Calls `serde_json::from_str` for a `Vec<serde_json::Value>`: the items, or the
/// message of the error, depend on the text alone. What `serde_json` wrote,
/// indented, for an array without fractions, not nested deeper than its parser
/// allows, it reads back as that array.
#[verifier::external_body]
pub(crate) fn parse_json_list(text: &str) -> (r: std::result::Result<Vec<Json>, String>)
    ensures
        match r {
            Ok(v) => json_list_document(text@) is Ok && json_list_document(text@)->Ok_0
                == list_view(v@),
            Err(e) => json_list_document(text@) is Err && json_list_document(text@)->Err_0 == e@,
        },
        forall|v: Seq<JsonView>|
            plain(JsonView::List(v), 127) && text@ == #[trigger] json_pretty(JsonView::List(v))
                ==> r is Ok && list_view(r->Ok_0@) == v,
{
    match serde_json::from_str::<Vec<serde_json::Value>>(text) {
        Ok(v) => Ok(v.into_iter().map(from_value).collect()),
        Err(e) => Err(e.to_string()),
    }
}

/// Converts to a `serde_json::Value`, variant by variant.
#[verifier::external_body]
fn to_value(j: &Json) -> serde_json::Value {
    match j {
        Json::Null => serde_json::Value::Null,
        Json::Bool(b) => serde_json::Value::Bool(*b),
        Json::Unsigned(n) => serde_json::Value::Number((*n).into()),
        Json::Negative(n) => serde_json::Value::Number((*n).into()),
        Json::Fraction(s) => serde_json::from_str(s).unwrap_or_default(),
        Json::Text(s) => serde_json::Value::String(s.clone()),
        Json::List(v) => serde_json::Value::Array(v.iter().map(to_value).collect()),
        Json::Fields(v) => serde_json::Value::Object(
            v.iter().map(|(k, j)| (k.clone(), to_value(j))).collect(),
        ),
    }
}

/// Calls `serde_json::Value`'s `Display`: the compact text depends on the value
/// alone.
#[verifier::external_body]
pub(crate) fn render_json(j: &Json) -> (r: String)
    ensures
        r@ == json_text(j@),
{
    to_value(j).to_string()
}

/// Calls `serde_json::to_string_pretty`: the indented text depends on the value
/// alone. The call fails only for a map with keys that are no texts, or a type
/// that refuses to be serialized; a `serde_json::Value` is neither.
#[verifier::external_body]
pub(crate) fn render_json_pretty(j: &Json) -> (r: std::result::Result<String, String>)
    ensures
        r is Ok,
        r->Ok_0@ == json_pretty(j@),
{
    serde_json::to_string_pretty(&to_value(j)).map_err(|e| e.to_string())
}

/// A field of a value: `null` where the value is no object or lacks the field.
pub open spec fn json_field(j: JsonView, key: Seq<char>) -> JsonView {
    match j {
        JsonView::Fields(m) => if m.contains_key(key) {
            m[key]
        } else {
            JsonView::Null
        },
        _ => JsonView::Null,
    }
}

/// Whether a value is an object with a field.
pub open spec fn json_has(j: JsonView, key: Seq<char>) -> bool {
    j is Fields && j->Fields_0.contains_key(key)
}

/// An item of an array value: `null` where the value is no array or too short.
pub open spec fn json_item(j: JsonView, i: int) -> JsonView {
    match j {
        JsonView::List(v) => if 0 <= i < v.len() {
            v[i]
        } else {
            JsonView::Null
        },
        _ => JsonView::Null,
    }
}

/// The text of a string value.
pub open spec fn json_str(j: JsonView) -> Option<Seq<char>> {
    match j {
        JsonView::Text(s) => Some(s),
        _ => None,
    }
}

/// The integer of a number value that fits 64 unsigned bits.
pub open spec fn json_u64(j: JsonView) -> Option<u64> {
    match j {
        JsonView::Unsigned(n) => Some(n),
        _ => None,
    }
}

/// The integer of a number value that fits 64 signed bits.
pub open spec fn json_i64(j: JsonView) -> Option<i64> {
    match j {
        JsonView::Unsigned(n) => if n <= i64::MAX {
            Some(n as i64)
        } else {
            None
        },
        JsonView::Negative(n) => Some(n),
        _ => None,
    }
}

/// The items of an array value, none for any other.
pub open spec fn json_items(j: JsonView) -> Seq<JsonView> {
    match j {
        JsonView::List(v) => v,
        _ => Seq::empty(),
    }
}

/// A list says what its items say.
pub proof fn list_view_items(v: Seq<Json>)
    ensures
        list_view(v).len() == v.len(),
        forall|i: int| 0 <= i < v.len() ==> #[trigger] list_view(v)[i] == v[i]@,
    decreases v.len(),
{
    if v.len() > 0 {
        list_view_items(v.drop_last());
        assert forall|i: int| 0 <= i < v.len() implies #[trigger] list_view(v)[i] == v[i]@ by {
            if i < v.len() - 1 {
                assert(v.drop_last()[i] == v[i]);
            }
        }
    }
}

impl Json {
    /// The value of a field, if this is an object that has it.
    pub fn get(&self, key: &str) -> (r: Option<&Json>)
        ensures
            r is Some == json_has(self@, key@),
            match r {
                Some(j) => j@ == json_field(self@, key@),
                None => json_field(self@, key@) == JsonView::Null,
            },
    {
        match self {
            Json::Fields(v) => {
                let mut i: usize = v.len();
                assert(v@.take(i as int) =~= v@);
                while i > 0
                    invariant
                        i <= v@.len(),
                        self@ == JsonView::Fields(fields_view(v@)),
                        json_field(JsonView::Fields(fields_view(v@)), key@) == json_field(
                            JsonView::Fields(fields_view(v@.take(i as int))),
                            key@,
                        ),
                        json_has(JsonView::Fields(fields_view(v@)), key@) == json_has(
                            JsonView::Fields(fields_view(v@.take(i as int))),
                            key@,
                        ),
                    decreases i,
                {
                    assert(v@.take(i as int).drop_last() =~= v@.take(i - 1));
                    assert(v@.take(i as int).last() == v@[i - 1]);
                    if str_eq(v[i - 1].0.as_str(), key) {
                        return Some(&v[i - 1].1);
                    }
                    i -= 1;
                }
                None
            },
            _ => None,
        }
    }

    /// The value of a field; `null` where this is no object or lacks the field.
    pub fn take(self, key: &str) -> (r: Json)
        ensures
            r@ == json_field(self@, key@),
    {
        match self {
            Json::Fields(fields) => {
                let ghost all = fields@;
                let mut v = fields;
                while v.len() > 0
                    invariant
                        json_field(JsonView::Fields(fields_view(all)), key@) == json_field(
                            JsonView::Fields(fields_view(v@)),
                            key@,
                        ),
                        self@ == JsonView::Fields(fields_view(all)),
                    decreases v@.len(),
                {
                    let ghost before = v@;
                    let last = v.pop();
                    assert(before.drop_last() =~= v@);
                    match last {
                        Some((k, j)) => {
                            if str_eq(k.as_str(), key) {
                                return j;
                            }
                        },
                        None => {},
                    }
                }
                Json::Null
            },
            _ => Json::Null,
        }
    }

    /// An item of an array, if this is an array that long.
    pub fn item(&self, i: usize) -> (r: Option<&Json>)
        ensures
            match r {
                Some(j) => j@ == json_item(self@, i as int),
                None => json_item(self@, i as int) == JsonView::Null,
            },
    {
        match self {
            Json::List(v) => {
                proof {
                    list_view_items(v@);
                }
                if i < v.len() {
                    Some(&v[i])
                } else {
                    None
                }
            },
            _ => None,
        }
    }

    /// The text of a string field, if there is one.
    pub fn str_field(&self, key: &str) -> (r: Option<&str>)
        ensures
            match r {
                Some(s) => json_str(json_field(self@, key@)) == Some(s@),
                None => json_str(json_field(self@, key@)) is None,
            },
    {
        match self.get(key) {
            Some(Json::Text(s)) => Some(s.as_str()),
            _ => None,
        }
    }

    /// The integer of a number field that fits 64 unsigned bits.
    pub fn u64_field(&self, key: &str) -> (r: Option<u64>)
        ensures
            r == json_u64(json_field(self@, key@)),
    {
        match self.get(key) {
            Some(Json::Unsigned(n)) => Some(*n),
            _ => None,
        }
    }

    /// The integer of a number field that fits 64 signed bits.
    pub fn i64_field(&self, key: &str) -> (r: Option<i64>)
        ensures
            r == json_i64(json_field(self@, key@)),
    {
        match self.get(key) {
            Some(Json::Unsigned(n)) => if *n <= 9223372036854775807u64 {
                Some(*n as i64)
            } else {
                None
            },
            Some(Json::Negative(n)) => Some(*n),
            _ => None,
        }
    }

    /// The value of a string.
    pub fn text(s: &str) -> (r: Json)
        ensures
            r@ == JsonView::Text(s@),
    {
        Json::Text(String::from_str(s))
    }

    /// An object with one field.
    pub fn object1(k: &str, v: Json) -> (r: Json)
        ensures
            r@ == JsonView::Fields(map![k@ => v@]),
    {
        let mut f: Vec<(String, Json)> = Vec::new();
        f.push((String::from_str(k), v));
        assert(f@.drop_last() =~= Seq::<(String, Json)>::empty());
        assert(fields_view(f@.drop_last()) =~= Map::empty());
        assert(fields_view(f@) =~= map![k@ => v@]);
        Json::Fields(f)
    }

    /// This object with one more field.
    pub fn with(self, k: &str, v: Json) -> (r: Json)
        requires
            self@ is Fields,
        ensures
            r@ == JsonView::Fields(self@->Fields_0.insert(k@, v@)),
    {
        match self {
            Json::Fields(f) => {
                let mut f = f;
                let ghost before = f@;
                f.push((String::from_str(k), v));
                assert(f@.drop_last() =~= before);
                Json::Fields(f)
            },
            other => other,
        }
    }

    /// An array of strings.
    pub fn texts(v: &Vec<String>) -> (r: Json)
        ensures
            r@ == JsonView::List(crate::types::texts(v@).map_values(|s: Seq<char>| JsonView::Text(s))),
    {
        let mut out: Vec<Json> = Vec::new();
        let mut i: usize = 0;
        while i < v.len()
            invariant
                i <= v@.len(),
                out@.len() == i,
                forall|k: int| 0 <= k < i ==> (#[trigger] out@[k])@ == JsonView::Text(v@[k]@),
            decreases v@.len() - i,
        {
            out.push(Json::Text(v[i].clone()));
            i += 1;
        }
        proof {
            list_view_items(out@);
        }
        assert(list_view(out@) =~= crate::types::texts(v@).map_values(
            |s: Seq<char>| JsonView::Text(s),
        ));
        Json::List(out)
    }
}

} // verus!
