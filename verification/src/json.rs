use vstd::prelude::*;

verus! {

/// An untyped JSON document: the shape the detail and download-link
/// responses are read through. Numbers are carried as the decimal text they
/// were written with, since the protocol only ever copies them into URLs.
pub enum Json {
    Null,
    Bool(bool),
    Num(String),
    Text(String),
    Arr(Vec<Json>),
    Obj(Vec<(String, Json)>),
}

/// The member of an object held under `key`, first binding wins; `None` on
/// anything that is not an object or has no such member.
pub open spec fn spec_obj_get(fields: Seq<(String, Json)>, key: Seq<char>) -> Option<Json>
    decreases fields.len(),
{
    if fields.len() == 0 {
        None
    } else if fields[0].0@ == key {
        Some(fields[0].1)
    } else {
        spec_obj_get(fields.subrange(1, fields.len() as int), key)
    }
}

/// The member of `j` under `key`, as `serde_json` resolves a key on a value:
/// only objects have members.
pub open spec fn spec_get(j: Json, key: Seq<char>) -> Option<Json> {
    match j {
        Json::Obj(fields) => spec_obj_get(fields@, key),
        _ => None,
    }
}

/// The element of `j` at `i`: only arrays have elements.
pub open spec fn spec_at(j: Json, i: int) -> Option<Json> {
    match j {
        Json::Arr(items) => if 0 <= i < items@.len() {
            Some(items@[i])
        } else {
            None
        },
        _ => None,
    }
}

/// The text a scalar identifier or URL field carries: the characters of a
/// string member, the decimal text of a numeric one, empty for the rest.
pub open spec fn spec_scalar_text(j: Json) -> Seq<char> {
    match j {
        Json::Text(s) => s@,
        Json::Num(s) => s@,
        _ => Seq::empty(),
    }
}

impl Json {
    /// The member under `key`, per `spec_get`.
    #[verifier::loop_isolation(false)]
    pub fn get<'a>(&'a self, key: &str) -> (r: Option<&'a Json>)
        ensures
            r is Some <==> spec_get(*self, key@) is Some,
            r matches Some(v) ==> Some(*v) == spec_get(*self, key@),
    {
        let k = String::from_str(key);
        match self {
            Json::Obj(fields) => {
                let mut i: usize = 0;
                proof {
                    assert(fields@.subrange(0, fields@.len() as int) =~= fields@);
                }
                while i < fields.len()
                    invariant
                        0 <= i <= fields@.len(),
                        k@ == key@,
                        spec_obj_get(fields@.subrange(i as int, fields@.len() as int), key@)
                            == spec_obj_get(fields@, key@),
                    decreases fields@.len() - i,
                {
                    proof {
                        let rest = fields@.subrange(i as int, fields@.len() as int);
                        assert(rest[0] == fields@[i as int]);
                        assert(rest.subrange(1, rest.len() as int) =~= fields@.subrange(
                            i + 1,
                            fields@.len() as int,
                        ));
                    }
                    if fields[i].0 == k {
                        proof {
                            let rest = fields@.subrange(i as int, fields@.len() as int);
                            assert(rest[0] == fields@[i as int]);
                            assert(spec_obj_get(rest, key@) == Some(rest[0].1));
                            assert(spec_get(*self, key@) == spec_obj_get(fields@, key@));
                        }
                        return Some(&fields[i].1);
                    }
                    i = i + 1;
                }
                proof {
                    assert(fields@.subrange(i as int, fields@.len() as int) =~= Seq::<(
                        String,
                        Json,
                    )>::empty());
                }
                None
            },
            _ => None,
        }
    }

    /// The element at `i`, per `spec_at`.
    pub fn at<'a>(&'a self, i: usize) -> (r: Option<&'a Json>)
        ensures
            r is Some <==> spec_at(*self, i as int) is Some,
            r matches Some(v) ==> Some(*v) == spec_at(*self, i as int),
    {
        match self {
            Json::Arr(items) => {
                if i < items.len() {
                    Some(&items[i])
                } else {
                    None
                }
            },
            _ => None,
        }
    }

    /// The scalar text of this value, per `spec_scalar_text`.
    pub fn scalar_text(&self) -> (r: String)
        ensures
            r@ == spec_scalar_text(*self),
    {
        match self {
            Json::Text(s) => s.clone(),
            Json::Num(s) => s.clone(),
            _ => String::new(),
        }
    }
}

/// What `serde_json::from_str::<serde_json::Value>` makes of a text, carried
/// over into this crate's document tree: `None` where the text is not a JSON
/// document.
pub uninterp spec fn json_parse(s: Seq<char>) -> Option<Json>;

#[verifier::external_type_specification]
#[verifier::external_body]
pub struct ExValue(serde_json::Value);

/// Relies on `serde_json::Value`: one arm per variant, fields carried over.
/// Numbers are carried as the decimal text `serde_json` renders them with,
/// booleans and nulls as themselves, arrays and objects member by member in
/// order.
#[verifier::external_body]
fn json_of_value(v: &serde_json::Value) -> Json {
    match v {
        serde_json::Value::Null => Json::Null,
        serde_json::Value::Bool(b) => Json::Bool(*b),
        serde_json::Value::Number(n) => Json::Num(n.to_string()),
        serde_json::Value::String(s) => Json::Text(s.clone()),
        serde_json::Value::Array(a) => Json::Arr(a.iter().map(json_of_value).collect()),
        serde_json::Value::Object(o) => Json::Obj(
            o.iter().map(|(k, x)| (k.clone(), json_of_value(x))).collect(),
        ),
    }
}

/// Relies on `serde_json::from_str`: the text parsed as one JSON document,
/// the same document for the same text every time, `None` where the text is
/// not valid JSON.
#[verifier::external_body]
pub fn parse_json(s: &str) -> (r: Option<Json>)
    ensures
        r == json_parse(s@),
{
    match serde_json::from_str::<serde_json::Value>(s) {
        Ok(v) => Some(json_of_value(&v)),
        Err(_) => None,
    }
}

} // verus!
