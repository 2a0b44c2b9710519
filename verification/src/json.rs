//! JSON values as plain data.
use vstd::prelude::*;

verus! {

/// A JSON value. The members of an object stand in the order in which the parser hands them out,
/// each name once.
#[derive(Debug, PartialEq)]
pub enum Json {
    Null,
    Bool(bool),
    /// A number: its text, and its value where it is a whole number that a `u64` holds.
    Number(String, Option<u64>),
    Text(String),
    Array(Vec<Json>),
    Object(Vec<(String, Json)>),
}

/// What a JSON value holds.
pub enum JsonView {
    Null,
    Bool(bool),
    Number(Seq<char>, Option<u64>),
    Text(Seq<char>),
    Array(Seq<JsonView>),
    Object(Seq<(Seq<char>, JsonView)>),
}

/// What a JSON value holds.
pub open spec fn json_view(j: Json) -> JsonView
    decreases j,
{
    match j {
        Json::Null => JsonView::Null,
        Json::Bool(b) => JsonView::Bool(b),
        Json::Number(t, n) => JsonView::Number(t@, n),
        Json::Text(t) => JsonView::Text(t@),
        Json::Array(v) => JsonView::Array(
            Seq::new(
                v@.len(),
                |i: int|
                    if 0 <= i < v@.len() {
                        json_view(v@[i])
                    } else {
                        JsonView::Null
                    },
            ),
        ),
        Json::Object(v) => JsonView::Object(
            Seq::new(
                v@.len(),
                |i: int|
                    if 0 <= i < v@.len() {
                        (v@[i].0@, json_view(v@[i].1))
                    } else {
                        (Seq::empty(), JsonView::Null)
                    },
            ),
        ),
    }
}

impl DeepView for Json {
    type V = JsonView;

    open spec fn deep_view(&self) -> JsonView {
        json_view(*self)
    }
}

impl Clone for Json {
    fn clone(&self) -> (r: Self)
        ensures
            r.deep_view() == self.deep_view(),
        decreases self,
    {
        match self {
            Json::Null => Json::Null,
            Json::Bool(b) => Json::Bool(*b),
            Json::Number(t, n) => Json::Number(t.clone(), *n),
            Json::Text(t) => Json::Text(t.clone()),
            Json::Array(v) => {
                let mut out: Vec<Json> = Vec::new();
                let mut i: usize = 0;
                while i < v.len()
                    invariant
                        i <= v@.len(),
                        out@.len() == i,
                        self == Json::Array(*v),
                        forall|k: int|
                            0 <= k < i ==> json_view(#[trigger] out@[k]) == json_view(v@[k]),
                    decreases v@.len() - i,
                {
                    assert(decreases_to!(*self => self->Array_0));
                    assert(decreases_to!(v => v@));
                    assert(decreases_to!(v@ => v@[i as int]));
                    out.push(v[i].clone());
                    i = i + 1;
                }
                let r = Json::Array(out);
                assert(json_view(r)->Array_0 =~= json_view(*self)->Array_0);
                r
            },
            Json::Object(v) => {
                let mut out: Vec<(String, Json)> = Vec::new();
                let mut i: usize = 0;
                while i < v.len()
                    invariant
                        i <= v@.len(),
                        out@.len() == i,
                        self == Json::Object(*v),
                        forall|k: int|
                            0 <= k < i ==> (#[trigger] out@[k]).0@ == v@[k].0@ && json_view(out@[k].1)
                                == json_view(v@[k].1),
                    decreases v@.len() - i,
                {
                    assert(decreases_to!(*self => self->Object_0));
                    assert(decreases_to!(v => v@));
                    assert(decreases_to!(v@ => v@[i as int]));
                    assert(decreases_to!(v@[i as int] => v@[i as int].1));
                    out.push((v[i].0.clone(), v[i].1.clone()));
                    i = i + 1;
                }
                let r = Json::Object(out);
                assert(json_view(r)->Object_0 =~= json_view(*self)->Object_0);
                r
            },
        }
    }
}

/// The place of the first of `members` with the name `key`, or their number where none has it.
pub open spec fn member_place(members: Seq<(Seq<char>, JsonView)>, key: Seq<char>) -> int
    decreases members.len(),
{
    if members.len() == 0 || members[0].0 == key {
        0
    } else {
        1 + member_place(members.drop_first(), key)
    }
}

/// The member `key` of an object.
pub open spec fn member(v: JsonView, key: Seq<char>) -> Option<JsonView> {
    match v {
        JsonView::Object(members) => if member_place(members, key) < members.len() {
            Some(members[member_place(members, key)].1)
        } else {
            None
        },
        _ => None,
    }
}

/// The member `key` of an object, and `Null` where there is none.
pub open spec fn at(v: JsonView, key: Seq<char>) -> JsonView {
    match member(v, key) {
        Some(m) => m,
        None => JsonView::Null,
    }
}

/// The characters of a string value.
pub open spec fn text_in(v: JsonView) -> Option<Seq<char>> {
    match v {
        JsonView::Text(t) => Some(t),
        _ => None,
    }
}

/// The items of an array.
pub open spec fn items_in(v: JsonView) -> Option<Seq<JsonView>> {
    match v {
        JsonView::Array(items) => Some(items),
        _ => None,
    }
}

/// The value of a whole number that a `u64` holds.
pub open spec fn unsigned_in(v: JsonView) -> Option<u64> {
    match v {
        JsonView::Number(_, n) => n,
        _ => None,
    }
}

proof fn lemma_member_place(members: Seq<(Seq<char>, JsonView)>, key: Seq<char>, k: int)
    requires
        0 <= k <= members.len(),
        forall|j: int| 0 <= j < k ==> (#[trigger] members[j]).0 != key,
        k < members.len() ==> members[k].0 == key,
    ensures
        member_place(members, key) == k,
    decreases k,
{
    if k > 0 {
        assert(members[0].0 != key);
        lemma_member_place(members.drop_first(), key, k - 1);
    }
}

impl Json {
    /// The member `key` of an object.
    pub fn get(&self, key: &str) -> (r: Option<&Json>)
        ensures
            match r {
                Some(m) => member(self.deep_view(), key@) == Some(m.deep_view()),
                None => member(self.deep_view(), key@) is None,
            },
    {
        match self {
            Json::Object(v) => {
                let ghost members = self.deep_view()->Object_0;
                let mut i: usize = 0;
                while i < v.len()
                    invariant
                        i <= v@.len(),
                        *self == Json::Object(*v),
                        members == self.deep_view()->Object_0,
                        members.len() == v@.len(),
                        forall|j: int| 0 <= j < i ==> (#[trigger] members[j]).0 != key@,
                    decreases v@.len() - i,
                {
                    assert(members[i as int] == (v@[i as int].0@, json_view(v@[i as int].1)));
                    if crate::text::same(v[i].0.as_str(), key) {
                        proof {
                            lemma_member_place(members, key@, i as int);
                        }
                        return Some(&v[i].1);
                    }
                    i = i + 1;
                }
                proof {
                    lemma_member_place(members, key@, i as int);
                }
                None
            },
            _ => None,
        }
    }

    /// The characters of a string value.
    pub fn as_str(&self) -> (r: Option<&String>)
        ensures
            r.deep_view() == text_in(self.deep_view()),
    {
        match self {
            Json::Text(t) => Some(t),
            _ => None,
        }
    }

    /// The items of an array.
    pub fn as_array(&self) -> (r: Option<&Vec<Json>>)
        ensures
            match r {
                Some(v) => items_in(self.deep_view()) == Some(v.deep_view()),
                None => items_in(self.deep_view()) is None,
            },
    {
        match self {
            Json::Array(v) => {
                assert(self.deep_view()->Array_0 =~= v.deep_view());
                Some(v)
            },
            _ => None,
        }
    }

    /// Says whether the value is an object.
    pub fn is_object(&self) -> (r: bool)
        ensures
            r == (self.deep_view() is Object),
    {
        match self {
            Json::Object(_) => true,
            _ => false,
        }
    }

    /// The value of a whole number that a `u64` holds.
    pub fn as_u64(&self) -> (r: Option<u64>)
        ensures
            r == unsigned_in(self.deep_view()),
    {
        match self {
            Json::Number(_, n) => *n,
            _ => None,
        }
    }
}

/// The parser's account of what is wrong with a text.
#[verifier::external_type_specification]
#[verifier::external_body]
pub struct ExJsonError(serde_json::Error);

/// The parser's own form of a value.
#[verifier::external_type_specification]
#[verifier::external_body]
pub struct ExJsonValue(serde_json::Value);

/// The value that `serde_json::from_str` reads in a text, where the text is JSON.
pub uninterp spec fn json_of(text: Seq<char>) -> Option<JsonView>;

/// Moves a `serde_json::Value` into plain data, kind by kind: an array item by item, an object
/// member by member in the order of its map. Nothing is claimed of the result here.
#[verifier::external_body]
fn plain(value: serde_json::Value) -> Json {
    match value {
        serde_json::Value::Null => Json::Null,
        serde_json::Value::Bool(b) => Json::Bool(b),
        serde_json::Value::Number(n) => Json::Number(n.to_string(), n.as_u64()),
        serde_json::Value::String(s) => Json::Text(s),
        serde_json::Value::Array(v) => Json::Array(v.into_iter().map(|x| plain(x)).collect()),
        serde_json::Value::Object(m) => Json::Object(m.into_iter().map(|e| (e.0, plain(e.1))).collect()),
    }
}

/// `serde_json::from_str` into a `serde_json::Value`, which is then moved into plain data. Claimed
/// is that the outcome depends on the text alone; what a text's value is, `json_of` names.
#[verifier::external_body]
pub(crate) fn parse(text: &str) -> (r: Result<Json, serde_json::Error>)
    ensures
        match r {
            Ok(j) => json_of(text@) == Some(j.deep_view()),
            Err(_) => json_of(text@) is None,
        },
{
    serde_json::from_str::<serde_json::Value>(text).map(|v| plain(v))
}

} // verus!
