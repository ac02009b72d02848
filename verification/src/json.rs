//! A plain model of JSON values, as the library reads and builds them.
use vstd::prelude::*;
use crate::text::str_eq;

verus! {

/// A JSON value. Object members keep the order in which they were given.
#[derive(Debug, PartialEq)]
pub enum Json {
    Null,
    Bool(bool),
    /// A non-negative integer that fits in `u64`.
    UInt(u64),
    /// A negative integer that fits in `i64`.
    NegInt(i64),
    /// Any other number, kept as its decimal text.
    Float(String),
    Str(String),
    Arr(Vec<Json>),
    Obj(Vec<(String, Json)>),
}

/// The mathematical value of a `Json`.
pub enum JsonV {
    Null,
    Bool(bool),
    UInt(u64),
    NegInt(i64),
    Float(Seq<char>),
    Str(Seq<char>),
    Arr(Seq<JsonV>),
    Obj(Seq<(Seq<char>, JsonV)>),
}

pub open spec fn json_view(j: Json) -> JsonV
    decreases j, 1nat,
{
    match j {
        Json::Null => JsonV::Null,
        Json::Bool(b) => JsonV::Bool(b),
        Json::UInt(n) => JsonV::UInt(n),
        Json::NegInt(n) => JsonV::NegInt(n),
        Json::Float(s) => JsonV::Float(s@),
        Json::Str(s) => JsonV::Str(s@),
        Json::Arr(v) => {
            proof {
                assert(decreases_to!(v => v@));
            }
            JsonV::Arr(arr_view(v@))
        },
        Json::Obj(v) => {
            proof {
                assert(decreases_to!(v => v@));
            }
            JsonV::Obj(obj_view(v@))
        },
    }
}

/// The values of a sequence of JSON values.
pub open spec fn arr_view(s: Seq<Json>) -> Seq<JsonV>
    decreases s, 0nat,
{
    Seq::new(s.len(), |i: int| if 0 <= i < s.len() { json_view(s[i]) } else { JsonV::Null })
}

/// The values of a sequence of object members.
pub open spec fn obj_view(s: Seq<(String, Json)>) -> Seq<(Seq<char>, JsonV)>
    decreases s, 0nat,
{
    Seq::new(
        s.len(),
        |i: int|
            if 0 <= i < s.len() {
                (s[i].0@, json_view(s[i].1))
            } else {
                (Seq::empty(), JsonV::Null)
            },
    )
}

impl View for Json {
    type V = JsonV;

    open spec fn view(&self) -> JsonV {
        json_view(*self)
    }
}


/// The value of the first member of `m` named `k`.
pub open spec fn member_of(m: Seq<(Seq<char>, JsonV)>, k: Seq<char>) -> Option<JsonV>
    decreases m.len(),
{
    if m.len() == 0 {
        None
    } else if m[0].0 == k {
        Some(m[0].1)
    } else {
        member_of(m.drop_first(), k)
    }
}

/// The member named `k` is the first one with that name.
pub proof fn lemma_member_at(m: Seq<(Seq<char>, JsonV)>, k: Seq<char>, i: int)
    requires
        0 <= i < m.len(),
        m[i].0 == k,
        forall|j: int| 0 <= j < i ==> (#[trigger] m[j]).0 != k,
    ensures
        member_of(m, k) == Some(m[i].1),
    decreases i,
{
    if i > 0 {
        assert forall|j: int| 0 <= j < i - 1 implies (#[trigger] m.drop_first()[j]).0 != k by {
            assert(m.drop_first()[j] == m[j + 1]);
        }
        lemma_member_at(m.drop_first(), k, i - 1);
    }
}

/// No member is named `k` when no name equals `k`.
pub proof fn lemma_member_absent(m: Seq<(Seq<char>, JsonV)>, k: Seq<char>)
    requires
        forall|j: int| 0 <= j < m.len() ==> (#[trigger] m[j]).0 != k,
    ensures
        member_of(m, k) is None,
    decreases m.len(),
{
    if m.len() > 0 {
        assert forall|j: int| 0 <= j < m.len() - 1 implies (#[trigger] m.drop_first()[j]).0 != k by {
            assert(m.drop_first()[j] == m[j + 1]);
        }
        lemma_member_absent(m.drop_first(), k);
    }
}

/// What `get(k)` gives on a JSON value: the member named `k` of an object,
/// and nothing on any other value.
pub open spec fn get_v(j: JsonV, k: Seq<char>) -> Option<JsonV> {
    match j {
        JsonV::Obj(m) => member_of(m, k),
        _ => None,
    }
}

/// What `as_str` gives on an optional value.
pub open spec fn str_of(j: Option<JsonV>) -> Option<Seq<char>> {
    match j {
        Some(JsonV::Str(s)) => Some(s),
        _ => None,
    }
}

/// What `as_array` gives on an optional value.
pub open spec fn arr_of(j: Option<JsonV>) -> Option<Seq<JsonV>> {
    match j {
        Some(JsonV::Arr(a)) => Some(a),
        _ => None,
    }
}

/// The first element of an optional array.
pub open spec fn first_of(a: Option<Seq<JsonV>>) -> Option<JsonV> {
    match a {
        Some(s) => if s.len() > 0 {
            Some(s[0])
        } else {
            None
        },
        None => None,
    }
}

/// `get` applied to an optional value.
pub open spec fn get_opt(j: Option<JsonV>, k: Seq<char>) -> Option<JsonV> {
    match j {
        Some(v) => get_v(v, k),
        None => None,
    }
}

/// A string, or the empty string when there is none.
pub open spec fn or_empty(s: Option<Seq<char>>) -> Seq<char> {
    match s {
        Some(x) => x,
        None => Seq::empty(),
    }
}

impl Json {
    /// A JSON string holding `s`.
    pub fn string(s: &str) -> (r: Json)
        ensures
            r@ == JsonV::Str(s@),
    {
        Json::Str(String::from_str(s))
    }

    /// The member named `k`, when `self` is an object that has one.
    pub fn get(&self, k: &str) -> (r: Option<&Json>)
        ensures
            match r {
                Some(x) => get_v(self@, k@) == Some(x@),
                None => get_v(self@, k@) is None,
            },
    {
        match self {
            Json::Obj(m) => {
                let ghost mv = obj_view(m@);
                assert(self@ == JsonV::Obj(mv));
                assert(mv.skip(0) =~= mv);
                let mut i: usize = 0;
                while i < m.len()
                    invariant
                        i <= m.len(),
                        mv == obj_view(m@),
                        get_v(self@, k@) == member_of(mv, k@),
                        member_of(mv, k@) == member_of(mv.skip(i as int), k@),
                    decreases m.len() - i,
                {
                    assert(mv.skip(i as int).drop_first() =~= mv.skip(i + 1));
                    assert(mv.skip(i as int)[0] == (m@[i as int].0@, json_view(m@[i as int].1)));
                    if str_eq(m[i].0.as_str(), k) {
                        return Some(&m[i].1);
                    }
                    i = i + 1;
                }
                None
            },
            _ => None,
        }
    }

    /// The text of a JSON string.
    pub fn as_str(&self) -> (r: Option<&str>)
        ensures
            match r {
                Some(x) => str_of(Some(self@)) == Some(x@),
                None => str_of(Some(self@)) is None,
            },
    {
        match self {
            Json::Str(s) => Some(s.as_str()),
            _ => None,
        }
    }

    /// The number of a JSON integer that is not negative.
    pub fn as_u64(&self) -> (r: Option<u64>)
        ensures
            r == (match self@ {
                JsonV::UInt(n) => Some(n),
                _ => None,
            }),
    {
        match self {
            Json::UInt(n) => Some(*n),
            _ => None,
        }
    }

    /// The elements of a JSON array.
    pub fn as_array(&self) -> (r: Option<&Vec<Json>>)
        ensures
            match r {
                Some(a) => arr_of(Some(self@)) == Some(arr_view(a@)),
                None => arr_of(Some(self@)) is None,
            },
    {
        match self {
            Json::Arr(a) => Some(a),
            _ => None,
        }
    }
}

/// Appends the member `k: v` to the members `m` of an object.
pub fn push_member(m: &mut Vec<(String, Json)>, k: &str, v: Json)
    ensures
        obj_view(final(m)@) == obj_view(old(m)@).push((k@, v@)),
{
    let ghost before = m@;
    m.push((String::from_str(k), v));
    assert(obj_view(m@) =~= obj_view(before).push((k@, v@)));
}

/// Appends `v` to the elements `a` of an array.
pub fn push_element(a: &mut Vec<Json>, v: Json)
    ensures
        arr_view(final(a)@) == arr_view(old(a)@).push(v@),
{
    let ghost before = a@;
    a.push(v);
    assert(arr_view(a@) =~= arr_view(before).push(v@));
}

/// The position of the first member of `m` named `k`.
fn member_index(m: &Vec<(String, Json)>, k: &str) -> (r: Option<usize>)
    ensures
        match r {
            Some(i) => i < m@.len() && member_of(obj_view(m@), k@) == Some(json_view(m@[i as int].1)),
            None => member_of(obj_view(m@), k@) is None,
        },
{
    let ghost mv = obj_view(m@);
    assert(mv.skip(0) =~= mv);
    let mut i: usize = 0;
    while i < m.len()
        invariant
            i <= m.len(),
            mv == obj_view(m@),
            member_of(mv, k@) == member_of(mv.skip(i as int), k@),
        decreases m.len() - i,
    {
        assert(mv.skip(i as int).drop_first() =~= mv.skip(i + 1));
        assert(mv.skip(i as int)[0] == (m@[i as int].0@, json_view(m@[i as int].1)));
        if str_eq(m[i].0.as_str(), k) {
            return Some(i);
        }
        i = i + 1;
    }
    None
}

/// The member named `k` of `j`, taken out of it.
pub fn take_member(j: Json, k: &str) -> (r: Option<Json>)
    ensures
        match r {
            Some(x) => get_v(j@, k@) == Some(x@),
            None => get_v(j@, k@) is None,
        },
{
    match j {
        Json::Obj(mut m) => match member_index(&m, k) {
            Some(i) => {
                let ghost old_m = m@;
                let pair = m.remove(i);
                assert(pair == old_m[i as int]);
                Some(pair.1)
            },
            None => None,
        },
        _ => None,
    }
}

/// `get` on an optional reference.
pub fn get_in<'a>(j: Option<&'a Json>, k: &str) -> (r: Option<&'a Json>)
    ensures
        match r {
            Some(x) => get_opt(opt_view(j), k@) == Some(x@),
            None => get_opt(opt_view(j), k@) is None,
        },
{
    match j {
        Some(v) => v.get(k),
        None => None,
    }
}

/// `as_str` on an optional reference.
pub fn str_in<'a>(j: Option<&'a Json>) -> (r: Option<&'a str>)
    ensures
        match r {
            Some(x) => str_of(opt_view(j)) == Some(x@),
            None => str_of(opt_view(j)) is None,
        },
{
    match j {
        Some(v) => v.as_str(),
        None => None,
    }
}

/// The first element of the array that an optional reference holds.
pub fn first_in<'a>(j: Option<&'a Json>) -> (r: Option<&'a Json>)
    ensures
        match r {
            Some(x) => first_of(arr_of(opt_view(j))) == Some(x@),
            None => first_of(arr_of(opt_view(j))) is None,
        },
{
    match j {
        Some(v) => match v.as_array() {
            Some(a) => if a.len() > 0 {
                Some(&a[0])
            } else {
                None
            },
            None => None,
        },
        None => None,
    }
}

/// The value of an optional reference.
pub open spec fn opt_view(j: Option<&Json>) -> Option<JsonV> {
    match j {
        Some(v) => Some(v@),
        None => None,
    }
}

} // verus!
