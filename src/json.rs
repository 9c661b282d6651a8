//! JSON values as the protocol reads them: request ids, parameters,
//! component values and responses.
use vstd::prelude::*;
use vstd::string::StringExecFns;

verus! {

broadcast use vstd::std_specs::vec::group_vec_axioms, vstd::seq::group_seq_axioms;

/// A JSON value. Non-negative integers that fit in 64 bits are held as
/// numbers; any other number is held as its JSON text.
#[derive(Debug, PartialEq)]
pub enum Json {
    Null,
    Bool(bool),
    UInt(u64),
    Number(String),
    Str(String),
    Array(Vec<Json>),
    Object(Vec<(String, Json)>),
}

/// What a JSON value is, with its strings and lists as sequences.
pub enum JsonView {
    Null,
    Bool(bool),
    UInt(u64),
    Number(Seq<char>),
    Str(Seq<char>),
    Array(Seq<JsonView>),
    Object(Seq<(Seq<char>, JsonView)>),
}

/// The view of one value.
pub open spec fn json_view(j: Json) -> JsonView
    decreases j,
{
    match j {
        Json::Null => JsonView::Null,
        Json::Bool(b) => JsonView::Bool(b),
        Json::UInt(n) => JsonView::UInt(n),
        Json::Number(t) => JsonView::Number(t@),
        Json::Str(s) => JsonView::Str(s@),
        Json::Array(items) => JsonView::Array(views(items@)),
        Json::Object(members) => JsonView::Object(member_views(members@)),
    }
}

/// The views of a list of values.
pub open spec fn views(s: Seq<Json>) -> Seq<JsonView>
    decreases s,
{
    if s.len() == 0 {
        Seq::empty()
    } else {
        views(s.drop_last()).push(json_view(s.last()))
    }
}

/// The views of a list of object members.
pub open spec fn member_views(s: Seq<(String, Json)>) -> Seq<(Seq<char>, JsonView)>
    decreases s,
{
    if s.len() == 0 {
        Seq::empty()
    } else {
        member_views(s.drop_last()).push((s.last().0@, json_view(s.last().1)))
    }
}

impl View for Json {
    type V = JsonView;

    open spec fn view(&self) -> JsonView {
        json_view(*self)
    }
}

/// The value of the first member named `key` among `members`.
pub open spec fn lookup(members: Seq<(String, Json)>, key: Seq<char>) -> Option<Json>
    decreases members.len(),
{
    if members.len() == 0 {
        None
    } else if members[0].0@ == key {
        Some(members[0].1)
    } else {
        lookup(members.subrange(1, members.len() as int), key)
    }
}

/// The member named `key` of `j`, when `j` is an object that has one.
pub open spec fn member_of(j: Json, key: Seq<char>) -> Option<Json> {
    match j {
        Json::Object(members) => lookup(members@, key),
        _ => None,
    }
}

/// The member named `f` of `j`, when it is a non-negative integer.
pub open spec fn u64_at(j: Json, f: Seq<char>) -> Option<u64> {
    match member_of(j, f) {
        Some(Json::UInt(n)) => Some(n),
        _ => None,
    }
}

impl Json {
    /// A copy of this value.
    pub fn duplicate(&self) -> (r: Json)
        ensures
            r@ == self@,
        decreases self,
    {
        match self {
            Json::Null => Json::Null,
            Json::Bool(b) => Json::Bool(*b),
            Json::UInt(n) => Json::UInt(*n),
            Json::Number(t) => Json::Number(t.clone()),
            Json::Str(s) => Json::Str(s.clone()),
            Json::Array(items) => {
                let mut out: Vec<Json> = Vec::new();
                let mut i: usize = 0;
                while i < items.len()
                    invariant
                        i <= items@.len(),
                        *self == Json::Array(*items),
                        views(out@) == views(items@.take(i as int)),
                    decreases items@.len() - i,
                {
                    proof {
                        assert(decreases_to!(*self => self->Array_0));
                        assert(decreases_to!(self->Array_0 => self->Array_0[i as int]));
                    }
                    let ghost prev = out@;
                    let d = items[i].duplicate();
                    out.push(d);
                    proof {
                        let t = items@.take(i as int + 1);
                        assert(t.drop_last() =~= items@.take(i as int));
                        assert(out@.drop_last() =~= prev);
                    }
                    i = i + 1;
                }
                assert(items@.take(items@.len() as int) =~= items@);
                Json::Array(out)
            },
            Json::Object(members) => {
                let mut out: Vec<(String, Json)> = Vec::new();
                let mut i: usize = 0;
                while i < members.len()
                    invariant
                        i <= members@.len(),
                        *self == Json::Object(*members),
                        member_views(out@) == member_views(members@.take(i as int)),
                    decreases members@.len() - i,
                {
                    proof {
                        assert(decreases_to!(*self => self->Object_0));
                        assert(decreases_to!(self->Object_0 => self->Object_0[i as int]));
                        assert(decreases_to!(self->Object_0[i as int] => self->Object_0[i as int].1));
                    }
                    let ghost prev = out@;
                    let value = members[i].1.duplicate();
                    out.push((members[i].0.clone(), value));
                    proof {
                        let t = members@.take(i as int + 1);
                        assert(t.drop_last() =~= members@.take(i as int));
                        assert(out@.drop_last() =~= prev);
                    }
                    i = i + 1;
                }
                assert(members@.take(members@.len() as int) =~= members@);
                Json::Object(out)
            },
        }
    }
}

proof fn lemma_lookup_step(members: Seq<(String, Json)>, i: int, key: Seq<char>)
    requires
        0 <= i < members.len(),
    ensures
        lookup(members.subrange(i, members.len() as int), key) == if members[i].0@ == key {
            Some(members[i].1)
        } else {
            lookup(members.subrange(i + 1, members.len() as int), key)
        },
{
    let s = members.subrange(i, members.len() as int);
    assert(s[0] == members[i]);
    assert(s.subrange(1, s.len() as int) =~= members.subrange(i + 1, members.len() as int));
}

/// The member named `key` of `j`.
pub fn member<'a>(j: &'a Json, key: &str) -> (r: Option<&'a Json>)
    ensures
        match r {
            Some(v) => member_of(*j, key@) == Some(*v),
            None => member_of(*j, key@) is None,
        },
{
    match j {
        Json::Object(members) => {
            let name = String::from_str(key);
            let mut i: usize = 0;
            assert(members@.subrange(0, members@.len() as int) =~= members@);
            while i < members.len()
                invariant
                    i <= members@.len(),
                    *j == Json::Object(*members),
                    name@ == key@,
                    lookup(members@, key@) == lookup(
                        members@.subrange(i as int, members@.len() as int),
                        key@,
                    ),
                decreases members@.len() - i,
            {
                proof {
                    lemma_lookup_step(members@, i as int, key@);
                }
                if members[i].0 == name {
                    return Some(&members[i].1);
                }
                i = i + 1;
            }
            None
        },
        _ => None,
    }
}

/// The member named `key` of `j`, when it is a non-negative integer.
pub fn read_u64(j: &Json, key: &str) -> (r: Option<u64>)
    ensures
        r == u64_at(*j, key@),
{
    match member(j, key) {
        Some(Json::UInt(n)) => Some(*n),
        _ => None,
    }
}

} // verus!
