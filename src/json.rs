use vstd::prelude::*;
use crate::text::str_eq;

verus! {

broadcast use vstd::std_specs::vec::axiom_vec_index_decreases;

/// A value of the JSON-like wire object model.
#[derive(Debug, PartialEq)]
pub enum JsonValue {
    Null,
    Bool(bool),
    /// A number, kept as its source text.
    Number(String),
    Str(String),
    Array(Vec<JsonValue>),
    /// The members of an object, in their order.
    Object(Vec<(String, JsonValue)>),
}

/// A wire value as plain mathematical data.
pub ghost enum JsonView {
    Null,
    Bool(bool),
    Number(Seq<char>),
    Str(Seq<char>),
    Array(Seq<JsonView>),
    Object(Seq<(Seq<char>, JsonView)>),
}

pub open spec fn json_view(j: JsonValue) -> JsonView
    decreases j,
{
    match j {
        JsonValue::Null => JsonView::Null,
        JsonValue::Bool(b) => JsonView::Bool(b),
        JsonValue::Number(s) => JsonView::Number(s@),
        JsonValue::Str(s) => JsonView::Str(s@),
        JsonValue::Array(v) => JsonView::Array(
            Seq::new(
                v@.len(),
                |i: int|
                    if 0 <= i < v@.len() {
                        json_view(v@[i])
                    } else {
                        JsonView::Null
                    },
            ),
        ),
        JsonValue::Object(v) => JsonView::Object(
            Seq::new(
                v@.len(),
                |i: int|
                    if 0 <= i < v@.len() {
                        (v@[i].0@, json_view(v@[i].1))
                    } else {
                        (Seq::empty(), JsonView::Null)
                    },
            ),
        ),
    }
}

impl View for JsonValue {
    type V = JsonView;

    open spec fn view(&self) -> JsonView {
        json_view(*self)
    }
}

pub open spec fn members_view(v: Seq<(String, JsonValue)>) -> Seq<(Seq<char>, JsonView)> {
    Seq::new(v.len(), |i: int| (v[i].0@, json_view(v[i].1)))
}

pub open spec fn items_view(v: Seq<JsonValue>) -> Seq<JsonView> {
    Seq::new(v.len(), |i: int| json_view(v[i]))
}

pub proof fn lemma_object_view(v: Vec<(String, JsonValue)>)
    ensures
        json_view(JsonValue::Object(v)) == JsonView::Object(members_view(v@)),
{
    let s = json_view(JsonValue::Object(v))->Object_0;
    assert(s =~= members_view(v@));
}

pub proof fn lemma_array_view(v: Vec<JsonValue>)
    ensures
        json_view(JsonValue::Array(v)) == JsonView::Array(items_view(v@)),
{
    let s = json_view(JsonValue::Array(v))->Array_0;
    assert(s =~= items_view(v@));
}

/// The value of the member named `key`; where the name repeats, the last one
/// counts, as in a map built from the object. An explicit null counts as absent.
pub open spec fn member(m: Seq<(Seq<char>, JsonView)>, key: Seq<char>) -> Option<JsonView>
    decreases m.len(),
{
    if m.len() == 0 {
        None
    } else if m.last().0 == key {
        if m.last().1 is Null {
            None
        } else {
            Some(m.last().1)
        }
    } else {
        member(m.drop_last(), key)
    }
}

pub broadcast proof fn lemma_member_push(m: Seq<(Seq<char>, JsonView)>, x: (Seq<char>, JsonView), key: Seq<char>)
    ensures
        #[trigger] member(m.push(x), key) == if x.0 == key {
            if x.1 is Null {
                None
            } else {
                Some(x.1)
            }
        } else {
            member(m, key)
        },
{
    assert(m.push(x).drop_last() =~= m);
}

/// Looks a member up by name.
pub fn get_member<'a>(m: &'a Vec<(String, JsonValue)>, key: &str) -> (r: Option<&'a JsonValue>)
    ensures
        match r {
            Some(v) => member(members_view(m@), key@) == Some(json_view(*v)),
            None => member(members_view(m@), key@) is None,
        },
{
    let mut i: usize = m.len();
    assert(members_view(m@).take(i as int) =~= members_view(m@));
    while i > 0
        invariant
            i <= m@.len(),
            member(members_view(m@), key@) == member(members_view(m@).take(i as int), key@),
        decreases i,
    {
        let ghost pre = members_view(m@).take(i as int);
        assert(pre.last() == (m@[i - 1].0@, json_view(m@[i - 1].1)));
        assert(pre.drop_last() =~= members_view(m@).take(i - 1));
        if str_eq(m[i - 1].0.as_str(), key) {
            match &m[i - 1].1 {
                JsonValue::Null => return None,
                v => return Some(v),
            }
        }
        i = i - 1;
    }
    None
}

/// No two members of the object share a name.
pub open spec fn keys_unique(m: Seq<(Seq<char>, JsonView)>) -> bool {
    forall|i: int, j: int|
        0 <= i < m.len() && 0 <= j < m.len() && i != j ==> (#[trigger] m[i]).0 != (#[trigger] m[j]).0
}

/// Value equality of wire values, where the members of an object may come in
/// any order.
pub open spec fn json_equiv(a: JsonView, b: JsonView) -> bool
    decreases a,
{
    match a {
        JsonView::Object(ma) => match b {
            JsonView::Object(mb) => {
                &&& keys_unique(ma)
                &&& keys_unique(mb)
                &&& forall|i: int|
                    0 <= i < ma.len() ==> exists|j: int|
                        0 <= j < mb.len() && mb[j].0 == (#[trigger] ma[i]).0 && json_equiv(
                            ma[i].1,
                            mb[j].1,
                        )
                &&& forall|j: int|
                    0 <= j < mb.len() ==> exists|i: int|
                        0 <= i < ma.len() && (#[trigger] mb[j]).0 == ma[i].0
            },
            _ => false,
        },
        JsonView::Array(xa) => match b {
            JsonView::Array(xb) => xa.len() == xb.len() && forall|i: int|
                0 <= i < xa.len() ==> json_equiv(#[trigger] xa[i], xb[i]),
            _ => false,
        },
        _ => a == b,
    }
}

pub proof fn lemma_equiv_shape(a: JsonView, b: JsonView)
    requires
        json_equiv(a, b),
    ensures
        a is Object <==> b is Object,
        a is Array <==> b is Array,
        !(a is Object) && !(a is Array) ==> a == b,
{
}

proof fn lemma_member_unique(m: Seq<(Seq<char>, JsonView)>, i: int)
    requires
        keys_unique(m),
        0 <= i < m.len(),
    ensures
        member(m, m[i].0) == if m[i].1 is Null {
            None
        } else {
            Some(m[i].1)
        },
    decreases m.len(),
{
    if i < m.len() - 1 {
        let d = m.drop_last();
        assert(m[m.len() - 1] == m.last());
        assert(m.last().0 != m[i].0);
        assert(d[i] == m[i]);
        assert(keys_unique(d)) by {
            assert forall|p: int, q: int|
                0 <= p < d.len() && 0 <= q < d.len() && p != q implies (#[trigger] d[p]).0 != (
                #[trigger] d[q]).0 by {
                assert(d[p] == m[p] && d[q] == m[q]);
            }
        }
        lemma_member_unique(d, i);
    }
}

proof fn lemma_member_missing(m: Seq<(Seq<char>, JsonView)>, key: Seq<char>)
    requires
        forall|i: int| 0 <= i < m.len() ==> (#[trigger] m[i]).0 != key,
    ensures
        member(m, key) is None,
    decreases m.len(),
{
    if m.len() > 0 {
        assert(m[m.len() - 1] == m.last());
        let d = m.drop_last();
        assert forall|i: int| 0 <= i < d.len() implies (#[trigger] d[i]).0 != key by {
            assert(d[i] == m[i]);
        }
        lemma_member_missing(d, key);
    }
}

/// Equivalent objects give equivalent members under every name.
pub proof fn lemma_member_equiv(ma: Seq<(Seq<char>, JsonView)>, mb: Seq<(Seq<char>, JsonView)>, key: Seq<char>)
    requires
        json_equiv(JsonView::Object(ma), JsonView::Object(mb)),
    ensures
        member(ma, key) is None <==> member(mb, key) is None,
        member(ma, key) is Some ==> json_equiv(member(ma, key)->0, member(mb, key)->0),
{
    if exists|i: int| 0 <= i < ma.len() && (#[trigger] ma[i]).0 == key {
        let i = choose|i: int| 0 <= i < ma.len() && (#[trigger] ma[i]).0 == key;
        let j = choose|j: int| 0 <= j < mb.len() && mb[j].0 == ma[i].0 && json_equiv(ma[i].1, mb[j].1);
        lemma_member_unique(ma, i);
        lemma_member_unique(mb, j);
        lemma_equiv_shape(ma[i].1, mb[j].1);
    } else {
        lemma_member_missing(ma, key);
        assert forall|j: int| 0 <= j < mb.len() implies (#[trigger] mb[j]).0 != key by {
            let i = choose|i: int| 0 <= i < ma.len() && mb[j].0 == ma[i].0;
            assert(ma[i].0 != key);
        }
        lemma_member_missing(mb, key);
    }
}

} // verus!
