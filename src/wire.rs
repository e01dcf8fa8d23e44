//! The wire form of an identifier: a JSON-like value, and its mathematical
//! model. Decoders read objects through the member functions defined here.
use vstd::prelude::*;

use crate::error::Error;

verus! {

/// The model of a wire value. An object is the sequence of its members in
/// the order in which they appear; a key may occur more than once.
pub enum Json {
    Null,
    Bool(bool),
    /// A number, held as its decimal text.
    Number(Seq<char>),
    Str(Seq<char>),
    Arr(Seq<Json>),
    Obj(Seq<(Seq<char>, Json)>),
}

/// A wire value, as a JSON parser or writer outside this library hands it over.
#[derive(Debug, PartialEq, Eq)]
pub enum Value {
    Null,
    Bool(bool),
    /// A number, held as its decimal text.
    Number(String),
    Str(String),
    Arr(Vec<Value>),
    Obj(Vec<(String, Value)>),
}

pub open spec fn value_view(v: Value) -> Json
    decreases v,
{
    match v {
        Value::Null => Json::Null,
        Value::Bool(b) => Json::Bool(b),
        Value::Number(n) => Json::Number(n@),
        Value::Str(s) => Json::Str(s@),
        Value::Arr(items) => Json::Arr(values_view(items@)),
        Value::Obj(ms) => Json::Obj(members_view(ms@)),
    }
}

pub open spec fn values_view(s: Seq<Value>) -> Seq<Json>
    decreases s,
{
    if s.len() == 0 {
        Seq::empty()
    } else {
        values_view(s.subrange(0, s.len() - 1)).push(value_view(s[s.len() - 1]))
    }
}

pub open spec fn members_view(s: Seq<(String, Value)>) -> Seq<(Seq<char>, Json)>
    decreases s,
{
    if s.len() == 0 {
        Seq::empty()
    } else {
        members_view(s.subrange(0, s.len() - 1)).push(
            (s[s.len() - 1].0@, value_view(s[s.len() - 1].1)),
        )
    }
}

impl View for Value {
    type V = Json;

    open spec fn view(&self) -> Json {
        value_view(*self)
    }
}

pub proof fn lemma_values_view(s: Seq<Value>)
    ensures
        values_view(s).len() == s.len(),
        forall|i: int| 0 <= i < s.len() ==> #[trigger] values_view(s)[i] == value_view(s[i]),
    decreases s.len(),
{
    if s.len() > 0 {
        lemma_values_view(s.subrange(0, s.len() - 1));
    }
}

pub proof fn lemma_members_view(s: Seq<(String, Value)>)
    ensures
        members_view(s).len() == s.len(),
        forall|i: int|
            0 <= i < s.len() ==> #[trigger] members_view(s)[i] == (s[i].0@, value_view(s[i].1)),
    decreases s.len(),
{
    if s.len() > 0 {
        lemma_members_view(s.subrange(0, s.len() - 1));
    }
}

/// How many members of an object have the key `k`.
pub open spec fn count_key(ms: Seq<(Seq<char>, Json)>, k: Seq<char>) -> nat
    decreases ms.len(),
{
    if ms.len() == 0 {
        0
    } else {
        count_key(ms.drop_last(), k) + if ms.last().0 == k {
            1nat
        } else {
            0nat
        }
    }
}

/// The value of the member with key `k`; the last one where there are several.
pub open spec fn lookup(ms: Seq<(Seq<char>, Json)>, k: Seq<char>) -> Option<Json>
    decreases ms.len(),
{
    if ms.len() == 0 {
        None
    } else if ms.last().0 == k {
        Some(ms.last().1)
    } else {
        lookup(ms.drop_last(), k)
    }
}

/// The members of the object have exactly the keys `keys`, each once.
pub open spec fn members_are(ms: Seq<(Seq<char>, Json)>, keys: Seq<Seq<char>>) -> bool {
    &&& forall|i: int| 0 <= i < ms.len() ==> keys.contains(#[trigger] ms[i].0)
    &&& forall|j: int| 0 <= j < keys.len() ==> count_key(ms, #[trigger] keys[j]) == 1
}

/// The text of member `k`, which must be present and a non-empty string.
pub open spec fn text_field(ms: Seq<(Seq<char>, Json)>, k: Seq<char>) -> Result<Seq<char>, Error> {
    match lookup(ms, k) {
        Some(Json::Str(s)) => if s.len() > 0 {
            Ok(s)
        } else {
            Err(Error::SchemaMismatch)
        },
        _ => Err(Error::SchemaMismatch),
    }
}

/// The value of the discriminator: the `"format"` member, where it is a string.
pub open spec fn format_of(ms: Seq<(Seq<char>, Json)>) -> Option<Seq<char>> {
    match lookup(ms, "format"@) {
        Some(Json::Str(name)) => Some(name),
        _ => None,
    }
}

/// Two objects are the same object: each key occurs as often in one as in
/// the other, and has the same value in both.
pub open spec fn same_object(x: Json, y: Json) -> bool {
    &&& x is Obj
    &&& y is Obj
    &&& forall|k: Seq<char>|
        #![trigger count_key(x->Obj_0, k)]
        #![trigger count_key(y->Obj_0, k)]
        #![trigger lookup(x->Obj_0, k)]
        #![trigger lookup(y->Obj_0, k)]
        count_key(x->Obj_0, k) == count_key(y->Obj_0, k) && lookup(x->Obj_0, k) == lookup(
            y->Obj_0,
            k,
        )
}

/// A key that no member has is counted zero times and has no value.
pub proof fn lemma_absent_key(ms: Seq<(Seq<char>, Json)>, k: Seq<char>)
    requires
        forall|i: int| 0 <= i < ms.len() ==> #[trigger] ms[i].0 != k,
    ensures
        count_key(ms, k) == 0,
        lookup(ms, k) is None,
    decreases ms.len(),
{
    if ms.len() > 0 {
        let p = ms.drop_last();
        assert forall|i: int| 0 <= i < p.len() implies #[trigger] p[i].0 != k by {
            assert(p[i] == ms[i]);
        }
        lemma_absent_key(p, k);
    }
}

/// Two objects with exactly the keys `keys`, each once, that agree on the
/// value of every key in `keys`, are the same object.
pub proof fn lemma_same_keys_same_object(
    xs: Seq<(Seq<char>, Json)>,
    ys: Seq<(Seq<char>, Json)>,
    keys: Seq<Seq<char>>,
)
    requires
        members_are(xs, keys),
        members_are(ys, keys),
        forall|j: int| 0 <= j < keys.len() ==> lookup(xs, #[trigger] keys[j]) == lookup(ys, keys[j]),
    ensures
        same_object(Json::Obj(xs), Json::Obj(ys)),
{
    assert forall|k: Seq<char>|
        count_key(xs, k) == count_key(ys, k) && lookup(xs, k) == lookup(ys, k) by {
        if keys.contains(k) {
            let j = choose|j: int| 0 <= j < keys.len() && keys[j] == k;
            assert(count_key(xs, keys[j]) == 1);
            assert(count_key(ys, keys[j]) == 1);
        } else {
            assert forall|i: int| 0 <= i < xs.len() implies #[trigger] xs[i].0 != k by {
                assert(keys.contains(xs[i].0));
            }
            assert forall|i: int| 0 <= i < ys.len() implies #[trigger] ys[i].0 != k by {
                assert(keys.contains(ys[i].0));
            }
            lemma_absent_key(xs, k);
            lemma_absent_key(ys, k);
        }
    }
}

/// Whether two texts are equal.
pub fn text_is(a: &String, b: &str) -> (r: bool)
    ensures
        r == (a@ == b@),
{
    *a == b.to_owned()
}

/// Finds the value of member `k`, the last one where there are several.
pub fn lookup_member<'a>(ms: &'a Vec<(String, Value)>, k: &str) -> (r: Option<&'a Value>)
    ensures
        match r {
            Some(v) => lookup(members_view(ms@), k@) == Some(v@),
            None => lookup(members_view(ms@), k@) is None,
        },
{
    let ghost mv = members_view(ms@);
    proof {
        lemma_members_view(ms@);
    }
    let mut found: Option<&'a Value> = None;
    let mut i: usize = 0;
    while i < ms.len()
        invariant
            i <= ms@.len(),
            mv == members_view(ms@),
            mv.len() == ms@.len(),
            forall|j: int| 0 <= j < ms@.len() ==> #[trigger] mv[j] == (ms@[j].0@, value_view(ms@[j].1)),
            match found {
                Some(v) => lookup(mv.take(i as int), k@) == Some(v@),
                None => lookup(mv.take(i as int), k@) is None,
            },
        decreases ms@.len() - i,
    {
        assert(mv.take(i + 1).drop_last() =~= mv.take(i as int));
        if text_is(&ms[i].0, k) {
            found = Some(&ms[i].1);
        }
        i = i + 1;
    }
    assert(mv.take(i as int) =~= mv);
    found
}

/// Counts the members with key `k`.
pub fn count_members(ms: &Vec<(String, Value)>, k: &str) -> (r: usize)
    ensures
        r == count_key(members_view(ms@), k@),
{
    let ghost mv = members_view(ms@);
    proof {
        lemma_members_view(ms@);
    }
    let mut c: usize = 0;
    let mut i: usize = 0;
    while i < ms.len()
        invariant
            i <= ms@.len(),
            c <= i,
            mv == members_view(ms@),
            mv.len() == ms@.len(),
            forall|j: int| 0 <= j < ms@.len() ==> #[trigger] mv[j] == (ms@[j].0@, value_view(ms@[j].1)),
            c == count_key(mv.take(i as int), k@),
        decreases ms@.len() - i,
    {
        assert(mv.take(i + 1).drop_last() =~= mv.take(i as int));
        if text_is(&ms[i].0, k) {
            c = c + 1;
        }
        i = i + 1;
    }
    assert(mv.take(i as int) =~= mv);
    c
}

/// Whether `k` is one of `keys`.
fn key_listed(keys: &Vec<&str>, k: &String) -> (r: bool)
    ensures
        r == keys@.map_values(|s: &str| s@).contains(k@),
{
    let ghost kv = keys@.map_values(|s: &str| s@);
    let mut i: usize = 0;
    while i < keys.len()
        invariant
            i <= keys@.len(),
            kv == keys@.map_values(|s: &str| s@),
            forall|j: int| 0 <= j < i ==> kv[j] != k@,
        decreases keys@.len() - i,
    {
        if text_is(k, keys[i]) {
            assert(kv[i as int] == k@);
            return true;
        }
        i = i + 1;
    }
    false
}

/// Whether the members of the object have exactly the keys `keys`, each once.
pub fn has_members(ms: &Vec<(String, Value)>, keys: &Vec<&str>) -> (r: bool)
    ensures
        r == members_are(members_view(ms@), keys@.map_values(|s: &str| s@)),
{
    let ghost mv = members_view(ms@);
    let ghost kv = keys@.map_values(|s: &str| s@);
    proof {
        lemma_members_view(ms@);
    }
    let mut i: usize = 0;
    while i < ms.len()
        invariant
            i <= ms@.len(),
            mv == members_view(ms@),
            kv == keys@.map_values(|s: &str| s@),
            mv.len() == ms@.len(),
            forall|j: int| 0 <= j < ms@.len() ==> #[trigger] mv[j] == (ms@[j].0@, value_view(ms@[j].1)),
            forall|j: int| 0 <= j < i ==> kv.contains(#[trigger] mv[j].0),
        decreases ms@.len() - i,
    {
        if !key_listed(keys, &ms[i].0) {
            assert(!kv.contains(mv[i as int].0));
            return false;
        }
        i = i + 1;
    }
    let mut j: usize = 0;
    while j < keys.len()
        invariant
            j <= keys@.len(),
            mv == members_view(ms@),
            kv == keys@.map_values(|s: &str| s@),
            forall|i: int| 0 <= i < mv.len() ==> kv.contains(#[trigger] mv[i].0),
            forall|l: int| 0 <= l < j ==> count_key(mv, #[trigger] kv[l]) == 1,
        decreases keys@.len() - j,
    {
        if count_members(ms, keys[j]) != 1 {
            assert(count_key(mv, kv[j as int]) != 1);
            return false;
        }
        j = j + 1;
    }
    true
}

/// Reads member `k` as a non-empty string.
pub fn read_text(ms: &Vec<(String, Value)>, k: &str) -> (r: Result<String, Error>)
    ensures
        match r {
            Ok(s) => text_field(members_view(ms@), k@) == Ok::<Seq<char>, Error>(s@),
            Err(e) => text_field(members_view(ms@), k@) == Err::<Seq<char>, Error>(e),
        },
{
    match lookup_member(ms, k) {
        Some(Value::Str(s)) => {
            if s.unicode_len() > 0 {
                Ok(s.clone())
            } else {
                Err(Error::SchemaMismatch)
            }
        },
        _ => Err(Error::SchemaMismatch),
    }
}

/// Reads the discriminator of an object.
pub fn read_format(ms: &Vec<(String, Value)>) -> (r: Option<&String>)
    ensures
        match r {
            Some(s) => format_of(members_view(ms@)) == Some(s@),
            None => format_of(members_view(ms@)) is None,
        },
{
    match lookup_member(ms, "format") {
        Some(Value::Str(s)) => Some(s),
        _ => None,
    }
}

} // verus!
