use vstd::prelude::*;
use vstd::string::StrSliceExecFns;

verus! {

/// A plain JSON value tree: the generic document shape that splitter files
/// are read from.  Numbers are carried as their canonical decimal text, so
/// every node holds plain values only.
#[derive(Debug, PartialEq)]
pub enum JsonValue {
    Null,
    Bool(bool),
    Number(String),
    Text(String),
    Array(Vec<JsonValue>),
    Object(Vec<(String, JsonValue)>),
}

/// The mathematical model of a `JsonValue`: the same tree over sequences.
pub enum Jv {
    Null,
    Bool(bool),
    Number(Seq<char>),
    Text(Seq<char>),
    Array(Seq<Jv>),
    Object(Seq<(Seq<char>, Jv)>),
}

pub open spec fn jv(v: JsonValue) -> Jv
    decreases v,
{
    match v {
        JsonValue::Null => Jv::Null,
        JsonValue::Bool(b) => Jv::Bool(b),
        JsonValue::Number(s) => Jv::Number(s@),
        JsonValue::Text(s) => Jv::Text(s@),
        JsonValue::Array(items) => Jv::Array(jv_seq(items@)),
        JsonValue::Object(entries) => Jv::Object(jv_entries(entries@)),
    }
}

pub open spec fn jv_seq(s: Seq<JsonValue>) -> Seq<Jv>
    decreases s,
{
    if s.len() == 0 {
        Seq::empty()
    } else {
        jv_seq(s.drop_last()).push(jv(s.last()))
    }
}

pub open spec fn jv_entries(s: Seq<(String, JsonValue)>) -> Seq<(Seq<char>, Jv)>
    decreases s,
{
    if s.len() == 0 {
        Seq::empty()
    } else {
        jv_entries(s.drop_last()).push((s.last().0@, jv(s.last().1)))
    }
}

impl View for JsonValue {
    type V = Jv;

    open spec fn view(&self) -> Jv {
        jv(*self)
    }
}

pub proof fn lemma_jv_seq(s: Seq<JsonValue>)
    ensures
        jv_seq(s).len() == s.len(),
        forall|i: int| 0 <= i < s.len() ==> jv_seq(s)[i] == jv(s[i]),
    decreases s.len(),
{
    if s.len() > 0 {
        lemma_jv_seq(s.drop_last());
        assert forall|i: int| 0 <= i < s.len() implies jv_seq(s)[i] == jv(s[i]) by {
            if i < s.len() - 1 {
                assert(s.drop_last()[i] == s[i]);
            }
        }
    }
}

pub proof fn lemma_jv_entries(s: Seq<(String, JsonValue)>)
    ensures
        jv_entries(s).len() == s.len(),
        forall|i: int| 0 <= i < s.len() ==> jv_entries(s)[i] == (s[i].0@, jv(s[i].1)),
    decreases s.len(),
{
    if s.len() > 0 {
        lemma_jv_entries(s.drop_last());
        assert forall|i: int| 0 <= i < s.len() implies jv_entries(s)[i] == (
        s[i].0@,
        jv(s[i].1),
        ) by {
            if i < s.len() - 1 {
                assert(s.drop_last()[i] == s[i]);
            }
        }
    }
}

/// Index of the first entry of an object model whose key is `key`, or -1 when
/// no entry has that key.
pub open spec fn obj_index(o: Seq<(Seq<char>, Jv)>, key: Seq<char>) -> int
    decreases o.len(),
{
    if o.len() == 0 {
        -1
    } else if o[0].0 == key {
        0
    } else {
        let r = obj_index(o.drop_first(), key);
        if r < 0 {
            -1
        } else {
            r + 1
        }
    }
}

pub open spec fn obj_has(o: Seq<(Seq<char>, Jv)>, key: Seq<char>) -> bool {
    obj_index(o, key) >= 0
}

/// The value of the first entry with key `key`; meaningful only when
/// `obj_has(o, key)` holds.
pub open spec fn obj_get(o: Seq<(Seq<char>, Jv)>, key: Seq<char>) -> Jv {
    o[obj_index(o, key)].1
}

pub proof fn lemma_obj_index_props(o: Seq<(Seq<char>, Jv)>, key: Seq<char>)
    ensures
        -1 <= obj_index(o, key) < o.len(),
        obj_index(o, key) >= 0 ==> o[obj_index(o, key)].0 == key && (forall|j: int|
            0 <= j < obj_index(o, key) ==> o[j].0 != key),
        obj_index(o, key) == -1 ==> (forall|j: int| 0 <= j < o.len() ==> o[j].0 != key),
    decreases o.len(),
{
    if o.len() > 0 && o[0].0 != key {
        lemma_obj_index_props(o.drop_first(), key);
        let r = obj_index(o.drop_first(), key);
        if r >= 0 {
            assert(o.drop_first()[r] == o[r + 1]);
            assert forall|j: int| 0 <= j < r + 1 implies o[j].0 != key by {
                if j > 0 {
                    assert(o.drop_first()[j - 1] == o[j]);
                }
            }
        } else {
            assert forall|j: int| 0 <= j < o.len() implies o[j].0 != key by {
                if j > 0 {
                    assert(o.drop_first()[j - 1] == o[j]);
                }
            }
        }
    }
}

/// Equality of two string slices, decided character by character.
pub fn str_eq(a: &str, b: &str) -> (r: bool)
    ensures
        r == (a@ == b@),
{
    let alen = a.unicode_len();
    let blen = b.unicode_len();
    if alen != blen {
        return false;
    }
    let mut i: usize = 0;
    while i < alen
        invariant
            alen == a@.len(),
            alen == b@.len(),
            i <= alen,
            forall|j: int| 0 <= j < i ==> a@[j] == b@[j],
        decreases alen - i,
    {
        if a.get_char(i) != b.get_char(i) {
            return false;
        }
        i += 1;
    }
    proof {
        assert(a@ =~= b@);
    }
    true
}

/// A copy of a JSON value with the same model.
pub fn json_clone(v: &JsonValue) -> (r: JsonValue)
    ensures
        jv(r) == jv(*v),
    decreases *v,
{
    match v {
        JsonValue::Null => JsonValue::Null,
        JsonValue::Bool(b) => JsonValue::Bool(*b),
        JsonValue::Number(s) => JsonValue::Number(s.clone()),
        JsonValue::Text(s) => JsonValue::Text(s.clone()),
        JsonValue::Array(items) => {
            let mut out: Vec<JsonValue> = Vec::new();
            let mut i: usize = 0;
            while i < items.len()
                invariant
                    *v == JsonValue::Array(*items),
                    i <= items@.len(),
                    out@.len() == i,
                    forall|j: int| 0 <= j < i ==> jv(out@[j]) == jv(items@[j]),
                decreases items@.len() - i,
            {
                proof {
                    assert(v->Array_0 == *items);
                    assert(decreases_to!(*v => v->Array_0));
                    assert(decreases_to!(*items => items@));
                    assert(decreases_to!(items@ => items@[i as int]));
                }
                let c = json_clone(&items[i]);
                out.push(c);
                i += 1;
            }
            proof {
                lemma_jv_seq(out@);
                lemma_jv_seq(items@);
                assert(jv_seq(out@) =~= jv_seq(items@));
            }
            JsonValue::Array(out)
        },
        JsonValue::Object(entries) => {
            let mut out: Vec<(String, JsonValue)> = Vec::new();
            let mut i: usize = 0;
            while i < entries.len()
                invariant
                    *v == JsonValue::Object(*entries),
                    i <= entries@.len(),
                    out@.len() == i,
                    forall|j: int|
                        0 <= j < i ==> out@[j].0@ == entries@[j].0@ && jv(out@[j].1) == jv(
                            entries@[j].1,
                        ),
                decreases entries@.len() - i,
            {
                proof {
                    assert(v->Object_0 == *entries);
                    assert(decreases_to!(*v => v->Object_0));
                    assert(decreases_to!(*entries => entries@));
                    assert(decreases_to!(entries@ => entries@[i as int]));
                    assert(decreases_to!(entries@[i as int] => entries@[i as int].1));
                }
                let pair = &entries[i];
                let k = pair.0.clone();
                let c = json_clone(&pair.1);
                out.push((k, c));
                i += 1;
            }
            proof {
                lemma_jv_entries(out@);
                lemma_jv_entries(entries@);
                assert(jv_entries(out@) =~= jv_entries(entries@));
            }
            JsonValue::Object(out)
        },
    }
}

/// A copy of an object's entries with the same model.
pub fn clone_entries(entries: &Vec<(String, JsonValue)>) -> (r: Vec<(String, JsonValue)>)
    ensures
        jv_entries(r@) == jv_entries(entries@),
{
    let mut out: Vec<(String, JsonValue)> = Vec::new();
    let mut i: usize = 0;
    while i < entries.len()
        invariant
            i <= entries@.len(),
            out@.len() == i,
            forall|j: int|
                0 <= j < i ==> out@[j].0@ == entries@[j].0@ && jv(out@[j].1) == jv(entries@[j].1),
        decreases entries@.len() - i,
    {
        let pair = &entries[i];
        let k = pair.0.clone();
        let c = json_clone(&pair.1);
        out.push((k, c));
        i += 1;
    }
    proof {
        lemma_jv_entries(out@);
        lemma_jv_entries(entries@);
        assert(jv_entries(out@) =~= jv_entries(entries@));
    }
    out
}

/// Position of the first entry of `entries` whose key is `key`.
pub fn find_field(entries: &Vec<(String, JsonValue)>, key: &str) -> (r: Option<usize>)
    ensures
        (match r {
            Some(i) => i < entries@.len() && obj_index(jv_entries(entries@), key@) == i as int,
            None => obj_index(jv_entries(entries@), key@) == -1,
        }),
{
    let ghost o = jv_entries(entries@);
    proof {
        lemma_jv_entries(entries@);
        lemma_obj_index_props(o, key@);
    }
    let mut i: usize = 0;
    while i < entries.len()
        invariant
            i <= entries@.len(),
            o == jv_entries(entries@),
            o.len() == entries@.len(),
            -1 <= obj_index(o, key@) < o.len(),
            obj_index(o, key@) >= 0 ==> o[obj_index(o, key@)].0 == key@ && (forall|j: int|
                0 <= j < obj_index(o, key@) ==> o[j].0 != key@),
            obj_index(o, key@) == -1 ==> (forall|j: int| 0 <= j < o.len() ==> o[j].0 != key@),
            forall|j: int| 0 <= j < i ==> o[j].0 != key@,
            forall|j: int| 0 <= j < entries@.len() ==> o[j] == (entries@[j].0@, jv(entries@[j].1)),
        decreases entries@.len() - i,
    {
        let pair = &entries[i];
        if str_eq(pair.0.as_str(), key) {
            proof {
                assert(o[i as int].0 == key@);
                let idx = obj_index(o, key@);
                if idx == -1 {
                    assert(o[i as int].0 != key@);
                } else if idx < i as int {
                    assert(o[idx].0 != key@);
                } else if idx > i as int {
                    assert(o[i as int].0 != key@);
                }
            }
            return Some(i);
        }
        i += 1;
    }
    None
}

} // verus!
