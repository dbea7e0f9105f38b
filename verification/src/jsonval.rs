//! A sum-typed representation of JSON documents.
//!
//! Source records arrive as JSON; the callers parse them into this type, and
//! all record logic in this crate works on it. Text and numbers are carried
//! as UTF-8 bytes, objects as key/value entry lists in insertion order.
use vstd::prelude::*;

verus! {

/// A JSON document.
#[derive(Debug)]
pub enum JsonVal {
    Null,
    Bool(bool),
    /// A number, kept as its literal text.
    Num(Vec<u8>),
    Str(Vec<u8>),
    Arr(Vec<JsonVal>),
    Obj(Vec<(Vec<u8>, JsonVal)>),
}

/// The mathematical model of a [`JsonVal`].
pub enum JsonM {
    Null,
    Bool(bool),
    Num(Seq<u8>),
    Str(Seq<u8>),
    Arr(Seq<JsonM>),
    Obj(Seq<(Seq<u8>, JsonM)>),
}

/// The model of a JSON value.
pub open spec fn jm(v: JsonVal) -> JsonM
    decreases v,
{
    match v {
        JsonVal::Null => JsonM::Null,
        JsonVal::Bool(b) => JsonM::Bool(b),
        JsonVal::Num(n) => JsonM::Num(n@),
        JsonVal::Str(s) => JsonM::Str(s@),
        JsonVal::Arr(a) => JsonM::Arr(jm_seq(a@)),
        JsonVal::Obj(es) => JsonM::Obj(jm_entries(es@)),
    }
}

/// The models of a sequence of JSON values, element by element.
pub open spec fn jm_seq(s: Seq<JsonVal>) -> Seq<JsonM>
    decreases s,
{
    if s.len() == 0 {
        Seq::empty()
    } else {
        seq![jm(s[0])] + jm_seq(s.drop_first())
    }
}

/// The models of an object's entries, key views paired with value models.
pub open spec fn jm_entries(es: Seq<(Vec<u8>, JsonVal)>) -> Seq<(Seq<u8>, JsonM)>
    decreases es,
{
    if es.len() == 0 {
        Seq::empty()
    } else {
        seq![(es[0].0@, jm(es[0].1))] + jm_entries(es.drop_first())
    }
}

/// How `jm_seq` acts on each element.
pub broadcast proof fn lemma_jm_seq(s: Seq<JsonVal>)
    ensures
        (#[trigger] jm_seq(s)).len() == s.len(),
        forall|i: int| 0 <= i < s.len() ==> jm_seq(s)[i] == jm(s[i]),
    decreases s.len(),
{
    if s.len() > 0 {
        lemma_jm_seq(s.drop_first());
        assert forall|i: int| 0 <= i < s.len() implies jm_seq(s)[i] == jm(s[i]) by {
            if i > 0 {
                assert(s.drop_first()[i - 1] == s[i]);
            }
        }
    }
}

/// How `jm_entries` acts on each entry.
pub broadcast proof fn lemma_jm_entries(es: Seq<(Vec<u8>, JsonVal)>)
    ensures
        (#[trigger] jm_entries(es)).len() == es.len(),
        forall|i: int| 0 <= i < es.len() ==> jm_entries(es)[i] == (es[i].0@, jm(es[i].1)),
    decreases es.len(),
{
    if es.len() > 0 {
        lemma_jm_entries(es.drop_first());
        assert forall|i: int| 0 <= i < es.len() implies jm_entries(es)[i] == (
            es[i].0@,
            jm(es[i].1),
        ) by {
            if i > 0 {
                assert(es.drop_first()[i - 1] == es[i]);
            }
        }
    }
}

/// The value under `key` in the modelled entry list, first match; `Null` if
/// absent.
pub open spec fn entries_index(es: Seq<(Seq<u8>, JsonM)>, key: Seq<u8>) -> JsonM
    decreases es.len(),
{
    if es.len() == 0 {
        JsonM::Null
    } else if es[0].0 == key {
        es[0].1
    } else {
        entries_index(es.drop_first(), key)
    }
}

/// Does the modelled entry list carry `key`?
pub open spec fn entries_has_key(es: Seq<(Seq<u8>, JsonM)>, key: Seq<u8>) -> bool {
    exists|i: int| 0 <= i < es.len() && es[i].0 == key
}

/// The value under `key` when `m` is an object, `Null` otherwise: the
/// indexing the record logic uses everywhere, missing fields reading as null.
pub open spec fn jix(m: JsonM, key: Seq<u8>) -> JsonM {
    match m {
        JsonM::Obj(es) => entries_index(es, key),
        _ => JsonM::Null,
    }
}

/// Nested indexing, two levels deep.
pub open spec fn jix2(m: JsonM, k1: Seq<u8>, k2: Seq<u8>) -> JsonM {
    jix(jix(m, k1), k2)
}

/// The text of `m` when it is a string.
pub open spec fn jstr(m: JsonM) -> Option<Seq<u8>> {
    match m {
        JsonM::Str(s) => Option::Some(s),
        _ => Option::None,
    }
}

impl JsonVal {
    /// Is this value `null`?
    pub fn is_null(&self) -> (r: bool)
        ensures
            r <==> jm(*self) is Null,
    {
        matches!(self, JsonVal::Null)
    }

    /// Is this value an object?
    pub fn is_object(&self) -> (r: bool)
        ensures
            r <==> jm(*self) is Obj,
    {
        matches!(self, JsonVal::Obj(_))
    }

    /// Is this value a string?
    pub fn is_string(&self) -> (r: bool)
        ensures
            r <==> jm(*self) is Str,
    {
        matches!(self, JsonVal::Str(_))
    }
}

/// Deep copy of a JSON value.
pub fn clone_json(v: &JsonVal) -> (r: JsonVal)
    ensures
        jm(r) == jm(*v),
    decreases v,
{
    broadcast use lemma_jm_seq, lemma_jm_entries;

    match v {
        JsonVal::Null => JsonVal::Null,
        JsonVal::Bool(b) => JsonVal::Bool(*b),
        JsonVal::Num(n) => JsonVal::Num(crate::text::clone_bytes(n)),
        JsonVal::Str(s) => JsonVal::Str(crate::text::clone_bytes(s)),
        JsonVal::Arr(a) => {
            let mut r: Vec<JsonVal> = Vec::new();
            let mut i: usize = 0;
            #[verifier::loop_isolation(false)]
            while i < a.len()
                invariant
                    i <= a.len(),
                    r@.len() == i,
                    forall|j: int| 0 <= j < i ==> jm(r@[j]) == jm(a@[j]),
                decreases a.len() - i,
            {
                proof {
                    assert(decreases_to!(*v => v->Arr_0));
                    assert(decreases_to!(v->Arr_0 => v->Arr_0[i as int]));
                }
                let c = clone_json(&a[i]);
                r.push(c);
                i += 1;
            }
            proof {
                assert(jm_seq(r@) =~= jm_seq(a@));
            }
            JsonVal::Arr(r)
        },
        JsonVal::Obj(es) => {
            let mut r: Vec<(Vec<u8>, JsonVal)> = Vec::new();
            let mut i: usize = 0;
            #[verifier::loop_isolation(false)]
            while i < es.len()
                invariant
                    i <= es.len(),
                    r@.len() == i,
                    forall|j: int|
                        0 <= j < i ==> r@[j].0@ == es@[j].0@ && jm(r@[j].1) == jm(es@[j].1),
                decreases es.len() - i,
            {
                proof {
                    assert(decreases_to!(*v => v->Obj_0));
                    assert(decreases_to!(v->Obj_0 => v->Obj_0[i as int]));
                    assert(decreases_to!(v->Obj_0[i as int] => v->Obj_0[i as int].1));
                }
                let k = crate::text::clone_bytes(&es[i].0);
                let c = clone_json(&es[i].1);
                r.push((k, c));
                i += 1;
            }
            proof {
                assert(jm_entries(r@) =~= jm_entries(es@));
            }
            JsonVal::Obj(r)
        },
    }
}

/// Field access: a borrow of the value under `key` where `v` is an object
/// holding it; `None` reads as `null`.
pub fn json_get<'a>(v: &'a JsonVal, key: &Vec<u8>) -> (r: Option<&'a JsonVal>)
    ensures
        match r {
            Some(x) => jm(*x) == jix(jm(*v), key@),
            None => jix(jm(*v), key@) == JsonM::Null,
        },
{
    broadcast use lemma_jm_entries;

    match v {
        JsonVal::Obj(es) => {
            let ghost esm = jm_entries(es@);
            proof {
                assert(esm.skip(0) =~= esm);
            }
            let mut i: usize = 0;
            #[verifier::loop_isolation(false)]
            while i < es.len()
                invariant
                    i <= es.len(),
                    entries_index(esm, key@) == entries_index(esm.skip(i as int), key@),
                    forall|j: int| 0 <= j < i ==> es@[j].0@ != key@,
                decreases es.len() - i,
            {
                if crate::text::bytes_eq(&es[i].0, key) {
                    proof {
                        assert(esm.skip(i as int)[0] == esm[i as int]);
                    }
                    return Some(&es[i].1);
                }
                proof {
                    assert(esm.skip(i as int)[0] == esm[i as int]);
                    assert(esm.skip(i as int).drop_first() =~= esm.skip(i + 1));
                }
                i += 1;
            }
            proof {
                assert(esm.skip(es@.len() as int) =~= Seq::<(Seq<u8>, JsonM)>::empty());
            }
            None
        },
        _ => None,
    }
}

/// Nested field access, two levels deep.
pub fn json_get2<'a>(v: &'a JsonVal, k1: &Vec<u8>, k2: &Vec<u8>) -> (r: Option<&'a JsonVal>)
    ensures
        match r {
            Some(x) => jm(*x) == jix2(jm(*v), k1@, k2@),
            None => jix2(jm(*v), k1@, k2@) == JsonM::Null,
        },
{
    match json_get(v, k1) {
        Some(x) => json_get(x, k2),
        None => None,
    }
}

/// String extraction: a copy of the text when `v` is a string.
pub fn json_str(v: &JsonVal) -> (r: Option<Vec<u8>>)
    ensures
        match r {
            Some(s) => jstr(jm(*v)) == Option::Some(s@),
            None => jstr(jm(*v)) is None,
        },
{
    match v {
        JsonVal::Str(s) => Some(crate::text::clone_bytes(s)),
        _ => None,
    }
}

} // verus!
verus! {

/// The entry list after storing `v` under `key`: the first entry under
/// `key` is replaced in place, or a new entry is appended.
pub open spec fn entries_put(es: Seq<(Seq<u8>, JsonM)>, key: Seq<u8>, v: JsonM) -> Seq<
    (Seq<u8>, JsonM),
>
    decreases es.len(),
{
    if es.len() == 0 {
        seq![(key, v)]
    } else if es[0].0 == key {
        seq![(key, v)] + es.drop_first()
    } else {
        seq![es[0]] + entries_put(es.drop_first(), key, v)
    }
}

/// The entries of `m` when it is an object, empty otherwise.
pub open spec fn obj_entries(m: JsonM) -> Seq<(Seq<u8>, JsonM)> {
    match m {
        JsonM::Obj(es) => es,
        _ => Seq::empty(),
    }
}

/// Store `val` under `key` in an entry list, as [`entries_put`] says.
pub fn entries_insert(es: &mut Vec<(Vec<u8>, JsonVal)>, key: Vec<u8>, val: JsonVal)
    ensures
        jm_entries(final(es)@) == entries_put(jm_entries(old(es)@), key@, jm(val)),
{
    broadcast use lemma_jm_entries;

    let ghost esm0 = jm_entries(old(es)@);
    let ghost target = entries_put(esm0, key@, jm(val));
    proof {
        assert(esm0.skip(0) =~= esm0);
        assert(esm0.take(0) + entries_put(esm0.skip(0), key@, jm(val)) =~= target);
    }
    let mut i: usize = 0;
    #[verifier::loop_isolation(false)]
    while i < es.len()
        invariant
            i <= es@.len(),
            es@ == old(es)@,
            target == esm0.take(i as int) + entries_put(esm0.skip(i as int), key@, jm(val)),
        decreases es@.len() - i,
    {
        if crate::text::bytes_eq(&es[i].0, &key) {
            proof {
                assert(esm0.skip(i as int)[0] == esm0[i as int]);
                assert(esm0.skip(i as int).drop_first() =~= esm0.skip(i + 1));
            }
            es[i] = (key, val);
            proof {
                assert(jm_entries(es@) =~= target);
            }
            return ;
        }
        proof {
            assert(esm0.skip(i as int)[0] == esm0[i as int]);
            assert(esm0.skip(i as int).drop_first() =~= esm0.skip(i + 1));
            assert(esm0.take(i + 1) =~= esm0.take(i as int).push(esm0[i as int]));
            assert(esm0.take(i + 1) + entries_put(esm0.skip(i + 1), key@, jm(val)) =~= target);
        }
        i += 1;
    }
    proof {
        assert(esm0.skip(es@.len() as int) =~= Seq::<(Seq<u8>, JsonM)>::empty());
        assert(esm0.take(es@.len() as int) =~= esm0);
    }
    es.push((key, val));
    proof {
        assert(jm_entries(es@) =~= target);
    }
}

/// Deep copy of an object's entry list.
pub fn clone_json_entries(es: &Vec<(Vec<u8>, JsonVal)>) -> (r: Vec<(Vec<u8>, JsonVal)>)
    ensures
        jm_entries(r@) == jm_entries(es@),
    decreases es,
{
    let mut r: Vec<(Vec<u8>, JsonVal)> = Vec::new();
    let mut i: usize = 0;
    #[verifier::loop_isolation(false)]
    while i < es.len()
        invariant
            i <= es.len(),
            r@.len() == i,
            forall|j: int| 0 <= j < i ==> r@[j].0@ == es@[j].0@ && jm(r@[j].1) == jm(es@[j].1),
        decreases es.len() - i,
    {
        proof {
            assert(decreases_to!(*es => es[i as int]));
            assert(decreases_to!(es[i as int] => es[i as int].1));
        }
        let k = crate::text::clone_bytes(&es[i].0);
        let c = clone_json(&es[i].1);
        r.push((k, c));
        i += 1;
    }
    proof {
        broadcast use lemma_jm_entries;

        assert(jm_entries(r@) =~= jm_entries(es@));
    }
    r
}

/// A copy of the entries of `v`, where `v` is an object.
pub fn json_entries_cloned(v: &JsonVal) -> (r: Option<Vec<(Vec<u8>, JsonVal)>>)
    ensures
        match r {
            Some(es) => jm(*v) is Obj && jm_entries(es@) == obj_entries(jm(*v)),
            None => !(jm(*v) is Obj),
        },
{
    match v {
        JsonVal::Obj(es) => Some(clone_json_entries(es)),
        _ => None,
    }
}

} // verus!
