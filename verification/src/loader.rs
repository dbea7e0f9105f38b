//! The record joiner.
//!
//! Each of the three sources is optional and arrives already parsed; the
//! joiner keys HR and directory records by primary work email, restricts
//! directory records to the organisational domains, builds a side index
//! from directory-assigned id to email, and attaches community records
//! through that index — or surfaces them under their own id. The result
//! is one bundle per identified person, in first-seen order.
use vstd::prelude::*;

use crate::hris::jfs;
use crate::jsonval::{clone_json, jix, jix2, jm, json_get, json_str, jstr, JsonM, JsonVal};
use crate::text::{clone_bytes, ends_with, is_suffix_of, sbytes, str_bytes};

verus! {

/// A fatal source-load failure: a source document had the wrong
/// top-level shape.
#[derive(Clone, Copy, PartialEq, Eq, Structural, Debug)]
pub enum LoadError {
    /// The HR document's entry list is not an array.
    HrisNotArray,
    /// The directory document is not an object.
    LdapNotObject,
    /// The community document is not an array.
    MozilliansNotArray,
}

/// One person's bundle of raw source records; `Null` marks an absent
/// source.
#[derive(Debug)]
pub struct Data {
    pub hris: JsonVal,
    pub ldap: JsonVal,
    pub mozillians: JsonVal,
}

/// Model of [`Data`].
pub struct DataM {
    pub hris: JsonM,
    pub ldap: JsonM,
    pub mozillians: JsonM,
}

impl View for Data {
    type V = DataM;

    open spec fn view(&self) -> DataM {
        DataM { hris: jm(self.hris), ldap: jm(self.ldap), mozillians: jm(self.mozillians) }
    }
}

/// The bundle map: one keyed bundle per person, in first-seen order.
pub type BundleMap = Vec<(Vec<u8>, Data)>;

/// The model of a bundle map.
pub open spec fn bmap_m(s: Seq<(Vec<u8>, Data)>) -> Seq<(Seq<u8>, DataM)>
    decreases s,
{
    if s.len() == 0 {
        Seq::empty()
    } else {
        seq![(s[0].0@, s[0].1@)] + bmap_m(s.drop_first())
    }
}

/// How `bmap_m` acts on each entry.
pub broadcast proof fn lemma_bmap_m(s: Seq<(Vec<u8>, Data)>)
    ensures
        (#[trigger] bmap_m(s)).len() == s.len(),
        forall|i: int| 0 <= i < s.len() ==> bmap_m(s)[i] == (s[i].0@, s[i].1@),
    decreases s.len(),
{
    if s.len() > 0 {
        lemma_bmap_m(s.drop_first());
        assert forall|i: int| 0 <= i < s.len() implies bmap_m(s)[i] == (s[i].0@, s[i].1@) by {
            if i > 0 {
                assert(s.drop_first()[i - 1] == s[i]);
            }
        }
    }
}

/// Does the bundle map carry `key`?
pub open spec fn bmap_has(s: Seq<(Seq<u8>, DataM)>, key: Seq<u8>) -> bool {
    exists|i: int| 0 <= i < s.len() && s[i].0 == key
}

/// The map with `key` bound to `d`: the first binding replaced in place,
/// or a new one appended.
pub open spec fn bmap_put(s: Seq<(Seq<u8>, DataM)>, key: Seq<u8>, d: DataM) -> Seq<
    (Seq<u8>, DataM),
>
    decreases s.len(),
{
    if s.len() == 0 {
        seq![(key, d)]
    } else if s[0].0 == key {
        seq![(key, d)] + s.drop_first()
    } else {
        seq![s[0]] + bmap_put(s.drop_first(), key, d)
    }
}

/// The map with the directory record of `key`'s first binding replaced;
/// unchanged where `key` is absent.
pub open spec fn bmap_set_ldap(s: Seq<(Seq<u8>, DataM)>, key: Seq<u8>, l: JsonM) -> Seq<
    (Seq<u8>, DataM),
>
    decreases s.len(),
{
    if s.len() == 0 {
        s
    } else if s[0].0 == key {
        seq![(key, DataM { ldap: l, ..s[0].1 })] + s.drop_first()
    } else {
        seq![s[0]] + bmap_set_ldap(s.drop_first(), key, l)
    }
}

/// The map with the community record of `key`'s first binding replaced;
/// unchanged where `key` is absent.
pub open spec fn bmap_set_moz(s: Seq<(Seq<u8>, DataM)>, key: Seq<u8>, m: JsonM) -> Seq<
    (Seq<u8>, DataM),
>
    decreases s.len(),
{
    if s.len() == 0 {
        s
    } else if s[0].0 == key {
        seq![(key, DataM { mozillians: m, ..s[0].1 })] + s.drop_first()
    } else {
        seq![s[0]] + bmap_set_moz(s.drop_first(), key, m)
    }
}

/// The side index from directory-assigned id to email.
pub type IdIndex = Vec<(Vec<u8>, Vec<u8>)>;

/// The model of the side index.
pub open spec fn smap_m(s: Seq<(Vec<u8>, Vec<u8>)>) -> Seq<(Seq<u8>, Seq<u8>)>
    decreases s,
{
    if s.len() == 0 {
        Seq::empty()
    } else {
        seq![(s[0].0@, s[0].1@)] + smap_m(s.drop_first())
    }
}

/// How `smap_m` acts on each entry.
pub broadcast proof fn lemma_smap_m(s: Seq<(Vec<u8>, Vec<u8>)>)
    ensures
        (#[trigger] smap_m(s)).len() == s.len(),
        forall|i: int| 0 <= i < s.len() ==> smap_m(s)[i] == (s[i].0@, s[i].1@),
    decreases s.len(),
{
    if s.len() > 0 {
        lemma_smap_m(s.drop_first());
        assert forall|i: int| 0 <= i < s.len() implies smap_m(s)[i] == (s[i].0@, s[i].1@) by {
            if i > 0 {
                assert(s.drop_first()[i - 1] == s[i]);
            }
        }
    }
}

/// The index with `key` bound to `v`, first binding replaced or appended.
pub open spec fn smap_put(s: Seq<(Seq<u8>, Seq<u8>)>, key: Seq<u8>, v: Seq<u8>) -> Seq<
    (Seq<u8>, Seq<u8>),
>
    decreases s.len(),
{
    if s.len() == 0 {
        seq![(key, v)]
    } else if s[0].0 == key {
        seq![(key, v)] + s.drop_first()
    } else {
        seq![s[0]] + smap_put(s.drop_first(), key, v)
    }
}

/// The email under `key`, first match.
pub open spec fn smap_get(s: Seq<(Seq<u8>, Seq<u8>)>, key: Seq<u8>) -> Option<Seq<u8>>
    decreases s.len(),
{
    if s.len() == 0 {
        None
    } else if s[0].0 == key {
        Some(s[0].1)
    } else {
        smap_get(s.drop_first(), key)
    }
}

/// Store a bundle under `key`, as [`bmap_put`] says.
fn bundle_put(h: &mut BundleMap, key: Vec<u8>, d: Data)
    ensures
        bmap_m(final(h)@) == bmap_put(bmap_m(old(h)@), key@, d@),
{
    broadcast use lemma_bmap_m;

    let ghost hm0 = bmap_m(old(h)@);
    let ghost target = bmap_put(hm0, key@, d@);
    proof {
        assert(hm0.skip(0) =~= hm0);
        assert(hm0.take(0) + bmap_put(hm0.skip(0), key@, d@) =~= target);
    }
    let mut i: usize = 0;
    #[verifier::loop_isolation(false)]
    while i < h.len()
        invariant
            i <= h@.len(),
            h@ == old(h)@,
            target == hm0.take(i as int) + bmap_put(hm0.skip(i as int), key@, d@),
        decreases h@.len() - i,
    {
        if crate::text::bytes_eq(&h[i].0, &key) {
            proof {
                assert(hm0.skip(i as int)[0] == hm0[i as int]);
                assert(hm0.skip(i as int).drop_first() =~= hm0.skip(i + 1));
            }
            h[i] = (key, d);
            proof {
                assert(bmap_m(h@) =~= target);
            }
            return ;
        }
        proof {
            assert(hm0.skip(i as int)[0] == hm0[i as int]);
            assert(hm0.skip(i as int).drop_first() =~= hm0.skip(i + 1));
            assert(hm0.take(i + 1) =~= hm0.take(i as int).push(hm0[i as int]));
            assert(hm0.take(i + 1) + bmap_put(hm0.skip(i + 1), key@, d@) =~= target);
        }
        i += 1;
    }
    proof {
        assert(hm0.skip(h@.len() as int) =~= Seq::<(Seq<u8>, DataM)>::empty());
        assert(hm0.take(h@.len() as int) =~= hm0);
    }
    h.push((key, d));
    proof {
        assert(bmap_m(h@) =~= target);
    }
}

/// Attach a directory record to `key`'s bundle, as [`bmap_set_ldap`] says.
fn bundle_set_ldap(h: &mut BundleMap, key: &Vec<u8>, l: JsonVal)
    ensures
        bmap_m(final(h)@) == bmap_set_ldap(bmap_m(old(h)@), key@, jm(l)),
{
    broadcast use lemma_bmap_m;

    let ghost hm0 = bmap_m(old(h)@);
    let ghost target = bmap_set_ldap(hm0, key@, jm(l));
    proof {
        assert(hm0.skip(0) =~= hm0);
        assert(hm0.take(0) + bmap_set_ldap(hm0.skip(0), key@, jm(l)) =~= target);
    }
    let mut i: usize = 0;
    #[verifier::loop_isolation(false)]
    while i < h.len()
        invariant
            i <= h@.len(),
            h@ == old(h)@,
            target == hm0.take(i as int) + bmap_set_ldap(hm0.skip(i as int), key@, jm(l)),
        decreases h@.len() - i,
    {
        if crate::text::bytes_eq(&h[i].0, key) {
            proof {
                assert(hm0.skip(i as int)[0] == hm0[i as int]);
                assert(hm0.skip(i as int).drop_first() =~= hm0.skip(i + 1));
            }
            let k = clone_bytes(&h[i].0);
            let old_entry = h.remove(i);
            let nd = Data { hris: old_entry.1.hris, ldap: l, mozillians: old_entry.1.mozillians };
            h.insert(i, (k, nd));
            proof {
                assert(bmap_m(h@) =~= target);
            }
            return ;
        }
        proof {
            assert(hm0.skip(i as int)[0] == hm0[i as int]);
            assert(hm0.skip(i as int).drop_first() =~= hm0.skip(i + 1));
            assert(hm0.take(i + 1) =~= hm0.take(i as int).push(hm0[i as int]));
            assert(hm0.take(i + 1) + bmap_set_ldap(hm0.skip(i + 1), key@, jm(l)) =~= target);
        }
        i += 1;
    }
    proof {
        assert(hm0.skip(h@.len() as int) =~= Seq::<(Seq<u8>, DataM)>::empty());
        assert(hm0.take(h@.len() as int) =~= hm0);
        assert(bmap_m(h@) =~= target);
    }
}

/// Attach a community record to `key`'s bundle, as [`bmap_set_moz`] says.
fn bundle_set_moz(h: &mut BundleMap, key: &Vec<u8>, m: JsonVal)
    ensures
        bmap_m(final(h)@) == bmap_set_moz(bmap_m(old(h)@), key@, jm(m)),
{
    broadcast use lemma_bmap_m;

    let ghost hm0 = bmap_m(old(h)@);
    let ghost target = bmap_set_moz(hm0, key@, jm(m));
    proof {
        assert(hm0.skip(0) =~= hm0);
        assert(hm0.take(0) + bmap_set_moz(hm0.skip(0), key@, jm(m)) =~= target);
    }
    let mut i: usize = 0;
    #[verifier::loop_isolation(false)]
    while i < h.len()
        invariant
            i <= h@.len(),
            h@ == old(h)@,
            target == hm0.take(i as int) + bmap_set_moz(hm0.skip(i as int), key@, jm(m)),
        decreases h@.len() - i,
    {
        if crate::text::bytes_eq(&h[i].0, key) {
            proof {
                assert(hm0.skip(i as int)[0] == hm0[i as int]);
                assert(hm0.skip(i as int).drop_first() =~= hm0.skip(i + 1));
            }
            let k = clone_bytes(&h[i].0);
            let old_entry = h.remove(i);
            let nd = Data { hris: old_entry.1.hris, ldap: old_entry.1.ldap, mozillians: m };
            h.insert(i, (k, nd));
            proof {
                assert(bmap_m(h@) =~= target);
            }
            return ;
        }
        proof {
            assert(hm0.skip(i as int)[0] == hm0[i as int]);
            assert(hm0.skip(i as int).drop_first() =~= hm0.skip(i + 1));
            assert(hm0.take(i + 1) =~= hm0.take(i as int).push(hm0[i as int]));
            assert(hm0.take(i + 1) + bmap_set_moz(hm0.skip(i + 1), key@, jm(m)) =~= target);
        }
        i += 1;
    }
    proof {
        assert(hm0.skip(h@.len() as int) =~= Seq::<(Seq<u8>, DataM)>::empty());
        assert(hm0.take(h@.len() as int) =~= hm0);
        assert(bmap_m(h@) =~= target);
    }
}

/// Look an id up in the side index, as [`smap_get`] says.
fn index_get(s: &IdIndex, key: &Vec<u8>) -> (r: Option<Vec<u8>>)
    ensures
        match r {
            Some(v) => smap_get(smap_m(s@), key@) == Some(v@),
            None => smap_get(smap_m(s@), key@) is None,
        },
{
    broadcast use lemma_smap_m;

    let ghost sm = smap_m(s@);
    proof {
        assert(sm.skip(0) =~= sm);
    }
    let mut i: usize = 0;
    #[verifier::loop_isolation(false)]
    while i < s.len()
        invariant
            i <= s@.len(),
            smap_get(sm, key@) == smap_get(sm.skip(i as int), key@),
        decreases s@.len() - i,
    {
        proof {
            assert(sm.skip(i as int)[0] == sm[i as int]);
            assert(sm.skip(i as int).drop_first() =~= sm.skip(i + 1));
        }
        if crate::text::bytes_eq(&s[i].0, key) {
            return Some(clone_bytes(&s[i].1));
        }
        i += 1;
    }
    proof {
        assert(sm.skip(s@.len() as int) =~= Seq::<(Seq<u8>, Seq<u8>)>::empty());
    }
    None
}

/// Bind an id to an email in the side index, as [`smap_put`] says.
fn index_put(s: &mut IdIndex, key: Vec<u8>, v: Vec<u8>)
    ensures
        smap_m(final(s)@) == smap_put(smap_m(old(s)@), key@, v@),
{
    broadcast use lemma_smap_m;

    let ghost sm0 = smap_m(old(s)@);
    let ghost target = smap_put(sm0, key@, v@);
    proof {
        assert(sm0.skip(0) =~= sm0);
        assert(sm0.take(0) + smap_put(sm0.skip(0), key@, v@) =~= target);
    }
    let mut i: usize = 0;
    #[verifier::loop_isolation(false)]
    while i < s.len()
        invariant
            i <= s@.len(),
            s@ == old(s)@,
            target == sm0.take(i as int) + smap_put(sm0.skip(i as int), key@, v@),
        decreases s@.len() - i,
    {
        if crate::text::bytes_eq(&s[i].0, &key) {
            proof {
                assert(sm0.skip(i as int)[0] == sm0[i as int]);
                assert(sm0.skip(i as int).drop_first() =~= sm0.skip(i + 1));
            }
            s[i] = (key, v);
            proof {
                assert(smap_m(s@) =~= target);
            }
            return ;
        }
        proof {
            assert(sm0.skip(i as int)[0] == sm0[i as int]);
            assert(sm0.skip(i as int).drop_first() =~= sm0.skip(i + 1));
            assert(sm0.take(i + 1) =~= sm0.take(i as int).push(sm0[i as int]));
            assert(sm0.take(i + 1) + smap_put(sm0.skip(i + 1), key@, v@) =~= target);
        }
        i += 1;
    }
    proof {
        assert(sm0.skip(s@.len() as int) =~= Seq::<(Seq<u8>, Seq<u8>)>::empty());
        assert(sm0.take(s@.len() as int) =~= sm0);
    }
    s.push((key, v));
    proof {
        assert(smap_m(s@) =~= target);
    }
}

} // verus!
verus! {

/// The values of an object's entries, in entry order.
pub open spec fn entry_values(es: Seq<(Seq<u8>, JsonM)>) -> Seq<JsonM> {
    Seq::new(es.len(), |i: int| es[i].1)
}

/// One HR joining step: an entry whose currently-active flag is the
/// literal `"1"` and which carries a primary work email is keyed by that
/// email as a fresh HR-only bundle; every other entry contributes
/// nothing.
pub open spec fn hris_step(s: Seq<(Seq<u8>, DataM)>, e: JsonM) -> Seq<(Seq<u8>, DataM)> {
    if jfs(e, sbytes("CurrentlyActive")) == Some(sbytes("1")) {
        match jstr(jix(e, sbytes("PrimaryWorkEmail"))) {
            Some(mail) => bmap_put(
                s,
                mail,
                DataM { hris: e, ldap: JsonM::Null, mozillians: JsonM::Null },
            ),
            None => s,
        }
    } else {
        s
    }
}

/// The HR entries joined left to right.
pub open spec fn hris_fold(s: Seq<(Seq<u8>, DataM)>, items: Seq<JsonM>) -> Seq<(Seq<u8>, DataM)>
    decreases items.len(),
{
    if items.len() == 0 {
        s
    } else {
        hris_fold(hris_step(s, items[0]), items.drop_first())
    }
}

/// Joining one more HR entry steps the fold once.
pub proof fn lemma_hris_fold_snoc(s: Seq<(Seq<u8>, DataM)>, items: Seq<JsonM>, x: JsonM)
    ensures
        hris_fold(s, items.push(x)) == hris_step(hris_fold(s, items), x),
    decreases items.len(),
{
    if items.len() == 0 {
        assert(items.push(x)[0] == x);
        assert(items.push(x).drop_first() =~= Seq::<JsonM>::empty());
        assert(hris_fold(hris_step(s, x), Seq::<JsonM>::empty()) == hris_step(s, x));
        assert(hris_fold(s, Seq::<JsonM>::empty()) == s);
    } else {
        assert(items.push(x)[0] == items[0]);
        assert(items.push(x).drop_first() =~= items.drop_first().push(x));
        lemma_hris_fold_snoc(hris_step(s, items[0]), items.drop_first(), x);
    }
}

/// Is the email under one of the organisational domains?
pub open spec fn domain_ok(mail: Seq<u8>) -> bool {
    is_suffix_of(sbytes("@mozilla.com"), mail) || is_suffix_of(
        sbytes("@mozillafoundation.org"),
        mail,
    ) || is_suffix_of(sbytes("@getpocket.com"), mail)
}

/// One directory joining step: a record with an organisational primary
/// email indexes its directory id, then attaches to the email's existing
/// bundle or starts one; every other record contributes nothing.
pub open spec fn ldap_step(
    st: (Seq<(Seq<u8>, DataM)>, Seq<(Seq<u8>, Seq<u8>)>),
    e: JsonM,
) -> (Seq<(Seq<u8>, DataM)>, Seq<(Seq<u8>, Seq<u8>)>) {
    match jstr(jix2(e, sbytes("primary_email"), sbytes("value"))) {
        Some(mail) => if domain_ok(mail) {
            let sm2 = match jstr(jix2(e, sbytes("user_id"), sbytes("value"))) {
                Some(id) => smap_put(st.1, id, mail),
                None => st.1,
            };
            let bm2 = if bmap_has(st.0, mail) {
                bmap_set_ldap(st.0, mail, e)
            } else {
                bmap_put(st.0, mail, DataM { hris: JsonM::Null, ldap: e, mozillians: JsonM::Null })
            };
            (bm2, sm2)
        } else {
            st
        },
        None => st,
    }
}

/// The directory records joined left to right.
pub open spec fn ldap_fold(
    st: (Seq<(Seq<u8>, DataM)>, Seq<(Seq<u8>, Seq<u8>)>),
    items: Seq<JsonM>,
) -> (Seq<(Seq<u8>, DataM)>, Seq<(Seq<u8>, Seq<u8>)>)
    decreases items.len(),
{
    if items.len() == 0 {
        st
    } else {
        ldap_fold(ldap_step(st, items[0]), items.drop_first())
    }
}

/// Joining one more directory record steps the fold once.
pub proof fn lemma_ldap_fold_snoc(
    st: (Seq<(Seq<u8>, DataM)>, Seq<(Seq<u8>, Seq<u8>)>),
    items: Seq<JsonM>,
    x: JsonM,
)
    ensures
        ldap_fold(st, items.push(x)) == ldap_step(ldap_fold(st, items), x),
    decreases items.len(),
{
    if items.len() == 0 {
        assert(items.push(x)[0] == x);
        assert(items.push(x).drop_first() =~= Seq::<JsonM>::empty());
        assert(ldap_fold(ldap_step(st, x), Seq::<JsonM>::empty()) == ldap_step(st, x));
        assert(ldap_fold(st, Seq::<JsonM>::empty()) == st);
    } else {
        assert(items.push(x)[0] == items[0]);
        assert(items.push(x).drop_first() =~= items.drop_first().push(x));
        lemma_ldap_fold_snoc(ldap_step(st, items[0]), items.drop_first(), x);
    }
}

/// One community joining step: a record with a username... a record whose
/// directory id resolves through the side index attaches to that email's
/// bundle where one exists; an unresolved id surfaces as a fresh
/// community-only bundle keyed by the id itself; a record without an id
/// contributes nothing.
pub open spec fn moz_step(
    bm: Seq<(Seq<u8>, DataM)>,
    sm: Seq<(Seq<u8>, Seq<u8>)>,
    e: JsonM,
) -> Seq<(Seq<u8>, DataM)> {
    match jstr(jix(e, sbytes("user_id"))) {
        Some(id) => match smap_get(sm, id) {
            Some(mail) => if bmap_has(bm, mail) {
                bmap_set_moz(bm, mail, e)
            } else {
                bm
            },
            None => bmap_put(
                bm,
                id,
                DataM { hris: JsonM::Null, ldap: JsonM::Null, mozillians: e },
            ),
        },
        None => bm,
    }
}

/// The community records joined left to right.
pub open spec fn moz_fold(
    bm: Seq<(Seq<u8>, DataM)>,
    sm: Seq<(Seq<u8>, Seq<u8>)>,
    items: Seq<JsonM>,
) -> Seq<(Seq<u8>, DataM)>
    decreases items.len(),
{
    if items.len() == 0 {
        bm
    } else {
        moz_fold(moz_step(bm, sm, items[0]), sm, items.drop_first())
    }
}

/// Joining one more community record steps the fold once.
pub proof fn lemma_moz_fold_snoc(
    bm: Seq<(Seq<u8>, DataM)>,
    sm: Seq<(Seq<u8>, Seq<u8>)>,
    items: Seq<JsonM>,
    x: JsonM,
)
    ensures
        moz_fold(bm, sm, items.push(x)) == moz_step(moz_fold(bm, sm, items), sm, x),
    decreases items.len(),
{
    if items.len() == 0 {
        assert(items.push(x)[0] == x);
        assert(items.push(x).drop_first() =~= Seq::<JsonM>::empty());
        assert(moz_fold(moz_step(bm, sm, x), sm, Seq::<JsonM>::empty()) == moz_step(bm, sm, x));
        assert(moz_fold(bm, sm, Seq::<JsonM>::empty()) == bm);
    } else {
        assert(items.push(x)[0] == items[0]);
        assert(items.push(x).drop_first() =~= items.drop_first().push(x));
        lemma_moz_fold_snoc(moz_step(bm, sm, items[0]), sm, items.drop_first(), x);
    }
}

/// Does the bundle map carry `key`?
fn bundle_has(h: &BundleMap, key: &Vec<u8>) -> (r: bool)
    ensures
        r <==> bmap_has(bmap_m(h@), key@),
{
    broadcast use lemma_bmap_m;

    let mut i: usize = 0;
    #[verifier::loop_isolation(false)]
    while i < h.len()
        invariant
            i <= h@.len(),
            forall|j: int| 0 <= j < i ==> bmap_m(h@)[j].0 != key@,
        decreases h@.len() - i,
    {
        if crate::text::bytes_eq(&h[i].0, key) {
            proof {
                assert(bmap_m(h@)[i as int].0 == key@);
            }
            return true;
        }
        i += 1;
    }
    false
}

} // verus!
verus! {

/// Join the HR source into the bundle map: nothing for a skipped source,
/// the fold of its entries otherwise, or the shape error with the map
/// untouched.
pub fn load_hris(hris: Option<&JsonVal>, h: &mut BundleMap) -> (r: Result<(), LoadError>)
    ensures
        match hris {
            None => r is Ok && bmap_m(final(h)@) == bmap_m(old(h)@),
            Some(v) => {
                let re = jix(jm(*v), sbytes("Report_Entry"));
                match r {
                    Ok(_) => re is Arr && bmap_m(final(h)@) == hris_fold(
                        bmap_m(old(h)@),
                        re->Arr_0,
                    ),
                    Err(e) => e == LoadError::HrisNotArray && !(re is Arr) && bmap_m(final(h)@)
                        == bmap_m(old(h)@),
                }
            },
        },
{
    broadcast use crate::jsonval::lemma_jm_seq;

    let v = match hris {
        None => {
            return Ok(());
        },
        Some(v) => v,
    };
    let rk = str_bytes("Report_Entry");
    let entries = match json_get(v, &rk) {
        Some(x) => match x {
            JsonVal::Arr(a) => a,
            _ => {
                return Err(LoadError::HrisNotArray);
            },
        },
        None => {
            return Err(LoadError::HrisNotArray);
        },
    };
    let ghost am = jix(jm(*v), sbytes("Report_Entry"))->Arr_0;
    let ghost hm0 = bmap_m(old(h)@);
    let ak = str_bytes("CurrentlyActive");
    let mk = str_bytes("PrimaryWorkEmail");
    let one = str_bytes("1");
    let mut i: usize = 0;
    #[verifier::loop_isolation(false)]
    while i < entries.len()
        invariant
            i <= entries@.len(),
            am == crate::jsonval::jm_seq(entries@),
            bmap_m(h@) == hris_fold(hm0, am.take(i as int)),
        decreases entries@.len() - i,
    {
        proof {
            assert(am.take(i as int).push(am[i as int]) =~= am.take(i + 1));
            lemma_hris_fold_snoc(hm0, am.take(i as int), am[i as int]);
        }
        let e = &entries[i];
        let active = match json_get(e, &ak) {
            Some(x) => match json_str(x) {
                Some(s) => crate::text::bytes_eq(&s, &one),
                None => false,
            },
            None => false,
        };
        if active {
            let mail = match json_get(e, &mk) {
                Some(x) => json_str(x),
                None => None,
            };
            match mail {
                Some(m) => {
                    let d = Data {
                        hris: clone_json(e),
                        ldap: JsonVal::Null,
                        mozillians: JsonVal::Null,
                    };
                    bundle_put(h, m, d);
                },
                None => {},
            }
        }
        i += 1;
    }
    proof {
        assert(am.take(entries@.len() as int) =~= am);
    }
    Ok(())
}

/// Join the directory source into the bundle map and fill the side
/// index: nothing for a skipped source, the fold of the object's records
/// otherwise, or the shape error with both untouched.
pub fn load_ldap(ldap: Option<&JsonVal>, h: &mut BundleMap, ldap_to_mail: &mut IdIndex) -> (r:
    Result<(), LoadError>)
    ensures
        match ldap {
            None => r is Ok && bmap_m(final(h)@) == bmap_m(old(h)@) && smap_m(final(ldap_to_mail)@)
                == smap_m(old(ldap_to_mail)@),
            Some(v) => match r {
                Ok(_) => jm(*v) is Obj && {
                    let folded = ldap_fold(
                        (bmap_m(old(h)@), smap_m(old(ldap_to_mail)@)),
                        entry_values(crate::jsonval::obj_entries(jm(*v))),
                    );
                    bmap_m(final(h)@) == folded.0 && smap_m(final(ldap_to_mail)@) == folded.1
                },
                Err(e) => e == LoadError::LdapNotObject && !(jm(*v) is Obj) && bmap_m(final(h)@)
                    == bmap_m(old(h)@) && smap_m(final(ldap_to_mail)@) == smap_m(
                    old(ldap_to_mail)@,
                ),
            },
        },
{
    broadcast use crate::jsonval::lemma_jm_entries;

    let v = match ldap {
        None => {
            return Ok(());
        },
        Some(v) => v,
    };
    let entries = match v {
        JsonVal::Obj(es) => es,
        _ => {
            return Err(LoadError::LdapNotObject);
        },
    };
    let ghost am = entry_values(crate::jsonval::obj_entries(jm(*v)));
    let ghost hm0 = bmap_m(old(h)@);
    let ghost sm0 = smap_m(old(ldap_to_mail)@);
    proof {
        assert(jm(*v) == JsonM::Obj(crate::jsonval::jm_entries(entries@)));
        assert forall|j: int| 0 <= j < entries@.len() implies am[j] == jm(entries@[j].1) by {
            assert(crate::jsonval::jm_entries(entries@)[j] == (
                entries@[j].0@,
                jm(entries@[j].1),
            ));
        }
    }
    let mut i: usize = 0;
    #[verifier::loop_isolation(false)]
    while i < entries.len()
        invariant
            i <= entries@.len(),
            am == entry_values(crate::jsonval::jm_entries(entries@)),
            am.len() == entries@.len(),
            forall|j: int| 0 <= j < entries@.len() ==> am[j] == jm(entries@[j].1),
            (bmap_m(h@), smap_m(ldap_to_mail@)) == ldap_fold((hm0, sm0), am.take(i as int)),
        decreases entries@.len() - i,
    {
        proof {
            assert(am.take(i as int).push(am[i as int]) =~= am.take(i + 1));
            lemma_ldap_fold_snoc((hm0, sm0), am.take(i as int), am[i as int]);
        }
        let e = &entries[i].1;
        match crate::ldap::get_str2(e, "primary_email", "value") {
            Some(mail) => {
                let d1 = str_bytes("@mozilla.com");
                let d2 = str_bytes("@mozillafoundation.org");
                let d3 = str_bytes("@getpocket.com");
                if ends_with(&mail, &d1) || ends_with(&mail, &d2) || ends_with(&mail, &d3) {
                    match crate::ldap::get_str2(e, "user_id", "value") {
                        Some(id) => {
                            index_put(ldap_to_mail, id, clone_bytes(&mail));
                        },
                        None => {},
                    }
                    if bundle_has(h, &mail) {
                        bundle_set_ldap(h, &mail, clone_json(e));
                    } else {
                        let d = Data {
                            hris: JsonVal::Null,
                            ldap: clone_json(e),
                            mozillians: JsonVal::Null,
                        };
                        bundle_put(h, mail, d);
                    }
                }
            },
            None => {},
        }
        i += 1;
    }
    proof {
        assert(am.take(entries@.len() as int) =~= am);
    }
    Ok(())
}

/// Join the community source into the bundle map through the side index:
/// nothing for a skipped source, the fold of its records otherwise, or
/// the shape error with the map untouched.
pub fn load_mozillians(
    mozillians: Option<&JsonVal>,
    h: &mut BundleMap,
    ldap_to_mail: &IdIndex,
) -> (r: Result<(), LoadError>)
    ensures
        match mozillians {
            None => r is Ok && bmap_m(final(h)@) == bmap_m(old(h)@),
            Some(v) => match r {
                Ok(_) => jm(*v) is Arr && bmap_m(final(h)@) == moz_fold(
                    bmap_m(old(h)@),
                    smap_m(ldap_to_mail@),
                    jm(*v)->Arr_0,
                ),
                Err(e) => e == LoadError::MozilliansNotArray && !(jm(*v) is Arr) && bmap_m(
                    final(h)@,
                ) == bmap_m(old(h)@),
            },
        },
{
    broadcast use crate::jsonval::lemma_jm_seq;

    let v = match mozillians {
        None => {
            return Ok(());
        },
        Some(v) => v,
    };
    let entries = match v {
        JsonVal::Arr(a) => a,
        _ => {
            return Err(LoadError::MozilliansNotArray);
        },
    };
    let ghost am = jm(*v)->Arr_0;
    let ghost hm0 = bmap_m(old(h)@);
    let ghost sm = smap_m(ldap_to_mail@);
    let mut i: usize = 0;
    #[verifier::loop_isolation(false)]
    while i < entries.len()
        invariant
            i <= entries@.len(),
            am == crate::jsonval::jm_seq(entries@),
            bmap_m(h@) == moz_fold(hm0, sm, am.take(i as int)),
        decreases entries@.len() - i,
    {
        proof {
            assert(am.take(i as int).push(am[i as int]) =~= am.take(i + 1));
            lemma_moz_fold_snoc(hm0, sm, am.take(i as int), am[i as int]);
        }
        let e = &entries[i];
        match crate::mozillians::get_str1(e, "user_id") {
            Some(id) => match index_get(ldap_to_mail, &id) {
                Some(mail) => {
                    if bundle_has(h, &mail) {
                        bundle_set_moz(h, &mail, clone_json(e));
                    }
                },
                None => {
                    let d = Data {
                        hris: JsonVal::Null,
                        ldap: JsonVal::Null,
                        mozillians: clone_json(e),
                    };
                    bundle_put(h, id, d);
                },
            },
            None => {},
        }
        i += 1;
    }
    proof {
        assert(am.take(entries@.len() as int) =~= am);
    }
    Ok(())
}

/// The whole join, as a function of the three optional parsed sources.
pub open spec fn load_all_m(
    hris: Option<JsonM>,
    ldap: Option<JsonM>,
    mozillians: Option<JsonM>,
) -> Result<Seq<(Seq<u8>, DataM)>, LoadError> {
    let hris_items = match hris {
        Some(hm) => if jix(hm, sbytes("Report_Entry")) is Arr {
            Ok(jix(hm, sbytes("Report_Entry"))->Arr_0)
        } else {
            Err(LoadError::HrisNotArray)
        },
        None => Ok(Seq::<JsonM>::empty()),
    };
    match hris_items {
        Err(e) => Err(e),
        Ok(hi) => {
            let bm1 = hris_fold(Seq::empty(), hi);
            let ldap_items = match ldap {
                Some(lm) => if lm is Obj {
                    Ok(entry_values(crate::jsonval::obj_entries(lm)))
                } else {
                    Err(LoadError::LdapNotObject)
                },
                None => Ok(Seq::<JsonM>::empty()),
            };
            match ldap_items {
                Err(e) => Err(e),
                Ok(li) => {
                    let folded = ldap_fold((bm1, Seq::empty()), li);
                    let moz_items = match mozillians {
                        Some(mm) => if mm is Arr {
                            Ok(mm->Arr_0)
                        } else {
                            Err(LoadError::MozilliansNotArray)
                        },
                        None => Ok(Seq::<JsonM>::empty()),
                    };
                    match moz_items {
                        Err(e) => Err(e),
                        Ok(mi) => Ok(moz_fold(folded.0, folded.1, mi)),
                    }
                },
            }
        },
    }
}

/// The model of an optional borrowed document.
pub open spec fn opt_jm(v: Option<&JsonVal>) -> Option<JsonM> {
    match v {
        Some(x) => Some(jm(*x)),
        None => None,
    }
}

/// Load and join all three sources, as [`load_all_m`] says: the complete
/// bundle map over the union of the sources, or the first source whose
/// top-level shape is wrong.
pub fn load_all(
    hris: Option<&JsonVal>,
    ldap: Option<&JsonVal>,
    mozillians: Option<&JsonVal>,
) -> (r: Result<BundleMap, LoadError>)
    ensures
        match r {
            Ok(h) => load_all_m(opt_jm(hris), opt_jm(ldap), opt_jm(mozillians)) == Ok::<
                _,
                LoadError,
            >(bmap_m(h@)),
            Err(e) => load_all_m(opt_jm(hris), opt_jm(ldap), opt_jm(mozillians)) == Err::<
                Seq<(Seq<u8>, DataM)>,
                _,
            >(e),
        },
{
    let mut h: BundleMap = Vec::new();
    let mut ldap_to_mail: IdIndex = Vec::new();
    proof {
        assert(bmap_m(h@) =~= Seq::<(Seq<u8>, DataM)>::empty());
        assert(smap_m(ldap_to_mail@) =~= Seq::<(Seq<u8>, Seq<u8>)>::empty());
        assert(hris_fold(Seq::empty(), Seq::<JsonM>::empty()) =~= Seq::<(Seq<u8>, DataM)>::empty());
    }
    match load_hris(hris, &mut h) {
        Ok(_) => {},
        Err(e) => {
            return Err(e);
        },
    }
    match load_ldap(ldap, &mut h, &mut ldap_to_mail) {
        Ok(_) => {},
        Err(e) => {
            return Err(e);
        },
    }
    match load_mozillians(mozillians, &mut h, &ldap_to_mail) {
        Ok(_) => {},
        Err(e) => {
            return Err(e);
        },
    }
    Ok(h)
}

} // verus!
