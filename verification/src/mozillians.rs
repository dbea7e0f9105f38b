//! The community source mapper.
//!
//! A null record maps to no change at all. Otherwise the record must
//! carry a username — it seeds the identifier and always becomes the
//! stored handle. Community data fills only fields still at their
//! defaults, except that the active flag is forced on; free-text tags and
//! skills flatten into one de-duplicated keyed set, as do preferred
//! languages; URIs are copied under a fixed key prefix, dropping empty
//! values; a picture URL becomes a remote avatar job when no avatar is
//! set yet.
use vstd::prelude::*;

use crate::avatar::{opt_job_m, PictureJob, PictureJobM, PictureSource, PictureSourceM};
use crate::jsonval::{
    clone_json, entries_insert, entries_put, jix, jm, jm_entries, jm_seq, json_get, json_str,
    jstr, obj_entries, JsonM, JsonVal,
};
use crate::ldap::{jos, opt_str_ok, png_suffix};
use crate::schema::{
    ob, AccessInformationValuesArray, IdentitiesAttributesValuesArray, MapError, Profile,
    ProfileM, StandardAttributeString, StandardAttributeStringM,
};
use crate::text::{clone_bytes, concat2, sbytes, str_bytes};
use crate::username::{derive_id, derive_id_m};

verus! {

/// The elements of `m` when it is an array, empty otherwise.
pub open spec fn arr_items(m: JsonM) -> Seq<JsonM> {
    match m {
        JsonM::Arr(a) => a,
        _ => Seq::empty(),
    }
}

/// The head element of an array, null otherwise: how the first
/// identity-provider entry is read.
pub open spec fn idx0(m: JsonM) -> JsonM {
    match m {
        JsonM::Arr(a) => if a.len() > 0 {
            a[0]
        } else {
            JsonM::Null
        },
        _ => JsonM::Null,
    }
}

/// One flattening step: a text item becomes a key with an empty
/// placeholder value; anything else is passed over.
pub open spec fn collect_step(acc: Seq<(Seq<u8>, JsonM)>, item: JsonM) -> Seq<(Seq<u8>, JsonM)> {
    match item {
        JsonM::Str(s) => entries_put(acc, s, JsonM::Null),
        _ => acc,
    }
}

/// Flatten text items into a keyed set: keys are the texts themselves,
/// first occurrence keeps its place, values are empty placeholders.
pub open spec fn collect_str_keys(items: Seq<JsonM>, acc: Seq<(Seq<u8>, JsonM)>) -> Seq<
    (Seq<u8>, JsonM),
>
    decreases items.len(),
{
    if items.len() == 0 {
        acc
    } else {
        collect_str_keys(items.drop_first(), collect_step(acc, items[0]))
    }
}

/// Flattening one more item steps the fold once.
pub proof fn lemma_collect_snoc(items: Seq<JsonM>, x: JsonM, acc: Seq<(Seq<u8>, JsonM)>)
    ensures
        collect_str_keys(items.push(x), acc) == collect_step(collect_str_keys(items, acc), x),
    decreases items.len(),
{
    if items.len() == 0 {
        assert(items.push(x)[0] == x);
        assert(items.push(x).drop_first() =~= Seq::<JsonM>::empty());
        assert(collect_str_keys(Seq::<JsonM>::empty(), collect_step(acc, x)) == collect_step(
            acc,
            x,
        ));
    } else {
        assert(items.push(x)[0] == items[0]);
        assert(items.push(x).drop_first() =~= items.drop_first().push(x));
        lemma_collect_snoc(items.drop_first(), x, collect_step(acc, items[0]));
    }
}

/// The bytes of `"EA#"`, the prefix stamped on copied URI keys.
pub open spec fn ea_tag() -> Seq<u8> {
    sbytes("EA#")
}

/// The copied URIs: every entry with non-empty text, its key prefixed,
/// in entry order.
pub open spec fn uris_of(es: Seq<(Seq<u8>, JsonM)>) -> Seq<(Seq<u8>, JsonM)>
    decreases es.len(),
{
    if es.len() == 0 {
        Seq::empty()
    } else {
        (match es[0].1 {
            JsonM::Str(s) => if s.len() > 0 {
                seq![(ea_tag() + es[0].0, JsonM::Str(s))]
            } else {
                Seq::empty()
            },
            _ => Seq::empty(),
        }) + uris_of(es.drop_first())
    }
}

/// Copying one more entry appends its case.
pub proof fn lemma_uris_snoc(es: Seq<(Seq<u8>, JsonM)>, x: (Seq<u8>, JsonM))
    ensures
        uris_of(es.push(x)) == uris_of(es) + (match x.1 {
            JsonM::Str(s) => if s.len() > 0 {
                seq![(ea_tag() + x.0, JsonM::Str(s))]
            } else {
                Seq::empty()
            },
            _ => Seq::empty(),
        }),
    decreases es.len(),
{
    if es.len() == 0 {
        assert(es.push(x)[0] == x);
        assert(es.push(x).drop_first() =~= Seq::<(Seq<u8>, JsonM)>::empty());
        assert(uris_of(Seq::<(Seq<u8>, JsonM)>::empty()) =~= Seq::<(Seq<u8>, JsonM)>::empty());
        assert(uris_of(es.push(x)) =~= uris_of(es) + (match x.1 {
            JsonM::Str(s) => if s.len() > 0 {
                seq![(ea_tag() + x.0, JsonM::Str(s))]
            } else {
                Seq::<(Seq<u8>, JsonM)>::empty()
            },
            _ => Seq::<(Seq<u8>, JsonM)>::empty(),
        }));
    } else {
        assert(es.push(x)[0] == es[0]);
        assert(es.push(x).drop_first() =~= es.drop_first().push(x));
        lemma_uris_snoc(es.drop_first(), x);
        assert(uris_of(es.push(x)) =~= uris_of(es) + (match x.1 {
            JsonM::Str(s) => if s.len() > 0 {
                seq![(ea_tag() + x.0, JsonM::Str(s))]
            } else {
                Seq::<(Seq<u8>, JsonM)>::empty()
            },
            _ => Seq::<(Seq<u8>, JsonM)>::empty(),
        }));
    }
}

/// Is every sub-field the community mapper would read, given the
/// accumulated profile, of an acceptable shape? Only fields still unset
/// are read at all.
pub open spec fn moz_shape_ok(m: JsonM, p: ProfileM) -> bool {
    &&& p.first_name.value is None ==> opt_str_ok(jix(m, sbytes("first_name")))
    &&& p.last_name.value is None ==> opt_str_ok(jix(m, sbytes("last_name")))
    &&& p.user_id.value is None ==> opt_str_ok(jix(m, sbytes("user_id")))
    &&& p.fun_title.value is None ==> opt_str_ok(jix(m, sbytes("fun_title")))
    &&& p.description.value is None ==> opt_str_ok(jix(m, sbytes("description")))
    &&& p.timezone.value is None ==> opt_str_ok(jix(m, sbytes("timezone")))
    &&& p.primary_email.value is None ==> opt_str_ok(
        jix(idx0(jix(m, sbytes("idps"))), sbytes("email")),
    )
}

/// An unset payload filled from the record, a set one kept.
pub open spec fn fill_if_none(keep: Option<Seq<u8>>, m: JsonM) -> Option<Seq<u8>> {
    match keep {
        Some(s) => Some(s),
        None => jstr(m),
    }
}

/// The remote avatar job a community record gives rise to: only when no
/// avatar is set yet, the output directory is configured and the record
/// carries a picture URL.
pub open spec fn moz_job_m(
    m: JsonM,
    p: ProfileM,
    avatar_out: Option<Seq<u8>>,
    id36: Seq<u8>,
) -> Option<PictureJobM> {
    match (avatar_out, jstr(jix(m, sbytes("picture")))) {
        (Some(_), Some(u)) => if p.picture.value is None {
            Some(PictureJobM { source: PictureSourceM::Remote(u), name: id36 + png_suffix() })
        } else {
            None
        },
        _ => None,
    }
}

/// What the community mapper does. A null record changes nothing. A
/// record without a username is dropped, as is one whose read sub-fields
/// have the wrong shape. Otherwise only unset fields fill from the
/// record, the active flag is forced on, tags and skills flatten into
/// one keyed set, languages likewise, URIs copy under the fixed prefix
/// dropping empty values, the username always becomes the stored handle,
/// an unset primary email fills from the first identity provider, and a
/// picture URL becomes a remote avatar job when no avatar is set.
#[verifier::opaque]
pub open spec fn map_mozillians_m(
    p: ProfileM,
    m: JsonM,
    avatar_out: Option<Seq<u8>>,
) -> Result<(ProfileM, Option<PictureJobM>), MapError> {
    if m is Null {
        Ok((p, None))
    } else {
        match jstr(jix(m, sbytes("username"))) {
            None => Err(MapError::MissingUsername),
            Some(username) => if !moz_shape_ok(m, p) {
                Err(MapError::BadShape)
            } else {
                Ok(
                    (
                        map_mozillians_profile_m(p, m, username),
                        moz_job_m(m, p, avatar_out, derive_id_m(username)),
                    ),
                )
            },
        }
    }
}

/// The profile after a successful community mapping.
#[verifier::opaque]
pub open spec fn map_mozillians_profile_m(p: ProfileM, m: JsonM, username: Seq<u8>) -> ProfileM {
    ProfileM {
        first_name: StandardAttributeStringM {
            value: fill_if_none(p.first_name.value, jix(m, sbytes("first_name"))),
            ..p.first_name
        },
        last_name: StandardAttributeStringM {
            value: fill_if_none(p.last_name.value, jix(m, sbytes("last_name"))),
            ..p.last_name
        },
        identities: crate::schema::IdentitiesAttributesValuesArrayM {
            dinopark_id: StandardAttributeStringM {
                value: match p.identities.dinopark_id.value {
                    Some(s) => Some(s),
                    None => Some(derive_id_m(username)),
                },
                ..p.identities.dinopark_id
            },
            ..p.identities
        },
        user_id: StandardAttributeStringM {
            value: fill_if_none(p.user_id.value, jix(m, sbytes("user_id"))),
            ..p.user_id
        },
        fun_title: StandardAttributeStringM {
            value: fill_if_none(p.fun_title.value, jix(m, sbytes("fun_title"))),
            ..p.fun_title
        },
        active: crate::schema::StandardAttributeBooleanM { value: true, ..p.active },
        description: StandardAttributeStringM {
            value: fill_if_none(p.description.value, jix(m, sbytes("description"))),
            ..p.description
        },
        timezone: StandardAttributeStringM {
            value: fill_if_none(p.timezone.value, jix(m, sbytes("timezone"))),
            ..p.timezone
        },
        access_information: crate::schema::AccessInformationValuesArrayM {
            mozilliansorg: crate::schema::AccessInformationProviderSubObjectM {
                values: jix(m, sbytes("access_information")),
                ..p.access_information.mozilliansorg
            },
            ..p.access_information
        },
        tags: crate::schema::StandardAttributeValuesM {
            values: collect_str_keys(
                arr_items(jix(m, sbytes("tags"))) + arr_items(jix(m, sbytes("skills"))),
                Seq::empty(),
            ),
            ..p.tags
        },
        languages: crate::schema::StandardAttributeValuesM {
            values: collect_str_keys(
                arr_items(jix(m, sbytes("preferred_language"))),
                Seq::empty(),
            ),
            ..p.languages
        },
        uris: crate::schema::StandardAttributeValuesM {
            values: if jix(m, sbytes("uris")) is Obj {
                uris_of(obj_entries(jix(m, sbytes("uris"))))
            } else {
                p.uris.values
            },
            ..p.uris
        },
        primary_email: StandardAttributeStringM {
            value: fill_if_none(
                p.primary_email.value,
                jix(idx0(jix(m, sbytes("idps"))), sbytes("email")),
            ),
            ..p.primary_email
        },
        usernames: crate::schema::StandardAttributeValuesM {
            values: entries_put(p.usernames.values, sbytes("mozilliansorg"), JsonM::Str(username)),
            ..p.usernames
        },
        ..p
    }
}

/// The model of a mapper result.
pub open spec fn moz_res_m(r: Result<(Profile, Option<PictureJob>), MapError>) -> Result<
    (ProfileM, Option<PictureJobM>),
    MapError,
> {
    match r {
        Ok((p, j)) => Ok((p@, opt_job_m(j))),
        Err(e) => Err(e),
    }
}

/// Read the text under `key`, where there is text.
pub fn get_str1(v: &JsonVal, key: &str) -> (r: Option<Vec<u8>>)
    ensures
        match r {
            Some(s) => jstr(jix(jm(*v), sbytes(key))) == Some(s@),
            None => jstr(jix(jm(*v), sbytes(key))) is None,
        },
{
    let k = str_bytes(key);
    match json_get(v, &k) {
        Some(x) => json_str(x),
        None => None,
    }
}

/// Read an optional text field, but only when the accumulated payload is
/// still unset; a present non-text field is a shape error.
fn fill_opt_str(
    keep: Option<Vec<u8>>,
    v: &JsonVal,
    key: &str,
) -> (r: Result<Option<Vec<u8>>, MapError>)
    ensures
        match r {
            Ok(o) => (ob(keep) is None ==> opt_str_ok(jix(jm(*v), sbytes(key)))) && ob(o)
                == fill_if_none(ob(keep), jix(jm(*v), sbytes(key))),
            Err(e) => e == MapError::BadShape && ob(keep) is None && !opt_str_ok(
                jix(jm(*v), sbytes(key)),
            ),
        },
{
    match keep {
        Some(s) => Ok(Some(s)),
        None => {
            let k = str_bytes(key);
            match json_get(v, &k) {
                None => Ok(None),
                Some(x) => match x {
                    JsonVal::Null => Ok(None),
                    JsonVal::Str(s) => Ok(Some(clone_bytes(s))),
                    _ => Err(MapError::BadShape),
                },
            }
        },
    }
}

/// Flatten the text items of an array value into the accumulating keyed
/// set.
fn collect_array(acc: &mut Vec<(Vec<u8>, JsonVal)>, v: Option<&JsonVal>, items: Ghost<Seq<JsonM>>)
    requires
        match v {
            Some(x) => items@ == arr_items(jm(*x)),
            None => items@ == Seq::<JsonM>::empty(),
        },
    ensures
        jm_entries(final(acc)@) == collect_str_keys(items@, jm_entries(old(acc)@)),
{
    broadcast use crate::jsonval::lemma_jm_seq, crate::jsonval::lemma_jm_entries;

    let ghost acc0 = jm_entries(old(acc)@);
    match v {
        Some(x) => match x {
            JsonVal::Arr(a) => {
                let ghost am = jm_seq(a@);
                let mut i: usize = 0;
                #[verifier::loop_isolation(false)]
                while i < a.len()
                    invariant
                        i <= a@.len(),
                        jm_entries(acc@) == collect_str_keys(am.take(i as int), acc0),
                    decreases a@.len() - i,
                {
                    proof {
                        assert(am.take(i as int).push(am[i as int]) =~= am.take(i + 1));
                        lemma_collect_snoc(am.take(i as int), am[i as int], acc0);
                    }
                    match &a[i] {
                        JsonVal::Str(s) => {
                            let key = clone_bytes(s);
                            entries_insert(acc, key, JsonVal::Null);
                        },
                        _ => {},
                    }
                    i += 1;
                }
                proof {
                    assert(am.take(a@.len() as int) =~= am);
                }
            },
            _ => {
                proof {
                    assert(collect_str_keys(Seq::<JsonM>::empty(), acc0) == acc0);
                }
            },
        },
        None => {
            proof {
                assert(collect_str_keys(Seq::<JsonM>::empty(), acc0) == acc0);
            }
        },
    }
}

/// Copy the URI entries under the fixed prefix, dropping empty values.
fn copy_uris(es: &Vec<(Vec<u8>, JsonVal)>) -> (r: Vec<(Vec<u8>, JsonVal)>)
    ensures
        jm_entries(r@) == uris_of(jm_entries(es@)),
{
    broadcast use crate::jsonval::lemma_jm_entries;

    let ghost esm = jm_entries(es@);
    let tag = str_bytes("EA#");
    let mut r: Vec<(Vec<u8>, JsonVal)> = Vec::new();
    proof {
        assert(uris_of(esm.take(0)) =~= Seq::<(Seq<u8>, JsonM)>::empty());
        assert(jm_entries(r@) =~= uris_of(esm.take(0)));
    }
    let mut i: usize = 0;
    #[verifier::loop_isolation(false)]
    while i < es.len()
        invariant
            i <= es@.len(),
            tag@ == ea_tag(),
            jm_entries(r@) == uris_of(esm.take(i as int)),
        decreases es@.len() - i,
    {
        proof {
            assert(esm.take(i as int).push(esm[i as int]) =~= esm.take(i + 1));
            lemma_uris_snoc(esm.take(i as int), esm[i as int]);
        }
        match &es[i].1 {
            JsonVal::Str(s) => {
                if s.len() > 0 {
                    let key = concat2(&tag, &es[i].0);
                    r.push((key, JsonVal::Str(clone_bytes(s))));
                    proof {
                        assert(jm_entries(r@) =~= uris_of(esm.take(i + 1)));
                    }
                } else {
                    proof {
                        assert(jm_entries(r@) =~= uris_of(esm.take(i + 1)));
                    }
                }
            },
            _ => {
                proof {
                    assert(jm_entries(r@) =~= uris_of(esm.take(i + 1)));
                }
            },
        }
        i += 1;
    }
    proof {
        assert(esm.take(es@.len() as int) =~= esm);
    }
    r
}

/// Apply the community mapper to an accumulating profile; on success the
/// profile comes back with any avatar job for the caller to run.
#[verifier::rlimit(100)]
pub fn map_mozillians(
    p2: Profile,
    mozillians: &JsonVal,
    avatar_out: &Option<Vec<u8>>,
) -> (r: Result<(Profile, Option<PictureJob>), MapError>)
    ensures
        moz_res_m(r) == map_mozillians_m(p2@, jm(*mozillians), ob(*avatar_out)),
{
    let ghost p0 = p2@;
    let ghost mm = jm(*mozillians);
    proof {
        reveal(map_mozillians_m);
        reveal(map_mozillians_profile_m);
    }
    if mozillians.is_null() {
        return Ok((p2, None));
    }

    let username = match get_str1(mozillians, "username") {
        Some(u) => u,
        None => {
            return Err(MapError::MissingUsername);
        },
    };
    let id36 = derive_id(&username);

    let first_name = match fill_opt_str(p2.first_name.value, mozillians, "first_name") {
        Ok(o) => o,
        Err(e) => {
            return Err(e);
        },
    };
    let last_name = match fill_opt_str(p2.last_name.value, mozillians, "last_name") {
        Ok(o) => o,
        Err(e) => {
            return Err(e);
        },
    };
    let dinopark_value = match &p2.identities.dinopark_id.value {
        Some(s) => Some(clone_bytes(s)),
        None => Some(clone_bytes(&id36)),
    };
    let user_id = match fill_opt_str(p2.user_id.value, mozillians, "user_id") {
        Ok(o) => o,
        Err(e) => {
            return Err(e);
        },
    };
    let fun_title = match fill_opt_str(p2.fun_title.value, mozillians, "fun_title") {
        Ok(o) => o,
        Err(e) => {
            return Err(e);
        },
    };
    let description = match fill_opt_str(p2.description.value, mozillians, "description") {
        Ok(o) => o,
        Err(e) => {
            return Err(e);
        },
    };
    let timezone = match fill_opt_str(p2.timezone.value, mozillians, "timezone") {
        Ok(o) => o,
        Err(e) => {
            return Err(e);
        },
    };

    let access_moz = {
        let k = str_bytes("access_information");
        match json_get(mozillians, &k) {
            Some(x) => clone_json(x),
            None => JsonVal::Null,
        }
    };

    let mut tags: Vec<(Vec<u8>, JsonVal)> = Vec::new();
    let tk = str_bytes("tags");
    let sk = str_bytes("skills");
    let tags_v = json_get(mozillians, &tk);
    proof {
        assert(jm_entries(tags@) =~= Seq::<(Seq<u8>, JsonM)>::empty());
    }
    collect_array(
        &mut tags,
        tags_v,
        Ghost(
            match tags_v {
                Some(x) => arr_items(jm(*x)),
                None => Seq::empty(),
            },
        ),
    );
    let skills_v = json_get(mozillians, &sk);
    collect_array(
        &mut tags,
        skills_v,
        Ghost(
            match skills_v {
                Some(x) => arr_items(jm(*x)),
                None => Seq::empty(),
            },
        ),
    );
    proof {
        lemma_collect_append(
            arr_items(jix(mm, sbytes("tags"))),
            arr_items(jix(mm, sbytes("skills"))),
            Seq::empty(),
        );
        assert(arr_items(JsonM::Null) =~= Seq::<JsonM>::empty());
    }

    let mut languages: Vec<(Vec<u8>, JsonVal)> = Vec::new();
    let lk = str_bytes("preferred_language");
    let langs_v = json_get(mozillians, &lk);
    proof {
        assert(jm_entries(languages@) =~= Seq::<(Seq<u8>, JsonM)>::empty());
    }
    collect_array(
        &mut languages,
        langs_v,
        Ghost(
            match langs_v {
                Some(x) => arr_items(jm(*x)),
                None => Seq::empty(),
            },
        ),
    );

    let uk = str_bytes("uris");
    let uris = match json_get(mozillians, &uk) {
        Some(x) => match x {
            JsonVal::Obj(es) => Some(copy_uris(es)),
            _ => None,
        },
        None => None,
    };

    let job = {
        match avatar_out {
            Some(_) => match get_str1(mozillians, "picture") {
                Some(u) => if p2.picture.value.is_none() {
                    let png = str_bytes(".png");
                    Some(
                        PictureJob {
                            source: PictureSource::Remote(u),
                            name: concat2(&id36, &png),
                        },
                    )
                } else {
                    None
                },
                None => None,
            },
            None => None,
        }
    };

    let primary_email = {
        match p2.primary_email.value {
            Some(s) => Some(s),
            None => {
                let ik = str_bytes("idps");
                let ek = str_bytes("email");
                match json_get(mozillians, &ik) {
                    Some(x) => match x {
                        JsonVal::Arr(a) => if a.len() > 0 {
                            proof {
                                broadcast use crate::jsonval::lemma_jm_seq;

                            }
                            let ghost first = idx0(jm(*x));
                            match json_get(&a[0], &ek) {
                                Some(y) => match y {
                                    JsonVal::Null => None,
                                    JsonVal::Str(s) => Some(clone_bytes(s)),
                                    _ => {
                                        return Err(MapError::BadShape);
                                    },
                                },
                                None => None,
                            }
                        } else {
                            None
                        },
                        _ => None,
                    },
                    None => None,
                }
            },
        }
    };

    let mut usernames = crate::jsonval::clone_json_entries(&p2.usernames.values);
    let mozorg = str_bytes("mozilliansorg");
    entries_insert(&mut usernames, mozorg, JsonVal::Str(username));

    let identities = IdentitiesAttributesValuesArray {
        dinopark_id: p2.identities.dinopark_id.set_value(dinopark_value),
        ..p2.identities
    };
    let access_information = AccessInformationValuesArray {
        mozilliansorg: p2.access_information.mozilliansorg.set_values(access_moz),
        ..p2.access_information
    };
    let r = Profile {
        first_name: StandardAttributeString { value: first_name, ..p2.first_name },
        last_name: StandardAttributeString { value: last_name, ..p2.last_name },
        identities,
        user_id: StandardAttributeString { value: user_id, ..p2.user_id },
        fun_title: StandardAttributeString { value: fun_title, ..p2.fun_title },
        active: p2.active.set_value(true),
        description: StandardAttributeString { value: description, ..p2.description },
        timezone: StandardAttributeString { value: timezone, ..p2.timezone },
        access_information,
        tags: p2.tags.set_values(tags),
        languages: p2.languages.set_values(languages),
        uris: match uris {
            Some(u) => p2.uris.set_values(u),
            None => p2.uris,
        },
        primary_email: StandardAttributeString { value: primary_email, ..p2.primary_email },
        usernames: p2.usernames.set_values(usernames),
        ..p2
    };

    proof {
        let spec_r = map_mozillians_m(p0, mm, ob(*avatar_out));
        assert(spec_r is Ok);
        let (pm, jm_) = spec_r->Ok_0;
        assert(r@.first_name == pm.first_name);
        assert(r@.last_name == pm.last_name);
        assert(r@.identities == pm.identities);
        assert(r@.user_id == pm.user_id);
        assert(r@.fun_title == pm.fun_title);
        assert(r@.active == pm.active);
        assert(r@.description == pm.description);
        assert(r@.timezone == pm.timezone);
        assert(r@.access_information == pm.access_information);
        assert(r@.tags == pm.tags);
        assert(r@.languages == pm.languages);
        assert(r@.uris == pm.uris);
        assert(r@.primary_email == pm.primary_email);
        assert(r@.usernames == pm.usernames);
        assert(r@ == pm);
        assert(opt_job_m(job) == jm_);
    }
    Ok((r, job))
}

/// Flattening a concatenation folds the first part, then the second.
pub proof fn lemma_collect_append(a: Seq<JsonM>, b: Seq<JsonM>, acc: Seq<(Seq<u8>, JsonM)>)
    ensures
        collect_str_keys(a + b, acc) == collect_str_keys(b, collect_str_keys(a, acc)),
    decreases a.len(),
{
    if a.len() == 0 {
        assert(a + b =~= b);
    } else {
        assert((a + b)[0] == a[0]);
        assert((a + b).drop_first() =~= a.drop_first() + b);
        lemma_collect_append(a.drop_first(), b, collect_step(acc, a[0]));
    }
}

} // verus!
