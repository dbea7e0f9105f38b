//! The directory source mapper.
//!
//! A directory record must carry a primary email — that email keys the
//! person, seeds the synthetic identifier, and its absence drops the
//! record. Names, keys, phone numbers, identities and the per-source
//! access-information block are copied into the profile; a wrongly shaped
//! sub-field drops the whole record. The handle comes from a relay-chat
//! tag among the record's labelled usernames, or is generated; a stored
//! picture reference becomes a local avatar job for the caller.
use vstd::prelude::*;

use crate::avatar::{opt_job_m, PictureJob, PictureJobM, PictureSource, PictureSourceM};
use crate::jsonval::{
    clone_json, entries_insert, entries_put, jix, jix2, jm, jm_entries, json_entries_cloned,
    json_get, json_get2, json_str, jstr, obj_entries, JsonM, JsonVal,
};
use crate::schema::{
    ob, AccessInformationValuesArray, AccessInformationValuesArrayM,
    IdentitiesAttributesValuesArray, IdentitiesAttributesValuesArrayM, MapError, Profile,
    ProfileM, StandardAttributeStringM,
};
use crate::text::{
    ascii_lower_seq, clone_bytes, concat2, find_first, find_last, skip_bytes, str_bytes,
    sbytes, take_bytes, to_ascii_lower,
};
use crate::username::{derive_id, derive_id_m, generate_username, generate_username_m};

verus! {

/// A value that can stand in an optional text field: absent or text.
pub open spec fn opt_str_ok(m: JsonM) -> bool {
    m is Null || m is Str
}

/// The optional text in such a field.
pub open spec fn jos(m: JsonM) -> Option<Seq<u8>> {
    jstr(m)
}

/// The bytes of `"irc"`, the relay-chat tag, lower case.
pub open spec fn irc_tag() -> Seq<u8> {
    seq![105u8, 114u8, 99u8]
}

/// The remainder of `s` after its first space; all of `s` when it has
/// none.
pub open spec fn after_first_space(s: Seq<u8>) -> Seq<u8> {
    if exists|i: int| 0 <= i < s.len() && s[i] == 32 {
        let i = choose|i: int|
            0 <= i < s.len() && s[i] == 32 && forall|j: int| 0 <= j < i ==> s[j] != 32;
        s.skip(i + 1)
    } else {
        s
    }
}

/// The handle a labelled username value supplies: for a text value whose
/// first three characters spell the relay-chat tag in any case, the
/// remainder after the first space.
pub open spec fn irc_handle_of(v: JsonM) -> Option<Seq<u8>> {
    match v {
        JsonM::Str(s) => if s.len() >= 3 && ascii_lower_seq(s.take(3)) == irc_tag() {
            Some(after_first_space(s))
        } else {
            None
        },
        _ => None,
    }
}

/// The first handle among the labelled usernames, in entry order.
pub open spec fn irc_handle_from(es: Seq<(Seq<u8>, JsonM)>) -> Option<Seq<u8>>
    decreases es.len(),
{
    if es.len() == 0 {
        None
    } else {
        match irc_handle_of(es[0].1) {
            Some(h) => Some(h),
            None => irc_handle_from(es.drop_first()),
        }
    }
}

/// The bytes of `".png"`.
pub open spec fn png_suffix() -> Seq<u8> {
    sbytes(".png")
}

/// The trailing path component of `p`: what follows its last slash.
pub open spec fn tail_after_last_slash(p: Seq<u8>) -> Seq<u8>
    decreases p.len(),
{
    if p.len() == 0 {
        p
    } else if p.last() == 47 {
        Seq::empty()
    } else {
        tail_after_last_slash(p.drop_last()).push(p.last())
    }
}

/// The file name of a stored picture reference: the non-empty trailing
/// component of its path.
pub open spec fn file_name_of(p: Seq<u8>) -> Option<Seq<u8>> {
    if tail_after_last_slash(p).len() == 0 {
        None
    } else {
        Some(tail_after_last_slash(p))
    }
}

/// A directory joined with a file name, with exactly one slash between.
pub open spec fn join_path_m(dir: Seq<u8>, name: Seq<u8>) -> Seq<u8> {
    if dir.len() == 0 {
        name
    } else if dir.last() == 47 {
        dir + name
    } else {
        dir + seq![47u8] + name
    }
}

/// The avatar job a directory record gives rise to: only when both avatar
/// directories are configured and the record stores a picture reference
/// with a usable file name; the renditions go under the person's
/// identifier.
pub open spec fn ldap_job_m(
    l: JsonM,
    avatar_in: Option<Seq<u8>>,
    avatar_out: Option<Seq<u8>>,
    id36: Seq<u8>,
) -> Option<PictureJobM> {
    match (avatar_in, avatar_out, jstr(jix2(l, sbytes("picture"), sbytes("value")))) {
        (Some(ai), Some(_), Some(p)) => match file_name_of(p) {
            Some(f) => Some(
                PictureJobM {
                    source: PictureSourceM::Local(join_path_m(ai, f)),
                    name: id36 + png_suffix(),
                },
            ),
            None => None,
        },
        _ => None,
    }
}

/// The identity sub-field under `key` of the record's identities block.
pub open spec fn ident_field(l: JsonM, key: Seq<u8>) -> JsonM {
    jix(jix2(l, sbytes("identities"), key), sbytes("value"))
}

/// Is every sub-field the directory mapper copies of an acceptable shape?
/// Optional text fields may be absent or text; the key, phone-number and
/// username blocks must be objects; the active flag must be a boolean.
pub open spec fn ldap_shape_ok(l: JsonM) -> bool {
    &&& opt_str_ok(jix2(l, sbytes("first_name"), sbytes("value")))
    &&& opt_str_ok(jix2(l, sbytes("last_name"), sbytes("value")))
    &&& jix2(l, sbytes("ssh_public_keys"), sbytes("values")) is Obj
    &&& jix2(l, sbytes("pgp_public_keys"), sbytes("values")) is Obj
    &&& jix2(l, sbytes("phone_numbers"), sbytes("values")) is Obj
    &&& opt_str_ok(ident_field(l, sbytes("bugzilla_mozilla_org_id")))
    &&& opt_str_ok(ident_field(l, sbytes("firefox_accounts_id")))
    &&& opt_str_ok(ident_field(l, sbytes("github_id_v3")))
    &&& opt_str_ok(ident_field(l, sbytes("github_id_v4")))
    &&& opt_str_ok(ident_field(l, sbytes("google_oauth2_id")))
    &&& opt_str_ok(ident_field(l, sbytes("mozilla_ldap_id")))
    &&& opt_str_ok(ident_field(l, sbytes("mozilla_posix_id")))
    &&& opt_str_ok(ident_field(l, sbytes("mozilliansorg_id")))
    &&& jix2(l, sbytes("usernames"), sbytes("values")) is Obj
    &&& opt_str_ok(jix2(l, sbytes("user_id"), sbytes("value")))
    &&& opt_str_ok(jix2(l, sbytes("login_method"), sbytes("value")))
    &&& opt_str_ok(jix2(l, sbytes("fun_title"), sbytes("value")))
    &&& jix2(l, sbytes("active"), sbytes("value")) is Bool
    &&& opt_str_ok(jix2(l, sbytes("description"), sbytes("value")))
}

/// The handle the record supplies: the first relay-chat tagged username,
/// else one generated from the email and the configured entropy.
pub open spec fn ldap_username_m(l: JsonM, email: Seq<u8>, entropy: Seq<u8>) -> Seq<u8> {
    match irc_handle_from(obj_entries(jix2(l, sbytes("usernames"), sbytes("values")))) {
        Some(h) => h,
        None => generate_username_m(email, entropy),
    }
}

/// An optional text payload: fresh text where the field holds text, the
/// accumulated payload where the field is absent.
pub open spec fn text_or_keep(m: JsonM, keep: Option<Seq<u8>>) -> Option<Seq<u8>> {
    match jstr(m) {
        Some(s) => Some(s),
        None => keep,
    }
}

/// What the directory mapper does. The record is dropped without a
/// primary email, or when any copied sub-field has the wrong shape.
/// Otherwise: names fill only from present fields; key, phone-number and
/// username blocks replace the payloads wholesale; the identities fill
/// from the record, with the synthetic identifier derived from the email;
/// the handle is stored under the community key among the usernames; the
/// per-source access-information block is stored verbatim; the primary
/// email itself is consumed for keying, not stored; and a stored picture
/// reference becomes a local avatar job, applied by the caller.
#[verifier::opaque]
pub open spec fn map_ldap_m(
    p: ProfileM,
    l: JsonM,
    avatar_in: Option<Seq<u8>>,
    avatar_out: Option<Seq<u8>>,
    entropy: Seq<u8>,
) -> Result<(ProfileM, Option<PictureJobM>), MapError> {
    match jstr(jix2(l, sbytes("primary_email"), sbytes("value"))) {
        None => Err(MapError::MissingPrimaryEmail),
        Some(email) => if !ldap_shape_ok(l) {
            Err(MapError::BadShape)
        } else {
            Ok((map_ldap_profile_m(p, l, email, entropy), ldap_job_m(l, avatar_in, avatar_out, derive_id_m(email))))
        },
    }
}

/// The profile after a successful directory mapping.
#[verifier::opaque]
pub open spec fn map_ldap_profile_m(p: ProfileM, l: JsonM, email: Seq<u8>, entropy: Seq<u8>) -> ProfileM {
    ProfileM {
        first_name: StandardAttributeStringM {
            value: text_or_keep(jix2(l, sbytes("first_name"), sbytes("value")), p.first_name.value),
            ..p.first_name
        },
        last_name: StandardAttributeStringM {
            value: text_or_keep(jix2(l, sbytes("last_name"), sbytes("value")), p.last_name.value),
            ..p.last_name
        },
        ssh_public_keys: crate::schema::StandardAttributeValuesM {
            values: obj_entries(jix2(l, sbytes("ssh_public_keys"), sbytes("values"))),
            ..p.ssh_public_keys
        },
        pgp_public_keys: crate::schema::StandardAttributeValuesM {
            values: obj_entries(jix2(l, sbytes("pgp_public_keys"), sbytes("values"))),
            ..p.pgp_public_keys
        },
        phone_numbers: crate::schema::StandardAttributeValuesM {
            values: obj_entries(jix2(l, sbytes("phone_numbers"), sbytes("values"))),
            ..p.phone_numbers
        },
        identities: IdentitiesAttributesValuesArrayM {
            bugzilla_mozilla_org_id: StandardAttributeStringM {
                value: jos(ident_field(l, sbytes("bugzilla_mozilla_org_id"))),
                ..p.identities.bugzilla_mozilla_org_id
            },
            dinopark_id: StandardAttributeStringM {
                value: Some(derive_id_m(email)),
                ..p.identities.dinopark_id
            },
            firefox_accounts_id: StandardAttributeStringM {
                value: jos(ident_field(l, sbytes("firefox_accounts_id"))),
                ..p.identities.firefox_accounts_id
            },
            github_id_v3: StandardAttributeStringM {
                value: jos(ident_field(l, sbytes("github_id_v3"))),
                ..p.identities.github_id_v3
            },
            github_id_v4: StandardAttributeStringM {
                value: jos(ident_field(l, sbytes("github_id_v4"))),
                ..p.identities.github_id_v4
            },
            google_oauth2_id: StandardAttributeStringM {
                value: jos(ident_field(l, sbytes("google_oauth2_id"))),
                ..p.identities.google_oauth2_id
            },
            mozilla_ldap_id: StandardAttributeStringM {
                value: jos(ident_field(l, sbytes("mozilla_ldap_id"))),
                ..p.identities.mozilla_ldap_id
            },
            mozilla_posix_id: StandardAttributeStringM {
                value: jos(ident_field(l, sbytes("mozilla_posix_id"))),
                ..p.identities.mozilla_posix_id
            },
            mozilliansorg_id: StandardAttributeStringM {
                value: jos(ident_field(l, sbytes("mozilliansorg_id"))),
                ..p.identities.mozilliansorg_id
            },
            ..p.identities
        },
        usernames: crate::schema::StandardAttributeValuesM {
            values: entries_put(
                obj_entries(jix2(l, sbytes("usernames"), sbytes("values"))),
                sbytes("mozilliansorg"),
                JsonM::Str(ldap_username_m(l, email, entropy)),
            ),
            ..p.usernames
        },
        user_id: StandardAttributeStringM {
            value: jos(jix2(l, sbytes("user_id"), sbytes("value"))),
            ..p.user_id
        },
        login_method: StandardAttributeStringM {
            value: jos(jix2(l, sbytes("login_method"), sbytes("value"))),
            ..p.login_method
        },
        primary_email: StandardAttributeStringM { value: None, ..p.primary_email },
        access_information: AccessInformationValuesArrayM {
            ldap: crate::schema::AccessInformationProviderSubObjectM {
                values: jix(
                    jix2(l, sbytes("access_information"), sbytes("ldap")),
                    sbytes("values"),
                ),
                ..p.access_information.ldap
            },
            ..p.access_information
        },
        fun_title: StandardAttributeStringM {
            value: jos(jix2(l, sbytes("fun_title"), sbytes("value"))),
            ..p.fun_title
        },
        active: crate::schema::StandardAttributeBooleanM {
            value: jix2(l, sbytes("active"), sbytes("value"))->Bool_0,
            ..p.active
        },
        description: StandardAttributeStringM {
            value: jos(jix2(l, sbytes("description"), sbytes("value"))),
            ..p.description
        },
        ..p
    }
}

/// The model of a mapper result.
pub open spec fn ldap_res_m(r: Result<(Profile, Option<PictureJob>), MapError>) -> Result<
    (ProfileM, Option<PictureJobM>),
    MapError,
> {
    match r {
        Ok((p, j)) => Ok((p@, opt_job_m(j))),
        Err(e) => Err(e),
    }
}

/// Read the text two keys deep, where there is text.
pub fn get_str2(v: &JsonVal, k1: &str, k2: &str) -> (r: Option<Vec<u8>>)
    ensures
        match r {
            Some(s) => jstr(jix2(jm(*v), sbytes(k1), sbytes(k2))) == Some(s@),
            None => jstr(jix2(jm(*v), sbytes(k1), sbytes(k2))) is None,
        },
{
    let ka = str_bytes(k1);
    let kb = str_bytes(k2);
    match json_get2(v, &ka, &kb) {
        Some(x) => json_str(x),
        None => None,
    }
}

/// Read an optional text field two keys deep: absent or text, anything
/// else being a shape error.
fn get_opt_str2(v: &JsonVal, k1: &str, k2: &str) -> (r: Result<Option<Vec<u8>>, MapError>)
    ensures
        match r {
            Ok(o) => opt_str_ok(jix2(jm(*v), sbytes(k1), sbytes(k2))) && jos(
                jix2(jm(*v), sbytes(k1), sbytes(k2)),
            ) == ob(o),
            Err(e) => e == MapError::BadShape && !opt_str_ok(
                jix2(jm(*v), sbytes(k1), sbytes(k2)),
            ),
        },
{
    let ka = str_bytes(k1);
    let kb = str_bytes(k2);
    match json_get2(v, &ka, &kb) {
        None => Ok(None),
        Some(x) => match x {
            JsonVal::Null => Ok(None),
            JsonVal::Str(s) => Ok(Some(clone_bytes(s))),
            _ => Err(MapError::BadShape),
        },
    }
}

/// Read an identity sub-field: absent or text, anything else a shape
/// error.
fn get_ident(v: &JsonVal, key: &str) -> (r: Result<Option<Vec<u8>>, MapError>)
    ensures
        match r {
            Ok(o) => opt_str_ok(ident_field(jm(*v), sbytes(key))) && jos(
                ident_field(jm(*v), sbytes(key)),
            ) == ob(o),
            Err(e) => e == MapError::BadShape && !opt_str_ok(ident_field(jm(*v), sbytes(key))),
        },
{
    let ids = str_bytes("identities");
    let kb = str_bytes(key);
    let kv = str_bytes("value");
    match json_get(v, &ids) {
        None => Ok(None),
        Some(block) => match json_get2(block, &kb, &kv) {
            None => Ok(None),
            Some(x) => match x {
                JsonVal::Null => Ok(None),
                JsonVal::Str(s) => Ok(Some(clone_bytes(s))),
                _ => Err(MapError::BadShape),
            },
        },
    }
}

/// Read an object's entries two keys deep, anything else a shape error.
fn get_entries2(v: &JsonVal, k1: &str, k2: &str) -> (r: Result<Vec<(Vec<u8>, JsonVal)>, MapError>)
    ensures
        match r {
            Ok(es) => jix2(jm(*v), sbytes(k1), sbytes(k2)) is Obj && jm_entries(es@)
                == obj_entries(jix2(jm(*v), sbytes(k1), sbytes(k2))),
            Err(e) => e == MapError::BadShape && !(jix2(jm(*v), sbytes(k1), sbytes(k2)) is Obj),
        },
{
    let ka = str_bytes(k1);
    let kb = str_bytes(k2);
    match json_get2(v, &ka, &kb) {
        None => Err(MapError::BadShape),
        Some(x) => match json_entries_cloned(x) {
            Some(es) => Ok(es),
            None => Err(MapError::BadShape),
        },
    }
}

/// Read a boolean field two keys deep, anything else a shape error.
fn get_bool2(v: &JsonVal, k1: &str, k2: &str) -> (r: Result<bool, MapError>)
    ensures
        match r {
            Ok(b) => jix2(jm(*v), sbytes(k1), sbytes(k2)) == JsonM::Bool(b),
            Err(e) => e == MapError::BadShape && !(jix2(jm(*v), sbytes(k1), sbytes(k2)) is Bool),
        },
{
    let ka = str_bytes(k1);
    let kb = str_bytes(k2);
    match json_get2(v, &ka, &kb) {
        None => Err(MapError::BadShape),
        Some(x) => match x {
            JsonVal::Bool(b) => Ok(*b),
            _ => Err(MapError::BadShape),
        },
    }
}

/// The handle offered by a labelled username value, as [`irc_handle_of`].
fn irc_handle_value(v: &JsonVal) -> (r: Option<Vec<u8>>)
    ensures
        match r {
            Some(h) => irc_handle_of(jm(*v)) == Some(h@),
            None => irc_handle_of(jm(*v)) is None,
        },
{
    match v {
        JsonVal::Str(s) => {
            if s.len() < 3 {
                return None;
            }
            let head = take_bytes(s, 3);
            let low = to_ascii_lower(&head);
            let tag: Vec<u8> = vec![105u8, 114u8, 99u8];
            proof {
                assert(tag@ =~= irc_tag());
            }
            if !crate::text::bytes_eq(&low, &tag) {
                return None;
            }
            match find_first(s, 32) {
                Some(i) => {
                    let h = skip_bytes(s, i + 1);
                    proof {
                        let ghost sm = s@;
                        assert(exists|k: int| 0 <= k < sm.len() && sm[k] == 32);
                        let k = choose|k: int|
                            0 <= k < sm.len() && sm[k] == 32 && forall|j: int|
                                0 <= j < k ==> sm[j] != 32;
                        assert(k == i as int) by {
                            if k < i as int {
                                assert(sm[k] != 32);
                            }
                            if k > i as int {
                                assert(sm[i as int] != 32);
                            }
                        }
                    }
                    Some(h)
                },
                None => Some(clone_bytes(s)),
            }
        },
        _ => None,
    }
}

/// The first relay-chat handle among the labelled usernames, where the
/// username block is an object.
fn scan_usernames(unames: &JsonVal) -> (r: Option<Vec<u8>>)
    ensures
        match r {
            Some(h) => jm(*unames) is Obj && irc_handle_from(obj_entries(jm(*unames))) == Some(
                h@,
            ),
            None => !(jm(*unames) is Obj) || irc_handle_from(obj_entries(jm(*unames))) is None,
        },
{
    broadcast use crate::jsonval::lemma_jm_entries;

    match unames {
        JsonVal::Obj(es) => {
            let ghost esm = jm_entries(es@);
            proof {
                assert(esm.skip(0) =~= esm);
            }
            let mut i: usize = 0;
            #[verifier::loop_isolation(false)]
            while i < es.len()
                invariant
                    i <= es@.len(),
                    irc_handle_from(esm) == irc_handle_from(esm.skip(i as int)),
                decreases es@.len() - i,
            {
                proof {
                    assert(esm.skip(i as int)[0] == esm[i as int]);
                    assert(esm.skip(i as int).drop_first() =~= esm.skip(i + 1));
                }
                match irc_handle_value(&es[i].1) {
                    Some(h) => {
                        return Some(h);
                    },
                    None => {},
                }
                i += 1;
            }
            proof {
                assert(esm.skip(es@.len() as int) =~= Seq::<(Seq<u8>, JsonM)>::empty());
            }
            None
        },
        _ => None,
    }
}

/// The trailing path component of `p`, where it is non-empty.
fn file_name_bytes(p: &Vec<u8>) -> (r: Option<Vec<u8>>)
    ensures
        match r {
            Some(f) => file_name_of(p@) == Some(f@),
            None => file_name_of(p@) is None,
        },
{
    proof {
        lemma_tail_after_last_slash(p@);
    }
    let n = p.len();
    let tail = match find_last(p, 47) {
        Some(i) => skip_bytes(p, i + 1),
        None => clone_bytes(p),
    };
    if tail.len() == 0 {
        None
    } else {
        Some(tail)
    }
}

/// What follows the last slash, characterised without recursion.
proof fn lemma_tail_after_last_slash(p: Seq<u8>)
    ensures
        forall|i: int|
            0 <= i < p.len() && p[i] == 47 && (forall|j: int| i < j < p.len() ==> p[j] != 47)
                ==> tail_after_last_slash(p) == p.skip(i + 1),
        (forall|j: int| 0 <= j < p.len() ==> p[j] != 47) ==> tail_after_last_slash(p) == p,
    decreases p.len(),
{
    if p.len() == 0 {
        assert(tail_after_last_slash(p) =~= p);
    } else {
        lemma_tail_after_last_slash(p.drop_last());
        if p.last() == 47 {
            assert forall|i: int|
                0 <= i < p.len() && p[i] == 47 && (forall|j: int|
                    i < j < p.len() ==> p[j] != 47) implies tail_after_last_slash(p) == p.skip(
                i + 1,
            ) by {
                assert(i == p.len() - 1);
                assert(p.skip(p.len() as int) =~= Seq::<u8>::empty());
                assert(tail_after_last_slash(p) =~= p.skip(i + 1));
            }
        } else {
            assert forall|i: int|
                0 <= i < p.len() && p[i] == 47 && (forall|j: int|
                    i < j < p.len() ==> p[j] != 47) implies tail_after_last_slash(p) == p.skip(
                i + 1,
            ) by {
                assert(i < p.len() - 1);
                assert(forall|j: int| i < j < p.len() - 1 ==> p.drop_last()[j] != 47);
                assert(p.drop_last()[i] == 47);
                assert(tail_after_last_slash(p.drop_last()) == p.drop_last().skip(i + 1));
                assert(p.drop_last().skip(i + 1).push(p.last()) =~= p.skip(i + 1));
            }
            if forall|j: int| 0 <= j < p.len() ==> p[j] != 47 {
                assert(forall|j: int| 0 <= j < p.len() - 1 ==> p.drop_last()[j] != 47);
                assert(tail_after_last_slash(p.drop_last()) == p.drop_last());
                assert(p.drop_last().push(p.last()) =~= p);
            }
        }
    }
}

/// Join the avatar input directory with a file name, one slash between.
fn join_path(dir: &Vec<u8>, name: &Vec<u8>) -> (r: Vec<u8>)
    ensures
        r@ == join_path_m(dir@, name@),
{
    if dir.len() == 0 {
        return clone_bytes(name);
    }
    if dir[dir.len() - 1] == 47 {
        return concat2(dir, name);
    }
    let slash: Vec<u8> = vec![47u8];
    let joined = concat2(dir, &slash);
    let r = concat2(&joined, name);
    proof {
        assert(slash@ =~= seq![47u8]);
    }
    r
}

/// Apply the directory mapper to an accumulating profile; on success the
/// profile comes back with any avatar job for the caller to run.
#[verifier::rlimit(100)]
pub fn map_ldap(
    p2: Profile,
    ldap: &JsonVal,
    avatar_in: &Option<Vec<u8>>,
    avatar_out: &Option<Vec<u8>>,
    entropy: &Vec<u8>,
) -> (r: Result<(Profile, Option<PictureJob>), MapError>)
    ensures
        ldap_res_m(r) == map_ldap_m(p2@, jm(*ldap), ob(*avatar_in), ob(*avatar_out), entropy@),
{
    let ghost p0 = p2@;
    let ghost lm = jm(*ldap);

    proof {
        reveal(map_ldap_m);
        reveal(map_ldap_profile_m);
    }
    let email = match get_str2(ldap, "primary_email", "value") {
        Some(e) => e,
        None => {
            return Err(MapError::MissingPrimaryEmail);
        },
    };
    let id36 = derive_id(&email);

    let username = {
        let uk = str_bytes("usernames");
        let vk = str_bytes("values");
        let found = match json_get2(ldap, &uk, &vk) {
            Some(unames) => scan_usernames(unames),
            None => None,
        };
        match found {
            Some(h) => h,
            None => generate_username(&email, entropy),
        }
    };

    let first_name = match get_opt_str2(ldap, "first_name", "value") {
        Ok(o) => o,
        Err(e) => {
            return Err(e);
        },
    };
    let last_name = match get_opt_str2(ldap, "last_name", "value") {
        Ok(o) => o,
        Err(e) => {
            return Err(e);
        },
    };
    let ssh_keys = match get_entries2(ldap, "ssh_public_keys", "values") {
        Ok(es) => es,
        Err(e) => {
            return Err(e);
        },
    };
    let pgp_keys = match get_entries2(ldap, "pgp_public_keys", "values") {
        Ok(es) => es,
        Err(e) => {
            return Err(e);
        },
    };
    let phones = match get_entries2(ldap, "phone_numbers", "values") {
        Ok(es) => es,
        Err(e) => {
            return Err(e);
        },
    };
    let bugzilla = match get_ident(ldap, "bugzilla_mozilla_org_id") {
        Ok(o) => o,
        Err(e) => {
            return Err(e);
        },
    };
    let firefox = match get_ident(ldap, "firefox_accounts_id") {
        Ok(o) => o,
        Err(e) => {
            return Err(e);
        },
    };
    let github3 = match get_ident(ldap, "github_id_v3") {
        Ok(o) => o,
        Err(e) => {
            return Err(e);
        },
    };
    let github4 = match get_ident(ldap, "github_id_v4") {
        Ok(o) => o,
        Err(e) => {
            return Err(e);
        },
    };
    let google = match get_ident(ldap, "google_oauth2_id") {
        Ok(o) => o,
        Err(e) => {
            return Err(e);
        },
    };
    let ldap_id = match get_ident(ldap, "mozilla_ldap_id") {
        Ok(o) => o,
        Err(e) => {
            return Err(e);
        },
    };
    let posix = match get_ident(ldap, "mozilla_posix_id") {
        Ok(o) => o,
        Err(e) => {
            return Err(e);
        },
    };
    let mozillians_id = match get_ident(ldap, "mozilliansorg_id") {
        Ok(o) => o,
        Err(e) => {
            return Err(e);
        },
    };
    let mut usernames = match get_entries2(ldap, "usernames", "values") {
        Ok(es) => es,
        Err(e) => {
            return Err(e);
        },
    };
    let user_id = match get_opt_str2(ldap, "user_id", "value") {
        Ok(o) => o,
        Err(e) => {
            return Err(e);
        },
    };
    let login_method = match get_opt_str2(ldap, "login_method", "value") {
        Ok(o) => o,
        Err(e) => {
            return Err(e);
        },
    };
    let fun_title = match get_opt_str2(ldap, "fun_title", "value") {
        Ok(o) => o,
        Err(e) => {
            return Err(e);
        },
    };
    let active = match get_bool2(ldap, "active", "value") {
        Ok(b) => b,
        Err(e) => {
            return Err(e);
        },
    };
    let description = match get_opt_str2(ldap, "description", "value") {
        Ok(o) => o,
        Err(e) => {
            return Err(e);
        },
    };

    let access_ldap = {
        let ka = str_bytes("access_information");
        let kb = str_bytes("ldap");
        let kc = str_bytes("values");
        match json_get2(ldap, &ka, &kb) {
            Some(x) => match json_get(x, &kc) {
                Some(y) => clone_json(y),
                None => JsonVal::Null,
            },
            None => JsonVal::Null,
        }
    };

    let job = {
        match (avatar_in, avatar_out) {
            (Some(ai), Some(_)) => match get_str2(ldap, "picture", "value") {
                Some(pic) => match file_name_bytes(&pic) {
                    Some(f) => Some(
                        PictureJob {
                            source: PictureSource::Local(join_path(ai, &f)),
                            name: {
                                let png = str_bytes(".png");
                                concat2(&id36, &png)
                            },
                        },
                    ),
                    None => None,
                },
                None => None,
            },
            _ => None,
        }
    };

    let mozorg = str_bytes("mozilliansorg");
    entries_insert(&mut usernames, mozorg, JsonVal::Str(username));

    let identities = IdentitiesAttributesValuesArray {
        bugzilla_mozilla_org_id: p2.identities.bugzilla_mozilla_org_id.set_value(bugzilla),
        dinopark_id: p2.identities.dinopark_id.set_value(Some(id36)),
        firefox_accounts_id: p2.identities.firefox_accounts_id.set_value(firefox),
        github_id_v3: p2.identities.github_id_v3.set_value(github3),
        github_id_v4: p2.identities.github_id_v4.set_value(github4),
        google_oauth2_id: p2.identities.google_oauth2_id.set_value(google),
        mozilla_ldap_id: p2.identities.mozilla_ldap_id.set_value(ldap_id),
        mozilla_posix_id: p2.identities.mozilla_posix_id.set_value(posix),
        mozilliansorg_id: p2.identities.mozilliansorg_id.set_value(mozillians_id),
        ..p2.identities
    };
    let access_information = AccessInformationValuesArray {
        ldap: p2.access_information.ldap.set_values(access_ldap),
        ..p2.access_information
    };
    let first_name_value = match first_name {
        Some(s) => Some(s),
        None => p2.first_name.value,
    };
    let last_name_value = match last_name {
        Some(s) => Some(s),
        None => p2.last_name.value,
    };
    let r = Profile {
        first_name: crate::schema::StandardAttributeString {
            value: first_name_value,
            ..p2.first_name
        },
        last_name: crate::schema::StandardAttributeString {
            value: last_name_value,
            ..p2.last_name
        },
        ssh_public_keys: p2.ssh_public_keys.set_values(ssh_keys),
        pgp_public_keys: p2.pgp_public_keys.set_values(pgp_keys),
        phone_numbers: p2.phone_numbers.set_values(phones),
        identities,
        usernames: p2.usernames.set_values(usernames),
        user_id: p2.user_id.set_value(user_id),
        login_method: p2.login_method.set_value(login_method),
        primary_email: p2.primary_email.set_value(None),
        access_information,
        fun_title: p2.fun_title.set_value(fun_title),
        active: p2.active.set_value(active),
        description: p2.description.set_value(description),
        ..p2
    };

    proof {
        let spec_r = map_ldap_m(p0, lm, ob(*avatar_in), ob(*avatar_out), entropy@);
        assert(spec_r is Ok);
        let (pm, jm_) = spec_r->Ok_0;
        assert(r@.first_name == pm.first_name);
        assert(r@.last_name == pm.last_name);
        assert(r@.ssh_public_keys == pm.ssh_public_keys);
        assert(r@.pgp_public_keys == pm.pgp_public_keys);
        assert(r@.phone_numbers == pm.phone_numbers);
        assert(r@.identities == pm.identities);
        assert(r@.usernames == pm.usernames);
        assert(r@.user_id == pm.user_id);
        assert(r@.login_method == pm.login_method);
        assert(r@.primary_email == pm.primary_email);
        assert(r@.access_information == pm.access_information);
        assert(r@.fun_title == pm.fun_title);
        assert(r@.active == pm.active);
        assert(r@.description == pm.description);
        assert(r@ == pm);
        assert(opt_job_m(job) == jm_);
    }
    Ok((r, job))
}

} // verus!
