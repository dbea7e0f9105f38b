//! The merge orchestrator.
//!
//! Every bundle is judged once: with both HR and directory data the three
//! mappers run in source-precedence order; with community data alone the
//! community mapper runs on a fresh profile; anything else is dropped,
//! and a caller-set filter can further restrict output to bundles with
//! community data. A mapper failure drops the record, never a partial
//! profile. Output order follows the bundle map's order, and the whole
//! merge is a function of its inputs, so re-runs reproduce it exactly.
use vstd::prelude::*;

use crate::hris::{map_hris, map_hris_m};
use crate::jsonval::{entries_index, entries_put, jix, jm, jstr, JsonM};
use crate::ldap::{map_ldap, map_ldap_m};
use crate::loader::{bmap_m, BundleMap, Data, DataM};
use crate::mozillians::{map_mozillians, map_mozillians_m};
use crate::schema::{profile_default_m, Profile, ProfileM};
use crate::text::sbytes;

verus! {

/// What to do with one bundle.
#[derive(Clone, Copy, PartialEq, Eq, Structural, Debug)]
pub enum BundleDecision {
    /// HR and directory present: apply all three mappers in order.
    Full,
    /// Neither, but community data present: apply only that mapper.
    MozOnly,
    /// The caller asked for community bundles only and this has none.
    SkipFiltered,
    /// HR data with no directory data: dropped, to be logged.
    SkipNoDirectory,
    /// Directory data with no HR data: dropped, to be logged.
    SkipNoHr,
    /// Nothing usable at all.
    SkipEmpty,
}

/// The decision for one bundle, exactly as the orchestrator takes it.
pub open spec fn decide_m(d: DataM, mozillians_only: bool) -> BundleDecision {
    if mozillians_only && !(d.mozillians is Obj) {
        BundleDecision::SkipFiltered
    } else if d.hris is Obj && d.ldap is Obj {
        BundleDecision::Full
    } else if d.mozillians is Obj {
        BundleDecision::MozOnly
    } else if d.hris is Obj {
        BundleDecision::SkipNoDirectory
    } else if d.ldap is Obj {
        BundleDecision::SkipNoHr
    } else {
        BundleDecision::SkipEmpty
    }
}

/// Judge one bundle, as [`decide_m`] says.
pub fn plan_bundle(d: &Data, mozillians_only: bool) -> (r: BundleDecision)
    ensures
        r == decide_m(d@, mozillians_only),
{
    if mozillians_only && !d.mozillians.is_object() {
        BundleDecision::SkipFiltered
    } else if d.hris.is_object() && d.ldap.is_object() {
        BundleDecision::Full
    } else if d.mozillians.is_object() {
        BundleDecision::MozOnly
    } else if d.hris.is_object() {
        BundleDecision::SkipNoDirectory
    } else if d.ldap.is_object() {
        BundleDecision::SkipNoHr
    } else {
        BundleDecision::SkipEmpty
    }
}

/// The profile one bundle yields without avatar handling: the mapper
/// pipeline its decision calls for, with any mapper failure dropping the
/// record.
pub open spec fn merge_bundle_m(d: DataM, mozillians_only: bool, entropy: Seq<u8>) -> Option<
    ProfileM,
> {
    match decide_m(d, mozillians_only) {
        BundleDecision::Full => {
            let p1 = map_hris_m(profile_default_m(), d.hris);
            match map_ldap_m(p1, d.ldap, None, None, entropy) {
                Ok((p2, _)) => match map_mozillians_m(p2, d.mozillians, None) {
                    Ok((p3, _)) => Some(p3),
                    Err(_) => None,
                },
                Err(_) => None,
            }
        },
        BundleDecision::MozOnly => match map_mozillians_m(
            profile_default_m(),
            d.mozillians,
            None,
        ) {
            Ok((p, _)) => Some(p),
            Err(_) => None,
        },
        _ => None,
    }
}

/// Merge one bundle without avatar handling, as [`merge_bundle_m`] says.
#[verifier::rlimit(100)]
pub fn merge_bundle(d: &Data, mozillians_only: bool, entropy: &Vec<u8>) -> (r: Option<Profile>)
    ensures
        match r {
            Some(p) => merge_bundle_m(d@, mozillians_only, entropy@) == Some(p@),
            None => merge_bundle_m(d@, mozillians_only, entropy@) is None,
        },
{
    match plan_bundle(d, mozillians_only) {
        BundleDecision::Full => {
            let p = Profile::default();
            let p = map_hris(p, &d.hris);
            match map_ldap(p, &d.ldap, &None, &None, entropy) {
                Ok((p, _)) => match map_mozillians(p, &d.mozillians, &None) {
                    Ok((p, _)) => Some(p),
                    Err(_) => None,
                },
                Err(_) => None,
            }
        },
        BundleDecision::MozOnly => {
            let p = Profile::default();
            match map_mozillians(p, &d.mozillians, &None) {
                Ok((p, _)) => Some(p),
                Err(_) => None,
            }
        },
        _ => None,
    }
}

/// The models of a sequence of profiles.
pub open spec fn profiles_m(s: Seq<Profile>) -> Seq<ProfileM> {
    Seq::new(s.len(), |i: int| s[i]@)
}

/// The merged output of a whole bundle map, in bundle order.
pub open spec fn run_merge_m(
    bm: Seq<(Seq<u8>, DataM)>,
    mozillians_only: bool,
    entropy: Seq<u8>,
) -> Seq<ProfileM>
    decreases bm.len(),
{
    if bm.len() == 0 {
        Seq::empty()
    } else {
        (match merge_bundle_m(bm[0].1, mozillians_only, entropy) {
            Some(p) => seq![p],
            None => Seq::empty(),
        }) + run_merge_m(bm.drop_first(), mozillians_only, entropy)
    }
}

/// Merging one more bundle appends its outcome.
#[verifier::rlimit(100)]
pub proof fn lemma_run_merge_snoc(
    bm: Seq<(Seq<u8>, DataM)>,
    x: (Seq<u8>, DataM),
    mozillians_only: bool,
    entropy: Seq<u8>,
)
    ensures
        run_merge_m(bm.push(x), mozillians_only, entropy) == run_merge_m(
            bm,
            mozillians_only,
            entropy,
        ) + (match merge_bundle_m(x.1, mozillians_only, entropy) {
            Some(p) => seq![p],
            None => Seq::<ProfileM>::empty(),
        }),
    decreases bm.len(),
{
    if bm.len() == 0 {
        assert(bm.push(x)[0] == x);
        assert(bm.push(x).drop_first() =~= Seq::<(Seq<u8>, DataM)>::empty());
        assert(run_merge_m(Seq::empty(), mozillians_only, entropy) =~= Seq::<ProfileM>::empty());
        assert(run_merge_m(bm.push(x), mozillians_only, entropy) =~= run_merge_m(
            bm,
            mozillians_only,
            entropy,
        ) + (match merge_bundle_m(x.1, mozillians_only, entropy) {
            Some(p) => seq![p],
            None => Seq::<ProfileM>::empty(),
        }));
    } else {
        assert(bm.push(x)[0] == bm[0]);
        assert(bm.push(x).drop_first() =~= bm.drop_first().push(x));
        lemma_run_merge_snoc(bm.drop_first(), x, mozillians_only, entropy);
        assert(run_merge_m(bm.push(x), mozillians_only, entropy) =~= run_merge_m(
            bm,
            mozillians_only,
            entropy,
        ) + (match merge_bundle_m(x.1, mozillians_only, entropy) {
            Some(p) => seq![p],
            None => Seq::<ProfileM>::empty(),
        }));
    }
}

/// Merge a whole bundle map without avatar handling: the successfully
/// produced profiles, in bundle order, as [`run_merge_m`] says.
#[verifier::rlimit(100)]
pub fn run_merge(data: &BundleMap, mozillians_only: bool, entropy: &Vec<u8>) -> (r: Vec<Profile>)
    ensures
        profiles_m(r@) == run_merge_m(bmap_m(data@), mozillians_only, entropy@),
{
    broadcast use crate::loader::lemma_bmap_m;

    let ghost bm = bmap_m(data@);
    let mut out: Vec<Profile> = Vec::new();
    proof {
        assert(bm.take(0) =~= Seq::<(Seq<u8>, DataM)>::empty());
        assert(profiles_m(out@) =~= run_merge_m(bm.take(0), mozillians_only, entropy@));
    }
    let mut i: usize = 0;
    #[verifier::loop_isolation(false)]
    while i < data.len()
        invariant
            i <= data@.len(),
            profiles_m(out@) == run_merge_m(bm.take(i as int), mozillians_only, entropy@),
        decreases data@.len() - i,
    {
        proof {
            assert(bm.take(i as int).push(bm[i as int]) =~= bm.take(i + 1));
            lemma_run_merge_snoc(bm.take(i as int), bm[i as int], mozillians_only, entropy@);
        }
        match merge_bundle(&data[i].1, mozillians_only, entropy) {
            Some(p) => {
                out.push(p);
            },
            None => {},
        }
        proof {
            assert(profiles_m(out@) =~= run_merge_m(bm.take(i + 1), mozillians_only, entropy@));
        }
        i += 1;
    }
    proof {
        assert(bm.take(data@.len() as int) =~= bm);
    }
    out
}

/// The output split into chunks of `k`, the last possibly smaller.
pub open spec fn chunks_m(s: Seq<ProfileM>, k: int) -> Seq<Seq<ProfileM>>
    decreases s.len(),
{
    if s.len() == 0 || k <= 0 {
        Seq::empty()
    } else if s.len() <= k {
        seq![s]
    } else {
        seq![s.take(k)] + chunks_m(s.skip(k), k)
    }
}

/// The chunks of a profile list, in order.
pub open spec fn profile_chunks_m(s: Seq<Vec<Profile>>) -> Seq<Seq<ProfileM>> {
    Seq::new(s.len(), |i: int| profiles_m(s[i]@))
}

/// Split the merged output into chunks of `k` profiles, as [`chunks_m`]
/// says: `ceil(n / k)` chunks, all of size `k` but the last, which takes
/// the remainder, concatenating back to the unsplit list in order.
#[verifier::rlimit(100)]
pub fn chunk_profiles(profiles: Vec<Profile>, k: usize) -> (r: Vec<Vec<Profile>>)
    requires
        k > 0,
    ensures
        profile_chunks_m(r@) == chunks_m(profiles_m(profiles@), k as int),
{
    let ghost sm = profiles_m(profiles@);
    let mut rest = profiles;
    let mut out: Vec<Vec<Profile>> = Vec::new();
    proof {
        assert(profiles_m(rest@) =~= sm);
        assert(profile_chunks_m(out@) =~= Seq::<Seq<ProfileM>>::empty());
    }
    #[verifier::loop_isolation(false)]
    while rest.len() > 0
        invariant
            k > 0,
            profile_chunks_m(out@) + chunks_m(profiles_m(rest@), k as int) == chunks_m(
                sm,
                k as int,
            ),
        decreases rest@.len(),
    {
        let ghost restm = profiles_m(rest@);
        let mut chunk: Vec<Profile> = Vec::new();
        let mut j: usize = 0;
        while j < k && rest.len() > 0
            invariant
                j <= k,
                chunk@.len() == j,
                restm.len() > 0,
                j <= restm.len(),
                profiles_m(chunk@) == restm.take(j as int),
                profiles_m(rest@) == restm.skip(j as int),
                j < restm.len() || rest@.len() == 0,
                rest@.len() == restm.len() - j,
            decreases k - j,
        {
            let ghost rm_before = profiles_m(rest@);
            let ghost rv_before = rest@;
            let p = rest.remove(0);
            proof {
                assert(p@ == rm_before[0]);
                assert(rm_before[0] == restm.skip(j as int)[0]);
                assert(rest@ =~= rv_before.subrange(1, rv_before.len() as int));
                assert forall|idx: int| 0 <= idx < rest@.len() implies profiles_m(rest@)[idx]
                    == rm_before[idx + 1] by {
                    assert(rest@[idx] == rv_before[idx + 1]);
                    assert(rm_before[idx + 1] == rv_before[idx + 1]@);
                }
            }
            chunk.push(p);
            proof {
                assert(profiles_m(chunk@) =~= restm.take(j + 1));
                assert(profiles_m(rest@) =~= restm.skip(j + 1));
            }
            j += 1;
        }
        out.push(chunk);
        proof {
            if restm.len() <= k as int {
                assert(j == restm.len());
                assert(restm.take(j as int) =~= restm);
                assert(chunks_m(restm, k as int) == seq![restm]);
                assert(profiles_m(rest@) =~= Seq::<ProfileM>::empty());
                assert(chunks_m(profiles_m(rest@), k as int) =~= Seq::<Seq<ProfileM>>::empty());
                assert(profile_chunks_m(out@) + chunks_m(profiles_m(rest@), k as int) =~= chunks_m(
                    sm,
                    k as int,
                ));
            } else {
                assert(j == k);
                assert(chunks_m(restm, k as int) == seq![restm.take(k as int)] + chunks_m(
                    restm.skip(k as int),
                    k as int,
                ));
                assert(profile_chunks_m(out@) + chunks_m(profiles_m(rest@), k as int) =~= chunks_m(
                    sm,
                    k as int,
                ));
            }
        }
    }
    proof {
        assert(chunks_m(profiles_m(rest@), k as int) =~= Seq::<Seq<ProfileM>>::empty());
        assert(profile_chunks_m(out@) =~= chunks_m(sm, k as int));
    }
    out
}

/// The chunks concatenated back together.
pub open spec fn concat_chunks_m(cs: Seq<Seq<ProfileM>>) -> Seq<ProfileM>
    decreases cs.len(),
{
    if cs.len() == 0 {
        Seq::empty()
    } else {
        cs[0] + concat_chunks_m(cs.drop_first())
    }
}

/// Splitting: `ceil(n / k)` chunks come out; every chunk but the last
/// holds exactly `k` profiles, the last holds the remainder; and the
/// concatenation of all chunks is the unsplit list in the same order.
pub proof fn lemma_chunks_shape(s: Seq<ProfileM>, k: int)
    requires
        k > 0,
    ensures
        chunks_m(s, k).len() == (s.len() + k - 1) / k,
        concat_chunks_m(chunks_m(s, k)) == s,
        forall|i: int|
            0 <= i < chunks_m(s, k).len() - 1 ==> (#[trigger] chunks_m(s, k)[i]).len() == k,
        chunks_m(s, k).len() > 0 ==> chunks_m(s, k).last().len() == s.len() - k * (chunks_m(
            s,
            k,
        ).len() - 1),
    decreases s.len(),
{
    if s.len() == 0 {
        assert(concat_chunks_m(chunks_m(s, k)) =~= s);
        assert((s.len() + k - 1) / k == 0) by (nonlinear_arith)
            requires
                k > 0,
                s.len() == 0,
        ;
    } else if s.len() <= k {
        assert(chunks_m(s, k) == seq![s]);
        assert((s.len() + k - 1) / k == 1) by (nonlinear_arith)
            requires
                k > 0,
                0 < s.len() <= k,
        ;
        assert(concat_chunks_m(seq![s].drop_first()) =~= Seq::<ProfileM>::empty());
        assert(concat_chunks_m(chunks_m(s, k)) =~= s);
        assert(chunks_m(s, k).last() == s);
        assert(k * (chunks_m(s, k).len() - 1) == 0) by (nonlinear_arith)
            requires
                chunks_m(s, k).len() == 1,
        ;
    } else {
        lemma_chunks_shape(s.skip(k), k);
        let cs = chunks_m(s, k);
        assert(cs == seq![s.take(k)] + chunks_m(s.skip(k), k));
        assert(cs.len() == 1 + chunks_m(s.skip(k), k).len());
        assert((s.len() - k + k - 1) / k + 1 == (s.len() + k - 1) / k) by (nonlinear_arith)
            requires
                k > 0,
                s.len() > k,
        ;
        assert(cs.drop_first() =~= chunks_m(s.skip(k), k));
        assert(concat_chunks_m(cs) == s.take(k) + concat_chunks_m(chunks_m(s.skip(k), k)));
        assert(s.take(k) + s.skip(k) =~= s);
        assert forall|i: int| 0 <= i < cs.len() - 1 implies (#[trigger] cs[i]).len() == k by {
            if i > 0 {
                assert(cs[i] == chunks_m(s.skip(k), k)[i - 1]);
            }
        }
        if cs.len() > 0 {
            assert(cs.last() == chunks_m(s.skip(k), k).last());
            assert(s.skip(k).len() == s.len() - k);
            assert(s.len() - k * (cs.len() - 1) == (s.skip(k).len() - k * (chunks_m(
                s.skip(k),
                k,
            ).len() - 1))) by (nonlinear_arith)
                requires
                    cs.len() == chunks_m(s.skip(k), k).len() + 1,
                    s.skip(k).len() == s.len() - k,
            ;
            assert(chunks_m(s.skip(k), k).len() > 0);
            assert(cs.last().len() == s.len() - k * (cs.len() - 1));
        }
    }
}

/// Idempotence: the merge is a function of the joined bundles, the
/// filter and the entropy, so two runs over the same inputs yield
/// model-identical output, identifiers and generated handles included.
pub proof fn lemma_run_merge_idempotent(
    bm1: Seq<(Seq<u8>, DataM)>,
    bm2: Seq<(Seq<u8>, DataM)>,
    mozillians_only: bool,
    entropy: Seq<u8>,
)
    requires
        bm1 == bm2,
    ensures
        run_merge_m(bm1, mozillians_only, entropy) == run_merge_m(bm2, mozillians_only, entropy),
{
}

/// A bundle with HR data but no directory data contributes exactly what
/// it would contribute with its HR data deleted: HR data never reaches
/// the output without directory data, whatever community data is there.
pub proof fn lemma_hr_alone_ignored(d: DataM, mozillians_only: bool, entropy: Seq<u8>)
    requires
        !(d.ldap is Obj),
    ensures
        merge_bundle_m(d, mozillians_only, entropy) == merge_bundle_m(
            DataM { hris: JsonM::Null, ..d },
            mozillians_only,
            entropy,
        ),
{
}

/// A bundle with only community data appears in the output whenever its
/// mapper succeeds, built from the default profile by that mapper alone,
/// and its active flag is always set.
pub proof fn lemma_community_only(d: DataM, mozillians_only: bool, entropy: Seq<u8>)
    requires
        !(d.hris is Obj) || !(d.ldap is Obj),
        d.mozillians is Obj,
    ensures
        merge_bundle_m(d, mozillians_only, entropy) == (match map_mozillians_m(
            profile_default_m(),
            d.mozillians,
            None,
        ) {
            Ok((p, _)) => Some(p),
            Err(_) => None,
        }),
        merge_bundle_m(d, mozillians_only, entropy) matches Some(p) ==> p.active.value == true,
{
    reveal(map_mozillians_m);
    reveal(crate::mozillians::map_mozillians_profile_m);
}

/// Looking up the key just stored gives the stored value.
pub proof fn lemma_entries_put_index(es: Seq<(Seq<u8>, JsonM)>, key: Seq<u8>, v: JsonM)
    ensures
        entries_index(entries_put(es, key, v), key) == v,
    decreases es.len(),
{
    if es.len() == 0 {
        assert(entries_put(es, key, v) == seq![(key, v)]);
        assert(entries_index(seq![(key, v)], key) == v);
    } else if es[0].0 == key {
        assert(entries_put(es, key, v) == seq![(key, v)] + es.drop_first());
        assert((seq![(key, v)] + es.drop_first())[0] == (key, v));
    } else {
        lemma_entries_put_index(es.drop_first(), key, v);
        assert(entries_put(es, key, v) == seq![es[0]] + entries_put(es.drop_first(), key, v));
        assert((seq![es[0]] + entries_put(es.drop_first(), key, v))[0] == es[0]);
        assert((seq![es[0]] + entries_put(es.drop_first(), key, v)).drop_first() =~= entries_put(
            es.drop_first(),
            key,
            v,
        ));
    }
}

/// Username precedence: when the community record carries a username, the
/// handle stored in the final profile is that username, whatever handle
/// the directory mapper had stored before.
pub proof fn lemma_username_precedence(
    p: ProfileM,
    l: JsonM,
    m: JsonM,
    entropy: Seq<u8>,
    u: Seq<u8>,
)
    requires
        map_ldap_m(p, l, None, None, entropy) is Ok,
        jstr(jix(m, sbytes("username"))) == Some(u),
        map_mozillians_m(map_ldap_m(p, l, None, None, entropy)->Ok_0.0, m, None) is Ok,
    ensures
        entries_index(
            map_mozillians_m(map_ldap_m(p, l, None, None, entropy)->Ok_0.0, m, None)->Ok_0.0
                .usernames.values,
            sbytes("mozilliansorg"),
        ) == JsonM::Str(u),
{
    reveal(map_mozillians_m);
    reveal(crate::mozillians::map_mozillians_profile_m);
    let p2 = map_ldap_m(p, l, None, None, entropy)->Ok_0.0;
    let p3 = map_mozillians_m(p2, m, None)->Ok_0.0;
    assert(p3.usernames.values == entries_put(
        p2.usernames.values,
        sbytes("mozilliansorg"),
        JsonM::Str(u),
    ));
    lemma_entries_put_index(p2.usernames.values, sbytes("mozilliansorg"), JsonM::Str(u));
}

} // verus!
verus! {

/// Record a stored avatar on the profile: the picture payload becomes the
/// rendition file name. The caller applies this only after all renditions
/// of a job were written.
pub fn set_picture(p: Profile, name: &Vec<u8>) -> (r: Profile)
    ensures
        r@ == (ProfileM {
            picture: crate::schema::StandardAttributeStringM {
                value: Some(name@),
                ..p@.picture
            },
            ..p@
        }),
{
    let r = Profile {
        picture: p.picture.set_value(Some(crate::text::clone_bytes(name))),
        ..p
    };
    r
}

} // verus!
