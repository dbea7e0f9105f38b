use v2conv::jsonval::JsonVal;
use v2conv::loader::load_all;
use v2conv::merge::{chunk_profiles, run_merge};
use v2conv::schema::Profile;

fn jobj(entries: Vec<(&str, JsonVal)>) -> JsonVal {
    JsonVal::Obj(
        entries
            .into_iter()
            .map(|(k, v)| (k.as_bytes().to_vec(), v))
            .collect(),
    )
}

fn jstr(text: &str) -> JsonVal {
    JsonVal::Str(text.as_bytes().to_vec())
}

fn hris_doc() -> JsonVal {
    jobj(vec![(
        "Report_Entry",
        JsonVal::Arr(vec![
            jobj(vec![
                ("PrimaryWorkEmail", jstr("jane@mozilla.com")),
                ("CurrentlyActive", jstr("1")),
                ("Team", jstr("Widgets")),
            ]),
            jobj(vec![
                ("PrimaryWorkEmail", jstr("gone@mozilla.com")),
                ("CurrentlyActive", jstr("0")),
            ]),
        ]),
    )])
}

fn ldap_doc() -> JsonVal {
    jobj(vec![(
        "mail=jane",
        jobj(vec![
            ("primary_email", jobj(vec![("value", jstr("jane@mozilla.com"))])),
            ("user_id", jobj(vec![("value", jstr("dir-7"))])),
            ("ssh_public_keys", jobj(vec![("values", jobj(vec![]))])),
            ("pgp_public_keys", jobj(vec![("values", jobj(vec![]))])),
            ("phone_numbers", jobj(vec![("values", jobj(vec![]))])),
            ("usernames", jobj(vec![("values", jobj(vec![]))])),
            ("active", jobj(vec![("value", JsonVal::Bool(true))])),
        ]),
    )])
}

fn moz_doc() -> JsonVal {
    JsonVal::Arr(vec![
        jobj(vec![("user_id", jstr("dir-7")), ("username", jstr("jane-c"))]),
        jobj(vec![("user_id", jstr("dir-8")), ("username", jstr("solo"))]),
    ])
}

#[test]
fn load_all_joins_three_sources() {
    let h = hris_doc();
    let l = ldap_doc();
    let m = moz_doc();
    let bundles = load_all(Some(&h), Some(&l), Some(&m)).unwrap();
    // The inactive HR entry contributes nothing; the unresolved community
    // record surfaces under its own id.
    assert_eq!(bundles.len(), 2);
    assert_eq!(bundles[0].0, b"jane@mozilla.com".to_vec());
    assert!(bundles[0].1.hris.is_object());
    assert!(bundles[0].1.ldap.is_object());
    assert!(bundles[0].1.mozillians.is_object());
    assert_eq!(bundles[1].0, b"dir-8".to_vec());
    assert!(bundles[1].1.hris.is_null());
    assert!(bundles[1].1.mozillians.is_object());
}

#[test]
fn load_all_rejects_wrong_top_level_shape() {
    let bad = JsonVal::Arr(vec![]);
    assert!(load_all(Some(&bad), None, None).is_err());
    let bad2 = jobj(vec![]);
    assert!(load_all(None, None, Some(&bad2)).is_err());
}

#[test]
fn hr_only_bundles_never_appear() {
    let h = hris_doc();
    let bundles = load_all(Some(&h), None, None).unwrap();
    assert_eq!(bundles.len(), 1);
    let out = run_merge(&bundles, false, &b"".to_vec());
    assert_eq!(out.len(), 0);
}

#[test]
fn community_only_bundles_appear_active() {
    let m = moz_doc();
    let bundles = load_all(None, None, Some(&m)).unwrap();
    assert_eq!(bundles.len(), 2);
    let out = run_merge(&bundles, false, &b"".to_vec());
    assert_eq!(out.len(), 2);
    for p in &out {
        assert!(p.active.value);
        // Only community fields are used: no staff information.
        assert!(!p.staff_information.staff.value);
    }
}

#[test]
fn full_bundles_merge_all_three_sources() {
    let h = hris_doc();
    let l = ldap_doc();
    let m = moz_doc();
    let bundles = load_all(Some(&h), Some(&l), Some(&m)).unwrap();
    let out = run_merge(&bundles, false, &b"".to_vec());
    assert_eq!(out.len(), 2);
    assert_eq!(
        out[0].staff_information.team.value,
        Some(b"Widgets".to_vec())
    );
    assert!(out[0].active.value);
}

#[test]
fn mozillians_only_filter_restricts_output() {
    let h = hris_doc();
    let l = ldap_doc();
    let bundles = load_all(Some(&h), Some(&l), None).unwrap();
    let all = run_merge(&bundles, false, &b"".to_vec());
    assert_eq!(all.len(), 1);
    let filtered = run_merge(&bundles, true, &b"".to_vec());
    assert_eq!(filtered.len(), 0);
}

#[test]
fn merge_is_idempotent() {
    let h = hris_doc();
    let l = ldap_doc();
    let m = moz_doc();
    let b1 = load_all(Some(&h), Some(&l), Some(&m)).unwrap();
    let b2 = load_all(Some(&h), Some(&l), Some(&m)).unwrap();
    let out1 = run_merge(&b1, false, &b"entropy".to_vec());
    let out2 = run_merge(&b2, false, &b"entropy".to_vec());
    assert_eq!(out1.len(), out2.len());
    for (p1, p2) in out1.iter().zip(out2.iter()) {
        assert_eq!(p1.identities.dinopark_id.value, p2.identities.dinopark_id.value);
        assert_eq!(p1.usernames.values.len(), p2.usernames.values.len());
        for (a, b) in p1.usernames.values.iter().zip(p2.usernames.values.iter()) {
            assert_eq!(a.0, b.0);
        }
    }
}

fn profile_tagged(n: u8) -> Profile {
    let mut p = Profile::default();
    p.user_id.value = Some(vec![n]);
    p
}

#[test]
fn chunking_splits_evenly_with_remainder() {
    let profiles: Vec<Profile> = (0u8..5).map(profile_tagged).collect();
    let chunks = chunk_profiles(profiles, 2);
    assert_eq!(chunks.len(), 3);
    assert_eq!(chunks[0].len(), 2);
    assert_eq!(chunks[1].len(), 2);
    assert_eq!(chunks[2].len(), 1);
    let flat: Vec<u8> = chunks
        .iter()
        .flat_map(|c| c.iter().map(|p| p.user_id.value.as_ref().unwrap()[0]))
        .collect();
    assert_eq!(flat, vec![0, 1, 2, 3, 4]);
}

#[test]
fn chunking_exact_division() {
    let profiles: Vec<Profile> = (0u8..4).map(profile_tagged).collect();
    let chunks = chunk_profiles(profiles, 2);
    assert_eq!(chunks.len(), 2);
    assert_eq!(chunks[1].len(), 2);
}
