use v2conv::hris::map_hris;
use v2conv::jsonval::JsonVal;
use v2conv::ldap::map_ldap;
use v2conv::mozillians::map_mozillians;
use v2conv::schema::{MapError, Profile};
use v2conv::username::derive_id;

fn obj(entries: Vec<(&str, JsonVal)>) -> JsonVal {
    JsonVal::Obj(
        entries
            .into_iter()
            .map(|(k, v)| (k.as_bytes().to_vec(), v))
            .collect(),
    )
}

fn s(text: &str) -> JsonVal {
    JsonVal::Str(text.as_bytes().to_vec())
}

#[test]
fn basic_profile() {
    let p = Profile::default();
    assert!(p.active.value);
    assert!(p.primary_email.value.is_none());
    assert!(!p.staff_information.staff.value);
    assert_eq!(
        p.schema,
        b"https://person-api.sso.mozilla.com/schema/v2/profile".to_vec()
    );
}

#[test]
fn hris_mapper_copies_staff_information() {
    let record = obj(vec![
        ("Cost_Center", s("1234 Widgets")),
        ("isDirectorOrAbove", s("TRUE")),
        ("IsManager", s("FALSE")),
        ("EmployeeID", s("E123")),
        ("Team", s("Widgets")),
        ("businessTitle", s("Foo Engineering Mgmt 5")),
        ("LocationDescription", s("Remote")),
    ]);
    let p = map_hris(Profile::default(), &record);
    assert_eq!(
        p.staff_information.cost_center.value,
        Some(b"1234 Widgets".to_vec())
    );
    assert!(p.staff_information.director.value);
    assert!(!p.staff_information.manager.value);
    assert!(p.staff_information.staff.value);
    assert_eq!(
        p.staff_information.title.value,
        Some(b"Foo Engineering".to_vec())
    );
    assert_eq!(p.staff_information.worker_type.value, None);
    // The raw record is stored verbatim in the HR access-information block.
    match &p.access_information.hris.values {
        JsonVal::Obj(es) => assert_eq!(es.len(), 7),
        _ => panic!("hris record not stored"),
    }
}

#[test]
fn hris_mapper_never_fails_on_empty_record() {
    let p = map_hris(Profile::default(), &JsonVal::Null);
    assert_eq!(p.staff_information.cost_center.value, None);
    assert!(!p.staff_information.staff.value);
}

fn ldap_record(email: &str, irc_entry: Option<&str>) -> JsonVal {
    let mut usernames: Vec<(Vec<u8>, JsonVal)> = Vec::new();
    if let Some(entry) = irc_entry {
        usernames.push((b"label".to_vec(), s(entry)));
    }
    obj(vec![
        ("primary_email", obj(vec![("value", s(email))])),
        ("first_name", obj(vec![("value", s("Jane"))])),
        ("last_name", obj(vec![("value", JsonVal::Null)])),
        ("ssh_public_keys", obj(vec![("values", obj(vec![]))])),
        ("pgp_public_keys", obj(vec![("values", obj(vec![]))])),
        ("phone_numbers", obj(vec![("values", obj(vec![]))])),
        (
            "usernames",
            obj(vec![("values", JsonVal::Obj(usernames))]),
        ),
        ("user_id", obj(vec![("value", s("uid-1"))])),
        ("active", obj(vec![("value", JsonVal::Bool(true))])),
    ])
}

#[test]
fn ldap_mapper_requires_primary_email() {
    let record = obj(vec![("first_name", obj(vec![("value", s("Jane"))]))]);
    let r = map_ldap(Profile::default(), &record, &None, &None, &b"".to_vec());
    assert!(matches!(r, Err(MapError::MissingPrimaryEmail)));
}

#[test]
fn ldap_mapper_rejects_bad_shapes() {
    let mut record = ldap_record("jane@mozilla.com", None);
    if let JsonVal::Obj(es) = &mut record {
        es.push((
            b"description".to_vec(),
            obj(vec![("value", JsonVal::Bool(true))]),
        ));
    }
    let r = map_ldap(Profile::default(), &record, &None, &None, &b"".to_vec());
    assert!(matches!(r, Err(MapError::BadShape)));
}

#[test]
fn ldap_mapper_fills_profile() {
    let record = ldap_record("jane@mozilla.com", Some("irc jdoe"));
    let (p, job) = map_ldap(Profile::default(), &record, &None, &None, &b"".to_vec()).unwrap();
    assert!(job.is_none());
    assert_eq!(p.first_name.value, Some(b"Jane".to_vec()));
    assert_eq!(p.last_name.value, None);
    assert_eq!(p.user_id.value, Some(b"uid-1".to_vec()));
    // The primary email keys the person but is not stored back.
    assert_eq!(p.primary_email.value, None);
    let id = derive_id(&b"jane@mozilla.com".to_vec());
    assert_eq!(p.identities.dinopark_id.value, Some(id));
    // The relay-chat tagged entry supplies the handle.
    let handle = p
        .usernames
        .values
        .iter()
        .find(|(k, _)| k == b"mozilliansorg")
        .map(|(_, v)| v);
    match handle {
        Some(JsonVal::Str(h)) => assert_eq!(h, &b"jdoe".to_vec()),
        _ => panic!("handle missing"),
    }
}

#[test]
fn ldap_mapper_generates_handle_without_tag() {
    let record = ldap_record("jane@mozilla.com", None);
    let (p, _) = map_ldap(
        Profile::default(),
        &record,
        &None,
        &None,
        &b"pepper".to_vec(),
    )
    .unwrap();
    let handle = p
        .usernames
        .values
        .iter()
        .find(|(k, _)| k == b"mozilliansorg")
        .map(|(_, v)| v);
    match handle {
        Some(JsonVal::Str(h)) => {
            assert!(h.starts_with(b"r--"));
        }
        _ => panic!("handle missing"),
    }
}

#[test]
fn mozillians_mapper_requires_username() {
    let record = obj(vec![("first_name", s("Jo"))]);
    let r = map_mozillians(Profile::default(), &record, &None);
    assert!(matches!(r, Err(MapError::MissingUsername)));
}

#[test]
fn mozillians_mapper_null_is_no_op() {
    let (p, job) = map_mozillians(Profile::default(), &JsonVal::Null, &None).unwrap();
    assert!(job.is_none());
    assert_eq!(p.first_name.value, None);
}

#[test]
fn mozillians_mapper_fills_only_unset_fields() {
    let record = obj(vec![
        ("username", s("jo")),
        ("first_name", s("Josephine")),
        ("tags", JsonVal::Arr(vec![s("rust"), s("maps")])),
        ("skills", JsonVal::Arr(vec![s("rust"), s("baking")])),
        (
            "idps",
            JsonVal::Arr(vec![obj(vec![("email", s("jo@example.org"))])]),
        ),
        ("uris", obj(vec![("blog", s("https://example.org")), ("empty", s(""))])),
    ]);
    let (p, _) = map_mozillians(Profile::default(), &record, &None).unwrap();
    assert!(p.active.value);
    assert_eq!(p.first_name.value, Some(b"Josephine".to_vec()));
    assert_eq!(p.primary_email.value, Some(b"jo@example.org".to_vec()));
    // Tags and skills flatten into one de-duplicated keyed set.
    let keys: Vec<&[u8]> = p.tags.values.iter().map(|(k, _)| k.as_slice()).collect();
    assert_eq!(
        keys,
        vec![b"rust".as_slice(), b"maps".as_slice(), b"baking".as_slice()]
    );
    // URIs copy under the fixed prefix, dropping empty values.
    let uri_keys: Vec<&[u8]> = p.uris.values.iter().map(|(k, _)| k.as_slice()).collect();
    assert_eq!(uri_keys, vec![b"EA#blog".as_slice()]);
}

#[test]
fn username_precedence_community_wins() {
    let ldap = ldap_record("jane@mozilla.com", Some("IRC directory-handle"));
    let (p, _) = map_ldap(Profile::default(), &ldap, &None, &None, &b"".to_vec()).unwrap();
    let moz = obj(vec![("username", s("community-handle"))]);
    let (p, _) = map_mozillians(p, &moz, &None).unwrap();
    let handle = p
        .usernames
        .values
        .iter()
        .find(|(k, _)| k == b"mozilliansorg")
        .map(|(_, v)| v);
    match handle {
        Some(JsonVal::Str(h)) => assert_eq!(h, &b"community-handle".to_vec()),
        _ => panic!("handle missing"),
    }
}
