use v2conv::hris::censor_title;

#[test]
fn test_censor() {
    let title = b"Foo Engineering Mgmt 5".to_vec();
    let censored = censor_title(&title);
    assert_eq!(censored, b"Foo Engineering".to_vec());
}

#[test]
fn test_mgmt_replace_censor() {
    let title = b"Foo Product Mgmt 5".to_vec();
    let censored = censor_title(&title);
    assert_eq!(censored, b"Foo Product Management".to_vec());
}

#[test]
fn test_no_number_censor() {
    let title = b"Foo Engineer 2".to_vec();
    let censored = censor_title(&title);
    assert_eq!(censored, b"Foo Engineer".to_vec());
}

#[test]
fn censor_keeps_plain_titles() {
    let title = b"Staff Engineer".to_vec();
    assert_eq!(censor_title(&title), b"Staff Engineer".to_vec());
}

#[test]
fn censor_colon_marker() {
    let title = b"Foo Development: Mgmt 9".to_vec();
    assert_eq!(censor_title(&title), b"Foo Development".to_vec());
}
