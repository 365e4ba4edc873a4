use axum_api::naming::{validate_group_id, validate_repo_credential_id, validate_username};

#[test]
fn ok_username() {
    let r = validate_username("johN_doe99").unwrap();
    assert_eq!(r, "john_doe99");
}

#[test]
fn too_long() {
    let name = "abcdefghijklmnopqrstuvwxyzabcdefghijklmnopqrstuvwxyzabcdefghijkl";
    let err = validate_username(name).unwrap_err();
    assert!(err.contains("Length limit exceeded"));
}

#[test]
fn invalid_characters() {
    let err = validate_username("john*doe").unwrap_err();
    assert!(err.contains("Invalid character"));
}

#[test]
fn starts_with_digit() {
    let err = validate_username("1abc").unwrap_err();
    assert!(err.contains("cannot start with a digit"));
}

#[test]
fn case_conversion_happens_first() {
    let r = validate_username("abcXYZ").unwrap();
    assert_eq!(r, "abcxyz");
}

#[test]
fn ok_group_id_without_prefix() {
    let r = validate_group_id("mygroup").unwrap();
    assert_eq!(r, "mygroup");
}

#[test]
fn ok_group_id_with_prefix() {
    let r = validate_group_id("g_mygroup").unwrap();
    assert_eq!(r, "mygroup");
}

#[test]
fn group_id_case_conversion() {
    let r = validate_group_id("MyGroup_123").unwrap();
    assert_eq!(r, "mygroup_123");
}

#[test]
fn group_id_with_prefix_case_conversion() {
    let r = validate_group_id("g_MyGroup_123").unwrap();
    assert_eq!(r, "mygroup_123");
}

#[test]
fn group_id_too_long() {
    let name = "abcdefghijklmnopqrstuvwxyzabcdefghijklmnopqrstuvwxyzabcdefghijkl";
    let err = validate_group_id(name).unwrap_err();
    assert!(err.contains("Length limit exceeded"));
}

#[test]
fn group_id_starts_with_digit() {
    let err = validate_group_id("1group").unwrap_err();
    assert!(err.contains("cannot start with a digit"));
}

#[test]
fn group_id_with_hyphens() {
    let r = validate_group_id("my-group-name").unwrap();
    assert_eq!(r, "my-group-name");
}

#[test]
fn group_id_with_hyphens_and_underscores() {
    let r = validate_group_id("my-group_name").unwrap();
    assert_eq!(r, "my-group_name");
}

#[test]
fn group_id_starts_with_hyphen() {
    let err = validate_group_id("-group").unwrap_err();
    assert!(err.contains("cannot start with '-'"));
}

#[test]
fn ok_repo_credential_id_without_prefix() {
    let r = validate_repo_credential_id("deploy-key").unwrap();
    assert_eq!(r, "deploy-key");
}

#[test]
fn ok_repo_credential_id_with_prefix() {
    let r = validate_repo_credential_id("rc_deploy-key").unwrap();
    assert_eq!(r, "deploy-key");
}

#[test]
fn repo_credential_id_case_conversion() {
    let r = validate_repo_credential_id("Deploy_Key").unwrap();
    assert_eq!(r, "deploy_key");
}

#[test]
fn username_too_short() {
    let err = validate_username("a").unwrap_err();
    assert!(err.contains("Length too short"));
}

#[test]
fn prefix_is_optional_for_group_ids() {
    assert_eq!(validate_group_id("g_team-a"), validate_group_id("team-a"));
}

#[test]
fn validated_username_validates_to_itself() {
    let once = validate_username("MixedCase_1").unwrap();
    assert_eq!(validate_username(&once).unwrap(), once);
}

#[test]
fn prefix_is_stripped_once_only() {
    assert_eq!(validate_group_id("g_g_abc").unwrap(), "g_abc");
}
