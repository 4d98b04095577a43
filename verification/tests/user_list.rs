use backend::projects::generate_user_list;

#[test]
fn generates_user_list_as_expected() {
    let users = vec!["user".to_string(), "other_user".to_string()];
    let user_list = generate_user_list(&users);
    assert_eq!(user_list, "\"user\", \"other_user\"");
}

#[test]
fn generates_blank_string_as_expected_when_no_users() {
    let users = vec![];
    let user_list = generate_user_list(&users);
    assert_eq!(user_list, "");
}

#[test]
fn generates_single_user_without_separator() {
    let users = vec!["user".to_string()];
    let user_list = generate_user_list(&users);
    assert_eq!(user_list, "\"user\"");
}
