use wtmm::url_match::UrlPattern;

#[test]
fn test_matches_root() {
    let url = wtmm::url_match::matches("GET/", &UrlPattern::new("GET/")).unwrap();
    assert_eq!(url.get_path_variables().len(), 0);
}

#[test]
fn test_matches_without_variables() {
    let url = wtmm::url_match::matches("GET/user/resource", &UrlPattern::new("GET/user/resource")).unwrap();
    assert_eq!(url.get_path_variables().len(), 0);
}

#[test]
fn test_matches_with_str_variable() {
    let url = wtmm::url_match::matches(
        "GET/user/00fd/profile",
        &UrlPattern::new("GET/user/:str/profile"),
    )
    .unwrap();
    assert_eq!(url.get_path_variables(), &vec!["00fd"]);
}

#[test]
fn test_matches_with_id_variable() {
    let url = wtmm::url_match::matches(
        "GET/user/321/profile",
        &UrlPattern::new("GET/user/:id/profile"),
    )
    .unwrap();
    assert_eq!(url.get_path_variables(), &vec!["321"]);

    // Fails when the id can't be parsed as a i64
    let url = wtmm::url_match::matches(
        "GET/user/hello/profile",
        &UrlPattern::new("GET/user/:id/profile"),
    );
    assert!(url.is_none());
}

#[test]
fn test_matches_path_variable_order() {
    let url = wtmm::url_match::matches("GET/1/2/3/4", &UrlPattern::new("GET/:id/:id/:id/:id")).unwrap();

    assert_eq!(url.get_path_variables(), &vec!["1", "2", "3", "4"])
}

#[test]
fn test_match_ignore_query_params() {
    wtmm::url_match::matches("GET/hello?query=params", &UrlPattern::new("GET/hello")).unwrap();
}

#[test]
fn test_match_case_insensitive() {
    wtmm::url_match::matches("GET/hello", &UrlPattern::new("get/hello")).unwrap();
}

#[test]
fn test_no_match_different_verbs() {
    let url = wtmm::url_match::matches("GET/user/hello", &UrlPattern::new("POST/user/hello"));
    assert!(url.is_none());
}

#[test]
fn test_match_trailing_slashes() {
    wtmm::url_match::matches("GET/user/hello/", &UrlPattern::new("GET/user/hello")).unwrap();

    wtmm::url_match::matches("GET", &UrlPattern::new("GET/")).unwrap();
}

#[test]
fn test_id_variable_bounds() {
    // The id form accepts the full signed 64-bit range and nothing past it.
    assert!(wtmm::url_match::matches("GET/9223372036854775807", &UrlPattern::new("GET/:id")).is_some());
    assert!(wtmm::url_match::matches("GET/-9223372036854775808", &UrlPattern::new("GET/:id")).is_some());
    assert!(wtmm::url_match::matches("GET/9223372036854775808", &UrlPattern::new("GET/:id")).is_none());
    assert!(wtmm::url_match::matches("GET/+42", &UrlPattern::new("GET/:id")).is_some());
    assert!(wtmm::url_match::matches("GET/4.2", &UrlPattern::new("GET/:id")).is_none());
}

#[test]
fn test_unknown_variable_kind_never_matches() {
    assert!(wtmm::url_match::matches("GET/anything", &UrlPattern::new("GET/:uuid")).is_none());
}
