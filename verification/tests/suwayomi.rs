use aidoku_sources::model::FilterValue;
use aidoku_sources::suwayomi::{
    auth_mode, auth_plan, base_url, basic_auth_header, credentials, graphql_url,
    listing_variables, login_accepted, login_form, login_plan, login_url, page_url, parse_id,
    search_variables, AuthPlan, CategoryCondition, LoginPlan,
};

#[test]
fn suwayomi_settings() {
    assert_eq!(base_url(Some("http://host:4567//")), Some("http://host:4567".to_string()));
    assert_eq!(base_url(None), None);
    assert_eq!(auth_mode(Some("")), "auto");
    assert_eq!(auth_mode(None), "auto");
    assert_eq!(auth_mode(Some("none")), "none");
    assert_eq!(credentials(Some("me"), Some("pw")), Some(("me".to_string(), "pw".to_string())));
    assert_eq!(credentials(Some(""), Some("pw")), None);
    assert_eq!(credentials(Some("me"), None), None);
}

#[test]
fn suwayomi_authentication() {
    assert_eq!(auth_plan("none"), AuthPlan::Plain);
    assert_eq!(auth_plan("basic_auth"), AuthPlan::Basic);
    assert_eq!(auth_plan("simple_login"), AuthPlan::LoginThenPlain);
    assert_eq!(auth_plan("auto"), AuthPlan::BasicThenLoginRetry);
    assert_eq!(login_plan("none"), LoginPlan::Accept);
    assert_eq!(login_plan("whatever"), LoginPlan::BasicThenForm);
    assert!(login_accepted(LoginPlan::Accept, None, None));
    assert!(!login_accepted(LoginPlan::Basic, Some(401), None));
    assert!(login_accepted(LoginPlan::BasicThenForm, Some(401), Some(200)));
    assert!(!login_accepted(LoginPlan::Form, None, None));
    assert_eq!(basic_auth_header("user", "pass"), "Basic dXNlcjpwYXNz");
    assert_eq!(graphql_url("http://h"), "http://h/api/graphql");
    assert_eq!(login_url("http://h"), "http://h/login.html");
}

#[test]
fn suwayomi_search_and_pages() {
    let filters = vec![
        FilterValue::Sort { id: "sort".to_string(), index: 2, ascending: false },
        FilterValue::Sort { id: "sort".to_string(), index: 7, ascending: true },
        FilterValue::Check { id: "CATEGORY".to_string(), value: 3 },
        FilterValue::Check { id: "CATEGORY".to_string(), value: 0 },
        FilterValue::Check { id: "OTHER".to_string(), value: 5 },
    ];
    let v = search_variables(Some("one"), &filters);
    assert_eq!(v.order, vec![("LAST_FETCHED_AT", false)]);
    assert_eq!(v.category, Some(CategoryCondition::IsNull));
    assert_eq!(v.title_like, Some("%one%".to_string()));
    let l = listing_variables(4);
    assert_eq!(l.order, vec![("TITLE", true)]);
    assert_eq!(l.category, Some(CategoryCondition::EqualTo(4)));
    assert_eq!(l.title_like, None);
    assert_eq!(parse_id("12"), Some(12));
    assert_eq!(parse_id("x"), None);
    assert_eq!(page_url("http://h", "/api/v1/page/1"), "http://h/api/v1/page/1");
}

#[test]
fn suwayomi_login_form_is_encoded() {
    assert_eq!(login_form("me@x", "p w&="), "user=me%40x&pass=p%20w%26%3d");
}
