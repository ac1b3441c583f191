use stars2nix::json::{child, Json};
use stars2nix::request::{
    identity_request, page_request, ApiRequest, PageVariables, API_URL, QUERY_STARS, QUERY_WHOAMI,
};

#[test]
fn identity_request_asks_for_the_login() {
    assert_eq!(
        identity_request("secret"),
        ApiRequest {
            token: "secret".to_string(),
            query: "{ viewer { login } }".to_string(),
            variables: None,
        }
    );
    assert_eq!(QUERY_WHOAMI, "{ viewer { login } }");
    assert_eq!(API_URL, "https://api.github.com/graphql");
}

#[test]
fn identity_body_holds_the_query_alone() {
    assert_eq!(
        identity_request("secret").body(),
        Json::Object(vec![("query".to_string(), Json::Text("{ viewer { login } }".to_string()))])
    );
}

#[test]
fn page_request_carries_login_and_cursor() {
    let request = page_request("secret", "alice", &Some("Y3Vyc29y".to_string()));
    assert_eq!(
        request,
        ApiRequest {
            token: "secret".to_string(),
            query: QUERY_STARS.to_string(),
            variables: Some(PageVariables {
                login: "alice".to_string(),
                cursor: Some("Y3Vyc29y".to_string()),
            }),
        }
    );
}

#[test]
fn page_body_holds_query_and_variables() {
    let body = page_request("secret", "alice", &Some("Y3Vyc29y".to_string())).body();
    assert_eq!(
        body,
        Json::Object(vec![
            ("query".to_string(), Json::Text(QUERY_STARS.to_string())),
            (
                "variables".to_string(),
                Json::Object(vec![
                    ("login".to_string(), Json::Text("alice".to_string())),
                    ("cursor".to_string(), Json::Text("Y3Vyc29y".to_string())),
                ]),
            ),
        ])
    );
}

#[test]
fn first_page_is_asked_for_with_a_null_cursor() {
    let request = page_request("secret", "alice", &None);
    assert_eq!(request.variables.as_ref().map(|v| v.cursor.clone()), Some(None));
    let body = request.body();
    assert_eq!(child(body.get("variables"), "cursor"), Some(&Json::Null));
    assert_eq!(child(body.get("variables"), "login"), Some(&Json::Text("alice".to_string())));
}

#[test]
fn a_cursor_is_carried_as_it_is() {
    for cursor in ["", "Y3Vyc29yOnYyOpK5MjAxOC0wMi0wM1Q=", "with \"quotes\" and \\", "caf\u{e9}"] {
        let body = page_request("t", "alice", &Some(cursor.to_string())).body();
        assert_eq!(child(body.get("variables"), "cursor"), Some(&Json::Text(cursor.to_string())));
    }
}

#[test]
fn stars_query_asks_for_a_hundred_at_a_time() {
    assert!(QUERY_STARS.starts_with("query($login: String!, $cursor: String) {\n  user(login: $login) {\n    starredRepositories(first: 100, after: $cursor) {\n"));
    for field in ["endCursor", "hasNextPage", "starredAt", "login", "name", "url", "createdAt", "description", "homepageUrl"] {
        assert!(QUERY_STARS.contains(field), "{field}");
    }
    assert!(QUERY_STARS.ends_with("    }\n  }\n}"));
}
