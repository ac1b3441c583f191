use stars2nix::decode::{ApiError, Field};
use stars2nix::error::{decimal, RunError, TOKEN_VARIABLE};

#[test]
fn decimal_writes_a_number_without_leading_zeros() {
    assert_eq!(decimal(0), "0");
    assert_eq!(decimal(7), "7");
    assert_eq!(decimal(10), "10");
    assert_eq!(decimal(99), "99");
    assert_eq!(decimal(1234567890), "1234567890");
    assert_eq!(decimal(usize::MAX), usize::MAX.to_string());
}

#[test]
fn field_knows_where_it_stands() {
    assert_eq!(Field::HasNextPage.path(), "data.user.starredRepositories.pageInfo.hasNextPage");
    assert_eq!(Field::Edges.path(), "data.user.starredRepositories.edges");
    assert_eq!(Field::StarredAt.path(), "starredAt");
    assert_eq!(Field::OwnerLogin.path(), "node.owner.login");
    assert_eq!(Field::Name.path(), "node.name");
    assert_eq!(Field::Url.path(), "node.url");
    assert_eq!(Field::CreatedAt.path(), "node.createdAt");
}

#[test]
fn api_error_says_what_is_wrong() {
    assert_eq!(ApiError::NotJson.message(), "unexpected response: the body is not JSON");
    assert_eq!(
        ApiError::Missing(Field::Edges).message(),
        "unexpected response: missing data.user.starredRepositories.edges"
    );
    assert_eq!(
        ApiError::MissingInEdge { index: 42, field: Field::Name }.message(),
        "unexpected response: edge 42: missing node.name"
    );
}

#[test]
fn run_error_says_why_the_run_failed() {
    assert_eq!(TOKEN_VARIABLE, "GITHUB_API_TOKEN");
    assert_eq!(RunError::Configuration.message(), "missing GITHUB_API_TOKEN");
    assert_eq!(
        RunError::Authentication.message(),
        "authentication failed: the response names no login"
    );
    assert_eq!(
        RunError::Transport("connection refused".to_string()).message(),
        "transport error: connection refused"
    );
    assert_eq!(
        RunError::Api(ApiError::Missing(Field::HasNextPage)).message(),
        "unexpected response: missing data.user.starredRepositories.pageInfo.hasNextPage"
    );
    assert_eq!(
        RunError::Filesystem("disk full".to_string()).message(),
        "filesystem error: disk full"
    );
}
