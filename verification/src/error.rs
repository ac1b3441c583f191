//! The ways in which a run fails, and what is said of each.

use crate::decode::{ApiError, Field};
use vstd::prelude::*;

verus! {

/// The name of the setting that holds the API token.
pub const TOKEN_VARIABLE: &'static str = "GITHUB_API_TOKEN";

/// Why a run ended early. Every one of them ends the run; none is retried.
#[derive(Clone, Debug, PartialEq, Eq)]
pub enum RunError {
    /// No API token was given.
    Configuration,
    /// The identity response names no login.
    Authentication,
    /// A request could not be carried out; the text is the transport's own.
    Transport(String),
    /// A page response could not be read.
    Api(ApiError),
    /// A directory or a file could not be written; the text is the
    /// system's own.
    Filesystem(String),
}

/// The mathematical value of a [`RunError`].
pub enum RunErrorView {
    Configuration,
    Authentication,
    Transport(Seq<char>),
    Api(ApiError),
    Filesystem(Seq<char>),
}

impl View for RunError {
    type V = RunErrorView;

    open spec fn view(&self) -> RunErrorView {
        match self {
            RunError::Configuration => RunErrorView::Configuration,
            RunError::Authentication => RunErrorView::Authentication,
            RunError::Transport(reason) => RunErrorView::Transport(reason@),
            RunError::Api(error) => RunErrorView::Api(*error),
            RunError::Filesystem(reason) => RunErrorView::Filesystem(reason@),
        }
    }
}

/// The decimal digit for `d`, which is below ten.
pub open spec fn digit_char(d: nat) -> char {
    if d == 0 {
        '0'
    } else if d == 1 {
        '1'
    } else if d == 2 {
        '2'
    } else if d == 3 {
        '3'
    } else if d == 4 {
        '4'
    } else if d == 5 {
        '5'
    } else if d == 6 {
        '6'
    } else if d == 7 {
        '7'
    } else if d == 8 {
        '8'
    } else {
        '9'
    }
}

/// `n` in decimal, without leading zeros.
pub open spec fn decimal_text(n: nat) -> Seq<char>
    decreases n,
{
    if n < 10 {
        seq![digit_char(n)]
    } else {
        decimal_text(n / 10).push(digit_char(n % 10))
    }
}

/// Where a required field stands: a page field from the root of the
/// response, a field of an edge from the edge.
pub open spec fn field_path(field: Field) -> Seq<char> {
    match field {
        Field::HasNextPage => "data.user.starredRepositories.pageInfo.hasNextPage"@,
        Field::Edges => "data.user.starredRepositories.edges"@,
        Field::StarredAt => "starredAt"@,
        Field::OwnerLogin => "node.owner.login"@,
        Field::Name => "node.name"@,
        Field::Url => "node.url"@,
        Field::CreatedAt => "node.createdAt"@,
    }
}

/// What is said of a page response that could not be read.
pub open spec fn api_message(error: ApiError) -> Seq<char> {
    match error {
        ApiError::NotJson => "unexpected response: the body is not JSON"@,
        ApiError::Missing(field) => "unexpected response: missing "@ + field_path(field),
        ApiError::MissingInEdge { index, field } => "unexpected response: edge "@ + decimal_text(
            index as nat,
        ) + ": missing "@ + field_path(field),
    }
}

/// What is said of a failed run.
pub open spec fn error_message(error: RunErrorView) -> Seq<char> {
    match error {
        RunErrorView::Configuration => "missing "@ + TOKEN_VARIABLE@,
        RunErrorView::Authentication => "authentication failed: the response names no login"@,
        RunErrorView::Transport(reason) => "transport error: "@ + reason,
        RunErrorView::Api(error) => api_message(error),
        RunErrorView::Filesystem(reason) => "filesystem error: "@ + reason,
    }
}

/// The decimal digit for `d`.
fn digit(d: usize) -> (c: char)
    requires
        d < 10,
    ensures
        c == digit_char(d as nat),
{
    match d {
        0 => '0',
        1 => '1',
        2 => '2',
        3 => '3',
        4 => '4',
        5 => '5',
        6 => '6',
        7 => '7',
        8 => '8',
        _ => '9',
    }
}

/// Writes `n` in decimal.
pub fn decimal(n: usize) -> (text: String)
    ensures
        text@ == decimal_text(n as nat),
    decreases n,
{
    if n < 10 {
        let mut text = String::new();
        text.push(digit(n));
        assert(text@ =~= seq![digit_char(n as nat)]);
        text
    } else {
        let mut text = decimal(n / 10);
        text.push(digit(n % 10));
        text
    }
}

impl Field {
    /// Where the field stands in the response.
    pub fn path(&self) -> (path: &'static str)
        ensures
            path@ == field_path(*self),
    {
        match self {
            Field::HasNextPage => "data.user.starredRepositories.pageInfo.hasNextPage",
            Field::Edges => "data.user.starredRepositories.edges",
            Field::StarredAt => "starredAt",
            Field::OwnerLogin => "node.owner.login",
            Field::Name => "node.name",
            Field::Url => "node.url",
            Field::CreatedAt => "node.createdAt",
        }
    }
}

impl ApiError {
    /// Says what is wrong with the response.
    pub fn message(&self) -> (text: String)
        ensures
            text@ == api_message(*self),
    {
        match self {
            ApiError::NotJson => "unexpected response: the body is not JSON".to_owned(),
            ApiError::Missing(field) => {
                let mut text = "unexpected response: missing ".to_owned();
                text.append(field.path());
                text
            },
            ApiError::MissingInEdge { index, field } => {
                let mut text = "unexpected response: edge ".to_owned();
                text.append(decimal(*index).as_str());
                text.append(": missing ");
                text.append(field.path());
                text
            },
        }
    }
}

impl RunError {
    /// Says why the run failed.
    pub fn message(&self) -> (text: String)
        ensures
            text@ == error_message(self@),
    {
        match self {
            RunError::Configuration => {
                let mut text = "missing ".to_owned();
                text.append(TOKEN_VARIABLE);
                text
            },
            RunError::Authentication => {
                "authentication failed: the response names no login".to_owned()
            },
            RunError::Transport(reason) => {
                let mut text = "transport error: ".to_owned();
                text.append(reason.as_str());
                text
            },
            RunError::Api(error) => error.message(),
            RunError::Filesystem(reason) => {
                let mut text = "filesystem error: ".to_owned();
                text.append(reason.as_str());
                text
            },
        }
    }
}

} // verus!
