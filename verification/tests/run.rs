use stars2nix::decode::{ApiError, Field};
use stars2nix::error::RunError;
use stars2nix::json::Json;
use stars2nix::record::OutputRecord;
use stars2nix::request::{identity_request, page_request, ApiRequest};
use stars2nix::run::{
    advance, decode, start, step, Credentials, Decoded, Outcome, RunAction, RunEvent, RunState,
    CURSOR_VARIABLE,
};
use std::collections::HashMap;

fn credentials() -> Credentials {
    Credentials::from_setting(Some("secret".to_string())).expect("credentials")
}

fn some(s: &str) -> Option<String> {
    Some(s.to_string())
}

fn identity_body(login: &str) -> String {
    format!("{{\"data\":{{\"viewer\":{{\"login\":\"{login}\"}}}}}}")
}

fn edge_body(owner: &str, name: &str, homepage: &str, description: &str) -> String {
    format!(
        "{{\"starredAt\":\"2018-02-03T04:05:06Z\",\"node\":{{\"owner\":{{\"login\":\"{owner}\",\"url\":\"https://github.com/{owner}\"}},\"name\":\"{name}\",\"url\":\"https://github.com/{owner}/{name}\",\"primaryLanguage\":null,\"createdAt\":\"2017-01-02T03:04:05Z\",\"pushedAt\":null,\"description\":{description},\"homepageUrl\":{homepage}}}}}"
    )
}

fn page_body(edges: &[String], has_next_page: bool, end_cursor: Option<&str>) -> String {
    let cursor = match end_cursor {
        Some(c) => format!("\"{c}\""),
        None => "null".to_string(),
    };
    format!(
        "{{\"data\":{{\"user\":{{\"starredRepositories\":{{\"pageInfo\":{{\"endCursor\":{cursor},\"hasNextPage\":{has_next_page}}},\"edges\":[{}]}}}}}}}}",
        edges.join(",")
    )
}

fn fetching(cursor: Option<String>) -> RunState {
    RunState::FetchingPage { login: "alice".to_string(), cursor }
}

fn failure(error: RunError, resume: Option<String>) -> Option<(RunState, RunAction)> {
    Some((RunState::Done, RunAction::Exit(Outcome { error: Some(error), resume })))
}

/// What a run did against a simulated API and an in-memory disk.
struct Trace {
    requests: Vec<ApiRequest>,
    files: HashMap<String, String>,
    directories: Vec<String>,
    progress: Vec<String>,
    outcome: Outcome,
}

/// Runs the machine to its end. The API answers the requests, in order,
/// with `answers`; the disk takes every record.
fn run(cursor: Option<String>, answers: &[Result<String, String>]) -> Trace {
    let credentials = credentials();
    let mut trace = Trace {
        requests: Vec::new(),
        files: HashMap::new(),
        directories: Vec::new(),
        progress: Vec::new(),
        outcome: Outcome { error: None, resume: None },
    };
    let mut answers = answers.iter();
    let (mut state, mut action) = start(&credentials, cursor);
    loop {
        let event = match action {
            RunAction::Send(request) => {
                trace.requests.push(request);
                match answers.next().expect("the API was asked once too often") {
                    Ok(body) => RunEvent::Response(body.clone()),
                    Err(reason) => RunEvent::TransportFailed(reason.clone()),
                }
            }
            RunAction::Write(records) => {
                for record in records {
                    if !trace.directories.contains(&record.directory) {
                        trace.directories.push(record.directory.clone());
                    }
                    trace.progress.push(record.progress_line());
                    trace.files.insert(record.path, record.contents);
                }
                RunEvent::RecordsWritten
            }
            RunAction::Exit(outcome) => {
                trace.outcome = outcome;
                assert_eq!(state, RunState::Done);
                assert_eq!(answers.next(), None, "the API was not asked for every page");
                return trace;
            }
        };
        let (next, then) = step(&credentials, state, event).expect("a step");
        state = next;
        action = then;
    }
}

#[test]
fn credentials_need_a_token() {
    assert_eq!(Credentials::from_setting(None), Err(RunError::Configuration));
    let credentials = Credentials::from_setting(some("secret")).expect("credentials");
    assert_eq!(credentials.token(), "secret");
}

#[test]
fn run_starts_with_the_identity_request() {
    let (state, action) = start(&credentials(), some("abc"));
    assert_eq!(state, RunState::ResolvingIdentity { cursor: some("abc") });
    assert_eq!(action, RunAction::Send(identity_request("secret")));
    let (state, _) = start(&credentials(), None);
    assert_eq!(state, RunState::ResolvingIdentity { cursor: None });
}

#[test]
fn identity_leads_to_the_first_page_request() {
    let state = RunState::ResolvingIdentity { cursor: some("abc") };
    assert_eq!(
        step(&credentials(), state, RunEvent::Response(identity_body("alice"))),
        Some((
            RunState::FetchingPage { login: "alice".to_string(), cursor: some("abc") },
            RunAction::Send(page_request("secret", "alice", &some("abc"))),
        ))
    );
}

#[test]
fn identity_without_login_is_an_authentication_failure() {
    for body in ["{\"message\":\"Bad credentials\"}", "", "{\"data\":{\"viewer\":{\"login\":\"\"}}}"] {
        let state = RunState::ResolvingIdentity { cursor: some("abc") };
        assert_eq!(
            step(&credentials(), state, RunEvent::Response(body.to_string())),
            failure(RunError::Authentication, some("abc")),
            "{body}"
        );
    }
}

#[test]
fn transport_failure_ends_the_run_with_the_cursor_reached() {
    let state = RunState::ResolvingIdentity { cursor: None };
    assert_eq!(
        step(&credentials(), state, RunEvent::TransportFailed("timed out".to_string())),
        failure(RunError::Transport("timed out".to_string()), None)
    );
    assert_eq!(
        step(&credentials(), fetching(some("c1")), RunEvent::TransportFailed("reset".to_string())),
        failure(RunError::Transport("reset".to_string()), some("c1"))
    );
}

#[test]
fn page_leads_to_the_writing_of_its_records() {
    let body = page_body(&[edge_body("alice", "foo", "null", "null")], true, Some("c2"));
    let step = step(&credentials(), fetching(some("c1")), RunEvent::Response(body)).expect("a step");
    assert_eq!(
        step.0,
        RunState::WritingRecords {
            login: "alice".to_string(),
            cursor: some("c1"),
            has_next_page: true,
            next_cursor: some("c2"),
        }
    );
    match step.1 {
        RunAction::Write(records) => {
            assert_eq!(records.len(), 1);
            assert_eq!(records[0].directory, "stars/alice");
            assert_eq!(records[0].path, "stars/alice/foo.nix");
        }
        other => panic!("{other:?}"),
    }
}

#[test]
fn page_that_cannot_be_read_is_an_api_failure() {
    assert_eq!(
        step(&credentials(), fetching(some("c1")), RunEvent::Response("oops".to_string())),
        failure(RunError::Api(ApiError::NotJson), some("c1"))
    );
    assert_eq!(
        step(&credentials(), fetching(None), RunEvent::Response("{\"data\":{}}".to_string())),
        failure(RunError::Api(ApiError::Missing(Field::HasNextPage)), None)
    );
    let broken = "{\"starredAt\":\"x\",\"node\":{\"owner\":{\"login\":\"alice\"}}}".to_string();
    let body = page_body(&[edge_body("alice", "foo", "null", "null"), broken], false, None);
    assert_eq!(
        step(&credentials(), fetching(some("c1")), RunEvent::Response(body)),
        failure(RunError::Api(ApiError::MissingInEdge { index: 1, field: Field::Name }), some("c1"))
    );
}

fn writing(has_next_page: bool, next_cursor: Option<String>) -> RunState {
    RunState::WritingRecords {
        login: "alice".to_string(),
        cursor: some("c1"),
        has_next_page,
        next_cursor,
    }
}

#[test]
fn written_records_lead_to_the_next_page() {
    assert_eq!(
        step(&credentials(), writing(true, some("c2")), RunEvent::RecordsWritten),
        Some((
            fetching(some("c2")),
            RunAction::Send(page_request("secret", "alice", &some("c2"))),
        ))
    );
    assert_eq!(
        step(&credentials(), writing(true, None), RunEvent::RecordsWritten),
        Some((fetching(None), RunAction::Send(page_request("secret", "alice", &None))))
    );
}

#[test]
fn written_records_of_the_last_page_end_the_run() {
    assert_eq!(
        step(&credentials(), writing(false, None), RunEvent::RecordsWritten),
        Some((RunState::Done, RunAction::Exit(Outcome { error: None, resume: None })))
    );
    assert_eq!(
        step(&credentials(), writing(false, some("c2")), RunEvent::RecordsWritten),
        Some((RunState::Done, RunAction::Exit(Outcome { error: None, resume: some("c2") })))
    );
}

#[test]
fn write_failure_ends_the_run_at_the_page_that_was_being_written() {
    assert_eq!(
        step(&credentials(), writing(true, some("c2")), RunEvent::WriteFailed("disk full".to_string())),
        failure(RunError::Filesystem("disk full".to_string()), some("c1"))
    );
}

#[test]
fn a_state_takes_only_its_own_events() {
    let c = credentials();
    let written = || RunEvent::RecordsWritten;
    let failed = || RunEvent::WriteFailed("x".to_string());
    let answered = || RunEvent::Response(identity_body("alice"));
    let lost = || RunEvent::TransportFailed("x".to_string());
    assert_eq!(step(&c, RunState::ResolvingIdentity { cursor: None }, written()), None);
    assert_eq!(step(&c, RunState::ResolvingIdentity { cursor: None }, failed()), None);
    assert_eq!(step(&c, fetching(None), written()), None);
    assert_eq!(step(&c, fetching(None), failed()), None);
    assert_eq!(step(&c, writing(true, None), answered()), None);
    assert_eq!(step(&c, writing(true, None), lost()), None);
    for event in [written(), failed(), answered(), lost()] {
        assert_eq!(step(&c, RunState::Done, event), None);
    }
}

#[test]
fn decode_reads_the_body_of_a_response() {
    assert_eq!(
        decode(RunEvent::Response("[null]".to_string())),
        Decoded::Document(Some(Json::Array(vec![Json::Null])))
    );
    assert_eq!(decode(RunEvent::Response("[".to_string())), Decoded::Document(None));
    assert_eq!(
        decode(RunEvent::TransportFailed("x".to_string())),
        Decoded::TransportFailed("x".to_string())
    );
    assert_eq!(decode(RunEvent::RecordsWritten), Decoded::RecordsWritten);
    assert_eq!(decode(RunEvent::WriteFailed("y".to_string())), Decoded::WriteFailed("y".to_string()));
}

#[test]
fn advance_works_on_a_document_that_was_read_before() {
    let login = Json::Object(vec![(
        "data".to_string(),
        Json::Object(vec![(
            "viewer".to_string(),
            Json::Object(vec![("login".to_string(), Json::Text("bob".to_string()))]),
        )]),
    )]);
    assert_eq!(
        advance(&credentials(), RunState::ResolvingIdentity { cursor: None }, Decoded::Document(Some(login))),
        Some((
            RunState::FetchingPage { login: "bob".to_string(), cursor: None },
            RunAction::Send(page_request("secret", "bob", &None)),
        ))
    );
    assert_eq!(
        advance(&credentials(), RunState::ResolvingIdentity { cursor: None }, Decoded::Document(None)),
        failure(RunError::Authentication, None)
    );
    assert_eq!(
        advance(&credentials(), fetching(some("c")), Decoded::Document(None)),
        failure(RunError::Api(ApiError::NotJson), some("c"))
    );
}

#[test]
fn outcome_decides_exit_code_and_resumption_line() {
    let clean = Outcome { error: None, resume: None };
    assert_eq!(clean.exit_code(), 0);
    assert_eq!(clean.resumption_line(), None);
    let resumable = Outcome { error: None, resume: some("Y3Vyc29y") };
    assert_eq!(resumable.exit_code(), 0);
    assert_eq!(resumable.resumption_line(), some("export START_CURSOR=\"Y3Vyc29y\""));
    let failed = Outcome { error: Some(RunError::Authentication), resume: some("c1") };
    assert_eq!(failed.exit_code(), 1);
    assert_eq!(failed.resumption_line(), some("export START_CURSOR=\"c1\""));
    assert_eq!(CURSOR_VARIABLE, "START_CURSOR");
}

#[test]
fn run_asks_for_each_page_once_and_then_ends() {
    for n in 0..4usize {
        let mut answers = vec![Ok(identity_body("alice"))];
        for page in 0..=n {
            let edges = [edge_body("alice", &format!("repo{page}"), "null", "null")];
            let last = page == n;
            let cursor = format!("c{}", page + 1);
            answers.push(Ok(page_body(&edges, !last, if last { None } else { Some(cursor.as_str()) })));
        }
        let trace = run(None, &answers);
        assert_eq!(trace.requests.len(), n + 2, "{n}");
        assert_eq!(trace.requests[0], identity_request("secret"));
        for page in 0..=n {
            let cursor = if page == 0 { None } else { Some(format!("c{page}")) };
            assert_eq!(trace.requests[page + 1], page_request("secret", "alice", &cursor), "{n} {page}");
        }
        assert_eq!(trace.outcome, Outcome { error: None, resume: None });
        assert_eq!(trace.outcome.resumption_line(), None);
        assert_eq!(trace.outcome.exit_code(), 0);
        assert_eq!(trace.files.len(), n + 1);
    }
}

#[test]
fn run_goes_on_from_the_cursor_it_is_given() {
    let answers = [Ok(identity_body("alice")), Ok(page_body(&[], false, None))];
    let trace = run(some("resume-here"), &answers);
    assert_eq!(trace.requests[1], page_request("secret", "alice", &some("resume-here")));
    assert_eq!(
        trace.requests[1].variables.as_ref().and_then(|v| v.cursor.clone()),
        some("resume-here")
    );
}

#[test]
fn cursor_of_the_last_page_is_offered_for_resumption() {
    let answers = [Ok(identity_body("alice")), Ok(page_body(&[], false, Some("end")))];
    let trace = run(None, &answers);
    assert_eq!(trace.outcome, Outcome { error: None, resume: some("end") });
    assert_eq!(trace.outcome.resumption_line(), some("export START_CURSOR=\"end\""));
}

#[test]
fn failure_after_some_pages_names_the_page_to_go_on_from() {
    let first = [edge_body("alice", "foo", "null", "null")];
    let answers = [
        Ok(identity_body("alice")),
        Ok(page_body(&first, true, Some("c1"))),
        Err("connection reset".to_string()),
    ];
    let trace = run(None, &answers);
    assert_eq!(trace.requests.len(), 3);
    assert_eq!(
        trace.outcome,
        Outcome { error: Some(RunError::Transport("connection reset".to_string())), resume: some("c1") }
    );
    assert_eq!(trace.outcome.exit_code(), 1);
    assert_eq!(trace.files.len(), 1);
    assert!(trace.files.contains_key("stars/alice/foo.nix"));
}

#[test]
fn one_page_with_two_repositories_of_one_owner() {
    let edges = [
        edge_body("alice", "foo", "null", "null"),
        edge_body("alice", "bar", "\"https://bar.example\"", "\"A \\\"fast\\\" bar\""),
    ];
    let answers = [Ok(identity_body("alice")), Ok(page_body(&edges, false, None))];
    let trace = run(None, &answers);

    assert_eq!(trace.requests.len(), 2);
    assert_eq!(trace.directories, vec!["stars/alice".to_string()]);
    assert_eq!(
        trace.progress,
        vec!["# stars/alice/foo.nix".to_string(), "# stars/alice/bar.nix".to_string()]
    );
    assert_eq!(trace.files.len(), 2);
    assert_eq!(
        trace.files["stars/alice/foo.nix"],
        "{\n    repoName = \"foo\";\n    repoOwner = \"alice\";\n    repoUrl = \"https://github.com/alice/foo\";\n    mainUrl = \"\";\n    created = \"2017-01-02T03:04:05Z\";\n    starred = \"2018-02-03T04:05:06Z\";\n    description = \"\";\n}"
    );
    assert_eq!(
        trace.files["stars/alice/bar.nix"],
        "{\n    repoName = \"bar\";\n    repoOwner = \"alice\";\n    repoUrl = \"https://github.com/alice/bar\";\n    mainUrl = \"https://bar.example\";\n    created = \"2017-01-02T03:04:05Z\";\n    starred = \"2018-02-03T04:05:06Z\";\n    description = \"A \\\"fast\\\" bar\";\n}"
    );
    assert_eq!(trace.outcome, Outcome { error: None, resume: None });
    assert_eq!(trace.outcome.resumption_line(), None);
    assert_eq!(trace.outcome.exit_code(), 0);
}

#[test]
fn a_page_written_again_replaces_its_files() {
    let edges = [edge_body("alice", "foo", "null", "\"first\""), edge_body("alice", "foo", "null", "\"second\"")];
    let answers = [Ok(identity_body("alice")), Ok(page_body(&edges, false, None))];
    let trace = run(None, &answers);
    assert_eq!(trace.files.len(), 1);
    assert!(trace.files["stars/alice/foo.nix"].contains("description = \"second\";"));
}

#[test]
fn records_of_a_page_keep_the_order_of_its_edges() {
    let edges = [
        edge_body("zed", "z", "null", "null"),
        edge_body("alice", "a", "null", "null"),
        edge_body("mid", "m", "null", "null"),
    ];
    let body = page_body(&edges, false, None);
    match step(&credentials(), fetching(None), RunEvent::Response(body)) {
        Some((_, RunAction::Write(records))) => {
            let paths: Vec<&str> = records.iter().map(|r: &OutputRecord| r.path.as_str()).collect();
            assert_eq!(paths, vec!["stars/zed/z.nix", "stars/alice/a.nix", "stars/mid/m.nix"]);
        }
        other => panic!("{other:?}"),
    }
}
