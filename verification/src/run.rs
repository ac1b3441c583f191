//! The run as a state machine: from the state and what just happened to the
//! next state and what to do next. The caller does what the action says and
//! reports the outcome as the next event.

use crate::decode::{
    login_from_document, login_of_response, page_from_document, page_of, page_of_response,
    ApiError,
};
use crate::edge::{optional_text, EdgeView, StarredRepositoryEdge};
use crate::error::{RunError, RunErrorView};
use crate::json::{Json, JsonView};
use crate::parse::{parse, parsed};
use crate::record::{record_for, record_of, OutputRecord, RecordView};
use crate::request::{
    identity_request, identity_request_view, page_request, page_request_view, ApiRequest,
    ApiRequestView,
};
use vstd::prelude::*;

verus! {

/// The name of the setting that holds the cursor to start from.
pub const CURSOR_VARIABLE: &'static str = "START_CURSOR";

/// The API token of a run. It is given once and handed to every step.
#[derive(Clone, Debug, PartialEq, Eq)]
pub struct Credentials {
    token: String,
}

impl View for Credentials {
    type V = Seq<char>;

    closed spec fn view(&self) -> Seq<char> {
        self.token@
    }
}

impl Credentials {
    /// Takes the token from its setting. A run without a token fails with
    /// [`RunError::Configuration`] before anything is sent.
    pub fn from_setting(token: Option<String>) -> (credentials: Result<Credentials, RunError>)
        ensures
            match credentials {
                Ok(c) => optional_text(token) == Some(c@),
                Err(error) => token is None && error@ == RunErrorView::Configuration,
            },
    {
        match token {
            Some(token) => Ok(Credentials { token }),
            None => Err(RunError::Configuration),
        }
    }

    /// The token.
    pub fn token(&self) -> (token: &str)
        ensures
            token@ == self@,
    {
        self.token.as_str()
    }
}

/// Where a run stands.
#[derive(Clone, Debug, PartialEq, Eq)]
pub enum RunState {
    /// The identity request is out. `cursor` is the cursor to start from.
    ResolvingIdentity { cursor: Option<String> },
    /// The request for the page after `cursor` is out.
    FetchingPage { login: String, cursor: Option<String> },
    /// The records of the page after `cursor` are being written.
    WritingRecords {
        login: String,
        cursor: Option<String>,
        has_next_page: bool,
        next_cursor: Option<String>,
    },
    /// The run is over.
    Done,
}

/// The mathematical value of a [`RunState`].
pub enum RunStateView {
    ResolvingIdentity { cursor: Option<Seq<char>> },
    FetchingPage { login: Seq<char>, cursor: Option<Seq<char>> },
    WritingRecords {
        login: Seq<char>,
        cursor: Option<Seq<char>>,
        has_next_page: bool,
        next_cursor: Option<Seq<char>>,
    },
    Done,
}

impl View for RunState {
    type V = RunStateView;

    open spec fn view(&self) -> RunStateView {
        match self {
            RunState::ResolvingIdentity { cursor } => RunStateView::ResolvingIdentity {
                cursor: optional_text(*cursor),
            },
            RunState::FetchingPage { login, cursor } => RunStateView::FetchingPage {
                login: login@,
                cursor: optional_text(*cursor),
            },
            RunState::WritingRecords {
                login,
                cursor,
                has_next_page,
                next_cursor,
            } => RunStateView::WritingRecords {
                login: login@,
                cursor: optional_text(*cursor),
                has_next_page: *has_next_page,
                next_cursor: optional_text(*next_cursor),
            },
            RunState::Done => RunStateView::Done,
        }
    }
}

impl RunStateView {
    /// A state that knows the login knows a login that is not empty.
    pub open spec fn wf(self) -> bool {
        match self {
            RunStateView::FetchingPage { login, .. } => login.len() > 0,
            RunStateView::WritingRecords { login, .. } => login.len() > 0,
            _ => true,
        }
    }
}

/// How a run ended: with an error or without, and the cursor from which a
/// later run can go on, if there is one.
#[derive(Clone, Debug, PartialEq, Eq)]
pub struct Outcome {
    pub error: Option<RunError>,
    pub resume: Option<String>,
}

/// The mathematical value of an [`Outcome`].
pub struct OutcomeView {
    pub error: Option<RunErrorView>,
    pub resume: Option<Seq<char>>,
}

impl View for Outcome {
    type V = OutcomeView;

    open spec fn view(&self) -> OutcomeView {
        OutcomeView {
            error: match self.error {
                Some(error) => Some(error@),
                None => None,
            },
            resume: optional_text(self.resume),
        }
    }
}

/// The line that tells the user how to go on from `cursor`:
/// `export START_CURSOR="<cursor>"`.
pub open spec fn resumption_text(cursor: Seq<char>) -> Seq<char> {
    "export "@ + CURSOR_VARIABLE@ + "=\""@ + cursor + "\""@
}

impl OutcomeView {
    /// The exit code of the process: zero for a run without error, one
    /// otherwise.
    pub open spec fn exit_code(self) -> int {
        if self.error is None {
            0
        } else {
            1
        }
    }

    /// The resumption line to print, if the outcome names a cursor.
    pub open spec fn resumption_line(self) -> Option<Seq<char>> {
        match self.resume {
            Some(cursor) => Some(resumption_text(cursor)),
            None => None,
        }
    }
}

impl Outcome {
    /// The exit code of the process.
    pub fn exit_code(&self) -> (code: i32)
        ensures
            code == self@.exit_code(),
    {
        match &self.error {
            None => 0,
            Some(_) => 1,
        }
    }

    /// The resumption line to print on standard output, if there is one.
    pub fn resumption_line(&self) -> (line: Option<String>)
        ensures
            optional_text(line) == self@.resumption_line(),
    {
        match &self.resume {
            Some(cursor) => {
                let mut line = "export ".to_owned();
                line.append(CURSOR_VARIABLE);
                line.append("=\"");
                line.append(cursor.as_str());
                line.append("\"");
                Some(line)
            },
            None => None,
        }
    }
}

/// What the caller is to do next.
#[derive(Clone, Debug, PartialEq, Eq)]
pub enum RunAction {
    /// Post the request, and report the body of the response, or the
    /// failure of the transport.
    Send(ApiRequest),
    /// Write each record in order: create its directory unless it exists,
    /// then replace the file at its path by its contents. Report success, or
    /// the first failure.
    Write(Vec<OutputRecord>),
    /// End the run with this outcome.
    Exit(Outcome),
}

/// The mathematical value of a [`RunAction`].
pub enum RunActionView {
    Send(ApiRequestView),
    Write(Seq<RecordView>),
    Exit(OutcomeView),
}

impl View for RunAction {
    type V = RunActionView;

    open spec fn view(&self) -> RunActionView {
        match self {
            RunAction::Send(request) => RunActionView::Send(request@),
            RunAction::Write(records) => RunActionView::Write(records.deep_view()),
            RunAction::Exit(outcome) => RunActionView::Exit(outcome@),
        }
    }
}

/// What the caller reports of the action it was given.
#[derive(Clone, Debug, PartialEq, Eq)]
pub enum RunEvent {
    /// The request was answered; this is the body of the response.
    Response(String),
    /// The request could not be carried out.
    TransportFailed(String),
    /// Every record was written.
    RecordsWritten,
    /// A directory or a file could not be written.
    WriteFailed(String),
}

/// The mathematical value of a [`RunEvent`].
pub enum RunEventView {
    Response(Seq<char>),
    TransportFailed(Seq<char>),
    RecordsWritten,
    WriteFailed(Seq<char>),
}

impl View for RunEvent {
    type V = RunEventView;

    open spec fn view(&self) -> RunEventView {
        match self {
            RunEvent::Response(body) => RunEventView::Response(body@),
            RunEvent::TransportFailed(reason) => RunEventView::TransportFailed(reason@),
            RunEvent::RecordsWritten => RunEventView::RecordsWritten,
            RunEvent::WriteFailed(reason) => RunEventView::WriteFailed(reason@),
        }
    }
}

/// An event whose response body has been read as JSON: the document, or
/// `None` where the body is not JSON.
#[derive(Debug, PartialEq, Eq)]
pub enum Decoded {
    Document(Option<Json>),
    TransportFailed(String),
    RecordsWritten,
    WriteFailed(String),
}

/// The mathematical value of a [`Decoded`].
pub enum DecodedView {
    Document(Option<JsonView>),
    TransportFailed(Seq<char>),
    RecordsWritten,
    WriteFailed(Seq<char>),
}

impl View for Decoded {
    type V = DecodedView;

    open spec fn view(&self) -> DecodedView {
        match self {
            Decoded::Document(doc) => DecodedView::Document(
                match doc {
                    Some(json) => Some(json@),
                    None => None,
                },
            ),
            Decoded::TransportFailed(reason) => DecodedView::TransportFailed(reason@),
            Decoded::RecordsWritten => DecodedView::RecordsWritten,
            Decoded::WriteFailed(reason) => DecodedView::WriteFailed(reason@),
        }
    }
}

/// The event with its response body read as JSON.
pub open spec fn decoded_of(event: RunEventView) -> DecodedView {
    match event {
        RunEventView::Response(body) => DecodedView::Document(parsed(body)),
        RunEventView::TransportFailed(reason) => DecodedView::TransportFailed(reason),
        RunEventView::RecordsWritten => DecodedView::RecordsWritten,
        RunEventView::WriteFailed(reason) => DecodedView::WriteFailed(reason),
    }
}

/// The records of `edges`, in order.
pub open spec fn records_of(edges: Seq<EdgeView>) -> Seq<RecordView> {
    Seq::new(edges.len(), |i: int| record_of(edges[i]))
}

/// The end of a run that failed with `error` while the page after `cursor`
/// was the next to be done.
pub open spec fn failed(error: RunErrorView, cursor: Option<Seq<char>>) -> (
    RunStateView,
    RunActionView,
) {
    (RunStateView::Done, RunActionView::Exit(OutcomeView { error: Some(error), resume: cursor }))
}

/// The step of the machine: the next state and the action, or `None` where
/// the state does not take the input.
///
/// While the identity is resolved, a document that names a login leads to
/// the request for the page after the starting cursor; any other document
/// is an authentication failure. While a page is fetched, a document that
/// holds a page leads to the writing of its records; any other is an API
/// failure. When the records are written, the run goes on with the page
/// after the cursor that the page returned, or ends where the page was the
/// last; the cursor of the last page, if it returned one, is the outcome's
/// cursor. Every failure ends the run, and its outcome names the cursor of the
/// page that was not finished. `Done` takes no input.
pub open spec fn transition(token: Seq<char>, state: RunStateView, input: DecodedView) -> Option<
    (RunStateView, RunActionView),
> {
    match state {
        RunStateView::ResolvingIdentity { cursor } => match input {
            DecodedView::Document(doc) => match login_of_response(doc) {
                Some(login) => Some(
                    (
                        RunStateView::FetchingPage { login, cursor },
                        RunActionView::Send(page_request_view(token, login, cursor)),
                    ),
                ),
                None => Some(failed(RunErrorView::Authentication, cursor)),
            },
            DecodedView::TransportFailed(reason) => Some(
                failed(RunErrorView::Transport(reason), cursor),
            ),
            _ => None,
        },
        RunStateView::FetchingPage { login, cursor } => match input {
            DecodedView::Document(doc) => match page_of_response(doc) {
                Ok(page) => Some(
                    (
                        RunStateView::WritingRecords {
                            login,
                            cursor,
                            has_next_page: page.has_next_page,
                            next_cursor: page.next_cursor,
                        },
                        RunActionView::Write(records_of(page.edges)),
                    ),
                ),
                Err(error) => Some(failed(RunErrorView::Api(error), cursor)),
            },
            DecodedView::TransportFailed(reason) => Some(
                failed(RunErrorView::Transport(reason), cursor),
            ),
            _ => None,
        },
        RunStateView::WritingRecords { login, cursor, has_next_page, next_cursor } => match input {
            DecodedView::RecordsWritten => if has_next_page {
                Some(
                    (
                        RunStateView::FetchingPage { login, cursor: next_cursor },
                        RunActionView::Send(page_request_view(token, login, next_cursor)),
                    ),
                )
            } else {
                Some(
                    (
                        RunStateView::Done,
                        RunActionView::Exit(OutcomeView { error: None, resume: next_cursor }),
                    ),
                )
            },
            DecodedView::WriteFailed(reason) => Some(
                failed(RunErrorView::Filesystem(reason), cursor),
            ),
            _ => None,
        },
        RunStateView::Done => None,
    }
}

/// Whether `step` is the exec form of `expected`.
pub open spec fn step_matches(
    step: Option<(RunState, RunAction)>,
    expected: Option<(RunStateView, RunActionView)>,
) -> bool {
    match step {
        Some((state, action)) => expected == Some((state@, action@)),
        None => expected is None,
    }
}

/// The first state of a run and its first action: the identity request.
pub fn start(credentials: &Credentials, cursor: Option<String>) -> (first: (RunState, RunAction))
    ensures
        first.0@ == (RunStateView::ResolvingIdentity { cursor: optional_text(cursor) }),
        first.1@ == RunActionView::Send(identity_request_view(credentials@)),
{
    (RunState::ResolvingIdentity { cursor }, RunAction::Send(identity_request(credentials.token())))
}

/// Computes the records of `edges`, in order.
pub fn records_for(edges: &Vec<StarredRepositoryEdge>) -> (records: Vec<OutputRecord>)
    ensures
        records.deep_view() == records_of(edges.deep_view()),
{
    let mut records: Vec<OutputRecord> = Vec::new();
    let mut i: usize = 0;
    while i < edges.len()
        invariant
            i <= edges.len(),
            records@.len() == i,
            forall|k: int| 0 <= k < i ==> (#[trigger] records@[k])@ == record_of(edges@[k]@),
        decreases edges.len() - i,
    {
        records.push(record_for(&edges[i]));
        i += 1;
    }
    assert(records.deep_view() =~= records_of(edges.deep_view()));
    records
}

/// Ends the run with `error`, naming `cursor` as the place to go on from.
fn fail(error: RunError, cursor: Option<String>) -> (end: (RunState, RunAction))
    ensures
        (end.0@, end.1@) == failed(error@, optional_text(cursor)),
{
    (RunState::Done, RunAction::Exit(Outcome { error: Some(error), resume: cursor }))
}

/// Reads the response body of an event as JSON.
pub fn decode(event: RunEvent) -> (input: Decoded)
    ensures
        input@ == decoded_of(event@),
{
    match event {
        RunEvent::Response(body) => Decoded::Document(parse(body.as_str())),
        RunEvent::TransportFailed(reason) => Decoded::TransportFailed(reason),
        RunEvent::RecordsWritten => Decoded::RecordsWritten,
        RunEvent::WriteFailed(reason) => Decoded::WriteFailed(reason),
    }
}

/// Takes one step of the run on an input whose document has been read.
pub fn advance(credentials: &Credentials, state: RunState, input: Decoded) -> (step: Option<
    (RunState, RunAction),
>)
    ensures
        step_matches(step, transition(credentials@, state@, input@)),
{
    match state {
        RunState::ResolvingIdentity { cursor } => match input {
            Decoded::Document(doc) => {
                let login = match &doc {
                    Some(json) => login_from_document(json),
                    None => None,
                };
                match login {
                    Some(login) => {
                        let request = page_request(credentials.token(), login.as_str(), &cursor);
                        Some((RunState::FetchingPage { login, cursor }, RunAction::Send(request)))
                    },
                    None => Some(fail(RunError::Authentication, cursor)),
                }
            },
            Decoded::TransportFailed(reason) => Some(fail(RunError::Transport(reason), cursor)),
            _ => None,
        },
        RunState::FetchingPage { login, cursor } => match input {
            Decoded::Document(doc) => {
                let page = match &doc {
                    Some(json) => page_from_document(json),
                    None => Err(ApiError::NotJson),
                };
                match page {
                    Ok(page) => {
                        let records = records_for(&page.edges);
                        Some(
                            (
                                RunState::WritingRecords {
                                    login,
                                    cursor,
                                    has_next_page: page.has_next_page,
                                    next_cursor: page.next_cursor,
                                },
                                RunAction::Write(records),
                            ),
                        )
                    },
                    Err(error) => Some(fail(RunError::Api(error), cursor)),
                }
            },
            Decoded::TransportFailed(reason) => Some(fail(RunError::Transport(reason), cursor)),
            _ => None,
        },
        RunState::WritingRecords { login, cursor, has_next_page, next_cursor } => match input {
            Decoded::RecordsWritten => {
                if has_next_page {
                    let request = page_request(credentials.token(), login.as_str(), &next_cursor);
                    Some(
                        (
                            RunState::FetchingPage { login, cursor: next_cursor },
                            RunAction::Send(request),
                        ),
                    )
                } else {
                    Some(
                        (
                            RunState::Done,
                            RunAction::Exit(Outcome { error: None, resume: next_cursor }),
                        ),
                    )
                }
            },
            Decoded::WriteFailed(reason) => Some(fail(RunError::Filesystem(reason), cursor)),
            _ => None,
        },
        RunState::Done => None,
    }
}

/// Takes one step of the run: reads the response body, if the event holds
/// one, and goes on as [`advance`] does.
pub fn step(credentials: &Credentials, state: RunState, event: RunEvent) -> (step: Option<
    (RunState, RunAction),
>)
    ensures
        step_matches(step, transition(credentials@, state@, decoded_of(event@))),
{
    advance(credentials, state, decode(event))
}

/// What a run did: the requests it sent, in order, and how it ended. There
/// is no outcome where the run is still waiting for an answer.
pub struct Course {
    pub requests: Seq<ApiRequestView>,
    pub outcome: Option<OutcomeView>,
}

/// `request` sent before everything that `later` holds.
pub open spec fn after_request(request: ApiRequestView, later: Course) -> Course {
    Course { requests: seq![request] + later.requests, outcome: later.outcome }
}

/// The course of a run from `state`, with `action` to do next, against an
/// API that answers the requests, in order, with `documents`, and a disk
/// that takes every record.
pub open spec fn course(
    token: Seq<char>,
    state: RunStateView,
    action: RunActionView,
    documents: Seq<JsonView>,
) -> Course
    decreases documents.len(), (if action is Write { 1nat } else { 0nat }),
{
    match action {
        RunActionView::Send(request) => if documents.len() == 0 {
            Course { requests: seq![request], outcome: None }
        } else {
            match transition(token, state, DecodedView::Document(Some(documents[0]))) {
                Some((next, then)) => after_request(
                    request,
                    course(token, next, then, documents.skip(1)),
                ),
                None => Course { requests: seq![request], outcome: None },
            }
        },
        RunActionView::Write(_) => match transition(token, state, DecodedView::RecordsWritten) {
            Some((next, then)) => if then is Write {
                Course { requests: Seq::empty(), outcome: None }
            } else {
                course(token, next, then, documents)
            },
            None => Course { requests: Seq::empty(), outcome: None },
        },
        RunActionView::Exit(outcome) => Course { requests: Seq::empty(), outcome: Some(outcome) },
    }
}

/// The cursor with which page `k` is asked for: the starting cursor for the
/// first page, and for every later page the cursor that the page before it
/// returned.
pub open spec fn cursor_for(start: Option<Seq<char>>, pages: Seq<JsonView>, k: int) -> Option<
    Seq<char>,
> {
    if k <= 0 {
        start
    } else {
        match page_of(pages[k - 1]) {
            Ok(page) => page.next_cursor,
            Err(_) => None,
        }
    }
}

/// Whether `pages` are the answers of an API whose list ends with the last
/// of them: every one holds a page, every one but the last says that a
/// page follows, and the last says that none does and returns no cursor.
pub open spec fn ends_with_last(pages: Seq<JsonView>) -> bool {
    &&& pages.len() >= 1
    &&& forall|i: int| 0 <= i < pages.len() ==> #[trigger] says_whether_last(pages, i)
    &&& page_of(pages.last()) matches Ok(page) && page.next_cursor is None
}

/// Whether the document at `i` holds a page, and that page says that a page
/// follows exactly if it is not the last of `pages`.
pub open spec fn says_whether_last(pages: Seq<JsonView>, i: int) -> bool {
    page_of(pages[i]) matches Ok(page) && page.has_next_page == (i < pages.len() - 1)
}

/// Every step keeps the state well formed.
pub proof fn lemma_transition_keeps_wf(token: Seq<char>, state: RunStateView, input: DecodedView)
    requires
        state.wf(),
    ensures
        transition(token, state, input) matches Some((next, _)) ==> next.wf(),
{
}

/// A run goes through the pages to the last one and no further. From the
/// moment the first of `pages` is asked for, against an API that answers
/// with `pages`, of which only the last says that no page follows, the run
/// sends one request for each page and then ends without error. Page `k` is
/// asked for with the cursor that page `k - 1` returned, the first with the
/// cursor the run began with. The outcome names no cursor, so no resumption
/// line is printed, and the exit code is zero.
pub proof fn lemma_run_ends_after_last_page(
    token: Seq<char>,
    login: Seq<char>,
    start: Option<Seq<char>>,
    pages: Seq<JsonView>,
)
    requires
        ends_with_last(pages),
    ensures
        ({
            let run = course(
                token,
                RunStateView::FetchingPage { login, cursor: start },
                RunActionView::Send(page_request_view(token, login, start)),
                pages,
            );
            &&& run.requests.len() == pages.len()
            &&& forall|k: int|
                0 <= k < pages.len() ==> #[trigger] run.requests[k] == page_request_view(
                    token,
                    login,
                    cursor_for(start, pages, k),
                )
            &&& run.outcome == Some(OutcomeView { error: None, resume: None })
            &&& run.outcome->0.exit_code() == 0
            &&& run.outcome->0.resumption_line() is None
        }),
    decreases pages.len(),
{
    let state = RunStateView::FetchingPage { login, cursor: start };
    let request = page_request_view(token, login, start);
    let run = course(token, state, RunActionView::Send(request), pages);
    let page = page_of(pages[0])->Ok_0;
    assert(says_whether_last(pages, 0));
    let writing = RunStateView::WritingRecords {
        login,
        cursor: start,
        has_next_page: page.has_next_page,
        next_cursor: page.next_cursor,
    };
    let write = RunActionView::Write(records_of(page.edges));
    assert(transition(token, state, DecodedView::Document(Some(pages[0]))) == Some(
        (writing, write),
    ));
    let rest = pages.skip(1);
    assert(run == after_request(request, course(token, writing, write, rest)));
    if pages.len() == 1 {
        assert(pages.last() == pages[0]);
        let end = RunActionView::Exit(OutcomeView { error: None, resume: None });
        assert(transition(token, writing, DecodedView::RecordsWritten) == Some(
            (RunStateView::Done, end),
        ));
        assert(course(token, writing, write, rest) == course(token, RunStateView::Done, end, rest));
        assert(run.requests =~= seq![request]);
    } else {
        let next_state = RunStateView::FetchingPage { login, cursor: page.next_cursor };
        let next_request = page_request_view(token, login, page.next_cursor);
        assert(transition(token, writing, DecodedView::RecordsWritten) == Some(
            (next_state, RunActionView::Send(next_request)),
        ));
        let later = course(token, next_state, RunActionView::Send(next_request), rest);
        assert(course(token, writing, write, rest) == later);
        assert(ends_with_last(rest)) by {
            assert forall|i: int| 0 <= i < rest.len() implies #[trigger] says_whether_last(
                rest,
                i,
            ) by {
                assert(says_whether_last(pages, i + 1));
            }
            assert(rest.last() == pages.last());
        }
        lemma_run_ends_after_last_page(token, login, page.next_cursor, rest);
        assert(run.requests =~= seq![request] + later.requests);
        assert forall|k: int| 0 <= k < pages.len() implies #[trigger] run.requests[k]
            == page_request_view(token, login, cursor_for(start, pages, k)) by {
            if k > 0 {
                assert(run.requests[k] == later.requests[k - 1]);
                if k - 1 > 0 {
                    assert(rest[k - 2] == pages[k - 1]);
                }
                assert(cursor_for(page.next_cursor, rest, k - 1) == cursor_for(start, pages, k));
            }
        }
    }
}

/// A whole run, from its start to its end. Against an API that names a
/// login in its first answer and then answers with `pages`, of which only
/// the last says that no page follows, the run sends the identity request
/// and then exactly one request for each page, the first of them with the
/// cursor it was started with, and ends without error and without a cursor
/// to resume from.
pub proof fn lemma_whole_run(
    token: Seq<char>,
    start: Option<Seq<char>>,
    identity: JsonView,
    pages: Seq<JsonView>,
)
    requires
        crate::decode::login_of(identity) is Some,
        ends_with_last(pages),
    ensures
        ({
            let login = crate::decode::login_of(identity)->0;
            let run = course(
                token,
                RunStateView::ResolvingIdentity { cursor: start },
                RunActionView::Send(identity_request_view(token)),
                seq![identity] + pages,
            );
            &&& run.requests.len() == pages.len() + 1
            &&& run.requests[0] == identity_request_view(token)
            &&& forall|k: int|
                0 <= k < pages.len() ==> #[trigger] run.requests[k + 1] == page_request_view(
                    token,
                    login,
                    cursor_for(start, pages, k),
                )
            &&& run.outcome == Some(OutcomeView { error: None, resume: None })
        }),
{
    let login = crate::decode::login_of(identity)->0;
    let documents = seq![identity] + pages;
    let first = RunStateView::ResolvingIdentity { cursor: start };
    let fetching = RunStateView::FetchingPage { login, cursor: start };
    let request = page_request_view(token, login, start);
    assert(documents[0] == identity);
    assert(documents.skip(1) =~= pages);
    assert(transition(token, first, DecodedView::Document(Some(identity))) == Some(
        (fetching, RunActionView::Send(request)),
    ));
    lemma_run_ends_after_last_page(token, login, start, pages);
    let later = course(token, fetching, RunActionView::Send(request), pages);
    let run = course(
        token,
        first,
        RunActionView::Send(identity_request_view(token)),
        documents,
    );
    assert(run == after_request(identity_request_view(token), later));
    assert forall|k: int| 0 <= k < pages.len() implies #[trigger] run.requests[k + 1]
        == page_request_view(token, login, cursor_for(start, pages, k)) by {
        assert(run.requests[k + 1] == later.requests[k]);
    }
}

} // verus!
