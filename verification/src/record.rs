//! The record file that is written for one starred repository.

use crate::edge::{or_empty, EdgeView, StarredRepositoryEdge};
use crate::escape::{escape, escaped_text};
use vstd::prelude::*;

verus! {

/// The directory under which all records are written.
pub const OUTPUT_ROOT: &'static str = "stars";

/// The extension of a record file.
pub const EXTENSION: &'static str = "nix";

/// What is to be written for one starred repository: the directory of its
/// owner, the path of its file, and the whole text of the file.
#[derive(Clone, Debug, PartialEq, Eq)]
pub struct OutputRecord {
    pub directory: String,
    pub path: String,
    pub contents: String,
}

/// The mathematical value of an [`OutputRecord`].
pub struct RecordView {
    pub directory: Seq<char>,
    pub path: Seq<char>,
    pub contents: Seq<char>,
}

impl View for OutputRecord {
    type V = RecordView;

    open spec fn view(&self) -> RecordView {
        RecordView { directory: self.directory@, path: self.path@, contents: self.contents@ }
    }
}

impl DeepView for OutputRecord {
    type V = RecordView;

    open spec fn deep_view(&self) -> RecordView {
        self@
    }
}

/// The directory that holds the records of `owner`: `stars/<owner>`.
pub open spec fn directory_of(owner: Seq<char>) -> Seq<char> {
    OUTPUT_ROOT@ + "/"@ + owner
}

/// The file of the repository `name` of `owner`: `stars/<owner>/<name>.nix`.
/// Owner and name are used as they are.
pub open spec fn path_of(owner: Seq<char>, name: Seq<char>) -> Seq<char> {
    directory_of(owner) + "/"@ + name + "."@ + EXTENSION@
}

/// One line of a record: the key, and `body` between double quotes.
pub open spec fn field_line(key: Seq<char>, body: Seq<char>) -> Seq<char> {
    "    "@ + key + " = \""@ + body + "\";\n"@
}

/// The text of the record of `edge`: seven fields between braces. An absent
/// home page or description is written as an empty string. The description
/// is escaped; every other field is written as it is.
pub open spec fn record_text(edge: EdgeView) -> Seq<char> {
    "{\n"@ + field_line("repoName"@, edge.name) + field_line("repoOwner"@, edge.owner)
        + field_line("repoUrl"@, edge.url) + field_line("mainUrl"@, or_empty(edge.homepage_url))
        + field_line("created"@, edge.created_at) + field_line("starred"@, edge.starred_at)
        + field_line("description"@, escaped_text(or_empty(edge.description))) + "}"@
}

/// The record of `edge`.
pub open spec fn record_of(edge: EdgeView) -> RecordView {
    RecordView {
        directory: directory_of(edge.owner),
        path: path_of(edge.owner, edge.name),
        contents: record_text(edge),
    }
}

/// The progress line that is printed for a record: `# <path>`.
pub open spec fn progress_text(path: Seq<char>) -> Seq<char> {
    "# "@ + path
}

impl OutputRecord {
    /// The progress line to print on standard output for this record.
    pub fn progress_line(&self) -> (line: String)
        ensures
            line@ == progress_text(self@.path),
    {
        let mut line = "# ".to_owned();
        line.append(self.path.as_str());
        line
    }
}

/// How the creation of an owner's directory went.
#[derive(Clone, Debug, PartialEq, Eq)]
pub enum DirectoryCreation {
    /// The directory was created.
    Created,
    /// The directory was there already.
    AlreadyExists,
    /// The directory could not be created; the text is the system's own.
    Failed(String),
}

impl DirectoryCreation {
    /// The failure to report, if this is one. A directory that was there
    /// already is none.
    pub fn failure(self) -> (reason: Option<String>)
        ensures
            match self {
                DirectoryCreation::Failed(text) => reason == Some(text),
                _ => reason is None,
            },
    {
        match self {
            DirectoryCreation::Failed(text) => Some(text),
            _ => None,
        }
    }
}

/// Appends one field line to `out`.
fn push_field(out: &mut String, key: &str, body: &str)
    ensures
        final(out)@ == old(out)@ + field_line(key@, body@),
{
    out.append("    ");
    out.append(key);
    out.append(" = \"");
    out.append(body);
    out.append("\";\n");
    assert(out@ =~= old(out)@ + field_line(key@, body@));
}

/// The characters of `text`, or the empty string where it is absent.
fn text_or_empty<'a>(text: &'a Option<String>) -> (s: &'a str)
    ensures
        s@ == or_empty(crate::edge::optional_text(*text)),
{
    match text {
        Some(s) => s.as_str(),
        None => {
            proof {
                reveal_strlit("");
            }
            assert(""@ =~= Seq::<char>::empty());
            ""
        },
    }
}

/// Computes what is to be written for `edge`: where, and which text.
pub fn record_for(edge: &StarredRepositoryEdge) -> (record: OutputRecord)
    ensures
        record@ == record_of(edge@),
{
    let mut directory = OUTPUT_ROOT.to_owned();
    directory.append("/");
    directory.append(edge.owner.as_str());

    let mut path = directory.clone();
    path.append("/");
    path.append(edge.name.as_str());
    path.append(".");
    path.append(EXTENSION);

    let description = escape(text_or_empty(&edge.description));
    let mut contents = "{\n".to_owned();
    push_field(&mut contents, "repoName", edge.name.as_str());
    push_field(&mut contents, "repoOwner", edge.owner.as_str());
    push_field(&mut contents, "repoUrl", edge.url.as_str());
    push_field(&mut contents, "mainUrl", text_or_empty(&edge.homepage_url));
    push_field(&mut contents, "created", edge.created_at.as_str());
    push_field(&mut contents, "starred", edge.starred_at.as_str());
    push_field(&mut contents, "description", description.as_str());
    contents.append("}");

    OutputRecord { directory, path, contents }
}

/// The text of a record before its field `mainUrl`.
pub open spec fn before_home_page(edge: EdgeView) -> Seq<char> {
    "{\n"@ + field_line("repoName"@, edge.name) + field_line("repoOwner"@, edge.owner)
        + field_line("repoUrl"@, edge.url)
}

/// The text of a record between its fields `mainUrl` and `description`.
pub open spec fn before_description(edge: EdgeView) -> Seq<char> {
    field_line("created"@, edge.created_at) + field_line("starred"@, edge.starred_at)
}

/// A home page or a description that is absent is neither left out nor
/// written as `null`: its line stands in the record, at its place, with
/// nothing between the double quotes.
pub proof fn lemma_absent_is_written_empty(edge: EdgeView)
    ensures
        edge.homepage_url is None ==> record_text(edge) == before_home_page(edge) + field_line(
            "mainUrl"@,
            Seq::empty(),
        ) + before_description(edge) + field_line(
            "description"@,
            escaped_text(or_empty(edge.description)),
        ) + "}"@,
        edge.description is None ==> record_text(edge) == before_home_page(edge) + field_line(
            "mainUrl"@,
            or_empty(edge.homepage_url),
        ) + before_description(edge) + field_line("description"@, Seq::empty()) + "}"@,
{
    let home_page = field_line("mainUrl"@, or_empty(edge.homepage_url));
    let description = field_line("description"@, escaped_text(or_empty(edge.description)));
    assert(record_text(edge) =~= before_home_page(edge) + home_page + before_description(edge)
        + description + "}"@);
    assert(escaped_text(Seq::<char>::empty()) =~= Seq::<char>::empty());
}

} // verus!
