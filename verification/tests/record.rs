use stars2nix::edge::StarredRepositoryEdge;
use stars2nix::record::{record_for, DirectoryCreation, OutputRecord, EXTENSION, OUTPUT_ROOT};
use std::collections::HashMap;

fn edge(owner: &str, name: &str) -> StarredRepositoryEdge {
    StarredRepositoryEdge {
        starred_at: "2018-02-03T04:05:06Z".to_string(),
        owner: owner.to_string(),
        name: name.to_string(),
        url: format!("https://github.com/{owner}/{name}"),
        homepage_url: None,
        created_at: "2017-01-02T03:04:05Z".to_string(),
        description: None,
    }
}

#[test]
fn record_holds_directory_path_and_contents() {
    let mut e = edge("rust-lang", "rust");
    e.homepage_url = Some("https://www.rust-lang.org".to_string());
    e.description = Some("Empowering everyone".to_string());
    let record = record_for(&e);
    assert_eq!(
        record,
        OutputRecord {
            directory: "stars/rust-lang".to_string(),
            path: "stars/rust-lang/rust.nix".to_string(),
            contents: "{\n    repoName = \"rust\";\n    repoOwner = \"rust-lang\";\n    repoUrl = \"https://github.com/rust-lang/rust\";\n    mainUrl = \"https://www.rust-lang.org\";\n    created = \"2017-01-02T03:04:05Z\";\n    starred = \"2018-02-03T04:05:06Z\";\n    description = \"Empowering everyone\";\n}".to_string(),
        }
    );
}

#[test]
fn record_has_seven_field_lines_between_braces() {
    let record = record_for(&edge("alice", "foo"));
    let lines: Vec<&str> = record.contents.split('\n').collect();
    assert_eq!(lines.len(), 9);
    assert_eq!(lines[0], "{");
    assert_eq!(lines[8], "}");
    let keys = ["repoName", "repoOwner", "repoUrl", "mainUrl", "created", "starred", "description"];
    for (line, key) in lines[1..8].iter().zip(keys) {
        assert!(line.starts_with(&format!("    {key} = \"")), "{line}");
        assert!(line.ends_with("\";"), "{line}");
    }
}

#[test]
fn absent_home_page_and_description_are_empty_strings() {
    let record = record_for(&edge("alice", "foo"));
    assert!(record.contents.contains("\n    mainUrl = \"\";\n"));
    assert!(record.contents.contains("\n    description = \"\";\n"));
    assert!(!record.contents.contains("null"));
}

#[test]
fn absent_and_empty_are_written_alike() {
    let absent = edge("alice", "foo");
    let mut empty = edge("alice", "foo");
    empty.homepage_url = Some(String::new());
    empty.description = Some(String::new());
    assert_eq!(record_for(&absent), record_for(&empty));
}

#[test]
fn description_is_escaped() {
    let mut e = edge("alice", "bar");
    e.description = Some("a \"quoted\" ${thing} with \\ in it".to_string());
    let record = record_for(&e);
    assert!(record
        .contents
        .contains("    description = \"a \\\"quoted\\\" \\${thing} with \\\\ in it\";\n"));
}

#[test]
fn other_fields_are_written_as_they_are() {
    let mut e = edge("alice", "bar");
    e.homepage_url = Some("https://example.org/?q=\"x\"".to_string());
    e.url = "https://example.org/${y}".to_string();
    let record = record_for(&e);
    assert!(record.contents.contains("    mainUrl = \"https://example.org/?q=\"x\"\";\n"));
    assert!(record.contents.contains("    repoUrl = \"https://example.org/${y}\";\n"));
}

#[test]
fn path_uses_owner_and_name_as_they_are() {
    let record = record_for(&edge("some.owner", "repo.js"));
    assert_eq!(record.directory, "stars/some.owner");
    assert_eq!(record.path, "stars/some.owner/repo.js.nix");
    assert_eq!(OUTPUT_ROOT, "stars");
    assert_eq!(EXTENSION, "nix");
}

#[test]
fn progress_line_names_the_path() {
    assert_eq!(record_for(&edge("alice", "foo")).progress_line(), "# stars/alice/foo.nix");
}

#[test]
fn a_directory_that_exists_is_no_failure() {
    assert_eq!(DirectoryCreation::Created.failure(), None);
    assert_eq!(DirectoryCreation::AlreadyExists.failure(), None);
    assert_eq!(
        DirectoryCreation::Failed("permission denied".to_string()).failure(),
        Some("permission denied".to_string())
    );
}

#[test]
fn writing_an_edge_twice_leaves_what_one_write_leaves() {
    let mut e = edge("alice", "bar");
    e.description = Some("with \"quotes\"".to_string());
    let mut once: HashMap<String, String> = HashMap::new();
    let first = record_for(&e);
    once.insert(first.path.clone(), first.contents.clone());
    let mut twice = once.clone();
    let second = record_for(&e);
    twice.insert(second.path.clone(), second.contents.clone());
    assert_eq!(first, second);
    assert_eq!(twice, once);
    assert_eq!(twice.len(), 1);
    assert_eq!(twice["stars/alice/bar.nix"], first.contents);
}
