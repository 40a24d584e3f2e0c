use obsidian_launcher::vault::{
    scan_wikilinks, tag_of_word, tags_in_text, DirEntry, Note, ScanReply, ScanRequest, Vault,
};

fn parse(path: &str, content: &str) -> Note {
    let vault = Vault::new("/vault".to_string());
    vault.parse_note(path, content)
}

#[test]
fn test_parse_note_h1_title() {
    let note = parse("/vault/h1_title/test-note.md", "# My Title\n\nSome content here.");
    assert_eq!(note.title, "My Title");
    assert!(note.content.contains("My Title"));
    assert!(note.content.contains("Some content here"));
}

#[test]
fn test_parse_note_title_from_filename_when_no_h1() {
    let note = parse(
        "/vault/filename_title/NoTitleNote.md",
        "Just some content.\n\nNo heading here.",
    );
    assert_eq!(note.title, "NoTitleNote");
}

#[test]
fn test_parse_note_extracts_wikilinks() {
    let note = parse(
        "/vault/wikilinks/wikilinks-note.md",
        "# Wikilinks Note\n\nThis references [[Another Note]] and [[Target Page|Display Text]] here.",
    );
    assert!(note.wikilinks.contains(&"Another Note".to_string()));
    assert!(note.wikilinks.contains(&"Target Page".to_string()));
    assert_eq!(note.wikilinks.len(), 2);
}

#[test]
fn test_parse_note_extracts_tags() {
    let note = parse("/vault/tags/tags-note.md", "# Tags Note\n\nThis is about #rust and #programming.");
    assert!(note.tags.contains(&"rust".to_string()));
    assert!(note.tags.contains(&"programming".to_string()));
}

/// Answers the walk's requests from a fixed tree and returns the notes.
fn walk(vault: &Vault, tree: &[(&str, &[(&str, bool)])], files: &[(&str, &str)]) -> Result<Vec<Note>, String> {
    let mut scan = vault.scan();
    let mut dirs_read = Vec::new();
    loop {
        let reply = match scan.request() {
            ScanRequest::ReadDir(p) => {
                dirs_read.push(p.clone());
                match tree.iter().find(|(d, _)| d == p) {
                    Some((_, entries)) => ScanReply::Listing(Ok(entries
                        .iter()
                        .map(|(name, is_dir)| DirEntry { path: format!("{}/{}", p, name), is_dir: *is_dir })
                        .collect())),
                    None => ScanReply::Listing(Err(format!("cannot read {}", p))),
                }
            }
            ScanRequest::ReadFile(p) => {
                ScanReply::Contents(files.iter().find(|(f, _)| f == p).map(|(_, c)| c.to_string()))
            }
            ScanRequest::Done | ScanRequest::Failed(_) => break,
        };
        scan.reply(reply);
    }
    assert!(!dirs_read.iter().any(|d| d.ends_with(".git")));
    scan.into_result()
}

#[test]
fn test_scan_skips_dot_git() {
    let vault = Vault::new("/tmp/scan_skips_git".to_string());
    let tree: &[(&str, &[(&str, bool)])] = &[("/tmp/scan_skips_git", &[(".git", true), ("note.md", false)])];
    let files = [("/tmp/scan_skips_git/note.md", "# Hello"), ("/tmp/scan_skips_git/.git/config", "irrelevant")];
    let notes = walk(&vault, tree, &files).unwrap();
    assert_eq!(notes.len(), 1);
    assert_eq!(notes[0].title, "Hello");
}

#[test]
fn scan_walks_depth_first_in_listing_order() {
    let vault = Vault::new("/v".to_string());
    let tree: &[(&str, &[(&str, bool)])] = &[
        ("/v", &[("a.md", false), ("sub", true), ("node_modules", true), ("z.md", false), ("x.txt", false), (".md", false)]),
        ("/v/sub", &[("b.md", false), (".obsidian", true), ("c.MD", false)]),
    ];
    let files = [("/v/a.md", "# A"), ("/v/sub/b.md", "# B"), ("/v/z.md", "# Z")];
    let notes = walk(&vault, tree, &files).unwrap();
    let titles: Vec<&str> = notes.iter().map(|n| n.title.as_str()).collect();
    assert_eq!(titles, vec!["A", "B", "Z"]);
}

#[test]
fn scan_fails_when_a_directory_cannot_be_listed() {
    let vault = Vault::new("/v".to_string());
    let tree: &[(&str, &[(&str, bool)])] = &[("/v", &[("a.md", false), ("locked", true)])];
    let files = [("/v/a.md", "# A")];
    assert_eq!(walk(&vault, tree, &files).err(), Some("cannot read /v/locked".to_string()));
}

#[test]
fn scan_passes_over_unreadable_files() {
    let vault = Vault::new("/v".to_string());
    let tree: &[(&str, &[(&str, bool)])] = &[("/v", &[("bad.md", false), ("good.md", false)])];
    let files = [("/v/good.md", "text only")];
    let notes = walk(&vault, tree, &files).unwrap();
    assert_eq!(notes.len(), 1);
    assert_eq!(notes[0].title, "good");
}

#[test]
fn note_content_tags_and_code() {
    let note = parse(
        "/v/n.md",
        "# Title\n\nSee `code` and #tag, ##double. #a. # #\n\n## Sub\n\n# Second",
    );
    assert_eq!(note.title, "Title");
    assert_eq!(note.content, "Title See  code  and #tag, ##double. #a. # # Sub Second ");
    assert_eq!(note.tags, vec!["tag".to_string(), "double".to_string(), "a".to_string()]);
    assert!(note.wikilinks.is_empty());
    assert_eq!(note.path, "/v/n.md");
}

#[test]
fn first_h1_text_is_the_title() {
    let note = parse("/v/first.md", "## Not this\n\n# \n\n# Yes *this* one");
    assert_eq!(note.title, "Yes ");
}

#[test]
fn wikilinks_edge_cases() {
    assert_eq!(scan_wikilinks("no links"), Some(vec![]));
    assert_eq!(scan_wikilinks("[[ ]] [[ a | b ]] [[c]]."), Some(vec!["a".to_string(), "c".to_string()]));
    assert_eq!(scan_wikilinks("[[open without close"), Some(vec![]));
    assert_eq!(scan_wikilinks("[[x]y[[z]]!"), Some(vec!["x".to_string(), "z".to_string()]));
    // The byte after the closing bracket is missing or starts a wide character.
    assert_eq!(scan_wikilinks("[[end]"), None);
    assert_eq!(scan_wikilinks("[[a]é"), None);
}

#[test]
fn tags_from_words() {
    assert_eq!(tag_of_word(&"#rust,".to_string()), Some("rust".to_string()));
    assert_eq!(tag_of_word(&"#".to_string()), None);
    assert_eq!(tag_of_word(&"#!!".to_string()), None);
    assert_eq!(tag_of_word(&"rust".to_string()), None);
    assert_eq!(tags_in_text("#one two\t#three.  #"), vec!["one".to_string(), "three".to_string()]);
}
