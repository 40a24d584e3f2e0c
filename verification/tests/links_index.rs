use obsidian_launcher::index::{document_of, phrase_query, search_hit};
use obsidian_launcher::links::{encode_path, note_url, relative_to_vault};
use obsidian_launcher::vault::Note;

#[test]
fn encodes_each_piece_of_a_path() {
    assert_eq!(encode_path("My Notes/été 1.md"), "My%20Notes/%C3%A9t%C3%A9%201.md");
    assert_eq!(encode_path("a-b_c.~d"), "a-b_c.~d");
    assert_eq!(encode_path("/x/"), "/x/");
}

#[test]
fn note_addresses_are_relative_to_the_vault() {
    assert_eq!(relative_to_vault("/v/sub/n.md", "/v"), "sub/n.md");
    assert_eq!(relative_to_vault("/v/sub/n.md", "/v/"), "sub/n.md");
    assert_eq!(relative_to_vault("/other/n.md", "/v"), "/other/n.md");
    assert_eq!(
        note_url("/home/u/Vault/Daily Notes/2024.md", "/home/u/Vault"),
        "obsidian://open?file=Daily%20Notes/2024.md"
    );
}

#[test]
fn queries_are_quoted_phrases() {
    assert_eq!(phrase_query("man pages"), "\"man pages\"");
    assert_eq!(phrase_query("say \"hi\""), "\"say \\\"hi\\\"\"");
    assert_eq!(phrase_query("a\\b"), "\"a\\\\b\"");
    assert_eq!(phrase_query("\\\""), "\"\\\\\\\"\"");
}

#[test]
fn documents_join_tags_and_links() {
    let note = Note {
        path: "/v/n.md".to_string(),
        title: "T".to_string(),
        content: "c ".to_string(),
        tags: vec!["a".to_string(), "b".to_string()],
        wikilinks: vec!["Another Note".to_string()],
    };
    let d = document_of(&note);
    assert_eq!(d.tags, "a b");
    assert_eq!(d.wikilinks, "Another Note");
    assert_eq!(d.title, "T");
    assert_eq!(d.path, "/v/n.md");
}

#[test]
fn hits_are_read_back() {
    let (t, p, w) = search_hit(Some("T".into()), None, Some("Another Note x".into()));
    assert_eq!(t, "T");
    assert_eq!(p, "");
    assert_eq!(w, vec!["Another", "Note", "x"]);
    let (_, _, w) = search_hit(None, None, Some("".into()));
    assert!(w.is_empty());
}
