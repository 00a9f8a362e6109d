use rainy_mate::crystalline::{is_markdown, CrystallineMemory};

#[test]
fn only_markdown_files_are_cached() {
    assert!(is_markdown("/notes/a.md"));
    assert!(!is_markdown("/notes/a.txt"));
    assert!(!is_markdown("/notes/.md"));
    let mut m = CrystallineMemory::new("/notes".to_string());
    assert!(m.file_changed("/notes/a.md".to_string(), "Rust tips".to_string()));
    assert!(!m.file_changed("/notes/b.txt".to_string(), "Rust tips".to_string()));
    assert_eq!(m.search("rust", 10).len(), 1);
    assert_eq!(m.root_path(), "/notes");
}

#[test]
fn search_ignores_case_and_respects_the_limit() {
    let mut m = CrystallineMemory::new("/n".to_string());
    m.file_changed("/n/1.md".to_string(), "Deploy with CARGO".to_string());
    m.file_changed("/n/2.md".to_string(), "cargo fmt first".to_string());
    m.file_changed("/n/3.md".to_string(), "unrelated".to_string());
    let hits = m.search("Cargo", 10);
    let ids: Vec<&str> = hits.iter().map(|h| h.id.as_str()).collect();
    assert_eq!(ids, vec!["/n/1.md", "/n/2.md"]);
    assert_eq!(hits[0].tags, vec!["crystalline".to_string(), "markdown".to_string()]);
    assert_eq!(m.search("cargo", 1).len(), 1);
    assert!(m.search("cargo", 0).is_empty());
}

#[test]
fn changed_notes_replace_and_removed_notes_vanish() {
    let mut m = CrystallineMemory::new("/n".to_string());
    m.file_changed("/n/a.md".to_string(), "old text".to_string());
    m.file_changed("/n/a.md".to_string(), "new text".to_string());
    let hits = m.search("text", 10);
    assert_eq!(hits.len(), 1);
    assert_eq!(hits[0].content, "new text");
    m.file_removed("/n/a.md");
    assert!(m.search("text", 10).is_empty());
}
