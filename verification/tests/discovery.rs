use devtool::commands::discovery::{find_directories, find_files, DirEntry, FileSearch};

fn file(path: &str) -> DirEntry {
    DirEntry { path: path.to_string(), is_dir: false }
}

fn dir(path: &str) -> DirEntry {
    DirEntry { path: path.to_string(), is_dir: true }
}

fn listing(of: &str) -> Vec<DirEntry> {
    match of {
        "root" => vec![file("root/a.txt"), dir("root/sub")],
        "root/sub" => vec![file("root/sub/b.txt"), file("root/sub/c.md")],
        other => panic!("no such directory: {}", other),
    }
}

#[test]
fn scenario_find_txt_files_in_a_tree() {
    let mut search = FileSearch::new("root", "txt");
    let mut listed = Vec::new();
    while let Some(next) = search.next_directory() {
        search.visit(&listing(&next));
        listed.push(next);
    }
    assert!(search.is_done());
    let mut found = search.into_files();
    found.sort();
    assert_eq!(found, vec!["root/a.txt".to_string(), "root/sub/b.txt".to_string()]);
    assert_eq!(listed, vec!["root".to_string(), "root/sub".to_string()]);
}

#[test]
fn a_new_search_has_its_root_to_list() {
    let mut search = FileSearch::new("top", "rs");
    assert!(!search.is_done());
    assert_eq!(search.extension, "rs");
    assert_eq!(search.pending, vec!["top".to_string()]);
    assert_eq!(search.found, Vec::<String>::new());
    assert_eq!(search.next_directory(), Some("top".to_string()));
    assert!(search.is_done());
    assert_eq!(search.next_directory(), None);
    assert_eq!(search.into_files(), Vec::<String>::new());
}

#[test]
fn visit_keeps_files_and_queues_directories() {
    let mut search = FileSearch::new("top", "rs");
    assert_eq!(search.next_directory(), Some("top".to_string()));
    search.visit(&vec![
        dir("top/x"),
        file("top/a.rs"),
        file("top/b.txt"),
        dir("top/y.rs"),
        file("top/c.rs"),
        file("top/noext"),
    ]);
    assert_eq!(search.found, vec!["top/a.rs".to_string(), "top/c.rs".to_string()]);
    assert_eq!(search.pending, vec!["top/x".to_string(), "top/y.rs".to_string()]);
    assert_eq!(search.next_directory(), Some("top/y.rs".to_string()));
    search.visit(&vec![file("top/y.rs/d.rs")]);
    assert_eq!(
        search.found,
        vec!["top/a.rs".to_string(), "top/c.rs".to_string(), "top/y.rs/d.rs".to_string()]
    );
    assert_eq!(search.next_directory(), Some("top/x".to_string()));
    search.visit(&vec![]);
    assert!(search.is_done());
}

#[test]
fn find_files_selects_by_extension_in_listing_order() {
    let entries = vec![
        file("d/z.txt"),
        file("d/a.md"),
        dir("d/dir.txt"),
        file("d/README"),
        file("d/.txt"),
        file("d/a.txt"),
        file("d/b.TXT"),
    ];
    assert_eq!(find_files(&entries, "txt"), vec!["d/z.txt".to_string(), "d/a.txt".to_string()]);
    assert_eq!(find_files(&entries, "md"), vec!["d/a.md".to_string()]);
    assert_eq!(find_files(&entries, "rs"), Vec::<String>::new());
    assert_eq!(find_files(&vec![], "txt"), Vec::<String>::new());
    assert_eq!(find_directories(&entries), vec!["d/dir.txt".to_string()]);
}

#[test]
fn files_without_extension_are_skipped() {
    let entries = vec![file("Makefile"), file("LICENSE"), file("notes.txt")];
    assert_eq!(find_files(&entries, "txt"), vec!["notes.txt".to_string()]);
    assert_eq!(find_files(&entries, ""), Vec::<String>::new());
}
