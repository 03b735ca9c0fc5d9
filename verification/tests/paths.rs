use devtool::utils::paths::{get_config_dir, has_extension, is_absolute, join, resolve_path};
use std::path::Path;

#[test]
fn join_puts_one_separator_between() {
    assert_eq!(join("a", "b"), "a/b");
    assert_eq!(join("a/", "b"), "a/b");
    assert_eq!(join("", "b"), "b");
    assert_eq!(join("a", ""), "a/");
    assert_eq!(join("a", "/b"), "/b");
    assert_eq!(join("/", "b"), "/b");
    assert_eq!(join(".", "src"), "./src");
    assert_eq!(join("a/b", "c/d.txt"), "a/b/c/d.txt");
}

#[test]
fn join_agrees_with_std_paths() {
    let parts = ["", "a", "a/", "/", "/a", "a/b", ".", "..", "é", "a//"];
    for base in parts {
        for path in parts {
            assert_eq!(
                Path::new(&join(base, path)),
                Path::new(base).join(path).as_path(),
                "{:?} joined with {:?}",
                base,
                path
            );
        }
    }
}

#[test]
fn absolute_paths_begin_at_the_root() {
    assert!(is_absolute("/"));
    assert!(is_absolute("/usr/bin"));
    assert!(!is_absolute(""));
    assert!(!is_absolute("usr/bin"));
    assert!(!is_absolute("./x"));
}

#[test]
fn resolve_path_keeps_absolute_paths() {
    assert_eq!(resolve_path("/etc/devtool.toml", "/home/me/proj"), "/etc/devtool.toml");
    assert_eq!(resolve_path("devtool.toml", "/home/me/proj"), "/home/me/proj/devtool.toml");
    assert_eq!(resolve_path("src/main.rs", "/home/me/proj/"), "/home/me/proj/src/main.rs");
}

#[test]
fn config_dir_lies_below_home() {
    assert_eq!(get_config_dir("/home/me"), "/home/me/.config/devtool");
    assert_eq!(get_config_dir("/home/me/"), "/home/me/.config/devtool");
    assert_eq!(get_config_dir(""), ".config/devtool");
}

#[test]
fn extension_is_what_follows_the_last_dot_of_the_name() {
    assert!(has_extension("a.txt", "txt"));
    assert!(has_extension("sub/b.txt", "txt"));
    assert!(!has_extension("sub/c.md", "txt"));
    assert!(has_extension("archive.tar.gz", "gz"));
    assert!(!has_extension("archive.tar.gz", "tar"));
    assert!(!has_extension("archive.tar.gz", "tar.gz"));
    assert!(!has_extension("a.TXT", "txt"));
    assert!(!has_extension("a.txt", "TXT"));
    assert!(!has_extension("a.txt", "tx"));
    assert!(!has_extension("a.txt", "xt"));
    assert!(has_extension("a.", ""));
}

#[test]
fn files_without_extension_match_nothing() {
    assert!(!has_extension("Makefile", "txt"));
    assert!(!has_extension("Makefile", ""));
    assert!(!has_extension("Makefile", "Makefile"));
    assert!(!has_extension(".gitignore", "gitignore"));
    assert!(!has_extension("dir.txt/readme", "txt"));
    assert!(!has_extension("", ""));
    assert!(!has_extension("..", ""));
    assert!(!has_extension("a/..", ""));
    assert!(has_extension(".hidden.txt", "txt"));
    assert!(has_extension("...", ""));
}

#[test]
fn extension_agrees_with_std_paths() {
    let paths = [
        "a.txt", "a", ".a", "a.", "a.b.c", "x/a.txt", "x.y/a", "x.y/.a", "x.y/a.b", "...", "..a",
        "a..", "é.✓", "x/..txt",
    ];
    let extensions = ["", "txt", "a", "b", "c", "✓", "y", "y/a"];
    for path in paths {
        let expected = Path::new(path).extension().and_then(|e| e.to_str());
        for extension in extensions {
            assert_eq!(
                has_extension(path, extension),
                expected == Some(extension),
                "{:?} with {:?}",
                path,
                extension
            );
        }
    }
}
