use vex::pattern::{any_pattern_matches, FilePattern};
use vex::walk::{DirEntry, EntryAction, EntryKind, Walker};

const ROOT: &str = "/home/user/project";

fn entry(rel: &str, kind: EntryKind) -> DirEntry {
    DirEntry { path: format!("{ROOT}{rel}"), kind }
}

fn patterns(ps: &[&str]) -> Vec<FilePattern> {
    ps.iter().map(|p| FilePattern::new(p)).collect()
}

#[test]
fn glob_patterns() {
    let p = FilePattern::new("target");
    assert!(p.matches("/target"));
    assert!(p.matches("/a/b/target"));
    assert!(!p.matches("/targets"));
    let anchored = FilePattern::new("/target");
    assert!(anchored.matches("/target"));
    assert!(!anchored.matches("/a/target"));
    let star = FilePattern::new("*.rs");
    assert!(star.matches("/src/main.rs"));
    assert!(!star.matches("/src/main.py"));
    let one = FilePattern::new("/src/?.rs");
    assert!(one.matches("/src/a.rs"));
    assert!(!one.matches("/src/ab.rs"));
    let deep = FilePattern::new("/vendor/**/gen.rs");
    assert!(deep.matches("/vendor/x/y/gen.rs"));
    assert!(!FilePattern::new("/src/*.rs").matches("/src/a/b.rs"));
    assert_eq!(FilePattern::new("a*").as_str(), "a*");
    assert!(any_pattern_matches(&patterns(&["x", "*.md"]), "/README.md"));
    assert!(!any_pattern_matches(&patterns(&[]), "/README.md"));
}

#[test]
fn allow_overrides_ignore_and_hidden() {
    let w = Walker::new(
        ROOT.to_string(),
        patterns(&["*.gen.rs", "target"]),
        patterns(&["/src/keep.gen.rs", "/.config.rs"]),
    );
    assert_eq!(w.classify(&format!("{ROOT}/src/keep.gen.rs"), EntryKind::File), EntryAction::Collect);
    assert_eq!(w.classify(&format!("{ROOT}/src/drop.gen.rs"), EntryKind::File), EntryAction::Ignore);
    assert_eq!(w.classify(&format!("{ROOT}/.config.rs"), EntryKind::File), EntryAction::Collect);
    assert_eq!(w.classify(&format!("{ROOT}/.other.rs"), EntryKind::File), EntryAction::Ignore);
    assert_eq!(w.classify(&format!("{ROOT}/target"), EntryKind::Dir), EntryAction::Ignore);
    assert_eq!(w.classify(&format!("{ROOT}/src"), EntryKind::Dir), EntryAction::Descend);
    assert_eq!(w.classify(&format!("{ROOT}/link"), EntryKind::Symlink), EntryAction::SkipSymlink);
}

#[test]
fn walk_collects_visible_files_of_any_extension() {
    let mut w = Walker::new(ROOT.to_string(), patterns(&["target"]), patterns(&[]));
    assert_eq!(w.next_dir(), Some(ROOT.to_string()));
    w.visit(vec![
        entry("/src", EntryKind::Dir),
        entry("/target", EntryKind::Dir),
        entry("/.git", EntryKind::Dir),
        entry("/notes.unknown-extension", EntryKind::File),
        entry("/link.rs", EntryKind::Symlink),
    ]);
    assert_eq!(w.next_dir(), Some(format!("{ROOT}/src")));
    w.visit(vec![entry("/src/main.rs", EntryKind::File), entry("/src/.hidden.rs", EntryKind::File)]);
    assert_eq!(w.next_dir(), None);
    assert_eq!(
        w.into_files(),
        vec![format!("{ROOT}/notes.unknown-extension"), format!("{ROOT}/src/main.rs")]
    );
}
