use vex::language::{extension, file_stem, SupportedLanguage};
use vex::source_file::{Error, IoAction, SourceFile, SourcePath};

fn file_at(rel: &str) -> SourceFile {
    let root = "/home/user/project";
    let abs = format!("{root}/{rel}");
    SourceFile::new(SourcePath::new(&abs, root)).unwrap()
}

/// A file named on the command line, as `dump` names it.
fn dumped(path: &str) -> SourceFile {
    SourceFile::new(SourcePath::new_in(path, "/home/user/work")).unwrap()
}

const TMP: &str = "/tmp/vex-dump-4f2a";

#[test]
fn dump_valid_file() {
    let file = dumped(&format!("{TMP}/path/to/file.rs"));
    let content = "fn add(a: i32, b: i32) -> i32 {\n    a + b\n}\n";
    let parsed = file.parse(content.to_string()).unwrap();
    assert_eq!(parsed.language, SupportedLanguage::Rust);
    assert_eq!(parsed.content, content);
    assert!(parsed.tree.root_node().to_sexp().starts_with("(source_file"));
}

#[test]
fn dump_nonexistent_file() {
    let file = dumped("/i/do/not/exist.rs");
    let cause = std::io::Error::from_raw_os_error(2).to_string();
    let err = file.read_error(cause);
    assert_eq!(
        err.file_message().unwrap(),
        "cannot read /i/do/not/exist.rs: No such file or directory (os error 2)"
    );
}

#[test]
fn dump_invalid_file() {
    let path = format!("{TMP}/src/file.rs");
    let err = dumped(&path).parse("i am not valid a valid rust file!\n".to_string()).unwrap_err();
    assert!(matches!(err, Error::UnparseableAsLanguage { language: SupportedLanguage::Rust, .. }));
    assert_eq!(err.file_message().unwrap(), format!("cannot parse {} as rust", path));
}

#[test]
fn no_extension() {
    let path = format!("{TMP}/no-extension");
    let file = dumped(&path);
    assert!(!file.parseable());
    let err = file.parse(String::new()).unwrap_err();
    let expected = format!("cannot parse {path}");
    let message = err.file_message().unwrap();
    assert!(message.ends_with(&expected), "unexpected error: expected {expected} but got {message}");
}

#[test]
fn unknown_extension() {
    let path = format!("{TMP}/file.unknown-extension");
    let file = dumped(&path);
    assert!(!file.parseable());
    let err = file.parse(String::new()).unwrap_err();
    assert_eq!(err.file_message().unwrap(), format!("cannot parse {path}"));
}

#[test]
fn relative_arguments_are_shown_as_given() {
    let p = SourcePath::new_in("src/main.rs", "/home/user/work");
    assert_eq!(p.abs_path, "/home/user/work/src/main.rs");
    assert_eq!(p.pretty_path, "src/main.rs");
}

#[test]
fn languages_by_extension() {
    assert_eq!(file_at("main.go").language(), Some(SupportedLanguage::Go));
    assert_eq!(file_at("a/b/tool.py").language(), Some(SupportedLanguage::Python));
    assert_eq!(file_at("src/lib.rs").language(), Some(SupportedLanguage::Rust));
    assert_eq!(file_at("src/lib.RS").language(), None);
    assert_eq!(file_at(".rs").language(), None);
    assert_eq!(file_at("notes.txt").language(), None);
    assert_eq!(SupportedLanguage::try_from_extension("py"), Some(SupportedLanguage::Python));
    assert_eq!(SupportedLanguage::try_from_extension("pyc"), None);
}

#[test]
fn extensions_and_stems() {
    assert_eq!(extension("/a/b.tar.gz"), Some("gz".to_string()));
    assert_eq!(extension("/a.b/c"), None);
    assert_eq!(extension("/a/.bashrc"), None);
    assert_eq!(extension("/a/x."), Some(String::new()));
    assert_eq!(file_stem("vexes/var.star"), "var");
    assert_eq!(file_stem("vexes/.hidden"), ".hidden");
    assert_eq!(file_stem("a/b.tar.gz"), "b.tar");
}

#[test]
fn pretty_paths_are_project_relative() {
    let p = SourcePath::new("/home/user/project/src/main.rs", "/home/user/project");
    assert_eq!(p.pretty_path, "src/main.rs");
    assert_eq!(p.abs_path, "/home/user/project/src/main.rs");
    let q = SourcePath::new("/elsewhere/main.rs", "/home/user/project");
    assert_eq!(q.pretty_path, "/elsewhere/main.rs");
    let r = SourcePath::new("/home/user/projects/main.rs", "/home/user/project");
    assert_eq!(r.pretty_path, "s/main.rs");
}

#[test]
fn parsed_files_compare_by_path_content_and_language() {
    let a = file_at("src/a.rs").parse("fn f() {}\n".to_string()).unwrap();
    let b = file_at("src/a.rs").parse("fn f() {}\n".to_string()).unwrap();
    let c = file_at("src/a.rs").parse("fn g() {}\n".to_string()).unwrap();
    assert!(a == b);
    assert!(a != c);
}

#[test]
fn syntax_error_names_the_file() {
    let file = file_at("src/broken.py");
    let err = file.parse("def f(:\n".to_string()).unwrap_err();
    match &err {
        Error::UnparseableAsLanguage { path, language } => {
            assert_eq!(path, "src/broken.py");
            assert_eq!(*language, SupportedLanguage::Python);
        }
        other => panic!("unexpected error {other:?}"),
    }
    assert_eq!(err.file_message().unwrap(), "cannot parse src/broken.py as python");
}
