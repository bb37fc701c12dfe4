use tree_sitter::QueryCursor;
use vex::collector::MaxProblems;
use vex::irritation::Irritation;
use vex::language::SupportedLanguage;
use vex::location::Location;
use vex::node::{text_between, Node};
use vex::protocol::{EventKind, Intent, Violation};
use vex::scan::{RunData, Scan, ScanError};
use vex::source_file::{ParsedSourceFile, SourceFile, SourcePath};
use vex::store::PreinitedStore;

const ROOT: &str = "/home/user/project";

const BIN_EXPR_SOURCE: &str = "fn main() {\n    let x = 1 + (2 + 3);\n    println!(\"{x}\");\n}\n";

const BIN_EXPR_QUERY: &str = "(binary_expression\n    left: (integer_literal) @l_int\n    right: (parenthesized_expression)\n) @bin_expr";

/// What a match callback sees of one capture.
struct Capture {
    name: String,
    kind: String,
    location: Location,
    text: String,
}

fn captures_of(
    query: &tree_sitter::Query,
    m: &tree_sitter::QueryMatch,
    parsed: &ParsedSourceFile,
) -> Vec<Capture> {
    m.captures
        .iter()
        .map(|c| {
            let node = Node::new(c.node, parsed);
            Capture {
                name: query.capture_names()[c.index as usize].to_string(),
                kind: node.kind().to_string(),
                location: node.location(),
                text: node.text().unwrap(),
            }
        })
        .collect()
}

/// Runs one project-level Rust search over one file, handing each match's captures
/// to `on_match` and the intents it returns back to the scan.
fn run_search(
    source: &str,
    query: &str,
    max_problems: MaxProblems,
    mut on_match: impl FnMut(&[Capture]) -> Vec<Intent>,
) -> Result<RunData, Violation> {
    let store = PreinitedStore::new(vec![SourcePath::new(
        &format!("{ROOT}/vexes/test.star"),
        ROOT,
    )])
    .init(vec![Intent::Observe { event: EventKind::OpenProject, callback: 0 }])
    .unwrap();
    let files = vec![SourceFile::new(SourcePath::new(&format!("{ROOT}/src/main.rs"), ROOT)).unwrap()];
    let mut scan = Scan::new(
        store.init_warns(),
        store.project_queries_hint(),
        store.file_queries_hint(),
        files.len(),
        max_problems,
    );
    let search = Intent::Find {
        language: SupportedLanguage::Rust,
        query: query.to_string(),
        on_match: 1,
    };
    scan.open_project(vec![search]).unwrap();
    for file in &files {
        let Some(language) = file.language() else { continue };
        let plan = scan.open_file(language, vec![]).unwrap();
        if plan.is_empty() {
            continue;
        }
        let parsed = file.parse(source.to_string()).unwrap();
        let mut returned = Vec::new();
        for q in &plan {
            let compiled = scan.query(*q);
            let mut cursor = QueryCursor::new();
            for m in cursor.matches(compiled, parsed.tree.root_node(), parsed.content.as_bytes()) {
                returned.push(on_match(&captures_of(compiled, &m, &parsed)));
            }
        }
        for intents in returned {
            scan.on_match(intents)?;
        }
    }
    Ok(scan.finish())
}

fn capture<'a>(captures: &'a [Capture], name: &str) -> &'a Capture {
    captures.iter().find(|c| c.name == name).unwrap()
}

#[test]
fn max_problems() {
    const MAX: u32 = 47;
    let line = "    let x = 1 + 2 + 3 + 4 + 5 + 6 + 8 + 9 + 10;\n";
    let source = format!("fn main() {{\n{}    println!(\"{{x}}\");\n}}\n", line.repeat(10));
    let irritations = run_search(&source, "(integer_literal) @num", MaxProblems::Limited(MAX), |caps| {
        let num = capture(caps, "num");
        vec![Intent::Warn(Irritation::at_site(
            "oh no a number!".to_string(),
            "src/main.rs".to_string(),
            num.location,
            "num".to_string(),
        ))]
    })
    .unwrap()
    .into_irritations();
    assert_eq!(irritations.len(), MAX as usize);
}

#[test]
fn max_problems_keeps_the_smallest() {
    let line = "    let x = 1 + 2 + 3 + 4 + 5 + 6 + 8 + 9 + 10;\n";
    let source = format!("fn main() {{\n{}}}\n", line.repeat(10));
    let warn = |caps: &[Capture]| {
        let num = capture(caps, "num");
        vec![Intent::Warn(Irritation::at_site(
            "oh no a number!".to_string(),
            "src/main.rs".to_string(),
            num.location,
            "num".to_string(),
        ))]
    };
    let all = run_search(&source, "(integer_literal) @num", MaxProblems::Unlimited, warn)
        .unwrap()
        .into_irritations();
    assert_eq!(all.len(), 90);
    let capped = run_search(&source, "(integer_literal) @num", MaxProblems::Limited(47), warn)
        .unwrap()
        .into_irritations();
    let shown: Vec<String> = capped.iter().map(|i| i.to_text()).collect();
    let first: Vec<String> = all.iter().take(47).map(|i| i.to_text()).collect();
    assert_eq!(shown, first);
    assert_eq!(shown[0], "src/main.rs [1, 12] - [1, 13]: oh no a number!");
}

#[test]
fn kind() {
    let mut seen = 0;
    let data = run_search(BIN_EXPR_SOURCE, BIN_EXPR_QUERY, MaxProblems::Unlimited, |caps| {
        assert_eq!(capture(caps, "bin_expr").kind, "binary_expression");
        assert_eq!(capture(caps, "l_int").kind, "integer_literal");
        seen += 1;
        vec![]
    })
    .unwrap();
    assert_eq!(seen, 1);
    assert!(data.into_irritations().is_empty());
}

#[test]
fn location() {
    let mut seen = 0;
    run_search(BIN_EXPR_SOURCE, BIN_EXPR_QUERY, MaxProblems::Unlimited, |caps| {
        let location = capture(caps, "bin_expr").location;
        assert_eq!(location.to_text(), "[1, 12] - [1, 23]");
        assert_eq!(location.start_row, 1);
        assert_eq!(location.start_column, 12);
        assert_eq!(location.end_row, 1);
        assert_eq!(location.end_column, 23);
        seen += 1;
        vec![]
    })
    .unwrap();
    assert_eq!(seen, 1);
}

#[test]
fn text() {
    let mut seen = 0;
    run_search(BIN_EXPR_SOURCE, BIN_EXPR_QUERY, MaxProblems::Unlimited, |caps| {
        assert_eq!(capture(caps, "bin_expr").text, "1 + (2 + 3)");
        seen += 1;
        vec![]
    })
    .unwrap();
    assert_eq!(seen, 1);
}

#[test]
fn search_during_match_is_a_violation() {
    let r = run_search(BIN_EXPR_SOURCE, BIN_EXPR_QUERY, MaxProblems::Unlimited, |_| {
        vec![Intent::Find {
            language: SupportedLanguage::Rust,
            query: "(integer_literal) @n".to_string(),
            on_match: 2,
        }]
    });
    assert!(matches!(r, Err(Violation::FindDuringMatch)));
}

#[test]
fn observe_outside_init_is_a_violation() {
    let mut scan = Scan::new(vec![], 0, 0, 0, MaxProblems::Unlimited);
    let r = scan.open_project(vec![Intent::Observe { event: EventKind::OpenFile, callback: 3 }]);
    assert!(matches!(r, Err(ScanError::Protocol(Violation::ObserveOutsideInit))));
    let r = scan.on_match(vec![
        Intent::Warn(Irritation::new("fine".to_string())),
        Intent::Observe { event: EventKind::OpenFile, callback: 3 },
    ]);
    assert_eq!(r, Err(Violation::ObserveOutsideInit));
}

#[test]
fn search_during_init_is_a_violation() {
    let store = PreinitedStore::new(vec![]);
    let r = store.init(vec![Intent::Find {
        language: SupportedLanguage::Go,
        query: "(identifier) @id".to_string(),
        on_match: 0,
    }]);
    assert!(matches!(r, Err(Violation::FindDuringInit)));
}

#[test]
fn files_of_untargeted_languages_get_no_plan() {
    let mut scan = Scan::new(vec![], 1, 1, 2, MaxProblems::Unlimited);
    scan.open_project(vec![Intent::Find {
        language: SupportedLanguage::Python,
        query: "(identifier) @id".to_string(),
        on_match: 0,
    }])
    .unwrap();
    let plan = scan.open_file(SupportedLanguage::Rust, vec![]).unwrap();
    assert!(plan.is_empty());
    let plan = scan.open_file(SupportedLanguage::Python, vec![]).unwrap();
    assert_eq!(plan.len(), 1);
    assert_eq!(plan[0].language, SupportedLanguage::Python);
    assert_eq!(plan[0].on_match, 0);
}

#[test]
fn file_searches_are_scoped_to_their_file() {
    let mut scan = Scan::new(vec![], 1, 1, 2, MaxProblems::Unlimited);
    scan.open_project(vec![]).unwrap();
    let find = Intent::Find {
        language: SupportedLanguage::Rust,
        query: "(identifier) @id".to_string(),
        on_match: 4,
    };
    let plan = scan.open_file(SupportedLanguage::Rust, vec![find]).unwrap();
    assert_eq!(plan.len(), 1);
    let plan = scan.open_file(SupportedLanguage::Rust, vec![]).unwrap();
    assert!(plan.is_empty());
}

#[test]
fn bad_query_stops_the_scan() {
    let mut scan = Scan::new(vec![], 1, 0, 0, MaxProblems::Unlimited);
    let r = scan.open_project(vec![Intent::Find {
        language: SupportedLanguage::Rust,
        query: "(no_such_node".to_string(),
        on_match: 0,
    }]);
    assert!(matches!(r, Err(ScanError::Query(_))));
}

#[test]
fn warnings_from_every_phase_are_reported_in_order() {
    let store = PreinitedStore::new(vec![])
        .init(vec![Intent::Warn(Irritation::new("z at init".to_string()))])
        .unwrap();
    let mut scan = Scan::new(store.init_warns(), 0, 0, 1, MaxProblems::Unlimited);
    let at = |path: &str, row: usize, msg: &str| {
        Intent::Warn(Irritation::at_site(
            msg.to_string(),
            path.to_string(),
            Location::new(row, 0, row, 1),
            "n".to_string(),
        ))
    };
    scan.open_project(vec![at("b.rs", 0, "late")]).unwrap();
    scan.open_file(SupportedLanguage::Rust, vec![at("a.rs", 5, "x")]).unwrap();
    scan.on_match(vec![at("a.rs", 2, "y"), at("a/b.rs", 9, "z")]).unwrap();
    let data = scan.finish();
    assert_eq!(data.num_files_scanned(), 1);
    let lines: Vec<String> = data.into_irritations().iter().map(|i| i.to_text()).collect();
    assert_eq!(
        lines,
        vec![
            "z at init".to_string(),
            "a/b.rs [9, 0] - [9, 1]: z".to_string(),
            "a.rs [2, 0] - [2, 1]: y".to_string(),
            "a.rs [5, 0] - [5, 1]: x".to_string(),
            "b.rs [0, 0] - [0, 1]: late".to_string(),
        ]
    );
}

#[test]
fn node_identity_and_text() {
    let file = SourceFile::new(SourcePath::new(&format!("{ROOT}/src/main.rs"), ROOT)).unwrap();
    let parsed = file.parse(BIN_EXPR_SOURCE.to_string()).unwrap();
    let root = parsed.tree.root_node();
    let a = Node::new(root, &parsed);
    let b = Node::new(parsed.tree.root_node(), &parsed);
    let child = Node::new(root.child(0).unwrap(), &parsed);
    assert!(a.same_node(&b));
    assert!(!a.same_node(&child));
    assert_eq!(a.id(), b.id());
    assert_eq!(a.kind(), "source_file");
    assert_eq!(child.kind(), "function_item");
    assert_eq!(a.text().unwrap(), BIN_EXPR_SOURCE);
    assert_eq!(a.location().to_text(), "[0, 0] - [4, 0]");
    assert!(a.to_sexp().starts_with("(source_file (function_item"));
}

#[test]
fn text_of_byte_ranges() {
    assert_eq!(text_between("let x = 1;", 4, 5), Some("x".to_string()));
    assert_eq!(text_between("let x = 1;", 5, 4), None);
    assert_eq!(text_between("let x = 1;", 4, 11), None);
    assert_eq!(text_between("h\u{e9}llo", 1, 2), None);
    assert_eq!(text_between("h\u{e9}llo", 1, 3), Some("\u{e9}".to_string()));
}
