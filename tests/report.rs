use vex::cache::QueryCache;
use vex::collector::{collect, sort_irritations, MaxProblems};
use vex::irritation::{compare_text, same_text, Irritation};
use vex::language::SupportedLanguage;
use vex::location::Location;
use vex::protocol::{absorb, check_intents, EventKind, Intent, Phase, Violation};
use vex::store::PreinitedStore;
use vex::source_file::SourcePath;

fn irr(path: &str, row: usize, msg: &str) -> Irritation {
    Irritation::at_site(msg.to_string(), path.to_string(), Location::new(row, 1, row, 4), "l".to_string())
}

fn texts(v: &[Irritation]) -> Vec<String> {
    v.iter().map(|i| i.to_text()).collect()
}

#[test]
fn location_display_and_order() {
    let a = Location::new(1, 12, 1, 23);
    assert_eq!(a.to_text(), "[1, 12] - [1, 23]");
    assert_eq!(Location::new(0, 0, 10, 105).to_text(), "[0, 0] - [10, 105]");
    assert_eq!(a.compare(&Location::new(1, 13, 1, 14)), -1);
    assert_eq!(a.compare(&Location::new(1, 12, 1, 22)), 1);
    assert_eq!(a.compare(&a), 0);
}

#[test]
fn text_order() {
    assert_eq!(compare_text("abc", "abd", false), -1);
    assert_eq!(compare_text("ab", "abc", false), -1);
    assert_eq!(compare_text("b", "abc", false), 1);
    assert_eq!(compare_text("a/b", "a.b", true), -1);
    assert_eq!(compare_text("a/b", "a.b", false), 1);
    assert!(same_text("x y", "x y"));
    assert!(!same_text("x y", "x z"));
}

#[test]
fn sorting_is_independent_of_raise_order() {
    let make = |order: &[usize]| {
        let all = [irr("src/b.rs", 3, "m"), irr("src/a.rs", 9, "m"), irr("src/a.rs", 2, "z"), irr("src/a.rs", 2, "a")];
        let mut v: Vec<Option<Irritation>> = all.into_iter().map(Some).collect();
        order.iter().map(|&k| v[k].take().unwrap()).collect::<Vec<_>>()
    };
    let one = texts(&sort_irritations(make(&[0, 1, 2, 3])));
    let two = texts(&sort_irritations(make(&[3, 1, 0, 2])));
    assert_eq!(one, two);
    assert_eq!(
        one,
        vec![
            "src/a.rs [2, 1] - [2, 4]: a",
            "src/a.rs [2, 1] - [2, 4]: z",
            "src/a.rs [9, 1] - [9, 4]: m",
            "src/b.rs [3, 1] - [3, 4]: m",
        ]
    );
}

#[test]
fn cap_keeps_the_smallest() {
    let v = vec![irr("c.rs", 0, "m"), irr("a.rs", 0, "m"), irr("b.rs", 0, "m")];
    assert_eq!(texts(&collect(v, MaxProblems::Limited(2))), vec!["a.rs [0, 1] - [0, 4]: m", "b.rs [0, 1] - [0, 4]: m"]);
    let v = vec![irr("c.rs", 0, "m"), irr("a.rs", 0, "m")];
    assert_eq!(collect(v, MaxProblems::Limited(5)).len(), 2);
    let v = vec![irr("c.rs", 0, "m"), irr("a.rs", 0, "m")];
    assert_eq!(collect(v, MaxProblems::Limited(0)).len(), 0);
    assert!(collect(vec![], MaxProblems::Unlimited).is_empty());
}

#[test]
fn irritations_without_a_file_come_first() {
    let v = vec![irr("a.rs", 0, "m"), Irritation::new("general".to_string())];
    assert_eq!(texts(&collect(v, MaxProblems::Unlimited)), vec!["general", "a.rs [0, 1] - [0, 4]: m"]);
    let copy = Irritation::new("x".to_string()).duplicate();
    assert_eq!(copy.to_text(), "x");
}

#[test]
fn intents_are_checked_by_phase() {
    let find = || Intent::Find { language: SupportedLanguage::Rust, query: "(x) @x".to_string(), on_match: 0 };
    let observe = || Intent::Observe { event: EventKind::OpenFile, callback: 1 };
    assert_eq!(find().violation_at(Phase::Init), Some(Violation::FindDuringInit));
    assert_eq!(find().violation_at(Phase::Match), Some(Violation::FindDuringMatch));
    assert_eq!(find().violation_at(Phase::OpenFile), None);
    assert_eq!(observe().violation_at(Phase::OpenProject), Some(Violation::ObserveOutsideInit));
    assert_eq!(observe().violation_at(Phase::Init), None);
    assert_eq!(check_intents(Phase::Match, &vec![Intent::Warn(Irritation::new("w".to_string())), observe(), find()]), Some(Violation::ObserveOutsideInit));
    let a = absorb(Phase::OpenProject, vec![find(), Intent::Warn(Irritation::new("w".to_string())), find()]).unwrap();
    assert_eq!(a.finds.len(), 2);
    assert_eq!(a.warns.len(), 1);
    assert!(a.observes.is_empty());
}

#[test]
fn cache_compiles_each_query_once() {
    let mut cache = QueryCache::with_capacity(2);
    assert_eq!(cache.resolve(SupportedLanguage::Rust, "(identifier) @id").unwrap(), (0, true));
    assert_eq!(cache.resolve(SupportedLanguage::Go, "(identifier) @id").unwrap(), (1, true));
    assert_eq!(cache.resolve(SupportedLanguage::Rust, "(identifier) @id").unwrap(), (0, false));
    assert_eq!(cache.len(), 2);
    assert_eq!(cache.key(1), (SupportedLanguage::Go, "(identifier) @id"));
    assert!(cache.resolve(SupportedLanguage::Rust, "(oops").is_err());
    assert_eq!(cache.len(), 2);
}

#[test]
fn store_registers_observers_in_order() {
    let root = "/p";
    let store = PreinitedStore::new(vec![
        SourcePath::new("/p/vexes/first.star", root),
        SourcePath::new("/p/vexes/second.star", root),
    ]);
    assert_eq!(store.scriptlet_ids(), vec!["first".to_string(), "second".to_string()]);
    let store = store
        .init(vec![
            Intent::Observe { event: EventKind::OpenProject, callback: 7 },
            Intent::Observe { event: EventKind::OpenFile, callback: 8 },
            Intent::Warn(Irritation::new("init".to_string())),
            Intent::Observe { event: EventKind::OpenProject, callback: 9 },
        ])
        .unwrap();
    assert_eq!(store.observers_for(EventKind::OpenProject), vec![7, 9]);
    assert_eq!(store.observers_for(EventKind::OpenFile), vec![8]);
    assert_eq!(store.project_queries_hint(), 2);
    assert_eq!(store.file_queries_hint(), 1);
    assert_eq!(texts(&store.init_warns()), vec!["init"]);
}
