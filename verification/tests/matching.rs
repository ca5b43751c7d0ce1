use orchestrion_js::config::{CodeMatcher, Dependency, InstrumentationOperator};
use orchestrion_js::function_query::{FunctionKind, FunctionQuery, FunctionType};

fn dep(name: &str, version: &str, path: &str) -> Dependency {
    Dependency {
        name: name.to_string(),
        version: version.to_string(),
        relative_path: path.to_string(),
    }
}

#[test]
fn function_type_tags() {
    assert!(matches!(
        FunctionType::from_str("decl"),
        Some(FunctionType::FunctionDeclaration)
    ));
    assert!(matches!(
        FunctionType::from_str("expr"),
        Some(FunctionType::FunctionExpression)
    ));
    assert!(matches!(FunctionType::from_str("method"), Some(FunctionType::Method)));
    assert!(FunctionType::from_str("class").is_none());
    assert!(FunctionType::from_str("").is_none());
}

#[test]
fn kind_flags() {
    assert!(!FunctionKind::Sync.is_async());
    assert!(!FunctionKind::Sync.is_generator());
    assert!(FunctionKind::Async.is_async());
    assert!(!FunctionKind::Async.is_generator());
    assert!(!FunctionKind::Generator.is_async());
    assert!(FunctionKind::Generator.is_generator());
    assert!(FunctionKind::AsyncGenerator.is_async());
    assert!(FunctionKind::AsyncGenerator.is_generator());
}

#[test]
fn kind_is_exact_async_rejects_async_generator() {
    // An async-generator candidate has is_async set, yet `Async` must
    // not accept it.
    assert!(!FunctionKind::Async.matches(true, true));
    assert!(FunctionKind::Async.matches(true, false));
    assert!(!FunctionKind::AsyncGenerator.matches(true, false));
    assert!(FunctionKind::AsyncGenerator.matches(true, true));
    assert!(FunctionKind::Sync.matches(false, false));
    assert!(!FunctionKind::Sync.matches(false, true));
    assert!(FunctionKind::Generator.matches(false, true));
    assert!(!FunctionKind::Generator.matches(true, true));
}

fn decl_query(name: &str, kind: FunctionKind, index: usize) -> FunctionQuery {
    FunctionQuery {
        name: name.to_string(),
        class: None,
        typ: FunctionType::FunctionDeclaration,
        kind,
        index,
    }
}

#[test]
fn index_disambiguation_three_identical_candidates() {
    // Three structurally identical declarations named `f`; a query with
    // index 1 selects none before the second, and selects the second.
    let q = decl_query("f", FunctionKind::Sync, 1);
    let mut count: usize = 0;
    assert!(!q.matches_decl("f", false, false, &mut count));
    assert!(q.matches_decl("f", false, false, &mut count));
    assert_eq!(count, 1);
    // The counter stops at the index, so a candidate after the
    // selected one is selected as well.
    assert!(q.matches_decl("f", false, false, &mut count));
    assert_eq!(count, 1);

    // index 0 selects the first.
    let q0 = decl_query("f", FunctionKind::Sync, 0);
    let mut count0: usize = 0;
    assert!(q0.matches_decl("f", false, false, &mut count0));
    assert_eq!(count0, 0);

    // index 3 selects none of only three candidates.
    let q3 = decl_query("f", FunctionKind::Sync, 3);
    let mut count3: usize = 0;
    assert!(!q3.matches_decl("f", false, false, &mut count3));
    assert!(!q3.matches_decl("f", false, false, &mut count3));
    assert!(!q3.matches_decl("f", false, false, &mut count3));
    assert_eq!(count3, 3);
}

#[test]
fn counter_ignores_structural_mismatches() {
    let q = decl_query("f", FunctionKind::Sync, 1);
    let mut count: usize = 0;
    // Wrong name, wrong kind: counter must not move.
    assert!(!q.matches_decl("g", false, false, &mut count));
    assert!(!q.matches_decl("f", true, false, &mut count));
    assert_eq!(count, 0);
    assert!(!q.matches_decl("f", false, false, &mut count));
    assert!(q.matches_decl("f", false, false, &mut count));
}

#[test]
fn maybe_increment_count_steps() {
    let q = decl_query("f", FunctionKind::Sync, 2);
    let mut count: usize = 0;
    assert!(!q.maybe_increment_count(false, &mut count));
    assert_eq!(count, 0);
    assert!(!q.maybe_increment_count(true, &mut count));
    assert_eq!(count, 1);
    assert!(!q.maybe_increment_count(true, &mut count));
    assert_eq!(count, 2);
    assert!(q.maybe_increment_count(true, &mut count));
    assert_eq!(count, 2);
}

#[test]
fn method_query_requires_owning_class() {
    let q = FunctionQuery {
        name: "fetch".to_string(),
        class: Some("Undici".to_string()),
        typ: FunctionType::Method,
        kind: FunctionKind::Async,
        index: 0,
    };
    let owner = "Undici".to_string();
    let other = "Client".to_string();
    let mut count: usize = 0;
    // An object-literal method has no owning class: no match.
    assert!(!q.matches_method("fetch", None, true, false, &mut count));
    // A method of another class: no match.
    assert!(!q.matches_method("fetch", Some(&other), true, false, &mut count));
    // The right class: match.
    assert!(q.matches_method("fetch", Some(&owner), true, false, &mut count));
    assert_eq!(count, 0);
}

#[test]
fn dependency_matcher_checks_name_version_and_path() {
    let m = CodeMatcher::dependency("undici", ">=1.2.3", "index.mjs").unwrap();
    let p = String::new();
    assert!(m.matches(&p, Some(&dep("undici", "1.2.3", "index.mjs"))));
    assert!(m.matches(&p, Some(&dep("undici", "2.0.0", "index.mjs"))));
    // Version below the range.
    assert!(!m.matches(&p, Some(&dep("undici", "1.2.2", "index.mjs"))));
    // Wrong dependency name.
    assert!(!m.matches(&p, Some(&dep("express", "1.2.3", "index.mjs"))));
    // Wrong relative path.
    assert!(!m.matches(&p, Some(&dep("undici", "1.2.3", "lib/index.mjs"))));
    // No dependency fact at all.
    assert!(!m.matches(&p, None));
}

#[test]
fn unparsable_fact_version_is_no_match_not_an_error() {
    let m = CodeMatcher::dependency("undici", ">=0.0.1", "index.mjs").unwrap();
    let p = String::new();
    assert!(!m.matches(&p, Some(&dep("undici", "not-a-version", "index.mjs"))));
}

#[test]
fn invalid_version_range_is_a_construction_failure() {
    let e = CodeMatcher::dependency("undici", "definitely not a range !!!", "index.mjs");
    let err = e.err().expect("an invalid range must be refused");
    assert_eq!(err.message(), "String error: invalid version range");
}

#[test]
fn absolute_paths_selector_ignores_dependency_metadata() {
    let m = CodeMatcher::absolute_paths(vec!["a.js".to_string(), "b.js".to_string()]);
    let a = "a.js".to_string();
    let c = "c.js".to_string();
    assert!(!m.matches(&c, None));
    assert!(m.matches(&a, None));
    // The same answers whatever dependency fact is supplied.
    let d = dep("undici", "1.0.0", "a.js");
    assert!(!m.matches(&c, Some(&d)));
    assert!(m.matches(&a, Some(&d)));
}

#[test]
fn operator_trace_method_names() {
    assert_eq!(InstrumentationOperator::Callback.as_str(), "traceCallback");
    assert_eq!(InstrumentationOperator::Promise.as_str(), "tracePromise");
    assert_eq!(InstrumentationOperator::Sync.as_str(), "traceSync");
    assert_eq!(InstrumentationOperator::Async.as_str(), "traceAsync");
}

#[test]
fn error_conversions() {
    let from_str = orchestrion_js::error::OrchestrionError::from("boom");
    assert_eq!(from_str.message(), "String error: boom");
    let from_string = orchestrion_js::error::OrchestrionError::from("again".to_string());
    assert_eq!(from_string.message(), "String error: again");
    let io = std::io::Error::new(std::io::ErrorKind::NotFound, "gone");
    let from_io = orchestrion_js::error::OrchestrionError::from(io);
    assert!(from_io.message().starts_with("IO error: "));
}
