use orchestrion_js::ast::{Expr, MethodDef, Module, Script, Stmt, VarDeclarator};
use orchestrion_js::config::{
    CodeMatcher, Config, Dependency, InstrumentationConfig, InstrumentationOperator,
};
use orchestrion_js::function_query::{FunctionKind, FunctionQuery, FunctionType};
use orchestrion_js::instrumentation::{Instrumentation, ScopeImportState};
use orchestrion_js::{InstrumentationVisitor, Instrumentor};

const TEST_MODULE_NAME: &str = "undici";
const TEST_MODULE_PATH: &str = "index.mjs";

fn test_module_matcher() -> CodeMatcher {
    CodeMatcher::dependency(TEST_MODULE_NAME, ">=0.0.1", TEST_MODULE_PATH).unwrap()
}

fn test_dependency() -> Dependency {
    Dependency {
        name: TEST_MODULE_NAME.to_string(),
        version: "0.0.1".to_string(),
        relative_path: TEST_MODULE_PATH.to_string(),
    }
}

fn query(
    name: &str,
    class: Option<&str>,
    typ: FunctionType,
    kind: FunctionKind,
    index: usize,
) -> FunctionQuery {
    FunctionQuery {
        name: name.to_string(),
        class: class.map(|c| c.to_string()),
        typ,
        kind,
        index,
    }
}

fn rule(channel: &str, q: FunctionQuery, operator: InstrumentationOperator) -> InstrumentationConfig {
    InstrumentationConfig::new(channel, test_module_matcher(), q, operator)
}

/// A visitor for one pass with the given rules, as a caller would get
/// it from the instrumentor for a matching tree.
fn pass(rules: Vec<InstrumentationConfig>) -> InstrumentationVisitor {
    let instrumentor = Instrumentor::new(Config::new(rules, None));
    let abs = String::new();
    let dep = test_dependency();
    instrumentor.get_matching_instrumentations(&abs, Some(&dep))
}

fn fn_decl(name: &str, is_async: bool, body: Vec<Stmt>) -> Stmt {
    Stmt::FnDecl {
        name: name.to_string(),
        is_async,
        is_generator: false,
        body: Some(body),
    }
}

fn wrapper(channel: &str, is_async: bool, operator: InstrumentationOperator, original: Vec<Stmt>) -> Vec<Stmt> {
    vec![
        Stmt::TracedBind { is_async, is_generator: false, body: original },
        Stmt::SubscriberCheck { channel_name: channel.to_string() },
        Stmt::TraceCall { channel_name: channel.to_string(), operator },
    ]
}

#[test]
fn async_fetch_module_gains_import_handle_and_wrapper() {
    // One rule targeting an async function declaration named `fetch`.
    let mut v = pass(vec![rule(
        "fetch",
        query("fetch", None, FunctionType::FunctionDeclaration, FunctionKind::Async, 0),
        InstrumentationOperator::Async,
    )]);
    let module = Module { body: vec![fn_decl("fetch", true, vec![Stmt::Other])] };
    let out = v.visit_mut_module(module);
    assert_eq!(
        out,
        Module {
            body: vec![
                Stmt::Import { module: "diagnostics_channel".to_string() },
                Stmt::ChannelHandle {
                    channel_name: "fetch".to_string(),
                    module_name: "undici".to_string(),
                },
                Stmt::FnDecl {
                    name: "fetch".to_string(),
                    is_async: true,
                    is_generator: false,
                    body: Some(wrapper(
                        "fetch",
                        true,
                        InstrumentationOperator::Async,
                        vec![Stmt::Other],
                    )),
                },
            ],
        }
    );
}

#[test]
fn two_rules_one_import_two_handles() {
    // Two rules on distinct channel names, one pass over one module:
    // exactly one import, one handle per channel, both wrapped.
    let mut v = pass(vec![
        rule(
            "foo_channel",
            query("foo", None, FunctionType::FunctionDeclaration, FunctionKind::Async, 0),
            InstrumentationOperator::Promise,
        ),
        rule(
            "bar_channel",
            query("bar", None, FunctionType::FunctionDeclaration, FunctionKind::Async, 0),
            InstrumentationOperator::Callback,
        ),
    ]);
    let module = Module {
        body: vec![
            fn_decl("foo", true, vec![Stmt::Other]),
            fn_decl("bar", true, vec![Stmt::Other]),
        ],
    };
    let out = v.visit_mut_module(module);
    let imports = out
        .body
        .iter()
        .filter(|s| matches!(s, Stmt::Import { .. } | Stmt::Require { .. }))
        .count();
    assert_eq!(imports, 1);
    let handles: Vec<&Stmt> = out
        .body
        .iter()
        .filter(|s| matches!(s, Stmt::ChannelHandle { .. }))
        .collect();
    assert_eq!(handles.len(), 2);
    assert!(matches!(&out.body[3],
        Stmt::FnDecl { name, body: Some(b), .. }
            if name == "foo" && matches!(&b[0], Stmt::TracedBind { .. })));
    assert!(matches!(&out.body[4],
        Stmt::FnDecl { name, body: Some(b), .. }
            if name == "bar" && matches!(&b[0], Stmt::TracedBind { .. })));
}

#[test]
fn same_channel_multiple_usages_cjs() {
    // Two rules publishing on the same channel name over one script:
    // one require, one channel handle, both declarations wrapped.
    let mut v = pass(vec![
        rule(
            "method_call",
            query("foo", None, FunctionType::FunctionDeclaration, FunctionKind::Async, 0),
            InstrumentationOperator::Promise,
        ),
        rule(
            "method_call",
            query("bar", None, FunctionType::FunctionDeclaration, FunctionKind::Async, 0),
            InstrumentationOperator::Promise,
        ),
    ]);
    let script = Script {
        body: vec![
            fn_decl("foo", true, vec![Stmt::Other]),
            fn_decl("bar", true, vec![Stmt::Other]),
        ],
    };
    let out = v.visit_mut_script(script);
    let requires = out
        .body
        .iter()
        .filter(|s| matches!(s, Stmt::Require { .. }))
        .count();
    assert_eq!(requires, 1);
    let handles = out
        .body
        .iter()
        .filter(|s| matches!(s, Stmt::ChannelHandle { channel_name, .. } if channel_name == "method_call"))
        .count();
    assert_eq!(handles, 1);
    let wrapped = out
        .body
        .iter()
        .filter(|s| matches!(s, Stmt::FnDecl { body: Some(b), .. } if matches!(&b[0], Stmt::TracedBind { .. })))
        .count();
    assert_eq!(wrapped, 2);
}

#[test]
fn expr_cjs() {
    // A rule targeting an async function expression named `fetch`,
    // bound through a variable declarator in a script.
    let mut v = pass(vec![rule(
        "fetch_expr",
        query("fetch", None, FunctionType::FunctionExpression, FunctionKind::Async, 0),
        InstrumentationOperator::Async,
    )]);
    let script = Script {
        body: vec![Stmt::VarDecl {
            decls: vec![VarDeclarator {
                name: Some("fetch".to_string()),
                init: Some(Expr::FnExpr {
                    is_async: true,
                    is_generator: false,
                    body: Some(vec![Stmt::Other]),
                }),
            }],
        }],
    };
    let out = v.visit_mut_script(script);
    assert_eq!(
        out.body[2],
        Stmt::VarDecl {
            decls: vec![VarDeclarator {
                name: Some("fetch".to_string()),
                init: Some(Expr::FnExpr {
                    is_async: true,
                    is_generator: false,
                    body: Some(wrapper(
                        "fetch_expr",
                        true,
                        InstrumentationOperator::Async,
                        vec![Stmt::Other],
                    )),
                }),
            }],
        }
    );
}

#[test]
fn constructor_cjs() {
    // A rule targeting the synchronous `constructor` method of class
    // `Undici` in a script.
    let mut v = pass(vec![rule(
        "Undici_constructor",
        query("constructor", Some("Undici"), FunctionType::Method, FunctionKind::Sync, 0),
        InstrumentationOperator::Sync,
    )]);
    let script = Script {
        body: vec![Stmt::ClassDecl {
            name: "Undici".to_string(),
            methods: vec![MethodDef {
                name: Some("constructor".to_string()),
                is_async: false,
                is_generator: false,
                body: Some(vec![Stmt::Other]),
            }],
        }],
    };
    let out = v.visit_mut_script(script);
    assert_eq!(
        out.body[2],
        Stmt::ClassDecl {
            name: "Undici".to_string(),
            methods: vec![MethodDef {
                name: Some("constructor".to_string()),
                is_async: false,
                is_generator: false,
                body: Some(wrapper(
                    "Undici_constructor",
                    false,
                    InstrumentationOperator::Sync,
                    vec![Stmt::Other],
                )),
            }],
        }
    );
}

#[test]
fn method_kind_must_match_exactly() {
    // A class with two methods named `fetch`, one sync and one async: a
    // query for the async one must leave the sync one alone.
    let mut v = pass(vec![rule(
        "fetch",
        query("fetch", Some("Undici"), FunctionType::Method, FunctionKind::Async, 0),
        InstrumentationOperator::Promise,
    )]);
    let script = Script {
        body: vec![Stmt::ClassDecl {
            name: "Undici".to_string(),
            methods: vec![
                MethodDef {
                    name: Some("fetch".to_string()),
                    is_async: false,
                    is_generator: false,
                    body: Some(vec![Stmt::Other]),
                },
                MethodDef {
                    name: Some("fetch".to_string()),
                    is_async: true,
                    is_generator: false,
                    body: Some(vec![Stmt::Other]),
                },
            ],
        }],
    };
    let out = v.visit_mut_script(script);
    match &out.body[2] {
        Stmt::ClassDecl { methods, .. } => {
            assert_eq!(methods[0].body, Some(vec![Stmt::Other]));
            assert!(matches!(&methods[1].body, Some(b) if matches!(&b[0], Stmt::TracedBind { .. })));
        }
        other => panic!("expected the class declaration, got {:?}", other),
    }
}

#[test]
fn assignment_target_names_the_expression() {
    // `obj.fetch = async function () { ... }`: the member name makes
    // the function expression a candidate.
    let mut v = pass(vec![rule(
        "fetch_expr",
        query("fetch", None, FunctionType::FunctionExpression, FunctionKind::Async, 0),
        InstrumentationOperator::Async,
    )]);
    let module = Module {
        body: vec![Stmt::Assign {
            target: Some("fetch".to_string()),
            value: Expr::FnExpr {
                is_async: true,
                is_generator: false,
                body: Some(vec![Stmt::Other]),
            },
        }],
    };
    let out = v.visit_mut_module(module);
    assert!(matches!(&out.body[2],
        Stmt::Assign { value: Expr::FnExpr { body: Some(b), .. }, .. }
            if matches!(&b[0], Stmt::TracedBind { .. })));
}

#[test]
fn object_method_is_a_candidate_without_owner() {
    let mut v = pass(vec![rule(
        "obj_fetch",
        query("fetch", None, FunctionType::Method, FunctionKind::Sync, 0),
        InstrumentationOperator::Sync,
    )]);
    let module = Module {
        body: vec![Stmt::VarDecl {
            decls: vec![VarDeclarator {
                name: Some("api".to_string()),
                init: Some(Expr::Object {
                    methods: vec![MethodDef {
                        name: Some("fetch".to_string()),
                        is_async: false,
                        is_generator: false,
                        body: Some(vec![Stmt::Other]),
                    }],
                }),
            }],
        }],
    };
    let out = v.visit_mut_module(module);
    assert!(matches!(&out.body[2],
        Stmt::VarDecl { decls }
            if matches!(&decls[0].init, Some(Expr::Object { methods })
                if matches!(&methods[0].body, Some(b) if matches!(&b[0], Stmt::TracedBind { .. })))));
}

#[test]
fn strict_mode_directive_stays_first() {
    let mut v = pass(vec![rule(
        "fetch",
        query("fetch", None, FunctionType::FunctionDeclaration, FunctionKind::Async, 0),
        InstrumentationOperator::Async,
    )]);
    let script = Script {
        body: vec![
            Stmt::Directive { value: "use strict".to_string() },
            fn_decl("fetch", true, vec![Stmt::Other]),
        ],
    };
    let out = v.visit_mut_script(script);
    assert_eq!(out.body[0], Stmt::Directive { value: "use strict".to_string() });
    assert!(matches!(&out.body[1], Stmt::Require { module } if module == "diagnostics_channel"));
    assert!(matches!(&out.body[2], Stmt::ChannelHandle { .. }));
}

#[test]
fn scope_setup_is_idempotent_within_a_pass() {
    // Running one rule's scope setup twice within one pass inserts the
    // import and the channel handle once, never twice.
    let inst = Instrumentation::new(
        rule(
            "fetch",
            query("fetch", None, FunctionType::FunctionDeclaration, FunctionKind::Async, 0),
            InstrumentationOperator::Async,
        ),
        "diagnostics_channel".to_string(),
    );
    let mut state = ScopeImportState::new();
    assert!(!inst.module_already_has_import(0, &state));
    assert!(!inst.script_already_has_require(0, &state));
    let once = inst.ensure_scope_import(true, 0, Vec::new(), &mut state);
    assert!(inst.module_already_has_import(0, &state));
    assert_eq!(once.len(), 2);
    assert!(matches!(&once[0], Stmt::Import { .. }));
    assert!(matches!(&once[1], Stmt::ChannelHandle { .. }));
    let twice = inst.ensure_scope_import(true, 0, once, &mut state);
    assert_eq!(twice.len(), 2);
    assert!(matches!(&twice[0], Stmt::Import { .. }));
    assert!(matches!(&twice[1], Stmt::ChannelHandle { .. }));
}

#[test]
fn matched_body_is_not_reentered() {
    // The matched outer declaration contains an identically named inner
    // declaration; once the outer body is wrapped the traversal must
    // not descend into it, so the inner one stays untouched.
    let inner = fn_decl("fetch", true, vec![Stmt::Other]);
    let mut v = pass(vec![rule(
        "fetch",
        query("fetch", None, FunctionType::FunctionDeclaration, FunctionKind::Async, 0),
        InstrumentationOperator::Async,
    )]);
    let module = Module { body: vec![fn_decl("fetch", true, vec![inner])] };
    let out = v.visit_mut_module(module);
    match &out.body[2] {
        Stmt::FnDecl { body: Some(b), .. } => match &b[0] {
            Stmt::TracedBind { body, .. } => {
                // The original body survives verbatim: the inner
                // declaration was neither wrapped nor revisited.
                assert_eq!(body[0], fn_decl("fetch", true, vec![Stmt::Other]));
            }
            other => panic!("expected the closure binding, got {:?}", other),
        },
        other => panic!("expected the wrapped declaration, got {:?}", other),
    }
}

#[test]
fn body_less_candidate_is_skipped_and_keeps_the_counter() {
    // The first candidate has no body: no injection, and the counter
    // stays at the index, so the next candidate with a body matches.
    let mut v = pass(vec![rule(
        "fetch",
        query("fetch", None, FunctionType::FunctionDeclaration, FunctionKind::Async, 0),
        InstrumentationOperator::Async,
    )]);
    let module = Module {
        body: vec![
            Stmt::FnDecl {
                name: "fetch".to_string(),
                is_async: true,
                is_generator: false,
                body: None,
            },
            fn_decl("fetch", true, vec![Stmt::Other]),
        ],
    };
    let out = v.visit_mut_module(module);
    assert!(matches!(&out.body[2], Stmt::FnDecl { body: None, .. }));
    assert!(matches!(&out.body[3],
        Stmt::FnDecl { body: Some(b), .. } if matches!(&b[0], Stmt::TracedBind { .. })));
}

#[test]
fn passes_are_isolated() {
    // Two distinct trees instrumented with the same rule set: each pass
    // starts its counter at zero, so the second occurrence is selected
    // in both trees.
    let instrumentor = Instrumentor::new(Config::new(
        vec![rule(
            "second_f",
            query("f", None, FunctionType::FunctionDeclaration, FunctionKind::Sync, 1),
            InstrumentationOperator::Sync,
        )],
        None,
    ));
    let abs = String::new();
    let dep = test_dependency();
    for _ in 0..2 {
        let mut v = instrumentor.get_matching_instrumentations(&abs, Some(&dep));
        let module = Module {
            body: vec![
                fn_decl("f", false, vec![Stmt::Other]),
                fn_decl("f", false, vec![Stmt::Other]),
            ],
        };
        let out = v.visit_mut_module(module);
        assert!(matches!(&out.body[2], Stmt::FnDecl { body: Some(b), .. }
            if !matches!(&b[0], Stmt::TracedBind { .. })));
        assert!(matches!(&out.body[3], Stmt::FnDecl { body: Some(b), .. }
            if matches!(&b[0], Stmt::TracedBind { .. })));
    }
}

#[test]
fn tree_with_no_applicable_rules_passes_through() {
    // A fact no rule matches: the visitor holds no rules, and the tree
    // passes through with zero mutations.
    let instrumentor = Instrumentor::new(Config::new(
        vec![rule(
            "fetch",
            query("fetch", None, FunctionType::FunctionDeclaration, FunctionKind::Async, 0),
            InstrumentationOperator::Async,
        )],
        None,
    ));
    let abs = String::new();
    let dep = Dependency {
        name: "express".to_string(),
        version: "1.0.0".to_string(),
        relative_path: TEST_MODULE_PATH.to_string(),
    };
    let mut v = instrumentor.get_matching_instrumentations(&abs, Some(&dep));
    let module = Module { body: vec![fn_decl("fetch", true, vec![Stmt::Other])] };
    let out = v.visit_mut_module(module);
    assert_eq!(out, Module { body: vec![fn_decl("fetch", true, vec![Stmt::Other])] });
}

#[test]
fn custom_hook_module_name_is_used() {
    let instrumentor = Instrumentor::new(Config::new(
        vec![rule(
            "fetch",
            query("fetch", None, FunctionType::FunctionDeclaration, FunctionKind::Async, 0),
            InstrumentationOperator::Async,
        )],
        Some("dc_polyfill".to_string()),
    ));
    let abs = String::new();
    let dep = test_dependency();
    let mut v = instrumentor.get_matching_instrumentations(&abs, Some(&dep));
    let module = Module { body: vec![fn_decl("fetch", true, vec![Stmt::Other])] };
    let out = v.visit_mut_module(module);
    assert!(matches!(&out.body[0], Stmt::Import { module } if module == "dc_polyfill"));
}
