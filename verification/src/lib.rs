//! A configuration-driven code-instrumentation engine for JavaScript
//! syntax trees: declarative rules select functions inside a resolved
//! library file, and a single depth-first traversal pass wraps each
//! selected function body with tracing hooks, idempotently.
//!
//! An [`Instrumentor`] holds the immutable rule set.  For each tree it
//! hands out a fresh [`InstrumentationVisitor`], which owns the pass's
//! occurrence counters and scope-import state, drives one mutation
//! pass, and is then discarded: nothing leaks between passes.

pub mod ast;
pub mod config;
pub mod error;
pub mod function_query;
pub mod instrumentation;
pub mod semver;

use crate::ast::{
    declarator_size, declarators_size, expr_size, lemma_view_stmts_index, method_size,
    methods_size, opt_body_size, stmt_size, stmts_size, view_declarator, view_declarators,
    view_expr, view_method, view_methods, view_opt_stmts, view_stmt, view_stmts, Expr, MethodDef,
    Module, Script, SpecExpr, SpecMethodDef, SpecStmt, SpecVarDeclarator, Stmt, VarDeclarator,
};
use crate::config::{Config, Dependency, SpecDependency, SpecInstrumentationConfig, spec_dependency_of};
use crate::function_query::{spec_select, FunctionQuery, FunctionType, SpecFunctionQuery};
use crate::instrumentation::{
    count_handles, count_imports, lemma_count_handles_insert, lemma_count_imports_insert,
    spec_channel_stmt, spec_ensure_scope, spec_import_stmt, spec_inject, spec_start_index,
    Instrumentation, ScopeImportState, SpecImportState, SpecInstrumentation,
};
use vstd::prelude::*;

verus! {

/// The view of an optional borrowed owning-class name.
pub open spec fn spec_owner(owner: Option<&String>) -> Option<Seq<char>> {
    match owner {
        Some(o) => Some(o@),
        None => None,
    }
}

/// Whether a candidate of the given shape is a full structural match
/// for a query: shape, exact execution kind, name, and owning class
/// where the query pins one.
pub open spec fn spec_structural(
    q: SpecFunctionQuery,
    shape: FunctionType,
    name: Seq<char>,
    owner: Option<Seq<char>>,
    is_async: bool,
    is_generator: bool,
) -> bool {
    match shape {
        FunctionType::FunctionDeclaration => FunctionQuery::spec_structural_decl(
            q,
            name,
            is_async,
            is_generator,
        ),
        FunctionType::FunctionExpression => FunctionQuery::spec_structural_expr(
            q,
            name,
            is_async,
            is_generator,
        ),
        FunctionType::Method => FunctionQuery::spec_structural_method(
            q,
            name,
            owner,
            is_async,
            is_generator,
        ),
    }
}

/// Polls every rule from `i` on against one candidate site, advancing
/// each rule's occurrence counter independently; yields the updated
/// counters, which rules selected the candidate, and whether any did.
pub open spec fn spec_eval_selected(
    rules: Seq<SpecInstrumentationConfig>,
    counts: Seq<int>,
    i: int,
    shape: FunctionType,
    name: Seq<char>,
    owner: Option<Seq<char>>,
    is_async: bool,
    is_generator: bool,
) -> (Seq<int>, Seq<bool>, bool)
    decreases rules.len() - i,
{
    if i < 0 || i >= rules.len() {
        (counts, Seq::empty(), false)
    } else {
        let q = rules[i].function_query;
        let step = spec_select(
            q.index,
            counts[i],
            spec_structural(q, shape, name, owner, is_async, is_generator),
        );
        let rec = spec_eval_selected(
            rules,
            counts.update(i, step.1),
            i + 1,
            shape,
            name,
            owner,
            is_async,
            is_generator,
        );
        (rec.0, seq![step.0] + rec.1, step.0 || rec.2)
    }
}

/// Applies the selected rules' injections to a matched body, in rule
/// order, each wrapping the previous result.
pub open spec fn spec_wrap_from(
    rules: Seq<SpecInstrumentationConfig>,
    selected: Seq<bool>,
    i: int,
    body: Seq<SpecStmt>,
) -> Seq<SpecStmt>
    decreases rules.len() - i,
{
    if i < 0 || i >= rules.len() {
        body
    } else {
        let b2 = if 0 <= i < selected.len() && selected[i] {
            spec_inject(rules[i], body)
        } else {
            body
        };
        spec_wrap_from(rules, selected, i + 1, b2)
    }
}

/// The traversal pass over a statement sequence: counters thread left
/// to right through the statements.
pub open spec fn spec_visit_stmts(
    rules: Seq<SpecInstrumentationConfig>,
    counts: Seq<int>,
    stmts: Seq<SpecStmt>,
) -> (Seq<int>, Seq<SpecStmt>)
    decreases stmts_size(stmts),
{
    if stmts.len() == 0 {
        (counts, stmts)
    } else {
        let head = spec_visit_stmt(rules, counts, stmts[0]);
        let rest = spec_visit_stmts(rules, head.0, stmts.drop_first());
        (rest.0, seq![head.1] + rest.1)
    }
}

/// The traversal pass over an optional function body.
pub open spec fn spec_visit_opt_body(
    rules: Seq<SpecInstrumentationConfig>,
    counts: Seq<int>,
    body: Option<Seq<SpecStmt>>,
) -> (Seq<int>, Option<Seq<SpecStmt>>)
    decreases opt_body_size(body),
{
    match body {
        Some(b) => {
            let r = spec_visit_stmts(rules, counts, b);
            (r.0, Some(r.1))
        },
        None => (counts, None),
    }
}

/// The traversal pass over one statement.  A candidate site is first
/// offered to every rule; when one or more rules select it and it has
/// a body, the body is wrapped and the node's children are not
/// entered; otherwise the traversal descends.  A body-less candidate
/// is a structural non-candidate: no injection, no error.  The
/// engine's own wrapper statements pass through untouched: a wrapped
/// body is never re-entered within the pass.
pub open spec fn spec_visit_stmt(
    rules: Seq<SpecInstrumentationConfig>,
    counts: Seq<int>,
    s: SpecStmt,
) -> (Seq<int>, SpecStmt)
    decreases stmt_size(s),
{
    match s {
        SpecStmt::FnDecl { name, is_async, is_generator, body } => {
            let ev = spec_eval_selected(
                rules,
                counts,
                0,
                FunctionType::FunctionDeclaration,
                name,
                None,
                is_async,
                is_generator,
            );
            if ev.2 && body is Some {
                (
                    ev.0,
                    SpecStmt::FnDecl {
                        name,
                        is_async,
                        is_generator,
                        body: Some(spec_wrap_from(rules, ev.1, 0, body->0)),
                    },
                )
            } else {
                let vb = spec_visit_opt_body(rules, ev.0, body);
                (vb.0, SpecStmt::FnDecl { name, is_async, is_generator, body: vb.1 })
            }
        },
        SpecStmt::VarDecl { decls } => {
            let ev = spec_eval_declarators(rules, counts, decls);
            if ev.2 {
                (ev.0, SpecStmt::VarDecl { decls: ev.1 })
            } else {
                let vc = spec_visit_declarators_children(rules, ev.0, decls);
                (vc.0, SpecStmt::VarDecl { decls: vc.1 })
            }
        },
        SpecStmt::Assign { target, value } => {
            let va = spec_visit_assign_value(rules, counts, target, value);
            (va.0, SpecStmt::Assign { target, value: va.1 })
        },
        SpecStmt::ClassDecl { name, methods } => {
            let vm = spec_visit_methods(rules, counts, methods, Some(name));
            (vm.0, SpecStmt::ClassDecl { name, methods: vm.1 })
        },
        _ => (counts, s),
    }
}

/// The traversal pass over the right side of an assignment.  A
/// function expression assigned to an inferable name is a candidate
/// under that name; anything else is only descended into.
pub open spec fn spec_visit_assign_value(
    rules: Seq<SpecInstrumentationConfig>,
    counts: Seq<int>,
    target: Option<Seq<char>>,
    value: SpecExpr,
) -> (Seq<int>, SpecExpr)
    decreases expr_size(value),
{
    match value {
        SpecExpr::FnExpr { is_async, is_generator, body } => {
            if target is Some {
                let ev = spec_eval_selected(
                    rules,
                    counts,
                    0,
                    FunctionType::FunctionExpression,
                    target->0,
                    None,
                    is_async,
                    is_generator,
                );
                if ev.2 && body is Some {
                    (
                        ev.0,
                        SpecExpr::FnExpr {
                            is_async,
                            is_generator,
                            body: Some(spec_wrap_from(rules, ev.1, 0, body->0)),
                        },
                    )
                } else {
                    let vb = spec_visit_opt_body(rules, ev.0, body);
                    (vb.0, SpecExpr::FnExpr { is_async, is_generator, body: vb.1 })
                }
            } else {
                let vb = spec_visit_opt_body(rules, counts, body);
                (vb.0, SpecExpr::FnExpr { is_async, is_generator, body: vb.1 })
            }
        },
        SpecExpr::Object { methods } => {
            let vm = spec_visit_methods(rules, counts, methods, None);
            (vm.0, SpecExpr::Object { methods: vm.1 })
        },
        SpecExpr::Other => (counts, value),
    }
}

/// Offers every declarator that binds a function expression to an
/// identifier as a candidate under that identifier, wrapping matched
/// bodies in place; declarators are processed in order.
pub open spec fn spec_eval_declarators(
    rules: Seq<SpecInstrumentationConfig>,
    counts: Seq<int>,
    ds: Seq<SpecVarDeclarator>,
) -> (Seq<int>, Seq<SpecVarDeclarator>, bool)
    decreases ds,
{
    if ds.len() == 0 {
        (counts, ds, false)
    } else {
        let d = ds[0];
        let step: (Seq<int>, SpecVarDeclarator, bool) = if d.name is Some && d.init is Some
            && d.init->0 is FnExpr {
            let ev = spec_eval_selected(
                rules,
                counts,
                0,
                FunctionType::FunctionExpression,
                d.name->0,
                None,
                d.init->0->FnExpr_is_async,
                d.init->0->FnExpr_is_generator,
            );
            if ev.2 && d.init->0->FnExpr_body is Some {
                (
                    ev.0,
                    SpecVarDeclarator {
                        name: d.name,
                        init: Some(
                            SpecExpr::FnExpr {
                                is_async: d.init->0->FnExpr_is_async,
                                is_generator: d.init->0->FnExpr_is_generator,
                                body: Some(
                                    spec_wrap_from(rules, ev.1, 0, d.init->0->FnExpr_body->0),
                                ),
                            },
                        ),
                    },
                    true,
                )
            } else {
                (ev.0, d, false)
            }
        } else {
            (counts, d, false)
        };
        let rec = spec_eval_declarators(rules, step.0, ds.drop_first());
        (rec.0, seq![step.1] + rec.1, step.2 || rec.2)
    }
}

/// When no rule matched any declarator, the traversal descends into
/// the declarators' initializers.
pub open spec fn spec_visit_declarators_children(
    rules: Seq<SpecInstrumentationConfig>,
    counts: Seq<int>,
    ds: Seq<SpecVarDeclarator>,
) -> (Seq<int>, Seq<SpecVarDeclarator>)
    decreases declarators_size(ds),
{
    if ds.len() == 0 {
        (counts, ds)
    } else {
        let d = ds[0];
        let step: (Seq<int>, SpecVarDeclarator) = match d.init {
            Some(e) => {
                proof {
                    assert(declarator_size(d) == 1 + expr_size(e));
                    assert(declarators_size(ds) == 1 + declarator_size(ds[0]) + declarators_size(
                        ds.drop_first(),
                    ));
                }
                let ve = spec_visit_expr(rules, counts, e);
                (ve.0, SpecVarDeclarator { name: d.name, init: Some(ve.1) })
            },
            None => (counts, d),
        };
        let rec = spec_visit_declarators_children(rules, step.0, ds.drop_first());
        (rec.0, seq![step.1] + rec.1)
    }
}

/// The traversal pass over an expression the engine can see into: a
/// function expression's body is descended (the expression itself is a
/// candidate only at a named declarator or assignment), an object
/// literal's methods are candidates, anything else is opaque.
pub open spec fn spec_visit_expr(
    rules: Seq<SpecInstrumentationConfig>,
    counts: Seq<int>,
    e: SpecExpr,
) -> (Seq<int>, SpecExpr)
    decreases expr_size(e),
{
    match e {
        SpecExpr::FnExpr { is_async, is_generator, body } => {
            let vb = spec_visit_opt_body(rules, counts, body);
            (vb.0, SpecExpr::FnExpr { is_async, is_generator, body: vb.1 })
        },
        SpecExpr::Object { methods } => {
            let vm = spec_visit_methods(rules, counts, methods, None);
            (vm.0, SpecExpr::Object { methods: vm.1 })
        },
        SpecExpr::Other => (counts, e),
    }
}

/// The traversal pass over the methods of a class (with its name as
/// the owning class) or of an object literal (with none).
pub open spec fn spec_visit_methods(
    rules: Seq<SpecInstrumentationConfig>,
    counts: Seq<int>,
    ms: Seq<SpecMethodDef>,
    owner: Option<Seq<char>>,
) -> (Seq<int>, Seq<SpecMethodDef>)
    decreases methods_size(ms),
{
    if ms.len() == 0 {
        (counts, ms)
    } else {
        let head = spec_visit_method(rules, counts, ms[0], owner);
        let rest = spec_visit_methods(rules, head.0, ms.drop_first(), owner);
        (rest.0, seq![head.1] + rest.1)
    }
}

/// The traversal pass over one method.  A method with an identifier
/// key is a candidate; a computed key is not, but its body is still
/// descended into.
pub open spec fn spec_visit_method(
    rules: Seq<SpecInstrumentationConfig>,
    counts: Seq<int>,
    m: SpecMethodDef,
    owner: Option<Seq<char>>,
) -> (Seq<int>, SpecMethodDef)
    decreases method_size(m),
{
    match m.name {
        Some(n) => {
            let ev = spec_eval_selected(
                rules,
                counts,
                0,
                FunctionType::Method,
                n,
                owner,
                m.is_async,
                m.is_generator,
            );
            if ev.2 && m.body is Some {
                (
                    ev.0,
                    SpecMethodDef {
                        name: m.name,
                        is_async: m.is_async,
                        is_generator: m.is_generator,
                        body: Some(spec_wrap_from(rules, ev.1, 0, m.body->0)),
                    },
                )
            } else {
                let vb = spec_visit_opt_body(rules, ev.0, m.body);
                (
                    vb.0,
                    SpecMethodDef {
                        name: m.name,
                        is_async: m.is_async,
                        is_generator: m.is_generator,
                        body: vb.1,
                    },
                )
            }
        },
        None => {
            let vb = spec_visit_opt_body(rules, counts, m.body);
            (
                vb.0,
                SpecMethodDef {
                    name: m.name,
                    is_async: m.is_async,
                    is_generator: m.is_generator,
                    body: vb.1,
                },
            )
        },
    }
}

/// Runs every rule's scope setup, in rule order, over a root body.
pub open spec fn spec_setup_scope(
    rules: Seq<SpecInstrumentation>,
    i: int,
    is_module: bool,
    scope: int,
    body: Seq<SpecStmt>,
    st: SpecImportState,
) -> (Seq<SpecStmt>, SpecImportState)
    decreases rules.len() - i,
{
    if i < 0 || i >= rules.len() {
        (body, st)
    } else {
        let e = spec_ensure_scope(
            rules[i].config,
            rules[i].dc_module,
            is_module,
            scope,
            body,
            st,
        );
        spec_setup_scope(rules, i + 1, is_module, scope, e.0, e.1)
    }
}

/// The mathematical content of an [`InstrumentationVisitor`]: the
/// active rules, the hook-channel module name, and the pass-local
/// occurrence counters and scope-import state.
#[verifier::ext_equal]
pub struct SpecVisitor {
    pub rules: Seq<SpecInstrumentation>,
    pub dc_module: Seq<char>,
    pub counters: Seq<int>,
    pub imports: SpecImportState,
}

impl SpecVisitor {
    /// The rules without their module binding.
    pub open spec fn configs(self) -> Seq<SpecInstrumentationConfig> {
        self.rules.map_values(|r: SpecInstrumentation| r.config)
    }

    /// One counter per rule, each within the range the selector keeps
    /// it in: a counter never passes its query's index.
    pub open spec fn wf(self) -> bool {
        &&& self.counters.len() == self.rules.len()
        &&& forall|i: int|
            0 <= i < self.counters.len() ==> 0 <= #[trigger] self.counters[i]
                <= self.rules[i].config.function_query.index
    }

    /// A visitor that has not run yet: zeroed counters, empty state.
    pub open spec fn fresh(self) -> bool {
        &&& self.imports == SpecImportState::empty()
        &&& self.counters.len() == self.rules.len()
        &&& forall|i: int| 0 <= i < self.counters.len() ==> #[trigger] self.counters[i] == 0
    }
}

/// One whole pass over a root: every rule's scope setup first, then
/// the traversal of the (already set up) body.
pub open spec fn spec_visit_root(v: SpecVisitor, is_module: bool, body: Seq<SpecStmt>) -> (
    SpecVisitor,
    Seq<SpecStmt>,
) {
    let su = spec_setup_scope(v.rules, 0, is_module, 0, body, v.imports);
    let w = spec_visit_stmts(v.configs(), v.counters, su.0);
    (SpecVisitor { rules: v.rules, dc_module: v.dc_module, counters: w.0, imports: su.1 }, w.1)
}

/// When no declarator of a variable declaration was selected by any
/// rule, the candidate evaluation leaves every declarator as it was.
proof fn lemma_eval_declarators_unmatched(
    rules: Seq<SpecInstrumentationConfig>,
    counts: Seq<int>,
    ds: Seq<SpecVarDeclarator>,
)
    ensures
        !spec_eval_declarators(rules, counts, ds).2 ==> spec_eval_declarators(
            rules,
            counts,
            ds,
        ).1 == ds,
    decreases ds,
{
    if ds.len() > 0 {
        let d = ds[0];
        if d.name is Some && d.init is Some && d.init->0 is FnExpr {
            let ev = spec_eval_selected(
                rules,
                counts,
                0,
                FunctionType::FunctionExpression,
                d.name->0,
                None,
                d.init->0->FnExpr_is_async,
                d.init->0->FnExpr_is_generator,
            );
            if ev.2 && d.init->0->FnExpr_body is Some {
                lemma_eval_declarators_unmatched(rules, ev.0, ds.drop_first());
            } else {
                lemma_eval_declarators_unmatched(rules, ev.0, ds.drop_first());
                if !spec_eval_declarators(rules, counts, ds).2 {
                    assert(seq![d] + ds.drop_first() =~= ds);
                }
            }
        } else {
            lemma_eval_declarators_unmatched(rules, counts, ds.drop_first());
            if !spec_eval_declarators(rules, counts, ds).2 {
                assert(seq![d] + ds.drop_first() =~= ds);
            }
        }
    }
}

/// Drives one traversal pass over one tree for the rules that matched
/// that tree's facts.  It owns the pass state: one occurrence counter
/// per rule and the scope-import record, both created fresh with the
/// visitor and discarded with it.
pub struct InstrumentationVisitor {
    pub instrumentations: Vec<Instrumentation>,
    pub dc_module: String,
    pub counters: Vec<usize>,
    pub import_state: ScopeImportState,
}

impl View for InstrumentationVisitor {
    type V = SpecVisitor;

    open spec fn view(&self) -> SpecVisitor {
        SpecVisitor {
            rules: self.instrumentations@.map_values(|x: Instrumentation| x@),
            dc_module: self.dc_module@,
            counters: self.counters@.map_values(|c: usize| c as int),
            imports: self.import_state@,
        }
    }
}

impl InstrumentationVisitor {
    /// A fresh visitor for one pass: zeroed counters, empty state.
    pub fn new(instrumentations: Vec<Instrumentation>, dc_module: String) -> (r: Self)
        ensures
            r@.rules == instrumentations@.map_values(|x: Instrumentation| x@),
            r@.dc_module == dc_module@,
            r@.fresh(),
            r@.wf(),
    {
        let n = instrumentations.len();
        let mut counters: Vec<usize> = Vec::new();
        let mut i: usize = 0;
        while i < n
            invariant
                counters@.len() == i,
                0 <= i <= n,
                forall|j: int| 0 <= j < i ==> counters@[j] == 0usize,
            decreases n - i,
        {
            counters.push(0);
            i = i + 1;
        }
        let r = InstrumentationVisitor {
            instrumentations,
            dc_module,
            counters,
            import_state: ScopeImportState::new(),
        };
        r
    }

    /// Polls every rule from `i` on against one candidate site; the
    /// result lists which rules selected it and whether any did.
    #[verifier::rlimit(50)]
    pub fn eval_selected(
        &mut self,
        i: usize,
        shape: FunctionType,
        name: &str,
        owner: Option<&String>,
        is_async: bool,
        is_generator: bool,
    ) -> (r: (Vec<bool>, bool))
        requires
            old(self)@.wf(),
            i <= old(self)@.rules.len(),
        ensures
            final(self)@.wf(),
            final(self)@.rules == old(self)@.rules,
            final(self)@.dc_module == old(self)@.dc_module,
            final(self)@.imports == old(self)@.imports,
            r.0@.len() == old(self)@.rules.len() - i,
            ({
                let ev = spec_eval_selected(
                    old(self)@.configs(),
                    old(self)@.counters,
                    i as int,
                    shape,
                    name@,
                    spec_owner(owner),
                    is_async,
                    is_generator,
                );
                &&& final(self)@.counters == ev.0
                &&& r.0@ == ev.1
                &&& r.1 == ev.2
            }),
        decreases self.instrumentations@.len() - i,
    {
        if i >= self.instrumentations.len() {
            let selected: Vec<bool> = Vec::new();
            proof {
                assert(selected@ =~= Seq::<bool>::empty());
            }
            return (selected, false);
        }
        proof {
            assert(old(self)@.counters[i as int] == self.counters@[i as int] as int);
            assert(old(self)@.configs()[i as int] == self.instrumentations@[i as int]@.config);
        }
        let mut c = self.counters[i];
        let sel: bool = {
            let q = &self.instrumentations[i].config.function_query;
            match shape {
                FunctionType::FunctionDeclaration => q.matches_decl(
                    name,
                    is_async,
                    is_generator,
                    &mut c,
                ),
                FunctionType::FunctionExpression => q.matches_expr(
                    name,
                    is_async,
                    is_generator,
                    &mut c,
                ),
                FunctionType::Method => q.matches_method(
                    name,
                    owner,
                    is_async,
                    is_generator,
                    &mut c,
                ),
            }
        };
        self.counters[i] = c;
        proof {
            let q = old(self)@.configs()[i as int].function_query;
            let step = spec_select(
                q.index,
                old(self)@.counters[i as int],
                spec_structural(q, shape, name@, spec_owner(owner), is_async, is_generator),
            );
            assert(sel == step.0 && c as int == step.1);
            assert(self@.counters =~= old(self)@.counters.update(i as int, c as int));
            assert(self@.wf());
        }
        let rec = self.eval_selected(i + 1, shape, name, owner, is_async, is_generator);
        let (mut selected, any) = rec;
        let ghost suffix = selected@;
        selected.insert(0, sel);
        proof {
            assert(selected@ =~= seq![sel] + suffix);
        }
        (selected, sel || any)
    }

    /// Applies the selected rules' injections to a matched body, in
    /// rule order, each wrapping the previous result.
    pub fn wrap_selected(&self, i: usize, selected: &Vec<bool>, body: Vec<Stmt>) -> (r: Vec<Stmt>)
        requires
            i <= self@.rules.len(),
            selected@.len() == self@.rules.len(),
        ensures
            view_stmts(r@) == spec_wrap_from(
                self@.configs(),
                selected@,
                i as int,
                view_stmts(body@),
            ),
        decreases self.instrumentations@.len() - i,
    {
        if i >= self.instrumentations.len() {
            return body;
        }
        proof {
            assert(self@.configs()[i as int] == self.instrumentations@[i as int]@.config);
        }
        let b2 = if selected[i] {
            self.instrumentations[i].insert_tracing(body)
        } else {
            body
        };
        self.wrap_selected(i + 1, selected, b2)
    }

    /// The traversal pass over a statement sequence.
    pub fn visit_mut_stmts(&mut self, stmts: Vec<Stmt>) -> (r: Vec<Stmt>)
        requires
            old(self)@.wf(),
        ensures
            final(self)@.wf(),
            final(self)@.rules == old(self)@.rules,
            final(self)@.dc_module == old(self)@.dc_module,
            final(self)@.imports == old(self)@.imports,
            ({
                let w = spec_visit_stmts(
                    old(self)@.configs(),
                    old(self)@.counters,
                    view_stmts(stmts@),
                );
                final(self)@.counters == w.0 && view_stmts(r@) == w.1
            }),
        decreases stmts_size(view_stmts(stmts@)),
    {
        proof {
            lemma_view_stmts_index(stmts@);
        }
        if stmts.len() == 0 {
            return stmts;
        }
        let mut work = stmts;
        let first = work.remove(0);
        proof {
            assert(work@ =~= stmts@.drop_first());
            assert(view_stmts(stmts@)[0] == view_stmt(first));
            assert(view_stmts(stmts@).drop_first() =~= view_stmts(stmts@.drop_first()));
        }
        let r0 = self.visit_mut_stmt(first);
        let rest = self.visit_mut_stmts(work);
        let ghost restv = rest@;
        let mut out = rest;
        out.insert(0, r0);
        proof {
            assert(out@ =~= seq![r0] + restv);
            lemma_view_stmts_index(out@);
            lemma_view_stmts_index(restv);
            assert(view_stmts(out@) =~= seq![view_stmt(r0)] + view_stmts(restv));
        }
        out
    }

    /// The traversal pass over an optional function body.
    pub fn visit_mut_opt_body(&mut self, body: Option<Vec<Stmt>>) -> (r: Option<Vec<Stmt>>)
        requires
            old(self)@.wf(),
        ensures
            final(self)@.wf(),
            final(self)@.rules == old(self)@.rules,
            final(self)@.dc_module == old(self)@.dc_module,
            final(self)@.imports == old(self)@.imports,
            ({
                let w = spec_visit_opt_body(
                    old(self)@.configs(),
                    old(self)@.counters,
                    view_opt_stmts(body),
                );
                final(self)@.counters == w.0 && view_opt_stmts(r) == w.1
            }),
        decreases opt_body_size(view_opt_stmts(body)),
    {
        match body {
            Some(b) => Some(self.visit_mut_stmts(b)),
            None => None,
        }
    }

    /// The traversal pass over one statement: offer candidate sites to
    /// every rule, wrap matched bodies, and descend only into nodes no
    /// rule claimed.
    pub fn visit_mut_stmt(&mut self, s: Stmt) -> (r: Stmt)
        requires
            old(self)@.wf(),
        ensures
            final(self)@.wf(),
            final(self)@.rules == old(self)@.rules,
            final(self)@.dc_module == old(self)@.dc_module,
            final(self)@.imports == old(self)@.imports,
            ({
                let w = spec_visit_stmt(old(self)@.configs(), old(self)@.counters, view_stmt(s));
                final(self)@.counters == w.0 && view_stmt(r) == w.1
            }),
        decreases stmt_size(view_stmt(s)),
    {
        match s {
            Stmt::FnDecl { name, is_async, is_generator, body } => {
                let ev = self.eval_selected(
                    0,
                    FunctionType::FunctionDeclaration,
                    name.as_str(),
                    None,
                    is_async,
                    is_generator,
                );
                if ev.1 && body.is_some() {
                    let wrapped = self.wrap_selected(0, &ev.0, body.unwrap());
                    Stmt::FnDecl { name, is_async, is_generator, body: Some(wrapped) }
                } else {
                    let vb = self.visit_mut_opt_body(body);
                    Stmt::FnDecl { name, is_async, is_generator, body: vb }
                }
            },
            Stmt::VarDecl { decls } => {
                let ghost dsv = view_declarators(decls@);
                let evr = self.eval_declarators(decls);
                if evr.1 {
                    Stmt::VarDecl { decls: evr.0 }
                } else {
                    proof {
                        lemma_eval_declarators_unmatched(
                            old(self)@.configs(),
                            old(self)@.counters,
                            dsv,
                        );
                    }
                    let vc = self.visit_mut_declarators_children(evr.0);
                    Stmt::VarDecl { decls: vc }
                }
            },
            Stmt::Assign { target, value } => {
                let tref: Option<&String> = match &target {
                    Some(n) => Some(n),
                    None => None,
                };
                let value2 = self.visit_mut_assign_value(tref, value);
                Stmt::Assign { target, value: value2 }
            },
            Stmt::ClassDecl { name, methods } => {
                let ms2 = self.visit_mut_methods(methods, Some(&name));
                Stmt::ClassDecl { name, methods: ms2 }
            },
            other => other,
        }
    }

    /// The traversal pass over the right side of an assignment: a
    /// function expression assigned to an inferable name is a
    /// candidate under that name.
    pub fn visit_mut_assign_value(&mut self, target: Option<&String>, value: Expr) -> (r: Expr)
        requires
            old(self)@.wf(),
        ensures
            final(self)@.wf(),
            final(self)@.rules == old(self)@.rules,
            final(self)@.dc_module == old(self)@.dc_module,
            final(self)@.imports == old(self)@.imports,
            ({
                let va = spec_visit_assign_value(
                    old(self)@.configs(),
                    old(self)@.counters,
                    spec_owner(target),
                    view_expr(value),
                );
                final(self)@.counters == va.0 && view_expr(r) == va.1
            }),
        decreases expr_size(view_expr(value)),
    {
        match value {
            Expr::FnExpr { is_async, is_generator, body } => {
                match target {
                    Some(n) => {
                        let ev = self.eval_selected(
                            0,
                            FunctionType::FunctionExpression,
                            n.as_str(),
                            None,
                            is_async,
                            is_generator,
                        );
                        if ev.1 && body.is_some() {
                            let wrapped = self.wrap_selected(0, &ev.0, body.unwrap());
                            Expr::FnExpr { is_async, is_generator, body: Some(wrapped) }
                        } else {
                            let vb = self.visit_mut_opt_body(body);
                            Expr::FnExpr { is_async, is_generator, body: vb }
                        }
                    },
                    None => {
                        let vb = self.visit_mut_opt_body(body);
                        Expr::FnExpr { is_async, is_generator, body: vb }
                    },
                }
            },
            Expr::Object { methods } => {
                let ms2 = self.visit_mut_methods(methods, None);
                Expr::Object { methods: ms2 }
            },
            Expr::Other => Expr::Other,
        }
    }

    /// Offers every declarator that binds a function expression to an
    /// identifier as a candidate, wrapping matched bodies.
    pub fn eval_declarators(&mut self, ds: Vec<VarDeclarator>) -> (r: (Vec<VarDeclarator>, bool))
        requires
            old(self)@.wf(),
        ensures
            final(self)@.wf(),
            final(self)@.rules == old(self)@.rules,
            final(self)@.dc_module == old(self)@.dc_module,
            final(self)@.imports == old(self)@.imports,
            ({
                let ev = spec_eval_declarators(
                    old(self)@.configs(),
                    old(self)@.counters,
                    view_declarators(ds@),
                );
                final(self)@.counters == ev.0 && view_declarators(r.0@) == ev.1 && r.1 == ev.2
            }),
        decreases ds@.len(),
    {
        proof {
            crate::ast::lemma_view_declarators_index(ds@);
        }
        if ds.len() == 0 {
            return (ds, false);
        }
        let mut work = ds;
        let d = work.remove(0);
        proof {
            assert(work@ =~= ds@.drop_first());
            assert(view_declarators(ds@)[0] == view_declarator(d));
            assert(view_declarators(ds@).drop_first() =~= view_declarators(ds@.drop_first()));
        }
        let (d2, m) = match d {
            VarDeclarator {
                name: Some(n),
                init: Some(Expr::FnExpr { is_async, is_generator, body }),
            } => {
                let ev = self.eval_selected(
                    0,
                    FunctionType::FunctionExpression,
                    n.as_str(),
                    None,
                    is_async,
                    is_generator,
                );
                if ev.1 && body.is_some() {
                    let wrapped = self.wrap_selected(0, &ev.0, body.unwrap());
                    (
                        VarDeclarator {
                            name: Some(n),
                            init: Some(
                                Expr::FnExpr { is_async, is_generator, body: Some(wrapped) },
                            ),
                        },
                        true,
                    )
                } else {
                    (
                        VarDeclarator {
                            name: Some(n),
                            init: Some(Expr::FnExpr { is_async, is_generator, body }),
                        },
                        false,
                    )
                }
            },
            other => (other, false),
        };
        let rec = self.eval_declarators(work);
        let (rds, rm) = rec;
        let ghost rdsv = rds@;
        let mut out = rds;
        out.insert(0, d2);
        proof {
            assert(out@ =~= seq![d2] + rdsv);
            crate::ast::lemma_view_declarators_index(out@);
            crate::ast::lemma_view_declarators_index(rdsv);
            assert(view_declarators(out@) =~= seq![view_declarator(d2)] + view_declarators(rdsv));
        }
        (out, m || rm)
    }

    /// Descends into the declarators' initializers of an unmatched
    /// variable declaration.
    pub fn visit_mut_declarators_children(&mut self, ds: Vec<VarDeclarator>) -> (r: Vec<
        VarDeclarator,
    >)
        requires
            old(self)@.wf(),
        ensures
            final(self)@.wf(),
            final(self)@.rules == old(self)@.rules,
            final(self)@.dc_module == old(self)@.dc_module,
            final(self)@.imports == old(self)@.imports,
            ({
                let vc = spec_visit_declarators_children(
                    old(self)@.configs(),
                    old(self)@.counters,
                    view_declarators(ds@),
                );
                final(self)@.counters == vc.0 && view_declarators(r@) == vc.1
            }),
        decreases declarators_size(view_declarators(ds@)),
    {
        proof {
            crate::ast::lemma_view_declarators_index(ds@);
        }
        if ds.len() == 0 {
            return ds;
        }
        let mut work = ds;
        let d = work.remove(0);
        proof {
            assert(work@ =~= ds@.drop_first());
            assert(view_declarators(ds@)[0] == view_declarator(d));
            assert(view_declarators(ds@).drop_first() =~= view_declarators(ds@.drop_first()));
            assert(declarators_size(view_declarators(ds@)) == 1 + declarator_size(
                view_declarator(d),
            ) + declarators_size(view_declarators(ds@).drop_first()));
        }
        let d2 = match d {
            VarDeclarator { name, init: Some(e) } => {
                let e2 = self.visit_mut_expr(e);
                VarDeclarator { name, init: Some(e2) }
            },
            other => other,
        };
        let rec = self.visit_mut_declarators_children(work);
        let ghost recv = rec@;
        let mut out = rec;
        out.insert(0, d2);
        proof {
            assert(out@ =~= seq![d2] + recv);
            crate::ast::lemma_view_declarators_index(out@);
            crate::ast::lemma_view_declarators_index(recv);
            assert(view_declarators(out@) =~= seq![view_declarator(d2)] + view_declarators(recv));
        }
        out
    }

    /// The traversal pass over an expression the engine can see into.
    pub fn visit_mut_expr(&mut self, e: Expr) -> (r: Expr)
        requires
            old(self)@.wf(),
        ensures
            final(self)@.wf(),
            final(self)@.rules == old(self)@.rules,
            final(self)@.dc_module == old(self)@.dc_module,
            final(self)@.imports == old(self)@.imports,
            ({
                let ve = spec_visit_expr(old(self)@.configs(), old(self)@.counters, view_expr(e));
                final(self)@.counters == ve.0 && view_expr(r) == ve.1
            }),
        decreases expr_size(view_expr(e)),
    {
        match e {
            Expr::FnExpr { is_async, is_generator, body } => {
                let vb = self.visit_mut_opt_body(body);
                Expr::FnExpr { is_async, is_generator, body: vb }
            },
            Expr::Object { methods } => {
                let ms2 = self.visit_mut_methods(methods, None);
                Expr::Object { methods: ms2 }
            },
            Expr::Other => Expr::Other,
        }
    }

    /// The traversal pass over the methods of a class or object.
    pub fn visit_mut_methods(&mut self, ms: Vec<MethodDef>, owner: Option<&String>) -> (r: Vec<
        MethodDef,
    >)
        requires
            old(self)@.wf(),
        ensures
            final(self)@.wf(),
            final(self)@.rules == old(self)@.rules,
            final(self)@.dc_module == old(self)@.dc_module,
            final(self)@.imports == old(self)@.imports,
            ({
                let vm = spec_visit_methods(
                    old(self)@.configs(),
                    old(self)@.counters,
                    view_methods(ms@),
                    spec_owner(owner),
                );
                final(self)@.counters == vm.0 && view_methods(r@) == vm.1
            }),
        decreases methods_size(view_methods(ms@)),
    {
        proof {
            crate::ast::lemma_view_methods_index(ms@);
        }
        if ms.len() == 0 {
            return ms;
        }
        let mut work = ms;
        let first = work.remove(0);
        proof {
            assert(work@ =~= ms@.drop_first());
            assert(view_methods(ms@)[0] == view_method(first));
            assert(view_methods(ms@).drop_first() =~= view_methods(ms@.drop_first()));
        }
        let m2 = self.visit_mut_method(first, owner);
        let rest = self.visit_mut_methods(work, owner);
        let ghost restv = rest@;
        let mut out = rest;
        out.insert(0, m2);
        proof {
            assert(out@ =~= seq![m2] + restv);
            crate::ast::lemma_view_methods_index(out@);
            crate::ast::lemma_view_methods_index(restv);
            assert(view_methods(out@) =~= seq![view_method(m2)] + view_methods(restv));
        }
        out
    }

    /// The traversal pass over one method: a candidate when its key is
    /// an identifier, descended into otherwise.
    pub fn visit_mut_method(&mut self, m: MethodDef, owner: Option<&String>) -> (r: MethodDef)
        requires
            old(self)@.wf(),
        ensures
            final(self)@.wf(),
            final(self)@.rules == old(self)@.rules,
            final(self)@.dc_module == old(self)@.dc_module,
            final(self)@.imports == old(self)@.imports,
            ({
                let vm = spec_visit_method(
                    old(self)@.configs(),
                    old(self)@.counters,
                    view_method(m),
                    spec_owner(owner),
                );
                final(self)@.counters == vm.0 && view_method(r) == vm.1
            }),
        decreases method_size(view_method(m)),
    {
        match m {
            MethodDef { name: Some(n), is_async, is_generator, body } => {
                let ev = self.eval_selected(
                    0,
                    FunctionType::Method,
                    n.as_str(),
                    owner,
                    is_async,
                    is_generator,
                );
                if ev.1 && body.is_some() {
                    let wrapped = self.wrap_selected(0, &ev.0, body.unwrap());
                    MethodDef { name: Some(n), is_async, is_generator, body: Some(wrapped) }
                } else {
                    let vb = self.visit_mut_opt_body(body);
                    MethodDef { name: Some(n), is_async, is_generator, body: vb }
                }
            },
            MethodDef { name: None, is_async, is_generator, body } => {
                let vb = self.visit_mut_opt_body(body);
                MethodDef { name: None, is_async, is_generator, body: vb }
            },
        }
    }

    /// Runs every rule's scope setup over a root body, in rule order.
    fn setup_scope_from(&mut self, i: usize, is_module: bool, body: Vec<Stmt>) -> (r: Vec<Stmt>)
        requires
            i <= old(self)@.rules.len(),
        ensures
            final(self)@.rules == old(self)@.rules,
            final(self)@.dc_module == old(self)@.dc_module,
            final(self)@.counters == old(self)@.counters,
            ({
                let su = spec_setup_scope(
                    old(self)@.rules,
                    i as int,
                    is_module,
                    0,
                    view_stmts(body@),
                    old(self)@.imports,
                );
                view_stmts(r@) == su.0 && final(self)@.imports == su.1
            }),
        decreases self.instrumentations@.len() - i,
    {
        if i >= self.instrumentations.len() {
            return body;
        }
        proof {
            assert(old(self)@.rules[i as int] == self.instrumentations@[i as int]@);
        }
        let b2 = self.instrumentations[i].ensure_scope_import(
            is_module,
            0,
            body,
            &mut self.import_state,
        );
        self.setup_scope_from(i + 1, is_module, b2)
    }

    /// One whole pass over a module: every rule's scope setup, then
    /// the traversal of the body.
    pub fn visit_mut_module(&mut self, module: Module) -> (r: Module)
        requires
            old(self)@.wf(),
        ensures
            final(self)@.wf(),
            ({
                let rr = spec_visit_root(old(self)@, true, module@);
                final(self)@ == rr.0 && r@ == rr.1
            }),
    {
        let Module { body } = module;
        let b1 = self.setup_scope_from(0, true, body);
        let b2 = self.visit_mut_stmts(b1);
        Module { body: b2 }
    }

    /// One whole pass over a script: every rule's scope setup, then
    /// the traversal of the body.
    pub fn visit_mut_script(&mut self, script: Script) -> (r: Script)
        requires
            old(self)@.wf(),
        ensures
            final(self)@.wf(),
            ({
                let rr = spec_visit_root(old(self)@, false, script@);
                final(self)@ == rr.0 && r@ == rr.1
            }),
    {
        let Script { body } = script;
        let b1 = self.setup_scope_from(0, false, body);
        let b2 = self.visit_mut_stmts(b1);
        Script { body: b2 }
    }
}

/// Holds the immutable rule set and hands out one fresh visitor per
/// tree to be instrumented.
pub struct Instrumentor {
    pub instrumentations: Vec<Instrumentation>,
    pub dc_module: String,
}

impl Instrumentor {
    /// Binds every rule of a configuration to its hook-channel module.
    pub fn new(config: Config) -> (r: Self)
        ensures
            r.dc_module@ == config.dc_module@,
            r.instrumentations@.len() == config.instrumentations@.len(),
            forall|i: int|
                0 <= i < config.instrumentations@.len() ==> (#[trigger] r.instrumentations@[i]@)
                    == (SpecInstrumentation {
                    config: config.instrumentations@[i]@,
                    dc_module: config.dc_module@,
                }),
    {
        let Config { instrumentations, dc_module } = config;
        let mut insts: Vec<Instrumentation> = Vec::new();
        let mut i: usize = 0;
        while i < instrumentations.len()
            invariant
                0 <= i <= instrumentations@.len(),
                insts@.len() == i,
                forall|j: int|
                    0 <= j < i ==> (#[trigger] insts@[j]@) == (SpecInstrumentation {
                        config: instrumentations@[j]@,
                        dc_module: dc_module@,
                    }),
            decreases instrumentations@.len() - i,
        {
            let inst = Instrumentation::new(instrumentations[i].clone(), dc_module.clone());
            insts.push(inst);
            i = i + 1;
        }
        Instrumentor { instrumentations: insts, dc_module }
    }

    /// The rules of this instrumentor that apply to the tree the fact
    /// identifies.
    pub open spec fn spec_matching(
        &self,
        absolute_path: Seq<char>,
        dependency: Option<SpecDependency>,
    ) -> Seq<SpecInstrumentation> {
        self.instrumentations@.map_values(|x: Instrumentation| x@).filter(
            |si: SpecInstrumentation|
                si.config.code_matcher.spec_matches(absolute_path, dependency),
        )
    }

    /// Hands out the visitor for one pass over the tree the fact
    /// identifies: exactly the rules whose matcher accepts the fact,
    /// in rule order, with zeroed counters and an empty scope-import
    /// state — no state is shared with any other pass.
    pub fn get_matching_instrumentations(
        &self,
        absolute_path: &String,
        dependency: Option<&Dependency>,
    ) -> (r: InstrumentationVisitor)
        ensures
            r@.rules == self.spec_matching(absolute_path@, spec_dependency_of(dependency)),
            r@.dc_module == self.dc_module@,
            r@.fresh(),
            r@.wf(),
    {
        let ghost vf = |x: Instrumentation| x@;
        let ghost pred = |si: SpecInstrumentation|
            si.config.code_matcher.spec_matches(absolute_path@, spec_dependency_of(dependency));
        let mut active: Vec<Instrumentation> = Vec::new();
        let mut i: usize = 0;
        #[verifier::loop_isolation(false)]
        while i < self.instrumentations.len()
            invariant
                0 <= i <= self.instrumentations@.len(),
                active@.map_values(vf) == self.instrumentations@.subrange(0, i as int).map_values(
                    vf,
                ).filter(pred),
            decreases self.instrumentations@.len() - i,
        {
            let ghost prefix = self.instrumentations@.subrange(0, i as int).map_values(vf);
            let ghost instv = self.instrumentations@[i as int]@;
            let hit = self.instrumentations[i].matches(absolute_path, dependency);
            if hit {
                let ghost activev = active@;
                active.push(self.instrumentations[i].clone());
                proof {
                    assert(active@.len() == activev.len() + 1);
                    assert forall|j: int| 0 <= j < active@.len() implies active@.map_values(vf)[j]
                        == activev.map_values(vf).push(instv)[j] by {
                        if j < activev.len() {
                            assert(active@[j] == activev[j]);
                        } else {
                            assert(active@[j]@ == instv);
                        }
                    }
                    assert(active@.map_values(vf) =~= activev.map_values(vf).push(instv));
                }
            }
            proof {
                reveal(Seq::filter);
                let prefix2 = self.instrumentations@.subrange(0, i + 1).map_values(vf);
                assert(prefix2.drop_last() =~= prefix);
                assert(prefix2.len() == i + 1);
                assert(self.instrumentations@.subrange(0, i + 1)[i as int]
                    == self.instrumentations@[i as int]);
                assert(prefix2[i as int] == vf(self.instrumentations@[i as int]));
                assert(prefix2.last() == instv);
                if hit {
                    assert(pred(instv));
                    assert(prefix2.filter(pred) == prefix.filter(pred).push(instv));
                } else {
                    assert(!pred(instv));
                    assert(prefix2.filter(pred) == prefix.filter(pred));
                }
            }
            i = i + 1;
        }
        proof {
            assert(self.instrumentations@.subrange(0, self.instrumentations@.len() as int)
                =~= self.instrumentations@);
            assert(active@.map_values(vf) =~= active@.map_values(|x: Instrumentation| x@));
            assert(self.instrumentations@.map_values(vf) =~= self.instrumentations@.map_values(
                |x: Instrumentation| x@,
            ));
            assert forall|si: SpecInstrumentation| #[trigger] pred(si) implies
                si.config.code_matcher.spec_matches(
                    absolute_path@,
                    spec_dependency_of(dependency),
                ) by {}
        }
        InstrumentationVisitor::new(active, self.dc_module.clone())
    }
}

/// Within a pass the traversal never re-enters a body it has wrapped:
/// the wrapper statement that retains the original body passes through
/// the walk untouched, so no re-instrumentation can occur.
pub proof fn lemma_no_reentry_wrapper(
    rules: Seq<SpecInstrumentationConfig>,
    counts: Seq<int>,
    is_async: bool,
    is_generator: bool,
    body: Seq<SpecStmt>,
)
    ensures
        spec_visit_stmt(rules, counts, SpecStmt::TracedBind { is_async, is_generator, body }) == (
            counts,
            SpecStmt::TracedBind { is_async, is_generator, body },
        ),
{
}

/// A declaration matched by the one active rule is wrapped exactly
/// once: its new body is the three-statement wrapper, whose closure
/// binding retains the original statements verbatim — they are not
/// visited again, not matched again, and not wrapped again within the
/// pass.
pub proof fn lemma_no_reentry_matched_decl(
    rules: Seq<SpecInstrumentationConfig>,
    counts: Seq<int>,
    name: Seq<char>,
    is_async: bool,
    is_generator: bool,
    body: Seq<SpecStmt>,
)
    requires
        rules.len() == 1,
        counts.len() == 1,
        FunctionQuery::spec_structural_decl(rules[0].function_query, name, is_async, is_generator),
        counts[0] == rules[0].function_query.index,
    ensures
        ({
            let w = spec_visit_stmt(
                rules,
                counts,
                SpecStmt::FnDecl { name, is_async, is_generator, body: Some(body) },
            );
            &&& w.1 == SpecStmt::FnDecl {
                name,
                is_async,
                is_generator,
                body: Some(spec_inject(rules[0], body)),
            }
            &&& spec_inject(rules[0], body)[0] == SpecStmt::TracedBind {
                is_async: rules[0].function_query.kind.spec_is_async(),
                is_generator: rules[0].function_query.kind.spec_is_generator(),
                body,
            }
        }),
{
    reveal_with_fuel(spec_eval_selected, 3);
    reveal_with_fuel(spec_wrap_from, 3);
    let q = rules[0].function_query;
    let ev = spec_eval_selected(
        rules,
        counts,
        0,
        FunctionType::FunctionDeclaration,
        name,
        None,
        is_async,
        is_generator,
    );
    assert(spec_select(q.index, counts[0], true).0);
    assert(ev.2 && ev.1 == seq![true] + Seq::<bool>::empty());
    assert(ev.1[0]);
    assert(spec_wrap_from(rules, ev.1, 0, body) == spec_wrap_from(
        rules,
        ev.1,
        1,
        spec_inject(rules[0], body),
    ));
}


/// The walk phase never touches the scope-setup statements: a pass's
/// traversal leaves the number of import statements, and of
/// channel-handle statements per channel name, exactly as the scope
/// setup left them.
proof fn lemma_walk_preserves_scope_stmts(
    rules: Seq<SpecInstrumentationConfig>,
    counts: Seq<int>,
    stmts: Seq<SpecStmt>,
)
    ensures
        ({
            let w = spec_visit_stmts(rules, counts, stmts);
            &&& count_imports(w.1) == count_imports(stmts)
            &&& forall|ch: Seq<char>| #[trigger]
                count_handles(w.1, ch) == count_handles(stmts, ch)
        }),
    decreases stmts.len(),
{
    if stmts.len() > 0 {
        let head = spec_visit_stmt(rules, counts, stmts[0]);
        let rest = spec_visit_stmts(rules, head.0, stmts.drop_first());
        lemma_walk_preserves_scope_stmts(rules, head.0, stmts.drop_first());
        let w = spec_visit_stmts(rules, counts, stmts);
        assert(w.1 == seq![head.1] + rest.1);
        assert((seq![head.1] + rest.1).drop_first() =~= rest.1);
        // A statement keeps its kind through the walk: an import, a
        // require or a channel handle passes through unchanged, and a
        // rewritten candidate is still no scope-setup statement.
        assert((head.1 is Import || head.1 is Require) == (stmts[0] is Import || stmts[0]
            is Require));
        assert(w.1[0] == head.1);
        assert(count_imports(w.1) == (if head.1 is Import || head.1 is Require {
            1int
        } else {
            0int
        }) + count_imports(rest.1));
        assert forall|ch: Seq<char>| #[trigger]
            count_handles(w.1, ch) == count_handles(stmts, ch) by {
            assert((head.1 is ChannelHandle && head.1->ChannelHandle_channel_name == ch) == (
            stmts[0] is ChannelHandle && stmts[0]->ChannelHandle_channel_name == ch));
            assert(count_handles(w.1, ch) == (if head.1 is ChannelHandle
                && head.1->ChannelHandle_channel_name == ch {
                1int
            } else {
                0int
            }) + count_handles(rest.1, ch));
            assert(count_handles(stmts, ch) == (if stmts[0] is ChannelHandle
                && stmts[0]->ChannelHandle_channel_name == ch {
                1int
            } else {
                0int
            }) + count_handles(stmts.drop_first(), ch));
        }
    }
}

/// The scope-setup fold keeps body and state in step: a scope holds
/// exactly one import when the state records one and none otherwise,
/// and likewise one handle per recorded (scope, channel) pair; and
/// after the fold every remaining rule's import and channel are
/// recorded.
proof fn lemma_setup_scope_counts(
    rules: Seq<SpecInstrumentation>,
    i: int,
    is_module: bool,
    scope: int,
    body: Seq<SpecStmt>,
    st: SpecImportState,
)
    requires
        0 <= i <= rules.len(),
        count_imports(body) == (if st.has_import(scope) {
            1int
        } else {
            0int
        }),
        forall|ch: Seq<char>| #[trigger]
            count_handles(body, ch) == (if st.has_channel(scope, ch) {
                1int
            } else {
                0int
            }),
    ensures
        ({
            let e = spec_setup_scope(rules, i, is_module, scope, body, st);
            &&& count_imports(e.0) == (if e.1.has_import(scope) {
                1int
            } else {
                0int
            })
            &&& forall|ch: Seq<char>| #[trigger]
                count_handles(e.0, ch) == (if e.1.has_channel(scope, ch) {
                    1int
                } else {
                    0int
                })
            &&& (i < rules.len() ==> e.1.has_import(scope))
            &&& forall|j: int|
                i <= j < rules.len() ==> e.1.has_channel(
                    scope,
                    (#[trigger] rules[j]).config.channel_name,
                )
        }),
    decreases rules.len() - i,
{
    if i < rules.len() {
        let rule = rules[i].config;
        let dc = rules[i].dc_module;
        let step = spec_ensure_scope(rule, dc, is_module, scope, body, st);
        let start = spec_start_index(body);
        let imp = spec_import_stmt(dc, is_module);
        let b1 = if st.has_import(scope) {
            body
        } else {
            body.insert(start, imp)
        };
        let s1 = if st.has_import(scope) {
            st
        } else {
            st.record_import(scope)
        };
        if !st.has_import(scope) {
            lemma_count_imports_insert(body, start, imp);
            assert(s1.imported[s1.imported.len() - 1] == scope);
        }
        assert(s1.has_import(scope));
        assert(count_imports(b1) == 1);
        assert forall|ch: Seq<char>| #[trigger]
            count_handles(b1, ch) == (if s1.has_channel(scope, ch) {
                1int
            } else {
                0int
            }) by {
            if !st.has_import(scope) {
                lemma_count_handles_insert(body, start, imp, ch);
            }
        }
        let pos = if start < b1.len() {
            start + 1
        } else {
            b1.len() as int
        };
        let han = spec_channel_stmt(rule);
        let b2 = if s1.has_channel(scope, rule.channel_name) {
            b1
        } else {
            b1.insert(pos, han)
        };
        let s2 = if s1.has_channel(scope, rule.channel_name) {
            s1
        } else {
            s1.record_channel(scope, rule.channel_name)
        };
        if !s1.has_channel(scope, rule.channel_name) {
            lemma_count_imports_insert(b1, pos, han);
            assert(s2.channels[s2.channels.len() - 1] == (scope, rule.channel_name));
        }
        assert(s2.has_import(scope));
        assert(s2.has_channel(scope, rule.channel_name));
        assert(count_imports(b2) == 1);
        assert forall|ch: Seq<char>| #[trigger]
            count_handles(b2, ch) == (if s2.has_channel(scope, ch) {
                1int
            } else {
                0int
            }) by {
            assert(count_handles(b1, ch) == (if s1.has_channel(scope, ch) {
                1int
            } else {
                0int
            }));
            if !s1.has_channel(scope, rule.channel_name) {
                lemma_count_handles_insert(b1, pos, han, ch);
                if ch == rule.channel_name {
                    assert(s2.has_channel(scope, ch));
                } else {
                    if s2.has_channel(scope, ch) {
                        assert(s1.channels.contains((scope, ch))) by {
                            let k = choose|k: int|
                                0 <= k < s2.channels.len() && s2.channels[k] == (scope, ch);
                            assert(s1.channels[k] == (scope, ch));
                        }
                    }
                    if s1.has_channel(scope, ch) {
                        assert(s2.channels.contains((scope, ch))) by {
                            let k = choose|k: int|
                                0 <= k < s1.channels.len() && s1.channels[k] == (scope, ch);
                            assert(s2.channels[k] == (scope, ch));
                        }
                    }
                }
            }
        }
        assert((b2, s2) == step);
        lemma_setup_scope_counts(rules, i + 1, is_module, scope, b2, s2);
        let e = spec_setup_scope(rules, i + 1, is_module, scope, b2, s2);
        assert forall|j: int|
            i <= j < rules.len() implies e.1.has_channel(
            scope,
            (#[trigger] rules[j]).config.channel_name,
        ) by {
            if j == i {
                lemma_setup_scope_monotonic(rules, i + 1, is_module, scope, b2, s2, scope,
                rule.channel_name);
            }
        }
        assert(e.1.has_import(scope)) by {
            lemma_setup_scope_monotonic_import(rules, i + 1, is_module, scope, b2, s2, scope);
        }
    }
}

/// A recorded (scope, channel) pair stays recorded through the rest of
/// the scope-setup fold.
proof fn lemma_setup_scope_monotonic(
    rules: Seq<SpecInstrumentation>,
    i: int,
    is_module: bool,
    scope: int,
    body: Seq<SpecStmt>,
    st: SpecImportState,
    qscope: int,
    qchannel: Seq<char>,
)
    requires
        st.has_channel(qscope, qchannel),
    ensures
        spec_setup_scope(rules, i, is_module, scope, body, st).1.has_channel(qscope, qchannel),
    decreases rules.len() - i,
{
    if 0 <= i < rules.len() {
        let step = spec_ensure_scope(rules[i].config, rules[i].dc_module, is_module, scope,
        body, st);
        assert(step.1.has_channel(qscope, qchannel)) by {
            let k = choose|k: int|
                0 <= k < st.channels.len() && st.channels[k] == (qscope, qchannel);
            assert(step.1.channels[k] == (qscope, qchannel));
        }
        lemma_setup_scope_monotonic(rules, i + 1, is_module, scope, step.0, step.1, qscope,
        qchannel);
    }
}

/// A recorded scope import stays recorded through the rest of the
/// scope-setup fold.
proof fn lemma_setup_scope_monotonic_import(
    rules: Seq<SpecInstrumentation>,
    i: int,
    is_module: bool,
    scope: int,
    body: Seq<SpecStmt>,
    st: SpecImportState,
    qscope: int,
)
    requires
        st.has_import(qscope),
    ensures
        spec_setup_scope(rules, i, is_module, scope, body, st).1.has_import(qscope),
    decreases rules.len() - i,
{
    if 0 <= i < rules.len() {
        let step = spec_ensure_scope(rules[i].config, rules[i].dc_module, is_module, scope,
        body, st);
        assert(step.1.has_import(qscope)) by {
            let k = choose|k: int|
                0 <= k < st.imported.len() && st.imported[k] == qscope;
            assert(step.1.imported[k] == qscope);
        }
        lemma_setup_scope_monotonic_import(rules, i + 1, is_module, scope, step.0, step.1,
        qscope);
    }
}

/// Idempotent scope setup, seen from a whole pass: one pass over a
/// root that held no import and no channel handle leaves exactly one
/// import statement in it, and exactly one channel-handle statement
/// for each channel name among the active rules — however many rules
/// share the scope or the channel name.
pub proof fn lemma_root_scope_setup_once(v: SpecVisitor, is_module: bool, body: Seq<SpecStmt>)
    requires
        v.fresh(),
        v.rules.len() > 0,
        count_imports(body) == 0,
        forall|ch: Seq<char>| #[trigger] count_handles(body, ch) == 0,
    ensures
        ({
            let rr = spec_visit_root(v, is_module, body);
            &&& count_imports(rr.1) == 1
            &&& forall|j: int|
                0 <= j < v.rules.len() ==> count_handles(
                    rr.1,
                    (#[trigger] v.rules[j]).config.channel_name,
                ) == 1
        }),
{
    let su = spec_setup_scope(v.rules, 0, is_module, 0, body, v.imports);
    lemma_setup_scope_counts(v.rules, 0, is_module, 0, body, v.imports);
    lemma_walk_preserves_scope_stmts(v.configs(), v.counters, su.0);
}

/// Pass isolation: a visitor's outcome is a function of its rules, its
/// module name, and the tree alone.  Two fresh visitors over the same
/// rule set — as [`Instrumentor::get_matching_instrumentations`] hands
/// them out, one per pass — produce identical passes on identical
/// trees: no counter or import state can leak from one pass into the
/// next.
pub proof fn lemma_pass_isolation(
    v1: SpecVisitor,
    v2: SpecVisitor,
    is_module: bool,
    body: Seq<SpecStmt>,
)
    requires
        v1.rules == v2.rules,
        v1.dc_module == v2.dc_module,
        v1.fresh(),
        v2.fresh(),
    ensures
        spec_visit_root(v1, is_module, body) == spec_visit_root(v2, is_module, body),
{
    assert(v1.counters =~= v2.counters);
    assert(v1 =~= v2);
}

} // verus!

