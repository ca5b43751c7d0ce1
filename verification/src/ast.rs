//! The engine's view of a syntax tree.
//!
//! The node kinds the engine reads or mutates form a small, fixed set,
//! so they are modelled as a closed tagged union: top-level roots
//! (module or script), the three candidate shapes (function
//! declarations, named function expressions reached through variable
//! declarators and assignments, and methods of classes or object
//! literals), and the statements the engine itself inserts (the
//! hook-channel import, the channel handle, and the three-statement
//! wrapper that replaces a matched body).  Everything else is opaque.
//!
//! Each executable type has a mathematical mirror over `Seq`, and the
//! `view_*` functions relate the two.

use crate::config::InstrumentationOperator;
use vstd::prelude::*;

verus! {

/// The mathematical content of a [`MethodDef`].
pub struct SpecMethodDef {
    pub name: Option<Seq<char>>,
    pub is_async: bool,
    pub is_generator: bool,
    pub body: Option<Seq<SpecStmt>>,
}

/// The mathematical content of a [`VarDeclarator`].
pub struct SpecVarDeclarator {
    pub name: Option<Seq<char>>,
    pub init: Option<SpecExpr>,
}

/// The mathematical content of an [`Expr`].
pub enum SpecExpr {
    FnExpr { is_async: bool, is_generator: bool, body: Option<Seq<SpecStmt>> },
    Object { methods: Seq<SpecMethodDef> },
    Other,
}

/// The mathematical content of a [`Stmt`].
pub enum SpecStmt {
    Directive { value: Seq<char> },
    Import { module: Seq<char> },
    Require { module: Seq<char> },
    ChannelHandle { channel_name: Seq<char>, module_name: Seq<char> },
    FnDecl { name: Seq<char>, is_async: bool, is_generator: bool, body: Option<Seq<SpecStmt>> },
    VarDecl { decls: Seq<SpecVarDeclarator> },
    Assign { target: Option<Seq<char>>, value: SpecExpr },
    ClassDecl { name: Seq<char>, methods: Seq<SpecMethodDef> },
    TracedBind { is_async: bool, is_generator: bool, body: Seq<SpecStmt> },
    SubscriberCheck { channel_name: Seq<char> },
    TraceCall { channel_name: Seq<char>, operator: InstrumentationOperator },
    Other,
}

/// A method member of a class or of an object literal.  `name` is
/// `None` for a computed key, which is never a candidate.
#[derive(Debug, PartialEq, Eq)]
pub struct MethodDef {
    pub name: Option<String>,
    pub is_async: bool,
    pub is_generator: bool,
    pub body: Option<Vec<Stmt>>,
}

/// One declarator of a variable declaration.  `name` is `None` for a
/// destructuring pattern, whose functions are invisible to queries.
#[derive(Debug, PartialEq, Eq)]
pub struct VarDeclarator {
    pub name: Option<String>,
    pub init: Option<Expr>,
}

/// An expression position the engine can see into.
#[derive(Debug, PartialEq, Eq)]
pub enum Expr {
    /// An anonymous function expression; a name for it, when one can be
    /// inferred, is supplied by the surrounding declarator or
    /// assignment target.
    FnExpr { is_async: bool, is_generator: bool, body: Option<Vec<Stmt>> },
    /// An object literal, whose method members are candidates.
    Object { methods: Vec<MethodDef> },
    /// Any other expression: opaque, never descended into.
    Other,
}

/// A statement of a module or script body, or of a function body.
#[derive(Debug, PartialEq, Eq)]
pub enum Stmt {
    /// A directive-prologue statement such as a strict-mode marker.
    Directive { value: String },
    /// The hook-channel import inserted into a module scope.
    Import { module: String },
    /// The hook-channel require statement inserted into a script scope.
    Require { module: String },
    /// The channel-handle statement inserted once per channel name.
    ChannelHandle { channel_name: String, module_name: String },
    /// A function declaration.
    FnDecl { name: String, is_async: bool, is_generator: bool, body: Option<Vec<Stmt>> },
    /// A variable declaration with its declarators.
    VarDecl { decls: Vec<VarDeclarator> },
    /// An assignment; `target` is the inferred name when the left side
    /// is a plain identifier or a property with an identifier key.
    Assign { target: Option<String>, value: Expr },
    /// A class declaration with its methods.
    ClassDecl { name: String, methods: Vec<MethodDef> },
    /// Binds the wrapped original body to a local closure that keeps
    /// the original's async-ness and generator-ness.  Inserted by the
    /// engine; its body is never traversed again in the same pass.
    TracedBind { is_async: bool, is_generator: bool, body: Vec<Stmt> },
    /// Returns the wrapped closure's result directly when the channel
    /// has no subscribers.
    SubscriberCheck { channel_name: String },
    /// Invokes the channel's operator-selected entry point with the
    /// wrapped closure, the original arguments and the receiver.
    TraceCall { channel_name: String, operator: InstrumentationOperator },
    /// Any other statement: opaque, never descended into.
    Other,
}

/// A module-scope tree root.
#[derive(Debug, PartialEq, Eq)]
pub struct Module {
    pub body: Vec<Stmt>,
}

/// A script-scope tree root.
#[derive(Debug, PartialEq, Eq)]
pub struct Script {
    pub body: Vec<Stmt>,
}

pub open spec fn view_opt_stmts(body: Option<Vec<Stmt>>) -> Option<Seq<SpecStmt>>
    decreases body,
{
    match body {
        Some(b) => Some(view_stmts(b@)),
        None => None,
    }
}

pub open spec fn view_stmts(s: Seq<Stmt>) -> Seq<SpecStmt>
    decreases s,
{
    if s.len() == 0 {
        Seq::empty()
    } else {
        seq![view_stmt(s[0])] + view_stmts(s.drop_first())
    }
}

pub open spec fn view_stmt(s: Stmt) -> SpecStmt
    decreases s,
{
    match s {
        Stmt::Directive { value } => SpecStmt::Directive { value: value@ },
        Stmt::Import { module } => SpecStmt::Import { module: module@ },
        Stmt::Require { module } => SpecStmt::Require { module: module@ },
        Stmt::ChannelHandle { channel_name, module_name } => SpecStmt::ChannelHandle {
            channel_name: channel_name@,
            module_name: module_name@,
        },
        Stmt::FnDecl { name, is_async, is_generator, body } => SpecStmt::FnDecl {
            name: name@,
            is_async,
            is_generator,
            body: view_opt_stmts(body),
        },
        Stmt::VarDecl { decls } => SpecStmt::VarDecl { decls: view_declarators(decls@) },
        Stmt::Assign { target, value } => SpecStmt::Assign {
            target: match target {
                Some(t) => Some(t@),
                None => None,
            },
            value: view_expr(value),
        },
        Stmt::ClassDecl { name, methods } => SpecStmt::ClassDecl {
            name: name@,
            methods: view_methods(methods@),
        },
        Stmt::TracedBind { is_async, is_generator, body } => SpecStmt::TracedBind {
            is_async,
            is_generator,
            body: view_stmts(body@),
        },
        Stmt::SubscriberCheck { channel_name } => SpecStmt::SubscriberCheck {
            channel_name: channel_name@,
        },
        Stmt::TraceCall { channel_name, operator } => SpecStmt::TraceCall {
            channel_name: channel_name@,
            operator,
        },
        Stmt::Other => SpecStmt::Other,
    }
}

pub open spec fn view_expr(e: Expr) -> SpecExpr
    decreases e,
{
    match e {
        Expr::FnExpr { is_async, is_generator, body } => SpecExpr::FnExpr {
            is_async,
            is_generator,
            body: view_opt_stmts(body),
        },
        Expr::Object { methods } => SpecExpr::Object { methods: view_methods(methods@) },
        Expr::Other => SpecExpr::Other,
    }
}

pub open spec fn view_method(m: MethodDef) -> SpecMethodDef
    decreases m,
{
    SpecMethodDef {
        name: match m.name {
            Some(n) => Some(n@),
            None => None,
        },
        is_async: m.is_async,
        is_generator: m.is_generator,
        body: view_opt_stmts(m.body),
    }
}

pub open spec fn view_methods(ms: Seq<MethodDef>) -> Seq<SpecMethodDef>
    decreases ms,
{
    if ms.len() == 0 {
        Seq::empty()
    } else {
        seq![view_method(ms[0])] + view_methods(ms.drop_first())
    }
}

pub open spec fn view_declarator(d: VarDeclarator) -> SpecVarDeclarator
    decreases d,
{
    SpecVarDeclarator {
        name: match d.name {
            Some(n) => Some(n@),
            None => None,
        },
        init: match d.init {
            Some(e) => Some(view_expr(e)),
            None => None,
        },
    }
}

pub open spec fn view_declarators(ds: Seq<VarDeclarator>) -> Seq<SpecVarDeclarator>
    decreases ds,
{
    if ds.len() == 0 {
        Seq::empty()
    } else {
        seq![view_declarator(ds[0])] + view_declarators(ds.drop_first())
    }
}

impl View for Module {
    type V = Seq<SpecStmt>;

    open spec fn view(&self) -> Seq<SpecStmt> {
        view_stmts(self.body@)
    }
}

impl View for Script {
    type V = Seq<SpecStmt>;

    open spec fn view(&self) -> Seq<SpecStmt> {
        view_stmts(self.body@)
    }
}

/// The size measures below order every node strictly above the parts
/// the traversal descends into; the traversal functions terminate by
/// them.  A wrapper's retained body is deliberately not counted: the
/// traversal never descends into it.
pub open spec fn stmts_size(s: Seq<SpecStmt>) -> nat
    decreases s,
{
    if s.len() == 0 {
        1
    } else {
        1 + stmt_size(s[0]) + stmts_size(s.drop_first())
    }
}

pub open spec fn opt_body_size(b: Option<Seq<SpecStmt>>) -> nat
    decreases b,
{
    match b {
        Some(s) => 1 + stmts_size(s),
        None => 1,
    }
}

pub open spec fn stmt_size(s: SpecStmt) -> nat
    decreases s,
{
    match s {
        SpecStmt::FnDecl { body, .. } => 1 + opt_body_size(body),
        SpecStmt::VarDecl { decls } => 1 + declarators_size(decls),
        SpecStmt::Assign { value, .. } => 1 + expr_size(value),
        SpecStmt::ClassDecl { methods, .. } => 1 + methods_size(methods),
        _ => 1,
    }
}

pub open spec fn expr_size(e: SpecExpr) -> nat
    decreases e,
{
    match e {
        SpecExpr::FnExpr { body, .. } => 1 + opt_body_size(body),
        SpecExpr::Object { methods } => 1 + methods_size(methods),
        SpecExpr::Other => 1,
    }
}

pub open spec fn method_size(m: SpecMethodDef) -> nat
    decreases m,
{
    1 + opt_body_size(m.body)
}

pub open spec fn methods_size(ms: Seq<SpecMethodDef>) -> nat
    decreases ms,
{
    if ms.len() == 0 {
        1
    } else {
        1 + method_size(ms[0]) + methods_size(ms.drop_first())
    }
}

pub open spec fn declarator_size(d: SpecVarDeclarator) -> nat
    decreases d,
{
    match d.init {
        Some(e) => 1 + expr_size(e),
        None => 1,
    }
}

pub open spec fn declarators_size(ds: Seq<SpecVarDeclarator>) -> nat
    decreases ds,
{
    if ds.len() == 0 {
        1
    } else {
        1 + declarator_size(ds[0]) + declarators_size(ds.drop_first())
    }
}

/// The statement-sequence view acts pointwise.
pub proof fn lemma_view_stmts_index(s: Seq<Stmt>)
    ensures
        view_stmts(s).len() == s.len(),
        forall|i: int| 0 <= i < s.len() ==> view_stmts(s)[i] == view_stmt(s[i]),
    decreases s,
{
    if s.len() > 0 {
        lemma_view_stmts_index(s.drop_first());
    }
}

/// The method-sequence view acts pointwise.
pub proof fn lemma_view_methods_index(ms: Seq<MethodDef>)
    ensures
        view_methods(ms).len() == ms.len(),
        forall|i: int| 0 <= i < ms.len() ==> view_methods(ms)[i] == view_method(ms[i]),
    decreases ms,
{
    if ms.len() > 0 {
        lemma_view_methods_index(ms.drop_first());
    }
}

/// The declarator-sequence view acts pointwise.
pub proof fn lemma_view_declarators_index(ds: Seq<VarDeclarator>)
    ensures
        view_declarators(ds).len() == ds.len(),
        forall|i: int| 0 <= i < ds.len() ==> view_declarators(ds)[i] == view_declarator(ds[i]),
    decreases ds,
{
    if ds.len() > 0 {
        lemma_view_declarators_index(ds.drop_first());
    }
}

/// Viewing distributes over inserting one statement.
pub proof fn lemma_view_stmts_insert(s: Seq<Stmt>, i: int, x: Stmt)
    requires
        0 <= i <= s.len(),
    ensures
        view_stmts(s.insert(i, x)) == view_stmts(s).insert(i, view_stmt(x)),
{
    lemma_view_stmts_index(s);
    lemma_view_stmts_index(s.insert(i, x));
    assert(view_stmts(s.insert(i, x)) =~= view_stmts(s).insert(i, view_stmt(x)));
}

} // verus!
