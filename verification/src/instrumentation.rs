//! The injection engine: how one rule mutates a matched function body,
//! and how the hook-channel import and channel handles are set up
//! exactly once per scope within a traversal pass.

use crate::ast::{
    lemma_view_stmts_index, lemma_view_stmts_insert, view_stmt, view_stmts, SpecStmt, Stmt,
};
use crate::config::{
    Dependency, InstrumentationConfig, SpecInstrumentationConfig, spec_dependency_of,
};
use vstd::prelude::*;

verus! {

/// The mathematical content of a [`ScopeImportState`].
pub struct SpecImportState {
    pub imported: Seq<int>,
    pub channels: Seq<(int, Seq<char>)>,
}

impl SpecImportState {
    pub open spec fn empty() -> Self {
        SpecImportState { imported: Seq::empty(), channels: Seq::empty() }
    }

    pub open spec fn has_import(self, scope: int) -> bool {
        self.imported.contains(scope)
    }

    pub open spec fn has_channel(self, scope: int, channel: Seq<char>) -> bool {
        self.channels.contains((scope, channel))
    }

    pub open spec fn record_import(self, scope: int) -> Self {
        SpecImportState { imported: self.imported.push(scope), channels: self.channels }
    }

    pub open spec fn record_channel(self, scope: int, channel: Seq<char>) -> Self {
        SpecImportState { imported: self.imported, channels: self.channels.push((scope, channel)) }
    }
}

/// Records, for the current traversal pass only, which scopes already
/// received the hook-channel import and which (scope, channel-name)
/// pairs already received their channel-handle statement.  Scopes are
/// keyed by a pass-local identifier, never by node identity, and the
/// state is dropped with the pass.
pub struct ScopeImportState {
    imported: Vec<usize>,
    channels: Vec<(usize, String)>,
}

impl View for ScopeImportState {
    type V = SpecImportState;

    closed spec fn view(&self) -> SpecImportState {
        SpecImportState {
            imported: self.imported@.map_values(|s: usize| s as int),
            channels: self.channels@.map_values(|c: (usize, String)| (c.0 as int, c.1@)),
        }
    }
}

impl ScopeImportState {
    /// A fresh state: nothing recorded yet.
    pub fn new() -> (r: Self)
        ensures
            r@ == SpecImportState::empty(),
    {
        let r = ScopeImportState { imported: Vec::new(), channels: Vec::new() };
        proof {
            assert(r@.imported =~= SpecImportState::empty().imported);
            assert(r@.channels =~= SpecImportState::empty().channels);
        }
        r
    }

    /// Whether the given scope already received the import.
    pub fn has_import(&self, scope: usize) -> (r: bool)
        ensures
            r == self@.has_import(scope as int),
    {
        let ghost views = self@.imported;
        let mut i: usize = 0;
        while i < self.imported.len()
            invariant
                0 <= i <= self.imported.len(),
                views == self.imported@.map_values(|s: usize| s as int),
                forall|j: int| 0 <= j < i ==> views[j] != scope as int,
            decreases self.imported.len() - i,
        {
            if self.imported[i] == scope {
                assert(views[i as int] == scope as int);
                return true;
            }
            i = i + 1;
        }
        false
    }

    /// Records that the given scope received the import.
    pub fn record_import(&mut self, scope: usize)
        ensures
            final(self)@ == old(self)@.record_import(scope as int),
    {
        self.imported.push(scope);
        proof {
            assert(self@.imported =~= old(self)@.imported.push(scope as int));
        }
    }

    /// Whether the given (scope, channel-name) pair already received
    /// its channel-handle statement.
    pub fn has_channel(&self, scope: usize, channel: &String) -> (r: bool)
        ensures
            r == self@.has_channel(scope as int, channel@),
    {
        let ghost views = self@.channels;
        let mut i: usize = 0;
        while i < self.channels.len()
            invariant
                0 <= i <= self.channels.len(),
                views == self.channels@.map_values(|c: (usize, String)| (c.0 as int, c.1@)),
                forall|j: int| 0 <= j < i ==> views[j] != (scope as int, channel@),
            decreases self.channels.len() - i,
        {
            if self.channels[i].0 == scope && self.channels[i].1 == *channel {
                assert(views[i as int] == (scope as int, channel@));
                return true;
            }
            i = i + 1;
        }
        false
    }

    /// Records that the given (scope, channel-name) pair received its
    /// channel-handle statement.
    pub fn record_channel(&mut self, scope: usize, channel: &String)
        ensures
            final(self)@ == old(self)@.record_channel(scope as int, channel@),
    {
        self.channels.push((scope, channel.clone()));
        proof {
            assert(self@.channels =~= old(self)@.channels.push((scope as int, channel@)));
        }
    }
}

/// The mathematical content of an [`Instrumentation`].
pub struct SpecInstrumentation {
    pub config: SpecInstrumentationConfig,
    pub dc_module: Seq<char>,
}

/// The three statements that replace a matched body: bind the wrapped
/// original to a local closure that keeps the query's async-ness and
/// generator-ness, return its result directly when the channel has no
/// subscribers, and otherwise invoke the operator-selected entry point
/// with the closure, the original arguments and the receiver.
pub open spec fn spec_inject(rule: SpecInstrumentationConfig, body: Seq<SpecStmt>) -> Seq<
    SpecStmt,
> {
    seq![
        SpecStmt::TracedBind {
            is_async: rule.function_query.kind.spec_is_async(),
            is_generator: rule.function_query.kind.spec_is_generator(),
            body,
        },
        SpecStmt::SubscriberCheck { channel_name: rule.channel_name },
        SpecStmt::TraceCall { channel_name: rule.channel_name, operator: rule.operator },
    ]
}

/// The import statement a rule inserts at the top of a scope: an
/// import declaration in a module, an equivalent require statement in
/// a script.
pub open spec fn spec_import_stmt(dc_module: Seq<char>, is_module: bool) -> SpecStmt {
    if is_module {
        SpecStmt::Import { module: dc_module }
    } else {
        SpecStmt::Require { module: dc_module }
    }
}

/// The channel-handle statement a rule inserts after the import.
pub open spec fn spec_channel_stmt(rule: SpecInstrumentationConfig) -> SpecStmt {
    SpecStmt::ChannelHandle {
        channel_name: rule.channel_name,
        module_name: rule.code_matcher.spec_module_label(),
    }
}

/// Where scope-level insertions start: after a leading strict-mode
/// directive, which must remain first, and at the very top otherwise.
pub open spec fn spec_start_index(body: Seq<SpecStmt>) -> int {
    if body.len() > 0 && body[0] is Directive && body[0]->Directive_value == "use strict"@ {
        1
    } else {
        0
    }
}

/// One rule's scope setup: insert the import unless this pass already
/// put one in this scope, then insert the channel-handle statement
/// immediately after the import unless this pass already put one for
/// this channel name in this scope.  Both decisions consult and update
/// the pass's [`SpecImportState`], never the tree.
pub open spec fn spec_ensure_scope(
    rule: SpecInstrumentationConfig,
    dc_module: Seq<char>,
    is_module: bool,
    scope: int,
    body: Seq<SpecStmt>,
    st: SpecImportState,
) -> (Seq<SpecStmt>, SpecImportState) {
    let start = spec_start_index(body);
    let (b1, s1) = if st.has_import(scope) {
        (body, st)
    } else {
        (body.insert(start, spec_import_stmt(dc_module, is_module)), st.record_import(scope))
    };
    let pos = if start < b1.len() {
        start + 1
    } else {
        b1.len() as int
    };
    if s1.has_channel(scope, rule.channel_name) {
        (b1, s1)
    } else {
        (b1.insert(pos, spec_channel_stmt(rule)), s1.record_channel(scope, rule.channel_name))
    }
}

/// One rule, bound to the hook-channel module name of its rule set;
/// knows how to decide whether it applies to a tree, how to mutate a
/// matched body, and how to set up its scope imports.
pub struct Instrumentation {
    pub config: InstrumentationConfig,
    pub dc_module: String,
}

impl View for Instrumentation {
    type V = SpecInstrumentation;

    open spec fn view(&self) -> SpecInstrumentation {
        SpecInstrumentation { config: self.config@, dc_module: self.dc_module@ }
    }
}

impl Clone for Instrumentation {
    /// The clone carries the same content as the original.
    fn clone(&self) -> (r: Self)
        ensures
            r@ == self@,
    {
        Instrumentation { config: self.config.clone(), dc_module: self.dc_module.clone() }
    }
}

impl Instrumentation {
    pub fn new(config: InstrumentationConfig, dc_module: String) -> (r: Self)
        ensures
            r@ == (SpecInstrumentation { config: config@, dc_module: dc_module@ }),
    {
        Self { config, dc_module }
    }

    /// Whether this rule applies to the tree identified by the fact.
    pub fn matches(&self, absolute_path: &String, dependency: Option<&Dependency>) -> (r: bool)
        ensures
            r == self@.config.code_matcher.spec_matches(
                absolute_path@,
                spec_dependency_of(dependency),
            ),
    {
        self.config.matches(absolute_path, dependency)
    }

    /// Whether the current pass already gave the module scope its
    /// import, as recorded in the pass's state.
    pub fn module_already_has_import(&self, scope: usize, state: &ScopeImportState) -> (r: bool)
        ensures
            r == state@.has_import(scope as int),
    {
        state.has_import(scope)
    }

    /// Whether the current pass already gave the script scope its
    /// require statement, as recorded in the pass's state.
    pub fn script_already_has_require(&self, scope: usize, state: &ScopeImportState) -> (r: bool)
        ensures
            r == state@.has_import(scope as int),
    {
        state.has_import(scope)
    }

    /// Where scope-level insertions start: a leading strict-mode
    /// directive stays first.
    pub fn get_script_start_index(&self, body: &Vec<Stmt>) -> (r: usize)
        ensures
            r as int == spec_start_index(view_stmts(body@)),
    {
        proof {
            lemma_view_stmts_index(body@);
        }
        if body.len() > 0 {
            if let Stmt::Directive { value } = &body[0] {
                if *value == String::from_str("use strict") {
                    return 1;
                }
            }
        }
        0
    }

    /// Wraps a body into the local closure statement that keeps the
    /// query's async-ness and generator-ness.
    pub fn new_fn(&self, body: Vec<Stmt>) -> (r: Stmt)
        ensures
            view_stmt(r) == (SpecStmt::TracedBind {
                is_async: self@.config.function_query.kind.spec_is_async(),
                is_generator: self@.config.function_query.kind.spec_is_generator(),
                body: view_stmts(body@),
            }),
    {
        Stmt::TracedBind {
            is_async: self.config.function_query.kind.is_async(),
            is_generator: self.config.function_query.kind.is_generator(),
            body,
        }
    }

    /// The channel-handle statement for this rule's channel.
    pub fn create_tracing_channel(&self) -> (r: Stmt)
        ensures
            view_stmt(r) == spec_channel_stmt(self@.config),
    {
        Stmt::ChannelHandle {
            channel_name: self.config.channel_name.clone(),
            module_name: self.config.code_matcher.module_label(),
        }
    }

    /// Replaces a matched body with the three-statement wrapper; the
    /// original body survives verbatim inside the closure binding.
    pub fn insert_tracing(&self, body: Vec<Stmt>) -> (r: Vec<Stmt>)
        ensures
            view_stmts(r@) == spec_inject(self@.config, view_stmts(body@)),
    {
        let ghost b = view_stmts(body@);
        let mut r: Vec<Stmt> = Vec::new();
        r.push(self.new_fn(body));
        r.push(Stmt::SubscriberCheck { channel_name: self.config.channel_name.clone() });
        r.push(
            Stmt::TraceCall {
                channel_name: self.config.channel_name.clone(),
                operator: self.config.operator,
            },
        );
        proof {
            lemma_view_stmts_index(r@);
            assert(view_stmts(r@) =~= spec_inject(self@.config, b));
        }
        r
    }

    /// Sets up this rule's scope: the import exactly once per scope,
    /// the channel handle exactly once per (scope, channel name),
    /// consulting and updating the pass's state.
    pub fn ensure_scope_import(
        &self,
        is_module: bool,
        scope: usize,
        body: Vec<Stmt>,
        state: &mut ScopeImportState,
    ) -> (r: Vec<Stmt>)
        ensures
            (view_stmts(r@), final(state)@) == spec_ensure_scope(
                self@.config,
                self@.dc_module,
                is_module,
                scope as int,
                view_stmts(body@),
                old(state)@,
            ),
    {
        let ghost b0 = view_stmts(body@);
        proof {
            lemma_view_stmts_index(body@);
        }
        let start = self.get_script_start_index(&body);
        let mut body = body;
        if !state.has_import(scope) {
            let import = if is_module {
                Stmt::Import { module: self.dc_module.clone() }
            } else {
                Stmt::Require { module: self.dc_module.clone() }
            };
            proof {
                lemma_view_stmts_insert(body@, start as int, import);
            }
            body.insert(start, import);
            state.record_import(scope);
        }
        let pos = if start < body.len() {
            start + 1
        } else {
            body.len()
        };
        if !state.has_channel(scope, &self.config.channel_name) {
            let handle = self.create_tracing_channel();
            proof {
                lemma_view_stmts_insert(body@, pos as int, handle);
            }
            body.insert(pos, handle);
            state.record_channel(scope, &self.config.channel_name);
        }
        body
    }
}

/// Counts the import and require statements of a scope body.
pub open spec fn count_imports(s: Seq<SpecStmt>) -> int
    decreases s,
{
    if s.len() == 0 {
        0
    } else {
        (if s[0] is Import || s[0] is Require {
            1int
        } else {
            0int
        }) + count_imports(s.drop_first())
    }
}

/// Counts the channel-handle statements of a scope body that carry the
/// given channel name.
pub open spec fn count_handles(s: Seq<SpecStmt>, channel: Seq<char>) -> int
    decreases s,
{
    if s.len() == 0 {
        0
    } else {
        (if s[0] is ChannelHandle && s[0]->ChannelHandle_channel_name == channel {
            1int
        } else {
            0int
        }) + count_handles(s.drop_first(), channel)
    }
}

pub proof fn lemma_count_imports_insert(s: Seq<SpecStmt>, i: int, x: SpecStmt)
    requires
        0 <= i <= s.len(),
    ensures
        count_imports(s.insert(i, x)) == count_imports(s) + (if x is Import || x is Require {
            1int
        } else {
            0int
        }),
    decreases s.len(),
{
    let t = s.insert(i, x);
    if i == 0 {
        assert(t.drop_first() =~= s);
    } else {
        assert(t[0] == s[0]);
        assert(t.drop_first() =~= s.drop_first().insert(i - 1, x));
        lemma_count_imports_insert(s.drop_first(), i - 1, x);
    }
}

pub proof fn lemma_count_handles_insert(s: Seq<SpecStmt>, i: int, x: SpecStmt, channel: Seq<char>)
    requires
        0 <= i <= s.len(),
    ensures
        count_handles(s.insert(i, x), channel) == count_handles(s, channel) + (if x
            is ChannelHandle && x->ChannelHandle_channel_name == channel {
            1int
        } else {
            0int
        }),
    decreases s.len(),
{
    let t = s.insert(i, x);
    if i == 0 {
        assert(t.drop_first() =~= s);
    } else {
        assert(t[0] == s[0]);
        assert(t.drop_first() =~= s.drop_first().insert(i - 1, x));
        lemma_count_handles_insert(s.drop_first(), i - 1, x, channel);
    }
}

/// Scope setup is idempotent within a pass: once a rule has set up a
/// scope, running the same rule's scope setup again changes neither
/// the body nor the state.
pub proof fn lemma_scope_setup_idempotent(
    rule: SpecInstrumentationConfig,
    dc_module: Seq<char>,
    is_module: bool,
    scope: int,
    body: Seq<SpecStmt>,
    st: SpecImportState,
)
    ensures
        ({
            let (b1, s1) = spec_ensure_scope(rule, dc_module, is_module, scope, body, st);
            let (b2, s2) = spec_ensure_scope(rule, dc_module, is_module, scope, b1, s1);
            b2 == b1 && s2 == s1
        }),
{
    let (b1, s1) = spec_ensure_scope(rule, dc_module, is_module, scope, body, st);
    assert(s1.has_import(scope)) by {
        if !st.has_import(scope) {
            let pushed = st.imported.push(scope);
            assert(pushed[pushed.len() - 1] == scope);
        }
    }
    assert(s1.has_channel(scope, rule.channel_name)) by {
        let before = if st.has_import(scope) {
            st
        } else {
            st.record_import(scope)
        };
        if !before.has_channel(scope, rule.channel_name) {
            let pushed = before.channels.push((scope, rule.channel_name));
            assert(pushed[pushed.len() - 1] == (scope, rule.channel_name));
        }
    }
}

/// Running the scope setup of two active rules that share a scope —
/// within one pass, starting from a fresh state and a body holding no
/// import and no channel handle — yields exactly one import statement
/// and exactly one channel-handle statement per distinct channel name,
/// never two.
pub proof fn lemma_scope_setup_once(
    rule_a: SpecInstrumentationConfig,
    rule_b: SpecInstrumentationConfig,
    dc_module: Seq<char>,
    is_module: bool,
    scope: int,
    body: Seq<SpecStmt>,
)
    requires
        count_imports(body) == 0,
        forall|ch: Seq<char>| count_handles(body, ch) == 0,
    ensures
        ({
            let (b1, s1) = spec_ensure_scope(
                rule_a,
                dc_module,
                is_module,
                scope,
                body,
                SpecImportState::empty(),
            );
            let (b2, s2) = spec_ensure_scope(rule_b, dc_module, is_module, scope, b1, s1);
            &&& count_imports(b2) == 1
            &&& count_handles(b2, rule_a.channel_name) == 1
            &&& count_handles(b2, rule_b.channel_name) == 1
        }),
{
    let st0 = SpecImportState::empty();
    let (b1, s1) = spec_ensure_scope(rule_a, dc_module, is_module, scope, body, st0);
    let (b2, s2) = spec_ensure_scope(rule_b, dc_module, is_module, scope, b1, s1);

    assert(!st0.has_import(scope));
    assert(!st0.has_channel(scope, rule_a.channel_name));
    let start = spec_start_index(body);
    let imp = spec_import_stmt(dc_module, is_module);
    let ba = body.insert(start, imp);
    lemma_count_imports_insert(body, start, imp);
    assert(forall|ch: Seq<char>|
        #[trigger] count_handles(ba, ch) == count_handles(body, ch)) by {
        assert forall|ch: Seq<char>| #[trigger] count_handles(ba, ch) == count_handles(body, ch) by {
            lemma_count_handles_insert(body, start, imp, ch);
        }
    }
    let sa = st0.record_import(scope);
    let pos = if start < ba.len() {
        start + 1
    } else {
        ba.len() as int
    };
    let ha = spec_channel_stmt(rule_a);
    lemma_count_imports_insert(ba, pos, ha);
    assert(forall|ch: Seq<char>|
        #[trigger] count_handles(b1, ch) == count_handles(ba, ch) + (if rule_a.channel_name == ch {
            1int
        } else {
            0int
        })) by {
        assert forall|ch: Seq<char>|
            #[trigger] count_handles(b1, ch) == count_handles(ba, ch) + (if rule_a.channel_name
                == ch {
                1int
            } else {
                0int
            }) by {
            lemma_count_handles_insert(ba, pos, ha, ch);
        }
    }
    assert(s1.has_import(scope)) by {
        let pushed = st0.imported.push(scope);
        assert(pushed[pushed.len() - 1] == scope);
    }

    // The second rule inserts no import; it inserts its handle only
    // when its channel name differs from the first rule's.
    assert(count_imports(b1) == 1);
    if s1.has_channel(scope, rule_b.channel_name) {
        assert(rule_b.channel_name == rule_a.channel_name) by {
            let cs = s1.channels;
            assert(cs.contains((scope, rule_b.channel_name)));
            let j = choose|j: int|
                0 <= j < cs.len() && cs[j] == (scope, rule_b.channel_name);
            assert(cs.len() == 1);
        }
        assert(b2 == b1);
    } else {
        let startb = spec_start_index(b1);
        let posb = if startb < b1.len() {
            startb + 1
        } else {
            b1.len() as int
        };
        let hb = spec_channel_stmt(rule_b);
        lemma_count_imports_insert(b1, posb, hb);
        lemma_count_handles_insert(b1, posb, hb, rule_a.channel_name);
        lemma_count_handles_insert(b1, posb, hb, rule_b.channel_name);
        assert(rule_b.channel_name != rule_a.channel_name) by {
            if rule_b.channel_name == rule_a.channel_name {
                let pushed = s1.channels;
                assert(pushed[pushed.len() - 1] == (scope, rule_a.channel_name));
            }
        }
    }
}

} // verus!
