//! Queries that pick one function site out of a syntax tree.
//!
//! A [`FunctionQuery`] names a candidate by shape (declaration,
//! expression or method), execution kind (sync / async / generator /
//! async generator), resolved name, optional owning class, and a
//! positional `index` that disambiguates between structurally
//! identical candidates: occurrences of a full structural match are
//! counted in traversal order, and the query selects the candidate
//! at which the per-rule, per-pass counter has reached `index`.

use vstd::prelude::*;

verus! {

/// The syntactic shape of a candidate function site.
#[derive(Clone, Copy, PartialEq, Eq, Structural, Debug)]
pub enum FunctionType {
    FunctionDeclaration,
    FunctionExpression,
    Method,
}

impl FunctionType {
    /// The tag under which a shape appears in rule files.
    pub open spec fn spec_from_str(s: Seq<char>) -> Option<FunctionType> {
        if s == "decl"@ {
            Some(FunctionType::FunctionDeclaration)
        } else if s == "expr"@ {
            Some(FunctionType::FunctionExpression)
        } else if s == "method"@ {
            Some(FunctionType::Method)
        } else {
            None
        }
    }

    pub fn from_str(s: &str) -> (r: Option<FunctionType>)
        ensures
            r == FunctionType::spec_from_str(s@),
    {
        let t = s.to_owned();
        if t == String::from_str("decl") {
            Some(FunctionType::FunctionDeclaration)
        } else if t == String::from_str("expr") {
            Some(FunctionType::FunctionExpression)
        } else if t == String::from_str("method") {
            Some(FunctionType::Method)
        } else {
            None
        }
    }
}

/// The execution kind of a candidate, derived from its `is_async` and
/// `is_generator` flags.
#[derive(Clone, Copy, PartialEq, Eq, Structural, Debug)]
pub enum FunctionKind {
    Sync,
    Async,
    Generator,
    AsyncGenerator,
}

impl FunctionKind {
    pub open spec fn spec_is_async(&self) -> bool {
        self is Async || self is AsyncGenerator
    }

    pub open spec fn spec_is_generator(&self) -> bool {
        self is Generator || self is AsyncGenerator
    }

    #[verifier::when_used_as_spec(spec_is_async)]
    pub fn is_async(&self) -> (r: bool)
        ensures
            r == self.spec_is_async(),
    {
        matches!(self, FunctionKind::Async | FunctionKind::AsyncGenerator)
    }

    #[verifier::when_used_as_spec(spec_is_generator)]
    pub fn is_generator(&self) -> (r: bool)
        ensures
            r == self.spec_is_generator(),
    {
        matches!(self, FunctionKind::Generator | FunctionKind::AsyncGenerator)
    }

    /// A kind matches a candidate's flag pair exactly, never a
    /// superset: `Async` rejects an async generator.
    pub open spec fn spec_matches(&self, is_async: bool, is_generator: bool) -> bool {
        match self {
            FunctionKind::Sync => !is_async && !is_generator,
            FunctionKind::Async => is_async && !is_generator,
            FunctionKind::Generator => !is_async && is_generator,
            FunctionKind::AsyncGenerator => is_async && is_generator,
        }
    }

    #[verifier::when_used_as_spec(spec_matches)]
    pub fn matches(&self, is_async: bool, is_generator: bool) -> (r: bool)
        ensures
            r == self.spec_matches(is_async, is_generator),
    {
        match self {
            FunctionKind::Sync => !is_async && !is_generator,
            FunctionKind::Async => is_async && !is_generator,
            FunctionKind::Generator => !is_async && is_generator,
            FunctionKind::AsyncGenerator => is_async && is_generator,
        }
    }
}

/// Kind matching is exact: a kind accepts exactly the one flag pair
/// that its own `is_async`/`is_generator` values describe, so `Async`
/// never matches an `AsyncGenerator` candidate.
pub proof fn lemma_kind_exactness()
    ensures
        forall|k: FunctionKind, a: bool, g: bool|
            #[trigger] k.spec_matches(a, g) <==> (a == k.spec_is_async() && g
                == k.spec_is_generator()),
        !FunctionKind::Async.spec_matches(true, true),
{
}

/// The mathematical content of a [`FunctionQuery`].
pub struct SpecFunctionQuery {
    pub name: Seq<char>,
    pub class: Option<Seq<char>>,
    pub typ: FunctionType,
    pub kind: FunctionKind,
    pub index: int,
}

/// Selects the `index`-th structural match among the candidates of one
/// traversal pass, counting in traversal order.
#[derive(Debug)]
pub struct FunctionQuery {
    pub name: String,
    pub class: Option<String>,
    pub typ: FunctionType,
    pub kind: FunctionKind,
    pub index: usize,
}

impl View for FunctionQuery {
    type V = SpecFunctionQuery;

    open spec fn view(&self) -> SpecFunctionQuery {
        SpecFunctionQuery {
            name: self.name@,
            class: match self.class {
                Some(c) => Some(c@),
                None => None,
            },
            typ: self.typ,
            kind: self.kind,
            index: self.index as int,
        }
    }
}

impl Clone for FunctionQuery {
    /// The clone carries the same content as the original.
    fn clone(&self) -> (r: Self)
        ensures
            r@ == self@,
    {
        Self {
            name: self.name.clone(),
            class: match &self.class {
                Some(c) => Some(c.clone()),
                None => None,
            },
            typ: self.typ,
            kind: self.kind,
            index: self.index,
        }
    }
}

/// One step of occurrence counting: given the query's `index`, the
/// counter so far, and whether the candidate is a full structural
/// match, yields whether the candidate is selected and the new counter.
/// A structural match at the target count is selected and leaves the
/// counter alone; an earlier structural match advances the counter; a
/// structural mismatch changes nothing.
pub open spec fn spec_select(index: int, count: int, structural: bool) -> (bool, int) {
    if !structural {
        (false, count)
    } else if count == index {
        (true, count)
    } else {
        (false, count + 1)
    }
}

impl FunctionQuery {
    /// Whether a declaration candidate with the given resolved name and
    /// flags is a structural match for this query.
    pub open spec fn spec_structural_decl(
        q: SpecFunctionQuery,
        name: Seq<char>,
        is_async: bool,
        is_generator: bool,
    ) -> bool {
        &&& q.typ is FunctionDeclaration
        &&& q.kind.spec_matches(is_async, is_generator)
        &&& name == q.name
    }

    /// Whether an expression candidate (with a caller-inferred name) is
    /// a structural match for this query.
    pub open spec fn spec_structural_expr(
        q: SpecFunctionQuery,
        name: Seq<char>,
        is_async: bool,
        is_generator: bool,
    ) -> bool {
        &&& q.typ is FunctionExpression
        &&& q.kind.spec_matches(is_async, is_generator)
        &&& name == q.name
    }

    /// Whether a method candidate is a structural match for this query.
    /// When the query pins an owning class, the candidate must carry
    /// exactly that class name; an object-literal method has none.
    pub open spec fn spec_structural_method(
        q: SpecFunctionQuery,
        name: Seq<char>,
        owner: Option<Seq<char>>,
        is_async: bool,
        is_generator: bool,
    ) -> bool {
        &&& q.typ is Method
        &&& q.kind.spec_matches(is_async, is_generator)
        &&& name == q.name
        &&& match q.class {
            None => true,
            Some(c) => owner == Some(c),
        }
    }

    /// Applies one counting step for a candidate that is (or is not) a
    /// structural match, updating the per-pass occurrence counter.
    pub fn maybe_increment_count(&self, matches_except_count: bool, count: &mut usize) -> (r:
        bool)
        requires
            matches_except_count && *old(count) != self.index ==> *old(count) < usize::MAX,
        ensures
            (r, *final(count) as int) == spec_select(
                self@.index,
                *old(count) as int,
                matches_except_count,
            ),
    {
        if matches_except_count {
            if self.index == *count {
                true
            } else {
                *count = *count + 1;
                false
            }
        } else {
            false
        }
    }

    /// Evaluates this query against a function-declaration candidate.
    pub fn matches_decl(
        &self,
        name: &str,
        is_async: bool,
        is_generator: bool,
        count: &mut usize,
    ) -> (r: bool)
        requires
            *old(count) <= self.index,
        ensures
            (r, *final(count) as int) == spec_select(
                self@.index,
                *old(count) as int,
                Self::spec_structural_decl(self@, name@, is_async, is_generator),
            ),
            *final(count) <= self.index,
    {
        let matches_except_count = matches!(self.typ, FunctionType::FunctionDeclaration)
            && self.kind.matches(is_async, is_generator) && name.to_owned() == self.name;
        self.maybe_increment_count(matches_except_count, count)
    }

    /// Evaluates this query against a function-expression candidate
    /// whose name the caller inferred from the surrounding syntax.
    pub fn matches_expr(
        &self,
        name: &str,
        is_async: bool,
        is_generator: bool,
        count: &mut usize,
    ) -> (r: bool)
        requires
            *old(count) <= self.index,
        ensures
            (r, *final(count) as int) == spec_select(
                self@.index,
                *old(count) as int,
                Self::spec_structural_expr(self@, name@, is_async, is_generator),
            ),
            *final(count) <= self.index,
    {
        let matches_except_count = matches!(self.typ, FunctionType::FunctionExpression)
            && self.kind.matches(is_async, is_generator) && name.to_owned() == self.name;
        self.maybe_increment_count(matches_except_count, count)
    }

    /// Evaluates this query against a method candidate, owned by a
    /// class when `owner` is set, an object-literal member otherwise.
    pub fn matches_method(
        &self,
        name: &str,
        owner: Option<&String>,
        is_async: bool,
        is_generator: bool,
        count: &mut usize,
    ) -> (r: bool)
        requires
            *old(count) <= self.index,
        ensures
            (r, *final(count) as int) == spec_select(
                self@.index,
                *old(count) as int,
                Self::spec_structural_method(
                    self@,
                    name@,
                    match owner {
                        Some(o) => Some(o@),
                        None => None,
                    },
                    is_async,
                    is_generator,
                ),
            ),
            *final(count) <= self.index,
    {
        let class_ok = match (&self.class, owner) {
            (None, _) => true,
            (Some(c), Some(o)) => *c == *o,
            (Some(_), None) => false,
        };
        let matches_except_count = matches!(self.typ, FunctionType::Method) && self.kind.matches(
            is_async,
            is_generator,
        ) && name.to_owned() == self.name && class_ok;
        self.maybe_increment_count(matches_except_count, count)
    }
}

/// The counter after a query with the given `index` has seen `i`
/// consecutive structural matches, starting from zero.
pub open spec fn spec_count_after(index: int, i: nat) -> int
    decreases i,
{
    if i == 0 {
        0
    } else {
        spec_select(index, spec_count_after(index, (i - 1) as nat), true).1
    }
}

/// Whether the `i`-th (zero-based) of a run of structurally identical
/// candidates is selected by a query with the given `index`.
pub open spec fn spec_candidate_selected(index: int, i: nat) -> bool {
    spec_select(index, spec_count_after(index, i), true).0
}

/// Index disambiguation: against a run of structurally identical
/// candidates the counter climbs to `index` and stops there, so no
/// candidate before position `index` is selected, and the candidate at
/// position `index` — the `index + 1`-th encountered — is.  In
/// particular a query whose `index` is at least the number of
/// candidates selects none of them.
pub proof fn lemma_index_disambiguation(index: int, i: nat)
    requires
        0 <= index,
    ensures
        spec_count_after(index, i) == if i <= index {
            i as int
        } else {
            index
        },
        spec_candidate_selected(index, i) <==> index <= i,
    decreases i,
{
    if i > 0 {
        lemma_index_disambiguation(index, (i - 1) as nat);
    }
}

} // verus!
