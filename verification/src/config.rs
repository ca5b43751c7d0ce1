//! Rule configuration: which source tree a rule applies to, which
//! function inside it is targeted, and how the matched call site is
//! traced.

use crate::error::OrchestrionError;
use crate::function_query::{FunctionQuery, SpecFunctionQuery};
use crate::semver::{range_parses, range_valid, version_in_range, version_satisfies, version_valid};
use vstd::prelude::*;

verus! {

/// The mathematical content of a [`CodeMatcher`].
pub enum SpecCodeMatcher {
    Dependency { name: Seq<char>, version_range: Seq<char>, relative_path: Seq<char> },
    AbsolutePaths { absolute_paths: Seq<Seq<char>> },
}

/// Identifies the source trees a rule applies to: either a file of a
/// resolved dependency (by name, version-range membership and relative
/// path), or an explicit set of absolute paths.
#[derive(Debug)]
pub enum CodeMatcher {
    Dependency { name: String, version_range: String, relative_path: String },
    AbsolutePaths { absolute_paths: Vec<String> },
}

impl View for CodeMatcher {
    type V = SpecCodeMatcher;

    open spec fn view(&self) -> SpecCodeMatcher {
        match self {
            CodeMatcher::Dependency { name, version_range, relative_path } => {
                SpecCodeMatcher::Dependency {
                    name: name@,
                    version_range: version_range@,
                    relative_path: relative_path@,
                }
            },
            CodeMatcher::AbsolutePaths { absolute_paths } => {
                SpecCodeMatcher::AbsolutePaths {
                    absolute_paths: absolute_paths@.map_values(|p: String| p@),
                }
            },
        }
    }
}

/// The mathematical content of a [`Dependency`] fact.
pub struct SpecDependency {
    pub name: Seq<char>,
    pub version: Seq<char>,
    pub relative_path: Seq<char>,
}

/// A resolved-dependency fact, supplied by the caller: the engine
/// never resolves package metadata itself.  The version is the live
/// version string; an unparsable one never matches any range.
#[derive(Debug)]
pub struct Dependency {
    pub name: String,
    pub version: String,
    pub relative_path: String,
}

impl View for Dependency {
    type V = SpecDependency;

    open spec fn view(&self) -> SpecDependency {
        SpecDependency {
            name: self.name@,
            version: self.version@,
            relative_path: self.relative_path@,
        }
    }
}

/// The view of an optional borrowed dependency fact.
pub open spec fn spec_dependency_of(dependency: Option<&Dependency>) -> Option<SpecDependency> {
    match dependency {
        Some(d) => Some(d@),
        None => None,
    }
}

impl SpecCodeMatcher {
    /// A matcher is well formed when its version range parses; the
    /// constructors refuse anything else.
    pub open spec fn wf(self) -> bool {
        match self {
            SpecCodeMatcher::Dependency { version_range, .. } => range_valid(version_range),
            SpecCodeMatcher::AbsolutePaths { .. } => true,
        }
    }

    /// The module name under which a matched tree's channels publish:
    /// the dependency name, or empty for an absolute-path matcher.
    pub open spec fn spec_module_label(self) -> Seq<char> {
        match self {
            SpecCodeMatcher::Dependency { name, .. } => name,
            SpecCodeMatcher::AbsolutePaths { .. } => Seq::empty(),
        }
    }

    /// Whether a (path, optional dependency) fact satisfies this
    /// matcher.  A dependency matcher requires a dependency fact with
    /// the exact name, a version that parses and lies in the range,
    /// and the exact relative path; an absolute-path matcher requires
    /// membership in its path set, and ignores dependency metadata.
    pub open spec fn spec_matches(
        self,
        absolute_path: Seq<char>,
        dependency: Option<SpecDependency>,
    ) -> bool {
        match self {
            SpecCodeMatcher::Dependency { name, version_range, relative_path } => {
                match dependency {
                    Some(d) => {
                        &&& d.name == name
                        &&& version_valid(d.version)
                        &&& range_valid(version_range)
                        &&& version_in_range(d.version, version_range)
                        &&& d.relative_path == relative_path
                    },
                    None => false,
                }
            },
            SpecCodeMatcher::AbsolutePaths { absolute_paths } => {
                absolute_paths.contains(absolute_path)
            },
        }
    }
}

/// Whether some element of `v` reads as `x`.
fn contains_string(v: &Vec<String>, x: &String) -> (r: bool)
    ensures
        r == v@.map_values(|p: String| p@).contains(x@),
{
    let ghost views = v@.map_values(|p: String| p@);
    let mut i: usize = 0;
    while i < v.len()
        invariant
            0 <= i <= v.len(),
            views == v@.map_values(|p: String| p@),
            forall|j: int| 0 <= j < i ==> views[j] != x@,
        decreases v.len() - i,
    {
        if v[i] == *x {
            assert(views[i as int] == x@);
            return true;
        }
        i = i + 1;
    }
    false
}

impl CodeMatcher {
    /// Creates a dependency matcher.  The range must be a well-formed
    /// semantic-version range: an invalid one is a construction-time
    /// failure, never a traversal-time one.
    pub fn dependency(name: &str, version_range: &str, relative_path: &str) -> (r: Result<
        CodeMatcher,
        OrchestrionError,
    >)
        ensures
            r is Ok <==> range_valid(version_range@),
            r is Ok ==> r->Ok_0@ == (SpecCodeMatcher::Dependency {
                name: name@,
                version_range: version_range@,
                relative_path: relative_path@,
            }),
            r is Ok ==> r->Ok_0@.wf(),
            r is Err ==> r->Err_0 is StrError && r->Err_0->StrError_0@
                == "invalid version range"@,
    {
        if range_parses(version_range) {
            Ok(
                CodeMatcher::Dependency {
                    name: name.to_owned(),
                    version_range: version_range.to_owned(),
                    relative_path: relative_path.to_owned(),
                },
            )
        } else {
            Err(OrchestrionError::StrError(String::from_str("invalid version range")))
        }
    }

    /// Creates an absolute-path matcher.
    pub fn absolute_paths(absolute_paths: Vec<String>) -> (r: CodeMatcher)
        ensures
            r@ == (SpecCodeMatcher::AbsolutePaths {
                absolute_paths: absolute_paths@.map_values(|p: String| p@),
            }),
            r@.wf(),
    {
        CodeMatcher::AbsolutePaths { absolute_paths }
    }

    /// The module name under which a matched tree's channels publish.
    pub fn module_label(&self) -> (r: String)
        ensures
            r@ == self@.spec_module_label(),
    {
        match self {
            CodeMatcher::Dependency { name, .. } => name.clone(),
            CodeMatcher::AbsolutePaths { .. } => String::new(),
        }
    }

    /// Evaluates this matcher against a fact.  An unparsable fact
    /// version is not an error: it yields `false`.
    pub fn matches(&self, absolute_path: &String, dependency: Option<&Dependency>) -> (r: bool)
        ensures
            r == self@.spec_matches(absolute_path@, spec_dependency_of(dependency)),
    {
        match self {
            CodeMatcher::Dependency { name, version_range, relative_path } => {
                match dependency {
                    Some(dep) => *name == dep.name && version_satisfies(
                        dep.version.as_str(),
                        version_range.as_str(),
                    ) && *relative_path == dep.relative_path,
                    None => false,
                }
            },
            CodeMatcher::AbsolutePaths { absolute_paths } => {
                contains_string(absolute_paths, absolute_path)
            },
        }
    }
}

impl Clone for CodeMatcher {
    /// The clone carries the same content as the original.
    fn clone(&self) -> (r: Self)
        ensures
            r@ == self@,
    {
        match self {
            CodeMatcher::Dependency { name, version_range, relative_path } => {
                CodeMatcher::Dependency {
                    name: name.clone(),
                    version_range: version_range.clone(),
                    relative_path: relative_path.clone(),
                }
            },
            CodeMatcher::AbsolutePaths { absolute_paths } => {
                let r = CodeMatcher::AbsolutePaths { absolute_paths: absolute_paths.clone() };
                proof {
                    assert(r@->AbsolutePaths_absolute_paths =~= self@->AbsolutePaths_absolute_paths);
                }
                r
            },
        }
    }
}

/// Selects the hook-channel entry point invoked at a traced call site.
#[derive(Clone, Copy, PartialEq, Eq, Structural, Debug)]
pub enum InstrumentationOperator {
    Callback,
    Promise,
    Sync,
    Async,
}

impl InstrumentationOperator {
    /// The literal method name of the hook-channel entry point this
    /// operator invokes.
    pub open spec fn spec_trace_method(self) -> Seq<char> {
        match self {
            InstrumentationOperator::Callback => "traceCallback"@,
            InstrumentationOperator::Promise => "tracePromise"@,
            InstrumentationOperator::Sync => "traceSync"@,
            InstrumentationOperator::Async => "traceAsync"@,
        }
    }

    pub fn as_str(&self) -> (r: &str)
        ensures
            r@ == self.spec_trace_method(),
    {
        match self {
            InstrumentationOperator::Callback => "traceCallback",
            InstrumentationOperator::Promise => "tracePromise",
            InstrumentationOperator::Sync => "traceSync",
            InstrumentationOperator::Async => "traceAsync",
        }
    }
}

/// The mathematical content of an [`InstrumentationConfig`].
pub struct SpecInstrumentationConfig {
    pub channel_name: Seq<char>,
    pub code_matcher: SpecCodeMatcher,
    pub function_query: SpecFunctionQuery,
    pub operator: InstrumentationOperator,
}

/// One instrumentation directive: where it applies, which function it
/// targets, the hook-channel it publishes on, and the call-style
/// operator used at the traced site.  Immutable after construction.
#[derive(Debug)]
pub struct InstrumentationConfig {
    pub channel_name: String,
    pub code_matcher: CodeMatcher,
    pub function_query: FunctionQuery,
    pub operator: InstrumentationOperator,
}

impl View for InstrumentationConfig {
    type V = SpecInstrumentationConfig;

    open spec fn view(&self) -> SpecInstrumentationConfig {
        SpecInstrumentationConfig {
            channel_name: self.channel_name@,
            code_matcher: self.code_matcher@,
            function_query: self.function_query@,
            operator: self.operator,
        }
    }
}

impl InstrumentationConfig {
    pub fn new(
        channel_name: &str,
        code_matcher: CodeMatcher,
        function_query: FunctionQuery,
        operator: InstrumentationOperator,
    ) -> (r: Self)
        ensures
            r@ == (SpecInstrumentationConfig {
                channel_name: channel_name@,
                code_matcher: code_matcher@,
                function_query: function_query@,
                operator,
            }),
    {
        Self { channel_name: channel_name.to_owned(), code_matcher, function_query, operator }
    }

    /// Evaluates this rule's matcher against a fact.
    pub fn matches(&self, absolute_path: &String, dependency: Option<&Dependency>) -> (r: bool)
        ensures
            r == self@.code_matcher.spec_matches(absolute_path@, spec_dependency_of(dependency)),
    {
        self.code_matcher.matches(absolute_path, dependency)
    }
}

impl Clone for InstrumentationConfig {
    /// The clone carries the same content as the original.
    fn clone(&self) -> (r: Self)
        ensures
            r@ == self@,
    {
        Self {
            channel_name: self.channel_name.clone(),
            code_matcher: self.code_matcher.clone(),
            function_query: self.function_query.clone(),
            operator: self.operator,
        }
    }
}

/// An ordered collection of rules plus the name of the hook-channel
/// module they import.  Reusable across many traversal passes.
#[derive(Debug)]
pub struct Config {
    pub instrumentations: Vec<InstrumentationConfig>,
    pub dc_module: String,
}

impl Config {
    /// The hook-channel module imported when none is named explicitly.
    pub open spec fn spec_default_dc_module() -> Seq<char> {
        "diagnostics_channel"@
    }

    pub fn new(instrumentations: Vec<InstrumentationConfig>, dc_module: Option<String>) -> (r:
        Self)
        ensures
            r.instrumentations == instrumentations,
            match dc_module {
                Some(m) => r.dc_module@ == m@,
                None => r.dc_module@ == Self::spec_default_dc_module(),
            },
    {
        Self {
            instrumentations,
            dc_module: match dc_module {
                Some(m) => m,
                None => String::from_str("diagnostics_channel"),
            },
        }
    }

    pub fn new_single(instrumentation: InstrumentationConfig) -> (r: Self)
        ensures
            r.instrumentations@.len() == 1,
            r.instrumentations@[0] == instrumentation,
            r.dc_module@ == Self::spec_default_dc_module(),
    {
        let mut instrumentations: Vec<InstrumentationConfig> = Vec::new();
        instrumentations.push(instrumentation);
        Self::new(instrumentations, None)
    }
}

} // verus!
