//! Where a resolver of untraceable columns plugs in. None is configured, so
//! such columns stay untraced until they are declared.

use vstd::prelude::*;

use crate::origin::Confidence;

verus! {

/// Where a resolved column came from.
#[derive(Debug, Clone, Copy, PartialEq, Eq, Structural)]
pub enum ResolutionSource {
    /// Observed in a real run.
    Runtime,
    /// Drafted by a language model, to be looked at by a human.
    Llm,
}

/// A spot that could not be traced.
#[derive(Debug, Clone)]
pub struct ResolutionRequest {
    pub task: String,
    /// The column that is missing, when its name is known.
    pub target: Option<String>,
    pub inputs: Vec<String>,
    pub outputs: Vec<String>,
    /// Line of the code, counted from one.
    pub line: Option<u32>,
    /// Why it could not be traced.
    pub reason: String,
    pub code: Option<String>,
}

/// A column that a resolver recovered.
#[derive(Debug, Clone)]
pub struct ResolvedColumn {
    /// Source columns as `table.column` or `column`.
    pub sources: Vec<String>,
    pub target: String,
    pub function: Option<String>,
    pub source: ResolutionSource,
    pub confidence: Confidence,
    /// True for a draft.
    pub needs_review: bool,
}

/// Recovers columns.
pub trait OpaqueResolver {
    /// The columns that it could recover; none when it cannot help.
    fn resolve(&self, request: &ResolutionRequest) -> Vec<ResolvedColumn>;
}

/// The configured resolvers in the order in which they are asked: none.
pub fn resolvers() -> (r: Vec<Box<dyn OpaqueResolver>>)
    ensures
        r@.len() == 0,
{
    Vec::new()
}

} // verus!
