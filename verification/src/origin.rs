//! Provenance: how a piece of lineage came to exist.
//!
//! Lineage knowledge is declared by an engineer, derived from an embedded SQL
//! text, or recovered by static analysis of code. Every dataset, job, edge and
//! column mapping carries an [`Origin`], and labels of inferred facts are
//! visibly marked.

use vstd::prelude::*;

use crate::model::{SourceLoc, SourceLocView};
use crate::text::{opt_text, opt_view, replicate_opt, Replicate};

verus! {

/// Where a piece of lineage knowledge originated.
#[derive(Debug, Clone, Copy, PartialEq, Eq, Hash, Structural)]
pub enum OriginSource {
    /// Authored by a human in a declaration.
    Declared,
    /// Extracted by parsing an embedded SQL query.
    InferredSql,
    /// Recovered by static analysis of code.
    InferredCode,
}

/// The tag shown beside an inferred label.
pub open spec fn tag_of(s: OriginSource) -> Option<Seq<char>> {
    match s {
        OriginSource::Declared => None,
        OriginSource::InferredSql => Some("inferred from SQL"@),
        OriginSource::InferredCode => Some("inferred from code"@),
    }
}

impl OriginSource {
    /// True for anything not declared by an engineer.
    pub fn is_inferred(self) -> (r: bool)
        ensures
            r == (self != OriginSource::Declared),
    {
        match self {
            OriginSource::Declared => false,
            _ => true,
        }
    }

    /// The tag shown beside an inferred label; none for a declared one.
    pub fn inline_tag(self) -> (r: Option<&'static str>)
        ensures
            match r {
                Some(t) => tag_of(self) == Some(t@),
                None => tag_of(self) is None,
            },
    {
        match self {
            OriginSource::Declared => None,
            OriginSource::InferredSql => Some("inferred from SQL"),
            OriginSource::InferredCode => Some("inferred from code"),
        }
    }
}

/// A heuristic confidence: an IEEE single-precision number, kept as its bit
/// pattern.
#[derive(Debug, Clone, Copy, PartialEq, Eq, Hash, Structural)]
pub struct Confidence {
    pub bits: u32,
}

impl Confidence {
    /// True when the pattern stands for no number.
    pub open spec fn spec_is_nan(self) -> bool {
        self.bits % 0x8000_0000 > 0x7f80_0000
    }

    /// A number that orders the patterns as the numbers they stand for.
    pub open spec fn rank(self) -> int {
        if self.bits >= 0x8000_0000 {
            0x8000_0000 - self.bits
        } else {
            self.bits as int
        }
    }

    /// True when `self` stands for a larger number than `other`.
    pub open spec fn exceeds(self, other: Confidence) -> bool {
        !self.spec_is_nan() && !other.spec_is_nan() && self.rank() > other.rank()
    }

    pub fn greater_than(self, other: Confidence) -> (r: bool)
        ensures
            r == self.exceeds(other),
    {
        let a: u32 = self.bits % 0x8000_0000;
        let b: u32 = other.bits % 0x8000_0000;
        if a > 0x7f80_0000 || b > 0x7f80_0000 {
            return false;
        }
        let ra: i64 = if self.bits >= 0x8000_0000 {
            0x8000_0000i64 - self.bits as i64
        } else {
            self.bits as i64
        };
        let rb: i64 = if other.bits >= 0x8000_0000 {
            0x8000_0000i64 - other.bits as i64
        } else {
            other.bits as i64
        };
        ra > rb
    }
}

/// Bit pattern of the confidence of a fact read from SQL: 0.85.
pub const SQL_CONFIDENCE: u32 = 0x3f59_999a;

/// Bit pattern of the confidence of a column traced through data-frame code: 0.7.
pub const CODE_DATAFLOW_CONFIDENCE: u32 = 0x3f33_3333;

/// Bit pattern of the confidence of a dataset named by a non-literal expression: 0.5.
pub const LINEAGE_MEDIUM_CONFIDENCE: u32 = 0x3f00_0000;

/// Bit pattern of the confidence of a column assumed to pass through unchanged: 0.4.
pub const CODE_CONFIDENCE: u32 = 0x3ecc_cccd;

/// The provenance attached to a lineage element.
#[derive(Debug, Clone, PartialEq)]
pub struct Origin {
    pub source: OriginSource,
    /// Confidence of an inferred fact; none when declared.
    pub confidence: Option<Confidence>,
    /// Free text, such as which analysis produced the fact.
    pub note: Option<String>,
    /// Where in source the fact was recovered from.
    pub location: Option<SourceLoc>,
}

#[verifier::ext_equal]
pub struct OriginView {
    pub source: OriginSource,
    pub confidence: Option<Confidence>,
    pub note: Option<Seq<char>>,
    pub location: Option<SourceLocView>,
}

impl View for Origin {
    type V = OriginView;

    open spec fn view(&self) -> OriginView {
        OriginView {
            source: self.source,
            confidence: self.confidence,
            note: opt_text(self.note),
            location: opt_view(self.location),
        }
    }
}

impl Replicate for Origin {
    fn replicate(&self) -> (r: Self) {
        Origin {
            source: self.source,
            confidence: self.confidence,
            note: replicate_opt(&self.note),
            location: replicate_opt(&self.location),
        }
    }
}

pub open spec fn declared_origin() -> OriginView {
    OriginView { source: OriginSource::Declared, confidence: None, note: None, location: None }
}

pub open spec fn sql_origin(confidence: Confidence) -> OriginView {
    OriginView {
        source: OriginSource::InferredSql,
        confidence: Some(confidence),
        note: None,
        location: None,
    }
}

pub open spec fn code_origin(confidence: Confidence) -> OriginView {
    OriginView {
        source: OriginSource::InferredCode,
        confidence: Some(confidence),
        note: None,
        location: None,
    }
}

impl OriginView {
    pub open spec fn inferred(self) -> bool {
        self.source != OriginSource::Declared
    }
}

/// A label with the tag of its provenance.
pub open spec fn annotated(s: OriginSource, base: Seq<char>) -> Seq<char> {
    match tag_of(s) {
        None => base,
        Some(tag) => if base.len() == 0 {
            "("@ + tag + ")"@
        } else {
            base + " ("@ + tag + ")"@
        },
    }
}

impl Origin {
    /// A declared fact.
    pub fn declared() -> (r: Self)
        ensures
            r@ == declared_origin(),
    {
        Origin { source: OriginSource::Declared, confidence: None, note: None, location: None }
    }

    /// A fact extracted by parsing SQL.
    pub fn inferred_sql(confidence: Confidence) -> (r: Self)
        ensures
            r@ == sql_origin(confidence),
    {
        Origin {
            source: OriginSource::InferredSql,
            confidence: Some(confidence),
            note: None,
            location: None,
        }
    }

    /// A fact produced by code analysis.
    pub fn inferred_code(confidence: Confidence) -> (r: Self)
        ensures
            r@ == code_origin(confidence),
    {
        Origin {
            source: OriginSource::InferredCode,
            confidence: Some(confidence),
            note: None,
            location: None,
        }
    }

    pub fn with_note(self, note: &str) -> (r: Self)
        ensures
            r@ == (OriginView { note: Some(note@), ..self@ }),
    {
        Origin { note: Some(note.to_owned()), ..self }
    }

    /// Records the source file and line the fact was recovered from.
    pub fn with_location(self, loc: SourceLoc) -> (r: Self)
        ensures
            r@ == (OriginView { location: Some(loc@), ..self@ }),
    {
        Origin { location: Some(loc), ..self }
    }

    pub fn is_inferred(&self) -> (r: bool)
        ensures
            r == self@.inferred(),
    {
        self.source.is_inferred()
    }

    /// A label for humans: `base`, with a parenthesised tag when inferred.
    pub fn annotate(&self, base: &str) -> (r: String)
        ensures
            r@ == annotated(self@.source, base@),
    {
        match self.source.inline_tag() {
            None => base.to_owned(),
            Some(tag) => if base.is_empty() {
                let mut s = "(".to_owned();
                s.append(tag);
                s.append(")");
                s
            } else {
                let mut s = base.to_owned();
                s.append(" (");
                s.append(tag);
                s.append(")");
                s
            },
        }
    }
}

impl Default for Origin {
    fn default() -> (r: Self)
        ensures
            r@ == declared_origin(),
    {
        Origin::declared()
    }
}

} // verus!
