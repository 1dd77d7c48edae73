//! Exporters: what a document is turned into for a catalogue.

use vstd::prelude::*;

use crate::dot::{self, dot_report};
use crate::json::{pretty_text, JsonTree};
use crate::model::WeaveDocument;
use crate::openlineage::{self, event_trees, lineage_report};
use crate::openmetadata::{
    self, dry_bodies, dry_report, goes_live, lineage_url, steps_of, Exported, LiveView,
};
use crate::text::{ascii_lower, opt_text, str_eq, to_lower, trim, trimmed, views};

verus! {

/// A catalogue to export to.
#[derive(Debug, Clone, Copy, PartialEq, Eq, Structural)]
pub enum Target {
    OpenMetadata,
    OpenLineage,
    Dot,
}

/// The target that a word names, blanks around it and its case aside.
pub open spec fn target_named(s: Seq<char>) -> Option<Target> {
    let w = ascii_lower(trimmed(s));
    if w == "openmetadata"@ || w == "om"@ {
        Some(Target::OpenMetadata)
    } else if w == "openlineage"@ || w == "ol"@ {
        Some(Target::OpenLineage)
    } else if w == "dot"@ || w == "graphviz"@ {
        Some(Target::Dot)
    } else {
        None
    }
}

/// What is said about a word that names no target.
pub open spec fn unknown_target(s: Seq<char>) -> Seq<char> {
    "unknown export target '"@ + ascii_lower(trimmed(s))
        + "' (expected: openmetadata|openlineage|dot)"@
}

pub open spec fn target_word(t: Target) -> Seq<char> {
    match t {
        Target::OpenMetadata => "openmetadata"@,
        Target::OpenLineage => "openlineage"@,
        Target::Dot => "dot"@,
    }
}

impl Target {
    pub fn parse(s: &str) -> (r: Result<Target, String>)
        ensures
            match r {
                Ok(t) => target_named(s@) == Some(t),
                Err(e) => target_named(s@) is None && e@ == unknown_target(s@),
            },
    {
        let t = trim(s);
        let lower = to_lower(t.as_str());
        let w = lower.as_str();
        if str_eq(w, "openmetadata") || str_eq(w, "om") {
            Ok(Target::OpenMetadata)
        } else if str_eq(w, "openlineage") || str_eq(w, "ol") {
            Ok(Target::OpenLineage)
        } else if str_eq(w, "dot") || str_eq(w, "graphviz") {
            Ok(Target::Dot)
        } else {
            let mut e = "unknown export target '".to_owned();
            e.append(w);
            e.append("' (expected: openmetadata|openlineage|dot)");
            Err(e)
        }
    }

    pub fn as_str(self) -> (r: &'static str)
        ensures
            r@ == target_word(self),
    {
        match self {
            Target::OpenMetadata => "openmetadata",
            Target::OpenLineage => "openlineage",
            Target::Dot => "dot",
        }
    }
}

/// How to export; each target reads what concerns it.
#[derive(Debug, Clone)]
pub struct ExportConfig {
    /// Build what would be sent, and send nothing.
    pub dry_run: bool,
    /// Address of the OpenMetadata API.
    pub om_host: Option<String>,
    /// Token for the OpenMetadata API.
    pub om_token: Option<String>,
    /// Replaces the service part of every name.
    pub om_service_override: Option<String>,
    /// Producer of OpenLineage events; the document's own when not given.
    pub ol_producer: Option<String>,
    /// Seconds that a request may take; zero for no limit.
    pub timeout_secs: u64,
    /// How often a request is tried again after a passing failure.
    pub retries: u32,
}

#[verifier::ext_equal]
pub struct ExportConfigView {
    pub dry_run: bool,
    pub om_host: Option<Seq<char>>,
    pub om_token: Option<Seq<char>>,
    pub om_service_override: Option<Seq<char>>,
    pub ol_producer: Option<Seq<char>>,
    pub timeout_secs: u64,
    pub retries: u32,
}

impl View for ExportConfig {
    type V = ExportConfigView;

    open spec fn view(&self) -> ExportConfigView {
        ExportConfigView {
            dry_run: self.dry_run,
            om_host: opt_text(self.om_host),
            om_token: opt_text(self.om_token),
            om_service_override: opt_text(self.om_service_override),
            ol_producer: opt_text(self.ol_producer),
            timeout_secs: self.timeout_secs,
            retries: self.retries,
        }
    }
}

impl Default for ExportConfig {
    fn default() -> (r: Self)
        ensures
            r@ == (ExportConfigView {
                dry_run: false,
                om_host: None,
                om_token: None,
                om_service_override: None,
                ol_producer: None,
                timeout_secs: 30,
                retries: 2,
            }),
    {
        ExportConfig {
            dry_run: false,
            om_host: None,
            om_token: None,
            om_service_override: None,
            ol_producer: None,
            timeout_secs: 30,
            retries: 2,
        }
    }
}

/// What an export produced.
#[derive(Debug, Clone)]
pub struct ExportReport {
    pub target: String,
    /// The exported text.
    pub artifact: String,
    /// What was done or would be done.
    pub actions: Vec<String>,
    /// How many edges, or events, were handed over; none in a dry run.
    pub sent: usize,
    /// How many edges a request was made for and could not be handed over;
    /// none in a dry run. An edge that was skipped is not among them.
    pub failed: usize,
}

#[verifier::ext_equal]
pub struct ExportReportView {
    pub target: Seq<char>,
    pub artifact: Seq<char>,
    pub actions: Seq<Seq<char>>,
    pub sent: nat,
    pub failed: nat,
}

impl View for ExportReport {
    type V = ExportReportView;

    open spec fn view(&self) -> ExportReportView {
        ExportReportView {
            target: self.target@,
            artifact: self.artifact@,
            actions: views(self.actions@),
            sent: self.sent as nat,
            failed: self.failed as nat,
        }
    }
}

/// Exports a document to a target.
pub fn export(target: Target, doc: &WeaveDocument, cfg: &ExportConfig) -> (r: Result<
    Exported,
    String,
>)
    ensures
        match target {
            Target::OpenMetadata => {
                let steps = steps_of(doc@, cfg@.om_service_override);
                if goes_live(cfg@) {
                    r matches Ok(Exported::Live(run)) && run@ == LiveView::start(
                        lineage_url(cfg@.om_host->0),
                        steps,
                    )
                } else {
                    match pretty_text(JsonTree::List(dry_bodies(steps, steps.len() as int))) {
                        Ok(s) => r matches Ok(Exported::Report(x)) && x@ == dry_report(steps, s),
                        Err(e) => r matches Err(x) && x@ == e,
                    }
                }
            },
            Target::OpenLineage => match pretty_text(JsonTree::List(event_trees(doc@, cfg@))) {
                Ok(s) => r matches Ok(Exported::Report(x)) && x@ == lineage_report(doc@, cfg@, s),
                Err(e) => r matches Err(x) && x@ == e,
            },
            Target::Dot => r matches Ok(Exported::Report(x)) && x@ == dot_report(doc@),
        },
{
    match target {
        Target::OpenMetadata => openmetadata::export(doc, cfg),
        Target::OpenLineage => match openlineage::export(doc, cfg) {
            Ok(report) => Ok(Exported::Report(report)),
            Err(e) => Err(e),
        },
        Target::Dot => match dot::export(doc, cfg) {
            Ok(report) => Ok(Exported::Report(report)),
            Err(e) => Err(e),
        },
    }
}

} // verus!
