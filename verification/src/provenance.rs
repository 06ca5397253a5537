//! Where a chunk's content came from.

use crate::text::str_eq;
use vstd::prelude::*;
use vstd::std_specs::cmp::PartialEqSpecImpl;

verus! {

/// The origin of a piece of stored knowledge.
#[derive(Debug)]
pub enum Provenance {
    /// Asserted directly by the principal user.
    UserStated,
    /// Obtained from `url` in answer to `query`.
    WebSearch { url: String, query: String },
    /// Derived from the workspace file at `path`.
    FileContent { path: String },
    /// Produced by the autonomous task `task`.
    HeartbeatDiscovery { task: String },
    /// Legacy or unattributed.
    Unknown,
}

/// A provenance with its texts taken as sequences of characters.
pub enum ProvenanceView {
    UserStated,
    WebSearch { url: Seq<char>, query: Seq<char> },
    FileContent { path: Seq<char> },
    HeartbeatDiscovery { task: Seq<char> },
    Unknown,
}

impl View for Provenance {
    type V = ProvenanceView;

    open spec fn view(&self) -> ProvenanceView {
        match self {
            Provenance::UserStated => ProvenanceView::UserStated,
            Provenance::WebSearch { url, query } => ProvenanceView::WebSearch {
                url: url@,
                query: query@,
            },
            Provenance::FileContent { path } => ProvenanceView::FileContent { path: path@ },
            Provenance::HeartbeatDiscovery { task } => ProvenanceView::HeartbeatDiscovery {
                task: task@,
            },
            Provenance::Unknown => ProvenanceView::Unknown,
        }
    }
}

/// The short display form of a provenance: a tag, and for the variants that
/// name a source, a colon and that source. The query of a web search is not
/// shown.
pub open spec fn display_text(p: ProvenanceView) -> Seq<char> {
    match p {
        ProvenanceView::UserStated => "user-stated"@,
        ProvenanceView::WebSearch { url, query } => "web-search:"@ + url,
        ProvenanceView::FileContent { path } => "file:"@ + path,
        ProvenanceView::HeartbeatDiscovery { task } => "heartbeat:"@ + task,
        ProvenanceView::Unknown => "unknown"@,
    }
}

impl Provenance {
    /// Renders the short display form.
    pub fn to_string(&self) -> (text: String)
        ensures
            text@ == display_text(self@),
    {
        match self {
            Provenance::UserStated => "user-stated".to_owned(),
            Provenance::WebSearch { url, query: _ } => {
                let mut text = "web-search:".to_owned();
                text.append(url.as_str());
                text
            },
            Provenance::FileContent { path } => {
                let mut text = "file:".to_owned();
                text.append(path.as_str());
                text
            },
            Provenance::HeartbeatDiscovery { task } => {
                let mut text = "heartbeat:".to_owned();
                text.append(task.as_str());
                text
            },
            Provenance::Unknown => "unknown".to_owned(),
        }
    }

    /// Whether two provenances are the same variant with the same texts.
    pub fn same_as(&self, other: &Provenance) -> (same: bool)
        ensures
            same == (self@ == other@),
    {
        match (self, other) {
            (Provenance::UserStated, Provenance::UserStated) => true,
            (
                Provenance::WebSearch { url: u1, query: q1 },
                Provenance::WebSearch { url: u2, query: q2 },
            ) => str_eq(u1.as_str(), u2.as_str()) && str_eq(q1.as_str(), q2.as_str()),
            (Provenance::FileContent { path: p1 }, Provenance::FileContent { path: p2 }) => str_eq(
                p1.as_str(),
                p2.as_str(),
            ),
            (
                Provenance::HeartbeatDiscovery { task: t1 },
                Provenance::HeartbeatDiscovery { task: t2 },
            ) => str_eq(t1.as_str(), t2.as_str()),
            (Provenance::Unknown, Provenance::Unknown) => true,
            _ => false,
        }
    }
}

impl Clone for Provenance {
    fn clone(&self) -> (copy: Self)
        ensures
            copy == *self,
            copy@ == self@,
    {
        match self {
            Provenance::UserStated => Provenance::UserStated,
            Provenance::WebSearch { url, query } => Provenance::WebSearch {
                url: url.clone(),
                query: query.clone(),
            },
            Provenance::FileContent { path } => Provenance::FileContent { path: path.clone() },
            Provenance::HeartbeatDiscovery { task } => Provenance::HeartbeatDiscovery {
                task: task.clone(),
            },
            Provenance::Unknown => Provenance::Unknown,
        }
    }
}

impl PartialEq for Provenance {
    fn eq(&self, other: &Provenance) -> (same: bool) {
        self.same_as(other)
    }
}

impl PartialEqSpecImpl for Provenance {
    open spec fn obeys_eq_spec() -> bool {
        true
    }

    open spec fn eq_spec(&self, other: &Provenance) -> bool {
        self@ == other@
    }
}

} // verus!
