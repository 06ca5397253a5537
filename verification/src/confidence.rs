//! How far a retrieved chunk can be relied on.

use crate::provenance::{Provenance, ProvenanceView};
use core::cmp::Ordering;
use vstd::prelude::*;
use vstd::std_specs::cmp::PartialOrdSpecImpl;

verus! {

/// A four-level ordinal, from `Unverified` (lowest) to `High`.
#[derive(Debug, Clone, Copy, PartialEq, Eq, Structural)]
pub enum Confidence {
    /// The content failed verification or has no recorded hash.
    Unverified,
    /// Verified, unattributed and seldom read.
    Low,
    /// Verified, from a source other than the user.
    Medium,
    /// Verified, and stated by the user or read often from a file.
    High,
}

/// A file's content counts as frequently read above this many accesses.
pub const FILE_ACCESS_THRESHOLD: i64 = 5;

/// Unattributed content counts as frequently read above this many accesses.
pub const UNKNOWN_ACCESS_THRESHOLD: i64 = 10;

/// The confidence that follows from whether the content verified, where it
/// came from and how often it has been read.
pub open spec fn confidence_of(
    verified: bool,
    provenance: ProvenanceView,
    access_count: int,
) -> Confidence {
    if !verified {
        Confidence::Unverified
    } else {
        match provenance {
            ProvenanceView::UserStated => Confidence::High,
            ProvenanceView::FileContent { .. } => if access_count > FILE_ACCESS_THRESHOLD {
                Confidence::High
            } else {
                Confidence::Medium
            },
            ProvenanceView::WebSearch { .. } => Confidence::Medium,
            ProvenanceView::HeartbeatDiscovery { .. } => Confidence::Medium,
            ProvenanceView::Unknown => if access_count > UNKNOWN_ACCESS_THRESHOLD {
                Confidence::Medium
            } else {
                Confidence::Low
            },
        }
    }
}

/// The confidence is the lowest level exactly when the content did not
/// verify.
pub proof fn lemma_unverified_is_lowest(
    verified: bool,
    provenance: ProvenanceView,
    access_count: int,
)
    ensures
        confidence_of(verified, provenance, access_count) == Confidence::Unverified <==> !verified,
{
}

impl Confidence {
    /// The position of a level in the order: 0 for `Unverified`, 3 for `High`.
    pub open spec fn rank(self) -> int {
        match self {
            Confidence::Unverified => 0,
            Confidence::Low => 1,
            Confidence::Medium => 2,
            Confidence::High => 3,
        }
    }

    /// The position of this level in the order.
    pub fn level(&self) -> (n: u8)
        ensures
            n == self.rank(),
    {
        match self {
            Confidence::Unverified => 0,
            Confidence::Low => 1,
            Confidence::Medium => 2,
            Confidence::High => 3,
        }
    }

    /// The display form of a level, in lower case.
    pub open spec fn display_text(self) -> Seq<char> {
        match self {
            Confidence::Unverified => "none"@,
            Confidence::Low => "low"@,
            Confidence::Medium => "medium"@,
            Confidence::High => "high"@,
        }
    }

    /// Renders the display form.
    pub fn to_string(&self) -> (text: String)
        ensures
            text@ == self.display_text(),
    {
        match self {
            Confidence::Unverified => "none".to_owned(),
            Confidence::Low => "low".to_owned(),
            Confidence::Medium => "medium".to_owned(),
            Confidence::High => "high".to_owned(),
        }
    }
}

/// Derives the confidence of a retrieved chunk.
pub fn confidence_for(verified: bool, provenance: &Provenance, access_count: i64) -> (level:
    Confidence)
    ensures
        level == confidence_of(verified, provenance@, access_count as int),
{
    if !verified {
        return Confidence::Unverified;
    }
    match provenance {
        Provenance::UserStated => Confidence::High,
        Provenance::FileContent { .. } => {
            if access_count > FILE_ACCESS_THRESHOLD {
                Confidence::High
            } else {
                Confidence::Medium
            }
        },
        Provenance::WebSearch { .. } => Confidence::Medium,
        Provenance::HeartbeatDiscovery { .. } => Confidence::Medium,
        Provenance::Unknown => {
            if access_count > UNKNOWN_ACCESS_THRESHOLD {
                Confidence::Medium
            } else {
                Confidence::Low
            }
        },
    }
}

impl PartialOrd for Confidence {
    fn partial_cmp(&self, other: &Confidence) -> (order: Option<Ordering>) {
        let a: u8 = self.level();
        let b: u8 = other.level();
        if a < b {
            Some(Ordering::Less)
        } else if a == b {
            Some(Ordering::Equal)
        } else {
            Some(Ordering::Greater)
        }
    }
}

impl PartialOrdSpecImpl for Confidence {
    open spec fn obeys_partial_cmp_spec() -> bool {
        true
    }

    open spec fn partial_cmp_spec(&self, other: &Confidence) -> Option<Ordering> {
        if self.rank() < other.rank() {
            Some(Ordering::Less)
        } else if self.rank() == other.rank() {
            Some(Ordering::Equal)
        } else {
            Some(Ordering::Greater)
        }
    }
}

} // verus!
