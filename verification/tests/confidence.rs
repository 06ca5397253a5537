use memory_core::confidence::{confidence_for, Confidence};
use memory_core::provenance::Provenance;
use memory_core::verification::ChunkVerifier;

fn web() -> Provenance {
    Provenance::WebSearch {
        url: "test".into(),
        query: "q".into(),
    }
}

fn file() -> Provenance {
    Provenance::FileContent {
        path: "notes.md".into(),
    }
}

fn heartbeat() -> Provenance {
    Provenance::HeartbeatDiscovery {
        task: "sweep".into(),
    }
}

#[test]
fn test_confidence_scoring() {
    let verifier = ChunkVerifier::new();

    // User-stated is always high
    assert_eq!(
        verifier.calculate_confidence(true, &Provenance::UserStated, 0, &None),
        Confidence::High
    );

    // Unverified is always the lowest level
    assert_eq!(
        verifier.calculate_confidence(false, &Provenance::UserStated, 100, &None),
        Confidence::Unverified
    );

    // Unknown with low access is low
    assert_eq!(
        verifier.calculate_confidence(true, &Provenance::Unknown, 1, &None),
        Confidence::Low
    );

    // Web search is medium
    assert_eq!(
        verifier.calculate_confidence(true, &web(), 0, &None),
        Confidence::Medium
    );
}

#[test]
fn confidence_cases() {
    assert_eq!(confidence_for(true, &Provenance::UserStated, 0), Confidence::High);
    assert_eq!(
        confidence_for(false, &Provenance::UserStated, 100),
        Confidence::Unverified
    );
    assert_eq!(confidence_for(true, &Provenance::Unknown, 1), Confidence::Low);
    assert_eq!(confidence_for(true, &web(), 0), Confidence::Medium);
    assert_eq!(confidence_for(true, &file(), 6), Confidence::High);
}

#[test]
fn confidence_thresholds_are_strict() {
    assert_eq!(confidence_for(true, &file(), 5), Confidence::Medium);
    assert_eq!(confidence_for(true, &file(), 6), Confidence::High);
    assert_eq!(confidence_for(true, &file(), 0), Confidence::Medium);
    assert_eq!(confidence_for(true, &Provenance::Unknown, 10), Confidence::Low);
    assert_eq!(confidence_for(true, &Provenance::Unknown, 11), Confidence::Medium);
    assert_eq!(confidence_for(true, &Provenance::Unknown, i64::MAX), Confidence::Medium);
    assert_eq!(confidence_for(true, &file(), i64::MAX), Confidence::High);
}

#[test]
fn confidence_of_sources_that_ignore_the_count() {
    for count in [0, 1, 5, 6, 10, 11, 1000] {
        assert_eq!(confidence_for(true, &Provenance::UserStated, count), Confidence::High);
        assert_eq!(confidence_for(true, &web(), count), Confidence::Medium);
        assert_eq!(confidence_for(true, &heartbeat(), count), Confidence::Medium);
    }
}

#[test]
fn unverified_content_has_the_lowest_confidence() {
    for p in [Provenance::UserStated, web(), file(), heartbeat(), Provenance::Unknown] {
        for count in [0, 6, 11, 100] {
            assert_eq!(confidence_for(false, &p, count), Confidence::Unverified);
        }
    }
}

#[test]
fn the_last_access_plays_no_part() {
    let verifier = ChunkVerifier::new();
    let at = Some("2026-01-01T00:00:00Z".to_string());
    assert_eq!(
        verifier.calculate_confidence(true, &file(), 6, &at),
        verifier.calculate_confidence(true, &file(), 6, &None)
    );
}

#[test]
fn confidence_levels_are_ordered() {
    assert!(Confidence::Unverified < Confidence::Low);
    assert!(Confidence::Low < Confidence::Medium);
    assert!(Confidence::Medium < Confidence::High);
    assert!(Confidence::High > Confidence::Unverified);
    assert!(Confidence::Medium >= Confidence::Medium);
    assert_eq!(Confidence::Unverified.level(), 0);
    assert_eq!(Confidence::High.level(), 3);
}

#[test]
fn confidence_display() {
    assert_eq!(Confidence::Unverified.to_string(), "none");
    assert_eq!(Confidence::Low.to_string(), "low");
    assert_eq!(Confidence::Medium.to_string(), "medium");
    assert_eq!(Confidence::High.to_string(), "high");
}
