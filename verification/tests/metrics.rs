use workspace_atlas::context_metrics::{
    derive_context_metrics, CanonicalEvidenceId, CanonicalEvidenceKind, ContextMetricEvidence,
    ContextMetricInvalidity, ObservedEvidence, SuppliedEvidence,
};
use workspace_atlas::text::is_blank;

fn file(id: &str) -> CanonicalEvidenceId {
    CanonicalEvidenceId::entity(CanonicalEvidenceKind::File, id.into()).unwrap()
}

fn supplied(id: &str, bytes: u64) -> SuppliedEvidence {
    SuppliedEvidence::new(file(id), bytes)
}

fn read(id: &str) -> ObservedEvidence {
    ObservedEvidence::new(file(id))
}

#[test]
fn metrics_are_the_set_algebra_of_the_evidence() {
    let metrics = derive_context_metrics(&ContextMetricEvidence {
        supplied: vec![supplied("a", 10), supplied("b", 30), supplied("a", 10)],
        reads: vec![read("a"), read("a"), read("c")],
        reported: vec![file("b"), file("d")],
        changed: vec![file("a")],
    })
    .unwrap();
    assert_eq!(metrics.supplied.len(), 2);
    assert_eq!(metrics.observed.len(), 2);
    assert_eq!(metrics.expanded.len(), 2);
    assert_eq!(metrics.rediscovered.len(), 1);
    assert!(metrics.rediscovered.contains(&file("a")));
    assert!(metrics.expanded.contains(&file("c")));
    assert!(metrics.expanded.contains(&file("d")));
    let shown = |m: &workspace_atlas::context_metrics::MetricFraction| (m.numerator, m.denominator);
    assert_eq!(shown(&metrics.context_precision_observed), (1, 2));
    assert_eq!(shown(&metrics.context_precision_reported), (1, 2));
    assert_eq!(shown(&metrics.context_expansion_count), (2, 1));
    assert_eq!(shown(&metrics.rediscovery_rate), (2, 3));
    assert_eq!(shown(&metrics.source_efficiency_observed), (10, 40));
}

#[test]
fn an_empty_denominator_is_invalid_and_not_an_error() {
    let metrics = derive_context_metrics(&ContextMetricEvidence {
        supplied: vec![],
        reads: vec![],
        reported: vec![],
        changed: vec![],
    })
    .unwrap();
    assert_eq!(
        metrics.rediscovery_rate.invalidity,
        Some(ContextMetricInvalidity::ZeroDenominator)
    );
    assert_eq!(metrics.context_expansion_count.invalidity, None);
}

#[test]
fn supplied_bytes_must_agree() {
    assert!(matches!(
        derive_context_metrics(&ContextMetricEvidence {
            supplied: vec![supplied("a", 10), supplied("a", 11)],
            reads: vec![],
            reported: vec![],
            changed: vec![],
        }),
        Err(ContextMetricInvalidity::ConflictingSuppliedBytes { .. })
    ));
}

#[test]
fn bytes_that_do_not_add_up_are_reported() {
    assert!(matches!(
        derive_context_metrics(&ContextMetricEvidence {
            supplied: vec![supplied("a", u64::MAX), supplied("b", 1)],
            reads: vec![],
            reported: vec![],
            changed: vec![],
        }),
        Err(_)
    ));
}

#[test]
fn identities_must_name_something() {
    assert_eq!(
        CanonicalEvidenceId::entity(CanonicalEvidenceKind::File, " ".into()).unwrap_err(),
        ContextMetricInvalidity::InvalidIdentity
    );
    assert_eq!(
        CanonicalEvidenceId::entity(CanonicalEvidenceKind::Range, "a".into()).unwrap_err(),
        ContextMetricInvalidity::InvalidIdentity
    );
    assert!(CanonicalEvidenceId::range("a".into(), 3, 3).is_ok());
    assert!(CanonicalEvidenceId::range("a".into(), 4, 3).is_err());
    assert_eq!(
        CanonicalEvidenceId::relationship("r".into()).unwrap().kind(),
        CanonicalEvidenceKind::Relationship
    );
}

#[test]
fn an_identity_is_of_the_range_kind_exactly_where_it_has_a_range() {
    let range = CanonicalEvidenceId::range("a".into(), 1, 3).unwrap();
    assert_eq!(range.kind(), CanonicalEvidenceKind::Range);
    let bounds = range.canonical_range().unwrap();
    assert_eq!((bounds.start, bounds.end), (1, 3));
    let entity = CanonicalEvidenceId::entity(CanonicalEvidenceKind::Symbol, " a ".into()).unwrap();
    assert_eq!(entity.kind(), CanonicalEvidenceKind::Symbol);
    assert_eq!(entity.id(), " a ");
    assert!(entity.canonical_range().is_none());
}

#[test]
fn reads_change_neither_supplied_nor_changed_nor_reported_evidence() {
    let evidence = |reads| ContextMetricEvidence {
        supplied: vec![supplied("a", 10)],
        reads,
        reported: vec![file("a")],
        changed: vec![file("b")],
    };
    let quiet = derive_context_metrics(&evidence(vec![])).unwrap();
    let busy = derive_context_metrics(&evidence(vec![read("a"), read("c")])).unwrap();
    assert_eq!(quiet.supplied, busy.supplied);
    assert_eq!(quiet.reported, busy.reported);
    assert_eq!(quiet.changed, busy.changed);
    assert_eq!(quiet.context_precision_reported, busy.context_precision_reported);
    assert_ne!(quiet.context_precision_observed, busy.context_precision_observed);
}

#[test]
fn white_space_is_what_unicode_lists() {
    let white: Vec<char> =
        ('\u{0}'..=char::MAX).filter(|c| is_blank(c.to_string().as_str())).collect();
    let mut listed: Vec<char> = ('\u{9}'..='\u{d}').collect();
    listed.extend([' ', '\u{85}', '\u{a0}', '\u{1680}']);
    listed.extend('\u{2000}'..='\u{200a}');
    listed.extend(['\u{2028}', '\u{2029}', '\u{202f}', '\u{205f}', '\u{3000}']);
    assert_eq!(white, listed);
}
