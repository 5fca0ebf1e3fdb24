//! Context Yield: what an accepted task made of the context it was given.
use vstd::prelude::*;

use crate::compiled_context::{
    check_stored_length, checks_out, validated_legacy_context_ir, ExpectedContext, ExpectedView,
};
use crate::context_ir::{ContextIr, ContextUseEvent, TaskKind, TaskSession, TaskSessionState};
use crate::context_metrics::{
    ContextMetricInvalidity, ContextMetrics, EvidenceClass, MetricFraction, MetricUnit,
};
use crate::context_route::MAX_COMPILED_CONTEXT_DOCUMENT_BYTES;
use crate::digest;
use crate::digest::hash_of_text;
use crate::error;
use crate::error::AtlasError;
use crate::json;
use crate::json::append_quoted;
use crate::naming::{name_parts, named_by, NameRequest};
use crate::text;

verus! {

pub const ESTIMATOR_POLICY_VERSION: &'static str = "estimator-v1";

pub const METRIC_POLICY_VERSION: &'static str = "context-yield-v1.5";

#[derive(Debug, Clone, Copy, PartialEq, Eq, Structural)]
pub enum ContextYieldMetricName {
    ContextPrecisionObserved,
    ContextPrecisionReported,
    ContextExpansionCount,
    RediscoveryRate,
    SourceEfficiencyObserved,
}

#[derive(Debug, Clone, Copy, PartialEq, Eq, Structural)]
pub enum ContextYieldMetricUnit {
    Items,
    Requests,
    Bytes,
}

#[derive(Debug, Clone, Copy, PartialEq, Eq, Structural)]
pub enum ContextYieldEvidenceClass {
    AtlasObserved,
    ReportedUse,
    ObservedAndReported,
}

#[derive(Debug, Clone, Copy, PartialEq, Eq, Structural)]
pub enum ContextYieldMetricInvalidity {
    ZeroDenominator,
    InvalidIdentity,
    InvalidRange,
    InvalidSourceBytes,
    MissingEvidenceIdentity,
    UnsupportedEntityKind,
    ConflictingSuppliedBytes,
    CapacityExceeded,
    ArithmeticOverflow,
}

/// A metric as a report carries it.
#[derive(Debug, Clone, Copy, PartialEq, Eq)]
pub struct ContextYieldRawMetric {
    pub name: ContextYieldMetricName,
    pub numerator: u64,
    pub denominator: u64,
    pub unit: ContextYieldMetricUnit,
    pub evidence_class: ContextYieldEvidenceClass,
    pub invalidity: Option<ContextYieldMetricInvalidity>,
}

/// The unit of a metric in a report.
pub open spec fn yield_unit(unit: MetricUnit) -> ContextYieldMetricUnit {
    match unit {
        MetricUnit::Items => ContextYieldMetricUnit::Items,
        MetricUnit::Requests => ContextYieldMetricUnit::Requests,
        MetricUnit::Bytes => ContextYieldMetricUnit::Bytes,
    }
}

/// The evidence class of a metric in a report.
pub open spec fn yield_class(class: EvidenceClass) -> ContextYieldEvidenceClass {
    match class {
        EvidenceClass::AtlasObserved => ContextYieldEvidenceClass::AtlasObserved,
        EvidenceClass::ReportedUse => ContextYieldEvidenceClass::ReportedUse,
        EvidenceClass::ObservedAndReported => ContextYieldEvidenceClass::ObservedAndReported,
    }
}

/// The reason for which a metric is invalid, without its particulars.
pub open spec fn yield_invalidity(
    invalidity: ContextMetricInvalidity,
) -> ContextYieldMetricInvalidity {
    match invalidity {
        ContextMetricInvalidity::ZeroDenominator => ContextYieldMetricInvalidity::ZeroDenominator,
        ContextMetricInvalidity::InvalidIdentity => ContextYieldMetricInvalidity::InvalidIdentity,
        ContextMetricInvalidity::InvalidRange {
            ..
        } => ContextYieldMetricInvalidity::InvalidRange,
        ContextMetricInvalidity::InvalidSourceBytes {
            ..
        } => ContextYieldMetricInvalidity::InvalidSourceBytes,
        ContextMetricInvalidity::MissingEvidenceIdentity {
            ..
        } => ContextYieldMetricInvalidity::MissingEvidenceIdentity,
        ContextMetricInvalidity::UnsupportedEntityKind {
            ..
        } => ContextYieldMetricInvalidity::UnsupportedEntityKind,
        ContextMetricInvalidity::ConflictingSuppliedBytes {
            ..
        } => ContextYieldMetricInvalidity::ConflictingSuppliedBytes,
        ContextMetricInvalidity::CapacityExceeded {
            ..
        } => ContextYieldMetricInvalidity::CapacityExceeded,
        ContextMetricInvalidity::ArithmeticOverflow =>
            ContextYieldMetricInvalidity::ArithmeticOverflow,
    }
}

/// A metric as a report carries it.
pub open spec fn yield_metric(
    name: ContextYieldMetricName,
    metric: MetricFraction,
) -> ContextYieldRawMetric {
    ContextYieldRawMetric {
        name,
        numerator: metric.numerator,
        denominator: metric.denominator,
        unit: yield_unit(metric.unit),
        evidence_class: yield_class(metric.evidence_class),
        invalidity: match metric.invalidity {
            Some(invalidity) => Some(yield_invalidity(invalidity)),
            None => None,
        },
    }
}

/// A metric as a report carries it.
pub fn context_yield_metric(name: ContextYieldMetricName, metric: &MetricFraction) -> (r:
    ContextYieldRawMetric)
    ensures
        r == yield_metric(name, *metric),
{
    let unit = match metric.unit {
        MetricUnit::Items => ContextYieldMetricUnit::Items,
        MetricUnit::Requests => ContextYieldMetricUnit::Requests,
        MetricUnit::Bytes => ContextYieldMetricUnit::Bytes,
    };
    let evidence_class = match metric.evidence_class {
        EvidenceClass::AtlasObserved => ContextYieldEvidenceClass::AtlasObserved,
        EvidenceClass::ReportedUse => ContextYieldEvidenceClass::ReportedUse,
        EvidenceClass::ObservedAndReported => ContextYieldEvidenceClass::ObservedAndReported,
    };
    let invalidity = match &metric.invalidity {
        None => None,
        Some(invalidity) => Some(
            match invalidity {
                ContextMetricInvalidity::ZeroDenominator =>
                    ContextYieldMetricInvalidity::ZeroDenominator,
                ContextMetricInvalidity::InvalidIdentity =>
                    ContextYieldMetricInvalidity::InvalidIdentity,
                ContextMetricInvalidity::InvalidRange {
                    ..
                } => ContextYieldMetricInvalidity::InvalidRange,
                ContextMetricInvalidity::InvalidSourceBytes {
                    ..
                } => ContextYieldMetricInvalidity::InvalidSourceBytes,
                ContextMetricInvalidity::MissingEvidenceIdentity {
                    ..
                } => ContextYieldMetricInvalidity::MissingEvidenceIdentity,
                ContextMetricInvalidity::UnsupportedEntityKind {
                    ..
                } => ContextYieldMetricInvalidity::UnsupportedEntityKind,
                ContextMetricInvalidity::ConflictingSuppliedBytes {
                    ..
                } => ContextYieldMetricInvalidity::ConflictingSuppliedBytes,
                ContextMetricInvalidity::CapacityExceeded {
                    ..
                } => ContextYieldMetricInvalidity::CapacityExceeded,
                ContextMetricInvalidity::ArithmeticOverflow =>
                    ContextYieldMetricInvalidity::ArithmeticOverflow,
            },
        ),
    };
    ContextYieldRawMetric {
        name,
        numerator: metric.numerator,
        denominator: metric.denominator,
        unit,
        evidence_class,
        invalidity,
    }
}

// ---------------------------------------------------------------------------
// The accepted outcome
// ---------------------------------------------------------------------------

/// The outcome of an accepted task.
#[derive(Debug)]
pub struct AcceptedOutcome {
    pub completed_at: String,
    pub outcome_hash: String,
}

/// A yes, a no or neither, in JSON.
pub open spec fn verdict_text(value: Option<bool>) -> Seq<char> {
    match value {
        Some(true) => "true"@,
        Some(false) => "false"@,
        None => "null"@,
    }
}

/// The record under the digest of an accepted outcome.
pub open spec fn outcome_text(session: TaskSession) -> Seq<char> {
    "[\"context-yield-accepted-outcome-v1\","@ + json::quoted(session.task_session_id@) + ","@
        + json::quoted(session.end_generation_id->0@) + ","@ + json::quoted(
        session.end_tree_hash->0@,
    ) + ","@ + verdict_text(session.tests_passed) + ","@ + json::quoted(session.outcome_code->0@)
        + "]"@
}

/// The session was completed and accepted.
pub open spec fn is_accepted(session: TaskSession) -> bool {
    session.state == TaskSessionState::Completed && session.accepted == Some(true)
}

/// What an accepted session lacks, in the order in which it is looked for.
pub open spec fn outcome_gap(session: TaskSession) -> Option<Seq<char>> {
    if session.completed_at is None {
        Some("accepted completed task has no completion time"@)
    } else if session.end_generation_id is None {
        Some("accepted completed task has no end generation"@)
    } else if session.end_tree_hash is None {
        Some("accepted completed task has no end tree hash"@)
    } else if session.outcome_code is None {
        Some("accepted completed task has no outcome code"@)
    } else {
        None
    }
}

/// The outcome of a session: none where it was not accepted. An accepted session
/// that lacks part of its outcome is refused.
pub fn accepted_outcome(session: &TaskSession) -> (r: Result<Option<AcceptedOutcome>, AtlasError>)
    ensures
        if !is_accepted(*session) {
            r matches Ok(None)
        } else {
            match outcome_gap(*session) {
                Some(message) => error::refused_as_invalid(r, message),
                None => r matches Ok(Some(outcome)) && outcome.completed_at@
                    == session.completed_at->0@ && outcome.outcome_hash@ == digest::content_hash(
                    digest::text_field(outcome_text(*session)),
                ),
            }
        },
{
    let accepted = match session.accepted {
        Some(accepted) => accepted,
        None => false,
    };
    if session.state != TaskSessionState::Completed || !accepted {
        return Ok(None);
    }
    let completed_at = match &session.completed_at {
        Some(value) => value,
        None => return Err(
            AtlasError::InvalidConfig("accepted completed task has no completion time".to_string()),
        ),
    };
    let end_generation_id = match &session.end_generation_id {
        Some(value) => value,
        None => return Err(
            AtlasError::InvalidConfig("accepted completed task has no end generation".to_string()),
        ),
    };
    let end_tree_hash = match &session.end_tree_hash {
        Some(value) => value,
        None => return Err(
            AtlasError::InvalidConfig("accepted completed task has no end tree hash".to_string()),
        ),
    };
    let outcome_code = match &session.outcome_code {
        Some(value) => value,
        None => return Err(
            AtlasError::InvalidConfig("accepted completed task has no outcome code".to_string()),
        ),
    };
    let mut line = String::new();
    line.append("[\"context-yield-accepted-outcome-v1\",");
    append_quoted(&mut line, session.task_session_id.as_str());
    line.append(",");
    append_quoted(&mut line, end_generation_id.as_str());
    line.append(",");
    append_quoted(&mut line, end_tree_hash.as_str());
    line.append(",");
    match session.tests_passed {
        Some(true) => line.append("true"),
        Some(false) => line.append("false"),
        None => line.append("null"),
    }
    line.append(",");
    append_quoted(&mut line, outcome_code.as_str());
    line.append("]");
    assert(line@ =~= outcome_text(*session));
    Ok(
        Some(
            AcceptedOutcome {
                completed_at: completed_at.clone(),
                outcome_hash: hash_of_text(line.as_str()),
            },
        ),
    )
}

// ---------------------------------------------------------------------------
// The report
// ---------------------------------------------------------------------------

/// The size of the context that was given.
#[derive(Debug)]
pub struct ContextYieldRawSample {
    pub context_hash: String,
    pub working_set_size: i64,
    pub selected_source_bytes: i64,
    pub selected_estimated_tokens: i64,
    pub serving_fallback: bool,
    pub truncated: bool,
}

#[derive(Debug, Clone, Copy, PartialEq, Eq)]
pub struct ContextYieldObservationCoverage {
    pub observed_events: u64,
    pub eligible_events: u64,
    pub complete: bool,
}

#[derive(Debug, Clone, Copy, PartialEq, Eq, Structural)]
pub enum ContextYieldLimitation {
    PartialObservationCoverage,
    SmallSampleSize,
    ServingFallback,
    TruncatedContext,
    SingleEnvironment,
}

#[derive(Debug, Clone, Copy, PartialEq, Eq, Structural)]
pub enum ContextYieldOutcomeAcceptance {
    Accepted,
}

#[derive(Debug)]
pub struct ContextYieldOutcome {
    pub acceptance: ContextYieldOutcomeAcceptance,
    pub outcome_hash: String,
}

#[derive(Debug)]
pub struct ContextYieldRawMeasures {
    pub samples: Vec<ContextYieldRawSample>,
    pub metrics: Vec<ContextYieldRawMetric>,
}

#[derive(Debug)]
pub struct ContextYieldValidity {
    pub is_valid: bool,
    pub observation_coverage: ContextYieldObservationCoverage,
    pub limitations: Vec<ContextYieldLimitation>,
}

#[derive(Debug)]
pub struct ContextYieldReportContentV15 {
    pub report_id: String,
    pub workspace_id: String,
    pub generation_id: String,
    pub task_hash: String,
    pub task_kind: TaskKind,
    pub planner_policy_version: String,
    pub projection_policy_version: String,
    pub estimator_policy_version: String,
    pub metric_policy_version: String,
    pub experimental_profile: Option<String>,
    pub accepted_outcome: ContextYieldOutcome,
    pub sample_size: u64,
    pub raw_measures: ContextYieldRawMeasures,
    pub validity: ContextYieldValidity,
}

#[derive(Debug)]
pub struct ContextYieldExecutionMetadata {
    pub run_id: String,
    pub generated_at: String,
}

#[derive(Debug)]
pub struct ContextYieldReportV15 {
    pub schema_version: String,
    pub content: ContextYieldReportContentV15,
    pub execution: ContextYieldExecutionMetadata,
}

/// The metrics of a report, in order.
pub open spec fn report_metrics(metrics: ContextMetrics) -> Seq<ContextYieldRawMetric> {
    seq![
        yield_metric(
            ContextYieldMetricName::ContextPrecisionObserved,
            metrics.context_precision_observed,
        ),
        yield_metric(
            ContextYieldMetricName::ContextPrecisionReported,
            metrics.context_precision_reported,
        ),
        yield_metric(
            ContextYieldMetricName::ContextExpansionCount,
            metrics.context_expansion_count,
        ),
        yield_metric(ContextYieldMetricName::RediscoveryRate, metrics.rediscovery_rate),
        yield_metric(
            ContextYieldMetricName::SourceEfficiencyObserved,
            metrics.source_efficiency_observed,
        ),
    ]
}

/// Every eligible event was observed.
pub open spec fn fully_observed(metrics: ContextMetrics) -> bool {
    metrics.context_precision_observed.numerator == metrics.context_precision_observed.denominator
}

/// The entry if the condition holds.
pub open spec fn entry_if(condition: bool, entry: ContextYieldLimitation) -> Seq<
    ContextYieldLimitation,
> {
    if condition {
        seq![entry]
    } else {
        Seq::empty()
    }
}

/// What limits a report, in order. One session in one environment always does.
pub open spec fn report_limitations(metrics: ContextMetrics, context: ContextIr) -> Seq<
    ContextYieldLimitation,
> {
    entry_if(!fully_observed(metrics), ContextYieldLimitation::PartialObservationCoverage) + seq![
        ContextYieldLimitation::SmallSampleSize,
    ] + entry_if(context.status.serving_fallback, ContextYieldLimitation::ServingFallback)
        + entry_if(context.omissions.truncated, ContextYieldLimitation::TruncatedContext) + seq![
        ContextYieldLimitation::SingleEnvironment,
    ]
}

/// No metric is invalid.
pub open spec fn all_metrics_valid(metrics: ContextMetrics) -> bool {
    metrics.context_precision_observed.invalidity is None
        && metrics.context_precision_reported.invalidity is None
        && metrics.context_expansion_count.invalidity is None
        && metrics.rediscovery_rate.invalidity is None
        && metrics.source_efficiency_observed.invalidity is None
}

/// What makes a report the one that it is: the workspace, the generation, the
/// session, the task, the outcome and the context.
pub open spec fn report_parts(
    workspace_id: Seq<char>,
    session: TaskSession,
    outcome: AcceptedOutcome,
    context: ContextIr,
) -> Seq<Seq<char>> {
    seq![
        workspace_id,
        session.start_generation_id@,
        session.task_session_id@,
        session.task_hash@,
        outcome.outcome_hash@,
        context.context_hash@,
    ]
}

/// What makes a report the one that it is.
pub fn report_identity(
    workspace_id: &str,
    session: &TaskSession,
    outcome: &AcceptedOutcome,
    context: &ContextIr,
) -> (r: Vec<String>)
    ensures
        text::texts(r@) == report_parts(workspace_id@, *session, *outcome, *context),
{
    let mut out: Vec<String> = Vec::new();
    out.push(workspace_id.to_string());
    out.push(session.start_generation_id.clone());
    out.push(session.task_session_id.clone());
    out.push(session.task_hash.clone());
    out.push(outcome.outcome_hash.clone());
    out.push(context.context_hash.clone());
    assert(text::texts(out@) =~= report_parts(workspace_id@, *session, *outcome, *context));
    out
}

/// The names that a report gets.
#[derive(Debug)]
pub struct ReportNames {
    pub schema_version: String,
    pub report_id: String,
    pub run_id: String,
}

/// The report says of the context what the context holds.
pub open spec fn sample_of(sample: ContextYieldRawSample, context: ContextIr) -> bool {
    &&& sample.context_hash@ == context.context_hash@
    &&& sample.working_set_size == context.working_set@.len()
    &&& sample.selected_source_bytes == context.cost.selected_source_bytes
    &&& sample.selected_estimated_tokens == context.cost.selected_estimated_tokens
    &&& sample.serving_fallback == context.status.serving_fallback
    &&& sample.truncated == context.omissions.truncated
}

/// The report on a session with an outcome, the context that it was given and the
/// metrics of its use.
pub open spec fn report_of(
    report: ContextYieldReportV15,
    names: ReportNames,
    workspace_id: Seq<char>,
    session: TaskSession,
    outcome: AcceptedOutcome,
    context: ContextIr,
    metrics: ContextMetrics,
) -> bool {
    let content = report.content;
    &&& report.schema_version@ == names.schema_version@
    &&& content.report_id@ == names.report_id@
    &&& content.workspace_id@ == workspace_id
    &&& content.generation_id@ == session.start_generation_id@
    &&& content.task_hash@ == session.task_hash@
    &&& content.task_kind == session.task_kind
    &&& content.planner_policy_version@ == context.policy.planner_policy_version@
    &&& content.projection_policy_version@ == context.policy.projection_policy_version@
    &&& content.estimator_policy_version@ == ESTIMATOR_POLICY_VERSION@
    &&& content.metric_policy_version@ == METRIC_POLICY_VERSION@
    &&& content.experimental_profile is None
    &&& content.accepted_outcome.acceptance == ContextYieldOutcomeAcceptance::Accepted
    &&& content.accepted_outcome.outcome_hash@ == outcome.outcome_hash@
    &&& content.sample_size == 1
    &&& content.raw_measures.samples@.len() == 1
    &&& sample_of(content.raw_measures.samples@[0], context)
    &&& content.raw_measures.metrics@ == report_metrics(metrics)
    &&& content.validity.is_valid == all_metrics_valid(metrics)
    &&& content.validity.observation_coverage.observed_events
        == metrics.context_precision_observed.numerator
    &&& content.validity.observation_coverage.eligible_events
        == metrics.context_precision_observed.denominator
    &&& content.validity.observation_coverage.complete == fully_observed(metrics)
    &&& content.validity.limitations@ == report_limitations(metrics, context)
    &&& report.execution.run_id@ == names.run_id@
    &&& report.execution.generated_at@ == outcome.completed_at@
}

/// The report on an accepted session.
pub fn accepted_report(
    names: ReportNames,
    workspace_id: &str,
    session: &TaskSession,
    outcome: &AcceptedOutcome,
    context: &ContextIr,
    metrics: &ContextMetrics,
) -> (r: Result<ContextYieldReportV15, AtlasError>)
    ensures
        if context.working_set@.len() > i64::MAX {
            r matches Err(AtlasError::Other(m)) && m@ == "Context Yield working-set size overflow"@
        } else {
            r matches Ok(report) && report_of(
                report,
                names,
                workspace_id@,
                *session,
                *outcome,
                *context,
                *metrics,
            )
        },
{
    let mut raw_metrics: Vec<ContextYieldRawMetric> = Vec::new();
    raw_metrics.push(
        context_yield_metric(
            ContextYieldMetricName::ContextPrecisionObserved,
            &metrics.context_precision_observed,
        ),
    );
    raw_metrics.push(
        context_yield_metric(
            ContextYieldMetricName::ContextPrecisionReported,
            &metrics.context_precision_reported,
        ),
    );
    raw_metrics.push(
        context_yield_metric(
            ContextYieldMetricName::ContextExpansionCount,
            &metrics.context_expansion_count,
        ),
    );
    raw_metrics.push(
        context_yield_metric(ContextYieldMetricName::RediscoveryRate, &metrics.rediscovery_rate),
    );
    raw_metrics.push(
        context_yield_metric(
            ContextYieldMetricName::SourceEfficiencyObserved,
            &metrics.source_efficiency_observed,
        ),
    );
    assert(raw_metrics@ =~= report_metrics(*metrics));
    if context.working_set.len() as u64 > i64::MAX as u64 {
        return Err(AtlasError::Other("Context Yield working-set size overflow".to_string()));
    }
    let sample = ContextYieldRawSample {
        context_hash: context.context_hash.clone(),
        working_set_size: context.working_set.len() as i64,
        selected_source_bytes: context.cost.selected_source_bytes,
        selected_estimated_tokens: context.cost.selected_estimated_tokens,
        serving_fallback: context.status.serving_fallback,
        truncated: context.omissions.truncated,
    };
    let observed = &metrics.context_precision_observed;
    let observation_coverage = ContextYieldObservationCoverage {
        observed_events: observed.numerator,
        eligible_events: observed.denominator,
        complete: observed.numerator == observed.denominator,
    };
    let mut limitations: Vec<ContextYieldLimitation> = Vec::new();
    if !observation_coverage.complete {
        limitations.push(ContextYieldLimitation::PartialObservationCoverage);
    }
    limitations.push(ContextYieldLimitation::SmallSampleSize);
    if sample.serving_fallback {
        limitations.push(ContextYieldLimitation::ServingFallback);
    }
    if sample.truncated {
        limitations.push(ContextYieldLimitation::TruncatedContext);
    }
    limitations.push(ContextYieldLimitation::SingleEnvironment);
    assert(limitations@ =~= report_limitations(*metrics, *context));
    let is_valid = metrics.context_precision_observed.invalidity.is_none()
        && metrics.context_precision_reported.invalidity.is_none()
        && metrics.context_expansion_count.invalidity.is_none()
        && metrics.rediscovery_rate.invalidity.is_none()
        && metrics.source_efficiency_observed.invalidity.is_none();
    let mut samples: Vec<ContextYieldRawSample> = Vec::new();
    samples.push(sample);
    Ok(
        ContextYieldReportV15 {
            schema_version: names.schema_version,
            content: ContextYieldReportContentV15 {
                report_id: names.report_id,
                workspace_id: workspace_id.to_string(),
                generation_id: session.start_generation_id.clone(),
                task_hash: session.task_hash.clone(),
                task_kind: session.task_kind,
                planner_policy_version: context.policy.planner_policy_version.clone(),
                projection_policy_version: context.policy.projection_policy_version.clone(),
                estimator_policy_version: ESTIMATOR_POLICY_VERSION.to_string(),
                metric_policy_version: METRIC_POLICY_VERSION.to_string(),
                experimental_profile: None,
                accepted_outcome: ContextYieldOutcome {
                    acceptance: ContextYieldOutcomeAcceptance::Accepted,
                    outcome_hash: outcome.outcome_hash.clone(),
                },
                sample_size: 1,
                raw_measures: ContextYieldRawMeasures { samples, metrics: raw_metrics },
                validity: ContextYieldValidity { is_valid, observation_coverage, limitations },
            },
            execution: ContextYieldExecutionMetadata {
                run_id: names.run_id,
                generated_at: outcome.completed_at.clone(),
            },
        },
    )
}

/// A stored context as it was read for a report.
#[derive(Debug)]
pub struct StoredContext {
    pub length: i64,
    pub document: String,
    pub context_hash: String,
    pub context_id: String,
    /// What the parser made of the document, or why it refused to.
    pub parsed: Result<ContextIr, String>,
}

/// What the stored context of a session must be.
pub open spec fn expected_of(
    stored: StoredContext,
    workspace_id: Seq<char>,
    session: TaskSession,
) -> ExpectedView {
    ExpectedView {
        stored_hash: stored.context_hash@,
        workspace_id,
        context_id: stored.context_id@,
        task_session_id: Some(session.task_session_id@),
    }
}

/// The report on a session under its own outcome. Its identifier is named after what
/// makes it the one that it is, and its run after the report.
pub open spec fn reports_outcome<F: Fn(NameRequest) -> String>(
    report: ContextYieldReportV15,
    schema_version: Seq<char>,
    namer: F,
    workspace_id: Seq<char>,
    session: TaskSession,
    context: ContextIr,
    metrics: ContextMetrics,
) -> bool {
    exists|outcome: AcceptedOutcome, names: ReportNames|
        {
            &&& outcome.completed_at@ == session.completed_at->0@
            &&& outcome.outcome_hash@ == digest::content_hash(
                digest::text_field(outcome_text(session)),
            )
            &&& names.schema_version@ == schema_version
            &&& named_by(
                namer,
                "yield"@,
                report_parts(workspace_id, session, outcome, context),
                names.report_id,
            )
            &&& named_by(namer, "run"@, seq![names.report_id@], names.run_id)
            &&& #[trigger] report_of(
                report,
                names,
                workspace_id,
                session,
                outcome,
                context,
                metrics,
            )
        }
}

/// What a session projects into: nothing unless it was accepted and has a stored
/// context; else its report, or the first thing that stands against it.
pub open spec fn projects<F: Fn(NameRequest) -> String>(
    r: Result<Option<ContextYieldReportV15>, AtlasError>,
    schema_version: Seq<char>,
    namer: F,
    workspace_id: Seq<char>,
    session: TaskSession,
    stored: Option<StoredContext>,
    metrics: ContextMetrics,
) -> bool {
    if !is_accepted(session) {
        r matches Ok(None)
    } else if outcome_gap(session) is Some {
        error::refused_as_invalid(r, outcome_gap(session)->0)
    } else {
        match stored {
            None => r matches Ok(None),
            Some(stored) => if !(0 <= stored.length <= MAX_COMPILED_CONTEXT_DOCUMENT_BYTES) {
                error::refused_as_invalid(
                    r,
                    "stored Context IR exceeds the serialized document bound"@,
                )
            } else {
                exists|checked: Result<ContextIr, AtlasError>|
                    {
                        &&& #[trigger] checks_out(
                            checked,
                            stored.document@,
                            expected_of(stored, workspace_id, session),
                            stored.parsed,
                        )
                        &&& match checked {
                            Err(problem) => r == Err::<Option<ContextYieldReportV15>, AtlasError>(
                                problem,
                            ),
                            Ok(context) => if context.working_set@.len() > i64::MAX {
                                error::failed(r, "Context Yield working-set size overflow"@)
                            } else {
                                r matches Ok(Some(report)) && reports_outcome(
                                    report,
                                    schema_version,
                                    namer,
                                    workspace_id,
                                    session,
                                    context,
                                    metrics,
                                )
                            },
                        }
                    }
            },
        }
    }
}

/// Projects a session into a report. `namer` makes the identifiers.
pub fn project_context_yield_report_v15<F: Fn(NameRequest) -> String>(
    schema_version: &str,
    namer: &F,
    workspace_id: &str,
    session: &TaskSession,
    stored: Option<StoredContext>,
    metrics: &ContextMetrics,
) -> (r: Result<Option<ContextYieldReportV15>, AtlasError>)
    requires
        forall|request: NameRequest| call_requires(*namer, (request,)),
    ensures
        projects(r, schema_version@, *namer, workspace_id@, *session, stored, *metrics),
{
    let outcome = match accepted_outcome(session) {
        Ok(Some(outcome)) => outcome,
        Ok(None) => return Ok(None),
        Err(problem) => return Err(problem),
    };
    let stored = match stored {
        Some(stored) => stored,
        None => return Ok(None),
    };
    match check_stored_length(stored.length) {
        Ok(()) => {},
        Err(problem) => return Err(problem),
    }
    let ghost given = stored;
    let expected = ExpectedContext {
        stored_hash: stored.context_hash.as_str(),
        workspace_id,
        context_id: stored.context_id.as_str(),
        task_session_id: Some(session.task_session_id.as_str()),
    };
    assert(expected@ == expected_of(given, workspace_id@, *session));
    let checked = validated_legacy_context_ir(stored.document.as_str(), expected, stored.parsed);
    let ghost seen = checked;
    assert(checks_out(
        seen,
        given.document@,
        expected_of(given, workspace_id@, *session),
        given.parsed,
    ));
    let context = match checked {
        Ok(context) => context,
        Err(problem) => return Err(problem),
    };
    let report_id = name_parts(
        namer,
        "yield",
        report_identity(workspace_id, session, &outcome, &context),
    );
    let mut run_parts: Vec<String> = Vec::new();
    run_parts.push(report_id.clone());
    assert(text::texts(run_parts@) =~= seq![report_id@]);
    let run_id = name_parts(namer, "run", run_parts);
    let names = ReportNames { schema_version: schema_version.to_string(), report_id, run_id };
    let ghost named = names;
    match accepted_report(names, workspace_id, session, &outcome, &context, metrics) {
        Ok(report) => {
            assert(report_of(
                report,
                named,
                workspace_id@,
                *session,
                outcome,
                context,
                *metrics,
            ));
            assert(reports_outcome(
                report,
                schema_version@,
                *namer,
                workspace_id@,
                *session,
                context,
                *metrics,
            ));
            Ok(Some(report))
        },
        Err(problem) => Err(problem),
    }
}

/// A report is valid exactly where none of the metrics that it carries is invalid,
/// and it always names its small sample and its single environment.
pub proof fn law_reports_own_their_limits(
    report: ContextYieldReportV15,
    names: ReportNames,
    workspace_id: Seq<char>,
    session: TaskSession,
    outcome: AcceptedOutcome,
    context: ContextIr,
    metrics: ContextMetrics,
)
    requires
        report_of(report, names, workspace_id, session, outcome, context, metrics),
    ensures
        report.content.validity.is_valid <==> (forall|i: int|
            0 <= i < report.content.raw_measures.metrics@.len() ==> (
            #[trigger] report.content.raw_measures.metrics@[i]).invalidity is None),
        report.content.validity.limitations@.contains(ContextYieldLimitation::SmallSampleSize),
        report.content.validity.limitations@.contains(ContextYieldLimitation::SingleEnvironment),
        report.content.validity.limitations@.contains(
            ContextYieldLimitation::PartialObservationCoverage,
        ) <==> !report.content.validity.observation_coverage.complete,
{
    let carried = report.content.raw_measures.metrics@;
    let all = report_metrics(metrics);
    assert(carried.len() == 5);
    assert(carried[0] == all[0] && carried[1] == all[1] && carried[2] == all[2] && carried[3]
        == all[3] && carried[4] == all[4]);
    let limits = report.content.validity.limitations@;
    let head = entry_if(
        !fully_observed(metrics),
        ContextYieldLimitation::PartialObservationCoverage,
    );
    assert(limits[head.len() as int] == ContextYieldLimitation::SmallSampleSize);
    assert(limits.last() == ContextYieldLimitation::SingleEnvironment);
    if !fully_observed(metrics) {
        assert(limits[0] == ContextYieldLimitation::PartialObservationCoverage);
    }
}

// ---------------------------------------------------------------------------
// The page
// ---------------------------------------------------------------------------

/// A fraction as a page shows it.
#[derive(Debug, Clone, Copy, PartialEq, Eq)]
pub struct ShownFraction {
    pub numerator: u64,
    pub denominator: u64,
}

/// The metrics of a session as a page shows them.
#[derive(Debug)]
pub struct ShownMetrics {
    pub supplied_count: usize,
    pub observed_count: usize,
    pub reported_count: usize,
    pub changed_count: usize,
    pub expanded_count: usize,
    pub rediscovered_count: usize,
    pub context_precision_observed: ShownFraction,
    pub context_precision_reported: ShownFraction,
    pub context_expansion_count: ShownFraction,
    pub rediscovery_rate: ShownFraction,
    pub source_efficiency_observed: ShownFraction,
}

/// A fraction as a page shows it.
pub open spec fn shown(metric: MetricFraction) -> ShownFraction {
    ShownFraction { numerator: metric.numerator, denominator: metric.denominator }
}

fn show_fraction(metric: &MetricFraction) -> (r: ShownFraction)
    ensures
        r == shown(*metric),
{
    ShownFraction { numerator: metric.numerator, denominator: metric.denominator }
}

/// The metrics are shown as they are.
pub open spec fn shows(page: ShownMetrics, metrics: ContextMetrics) -> bool {
    &&& page.supplied_count == metrics.supplied@.len()
    &&& page.observed_count == metrics.observed@.len()
    &&& page.reported_count == metrics.reported@.len()
    &&& page.changed_count == metrics.changed@.len()
    &&& page.expanded_count == metrics.expanded@.len()
    &&& page.rediscovered_count == metrics.rediscovered@.len()
    &&& page.context_precision_observed == shown(metrics.context_precision_observed)
    &&& page.context_precision_reported == shown(metrics.context_precision_reported)
    &&& page.context_expansion_count == shown(metrics.context_expansion_count)
    &&& page.rediscovery_rate == shown(metrics.rediscovery_rate)
    &&& page.source_efficiency_observed == shown(metrics.source_efficiency_observed)
}

/// What was read of a session: the session, a page of its events, the cursor of the
/// next page, and the metrics of its use, if they were captured.
#[derive(Debug)]
pub struct ContextYieldSnapshot {
    pub task_session: TaskSession,
    pub events: Vec<ContextUseEvent>,
    pub metrics: Option<ContextMetrics>,
    pub next_cursor: Option<String>,
}

#[derive(Debug)]
pub struct ContextYieldShowPage {
    pub task_session: TaskSession,
    pub events: Vec<ContextUseEvent>,
    pub metrics: ShownMetrics,
    pub report: Option<ContextYieldReportV15>,
    pub next_cursor: Option<String>,
}

/// A Context Yield page: what was read of a session and the report on it. A session
/// whose metrics were not captured is refused, then one whose report fails.
pub fn show_context_yield<F: Fn(NameRequest) -> String>(
    snapshot: ContextYieldSnapshot,
    schema_version: &str,
    namer: &F,
    workspace_id: &str,
    stored: Option<StoredContext>,
) -> (r: Result<ContextYieldShowPage, AtlasError>)
    requires
        forall|request: NameRequest| call_requires(*namer, (request,)),
    ensures
        match snapshot.metrics {
            None => error::failed(r, "context-yield metrics snapshot was not captured"@),
            Some(metrics) => exists|report: Result<Option<ContextYieldReportV15>, AtlasError>|
                {
                    &&& #[trigger] projects(
                        report,
                        schema_version@,
                        *namer,
                        workspace_id@,
                        snapshot.task_session,
                        stored,
                        metrics,
                    )
                    &&& match report {
                        Err(problem) => r == Err::<ContextYieldShowPage, AtlasError>(problem),
                        Ok(report) => r matches Ok(page) && page.task_session
                            == snapshot.task_session && page.events == snapshot.events && shows(
                            page.metrics,
                            metrics,
                        ) && page.report == report && page.next_cursor == snapshot.next_cursor,
                    }
                },
        },
{
    let metrics = match snapshot.metrics {
        Some(metrics) => metrics,
        None => return Err(
            AtlasError::Other("context-yield metrics snapshot was not captured".to_string()),
        ),
    };
    let projected = project_context_yield_report_v15(
        schema_version,
        namer,
        workspace_id,
        &snapshot.task_session,
        stored,
        &metrics,
    );
    let report = match projected {
        Ok(report) => report,
        Err(problem) => return Err(problem),
    };
    let shown_metrics = ShownMetrics {
        supplied_count: metrics.supplied.len(),
        observed_count: metrics.observed.len(),
        reported_count: metrics.reported.len(),
        changed_count: metrics.changed.len(),
        expanded_count: metrics.expanded.len(),
        rediscovered_count: metrics.rediscovered.len(),
        context_precision_observed: show_fraction(&metrics.context_precision_observed),
        context_precision_reported: show_fraction(&metrics.context_precision_reported),
        context_expansion_count: show_fraction(&metrics.context_expansion_count),
        rediscovery_rate: show_fraction(&metrics.rediscovery_rate),
        source_efficiency_observed: show_fraction(&metrics.source_efficiency_observed),
    };
    Ok(
        ContextYieldShowPage {
            task_session: snapshot.task_session,
            events: snapshot.events,
            metrics: shown_metrics,
            report,
            next_cursor: snapshot.next_cursor,
        },
    )
}

} // verus!
