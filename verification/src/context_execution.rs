//! Execution envelopes: attempts, payloads, materialization and their invariants.
use vstd::prelude::*;

use crate::context_metrics;
use crate::context_metrics::{ContextExecutionCounters, MAX_CONTEXT_EXECUTION_SOURCE_BYTES};
use crate::context_route;
use crate::context_route::{
    valid_digest, valid_opaque_id, CallerCapabilityState, CapabilityMap, ContextRouteDecision,
    ContextRouteError, DecisionView, GenerationObservation, LightOperation, RequiredCapability,
    Route, RouteErrorView, CONTEXT_EXECUTION_VERSION, CONTEXT_IR_VERSION,
    MAX_EXECUTION_DIAGNOSTICS, MAX_MATERIALIZED_SOURCES, MAX_ROUTE_ATTEMPTS,
    QUERY_OPERATION_VERSION, SOURCE_REFERENCE_OPERATION_VERSION,
};
use crate::text;

verus! {

#[derive(Debug, Clone, Copy, PartialEq, Eq, PartialOrd, Ord, Structural)]
pub enum CapabilityDeficitReason {
    Unavailable,
    Ambiguous,
    Conflicting,
    Stale,
    Unsupported,
    SemanticBudgetOmitted,
}

impl CapabilityDeficitReason {
    pub open spec fn spec_rank(self) -> u8 {
        match self {
            CapabilityDeficitReason::Unavailable => 0,
            CapabilityDeficitReason::Ambiguous => 1,
            CapabilityDeficitReason::Conflicting => 2,
            CapabilityDeficitReason::Stale => 3,
            CapabilityDeficitReason::Unsupported => 4,
            CapabilityDeficitReason::SemanticBudgetOmitted => 5,
        }
    }

    fn rank(self) -> (r: u8)
        ensures
            r == self.spec_rank(),
    {
        match self {
            CapabilityDeficitReason::Unavailable => 0,
            CapabilityDeficitReason::Ambiguous => 1,
            CapabilityDeficitReason::Conflicting => 2,
            CapabilityDeficitReason::Stale => 3,
            CapabilityDeficitReason::Unsupported => 4,
            CapabilityDeficitReason::SemanticBudgetOmitted => 5,
        }
    }

    /// The capability cannot be had on the route at all.
    pub open spec fn spec_terminal(self) -> bool {
        self == CapabilityDeficitReason::Unavailable || self == CapabilityDeficitReason::Stale
            || self == CapabilityDeficitReason::Unsupported
    }
}

#[derive(Debug, Clone, Copy, PartialEq, Eq, PartialOrd, Ord, Structural)]
pub enum RouteFailureReason {
    StartingGenerationUnavailable,
    NoActiveGeneration,
    GenerationChanged,
}

impl RouteFailureReason {
    pub open spec fn spec_rank(self) -> u8 {
        match self {
            RouteFailureReason::StartingGenerationUnavailable => 0,
            RouteFailureReason::NoActiveGeneration => 1,
            RouteFailureReason::GenerationChanged => 2,
        }
    }

    fn rank(self) -> (r: u8)
        ensures
            r == self.spec_rank(),
    {
        match self {
            RouteFailureReason::StartingGenerationUnavailable => 0,
            RouteFailureReason::NoActiveGeneration => 1,
            RouteFailureReason::GenerationChanged => 2,
        }
    }
}

#[derive(Debug, Clone, Copy, PartialEq, Eq, PartialOrd, Ord, Structural)]
pub enum RouteDeficit {
    Capability { capability: RequiredCapability, reason: CapabilityDeficitReason },
    Route { reason: RouteFailureReason },
}

impl RouteDeficit {
    /// The position of the deficit in the order of deficits: capability deficits
    /// first, by capability and then by reason.
    pub open spec fn spec_order(self) -> int {
        match self {
            RouteDeficit::Capability { capability, reason } => 8 * capability.spec_rank()
                + reason.spec_rank(),
            RouteDeficit::Route { reason } => 64 + reason.spec_rank(),
        }
    }

    fn order(self) -> (r: u32)
        ensures
            r == self.spec_order(),
    {
        match self {
            RouteDeficit::Capability { capability, reason } => 8 * (capability.rank() as u32)
                + reason.rank() as u32,
            RouteDeficit::Route { reason } => 64 + reason.rank() as u32,
        }
    }
}

/// The deficits are listed in strictly increasing order.
pub open spec fn deficits_ordered(s: Seq<RouteDeficit>) -> bool {
    forall|i: int, j: int|
        0 <= i < j < s.len() ==> (#[trigger] s[i]).spec_order() < (#[trigger] s[j]).spec_order()
}

pub(crate) fn are_deficits_ordered(s: &Vec<RouteDeficit>) -> (r: bool)
    ensures
        r == deficits_ordered(s@),
{
    let mut i: usize = 1;
    while i < s.len()
        invariant
            1 <= i,
            forall|j: int, k: int|
                0 <= j < k < i && k < s@.len() ==> (#[trigger] s@[j]).spec_order() < (
                #[trigger] s@[k]).spec_order(),
        decreases s@.len() - i,
    {
        if s[i - 1].order() >= s[i].order() {
            return false;
        }
        assert forall|j: int, k: int| 0 <= j < k < i + 1 implies (#[trigger] s@[j]).spec_order() < (
        #[trigger] s@[k]).spec_order() by {
            if k == i && j < i - 1 {
                assert(s@[j].spec_order() < s@[i - 1].spec_order());
            }
        }
        i = i + 1;
    }
    true
}

/// Whether two deficit lists are equal.
pub(crate) fn same_deficits(a: &Vec<RouteDeficit>, b: &Vec<RouteDeficit>) -> (r: bool)
    ensures
        r == (a@ == b@),
{
    if a.len() != b.len() {
        return false;
    }
    for i in 0..a.len()
        invariant
            a@.len() == b@.len(),
            forall|j: int| 0 <= j < i ==> a@[j] == b@[j],
    {
        if a[i] != b[i] {
            return false;
        }
    }
    assert(a@ =~= b@);
    true
}

/// Some deficit is about the route, not about a capability.
pub open spec fn has_route_deficit(s: Seq<RouteDeficit>) -> bool {
    exists|i: int| 0 <= i < s.len() && #[trigger] s[i] is Route
}

pub(crate) fn any_route_deficit(s: &Vec<RouteDeficit>) -> (r: bool)
    ensures
        r == has_route_deficit(s@),
{
    for i in 0..s.len()
        invariant
            forall|j: int| 0 <= j < i ==> !(#[trigger] s@[j] is Route),
    {
        if let RouteDeficit::Route { .. } = s[i] {
            assert(s@[i as int] is Route);
            return true;
        }
    }
    false
}

#[derive(Debug, Clone, Copy, PartialEq, Eq, Structural)]
pub enum ExecutionState {
    Completed,
    Partial,
    Blocked,
    Interrupted,
}

#[derive(Debug, Clone, Copy, PartialEq, Eq, Structural)]
pub enum AttemptState {
    Completed,
    Partial,
    Blocked,
    Interrupted,
}

#[derive(Debug, Clone, PartialEq, Eq)]
pub struct ExecutionAttempt {
    pub attempt_id: String,
    pub route: Route,
    pub state: AttemptState,
    pub deficits: Vec<RouteDeficit>,
    pub counters: ContextExecutionCounters,
    pub elapsed_micros: u64,
}

pub struct AttemptView {
    pub attempt_id: Seq<char>,
    pub route: Route,
    pub state: AttemptState,
    pub deficits: Seq<RouteDeficit>,
    pub counters: ContextExecutionCounters,
    pub elapsed_micros: u64,
}

impl View for ExecutionAttempt {
    type V = AttemptView;

    open spec fn view(&self) -> AttemptView {
        AttemptView {
            attempt_id: self.attempt_id@,
            route: self.route,
            state: self.state,
            deficits: self.deficits@,
            counters: self.counters,
            elapsed_micros: self.elapsed_micros,
        }
    }
}

pub open spec fn attempt_views(items: Seq<ExecutionAttempt>) -> Seq<AttemptView> {
    Seq::new(items.len(), |i: int| items[i]@)
}

impl AttemptView {
    /// A completed attempt lists no deficit; a partial or blocked one lists some.
    /// An interrupted attempt is never recorded.
    pub open spec fn valid(self) -> bool {
        &&& context_route::opaque_id(self.attempt_id)
        &&& self.counters.within_bounds()
        &&& match self.state {
            AttemptState::Completed => self.deficits.len() == 0,
            AttemptState::Partial | AttemptState::Blocked => self.deficits.len() > 0,
            AttemptState::Interrupted => false,
        }
        &&& deficits_ordered(self.deficits)
    }
}

impl ExecutionAttempt {
    /// A completed attempt, not timed.
    pub fn completed(attempt_id: String, route: Route, counters: ContextExecutionCounters) -> (r:
        Self)
        ensures
            r@ == (AttemptView {
                attempt_id: attempt_id@,
                route,
                state: AttemptState::Completed,
                deficits: Seq::empty(),
                counters,
                elapsed_micros: 0,
            }),
    {
        ExecutionAttempt {
            attempt_id,
            route,
            state: AttemptState::Completed,
            deficits: Vec::new(),
            counters,
            elapsed_micros: 0,
        }
    }

    fn is_valid(&self) -> (r: bool)
        ensures
            r == self@.valid(),
    {
        let deficit_shape_valid = match self.state {
            AttemptState::Completed => self.deficits.len() == 0,
            AttemptState::Partial | AttemptState::Blocked => self.deficits.len() != 0,
            AttemptState::Interrupted => false,
        };
        valid_opaque_id(self.attempt_id.as_str()) && self.counters.validate().is_ok()
            && deficit_shape_valid && are_deficits_ordered(&self.deficits)
    }

    /// Checks the attempt on its own.
    pub fn validate(&self) -> (r: Result<(), ContextRouteError>)
        ensures
            r is Ok <==> self@.valid(),
            r is Err ==> r->Err_0@ == RouteErrorView::InvalidExecution,
    {
        if self.is_valid() {
            Ok(())
        } else {
            Err(ContextRouteError::InvalidExecution)
        }
    }
}

#[derive(Debug, Clone, PartialEq, Eq)]
pub enum LightOperationResult {
    Query { operation_version: String, result_digest: String, record_count: u64 },
    SourceReference { operation_version: String, result_digest: String, reference_count: u64 },
}

pub struct LightResultView {
    pub operation: LightOperation,
    pub operation_version: Seq<char>,
    pub result_digest: Seq<char>,
    pub count: u64,
}

impl View for LightOperationResult {
    type V = LightResultView;

    open spec fn view(&self) -> LightResultView {
        match self {
            LightOperationResult::Query { operation_version, result_digest, record_count } => {
                LightResultView {
                    operation: LightOperation::Query,
                    operation_version: operation_version@,
                    result_digest: result_digest@,
                    count: *record_count,
                }
            },
            LightOperationResult::SourceReference {
                operation_version,
                result_digest,
                reference_count,
            } => LightResultView {
                operation: LightOperation::SourceReference,
                operation_version: operation_version@,
                result_digest: result_digest@,
                count: *reference_count,
            },
        }
    }
}

impl LightResultView {
    /// The result is at the pinned version and carries a digest.
    pub open spec fn valid(self) -> bool {
        self.operation_version == self.operation.spec_version() && text::hex64(self.result_digest)
    }
}

impl LightOperationResult {
    /// The operation that gave the result.
    pub fn operation(&self) -> (r: LightOperation)
        ensures
            r == self@.operation,
    {
        match self {
            LightOperationResult::Query { .. } => LightOperation::Query,
            LightOperationResult::SourceReference { .. } => LightOperation::SourceReference,
        }
    }

    /// Whether the result is at the pinned version and carries a digest.
    pub fn validate(&self) -> (r: bool)
        ensures
            r == self@.valid(),
    {
        match self {
            LightOperationResult::Query { operation_version, result_digest, .. } => {
                text::text_eq(operation_version.as_str(), QUERY_OPERATION_VERSION) && valid_digest(
                    result_digest.as_str(),
                )
            },
            LightOperationResult::SourceReference { operation_version, result_digest, .. } => {
                text::text_eq(operation_version.as_str(), SOURCE_REFERENCE_OPERATION_VERSION)
                    && valid_digest(result_digest.as_str())
            },
        }
    }
}

#[derive(Debug, Clone, PartialEq, Eq)]
pub struct DeepResultReference {
    pub context_ir_version: String,
    pub context_hash: String,
}

/// What a route hands over.
#[derive(Debug, Clone, PartialEq, Eq)]
pub enum ContextPayload {
    DirectNone {},
    LightBundle { operations: Vec<LightOperationResult> },
    DeepContextIr { result: DeepResultReference },
}

pub enum PayloadView {
    DirectNone,
    LightBundle { operations: Seq<LightResultView> },
    DeepContextIr { context_ir_version: Seq<char>, context_hash: Seq<char> },
}

impl View for ContextPayload {
    type V = PayloadView;

    open spec fn view(&self) -> PayloadView {
        match self {
            ContextPayload::DirectNone {  } => PayloadView::DirectNone,
            ContextPayload::LightBundle { operations } => PayloadView::LightBundle {
                operations: Seq::new(operations@.len(), |i: int| operations@[i]@),
            },
            ContextPayload::DeepContextIr { result } => PayloadView::DeepContextIr {
                context_ir_version: result.context_ir_version@,
                context_hash: result.context_hash@,
            },
        }
    }
}

pub open spec fn opt_payload(value: Option<ContextPayload>) -> Option<PayloadView> {
    match value {
        Some(payload) => Some(payload@),
        None => None,
    }
}

impl PayloadView {
    /// The route that hands such a payload over.
    pub open spec fn route(self) -> Route {
        match self {
            PayloadView::DirectNone => Route::Direct,
            PayloadView::LightBundle { .. } => Route::AtlasLight,
            PayloadView::DeepContextIr { .. } => Route::AtlasDeep,
        }
    }

    /// The payload carries Atlas evidence.
    pub open spec fn useful(self) -> bool {
        self != PayloadView::DirectNone
    }

    /// A LIGHT bundle holds one result, or one of each operation in order; a DEEP
    /// payload is at the pinned version.
    pub open spec fn valid(self) -> bool {
        match self {
            PayloadView::DirectNone => true,
            PayloadView::LightBundle { operations } => {
                &&& 1 <= operations.len() <= 2
                &&& forall|i: int| 0 <= i < operations.len() ==> (#[trigger] operations[i]).valid()
                &&& operations.len() == 2 ==> operations[0].operation.spec_rank()
                    < operations[1].operation.spec_rank()
            },
            PayloadView::DeepContextIr { context_ir_version, context_hash } => {
                context_ir_version == CONTEXT_IR_VERSION@ && text::hex64(context_hash)
            },
        }
    }
}

impl ContextPayload {
    fn is_valid(&self) -> (r: bool)
        ensures
            r == self@.valid(),
    {
        match self {
            ContextPayload::DirectNone {  } => true,
            ContextPayload::LightBundle { operations } => {
                let ghost all = self@->operations;
                if operations.len() == 0 || operations.len() > 2 {
                    return false;
                }
                if !operations[0].validate() {
                    assert(!all[0].valid());
                    return false;
                }
                if operations.len() == 2 {
                    if !operations[1].validate() {
                        assert(!all[1].valid());
                        return false;
                    }
                    operations[0].operation() == LightOperation::Query && operations[1].operation()
                        == LightOperation::SourceReference
                } else {
                    true
                }
            },
            ContextPayload::DeepContextIr { result } => {
                text::text_eq(result.context_ir_version.as_str(), CONTEXT_IR_VERSION)
                    && valid_digest(result.context_hash.as_str())
            },
        }
    }

    /// Checks the payload on its own.
    pub fn validate(&self) -> (r: Result<(), ContextRouteError>)
        ensures
            r is Ok <==> self@.valid(),
            r is Err ==> r->Err_0@ == RouteErrorView::InvalidExecution,
    {
        if self.is_valid() {
            Ok(())
        } else {
            Err(ContextRouteError::InvalidExecution)
        }
    }

    /// The route that hands such a payload over.
    pub fn route(&self) -> (r: Route)
        ensures
            r == self@.route(),
    {
        match self {
            ContextPayload::DirectNone {  } => Route::Direct,
            ContextPayload::LightBundle { .. } => Route::AtlasLight,
            ContextPayload::DeepContextIr { .. } => Route::AtlasDeep,
        }
    }

    /// Whether the payload carries Atlas evidence.
    pub fn useful(&self) -> (r: bool)
        ensures
            r == self@.useful(),
    {
        match self {
            ContextPayload::DirectNone {  } => false,
            _ => true,
        }
    }
}

#[derive(Debug, Clone, Copy, PartialEq, Eq, Structural)]
pub enum ContextDiagnosticCode {
    ServingFallback,
    EvidenceOmitted,
    MaterializationOmitted,
}

#[derive(Debug, Clone, PartialEq, Eq)]
pub struct MaterializedSource {
    pub source_digest: String,
    pub start_byte: u64,
    pub end_byte: u64,
    pub bytes: Vec<u8>,
}

pub struct SourceView {
    pub source_digest: Seq<char>,
    pub start_byte: u64,
    pub end_byte: u64,
    pub bytes: Seq<u8>,
}

impl View for MaterializedSource {
    type V = SourceView;

    open spec fn view(&self) -> SourceView {
        SourceView {
            source_digest: self.source_digest@,
            start_byte: self.start_byte,
            end_byte: self.end_byte,
            bytes: self.bytes@,
        }
    }
}

impl SourceView {
    /// The bytes are exactly those of a non-empty range.
    pub open spec fn valid(self) -> bool {
        &&& text::hex64(self.source_digest)
        &&& self.start_byte < self.end_byte
        &&& self.end_byte - self.start_byte == self.bytes.len()
    }
}

/// Source bytes that the caller explicitly authorized.
#[derive(Debug, Clone, PartialEq, Eq)]
pub struct ExplicitMaterialization {
    pub authorized: bool,
    pub max_bytes: u64,
    pub sources: Vec<MaterializedSource>,
}

pub struct MaterializationView {
    pub authorized: bool,
    pub max_bytes: u64,
    pub sources: Seq<SourceView>,
}

impl View for ExplicitMaterialization {
    type V = MaterializationView;

    open spec fn view(&self) -> MaterializationView {
        MaterializationView {
            authorized: self.authorized,
            max_bytes: self.max_bytes,
            sources: Seq::new(self.sources@.len(), |i: int| self.sources@[i]@),
        }
    }
}

pub open spec fn opt_materialization(value: Option<ExplicitMaterialization>) -> Option<
    MaterializationView,
> {
    match value {
        Some(materialization) => Some(materialization@),
        None => None,
    }
}

/// The number of bytes in a list of sources.
pub open spec fn source_bytes(sources: Seq<SourceView>) -> nat
    decreases sources.len(),
{
    if sources.len() == 0 {
        0
    } else {
        source_bytes(sources.drop_last()) + sources.last().bytes.len()
    }
}

proof fn lemma_source_bytes_grows(sources: Seq<SourceView>, n: int)
    requires
        0 <= n <= sources.len(),
    ensures
        source_bytes(sources.take(n)) <= source_bytes(sources),
    decreases sources.len() - n,
{
    if n == sources.len() {
        assert(sources.take(n) =~= sources);
    } else {
        lemma_source_bytes_grows(sources, n + 1);
        assert(sources.take(n + 1).drop_last() =~= sources.take(n));
    }
}

impl MaterializationView {
    /// Authorized, bounded, and every source exact.
    pub open spec fn valid(self) -> bool {
        &&& self.authorized
        &&& 0 < self.max_bytes <= MAX_CONTEXT_EXECUTION_SOURCE_BYTES
        &&& self.sources.len() <= MAX_MATERIALIZED_SOURCES
        &&& forall|i: int| 0 <= i < self.sources.len() ==> (#[trigger] self.sources[i]).valid()
        &&& source_bytes(self.sources) <= self.max_bytes
    }
}

impl ExplicitMaterialization {
    fn is_valid(&self) -> (r: bool)
        ensures
            r == self@.valid(),
    {
        if !self.authorized || self.max_bytes == 0 || self.max_bytes
            > MAX_CONTEXT_EXECUTION_SOURCE_BYTES || self.sources.len() > MAX_MATERIALIZED_SOURCES {
            return false;
        }
        let ghost all = self@.sources;
        let mut total: u64 = 0;
        for i in 0..self.sources.len()
            invariant
                all == self@.sources,
                total == source_bytes(all.take(i as int)),
                total <= self.max_bytes,
                forall|j: int| 0 <= j < i ==> (#[trigger] all[j]).valid(),
        {
            let source = &self.sources[i];
            let byte_len: u64 = source.bytes.len() as u64;
            if !valid_digest(source.source_digest.as_str()) || source.start_byte >= source.end_byte
                || source.end_byte - source.start_byte != byte_len {
                assert(!all[i as int].valid());
                return false;
            }
            proof {
                assert(all.take(i + 1).drop_last() =~= all.take(i as int));
                lemma_source_bytes_grows(all, i + 1);
            }
            if byte_len > self.max_bytes - total {
                return false;
            }
            total = total + byte_len;
        }
        assert(all.take(all.len() as int) =~= all);
        true
    }

    /// Checks authorization, bounds and every source.
    pub fn validate(&self) -> (r: Result<(), ContextRouteError>)
        ensures
            r is Ok <==> self@.valid(),
            r is Err ==> r->Err_0@ == RouteErrorView::InvalidExecution,
    {
        if self.is_valid() {
            Ok(())
        } else {
            Err(ContextRouteError::InvalidExecution)
        }
    }
}

#[derive(Debug, Clone, Copy, PartialEq, Eq, Structural)]
pub enum TerminalReason {
    RouteCeilingReached,
    CapabilityUnavailable,
    GenerationUnavailable,
    GenerationChanged,
}

#[derive(Debug, Clone, Copy, PartialEq, Eq, Structural)]
pub enum InterruptionReason {
    Cancelled,
    DeadlineExceeded,
}

/// Counters added up without a bound.
pub struct CounterSum {
    pub atlas_calls: int,
    pub records: int,
    pub source_bytes: int,
    pub estimated_tokens: int,
    pub work_units: int,
}

/// The counters of all attempts, added up.
pub open spec fn counter_sum(attempts: Seq<AttemptView>) -> CounterSum
    decreases attempts.len(),
{
    if attempts.len() == 0 {
        CounterSum {
            atlas_calls: 0,
            records: 0,
            source_bytes: 0,
            estimated_tokens: 0,
            work_units: 0,
        }
    } else {
        let rest = counter_sum(attempts.drop_last());
        let last = attempts.last().counters;
        CounterSum {
            atlas_calls: rest.atlas_calls + last.atlas_calls,
            records: rest.records + last.records,
            source_bytes: rest.source_bytes + last.source_bytes,
            estimated_tokens: rest.estimated_tokens + last.estimated_tokens,
            work_units: rest.work_units + last.work_units,
        }
    }
}

impl CounterSum {
    /// Each total can be held by a counter.
    pub open spec fn fits(self) -> bool {
        &&& 0 <= self.atlas_calls <= u64::MAX
        &&& 0 <= self.records <= u64::MAX
        &&& 0 <= self.source_bytes <= u64::MAX
        &&& 0 <= self.estimated_tokens <= u64::MAX
        &&& 0 <= self.work_units <= u64::MAX
    }

    /// The counters hold exactly these totals.
    pub open spec fn held_by(self, counters: ContextExecutionCounters) -> bool {
        &&& self.atlas_calls == counters.atlas_calls
        &&& self.records == counters.records
        &&& self.source_bytes == counters.source_bytes
        &&& self.estimated_tokens == counters.estimated_tokens
        &&& self.work_units == counters.work_units
    }
}

proof fn lemma_counter_sum_grows(attempts: Seq<AttemptView>, n: int)
    requires
        0 <= n <= attempts.len(),
    ensures
        ({
            let a = counter_sum(attempts.take(n));
            let b = counter_sum(attempts);
            &&& 0 <= a.atlas_calls <= b.atlas_calls
            &&& 0 <= a.records <= b.records
            &&& 0 <= a.source_bytes <= b.source_bytes
            &&& 0 <= a.estimated_tokens <= b.estimated_tokens
            &&& 0 <= a.work_units <= b.work_units
        }),
    decreases 2 * attempts.len() - n,
{
    if n == attempts.len() {
        assert(attempts.take(n) =~= attempts);
        if n > 0 {
            lemma_counter_sum_grows(attempts.drop_last(), n - 1);
            assert(attempts.drop_last().take(n - 1) =~= attempts.drop_last());
        }
    } else {
        lemma_counter_sum_grows(attempts, n + 1);
        assert(attempts.take(n + 1).drop_last() =~= attempts.take(n));
        lemma_counter_sum_grows(attempts.take(n), n);
        assert(attempts.take(n).take(n) =~= attempts.take(n));
    }
}

/// The counters of all attempts, added up; refused where a total does not fit.
pub fn checked_counter_sum(attempts: &Vec<ExecutionAttempt>) -> (r: Result<
    ContextExecutionCounters,
    ContextRouteError,
>)
    ensures
        r is Ok <==> counter_sum(attempt_views(attempts@)).fits(),
        r is Ok ==> counter_sum(attempt_views(attempts@)).held_by(r->Ok_0),
        r is Err ==> r->Err_0@ == RouteErrorView::InvalidExecution,
{
    let ghost all = attempt_views(attempts@);
    let mut total = ContextExecutionCounters::default();
    for i in 0..attempts.len()
        invariant
            all == attempt_views(attempts@),
            counter_sum(all.take(i as int)).held_by(total),
    {
        let counters = attempts[i].counters;
        proof {
            assert(all.take(i + 1).drop_last() =~= all.take(i as int));
            assert(all.take(i + 1).last() == attempts@[i as int]@);
            lemma_counter_sum_grows(all, i + 1);
        }
        match (
            total.atlas_calls.checked_add(counters.atlas_calls),
            total.records.checked_add(counters.records),
            total.source_bytes.checked_add(counters.source_bytes),
            total.estimated_tokens.checked_add(counters.estimated_tokens),
            total.work_units.checked_add(counters.work_units),
        ) {
            (
                Some(atlas_calls),
                Some(records),
                Some(source_bytes),
                Some(estimated_tokens),
                Some(work_units),
            ) => {
                total =
                ContextExecutionCounters {
                    atlas_calls,
                    records,
                    source_bytes,
                    estimated_tokens,
                    work_units,
                };
            },
            _ => {
                return Err(ContextRouteError::InvalidExecution);
            },
        }
    }
    assert(all.take(all.len() as int) =~= all);
    Ok(total)
}

/// How many of the deficits are about a capability.
pub open spec fn capability_deficit_count(s: Seq<RouteDeficit>) -> nat
    decreases s.len(),
{
    if s.len() == 0 {
        0
    } else {
        capability_deficit_count(s.drop_last()) + if s.last() is Capability {
            1nat
        } else {
            0nat
        }
    }
}

/// A capability counts as satisfied if it was requested and either the caller has
/// it or the route is high enough to supply it.
pub open spec fn satisfiable(
    map: CapabilityMap,
    capability: RequiredCapability,
    route: Option<Route>,
) -> bool {
    &&& map.state(capability) is Some
    &&& map.state(capability) == Some(CallerCapabilityState::Satisfied) || (route is Some
        && route->0.spec_rank() >= capability.spec_minimum_route().spec_rank())
}

/// The satisfied capabilities and the deficits account for the request: nothing
/// twice, nothing unrequested, nothing on both sides, and, where `accounting` is
/// asked, nothing left out.
#[verifier::opaque]
pub open spec fn accounts_for(
    map: CapabilityMap,
    satisfied: Seq<RequiredCapability>,
    deficits: Seq<RouteDeficit>,
    route: Option<Route>,
    useful: bool,
    accounting: bool,
) -> bool {
    &&& forall|i: int, j: int|
        0 <= i < j < satisfied.len() ==> #[trigger] satisfied[i] != #[trigger] satisfied[j]
    &&& useful ==> satisfied.len() > 0
    &&& forall|i: int|
        0 <= i < satisfied.len() ==> satisfiable(map, #[trigger] satisfied[i], route)
    &&& forall|i: int|
        0 <= i < deficits.len() && #[trigger] deficits[i] is Capability ==> {
            &&& map.state(deficits[i]->capability) is Some
            &&& !satisfied.contains(deficits[i]->capability)
        }
    &&& forall|i: int, j: int|
        0 <= i < j < deficits.len() && #[trigger] deficits[i] is Capability
            && #[trigger] deficits[j] is Capability ==> deficits[i]->capability
            != deficits[j]->capability
    &&& accounting ==> satisfied.len() + capability_deficit_count(deficits) == map.listed().len()
}

fn holds_capability(items: &Vec<RequiredCapability>, upto: usize, capability: RequiredCapability) -> (r:
    bool)
    requires
        upto <= items@.len(),
    ensures
        r == exists|i: int| 0 <= i < upto && #[trigger] items@[i] == capability,
{
    for i in 0..upto
        invariant
            upto <= items@.len(),
            forall|j: int| 0 <= j < i ==> #[trigger] items@[j] != capability,
    {
        if items[i] == capability {
            return true;
        }
    }
    false
}

pub(crate) fn accounts(
    map: &CapabilityMap,
    satisfied: &Vec<RequiredCapability>,
    deficits: &Vec<RouteDeficit>,
    route: Option<Route>,
    useful: bool,
    accounting: bool,
) -> (r: bool)
    ensures
        r == accounts_for(*map, satisfied@, deficits@, route, useful, accounting),
{
    reveal(accounts_for);
    if useful && satisfied.len() == 0 {
        return false;
    }
    for i in 0..satisfied.len()
        invariant
            forall|j: int, k: int|
                0 <= j < k < i ==> #[trigger] satisfied@[j] != #[trigger] satisfied@[k],
            forall|j: int| 0 <= j < i ==> satisfiable(*map, #[trigger] satisfied@[j], route),
    {
        reveal(accounts_for);
        let capability = satisfied[i];
        if holds_capability(satisfied, i, capability) {
            proof {
                let j = choose|j: int| 0 <= j < i && #[trigger] satisfied@[j] == capability;
                assert(satisfied@[j] == satisfied@[i as int]);
            }
            return false;
        }
        let reachable = match map.get(capability) {
            None => false,
            Some(state) => state == CallerCapabilityState::Satisfied || match route {
                Some(route) => route.rank() >= capability.minimum_route().rank(),
                None => false,
            },
        };
        if !reachable {
            assert(!satisfiable(*map, satisfied@[i as int], route));
            return false;
        }
    }
    let mut seen: Vec<RequiredCapability> = Vec::new();
    assert(deficits@.take(0) =~= Seq::empty());
    for i in 0..deficits.len()
        invariant
            seen@.len() == capability_deficit_count(deficits@.take(i as int)),
            forall|j: int|
                0 <= j < i && #[trigger] deficits@[j] is Capability ==> {
                    &&& map.state(deficits@[j]->capability) is Some
                    &&& !satisfied@.contains(deficits@[j]->capability)
                    &&& seen@.contains(deficits@[j]->capability)
                },
            forall|j: int, k: int|
                0 <= j < k < i && #[trigger] deficits@[j] is Capability
                    && #[trigger] deficits@[k] is Capability ==> deficits@[j]->capability
                    != deficits@[k]->capability,
            forall|m: int|
                0 <= m < seen@.len() ==> exists|j: int|
                    0 <= j < i && deficits@[j] is Capability && #[trigger] deficits@[j]->capability
                        == #[trigger] seen@[m],
    {
        proof {
            reveal(accounts_for);
            assert(deficits@.take(i + 1).drop_last() =~= deficits@.take(i as int));
        }
        if let RouteDeficit::Capability { capability, .. } = deficits[i] {
            assert(deficits@[i as int]->capability == capability);
            if map.get(capability).is_none() {
                return false;
            }
            if holds_capability(&seen, seen.len(), capability) {
                proof {
                    let m = choose|m: int| 0 <= m < seen@.len() && #[trigger] seen@[m] == capability;
                    let j = choose|j: int|
                        0 <= j < i && deficits@[j] is Capability && #[trigger] deficits@[j]->capability
                            == seen@[m];
                    assert(deficits@[j]->capability == deficits@[i as int]->capability);
                }
                return false;
            }
            if holds_capability(satisfied, satisfied.len(), capability) {
                proof {
                    assert(satisfied@.contains(capability));
                }
                return false;
            }
            let ghost before = seen@;
            seen.push(capability);
            proof {
                assert(seen@[before.len() as int] == capability);
                assert forall|j: int| 0 <= j < i + 1 && #[trigger] deficits@[j] is Capability implies {
                    &&& map.state(deficits@[j]->capability) is Some
                    &&& !satisfied@.contains(deficits@[j]->capability)
                    &&& seen@.contains(deficits@[j]->capability)
                } by {
                    if j < i {
                        let m = choose|m: int|
                            0 <= m < before.len() && before[m] == deficits@[j]->capability;
                        assert(seen@[m] == deficits@[j]->capability);
                    }
                }
                assert forall|j: int, k: int|
                    0 <= j < k < i + 1 && #[trigger] deficits@[j] is Capability
                        && #[trigger] deficits@[k] is Capability implies deficits@[j]->capability
                    != deficits@[k]->capability by {
                    if k == i {
                        let m = choose|m: int|
                            0 <= m < before.len() && before[m] == deficits@[j]->capability;
                        assert(before[m] != capability);
                    }
                }
                assert forall|m: int| 0 <= m < seen@.len() implies exists|j: int|
                    0 <= j < i + 1 && deficits@[j] is Capability && #[trigger] deficits@[j]->capability
                        == #[trigger] seen@[m] by {
                    if m < before.len() {
                        assert(seen@[m] == before[m]);
                        let j = choose|j: int|
                            0 <= j < i && deficits@[j] is Capability
                                && #[trigger] deficits@[j]->capability == before[m];
                        assert(deficits@[j]->capability == seen@[m]);
                    } else {
                        assert(deficits@[i as int]->capability == seen@[m]);
                    }
                }
            }
        }
    }
    assert(deficits@.take(deficits@.len() as int) =~= deficits@);
    if accounting {
        let requested = map.len();
        if !(requested >= satisfied.len() && requested - satisfied.len() == seen.len()) {
            return false;
        }
    }
    true
}

/// Checks that satisfied capabilities and deficits account for the request.
pub fn validate_satisfied_capabilities(
    decision: &ContextRouteDecision,
    satisfied: &Vec<RequiredCapability>,
    deficits: &Vec<RouteDeficit>,
    satisfaction_route: Option<Route>,
    require_useful: bool,
    require_accounting: bool,
) -> (r: Result<(), ContextRouteError>)
    ensures
        r is Ok <==> accounts_for(
            decision.requested_capabilities,
            satisfied@,
            deficits@,
            satisfaction_route,
            require_useful,
            require_accounting,
        ),
        r is Err ==> r->Err_0@ == RouteErrorView::InvalidExecution,
{
    if accounts(
        &decision.requested_capabilities,
        satisfied,
        deficits,
        satisfaction_route,
        require_useful,
        require_accounting,
    ) {
        Ok(())
    } else {
        Err(ContextRouteError::InvalidExecution)
    }
}

/// Some capability cannot be had at all.
pub open spec fn has_terminal_deficit(s: Seq<RouteDeficit>) -> bool {
    exists|i: int|
        0 <= i < s.len() && (#[trigger] s[i] matches RouteDeficit::Capability { reason, .. }
            && reason.spec_terminal())
}

/// Some route failure has one of two reasons.
pub open spec fn has_failure(
    s: Seq<RouteDeficit>,
    a: RouteFailureReason,
    b: RouteFailureReason,
) -> bool {
    exists|i: int|
        0 <= i < s.len() && (#[trigger] s[i] matches RouteDeficit::Route { reason } && (reason == a
            || reason == b))
}

pub(crate) fn any_terminal_deficit(s: &Vec<RouteDeficit>) -> (r: bool)
    ensures
        r == has_terminal_deficit(s@),
{
    for i in 0..s.len()
        invariant
            forall|j: int|
                0 <= j < i ==> !(#[trigger] s@[j] matches RouteDeficit::Capability { reason, .. }
                    && reason.spec_terminal()),
    {
        if let RouteDeficit::Capability { reason, .. } = s[i] {
            if reason == CapabilityDeficitReason::Unavailable || reason
                == CapabilityDeficitReason::Stale || reason
                == CapabilityDeficitReason::Unsupported {
                assert(s@[i as int] matches RouteDeficit::Capability { reason, .. }
                    && reason.spec_terminal());
                return true;
            }
        }
    }
    false
}

fn any_failure(s: &Vec<RouteDeficit>, a: RouteFailureReason, b: RouteFailureReason) -> (r: bool)
    ensures
        r == has_failure(s@, a, b),
{
    for i in 0..s.len()
        invariant
            forall|j: int|
                0 <= j < i ==> !(#[trigger] s@[j] matches RouteDeficit::Route { reason } && (reason
                    == a || reason == b)),
    {
        if let RouteDeficit::Route { reason } = s[i] {
            if reason == a || reason == b {
                assert(s@[i as int] matches RouteDeficit::Route { reason } && (reason == a || reason
                    == b));
                return true;
            }
        }
    }
    false
}

/// The deficits, or the route reached, bear the terminal reason out.
pub open spec fn terminal_reason_holds(
    reason: TerminalReason,
    final_route: Option<Route>,
    ceiling: Route,
    deficits: Seq<RouteDeficit>,
) -> bool {
    match reason {
        TerminalReason::RouteCeilingReached => final_route == Some(ceiling),
        TerminalReason::CapabilityUnavailable => has_terminal_deficit(deficits),
        TerminalReason::GenerationUnavailable => has_failure(
            deficits,
            RouteFailureReason::StartingGenerationUnavailable,
            RouteFailureReason::NoActiveGeneration,
        ),
        TerminalReason::GenerationChanged => has_failure(
            deficits,
            RouteFailureReason::GenerationChanged,
            RouteFailureReason::GenerationChanged,
        ),
    }
}

fn is_terminal_reason(
    reason: TerminalReason,
    final_route: Option<Route>,
    ceiling: Route,
    deficits: &Vec<RouteDeficit>,
) -> (r: bool)
    ensures
        r == terminal_reason_holds(reason, final_route, ceiling, deficits@),
{
    match reason {
        TerminalReason::RouteCeilingReached => match final_route {
            Some(route) => route == ceiling,
            None => false,
        },
        TerminalReason::CapabilityUnavailable => any_terminal_deficit(deficits),
        TerminalReason::GenerationUnavailable => any_failure(
            deficits,
            RouteFailureReason::StartingGenerationUnavailable,
            RouteFailureReason::NoActiveGeneration,
        ),
        TerminalReason::GenerationChanged => any_failure(
            deficits,
            RouteFailureReason::GenerationChanged,
            RouteFailureReason::GenerationChanged,
        ),
    }
}

/// Checks that the deficits, or the route reached, bear the terminal reason out.
pub fn validate_terminal_reason(
    reason: TerminalReason,
    final_route: Option<Route>,
    ceiling: Route,
    deficits: &Vec<RouteDeficit>,
) -> (r: Result<(), ContextRouteError>)
    ensures
        r is Ok <==> terminal_reason_holds(reason, final_route, ceiling, deficits@),
        r is Err ==> r->Err_0@ == RouteErrorView::InvalidExecution,
{
    if is_terminal_reason(reason, final_route, ceiling, deficits) {
        Ok(())
    } else {
        Err(ContextRouteError::InvalidExecution)
    }
}

/// Source bytes come only with a payload from the Atlas.
pub open spec fn materialization_allowed(
    materialization: Option<MaterializationView>,
    payload: Option<PayloadView>,
) -> bool {
    materialization is Some ==> materialization->0.valid() && payload is Some && payload->0.route()
        != Route::Direct
}

pub(crate) fn is_materialization_allowed(
    materialization: &Option<ExplicitMaterialization>,
    payload: Option<&ContextPayload>,
) -> (r: bool)
    ensures
        r == materialization_allowed(
            opt_materialization(*materialization),
            match payload {
                Some(p) => Some(p@),
                None => None,
            },
        ),
{
    match materialization {
        None => true,
        Some(materialization) => materialization.is_valid() && match payload {
            Some(payload) => payload.route() != Route::Direct,
            None => false,
        },
    }
}

/// Checks that source bytes come only with a payload from the Atlas.
pub fn validate_materialization(
    materialization: &Option<ExplicitMaterialization>,
    payload: &Option<ContextPayload>,
) -> (r: Result<(), ContextRouteError>)
    ensures
        r is Ok <==> materialization_allowed(
            opt_materialization(*materialization),
            opt_payload(*payload),
        ),
        r is Err ==> r->Err_0@ == RouteErrorView::InvalidExecution,
{
    let allowed = match payload {
        Some(payload) => is_materialization_allowed(materialization, Some(payload)),
        None => is_materialization_allowed(materialization, None),
    };
    if allowed {
        Ok(())
    } else {
        Err(ContextRouteError::InvalidExecution)
    }
}

/// A LIGHT deficit of this kind can be made good on the DEEP route.
pub open spec fn deficit_can_escalate(deficit: RouteDeficit) -> bool {
    match deficit {
        RouteDeficit::Route { .. } => false,
        RouteDeficit::Capability { capability, reason } => {
            &&& reason != CapabilityDeficitReason::Unsupported
            &&& {
                ||| capability.spec_minimum_route() == Route::AtlasDeep
                ||| reason == CapabilityDeficitReason::SemanticBudgetOmitted
                ||| capability == RequiredCapability::IdentityLookup && reason
                    == CapabilityDeficitReason::Ambiguous
                ||| (capability == RequiredCapability::BoundedRelationships || capability
                    == RequiredCapability::ImpactFrontier || capability
                    == RequiredCapability::BasicCoverageConflicts) && reason
                    == CapabilityDeficitReason::Conflicting
            }
        },
    }
}

pub(crate) fn can_deficit_escalate(deficit: RouteDeficit) -> (r: bool)
    ensures
        r == deficit_can_escalate(deficit),
{
    match deficit {
        RouteDeficit::Route { .. } => false,
        RouteDeficit::Capability { capability, reason } => reason
            != CapabilityDeficitReason::Unsupported && (capability.minimum_route()
            == Route::AtlasDeep || reason == CapabilityDeficitReason::SemanticBudgetOmitted || (
        capability == RequiredCapability::IdentityLookup && reason
            == CapabilityDeficitReason::Ambiguous) || ((capability
            == RequiredCapability::BoundedRelationships || capability
            == RequiredCapability::ImpactFrontier || capability
            == RequiredCapability::BasicCoverageConflicts) && reason
            == CapabilityDeficitReason::Conflicting)),
    }
}

/// The deficit names a requested capability that the caller lacks and that is
/// supported.
pub open spec fn deficit_is_open(map: CapabilityMap, deficit: RouteDeficit) -> bool {
    deficit matches RouteDeficit::Capability { capability, reason } && (map.state(capability)
        == Some(CallerCapabilityState::Unsatisfied) || map.state(capability) == Some(
        CallerCapabilityState::Unknown,
    )) && reason != CapabilityDeficitReason::Unsupported
}

/// One attempt may follow another: only a partial attempt is followed, on the same
/// route or on the next, and only where every deficit can be made good there.
pub open spec fn transition_allowed(
    previous: AttemptView,
    next: AttemptView,
    map: CapabilityMap,
) -> bool {
    &&& previous.state == AttemptState::Partial
    &&& {
        ||| previous.route == next.route
        ||| {
            &&& previous.route == Route::Direct && next.route == Route::AtlasLight
            &&& previous.deficits.len() > 0
            &&& forall|i: int|
                0 <= i < previous.deficits.len() ==> deficit_is_open(
                    map,
                    #[trigger] previous.deficits[i],
                )
        }
        ||| {
            &&& previous.route == Route::AtlasLight && next.route == Route::AtlasDeep
            &&& previous.deficits.len() > 0
            &&& forall|i: int|
                0 <= i < previous.deficits.len() ==> {
                    &&& deficit_is_open(map, #[trigger] previous.deficits[i])
                    &&& deficit_can_escalate(previous.deficits[i])
                }
        }
    }
}

/// Whether one attempt may follow another.
pub fn valid_attempt_transition(
    previous: &ExecutionAttempt,
    next: &ExecutionAttempt,
    decision: &ContextRouteDecision,
) -> (r: bool)
    ensures
        r == transition_allowed(previous@, next@, decision.requested_capabilities),
{
    if previous.state != AttemptState::Partial {
        return false;
    }
    if previous.route == next.route {
        return true;
    }
    let deep = previous.route == Route::AtlasLight && next.route == Route::AtlasDeep;
    if !deep && !(previous.route == Route::Direct && next.route == Route::AtlasLight) {
        return false;
    }
    if previous.deficits.len() == 0 {
        return false;
    }
    let ghost map = decision.requested_capabilities;
    for i in 0..previous.deficits.len()
        invariant
            map == decision.requested_capabilities,
            previous.route != next.route,
            deep == (previous.route == Route::AtlasLight && next.route == Route::AtlasDeep),
            forall|j: int|
                0 <= j < i ==> {
                    &&& deficit_is_open(map, #[trigger] previous.deficits@[j])
                    &&& deep ==> deficit_can_escalate(previous.deficits@[j])
                },
    {
        let deficit = previous.deficits[i];
        let open = match deficit {
            RouteDeficit::Capability { capability, reason } => match decision.requested_capabilities.get(
                capability,
            ) {
                Some(state) => state != CallerCapabilityState::Satisfied && reason
                    != CapabilityDeficitReason::Unsupported,
                None => false,
            },
            RouteDeficit::Route { .. } => false,
        };
        if !open || (deep && !can_deficit_escalate(deficit)) {
            assert(!(deficit_is_open(map, previous.deficits@[i as int]) && (deep
                ==> deficit_can_escalate(previous.deficits@[i as int]))));
            return false;
        }
    }
    true
}

/// The outcome of executing one decision.
#[derive(Debug, Clone, PartialEq, Eq)]
pub enum ContextExecution {
    Completed {
        schema_version: String,
        decision: ContextRouteDecision,
        attempts: Vec<ExecutionAttempt>,
        final_route: Route,
        payload: ContextPayload,
        counters: ContextExecutionCounters,
        diagnostics: Vec<ContextDiagnosticCode>,
        materialization: Option<ExplicitMaterialization>,
    },
    Partial {
        schema_version: String,
        decision: ContextRouteDecision,
        attempts: Vec<ExecutionAttempt>,
        final_route: Route,
        payload: ContextPayload,
        satisfied_capabilities: Vec<RequiredCapability>,
        deficits: Vec<RouteDeficit>,
        counters: ContextExecutionCounters,
        diagnostics: Vec<ContextDiagnosticCode>,
        materialization: Option<ExplicitMaterialization>,
        terminal_reason: TerminalReason,
    },
    Blocked {
        schema_version: String,
        decision: ContextRouteDecision,
        attempts: Vec<ExecutionAttempt>,
        final_route: Option<Route>,
        payload: Option<ContextPayload>,
        satisfied_capabilities: Vec<RequiredCapability>,
        deficits: Vec<RouteDeficit>,
        counters: ContextExecutionCounters,
        diagnostics: Vec<ContextDiagnosticCode>,
        materialization: Option<ExplicitMaterialization>,
        terminal_reason: TerminalReason,
    },
    Interrupted {
        schema_version: String,
        decision: ContextRouteDecision,
        completed_attempts: Vec<ExecutionAttempt>,
        prior_payload: Option<ContextPayload>,
        satisfied_capabilities: Vec<RequiredCapability>,
        counters: ContextExecutionCounters,
        diagnostics: Vec<ContextDiagnosticCode>,
        materialization: Option<ExplicitMaterialization>,
        interruption_reason: InterruptionReason,
    },
}

/// An execution with the parts that its state does not have left empty.
pub struct ExecutionView {
    pub state: ExecutionState,
    pub schema_version: Seq<char>,
    pub decision: DecisionView,
    pub attempts: Seq<AttemptView>,
    pub final_route: Option<Route>,
    pub payload: Option<PayloadView>,
    pub satisfied: Seq<RequiredCapability>,
    pub deficits: Seq<RouteDeficit>,
    pub counters: ContextExecutionCounters,
    pub diagnostics: Seq<ContextDiagnosticCode>,
    pub materialization: Option<MaterializationView>,
    pub terminal_reason: Option<TerminalReason>,
    pub interruption_reason: Option<InterruptionReason>,
}

impl View for ContextExecution {
    type V = ExecutionView;

    open spec fn view(&self) -> ExecutionView {
        match self {
            ContextExecution::Completed {
                schema_version,
                decision,
                attempts,
                final_route,
                payload,
                counters,
                diagnostics,
                materialization,
            } => ExecutionView {
                state: ExecutionState::Completed,
                schema_version: schema_version@,
                decision: decision@,
                attempts: attempt_views(attempts@),
                final_route: Some(*final_route),
                payload: Some(payload@),
                satisfied: Seq::empty(),
                deficits: Seq::empty(),
                counters: *counters,
                diagnostics: diagnostics@,
                materialization: opt_materialization(*materialization),
                terminal_reason: None,
                interruption_reason: None,
            },
            ContextExecution::Partial {
                schema_version,
                decision,
                attempts,
                final_route,
                payload,
                satisfied_capabilities,
                deficits,
                counters,
                diagnostics,
                materialization,
                terminal_reason,
            } => ExecutionView {
                state: ExecutionState::Partial,
                schema_version: schema_version@,
                decision: decision@,
                attempts: attempt_views(attempts@),
                final_route: Some(*final_route),
                payload: Some(payload@),
                satisfied: satisfied_capabilities@,
                deficits: deficits@,
                counters: *counters,
                diagnostics: diagnostics@,
                materialization: opt_materialization(*materialization),
                terminal_reason: Some(*terminal_reason),
                interruption_reason: None,
            },
            ContextExecution::Blocked {
                schema_version,
                decision,
                attempts,
                final_route,
                payload,
                satisfied_capabilities,
                deficits,
                counters,
                diagnostics,
                materialization,
                terminal_reason,
            } => ExecutionView {
                state: ExecutionState::Blocked,
                schema_version: schema_version@,
                decision: decision@,
                attempts: attempt_views(attempts@),
                final_route: *final_route,
                payload: opt_payload(*payload),
                satisfied: satisfied_capabilities@,
                deficits: deficits@,
                counters: *counters,
                diagnostics: diagnostics@,
                materialization: opt_materialization(*materialization),
                terminal_reason: Some(*terminal_reason),
                interruption_reason: None,
            },
            ContextExecution::Interrupted {
                schema_version,
                decision,
                completed_attempts,
                prior_payload,
                satisfied_capabilities,
                counters,
                diagnostics,
                materialization,
                interruption_reason,
            } => ExecutionView {
                state: ExecutionState::Interrupted,
                schema_version: schema_version@,
                decision: decision@,
                attempts: attempt_views(completed_attempts@),
                final_route: None,
                payload: opt_payload(*prior_payload),
                satisfied: satisfied_capabilities@,
                deficits: Seq::empty(),
                counters: *counters,
                diagnostics: diagnostics@,
                materialization: opt_materialization(*materialization),
                terminal_reason: None,
                interruption_reason: Some(*interruption_reason),
            },
        }
    }
}

/// The attempt stays within the decision's routes, and DIRECT costs nothing.
pub open spec fn attempt_within(attempt: AttemptView, decision: DecisionView) -> bool {
    &&& decision.effective_floor.spec_rank() <= attempt.route.spec_rank()
    &&& attempt.route.spec_rank() <= decision.effective_ceiling.spec_rank()
    &&& attempt.route == Route::Direct ==> attempt.counters == context_metrics::zero_counters()
}

/// The attempts are a legal progression under the decision.
pub open spec fn progression_valid(attempts: Seq<AttemptView>, decision: DecisionView) -> bool {
    &&& attempts.len() <= MAX_ROUTE_ATTEMPTS
    &&& forall|i: int| 0 <= i < attempts.len() ==> (#[trigger] attempts[i]).valid()
    &&& forall|i: int, j: int|
        0 <= i && j == i + 1 && j < attempts.len() ==> transition_allowed(
            #[trigger] attempts[i],
            #[trigger] attempts[j],
            decision.requested_capabilities,
        )
    &&& attempts.len() > 0 ==> attempts[0].route == decision.initial_route
    &&& forall|i: int| 0 <= i < attempts.len() ==> attempt_within(#[trigger] attempts[i], decision)
    &&& decision.starting_generation is Unavailable || (
    decision.requested_capabilities.all_satisfied() && decision.initial_route == Route::Direct)
        ==> forall|i: int|
        0 <= i < attempts.len() ==> (#[trigger] attempts[i]).route == Route::Direct
    &&& counter_sum(attempts).fits()
}

/// Every capability that the caller lacks can be had on the route.
pub open spec fn route_supplies(map: CapabilityMap, route: Route) -> bool {
    forall|c: RequiredCapability|
        #[trigger] map.state(c) is Some && map.state(c) != Some(CallerCapabilityState::Satisfied)
            ==> route.spec_rank() >= c.spec_minimum_route().spec_rank()
}

impl ExecutionView {
    /// What every execution must meet, whatever its state.
    pub open spec fn common_valid(self) -> bool {
        &&& self.diagnostics.len() <= MAX_EXECUTION_DIAGNOSTICS
        &&& self.counters.within_bounds()
        &&& progression_valid(self.attempts, self.decision)
        &&& counter_sum(self.attempts).held_by(self.counters)
    }

    /// The last attempt has the route and the state.
    pub open spec fn ends_with(self, route: Route, state: AttemptState) -> bool {
        self.attempts.len() > 0 && self.attempts.last().route == route && self.attempts.last().state
            == state
    }

    /// What a completed execution must meet: the last attempt completed on the
    /// final route, and that route supplies whatever the caller lacked.
    pub open spec fn completed_valid(self) -> bool {
        &&& self.final_route is Some && self.payload is Some
        &&& self.payload->0.valid()
        &&& self.payload->0.route() == self.final_route->0
        &&& self.ends_with(self.final_route->0, AttemptState::Completed)
        &&& route_supplies(self.decision.requested_capabilities, self.final_route->0)
    }

    /// What a partial execution must meet: useful evidence, and an account of what
    /// is missing.
    pub open spec fn partial_valid(self) -> bool {
        &&& self.final_route is Some && self.payload is Some && self.terminal_reason is Some
        &&& self.payload->0.valid()
        &&& self.payload->0.route() == self.final_route->0
        &&& self.payload->0.useful()
        &&& self.ends_with(self.final_route->0, AttemptState::Partial)
        &&& !has_route_deficit(self.deficits)
        &&& self.attempts.last().deficits == self.deficits
        &&& accounts_for(
            self.decision.requested_capabilities,
            self.satisfied,
            self.deficits,
            self.final_route,
            true,
            true,
        )
        &&& terminal_reason_holds(
            self.terminal_reason->0,
            self.final_route,
            self.decision.effective_ceiling,
            self.deficits,
        )
    }

    /// What a blocked execution must meet: a deficit to show for it, and a final
    /// route exactly where something was attempted.
    pub open spec fn blocked_valid(self) -> bool {
        &&& self.terminal_reason is Some
        &&& self.deficits.len() > 0
        &&& self.final_route is Some <==> self.attempts.len() > 0
        &&& self.final_route is Some ==> self.ends_with(self.final_route->0, AttemptState::Blocked)
        &&& self.attempts.len() > 0 ==> self.attempts.last().deficits == self.deficits
        &&& accounts_for(
            self.decision.requested_capabilities,
            self.satisfied,
            self.deficits,
            self.final_route,
            self.payload is Some,
            !has_route_deficit(self.deficits),
        )
        &&& self.payload is Some ==> {
            &&& self.payload->0.valid()
            &&& self.payload->0.useful()
            &&& self.final_route == Some(self.payload->0.route())
        }
        &&& terminal_reason_holds(
            self.terminal_reason->0,
            self.final_route,
            self.decision.effective_ceiling,
            self.deficits,
        )
    }

    /// The route of the last attempt.
    pub open spec fn last_route(self) -> Option<Route> {
        if self.attempts.len() > 0 {
            Some(self.attempts.last().route)
        } else {
            None
        }
    }

    /// What an interrupted execution must meet: only finished attempts, and a
    /// payload only from the last of them.
    pub open spec fn interrupted_valid(self) -> bool {
        &&& forall|i: int|
            0 <= i < self.attempts.len() ==> (#[trigger] self.attempts[i]).state
                != AttemptState::Blocked && self.attempts[i].state != AttemptState::Interrupted
        &&& accounts_for(
            self.decision.requested_capabilities,
            self.satisfied,
            Seq::empty(),
            self.last_route(),
            self.payload is Some && self.payload->0.useful(),
            false,
        )
        &&& self.payload is Some ==> {
            &&& self.payload->0.valid()
            &&& self.last_route() == Some(self.payload->0.route())
        }
    }

    /// The execution meets every invariant of its state.
    pub open spec fn valid(self) -> bool {
        &&& self.common_valid()
        &&& match self.state {
            ExecutionState::Completed => self.completed_valid(),
            ExecutionState::Partial => self.partial_valid(),
            ExecutionState::Blocked => self.blocked_valid(),
            ExecutionState::Interrupted => self.interrupted_valid(),
        }
        &&& materialization_allowed(self.materialization, self.payload)
    }

    /// What is wrong with the execution, if anything.
    #[verifier::opaque]
    pub open spec fn fault(self) -> Option<RouteErrorView> {
        if self.schema_version != CONTEXT_EXECUTION_VERSION@ {
            Some(
                RouteErrorView::UnsupportedVersion {
                    contract: "execution"@,
                    supplied: self.schema_version,
                },
            )
        } else if self.decision.fault() is Some {
            self.decision.fault()
        } else if !self.valid() {
            Some(RouteErrorView::InvalidExecution)
        } else {
            None
        }
    }
}

fn is_attempt_within(attempt: &ExecutionAttempt, decision: &ContextRouteDecision) -> (r: bool)
    ensures
        r == attempt_within(attempt@, decision@),
{
    decision.effective_floor.rank() <= attempt.route.rank() && attempt.route.rank()
        <= decision.effective_ceiling.rank() && (attempt.route != Route::Direct || attempt.counters
        == ContextExecutionCounters::default())
}

fn is_unavailable(observation: &GenerationObservation) -> (r: bool)
    ensures
        r == (observation@ is Unavailable),
{
    match observation {
        GenerationObservation::Observed { .. } => false,
        GenerationObservation::Unavailable { .. } => true,
    }
}

fn is_progression_valid(attempts: &Vec<ExecutionAttempt>, decision: &ContextRouteDecision) -> (r:
    bool)
    ensures
        r == progression_valid(attempt_views(attempts@), decision@),
{
    let ghost all = attempt_views(attempts@);
    if attempts.len() > MAX_ROUTE_ATTEMPTS {
        return false;
    }
    if attempts.len() > 0 && attempts[0].route != decision.initial_route {
        assert(all[0].route != decision@.initial_route);
        return false;
    }
    let stay_direct = is_unavailable(&decision.starting_generation) || (
    decision.requested_capabilities.is_all_satisfied() && decision.initial_route == Route::Direct);
    for i in 0..attempts.len()
        invariant
            all == attempt_views(attempts@),
            stay_direct == (decision@.starting_generation is Unavailable || (
            decision@.requested_capabilities.all_satisfied() && decision@.initial_route
                == Route::Direct)),
            forall|j: int|
                0 <= j < i ==> {
                    &&& (#[trigger] all[j]).valid()
                    &&& attempt_within(all[j], decision@)
                    &&& stay_direct ==> all[j].route == Route::Direct
                },
            forall|j: int, k: int|
                0 <= j && k == j + 1 && k < i ==> transition_allowed(
                    #[trigger] all[j],
                    #[trigger] all[k],
                    decision@.requested_capabilities,
                ),
    {
        assert(all[i as int] == attempts@[i as int]@);
        if !attempts[i].is_valid() || !is_attempt_within(&attempts[i], decision) || (stay_direct
            && attempts[i].route != Route::Direct) {
            assert(!(all[i as int].valid() && attempt_within(all[i as int], decision@) && (
            stay_direct ==> all[i as int].route == Route::Direct)));
            return false;
        }
        if i > 0 && !valid_attempt_transition(&attempts[i - 1], &attempts[i], decision) {
            assert(all[i - 1] == attempts@[i - 1]@);
            assert(!transition_allowed(
                all[i - 1],
                all[i as int],
                decision@.requested_capabilities,
            ));
            return false;
        }
        if i > 0 {
            assert(all[i - 1] == attempts@[i - 1]@);
        }
    }
    checked_counter_sum(attempts).is_ok()
}

fn counters_match(attempts: &Vec<ExecutionAttempt>, counters: &ContextExecutionCounters) -> (r: bool)
    ensures
        r == (counter_sum(attempt_views(attempts@)).fits() && counter_sum(
            attempt_views(attempts@),
        ).held_by(*counters)),
{
    match checked_counter_sum(attempts) {
        Ok(sum) => sum == *counters,
        Err(_) => false,
    }
}

fn attempts_end_with(attempts: &Vec<ExecutionAttempt>, route: Route, state: AttemptState) -> (r: bool)
    ensures
        r == (attempts@.len() > 0 && attempt_views(attempts@).last().route == route
            && attempt_views(attempts@).last().state == state),
{
    if attempts.len() == 0 {
        return false;
    }
    let last = &attempts[attempts.len() - 1];
    assert(attempt_views(attempts@).last() == last@);
    last.route == route && last.state == state
}

fn does_route_supply(map: &CapabilityMap, route: Route) -> (r: bool)
    ensures
        r == route_supplies(*map, route),
{
    let entries = map.entries();
    proof {
        context_route::lemma_listed(*map, 8);
    }
    for i in 0..entries.len()
        invariant
            entries@ == map.listed(),
            forall|j: int|
                0 <= j < i && (#[trigger] entries@[j]).1 != CallerCapabilityState::Satisfied
                    ==> route.spec_rank() >= entries@[j].0.spec_minimum_route().spec_rank(),
            forall|j: int|
                0 <= j < entries@.len() ==> map.state((#[trigger] entries@[j]).0) == Some(
                    entries@[j].1,
                ),
    {
        let (capability, state) = entries[i];
        if state != CallerCapabilityState::Satisfied && route.rank()
            < capability.minimum_route().rank() {
            assert(map.state(entries@[i as int].0) == Some(entries@[i as int].1));
            assert(map.state(capability) is Some);
            return false;
        }
    }
    proof {
        assert forall|c: RequiredCapability|
            #[trigger] map.state(c) is Some && map.state(c) != Some(
                CallerCapabilityState::Satisfied,
            ) implies route.spec_rank() >= c.spec_minimum_route().spec_rank() by {
            assert(map.listed_upto(8).contains((c, map.state(c)->0)));
            let k = choose|k: int|
                0 <= k < entries@.len() && entries@[k] == (c, map.state(c)->0);
            assert(entries@[k].1 != CallerCapabilityState::Satisfied);
        }
    }
    true
}

impl ContextExecution {
    fn is_completed_valid(&self) -> (r: bool)
        requires
            self is Completed,
        ensures
            r == (self@.completed_valid() && materialization_allowed(
                self@.materialization,
                self@.payload,
            )),
    {
        match self {
            ContextExecution::Completed {
                decision,
                attempts,
                final_route,
                payload,
                materialization,
                ..
            } => payload.is_valid() && attempts_end_with(
                attempts,
                *final_route,
                AttemptState::Completed,
            ) && payload.route() == *final_route && does_route_supply(
                &decision.requested_capabilities,
                *final_route,
            ) && is_materialization_allowed(materialization, Some(payload)),
            _ => false,
        }
    }

    fn is_partial_valid(&self) -> (r: bool)
        requires
            self is Partial,
        ensures
            r == (self@.partial_valid() && materialization_allowed(
                self@.materialization,
                self@.payload,
            )),
    {
        match self {
            ContextExecution::Partial {
                decision,
                attempts,
                final_route,
                payload,
                satisfied_capabilities,
                deficits,
                materialization,
                terminal_reason,
                ..
            } => {
                if !attempts_end_with(attempts, *final_route, AttemptState::Partial) {
                    return false;
                }
                let last = &attempts[attempts.len() - 1];
                assert(self@.attempts.last() == last@);
                payload.is_valid() && payload.route() == *final_route && payload.useful()
                    && !any_route_deficit(deficits) && same_deficits(&last.deficits, deficits)
                    && accounts(
                    &decision.requested_capabilities,
                    satisfied_capabilities,
                    deficits,
                    Some(*final_route),
                    true,
                    true,
                ) && is_terminal_reason(
                    *terminal_reason,
                    Some(*final_route),
                    decision.effective_ceiling,
                    deficits,
                ) && is_materialization_allowed(materialization, Some(payload))
            },
            _ => false,
        }
    }

    fn is_blocked_valid(&self) -> (r: bool)
        requires
            self is Blocked,
        ensures
            r == (self@.blocked_valid() && materialization_allowed(
                self@.materialization,
                self@.payload,
            )),
    {
        match self {
            ContextExecution::Blocked {
                decision,
                attempts,
                final_route,
                payload,
                satisfied_capabilities,
                deficits,
                materialization,
                terminal_reason,
                ..
            } => {
                if deficits.len() == 0 || final_route.is_some() != (attempts.len() > 0) {
                    return false;
                }
                if let Some(route) = *final_route {
                    if !attempts_end_with(attempts, route, AttemptState::Blocked) {
                        return false;
                    }
                    let last = &attempts[attempts.len() - 1];
                    assert(self@.attempts.last() == last@);
                    if !same_deficits(&last.deficits, deficits) {
                        return false;
                    }
                }
                if !accounts(
                    &decision.requested_capabilities,
                    satisfied_capabilities,
                    deficits,
                    *final_route,
                    payload.is_some(),
                    !any_route_deficit(deficits),
                ) {
                    return false;
                }
                let payload_valid = match payload {
                    Some(payload) => payload.is_valid() && payload.useful() && match *final_route {
                        Some(route) => payload.route() == route,
                        None => false,
                    } && is_materialization_allowed(materialization, Some(payload)),
                    None => is_materialization_allowed(materialization, None),
                };
                payload_valid && is_terminal_reason(
                    *terminal_reason,
                    *final_route,
                    decision.effective_ceiling,
                    deficits,
                )
            },
            _ => false,
        }
    }

    fn is_interrupted_valid(&self) -> (r: bool)
        requires
            self is Interrupted,
        ensures
            r == (self@.interrupted_valid() && materialization_allowed(
                self@.materialization,
                self@.payload,
            )),
    {
        match self {
            ContextExecution::Interrupted {
                decision,
                completed_attempts,
                prior_payload,
                satisfied_capabilities,
                materialization,
                ..
            } => {
                let ghost all = attempt_views(completed_attempts@);
                for i in 0..completed_attempts.len()
                    invariant
                        all == attempt_views(completed_attempts@),
                        all == self@.attempts,
                        forall|j: int|
                            0 <= j < i ==> (#[trigger] all[j]).state != AttemptState::Blocked
                                && all[j].state != AttemptState::Interrupted,
                {
                    assert(all[i as int] == completed_attempts@[i as int]@);
                    if completed_attempts[i].state == AttemptState::Blocked
                        || completed_attempts[i].state == AttemptState::Interrupted {
                        return false;
                    }
                }
                let last_route: Option<Route> = if completed_attempts.len() > 0 {
                    assert(all.last() == completed_attempts@[completed_attempts@.len() - 1]@);
                    Some(completed_attempts[completed_attempts.len() - 1].route)
                } else {
                    None
                };
                assert(last_route == self@.last_route());
                let useful = match prior_payload {
                    Some(payload) => payload.useful(),
                    None => false,
                };
                let none: Vec<RouteDeficit> = Vec::new();
                if !accounts(
                    &decision.requested_capabilities,
                    satisfied_capabilities,
                    &none,
                    last_route,
                    useful,
                    false,
                ) {
                    assert(none@ =~= Seq::empty());
                    return false;
                }
                assert(none@ =~= Seq::empty());
                match prior_payload {
                    Some(payload) => payload.is_valid() && match last_route {
                        Some(route) => payload.route() == route,
                        None => false,
                    } && is_materialization_allowed(materialization, Some(payload)),
                    None => is_materialization_allowed(materialization, None),
                }
            },
            _ => false,
        }
    }

    /// Checks the envelope: its version, its decision, and every invariant of its
    /// state.
    pub fn validate(&self) -> (r: Result<(), ContextRouteError>)
        ensures
            context_route::fault_of(r) == self@.fault(),
    {
        reveal(ExecutionView::fault);
        let (schema_version, decision, attempts, counters, diagnostics) = match self {
            ContextExecution::Completed {
                schema_version,
                decision,
                attempts,
                counters,
                diagnostics,
                ..
            } => (schema_version, decision, attempts, counters, diagnostics),
            ContextExecution::Partial {
                schema_version,
                decision,
                attempts,
                counters,
                diagnostics,
                ..
            } => (schema_version, decision, attempts, counters, diagnostics),
            ContextExecution::Blocked {
                schema_version,
                decision,
                attempts,
                counters,
                diagnostics,
                ..
            } => (schema_version, decision, attempts, counters, diagnostics),
            ContextExecution::Interrupted {
                schema_version,
                decision,
                completed_attempts,
                counters,
                diagnostics,
                ..
            } => (schema_version, decision, completed_attempts, counters, diagnostics),
        };
        if !text::text_eq(schema_version.as_str(), CONTEXT_EXECUTION_VERSION) {
            return Err(
                ContextRouteError::UnsupportedVersion {
                    contract: "execution".to_string(),
                    supplied: schema_version.clone(),
                },
            );
        }
        match decision.validate() {
            Ok(()) => {},
            Err(e) => return Err(e),
        }
        if diagnostics.len() > MAX_EXECUTION_DIAGNOSTICS || counters.validate().is_err()
            || !is_progression_valid(attempts, decision) || !counters_match(attempts, counters) {
            return Err(ContextRouteError::InvalidExecution);
        }
        assert(self@.common_valid());
        let valid = match self {
            ContextExecution::Completed { .. } => self.is_completed_valid(),
            ContextExecution::Partial { .. } => self.is_partial_valid(),
            ContextExecution::Blocked { .. } => self.is_blocked_valid(),
            ContextExecution::Interrupted { .. } => self.is_interrupted_valid(),
        };
        if valid {
            Ok(())
        } else {
            Err(ContextRouteError::InvalidExecution)
        }
    }
}

/// The route of the last attempt, or the initial route where there is none.
pub open spec fn reached_route(decision: DecisionView, attempts: Seq<AttemptView>) -> Route {
    if attempts.len() > 0 {
        attempts.last().route
    } else {
        decision.initial_route
    }
}

/// A completed execution.
pub open spec fn completed_view(
    decision: DecisionView,
    attempts: Seq<AttemptView>,
    payload: PayloadView,
    counters: ContextExecutionCounters,
    diagnostics: Seq<ContextDiagnosticCode>,
    materialization: Option<MaterializationView>,
) -> ExecutionView {
    ExecutionView {
        state: ExecutionState::Completed,
        schema_version: CONTEXT_EXECUTION_VERSION@,
        decision,
        attempts,
        final_route: Some(reached_route(decision, attempts)),
        payload: Some(payload),
        satisfied: Seq::empty(),
        deficits: Seq::empty(),
        counters,
        diagnostics,
        materialization,
        terminal_reason: None,
        interruption_reason: None,
    }
}

/// A partial execution.
pub open spec fn partial_view(
    decision: DecisionView,
    attempts: Seq<AttemptView>,
    final_route: Route,
    payload: PayloadView,
    satisfied: Seq<RequiredCapability>,
    deficits: Seq<RouteDeficit>,
    counters: ContextExecutionCounters,
    diagnostics: Seq<ContextDiagnosticCode>,
    materialization: Option<MaterializationView>,
    terminal_reason: TerminalReason,
) -> ExecutionView {
    ExecutionView {
        state: ExecutionState::Partial,
        schema_version: CONTEXT_EXECUTION_VERSION@,
        decision,
        attempts,
        final_route: Some(final_route),
        payload: Some(payload),
        satisfied,
        deficits,
        counters,
        diagnostics,
        materialization,
        terminal_reason: Some(terminal_reason),
        interruption_reason: None,
    }
}

/// A blocked execution.
pub open spec fn blocked_view(
    decision: DecisionView,
    attempts: Seq<AttemptView>,
    final_route: Option<Route>,
    payload: Option<PayloadView>,
    satisfied: Seq<RequiredCapability>,
    deficits: Seq<RouteDeficit>,
    counters: ContextExecutionCounters,
    diagnostics: Seq<ContextDiagnosticCode>,
    materialization: Option<MaterializationView>,
    terminal_reason: TerminalReason,
) -> ExecutionView {
    ExecutionView {
        state: ExecutionState::Blocked,
        schema_version: CONTEXT_EXECUTION_VERSION@,
        decision,
        attempts,
        final_route,
        payload,
        satisfied,
        deficits,
        counters,
        diagnostics,
        materialization,
        terminal_reason: Some(terminal_reason),
        interruption_reason: None,
    }
}

/// An interrupted execution.
pub open spec fn interrupted_view(
    decision: DecisionView,
    attempts: Seq<AttemptView>,
    payload: Option<PayloadView>,
    satisfied: Seq<RequiredCapability>,
    counters: ContextExecutionCounters,
    diagnostics: Seq<ContextDiagnosticCode>,
    materialization: Option<MaterializationView>,
    interruption_reason: InterruptionReason,
) -> ExecutionView {
    ExecutionView {
        state: ExecutionState::Interrupted,
        schema_version: CONTEXT_EXECUTION_VERSION@,
        decision,
        attempts,
        final_route: None,
        payload,
        satisfied,
        deficits: Seq::empty(),
        counters,
        diagnostics,
        materialization,
        terminal_reason: None,
        interruption_reason: Some(interruption_reason),
    }
}

/// The result is the envelope, unless the envelope is at fault.
pub open spec fn checked_envelope(
    r: Result<ContextExecution, ContextRouteError>,
    envelope: ExecutionView,
) -> bool {
    &&& context_route::fault_of(r) == envelope.fault()
    &&& r is Ok ==> r->Ok_0@ == envelope
}

impl ContextExecution {
    /// A completed execution on the route of its last attempt.
    pub fn completed(
        decision: ContextRouteDecision,
        attempts: Vec<ExecutionAttempt>,
        payload: ContextPayload,
        counters: ContextExecutionCounters,
        diagnostics: Vec<ContextDiagnosticCode>,
        materialization: Option<ExplicitMaterialization>,
    ) -> (r: Result<Self, ContextRouteError>)
        ensures
            checked_envelope(
                r,
                completed_view(
                    decision@,
                    attempt_views(attempts@),
                    payload@,
                    counters,
                    diagnostics@,
                    opt_materialization(materialization),
                ),
            ),
    {
        let final_route = if attempts.len() > 0 {
            assert(attempt_views(attempts@).last() == attempts@[attempts@.len() - 1]@);
            attempts[attempts.len() - 1].route
        } else {
            decision.initial_route
        };
        let value = ContextExecution::Completed {
            schema_version: CONTEXT_EXECUTION_VERSION.to_string(),
            decision,
            attempts,
            final_route,
            payload,
            counters,
            diagnostics,
            materialization,
        };
        match value.validate() {
            Ok(()) => Ok(value),
            Err(e) => Err(e),
        }
    }

    /// A partial execution.
    pub fn partial(
        decision: ContextRouteDecision,
        attempts: Vec<ExecutionAttempt>,
        final_route: Route,
        payload: ContextPayload,
        satisfied_capabilities: Vec<RequiredCapability>,
        deficits: Vec<RouteDeficit>,
        counters: ContextExecutionCounters,
        diagnostics: Vec<ContextDiagnosticCode>,
        materialization: Option<ExplicitMaterialization>,
        terminal_reason: TerminalReason,
    ) -> (r: Result<Self, ContextRouteError>)
        ensures
            checked_envelope(
                r,
                partial_view(
                    decision@,
                    attempt_views(attempts@),
                    final_route,
                    payload@,
                    satisfied_capabilities@,
                    deficits@,
                    counters,
                    diagnostics@,
                    opt_materialization(materialization),
                    terminal_reason,
                ),
            ),
    {
        let value = ContextExecution::Partial {
            schema_version: CONTEXT_EXECUTION_VERSION.to_string(),
            decision,
            attempts,
            final_route,
            payload,
            satisfied_capabilities,
            deficits,
            counters,
            diagnostics,
            materialization,
            terminal_reason,
        };
        match value.validate() {
            Ok(()) => Ok(value),
            Err(e) => Err(e),
        }
    }

    /// A blocked execution.
    pub fn blocked(
        decision: ContextRouteDecision,
        attempts: Vec<ExecutionAttempt>,
        final_route: Option<Route>,
        payload: Option<ContextPayload>,
        satisfied_capabilities: Vec<RequiredCapability>,
        deficits: Vec<RouteDeficit>,
        counters: ContextExecutionCounters,
        diagnostics: Vec<ContextDiagnosticCode>,
        materialization: Option<ExplicitMaterialization>,
        terminal_reason: TerminalReason,
    ) -> (r: Result<Self, ContextRouteError>)
        ensures
            checked_envelope(
                r,
                blocked_view(
                    decision@,
                    attempt_views(attempts@),
                    final_route,
                    opt_payload(payload),
                    satisfied_capabilities@,
                    deficits@,
                    counters,
                    diagnostics@,
                    opt_materialization(materialization),
                    terminal_reason,
                ),
            ),
    {
        let value = ContextExecution::Blocked {
            schema_version: CONTEXT_EXECUTION_VERSION.to_string(),
            decision,
            attempts,
            final_route,
            payload,
            satisfied_capabilities,
            deficits,
            counters,
            diagnostics,
            materialization,
            terminal_reason,
        };
        match value.validate() {
            Ok(()) => Ok(value),
            Err(e) => Err(e),
        }
    }

    /// An interrupted execution.
    pub fn interrupted(
        decision: ContextRouteDecision,
        completed_attempts: Vec<ExecutionAttempt>,
        prior_payload: Option<ContextPayload>,
        satisfied_capabilities: Vec<RequiredCapability>,
        counters: ContextExecutionCounters,
        diagnostics: Vec<ContextDiagnosticCode>,
        materialization: Option<ExplicitMaterialization>,
        interruption_reason: InterruptionReason,
    ) -> (r: Result<Self, ContextRouteError>)
        ensures
            checked_envelope(
                r,
                interrupted_view(
                    decision@,
                    attempt_views(completed_attempts@),
                    opt_payload(prior_payload),
                    satisfied_capabilities@,
                    counters,
                    diagnostics@,
                    opt_materialization(materialization),
                    interruption_reason,
                ),
            ),
    {
        let value = ContextExecution::Interrupted {
            schema_version: CONTEXT_EXECUTION_VERSION.to_string(),
            decision,
            completed_attempts,
            prior_payload,
            satisfied_capabilities,
            counters,
            diagnostics,
            materialization,
            interruption_reason,
        };
        match value.validate() {
            Ok(()) => Ok(value),
            Err(e) => Err(e),
        }
    }

    /// How the execution ended.
    pub fn state(&self) -> (r: ExecutionState)
        ensures
            r == self@.state,
    {
        match self {
            ContextExecution::Completed { .. } => ExecutionState::Completed,
            ContextExecution::Partial { .. } => ExecutionState::Partial,
            ContextExecution::Blocked { .. } => ExecutionState::Blocked,
            ContextExecution::Interrupted { .. } => ExecutionState::Interrupted,
        }
    }

    /// What the execution hands over, if anything.
    pub fn payload(&self) -> (r: Option<&ContextPayload>)
        ensures
            self@.payload == match r {
                Some(payload) => Some(payload@),
                None => None,
            },
    {
        match self {
            ContextExecution::Completed { payload, .. } => Some(payload),
            ContextExecution::Partial { payload, .. } => Some(payload),
            ContextExecution::Blocked { payload, .. } => match payload {
                Some(payload) => Some(payload),
                None => None,
            },
            ContextExecution::Interrupted { prior_payload, .. } => match prior_payload {
                Some(payload) => Some(payload),
                None => None,
            },
        }
    }
}

/// No valid execution leaves the routes of its decision: every attempt lies
/// between floor and ceiling, the first is on the initial route, and an intent
/// without Atlas never leaves DIRECT.
pub proof fn law_execution_stays_within_its_decision(e: ExecutionView)
    requires
        e.fault() is None,
    ensures
        forall|i: int|
            0 <= i < e.attempts.len() ==> {
                &&& e.decision.effective_floor.spec_rank() <= (
                #[trigger] e.attempts[i]).route.spec_rank()
                &&& e.attempts[i].route.spec_rank() <= e.decision.effective_ceiling.spec_rank()
            },
        e.attempts.len() > 0 ==> e.attempts[0].route == e.decision.initial_route,
        e.decision.request.atlas_intent == context_route::AtlasIntent::Never ==> forall|i: int|
            0 <= i < e.attempts.len() ==> (#[trigger] e.attempts[i]).route == Route::Direct,
{
    reveal(ExecutionView::fault);
    reveal(DecisionView::fault);
    assert forall|i: int| 0 <= i < e.attempts.len() implies {
        &&& e.decision.effective_floor.spec_rank() <= (#[trigger] e.attempts[i]).route.spec_rank()
        &&& e.attempts[i].route.spec_rank() <= e.decision.effective_ceiling.spec_rank()
    } by {
        assert(attempt_within(e.attempts[i], e.decision));
    }
}

/// The counters of a valid execution are the sum of those of its attempts, and a
/// DIRECT attempt adds nothing.
pub proof fn law_execution_counters_add_up(e: ExecutionView)
    requires
        e.fault() is None,
    ensures
        counter_sum(e.attempts).held_by(e.counters),
        e.attempts.len() == 0 ==> e.counters == context_metrics::zero_counters(),
        forall|i: int|
            0 <= i < e.attempts.len() && (#[trigger] e.attempts[i]).route == Route::Direct
                ==> e.attempts[i].counters == context_metrics::zero_counters(),
{
    reveal(ExecutionView::fault);
    assert forall|i: int|
        0 <= i < e.attempts.len() && (#[trigger] e.attempts[i]).route
            == Route::Direct implies e.attempts[i].counters == context_metrics::zero_counters() by {
        assert(attempt_within(e.attempts[i], e.decision));
    }
}

/// Source bytes never come without explicit authorization and a payload from the
/// Atlas.
pub proof fn law_materialization_is_authorized(e: ExecutionView)
    requires
        e.fault() is None,
        e.materialization is Some,
    ensures
        e.materialization->0.authorized,
        source_bytes(e.materialization->0.sources) <= e.materialization->0.max_bytes,
        e.payload is Some && e.payload->0.useful(),
{
    reveal(ExecutionView::fault);
}

} // verus!
