//! Deciding, record by record, how a target's address records are brought
//! in line with the host's addresses, and what came of it.
//!
//! A record is updated whenever the host has an address of the record's
//! family, also where the record holds that address already: the update
//! resets the time to live.

use crate::address::{OwnAddresses, OwnAddressesView};
use crate::api::{reply_view, ApiError, ApiErrorView, ApiRequest, ApiRequestView};
use crate::hetzner_dns::{UpdateRecordData, UpdateRecordDataView};
use crate::resolver::{AddressKind, AddressRecord, AddressRecordView};
use vstd::prelude::*;

verus! {

/// The time to live that every update sets, in seconds.
pub const UPDATE_TTL: u64 = 60;

/// Why a record is left as it is.
#[derive(Clone, Copy, Debug, PartialEq, Eq, Structural)]
pub enum SkipReason {
    /// The record is an `A` record and the host has no IPv4 address.
    NoIpv4,
    /// The record is an `AAAA` record and the host has no IPv6 address.
    NoIpv6,
}

impl SkipReason {
    /// The reason in words.
    pub open spec fn text(self) -> Seq<char> {
        match self {
            SkipReason::NoIpv4 => "no IPv4 connectivity"@,
            SkipReason::NoIpv6 => "no IPv6 connectivity"@,
        }
    }

    /// The reason in words.
    pub fn message(&self) -> (s: &'static str)
        ensures
            s@ == self.text(),
    {
        match self {
            SkipReason::NoIpv4 => "no IPv4 connectivity",
            SkipReason::NoIpv6 => "no IPv6 connectivity",
        }
    }
}

/// What is to be done about one record.
#[derive(Debug, PartialEq, Eq)]
pub enum UpdatePlan {
    /// Replace the fields of the record `record_id` by `data`.
    Update { record_id: String, data: UpdateRecordData },
    /// Leave the record `record_id` as it is.
    Skip { record_id: String, reason: SkipReason },
}

/// View of an [`UpdatePlan`].
pub ghost enum UpdatePlanView {
    Update { record_id: Seq<char>, data: UpdateRecordDataView },
    Skip { record_id: Seq<char>, reason: SkipReason },
}

impl View for UpdatePlan {
    type V = UpdatePlanView;

    open spec fn view(&self) -> UpdatePlanView {
        match self {
            UpdatePlan::Update { record_id, data } => UpdatePlanView::Update {
                record_id: record_id@,
                data: data@,
            },
            UpdatePlan::Skip { record_id, reason } => UpdatePlanView::Skip {
                record_id: record_id@,
                reason: *reason,
            },
        }
    }
}

impl DeepView for UpdatePlan {
    type V = UpdatePlanView;

    open spec fn deep_view(&self) -> UpdatePlanView {
        self@
    }
}

/// The value that a record of kind `kind` is to get: the text of the host's
/// address of that family, or the reason why there is none.
pub open spec fn candidate_value(kind: AddressKind, addrs: OwnAddressesView) -> Result<
    Seq<char>,
    SkipReason,
> {
    match kind {
        AddressKind::A => match addrs.ipv4 {
            Some(ip) => Ok(ip.text()),
            None => Err(SkipReason::NoIpv4),
        },
        AddressKind::Aaaa => match addrs.ipv6 {
            Some(ip) => Ok(ip.text()),
            None => Err(SkipReason::NoIpv6),
        },
    }
}

/// The plan for one record. Where the host has an address of the record's
/// family, the record keeps its name, type and zone, and gets that address
/// as its value and the fixed time to live: whatever it held before.
pub open spec fn planned(record: AddressRecordView, addrs: OwnAddressesView) -> UpdatePlanView {
    match candidate_value(record.kind, addrs) {
        Ok(value) => UpdatePlanView::Update {
            record_id: record.id,
            data: UpdateRecordDataView {
                name: record.name,
                ttl: UPDATE_TTL,
                typ: record.kind.record_type(),
                value,
                zone_id: record.zone_id,
            },
        },
        Err(reason) => UpdatePlanView::Skip { record_id: record.id, reason },
    }
}

/// [`planned`] for the addresses `addrs`, as a function of the record.
pub open spec fn planning(addrs: OwnAddressesView) -> spec_fn(AddressRecordView) -> UpdatePlanView {
    |record: AddressRecordView| planned(record, addrs)
}

/// Plans what is to be done about `record`, the host having the addresses
/// `addrs`.
pub fn plan_update(record: &AddressRecord, addrs: &OwnAddresses) -> (plan: UpdatePlan)
    ensures
        plan@ == planned(record@, addrs@),
{
    let candidate = match record.kind {
        AddressKind::A => match addrs.ipv4() {
            Some(ip) => Ok(ip.to_text()),
            None => Err(SkipReason::NoIpv4),
        },
        AddressKind::Aaaa => match addrs.ipv6() {
            Some(ip) => Ok(ip.to_text()),
            None => Err(SkipReason::NoIpv6),
        },
    };
    match candidate {
        Ok(value) => UpdatePlan::Update {
            record_id: record.id.clone(),
            data: UpdateRecordData {
                name: record.name.clone(),
                ttl: UPDATE_TTL,
                typ: record.kind.name().to_owned(),
                value,
                zone_id: record.zone_id.clone(),
            },
        },
        Err(reason) => UpdatePlan::Skip { record_id: record.id.clone(), reason },
    }
}

/// Plans what is to be done about each of `records`, in their order.
pub fn plan_updates(records: &Vec<AddressRecord>, addrs: &OwnAddresses) -> (plans: Vec<UpdatePlan>)
    ensures
        plans.deep_view() == records.deep_view().map_values(planning(addrs@)),
{
    let mut plans: Vec<UpdatePlan> = Vec::new();
    let mut i: usize = 0;
    while i < records.len()
        invariant
            i <= records.len(),
            plans.len() == i,
            forall|k: int| 0 <= k < i ==> (#[trigger] plans[k])@ == planned(records[k]@, addrs@),
        decreases records.len() - i,
    {
        plans.push(plan_update(&records[i], addrs));
        i += 1;
    }
    assert(plans.deep_view() =~= records.deep_view().map_values(planning(addrs@)));
    plans
}

/// The call that a plan asks for: one update for a plan to update, none for
/// a record that is skipped.
pub open spec fn call_of(plan: UpdatePlanView) -> Option<ApiRequestView> {
    match plan {
        UpdatePlanView::Update { record_id, data } => Some(
            ApiRequestView::UpdateRecord { record_id, data },
        ),
        UpdatePlanView::Skip { .. } => None,
    }
}

/// The calls that `plans` ask for, in their order.
pub open spec fn calls_of(plans: Seq<UpdatePlanView>) -> Seq<ApiRequestView> {
    plans.filter_map(|plan: UpdatePlanView| call_of(plan))
}

impl UpdatePlan {
    /// The call that the plan asks for, if it asks for one.
    pub fn call(&self) -> (request: Option<ApiRequest>)
        ensures
            request.deep_view() == call_of(self@),
    {
        match self {
            UpdatePlan::Update { record_id, data } => Some(
                ApiRequest::UpdateRecord { record_id: record_id.clone(), data: data.clone() },
            ),
            UpdatePlan::Skip { .. } => None,
        }
    }
}

/// The calls that `plans` ask for, in their order.
pub fn update_calls(plans: &Vec<UpdatePlan>) -> (calls: Vec<ApiRequest>)
    ensures
        calls.deep_view() == calls_of(plans.deep_view()),
{
    let ghost all = plans.deep_view();
    let ghost f = |plan: UpdatePlanView| call_of(plan);
    let mut calls: Vec<ApiRequest> = Vec::new();
    let mut i: usize = 0;
    while i < plans.len()
        invariant
            i <= plans.len(),
            all == plans.deep_view(),
            f == |plan: UpdatePlanView| call_of(plan),
            calls.deep_view() == all.take(i as int).filter_map(f),
        decreases plans.len() - i,
    {
        let ghost before = calls.deep_view();
        proof {
            all.lemma_filter_map_take_succ(f, i as int);
        }
        match plans[i].call() {
            Some(request) => {
                calls.push(request);
                assert(calls.deep_view() =~= before + seq![f(all[i as int]).unwrap()]);
            },
            None => {},
        }
        i += 1;
    }
    assert(all.take(plans.len() as int) =~= all);
    calls
}

/// What came of the plan for one record.
#[derive(Debug, PartialEq, Eq)]
pub enum UpdateOutcome {
    /// The provider took the update of this record.
    Updated(String),
    /// This record was left as it was, for the reason given.
    Skipped(String, SkipReason),
    /// The update of this record failed.
    Failed(String, ApiError),
}

/// View of an [`UpdateOutcome`].
pub ghost enum UpdateOutcomeView {
    Updated(Seq<char>),
    Skipped(Seq<char>, SkipReason),
    Failed(Seq<char>, ApiErrorView),
}

impl View for UpdateOutcome {
    type V = UpdateOutcomeView;

    open spec fn view(&self) -> UpdateOutcomeView {
        match self {
            UpdateOutcome::Updated(record_id) => UpdateOutcomeView::Updated(record_id@),
            UpdateOutcome::Skipped(record_id, reason) => UpdateOutcomeView::Skipped(
                record_id@,
                *reason,
            ),
            UpdateOutcome::Failed(record_id, error) => UpdateOutcomeView::Failed(
                record_id@,
                error@,
            ),
        }
    }
}

impl DeepView for UpdateOutcome {
    type V = UpdateOutcomeView;

    open spec fn deep_view(&self) -> UpdateOutcomeView {
        self@
    }
}

/// The outcome of an update that the provider answered with `result`.
pub open spec fn settled(record_id: Seq<char>, result: Result<(), ApiErrorView>)
    -> UpdateOutcomeView {
    match result {
        Ok(_) => UpdateOutcomeView::Updated(record_id),
        Err(error) => UpdateOutcomeView::Failed(record_id, error),
    }
}

/// The outcomes of `plans`, their calls made in order and answered by
/// `results`, one result for each call. A skipped record needs no result.
/// A failed update does not keep the later ones from being made. Where the
/// results run out, the list ends before the first call that has none.
pub open spec fn concluded(
    plans: Seq<UpdatePlanView>,
    results: Seq<Result<(), ApiErrorView>>,
) -> Seq<UpdateOutcomeView>
    decreases plans.len(),
{
    if plans.len() == 0 {
        Seq::empty()
    } else {
        match plans.first() {
            UpdatePlanView::Skip { record_id, reason } => seq![
                UpdateOutcomeView::Skipped(record_id, reason),
            ] + concluded(plans.drop_first(), results),
            UpdatePlanView::Update { record_id, data } => if results.len() == 0 {
                Seq::empty()
            } else {
                seq![settled(record_id, results.first())] + concluded(
                    plans.drop_first(),
                    results.drop_first(),
                )
            },
        }
    }
}

/// Views of the results of a run of calls.
pub open spec fn results_view(results: Seq<Result<(), ApiError>>) -> Seq<Result<(), ApiErrorView>> {
    results.map_values(|result: Result<(), ApiError>| reply_view(result))
}

/// Draws up the outcomes of `plans` from the `results` of their calls, which
/// were made in order.
pub fn conclude(plans: &Vec<UpdatePlan>, results: &Vec<Result<(), ApiError>>) -> (outcomes: Vec<
    UpdateOutcome,
>)
    ensures
        outcomes.deep_view() == concluded(plans.deep_view(), results_view(results@)),
{
    let ghost all = plans.deep_view();
    let ghost answers = results_view(results@);
    let mut outcomes: Vec<UpdateOutcome> = Vec::new();
    let mut i: usize = 0;
    let mut j: usize = 0;
    proof {
        assert(all.skip(0) =~= all);
        assert(answers.skip(0) =~= answers);
    }
    while i < plans.len()
        invariant
            i <= plans.len(),
            j <= results.len(),
            all == plans.deep_view(),
            answers == results_view(results@),
            outcomes.deep_view() + concluded(all.skip(i as int), answers.skip(j as int))
                == concluded(all, answers),
        decreases plans.len() - i,
    {
        let ghost before = outcomes.deep_view();
        proof {
            assert(all.skip(i as int).drop_first() =~= all.skip(i + 1));
            assert(all.skip(i as int).first() == plans[i as int]@);
        }
        match &plans[i] {
            UpdatePlan::Skip { record_id, reason } => {
                outcomes.push(UpdateOutcome::Skipped(record_id.clone(), *reason));
                assert(outcomes.deep_view() =~= before + seq![
                    UpdateOutcomeView::Skipped(record_id@, *reason),
                ]);
                assert(outcomes.deep_view() + concluded(all.skip(i + 1), answers.skip(j as int))
                    =~= concluded(all, answers));
            },
            UpdatePlan::Update { record_id, data } => {
                if j >= results.len() {
                    assert(answers.skip(j as int).len() == 0);
                    assert(outcomes.deep_view() =~= concluded(all, answers));
                    return outcomes;
                }
                proof {
                    assert(answers.skip(j as int).drop_first() =~= answers.skip(j + 1));
                    assert(answers.skip(j as int).first() == reply_view(results[j as int]));
                }
                let outcome = match &results[j] {
                    Ok(_) => UpdateOutcome::Updated(record_id.clone()),
                    Err(error) => UpdateOutcome::Failed(record_id.clone(), error.clone()),
                };
                outcomes.push(outcome);
                assert(outcomes.deep_view() =~= before + seq![
                    settled(record_id@, reply_view(results[j as int])),
                ]);
                assert(outcomes.deep_view() + concluded(all.skip(i + 1), answers.skip(j + 1))
                    =~= concluded(all, answers));
                j += 1;
            },
        }
        i += 1;
    }
    assert(all.skip(plans.len() as int).len() == 0);
    assert(outcomes.deep_view() =~= concluded(all, answers));
    outcomes
}

/// A reconciliation under way: the plans, and the results of the calls made
/// so far. A call is always due: the next one that has no result yet.
#[derive(Debug, PartialEq, Eq)]
pub struct Reconciliation {
    plans: Vec<UpdatePlan>,
    calls: Vec<ApiRequest>,
    results: Vec<Result<(), ApiError>>,
}

/// View of a [`Reconciliation`].
pub ghost struct ReconciliationView {
    pub plans: Seq<UpdatePlanView>,
    pub results: Seq<Result<(), ApiErrorView>>,
}

impl ReconciliationView {
    /// A call is due.
    pub open spec fn pending(self) -> bool {
        self.results.len() < calls_of(self.plans).len()
    }

    /// The call that is due.
    pub open spec fn request(self) -> ApiRequestView
        recommends
            self.pending(),
    {
        calls_of(self.plans)[self.results.len() as int]
    }
}

impl View for Reconciliation {
    type V = ReconciliationView;

    closed spec fn view(&self) -> ReconciliationView {
        ReconciliationView {
            plans: self.plans.deep_view(),
            results: results_view(self.results@),
        }
    }
}

/// Where a reconciliation stands.
#[derive(Debug, PartialEq, Eq)]
pub enum ReconcileStep {
    /// A call is due.
    Pending(Reconciliation),
    /// Every call was made and answered.
    Done(Vec<UpdateOutcome>),
}

/// View of a [`ReconcileStep`].
pub ghost enum ReconcileStepView {
    Pending(ReconciliationView),
    Done(Seq<UpdateOutcomeView>),
}

impl View for ReconcileStep {
    type V = ReconcileStepView;

    open spec fn view(&self) -> ReconcileStepView {
        match self {
            ReconcileStep::Pending(reconciliation) => ReconcileStepView::Pending(reconciliation@),
            ReconcileStep::Done(outcomes) => ReconcileStepView::Done(outcomes.deep_view()),
        }
    }
}

/// Where the reconciliation of `plans` stands when its calls have got
/// `results` so far: a call is due as long as one has no result.
pub open spec fn reconcile_step(
    plans: Seq<UpdatePlanView>,
    results: Seq<Result<(), ApiErrorView>>,
) -> ReconcileStepView {
    let reconciliation = ReconciliationView { plans, results };
    if reconciliation.pending() {
        ReconcileStepView::Pending(reconciliation)
    } else {
        ReconcileStepView::Done(concluded(plans, results))
    }
}

impl Reconciliation {
    #[verifier::type_invariant]
    spec fn well_formed(self) -> bool {
        &&& self.calls.deep_view() == calls_of(self.plans.deep_view())
        &&& self.results.len() < self.calls.len()
    }

    /// Where the reconciliation stands with these plans, calls and results.
    fn step(plans: Vec<UpdatePlan>, calls: Vec<ApiRequest>, results: Vec<Result<(), ApiError>>) -> (step:
        ReconcileStep)
        requires
            calls.deep_view() == calls_of(plans.deep_view()),
        ensures
            step@ == reconcile_step(plans.deep_view(), results_view(results@)),
    {
        if results.len() < calls.len() {
            ReconcileStep::Pending(Reconciliation { plans, calls, results })
        } else {
            ReconcileStep::Done(conclude(&plans, &results))
        }
    }

    /// Begins the reconciliation of `plans`: no call was made yet.
    pub fn begin(plans: Vec<UpdatePlan>) -> (step: ReconcileStep)
        ensures
            step@ == reconcile_step(plans.deep_view(), Seq::empty()),
    {
        let calls = update_calls(&plans);
        let results: Vec<Result<(), ApiError>> = Vec::new();
        assert(results_view(results@) =~= Seq::empty());
        Reconciliation::step(plans, calls, results)
    }

    /// The call that is due.
    pub fn request(&self) -> (request: ApiRequest)
        ensures
            self@.pending(),
            request@ == self@.request(),
    {
        proof {
            use_type_invariant(self);
        }
        self.calls[self.results.len()].clone()
    }

    /// Takes the provider's answer to the call that was due.
    pub fn receive(self, result: Result<(), ApiError>) -> (step: ReconcileStep)
        ensures
            step@ == reconcile_step(self@.plans, self@.results.push(reply_view(result))),
    {
        proof {
            use_type_invariant(&self);
        }
        let Reconciliation { plans, calls, results } = self;
        let mut results = results;
        let ghost before = results@;
        results.push(result);
        assert(results_view(results@) =~= results_view(before).push(reply_view(result)));
        Reconciliation::step(plans, calls, results)
    }
}

/// A record whose family the host has no address of is skipped, for the
/// reason that names the family, and asks for no call.
pub proof fn lemma_no_address_no_call(record: AddressRecordView, addrs: OwnAddressesView)
    requires
        match record.kind {
            AddressKind::A => addrs.ipv4 is None,
            AddressKind::Aaaa => addrs.ipv6 is None,
        },
    ensures
        planned(record, addrs) == (UpdatePlanView::Skip {
            record_id: record.id,
            reason: match record.kind {
                AddressKind::A => SkipReason::NoIpv4,
                AddressKind::Aaaa => SkipReason::NoIpv6,
            },
        }),
        call_of(planned(record, addrs)) is None,
        forall|results: Seq<Result<(), ApiErrorView>>| #[trigger]
            concluded(seq![planned(record, addrs)], results) == seq![
                UpdateOutcomeView::Skipped(
                    record.id,
                    match record.kind {
                        AddressKind::A => SkipReason::NoIpv4,
                        AddressKind::Aaaa => SkipReason::NoIpv6,
                    },
                ),
            ],
{
    let plan = planned(record, addrs);
    assert forall|results: Seq<Result<(), ApiErrorView>>| #[trigger]
        concluded(seq![plan], results) == seq![
            UpdateOutcomeView::Skipped(
                record.id,
                match record.kind {
                    AddressKind::A => SkipReason::NoIpv4,
                    AddressKind::Aaaa => SkipReason::NoIpv6,
                },
            ),
        ] by {
        reveal_with_fuel(concluded, 2);
        assert(seq![plan].drop_first().len() == 0);
        assert(concluded(seq![plan], results) =~= seq![
            UpdateOutcomeView::Skipped(
                record.id,
                match record.kind {
                    AddressKind::A => SkipReason::NoIpv4,
                    AddressKind::Aaaa => SkipReason::NoIpv6,
                },
            ),
        ]);
    }
}

/// A record whose family the host has an address of is updated, whatever
/// value and time to live it holds: the call carries the text of that
/// address as the value and the fixed time to live, and keeps the record's
/// name, type and zone.
pub proof fn lemma_update_carries_address(record: AddressRecordView, addrs: OwnAddressesView)
    requires
        match record.kind {
            AddressKind::A => addrs.ipv4 is Some,
            AddressKind::Aaaa => addrs.ipv6 is Some,
        },
    ensures
        call_of(planned(record, addrs)) == Some(
            ApiRequestView::UpdateRecord {
                record_id: record.id,
                data: UpdateRecordDataView {
                    name: record.name,
                    ttl: 60,
                    typ: record.kind.record_type(),
                    value: match record.kind {
                        AddressKind::A => addrs.ipv4->0.text(),
                        AddressKind::Aaaa => addrs.ipv6->0.text(),
                    },
                    zone_id: record.zone_id,
                },
            },
        ),
{
}

/// `filter_map` takes the head of a sequence first.
proof fn lemma_filter_map_prepend<A, B>(head: A, tail: Seq<A>, f: spec_fn(A) -> Option<B>)
    ensures
        (seq![head] + tail).filter_map(f) == (match f(head) {
            Some(b) => seq![b],
            None => Seq::empty(),
        }) + tail.filter_map(f),
    decreases tail.len(),
{
    let whole = seq![head] + tail;
    let front = match f(head) {
        Some(b) => seq![b],
        None => Seq::empty(),
    };
    if tail.len() == 0 {
        assert(whole =~= seq![head]);
        Seq::lemma_filter_map_singleton(head, f);
        assert(tail.filter_map(f) =~= Seq::<B>::empty());
        assert(whole.filter_map(f) =~= front + tail.filter_map(f));
    } else {
        lemma_filter_map_prepend(head, tail.drop_last(), f);
        assert(whole.drop_last() =~= seq![head] + tail.drop_last());
        assert(whole.last() == tail.last());
        assert(whole.filter_map(f) =~= front + tail.filter_map(f));
    }
}

/// The outcome of one plan whose call, if it asks for one, was call number
/// `call` of the run.
pub open spec fn outcome_of(
    plan: UpdatePlanView,
    results: Seq<Result<(), ApiErrorView>>,
    call: int,
) -> UpdateOutcomeView {
    match plan {
        UpdatePlanView::Skip { record_id, reason } => UpdateOutcomeView::Skipped(record_id, reason),
        UpdatePlanView::Update { record_id, data } => settled(record_id, results[call]),
    }
}

/// Where every call has its result, every record has its outcome, in the
/// order of the records. A skipped record is reported as skipped. An updated
/// record is reported by the result of its own call, which is as many calls
/// into the run as there are updates planned before it: so a failed update
/// changes the outcome of no other record.
pub proof fn lemma_every_record_has_its_outcome(
    plans: Seq<UpdatePlanView>,
    results: Seq<Result<(), ApiErrorView>>,
    k: int,
)
    requires
        calls_of(plans).len() <= results.len(),
        0 <= k < plans.len(),
    ensures
        concluded(plans, results).len() == plans.len(),
        plans[k] is Update ==> calls_of(plans.take(k)).len() < calls_of(plans).len(),
        concluded(plans, results)[k] == outcome_of(
            plans[k],
            results,
            calls_of(plans.take(k)).len() as int,
        ),
    decreases plans.len(),
{
    let f = |plan: UpdatePlanView| call_of(plan);
    let head = plans.first();
    let rest = plans.drop_first();
    assert(plans =~= seq![head] + rest);
    lemma_filter_map_prepend(head, rest, f);
    lemma_outcome_for_every_plan(plans, results);
    if k == 0 {
        assert(plans.take(0) =~= Seq::<UpdatePlanView>::empty());
    } else {
        assert(plans.take(k) =~= seq![head] + rest.take(k - 1));
        lemma_filter_map_prepend(head, rest.take(k - 1), f);
        match head {
            UpdatePlanView::Skip { .. } => {
                lemma_every_record_has_its_outcome(rest, results, k - 1);
            },
            UpdatePlanView::Update { .. } => {
                lemma_every_record_has_its_outcome(rest, results.drop_first(), k - 1);
            },
        }
    }
}

/// Where every call has its result, there are as many outcomes as plans.
pub proof fn lemma_outcome_for_every_plan(plans: Seq<UpdatePlanView>, results: Seq<Result<(), ApiErrorView>>)
    requires
        calls_of(plans).len() <= results.len(),
    ensures
        concluded(plans, results).len() == plans.len(),
    decreases plans.len(),
{
    if plans.len() > 0 {
        let f = |plan: UpdatePlanView| call_of(plan);
        let head = plans.first();
        let rest = plans.drop_first();
        assert(plans =~= seq![head] + rest);
        lemma_filter_map_prepend(head, rest, f);
        match head {
            UpdatePlanView::Skip { .. } => {
                lemma_outcome_for_every_plan(rest, results);
            },
            UpdatePlanView::Update { .. } => {
                lemma_outcome_for_every_plan(rest, results.drop_first());
            },
        }
    }
}

} // verus!
