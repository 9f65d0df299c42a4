//! The run for one target, from the zone search to the last update, as a
//! state machine: it names the request that is due, takes the provider's
//! answer, and moves on. Whoever drives it makes the requests.

use crate::address::{OwnAddresses, OwnAddressesView};
use crate::api::{reply_view, ApiError, ApiErrorView, ApiRequest, ApiRequestView};
use crate::hetzner_dns::{
    RecordResponse, RecordResponseView, Response, ResponseView, ZoneResponse, ZoneResponseView,
    ZoneView,
};
use crate::reconciler::{
    calls_of, concluded, plan_updates, planning, reconcile_step, ReconcileStep, ReconcileStepView,
    Reconciliation, ReconciliationView, UpdateOutcome, UpdateOutcomeView, UpdatePlanView,
};
use crate::resolver::{
    lookup_concluded, lookup_request, named, search_advanced, search_begun, search_request,
    selected, RecordLookup, RecordLookupView, ResolveError, ResolveErrorView, Target, TargetView,
    ZoneSearch, ZoneSearchStep, ZoneSearchStepView, ZoneSearchView,
};
use vstd::prelude::*;

verus! {

/// The provider's answer to a request.
#[derive(Debug, PartialEq, Eq)]
pub enum ProviderReply {
    /// The answer to a request for a page of the zone listing.
    Zones(Result<Response<ZoneResponse>, ApiError>),
    /// The answer to a request for the records of a zone.
    Records(Result<RecordResponse, ApiError>),
    /// The answer to the update of a record.
    Update(Result<(), ApiError>),
}

/// View of a [`ProviderReply`].
pub ghost enum ProviderReplyView {
    Zones(Result<ResponseView<ZoneResponseView>, ApiErrorView>),
    Records(Result<RecordResponseView, ApiErrorView>),
    Update(Result<(), ApiErrorView>),
}

impl View for ProviderReply {
    type V = ProviderReplyView;

    open spec fn view(&self) -> ProviderReplyView {
        match self {
            ProviderReply::Zones(reply) => ProviderReplyView::Zones(reply_view(*reply)),
            ProviderReply::Records(reply) => ProviderReplyView::Records(reply_view(*reply)),
            ProviderReply::Update(reply) => ProviderReplyView::Update(reply_view(*reply)),
        }
    }
}

/// The run for one target.
#[derive(Debug, PartialEq, Eq)]
pub enum TargetRun {
    /// The target's zone is being searched.
    Searching(ZoneSearch),
    /// The zone is known, and its records are being listed.
    Listing(RecordLookup),
    /// The target is resolved, and its records are being updated.
    Updating(Reconciliation),
    /// The run is over: with the outcome of each of the target's records, or
    /// with the reason why the target was not resolved.
    Finished(Result<Vec<UpdateOutcome>, ResolveError>),
}

/// View of a [`TargetRun`].
pub ghost enum TargetRunView {
    Searching(ZoneSearchView),
    Listing(RecordLookupView),
    Updating(ReconciliationView),
    Finished(Result<Seq<UpdateOutcomeView>, ResolveErrorView>),
}

/// View of the end of a run.
pub open spec fn end_view(end: Result<Vec<UpdateOutcome>, ResolveError>) -> Result<
    Seq<UpdateOutcomeView>,
    ResolveErrorView,
> {
    match end {
        Ok(outcomes) => Ok(outcomes.deep_view()),
        Err(error) => Err(error@),
    }
}

impl View for TargetRun {
    type V = TargetRunView;

    open spec fn view(&self) -> TargetRunView {
        match self {
            TargetRun::Searching(search) => TargetRunView::Searching(search@),
            TargetRun::Listing(lookup) => TargetRunView::Listing(lookup@),
            TargetRun::Updating(reconciliation) => TargetRunView::Updating(reconciliation@),
            TargetRun::Finished(end) => TargetRunView::Finished(end_view(*end)),
        }
    }
}

/// A run begins with the search for the target's zone.
pub open spec fn run_begun(target: TargetView) -> TargetRunView {
    TargetRunView::Searching(search_begun(target))
}

/// The request that is due in a run. None is due once the run is over.
pub open spec fn run_request(run: TargetRunView) -> Option<ApiRequestView> {
    match run {
        TargetRunView::Searching(search) => Some(search_request(search)),
        TargetRunView::Listing(lookup) => Some(lookup_request(lookup)),
        TargetRunView::Updating(reconciliation) => if reconciliation.pending() {
            Some(reconciliation.request())
        } else {
            None
        },
        TargetRunView::Finished(_) => None,
    }
}

/// The run that goes on from a step of the zone search.
pub open spec fn run_of_search(step: ZoneSearchStepView) -> TargetRunView {
    match step {
        ZoneSearchStepView::NextPage(search) => TargetRunView::Searching(search),
        ZoneSearchStepView::Found(lookup) => TargetRunView::Listing(lookup),
        ZoneSearchStepView::Failed(error) => TargetRunView::Finished(Err(error)),
    }
}

/// The run that goes on from a step of the reconciliation.
pub open spec fn run_of_reconcile(step: ReconcileStepView) -> TargetRunView {
    match step {
        ReconcileStepView::Pending(reconciliation) => TargetRunView::Updating(reconciliation),
        ReconcileStepView::Done(outcomes) => TargetRunView::Finished(Ok(outcomes)),
    }
}

/// The run after the provider's answer `reply`, the host having the
/// addresses `addrs`. A failed search or listing ends the run for this
/// target. A resolved target goes on to the updates of its records, or is
/// over at once where none of them asks for a call. An answer to another
/// request than the one that is due changes nothing.
pub open spec fn run_advanced(
    run: TargetRunView,
    reply: ProviderReplyView,
    addrs: OwnAddressesView,
) -> TargetRunView {
    match (run, reply) {
        (TargetRunView::Searching(search), ProviderReplyView::Zones(reply)) => run_of_search(
            search_advanced(search, reply),
        ),
        (TargetRunView::Listing(lookup), ProviderReplyView::Records(reply)) => match lookup_concluded(
            lookup,
            reply,
        ) {
            Ok(records) => run_of_reconcile(
                reconcile_step(records.map_values(planning(addrs)), Seq::empty()),
            ),
            Err(error) => TargetRunView::Finished(Err(error)),
        },
        (
            TargetRunView::Updating(reconciliation),
            ProviderReplyView::Update(result),
        ) => run_of_reconcile(
            reconcile_step(reconciliation.plans, reconciliation.results.push(result)),
        ),
        _ => run,
    }
}

impl TargetRun {
    /// Begins the run for `target`.
    pub fn begin(target: &Target) -> (run: TargetRun)
        ensures
            run@ == run_begun(target@),
    {
        TargetRun::Searching(ZoneSearch::begin(target))
    }

    /// The request that is due, if the run is not over.
    pub fn request(&self) -> (request: Option<ApiRequest>)
        ensures
            request.deep_view() == run_request(self@),
            request is None <==> self is Finished,
    {
        match self {
            TargetRun::Searching(search) => Some(search.request()),
            TargetRun::Listing(lookup) => Some(lookup.request()),
            TargetRun::Updating(reconciliation) => Some(reconciliation.request()),
            TargetRun::Finished(_) => None,
        }
    }

    /// Takes the provider's answer to the request that was due, and moves
    /// on.
    pub fn advance(self, reply: ProviderReply, addrs: &OwnAddresses) -> (next: TargetRun)
        ensures
            next@ == run_advanced(self@, reply@, addrs@),
    {
        match (self, reply) {
            (TargetRun::Searching(search), ProviderReply::Zones(reply)) => {
                match search.receive(reply) {
                    ZoneSearchStep::NextPage(search) => TargetRun::Searching(search),
                    ZoneSearchStep::Found(lookup) => TargetRun::Listing(lookup),
                    ZoneSearchStep::Failed(error) => TargetRun::Finished(Err(error)),
                }
            },
            (TargetRun::Listing(lookup), ProviderReply::Records(reply)) => {
                match lookup.receive(reply) {
                    Ok(records) => {
                        let plans = plan_updates(&records, addrs);
                        match Reconciliation::begin(plans) {
                            ReconcileStep::Pending(reconciliation) => TargetRun::Updating(
                                reconciliation,
                            ),
                            ReconcileStep::Done(outcomes) => TargetRun::Finished(Ok(outcomes)),
                        }
                    },
                    Err(error) => TargetRun::Finished(Err(error)),
                }
            },
            (TargetRun::Updating(reconciliation), ProviderReply::Update(result)) => {
                match reconciliation.receive(result) {
                    ReconcileStep::Pending(reconciliation) => TargetRun::Updating(reconciliation),
                    ReconcileStep::Done(outcomes) => TargetRun::Finished(Ok(outcomes)),
                }
            },
            (run, _) => run,
        }
    }

    /// The end of the run, if it is over.
    pub fn end(self) -> (end: Option<Result<Vec<UpdateOutcome>, ResolveError>>)
        ensures
            match end {
                Some(end) => self@ == TargetRunView::Finished(end_view(end)),
                None => !(self is Finished),
            },
    {
        match self {
            TargetRun::Finished(end) => Some(end),
            _ => None,
        }
    }
}

/// The run that `replies`, taken in their order, lead to from `run`.
pub open spec fn run_from(
    run: TargetRunView,
    addrs: OwnAddressesView,
    replies: Seq<ProviderReplyView>,
) -> TargetRunView
    decreases replies.len(),
{
    if replies.len() == 0 {
        run
    } else {
        run_advanced(run_from(run, addrs, replies.drop_last()), replies.last(), addrs)
    }
}

/// Pages of the zone listing, as the provider's answers to as many requests.
pub open spec fn zone_replies(listings: Seq<ResponseView<ZoneResponseView>>) -> Seq<
    ProviderReplyView,
> {
    listings.map_values(
        |listing: ResponseView<ZoneResponseView>| ProviderReplyView::Zones(Ok(listing)),
    )
}

/// Results of updates, as the provider's answers to as many requests.
pub open spec fn update_replies(results: Seq<Result<(), ApiErrorView>>) -> Seq<ProviderReplyView> {
    results.map_values(|result: Result<(), ApiErrorView>| ProviderReplyView::Update(result))
}

/// The pages of a zone listing, first to last: each says that the listing
/// has as many pages as there are.
pub open spec fn paged(listings: Seq<ResponseView<ZoneResponseView>>) -> bool {
    &&& listings.len() >= 1
    &&& forall|i: int|
        0 <= i < listings.len() ==> (#[trigger] listings[i]).meta.pagination.last_page
            == listings.len()
}

/// The zones named `name` on one page of the listing.
pub open spec fn zones_named(listing: ResponseView<ZoneResponseView>, name: Seq<char>) -> Seq<
    ZoneView,
> {
    listing.content.zones.filter(named(name))
}

/// The plans for a resolved target: one for each of its address records.
pub open spec fn target_plans(
    lookup: RecordLookupView,
    listing: RecordResponseView,
    addrs: OwnAddressesView,
) -> Seq<UpdatePlanView> {
    selected(listing.records, lookup.target.record_name).map_values(planning(addrs))
}

/// Answers taken one after the other lead where they lead when taken in two
/// parts.
pub proof fn lemma_run_in_two_parts(
    run: TargetRunView,
    addrs: OwnAddressesView,
    first: Seq<ProviderReplyView>,
    second: Seq<ProviderReplyView>,
)
    ensures
        run_from(run, addrs, first + second) == run_from(
            run_from(run, addrs, first),
            addrs,
            second,
        ),
    decreases second.len(),
{
    if second.len() == 0 {
        assert(first + second =~= first);
    } else {
        lemma_run_in_two_parts(run, addrs, first, second.drop_last());
        assert((first + second).drop_last() =~= first + second.drop_last());
        assert((first + second).last() == second.last());
    }
}

/// As long as no page so far held the zone, the search asks for the next
/// page.
proof fn lemma_search_continues(
    target: TargetView,
    addrs: OwnAddressesView,
    listings: Seq<ResponseView<ZoneResponseView>>,
    k: int,
)
    requires
        paged(listings),
        0 <= k < listings.len(),
        forall|i: int| 0 <= i < k ==> zones_named(#[trigger] listings[i], target.zone_name).len() == 0,
    ensures
        run_from(run_begun(target), addrs, zone_replies(listings).take(k))
            == TargetRunView::Searching(ZoneSearchView { target, page: (k + 1) as usize }),
    decreases k,
{
    let replies = zone_replies(listings).take(k);
    if k > 0 {
        lemma_search_continues(target, addrs, listings, k - 1);
        assert(replies.drop_last() =~= zone_replies(listings).take(k - 1));
        assert(replies.last() == ProviderReplyView::Zones(Ok(listings[k - 1])));
        assert(zones_named(listings[k - 1], target.zone_name).len() == 0);
        assert(listings[k - 1].meta.pagination.last_page == listings.len());
    }
}

/// Where no page of the zone listing holds a zone of the target's zone
/// name, the run ends with the zone not found. All it ever asks for is the
/// pages of the zone listing, one after the other: no record is listed and
/// none is updated.
pub proof fn lemma_unknown_zone_is_not_found(
    target: TargetView,
    addrs: OwnAddressesView,
    listings: Seq<ResponseView<ZoneResponseView>>,
)
    requires
        paged(listings),
        forall|i: int|
            0 <= i < listings.len() ==> zones_named(#[trigger] listings[i], target.zone_name).len()
                == 0,
    ensures
        run_from(run_begun(target), addrs, zone_replies(listings)) == TargetRunView::Finished(
            Err(ResolveErrorView::ZoneNotFound),
        ),
        forall|k: int|
            0 <= k < listings.len() ==> run_request(
                run_from(run_begun(target), addrs, #[trigger] zone_replies(listings).take(k)),
            ) == Some(
                ApiRequestView::ListZones {
                    name: Some(target.zone_name),
                    page: Some((k + 1) as usize),
                },
            ),
{
    let n = listings.len() as int;
    let replies = zone_replies(listings);
    assert forall|k: int| 0 <= k < n implies run_request(
        run_from(run_begun(target), addrs, #[trigger] replies.take(k)),
    ) == Some(
        ApiRequestView::ListZones { name: Some(target.zone_name), page: Some((k + 1) as usize) },
    ) by {
        lemma_search_continues(target, addrs, listings, k);
    }
    lemma_search_continues(target, addrs, listings, n - 1);
    assert(replies.drop_last() =~= replies.take(n - 1));
    assert(replies.last() == ProviderReplyView::Zones(Ok(listings[n - 1])));
    assert(zones_named(listings[n - 1], target.zone_name).len() == 0);
    assert(listings[n - 1].meta.pagination.last_page == n);
}

/// A zone that stands on the last page of the listing only is found: the
/// search goes through the pages before it, and the run goes on to list the
/// records of that zone.
pub proof fn lemma_zone_on_last_page_is_found(
    target: TargetView,
    addrs: OwnAddressesView,
    listings: Seq<ResponseView<ZoneResponseView>>,
    zone: ZoneView,
)
    requires
        paged(listings),
        forall|i: int|
            0 <= i < listings.len() - 1 ==> zones_named(
                #[trigger] listings[i],
                target.zone_name,
            ).len() == 0,
        zones_named(listings.last(), target.zone_name) == seq![zone],
    ensures
        run_from(run_begun(target), addrs, zone_replies(listings)) == TargetRunView::Listing(
            RecordLookupView { target, zone },
        ),
        run_request(run_from(run_begun(target), addrs, zone_replies(listings))) == Some(
            ApiRequestView::ListRecords { zone_id: zone.id },
        ),
{
    let n = listings.len() as int;
    let replies = zone_replies(listings);
    lemma_search_continues(target, addrs, listings, n - 1);
    assert(replies.drop_last() =~= replies.take(n - 1));
    assert(replies.last() == ProviderReplyView::Zones(Ok(listings[n - 1])));
    assert(zones_named(listings[n - 1], target.zone_name).len() == 1);
    assert(zones_named(listings[n - 1], target.zone_name)[0] == zone);
}

/// As long as a call has no result, the run asks for the next call.
proof fn lemma_updates_continue(
    lookup: RecordLookupView,
    addrs: OwnAddressesView,
    listing: RecordResponseView,
    results: Seq<Result<(), ApiErrorView>>,
    j: int,
)
    requires
        0 <= j <= results.len(),
        j < calls_of(target_plans(lookup, listing, addrs)).len(),
    ensures
        run_from(
            TargetRunView::Listing(lookup),
            addrs,
            seq![ProviderReplyView::Records(Ok(listing))] + update_replies(results).take(j),
        ) == TargetRunView::Updating(
            ReconciliationView {
                plans: target_plans(lookup, listing, addrs),
                results: results.take(j),
            },
        ),
    decreases j,
{
    let plans = target_plans(lookup, listing, addrs);
    let head = seq![ProviderReplyView::Records(Ok(listing))];
    let replies = head + update_replies(results).take(j);
    if j == 0 {
        assert(replies =~= head);
        assert(replies.drop_last() =~= Seq::<ProviderReplyView>::empty());
        assert(results.take(0) =~= Seq::<Result<(), ApiErrorView>>::empty());
        assert(run_from(TargetRunView::Listing(lookup), addrs, replies.drop_last())
            == TargetRunView::Listing(lookup));
    } else {
        lemma_updates_continue(lookup, addrs, listing, results, j - 1);
        assert(replies.drop_last() =~= head + update_replies(results).take(j - 1));
        assert(replies.last() == ProviderReplyView::Update(results[j - 1]));
        assert(results.take(j - 1).push(results[j - 1]) =~= results.take(j));
    }
}

/// A resolved target is reconciled to the end. Once the provider has listed
/// the zone's records, the run asks for the update of each address record
/// of the target's record name that the host has an address for, in the
/// records' order and whatever the earlier updates came to, and ends with
/// the outcome of every one of those records.
pub proof fn lemma_resolved_target_is_reconciled(
    lookup: RecordLookupView,
    addrs: OwnAddressesView,
    listing: RecordResponseView,
    results: Seq<Result<(), ApiErrorView>>,
)
    requires
        results.len() == calls_of(target_plans(lookup, listing, addrs)).len(),
    ensures
        run_from(
            TargetRunView::Listing(lookup),
            addrs,
            seq![ProviderReplyView::Records(Ok(listing))] + update_replies(results),
        ) == TargetRunView::Finished(
            Ok(concluded(target_plans(lookup, listing, addrs), results)),
        ),
        concluded(target_plans(lookup, listing, addrs), results).len() == selected(
            listing.records,
            lookup.target.record_name,
        ).len(),
        forall|j: int|
            0 <= j < results.len() ==> run_request(
                run_from(
                    TargetRunView::Listing(lookup),
                    addrs,
                    seq![ProviderReplyView::Records(Ok(listing))] + #[trigger] update_replies(
                        results,
                    ).take(j),
                ),
            ) == Some(calls_of(target_plans(lookup, listing, addrs))[j]),
{
    let plans = target_plans(lookup, listing, addrs);
    let head = seq![ProviderReplyView::Records(Ok(listing))];
    let n = results.len() as int;
    assert forall|j: int| 0 <= j < n implies run_request(
        run_from(
            TargetRunView::Listing(lookup),
            addrs,
            head + #[trigger] update_replies(results).take(j),
        ),
    ) == Some(calls_of(plans)[j]) by {
        lemma_updates_continue(lookup, addrs, listing, results, j);
    }
    let replies = head + update_replies(results);
    if n == 0 {
        assert(replies =~= head);
        assert(replies.drop_last() =~= Seq::<ProviderReplyView>::empty());
        assert(run_from(TargetRunView::Listing(lookup), addrs, replies.drop_last())
            == TargetRunView::Listing(lookup));
        assert(results =~= Seq::<Result<(), ApiErrorView>>::empty());
    } else {
        lemma_updates_continue(lookup, addrs, listing, results, n - 1);
        assert(replies.drop_last() =~= head + update_replies(results).take(n - 1));
        assert(replies.last() == ProviderReplyView::Update(results[n - 1]));
        assert(results.take(n - 1).push(results[n - 1]) =~= results);
    }
    crate::reconciler::lemma_outcome_for_every_plan(plans, results);
}

/// From the first request to the last. Where the target's zone stands on
/// the last page of the zone listing only, and the provider lists the
/// zone's records and answers every update, the run ends with the outcome
/// of every address record of the target's record name in that zone.
pub proof fn lemma_run_from_search_to_outcomes(
    target: TargetView,
    addrs: OwnAddressesView,
    listings: Seq<ResponseView<ZoneResponseView>>,
    zone: ZoneView,
    listing: RecordResponseView,
    results: Seq<Result<(), ApiErrorView>>,
)
    requires
        paged(listings),
        forall|i: int|
            0 <= i < listings.len() - 1 ==> zones_named(
                #[trigger] listings[i],
                target.zone_name,
            ).len() == 0,
        zones_named(listings.last(), target.zone_name) == seq![zone],
        results.len() == calls_of(
            target_plans(RecordLookupView { target, zone }, listing, addrs),
        ).len(),
    ensures
        run_from(
            run_begun(target),
            addrs,
            zone_replies(listings) + (seq![ProviderReplyView::Records(Ok(listing))]
                + update_replies(results)),
        ) == TargetRunView::Finished(
            Ok(concluded(target_plans(RecordLookupView { target, zone }, listing, addrs), results)),
        ),
{
    let lookup = RecordLookupView { target, zone };
    lemma_zone_on_last_page_is_found(target, addrs, listings, zone);
    lemma_resolved_target_is_reconciled(lookup, addrs, listing, results);
    lemma_run_in_two_parts(
        run_begun(target),
        addrs,
        zone_replies(listings),
        seq![ProviderReplyView::Records(Ok(listing))] + update_replies(results),
    );
}

/// A run that is not over has a request due: whatever the provider answers,
/// the run never comes to a stop before its end.
pub proof fn lemma_run_goes_on(
    target: TargetView,
    addrs: OwnAddressesView,
    replies: Seq<ProviderReplyView>,
)
    ensures
        run_request(run_from(run_begun(target), addrs, replies)) is None <==> run_from(
            run_begun(target),
            addrs,
            replies,
        ) is Finished,
    decreases replies.len(),
{
    if replies.len() > 0 {
        lemma_run_goes_on(target, addrs, replies.drop_last());
    }
}

} // verus!
