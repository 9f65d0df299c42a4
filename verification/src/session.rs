//! One pass over all targets: the runs for the targets, one after the other
//! in the order of the configuration. A target that cannot be resolved is
//! reported and does not keep the later targets from their runs.

use crate::address::{OwnAddresses, OwnAddressesView};
use crate::api::{ApiRequest, ApiRequestView};
use crate::engine::{
    end_view, run_advanced, run_begun, run_from, run_request, ProviderReply, ProviderReplyView,
    TargetRun, TargetRunView,
};
use crate::reconciler::{UpdateOutcome, UpdateOutcomeView};
use crate::resolver::{ResolveError, ResolveErrorView, Target, TargetView};
use vstd::prelude::*;

verus! {

/// How the run for one target ended: with the outcome of each of its
/// records, or with the reason why it was not resolved.
#[derive(Debug, PartialEq, Eq)]
pub struct TargetReport {
    pub target: Target,
    pub end: Result<Vec<UpdateOutcome>, ResolveError>,
}

/// View of a [`TargetReport`].
pub ghost struct TargetReportView {
    pub target: TargetView,
    pub end: Result<Seq<UpdateOutcomeView>, ResolveErrorView>,
}

impl View for TargetReport {
    type V = TargetReportView;

    open spec fn view(&self) -> TargetReportView {
        TargetReportView { target: self.target@, end: end_view(self.end) }
    }
}

impl DeepView for TargetReport {
    type V = TargetReportView;

    open spec fn deep_view(&self) -> TargetReportView {
        self@
    }
}

/// A pass under way: the targets, the reports of those whose runs are over,
/// and the run of the first target that has no report yet.
#[derive(Debug, PartialEq, Eq)]
pub struct Session {
    addrs: OwnAddresses,
    targets: Vec<Target>,
    reports: Vec<TargetReport>,
    current: Option<TargetRun>,
}

/// View of a [`Session`].
pub ghost struct SessionView {
    pub addrs: OwnAddressesView,
    pub targets: Seq<TargetView>,
    pub reports: Seq<TargetReportView>,
    pub current: Option<TargetRunView>,
}

/// Views of targets.
pub open spec fn targets_view(targets: Seq<Target>) -> Seq<TargetView> {
    targets.map_values(|target: Target| target@)
}

impl View for Session {
    type V = SessionView;

    closed spec fn view(&self) -> SessionView {
        SessionView {
            addrs: self.addrs@,
            targets: targets_view(self.targets@),
            reports: self.reports.deep_view(),
            current: match self.current {
                Some(run) => Some(run@),
                None => None,
            },
        }
    }
}

impl SessionView {
    /// The pass is over: every target has its report.
    pub open spec fn finished(self) -> bool {
        self.current is None
    }

    /// The reports are those of the first targets, in their order, and a
    /// run is under way exactly if a target is left without report.
    pub open spec fn in_step(self) -> bool {
        &&& self.reports.len() <= self.targets.len()
        &&& forall|i: int|
            0 <= i < self.reports.len() ==> (#[trigger] self.reports[i]).target == self.targets[i]
        &&& self.current is Some <==> self.reports.len() < self.targets.len()
    }
}

/// The pass once the run under way has become `run`. A run that is over is
/// reported under its target, and the run for the next target begins, if
/// one is left: however the run ended.
pub open spec fn session_with(session: SessionView, run: TargetRunView) -> SessionView {
    match run {
        TargetRunView::Finished(end) => {
            let reports = session.reports.push(
                TargetReportView { target: session.targets[session.reports.len() as int], end },
            );
            SessionView {
                reports,
                current: if reports.len() < session.targets.len() {
                    Some(run_begun(session.targets[reports.len() as int]))
                } else {
                    None
                },
                ..session
            }
        },
        _ => SessionView { current: Some(run), ..session },
    }
}

/// A pass begins with the run for the first target. Without targets it is
/// over at once.
pub open spec fn session_begun(addrs: OwnAddressesView, targets: Seq<TargetView>) -> SessionView {
    SessionView {
        addrs,
        targets,
        reports: Seq::empty(),
        current: if targets.len() > 0 {
            Some(run_begun(targets[0]))
        } else {
            None
        },
    }
}

/// The request that is due in a pass: that of the run under way.
pub open spec fn session_request(session: SessionView) -> Option<ApiRequestView> {
    match session.current {
        Some(run) => run_request(run),
        None => None,
    }
}

/// The pass after the provider's answer `reply`: the run under way takes
/// it. A pass that is over stays as it is.
pub open spec fn session_advanced(session: SessionView, reply: ProviderReplyView) -> SessionView {
    match session.current {
        Some(run) => session_with(session, run_advanced(run, reply, session.addrs)),
        None => session,
    }
}

impl Session {
    #[verifier::type_invariant]
    spec fn well_formed(self) -> bool {
        &&& self@.in_step()
        &&& self.current matches Some(run) ==> !(run is Finished)
    }

    /// Begins the pass over `targets`, the host having the addresses `addrs`.
    pub fn begin(addrs: OwnAddresses, targets: Vec<Target>) -> (session: Session)
        ensures
            session@ == session_begun(addrs@, targets_view(targets@)),
            session@.in_step(),
    {
        let current = if targets.len() > 0 {
            Some(TargetRun::begin(&targets[0]))
        } else {
            None
        };
        let reports: Vec<TargetReport> = Vec::new();
        assert(reports.deep_view() =~= Seq::empty());
        Session { addrs, targets, reports, current }
    }

    /// The request that is due, if the pass is not over.
    pub fn request(&self) -> (request: Option<ApiRequest>)
        ensures
            request.deep_view() == session_request(self@),
            request is None <==> self@.finished(),
            self@.in_step(),
    {
        proof {
            use_type_invariant(self);
        }
        match &self.current {
            Some(run) => run.request(),
            None => None,
        }
    }

    /// Takes the provider's answer to the request that was due, and moves
    /// on.
    pub fn advance(self, reply: ProviderReply) -> (next: Session)
        ensures
            next@ == session_advanced(self@, reply@),
            next@.in_step(),
    {
        proof {
            use_type_invariant(&self);
        }
        let Session { addrs, targets, reports, current } = self;
        match current {
            None => Session { addrs, targets, reports, current: None },
            Some(run) => {
                let ghost before = reports.deep_view();
                let ghost all = targets_view(targets@);
                let next = run.advance(reply, &addrs);
                match next {
                    TargetRun::Finished(end) => {
                        let mut reports = reports;
                        let target = targets[reports.len()].clone();
                        reports.push(TargetReport { target, end });
                        assert(reports.deep_view() =~= before.push(
                            TargetReportView { target: all[before.len() as int], end: end_view(end) },
                        ));
                        let current = if reports.len() < targets.len() {
                            Some(TargetRun::begin(&targets[reports.len()]))
                        } else {
                            None
                        };
                        Session { addrs, targets, reports, current }
                    },
                    _ => Session { addrs, targets, reports, current: Some(next) },
                }
            },
        }
    }

    /// The reports of the pass, one for each target in the order of the
    /// targets, if the pass is over.
    pub fn reports(self) -> (reports: Option<Vec<TargetReport>>)
        ensures
            reports is Some <==> self@.finished(),
            reports matches Some(all) ==> all.deep_view() == self@.reports && all.len()
                == self@.targets.len(),
            self@.in_step(),
    {
        proof {
            use_type_invariant(&self);
        }
        match self.current {
            Some(_) => None,
            None => Some(self.reports),
        }
    }
}

/// The pass that `replies`, taken in their order, lead to from `session`.
pub open spec fn session_from(session: SessionView, replies: Seq<ProviderReplyView>) -> SessionView
    decreases replies.len(),
{
    if replies.len() == 0 {
        session
    } else {
        session_advanced(session_from(session, replies.drop_last()), replies.last())
    }
}

/// The targets have their runs one by one, and each run is its own. Where a
/// pass stands at the beginning of a target's run, and the provider's
/// answers lead that run, taken by itself, to its end and no sooner than
/// with the last of them, the pass reports the target with that end and
/// stands at the beginning of the next target's run, or is over where no
/// target is left. How the earlier runs ended has no part in it.
pub proof fn lemma_each_target_has_its_own_run(
    session: SessionView,
    replies: Seq<ProviderReplyView>,
    end: Result<Seq<UpdateOutcomeView>, ResolveErrorView>,
)
    requires
        session.reports.len() < session.targets.len(),
        session.current == Some(run_begun(session.targets[session.reports.len() as int])),
        run_from(
            run_begun(session.targets[session.reports.len() as int]),
            session.addrs,
            replies,
        ) == TargetRunView::Finished(end),
        forall|k: int|
            0 <= k < replies.len() ==> !(#[trigger] run_from(
                run_begun(session.targets[session.reports.len() as int]),
                session.addrs,
                replies.take(k),
            ) is Finished),
    ensures
        session_from(session, replies) == session_with(session, TargetRunView::Finished(end)),
        session_from(session, replies).reports == session.reports.push(
            TargetReportView { target: session.targets[session.reports.len() as int], end },
        ),
        session.reports.len() + 1 < session.targets.len() ==> session_from(
            session,
            replies,
        ).current == Some(run_begun(session.targets[session.reports.len() as int + 1])),
        session.reports.len() + 1 == session.targets.len() ==> session_from(
            session,
            replies,
        ).finished(),
{
    let begun = run_begun(session.targets[session.reports.len() as int]);
    let n = replies.len() as int;
    assert(replies.take(0) =~= Seq::<ProviderReplyView>::empty());
    assert(n > 0);
    lemma_run_under_way(session, replies, n - 1);
    assert(replies.take(n - 1) =~= replies.drop_last());
}

/// As long as the run of a target is not over, the pass stands in that run.
proof fn lemma_run_under_way(session: SessionView, replies: Seq<ProviderReplyView>, k: int)
    requires
        session.reports.len() < session.targets.len(),
        session.current == Some(run_begun(session.targets[session.reports.len() as int])),
        0 <= k <= replies.len(),
        forall|j: int|
            0 <= j <= k ==> !(#[trigger] run_from(
                run_begun(session.targets[session.reports.len() as int]),
                session.addrs,
                replies.take(j),
            ) is Finished),
    ensures
        session_from(session, replies.take(k)) == (SessionView {
            current: Some(
                run_from(
                    run_begun(session.targets[session.reports.len() as int]),
                    session.addrs,
                    replies.take(k),
                ),
            ),
            ..session
        }),
    decreases k,
{
    if k == 0 {
        assert(replies.take(0) =~= Seq::<ProviderReplyView>::empty());
    } else {
        lemma_run_under_way(session, replies, k - 1);
        assert(replies.take(k).drop_last() =~= replies.take(k - 1));
        assert(replies.take(k).last() == replies[k - 1]);
    }
}

} // verus!
