//! Resolving a target, a zone name and a record name, to the address records
//! that the provider holds for it.
//!
//! The resolver makes no request itself. It says which request is due, takes
//! the provider's answer, and decides what follows.

use crate::api::{reply_view, ApiError, ApiErrorView, ApiRequest, ApiRequestView};
use crate::hetzner_dns::{
    Record, RecordResponse, RecordResponseView, RecordView, Response, ResponseView, Zone,
    ZoneResponse, ZoneResponseView, ZoneView,
};
use vstd::prelude::*;

verus! {

/// What is to be kept in step with the host's addresses: the records named
/// `record_name` in the zone named `zone_name`.
#[derive(Debug, PartialEq, Eq)]
pub struct Target {
    pub zone_name: String,
    pub record_name: String,
}

/// View of a [`Target`].
pub ghost struct TargetView {
    pub zone_name: Seq<char>,
    pub record_name: Seq<char>,
}

impl View for Target {
    type V = TargetView;

    open spec fn view(&self) -> TargetView {
        TargetView { zone_name: self.zone_name@, record_name: self.record_name@ }
    }
}

impl Clone for Target {
    fn clone(&self) -> (copy: Target)
        ensures
            copy == *self,
    {
        Target { zone_name: self.zone_name.clone(), record_name: self.record_name.clone() }
    }
}

/// The two kinds of address record.
#[derive(Clone, Copy, Debug, PartialEq, Eq, Structural)]
pub enum AddressKind {
    /// An `A` record: its value is an IPv4 address.
    A,
    /// An `AAAA` record: its value is an IPv6 address.
    Aaaa,
}

impl AddressKind {
    /// The record type that the provider writes for this kind.
    pub open spec fn record_type(self) -> Seq<char> {
        match self {
            AddressKind::A => seq!['A'],
            AddressKind::Aaaa => seq!['A', 'A', 'A', 'A'],
        }
    }

    /// The kind that a record type stands for, if it is an address type.
    pub open spec fn of_type(typ: Seq<char>) -> Option<AddressKind> {
        if typ == AddressKind::A.record_type() {
            Some(AddressKind::A)
        } else if typ == AddressKind::Aaaa.record_type() {
            Some(AddressKind::Aaaa)
        } else {
            None
        }
    }

    /// The record type that the provider writes for this kind.
    pub fn name(&self) -> (s: &'static str)
        ensures
            s@ == self.record_type(),
    {
        proof {
            reveal_strlit("A");
            reveal_strlit("AAAA");
            assert("A"@ =~= seq!['A']);
            assert("AAAA"@ =~= seq!['A', 'A', 'A', 'A']);
        }
        match self {
            AddressKind::A => "A",
            AddressKind::Aaaa => "AAAA",
        }
    }

    /// Tells which kind of address record the type `typ` stands for.
    pub fn classify(typ: &String) -> (kind: Option<AddressKind>)
        ensures
            kind == AddressKind::of_type(typ@),
    {
        let a = AddressKind::A.name().to_owned();
        let aaaa = AddressKind::Aaaa.name().to_owned();
        if *typ == a {
            Some(AddressKind::A)
        } else if *typ == aaaa {
            Some(AddressKind::Aaaa)
        } else {
            None
        }
    }
}

/// A record of one of the two address kinds. Its type is a tag, so that no
/// record of another type can reach the reconciler.
#[derive(Debug, PartialEq, Eq)]
pub struct AddressRecord {
    pub id: String,
    pub name: String,
    pub kind: AddressKind,
    pub value: String,
    pub ttl: Option<u64>,
    pub zone_id: String,
    pub created: String,
    pub modified: String,
}

/// View of an [`AddressRecord`].
pub ghost struct AddressRecordView {
    pub id: Seq<char>,
    pub name: Seq<char>,
    pub kind: AddressKind,
    pub value: Seq<char>,
    pub ttl: Option<u64>,
    pub zone_id: Seq<char>,
    pub created: Seq<char>,
    pub modified: Seq<char>,
}

impl View for AddressRecord {
    type V = AddressRecordView;

    open spec fn view(&self) -> AddressRecordView {
        AddressRecordView {
            id: self.id@,
            name: self.name@,
            kind: self.kind,
            value: self.value@,
            ttl: self.ttl,
            zone_id: self.zone_id@,
            created: self.created@,
            modified: self.modified@,
        }
    }
}

impl DeepView for AddressRecord {
    type V = AddressRecordView;

    open spec fn deep_view(&self) -> AddressRecordView {
        self@
    }
}

impl Clone for AddressRecord {
    fn clone(&self) -> (copy: AddressRecord)
        ensures
            copy == *self,
    {
        AddressRecord {
            id: self.id.clone(),
            name: self.name.clone(),
            kind: self.kind,
            value: self.value.clone(),
            ttl: self.ttl,
            zone_id: self.zone_id.clone(),
            created: self.created.clone(),
            modified: self.modified.clone(),
        }
    }
}

/// The address record that a record is, if its type is an address type.
pub open spec fn as_address_record(record: RecordView) -> Option<AddressRecordView> {
    match AddressKind::of_type(record.typ) {
        Some(kind) => Some(
            AddressRecordView {
                id: record.id,
                name: record.name,
                kind,
                value: record.value,
                ttl: record.ttl,
                zone_id: record.zone_id,
                created: record.created,
                modified: record.modified,
            },
        ),
        None => None,
    }
}

impl AddressRecord {
    /// Reads a record as an address record. A record of any other type is
    /// none.
    pub fn from_record(record: Record) -> (r: Option<AddressRecord>)
        ensures
            r.deep_view() == as_address_record(record@),
    {
        match AddressKind::classify(&record.typ) {
            Some(kind) => Some(
                AddressRecord {
                    id: record.id,
                    name: record.name,
                    kind,
                    value: record.value,
                    ttl: record.ttl,
                    zone_id: record.zone_id,
                    created: record.created,
                    modified: record.modified,
                },
            ),
            None => None,
        }
    }
}

/// What a target's record name selects of one record: the record as an
/// address record if it bears exactly that name and is of an address type.
pub open spec fn selection(record_name: Seq<char>) -> spec_fn(RecordView) -> Option<
    AddressRecordView,
> {
    |record: RecordView|
        if record.name == record_name {
            as_address_record(record)
        } else {
            None
        }
}

/// The address records named `record_name` among `records`, in their order.
pub open spec fn selected(records: Seq<RecordView>, record_name: Seq<char>) -> Seq<
    AddressRecordView,
> {
    records.filter_map(selection(record_name))
}

/// Picks the address records named `record_name` out of `records`, in the
/// order in which they stand there.
pub fn select_records(records: &Vec<Record>, record_name: &String) -> (picked: Vec<AddressRecord>)
    ensures
        picked.deep_view() == selected(records.deep_view(), record_name@),
{
    let ghost all = records.deep_view();
    let ghost pick = selection(record_name@);
    let mut picked: Vec<AddressRecord> = Vec::new();
    let mut i: usize = 0;
    while i < records.len()
        invariant
            i <= records.len(),
            all == records.deep_view(),
            pick == selection(record_name@),
            picked.deep_view() == all.take(i as int).filter_map(pick),
        decreases records.len() - i,
    {
        let ghost before = picked.deep_view();
        proof {
            all.lemma_filter_map_take_succ(pick, i as int);
        }
        if records[i].name == *record_name {
            match AddressRecord::from_record(records[i].clone()) {
                Some(address_record) => {
                    picked.push(address_record);
                    assert(picked.deep_view() =~= before + seq![pick(all[i as int]).unwrap()]);
                },
                None => {},
            }
        }
        i += 1;
    }
    assert(all.take(records.len() as int) =~= all);
    picked
}

/// Why a target could not be resolved.
#[derive(Debug, PartialEq, Eq)]
pub enum ResolveError {
    /// No zone bears the target's zone name.
    ZoneNotFound,
    /// More than one zone bears the target's zone name.
    AmbiguousZone,
    /// A request to the provider failed.
    Api(ApiError),
}

/// View of a [`ResolveError`].
pub ghost enum ResolveErrorView {
    ZoneNotFound,
    AmbiguousZone,
    Api(ApiErrorView),
}

impl View for ResolveError {
    type V = ResolveErrorView;

    open spec fn view(&self) -> ResolveErrorView {
        match self {
            ResolveError::ZoneNotFound => ResolveErrorView::ZoneNotFound,
            ResolveError::AmbiguousZone => ResolveErrorView::AmbiguousZone,
            ResolveError::Api(error) => ResolveErrorView::Api(error@),
        }
    }
}

/// A zone search under way: the target, and the page of the zone listing
/// that is asked for next. Pages are numbered from one.
#[derive(Debug, PartialEq, Eq)]
pub struct ZoneSearch {
    pub target: Target,
    pub page: usize,
}

/// View of a [`ZoneSearch`].
pub ghost struct ZoneSearchView {
    pub target: TargetView,
    pub page: usize,
}

impl View for ZoneSearch {
    type V = ZoneSearchView;

    open spec fn view(&self) -> ZoneSearchView {
        ZoneSearchView { target: self.target@, page: self.page }
    }
}

/// A target whose zone is known and whose records are asked for next.
#[derive(Debug, PartialEq, Eq)]
pub struct RecordLookup {
    pub target: Target,
    pub zone: Zone,
}

/// View of a [`RecordLookup`].
pub ghost struct RecordLookupView {
    pub target: TargetView,
    pub zone: ZoneView,
}

impl View for RecordLookup {
    type V = RecordLookupView;

    open spec fn view(&self) -> RecordLookupView {
        RecordLookupView { target: self.target@, zone: self.zone@ }
    }
}

/// Where a zone search stands after one page of the listing.
#[derive(Debug, PartialEq, Eq)]
pub enum ZoneSearchStep {
    /// The zone was not on this page, and the listing has more pages.
    NextPage(ZoneSearch),
    /// The zone was on this page.
    Found(RecordLookup),
    /// The search is over, and the target is not resolved.
    Failed(ResolveError),
}

/// View of a [`ZoneSearchStep`].
pub ghost enum ZoneSearchStepView {
    NextPage(ZoneSearchView),
    Found(RecordLookupView),
    Failed(ResolveErrorView),
}

impl View for ZoneSearchStep {
    type V = ZoneSearchStepView;

    open spec fn view(&self) -> ZoneSearchStepView {
        match self {
            ZoneSearchStep::NextPage(search) => ZoneSearchStepView::NextPage(search@),
            ZoneSearchStep::Found(lookup) => ZoneSearchStepView::Found(lookup@),
            ZoneSearchStep::Failed(error) => ZoneSearchStepView::Failed(error@),
        }
    }
}

/// The zone bears exactly the name `name`.
pub open spec fn named(name: Seq<char>) -> spec_fn(ZoneView) -> bool {
    |zone: ZoneView| zone.name == name
}

/// The first request of a search: the first page of the zone listing.
pub open spec fn search_begun(target: TargetView) -> ZoneSearchView {
    ZoneSearchView { target, page: 1 }
}

/// The request that a search makes next: the page it stands at, of the
/// zones that the provider finds under the target's zone name.
pub open spec fn search_request(search: ZoneSearchView) -> ApiRequestView {
    ApiRequestView::ListZones { name: Some(search.target.zone_name), page: Some(search.page) }
}

/// Where a search stands once the provider has answered its request with
/// `reply`. One zone of that name on the page is the zone. More than one
/// is an ambiguity. With none, the search goes on to the next page, until
/// the page asked for was the last (by what the provider says of the
/// listing).
pub open spec fn search_advanced(
    search: ZoneSearchView,
    reply: Result<ResponseView<ZoneResponseView>, ApiErrorView>,
) -> ZoneSearchStepView {
    match reply {
        Err(error) => ZoneSearchStepView::Failed(ResolveErrorView::Api(error)),
        Ok(listing) => {
            let matches = listing.content.zones.filter(named(search.target.zone_name));
            if matches.len() == 1 {
                ZoneSearchStepView::Found(
                    RecordLookupView { target: search.target, zone: matches[0] },
                )
            } else if matches.len() > 1 {
                ZoneSearchStepView::Failed(ResolveErrorView::AmbiguousZone)
            } else if search.page < listing.meta.pagination.last_page {
                ZoneSearchStepView::NextPage(
                    ZoneSearchView { target: search.target, page: (search.page + 1) as usize },
                )
            } else {
                ZoneSearchStepView::Failed(ResolveErrorView::ZoneNotFound)
            }
        },
    }
}

/// Counts the zones named `name`, and finds the first of them.
fn find_named(zones: &Vec<Zone>, name: &String) -> (found: (usize, usize))
    ensures
        found.0 == zones.deep_view().filter(named(name@)).len(),
        found.0 > 0 ==> found.1 < zones.len() && zones.deep_view().filter(named(name@))[0]
            == zones[found.1 as int]@,
{
    let ghost all = zones.deep_view();
    let ghost is_named = named(name@);
    let mut count: usize = 0;
    let mut first: usize = 0;
    let mut i: usize = 0;
    proof {
        all.take(0).lemma_filter_len(is_named);
    }
    while i < zones.len()
        invariant
            i <= zones.len(),
            all == zones.deep_view(),
            is_named == named(name@),
            count <= i,
            count == all.take(i as int).filter(is_named).len(),
            count > 0 ==> first < i && all.take(i as int).filter(is_named)[0]
                == zones[first as int]@,
        decreases zones.len() - i,
    {
        proof {
            assert(all.take(i + 1) =~= all.take(i as int).push(all[i as int]));
            all.take(i as int).lemma_filter_push(all[i as int], is_named);
        }
        if zones[i].name == *name {
            if count == 0 {
                first = i;
            }
            count += 1;
        }
        i += 1;
    }
    assert(all.take(zones.len() as int) =~= all);
    (count, first)
}

impl ZoneSearch {
    /// Begins the search for the zone of `target`, at the first page.
    pub fn begin(target: &Target) -> (search: ZoneSearch)
        ensures
            search@ == search_begun(target@),
    {
        ZoneSearch { target: target.clone(), page: 1 }
    }

    /// The request that the search makes next.
    pub fn request(&self) -> (request: ApiRequest)
        ensures
            request@ == search_request(self@),
    {
        ApiRequest::ListZones {
            name: Some(self.target.zone_name.clone()),
            page: Some(self.page),
        }
    }

    /// Takes the provider's answer to the request, and says where the search
    /// stands now.
    pub fn receive(self, reply: Result<Response<ZoneResponse>, ApiError>) -> (step: ZoneSearchStep)
        ensures
            step@ == search_advanced(self@, reply_view(reply)),
    {
        match reply {
            Err(error) => ZoneSearchStep::Failed(ResolveError::Api(error)),
            Ok(listing) => {
                let (count, first) = find_named(&listing.content.zones, &self.target.zone_name);
                if count == 1 {
                    let zone = listing.content.zones[first].clone();
                    ZoneSearchStep::Found(RecordLookup { target: self.target, zone })
                } else if count > 1 {
                    ZoneSearchStep::Failed(ResolveError::AmbiguousZone)
                } else if self.page < listing.meta.pagination.last_page {
                    ZoneSearchStep::NextPage(
                        ZoneSearch { target: self.target, page: self.page + 1 },
                    )
                } else {
                    ZoneSearchStep::Failed(ResolveError::ZoneNotFound)
                }
            },
        }
    }
}

/// The request of a record lookup: the records of the zone that was found.
pub open spec fn lookup_request(lookup: RecordLookupView) -> ApiRequestView {
    ApiRequestView::ListRecords { zone_id: lookup.zone.id }
}

/// What a record lookup comes to once the provider has answered its request
/// with `reply`: the zone's address records of the target's record name, in
/// the provider's order. That there is none is no failure.
pub open spec fn lookup_concluded(
    lookup: RecordLookupView,
    reply: Result<RecordResponseView, ApiErrorView>,
) -> Result<Seq<AddressRecordView>, ResolveErrorView> {
    match reply {
        Err(error) => Err(ResolveErrorView::Api(error)),
        Ok(listing) => Ok(selected(listing.records, lookup.target.record_name)),
    }
}

/// View of what a resolution returns.
pub open spec fn resolution_view(resolution: Result<Vec<AddressRecord>, ResolveError>) -> Result<
    Seq<AddressRecordView>,
    ResolveErrorView,
> {
    match resolution {
        Ok(records) => Ok(records.deep_view()),
        Err(error) => Err(error@),
    }
}

impl RecordLookup {
    /// The request that the lookup makes.
    pub fn request(&self) -> (request: ApiRequest)
        ensures
            request@ == lookup_request(self@),
    {
        ApiRequest::ListRecords { zone_id: self.zone.id.clone() }
    }

    /// Takes the provider's answer to the request, and concludes the
    /// resolution of the target.
    pub fn receive(self, reply: Result<RecordResponse, ApiError>) -> (resolution: Result<
        Vec<AddressRecord>,
        ResolveError,
    >)
        ensures
            resolution_view(resolution) == lookup_concluded(self@, reply_view(reply)),
    {
        match reply {
            Err(error) => Err(ResolveError::Api(error)),
            Ok(listing) => Ok(select_records(&listing.records, &self.target.record_name)),
        }
    }
}

/// The selection is exact. A record is selected if and only if it bears
/// the target's record name, the whole of it, and is of an address type:
/// every selected record bears that name, every record that bears it and is
/// of an address type is among the selected, and nothing is among them that
/// is no such record of the list.
pub proof fn lemma_selection_exact(records: Seq<RecordView>, record_name: Seq<char>)
    ensures
        forall|record: RecordView| #[trigger]
            selection(record_name)(record) is Some <==> record.name == record_name && (record.typ
                == AddressKind::A.record_type() || record.typ
                == AddressKind::Aaaa.record_type()),
        forall|k: int|
            0 <= k < selected(records, record_name).len() ==> (#[trigger] selected(
                records,
                record_name,
            )[k]).name == record_name,
        forall|i: int|
            0 <= i < records.len() && (#[trigger] records[i]).name == record_name
                && AddressKind::of_type(records[i].typ) is Some ==> selected(
                records,
                record_name,
            ).contains(as_address_record(records[i])->0),
        forall|picked: AddressRecordView| #[trigger]
            selected(records, record_name).contains(picked) ==> exists|i: int|
                0 <= i < records.len() && (#[trigger] records[i]).name == record_name
                    && as_address_record(records[i]) == Some(picked),
    decreases records.len(),
{
    let pick = selection(record_name);
    let all = selected(records, record_name);
    if records.len() > 0 {
        let front = records.drop_last();
        let last = records.last();
        lemma_selection_exact(front, record_name);
        let before = selected(front, record_name);
        assert(all == match pick(last) {
            Some(picked) => before + seq![picked],
            None => before,
        });
        assert forall|k: int| 0 <= k < all.len() implies (#[trigger] all[k]).name
            == record_name by {
            if k < before.len() {
                assert(all[k] == before[k]);
            }
        }
        assert forall|i: int|
            0 <= i < records.len() && (#[trigger] records[i]).name == record_name
                && AddressKind::of_type(records[i].typ) is Some implies all.contains(
            as_address_record(records[i])->0,
        ) by {
            let wanted = as_address_record(records[i])->0;
            if i < front.len() {
                assert(front[i] == records[i]);
                assert(before.contains(wanted));
                let k = choose|k: int| 0 <= k < before.len() && before[k] == wanted;
                assert(all[k] == wanted);
            } else {
                assert(all[all.len() - 1] == wanted);
            }
        }
        assert forall|picked: AddressRecordView| #[trigger] all.contains(picked) implies exists|
            i: int,
        |
            0 <= i < records.len() && (#[trigger] records[i]).name == record_name
                && as_address_record(records[i]) == Some(picked) by {
            let k = choose|k: int| 0 <= k < all.len() && all[k] == picked;
            if k < before.len() {
                assert(before[k] == picked);
                assert(before.contains(picked));
                let i = choose|i: int|
                    0 <= i < front.len() && (#[trigger] front[i]).name == record_name
                        && as_address_record(front[i]) == Some(picked);
                assert(records[i] == front[i]);
            } else {
                assert(records[records.len() - 1] == last);
            }
        }
    }
}

} // verus!
