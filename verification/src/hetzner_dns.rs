//! The entities of the DNS provider's API, as they travel over the wire, and
//! their mathematical views.

use vstd::prelude::*;

verus! {

/// Paging metadata that the provider attaches to a listing.
#[derive(Clone, Copy, Debug, PartialEq, Eq)]
pub struct Pagination {
    /// The number of the last available page
    pub last_page: usize,
    /// The number of the current page
    pub page: usize,
    /// The number of entries returned per page
    pub per_page: usize,
    /// The total number of entries defined over all pages
    pub total_entries: usize,
}

/// Metadata of a listing.
#[derive(Clone, Copy, Debug, PartialEq, Eq)]
pub struct ResponseMeta {
    pub pagination: Pagination,
}

/// A listing: its metadata and the entities of one page.
#[derive(Debug, PartialEq, Eq)]
pub struct Response<T> {
    pub meta: ResponseMeta,
    pub content: T,
}

/// View of a [`Response`].
pub ghost struct ResponseView<V> {
    pub meta: ResponseMeta,
    pub content: V,
}

impl<T: View> View for Response<T> {
    type V = ResponseView<T::V>;

    open spec fn view(&self) -> ResponseView<T::V> {
        ResponseView { meta: self.meta, content: self.content@ }
    }
}

/// A DNS zone as the provider reports it.
#[derive(Debug, PartialEq, Eq)]
pub struct Zone {
    pub id: String,
    pub name: String,
    pub owner: String,
    pub project: String,
    pub paused: bool,
    pub permission: String,
    pub is_secondary_dns: bool,
    pub ns: Vec<String>,
    pub records_count: u64,
    pub registrar: String,
    pub status: String,
    pub ttl: u64,
    pub created: String,
    pub modified: String,
}

/// View of a [`Zone`]: every text as its sequence of characters.
pub ghost struct ZoneView {
    pub id: Seq<char>,
    pub name: Seq<char>,
    pub owner: Seq<char>,
    pub project: Seq<char>,
    pub paused: bool,
    pub permission: Seq<char>,
    pub is_secondary_dns: bool,
    pub ns: Seq<Seq<char>>,
    pub records_count: u64,
    pub registrar: Seq<char>,
    pub status: Seq<char>,
    pub ttl: u64,
    pub created: Seq<char>,
    pub modified: Seq<char>,
}

impl View for Zone {
    type V = ZoneView;

    open spec fn view(&self) -> ZoneView {
        ZoneView {
            id: self.id@,
            name: self.name@,
            owner: self.owner@,
            project: self.project@,
            paused: self.paused,
            permission: self.permission@,
            is_secondary_dns: self.is_secondary_dns,
            ns: self.ns.deep_view(),
            records_count: self.records_count,
            registrar: self.registrar@,
            status: self.status@,
            ttl: self.ttl,
            created: self.created@,
            modified: self.modified@,
        }
    }
}

impl DeepView for Zone {
    type V = ZoneView;

    open spec fn deep_view(&self) -> ZoneView {
        self@
    }
}

/// Copies a list of texts, text by text.
fn clone_texts(texts: &Vec<String>) -> (copy: Vec<String>)
    ensures
        copy@ == texts@,
{
    let mut copy: Vec<String> = Vec::new();
    let mut i: usize = 0;
    while i < texts.len()
        invariant
            i <= texts.len(),
            copy@ == texts@.take(i as int),
        decreases texts.len() - i,
    {
        copy.push(texts[i].clone());
        assert(texts@.take(i + 1) == texts@.take(i as int).push(texts@[i as int]));
        i += 1;
    }
    assert(texts@.take(texts.len() as int) == texts@);
    copy
}

impl Clone for Zone {
    fn clone(&self) -> (copy: Zone)
        ensures
            copy@ == self@,
    {
        let ns = clone_texts(&self.ns);
        assert(ns.deep_view() == self.ns.deep_view());
        Zone {
            id: self.id.clone(),
            name: self.name.clone(),
            owner: self.owner.clone(),
            project: self.project.clone(),
            paused: self.paused,
            permission: self.permission.clone(),
            is_secondary_dns: self.is_secondary_dns,
            ns,
            records_count: self.records_count,
            registrar: self.registrar.clone(),
            status: self.status.clone(),
            ttl: self.ttl,
            created: self.created.clone(),
            modified: self.modified.clone(),
        }
    }
}

/// One page of a zone listing.
#[derive(Debug, PartialEq, Eq)]
pub struct ZoneResponse {
    pub zones: Vec<Zone>,
}

/// View of a [`ZoneResponse`].
pub ghost struct ZoneResponseView {
    pub zones: Seq<ZoneView>,
}

impl View for ZoneResponse {
    type V = ZoneResponseView;

    open spec fn view(&self) -> ZoneResponseView {
        ZoneResponseView { zones: self.zones.deep_view() }
    }
}

/// A DNS record as the provider reports it.
#[derive(Debug, PartialEq, Eq)]
pub struct Record {
    pub id: String,
    pub name: String,
    pub typ: String,
    pub value: String,
    pub ttl: Option<u64>,
    pub zone_id: String,
    pub created: String,
    pub modified: String,
}

/// View of a [`Record`]: every text as its sequence of characters.
pub ghost struct RecordView {
    pub id: Seq<char>,
    pub name: Seq<char>,
    pub typ: Seq<char>,
    pub value: Seq<char>,
    pub ttl: Option<u64>,
    pub zone_id: Seq<char>,
    pub created: Seq<char>,
    pub modified: Seq<char>,
}

impl View for Record {
    type V = RecordView;

    open spec fn view(&self) -> RecordView {
        RecordView {
            id: self.id@,
            name: self.name@,
            typ: self.typ@,
            value: self.value@,
            ttl: self.ttl,
            zone_id: self.zone_id@,
            created: self.created@,
            modified: self.modified@,
        }
    }
}

impl DeepView for Record {
    type V = RecordView;

    open spec fn deep_view(&self) -> RecordView {
        self@
    }
}

impl Clone for Record {
    fn clone(&self) -> (copy: Record)
        ensures
            copy == *self,
    {
        Record {
            id: self.id.clone(),
            name: self.name.clone(),
            typ: self.typ.clone(),
            value: self.value.clone(),
            ttl: self.ttl,
            zone_id: self.zone_id.clone(),
            created: self.created.clone(),
            modified: self.modified.clone(),
        }
    }
}

/// The records of one zone.
#[derive(Debug, PartialEq, Eq)]
pub struct RecordResponse {
    pub records: Vec<Record>,
}

/// View of a [`RecordResponse`].
pub ghost struct RecordResponseView {
    pub records: Seq<RecordView>,
}

impl View for RecordResponse {
    type V = RecordResponseView;

    open spec fn view(&self) -> RecordResponseView {
        RecordResponseView { records: self.records.deep_view() }
    }
}

/// The full set of a record's mutable fields, as an update replaces them.
#[derive(Debug, PartialEq, Eq)]
pub struct UpdateRecordData {
    pub name: String,
    pub ttl: u64,
    pub typ: String,
    pub value: String,
    pub zone_id: String,
}

/// View of an [`UpdateRecordData`].
pub ghost struct UpdateRecordDataView {
    pub name: Seq<char>,
    pub ttl: u64,
    pub typ: Seq<char>,
    pub value: Seq<char>,
    pub zone_id: Seq<char>,
}

impl View for UpdateRecordData {
    type V = UpdateRecordDataView;

    open spec fn view(&self) -> UpdateRecordDataView {
        UpdateRecordDataView {
            name: self.name@,
            ttl: self.ttl,
            typ: self.typ@,
            value: self.value@,
            zone_id: self.zone_id@,
        }
    }
}

impl DeepView for UpdateRecordData {
    type V = UpdateRecordDataView;

    open spec fn deep_view(&self) -> UpdateRecordDataView {
        self@
    }
}

impl Clone for UpdateRecordData {
    fn clone(&self) -> (copy: UpdateRecordData)
        ensures
            copy == *self,
    {
        UpdateRecordData {
            name: self.name.clone(),
            ttl: self.ttl,
            typ: self.typ.clone(),
            value: self.value.clone(),
            zone_id: self.zone_id.clone(),
        }
    }
}

} // verus!
