use hetzner_ddns::api::{ApiError, ApiRequest};
use hetzner_ddns::hetzner_dns::{
    Pagination, Record, RecordResponse, Response, ResponseMeta, Zone, ZoneResponse,
};
use hetzner_ddns::resolver::{
    select_records, AddressKind, AddressRecord, RecordLookup, ResolveError, Target, ZoneSearch,
    ZoneSearchStep,
};

fn zone(id: &str, name: &str) -> Zone {
    Zone {
        id: id.to_string(),
        name: name.to_string(),
        owner: String::new(),
        project: String::new(),
        paused: false,
        permission: String::new(),
        is_secondary_dns: false,
        ns: vec!["ns1.example.net".to_string(), "ns2.example.net".to_string()],
        records_count: 2,
        registrar: String::new(),
        status: "verified".to_string(),
        ttl: 3600,
        created: "2020-01-01".to_string(),
        modified: "2020-01-02".to_string(),
    }
}

fn record(id: &str, name: &str, typ: &str, value: &str) -> Record {
    Record {
        id: id.to_string(),
        name: name.to_string(),
        typ: typ.to_string(),
        value: value.to_string(),
        ttl: Some(300),
        zone_id: "z1".to_string(),
        created: "2020-01-01".to_string(),
        modified: "2020-01-02".to_string(),
    }
}

fn page(zones: Vec<Zone>, page: usize, last_page: usize) -> Response<ZoneResponse> {
    Response {
        meta: ResponseMeta {
            pagination: Pagination { last_page, page, per_page: 100, total_entries: 250 },
        },
        content: ZoneResponse { zones },
    }
}

fn target() -> Target {
    Target { zone_name: "example.com".to_string(), record_name: "home".to_string() }
}

#[test]
fn classify_knows_the_two_address_types() {
    assert_eq!(AddressKind::classify(&"A".to_string()), Some(AddressKind::A));
    assert_eq!(AddressKind::classify(&"AAAA".to_string()), Some(AddressKind::Aaaa));
    assert_eq!(AddressKind::A.name(), "A");
    assert_eq!(AddressKind::Aaaa.name(), "AAAA");
}

#[test]
fn classify_refuses_every_other_type() {
    for typ in ["CNAME", "MX", "TXT", "", "a", "aaaa", "AA", "AAA", "AAAAA", " A", "A "] {
        assert_eq!(AddressKind::classify(&typ.to_string()), None, "{typ:?}");
    }
}

#[test]
fn from_record_keeps_every_field() {
    let r = AddressRecord::from_record(record("r1", "home", "AAAA", "::1")).unwrap();
    assert_eq!(
        r,
        AddressRecord {
            id: "r1".to_string(),
            name: "home".to_string(),
            kind: AddressKind::Aaaa,
            value: "::1".to_string(),
            ttl: Some(300),
            zone_id: "z1".to_string(),
            created: "2020-01-01".to_string(),
            modified: "2020-01-02".to_string(),
        }
    );
    assert_eq!(AddressRecord::from_record(record("r2", "home", "CNAME", "x")), None);
}

#[test]
fn selection_matches_the_whole_name() {
    let records = vec![
        record("r1", "sub.example.com", "A", "1.1.1.1"),
        record("r2", "example.com", "A", "2.2.2.2"),
        record("r3", "example.co", "A", "3.3.3.3"),
        record("r4", "Example.com", "A", "4.4.4.4"),
        record("r5", "example.com.", "A", "5.5.5.5"),
    ];
    let picked = select_records(&records, &"example.com".to_string());
    assert_eq!(picked.len(), 1);
    assert_eq!(picked[0].id, "r2");
    assert_eq!(picked[0].kind, AddressKind::A);
}

#[test]
fn selection_leaves_out_other_types() {
    let records = vec![
        record("r1", "home", "CNAME", "elsewhere.example.com"),
        record("r2", "home", "TXT", "v=spf1"),
        record("r3", "home", "MX", "mail"),
    ];
    assert!(select_records(&records, &"home".to_string()).is_empty());
}

#[test]
fn selection_keeps_the_provider_order() {
    let records = vec![
        record("r1", "home", "AAAA", "::1"),
        record("r2", "other", "A", "9.9.9.9"),
        record("r3", "home", "A", "1.1.1.1"),
        record("r4", "home", "CNAME", "x"),
        record("r5", "home", "A", "2.2.2.2"),
    ];
    let picked = select_records(&records, &"home".to_string());
    let ids: Vec<&str> = picked.iter().map(|r| r.id.as_str()).collect();
    assert_eq!(ids, vec!["r1", "r3", "r5"]);
    let kinds: Vec<AddressKind> = picked.iter().map(|r| r.kind).collect();
    assert_eq!(kinds, vec![AddressKind::Aaaa, AddressKind::A, AddressKind::A]);
}

#[test]
fn selection_of_nothing_is_empty() {
    assert!(select_records(&Vec::new(), &"home".to_string()).is_empty());
}

#[test]
fn search_begins_at_the_first_page() {
    let search = ZoneSearch::begin(&target());
    assert_eq!(search.page, 1);
    assert_eq!(search.target, target());
    assert_eq!(
        search.request(),
        ApiRequest::ListZones { name: Some("example.com".to_string()), page: Some(1) }
    );
}

#[test]
fn search_finds_the_one_zone() {
    let search = ZoneSearch::begin(&target());
    let reply = page(vec![zone("z0", "other.org"), zone("z1", "example.com")], 1, 1);
    match search.receive(Ok(reply)) {
        ZoneSearchStep::Found(lookup) => {
            assert_eq!(lookup.zone, zone("z1", "example.com"));
            assert_eq!(lookup.target, target());
            assert_eq!(lookup.request(), ApiRequest::ListRecords { zone_id: "z1".to_string() });
        }
        other => panic!("{other:?}"),
    }
}

#[test]
fn search_matches_the_whole_zone_name() {
    let search = ZoneSearch::begin(&target());
    let reply = page(
        vec![
            zone("z1", "sub.example.com"),
            zone("z2", "example.com.evil"),
            zone("z3", "myexample.com"),
            zone("z4", "EXAMPLE.COM"),
        ],
        1,
        1,
    );
    assert_eq!(search.receive(Ok(reply)), ZoneSearchStep::Failed(ResolveError::ZoneNotFound));
}

#[test]
fn search_without_match_on_the_only_page_fails() {
    let search = ZoneSearch::begin(&target());
    let step = search.receive(Ok(page(Vec::new(), 1, 1)));
    assert_eq!(step, ZoneSearchStep::Failed(ResolveError::ZoneNotFound));
}

#[test]
fn search_goes_on_to_the_next_page() {
    let search = ZoneSearch::begin(&target());
    match search.receive(Ok(page(vec![zone("z0", "other.org")], 1, 3))) {
        ZoneSearchStep::NextPage(next) => {
            assert_eq!(next.page, 2);
            assert_eq!(next.target, target());
            assert_eq!(
                next.request(),
                ApiRequest::ListZones { name: Some("example.com".to_string()), page: Some(2) }
            );
        }
        other => panic!("{other:?}"),
    }
}

#[test]
fn search_finds_a_zone_on_the_last_page() {
    let mut search = ZoneSearch::begin(&target());
    let last = 4;
    for number in 1..last {
        let reply = page(vec![zone("z0", "other.org"), zone("z9", "another.org")], number, last);
        search = match search.receive(Ok(reply)) {
            ZoneSearchStep::NextPage(next) => next,
            other => panic!("{other:?}"),
        };
        assert_eq!(search.page, number + 1);
    }
    let reply = page(vec![zone("z0", "third.org"), zone("z1", "example.com")], last, last);
    match search.receive(Ok(reply)) {
        ZoneSearchStep::Found(lookup) => assert_eq!(lookup.zone.id, "z1"),
        other => panic!("{other:?}"),
    }
}

#[test]
fn search_stops_after_the_last_page() {
    let search = ZoneSearch { target: target(), page: 3 };
    let step = search.receive(Ok(page(vec![zone("z0", "other.org")], 3, 3)));
    assert_eq!(step, ZoneSearchStep::Failed(ResolveError::ZoneNotFound));
    let search = ZoneSearch { target: target(), page: 4 };
    let step = search.receive(Ok(page(Vec::new(), 4, 3)));
    assert_eq!(step, ZoneSearchStep::Failed(ResolveError::ZoneNotFound));
}

#[test]
fn search_reports_two_zones_of_one_name() {
    let search = ZoneSearch::begin(&target());
    let reply = page(vec![zone("z1", "example.com"), zone("z2", "example.com")], 1, 5);
    assert_eq!(search.receive(Ok(reply)), ZoneSearchStep::Failed(ResolveError::AmbiguousZone));
}

#[test]
fn search_passes_on_a_failed_request() {
    let search = ZoneSearch::begin(&target());
    let step = search.receive(Err(ApiError::Status { code: 401 }));
    assert_eq!(step, ZoneSearchStep::Failed(ResolveError::Api(ApiError::Status { code: 401 })));
}

#[test]
fn lookup_selects_the_target_records() {
    let lookup = RecordLookup { target: target(), zone: zone("z1", "example.com") };
    let reply = RecordResponse {
        records: vec![
            record("r1", "home", "A", "1.1.1.1"),
            record("r2", "www", "A", "1.1.1.1"),
            record("r3", "home", "CNAME", "x"),
            record("r4", "home", "AAAA", "::1"),
        ],
    };
    let records = lookup.receive(Ok(reply)).unwrap();
    let ids: Vec<&str> = records.iter().map(|r| r.id.as_str()).collect();
    assert_eq!(ids, vec!["r1", "r4"]);
}

#[test]
fn lookup_without_address_records_is_no_failure() {
    let lookup = RecordLookup { target: target(), zone: zone("z1", "example.com") };
    let reply = RecordResponse { records: vec![record("r2", "www", "A", "1.1.1.1")] };
    assert_eq!(lookup.receive(Ok(reply)), Ok(Vec::new()));
}

#[test]
fn lookup_passes_on_a_failed_request() {
    let lookup = RecordLookup { target: target(), zone: zone("z1", "example.com") };
    let error = ApiError::Transport { message: "connection reset".to_string() };
    assert_eq!(
        lookup.receive(Err(error)),
        Err(ResolveError::Api(ApiError::Transport { message: "connection reset".to_string() }))
    );
}
