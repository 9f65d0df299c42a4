use hetzner_ddns::address::{Ipv4Address, OwnAddresses};
use hetzner_ddns::api::{ApiError, ApiRequest, ApiToken};
use hetzner_ddns::engine::ProviderReply;
use hetzner_ddns::hetzner_dns::{
    Pagination, Record, RecordResponse, Response, ResponseMeta, Zone, ZoneResponse,
};
use hetzner_ddns::reconciler::{SkipReason, UpdateOutcome};
use hetzner_ddns::resolver::{ResolveError, Target};
use hetzner_ddns::session::{Session, TargetReport};

fn zone(id: &str, name: &str) -> Zone {
    Zone {
        id: id.to_string(),
        name: name.to_string(),
        owner: String::new(),
        project: String::new(),
        paused: false,
        permission: String::new(),
        is_secondary_dns: false,
        ns: Vec::new(),
        records_count: 0,
        registrar: String::new(),
        status: String::new(),
        ttl: 3600,
        created: String::new(),
        modified: String::new(),
    }
}

fn record(id: &str, name: &str, typ: &str, zone_id: &str) -> Record {
    Record {
        id: id.to_string(),
        name: name.to_string(),
        typ: typ.to_string(),
        value: String::new(),
        ttl: None,
        zone_id: zone_id.to_string(),
        created: String::new(),
        modified: String::new(),
    }
}

fn zones(zones: Vec<Zone>) -> ProviderReply {
    ProviderReply::Zones(Ok(Response {
        meta: ResponseMeta {
            pagination: Pagination { last_page: 1, page: 1, per_page: 100, total_entries: 0 },
        },
        content: ZoneResponse { zones },
    }))
}

fn target(zone: &str, record: &str) -> Target {
    Target { zone_name: zone.to_string(), record_name: record.to_string() }
}

fn only_v4() -> OwnAddresses {
    OwnAddresses::new(Some(Ipv4Address::new(1, 2, 3, 4)), None).unwrap()
}

fn list_zones(name: &str) -> Option<ApiRequest> {
    Some(ApiRequest::ListZones { name: Some(name.to_string()), page: Some(1) })
}

#[test]
fn a_pass_without_targets_is_over_at_once() {
    let session = Session::begin(only_v4(), Vec::new());
    assert_eq!(session.request(), None);
    assert_eq!(session.reports(), Some(Vec::new()));
}

#[test]
fn a_pass_under_way_has_no_reports_yet() {
    let session = Session::begin(only_v4(), vec![target("example.com", "home")]);
    assert_eq!(session.request(), list_zones("example.com"));
    assert_eq!(session.reports(), None);
}

#[test]
fn a_failed_target_does_not_stop_the_next() {
    let targets = vec![
        target("gone.org", "home"),
        target("example.com", "home"),
        target("denied.net", "www"),
    ];
    let session = Session::begin(only_v4(), targets);
    assert_eq!(session.request(), list_zones("gone.org"));
    let session = session.advance(zones(vec![zone("z9", "other.org")]));
    assert_eq!(session.request(), list_zones("example.com"));
    let session = session.advance(zones(vec![zone("z1", "example.com")]));
    assert_eq!(session.request(), Some(ApiRequest::ListRecords { zone_id: "z1".to_string() }));
    let listing = RecordResponse {
        records: vec![record("a1", "home", "A", "z1"), record("a2", "home", "AAAA", "z1")],
    };
    let session = session.advance(ProviderReply::Records(Ok(listing)));
    match session.request() {
        Some(ApiRequest::UpdateRecord { record_id, data }) => {
            assert_eq!(record_id, "a1");
            assert_eq!(data.value, "1.2.3.4");
            assert_eq!(data.ttl, 60);
        }
        other => panic!("{other:?}"),
    }
    let session = session.advance(ProviderReply::Update(Err(ApiError::Status { code: 500 })));
    assert_eq!(session.request(), list_zones("denied.net"));
    let session = session.advance(ProviderReply::Zones(Err(ApiError::Status { code: 403 })));
    assert_eq!(session.request(), None);
    assert_eq!(
        session.reports(),
        Some(vec![
            TargetReport {
                target: target("gone.org", "home"),
                end: Err(ResolveError::ZoneNotFound),
            },
            TargetReport {
                target: target("example.com", "home"),
                end: Ok(vec![
                    UpdateOutcome::Failed("a1".to_string(), ApiError::Status { code: 500 }),
                    UpdateOutcome::Skipped("a2".to_string(), SkipReason::NoIpv6),
                ]),
            },
            TargetReport {
                target: target("denied.net", "www"),
                end: Err(ResolveError::Api(ApiError::Status { code: 403 })),
            },
        ])
    );
}

#[test]
fn a_pass_that_is_over_stays_as_it_is() {
    let session = Session::begin(only_v4(), vec![target("gone.org", "home")]);
    let session = session.advance(zones(Vec::new()));
    let session = session.advance(zones(vec![zone("z1", "gone.org")]));
    let session = session.advance(ProviderReply::Update(Ok(())));
    assert_eq!(
        session.reports(),
        Some(vec![TargetReport {
            target: target("gone.org", "home"),
            end: Err(ResolveError::ZoneNotFound),
        }])
    );
}

#[test]
fn a_token_must_be_fit_for_a_header() {
    for text in ["", "abc", "SECRET token-123_~", "tab\there", "\u{e9}t\u{e9}", " ", "~"] {
        let token = ApiToken::new(text.to_string()).unwrap();
        assert_eq!(token.as_str(), text);
    }
    for text in ["line\nbreak", "carriage\rreturn", "nul\0", "\u{7f}", "bell\u{7}", "\u{1f}"] {
        assert_eq!(ApiToken::new(text.to_string()), None, "{text:?}");
    }
}
