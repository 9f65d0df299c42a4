use hetzner_ddns::address::{Ipv4Address, Ipv6Address, OwnAddresses};
use hetzner_ddns::api::{check_status, ApiError, ApiRequest};
use hetzner_ddns::hetzner_dns::UpdateRecordData;
use hetzner_ddns::reconciler::{
    conclude, plan_update, plan_updates, update_calls, ReconcileStep, Reconciliation, SkipReason,
    UpdateOutcome, UpdatePlan, UPDATE_TTL,
};
use hetzner_ddns::resolver::{AddressKind, AddressRecord};

fn record(id: &str, kind: AddressKind, value: &str, ttl: Option<u64>) -> AddressRecord {
    AddressRecord {
        id: id.to_string(),
        name: "home".to_string(),
        kind,
        value: value.to_string(),
        ttl,
        zone_id: "z1".to_string(),
        created: "2020-01-01".to_string(),
        modified: "2020-01-02".to_string(),
    }
}

fn only_v4() -> OwnAddresses {
    OwnAddresses::new(Some(Ipv4Address::new(1, 2, 3, 4)), None).unwrap()
}

fn only_v6() -> OwnAddresses {
    OwnAddresses::new(None, Some(Ipv6Address::new([0x2001, 0xdb8, 0, 0, 0, 0, 0, 0x42]))).unwrap()
}

fn dual() -> OwnAddresses {
    OwnAddresses::new(
        Some(Ipv4Address::new(203, 0, 113, 7)),
        Some(Ipv6Address::new([0x2001, 0xdb8, 0, 0, 0, 0, 0, 0x42])),
    )
    .unwrap()
}

fn update(id: &str, typ: &str, value: &str) -> UpdatePlan {
    UpdatePlan::Update {
        record_id: id.to_string(),
        data: UpdateRecordData {
            name: "home".to_string(),
            ttl: 60,
            typ: typ.to_string(),
            value: value.to_string(),
            zone_id: "z1".to_string(),
        },
    }
}

fn skip(id: &str, reason: SkipReason) -> UpdatePlan {
    UpdatePlan::Skip { record_id: id.to_string(), reason }
}

#[test]
fn the_update_ttl_is_sixty_seconds() {
    assert_eq!(UPDATE_TTL, 60);
}

#[test]
fn skip_reasons_in_words() {
    assert_eq!(SkipReason::NoIpv4.message(), "no IPv4 connectivity");
    assert_eq!(SkipReason::NoIpv6.message(), "no IPv6 connectivity");
}

#[test]
fn a_record_without_ipv4_is_skipped() {
    let plan = plan_update(&record("r1", AddressKind::A, "9.9.9.9", Some(300)), &only_v6());
    assert_eq!(plan, skip("r1", SkipReason::NoIpv4));
    assert_eq!(plan.call(), None);
}

#[test]
fn aaaa_record_without_ipv6_is_skipped() {
    let plan = plan_update(&record("r2", AddressKind::Aaaa, "::9", Some(300)), &only_v4());
    assert_eq!(plan, skip("r2", SkipReason::NoIpv6));
    assert_eq!(plan.call(), None);
}

#[test]
fn a_record_gets_the_ipv4_text_and_the_fixed_ttl() {
    for ttl in [None, Some(0), Some(60), Some(86400), Some(u64::MAX)] {
        let plan = plan_update(&record("r1", AddressKind::A, "9.9.9.9", ttl), &only_v4());
        assert_eq!(plan, update("r1", "A", "1.2.3.4"));
    }
}

#[test]
fn aaaa_record_gets_the_ipv6_text_and_the_fixed_ttl() {
    let plan = plan_update(&record("r2", AddressKind::Aaaa, "::9", Some(7200)), &only_v6());
    assert_eq!(plan, update("r2", "AAAA", "2001:db8::42"));
    assert_eq!(
        plan.call(),
        Some(ApiRequest::UpdateRecord {
            record_id: "r2".to_string(),
            data: UpdateRecordData {
                name: "home".to_string(),
                ttl: 60,
                typ: "AAAA".to_string(),
                value: "2001:db8::42".to_string(),
                zone_id: "z1".to_string(),
            },
        })
    );
}

#[test]
fn a_record_that_holds_the_address_already_is_updated_all_the_same() {
    let plan = plan_update(&record("r1", AddressKind::A, "1.2.3.4", Some(60)), &only_v4());
    assert_eq!(plan, update("r1", "A", "1.2.3.4"));
}

#[test]
fn each_family_gets_its_own_address() {
    let records = vec![
        record("r1", AddressKind::A, "", None),
        record("r2", AddressKind::Aaaa, "", None),
    ];
    let plans = plan_updates(&records, &dual());
    assert_eq!(
        plans,
        vec![update("r1", "A", "203.0.113.7"), update("r2", "AAAA", "2001:db8::42")]
    );
}

#[test]
fn plans_follow_the_records_in_order() {
    let records = vec![
        record("r1", AddressKind::Aaaa, "", None),
        record("r2", AddressKind::A, "", None),
        record("r3", AddressKind::Aaaa, "", None),
    ];
    let plans = plan_updates(&records, &only_v4());
    assert_eq!(
        plans,
        vec![
            skip("r1", SkipReason::NoIpv6),
            update("r2", "A", "1.2.3.4"),
            skip("r3", SkipReason::NoIpv6),
        ]
    );
    assert!(plan_updates(&Vec::new(), &only_v4()).is_empty());
}

#[test]
fn calls_are_the_updates_in_order() {
    let plans = vec![
        skip("r1", SkipReason::NoIpv6),
        update("r2", "A", "1.2.3.4"),
        skip("r3", SkipReason::NoIpv6),
        update("r4", "A", "1.2.3.4"),
    ];
    let calls = update_calls(&plans);
    assert_eq!(calls.len(), 2);
    assert_eq!(calls[0], plans[1].call().unwrap());
    assert_eq!(calls[1], plans[3].call().unwrap());
    assert!(update_calls(&vec![skip("r1", SkipReason::NoIpv4)]).is_empty());
}

#[test]
fn one_updated_and_one_skipped() {
    let records = vec![
        record("a1", AddressKind::A, "9.9.9.9", Some(300)),
        record("a2", AddressKind::Aaaa, "::9", Some(300)),
    ];
    let plans = plan_updates(&records, &only_v4());
    let calls = update_calls(&plans);
    assert_eq!(
        calls,
        vec![ApiRequest::UpdateRecord {
            record_id: "a1".to_string(),
            data: UpdateRecordData {
                name: "home".to_string(),
                ttl: 60,
                typ: "A".to_string(),
                value: "1.2.3.4".to_string(),
                zone_id: "z1".to_string(),
            },
        }]
    );
    let outcomes = conclude(&plans, &vec![Ok(())]);
    assert_eq!(
        outcomes,
        vec![
            UpdateOutcome::Updated("a1".to_string()),
            UpdateOutcome::Skipped("a2".to_string(), SkipReason::NoIpv6),
        ]
    );
    match &outcomes[1] {
        UpdateOutcome::Skipped(_, reason) => assert_eq!(reason.message(), "no IPv6 connectivity"),
        other => panic!("{other:?}"),
    }
}

#[test]
fn a_failed_update_does_not_stop_the_others() {
    let plans = vec![
        update("r1", "A", "1.2.3.4"),
        skip("r2", SkipReason::NoIpv6),
        update("r3", "A", "1.2.3.4"),
        update("r4", "A", "1.2.3.4"),
    ];
    let results = vec![
        Err(ApiError::Status { code: 422 }),
        Ok(()),
        Err(ApiError::Transport { message: "timed out".to_string() }),
    ];
    assert_eq!(
        conclude(&plans, &results),
        vec![
            UpdateOutcome::Failed("r1".to_string(), ApiError::Status { code: 422 }),
            UpdateOutcome::Skipped("r2".to_string(), SkipReason::NoIpv6),
            UpdateOutcome::Updated("r3".to_string()),
            UpdateOutcome::Failed(
                "r4".to_string(),
                ApiError::Transport { message: "timed out".to_string() }
            ),
        ]
    );
}

#[test]
fn outcomes_end_before_a_call_without_result() {
    let plans = vec![
        skip("r0", SkipReason::NoIpv6),
        update("r1", "A", "1.2.3.4"),
        skip("r2", SkipReason::NoIpv6),
        update("r3", "A", "1.2.3.4"),
        skip("r4", SkipReason::NoIpv6),
    ];
    assert_eq!(
        conclude(&plans, &Vec::new()),
        vec![UpdateOutcome::Skipped("r0".to_string(), SkipReason::NoIpv6)]
    );
    assert_eq!(
        conclude(&plans, &vec![Ok(())]),
        vec![
            UpdateOutcome::Skipped("r0".to_string(), SkipReason::NoIpv6),
            UpdateOutcome::Updated("r1".to_string()),
            UpdateOutcome::Skipped("r2".to_string(), SkipReason::NoIpv6),
        ]
    );
    assert_eq!(conclude(&plans, &vec![Ok(()), Ok(()), Ok(())]).len(), 5);
    assert!(conclude(&Vec::new(), &vec![Ok(())]).is_empty());
}

#[test]
fn reconciliation_without_calls_is_done_at_once() {
    let plans = vec![skip("r1", SkipReason::NoIpv4), skip("r2", SkipReason::NoIpv4)];
    assert_eq!(
        Reconciliation::begin(plans),
        ReconcileStep::Done(vec![
            UpdateOutcome::Skipped("r1".to_string(), SkipReason::NoIpv4),
            UpdateOutcome::Skipped("r2".to_string(), SkipReason::NoIpv4),
        ])
    );
    assert_eq!(Reconciliation::begin(Vec::new()), ReconcileStep::Done(Vec::new()));
}

#[test]
fn reconciliation_asks_for_each_call_in_turn() {
    let plans = vec![
        update("r1", "A", "1.2.3.4"),
        skip("r2", SkipReason::NoIpv6),
        update("r3", "A", "1.2.3.4"),
    ];
    let first = plans[0].call().unwrap();
    let second = plans[2].call().unwrap();
    let run = match Reconciliation::begin(plans) {
        ReconcileStep::Pending(run) => run,
        other => panic!("{other:?}"),
    };
    assert_eq!(run.request(), first);
    assert_eq!(run.request(), first);
    let run = match run.receive(Err(ApiError::Status { code: 500 })) {
        ReconcileStep::Pending(run) => run,
        other => panic!("{other:?}"),
    };
    assert_eq!(run.request(), second);
    assert_eq!(
        run.receive(Ok(())),
        ReconcileStep::Done(vec![
            UpdateOutcome::Failed("r1".to_string(), ApiError::Status { code: 500 }),
            UpdateOutcome::Skipped("r2".to_string(), SkipReason::NoIpv6),
            UpdateOutcome::Updated("r3".to_string()),
        ])
    );
}

#[test]
fn only_the_2xx_range_is_success() {
    for code in [200u16, 201, 204, 250, 299] {
        assert_eq!(check_status(code), Ok(()));
    }
    for code in [0u16, 100, 199, 300, 301, 304, 400, 401, 404, 422, 500, 503, 599, 999, u16::MAX] {
        assert_eq!(check_status(code), Err(ApiError::Status { code }));
    }
}
