use live_doc::hub::Hub;
use live_doc::record::{
    encode_payload, finish_publish, payload_from_quoted, plan_swap, record_label_bytes,
    seed_event, settle_swap, subscribe, CellRead, ServiceError, SwapOutcome,
};

fn take(hub: &mut Hub, id: u64) -> Vec<(Vec<u8>, Vec<u8>)> {
    hub.take_pending(id).unwrap().into_iter().map(|e| (e.label, e.data)).collect()
}

#[test]
fn payload_is_compact_json() {
    assert_eq!(encode_payload("alice"), Ok(b"{\"user\":\"alice\"}".to_vec()));
    assert_eq!(encode_payload(""), Ok(b"{\"user\":\"\"}".to_vec()));
}

#[test]
fn payload_escapes_the_user_string() {
    assert_eq!(encode_payload("a\"b\\c\n"), Ok(b"{\"user\":\"a\\\"b\\\\c\\n\"}".to_vec()));
    assert_eq!(encode_payload("é"), Ok("{\"user\":\"é\"}".as_bytes().to_vec()));
}

#[test]
fn payload_from_quoted_wraps_the_literal() {
    assert_eq!(payload_from_quoted("\"x\""), b"{\"user\":\"x\"}".to_vec());
}

#[test]
fn seed_needs_a_stored_value() {
    let e = seed_event(CellRead::Value(b"abc".to_vec())).unwrap();
    assert_eq!(e.label, b"user".to_vec());
    assert_eq!(e.data, b"abc".to_vec());
    assert_eq!(record_label_bytes(), b"user".to_vec());
    assert!(matches!(seed_event(CellRead::Missing), Err(ServiceError::StorageUnavailable)));
    assert!(matches!(seed_event(CellRead::Failed), Err(ServiceError::StorageUnavailable)));
}

#[test]
fn failed_read_registers_nobody() {
    let mut hub = Hub::new();
    assert_eq!(subscribe(&mut hub, CellRead::Failed), Err(ServiceError::StorageUnavailable));
    assert_eq!(subscribe(&mut hub, CellRead::Missing), Err(ServiceError::StorageUnavailable));
    assert_eq!(hub.subscriber_count(), 0);
}

#[test]
fn swap_plan_goes_from_read_value_to_payload() {
    let q = plan_swap(CellRead::Value(b"old".to_vec()), b"new".to_vec()).ok().unwrap();
    assert_eq!(q.expected, b"old".to_vec());
    assert_eq!(q.proposed, b"new".to_vec());
    assert!(matches!(
        plan_swap(CellRead::Missing, b"new".to_vec()),
        Err(ServiceError::StorageUnavailable)
    ));
    assert!(matches!(
        plan_swap(CellRead::Failed, b"new".to_vec()),
        Err(ServiceError::StorageUnavailable)
    ));
}

#[test]
fn lost_race_is_detectable() {
    assert_eq!(settle_swap(SwapOutcome::Swapped), Ok(true));
    assert_eq!(settle_swap(SwapOutcome::Conflict), Ok(false));
    assert_eq!(settle_swap(SwapOutcome::Failed), Err(ServiceError::StorageUnavailable));
}

#[test]
fn lost_race_still_broadcasts_but_store_failure_does_not() {
    let mut hub = Hub::new();
    let a = subscribe(&mut hub, CellRead::Value(Vec::new())).unwrap();
    let r = finish_publish(&mut hub, b"update".to_vec(), b"first".to_vec(), SwapOutcome::Conflict);
    assert_eq!(r, Ok(false));
    let r = finish_publish(&mut hub, b"update".to_vec(), b"second".to_vec(), SwapOutcome::Failed);
    assert_eq!(r, Err(ServiceError::StorageUnavailable));
    assert_eq!(
        take(&mut hub, a),
        vec![(b"user".to_vec(), Vec::new()), (b"update".to_vec(), b"first".to_vec())]
    );
}

#[test]
fn publish_then_subscribe_round_trips_the_data() {
    let mut hub = Hub::new();
    let payload = encode_payload("alice").unwrap();
    let plan = plan_swap(CellRead::Value(Vec::new()), payload.clone()).ok().unwrap();
    assert_eq!(
        finish_publish(&mut hub, b"update".to_vec(), plan.proposed.clone(), SwapOutcome::Swapped),
        Ok(true)
    );
    let id = subscribe(&mut hub, CellRead::Value(plan.proposed)).unwrap();
    let seed = take(&mut hub, id).remove(0);
    assert_eq!(seed.0, b"user".to_vec());
    let v: serde_json::Value = serde_json::from_slice(&seed.1).unwrap();
    assert_eq!(v.get("user").and_then(|u| u.as_str()), Some("alice"));
    assert_eq!(v.as_object().map(|o| o.len()), Some(1));
}

#[test]
fn bob_scenario_reaches_early_and_late_subscribers() {
    let mut hub = Hub::new();
    let early = subscribe(&mut hub, CellRead::Value(Vec::new())).unwrap();
    let payload = encode_payload("bob").unwrap();
    assert_eq!(payload, b"{\"user\":\"bob\"}".to_vec());
    let plan = plan_swap(CellRead::Value(Vec::new()), payload.clone()).ok().unwrap();
    assert_eq!(plan.expected, Vec::<u8>::new());
    assert_eq!(
        finish_publish(&mut hub, b"update".to_vec(), payload.clone(), SwapOutcome::Swapped),
        Ok(true)
    );
    assert_eq!(
        take(&mut hub, early),
        vec![(b"user".to_vec(), Vec::new()), (b"update".to_vec(), payload.clone())]
    );
    let late = subscribe(&mut hub, CellRead::Value(payload.clone())).unwrap();
    assert_eq!(take(&mut hub, late), vec![(b"user".to_vec(), payload)]);
}

#[test]
fn record_that_is_not_utf8_is_unavailable() {
    assert!(matches!(seed_event(CellRead::Value(vec![255u8])), Err(ServiceError::StorageUnavailable)));
    assert!(matches!(
        plan_swap(CellRead::Value(vec![0xc3u8]), b"new".to_vec()),
        Err(ServiceError::StorageUnavailable)
    ));
    let mut hub = Hub::new();
    assert_eq!(
        subscribe(&mut hub, CellRead::Value(vec![0xedu8, 0xa0, 0x80])),
        Err(ServiceError::StorageUnavailable)
    );
    assert_eq!(hub.subscriber_count(), 0);
    assert!(plan_swap(CellRead::Value("é".as_bytes().to_vec()), Vec::new()).is_ok());
}

#[test]
fn payload_escapes_control_characters() {
    assert_eq!(
        encode_payload("\u{1}\u{8}\t\r\u{c}\u{1f}\u{7f}/"),
        Ok(b"{\"user\":\"\\u0001\\b\\t\\r\\f\\u001f\x7f/\"}".to_vec())
    );
}
