use live_doc::cell::{swap_outcome, MyData};
use live_doc::hub::Hub;
use live_doc::record::{finish_publish, CellRead, ServiceError, SwapOutcome};

fn fresh() -> MyData {
    let db = sled::Config::new().temporary(true).open().unwrap();
    MyData { db }
}

fn value(read: CellRead) -> Vec<u8> {
    match read {
        CellRead::Value(v) => v,
        CellRead::Missing => panic!("record missing"),
        CellRead::Failed => panic!("read failed"),
    }
}

fn take(hub: &mut Hub, id: u64) -> Vec<(Vec<u8>, Vec<u8>)> {
    hub.take_pending(id).unwrap().into_iter().map(|e| (e.label, e.data)).collect()
}

#[test]
fn uninitialized_cell_is_unavailable() {
    let data = fresh();
    assert!(matches!(data.read_record(), CellRead::Missing));
    let mut hub = Hub::new();
    assert_eq!(data.open_stream(&mut hub), Err(ServiceError::StorageUnavailable));
    assert!(matches!(data.commit_update("x"), Err(ServiceError::StorageUnavailable)));
}

#[test]
fn init_creates_empty_record_once() {
    let data = fresh();
    assert_eq!(data.init_record(), Ok(()));
    assert_eq!(value(data.read_record()), Vec::<u8>::new());
    data.db.insert(b"user", b"kept".to_vec()).unwrap();
    assert_eq!(data.init_record(), Ok(()));
    assert_eq!(value(data.read_record()), b"kept".to_vec());
}

#[test]
fn commit_stores_the_payload() {
    let data = fresh();
    data.init_record().unwrap();
    let c = data.commit_update("alice").ok().unwrap();
    assert_eq!(c.payload, b"{\"user\":\"alice\"}".to_vec());
    assert_eq!(c.outcome, SwapOutcome::Swapped);
    assert_eq!(value(data.read_record()), c.payload);
}

#[test]
fn second_swap_from_same_observed_value_loses() {
    let data = fresh();
    data.init_record().unwrap();
    let observed = value(data.read_record());
    let first = data.db.compare_and_swap(b"user", Some(observed.as_slice()), Some(b"one".to_vec()));
    let second = data.db.compare_and_swap(b"user", Some(observed.as_slice()), Some(b"two".to_vec()));
    assert_eq!(swap_outcome(first), SwapOutcome::Swapped);
    assert_eq!(swap_outcome(second), SwapOutcome::Conflict);
    assert_eq!(value(data.read_record()), b"one".to_vec());
}

#[test]
fn alice_round_trip_through_the_cell() {
    let data = fresh();
    data.init_record().unwrap();
    let mut hub = Hub::new();
    let c = data.commit_update("alice").ok().unwrap();
    assert_eq!(finish_publish(&mut hub, b"update".to_vec(), c.payload, c.outcome), Ok(true));
    let id = data.open_stream(&mut hub).unwrap();
    let seed = take(&mut hub, id).remove(0);
    let v: serde_json::Value = serde_json::from_slice(&seed.1).unwrap();
    assert_eq!(v.get("user").and_then(|u| u.as_str()), Some("alice"));
}

#[test]
fn bob_scenario_through_the_cell() {
    let data = fresh();
    data.init_record().unwrap();
    let mut hub = Hub::new();
    let early = data.open_stream(&mut hub).unwrap();
    let c = data.commit_update("bob").ok().unwrap();
    let body = c.payload.clone();
    assert_eq!(body, b"{\"user\":\"bob\"}".to_vec());
    assert_eq!(finish_publish(&mut hub, b"update".to_vec(), c.payload, c.outcome), Ok(true));
    assert_eq!(
        take(&mut hub, early),
        vec![(b"user".to_vec(), Vec::new()), (b"update".to_vec(), body.clone())]
    );
    let late = data.open_stream(&mut hub).unwrap();
    assert_eq!(take(&mut hub, late), vec![(b"user".to_vec(), body)]);
}

#[test]
fn stored_bytes_that_are_not_utf8_refuse_both_endpoints() {
    let data = fresh();
    data.db.insert(b"user", vec![255u8, 0]).unwrap();
    let mut hub = Hub::new();
    assert_eq!(data.open_stream(&mut hub), Err(ServiceError::StorageUnavailable));
    assert_eq!(hub.subscriber_count(), 0);
    assert!(matches!(data.commit_update("bob"), Err(ServiceError::StorageUnavailable)));
    assert_eq!(value(data.read_record()), vec![255u8, 0]);
}
