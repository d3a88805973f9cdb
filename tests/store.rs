use ct_meter::codec::{encode_record, RECORD_SIZE};
use ct_meter::reading::{CTReading, CurrentCalibration, VoltageCalibration, CT};
use ct_meter::store::{parse_shard_id, CTStorage, StoreError, MAX_SHARD_SIZE};

fn names(list: &[&str]) -> Vec<Vec<u8>> {
    list.iter().map(|s| s.as_bytes().to_vec()).collect()
}

fn phase(id: u16, watts: f32) -> CT {
    let cur = CurrentCalibration { ical: 30.0f32.to_bits(), offset_i: 1066.0f32.to_bits() };
    let vol = VoltageCalibration {
        vcal: 219.25f32.to_bits(),
        phase_cal: 1.7f32.to_bits(),
        offset_v: 1288.0f32.to_bits(),
    };
    let mut ct = CT::new(id, cur, vol);
    let mut r = CTReading::zero();
    r.real_power = watts.to_bits();
    r.timestamp = 42;
    ct.set_reading(r);
    ct
}

#[test]
fn parse_shard_names() {
    assert_eq!(parse_shard_id(b"1"), Some(1));
    assert_eq!(parse_shard_id(b"42"), Some(42));
    assert_eq!(parse_shard_id(b"007"), Some(7));
    assert_eq!(parse_shard_id(b"2147483647"), Some(i32::MAX));
    assert_eq!(parse_shard_id(b"2147483648"), None);
    assert_eq!(parse_shard_id(b"99999999999999999999"), None);
    assert_eq!(parse_shard_id(b"0"), None);
    assert_eq!(parse_shard_id(b""), None);
    assert_eq!(parse_shard_id(b"-3"), None);
    assert_eq!(parse_shard_id(b"+3"), None);
    assert_eq!(parse_shard_id(b"12a"), None);
    assert_eq!(parse_shard_id(b"log.txt"), None);
}

#[test]
fn discover_empty_root_then_first_save_goes_to_shard_one() {
    let mut store = CTStorage::new();
    assert_eq!(store.find_newest_readings_shard_num(&[]), Ok(()));
    assert_eq!(store.active_shard(), 1);
    assert!(!store.is_known(1));
    let w = store.save_to_storage(&[phase(1, 100.0)], 0).unwrap();
    assert_eq!(w.shard, 1);
    assert_eq!(w.bytes.len(), RECORD_SIZE);
}

#[test]
fn discover_picks_newest_listed_shard() {
    let mut store = CTStorage::new();
    assert_eq!(store.find_newest_readings_shard_num(&names(&["1", "2", "5"])), Ok(()));
    assert_eq!(store.active_shard(), 5);
    assert!(store.is_known(1));
    assert!(store.is_known(2));
    assert!(store.is_known(5));
    assert!(!store.is_known(3));
    assert!(!store.is_known(4));
}

#[test]
fn discover_in_any_listing_order() {
    let mut store = CTStorage::new();
    assert_eq!(store.find_newest_readings_shard_num(&names(&["12", "3", "7"])), Ok(()));
    assert_eq!(store.active_shard(), 12);
}

#[test]
fn discover_rejects_foreign_entry_and_changes_nothing() {
    let mut store = CTStorage::new();
    let r = store.find_newest_readings_shard_num(&names(&["1", "9", "notes"]));
    assert_eq!(r, Err(StoreError::InvalidShardName { index: 2 }));
    assert_eq!(store.active_shard(), 1);
    assert!(!store.is_known(1));
    assert!(!store.is_known(9));
}

#[test]
fn save_appends_while_the_shard_has_room() {
    let mut store = CTStorage::new();
    store.find_newest_readings_shard_num(&names(&["4"])).unwrap();
    let cts = [phase(1, 10.0), phase(2, 20.0), phase(3, 30.0)];
    let room = MAX_SHARD_SIZE - 3 * RECORD_SIZE as u64;
    let w = store.save_to_storage(&cts, room).unwrap();
    assert_eq!(w.shard, 4);
    assert_eq!(store.active_shard(), 4);
    assert!(!store.is_known(5));
    let mut expected = Vec::new();
    for ct in &cts {
        encode_record(ct.id(), &ct.reading(), &mut expected);
    }
    assert_eq!(w.bytes, expected);
    assert_eq!(w.bytes.len(), 90);
}

#[test]
fn save_rotates_when_the_shard_is_nearly_full() {
    let mut store = CTStorage::new();
    store.find_newest_readings_shard_num(&names(&["1", "2", "5"])).unwrap();
    let cts = [phase(1, 10.0), phase(2, 20.0), phase(3, 30.0)];
    let nearly_full = MAX_SHARD_SIZE - 89;
    assert!(nearly_full * 100 >= MAX_SHARD_SIZE * 99);
    assert!(nearly_full + 90 > MAX_SHARD_SIZE);
    let w = store.save_to_storage(&cts, nearly_full).unwrap();
    assert_eq!(w.shard, 6);
    assert_eq!(store.active_shard(), 6);
    assert!(store.is_known(6));
    assert!(store.is_known(5));
    let next = store.save_to_storage(&cts, 90).unwrap();
    assert_eq!(next.shard, 6);
}

#[test]
fn save_rotates_when_the_shard_is_already_over_the_limit() {
    let mut store = CTStorage::new();
    let w = store.save_to_storage(&[phase(1, 1.0)], MAX_SHARD_SIZE + 1).unwrap();
    assert_eq!(w.shard, 2);
    let exact = store.save_to_storage(&[phase(1, 1.0)], MAX_SHARD_SIZE - RECORD_SIZE as u64).unwrap();
    assert_eq!(exact.shard, 2);
}

#[test]
fn save_fails_when_no_shard_id_is_left() {
    let mut store = CTStorage::new();
    store.find_newest_readings_shard_num(&names(&["2147483647"])).unwrap();
    let r = store.save_to_storage(&[phase(1, 1.0)], MAX_SHARD_SIZE);
    assert!(matches!(r, Err(StoreError::ShardIdsExhausted)));
    assert_eq!(store.active_shard(), i32::MAX);
    let ok = store.save_to_storage(&[phase(1, 1.0)], 0).unwrap();
    assert_eq!(ok.shard, i32::MAX);
}

#[test]
fn save_of_no_phase_units_writes_nothing() {
    let mut store = CTStorage::new();
    let w = store.save_to_storage(&[], 0).unwrap();
    assert_eq!(w.shard, 1);
    assert!(w.bytes.is_empty());
}
