use hekmat_mind::entropy::EntropyCache;
use hekmat_mind::feeds::priority_slot;
use hekmat_mind::feeds::satellite_entropy;
use hekmat_mind::feeds::weather_entropy;

#[test]
fn priority_slot_keeps_registration_order_for_ties() {
    assert_eq!(priority_slot(&[], 2), 0);
    assert_eq!(priority_slot(&[1, 2, 3], 2), 2);
    assert_eq!(priority_slot(&[1, 2, 2, 3], 2), 3);
    assert_eq!(priority_slot(&[1, 1], 3), 2);
    assert_eq!(priority_slot(&[2, 3], 1), 0);
}

#[test]
fn satellite_bytes_are_chain_whitened() {
    let record = [5u8, 5, 5, 9];
    let out = satellite_entropy(&record, 3);
    // 5^0^0 = 5; 5^1^5 = 1; 5^2^1 = 6
    assert_eq!(out, vec![5, 1, 6]);
    let full = satellite_entropy(&record, 4);
    assert_eq!(full, vec![5, 1, 6, 9 ^ 3 ^ 6]);
    let padded = satellite_entropy(&record, 10);
    assert_eq!(padded.len(), 10);
    assert_eq!(&padded[..4], &full[..]);
    assert!(satellite_entropy(&[], 0).is_empty());
}

#[test]
fn weather_bytes_are_the_record_then_padding() {
    let record = [1u8, 2, 3, 4];
    assert_eq!(weather_entropy(&record, 2), vec![1, 2]);
    let padded = weather_entropy(&record, 7);
    assert_eq!(padded.len(), 7);
    assert_eq!(&padded[..4], &[1, 2, 3, 4]);
}

#[test]
fn refill_need_below_half_capacity() {
    let mut cache = EntropyCache::new(10);
    assert_eq!(cache.refill_need(), Some(10));
    cache.add_bytes(&[0; 4]).unwrap();
    assert_eq!(cache.refill_need(), Some(6));
    cache.add_bytes(&[0; 1]).unwrap();
    assert_eq!(cache.refill_need(), None);
    assert_eq!(EntropyCache::new(0).refill_need(), None);
}
