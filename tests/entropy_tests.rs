use hekmat_mind::entropy::EntropyCache;
use hekmat_mind::entropy::EntropyError;
use hekmat_mind::extractors::BitExtractor;
use hekmat_mind::extractors::CombinedExtractor;
use hekmat_mind::noise::SystemNoiseSource;
use sha2::Digest;

#[test]
fn cache_basic_operations() {
    let mut cache = EntropyCache::new(1024);
    assert_eq!(cache.capacity(), 1024);
    assert_eq!(cache.available_bytes(), 0);
    assert!(cache.is_empty());
    assert!(!cache.is_full());

    let data = vec![1, 2, 3, 4, 5];
    assert!(cache.add_bytes(&data).is_ok());
    assert_eq!(cache.available_bytes(), 5);
    assert!(!cache.is_empty());
    assert!(!cache.is_full());

    let retrieved = cache.get_bytes(3).unwrap();
    assert_eq!(retrieved, vec![1, 2, 3]);
    assert_eq!(cache.available_bytes(), 2);
    assert!(matches!(cache.get_bytes(3), Err(EntropyError::InsufficientEntropy)));
    assert_eq!(cache.available_bytes(), 2);

    cache.clear();
    assert_eq!(cache.available_bytes(), 0);
    assert!(cache.is_empty());
}

#[test]
fn cache_overflow_drops_oldest() {
    let mut cache = EntropyCache::new(10);
    assert!(cache.add_bytes(&[1, 2, 3, 4, 5]).is_ok());
    assert_eq!(cache.available_bytes(), 5);
    assert!(cache.add_bytes(&[6, 7, 8, 9, 10, 11, 12, 13]).is_ok());
    assert_eq!(cache.available_bytes(), 10);
    assert!(cache.is_full());
    let all_data = cache.get_bytes(10).unwrap();
    assert_eq!(all_data, vec![4, 5, 6, 7, 8, 9, 10, 11, 12, 13]);
}

#[test]
fn cache_rejects_oversized_input_unchanged() {
    let mut cache = EntropyCache::new(4);
    assert!(cache.add_bytes(&[9, 8]).is_ok());
    let r = cache.add_bytes(&[1, 2, 3, 4, 5]);
    assert!(matches!(r, Err(EntropyError::CacheError(_))));
    assert_eq!(cache.get_bytes(2).unwrap(), vec![9, 8]);
}

#[test]
fn cache_empty_add_and_zero_capacity() {
    let mut cache = EntropyCache::new(0);
    assert!(cache.add_bytes(&[]).is_ok());
    assert!(cache.is_full());
    assert!(cache.add_bytes(&[1]).is_err());
    assert_eq!(cache.get_bytes(0).unwrap(), Vec::<u8>::new());
}

#[test]
fn von_neumann_keeps_differing_bits() {
    let input = vec![0b10101010, 0b01010101, 0b11001100, 0b00110011];
    let result = BitExtractor::von_neumann_extractor(&input, 1).unwrap();
    assert_eq!(result, vec![0b10101010]);
    let result = BitExtractor::von_neumann_extractor(&input, 2).unwrap();
    assert_eq!(result, vec![0b10101010, 0b11001100]);
    let result = BitExtractor::von_neumann_extractor(&input, 4);
    assert!(matches!(result, Err(EntropyError::InsufficientEntropy)));
}

#[test]
fn von_neumann_edge_cases() {
    assert!(BitExtractor::von_neumann_extractor(&[7], 1).is_err());
    // equal bytes keep no bit
    assert!(BitExtractor::von_neumann_extractor(&[5, 5, 9, 9], 1).is_err());
    assert_eq!(BitExtractor::von_neumann_extractor(&[5, 5], 0).unwrap(), Vec::<u8>::new());
    // a size of zero still returns the first byte when there is one
    assert_eq!(BitExtractor::von_neumann_extractor(&[0xff, 0x00], 0).unwrap(), vec![0xff]);
    // a trailing odd byte is ignored; 0x0f against 0xf0 keeps 1111 then 0000
    assert_eq!(BitExtractor::von_neumann_extractor(&[0x0f, 0xf0, 3], 1).unwrap(), vec![0x0f]);
}

#[test]
fn whitening_xors_neighbours() {
    let input = vec![1, 2, 3, 4, 5, 6, 7, 8];
    let result = BitExtractor::whitening_extractor(&input, 4).unwrap();
    assert_eq!(result, vec![1, 3, 1, 7]);
    let insufficient_input = vec![1];
    assert!(matches!(
        BitExtractor::whitening_extractor(&insufficient_input, 4),
        Err(EntropyError::InsufficientEntropy)
    ));
    assert!(BitExtractor::whitening_extractor(&[1, 2, 3], 4).is_err());
    assert_eq!(BitExtractor::whitening_extractor(&[9, 3], 0).unwrap(), vec![9]);
}

fn le8(x: u64) -> Vec<u8> {
    x.to_le_bytes().to_vec()
}

#[test]
fn hashing_extractor_is_a_hash_chain() {
    let input = vec![1u8, 2, 3, 4, 5];
    let stamp = 0x0102_0304_0506_0708u64;
    let mut seed = input.clone();
    seed.extend(le8(stamp));
    let h0 = sha2::Sha256::digest(&seed).to_vec();
    let h1 = sha2::Sha256::digest(&h0).to_vec();

    let r32 = BitExtractor::cryptographic_extractor_at(&input, 32, stamp).unwrap();
    assert_eq!(r32, h0);
    let r40 = BitExtractor::cryptographic_extractor_at(&input, 40, stamp).unwrap();
    let mut expect = h0.clone();
    expect.extend_from_slice(&h1[..8]);
    assert_eq!(r40, expect);
    let r16 = BitExtractor::cryptographic_extractor_at(&input, 16, stamp).unwrap();
    assert_eq!(r16, h0[..16].to_vec());
    assert_eq!(BitExtractor::cryptographic_extractor_at(&input, 0, stamp).unwrap(), Vec::<u8>::new());
    assert_ne!(
        BitExtractor::cryptographic_extractor_at(&input, 32, stamp + 1).unwrap(),
        r32
    );
}

#[test]
fn hashing_extractor_with_clock() {
    let input = vec![1, 2, 3, 4, 5];
    assert_eq!(BitExtractor::cryptographic_extractor(&input, 32).unwrap().len(), 32);
    assert_eq!(BitExtractor::cryptographic_extractor(&input, 64).unwrap().len(), 64);
    let empty_input: Vec<u8> = vec![];
    assert!(matches!(
        BitExtractor::cryptographic_extractor(&empty_input, 32),
        Err(EntropyError::InsufficientEntropy)
    ));
    assert_eq!(BitExtractor::cryptographic_extractor(&[42], 16).unwrap().len(), 16);
}

#[test]
fn time_based_extractor_hashes_the_window() {
    let input = vec![1u8, 2, 3];
    let secs = 95u64;
    let stamp = 77u64;
    let r = BitExtractor::totp_extractor_at(&input, 16, 30, secs, stamp).unwrap();
    let mut combined = input.clone();
    combined.extend_from_slice(&3u64.to_be_bytes());
    let expect = BitExtractor::cryptographic_extractor_at(&combined, 16, stamp).unwrap();
    assert_eq!(r, expect);
    // the same window gives the same bytes
    assert_eq!(BitExtractor::totp_extractor_at(&input, 16, 30, 90, stamp).unwrap(), r);
    assert!(BitExtractor::totp_extractor_at(&[], 16, 30, secs, stamp).is_err());
}

#[test]
fn time_based_extractor_with_clock() {
    let input = vec![1, 2, 3, 4, 5];
    assert_eq!(BitExtractor::totp_extractor(&input, 16, 30).unwrap().len(), 16);
    assert_eq!(BitExtractor::totp_extractor(&input, 32, 5).unwrap().len(), 32);
    assert!(matches!(
        BitExtractor::totp_extractor(&[], 16, 30),
        Err(EntropyError::InsufficientEntropy)
    ));
    assert_eq!(BitExtractor::totp_extractor(&[42], 16, 30).unwrap().len(), 16);
}

#[test]
fn combined_extractor_sizes() {
    let large: Vec<u8> = (0..100u8).collect();
    assert_eq!(CombinedExtractor::extract_with_pid(&large, 5, 1234).unwrap().len(), 5);
    assert_eq!(CombinedExtractor::extract_with_pid(&[1], 2, 1234).unwrap().len(), 2);
    assert_eq!(CombinedExtractor::extract_with_pid(&[1, 2], 40, 1234).unwrap().len(), 40);
    assert!(matches!(
        CombinedExtractor::extract_with_pid(&[], 1, 1234),
        Err(EntropyError::InsufficientEntropy)
    ));
}

#[test]
fn noise_mixing_layout() {
    let source = SystemNoiseSource::new();
    assert_eq!(source.name(), "Systemrauschen");
    let mut buf = vec![0xAAu8; 32];
    source.add_additional_noise(
        &mut buf,
        0x0807_0605_0403_0201,
        Some(0x1817_1615_1413_1211),
        Some(0x2827_2625_2423_2221),
    );
    assert_eq!(&buf[0..8], &[1, 2, 3, 4, 5, 6, 7, 8]);
    assert_eq!(&buf[8..16], &[0x11, 0x12, 0x13, 0x14, 0x15, 0x16, 0x17, 0x18]);
    assert_eq!(&buf[16..24], &[0x21, 0x22, 0x23, 0x24, 0x25, 0x26, 0x27, 0x28]);
    assert_eq!(buf[24], 0x01 ^ 0x11 ^ 0x21);
    assert_eq!(buf[31], 0x08 ^ 0x18 ^ 0x28);
}

#[test]
fn noise_mixing_missing_sources_and_short_buffers() {
    let source = SystemNoiseSource::new();
    let mut buf = vec![0xAAu8; 26];
    source.add_additional_noise(&mut buf, 0x0102, None, None);
    assert_eq!(&buf[0..3], &[0x02, 0x01, 0x00]);
    assert_eq!(buf[8], 0xAA);
    assert_eq!(buf[16], 0xAA);
    assert_eq!(buf[24], 0x02 ^ 0xAA ^ 0xAA);
    let mut short = vec![0u8; 3];
    source.add_additional_noise(&mut short, 0x00ff_eedd, Some(1), Some(2));
    assert_eq!(short, vec![0xdd, 0xee, 0xff]);
    let mut empty: Vec<u8> = vec![];
    source.add_additional_noise(&mut empty, 5, None, None);
    assert!(empty.is_empty());
}

#[test]
fn combined_extractor_at_fixed_clock() {
    let pid = 0x0a0b0c0du32;
    let mix = 5u64;
    let hash = 9u64;
    let mut enhanced = vec![1u8, 2, 3];
    enhanced.extend(le8(mix));
    enhanced.extend_from_slice(&pid.to_le_bytes());
    // too large a request: only hashed
    let big = CombinedExtractor::extract_at(&[1, 2, 3], 20, pid, mix, hash).unwrap();
    assert_eq!(big, BitExtractor::cryptographic_extractor_at(&enhanced, 20, hash).unwrap());
    // small request: whitened, hashed to twice the size, debiased
    let w = BitExtractor::whitening_extractor(&enhanced, enhanced.len()).unwrap();
    let hashed = BitExtractor::cryptographic_extractor_at(&w, 8, hash).unwrap();
    let expect = match BitExtractor::von_neumann_extractor(&hashed, 4) {
        Ok(v) => v,
        Err(_) => hashed[..4].to_vec(),
    };
    assert_eq!(CombinedExtractor::extract_at(&[1, 2, 3], 4, pid, mix, hash).unwrap(), expect);
    assert!(CombinedExtractor::extract_at(&[], 4, pid, mix, hash).is_err());
}
