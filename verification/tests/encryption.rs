use lwe_crypto::dispersion::Variance;
use lwe_crypto::engines::{DefaultEngine, DefaultError, ErrorKind};
use lwe_crypto::glwe::{GlweCiphertext, GlweSecretKey};
use lwe_crypto::glwe_encryption::{
    decrypt_glwe_ciphertext, encrypt_glwe_ciphertext, encrypt_zero_glwe_ciphertext,
};
use lwe_crypto::glwe_engines::{
    allocate_glwe_ciphertext_for, GlweCiphertextDiscardingDecryptionEngine,
    GlweCiphertextDiscardingDecryptionError, GlweCiphertextEncryptionEngine,
    GlweCiphertextEncryptionError, GlweCiphertextZeroEncryptionEngine,
    GlweCiphertextZeroEncryptionError,
};
use lwe_crypto::lwe::{LweCiphertext, LweSecretKey};
use lwe_crypto::lwe_encryption::{
    allocate_and_encrypt_new_lwe_ciphertext, allocate_and_trivially_encrypt_new_lwe_ciphertext,
    decrypt_lwe_ciphertext, encrypt_lwe_ciphertext, encrypt_lwe_ciphertext_list,
    lwe_body_for_encryption, trivially_encrypt_lwe_ciphertext, CountMismatch,
};
use lwe_crypto::lwe_engines::{
    LweCiphertextDecryptionEngine, LweCiphertextDecryptionError,
    LweCiphertextDiscardingEncryptionEngine, LweCiphertextDiscardingEncryptionError,
    LweCiphertextDiscardingTrivialEncryptionEngine,
    LweCiphertextDiscardingTrivialEncryptionError, LweCiphertextEncryptionEngine,
    LweCiphertextEncryptionError, LweCiphertextTrivialEncryptionEngine,
    LweCiphertextTrivialEncryptionError, LweCiphertextVectorDiscardingEncryptionEngine,
    LweCiphertextVectorDiscardingEncryptionError,
};
use lwe_crypto::lwe_list::LweCiphertextList;
use lwe_crypto::parameters::{
    CiphertextCount, GlweSize, LweSize, PlaintextCount, PolynomialSize,
};
use lwe_crypto::plaintext::{Plaintext, PlaintextList};
use lwe_crypto::random::{
    fill_slice_with_random_mask, fill_slice_with_random_noise, noise_of_draw, random_noise,
    EncryptionRandomGenerator, RecordedGenerator,
};

/// A generator that walks a fixed linear congruence: the same seed gives
/// the same draws. Its noise is Gaussian with the variance asked for.
struct SeededGenerator {
    state: u64,
    draws: usize,
}

impl SeededGenerator {
    fn new(seed: u64) -> Self {
        SeededGenerator { state: seed, draws: 0 }
    }

    fn next(&mut self) -> u64 {
        self.state = self
            .state
            .wrapping_mul(6364136223846793005)
            .wrapping_add(1442695040888963407);
        let mixed = self.state ^ (self.state >> 33);
        mixed.wrapping_mul(0xff51afd7ed558ccd) ^ (self.state >> 29)
    }

    fn unit_interval(&mut self) -> f64 {
        ((self.next() >> 11) as f64 + 0.5) / (1u64 << 53) as f64
    }

    /// A Gaussian draw of the given variance, as a fraction of the torus
    /// in `[-1/2, 1/2]`.
    fn gaussian(&mut self, noise_parameters: Variance) -> f64 {
        let standard_dev = f64::from_bits(noise_parameters.to_bits()).sqrt();
        let radius = (-2.0 * self.unit_interval().ln()).sqrt();
        let angle = 2.0 * std::f64::consts::PI * self.unit_interval();
        let draw = radius * angle.cos() * standard_dev;
        draw - draw.round()
    }
}

impl EncryptionRandomGenerator<u32> for SeededGenerator {
    fn random_uniform(&mut self) -> u32 {
        self.draws += 1;
        (self.next() >> 32) as u32
    }

    fn random_noise(&mut self, noise_parameters: Variance) -> u32 {
        self.draws += 1;
        let scaled = (self.gaussian(noise_parameters) * 4294967296.0).round();
        (scaled as i64) as u32
    }
}

impl EncryptionRandomGenerator<u64> for SeededGenerator {
    fn random_uniform(&mut self) -> u64 {
        self.draws += 1;
        self.next()
    }

    fn random_noise(&mut self, noise_parameters: Variance) -> u64 {
        self.draws += 1;
        let scaled = (self.gaussian(noise_parameters) * 18446744073709551616.0).round();
        (scaled as i128) as u64
    }
}

/// A generator whose noise is never zero, whatever the variance.
struct StubbornGenerator;

impl EncryptionRandomGenerator<u32> for StubbornGenerator {
    fn random_uniform(&mut self) -> u32 {
        0xdead_beef
    }

    fn random_noise(&mut self, _noise_parameters: Variance) -> u32 {
        5
    }
}

fn variance(value: f64) -> Variance {
    Variance::from_bits(value.to_bits())
}

/// The distance between two points of the 64-bit torus, the short way round.
fn torus_distance(left: u64, right: u64) -> u64 {
    let forward = left.wrapping_sub(right);
    let backward = right.wrapping_sub(left);
    forward.min(backward)
}

#[test]
fn lwe_dimension_four_noiseless_round_trip_u32() {
    let key = LweSecretKey::from_container(vec![1u32, 0, 1, 1]);
    let mut generator = RecordedGenerator::new(SeededGenerator::new(1));
    let mut ciphertext = LweCiphertext::new(0u32, LweSize(5));
    encrypt_lwe_ciphertext(
        &key,
        &mut ciphertext,
        Plaintext(3u32 << 20),
        Variance::zero(),
        &mut generator,
    );
    let decrypted = decrypt_lwe_ciphertext(&key, &ciphertext);
    assert_eq!(decrypted.0, 3u32 << 20);
}

#[test]
fn lwe_noiseless_round_trip_u64() {
    let key = LweSecretKey::from_container(vec![u64::MAX, 12345678901234567890u64, 0, 1, 7]);
    let mut generator = RecordedGenerator::new(SeededGenerator::new(99));
    let ciphertext = allocate_and_encrypt_new_lwe_ciphertext(
        &key,
        Plaintext(3u64 << 50),
        Variance::zero(),
        &mut generator,
    );
    assert_eq!(ciphertext.lwe_size(), LweSize(6));
    assert_eq!(decrypt_lwe_ciphertext(&key, &ciphertext).0, 3u64 << 50);
}

#[test]
fn lwe_noiseless_round_trip_many_keys_and_plaintexts() {
    let mut generator = RecordedGenerator::new(SeededGenerator::new(2024));
    for trial in 0..50u64 {
        let dimension = (trial % 9) as usize;
        let mut key_data = vec![0u64; dimension];
        fill_slice_with_random_mask(&mut generator, &mut key_data);
        let key = LweSecretKey::from_container(key_data);
        let plaintext: u64 = generator.random_uniform();
        let ciphertext = allocate_and_encrypt_new_lwe_ciphertext(
            &key,
            Plaintext(plaintext),
            Variance::zero(),
            &mut generator,
        );
        assert_eq!(decrypt_lwe_ciphertext(&key, &ciphertext).0, plaintext);
    }
}

#[test]
fn lwe_encryption_draws_the_mask_and_one_noise() {
    let key = LweSecretKey::from_container(vec![1u32, 0, 1, 1]);
    let mut generator = RecordedGenerator::new(SeededGenerator::new(1));
    let mut ciphertext = LweCiphertext::new(0u32, LweSize(5));
    encrypt_lwe_ciphertext(
        &key,
        &mut ciphertext,
        Plaintext(7u32),
        variance(1e-9),
        &mut generator,
    );
    assert_eq!(generator.get_ref().draws, 5);
    encrypt_lwe_ciphertext(&key, &mut ciphertext, Plaintext(7u32), Variance::zero(), &mut generator);
    assert_eq!(generator.get_ref().draws, 10);
}

#[test]
fn lwe_encryption_overwrites_the_mask_with_the_draws_in_order() {
    let key = LweSecretKey::from_container(vec![3u64, 5, 7]);
    let mut expected = SeededGenerator::new(77);
    let first: u64 = EncryptionRandomGenerator::<u64>::random_uniform(&mut expected);
    let second: u64 = EncryptionRandomGenerator::<u64>::random_uniform(&mut expected);
    let third: u64 = EncryptionRandomGenerator::<u64>::random_uniform(&mut expected);
    let mut generator = RecordedGenerator::new(SeededGenerator::new(77));
    let mut ciphertext = LweCiphertext::from_container(vec![1u64, 2, 3, 4]);
    encrypt_lwe_ciphertext(&key, &mut ciphertext, Plaintext(11), Variance::zero(), &mut generator);
    let data = ciphertext.into_container();
    assert_eq!(&data[..3], &[first, second, third]);
    let body = first
        .wrapping_mul(3)
        .wrapping_add(second.wrapping_mul(5))
        .wrapping_add(third.wrapping_mul(7))
        .wrapping_add(11);
    assert_eq!(data[3], body);
}

#[test]
fn lwe_body_is_noise_plus_inner_product_plus_message() {
    let key = [2u32, 3, 0xffff_ffff];
    let mask = [10u32, 0x8000_0000, 4];
    let body = lwe_body_for_encryption(&key, &mask, 6, Plaintext(1000));
    // 6 + (20 + 3 * 2^31 - 4) + 1000 modulo 2^32
    assert_eq!(body, 0x8000_0000u32 + 1022);
    assert_ne!(body, 1000);
}

#[test]
fn lwe_decryption_is_body_less_inner_product() {
    let key = LweSecretKey::from_container(vec![2u32, 3]);
    let ciphertext = LweCiphertext::from_container(vec![5u32, 7, 1]);
    // 1 - (10 + 21) wraps below zero
    assert_eq!(decrypt_lwe_ciphertext(&key, &ciphertext).0, 0u32.wrapping_sub(30));
}

#[test]
fn lwe_decryption_gives_message_plus_noise() {
    let key = LweSecretKey::from_container(vec![9u32, 8, 7, 6]);
    let mask = [100u32, 200, 300, 400];
    let noise = 0u32.wrapping_sub(3);
    let body = lwe_body_for_encryption(key.as_slice(), &mask, noise, Plaintext(3u32 << 20));
    let ciphertext = LweCiphertext::from_container(vec![100u32, 200, 300, 400, body]);
    assert_eq!(decrypt_lwe_ciphertext(&key, &ciphertext).0, (3u32 << 20) - 3);
}

#[test]
fn lwe_noise_stays_within_a_few_standard_deviations() {
    let key = LweSecretKey::from_container(vec![u64::MAX, 1, 0, 1, 1, 0, 1, 12345]);
    let mut generator = RecordedGenerator::new(SeededGenerator::new(4242));
    // a variance of 2^-50: a standard deviation of 2^-25 of the torus, 2^39 on 64 bits
    let noise_parameters = variance(2f64.powi(-50));
    let plaintext = 3u64 << 50;
    let mut sum_of_squares = 0f64;
    let trials = 400;
    for _ in 0..trials {
        let ciphertext = allocate_and_encrypt_new_lwe_ciphertext(
            &key,
            Plaintext(plaintext),
            noise_parameters,
            &mut generator,
        );
        let decrypted = decrypt_lwe_ciphertext(&key, &ciphertext).0;
        let distance = torus_distance(decrypted, plaintext);
        assert!(distance <= 6 * (1u64 << 39));
        sum_of_squares += (distance as f64) * (distance as f64);
    }
    let measured = (sum_of_squares / trials as f64).sqrt();
    assert!(measured > 0.8 * (1u64 << 39) as f64);
    assert!(measured < 1.2 * (1u64 << 39) as f64);
}

#[test]
fn lwe_masks_spread_over_the_low_bits() {
    let key = LweSecretKey::from_container(vec![1u32; 16]);
    let mut generator = RecordedGenerator::new(SeededGenerator::new(8));
    let mut counts = [0usize; 16];
    let rounds = 400;
    for _ in 0..rounds {
        let ciphertext = allocate_and_encrypt_new_lwe_ciphertext(
            &key,
            Plaintext(0u32),
            Variance::zero(),
            &mut generator,
        );
        for element in &ciphertext.as_slice()[..16] {
            counts[(element & 0xf) as usize] += 1;
        }
    }
    // 16 mask elements a round, spread over 16 values
    let expected = rounds as f64;
    let chi_square: f64 = counts
        .iter()
        .map(|&count| (count as f64 - expected) * (count as f64 - expected) / expected)
        .sum();
    // 15 degrees of freedom: far beyond the 99.9th percentile means no spread
    assert!(chi_square < 45.0);
}

#[test]
fn zero_variance_gives_zero_noise_whatever_the_source_returns() {
    let mut generator = RecordedGenerator::new(StubbornGenerator);
    let noise: u32 = random_noise(&mut generator, Variance::zero());
    assert_eq!(noise, 0);
    let noise: u32 = random_noise(&mut generator, Variance::from_bits(0x8000_0000_0000_0000));
    assert_eq!(noise, 0);
    let noise: u32 = random_noise(&mut generator, variance(0.25));
    assert_eq!(noise, 5);
    let key = LweSecretKey::from_container(vec![2u32, 4]);
    let ciphertext = allocate_and_encrypt_new_lwe_ciphertext(
        &key,
        Plaintext(9u32),
        Variance::zero(),
        &mut generator,
    );
    assert_eq!(decrypt_lwe_ciphertext(&key, &ciphertext).0, 9);
}

#[test]
fn noise_of_a_draw_is_the_draw_unless_the_variance_is_zero() {
    assert_eq!(noise_of_draw(7u32, variance(0.5)), 7);
    assert_eq!(noise_of_draw(7u32, Variance::zero()), 0);
    assert_eq!(noise_of_draw(u64::MAX, variance(1e-30)), u64::MAX);
    assert_eq!(noise_of_draw(u64::MAX, Variance::from_bits(0x8000_0000_0000_0000)), 0);
}

#[test]
fn the_record_hands_the_source_back_as_the_draws_left_it() {
    let mut generator = RecordedGenerator::new(SeededGenerator::new(4));
    let mut twin = SeededGenerator::new(4);
    let first: u32 = generator.random_uniform();
    let second: u32 = generator.random_noise_draw(variance(1e-6));
    assert_eq!(first, EncryptionRandomGenerator::<u32>::random_uniform(&mut twin));
    assert_eq!(second, EncryptionRandomGenerator::<u32>::random_noise(&mut twin, variance(1e-6)));
    assert_eq!(generator.get_ref().draws, 2);
    let source = generator.into_inner();
    assert_eq!(source.state, twin.state);
}

#[test]
fn noise_fills_every_element() {
    let mut generator = RecordedGenerator::new(StubbornGenerator);
    let mut buffer = [1u32, 2, 3];
    fill_slice_with_random_noise(&mut generator, &mut buffer, variance(1e-3));
    assert_eq!(buffer, [5, 5, 5]);
    fill_slice_with_random_noise(&mut generator, &mut buffer, Variance::zero());
    assert_eq!(buffer, [0, 0, 0]);
    fill_slice_with_random_mask(&mut generator, &mut buffer);
    assert_eq!(buffer, [0xdead_beef; 3]);
}

#[test]
fn trivial_encryption_decrypts_under_any_key() {
    let ciphertext = allocate_and_trivially_encrypt_new_lwe_ciphertext(LweSize(4), Plaintext(77u64));
    assert_eq!(ciphertext.as_slice(), &[0u64, 0, 0, 77]);
    let key = LweSecretKey::from_container(vec![u64::MAX, 3, 1 << 63]);
    assert_eq!(decrypt_lwe_ciphertext(&key, &ciphertext).0, 77);
    let other = LweSecretKey::from_container(vec![5u64, 6, 7]);
    assert_eq!(decrypt_lwe_ciphertext(&other, &ciphertext).0, 77);
}

#[test]
fn trivial_encryption_of_size_one_is_the_body_alone() {
    let ciphertext = allocate_and_trivially_encrypt_new_lwe_ciphertext(LweSize(1), Plaintext(5u32));
    assert_eq!(ciphertext.as_slice(), &[5u32]);
    let key = LweSecretKey::from_container(Vec::<u32>::new());
    assert_eq!(decrypt_lwe_ciphertext(&key, &ciphertext).0, 5);
}

#[test]
fn trivial_encryption_overwrites_the_whole_ciphertext() {
    let mut ciphertext = LweCiphertext::from_container(vec![9u32, 8, 7, 6]);
    trivially_encrypt_lwe_ciphertext(&mut ciphertext, Plaintext(42u32));
    assert_eq!(ciphertext.into_container(), vec![0u32, 0, 0, 42]);
}

#[test]
fn list_encryption_round_trips_in_order() {
    let key = LweSecretKey::from_container(vec![3u32, 1, 4, 1, 5]);
    let plaintexts = PlaintextList::from_container(vec![10u32, 20, 30, 0xffff_ffff]);
    let mut list = LweCiphertextList::new(0u32, LweSize(6), CiphertextCount(4));
    let mut generator = RecordedGenerator::new(SeededGenerator::new(3));
    encrypt_lwe_ciphertext_list(&key, &mut list, &plaintexts, Variance::zero(), &mut generator)
        .unwrap();
    assert_eq!(generator.get_ref().draws, 4 * 6);
    assert_eq!(list.ciphertext_count(), CiphertextCount(4));
    let decrypted: Vec<u32> =
        (0..4).map(|i| decrypt_lwe_ciphertext(&key, &list.get(i)).0).collect();
    assert_eq!(decrypted, vec![10u32, 20, 30, 0xffff_ffff]);
}

#[test]
fn list_encryption_uses_fresh_masks_for_every_ciphertext() {
    let key = LweSecretKey::from_container(vec![1u64, 2, 3]);
    let plaintexts = PlaintextList::new(0u64, PlaintextCount(3));
    let mut list = LweCiphertextList::new(0u64, LweSize(4), CiphertextCount(3));
    let mut generator = RecordedGenerator::new(SeededGenerator::new(31));
    encrypt_lwe_ciphertext_list(&key, &mut list, &plaintexts, Variance::zero(), &mut generator)
        .unwrap();
    let first = list.get(0).into_container();
    let second = list.get(1).into_container();
    let third = list.get(2).into_container();
    assert_ne!(first, second);
    assert_ne!(second, third);
    assert_ne!(first, third);
}

#[test]
fn list_encryption_is_element_by_element_encryption() {
    let key = LweSecretKey::from_container(vec![7u32, 8]);
    let plaintexts = PlaintextList::from_container(vec![1u32, 2, 3]);
    let mut list = LweCiphertextList::new(0u32, LweSize(3), CiphertextCount(3));
    let mut generator = RecordedGenerator::new(SeededGenerator::new(12));
    encrypt_lwe_ciphertext_list(&key, &mut list, &plaintexts, variance(1e-6), &mut generator)
        .unwrap();
    let mut again = RecordedGenerator::new(SeededGenerator::new(12));
    for (index, plaintext) in [1u32, 2, 3].into_iter().enumerate() {
        let single = allocate_and_encrypt_new_lwe_ciphertext(
            &key,
            Plaintext(plaintext),
            variance(1e-6),
            &mut again,
        );
        assert_eq!(list.get(index).into_container(), single.into_container());
    }
}

#[test]
fn list_encryption_reports_both_counts_and_touches_nothing() {
    let key = LweSecretKey::from_container(vec![3u32, 1, 4]);
    let plaintexts = PlaintextList::from_container(vec![10u32, 20, 30]);
    let untouched: Vec<u32> = (0..16).collect();
    let mut list = LweCiphertextList::from_container(untouched.clone(), LweSize(4));
    let mut generator = RecordedGenerator::new(SeededGenerator::new(3));
    let result =
        encrypt_lwe_ciphertext_list(&key, &mut list, &plaintexts, Variance::zero(), &mut generator);
    assert_eq!(
        result,
        Err(CountMismatch {
            plaintext_count: PlaintextCount(3),
            ciphertext_count: CiphertextCount(4),
        })
    );
    assert_eq!(generator.get_ref().draws, 0);
    assert_eq!(list.into_container(), untouched);
}

#[test]
fn checked_list_encryption_reports_both_counts_and_leaves_the_output() {
    let key = LweSecretKey::from_container(vec![3u32, 1, 4]);
    let plaintexts = PlaintextList::from_container(vec![10u32, 20, 30]);
    let untouched: Vec<u32> = (0..16).collect();
    let mut list = LweCiphertextList::from_container(untouched.clone(), LweSize(4));
    let mut engine = DefaultEngine::new(SeededGenerator::new(3));
    let result =
        engine.discard_encrypt_lwe_ciphertext_vector(&key, &mut list, &plaintexts, Variance::zero());
    match result {
        Err(LweCiphertextVectorDiscardingEncryptionError::PlaintextCountMismatch {
            plaintext_count,
            ciphertext_count,
        }) => {
            assert_eq!(plaintext_count, PlaintextCount(3));
            assert_eq!(ciphertext_count, CiphertextCount(4));
        }
        other => panic!("a count mismatch was due, not {:?}", other),
    }
    assert_eq!(
        LweCiphertextVectorDiscardingEncryptionError::<DefaultError>::PlaintextCountMismatch {
            plaintext_count: PlaintextCount(3),
            ciphertext_count: CiphertextCount(4),
        }
        .kind(),
        ErrorKind::CountMismatch
    );
    assert_eq!(engine.encryption_generator.get_ref().draws, 0);
    assert_eq!(list.into_container(), untouched);
}

#[test]
fn checked_list_encryption_reports_a_dimension_mismatch_first() {
    let key = LweSecretKey::from_container(vec![3u32, 1]);
    let plaintexts = PlaintextList::from_container(vec![10u32, 20, 30]);
    let untouched: Vec<u32> = (0..16).collect();
    let mut list = LweCiphertextList::from_container(untouched.clone(), LweSize(4));
    let mut engine = DefaultEngine::new(SeededGenerator::new(3));
    let result =
        engine.discard_encrypt_lwe_ciphertext_vector(&key, &mut list, &plaintexts, Variance::zero());
    let error = result.unwrap_err();
    assert!(matches!(
        error,
        LweCiphertextVectorDiscardingEncryptionError::LweDimensionMismatch
    ));
    assert_eq!(error.kind(), ErrorKind::ShapeMismatch);
    assert_eq!(list.into_container(), untouched);
}

#[test]
fn checked_list_encryption_works_when_the_shapes_fit() {
    let key = LweSecretKey::from_container(vec![3u64, 1, 4]);
    let plaintexts = PlaintextList::from_container(vec![10u64, 20, 30, 40]);
    let mut list = LweCiphertextList::new(0u64, LweSize(4), CiphertextCount(4));
    let mut engine = DefaultEngine::new(SeededGenerator::new(3));
    engine
        .discard_encrypt_lwe_ciphertext_vector(&key, &mut list, &plaintexts, Variance::zero())
        .unwrap();
    for (index, expected) in [10u64, 20, 30, 40].into_iter().enumerate() {
        let decrypted = engine.decrypt_lwe_ciphertext(&key, &list.get(index)).unwrap();
        assert_eq!(decrypted.0, expected);
    }
}

#[test]
fn checked_decryption_rejects_a_key_of_the_wrong_dimension() {
    let ciphertext = LweCiphertext::new(0u32, LweSize(5));
    let key = LweSecretKey::from_container(vec![1u32, 2, 3]);
    let mut engine = DefaultEngine::new(SeededGenerator::new(0));
    let result = engine.decrypt_lwe_ciphertext(&key, &ciphertext);
    let error = result.unwrap_err();
    assert!(matches!(error, LweCiphertextDecryptionError::LweDimensionMismatch));
    assert_eq!(error.kind(), ErrorKind::ShapeMismatch);
    assert_eq!(
        LweCiphertextDecryptionError::Engine(DefaultError::AllocationTooLarge).kind(),
        ErrorKind::UnderlyingEngineFailure
    );
}

#[test]
fn checked_decryption_decrypts_when_the_shapes_fit() {
    let ciphertext = LweCiphertext::from_container(vec![1u32, 1, 1, 100]);
    let key = LweSecretKey::from_container(vec![1u32, 2, 3]);
    let mut engine = DefaultEngine::new(SeededGenerator::new(0));
    assert_eq!(engine.decrypt_lwe_ciphertext(&key, &ciphertext).unwrap().0, 94);
    assert_eq!(engine.decrypt_lwe_ciphertext_unchecked(&key, &ciphertext).0, 94);
}

#[test]
fn checked_encryption_rejects_an_output_of_the_wrong_size() {
    let key = LweSecretKey::from_container(vec![1u32, 2, 3]);
    let mut output = LweCiphertext::from_container(vec![9u32, 9, 9]);
    let mut engine = DefaultEngine::new(SeededGenerator::new(0));
    let result =
        engine.discard_encrypt_lwe_ciphertext(&key, &mut output, &Plaintext(4), Variance::zero());
    let error = result.unwrap_err();
    assert!(matches!(error, LweCiphertextDiscardingEncryptionError::LweDimensionMismatch));
    assert_eq!(error.kind(), ErrorKind::ShapeMismatch);
    assert_eq!(
        LweCiphertextDiscardingEncryptionError::Engine(DefaultError::AllocationTooLarge).kind(),
        ErrorKind::UnderlyingEngineFailure
    );
    assert_eq!(output.into_container(), vec![9u32, 9, 9]);
    assert_eq!(engine.encryption_generator.get_ref().draws, 0);
}

#[test]
fn checked_encryption_encrypts_when_the_shapes_fit() {
    let key = LweSecretKey::from_container(vec![1u32, 2, 3]);
    let mut output = LweCiphertext::new(0u32, LweSize(4));
    let mut engine = DefaultEngine::new(SeededGenerator::new(0));
    engine
        .discard_encrypt_lwe_ciphertext(&key, &mut output, &Plaintext(4), Variance::zero())
        .unwrap();
    assert_eq!(decrypt_lwe_ciphertext(&key, &output).0, 4);
    engine.discard_encrypt_lwe_ciphertext_unchecked(
        &key,
        &mut output,
        &Plaintext(8),
        Variance::zero(),
    );
    assert_eq!(decrypt_lwe_ciphertext(&key, &output).0, 8);
}

#[test]
fn engine_encrypts_into_a_new_ciphertext() {
    let key = LweSecretKey::from_container(vec![1u64, 2, 3]);
    let mut engine = DefaultEngine::new(SeededGenerator::new(21));
    let ciphertext =
        engine.encrypt_lwe_ciphertext(&key, &Plaintext(3u64 << 50), Variance::zero()).unwrap();
    assert_eq!(ciphertext.lwe_size(), LweSize(4));
    assert_eq!(engine.decrypt_lwe_ciphertext(&key, &ciphertext).unwrap().0, 3u64 << 50);
    let unchecked =
        engine.encrypt_lwe_ciphertext_unchecked(&key, &Plaintext(5u64), Variance::zero());
    assert_eq!(engine.decrypt_lwe_ciphertext_unchecked(&key, &unchecked).0, 5);
    assert_eq!(
        LweCiphertextEncryptionError::Engine(DefaultError::AllocationTooLarge).kind(),
        ErrorKind::UnderlyingEngineFailure
    );
}

#[test]
fn engine_makes_trivial_encryptions() {
    let mut engine = DefaultEngine::new(SeededGenerator::new(21));
    let ciphertext = engine.trivially_encrypt_lwe_ciphertext(LweSize(3), &Plaintext(9u32)).unwrap();
    assert_eq!(ciphertext.into_container(), vec![0u32, 0, 9]);
    let ciphertext = engine.trivially_encrypt_lwe_ciphertext_unchecked(LweSize(2), &Plaintext(8u32));
    assert_eq!(ciphertext.into_container(), vec![0u32, 8]);
    let mut output = LweCiphertext::from_container(vec![5u32, 6, 7, 8]);
    engine.discard_trivially_encrypt_lwe_ciphertext(&mut output, &Plaintext(1u32)).unwrap();
    assert_eq!(output.as_slice(), &[0u32, 0, 0, 1]);
    engine.discard_trivially_encrypt_lwe_ciphertext_unchecked(&mut output, &Plaintext(2u32));
    assert_eq!(output.as_slice(), &[0u32, 0, 0, 2]);
    assert_eq!(engine.encryption_generator.get_ref().draws, 0);
    assert_eq!(
        LweCiphertextTrivialEncryptionError::Engine(DefaultError::AllocationTooLarge).kind(),
        ErrorKind::UnderlyingEngineFailure
    );
    assert_eq!(
        LweCiphertextDiscardingTrivialEncryptionError::Engine(DefaultError::AllocationTooLarge)
            .kind(),
        ErrorKind::UnderlyingEngineFailure
    );
}

fn glwe_key_u64() -> GlweSecretKey<u64> {
    GlweSecretKey::from_container(vec![1u64, 0, 1, 1, 0, 1, 0, 1], PolynomialSize(4))
}

#[test]
fn glwe_noiseless_round_trip_u64() {
    let key = glwe_key_u64();
    let plaintexts = PlaintextList::from_container(vec![3u64 << 50, 1, 2, u64::MAX]);
    let mut ciphertext = GlweCiphertext::new(0u64, PolynomialSize(4), GlweSize(3));
    let mut generator = RecordedGenerator::new(SeededGenerator::new(17));
    encrypt_glwe_ciphertext(&key, &mut ciphertext, &plaintexts, Variance::zero(), &mut generator);
    assert_eq!(generator.get_ref().draws, 8 + 4);
    let mut decrypted = PlaintextList::new(0u64, PlaintextCount(4));
    decrypt_glwe_ciphertext(&key, &ciphertext, &mut decrypted);
    assert_eq!(decrypted.into_container(), vec![3u64 << 50, 1, 2, u64::MAX]);
}

#[test]
fn glwe_noiseless_round_trip_u32() {
    let key = GlweSecretKey::from_container(
        vec![0xffff_ffffu32, 2, 3, 4, 5, 6],
        PolynomialSize(2),
    );
    let plaintexts = PlaintextList::from_container(vec![3u32 << 20, 5]);
    let mut ciphertext = GlweCiphertext::new(0u32, PolynomialSize(2), GlweSize(4));
    let mut generator = RecordedGenerator::new(SeededGenerator::new(171));
    encrypt_glwe_ciphertext(&key, &mut ciphertext, &plaintexts, Variance::zero(), &mut generator);
    let mut decrypted = PlaintextList::new(0u32, PlaintextCount(2));
    decrypt_glwe_ciphertext(&key, &ciphertext, &mut decrypted);
    assert_eq!(decrypted.into_container(), vec![3u32 << 20, 5]);
}

#[test]
fn glwe_dimension_two_polynomial_size_four_with_noise() {
    let key = glwe_key_u64();
    let plaintexts = PlaintextList::from_container(vec![3u64 << 50; 4]);
    let noise_parameters = variance(2f64.powf(-25.0));
    let mut engine = DefaultEngine::new(SeededGenerator::new(5));
    let ciphertext = engine.encrypt_glwe_ciphertext(&key, &plaintexts, noise_parameters).unwrap();
    let mut decrypted = PlaintextList::new(0u64, PlaintextCount(4));
    engine.discard_decrypt_glwe_ciphertext(&key, &mut decrypted, &ciphertext).unwrap();
    assert_eq!(decrypted.plaintext_count(), PlaintextCount(4));
    // the standard deviation is 2^-12.5 of the torus
    let standard_dev = 2f64.powf(64.0 - 12.5);
    for recovered in decrypted.into_container() {
        assert!((torus_distance(recovered, 3u64 << 50) as f64) < 6.0 * standard_dev);
    }
}

#[test]
fn glwe_body_is_noise_plus_products_plus_messages() {
    // one mask polynomial; the key is 1 + 2X, the mask is what the generator draws
    let key = GlweSecretKey::from_container(vec![1u32, 2], PolynomialSize(2));
    let mut expected = SeededGenerator::new(6);
    let a0: u32 = EncryptionRandomGenerator::<u32>::random_uniform(&mut expected);
    let a1: u32 = EncryptionRandomGenerator::<u32>::random_uniform(&mut expected);
    let mut generator = RecordedGenerator::new(SeededGenerator::new(6));
    let plaintexts = PlaintextList::from_container(vec![100u32, 200]);
    let mut ciphertext = GlweCiphertext::new(0u32, PolynomialSize(2), GlweSize(2));
    encrypt_glwe_ciphertext(&key, &mut ciphertext, &plaintexts, Variance::zero(), &mut generator);
    // (a0 + a1 X)(1 + 2X) = (a0 - 2 a1) + (2 a0 + a1) X modulo X^2 + 1
    let data = ciphertext.into_container();
    assert_eq!(data[0], a0);
    assert_eq!(data[1], a1);
    assert_eq!(data[2], a0.wrapping_sub(a1.wrapping_mul(2)).wrapping_add(100));
    assert_eq!(data[3], a0.wrapping_mul(2).wrapping_add(a1).wrapping_add(200));
}

#[test]
fn glwe_decryption_is_body_less_products() {
    // mask 3 + 4X, key 1 + 2X: the product is (3 - 8) + (6 + 4) X
    let key = GlweSecretKey::from_container(vec![1u64, 2], PolynomialSize(2));
    let ciphertext = GlweCiphertext::from_container(vec![3u64, 4, 1000, 2000], PolynomialSize(2));
    let mut decrypted = PlaintextList::from_container(vec![0u64, 0]);
    decrypt_glwe_ciphertext(&key, &ciphertext, &mut decrypted);
    assert_eq!(decrypted.into_container(), vec![1005u64, 1990]);
}

#[test]
fn glwe_zero_encryption_decrypts_to_zeros_without_noise() {
    let key = glwe_key_u64();
    let mut engine = DefaultEngine::new(SeededGenerator::new(23));
    let ciphertext = engine.zero_encrypt_glwe_ciphertext(&key, Variance::zero()).unwrap();
    assert_eq!(ciphertext.glwe_size(), GlweSize(3));
    assert_eq!(ciphertext.polynomial_size(), PolynomialSize(4));
    assert_ne!(ciphertext.as_slice()[..8], [0u64; 8]);
    let mut decrypted = PlaintextList::from_container(vec![9u64; 4]);
    engine.discard_decrypt_glwe_ciphertext(&key, &mut decrypted, &ciphertext).unwrap();
    assert_eq!(decrypted.into_container(), vec![0u64; 4]);
    let unchecked = engine.zero_encrypt_glwe_ciphertext_unchecked(&key, Variance::zero());
    let mut decrypted = PlaintextList::from_container(vec![9u64; 4]);
    engine.discard_decrypt_glwe_ciphertext_unchecked(&key, &mut decrypted, &unchecked);
    assert_eq!(decrypted.into_container(), vec![0u64; 4]);
}

#[test]
fn glwe_zero_encryption_is_encryption_of_zeros() {
    let key = glwe_key_u64();
    let mut left = RecordedGenerator::new(SeededGenerator::new(41));
    let mut right = RecordedGenerator::new(SeededGenerator::new(41));
    let mut zero = GlweCiphertext::new(0u64, PolynomialSize(4), GlweSize(3));
    encrypt_zero_glwe_ciphertext(&key, &mut zero, variance(1e-12), &mut left);
    let mut plain = GlweCiphertext::new(7u64, PolynomialSize(4), GlweSize(3));
    let zeros = PlaintextList::new(0u64, PlaintextCount(4));
    encrypt_glwe_ciphertext(&key, &mut plain, &zeros, variance(1e-12), &mut right);
    assert_eq!(zero.into_container(), plain.into_container());
    assert_eq!(
        GlweCiphertextZeroEncryptionError::Engine(DefaultError::AllocationTooLarge).kind(),
        ErrorKind::UnderlyingEngineFailure
    );
}

#[test]
fn checked_glwe_decryption_names_what_does_not_fit() {
    let key = glwe_key_u64();
    let mut engine = DefaultEngine::new(SeededGenerator::new(0));
    let mut output = PlaintextList::from_container(vec![5u64, 6, 7, 8]);

    let too_many_polynomials = GlweCiphertext::new(1u64, PolynomialSize(4), GlweSize(4));
    let error = engine
        .discard_decrypt_glwe_ciphertext(&key, &mut output, &too_many_polynomials)
        .unwrap_err();
    assert!(matches!(error, GlweCiphertextDiscardingDecryptionError::GlweDimensionMismatch));
    assert_eq!(error.kind(), ErrorKind::ShapeMismatch);

    let other_polynomial_size = GlweCiphertext::new(1u64, PolynomialSize(2), GlweSize(3));
    let error = engine
        .discard_decrypt_glwe_ciphertext(&key, &mut output, &other_polynomial_size)
        .unwrap_err();
    assert!(matches!(error, GlweCiphertextDiscardingDecryptionError::PolynomialSizeMismatch));
    assert_eq!(error.kind(), ErrorKind::ShapeMismatch);

    let fitting = GlweCiphertext::new(1u64, PolynomialSize(4), GlweSize(3));
    let mut short_output = PlaintextList::from_container(vec![5u64, 6, 7]);
    let error = engine
        .discard_decrypt_glwe_ciphertext(&key, &mut short_output, &fitting)
        .unwrap_err();
    assert!(matches!(error, GlweCiphertextDiscardingDecryptionError::PlaintextCountMismatch));
    assert_eq!(error.kind(), ErrorKind::ShapeMismatch);
    assert_eq!(
        GlweCiphertextDiscardingDecryptionError::Engine(DefaultError::AllocationTooLarge).kind(),
        ErrorKind::UnderlyingEngineFailure
    );

    assert_eq!(output.into_container(), vec![5u64, 6, 7, 8]);
    assert_eq!(short_output.into_container(), vec![5u64, 6, 7]);
}

#[test]
fn checked_glwe_encryption_rejects_a_list_of_the_wrong_length() {
    let key = glwe_key_u64();
    let mut engine = DefaultEngine::new(SeededGenerator::new(0));
    let plaintexts = PlaintextList::from_container(vec![1u64, 2, 3]);
    let error = engine.encrypt_glwe_ciphertext(&key, &plaintexts, Variance::zero()).unwrap_err();
    assert!(matches!(error, GlweCiphertextEncryptionError::PlaintextCountMismatch));
    assert_eq!(error.kind(), ErrorKind::ShapeMismatch);
    assert_eq!(
        GlweCiphertextEncryptionError::Engine(DefaultError::AllocationTooLarge).kind(),
        ErrorKind::UnderlyingEngineFailure
    );
    assert_eq!(engine.encryption_generator.get_ref().draws, 0);
}

#[test]
fn unchecked_glwe_encryption_round_trips() {
    let key = glwe_key_u64();
    let mut engine = DefaultEngine::new(SeededGenerator::new(10));
    let plaintexts = PlaintextList::from_container(vec![1u64, 2, 3, 4]);
    let ciphertext = engine.encrypt_glwe_ciphertext_unchecked(&key, &plaintexts, Variance::zero());
    let mut decrypted = PlaintextList::new(0u64, PlaintextCount(4));
    engine.discard_decrypt_glwe_ciphertext_unchecked(&key, &mut decrypted, &ciphertext);
    assert_eq!(decrypted.into_container(), vec![1u64, 2, 3, 4]);
}

#[test]
fn a_ciphertext_for_a_key_has_one_polynomial_more() {
    let key = glwe_key_u64();
    let ciphertext = allocate_glwe_ciphertext_for(&key).unwrap();
    assert_eq!(ciphertext.into_container(), vec![0u64; 12]);
}
