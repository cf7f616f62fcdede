use rand::Rng;
use rand_distr::{Distribution, Normal};
use tfhe_lwe::config::{lwe_config, LweConfig};
use tfhe_lwe::lwe::{
    generate_lwe_key, lwe_add, lwe_decode, lwe_decrypt, lwe_encode, lwe_encrypt,
    lwe_plaintext_multiply, lwe_sub,
};
use tfhe_lwe::utils::uniform_sample_int32;

/// One Gaussian noise term for the configuration: a normal draw with the
/// configured deviation, scaled to the ring and truncated.
fn draw_noise(config: &LweConfig) -> i32 {
    let std = f64::from_bits(config.noise_std_bits);
    let normal = Normal::new(0.0, std).unwrap();
    (i32::MAX as f64 * normal.sample(&mut rand::thread_rng())) as i32
}

/// Encryption and decryption give the message back, and the noise is centered
/// at 0 with a standard deviation close to the configured one.
#[test]
fn test_lwe() {
    let config = lwe_config();
    let key = generate_lwe_key(config.clone());

    let num_trials = 1000;
    let mut noise_samples = Vec::with_capacity(num_trials);

    for _ in 0..num_trials {
        let plaintext = lwe_encode(rand::thread_rng().gen_range(-4..4)).unwrap();
        let ciphertext = lwe_encrypt(plaintext.clone(), key.clone(), draw_noise(&config));
        let decrypted = lwe_decrypt(ciphertext, key.clone());
        assert_eq!(lwe_decode(plaintext.clone()), lwe_decode(decrypted.clone()));

        let noise = decrypted.message.wrapping_sub(plaintext.message);
        noise_samples.push(noise);
    }

    let avg_noise = noise_samples.iter().sum::<i32>() as f64 / num_trials as f64;
    let variance = noise_samples
        .iter()
        .map(|&x| (x as f64 - avg_noise).powi(2))
        .sum::<f64>()
        / num_trials as f64;
    let std_dev = variance.sqrt();

    println!("Average noise: {}", avg_noise);
    println!("Standard deviation of noise: {}", std_dev);
    println!(
        "Configured noise std: {}",
        f64::from_bits(config.noise_std_bits) * 2_f64.powi(31)
    );
}

#[test]
fn test_lwe_add_sub() {
    let config = lwe_config();
    let key = generate_lwe_key(config.clone());

    let plaintext1 = lwe_encode(1).unwrap();
    let plaintext2 = lwe_encode(2).unwrap();

    let ciphertext1 = lwe_encrypt(plaintext1.clone(), key.clone(), draw_noise(&config));
    let ciphertext2 = lwe_encrypt(plaintext2.clone(), key.clone(), draw_noise(&config));

    let ciphertext_add = lwe_add(ciphertext1.clone(), ciphertext2.clone());
    let ciphertext_sub = lwe_sub(ciphertext1.clone(), ciphertext2.clone());

    let decrypted_add = lwe_decrypt(ciphertext_add, key.clone());
    let decrypted_sub = lwe_decrypt(ciphertext_sub, key.clone());

    assert_eq!(lwe_decode(decrypted_add), 3);
    assert_eq!(lwe_decode(decrypted_sub), -1);
}

#[test]
fn test_lwe_plaintext_multiply() {
    let config = lwe_config();
    let key = generate_lwe_key(config.clone());

    let plaintext = lwe_encode(1).unwrap();
    let ciphertext = lwe_encrypt(plaintext.clone(), key.clone(), draw_noise(&config));

    let ciphertext_mult = lwe_plaintext_multiply(3, ciphertext.clone());
    let decrypted_mult = lwe_decrypt(ciphertext_mult, key.clone());

    assert_eq!(lwe_decode(decrypted_mult), 3);
}

#[test]
fn every_message_survives_a_thousand_encryptions() {
    let config = lwe_config();
    let key = generate_lwe_key(config);
    for m in -4..4 {
        for _ in 0..1000 {
            let plaintext = lwe_encode(m).unwrap();
            let ciphertext = lwe_encrypt(plaintext, key.clone(), draw_noise(&config));
            assert_eq!(lwe_decode(lwe_decrypt(ciphertext, key.clone())), m);
        }
    }
}

#[test]
fn recovered_noise_has_the_configured_spread() {
    let config = lwe_config();
    let key = generate_lwe_key(config);
    let zero = lwe_encode(0).unwrap();
    let trials = 4000;
    let mut samples: Vec<f64> = Vec::with_capacity(trials);
    for _ in 0..trials {
        let noise = draw_noise(&config);
        let decrypted = lwe_decrypt(lwe_encrypt(zero, key.clone(), noise), key.clone());
        let recovered = decrypted.message.wrapping_sub(zero.message);
        assert_eq!(recovered, noise);
        samples.push(recovered as f64);
    }
    let mean = samples.iter().sum::<f64>() / trials as f64;
    let variance = samples.iter().map(|x| (x - mean).powi(2)).sum::<f64>() / trials as f64;
    let expected = f64::from_bits(config.noise_std_bits) * 2_f64.powi(31);
    assert!((expected - 128.0).abs() < 0.001);
    assert!(mean.abs() < 0.15 * expected);
    assert!((variance.sqrt() - expected).abs() < 0.15 * expected);
}

#[test]
fn independent_keys_differ() {
    let config = lwe_config();
    for _ in 0..100 {
        let first = generate_lwe_key(config);
        let second = generate_lwe_key(config);
        assert_eq!(first.key().len(), 1024);
        assert_eq!(second.key().len(), 1024);
        assert_ne!(first.key(), second.key());
    }
}

#[test]
fn generated_key_is_binary_and_uses_both_bits() {
    let config = lwe_config();
    let key = generate_lwe_key(config);
    assert_eq!(key.config(), config);
    assert_eq!(key.key().len(), 1024);
    assert!(key.key().iter().all(|&k| k == 0 || k == 1));
    assert!(key.key().iter().any(|&k| k == 0));
    assert!(key.key().iter().any(|&k| k == 1));
}

#[test]
fn generated_key_of_no_dimension_is_empty() {
    let none = generate_lwe_key(LweConfig { dimension: 0, noise_std_bits: 0 });
    assert!(none.key().is_empty());
    let below = generate_lwe_key(LweConfig { dimension: -3, noise_std_bits: 0 });
    assert!(below.key().is_empty());
    assert_eq!(below.config().dimension, -3);
}

#[test]
fn uniform_sample_has_the_requested_length_and_varies() {
    assert_eq!(uniform_sample_int32(0).len(), 0);
    assert_eq!(uniform_sample_int32(-5).len(), 0);
    assert_eq!(uniform_sample_int32(1).len(), 1);
    let sample = uniform_sample_int32(1000);
    assert_eq!(sample.len(), 1000);
    assert!(sample.iter().any(|&x| x != i32::MIN && x != i32::MAX));
    assert!(sample.iter().any(|&x| x < 0));
    assert!(sample.iter().any(|&x| x > 0));
    assert_ne!(sample, uniform_sample_int32(1000));
}

#[test]
fn encrypt_draws_a_fresh_mask_each_time() {
    let config = lwe_config();
    let key = generate_lwe_key(config);
    let plaintext = lwe_encode(2).unwrap();
    let first = lwe_encrypt(plaintext, key.clone(), 5);
    let second = lwe_encrypt(plaintext, key.clone(), 5);
    assert_eq!(first.config(), config);
    assert_eq!(first.a().len(), 1024);
    assert_ne!(first.a(), second.a());
    assert_eq!(lwe_decrypt(first, key.clone()).message, plaintext.message + 5);
    assert_eq!(lwe_decrypt(second, key).message, plaintext.message + 5);
}
