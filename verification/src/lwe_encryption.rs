//! Encryption and decryption of LWE ciphertexts.
//!
//! The body of a ciphertext is the sum of a noise term, the inner product of
//! the mask with the secret key, and the encoded message. Decryption takes
//! the inner product off the body again and returns what is left: the
//! message with the noise still on it.

use crate::dispersion::Variance;
use crate::lwe::{lwe_body, lwe_mask, LweCiphertext, LweSecretKey};
use crate::lwe_list::{lemma_list_with_ciphertext, LweCiphertextList};
use crate::parameters::{CiphertextCount, LweSize, PlaintextCount};
use crate::plaintext::{Plaintext, PlaintextList};
use crate::random::{
    effective_noise, fill_slice_with_random_mask, lemma_continues_itself, lemma_continues_twice,
    possible_noise, random_noise, EncryptionRandomGenerator, RecordedGenerator,
};
use crate::slice_algorithms::{
    chunk, dot_product, dot_product_prefix, lemma_chunk_bounds_of_run, lemma_chunk_of_grown,
    wrapping_dot_product,
};
use crate::torus::{
    lemma_reduce_add_left, lemma_reduce_add_right, lemma_reduce_of_value, lemma_reduce_sub_left,
    lemma_reduce_sub_right, UnsignedTorus,
};
use vstd::prelude::*;

verus! {

/// The ciphertext that carries `encoded` under `key` with the given mask and
/// noise: the mask, then the body
/// `noise + mask . key + encoded`, reduced once.
pub open spec fn lwe_encryption<S: UnsignedTorus>(
    key: Seq<S>,
    mask: Seq<S>,
    noise: S,
    encoded: S,
) -> Seq<S> {
    mask.push(S::reduce(noise.value() + dot_product(mask, key) + encoded.value()))
}

/// The ciphertext of the given size that carries `encoded` in the open: a
/// mask of zeros, then `encoded` itself. It hides nothing.
pub open spec fn lwe_trivial_encryption<S: UnsignedTorus>(lwe_size: nat, encoded: S) -> Seq<S> {
    Seq::new((lwe_size - 1) as nat, |i: int| S::reduce(0)).push(encoded)
}

/// What `ciphertext` carries under `key`: its body less the inner product of
/// its mask with the key. The noise is still on it.
pub open spec fn lwe_decryption<S: UnsignedTorus>(key: Seq<S>, ciphertext: Seq<S>) -> S {
    S::reduce(lwe_body(ciphertext).value() - dot_product(lwe_mask(ciphertext), key))
}

/// Whether `ciphertext` is an encryption of `encoded` under `key` with some
/// mask and with a noise that can be drawn under `noise_parameters`.
pub open spec fn is_lwe_encryption<S: UnsignedTorus>(
    ciphertext: Seq<S>,
    key: Seq<S>,
    encoded: S,
    noise_parameters: Variance,
) -> bool {
    &&& ciphertext.len() == key.len() + 1
    &&& exists|noise: S| #[trigger]
        possible_noise(noise_parameters, noise) && ciphertext == lwe_encryption(
            key,
            lwe_mask(ciphertext),
            noise,
            encoded,
        )
}

/// Whether `ciphertext` is what encryption makes of `encoded` under `key`
/// from these draws: the uniform draws, as many as the key has elements, are
/// the mask in their order, and the one noise draw gives the noise.
pub open spec fn is_lwe_encryption_of_draws<S: UnsignedTorus>(
    ciphertext: Seq<S>,
    key: Seq<S>,
    encoded: S,
    noise_parameters: Variance,
    uniform: Seq<S>,
    noise: Seq<S>,
) -> bool {
    &&& uniform.len() == key.len()
    &&& noise.len() == 1
    &&& ciphertext == lwe_encryption(
        key,
        uniform,
        effective_noise(noise_parameters, noise[0]),
        encoded,
    )
}

/// Whether `ciphertexts` is what list encryption makes of `encoded` under
/// `key` from these draws: ciphertext `i` has the `i`-th run of uniform
/// draws, as long as the key, for its mask, and its noise from the `i`-th
/// noise draw. No draw serves two ciphertexts.
pub open spec fn is_lwe_list_encryption_of_draws<S: UnsignedTorus>(
    ciphertexts: Seq<Seq<S>>,
    key: Seq<S>,
    encoded: Seq<S>,
    noise_parameters: Variance,
    uniform: Seq<S>,
    noise: Seq<S>,
) -> bool {
    &&& ciphertexts.len() == encoded.len()
    &&& uniform.len() == encoded.len() * key.len()
    &&& noise.len() == encoded.len()
    &&& forall|i: int|
        0 <= i < encoded.len() ==> #[trigger] ciphertexts[i] == lwe_encryption(
            key,
            chunk(uniform, key.len(), i),
            effective_noise(noise_parameters, noise[i]),
            encoded[i],
        )
}

/// What encryption makes from its draws is an encryption, and its mask is
/// the uniform draws.
pub proof fn lemma_lwe_encryption_of_draws<S: UnsignedTorus>(
    ciphertext: Seq<S>,
    key: Seq<S>,
    encoded: S,
    noise_parameters: Variance,
    uniform: Seq<S>,
    noise: Seq<S>,
)
    requires
        is_lwe_encryption_of_draws(ciphertext, key, encoded, noise_parameters, uniform, noise),
    ensures
        lwe_mask(ciphertext) == uniform,
        is_lwe_encryption(ciphertext, key, encoded, noise_parameters),
{
    assert(lwe_mask(ciphertext) =~= uniform);
    assert(possible_noise(noise_parameters, effective_noise(noise_parameters, noise[0])));
}

/// What list encryption makes from its draws is, ciphertext by ciphertext,
/// an encryption of the plaintext at the same index.
pub proof fn lemma_lwe_list_encryption_of_draws<S: UnsignedTorus>(
    ciphertexts: Seq<Seq<S>>,
    key: Seq<S>,
    encoded: Seq<S>,
    noise_parameters: Variance,
    uniform: Seq<S>,
    noise: Seq<S>,
)
    requires
        is_lwe_list_encryption_of_draws(
            ciphertexts,
            key,
            encoded,
            noise_parameters,
            uniform,
            noise,
        ),
    ensures
        is_lwe_list_encryption(ciphertexts, key, encoded, noise_parameters),
{
    assert forall|i: int| 0 <= i < encoded.len() implies is_lwe_encryption(
        #[trigger] ciphertexts[i],
        key,
        encoded[i],
        noise_parameters,
    ) by {
        let mask = chunk(uniform, key.len(), i);
        lemma_chunk_bounds_of_run(uniform.len(), key.len(), encoded.len() as int, i);
        lemma_lwe_encryption_of_draws(
            ciphertexts[i],
            key,
            encoded[i],
            noise_parameters,
            mask,
            seq![noise[i]],
        );
    }
}

/// What each ciphertext of a list carries under `key`, in the order of the
/// list.
pub open spec fn lwe_list_decryption<S: UnsignedTorus>(
    key: Seq<S>,
    ciphertexts: Seq<Seq<S>>,
) -> Seq<S> {
    Seq::new(ciphertexts.len(), |i: int| lwe_decryption(key, ciphertexts[i]))
}

/// Whether each ciphertext of a list is an encryption of the plaintext at
/// its own index, in the sense of `is_lwe_encryption`.
pub open spec fn is_lwe_list_encryption<S: UnsignedTorus>(
    ciphertexts: Seq<Seq<S>>,
    key: Seq<S>,
    encoded: Seq<S>,
    noise_parameters: Variance,
) -> bool {
    &&& ciphertexts.len() == encoded.len()
    &&& forall|i: int|
        0 <= i < encoded.len() ==> is_lwe_encryption(
            #[trigger] ciphertexts[i],
            key,
            encoded[i],
            noise_parameters,
        )
}

/// Decryption gives back the message with the noise added to it, whatever
/// the mask was.
pub proof fn lemma_lwe_decryption_of_encryption<S: UnsignedTorus>(
    key: Seq<S>,
    mask: Seq<S>,
    noise: S,
    encoded: S,
)
    ensures
        lwe_decryption(key, lwe_encryption(key, mask, noise, encoded)) == S::reduce(
            encoded.value() + noise.value(),
        ),
{
    let dot = dot_product(mask, key);
    let ciphertext = lwe_encryption(key, mask, noise, encoded);
    assert(lwe_mask(ciphertext) =~= mask);
    lemma_reduce_sub_left::<S>(noise.value() + dot + encoded.value(), dot);
}

/// With no noise, decryption gives back exactly the message that was
/// encrypted.
pub proof fn lemma_lwe_noiseless_round_trip<S: UnsignedTorus>(key: Seq<S>, mask: Seq<S>, encoded: S)
    ensures
        lwe_decryption(key, lwe_encryption(key, mask, S::reduce(0), encoded)) == encoded,
{
    lemma_lwe_decryption_of_encryption(key, mask, S::reduce(0), encoded);
    lemma_reduce_add_right::<S>(encoded.value(), 0);
    lemma_reduce_of_value(encoded);
}

/// A ciphertext that was made under a zero variance decrypts to exactly the
/// message that was encrypted.
pub proof fn lemma_noiseless_lwe_encryption_decrypts<S: UnsignedTorus>(
    ciphertext: Seq<S>,
    key: Seq<S>,
    encoded: S,
    noise_parameters: Variance,
)
    requires
        is_lwe_encryption(ciphertext, key, encoded, noise_parameters),
        noise_parameters.is_noiseless(),
    ensures
        lwe_decryption(key, ciphertext) == encoded,
{
    let noise = choose|noise: S| #[trigger]
        possible_noise(noise_parameters, noise) && ciphertext == lwe_encryption(
            key,
            lwe_mask(ciphertext),
            noise,
            encoded,
        );
    lemma_lwe_noiseless_round_trip(key, lwe_mask(ciphertext), encoded);
}

/// A list that was encrypted under a zero variance decrypts, element by
/// element, to exactly the plaintexts that were encrypted, in their order.
pub proof fn lemma_noiseless_lwe_list_encryption_decrypts<S: UnsignedTorus>(
    ciphertexts: Seq<Seq<S>>,
    key: Seq<S>,
    encoded: Seq<S>,
    noise_parameters: Variance,
)
    requires
        is_lwe_list_encryption(ciphertexts, key, encoded, noise_parameters),
        noise_parameters.is_noiseless(),
    ensures
        lwe_list_decryption(key, ciphertexts) == encoded,
{
    assert forall|i: int| 0 <= i < encoded.len() implies lwe_decryption(key, ciphertexts[i])
        == encoded[i] by {
        lemma_noiseless_lwe_encryption_decrypts(ciphertexts[i], key, encoded[i], noise_parameters);
    }
    assert(lwe_list_decryption(key, ciphertexts) =~= encoded);
}

/// The inner product of a run of zeros with anything is zero.
pub proof fn lemma_dot_product_of_zeros<S: UnsignedTorus>(zeros: Seq<S>, key: Seq<S>, n: int)
    requires
        n <= zeros.len(),
        forall|i: int| 0 <= i < zeros.len() ==> zeros[i] == S::reduce(0),
    ensures
        dot_product_prefix(zeros, key, n) == 0,
    decreases n,
{
    if n > 0 {
        lemma_dot_product_of_zeros(zeros, key, n - 1);
        S::lemma_reduce_value(0);
        S::lemma_modulus_positive();
        assert(zeros[n - 1].value() == 0);
        assert(zeros[n - 1].value() * key[n - 1].value() == 0) by (nonlinear_arith)
            requires
                zeros[n - 1].value() == 0,
        ;
    }
}

/// A trivial encryption decrypts to exactly its message under every key: the
/// mask is zero, so the key has no part in it.
pub proof fn lemma_lwe_trivial_round_trip<S: UnsignedTorus>(key: Seq<S>, lwe_size: nat, encoded: S)
    requires
        lwe_size >= 1,
    ensures
        lwe_decryption(key, lwe_trivial_encryption(lwe_size, encoded)) == encoded,
{
    let ciphertext = lwe_trivial_encryption(lwe_size, encoded);
    let zeros = Seq::new((lwe_size - 1) as nat, |i: int| S::reduce(0));
    assert(lwe_mask(ciphertext) =~= zeros);
    lemma_dot_product_of_zeros(zeros, key, zeros.len() as int);
    lemma_reduce_of_value(encoded);
}

/// The body of the ciphertext that carries `encoded` under the key with the
/// given mask and noise.
pub fn lwe_body_for_encryption<Scalar: UnsignedTorus>(
    lwe_secret_key: &[Scalar],
    mask: &[Scalar],
    noise: Scalar,
    encoded: Plaintext<Scalar>,
) -> (body: Scalar)
    requires
        mask@.len() == lwe_secret_key@.len(),
    ensures
        mask@.push(body) == lwe_encryption(lwe_secret_key@, mask@, noise, encoded.0),
{
    let multisum = wrapping_dot_product(mask, lwe_secret_key);
    let masked = noise.wrapping_add(multisum);
    let body = masked.wrapping_add(encoded.0);
    proof {
        let dot = dot_product(mask@, lwe_secret_key@);
        lemma_reduce_add_right::<Scalar>(noise.value(), dot);
        lemma_reduce_add_left::<Scalar>(noise.value() + dot, encoded.0.value());
    }
    body
}

/// Fills a mask and a body so that together they carry `encoded` under the
/// key: the mask with fresh uniform elements, the body with fresh noise, the
/// inner product of the new mask with the key, and the message.
pub fn fill_lwe_mask_and_body_for_encryption<Scalar, Gen>(
    lwe_secret_key: &[Scalar],
    output_mask: &mut [Scalar],
    output_body: &mut [Scalar],
    encoded: Plaintext<Scalar>,
    noise_parameters: Variance,
    generator: &mut RecordedGenerator<Scalar, Gen>,
) where Scalar: UnsignedTorus, Gen: EncryptionRandomGenerator<Scalar>
    requires
        old(output_mask)@.len() == lwe_secret_key@.len(),
        old(output_body)@.len() == 1,
    ensures
        final(output_mask)@.len() == old(output_mask)@.len(),
        final(output_body)@.len() == 1,
        final(generator).continues(old(generator)),
        is_lwe_encryption_of_draws(
            final(output_mask)@ + final(output_body)@,
            lwe_secret_key@,
            encoded.0,
            noise_parameters,
            final(generator).uniform_since(old(generator)),
            final(generator).noise_since(old(generator)),
        ),
        is_lwe_encryption(
            final(output_mask)@ + final(output_body)@,
            lwe_secret_key@,
            encoded.0,
            noise_parameters,
        ),
{
    fill_slice_with_random_mask(generator, output_mask);
    let ghost masked = *generator;
    let noise = random_noise(generator, noise_parameters);
    let body = lwe_body_for_encryption(lwe_secret_key, output_mask, noise, encoded);
    output_body[0] = body;
    proof {
        let ciphertext = output_mask@ + output_body@;
        lemma_continues_twice(old(generator), &masked, generator);
        assert(generator.uniform_since(old(generator)) =~= output_mask@);
        assert(generator.noise_since(old(generator)) =~= generator.noise_since(&masked));
        assert(ciphertext =~= output_mask@.push(body));
        lemma_lwe_encryption_of_draws(
            ciphertext,
            lwe_secret_key@,
            encoded.0,
            noise_parameters,
            generator.uniform_since(old(generator)),
            generator.noise_since(old(generator)),
        );
    }
}

/// Encrypts `encoded` under the key into `output`, which is overwritten.
///
/// The mask is drawn afresh and the noise is drawn under `noise_parameters`:
/// as many draws as the mask has elements, and one more. Under a zero
/// variance the result decrypts to exactly `encoded`.
pub fn encrypt_lwe_ciphertext<Scalar, Gen>(
    lwe_secret_key: &LweSecretKey<Scalar>,
    output: &mut LweCiphertext<Scalar>,
    encoded: Plaintext<Scalar>,
    noise_parameters: Variance,
    generator: &mut RecordedGenerator<Scalar, Gen>,
) where Scalar: UnsignedTorus, Gen: EncryptionRandomGenerator<Scalar>
    requires
        old(output)@.len() == lwe_secret_key@.len() + 1,
    ensures
        final(output).wf(),
        final(generator).continues(old(generator)),
        is_lwe_encryption_of_draws(
            final(output)@,
            lwe_secret_key@,
            encoded.0,
            noise_parameters,
            final(generator).uniform_since(old(generator)),
            final(generator).noise_since(old(generator)),
        ),
        lwe_mask(final(output)@) == final(generator).uniform_since(old(generator)),
        lwe_decryption(lwe_secret_key@, final(output)@) == Scalar::reduce(
            encoded.0.value() + effective_noise(
                noise_parameters,
                final(generator).noise_since(old(generator))[0],
            ).value(),
        ),
        is_lwe_encryption(final(output)@, lwe_secret_key@, encoded.0, noise_parameters),
        noise_parameters.is_noiseless() ==> lwe_decryption(lwe_secret_key@, final(output)@)
            == encoded.0,
{
    let (mask, body) = output.get_mut_mask_and_body();
    fill_lwe_mask_and_body_for_encryption(
        lwe_secret_key.as_slice(),
        mask,
        body,
        encoded,
        noise_parameters,
        generator,
    );
    proof {
        lemma_lwe_encryption_of_draws(
            output@,
            lwe_secret_key@,
            encoded.0,
            noise_parameters,
            generator.uniform_since(old(generator)),
            generator.noise_since(old(generator)),
        );
        lemma_lwe_decryption_of_encryption(
            lwe_secret_key@,
            generator.uniform_since(old(generator)),
            effective_noise(noise_parameters, generator.noise_since(old(generator))[0]),
            encoded.0,
        );
        if noise_parameters.is_noiseless() {
            lemma_noiseless_lwe_encryption_decrypts(
                output@,
                lwe_secret_key@,
                encoded.0,
                noise_parameters,
            );
        }
    }
}

/// Makes a ciphertext of the size that the key asks for and encrypts
/// `encoded` into it.
pub fn allocate_and_encrypt_new_lwe_ciphertext<Scalar, Gen>(
    lwe_secret_key: &LweSecretKey<Scalar>,
    encoded: Plaintext<Scalar>,
    noise_parameters: Variance,
    generator: &mut RecordedGenerator<Scalar, Gen>,
) -> (new_ct: LweCiphertext<Scalar>) where
    Scalar: UnsignedTorus,
    Gen: EncryptionRandomGenerator<Scalar>,

    requires
        lwe_secret_key@.len() < usize::MAX,
    ensures
        new_ct.wf(),
        final(generator).continues(old(generator)),
        is_lwe_encryption_of_draws(
            new_ct@,
            lwe_secret_key@,
            encoded.0,
            noise_parameters,
            final(generator).uniform_since(old(generator)),
            final(generator).noise_since(old(generator)),
        ),
        lwe_mask(new_ct@) == final(generator).uniform_since(old(generator)),
        lwe_decryption(lwe_secret_key@, new_ct@) == Scalar::reduce(
            encoded.0.value() + effective_noise(
                noise_parameters,
                final(generator).noise_since(old(generator))[0],
            ).value(),
        ),
        is_lwe_encryption(new_ct@, lwe_secret_key@, encoded.0, noise_parameters),
        noise_parameters.is_noiseless() ==> lwe_decryption(lwe_secret_key@, new_ct@) == encoded.0,
{
    let mut new_ct = LweCiphertext::new(
        Scalar::zero(),
        lwe_secret_key.lwe_dimension().to_lwe_size(),
    );
    encrypt_lwe_ciphertext(lwe_secret_key, &mut new_ct, encoded, noise_parameters, generator);
    new_ct
}

/// Overwrites `output` with the trivial encryption of `encoded`: a mask of
/// zeros and `encoded` as the body. No key, no randomness and no noise take
/// part, and nothing is hidden: this is for public constants only.
pub fn trivially_encrypt_lwe_ciphertext<Scalar: UnsignedTorus>(
    output: &mut LweCiphertext<Scalar>,
    encoded: Plaintext<Scalar>,
)
    requires
        old(output).wf(),
    ensures
        final(output).wf(),
        final(output)@ == lwe_trivial_encryption(old(output)@.len(), encoded.0),
        forall|key: Seq<Scalar>| #[trigger] lwe_decryption(key, final(output)@) == encoded.0,
{
    let zero = Scalar::zero();
    let (mask, body) = output.get_mut_mask_and_body();
    let n = mask.len();
    let mut i: usize = 0;
    while i < n
        invariant
            i <= n,
            n == mask@.len(),
            forall|j: int| 0 <= j < i ==> mask@[j] == zero,
        decreases n - i,
    {
        mask[i] = zero;
        i += 1;
    }
    body[0] = encoded.0;
    proof {
        assert(mask@ + body@ =~= lwe_trivial_encryption(old(output)@.len(), encoded.0));
        assert forall|key: Seq<Scalar>| #[trigger]
            lwe_decryption(key, mask@ + body@) == encoded.0 by {
            lemma_lwe_trivial_round_trip(key, old(output)@.len(), encoded.0);
        }
    }
}

/// Makes a ciphertext of the given size that is the trivial encryption of
/// `encoded`.
pub fn allocate_and_trivially_encrypt_new_lwe_ciphertext<Scalar: UnsignedTorus>(
    lwe_size: LweSize,
    encoded: Plaintext<Scalar>,
) -> (new_ct: LweCiphertext<Scalar>)
    requires
        lwe_size.0 >= 1,
    ensures
        new_ct.wf(),
        new_ct@ == lwe_trivial_encryption(lwe_size.0 as nat, encoded.0),
        forall|key: Seq<Scalar>| #[trigger] lwe_decryption(key, new_ct@) == encoded.0,
{
    let mut new_ct = LweCiphertext::new(Scalar::zero(), lwe_size);
    let (_, body) = new_ct.get_mut_mask_and_body();
    body[0] = encoded.0;
    proof {
        assert(new_ct@ =~= lwe_trivial_encryption(lwe_size.0 as nat, encoded.0));
        assert forall|key: Seq<Scalar>| #[trigger] lwe_decryption(key, new_ct@) == encoded.0 by {
            lemma_lwe_trivial_round_trip(key, lwe_size.0 as nat, encoded.0);
        }
    }
    new_ct
}

/// Decrypts `lwe_ciphertext` under the key: the body less the inner product
/// of the mask with the key. The result still carries the noise; rounding it
/// away is the caller's business.
pub fn decrypt_lwe_ciphertext<Scalar: UnsignedTorus>(
    lwe_secret_key: &LweSecretKey<Scalar>,
    lwe_ciphertext: &LweCiphertext<Scalar>,
) -> (decrypted: Plaintext<Scalar>)
    requires
        lwe_ciphertext@.len() == lwe_secret_key@.len() + 1,
    ensures
        decrypted.0 == lwe_decryption(lwe_secret_key@, lwe_ciphertext@),
{
    let (mask, body) = lwe_ciphertext.get_mask_and_body();
    let multisum = wrapping_dot_product(mask, lwe_secret_key.as_slice());
    proof {
        lemma_reduce_sub_right::<Scalar>(
            body.value(),
            dot_product(mask@, lwe_secret_key@),
        );
    }
    Plaintext(body.wrapping_sub(multisum))
}

/// Why a list encryption did no work: the input does not hold as many
/// plaintexts as the output holds ciphertexts. Both numbers are reported.
#[derive(Clone, Copy, Debug, PartialEq, Eq, Structural)]
pub struct CountMismatch {
    pub plaintext_count: PlaintextCount,
    pub ciphertext_count: CiphertextCount,
}

/// Encrypts each plaintext of `encoded` under the key into the ciphertext
/// of `output` at the same index, in the order of the lists.
///
/// The two lists must be of the same length. This is looked at before
/// anything else is done: where they differ, nothing is drawn and no
/// element of `output` is written.
///
/// Every ciphertext gets a mask and a noise of its own, drawn one
/// ciphertext after the other: nothing drawn is used twice. Under a zero
/// variance the list decrypts to exactly `encoded`.
pub fn encrypt_lwe_ciphertext_list<Scalar, Gen>(
    lwe_secret_key: &LweSecretKey<Scalar>,
    output: &mut LweCiphertextList<Scalar>,
    encoded: &PlaintextList<Scalar>,
    noise_parameters: Variance,
    generator: &mut RecordedGenerator<Scalar, Gen>,
) -> (r: Result<(), CountMismatch>) where
    Scalar: UnsignedTorus,
    Gen: EncryptionRandomGenerator<Scalar>,

    requires
        old(output).wf(),
        old(output).size() == lwe_secret_key@.len() + 1,
    ensures
        final(output).wf(),
        final(output).size() == old(output).size(),
        final(output).count() == old(output).count(),
        r is Ok <==> encoded@.len() == old(output).count(),
        r matches Err(mismatch) ==> {
            &&& mismatch.plaintext_count.0 == encoded@.len()
            &&& mismatch.ciphertext_count.0 == old(output).count()
            &&& final(output).elements() == old(output).elements()
            &&& *final(generator) == *old(generator)
        },
        r is Ok ==> {
            &&& final(generator).continues(old(generator))
            &&& is_lwe_list_encryption_of_draws(
                final(output)@,
                lwe_secret_key@,
                encoded@,
                noise_parameters,
                final(generator).uniform_since(old(generator)),
                final(generator).noise_since(old(generator)),
            )
            &&& is_lwe_list_encryption(final(output)@, lwe_secret_key@, encoded@, noise_parameters)
            &&& noise_parameters.is_noiseless() ==> lwe_list_decryption(
                lwe_secret_key@,
                final(output)@,
            ) == encoded@
        },
{
    let plaintext_count = encoded.plaintext_count();
    let ciphertext_count = output.ciphertext_count();
    if plaintext_count.0 != ciphertext_count.0 {
        return Err(CountMismatch { plaintext_count, ciphertext_count });
    }
    let count = plaintext_count.0;
    let ghost dimension = lwe_secret_key@.len();
    let mut i: usize = 0;
    proof {
        lemma_continues_itself(generator);
    }
    while i < count
        invariant
            i <= count,
            count == encoded@.len(),
            dimension == lwe_secret_key@.len(),
            output.wf(),
            output.size() == dimension + 1,
            output.size() == old(output).size(),
            output.count() == count,
            generator.continues(old(generator)),
            generator.uniform_since(old(generator)).len() == i * dimension,
            generator.noise_since(old(generator)).len() == i,
            forall|j: int|
                0 <= j < i ==> #[trigger] output@[j] == lwe_encryption(
                    lwe_secret_key@,
                    chunk(generator.uniform_since(old(generator)), dimension, j),
                    effective_noise(
                        noise_parameters,
                        generator.noise_since(old(generator))[j],
                    ),
                    encoded@[j],
                ),
        decreases count - i,
    {
        let ghost before = *output;
        let ghost drawn = *generator;
        let plaintext = Plaintext(encoded.as_slice()[i]);
        let (mask, body) = output.get_mut_mask_and_body(i);
        fill_lwe_mask_and_body_for_encryption(
            lwe_secret_key.as_slice(),
            mask,
            body,
            plaintext,
            noise_parameters,
            generator,
        );
        proof {
            let uniform_before = drawn.uniform_since(old(generator));
            let noise_before = drawn.noise_since(old(generator));
            let uniform = generator.uniform_since(old(generator));
            let noise = generator.noise_since(old(generator));
            lemma_list_with_ciphertext(before, *output, i as int, mask@ + body@);
            lemma_continues_twice(old(generator), &drawn, generator);
            assert((i + 1) * dimension == i * dimension + dimension) by (nonlinear_arith);
            assert forall|j: int| 0 <= j < i + 1 implies #[trigger] output@[j] == lwe_encryption(
                lwe_secret_key@,
                chunk(uniform, dimension, j),
                effective_noise(noise_parameters, noise[j]),
                encoded@[j],
            ) by {
                lemma_chunk_of_grown(
                    uniform_before,
                    generator.uniform_since(&drawn),
                    dimension,
                    i as int,
                    j,
                );
                if j < i {
                    assert(output@[j] == before@[j]);
                    assert(noise[j] == noise_before[j]);
                } else {
                    assert(noise[j] == generator.noise_since(&drawn)[0]);
                }
            }
        }
        i += 1;
    }
    proof {
        lemma_lwe_list_encryption_of_draws(
            output@,
            lwe_secret_key@,
            encoded@,
            noise_parameters,
            generator.uniform_since(old(generator)),
            generator.noise_since(old(generator)),
        );
        if noise_parameters.is_noiseless() {
            lemma_noiseless_lwe_list_encryption_decrypts(
                output@,
                lwe_secret_key@,
                encoded@,
                noise_parameters,
            );
        }
    }
    Ok(())
}

} // verus!
