//! Encryption and decryption of GLWE ciphertexts.
//!
//! The body polynomial of a ciphertext is the sum of a noise polynomial, the
//! products of the mask polynomials with the polynomials of the secret key,
//! and the encoded messages, one to a coefficient. The products are taken
//! modulo `X^N + 1`. Every coefficient of the body gets a noise of its own.

use crate::dispersion::Variance;
use crate::glwe::{glwe_body, glwe_mask, GlweCiphertext, GlweSecretKey};
use crate::plaintext::PlaintextList;
use crate::random::{
    effective_noise, effective_noises, fill_slice_with_random_mask, fill_slice_with_random_noise,
    lemma_continues_twice, possible_noise, possible_noises, EncryptionRandomGenerator,
    RecordedGenerator,
};
use crate::slice_algorithms::{
    multisum_coefficient, polynomial_wrapping_add_multisum_assign,
    polynomial_wrapping_sub_multisum_assign, slice_wrapping_add_assign,
};
use crate::torus::{
    lemma_reduce_add_left, lemma_reduce_add_right, lemma_reduce_of_value, lemma_reduce_sub_left,
    UnsignedTorus,
};
use vstd::prelude::*;

verus! {

/// The plaintexts of a polynomial that carries nothing: `count` zeros.
pub open spec fn zero_plaintexts<S: UnsignedTorus>(count: nat) -> Seq<S> {
    Seq::new(count, |k: int| S::reduce(0))
}

/// The body of the ciphertext that carries `encoded` under `key` with the
/// given mask and noise: coefficient `k` is
/// `noise[k] + (mask * key)[k] + encoded[k]`, reduced once.
pub open spec fn glwe_body_for_encryption<S: UnsignedTorus>(
    key: Seq<S>,
    mask: Seq<S>,
    noise: Seq<S>,
    encoded: Seq<S>,
    polynomial_size: nat,
) -> Seq<S> {
    Seq::new(
        polynomial_size,
        |k: int|
            S::reduce(
                noise[k].value() + multisum_coefficient(mask, key, polynomial_size, k)
                    + encoded[k].value(),
            ),
    )
}

/// The ciphertext that carries `encoded` under `key` with the given mask and
/// noise: the mask, then the body.
pub open spec fn glwe_encryption<S: UnsignedTorus>(
    key: Seq<S>,
    mask: Seq<S>,
    noise: Seq<S>,
    encoded: Seq<S>,
    polynomial_size: nat,
) -> Seq<S> {
    mask + glwe_body_for_encryption(key, mask, noise, encoded, polynomial_size)
}

/// What `ciphertext` carries under `key`: its body less the products of its
/// mask with the key, coefficient by coefficient. The noise is still on it.
pub open spec fn glwe_decryption<S: UnsignedTorus>(
    key: Seq<S>,
    ciphertext: Seq<S>,
    polynomial_size: nat,
) -> Seq<S> {
    Seq::new(
        polynomial_size,
        |k: int|
            S::reduce(
                glwe_body(ciphertext, polynomial_size)[k].value() - multisum_coefficient(
                    glwe_mask(ciphertext, polynomial_size),
                    key,
                    polynomial_size,
                    k,
                ),
            ),
    )
}

/// Whether `ciphertext` is an encryption of `encoded` under `key` with some
/// mask and with noises that can be drawn under `noise_parameters`.
pub open spec fn is_glwe_encryption<S: UnsignedTorus>(
    ciphertext: Seq<S>,
    key: Seq<S>,
    encoded: Seq<S>,
    polynomial_size: nat,
    noise_parameters: Variance,
) -> bool {
    &&& encoded.len() == polynomial_size
    &&& ciphertext.len() == key.len() + polynomial_size
    &&& exists|noise: Seq<S>|
        noise.len() == polynomial_size && possible_noises(noise_parameters, noise) && ciphertext
            == #[trigger] glwe_encryption(
            key,
            glwe_mask(ciphertext, polynomial_size),
            noise,
            encoded,
            polynomial_size,
        )
}

/// Whether `ciphertext` is what encryption makes of `encoded` under `key`
/// from these draws: the uniform draws, as many as the key has elements, are
/// the mask in their order, and noise draw `k` gives the noise of
/// coefficient `k` of the body.
pub open spec fn is_glwe_encryption_of_draws<S: UnsignedTorus>(
    ciphertext: Seq<S>,
    key: Seq<S>,
    encoded: Seq<S>,
    polynomial_size: nat,
    noise_parameters: Variance,
    uniform: Seq<S>,
    noise: Seq<S>,
) -> bool {
    &&& encoded.len() == polynomial_size
    &&& uniform.len() == key.len()
    &&& noise.len() == polynomial_size
    &&& ciphertext == glwe_encryption(
        key,
        uniform,
        effective_noises(noise_parameters, noise),
        encoded,
        polynomial_size,
    )
}

/// What encryption makes from its draws is an encryption, and its mask is
/// the uniform draws.
pub proof fn lemma_glwe_encryption_of_draws<S: UnsignedTorus>(
    ciphertext: Seq<S>,
    key: Seq<S>,
    encoded: Seq<S>,
    polynomial_size: nat,
    noise_parameters: Variance,
    uniform: Seq<S>,
    noise: Seq<S>,
)
    requires
        is_glwe_encryption_of_draws(
            ciphertext,
            key,
            encoded,
            polynomial_size,
            noise_parameters,
            uniform,
            noise,
        ),
    ensures
        glwe_mask(ciphertext, polynomial_size) == uniform,
        is_glwe_encryption(ciphertext, key, encoded, polynomial_size, noise_parameters),
{
    let noises = effective_noises(noise_parameters, noise);
    assert(glwe_mask(ciphertext, polynomial_size) =~= uniform);
    assert forall|k: int| 0 <= k < noises.len() implies possible_noise(
        noise_parameters,
        #[trigger] noises[k],
    ) by {
        assert(noises[k] == effective_noise(noise_parameters, noise[k]));
    }
    assert(ciphertext == glwe_encryption(key, uniform, noises, encoded, polynomial_size));
}

/// Decryption gives back each message with the noise of its coefficient
/// added to it, whatever the mask was.
pub proof fn lemma_glwe_decryption_of_encryption<S: UnsignedTorus>(
    key: Seq<S>,
    mask: Seq<S>,
    noise: Seq<S>,
    encoded: Seq<S>,
    polynomial_size: nat,
)
    ensures
        glwe_decryption(
            key,
            glwe_encryption(key, mask, noise, encoded, polynomial_size),
            polynomial_size,
        ) == Seq::new(polynomial_size, |k: int| S::reduce(encoded[k].value() + noise[k].value())),
{
    let ciphertext = glwe_encryption(key, mask, noise, encoded, polynomial_size);
    let decrypted = glwe_decryption(key, ciphertext, polynomial_size);
    let expected = Seq::new(
        polynomial_size,
        |k: int| S::reduce(encoded[k].value() + noise[k].value()),
    );
    assert(glwe_mask(ciphertext, polynomial_size) =~= mask);
    assert(glwe_body(ciphertext, polynomial_size) =~= glwe_body_for_encryption(
        key,
        mask,
        noise,
        encoded,
        polynomial_size,
    ));
    assert forall|k: int| 0 <= k < polynomial_size implies decrypted[k] == expected[k] by {
        let multisum = multisum_coefficient(mask, key, polynomial_size, k);
        lemma_reduce_sub_left::<S>(noise[k].value() + multisum + encoded[k].value(), multisum);
    }
    assert(decrypted =~= expected);
}

/// With no noise, decryption gives back exactly the messages that were
/// encrypted.
pub proof fn lemma_glwe_noiseless_round_trip<S: UnsignedTorus>(
    key: Seq<S>,
    mask: Seq<S>,
    encoded: Seq<S>,
    polynomial_size: nat,
)
    requires
        encoded.len() == polynomial_size,
    ensures
        glwe_decryption(
            key,
            glwe_encryption(key, mask, zero_plaintexts(polynomial_size), encoded, polynomial_size),
            polynomial_size,
        ) == encoded,
{
    let noise = zero_plaintexts::<S>(polynomial_size);
    lemma_glwe_decryption_of_encryption(key, mask, noise, encoded, polynomial_size);
    let decrypted = glwe_decryption(
        key,
        glwe_encryption(key, mask, noise, encoded, polynomial_size),
        polynomial_size,
    );
    assert forall|k: int| 0 <= k < polynomial_size implies decrypted[k] == encoded[k] by {
        lemma_reduce_add_right::<S>(encoded[k].value(), 0);
        lemma_reduce_of_value(encoded[k]);
    }
    assert(decrypted =~= encoded);
}

/// A ciphertext that was made under a zero variance decrypts to exactly the
/// messages that were encrypted.
pub proof fn lemma_noiseless_glwe_encryption_decrypts<S: UnsignedTorus>(
    ciphertext: Seq<S>,
    key: Seq<S>,
    encoded: Seq<S>,
    polynomial_size: nat,
    noise_parameters: Variance,
)
    requires
        is_glwe_encryption(ciphertext, key, encoded, polynomial_size, noise_parameters),
        noise_parameters.is_noiseless(),
    ensures
        glwe_decryption(key, ciphertext, polynomial_size) == encoded,
{
    let mask = glwe_mask(ciphertext, polynomial_size);
    let noise = choose|noise: Seq<S>|
        noise.len() == polynomial_size && possible_noises(noise_parameters, noise) && ciphertext
            == #[trigger] glwe_encryption(key, mask, noise, encoded, polynomial_size);
    assert forall|k: int| 0 <= k < polynomial_size implies noise[k] == S::reduce(0) by {
        assert(possible_noise(noise_parameters, noise[k]));
    }
    assert(noise =~= zero_plaintexts::<S>(polynomial_size));
    lemma_glwe_noiseless_round_trip(key, mask, encoded, polynomial_size);
}

/// An encryption of zeros decrypts to nothing but its noise; with no noise,
/// to zeros.
pub proof fn lemma_noiseless_glwe_zero_encryption_decrypts<S: UnsignedTorus>(
    ciphertext: Seq<S>,
    key: Seq<S>,
    polynomial_size: nat,
    noise_parameters: Variance,
)
    requires
        is_glwe_encryption(
            ciphertext,
            key,
            zero_plaintexts::<S>(polynomial_size),
            polynomial_size,
            noise_parameters,
        ),
        noise_parameters.is_noiseless(),
    ensures
        glwe_decryption(key, ciphertext, polynomial_size) == zero_plaintexts::<S>(polynomial_size),
{
    lemma_noiseless_glwe_encryption_decrypts(
        ciphertext,
        key,
        zero_plaintexts::<S>(polynomial_size),
        polynomial_size,
        noise_parameters,
    );
}

/// Adding messages to the body of an encryption of zeros gives the body of
/// the encryption of the messages with the same mask and the same noise.
pub proof fn lemma_add_plaintexts_to_zero_body<S: UnsignedTorus>(
    key: Seq<S>,
    mask: Seq<S>,
    noise: Seq<S>,
    sum: Seq<S>,
    encoded: Seq<S>,
    polynomial_size: nat,
)
    requires
        sum.len() == polynomial_size,
        forall|k: int|
            0 <= k < polynomial_size ==> sum[k] == S::reduce(
                glwe_body_for_encryption(
                    key,
                    mask,
                    noise,
                    zero_plaintexts::<S>(polynomial_size),
                    polynomial_size,
                )[k].value() + encoded[k].value(),
            ),
    ensures
        sum == glwe_body_for_encryption(key, mask, noise, encoded, polynomial_size),
{
    let zeros = zero_plaintexts::<S>(polynomial_size);
    let full_body = glwe_body_for_encryption(key, mask, noise, encoded, polynomial_size);
    assert forall|k: int| 0 <= k < polynomial_size implies sum[k] == full_body[k] by {
        let multisum = multisum_coefficient(mask, key, polynomial_size, k);
        S::lemma_reduce_value(0);
        S::lemma_modulus_positive();
        assert(zeros[k].value() == 0);
        lemma_reduce_add_left::<S>(noise[k].value() + multisum, encoded[k].value());
    }
    assert(sum =~= full_body);
}

/// Fills a mask and a body so that together they are an encryption of zeros
/// under the key: the mask with fresh uniform elements, each coefficient of
/// the body with fresh noise and its coefficient of the products of the new
/// mask with the key.
pub fn fill_glwe_mask_and_body_for_zero_encryption<Scalar, Gen>(
    glwe_secret_key: &[Scalar],
    output_mask: &mut [Scalar],
    output_body: &mut [Scalar],
    polynomial_size: usize,
    noise_parameters: Variance,
    generator: &mut RecordedGenerator<Scalar, Gen>,
) where Scalar: UnsignedTorus, Gen: EncryptionRandomGenerator<Scalar>
    requires
        polynomial_size >= 1,
        glwe_secret_key@.len() % (polynomial_size as nat) == 0,
        old(output_mask)@.len() == glwe_secret_key@.len(),
        old(output_body)@.len() == polynomial_size,
    ensures
        final(output_mask)@.len() == old(output_mask)@.len(),
        final(output_body)@.len() == polynomial_size,
        final(generator).continues(old(generator)),
        is_glwe_encryption_of_draws(
            final(output_mask)@ + final(output_body)@,
            glwe_secret_key@,
            zero_plaintexts::<Scalar>(polynomial_size as nat),
            polynomial_size as nat,
            noise_parameters,
            final(generator).uniform_since(old(generator)),
            final(generator).noise_since(old(generator)),
        ),
        is_glwe_encryption(
            final(output_mask)@ + final(output_body)@,
            glwe_secret_key@,
            zero_plaintexts::<Scalar>(polynomial_size as nat),
            polynomial_size as nat,
            noise_parameters,
        ),
{
    fill_slice_with_random_mask(generator, output_mask);
    let ghost masked = *generator;
    fill_slice_with_random_noise(generator, output_body, noise_parameters);
    let ghost noise = output_body@;
    polynomial_wrapping_add_multisum_assign(output_body, output_mask, glwe_secret_key);
    proof {
        let zeros = zero_plaintexts::<Scalar>(polynomial_size as nat);
        let ciphertext = output_mask@ + output_body@;
        lemma_continues_twice(old(generator), &masked, generator);
        assert(generator.uniform_since(old(generator)) =~= output_mask@);
        assert(generator.noise_since(old(generator)) =~= generator.noise_since(&masked));
        let expected = glwe_body_for_encryption(
            glwe_secret_key@,
            output_mask@,
            noise,
            zeros,
            polynomial_size as nat,
        );
        assert(glwe_mask(ciphertext, polynomial_size as nat) =~= output_mask@);
        assert forall|k: int| 0 <= k < polynomial_size implies output_body@[k] == expected[k] by {
            Scalar::lemma_reduce_value(0);
            Scalar::lemma_modulus_positive();
            assert(zeros[k].value() == 0);
        }
        assert(output_body@ =~= expected);
        assert(ciphertext == glwe_encryption(
            glwe_secret_key@,
            output_mask@,
            noise,
            zeros,
            polynomial_size as nat,
        ));
        lemma_glwe_encryption_of_draws(
            ciphertext,
            glwe_secret_key@,
            zeros,
            polynomial_size as nat,
            noise_parameters,
            generator.uniform_since(old(generator)),
            generator.noise_since(old(generator)),
        );
    }
}

/// Encrypts zeros under the key into `output`, which is overwritten.
///
/// The mask is drawn afresh, and each coefficient of the body gets a noise
/// of its own, drawn under `noise_parameters`.
pub fn encrypt_zero_glwe_ciphertext<Scalar, Gen>(
    glwe_secret_key: &GlweSecretKey<Scalar>,
    output: &mut GlweCiphertext<Scalar>,
    noise_parameters: Variance,
    generator: &mut RecordedGenerator<Scalar, Gen>,
) where Scalar: UnsignedTorus, Gen: EncryptionRandomGenerator<Scalar>
    requires
        glwe_secret_key.wf(),
        old(output).wf(),
        old(output).poly_size() == glwe_secret_key.poly_size(),
        old(output).elements().len() == glwe_secret_key.elements().len()
            + glwe_secret_key.poly_size(),
    ensures
        final(output).wf(),
        final(output).poly_size() == old(output).poly_size(),
        final(generator).continues(old(generator)),
        is_glwe_encryption_of_draws(
            final(output).elements(),
            glwe_secret_key.elements(),
            zero_plaintexts::<Scalar>(glwe_secret_key.poly_size()),
            glwe_secret_key.poly_size(),
            noise_parameters,
            final(generator).uniform_since(old(generator)),
            final(generator).noise_since(old(generator)),
        ),
        final(generator).uniform_since(old(generator)) == glwe_mask(
            final(output).elements(),
            glwe_secret_key.poly_size(),
        ),
        is_glwe_encryption(
            final(output).elements(),
            glwe_secret_key.elements(),
            zero_plaintexts::<Scalar>(glwe_secret_key.poly_size()),
            glwe_secret_key.poly_size(),
            noise_parameters,
        ),
        noise_parameters.is_noiseless() ==> glwe_decryption(
            glwe_secret_key.elements(),
            final(output).elements(),
            glwe_secret_key.poly_size(),
        ) == zero_plaintexts::<Scalar>(glwe_secret_key.poly_size()),
{
    let polynomial_size = glwe_secret_key.polynomial_size().0;
    let (mask, body) = output.get_mut_mask_and_body();
    fill_glwe_mask_and_body_for_zero_encryption(
        glwe_secret_key.as_slice(),
        mask,
        body,
        polynomial_size,
        noise_parameters,
        generator,
    );
    proof {
        if noise_parameters.is_noiseless() {
            lemma_noiseless_glwe_zero_encryption_decrypts(
                output.elements(),
                glwe_secret_key.elements(),
                polynomial_size as nat,
                noise_parameters,
            );
        }
    }
}

/// Encrypts the plaintexts of `encoded`, one to a coefficient, under the key
/// into `output`, which is overwritten.
///
/// The mask is drawn afresh, and each coefficient of the body gets a noise
/// of its own, drawn under `noise_parameters`. Under a zero variance the
/// result decrypts to exactly `encoded`.
pub fn encrypt_glwe_ciphertext<Scalar, Gen>(
    glwe_secret_key: &GlweSecretKey<Scalar>,
    output: &mut GlweCiphertext<Scalar>,
    encoded: &PlaintextList<Scalar>,
    noise_parameters: Variance,
    generator: &mut RecordedGenerator<Scalar, Gen>,
) where Scalar: UnsignedTorus, Gen: EncryptionRandomGenerator<Scalar>
    requires
        glwe_secret_key.wf(),
        old(output).wf(),
        old(output).poly_size() == glwe_secret_key.poly_size(),
        old(output).elements().len() == glwe_secret_key.elements().len()
            + glwe_secret_key.poly_size(),
        encoded@.len() == glwe_secret_key.poly_size(),
    ensures
        final(output).wf(),
        final(output).poly_size() == old(output).poly_size(),
        final(generator).continues(old(generator)),
        is_glwe_encryption_of_draws(
            final(output).elements(),
            glwe_secret_key.elements(),
            encoded@,
            glwe_secret_key.poly_size(),
            noise_parameters,
            final(generator).uniform_since(old(generator)),
            final(generator).noise_since(old(generator)),
        ),
        final(generator).uniform_since(old(generator)) == glwe_mask(
            final(output).elements(),
            glwe_secret_key.poly_size(),
        ),
        is_glwe_encryption(
            final(output).elements(),
            glwe_secret_key.elements(),
            encoded@,
            glwe_secret_key.poly_size(),
            noise_parameters,
        ),
        noise_parameters.is_noiseless() ==> glwe_decryption(
            glwe_secret_key.elements(),
            final(output).elements(),
            glwe_secret_key.poly_size(),
        ) == encoded@,
{
    let polynomial_size = glwe_secret_key.polynomial_size().0;
    let (mask, body) = output.get_mut_mask_and_body();
    fill_glwe_mask_and_body_for_zero_encryption(
        glwe_secret_key.as_slice(),
        mask,
        body,
        polynomial_size,
        noise_parameters,
        generator,
    );
    let ghost zero_body = body@;
    slice_wrapping_add_assign(body, encoded.as_slice());
    proof {
        let noise = effective_noises(noise_parameters, generator.noise_since(old(generator)));
        let zeros = zero_plaintexts::<Scalar>(polynomial_size as nat);
        let zero_ciphertext = mask@ + zero_body;
        lemma_glwe_encryption_of_draws(
            zero_ciphertext,
            glwe_secret_key.elements(),
            zeros,
            polynomial_size as nat,
            noise_parameters,
            generator.uniform_since(old(generator)),
            generator.noise_since(old(generator)),
        );
        assert(glwe_mask(zero_ciphertext, polynomial_size as nat) =~= mask@);
        assert(zero_body =~= zero_ciphertext.subrange(
            mask@.len() as int,
            zero_ciphertext.len() as int,
        ));
        assert(glwe_body_for_encryption(
            glwe_secret_key.elements(),
            mask@,
            noise,
            zeros,
            polynomial_size as nat,
        ) =~= zero_ciphertext.subrange(mask@.len() as int, zero_ciphertext.len() as int));
        lemma_add_plaintexts_to_zero_body(
            glwe_secret_key.elements(),
            mask@,
            noise,
            body@,
            encoded@,
            polynomial_size as nat,
        );
        lemma_glwe_encryption_of_draws(
            mask@ + body@,
            glwe_secret_key.elements(),
            encoded@,
            polynomial_size as nat,
            noise_parameters,
            generator.uniform_since(old(generator)),
            generator.noise_since(old(generator)),
        );
        if noise_parameters.is_noiseless() {
            lemma_noiseless_glwe_encryption_decrypts(
                output.elements(),
                glwe_secret_key.elements(),
                encoded@,
                polynomial_size as nat,
                noise_parameters,
            );
        }
    }
}

/// Decrypts `glwe_ciphertext` under the key into `output`, which is
/// overwritten: each coefficient of the body less its coefficient of the
/// products of the mask with the key. The result still carries the noise.
pub fn decrypt_glwe_ciphertext<Scalar: UnsignedTorus>(
    glwe_secret_key: &GlweSecretKey<Scalar>,
    glwe_ciphertext: &GlweCiphertext<Scalar>,
    output: &mut PlaintextList<Scalar>,
)
    requires
        glwe_secret_key.wf(),
        glwe_ciphertext.wf(),
        glwe_ciphertext.poly_size() == glwe_secret_key.poly_size(),
        glwe_ciphertext.elements().len() == glwe_secret_key.elements().len()
            + glwe_secret_key.poly_size(),
        old(output)@.len() == glwe_secret_key.poly_size(),
    ensures
        final(output)@ == glwe_decryption(
            glwe_secret_key.elements(),
            glwe_ciphertext.elements(),
            glwe_secret_key.poly_size(),
        ),
{
    let (mask, body) = glwe_ciphertext.get_mask_and_body();
    let decrypted = output.as_mut_slice();
    let n = body.len();
    let mut k: usize = 0;
    while k < n
        invariant
            n == body@.len(),
            n == decrypted@.len(),
            k <= n,
            forall|j: int| 0 <= j < k ==> decrypted@[j] == body@[j],
        decreases n - k,
    {
        decrypted[k] = body[k];
        k += 1;
    }
    polynomial_wrapping_sub_multisum_assign(decrypted, mask, glwe_secret_key.as_slice());
    proof {
        assert(decrypted@ =~= glwe_decryption(
            glwe_secret_key.elements(),
            glwe_ciphertext.elements(),
            glwe_secret_key.poly_size(),
        ));
    }
}

} // verus!
