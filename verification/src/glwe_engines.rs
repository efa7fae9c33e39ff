//! The checked and unchecked entry points of the GLWE operations.

use crate::dispersion::Variance;
use crate::engines::{AbstractEngine, DefaultEngine, DefaultError, ErrorKind};
use crate::glwe::{lemma_one_more_polynomial, GlweCiphertext, GlweSecretKey};
use crate::glwe_encryption::{
    decrypt_glwe_ciphertext, encrypt_glwe_ciphertext, encrypt_zero_glwe_ciphertext,
    glwe_decryption, is_glwe_encryption, is_glwe_encryption_of_draws, zero_plaintexts,
};
use crate::parameters::GlweSize;
use crate::plaintext::PlaintextList;
use crate::random::EncryptionRandomGenerator;
use crate::torus::UnsignedTorus;
use vstd::arithmetic::div_mod::lemma_fundamental_div_mod;
use vstd::prelude::*;

verus! {

/// Whether a ciphertext with one polynomial more than `key` can be held in
/// a buffer.
pub open spec fn ciphertext_fits<Scalar: UnsignedTorus>(key: GlweSecretKey<Scalar>) -> bool {
    key.elements().len() + key.poly_size() <= usize::MAX
}

/// Makes the ciphertext of zeros that a key asks for: one polynomial more
/// than the key has, of the same size.
fn new_glwe_ciphertext_for<Scalar: UnsignedTorus>(key: &GlweSecretKey<Scalar>) -> (ciphertext:
    GlweCiphertext<Scalar>)
    requires
        key.wf(),
        ciphertext_fits(*key),
    ensures
        ciphertext.wf(),
        ciphertext.poly_size() == key.poly_size(),
        ciphertext.elements() == Seq::new(
            key.elements().len() + key.poly_size(),
            |i: int| Scalar::reduce(0),
        ),
{
    let polynomial_size = key.polynomial_size();
    let dimension = key.glwe_dimension();
    proof {
        let n = polynomial_size.0 as int;
        let d = dimension.0 as int;
        lemma_fundamental_div_mod(key.elements().len() as int, n);
        assert(d <= n * d) by (nonlinear_arith)
            requires
                n >= 1,
                d >= 0,
        ;
        assert(n * (d + 1) == n * d + n) by (nonlinear_arith);
    }
    GlweCiphertext::new(Scalar::zero(), polynomial_size, GlweSize(dimension.0 + 1))
}

/// Makes the ciphertext of zeros that a key asks for, where a buffer can
/// hold it, and says so where none can.
pub fn allocate_glwe_ciphertext_for<Scalar: UnsignedTorus>(key: &GlweSecretKey<Scalar>) -> (r:
    Result<GlweCiphertext<Scalar>, DefaultError>)
    requires
        key.wf(),
    ensures
        match r {
            Ok(ciphertext) => {
                &&& ciphertext_fits(*key)
                &&& ciphertext.wf()
                &&& ciphertext.poly_size() == key.poly_size()
                &&& ciphertext.elements() == Seq::new(
                    key.elements().len() + key.poly_size(),
                    |i: int| Scalar::reduce(0),
                )
            },
            Err(failure) => failure == DefaultError::AllocationTooLarge && !ciphertext_fits(*key),
        },
{
    if key.as_slice().len() > usize::MAX - key.polynomial_size().0 {
        return Err(DefaultError::AllocationTooLarge);
    }
    Ok(new_glwe_ciphertext_for(key))
}

/// Why a checked GLWE encryption did no work.
#[derive(Debug)]
pub enum GlweCiphertextEncryptionError<EngineError> {
    /// The input does not hold one plaintext for each coefficient of a
    /// polynomial of the key.
    PlaintextCountMismatch,
    Engine(EngineError),
}

impl<EngineError> GlweCiphertextEncryptionError<EngineError> {
    /// What the validation of an encryption answers on a key with
    /// polynomials of `polynomial_size` coefficients and an input of
    /// `plaintext_count` plaintexts.
    pub open spec fn generic_checks(polynomial_size: nat, plaintext_count: nat) -> Result<
        (),
        Self,
    > {
        if plaintext_count != polynomial_size {
            Err(Self::PlaintextCountMismatch)
        } else {
            Ok(())
        }
    }

    /// Validates the arguments of an encryption.
    pub fn perform_generic_checks<Scalar: UnsignedTorus>(
        key: &GlweSecretKey<Scalar>,
        input: &PlaintextList<Scalar>,
    ) -> (r: Result<(), Self>)
        ensures
            r == Self::generic_checks(key.poly_size(), input@.len()),
    {
        if key.polynomial_size().0 != input.plaintext_count().0 {
            return Err(Self::PlaintextCountMismatch);
        }
        Ok(())
    }

    /// The kind of this error.
    pub fn kind(&self) -> (kind: ErrorKind)
        ensures
            kind == match self {
                Self::PlaintextCountMismatch => ErrorKind::ShapeMismatch,
                Self::Engine(_) => ErrorKind::UnderlyingEngineFailure,
            },
    {
        match self {
            Self::PlaintextCountMismatch => ErrorKind::ShapeMismatch,
            Self::Engine(_) => ErrorKind::UnderlyingEngineFailure,
        }
    }
}

/// Engines that encrypt into a new GLWE ciphertext.
pub trait GlweCiphertextEncryptionEngine<Scalar: UnsignedTorus>: AbstractEngine {
    /// Encrypts the plaintexts of `input`, one to a coefficient, under
    /// `key`, if the two fit each other.
    fn encrypt_glwe_ciphertext(
        &mut self,
        key: &GlweSecretKey<Scalar>,
        input: &PlaintextList<Scalar>,
        noise: Variance,
    ) -> (r: Result<GlweCiphertext<Scalar>, GlweCiphertextEncryptionError<Self::EngineError>>)
        requires
            key.wf(),
        ensures
            match GlweCiphertextEncryptionError::<Self::EngineError>::generic_checks(
                key.poly_size(),
                input@.len(),
            ) {
                Err(mismatch) => r == Err::<GlweCiphertext<Scalar>, _>(mismatch),
                Ok(_) => match r {
                    Ok(ciphertext) => {
                        &&& ciphertext.wf()
                        &&& ciphertext.poly_size() == key.poly_size()
                        &&& is_glwe_encryption(
                            ciphertext.elements(),
                            key.elements(),
                            input@,
                            key.poly_size(),
                            noise,
                        )
                    },
                    Err(failure) => failure is Engine,
                },
            },
    ;

    /// Encrypts the plaintexts of `input`, one to a coefficient, under
    /// `key`; the two fit each other, and the ciphertext can be held.
    fn encrypt_glwe_ciphertext_unchecked(
        &mut self,
        key: &GlweSecretKey<Scalar>,
        input: &PlaintextList<Scalar>,
        noise: Variance,
    ) -> (ciphertext: GlweCiphertext<Scalar>)
        requires
            key.wf(),
            ciphertext_fits(*key),
            input@.len() == key.poly_size(),
        ensures
            ciphertext.wf(),
            ciphertext.poly_size() == key.poly_size(),
            is_glwe_encryption(
                ciphertext.elements(),
                key.elements(),
                input@,
                key.poly_size(),
                noise,
            ),
            noise.is_noiseless() ==> glwe_decryption(
                key.elements(),
                ciphertext.elements(),
                key.poly_size(),
            ) == input@,
    ;
}

impl<Scalar, Gen> GlweCiphertextEncryptionEngine<Scalar> for DefaultEngine<Scalar, Gen> where
    Scalar: UnsignedTorus,
    Gen: EncryptionRandomGenerator<Scalar>,
 {
    fn encrypt_glwe_ciphertext(
        &mut self,
        key: &GlweSecretKey<Scalar>,
        input: &PlaintextList<Scalar>,
        noise: Variance,
    ) -> (r: Result<GlweCiphertext<Scalar>, GlweCiphertextEncryptionError<Self::EngineError>>)
        ensures
            r is Ok <==> input@.len() == key.poly_size() && ciphertext_fits(*key),
            input@.len() == key.poly_size() && !ciphertext_fits(*key) ==> r == Err::<
                GlweCiphertext<Scalar>,
                _,
            >(GlweCiphertextEncryptionError::Engine(DefaultError::AllocationTooLarge)),
            r matches Ok(ciphertext) ==> final(self).encryption_generator.continues(
                &old(self).encryption_generator,
            ) && is_glwe_encryption_of_draws(
                ciphertext.elements(),
                key.elements(),
                input@,
                key.poly_size(),
                noise,
                final(self).encryption_generator.uniform_since(&old(self).encryption_generator),
                final(self).encryption_generator.noise_since(&old(self).encryption_generator),
            ),
            r is Err ==> final(self).encryption_generator == old(self).encryption_generator,
    {
        match GlweCiphertextEncryptionError::perform_generic_checks(key, input) {
            Err(mismatch) => Err(mismatch),
            Ok(_) => match allocate_glwe_ciphertext_for(key) {
                Err(failure) => Err(GlweCiphertextEncryptionError::Engine(failure)),
                Ok(mut ciphertext) => {
                    encrypt_glwe_ciphertext(
                        key,
                        &mut ciphertext,
                        input,
                        noise,
                        &mut self.encryption_generator,
                    );
                    Ok(ciphertext)
                },
            },
        }
    }

    fn encrypt_glwe_ciphertext_unchecked(
        &mut self,
        key: &GlweSecretKey<Scalar>,
        input: &PlaintextList<Scalar>,
        noise: Variance,
    ) -> (ciphertext: GlweCiphertext<Scalar>)
        ensures
            final(self).encryption_generator.continues(&old(self).encryption_generator),
            is_glwe_encryption_of_draws(
                ciphertext.elements(),
                key.elements(),
                input@,
                key.poly_size(),
                noise,
                final(self).encryption_generator.uniform_since(&old(self).encryption_generator),
                final(self).encryption_generator.noise_since(&old(self).encryption_generator),
            ),
    {
        let mut ciphertext = new_glwe_ciphertext_for(key);
        encrypt_glwe_ciphertext(key, &mut ciphertext, input, noise, &mut self.encryption_generator);
        ciphertext
    }
}

/// Why a checked GLWE decryption did no work.
#[derive(Debug)]
pub enum GlweCiphertextDiscardingDecryptionError<EngineError> {
    /// The ciphertext does not have one polynomial more than the key.
    GlweDimensionMismatch,
    /// The polynomials of the key and of the ciphertext differ in size.
    PolynomialSizeMismatch,
    /// The output does not hold one plaintext for each coefficient of a
    /// polynomial of the ciphertext.
    PlaintextCountMismatch,
    Engine(EngineError),
}

impl<EngineError> GlweCiphertextDiscardingDecryptionError<EngineError> {
    /// What the validation of a decryption answers on a key, an output of
    /// `plaintext_count` plaintexts and a ciphertext. The dimension is
    /// looked at first, the polynomial size after it, the output last.
    pub open spec fn generic_checks<Scalar: UnsignedTorus>(
        key: GlweSecretKey<Scalar>,
        plaintext_count: nat,
        input: GlweCiphertext<Scalar>,
    ) -> Result<(), Self> {
        if key.dimension() + 1 != input.size() {
            Err(Self::GlweDimensionMismatch)
        } else if key.poly_size() != input.poly_size() {
            Err(Self::PolynomialSizeMismatch)
        } else if plaintext_count != input.poly_size() {
            Err(Self::PlaintextCountMismatch)
        } else {
            Ok(())
        }
    }

    /// Validates the arguments of a decryption.
    pub fn perform_generic_checks<Scalar: UnsignedTorus>(
        key: &GlweSecretKey<Scalar>,
        output: &PlaintextList<Scalar>,
        input: &GlweCiphertext<Scalar>,
    ) -> (r: Result<(), Self>)
        requires
            key.wf(),
            input.wf(),
        ensures
            r == Self::generic_checks(*key, output@.len(), *input),
    {
        if key.glwe_dimension().0 != input.glwe_dimension().0 {
            return Err(Self::GlweDimensionMismatch);
        }
        if key.polynomial_size().0 != input.polynomial_size().0 {
            return Err(Self::PolynomialSizeMismatch);
        }
        if output.plaintext_count().0 != input.polynomial_size().0 {
            return Err(Self::PlaintextCountMismatch);
        }
        Ok(())
    }

    /// The kind of this error.
    pub fn kind(&self) -> (kind: ErrorKind)
        ensures
            kind == match self {
                Self::Engine(_) => ErrorKind::UnderlyingEngineFailure,
                _ => ErrorKind::ShapeMismatch,
            },
    {
        match self {
            Self::Engine(_) => ErrorKind::UnderlyingEngineFailure,
            _ => ErrorKind::ShapeMismatch,
        }
    }
}

/// Engines that decrypt a GLWE ciphertext into a list of plaintexts that
/// the caller owns.
pub trait GlweCiphertextDiscardingDecryptionEngine<Scalar: UnsignedTorus>: AbstractEngine {
    /// Decrypts `input` under `key` into `output`, if the three fit each
    /// other; if they do not, `output` is left as it was.
    fn discard_decrypt_glwe_ciphertext(
        &mut self,
        key: &GlweSecretKey<Scalar>,
        output: &mut PlaintextList<Scalar>,
        input: &GlweCiphertext<Scalar>,
    ) -> (r: Result<(), GlweCiphertextDiscardingDecryptionError<Self::EngineError>>)
        requires
            key.wf(),
            input.wf(),
        ensures
            final(output)@.len() == old(output)@.len(),
            match GlweCiphertextDiscardingDecryptionError::<Self::EngineError>::generic_checks(
                *key,
                old(output)@.len(),
                *input,
            ) {
                Err(mismatch) => r == Err::<(), _>(mismatch) && final(output)@ == old(output)@,
                Ok(_) => match r {
                    Ok(_) => final(output)@ == glwe_decryption(
                        key.elements(),
                        input.elements(),
                        key.poly_size(),
                    ),
                    Err(failure) => failure is Engine,
                },
            },
    ;

    /// Decrypts `input` under `key` into `output`; the three fit each other.
    fn discard_decrypt_glwe_ciphertext_unchecked(
        &mut self,
        key: &GlweSecretKey<Scalar>,
        output: &mut PlaintextList<Scalar>,
        input: &GlweCiphertext<Scalar>,
    )
        requires
            key.wf(),
            input.wf(),
            input.poly_size() == key.poly_size(),
            input.size() == key.dimension() + 1,
            old(output)@.len() == key.poly_size(),
        ensures
            final(output)@ == glwe_decryption(key.elements(), input.elements(), key.poly_size()),
    ;
}

impl<Scalar: UnsignedTorus, Gen> GlweCiphertextDiscardingDecryptionEngine<
    Scalar,
> for DefaultEngine<Scalar, Gen> {
    fn discard_decrypt_glwe_ciphertext(
        &mut self,
        key: &GlweSecretKey<Scalar>,
        output: &mut PlaintextList<Scalar>,
        input: &GlweCiphertext<Scalar>,
    ) -> (r: Result<(), GlweCiphertextDiscardingDecryptionError<Self::EngineError>>)
        ensures
            r is Ok <==> GlweCiphertextDiscardingDecryptionError::<DefaultError>::generic_checks(
                *key,
                old(output)@.len(),
                *input,
            ) is Ok,
            final(self).encryption_generator == old(self).encryption_generator,
    {
        match GlweCiphertextDiscardingDecryptionError::perform_generic_checks(key, output, input) {
            Err(mismatch) => Err(mismatch),
            Ok(_) => {
                self.discard_decrypt_glwe_ciphertext_unchecked(key, output, input);
                Ok(())
            },
        }
    }

    fn discard_decrypt_glwe_ciphertext_unchecked(
        &mut self,
        key: &GlweSecretKey<Scalar>,
        output: &mut PlaintextList<Scalar>,
        input: &GlweCiphertext<Scalar>,
    )
        ensures
            final(self).encryption_generator == old(self).encryption_generator,
    {
        proof {
            lemma_one_more_polynomial(
                key.elements().len(),
                input.elements().len(),
                key.poly_size(),
            );
        }
        decrypt_glwe_ciphertext(key, input, output);
    }
}

/// Why a checked encryption of zeros did no work: its arguments always fit,
/// so only the engine can fail.
#[derive(Debug)]
pub enum GlweCiphertextZeroEncryptionError<EngineError> {
    Engine(EngineError),
}

impl<EngineError> GlweCiphertextZeroEncryptionError<EngineError> {
    /// The kind of this error.
    pub fn kind(&self) -> (kind: ErrorKind)
        ensures
            kind == ErrorKind::UnderlyingEngineFailure,
    {
        ErrorKind::UnderlyingEngineFailure
    }
}

/// Engines that encrypt zeros in GLWE ciphertexts.
///
/// The result is what encrypting a list of zero plaintexts gives. It has a
/// name of its own because encryptions of zero are used on their own, to
/// mask and to refresh other ciphertexts, and a caller should not have to
/// make the zeros.
pub trait GlweCiphertextZeroEncryptionEngine<Scalar: UnsignedTorus>: AbstractEngine {
    /// Encrypts zeros in a new GLWE ciphertext.
    fn zero_encrypt_glwe_ciphertext(&mut self, key: &GlweSecretKey<Scalar>, noise: Variance) -> (r:
        Result<GlweCiphertext<Scalar>, GlweCiphertextZeroEncryptionError<Self::EngineError>>)
        requires
            key.wf(),
        ensures
            r matches Ok(ciphertext) ==> {
                &&& ciphertext.wf()
                &&& ciphertext.poly_size() == key.poly_size()
                &&& is_glwe_encryption(
                    ciphertext.elements(),
                    key.elements(),
                    zero_plaintexts::<Scalar>(key.poly_size()),
                    key.poly_size(),
                    noise,
                )
            },
    ;

    /// Encrypts zeros in a new GLWE ciphertext, which can be held.
    fn zero_encrypt_glwe_ciphertext_unchecked(
        &mut self,
        key: &GlweSecretKey<Scalar>,
        noise: Variance,
    ) -> (ciphertext: GlweCiphertext<Scalar>)
        requires
            key.wf(),
            ciphertext_fits(*key),
        ensures
            ciphertext.wf(),
            ciphertext.poly_size() == key.poly_size(),
            is_glwe_encryption(
                ciphertext.elements(),
                key.elements(),
                zero_plaintexts::<Scalar>(key.poly_size()),
                key.poly_size(),
                noise,
            ),
            noise.is_noiseless() ==> glwe_decryption(
                key.elements(),
                ciphertext.elements(),
                key.poly_size(),
            ) == zero_plaintexts::<Scalar>(key.poly_size()),
    ;
}

impl<Scalar, Gen> GlweCiphertextZeroEncryptionEngine<Scalar> for DefaultEngine<Scalar, Gen> where
    Scalar: UnsignedTorus,
    Gen: EncryptionRandomGenerator<Scalar>,
 {
    fn zero_encrypt_glwe_ciphertext(&mut self, key: &GlweSecretKey<Scalar>, noise: Variance) -> (r:
        Result<GlweCiphertext<Scalar>, GlweCiphertextZeroEncryptionError<Self::EngineError>>)
        ensures
            r is Ok <==> ciphertext_fits(*key),
            !ciphertext_fits(*key) ==> r == Err::<GlweCiphertext<Scalar>, _>(
                GlweCiphertextZeroEncryptionError::Engine(DefaultError::AllocationTooLarge),
            ),
            r matches Ok(ciphertext) ==> final(self).encryption_generator.continues(
                &old(self).encryption_generator,
            ) && is_glwe_encryption_of_draws(
                ciphertext.elements(),
                key.elements(),
                zero_plaintexts::<Scalar>(key.poly_size()),
                key.poly_size(),
                noise,
                final(self).encryption_generator.uniform_since(&old(self).encryption_generator),
                final(self).encryption_generator.noise_since(&old(self).encryption_generator),
            ),
            r is Err ==> final(self).encryption_generator == old(self).encryption_generator,
    {
        match allocate_glwe_ciphertext_for(key) {
            Err(failure) => Err(GlweCiphertextZeroEncryptionError::Engine(failure)),
            Ok(mut ciphertext) => {
                encrypt_zero_glwe_ciphertext(
                    key,
                    &mut ciphertext,
                    noise,
                    &mut self.encryption_generator,
                );
                Ok(ciphertext)
            },
        }
    }

    fn zero_encrypt_glwe_ciphertext_unchecked(
        &mut self,
        key: &GlweSecretKey<Scalar>,
        noise: Variance,
    ) -> (ciphertext: GlweCiphertext<Scalar>)
        ensures
            final(self).encryption_generator.continues(&old(self).encryption_generator),
            is_glwe_encryption_of_draws(
                ciphertext.elements(),
                key.elements(),
                zero_plaintexts::<Scalar>(key.poly_size()),
                key.poly_size(),
                noise,
                final(self).encryption_generator.uniform_since(&old(self).encryption_generator),
                final(self).encryption_generator.noise_since(&old(self).encryption_generator),
            ),
    {
        let mut ciphertext = new_glwe_ciphertext_for(key);
        encrypt_zero_glwe_ciphertext(key, &mut ciphertext, noise, &mut self.encryption_generator);
        ciphertext
    }
}

} // verus!
