//! The checked and unchecked entry points of the LWE operations.

use crate::dispersion::Variance;
use crate::engines::{AbstractEngine, DefaultEngine, DefaultError, ErrorKind};
use crate::lwe::{LweCiphertext, LweSecretKey};
use crate::lwe_encryption::{
    allocate_and_encrypt_new_lwe_ciphertext, allocate_and_trivially_encrypt_new_lwe_ciphertext,
    decrypt_lwe_ciphertext, encrypt_lwe_ciphertext, encrypt_lwe_ciphertext_list,
    is_lwe_encryption, is_lwe_encryption_of_draws, is_lwe_list_encryption,
    is_lwe_list_encryption_of_draws, lwe_decryption, lwe_trivial_encryption,
    trivially_encrypt_lwe_ciphertext,
};
use crate::lwe_list::LweCiphertextList;
use crate::parameters::{CiphertextCount, LweSize, PlaintextCount};
use crate::plaintext::{Plaintext, PlaintextList};
use crate::random::EncryptionRandomGenerator;
use crate::torus::UnsignedTorus;
use vstd::prelude::*;

verus! {

/// Why a checked LWE decryption did no work.
#[derive(Debug)]
pub enum LweCiphertextDecryptionError<EngineError> {
    /// The ciphertext does not have one element more than the key.
    LweDimensionMismatch,
    Engine(EngineError),
}

impl<EngineError> LweCiphertextDecryptionError<EngineError> {
    /// What the validation of a decryption answers on a key and a
    /// ciphertext of these lengths.
    pub open spec fn generic_checks(key_len: nat, input_len: nat) -> Result<(), Self> {
        if input_len != key_len + 1 {
            Err(Self::LweDimensionMismatch)
        } else {
            Ok(())
        }
    }

    /// Validates the arguments of a decryption.
    pub fn perform_generic_checks<Scalar: UnsignedTorus>(
        key: &LweSecretKey<Scalar>,
        input: &LweCiphertext<Scalar>,
    ) -> (r: Result<(), Self>)
        requires
            input.wf(),
        ensures
            r == Self::generic_checks(key@.len(), input@.len()),
    {
        if key.lwe_dimension().0 != input.lwe_size().0 - 1 {
            return Err(Self::LweDimensionMismatch);
        }
        Ok(())
    }

    /// The kind of this error.
    pub fn kind(&self) -> (kind: ErrorKind)
        ensures
            kind == match self {
                Self::LweDimensionMismatch => ErrorKind::ShapeMismatch,
                Self::Engine(_) => ErrorKind::UnderlyingEngineFailure,
            },
    {
        match self {
            Self::LweDimensionMismatch => ErrorKind::ShapeMismatch,
            Self::Engine(_) => ErrorKind::UnderlyingEngineFailure,
        }
    }
}

/// Engines that decrypt LWE ciphertexts.
pub trait LweCiphertextDecryptionEngine<Scalar: UnsignedTorus>: AbstractEngine {
    /// Decrypts `input` under `key`, if the two fit each other.
    fn decrypt_lwe_ciphertext(
        &mut self,
        key: &LweSecretKey<Scalar>,
        input: &LweCiphertext<Scalar>,
    ) -> (r: Result<Plaintext<Scalar>, LweCiphertextDecryptionError<Self::EngineError>>)
        requires
            input.wf(),
        ensures
            match LweCiphertextDecryptionError::<Self::EngineError>::generic_checks(
                key@.len(),
                input@.len(),
            ) {
                Err(mismatch) => r == Err::<Plaintext<Scalar>, _>(mismatch),
                Ok(_) => match r {
                    Ok(decrypted) => decrypted.0 == lwe_decryption(key@, input@),
                    Err(failure) => failure is Engine,
                },
            },
    ;

    /// Decrypts `input` under `key`, which fit each other.
    fn decrypt_lwe_ciphertext_unchecked(
        &mut self,
        key: &LweSecretKey<Scalar>,
        input: &LweCiphertext<Scalar>,
    ) -> (decrypted: Plaintext<Scalar>)
        requires
            input@.len() == key@.len() + 1,
        ensures
            decrypted.0 == lwe_decryption(key@, input@),
    ;
}

impl<Scalar: UnsignedTorus, Gen> LweCiphertextDecryptionEngine<Scalar> for DefaultEngine<
    Scalar,
    Gen,
> {
    fn decrypt_lwe_ciphertext(
        &mut self,
        key: &LweSecretKey<Scalar>,
        input: &LweCiphertext<Scalar>,
    ) -> (r: Result<Plaintext<Scalar>, LweCiphertextDecryptionError<Self::EngineError>>)
        ensures
            r is Ok <==> input@.len() == key@.len() + 1,
            final(self).encryption_generator == old(self).encryption_generator,
    {
        match LweCiphertextDecryptionError::perform_generic_checks(key, input) {
            Err(mismatch) => Err(mismatch),
            Ok(_) => Ok(self.decrypt_lwe_ciphertext_unchecked(key, input)),
        }
    }

    fn decrypt_lwe_ciphertext_unchecked(
        &mut self,
        key: &LweSecretKey<Scalar>,
        input: &LweCiphertext<Scalar>,
    ) -> (decrypted: Plaintext<Scalar>)
        ensures
            final(self).encryption_generator == old(self).encryption_generator,
    {
        decrypt_lwe_ciphertext(key, input)
    }
}

/// Why a checked LWE encryption into a given ciphertext did no work.
#[derive(Debug)]
pub enum LweCiphertextDiscardingEncryptionError<EngineError> {
    /// The output does not have one element more than the key.
    LweDimensionMismatch,
    Engine(EngineError),
}

impl<EngineError> LweCiphertextDiscardingEncryptionError<EngineError> {
    /// What the validation of an encryption answers on a key and an output
    /// of these lengths.
    pub open spec fn generic_checks(key_len: nat, output_len: nat) -> Result<(), Self> {
        if output_len != key_len + 1 {
            Err(Self::LweDimensionMismatch)
        } else {
            Ok(())
        }
    }

    /// Validates the arguments of an encryption.
    pub fn perform_generic_checks<Scalar: UnsignedTorus>(
        key: &LweSecretKey<Scalar>,
        output: &LweCiphertext<Scalar>,
    ) -> (r: Result<(), Self>)
        requires
            output.wf(),
        ensures
            r == Self::generic_checks(key@.len(), output@.len()),
    {
        if key.lwe_dimension().0 != output.lwe_size().0 - 1 {
            return Err(Self::LweDimensionMismatch);
        }
        Ok(())
    }

    /// The kind of this error.
    pub fn kind(&self) -> (kind: ErrorKind)
        ensures
            kind == match self {
                Self::LweDimensionMismatch => ErrorKind::ShapeMismatch,
                Self::Engine(_) => ErrorKind::UnderlyingEngineFailure,
            },
    {
        match self {
            Self::LweDimensionMismatch => ErrorKind::ShapeMismatch,
            Self::Engine(_) => ErrorKind::UnderlyingEngineFailure,
        }
    }
}

/// Engines that encrypt into an LWE ciphertext that the caller owns.
pub trait LweCiphertextDiscardingEncryptionEngine<Scalar: UnsignedTorus>: AbstractEngine {
    /// Encrypts `input` under `key` into `output`, if the two fit each
    /// other; if they do not, `output` is left as it was.
    fn discard_encrypt_lwe_ciphertext(
        &mut self,
        key: &LweSecretKey<Scalar>,
        output: &mut LweCiphertext<Scalar>,
        input: &Plaintext<Scalar>,
        noise: Variance,
    ) -> (r: Result<(), LweCiphertextDiscardingEncryptionError<Self::EngineError>>)
        requires
            old(output).wf(),
        ensures
            final(output).wf(),
            final(output)@.len() == old(output)@.len(),
            match LweCiphertextDiscardingEncryptionError::<Self::EngineError>::generic_checks(
                key@.len(),
                old(output)@.len(),
            ) {
                Err(mismatch) => r == Err::<(), _>(mismatch) && final(output)@ == old(output)@,
                Ok(_) => match r {
                    Ok(_) => is_lwe_encryption(final(output)@, key@, input.0, noise),
                    Err(failure) => failure is Engine,
                },
            },
    ;

    /// Encrypts `input` under `key` into `output`, which fit each other.
    fn discard_encrypt_lwe_ciphertext_unchecked(
        &mut self,
        key: &LweSecretKey<Scalar>,
        output: &mut LweCiphertext<Scalar>,
        input: &Plaintext<Scalar>,
        noise: Variance,
    )
        requires
            old(output)@.len() == key@.len() + 1,
        ensures
            final(output).wf(),
            is_lwe_encryption(final(output)@, key@, input.0, noise),
            noise.is_noiseless() ==> lwe_decryption(key@, final(output)@) == input.0,
    ;
}

impl<Scalar, Gen> LweCiphertextDiscardingEncryptionEngine<Scalar> for DefaultEngine<
    Scalar,
    Gen,
> where
    Scalar: UnsignedTorus,
    Gen: EncryptionRandomGenerator<Scalar>,
 {
    fn discard_encrypt_lwe_ciphertext(
        &mut self,
        key: &LweSecretKey<Scalar>,
        output: &mut LweCiphertext<Scalar>,
        input: &Plaintext<Scalar>,
        noise: Variance,
    ) -> (r: Result<(), LweCiphertextDiscardingEncryptionError<Self::EngineError>>)
        ensures
            r is Ok <==> old(output)@.len() == key@.len() + 1,
            r is Ok ==> final(self).encryption_generator.continues(&old(self).encryption_generator)
                && is_lwe_encryption_of_draws(
                final(output)@,
                key@,
                input.0,
                noise,
                final(self).encryption_generator.uniform_since(&old(self).encryption_generator),
                final(self).encryption_generator.noise_since(&old(self).encryption_generator),
            ),
            r is Err ==> final(self).encryption_generator == old(self).encryption_generator,
    {
        match LweCiphertextDiscardingEncryptionError::perform_generic_checks(key, output) {
            Err(mismatch) => Err(mismatch),
            Ok(_) => {
                self.discard_encrypt_lwe_ciphertext_unchecked(key, output, input, noise);
                Ok(())
            },
        }
    }

    fn discard_encrypt_lwe_ciphertext_unchecked(
        &mut self,
        key: &LweSecretKey<Scalar>,
        output: &mut LweCiphertext<Scalar>,
        input: &Plaintext<Scalar>,
        noise: Variance,
    )
        ensures
            final(self).encryption_generator.continues(&old(self).encryption_generator),
            is_lwe_encryption_of_draws(
                final(output)@,
                key@,
                input.0,
                noise,
                final(self).encryption_generator.uniform_since(&old(self).encryption_generator),
                final(self).encryption_generator.noise_since(&old(self).encryption_generator),
            ),
    {
        encrypt_lwe_ciphertext(key, output, *input, noise, &mut self.encryption_generator);
    }
}

/// Why a checked LWE encryption into a new ciphertext did no work: its
/// arguments always fit, so only the engine can fail.
#[derive(Debug)]
pub enum LweCiphertextEncryptionError<EngineError> {
    Engine(EngineError),
}

impl<EngineError> LweCiphertextEncryptionError<EngineError> {
    /// The kind of this error.
    pub fn kind(&self) -> (kind: ErrorKind)
        ensures
            kind == ErrorKind::UnderlyingEngineFailure,
    {
        ErrorKind::UnderlyingEngineFailure
    }
}

/// Engines that encrypt into a new LWE ciphertext.
pub trait LweCiphertextEncryptionEngine<Scalar: UnsignedTorus>: AbstractEngine {
    /// Encrypts `input` under `key` into a new ciphertext of the size that
    /// the key asks for.
    fn encrypt_lwe_ciphertext(
        &mut self,
        key: &LweSecretKey<Scalar>,
        input: &Plaintext<Scalar>,
        noise: Variance,
    ) -> (r: Result<LweCiphertext<Scalar>, LweCiphertextEncryptionError<Self::EngineError>>)
        ensures
            r matches Ok(ciphertext) ==> ciphertext.wf() && is_lwe_encryption(
                ciphertext@,
                key@,
                input.0,
                noise,
            ),
    ;

    /// Encrypts `input` under `key` into a new ciphertext, which can be
    /// held.
    fn encrypt_lwe_ciphertext_unchecked(
        &mut self,
        key: &LweSecretKey<Scalar>,
        input: &Plaintext<Scalar>,
        noise: Variance,
    ) -> (ciphertext: LweCiphertext<Scalar>)
        requires
            key@.len() < usize::MAX,
        ensures
            ciphertext.wf(),
            is_lwe_encryption(ciphertext@, key@, input.0, noise),
            noise.is_noiseless() ==> lwe_decryption(key@, ciphertext@) == input.0,
    ;
}

impl<Scalar, Gen> LweCiphertextEncryptionEngine<Scalar> for DefaultEngine<Scalar, Gen> where
    Scalar: UnsignedTorus,
    Gen: EncryptionRandomGenerator<Scalar>,
 {
    fn encrypt_lwe_ciphertext(
        &mut self,
        key: &LweSecretKey<Scalar>,
        input: &Plaintext<Scalar>,
        noise: Variance,
    ) -> (r: Result<LweCiphertext<Scalar>, LweCiphertextEncryptionError<Self::EngineError>>)
        ensures
            r is Ok <==> key@.len() < usize::MAX,
            key@.len() == usize::MAX ==> r == Err::<LweCiphertext<Scalar>, _>(
                LweCiphertextEncryptionError::Engine(DefaultError::AllocationTooLarge),
            ),
            r matches Ok(ciphertext) ==> final(self).encryption_generator.continues(
                &old(self).encryption_generator,
            ) && is_lwe_encryption_of_draws(
                ciphertext@,
                key@,
                input.0,
                noise,
                final(self).encryption_generator.uniform_since(&old(self).encryption_generator),
                final(self).encryption_generator.noise_since(&old(self).encryption_generator),
            ),
            r is Err ==> final(self).encryption_generator == old(self).encryption_generator,
    {
        if key.lwe_dimension().0 == usize::MAX {
            return Err(LweCiphertextEncryptionError::Engine(DefaultError::AllocationTooLarge));
        }
        Ok(self.encrypt_lwe_ciphertext_unchecked(key, input, noise))
    }

    fn encrypt_lwe_ciphertext_unchecked(
        &mut self,
        key: &LweSecretKey<Scalar>,
        input: &Plaintext<Scalar>,
        noise: Variance,
    ) -> (ciphertext: LweCiphertext<Scalar>)
        ensures
            final(self).encryption_generator.continues(&old(self).encryption_generator),
            is_lwe_encryption_of_draws(
                ciphertext@,
                key@,
                input.0,
                noise,
                final(self).encryption_generator.uniform_since(&old(self).encryption_generator),
                final(self).encryption_generator.noise_since(&old(self).encryption_generator),
            ),
    {
        allocate_and_encrypt_new_lwe_ciphertext(key, *input, noise, &mut self.encryption_generator)
    }
}

/// Why a checked trivial encryption into a new ciphertext did no work: its
/// arguments always fit, so only the engine can fail.
#[derive(Debug)]
pub enum LweCiphertextTrivialEncryptionError<EngineError> {
    Engine(EngineError),
}

impl<EngineError> LweCiphertextTrivialEncryptionError<EngineError> {
    /// The kind of this error.
    pub fn kind(&self) -> (kind: ErrorKind)
        ensures
            kind == ErrorKind::UnderlyingEngineFailure,
    {
        ErrorKind::UnderlyingEngineFailure
    }
}

/// Engines that make trivial LWE encryptions: ciphertexts that carry their
/// message in the open, for public constants.
pub trait LweCiphertextTrivialEncryptionEngine<Scalar: UnsignedTorus>: AbstractEngine {
    /// Makes the trivial encryption of `input` of the given size.
    fn trivially_encrypt_lwe_ciphertext(
        &mut self,
        lwe_size: LweSize,
        input: &Plaintext<Scalar>,
    ) -> (r: Result<LweCiphertext<Scalar>, LweCiphertextTrivialEncryptionError<Self::EngineError>>)
        requires
            lwe_size.0 >= 1,
        ensures
            r matches Ok(ciphertext) ==> ciphertext.wf() && ciphertext@ == lwe_trivial_encryption(
                lwe_size.0 as nat,
                input.0,
            ),
    ;

    /// Makes the trivial encryption of `input` of the given size.
    fn trivially_encrypt_lwe_ciphertext_unchecked(
        &mut self,
        lwe_size: LweSize,
        input: &Plaintext<Scalar>,
    ) -> (ciphertext: LweCiphertext<Scalar>)
        requires
            lwe_size.0 >= 1,
        ensures
            ciphertext.wf(),
            ciphertext@ == lwe_trivial_encryption(lwe_size.0 as nat, input.0),
    ;
}

impl<Scalar: UnsignedTorus, Gen> LweCiphertextTrivialEncryptionEngine<Scalar> for DefaultEngine<
    Scalar,
    Gen,
> {
    fn trivially_encrypt_lwe_ciphertext(
        &mut self,
        lwe_size: LweSize,
        input: &Plaintext<Scalar>,
    ) -> (r: Result<LweCiphertext<Scalar>, LweCiphertextTrivialEncryptionError<Self::EngineError>>)
        ensures
            r is Ok,
            final(self).encryption_generator == old(self).encryption_generator,
    {
        Ok(self.trivially_encrypt_lwe_ciphertext_unchecked(lwe_size, input))
    }

    fn trivially_encrypt_lwe_ciphertext_unchecked(
        &mut self,
        lwe_size: LweSize,
        input: &Plaintext<Scalar>,
    ) -> (ciphertext: LweCiphertext<Scalar>)
        ensures
            final(self).encryption_generator == old(self).encryption_generator,
    {
        allocate_and_trivially_encrypt_new_lwe_ciphertext(lwe_size, *input)
    }
}

/// Why a checked trivial encryption into a given ciphertext did no work:
/// its arguments always fit, so only the engine can fail.
#[derive(Debug)]
pub enum LweCiphertextDiscardingTrivialEncryptionError<EngineError> {
    Engine(EngineError),
}

impl<EngineError> LweCiphertextDiscardingTrivialEncryptionError<EngineError> {
    /// The kind of this error.
    pub fn kind(&self) -> (kind: ErrorKind)
        ensures
            kind == ErrorKind::UnderlyingEngineFailure,
    {
        ErrorKind::UnderlyingEngineFailure
    }
}

/// Engines that overwrite an LWE ciphertext that the caller owns with a
/// trivial encryption.
pub trait LweCiphertextDiscardingTrivialEncryptionEngine<Scalar: UnsignedTorus>: AbstractEngine {
    /// Overwrites `output` with the trivial encryption of `input`.
    fn discard_trivially_encrypt_lwe_ciphertext(
        &mut self,
        output: &mut LweCiphertext<Scalar>,
        input: &Plaintext<Scalar>,
    ) -> (r: Result<(), LweCiphertextDiscardingTrivialEncryptionError<Self::EngineError>>)
        requires
            old(output).wf(),
        ensures
            final(output).wf(),
            final(output)@.len() == old(output)@.len(),
            r is Ok ==> final(output)@ == lwe_trivial_encryption(old(output)@.len(), input.0),
    ;

    /// Overwrites `output` with the trivial encryption of `input`.
    fn discard_trivially_encrypt_lwe_ciphertext_unchecked(
        &mut self,
        output: &mut LweCiphertext<Scalar>,
        input: &Plaintext<Scalar>,
    )
        requires
            old(output).wf(),
        ensures
            final(output).wf(),
            final(output)@ == lwe_trivial_encryption(old(output)@.len(), input.0),
    ;
}

impl<Scalar: UnsignedTorus, Gen> LweCiphertextDiscardingTrivialEncryptionEngine<
    Scalar,
> for DefaultEngine<Scalar, Gen> {
    fn discard_trivially_encrypt_lwe_ciphertext(
        &mut self,
        output: &mut LweCiphertext<Scalar>,
        input: &Plaintext<Scalar>,
    ) -> (r: Result<(), LweCiphertextDiscardingTrivialEncryptionError<Self::EngineError>>)
        ensures
            r is Ok,
            final(self).encryption_generator == old(self).encryption_generator,
    {
        self.discard_trivially_encrypt_lwe_ciphertext_unchecked(output, input);
        Ok(())
    }

    fn discard_trivially_encrypt_lwe_ciphertext_unchecked(
        &mut self,
        output: &mut LweCiphertext<Scalar>,
        input: &Plaintext<Scalar>,
    )
        ensures
            final(self).encryption_generator == old(self).encryption_generator,
    {
        trivially_encrypt_lwe_ciphertext(output, *input);
    }
}

/// Why a checked encryption of a list did no work.
#[derive(Debug)]
pub enum LweCiphertextVectorDiscardingEncryptionError<EngineError> {
    /// The ciphertexts of the output do not have one element more than the
    /// key.
    LweDimensionMismatch,
    /// The input does not hold as many plaintexts as the output holds
    /// ciphertexts; both numbers are reported.
    PlaintextCountMismatch { plaintext_count: PlaintextCount, ciphertext_count: CiphertextCount },
    Engine(EngineError),
}

impl<EngineError> LweCiphertextVectorDiscardingEncryptionError<EngineError> {
    /// What the validation of a list encryption answers on a key of
    /// `key_len` elements, an output of `ciphertext_count` ciphertexts of
    /// `lwe_size` elements each, and an input of `plaintext_count`
    /// plaintexts.
    pub open spec fn generic_checks(
        key_len: nat,
        lwe_size: nat,
        ciphertext_count: nat,
        plaintext_count: nat,
    ) -> Result<(), Self> {
        if lwe_size != key_len + 1 {
            Err(Self::LweDimensionMismatch)
        } else if plaintext_count != ciphertext_count {
            Err(
                Self::PlaintextCountMismatch {
                    plaintext_count: PlaintextCount(plaintext_count as usize),
                    ciphertext_count: CiphertextCount(ciphertext_count as usize),
                },
            )
        } else {
            Ok(())
        }
    }

    /// Validates the arguments of a list encryption.
    pub fn perform_generic_checks<Scalar: UnsignedTorus>(
        key: &LweSecretKey<Scalar>,
        output: &LweCiphertextList<Scalar>,
        input: &PlaintextList<Scalar>,
    ) -> (r: Result<(), Self>)
        requires
            output.wf(),
        ensures
            r == Self::generic_checks(key@.len(), output.size(), output.count(), input@.len()),
    {
        if key.lwe_dimension().0 != output.lwe_size().0 - 1 {
            return Err(Self::LweDimensionMismatch);
        }
        let plaintext_count = input.plaintext_count();
        let ciphertext_count = output.ciphertext_count();
        if plaintext_count.0 != ciphertext_count.0 {
            return Err(Self::PlaintextCountMismatch { plaintext_count, ciphertext_count });
        }
        Ok(())
    }

    /// The kind of this error.
    pub fn kind(&self) -> (kind: ErrorKind)
        ensures
            kind == match self {
                Self::LweDimensionMismatch => ErrorKind::ShapeMismatch,
                Self::PlaintextCountMismatch { .. } => ErrorKind::CountMismatch,
                Self::Engine(_) => ErrorKind::UnderlyingEngineFailure,
            },
    {
        match self {
            Self::LweDimensionMismatch => ErrorKind::ShapeMismatch,
            Self::PlaintextCountMismatch { .. } => ErrorKind::CountMismatch,
            Self::Engine(_) => ErrorKind::UnderlyingEngineFailure,
        }
    }
}

/// Engines that encrypt a list of plaintexts into a list of LWE ciphertexts
/// that the caller owns.
pub trait LweCiphertextVectorDiscardingEncryptionEngine<Scalar: UnsignedTorus>: AbstractEngine {
    /// Encrypts each plaintext of `input` under `key` into the ciphertext of
    /// `output` at the same index, if the three fit each other; if they do
    /// not, every element of `output` is left as it was.
    fn discard_encrypt_lwe_ciphertext_vector(
        &mut self,
        key: &LweSecretKey<Scalar>,
        output: &mut LweCiphertextList<Scalar>,
        input: &PlaintextList<Scalar>,
        noise: Variance,
    ) -> (r: Result<(), LweCiphertextVectorDiscardingEncryptionError<Self::EngineError>>)
        requires
            old(output).wf(),
        ensures
            final(output).wf(),
            final(output).size() == old(output).size(),
            final(output).count() == old(output).count(),
            match LweCiphertextVectorDiscardingEncryptionError::<Self::EngineError>::generic_checks(
                key@.len(),
                old(output).size(),
                old(output).count(),
                input@.len(),
            ) {
                Err(mismatch) => r == Err::<(), _>(mismatch) && final(output).elements() == old(
                    output,
                ).elements(),
                Ok(_) => match r {
                    Ok(_) => is_lwe_list_encryption(final(output)@, key@, input@, noise),
                    Err(failure) => failure is Engine,
                },
            },
    ;

    /// Encrypts each plaintext of `input` under `key` into the ciphertext of
    /// `output` at the same index; the three fit each other.
    fn discard_encrypt_lwe_ciphertext_vector_unchecked(
        &mut self,
        key: &LweSecretKey<Scalar>,
        output: &mut LweCiphertextList<Scalar>,
        input: &PlaintextList<Scalar>,
        noise: Variance,
    )
        requires
            old(output).wf(),
            old(output).count() == input@.len(),
            old(output).size() == key@.len() + 1,
        ensures
            final(output).wf(),
            final(output).size() == old(output).size(),
            final(output).count() == old(output).count(),
            is_lwe_list_encryption(final(output)@, key@, input@, noise),
    ;
}

impl<Scalar, Gen> LweCiphertextVectorDiscardingEncryptionEngine<Scalar> for DefaultEngine<
    Scalar,
    Gen,
> where Scalar: UnsignedTorus, Gen: EncryptionRandomGenerator<Scalar> {
    fn discard_encrypt_lwe_ciphertext_vector(
        &mut self,
        key: &LweSecretKey<Scalar>,
        output: &mut LweCiphertextList<Scalar>,
        input: &PlaintextList<Scalar>,
        noise: Variance,
    ) -> (r: Result<(), LweCiphertextVectorDiscardingEncryptionError<Self::EngineError>>)
        ensures
            r is Ok <==> old(output).size() == key@.len() + 1 && input@.len() == old(
                output,
            ).count(),
            r is Ok ==> final(self).encryption_generator.continues(&old(self).encryption_generator)
                && is_lwe_list_encryption_of_draws(
                final(output)@,
                key@,
                input@,
                noise,
                final(self).encryption_generator.uniform_since(&old(self).encryption_generator),
                final(self).encryption_generator.noise_since(&old(self).encryption_generator),
            ),
            r is Err ==> final(self).encryption_generator == old(self).encryption_generator,
    {
        match LweCiphertextVectorDiscardingEncryptionError::perform_generic_checks(
            key,
            output,
            input,
        ) {
            Err(mismatch) => Err(mismatch),
            Ok(_) => {
                self.discard_encrypt_lwe_ciphertext_vector_unchecked(key, output, input, noise);
                Ok(())
            },
        }
    }

    fn discard_encrypt_lwe_ciphertext_vector_unchecked(
        &mut self,
        key: &LweSecretKey<Scalar>,
        output: &mut LweCiphertextList<Scalar>,
        input: &PlaintextList<Scalar>,
        noise: Variance,
    )
        ensures
            final(self).encryption_generator.continues(&old(self).encryption_generator),
            is_lwe_list_encryption_of_draws(
                final(output)@,
                key@,
                input@,
                noise,
                final(self).encryption_generator.uniform_since(&old(self).encryption_generator),
                final(self).encryption_generator.noise_since(&old(self).encryption_generator),
            ),
    {
        let _ = encrypt_lwe_ciphertext_list(
            key,
            output,
            input,
            noise,
            &mut self.encryption_generator,
        );
    }
}

} // verus!
