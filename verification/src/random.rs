//! The source of the randomness that encryption consumes, and the record of
//! what was drawn from it.

use crate::dispersion::Variance;
use crate::torus::UnsignedTorus;
use vstd::prelude::*;

verus! {

/// Whether `noise` can be the noise of an encryption under
/// `noise_parameters`: any element can, unless the variance is zero, under
/// which only zero can.
pub open spec fn possible_noise<Scalar: UnsignedTorus>(
    noise_parameters: Variance,
    noise: Scalar,
) -> bool {
    noise_parameters.is_noiseless() ==> noise == Scalar::reduce(0)
}

/// Whether every element of `noise` can be the noise of an encryption under
/// `noise_parameters`.
pub open spec fn possible_noises<Scalar: UnsignedTorus>(
    noise_parameters: Variance,
    noise: Seq<Scalar>,
) -> bool {
    forall|k: int| 0 <= k < noise.len() ==> possible_noise(noise_parameters, #[trigger] noise[k])
}

/// The noise that an encryption under `noise_parameters` takes from a noise
/// draw: the draw itself, unless the variance is zero. Under a zero variance
/// the distribution is concentrated on zero, and the noise is zero whatever
/// was drawn.
pub open spec fn effective_noise<Scalar: UnsignedTorus>(
    noise_parameters: Variance,
    drawn: Scalar,
) -> Scalar {
    if noise_parameters.is_noiseless() {
        Scalar::reduce(0)
    } else {
        drawn
    }
}

/// The noises that an encryption under `noise_parameters` takes from a run
/// of noise draws, one from each.
pub open spec fn effective_noises<Scalar: UnsignedTorus>(
    noise_parameters: Variance,
    drawn: Seq<Scalar>,
) -> Seq<Scalar> {
    Seq::new(drawn.len(), |k: int| effective_noise(noise_parameters, drawn[k]))
}

/// What was added to a run that has grown from `before` to `after`.
pub open spec fn grown_by<T>(before: Seq<T>, after: Seq<T>) -> Seq<T> {
    after.subrange(before.len() as int, after.len() as int)
}

/// Whether `after` is `before` with something added at its end.
pub open spec fn grown_from<T>(before: Seq<T>, after: Seq<T>) -> bool {
    &&& before.len() <= after.len()
    &&& after.subrange(0, before.len() as int) == before
}

/// A run that has grown twice has grown by the two additions, one after the
/// other.
pub proof fn lemma_grown_twice<T>(first: Seq<T>, second: Seq<T>, third: Seq<T>)
    requires
        grown_from(first, second),
        grown_from(second, third),
    ensures
        grown_from(first, third),
        grown_by(first, third) == grown_by(first, second) + grown_by(second, third),
{
    assert(third.subrange(0, first.len() as int) =~= second.subrange(0, first.len() as int));
    assert(grown_by(first, second) =~= third.subrange(first.len() as int, second.len() as int));
    assert(grown_by(first, third) =~= grown_by(first, second) + grown_by(second, third));
}

/// The noise that an encryption under `noise_parameters` takes from a noise
/// draw.
pub fn noise_of_draw<Scalar: UnsignedTorus>(drawn: Scalar, noise_parameters: Variance) -> (noise:
    Scalar)
    ensures
        noise == effective_noise(noise_parameters, drawn),
{
    if noise_parameters.is_zero() {
        Scalar::zero()
    } else {
        drawn
    }
}

/// A source of random torus elements for encryption.
///
/// The library asks it for two things: uniformly random elements for the
/// masks, and noise drawn from the distribution that a variance calibrates.
/// Every call consumes fresh randomness, and the library never uses a drawn
/// value twice. How the source is seeded is its owner's business. Nothing is
/// taken for granted of what a call returns.
pub trait EncryptionRandomGenerator<Scalar: UnsignedTorus> {
    /// Draws one uniformly random element.
    fn random_uniform(&mut self) -> Scalar;

    /// Draws one noise element under `noise_parameters`.
    fn random_noise(&mut self, noise_parameters: Variance) -> Scalar;
}

/// A randomness source together with the record of what was drawn from it:
/// the uniform draws in their order, and the noise draws in theirs.
///
/// The operations of the library draw through the record, so that their
/// contracts can say which draw went where. The record is kept for the
/// proofs alone and takes no room when the program runs.
pub struct RecordedGenerator<Scalar, Gen> {
    generator: Gen,
    uniform: Ghost<Seq<Scalar>>,
    noise: Ghost<Seq<Scalar>>,
}

impl<Scalar, Gen> RecordedGenerator<Scalar, Gen> where
    Scalar: UnsignedTorus,
    Gen: EncryptionRandomGenerator<Scalar>,
 {
    /// The uniform draws made so far, the first one first.
    pub closed spec fn drawn_uniform(&self) -> Seq<Scalar> {
        self.uniform@
    }

    /// The noise draws made so far, the first one first.
    pub closed spec fn drawn_noise(&self) -> Seq<Scalar> {
        self.noise@
    }

    /// The source that is drawn from.
    pub closed spec fn source(&self) -> Gen {
        self.generator
    }

    /// Whether this is the state that `before` reaches by drawing: both
    /// records are those of `before` with the new draws at their ends.
    pub open spec fn continues(&self, before: &Self) -> bool {
        &&& grown_from(before.drawn_uniform(), self.drawn_uniform())
        &&& grown_from(before.drawn_noise(), self.drawn_noise())
    }

    /// The uniform draws made since `before`.
    pub open spec fn uniform_since(&self, before: &Self) -> Seq<Scalar> {
        grown_by(before.drawn_uniform(), self.drawn_uniform())
    }

    /// The noise draws made since `before`.
    pub open spec fn noise_since(&self, before: &Self) -> Seq<Scalar> {
        grown_by(before.drawn_noise(), self.drawn_noise())
    }

    /// A record of no draws over `generator`.
    pub fn new(generator: Gen) -> (recorded: Self)
        ensures
            recorded.source() == generator,
            recorded.drawn_uniform() == Seq::<Scalar>::empty(),
            recorded.drawn_noise() == Seq::<Scalar>::empty(),
    {
        RecordedGenerator { generator, uniform: Ghost(Seq::empty()), noise: Ghost(Seq::empty()) }
    }

    /// The source, as the draws have left it.
    pub fn into_inner(self) -> (generator: Gen)
        ensures
            generator == self.source(),
    {
        self.generator
    }

    /// The source, as the draws have left it.
    pub fn get_ref(&self) -> (generator: &Gen)
        ensures
            *generator == self.source(),
    {
        &self.generator
    }

    /// Draws one uniformly random element, and records it.
    pub fn random_uniform(&mut self) -> (drawn: Scalar)
        ensures
            final(self).drawn_uniform() == old(self).drawn_uniform().push(drawn),
            final(self).drawn_noise() == old(self).drawn_noise(),
    {
        let drawn = self.generator.random_uniform();
        proof {
            self.uniform@ = self.uniform@.push(drawn);
        }
        drawn
    }

    /// Draws one noise element under `noise_parameters`, and records it.
    pub fn random_noise_draw(&mut self, noise_parameters: Variance) -> (drawn: Scalar)
        ensures
            final(self).drawn_noise() == old(self).drawn_noise().push(drawn),
            final(self).drawn_uniform() == old(self).drawn_uniform(),
    {
        let drawn = self.generator.random_noise(noise_parameters);
        proof {
            self.noise@ = self.noise@.push(drawn);
        }
        drawn
    }
}

/// A state continues itself, with no draw made since.
pub proof fn lemma_continues_itself<Scalar, Gen>(state: &RecordedGenerator<Scalar, Gen>) where
    Scalar: UnsignedTorus,
    Gen: EncryptionRandomGenerator<Scalar>,

    ensures
        state.continues(state),
        state.uniform_since(state) == Seq::<Scalar>::empty(),
        state.noise_since(state) == Seq::<Scalar>::empty(),
{
    let uniform = state.drawn_uniform();
    let noise = state.drawn_noise();
    assert(uniform.subrange(0, uniform.len() as int) =~= uniform);
    assert(noise.subrange(0, noise.len() as int) =~= noise);
    assert(state.uniform_since(state) =~= Seq::<Scalar>::empty());
    assert(state.noise_since(state) =~= Seq::<Scalar>::empty());
}

/// A state that has drawn twice since `first` has made the draws of the two
/// steps, one after the other.
pub proof fn lemma_continues_twice<Scalar, Gen>(
    first: &RecordedGenerator<Scalar, Gen>,
    second: &RecordedGenerator<Scalar, Gen>,
    third: &RecordedGenerator<Scalar, Gen>,
) where Scalar: UnsignedTorus, Gen: EncryptionRandomGenerator<Scalar>
    requires
        second.continues(first),
        third.continues(second),
    ensures
        third.continues(first),
        third.uniform_since(first) == second.uniform_since(first) + third.uniform_since(second),
        third.noise_since(first) == second.noise_since(first) + third.noise_since(second),
{
    lemma_grown_twice(first.drawn_uniform(), second.drawn_uniform(), third.drawn_uniform());
    lemma_grown_twice(first.drawn_noise(), second.drawn_noise(), third.drawn_noise());
}

/// Overwrites every element of `output` with a fresh uniform draw, from the
/// first to the last: one draw for each element, and no noise draw.
pub fn fill_slice_with_random_mask<Scalar, Gen>(
    generator: &mut RecordedGenerator<Scalar, Gen>,
    output: &mut [Scalar],
) where Scalar: UnsignedTorus, Gen: EncryptionRandomGenerator<Scalar>
    ensures
        final(output)@.len() == old(output)@.len(),
        final(generator).continues(old(generator)),
        final(generator).uniform_since(old(generator)) == final(output)@,
        final(generator).noise_since(old(generator)) == Seq::<Scalar>::empty(),
{
    let n = output.len();
    let mut i: usize = 0;
    while i < n
        invariant
            n == output@.len(),
            n == old(output)@.len(),
            i <= n,
            generator.drawn_uniform() == old(generator).drawn_uniform() + output@.take(i as int),
            generator.drawn_noise() == old(generator).drawn_noise(),
        decreases n - i,
    {
        output[i] = generator.random_uniform();
        proof {
            assert(output@.take(i + 1) =~= output@.take(i as int).push(output@[i as int]));
        }
        i += 1;
    }
    proof {
        assert(output@.take(n as int) =~= output@);
        assert(generator.uniform_since(old(generator)) =~= output@);
        assert(generator.noise_since(old(generator)) =~= Seq::<Scalar>::empty());
        assert(generator.drawn_uniform().subrange(0, old(generator).drawn_uniform().len() as int)
            =~= old(generator).drawn_uniform());
        assert(generator.drawn_noise().subrange(0, old(generator).drawn_noise().len() as int)
            =~= old(generator).drawn_noise());
    }
}

/// Draws the noise of one encryption: one noise draw, no uniform draw, and
/// of the draw the noise that the variance lets through.
pub fn random_noise<Scalar, Gen>(
    generator: &mut RecordedGenerator<Scalar, Gen>,
    noise_parameters: Variance,
) -> (noise: Scalar) where Scalar: UnsignedTorus, Gen: EncryptionRandomGenerator<Scalar>
    ensures
        final(generator).continues(old(generator)),
        final(generator).uniform_since(old(generator)) == Seq::<Scalar>::empty(),
        final(generator).noise_since(old(generator)).len() == 1,
        noise == effective_noise(
            noise_parameters,
            final(generator).noise_since(old(generator))[0],
        ),
        possible_noise(noise_parameters, noise),
{
    let drawn = generator.random_noise_draw(noise_parameters);
    proof {
        assert(generator.noise_since(old(generator)) =~= seq![drawn]);
        assert(generator.uniform_since(old(generator)) =~= Seq::<Scalar>::empty());
        assert(generator.drawn_uniform().subrange(0, old(generator).drawn_uniform().len() as int)
            =~= old(generator).drawn_uniform());
        assert(generator.drawn_noise().subrange(0, old(generator).drawn_noise().len() as int)
            =~= old(generator).drawn_noise());
    }
    noise_of_draw(drawn, noise_parameters)
}

/// Overwrites every element of `output` with a noise of its own, from the
/// first to the last: one noise draw for each element, and no uniform draw.
pub fn fill_slice_with_random_noise<Scalar, Gen>(
    generator: &mut RecordedGenerator<Scalar, Gen>,
    output: &mut [Scalar],
    noise_parameters: Variance,
) where Scalar: UnsignedTorus, Gen: EncryptionRandomGenerator<Scalar>
    ensures
        final(output)@.len() == old(output)@.len(),
        final(generator).continues(old(generator)),
        final(generator).uniform_since(old(generator)) == Seq::<Scalar>::empty(),
        final(output)@ == effective_noises(
            noise_parameters,
            final(generator).noise_since(old(generator)),
        ),
        possible_noises(noise_parameters, final(output)@),
{
    let n = output.len();
    let mut i: usize = 0;
    proof {
        lemma_continues_itself(generator);
    }
    while i < n
        invariant
            n == output@.len(),
            n == old(output)@.len(),
            i <= n,
            generator.continues(old(generator)),
            generator.uniform_since(old(generator)) == Seq::<Scalar>::empty(),
            generator.noise_since(old(generator)).len() == i,
            forall|k: int|
                0 <= k < i ==> #[trigger] output@[k] == effective_noise(
                    noise_parameters,
                    generator.noise_since(old(generator))[k],
                ),
        decreases n - i,
    {
        let ghost before = *generator;
        output[i] = random_noise(generator, noise_parameters);
        proof {
            lemma_continues_twice(old(generator), &before, generator);
        }
        i += 1;
    }
    proof {
        assert(output@ =~= effective_noises(
            noise_parameters,
            generator.noise_since(old(generator)),
        ));
    }
}

} // verus!
