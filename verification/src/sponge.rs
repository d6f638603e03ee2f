//! The sponge: absorb field elements, then squeeze field elements.

use crate::constants::{shape_check, ConfigError};
use crate::sponge_model::{
    lemma_absorb_blocks, lemma_absorb_one_wf, lemma_permute_wf, lemma_squeeze_wf,
    lemma_start_squeezing_wf, SpongeMode, SpongeModel,
};
use crate::traits::{values, PoseidonField};
use crate::{Poseidon, PoseidonConstants};
use vstd::prelude::*;

verus! {

/// A misuse of the sponge protocol.
#[derive(Clone, Copy, Debug, PartialEq, Eq, Structural)]
pub enum SpongeError {
    /// Input was offered after output had been taken.
    AbsorbAfterSqueeze,
}

/// A sponge over the permutation of width `WIDTH`: `WIDTH - 1` rate cells
/// and one capacity cell.
pub struct PoseidonSponge<F: PoseidonField, const WIDTH: usize> {
    engine: Poseidon<F, WIDTH>,
    mode: SpongeMode,
    position: usize,
}

impl<F: PoseidonField, const WIDTH: usize> View for PoseidonSponge<F, WIDTH> {
    type V = SpongeModel;

    closed spec fn view(&self) -> SpongeModel {
        SpongeModel {
            state: values(self.engine.state@),
            constants: self.engine.constants@,
            mode: self.mode,
            position: self.position as nat,
            permutations: self.engine.permutations@,
        }
    }
}

impl<F: PoseidonField, const WIDTH: usize> Clone for PoseidonSponge<F, WIDTH> {
    fn clone(&self) -> (copy: Self)
        ensures
            copy@ == self@,
            self.wf() ==> copy.wf(),
    {
        PoseidonSponge {
            engine: self.engine.clone(),
            mode: self.mode,
            position: self.position,
        }
    }
}

impl<F: PoseidonField, const WIDTH: usize> PoseidonSponge<F, WIDTH> {
    /// The engine's cursor stands at the first key.
    pub closed spec fn cursor_parked(&self) -> bool {
        self.engine.pos == 0
    }

    /// What every sponge that [`PoseidonSponge::new`] made satisfies, and
    /// every method keeps: the constants fit the width, the position is
    /// inside the rate, and the engine is ready for the next permutation.
    pub open spec fn wf(&self) -> bool {
        &&& self@.wf()
        &&& self@.state.len() == WIDTH
        &&& self.cursor_parked()
    }

    /// A sponge over `constants`, absorbing, with a zero state; or the fault
    /// that keeps `constants` from driving a permutation of this width.
    pub fn new(constants: PoseidonConstants<F>) -> (r: Result<Self, ConfigError>)
        ensures
            match r {
                Ok(sponge) => {
                    &&& constants@.well_formed(WIDTH as nat)
                    &&& sponge.wf()
                    &&& sponge@ == SpongeModel::fresh(constants@, WIDTH as nat)
                },
                Err(e) => shape_check(constants@, WIDTH as nat) == Err::<(), ConfigError>(e),
            },
    {
        match Poseidon::try_new(constants) {
            Err(e) => Err(e),
            Ok(engine) => Ok(PoseidonSponge { engine, mode: SpongeMode::Absorbing, position: 0 }),
        }
    }

    /// The number of rate cells.
    pub fn rate(&self) -> (rate: usize)
        requires
            self.wf(),
        ensures
            rate == self@.rate(),
            rate == WIDTH - 1,
    {
        WIDTH - 1
    }

    /// The phase of the session.
    pub fn mode(&self) -> (mode: SpongeMode)
        ensures
            mode == self@.mode,
    {
        self.mode
    }

    /// How many rate cells of the current block are used.
    pub fn position(&self) -> (position: usize)
        ensures
            position == self@.position,
    {
        self.position
    }

    /// The state cells: the rate cells, then the capacity cell.
    pub fn state(&self) -> (state: &[F; WIDTH])
        ensures
            values(state@) == self@.state,
    {
        &self.engine.state
    }

    /// A new session: zero state, absorbing. The constants stay.
    pub fn reset(&mut self)
        requires
            old(self).wf(),
        ensures
            final(self).wf(),
            final(self)@ == SpongeModel::fresh(old(self)@.constants, WIDTH as nat),
    {
        self.engine.reset();
        self.mode = SpongeMode::Absorbing;
        self.position = 0;
    }

    fn permute(&mut self)
        requires
            old(self)@.constants.well_formed(WIDTH as nat),
            old(self).engine.pos == 0,
        ensures
            final(self)@ == old(self)@.permute(F::modulus()),
            final(self).engine.pos == 0,
    {
        self.engine.permute();
        self.engine.pos = 0;
        self.position = 0;
    }

    fn advance(&mut self)
        requires
            old(self).wf(),
        ensures
            final(self)@ == old(self)@.advance(F::modulus()),
            final(self).engine.pos == 0,
    {
        self.position += 1;
        if self.position == WIDTH - 1 {
            self.permute();
        }
    }

    /// Absorbs `elements` in order: each is added into the next rate cell,
    /// and each block of `rate` elements is followed by one permutation.
    /// After a squeeze nothing is absorbed any more: the call is refused and
    /// the sponge stays as it is.
    pub fn absorb(&mut self, elements: &[F]) -> (r: Result<(), SpongeError>)
        requires
            old(self).wf(),
        ensures
            final(self).wf(),
            match r {
                Ok(()) => {
                    &&& old(self)@.mode is Absorbing
                    &&& final(self)@ == old(self)@.absorb(values(elements@), F::modulus())
                    &&& final(self)@.permutations == old(self)@.permutations
                        + SpongeModel::blocks_completed(
                        old(self)@.position,
                        old(self)@.rate(),
                        elements@.len(),
                    )
                },
                Err(e) => {
                    &&& e == SpongeError::AbsorbAfterSqueeze
                    &&& old(self)@.mode is Squeezing
                    &&& *final(self) == *old(self)
                },
            },
    {
        match self.mode {
            SpongeMode::Squeezing => { return Err(SpongeError::AbsorbAfterSqueeze); },
            SpongeMode::Absorbing => {},
        }
        let ghost start = self@;
        let ghost input = values(elements@);
        let ghost p = F::modulus();
        proof {
            F::lemma_modulus_positive();
        }
        for i in 0..elements.len()
            invariant
                start == old(self)@,
                start.wf(),
                input == values(elements@),
                p == F::modulus(),
                p > 0,
                self.wf(),
                self@ == start.absorb(input.take(i as int), p),
        {
            let cell = self.engine.state[self.position].add(&elements[i]);
            self.engine.state[self.position] = cell;
            proof {
                let before = start.absorb(input.take(i as int), p);
                assert(input.take(i + 1).drop_last() =~= input.take(i as int));
                assert(input.take(i + 1).last() == elements@[i as int].value());
                assert(self@.state =~= before.inject(elements@[i as int].value(), p).state);
                lemma_absorb_one_wf(before, elements@[i as int].value(), p);
            }
            self.advance();
        }
        proof {
            assert(input.take(elements.len() as int) =~= input);
            lemma_absorb_blocks(start, input, p);
        }
        Ok(())
    }

    /// Gives out `count` elements. The first squeeze of a session ends the
    /// absorbing: a block that is partly filled is permuted once. Each
    /// element is read from the next rate cell, and each block of `rate`
    /// elements read is followed by one permutation.
    pub fn squeeze(&mut self, count: usize) -> (out: Vec<F>)
        requires
            old(self).wf(),
        ensures
            final(self).wf(),
            final(self)@.mode is Squeezing,
            out@.len() == count,
            final(self)@ == old(self)@.squeezed(count as nat, F::modulus()).0,
            values(out@) == old(self)@.squeezed(count as nat, F::modulus()).1,
    {
        let ghost p = F::modulus();
        proof {
            F::lemma_modulus_positive();
            lemma_start_squeezing_wf(self@, p);
            lemma_squeeze_wf(self@.start_squeezing(p), count as nat, p);
        }
        match self.mode {
            SpongeMode::Squeezing => {},
            SpongeMode::Absorbing => {
                if self.position > 0 {
                    self.permute();
                }
                self.mode = SpongeMode::Squeezing;
            },
        }
        let ghost start = self@;
        let mut out: Vec<F> = Vec::new();
        for k in 0..count
            invariant
                start == old(self)@.start_squeezing(p),
                start.wf(),
                p == F::modulus(),
                p > 0,
                self.wf(),
                out@.len() == k,
                self@ == start.squeeze(k as nat, p).0,
                values(out@) == start.squeeze(k as nat, p).1,
        {
            let ghost read = values(out@);
            let cell = self.engine.state[self.position];
            out.push(cell);
            proof {
                assert(values(out@) =~= read.push(cell.value()));
                lemma_squeeze_wf(start, k as nat, p);
                lemma_permute_wf(self@, p);
            }
            self.advance();
        }
        out
    }
}

} // verus!
