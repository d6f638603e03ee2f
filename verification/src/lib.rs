//! The Poseidon permutation over a prime field, and a sponge built on it.
//!
//! [`Poseidon`] is the permutation engine: a state of field elements that
//! [`Poseidon::permute`] mixes by a fixed schedule of full and partial
//! rounds. [`PoseidonSponge`] turns it into a hash of field elements:
//! absorb the input, then squeeze the output. Both are generic over the
//! field, a [`PoseidonField`]; [`secp256k1`] holds the two fields of that
//! curve.
//!
//! Every contract is stated over natural numbers modulo the field's prime:
//! [`model`] says what the permutation computes, [`sponge_model`] what the
//! sponge does, and the executable code is proved to compute just that.

pub mod bytes;
pub mod constants;
pub mod model;
pub mod secp256k1;
pub mod sponge;
pub mod sponge_model;
pub mod traits;

pub use constants::ConfigError;
pub use sponge::{PoseidonSponge, SpongeError};
pub use sponge_model::SpongeMode;

pub use traits::PoseidonField;

use constants::{readiness, shape_check};

use model::{
    add_round_keys, dot, lemma_round_keys_in_reach, lemma_rounds_len, mix, pow5, round,
    round_kind, rounds, sbox_layer, zero_state, EngineModel, RoundKind,
};
use traits::values;
use vstd::arithmetic::div_mod::{lemma_add_mod_noop, lemma_mul_mod_noop_general};
use vstd::prelude::*;

verus! {

/// The constants of one Poseidon instance: round keys, mixing matrix and the
/// two round counts.
#[derive(Debug, PartialEq, Eq)]
pub struct PoseidonConstants<F: PoseidonField> {
    /// One key per state cell per round: the key of cell `i` in round `r`
    /// stands at `r * width + i`.
    pub round_keys: Vec<F>,
    /// The mixing matrix: entry `[i][j]` is what input cell `j` contributes
    /// to output cell `i`.
    pub mds_matrix: Vec<Vec<F>>,
    /// Rounds with the S-box on every cell. Half of them run before the
    /// partial rounds and half after, so the number is even.
    pub num_full_rounds: usize,
    /// Rounds with the S-box on the first cell only.
    pub num_partial_rounds: usize,
}

/// The reference tables of a field: the bundles for the two widths that
/// constants are published for.
#[derive(Debug, PartialEq, Eq)]
pub struct ReferenceConstants<F: PoseidonField> {
    /// The bundle for a state of 3 cells.
    pub width3: PoseidonConstants<F>,
    /// The bundle for a state of 9 cells.
    pub width9: PoseidonConstants<F>,
}

/// The permutation engine: a state of `WIDTH` field elements, the constants
/// and a cursor into the round keys.
pub struct Poseidon<F: PoseidonField, const WIDTH: usize> {
    /// The state cells.
    pub state: [F; WIDTH],
    /// The constants the engine was made with.
    pub constants: PoseidonConstants<F>,
    /// The cursor into the round keys: it moves on by `WIDTH` with every
    /// round.
    pub pos: usize,
    /// S-box applications since the engine was made or last reset.
    pub sbox_applications: Ghost<nat>,
    /// Permutations since the engine was made or last reset.
    pub permutations: Ghost<nat>,
}

impl<F: PoseidonField, const WIDTH: usize> View for Poseidon<F, WIDTH> {
    type V = EngineModel;

    open spec fn view(&self) -> EngineModel {
        EngineModel {
            state: values(self.state@),
            constants: self.constants@,
            pos: self.pos as nat,
            sbox_applications: self.sbox_applications@,
            permutations: self.permutations@,
        }
    }
}

impl<F: PoseidonField, const WIDTH: usize> Clone for Poseidon<F, WIDTH> {
    fn clone(&self) -> (copy: Self)
        ensures
            copy@ == self@,
            copy.state == self.state,
            copy.constants.same_as(&self.constants),
            copy.pos == self.pos,
    {
        Poseidon {
            state: self.state,
            constants: self.constants.clone(),
            pos: self.pos,
            sbox_applications: self.sbox_applications,
            permutations: self.permutations,
        }
    }
}

impl<F: PoseidonField, const WIDTH: usize> Poseidon<F, WIDTH> {
    /// An engine with a zero state over `constants`. The constants are taken
    /// as they are: [`Poseidon::try_new`] is the constructor that checks
    /// them, and [`Poseidon::check`] tells of an engine whether it can run.
    pub fn new(constants: PoseidonConstants<F>) -> (engine: Self)
        ensures
            engine@ == EngineModel::fresh(constants@, WIDTH as nat),
            engine.constants == constants,
    {
        let state = [F::zero();WIDTH];
        let engine = Self {
            state,
            constants,
            pos: 0,
            sbox_applications: Ghost(0),
            permutations: Ghost(0),
        };
        assert(engine@.state =~= zero_state(WIDTH as nat));
        engine
    }

    /// An engine with a zero state over `constants`, if they fit the width;
    /// the first fault of the constants if they do not.
    pub fn try_new(constants: PoseidonConstants<F>) -> (r: Result<Self, ConfigError>)
        ensures
            match r {
                Ok(engine) => {
                    &&& constants@.well_formed(WIDTH as nat)
                    &&& engine@ == EngineModel::fresh(constants@, WIDTH as nat)
                    &&& engine@.ready(WIDTH as nat)
                    &&& engine.constants == constants
                },
                Err(e) => shape_check(constants@, WIDTH as nat) == Err::<(), ConfigError>(e),
            },
    {
        match constants.validate(WIDTH) {
            Err(e) => Err(e),
            Ok(()) => Ok(Self::new(constants)),
        }
    }

    /// Runs the permutation on the state: half of the full rounds, the
    /// partial rounds, the other half of the full rounds. The cursor ends
    /// behind the last key.
    pub fn permute(&mut self)
        requires
            old(self)@.ready(WIDTH as nat),
        ensures
            final(self)@ == old(self)@.permuted(F::modulus()),
            final(self)@.sbox_applications == old(self)@.sbox_applications + old(
                self,
            ).constants.num_full_rounds * WIDTH + old(self).constants.num_partial_rounds,
            final(self).constants == old(self).constants,
    {
        proof {
            F::lemma_modulus_positive();
        }
        let full_rounds_half = self.constants.num_full_rounds / 2;
        let ghost start = self@;
        let ghost c = start.constants;
        let ghost p = F::modulus();
        let ghost half = c.num_full_rounds / 2;

        // First half of full rounds
        for k in 0..full_rounds_half
            invariant
                start == old(self)@,
                start.ready(WIDTH as nat),
                c == start.constants,
                p == F::modulus(),
                p > 0,
                half == c.num_full_rounds / 2,
                full_rounds_half == half,
                self.constants == old(self).constants,
                self@.state == rounds(start.state, c, k as nat, p),
                self.pos == k * WIDTH,
                self.sbox_applications@ == start.sbox_applications + k * WIDTH,
                self.permutations@ == start.permutations,
        {
            proof {
                lemma_round_keys_in_reach(WIDTH as nat, c.num_rounds(), k as nat);
                lemma_rounds_len(start.state, c, k as nat, p);
                assert(round_kind(c, k as nat) is Full);
            }
            self.full_round();
        }

        // Partial rounds
        let partial_rounds = self.constants.num_partial_rounds;
        for j in 0..partial_rounds
            invariant
                partial_rounds == c.num_partial_rounds,
                start == old(self)@,
                start.ready(WIDTH as nat),
                c == start.constants,
                p == F::modulus(),
                p > 0,
                half == c.num_full_rounds / 2,
                full_rounds_half == half,
                self.constants == old(self).constants,
                self@.state == rounds(start.state, c, half + j as nat, p),
                self.pos == (half + j) * WIDTH,
                self.sbox_applications@ == start.sbox_applications + half * WIDTH + j,
                self.permutations@ == start.permutations,
        {
            proof {
                lemma_round_keys_in_reach(WIDTH as nat, c.num_rounds(), half + j as nat);
                lemma_rounds_len(start.state, c, half + j as nat, p);
                assert(round_kind(c, half + j as nat) is Partial);
            }
            self.partial_round();
        }

        // Second half of full rounds
        for k in 0..full_rounds_half
            invariant
                start == old(self)@,
                start.ready(WIDTH as nat),
                c == start.constants,
                p == F::modulus(),
                p > 0,
                half == c.num_full_rounds / 2,
                full_rounds_half == half,
                self.constants == old(self).constants,
                self@.state == rounds(
                    start.state,
                    c,
                    half + c.num_partial_rounds + k as nat,
                    p,
                ),
                self.pos == (half + c.num_partial_rounds + k) * WIDTH,
                self.sbox_applications@ == start.sbox_applications + half * WIDTH
                    + c.num_partial_rounds + k * WIDTH,
                self.permutations@ == start.permutations,
        {
            proof {
                let r = half + c.num_partial_rounds + k as nat;
                lemma_round_keys_in_reach(WIDTH as nat, c.num_rounds(), r);
                lemma_rounds_len(start.state, c, r, p);
                assert(round_kind(c, r) is Full);
                assert((k + 1) * WIDTH == k * WIDTH + WIDTH) by (nonlinear_arith);
            }
            self.full_round();
        }
        proof {
            assert(half + c.num_partial_rounds + half == c.num_rounds());
            assert(half * WIDTH + half * WIDTH == c.num_full_rounds * WIDTH) by (nonlinear_arith)
                requires
                    half + half == c.num_full_rounds,
            ;
            assert(c.num_rounds() * WIDTH == WIDTH * c.num_rounds()) by (nonlinear_arith);
        }
        self.permutations = Ghost(self.permutations@ + 1);
    }

    /// Whether [`Poseidon::permute`] can run, and if not, why.
    pub fn check(&self) -> (r: Result<(), ConfigError>)
        ensures
            r == readiness(self@, WIDTH as nat),
            r is Ok <==> self@.ready(WIDTH as nat),
    {
        match self.constants.validate(WIDTH) {
            Err(e) => Err(e),
            Ok(()) => if self.pos != 0 {
                Err(ConfigError::RoundKeysExhausted)
            } else {
                Ok(())
            },
        }
    }

    /// Runs the permutation if the engine is ready for it, and leaves the
    /// engine as it is if not.
    pub fn try_permute(&mut self) -> (r: Result<(), ConfigError>)
        ensures
            r == readiness(old(self)@, WIDTH as nat),
            r is Ok ==> final(self)@ == old(self)@.permuted(F::modulus()),
            r is Err ==> *final(self) == *old(self),
            final(self).constants == old(self).constants,
    {
        match self.check() {
            Err(e) => Err(e),
            Ok(()) => {
                self.permute();
                Ok(())
            },
        }
    }

    /// Sets the state to zero and the cursor to the first key. The constants
    /// stay.
    pub fn reset(&mut self)
        ensures
            final(self)@ == old(self)@.reset(),
            final(self).constants == old(self).constants,
    {
        self.state = [F::zero();WIDTH];
        self.pos = 0;
        self.sbox_applications = Ghost(0);
        self.permutations = Ghost(0);
        assert(self@.state =~= zero_state(WIDTH as nat));
    }

    fn add_constants(&mut self)
        requires
            old(self).pos + WIDTH <= old(self).constants.round_keys.len(),
        ensures
            final(self)@.state == add_round_keys(
                old(self)@.state,
                old(self)@.constants.round_keys,
                old(self).pos as nat,
                F::modulus(),
            ),
            final(self).constants == old(self).constants,
            final(self).pos == old(self).pos,
            final(self).sbox_applications == old(self).sbox_applications,
            final(self).permutations == old(self).permutations,
    {
        proof {
            F::lemma_modulus_positive();
        }
        let ghost before = self@.state;
        let ghost keys = self@.constants.round_keys;
        for i in 0..WIDTH
            invariant
                self.constants == old(self).constants,
                self.pos == old(self).pos,
                self.sbox_applications == old(self).sbox_applications,
                self.permutations == old(self).permutations,
                self.pos + WIDTH <= self.constants.round_keys.len(),
                before == old(self)@.state,
                keys == self@.constants.round_keys,
                F::modulus() > 0,
                forall|k: int|
                    0 <= k < i ==> (#[trigger] self.state@[k]).value() == (before[k] + keys[
                        self.pos + k]) % F::modulus(),
                forall|k: int| i <= k < WIDTH ==> (#[trigger] self.state@[k]).value() == before[k],
        {
            let sum = self.state[i].add(&self.constants.round_keys[i + self.pos]);
            self.state[i] = sum;
        }
        assert(self@.state =~= add_round_keys(before, keys, self.pos as nat, F::modulus()));
    }

    fn sbox(&mut self, i: usize)
        requires
            i < WIDTH,
        ensures
            final(self).state@[i as int].value() == pow5(old(self).state@[i as int].value())
                % F::modulus(),
            forall|k: int|
                0 <= k < WIDTH && k != i ==> final(self).state@[k] == old(self).state@[k],
            final(self).constants == old(self).constants,
            final(self).pos == old(self).pos,
            final(self).sbox_applications@ == old(self).sbox_applications@ + 1,
            final(self).permutations == old(self).permutations,
    {
        let x = self.state[i];
        let x2 = x.square();
        let x4 = x2.square();
        let x5 = x4.mul(&x);
        proof {
            F::lemma_modulus_positive();
            let p = F::modulus() as int;
            let v = x.value() as int;
            lemma_mul_mod_noop_general(v * v, v * v, p);
            lemma_mul_mod_noop_general((v * v) * (v * v), v, p);
            assert((v * v) * (v * v) * v == v * v * v * v * v) by (nonlinear_arith);
        }
        self.state[i] = x5;
        self.sbox_applications = Ghost(self.sbox_applications@ + 1);
    }

    fn matrix_mul(&mut self)
        requires
            old(self)@.constants.square_matrix(WIDTH as nat),
        ensures
            final(self)@.state == mix(
                old(self)@.state,
                old(self)@.constants.mds_matrix,
                F::modulus(),
            ),
            final(self).constants == old(self).constants,
            final(self).pos == old(self).pos,
            final(self).sbox_applications == old(self).sbox_applications,
            final(self).permutations == old(self).permutations,
    {
        proof {
            F::lemma_modulus_positive();
        }
        let ghost state = self@.state;
        let ghost matrix = self@.constants.mds_matrix;
        let mut result = [F::zero();WIDTH];
        for i in 0..WIDTH
            invariant
                *self == *old(self),
                state == self@.state,
                matrix == self@.constants.mds_matrix,
                self@.constants.square_matrix(WIDTH as nat),
                F::modulus() > 0,
                forall|k: int|
                    0 <= k < i ==> (#[trigger] result@[k]).value() == dot(
                        matrix[k],
                        state,
                        WIDTH as nat,
                    ) % F::modulus(),
        {
            let mut tmp = F::zero();
            assert(self.constants.mds_matrix@[i as int]@.len() == WIDTH) by {
                assert(matrix[i as int].len() == WIDTH);
            }
            for j in 0..WIDTH
                invariant
                    *self == *old(self),
                    i < WIDTH,
                    state == self@.state,
                    matrix == self@.constants.mds_matrix,
                    self.constants.mds_matrix@.len() == WIDTH,
                    self.constants.mds_matrix@[i as int]@.len() == WIDTH,
                    F::modulus() > 0,
                    tmp.value() == dot(matrix[i as int], state, j as nat) % F::modulus(),
            {
                let term = self.constants.mds_matrix[i][j].mul(&self.state[j]);
                let next = tmp.add(&term);
                proof {
                    let p = F::modulus() as int;
                    let acc = dot(matrix[i as int], state, j as nat) as int;
                    let t = (matrix[i as int][j as int] * state[j as int]) as int;
                    lemma_add_mod_noop(acc, t, p);
                    assert(dot(matrix[i as int], state, (j + 1) as nat) == acc + t);
                }
                tmp = next;
            }
            result[i] = tmp;
        }
        self.state = result;
        assert(self@.state =~= mix(state, matrix, F::modulus()));
    }

    fn full_round(&mut self)
        requires
            old(self)@.constants.square_matrix(WIDTH as nat),
            old(self).pos + WIDTH <= old(self).constants.round_keys.len(),
        ensures
            final(self)@.state == round(
                old(self)@.state,
                old(self)@.constants,
                RoundKind::Full,
                old(self).pos as nat,
                F::modulus(),
            ),
            final(self).constants == old(self).constants,
            final(self).pos == old(self).pos + WIDTH,
            final(self).sbox_applications@ == old(self).sbox_applications@ + WIDTH,
            final(self).permutations == old(self).permutations,
    {
        proof {
            F::lemma_modulus_positive();
        }
        let t = self.state.len();
        self.add_constants();
        let ghost keyed = self@.state;
        for i in 0..t
            invariant
                t == WIDTH,
                self.constants == old(self).constants,
                self.pos == old(self).pos,
                self.sbox_applications@ == old(self).sbox_applications@ + i,
                self.permutations == old(self).permutations,
                keyed.len() == WIDTH,
                forall|k: int|
                    0 <= k < i ==> (#[trigger] self.state@[k]).value() == pow5(keyed[k])
                        % F::modulus(),
                forall|k: int| i <= k < WIDTH ==> (#[trigger] self.state@[k]).value() == keyed[k],
        {
            self.sbox(i);
        }
        assert(self@.state =~= sbox_layer(keyed, RoundKind::Full, F::modulus()));
        self.matrix_mul();
        self.pos += self.state.len();
    }

    fn partial_round(&mut self)
        requires
            WIDTH >= 1,
            old(self)@.constants.square_matrix(WIDTH as nat),
            old(self).pos + WIDTH <= old(self).constants.round_keys.len(),
        ensures
            final(self)@.state == round(
                old(self)@.state,
                old(self)@.constants,
                RoundKind::Partial,
                old(self).pos as nat,
                F::modulus(),
            ),
            final(self).constants == old(self).constants,
            final(self).pos == old(self).pos + WIDTH,
            final(self).sbox_applications@ == old(self).sbox_applications@ + 1,
            final(self).permutations == old(self).permutations,
    {
        proof {
            F::lemma_modulus_positive();
        }
        self.add_constants();
        let ghost keyed = self@.state;
        self.sbox(0);
        assert(self@.state =~= sbox_layer(keyed, RoundKind::Partial, F::modulus()));
        self.matrix_mul();
        self.pos += self.state.len();
    }
}

} // verus!
