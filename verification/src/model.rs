//! The permutation as mathematics: functions on sequences of natural numbers
//! taken modulo a prime `p`. The executable engine is proved against these.

use vstd::prelude::*;

verus! {

/// What a constants bundle holds, as numbers.
pub struct ConstantsModel {
    /// One key per state cell per round, round after round.
    pub round_keys: Seq<nat>,
    /// The mixing matrix, row by row.
    pub mds_matrix: Seq<Seq<nat>>,
    /// Rounds with the S-box on every cell; half run first, half last.
    pub num_full_rounds: nat,
    /// Rounds with the S-box on the first cell only.
    pub num_partial_rounds: nat,
}

impl ConstantsModel {
    /// Full and partial rounds together.
    pub open spec fn num_rounds(self) -> nat {
        self.num_full_rounds + self.num_partial_rounds
    }

    /// The matrix has `width` rows of `width` entries.
    pub open spec fn square_matrix(self, width: nat) -> bool {
        &&& self.mds_matrix.len() == width
        &&& forall|i: int| 0 <= i < width ==> (#[trigger] self.mds_matrix[i]).len() == width
    }

    /// The bundle fits a state of `width` cells: at least one rate cell
    /// beside the capacity cell, full rounds that split in two halves, one
    /// key per cell per round, and a square matrix.
    pub open spec fn well_formed(self, width: nat) -> bool {
        &&& width >= 2
        &&& self.num_full_rounds % 2 == 0
        &&& self.round_keys.len() == width * self.num_rounds()
        &&& self.square_matrix(width)
    }
}

/// The two kinds of round.
pub enum RoundKind {
    /// The S-box is applied to every cell.
    Full,
    /// The S-box is applied to cell 0 only.
    Partial,
}

/// `x` to the fifth power.
pub open spec fn pow5(x: nat) -> nat {
    x * x * x * x * x
}

/// A state of `width` zeros.
pub open spec fn zero_state(width: nat) -> Seq<nat> {
    Seq::new(width, |i: int| 0nat)
}

/// Cell `i` receives the key at `offset + i`.
pub open spec fn add_round_keys(state: Seq<nat>, keys: Seq<nat>, offset: nat, p: nat) -> Seq<nat> {
    Seq::new(state.len(), |i: int| (state[i] + keys[offset + i]) % p)
}

/// The S-box layer: the fifth power on every cell of a full round, on cell 0
/// alone of a partial round.
pub open spec fn sbox_layer(state: Seq<nat>, kind: RoundKind, p: nat) -> Seq<nat> {
    Seq::new(
        state.len(),
        |i: int|
            if kind is Full || i == 0 {
                pow5(state[i]) % p
            } else {
                state[i]
            },
    )
}

/// The sum of `row[j] * state[j]` over the first `n` cells.
pub open spec fn dot(row: Seq<nat>, state: Seq<nat>, n: nat) -> nat
    decreases n,
{
    if n == 0 {
        0
    } else {
        dot(row, state, (n - 1) as nat) + row[n - 1] * state[n - 1]
    }
}

/// The matrix-vector product: new cell `i` is row `i` times the state.
pub open spec fn mix(state: Seq<nat>, matrix: Seq<Seq<nat>>, p: nat) -> Seq<nat> {
    Seq::new(state.len(), |i: int| dot(matrix[i], state, state.len()) % p)
}

/// One round with its keys at `offset`: keys, S-box layer, mixing.
pub open spec fn round(
    state: Seq<nat>,
    constants: ConstantsModel,
    kind: RoundKind,
    offset: nat,
    p: nat,
) -> Seq<nat> {
    mix(
        sbox_layer(add_round_keys(state, constants.round_keys, offset, p), kind, p),
        constants.mds_matrix,
        p,
    )
}

/// The kind of round number `r`: the partial rounds stand between the two
/// halves of the full rounds.
pub open spec fn round_kind(constants: ConstantsModel, r: nat) -> RoundKind {
    let half = constants.num_full_rounds / 2;
    if r < half || r >= half + constants.num_partial_rounds {
        RoundKind::Full
    } else {
        RoundKind::Partial
    }
}

/// The state after the first `n` rounds. Round `r` takes its keys at
/// `r * width`.
pub open spec fn rounds(state: Seq<nat>, constants: ConstantsModel, n: nat, p: nat) -> Seq<nat>
    decreases n,
{
    if n == 0 {
        state
    } else {
        let r = (n - 1) as nat;
        round(
            rounds(state, constants, r, p),
            constants,
            round_kind(constants, r),
            r * state.len(),
            p,
        )
    }
}

/// The permutation: every round of the schedule, in order.
pub open spec fn permutation(state: Seq<nat>, constants: ConstantsModel, p: nat) -> Seq<nat> {
    rounds(state, constants, constants.num_rounds(), p)
}

/// What an engine holds, as numbers, with the work it has done since it was
/// made or last reset.
pub struct EngineModel {
    /// The state cells.
    pub state: Seq<nat>,
    /// The constants the engine was made with.
    pub constants: ConstantsModel,
    /// The cursor into the round keys.
    pub pos: nat,
    /// How many times the S-box has been applied to a cell.
    pub sbox_applications: nat,
    /// How many permutations have been run.
    pub permutations: nat,
}

impl EngineModel {
    /// An engine as it is made: zero state, cursor at the first key, no work
    /// done.
    pub open spec fn fresh(constants: ConstantsModel, width: nat) -> EngineModel {
        EngineModel {
            state: zero_state(width),
            constants,
            pos: 0,
            sbox_applications: 0,
            permutations: 0,
        }
    }

    /// The engine can run a permutation of `width` cells: its constants fit
    /// the width and the cursor stands at the first key.
    pub open spec fn ready(self, width: nat) -> bool {
        &&& self.state.len() == width
        &&& self.constants.well_formed(width)
        &&& self.pos == 0
    }

    /// The engine after a reset: as it was made, over the same constants.
    pub open spec fn reset(self) -> EngineModel {
        EngineModel::fresh(self.constants, self.state.len())
    }

    /// The engine after one permutation modulo `p`.
    pub open spec fn permuted(self, p: nat) -> EngineModel {
        EngineModel {
            state: permutation(self.state, self.constants, p),
            constants: self.constants,
            pos: self.pos + self.state.len() * self.constants.num_rounds(),
            sbox_applications: self.sbox_applications + self.constants.num_full_rounds
                * self.state.len() + self.constants.num_partial_rounds,
            permutations: self.permutations + 1,
        }
    }
}

/// The rounds keep the number of cells.
pub proof fn lemma_rounds_len(state: Seq<nat>, constants: ConstantsModel, n: nat, p: nat)
    requires
        p > 0,
    ensures
        rounds(state, constants, n, p).len() == state.len(),
    decreases n,
{
    if n > 0 {
        lemma_rounds_len(state, constants, (n - 1) as nat, p);
    }
}

/// An engine that is reset and then permuted holds what an engine newly
/// made over the same constants holds after its first permutation, whatever
/// the engine held before the reset.
pub proof fn lemma_reset_then_permute(used: EngineModel, p: nat)
    ensures
        used.reset().permuted(p) == EngineModel::fresh(
            used.constants,
            used.state.len(),
        ).permuted(p),
        used.reset().permuted(p).state == permutation(
            zero_state(used.state.len()),
            used.constants,
            p,
        ),
        used.constants.well_formed(used.state.len()) ==> used.reset().ready(used.state.len()),
{
}

/// The permutation is a function: engines that hold the same numbers hold
/// the same numbers after it.
pub proof fn lemma_permutation_determined(first: EngineModel, second: EngineModel, p: nat)
    requires
        first.state =~= second.state,
        first.constants == second.constants,
    ensures
        permutation(first.state, first.constants, p) == permutation(
            second.state,
            second.constants,
            p,
        ),
{
}

/// Round `k` of `rounds` finds its `width` keys within the `width * rounds`
/// keys of a well-formed bundle, and the next round starts where it ends.
pub proof fn lemma_round_keys_in_reach(width: nat, rounds: nat, k: nat)
    requires
        k < rounds,
    ensures
        k * width + width <= width * rounds,
        (k + 1) * width == k * width + width,
{
    assert(k * width + width <= width * rounds) by (nonlinear_arith)
        requires
            k + 1 <= rounds,
    ;
    assert((k + 1) * width == k * width + width) by (nonlinear_arith);
}

} // verus!
