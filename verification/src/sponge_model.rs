//! The sponge as mathematics: a state machine on sequences of natural
//! numbers modulo a prime `p`, and what holds of it.

use crate::model::{lemma_rounds_len, permutation, zero_state, ConstantsModel};
use vstd::arithmetic::div_mod::{lemma_fundamental_div_mod, lemma_fundamental_div_mod_converse};
use vstd::prelude::*;

verus! {

/// The two phases of a sponge session.
#[derive(Clone, Copy, Debug, PartialEq, Eq, Structural)]
pub enum SpongeMode {
    /// Input is being taken in.
    Absorbing,
    /// Output is being given out; no input is taken any more.
    Squeezing,
}

/// What a sponge holds, as numbers.
pub struct SpongeModel {
    /// The state cells: the rate cells, then the one capacity cell.
    pub state: Seq<nat>,
    /// The constants of the permutation.
    pub constants: ConstantsModel,
    /// The phase of the session.
    pub mode: SpongeMode,
    /// How many rate cells of the current block are filled (absorbing) or
    /// given out (squeezing).
    pub position: nat,
    /// How many permutations the session has run.
    pub permutations: nat,
}

impl SpongeModel {
    /// The number of rate cells: all cells but the last.
    pub open spec fn rate(self) -> nat {
        (self.state.len() - 1) as nat
    }

    /// A sponge as it is made: zero state, absorbing, nothing filled.
    pub open spec fn fresh(constants: ConstantsModel, width: nat) -> SpongeModel {
        SpongeModel {
            state: zero_state(width),
            constants,
            mode: SpongeMode::Absorbing,
            position: 0,
            permutations: 0,
        }
    }

    /// The constants fit the state and the position is inside the rate.
    pub open spec fn wf(self) -> bool {
        &&& self.constants.well_formed(self.state.len())
        &&& self.position < self.rate()
    }

    /// One permutation of the state; the next block starts at cell 0.
    pub open spec fn permute(self, p: nat) -> SpongeModel {
        SpongeModel {
            state: permutation(self.state, self.constants, p),
            position: 0,
            permutations: self.permutations + 1,
            ..self
        }
    }

    /// `x` is added into the cell at the position. Nothing else is written.
    pub open spec fn inject(self, x: nat, p: nat) -> SpongeModel {
        SpongeModel {
            state: self.state.update(
                self.position as int,
                (self.state[self.position as int] + x) % p,
            ),
            ..self
        }
    }

    /// The position moves on by one cell; a block that is thereby complete
    /// is permuted.
    pub open spec fn advance(self, p: nat) -> SpongeModel {
        if self.position + 1 == self.rate() {
            self.permute(p)
        } else {
            SpongeModel { position: self.position + 1, ..self }
        }
    }

    /// One element is absorbed.
    pub open spec fn absorb_one(self, x: nat, p: nat) -> SpongeModel {
        self.inject(x, p).advance(p)
    }

    /// The elements are absorbed in order.
    pub open spec fn absorb(self, elements: Seq<nat>, p: nat) -> SpongeModel
        decreases elements.len(),
    {
        if elements.len() == 0 {
            self
        } else {
            self.absorb(elements.drop_last(), p).absorb_one(elements.last(), p)
        }
    }

    /// The step from absorbing to squeezing: a block that is partly filled is
    /// permuted once. A sponge that is squeezing already stays as it is.
    pub open spec fn start_squeezing(self, p: nat) -> SpongeModel {
        match self.mode {
            SpongeMode::Squeezing => self,
            SpongeMode::Absorbing => {
                let flushed = if self.position > 0 {
                    self.permute(p)
                } else {
                    self
                };
                SpongeModel { mode: SpongeMode::Squeezing, ..flushed }
            },
        }
    }

    /// The sponge after `n` elements are read, and the elements.
    pub open spec fn squeeze(self, n: nat, p: nat) -> (SpongeModel, Seq<nat>)
        decreases n,
    {
        if n == 0 {
            (self, Seq::empty())
        } else {
            let (before, out) = self.squeeze((n - 1) as nat, p);
            (before.advance(p), out.push(before.state[before.position as int]))
        }
    }

    /// What a call for `n` elements does, whatever the phase: the step to
    /// squeezing, then `n` reads.
    pub open spec fn squeezed(self, n: nat, p: nat) -> (SpongeModel, Seq<nat>) {
        self.start_squeezing(p).squeeze(n, p)
    }

    /// How many permutations the absorption of `n` elements runs when
    /// `position` rate cells are filled already: one per block completed.
    pub open spec fn blocks_completed(position: nat, rate: nat, n: nat) -> nat {
        (position + n) / rate
    }
}

/// Permuting keeps a sponge well formed.
pub proof fn lemma_permute_wf(m: SpongeModel, p: nat)
    requires
        m.wf(),
        p > 0,
    ensures
        m.permute(p).wf(),
        m.permute(p).state.len() == m.state.len(),
{
    lemma_rounds_len(m.state, m.constants, m.constants.num_rounds(), p);
}

/// Absorbing one element keeps a sponge well formed.
pub proof fn lemma_absorb_one_wf(m: SpongeModel, x: nat, p: nat)
    requires
        m.wf(),
        p > 0,
    ensures
        m.absorb_one(x, p).wf(),
        m.absorb_one(x, p).state.len() == m.state.len(),
        m.absorb_one(x, p).mode == m.mode,
        m.absorb_one(x, p).constants == m.constants,
{
    lemma_permute_wf(m.inject(x, p), p);
}

/// Absorbing never writes the capacity cell: the one cell that `inject`
/// changes is a rate cell, and every other cell, the capacity cell among
/// them, keeps its value until the next permutation.
pub proof fn lemma_inject_spares_capacity(m: SpongeModel, x: nat, p: nat)
    requires
        m.wf(),
        p > 0,
    ensures
        m.position < m.rate(),
        m.inject(x, p).state[m.rate() as int] == m.state[m.rate() as int],
        forall|i: int|
            0 <= i < m.state.len() && i != m.position ==> m.inject(x, p).state[i] == m.state[i],
{
}

/// As long as no block is completed, absorbing leaves the capacity cell as
/// it was and runs no permutation.
pub proof fn lemma_absorb_spares_capacity(m: SpongeModel, elements: Seq<nat>, p: nat)
    requires
        m.wf(),
        p > 0,
        m.position + elements.len() < m.rate(),
    ensures
        m.absorb(elements, p).state[m.rate() as int] == m.state[m.rate() as int],
        m.absorb(elements, p).permutations == m.permutations,
        m.absorb(elements, p).position == m.position + elements.len(),
        m.absorb(elements, p).state.len() == m.state.len(),
        m.absorb(elements, p).wf(),
    decreases elements.len(),
{
    if elements.len() > 0 {
        lemma_absorb_spares_capacity(m, elements.drop_last(), p);
        let before = m.absorb(elements.drop_last(), p);
        lemma_inject_spares_capacity(before, elements.last(), p);
    }
}

/// Absorbing keeps a sponge well formed, in its mode and with its
/// constants; it completes one block per `rate` elements, and the position
/// is what is left over.
pub proof fn lemma_absorb_blocks(m: SpongeModel, elements: Seq<nat>, p: nat)
    requires
        m.wf(),
        p > 0,
    ensures
        m.absorb(elements, p).wf(),
        m.absorb(elements, p).state.len() == m.state.len(),
        m.absorb(elements, p).mode == m.mode,
        m.absorb(elements, p).constants == m.constants,
        m.absorb(elements, p).permutations == m.permutations + SpongeModel::blocks_completed(
            m.position,
            m.rate(),
            elements.len(),
        ),
        m.absorb(elements, p).position == (m.position + elements.len()) % m.rate(),
    decreases elements.len(),
{
    let rate = m.rate() as int;
    if elements.len() == 0 {
        lemma_fundamental_div_mod_converse(m.position as int, rate, 0, m.position as int);
    } else {
        let front = elements.drop_last();
        lemma_absorb_blocks(m, front, p);
        let before = m.absorb(front, p);
        lemma_absorb_one_wf(before, elements.last(), p);
        let total = (m.position + front.len()) as int;
        lemma_fundamental_div_mod(total, rate);
        let q = total / rate;
        let r = total % rate;
        assert(rate * q == q * rate) by (nonlinear_arith);
        if r + 1 == rate {
            assert(total + 1 == (q + 1) * rate + 0) by (nonlinear_arith)
                requires
                    total == q * rate + r,
                    r + 1 == rate,
            ;
            lemma_fundamental_div_mod_converse(total + 1, rate, q + 1, 0);
        } else {
            lemma_fundamental_div_mod_converse(total + 1, rate, q, r + 1);
        }
    }
}

/// Absorbing exactly `k` blocks into a sponge whose block is empty runs
/// exactly `k` permutations and leaves the block empty again; one block
/// runs one.
pub proof fn lemma_block_alignment(m: SpongeModel, elements: Seq<nat>, k: nat, p: nat)
    requires
        m.wf(),
        p > 0,
        m.position == 0,
        elements.len() == k * m.rate(),
    ensures
        m.absorb(elements, p).permutations == m.permutations + k,
        m.absorb(elements, p).position == 0,
{
    lemma_absorb_blocks(m, elements, p);
    lemma_fundamental_div_mod_converse(elements.len() as int, m.rate() as int, k as int, 0);
}

/// Reading keeps a sponge well formed and squeezing, and gives exactly the
/// number of elements asked for.
pub proof fn lemma_squeeze_wf(m: SpongeModel, n: nat, p: nat)
    requires
        m.wf(),
        p > 0,
    ensures
        m.squeeze(n, p).0.wf(),
        m.squeeze(n, p).0.state.len() == m.state.len(),
        m.squeeze(n, p).0.mode == m.mode,
        m.squeeze(n, p).0.constants == m.constants,
        m.squeeze(n, p).1.len() == n,
    decreases n,
{
    if n > 0 {
        lemma_squeeze_wf(m, (n - 1) as nat, p);
        lemma_permute_wf(m.squeeze((n - 1) as nat, p).0, p);
    }
}

/// The step to squeezing keeps a sponge well formed and leaves it squeezing.
pub proof fn lemma_start_squeezing_wf(m: SpongeModel, p: nat)
    requires
        m.wf(),
        p > 0,
    ensures
        m.start_squeezing(p).wf(),
        m.start_squeezing(p).state.len() == m.state.len(),
        m.start_squeezing(p).mode is Squeezing,
        m.start_squeezing(p).constants == m.constants,
        m.start_squeezing(p).start_squeezing(p) == m.start_squeezing(p),
{
    lemma_permute_wf(m, p);
}

/// Squeezing never gives out the capacity cell: each element read is the
/// rate cell at the position of the sponge as it stood before that read.
pub proof fn lemma_squeeze_reads_rate_cells(m: SpongeModel, n: nat, p: nat)
    requires
        m.wf(),
        p > 0,
        n > 0,
    ensures
        ({
            let before = m.squeeze((n - 1) as nat, p).0;
            &&& before.position < before.rate()
            &&& m.squeeze(n, p).1[n - 1] == before.state[before.position as int]
        }),
{
    lemma_squeeze_wf(m, (n - 1) as nat, p);
}

/// Reading does not change the phase.
pub proof fn lemma_squeeze_keeps_mode(m: SpongeModel, n: nat, p: nat)
    ensures
        m.squeeze(n, p).0.mode == m.mode,
    decreases n,
{
    if n > 0 {
        lemma_squeeze_keeps_mode(m, (n - 1) as nat, p);
    }
}

/// Reading `a` elements and then `b` gives what reading `a + b` at once
/// gives, and leaves the same sponge.
pub proof fn lemma_squeeze_split(m: SpongeModel, a: nat, b: nat, p: nat)
    ensures
        m.squeeze(a + b, p).0 == m.squeeze(a, p).0.squeeze(b, p).0,
        m.squeeze(a + b, p).1 == m.squeeze(a, p).1 + m.squeeze(a, p).0.squeeze(b, p).1,
    decreases b,
{
    let first = m.squeeze(a, p);
    if b == 0 {
        assert(first.1 + Seq::<nat>::empty() =~= first.1);
    } else {
        lemma_squeeze_split(m, a, (b - 1) as nat, p);
        let rest = first.0.squeeze((b - 1) as nat, p);
        let cell = rest.0.state[rest.0.position as int];
        assert((first.1 + rest.1).push(cell) =~= first.1 + rest.1.push(cell));
    }
}

/// A call for `a` elements followed by a call for `b` gives the first
/// `a + b` elements that one call for `a + b` gives, and leaves the same
/// sponge; each call gives exactly the number it was asked for.
pub proof fn lemma_two_squeezes_are_one(m: SpongeModel, a: nat, b: nat, p: nat)
    ensures
        m.squeezed(a, p).1.len() == a,
        m.squeezed(a, p).0.squeezed(b, p).1.len() == b,
        m.squeezed(a + b, p).1 == m.squeezed(a, p).1 + m.squeezed(a, p).0.squeezed(b, p).1,
        m.squeezed(a + b, p).0 == m.squeezed(a, p).0.squeezed(b, p).0,
{
    let start = m.start_squeezing(p);
    lemma_squeeze_keeps_mode(start, a, p);
    lemma_squeeze_split(start, a, b, p);
    lemma_squeeze_len(start, a, p);
    lemma_squeeze_len(start.squeeze(a, p).0, b, p);
}

/// Reading `n` elements gives `n` elements.
pub proof fn lemma_squeeze_len(m: SpongeModel, n: nat, p: nat)
    ensures
        m.squeeze(n, p).1.len() == n,
    decreases n,
{
    if n > 0 {
        lemma_squeeze_len(m, (n - 1) as nat, p);
    }
}

/// Absorbing one sequence and then another is absorbing the two joined:
/// how the input is cut into calls does not matter.
pub proof fn lemma_absorb_concat(m: SpongeModel, first: Seq<nat>, second: Seq<nat>, p: nat)
    ensures
        m.absorb(first + second, p) == m.absorb(first, p).absorb(second, p),
    decreases second.len(),
{
    if second.len() == 0 {
        assert(first + second =~= first);
    } else {
        lemma_absorb_concat(m, first, second.drop_last(), p);
        assert((first + second).drop_last() =~= first + second.drop_last());
    }
}

/// A session is determined by what goes in: sponges that hold the same
/// numbers and absorb the same numbers give out the same numbers, and are
/// left holding the same numbers.
pub proof fn lemma_session_determined(
    first: SpongeModel,
    second: SpongeModel,
    first_input: Seq<nat>,
    second_input: Seq<nat>,
    n: nat,
    p: nat,
)
    requires
        first == second,
        first_input =~= second_input,
    ensures
        first.absorb(first_input, p).squeezed(n, p) == second.absorb(second_input, p).squeezed(
            n,
            p,
        ),
{
}

} // verus!
