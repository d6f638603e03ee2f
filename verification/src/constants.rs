//! Checking a constants bundle against a width.

use crate::model::{ConstantsModel, EngineModel};
use crate::traits::{values, PoseidonField};
use crate::{PoseidonConstants, ReferenceConstants};
use vstd::prelude::*;

verus! {

/// Why a constants bundle cannot drive a permutation of a given width.
#[derive(Clone, Copy, Debug, PartialEq, Eq, Structural)]
pub enum ConfigError {
    /// The width is below 2: no rate cell beside the capacity cell.
    WidthTooSmall,
    /// The number of full rounds is odd and cannot be halved.
    OddFullRounds,
    /// The round keys are not one per cell per round.
    RoundKeysLength,
    /// The matrix is not `width` rows of `width` entries.
    MatrixShape,
    /// The cursor is not at the first key, so the keys left are too few for
    /// a permutation.
    RoundKeysExhausted,
    /// No bundle is known for the width.
    UnsupportedWidth,
}

/// What is wrong with a bundle for `width`, if anything: the first of the
/// conditions of [`ConstantsModel::well_formed`] that fails.
pub open spec fn shape_check(constants: ConstantsModel, width: nat) -> Result<(), ConfigError> {
    if width < 2 {
        Err(ConfigError::WidthTooSmall)
    } else if constants.num_full_rounds % 2 != 0 {
        Err(ConfigError::OddFullRounds)
    } else if constants.round_keys.len() != width * constants.num_rounds() {
        Err(ConfigError::RoundKeysLength)
    } else if !constants.square_matrix(width) {
        Err(ConfigError::MatrixShape)
    } else {
        Ok(())
    }
}

/// What keeps an engine of `width` cells from running a permutation, if
/// anything: a fault of its constants, or a cursor that has moved.
pub open spec fn readiness(engine: EngineModel, width: nat) -> Result<(), ConfigError> {
    match shape_check(engine.constants, width) {
        Err(e) => Err(e),
        Ok(()) => if engine.pos != 0 {
            Err(ConfigError::RoundKeysExhausted)
        } else {
            Ok(())
        },
    }
}

/// What a field's reference tables hold, as numbers.
pub struct ReferenceModel {
    /// The bundle for width 3.
    pub width3: ConstantsModel,
    /// The bundle for width 9.
    pub width9: ConstantsModel,
}

impl ReferenceModel {
    /// The bundle for `width`: the tables know widths 3 and 9, and give a
    /// bundle out only if it fits the width it stands for.
    pub open spec fn lookup(self, width: nat) -> Result<ConstantsModel, ConfigError> {
        if width == 3 {
            match shape_check(self.width3, 3) {
                Ok(()) => Ok(self.width3),
                Err(e) => Err(e),
            }
        } else if width == 9 {
            match shape_check(self.width9, 9) {
                Ok(()) => Ok(self.width9),
                Err(e) => Err(e),
            }
        } else {
            Err(ConfigError::UnsupportedWidth)
        }
    }
}

impl<F: PoseidonField> View for ReferenceConstants<F> {
    type V = ReferenceModel;

    open spec fn view(&self) -> ReferenceModel {
        ReferenceModel { width3: self.width3@, width9: self.width9@ }
    }
}

impl<F: PoseidonField> View for PoseidonConstants<F> {
    type V = ConstantsModel;

    open spec fn view(&self) -> ConstantsModel {
        ConstantsModel {
            round_keys: values(self.round_keys@),
            mds_matrix: Seq::new(
                self.mds_matrix@.len(),
                |i: int| values(self.mds_matrix@[i]@),
            ),
            num_full_rounds: self.num_full_rounds as nat,
            num_partial_rounds: self.num_partial_rounds as nat,
        }
    }
}

fn copy_elements<F: PoseidonField>(elements: &Vec<F>) -> (copy: Vec<F>)
    ensures
        copy@ == elements@,
{
    let mut copy: Vec<F> = Vec::new();
    for i in 0..elements.len()
        invariant
            copy@ == elements@.take(i as int),
    {
        copy.push(elements[i]);
        assert(elements@.take(i + 1) =~= elements@.take(i as int).push(elements@[i as int]));
    }
    assert(elements@.take(elements.len() as int) =~= elements@);
    copy
}

impl<F: PoseidonField> PoseidonConstants<F> {
    /// The two bundles hold the same elements in the same places, and the
    /// same round counts.
    pub open spec fn same_as(&self, other: &Self) -> bool {
        &&& self.round_keys@ == other.round_keys@
        &&& self.mds_matrix@.len() == other.mds_matrix@.len()
        &&& forall|i: int|
            0 <= i < self.mds_matrix@.len() ==> (#[trigger] self.mds_matrix@[i])@
                == other.mds_matrix@[i]@
        &&& self.num_full_rounds == other.num_full_rounds
        &&& self.num_partial_rounds == other.num_partial_rounds
    }
}

impl<F: PoseidonField> Clone for PoseidonConstants<F> {
    fn clone(&self) -> (copy: Self)
        ensures
            copy.same_as(self),
            copy@ == self@,
    {
        let mut mds_matrix: Vec<Vec<F>> = Vec::new();
        for i in 0..self.mds_matrix.len()
            invariant
                mds_matrix@.len() == i,
                forall|k: int| 0 <= k < i ==> (#[trigger] mds_matrix@[k])@ == self.mds_matrix@[k]@,
        {
            mds_matrix.push(copy_elements(&self.mds_matrix[i]));
        }
        let copy = PoseidonConstants {
            round_keys: copy_elements(&self.round_keys),
            mds_matrix,
            num_full_rounds: self.num_full_rounds,
            num_partial_rounds: self.num_partial_rounds,
        };
        assert(copy@.mds_matrix =~= self@.mds_matrix);
        copy
    }
}

impl<F: PoseidonField> ReferenceConstants<F> {
    /// The constants for a permutation of `width` cells, out of the tables.
    /// Widths other than 3 and 9 are refused, and so is a table that does
    /// not fit the width it stands for.
    pub fn poseidon_constants(&self, width: usize) -> (r: Result<PoseidonConstants<F>, ConfigError>)
        ensures
            match r {
                Ok(constants) => {
                    &&& self@.lookup(width as nat) == Ok::<ConstantsModel, ConfigError>(
                        constants@,
                    )
                    &&& width == 3 ==> constants.same_as(&self.width3)
                    &&& width == 9 ==> constants.same_as(&self.width9)
                    &&& constants@.well_formed(width as nat)
                },
                Err(e) => self@.lookup(width as nat) == Err::<ConstantsModel, ConfigError>(e),
            },
    {
        if width == 3 {
            match self.width3.validate(3) {
                Ok(()) => Ok(self.width3.clone()),
                Err(e) => Err(e),
            }
        } else if width == 9 {
            match self.width9.validate(9) {
                Ok(()) => Ok(self.width9.clone()),
                Err(e) => Err(e),
            }
        } else {
            Err(ConfigError::UnsupportedWidth)
        }
    }
}

impl<F: PoseidonField> PoseidonConstants<F> {
    /// Checks the bundle against `width` and names the first fault.
    pub fn validate(&self, width: usize) -> (r: Result<(), ConfigError>)
        ensures
            r == shape_check(self@, width as nat),
            r is Ok <==> self@.well_formed(width as nat),
    {
        if width < 2 {
            return Err(ConfigError::WidthTooSmall);
        }
        if self.num_full_rounds % 2 != 0 {
            return Err(ConfigError::OddFullRounds);
        }
        let keys = match self.num_full_rounds.checked_add(self.num_partial_rounds) {
            Some(rounds) => width.checked_mul(rounds),
            None => None,
        };
        proof {
            let rounds = self@.num_rounds();
            if rounds > usize::MAX {
                assert(width * rounds > usize::MAX) by (nonlinear_arith)
                    requires
                        width >= 2,
                        rounds > usize::MAX,
                ;
            }
        }
        if keys != Some(self.round_keys.len()) {
            return Err(ConfigError::RoundKeysLength);
        }
        if self.mds_matrix.len() != width {
            return Err(ConfigError::MatrixShape);
        }
        for i in 0..width
            invariant
                width >= 2,
                self@.num_full_rounds % 2 == 0,
                self@.round_keys.len() == width * self@.num_rounds(),
                self.mds_matrix.len() == width,
                forall|k: int| 0 <= k < i ==> (#[trigger] self.mds_matrix@[k]).len() == width,
        {
            if self.mds_matrix[i].len() != width {
                assert(self@.mds_matrix[i as int].len() != width);
                return Err(ConfigError::MatrixShape);
            }
        }
        assert forall|k: int| 0 <= k < width implies (#[trigger] self@.mds_matrix[k]).len()
            == width by {
            assert(self.mds_matrix@[k].len() == width);
        }
        Ok(())
    }
}

} // verus!
