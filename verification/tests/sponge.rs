use poseidon::secp256k1::{Fp, Fq};
use poseidon::{
    ConfigError, Poseidon, PoseidonConstants, PoseidonField, PoseidonSponge, SpongeError,
    SpongeMode,
};

fn bytes_of(x: u64) -> [u8; 32] {
    let mut b = [0u8; 32];
    b[..8].copy_from_slice(&x.to_le_bytes());
    b
}

fn bytes_hex(s: &str) -> [u8; 32] {
    assert_eq!(s.len(), 64);
    let mut b = [0u8; 32];
    for i in 0..32 {
        b[31 - i] = u8::from_str_radix(&s[2 * i..2 * i + 2], 16).unwrap();
    }
    b
}

fn fp(x: u64) -> Fp {
    Fp::from_repr(bytes_of(x)).unwrap()
}

fn fp_hex(s: &str) -> Fp {
    Fp::from_repr(bytes_hex(s)).unwrap()
}

fn fq(x: u64) -> Fq {
    Fq::from_repr(bytes_of(x)).unwrap()
}

fn fq_hex(s: &str) -> Fq {
    Fq::from_repr(bytes_hex(s)).unwrap()
}

/// Keys 1000, 1007, 1014, ... and the matrix whose entry (i, j) is
/// `3 i + 5 j + 1`, with 8 full and 57 partial rounds.
fn constants_fp(width: usize) -> PoseidonConstants<Fp> {
    PoseidonConstants {
        round_keys: (0..width * 65).map(|i| fp(1000 + 7 * i as u64)).collect(),
        mds_matrix: (0..width)
            .map(|i| (0..width).map(|j| fp((3 * i + 5 * j + 1) as u64)).collect())
            .collect(),
        num_full_rounds: 8,
        num_partial_rounds: 57,
    }
}

fn constants_fq(width: usize) -> PoseidonConstants<Fq> {
    PoseidonConstants {
        round_keys: (0..width * 65).map(|i| fq(1000 + 7 * i as u64)).collect(),
        mds_matrix: (0..width)
            .map(|i| (0..width).map(|j| fq((3 * i + 5 * j + 1) as u64)).collect())
            .collect(),
        num_full_rounds: 8,
        num_partial_rounds: 57,
    }
}

fn sponge3() -> PoseidonSponge<Fp, 3> {
    PoseidonSponge::new(constants_fp(3)).unwrap()
}

#[test]
fn a_new_sponge_is_absorbing_and_empty() {
    let sponge = sponge3();
    assert_eq!(sponge.mode(), SpongeMode::Absorbing);
    assert_eq!(sponge.position(), 0);
    assert_eq!(sponge.rate(), 2);
    assert_eq!(sponge.state(), &[Fp::zero(); 3]);
}

#[test]
fn new_refuses_constants_that_do_not_fit() {
    assert!(matches!(
        PoseidonSponge::<Fp, 1>::new(constants_fp(1)),
        Err(ConfigError::WidthTooSmall)
    ));
    let mut odd = constants_fp(3);
    odd.num_full_rounds = 7;
    assert!(matches!(PoseidonSponge::<Fp, 3>::new(odd), Err(ConfigError::OddFullRounds)));
    assert!(matches!(
        PoseidonSponge::<Fp, 3>::new(constants_fp(9)),
        Err(ConfigError::RoundKeysLength)
    ));
    let mut ragged = constants_fp(3);
    ragged.mds_matrix[0].pop();
    assert!(matches!(PoseidonSponge::<Fp, 3>::new(ragged), Err(ConfigError::MatrixShape)));
}

#[test]
fn absorb_zero_squeeze_one() {
    let mut sponge = sponge3();
    assert_eq!(sponge.absorb(&[fp(0)]), Ok(()));
    assert_eq!(sponge.position(), 1);
    let digest = sponge.squeeze(1);
    assert_eq!(
        digest,
        vec![fp_hex("fd78e9f4af52790a7c36615f51e92c093d7f54751c3bef93202f20c0ae28330d")]
    );
    assert_eq!(sponge.mode(), SpongeMode::Squeezing);
    assert_eq!(sponge.position(), 1);

    // the digest is cell 0 of the permuted zero state
    let mut engine = Poseidon::<Fp, 3>::new(constants_fp(3));
    engine.permute();
    assert_eq!(digest[0], engine.state[0]);
}

#[test]
fn absorb_zero_squeeze_one_over_the_scalar_field() {
    let mut sponge = PoseidonSponge::<Fq, 3>::new(constants_fq(3)).unwrap();
    assert_eq!(sponge.absorb(&[fq(0)]), Ok(()));
    assert_eq!(
        sponge.squeeze(1),
        vec![fq_hex("3203a683c4a6f95c4c6abacad683156fb45dbd37a283e189f76438f58c2d0ec0")]
    );
}

#[test]
fn three_elements_in_five_out() {
    let mut sponge = sponge3();
    assert_eq!(sponge.absorb(&[fp(1), fp(2), fp(3)]), Ok(()));
    assert_eq!(sponge.position(), 1);
    assert_eq!(
        sponge.squeeze(5),
        vec![
            fp_hex("3d7192e5850c0f801bea22129e2eab4320126cb1aa850cfe6cbb68245ebc81e9"),
            fp_hex("b3faebe08ef05ecd601d7d86e2b170a0892defcfe087c30fbe85d4a7b369f3a5"),
            fp_hex("c470f89719e94e62248d0fa160325e392e2a82d672d86d91ac88891e25706835"),
            fp_hex("9d136ec256a7bc5a1660a67206e58bb494152ce29cbe1fb10e64e6f0a00d3614"),
            fp_hex("c122a7825f4f484d330f6f2772221264a0a7415d9966563d656dcfec1b01cca4"),
        ]
    );
    assert_eq!(sponge.position(), 1);
}

#[test]
fn a_full_block_is_permuted_once() {
    let mut sponge = sponge3();
    assert_eq!(sponge.absorb(&[fp(1), fp(2)]), Ok(()));
    assert_eq!(sponge.position(), 0);

    // one permutation of (1, 2, 0), and none more before the first read
    let mut engine = Poseidon::<Fp, 3>::new(constants_fp(3));
    engine.state = [fp(1), fp(2), fp(0)];
    engine.permute();
    assert_eq!(sponge.state(), &engine.state);
    assert_eq!(
        sponge.squeeze(2),
        vec![
            fp_hex("7ebaa9b95bbc41e461b3d88b889c05186df0cbc851c22aafbcc1f077b8429f06"),
            fp_hex("d5c01e2da4562ce9778c0b90eb9decba46c9970d96e487466997e8d337ec1c91"),
        ]
    );
    assert_eq!(sponge.position(), 0);
}

#[test]
fn k_blocks_are_permuted_k_times() {
    let input: Vec<Fp> = (1..=6).map(fp).collect();
    let mut sponge = sponge3();
    assert_eq!(sponge.absorb(&input), Ok(()));
    assert_eq!(sponge.position(), 0);

    let mut engine = Poseidon::<Fp, 3>::new(constants_fp(3));
    for block in input.chunks(2) {
        engine.state[0] = engine.state[0].add(&block[0]);
        engine.state[1] = engine.state[1].add(&block[1]);
        engine.pos = 0;
        engine.permute();
    }
    assert_eq!(sponge.state(), &engine.state);
}

#[test]
fn absorbing_leaves_the_capacity_cell_to_the_permutation() {
    let mut sponge = sponge3();
    assert_eq!(sponge.absorb(&[fp(41)]), Ok(()));
    assert_eq!(sponge.state(), &[fp(41), fp(0), fp(0)]);

    let mut wide = PoseidonSponge::<Fp, 9>::new(constants_fp(9)).unwrap();
    let input: Vec<Fp> = (1..=7).map(fp).collect();
    assert_eq!(wide.absorb(&input), Ok(()));
    assert_eq!(wide.position(), 7);
    assert_eq!(
        wide.state(),
        &[fp(1), fp(2), fp(3), fp(4), fp(5), fp(6), fp(7), fp(0), fp(0)]
    );
}

#[test]
fn squeezing_reads_rate_cells_only() {
    let mut sponge = sponge3();
    assert_eq!(sponge.absorb(&[fp(1), fp(2)]), Ok(()));
    let state = *sponge.state();
    let out = sponge.squeeze(2);
    assert_eq!(out, vec![state[0], state[1]]);
    assert_ne!(out[0], state[2]);
    assert_ne!(out[1], state[2]);
}

#[test]
fn squeeze_gives_the_number_asked_for() {
    for n in [0usize, 1, 2, 3, 7, 20] {
        let mut sponge = sponge3();
        assert_eq!(sponge.absorb(&[fp(5)]), Ok(()));
        assert_eq!(sponge.squeeze(n).len(), n);
    }
}

#[test]
fn two_squeezes_give_what_one_gives() {
    for (a, b) in [(0usize, 4usize), (1, 1), (2, 3), (3, 2), (4, 0), (5, 6)] {
        let mut once = sponge3();
        let mut twice = sponge3();
        assert_eq!(once.absorb(&[fp(1), fp(2), fp(3)]), Ok(()));
        assert_eq!(twice.absorb(&[fp(1), fp(2), fp(3)]), Ok(()));
        let whole = once.squeeze(a + b);
        let mut parts = twice.squeeze(a);
        parts.extend(twice.squeeze(b));
        assert_eq!(parts, whole);
        assert_eq!(twice.state(), once.state());
        assert_eq!(twice.position(), once.position());
    }
}

#[test]
fn absorbing_in_pieces_is_absorbing_at_once() {
    let input: Vec<Fp> = (1..=5).map(fp).collect();
    let mut once = sponge3();
    assert_eq!(once.absorb(&input), Ok(()));
    for cut in 0..=5 {
        let mut pieces = sponge3();
        assert_eq!(pieces.absorb(&input[..cut]), Ok(()));
        assert_eq!(pieces.absorb(&input[cut..]), Ok(()));
        assert_eq!(pieces.state(), once.state());
        assert_eq!(pieces.position(), once.position());
    }
}

#[test]
fn the_sponge_is_deterministic() {
    let input: Vec<Fp> = (10..17).map(fp).collect();
    let mut first = sponge3();
    let mut second = sponge3();
    assert_eq!(first.absorb(&input), Ok(()));
    assert_eq!(second.absorb(&input), Ok(()));
    let a = first.squeeze(4);
    let b = second.squeeze(4);
    assert_eq!(a, b);
    let bytes_a: Vec<[u8; 32]> = a.iter().map(|x| x.to_repr()).collect();
    let bytes_b: Vec<[u8; 32]> = b.iter().map(|x| x.to_repr()).collect();
    assert_eq!(bytes_a, bytes_b);
}

#[test]
fn absorb_after_squeeze_is_refused() {
    let mut sponge = sponge3();
    let mut reference = sponge3();
    assert_eq!(sponge.absorb(&[fp(1), fp(2), fp(3)]), Ok(()));
    assert_eq!(reference.absorb(&[fp(1), fp(2), fp(3)]), Ok(()));
    let head = sponge.squeeze(1);
    let state = *sponge.state();

    assert_eq!(sponge.absorb(&[fp(4)]), Err(SpongeError::AbsorbAfterSqueeze));
    assert_eq!(sponge.absorb(&[]), Err(SpongeError::AbsorbAfterSqueeze));
    assert_eq!(sponge.mode(), SpongeMode::Squeezing);
    assert_eq!(sponge.state(), &state);
    assert_eq!(sponge.position(), 1);

    let mut all = head;
    all.extend(sponge.squeeze(3));
    assert_eq!(all, reference.squeeze(4));
}

#[test]
fn squeezing_a_sponge_that_absorbed_nothing() {
    // no block is pending, so nothing is permuted before the first read
    let mut sponge = sponge3();
    assert_eq!(
        sponge.squeeze(3),
        vec![
            fp(0),
            fp(0),
            fp_hex("fd78e9f4af52790a7c36615f51e92c093d7f54751c3bef93202f20c0ae28330d"),
        ]
    );
    assert_eq!(sponge.position(), 1);
    assert_eq!(sponge.mode(), SpongeMode::Squeezing);
}

#[test]
fn squeezing_nothing_still_ends_the_absorbing() {
    let mut sponge = sponge3();
    assert_eq!(sponge.absorb(&[fp(0)]), Ok(()));
    assert_eq!(sponge.squeeze(0), vec![]);
    assert_eq!(sponge.mode(), SpongeMode::Squeezing);
    assert_eq!(sponge.position(), 0);
    assert_eq!(sponge.absorb(&[fp(1)]), Err(SpongeError::AbsorbAfterSqueeze));
    assert_eq!(
        sponge.squeeze(1),
        vec![fp_hex("fd78e9f4af52790a7c36615f51e92c093d7f54751c3bef93202f20c0ae28330d")]
    );
}

#[test]
fn reset_starts_a_new_session() {
    let mut sponge = sponge3();
    assert_eq!(sponge.absorb(&[fp(9), fp(8), fp(7)]), Ok(()));
    let _ = sponge.squeeze(3);
    sponge.reset();
    assert_eq!(sponge.mode(), SpongeMode::Absorbing);
    assert_eq!(sponge.position(), 0);
    assert_eq!(sponge.state(), &[Fp::zero(); 3]);
    assert_eq!(sponge.absorb(&[fp(0)]), Ok(()));
    assert_eq!(
        sponge.squeeze(1),
        vec![fp_hex("fd78e9f4af52790a7c36615f51e92c093d7f54751c3bef93202f20c0ae28330d")]
    );
}

#[test]
fn a_clone_goes_its_own_way() {
    let mut sponge = sponge3();
    assert_eq!(sponge.absorb(&[fp(1)]), Ok(()));
    let mut copy = sponge.clone();
    assert_eq!(copy.absorb(&[fp(2), fp(3)]), Ok(()));
    assert_eq!(sponge.position(), 1);
    assert_eq!(sponge.absorb(&[fp(2), fp(3)]), Ok(()));
    assert_eq!(copy.squeeze(2), sponge.squeeze(2));
}

#[test]
fn width_nine() {
    let mut sponge = PoseidonSponge::<Fp, 9>::new(constants_fp(9)).unwrap();
    assert_eq!(sponge.rate(), 8);
    let input: Vec<Fp> = (1..=10).map(fp).collect();
    assert_eq!(sponge.absorb(&input), Ok(()));
    assert_eq!(sponge.position(), 2);
    assert_eq!(
        sponge.squeeze(2),
        vec![
            fp_hex("95a8c851e4bea412390c720d0aae14e534a6a2c1848ae3409977bb74e8d0ae6e"),
            fp_hex("2b1df668c5bb3cfac21355e34a86cf1abd8e5fe19b204fc264e449058fd888bf"),
        ]
    );
    assert_eq!(sponge.position(), 2);
}
