use p3_air::{Air, AirBuilder, AirBuilderWithPublicValues, BaseAir};
use p3_baby_bear::{BabyBear, DiffusionMatrixBabyBear};
use p3_challenger::DuplexChallenger;
use p3_commit::ExtensionMmcs;
use p3_dft::Radix2DitParallel;
use p3_field::extension::BinomialExtensionField;
use p3_field::{AbstractField, Field};
use p3_fri::{FriConfig, TwoAdicFriPcs};
use p3_matrix::dense::RowMajorMatrix;
use p3_matrix::Matrix;
use p3_merkle_tree::FieldMerkleTreeMmcs;
use p3_playground::fib_air::air::FibonacciAir;
use p3_playground::fib_air::trace::generate_trace_and_pvs;
use p3_poseidon2::{Poseidon2, Poseidon2ExternalMatrixGeneral};
use p3_symmetric::{PaddingFreeSponge, TruncatedPermutation};
use p3_uni_stark::{prove, verify, Proof, StarkConfig};
use rand::thread_rng;

type Val = BabyBear;
type Perm = Poseidon2<Val, Poseidon2ExternalMatrixGeneral, DiffusionMatrixBabyBear, 16, 7>;
type MyHash = PaddingFreeSponge<Perm, 16, 8, 8>;
type MyCompress = TruncatedPermutation<Perm, 2, 8, 16>;
type ValMmcs =
    FieldMerkleTreeMmcs<<Val as Field>::Packing, <Val as Field>::Packing, MyHash, MyCompress, 8>;
type Challenge = BinomialExtensionField<Val, 4>;
type ChallengeMmcs = ExtensionMmcs<Val, Challenge, ValMmcs>;
type Challenger = DuplexChallenger<Val, Perm, 16, 8>;
type Dft = Radix2DitParallel;
type Pcs = TwoAdicFriPcs<Val, Dft, ValMmcs, ChallengeMmcs>;
type MyConfig = StarkConfig<Pcs, Challenge, Challenger>;

struct EngineAir {}

impl<F> BaseAir<F> for EngineAir {
    fn width(&self) -> usize {
        FibonacciAir {}.width()
    }
}

impl<AB: AirBuilderWithPublicValues> Air<AB> for EngineAir {
    fn eval(&self, builder: &mut AB) {
        let main = builder.main();
        let pis = builder.public_values();
        let (a, b, x) = (pis[0], pis[1], pis[2]);
        let (local, next) = (main.row_slice(0), main.row_slice(1));
        let (local_left, local_right) = (local[0], local[1]);
        let (next_left, next_right) = (next[0], next[1]);

        let mut when_first_row = builder.when_first_row();
        when_first_row.assert_eq(local_left, a);
        when_first_row.assert_eq(local_right, b);

        let mut when_transition = builder.when_transition();
        when_transition.assert_eq(local_right, next_left);
        when_transition.assert_eq(local_left + local_right, next_right);

        builder.when_last_row().assert_eq(local_right, x);
    }
}

fn embed_all(values: Vec<u32>) -> Vec<Val> {
    values.into_iter().map(Val::from_canonical_u32).collect()
}

fn prove_fibonacci(n: usize, x: usize) -> (MyConfig, Perm, Proof<MyConfig>) {
    let perm = Perm::new_from_rng_128(
        Poseidon2ExternalMatrixGeneral,
        DiffusionMatrixBabyBear::default(),
        &mut thread_rng(),
    );
    let hash = MyHash::new(perm.clone());
    let compress = MyCompress::new(perm.clone());
    let val_mmcs = ValMmcs::new(hash, compress);
    let challenge_mmcs = ChallengeMmcs::new(val_mmcs.clone());
    let fri_config = FriConfig {
        log_blowup: 2,
        num_queries: 28,
        proof_of_work_bits: 8,
        mmcs: challenge_mmcs,
    };

    let (trace, pvs) = generate_trace_and_pvs(n, x);
    assert!(FibonacciAir {}.check_constraints(&trace, &pvs));
    let width = trace.width();
    let trace = RowMajorMatrix::new(embed_all(trace.values), width);
    let pvs = embed_all(pvs);

    let log_n = trace.height().trailing_zeros() as usize;
    let pcs = Pcs::new(log_n, Dft {}, val_mmcs, fri_config);
    let config = MyConfig::new(pcs);
    let mut challenger = Challenger::new(perm.clone());
    let proof = prove(&config, &EngineAir {}, &mut challenger, trace, &pvs);
    (config, perm, proof)
}

#[test]
fn proof_of_the_eighth_row_verifies() {
    let (config, perm, proof) = prove_fibonacci(1 << 3, 21);
    let mut challenger = Challenger::new(perm);
    let pvs = embed_all(vec![0, 1, 21]);
    verify(&config, &EngineAir {}, &mut challenger, &proof, &pvs).expect("verification failed");
}

#[test]
fn proof_does_not_verify_for_another_claim() {
    let (config, perm, proof) = prove_fibonacci(1 << 3, 21);
    let mut challenger = Challenger::new(perm);
    let pvs = embed_all(vec![0, 1, 22]);
    assert!(verify(&config, &EngineAir {}, &mut challenger, &proof, &pvs).is_err());
}
