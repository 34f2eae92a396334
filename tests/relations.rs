use datatrade::add_numbers;
use datatrade::cat::Cat;
use datatrade::constraints::{Constraint, ConstraintSystem, Query, Var};
use datatrade::dog::Dog;
use datatrade::error::{FieldName, RelationError};
use datatrade::field::FieldElem;
use datatrade::lifecycle::{
    prepare_proof, prepare_verification, setup_shape, ProvingKey, VerifyingKey,
};
use datatrade::registerdata::Registerdata;
use datatrade::relation::{Relation, RelationKind};
use datatrade::tiger::Tiger;

// A stand-in for the hash and the cipher: deterministic mixing of the low
// limbs. It only has to tell different inputs apart in these tests.
fn fe(v: u64) -> FieldElem {
    FieldElem::from_u64(v)
}

fn low(x: &FieldElem) -> u64 {
    x.to_limbs()[0]
}

fn toy_hash(rc: &[FieldElem], xs: &[FieldElem]) -> FieldElem {
    let mut acc: u64 = 0x9e37_79b9;
    for c in rc {
        acc = acc.wrapping_mul(31).wrapping_add(low(c));
    }
    for x in xs {
        acc = (acc ^ low(x)).wrapping_mul(0x1000_0000_01b3).rotate_left(17);
    }
    fe(acc)
}

fn toy_encrypt(rc: &[FieldElem], r: &FieldElem, k: &FieldElem, m: &FieldElem) -> FieldElem {
    let mask = low(&toy_hash(rc, &[*k, *r]));
    fe(low(m).wrapping_add(mask))
}

fn answers(cs: &ConstraintSystem) -> Vec<FieldElem> {
    cs.queries()
        .iter()
        .map(|q| match q {
            Query::Hash(xs) => toy_hash(&cs.round_constants, xs),
            Query::Encrypt { randomness, key, plaintext } => {
                toy_encrypt(&cs.round_constants, randomness, key, plaintext)
            }
        })
        .collect()
}

fn round_constants() -> Vec<FieldElem> {
    (1..=8u64).map(|i| fe(i * 7919)).collect()
}

fn keys_for(rel: &Relation) -> (ProvingKey, VerifyingKey) {
    let shape = setup_shape(rel).unwrap();
    (
        ProvingKey { shape: shape.clone(), bytes: Vec::new() },
        VerifyingKey { shape, bytes: Vec::new() },
    )
}

fn honest_cat(pk_peer_own: FieldElem, k_data: FieldElem) -> Cat {
    let rc = round_constants();
    let h_k_data = toy_hash(&rc, &[pk_peer_own, k_data]);
    Cat { rc, h_k_data: Some(h_k_data), pk_peer_own: Some(pk_peer_own), k_data: Some(k_data) }
}

fn honest_registerdata(n: u64) -> Registerdata {
    let rc = round_constants();
    let pk_peer_own = fe(1001);
    let k_data = fe(2002);
    let ct_r = fe(3003);
    let data: Vec<FieldElem> = (0..n).map(|i| fe(40_000 + i * 13)).collect();
    let ct_data: Vec<FieldElem> = data.iter().map(|m| toy_encrypt(&rc, &ct_r, &k_data, m)).collect();
    let h_ct = toy_hash(&rc, &ct_data);
    let h_k_data = toy_hash(&rc, &[pk_peer_own, k_data]);
    Registerdata {
        rc,
        h_ct: Some(h_ct),
        h_k_data: Some(h_k_data),
        pk_peer_own: Some(pk_peer_own),
        data: Some(data),
        k_data: Some(k_data),
        ct_r: Some(ct_r),
        ct_data: Some(ct_data),
    }
}

// Setup, the check before Prove, and the check before Verify, for one instance.
fn run_lifecycle(rel: Relation) -> Result<ConstraintSystem, RelationError> {
    let (pk, vk) = keys_for(&rel);
    let cs = rel.synthesize();
    let ans = answers(&cs);
    let cs = prepare_proof(&pk, &rel, &ans)?;
    prepare_verification(&vk, &rel.public_inputs())?;
    Ok(cs)
}

#[test]
fn test_data() {
    println!("{:?}", 1);
}

#[test]
fn it_works() {
    let result = add_numbers(2, 2);
    println!("{:?}", result);
    assert_eq!(result, 4);
}

#[test]
fn cat_test_Data() {
    let cat = honest_cat(fe(11), fe(22));
    let rel = cat.clone().into_relation().unwrap();
    let cs = run_lifecycle(rel.clone()).unwrap();
    assert_eq!(cs.constraints.len(), 1);
    assert_eq!(rel.public_inputs(), vec![cat.h_k_data.unwrap(), fe(11)]);
}

#[test]
fn dog_test_Data() {
    let rc = round_constants();
    let ct = toy_encrypt(&rc, &fe(5), &fe(6), &fe(7));
    let h_ct = toy_hash(&rc, &[ct]);
    let dog = Dog { rc, h_ct: Some(h_ct), ct_data: Some(ct) };
    let rel = dog.into_relation().unwrap();
    let cs = run_lifecycle(rel.clone()).unwrap();
    assert_eq!(cs.constraints.len(), 1);
    assert_eq!(rel.public_inputs(), vec![h_ct]);
    assert_eq!(rel.kind(), RelationKind::CiphertextCommitment);
}

#[test]
fn tiger_test_Data() {
    let rc = round_constants();
    let pk_peer_own = fe(31);
    let k_data = fe(32);
    let h_k_data = toy_hash(&rc, &[pk_peer_own, k_data]);
    let ct = toy_encrypt(&rc, &fe(33), &k_data, &fe(34));
    let h_ct = toy_hash(&rc, &[ct]);
    let tiger = Tiger {
        rc,
        h_ct: Some(h_ct),
        h_k_data: Some(h_k_data),
        pk_peer_own: Some(pk_peer_own),
        k_data: Some(k_data),
        ct_data: Some(ct),
    };
    let rel = tiger.into_relation().unwrap();
    let cs = run_lifecycle(rel.clone()).unwrap();
    assert_eq!(cs.constraints.len(), 2);
    assert_eq!(rel.public_inputs(), vec![h_ct, h_k_data, pk_peer_own]);
    assert_eq!(rel.kind(), RelationKind::Combined);
}

#[test]
fn key_binding_accepts_the_bound_key() {
    let rel = honest_cat(fe(100), fe(200)).into_relation().unwrap();
    assert!(run_lifecycle(rel).is_ok());
}

#[test]
fn key_binding_rejects_another_key() {
    for other in [0u64, 1, 199, 201, u64::MAX] {
        let mut cat = honest_cat(fe(100), fe(200));
        cat.k_data = Some(fe(other));
        let rel = cat.into_relation().unwrap();
        assert_eq!(run_lifecycle(rel).err(), Some(RelationError::WitnessInconsistent(0)));
    }
}

#[test]
fn batch_of_forty_five_round_trips() {
    let rd = honest_registerdata(45);
    let expected_inputs = vec![rd.h_ct.unwrap(), rd.h_k_data.unwrap(), rd.pk_peer_own.unwrap()];
    let rel = rd.into_relation().unwrap();
    assert_eq!(rel.batch_size(), 45);
    assert_eq!(rel.public_inputs(), expected_inputs);
    let cs = run_lifecycle(rel).unwrap();
    // One key-binding hash, one commitment hash, one encryption per element.
    assert_eq!(cs.constraints.len(), 47);
    assert_eq!(cs.witnesses.len(), 1 + 45 + 1 + 45);
}

#[test]
fn reordered_public_inputs_differ_from_declared_order() {
    let rel = honest_registerdata(45).into_relation().unwrap();
    let inputs = rel.public_inputs();
    let reordered = vec![inputs[1], inputs[2], inputs[0]];
    assert_ne!(inputs, reordered);
    // The count is all the check before Verify sees.
    let (_, vk) = keys_for(&rel);
    assert_eq!(prepare_verification(&vk, &reordered), Ok(()));
    assert_eq!(prepare_verification(&vk, &inputs[..2].to_vec()), Err(RelationError::ShapeMismatch));
}

#[test]
fn key_for_one_batch_size_rejects_another() {
    let small = honest_registerdata(1).into_relation().unwrap();
    let large = honest_registerdata(45).into_relation().unwrap();
    let (pk_small, _) = keys_for(&small);
    let (pk_large, _) = keys_for(&large);
    let ans_large = answers(&large.synthesize());
    let ans_small = answers(&small.synthesize());
    assert_eq!(prepare_proof(&pk_small, &large, &ans_large).err(), Some(RelationError::ShapeMismatch));
    assert_eq!(prepare_proof(&pk_large, &small, &ans_small).err(), Some(RelationError::ShapeMismatch));
}

#[test]
fn key_for_other_kind_or_constants_is_rejected() {
    let full = honest_registerdata(1).into_relation().unwrap();
    let rd = honest_registerdata(1);
    let tiger = Tiger {
        rc: rd.rc.clone(),
        h_ct: rd.h_ct,
        h_k_data: rd.h_k_data,
        pk_peer_own: rd.pk_peer_own,
        k_data: rd.k_data,
        ct_data: Some(rd.ct_data.clone().unwrap()[0]),
    }
    .into_relation()
    .unwrap();
    let (pk_tiger, _) = keys_for(&tiger);
    let ans = answers(&full.synthesize());
    assert_eq!(prepare_proof(&pk_tiger, &full, &ans).err(), Some(RelationError::ShapeMismatch));

    let mut other_rc = honest_registerdata(1);
    other_rc.rc[0] = fe(1);
    let other = other_rc.into_relation().unwrap();
    let (pk_other, _) = keys_for(&other);
    assert_eq!(prepare_proof(&pk_other, &full, &ans).err(), Some(RelationError::ShapeMismatch));
}

#[test]
fn tampered_ciphertext_is_rejected() {
    let mut rd = honest_registerdata(45);
    let mut ct = rd.ct_data.take().unwrap();
    ct[7] = fe(low(&ct[7]).wrapping_add(1));
    rd.ct_data = Some(ct);
    let rel = rd.into_relation().unwrap();
    // The stale commitment hash is the second constraint.
    assert_eq!(run_lifecycle(rel).err(), Some(RelationError::WitnessInconsistent(1)));
}

#[test]
fn single_element_batch_is_the_hand_written_system() {
    let rd = honest_registerdata(1);
    let h_ct = rd.h_ct.unwrap();
    let h_k_data = rd.h_k_data.unwrap();
    let pk_peer_own = rd.pk_peer_own.unwrap();
    let k_data = rd.k_data.unwrap();
    let ct_r = rd.ct_r.unwrap();
    let ct = rd.ct_data.clone().unwrap()[0];
    let m = rd.data.clone().unwrap()[0];
    let cs = rd.generate_constraints().unwrap();
    assert_eq!(cs.inputs, vec![h_ct, h_k_data, pk_peer_own]);
    assert_eq!(cs.witnesses, vec![k_data, ct, ct_r, m]);
    assert_eq!(cs.constraints.len(), 3);
    match &cs.constraints[0] {
        Constraint::HashEquals { args, target } => {
            assert_eq!(args, &vec![Var::Input(2), Var::Witness(0)]);
            assert_eq!(*target, Var::Input(1));
        }
        _ => panic!("expected the key-binding hash"),
    }
    match &cs.constraints[1] {
        Constraint::HashEquals { args, target } => {
            assert_eq!(args, &vec![Var::Witness(1)]);
            assert_eq!(*target, Var::Input(0));
        }
        _ => panic!("expected the commitment hash"),
    }
    match &cs.constraints[2] {
        Constraint::EncryptEquals { randomness, key, plaintext, ciphertext } => {
            assert_eq!(*randomness, Var::Witness(2));
            assert_eq!(*key, Var::Witness(0));
            assert_eq!(*plaintext, Var::Witness(3));
            assert_eq!(*ciphertext, Var::Witness(1));
        }
        _ => panic!("expected the encryption"),
    }
}

#[test]
fn single_element_batch_wrong_encryption_is_rejected() {
    let mut rd = honest_registerdata(1);
    let rc = rd.rc.clone();
    // A ciphertext under another randomness, with a commitment that matches it.
    let ct = toy_encrypt(&rc, &fe(9), &rd.k_data.unwrap(), &rd.data.clone().unwrap()[0]);
    rd.h_ct = Some(toy_hash(&rc, &[ct]));
    rd.ct_data = Some(vec![ct]);
    let rel = rd.into_relation().unwrap();
    assert_eq!(run_lifecycle(rel).err(), Some(RelationError::WitnessInconsistent(2)));
}

#[test]
fn missing_values_are_named() {
    let mut cat = honest_cat(fe(1), fe(2));
    cat.pk_peer_own = None;
    assert_eq!(
        cat.generate_constraints().err(),
        Some(RelationError::MissingField(FieldName::PkPeerOwn))
    );
    let dog = Dog { rc: round_constants(), h_ct: Some(fe(1)), ct_data: None };
    assert_eq!(dog.into_relation().err(), Some(RelationError::MissingField(FieldName::CtData)));
    let tiger = Tiger {
        rc: round_constants(),
        h_ct: None,
        h_k_data: Some(fe(1)),
        pk_peer_own: Some(fe(2)),
        k_data: Some(fe(3)),
        ct_data: Some(fe(4)),
    };
    assert_eq!(tiger.into_relation().err(), Some(RelationError::MissingField(FieldName::HCt)));
    let mut rd = honest_registerdata(3);
    rd.ct_r = None;
    rd.data = None;
    assert_eq!(rd.into_relation().err(), Some(RelationError::MissingField(FieldName::CtR)));
    let mut rd = honest_registerdata(3);
    rd.h_k_data = None;
    assert_eq!(rd.into_relation().err(), Some(RelationError::MissingField(FieldName::HKData)));
}

#[test]
fn batch_lengths_must_agree() {
    let mut rd = honest_registerdata(4);
    rd.data.as_mut().unwrap().pop();
    assert_eq!(rd.into_relation().err(), Some(RelationError::ShapeMismatch));
}

#[test]
fn answers_of_wrong_length_are_a_shape_mismatch() {
    let rel = honest_cat(fe(1), fe(2)).into_relation().unwrap();
    let cs = rel.synthesize();
    assert_eq!(cs.check_answers(&vec![]), Err(RelationError::ShapeMismatch));
}

#[test]
fn ill_formed_relation_is_refused() {
    let rel = Relation {
        round_constants: round_constants(),
        key_binding: None,
        commitment: None,
        encryption: None,
    };
    assert!(!rel.check_wf());
    assert_eq!(setup_shape(&rel).err(), Some(RelationError::ShapeMismatch));
}

#[test]
fn field_elements_are_canonical() {
    let p = [0x43e1_f593_f000_0001u64, 0x2833_e848_79b9_7091, 0xb850_45b6_8181_585d, 0x3064_4e72_e131_a029];
    assert!(FieldElem::from_limbs(p).is_none());
    let below = [p[0] - 1, p[1], p[2], p[3]];
    assert_eq!(FieldElem::from_limbs(below).unwrap().to_limbs(), below);
    assert!(FieldElem::from_limbs([0, 0, 0, u64::MAX]).is_none());
    assert!(FieldElem::from_limbs([u64::MAX, u64::MAX, u64::MAX, p[3] - 1]).is_some());
    assert_eq!(FieldElem::from_u64(42).to_limbs(), [42, 0, 0, 0]);
    assert_eq!(FieldElem::zero(), FieldElem::from_u64(0));
}
