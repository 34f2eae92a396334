//! What holds of the relations under any hash and cipher.

use vstd::prelude::*;
use crate::cat::Cat;
use crate::constraints::{
    answers_from, answers_match, lemma_answers_decide_satisfaction, satisfied, ConstraintModel,
    SystemModel, Var,
};
use crate::field::FieldElem;
use crate::lifecycle::shape_matches;
use crate::registerdata::Registerdata;
use crate::relation::{lemma_system_matches_relation, Relation, RelationShape};

verus! {

/// A key-binding instance whose key is not the one that `h_k_data` was
/// computed from is unsatisfiable, and fails the check before Prove, as long
/// as the hash tells the two keys apart.
pub proof fn lemma_key_binding_rejects_other_key(
    cat: Cat,
    k_data: FieldElem,
    hash: spec_fn(Seq<FieldElem>, Seq<FieldElem>) -> FieldElem,
    encrypt: spec_fn(Seq<FieldElem>, FieldElem, FieldElem, FieldElem) -> FieldElem,
)
    requires
        cat.first_missing() is None,
        cat.h_k_data->0 == hash(cat.rc@, seq![cat.pk_peer_own->0, k_data]),
        cat.k_data->0 != k_data,
        hash(cat.rc@, seq![cat.pk_peer_own->0, cat.k_data->0]) != hash(
            cat.rc@,
            seq![cat.pk_peer_own->0, k_data],
        ),
    ensures
        forall|rel: Relation| #[trigger] cat.describes(rel) ==> {
            &&& !satisfied(rel.system_spec(), hash, encrypt)
            &&& forall|answers: Seq<FieldElem>|
                #[trigger] answers_from(rel.system_spec(), answers, hash, encrypt) ==> !answers_match(
                    rel.system_spec(),
                    answers,
                )
        },
{
    assert forall|rel: Relation| #[trigger] cat.describes(rel) implies {
        &&& !satisfied(rel.system_spec(), hash, encrypt)
        &&& forall|answers: Seq<FieldElem>|
            #[trigger] answers_from(rel.system_spec(), answers, hash, encrypt) ==> !answers_match(
                rel.system_spec(),
                answers,
            )
    } by {
        lemma_system_matches_relation(&rel, hash, encrypt);
        assert forall|answers: Seq<FieldElem>|
            #[trigger] answers_from(rel.system_spec(), answers, hash, encrypt) implies !answers_match(
            rel.system_spec(),
            answers,
        ) by {
            lemma_answers_decide_satisfaction(rel.system_spec(), answers, hash, encrypt);
        }
    }
}

/// A key-binding instance whose `h_k_data` is the hash of its buyer and key
/// is satisfied, and passes the check before Prove.
pub proof fn lemma_key_binding_complete(
    cat: Cat,
    hash: spec_fn(Seq<FieldElem>, Seq<FieldElem>) -> FieldElem,
    encrypt: spec_fn(Seq<FieldElem>, FieldElem, FieldElem, FieldElem) -> FieldElem,
)
    requires
        cat.first_missing() is None,
        cat.h_k_data->0 == hash(cat.rc@, seq![cat.pk_peer_own->0, cat.k_data->0]),
    ensures
        forall|rel: Relation| #[trigger] cat.describes(rel) ==> {
            &&& satisfied(rel.system_spec(), hash, encrypt)
            &&& forall|answers: Seq<FieldElem>|
                #[trigger] answers_from(rel.system_spec(), answers, hash, encrypt) ==> answers_match(
                    rel.system_spec(),
                    answers,
                )
        },
{
    assert forall|rel: Relation| #[trigger] cat.describes(rel) implies {
        &&& satisfied(rel.system_spec(), hash, encrypt)
        &&& forall|answers: Seq<FieldElem>|
            #[trigger] answers_from(rel.system_spec(), answers, hash, encrypt) ==> answers_match(
                rel.system_spec(),
                answers,
            )
    } by {
        lemma_system_matches_relation(&rel, hash, encrypt);
        assert forall|answers: Seq<FieldElem>|
            #[trigger] answers_from(rel.system_spec(), answers, hash, encrypt) implies answers_match(
            rel.system_spec(),
            answers,
        ) by {
            lemma_answers_decide_satisfaction(rel.system_spec(), answers, hash, encrypt);
        }
    }
}

/// A full-encryption instance built honestly, each ciphertext the encryption
/// of its plaintext under the bound key and the one shared randomness, with
/// both commitments computed from them, is satisfied, and its public inputs
/// are `[h_ct, h_k_data, pk_peer_own]` in that order.
pub proof fn lemma_batch_round_trip(
    rd: Registerdata,
    hash: spec_fn(Seq<FieldElem>, Seq<FieldElem>) -> FieldElem,
    encrypt: spec_fn(Seq<FieldElem>, FieldElem, FieldElem, FieldElem) -> FieldElem,
)
    requires
        rd.first_missing() is None,
        rd.lengths_agree(),
        forall|i: int|
            0 <= i < rd.ct_data->0@.len() ==> #[trigger] rd.ct_data->0@[i] == encrypt(
                rd.rc@,
                rd.ct_r->0,
                rd.k_data->0,
                rd.data->0@[i],
            ),
        rd.h_ct->0 == hash(rd.rc@, rd.ct_data->0@),
        rd.h_k_data->0 == hash(rd.rc@, seq![rd.pk_peer_own->0, rd.k_data->0]),
    ensures
        forall|rel: Relation| #[trigger] rd.describes(rel) ==> {
            &&& satisfied(rel.system_spec(), hash, encrypt)
            &&& rel.public_inputs_spec() == seq![rd.h_ct->0, rd.h_k_data->0, rd.pk_peer_own->0]
        },
{
    assert forall|rel: Relation| #[trigger] rd.describes(rel) implies {
        &&& satisfied(rel.system_spec(), hash, encrypt)
        &&& rel.public_inputs_spec() == seq![rd.h_ct->0, rd.h_k_data->0, rd.pk_peer_own->0]
    } by {
        lemma_system_matches_relation(&rel, hash, encrypt);
        assert(rel.public_inputs_spec() =~= seq![rd.h_ct->0, rd.h_k_data->0, rd.pk_peer_own->0]);
    }
}

/// A key made for one batch size serves no instance of another.
pub proof fn lemma_shape_isolation(shape: RelationShape, made_for: Relation, other: Relation)
    requires
        shape_matches(shape, made_for),
        made_for.batch() != other.batch(),
    ensures
        !shape_matches(shape, other),
{
}

/// Changing one ciphertext of a satisfied full-encryption instance, with
/// everything else left as it was, makes the instance unsatisfiable, and
/// the check before Prove fails on it.
pub proof fn lemma_tampered_ciphertext_rejected(
    rel: Relation,
    tampered: Relation,
    j: int,
    x: FieldElem,
    hash: spec_fn(Seq<FieldElem>, Seq<FieldElem>) -> FieldElem,
    encrypt: spec_fn(Seq<FieldElem>, FieldElem, FieldElem, FieldElem) -> FieldElem,
)
    requires
        rel.wf(),
        rel.has_encryption(),
        satisfied(rel.system_spec(), hash, encrypt),
        0 <= j < rel.batch(),
        x != rel.ct_seq()[j],
        tampered.round_constants@ == rel.round_constants@,
        tampered.key_binding == rel.key_binding,
        tampered.encryption is Some,
        tampered.encryption->0.ct_r == rel.encryption->0.ct_r,
        tampered.encryption->0.data@ == rel.data_seq(),
        tampered.commitment is Some,
        tampered.commitment->0.h_ct == rel.commitment->0.h_ct,
        tampered.commitment->0.ct_data@ == rel.ct_seq().update(j, x),
    ensures
        tampered.wf(),
        !satisfied(tampered.system_spec(), hash, encrypt),
        forall|answers: Seq<FieldElem>|
            #[trigger] answers_from(tampered.system_spec(), answers, hash, encrypt) ==> !answers_match(
                tampered.system_spec(),
                answers,
            ),
{
    lemma_system_matches_relation(&rel, hash, encrypt);
    lemma_system_matches_relation(&tampered, hash, encrypt);
    assert(rel.ct_seq()[j] == encrypt(
        rel.round_constants@,
        rel.encryption->0.ct_r,
        rel.key().k_data,
        rel.data_seq()[j],
    ));
    assert(tampered.ct_seq()[j] == x);
    assert(!tampered.holds(hash, encrypt));
    assert forall|answers: Seq<FieldElem>|
        #[trigger] answers_from(tampered.system_spec(), answers, hash, encrypt) implies !answers_match(
        tampered.system_spec(),
        answers,
    ) by {
        lemma_answers_decide_satisfaction(tampered.system_spec(), answers, hash, encrypt);
    }
}

/// The full-encryption system of a one-element batch is the system written
/// out by hand: inputs `[h_ct, h_k_data, pk_peer_own]`, witnesses
/// `[k_data, ct, ct_r, data]`, and the key-binding hash, the commitment hash
/// and the one encryption as its constraints. It holds exactly when the three
/// equalities do.
pub proof fn lemma_single_element_batch(
    rel: Relation,
    hash: spec_fn(Seq<FieldElem>, Seq<FieldElem>) -> FieldElem,
    encrypt: spec_fn(Seq<FieldElem>, FieldElem, FieldElem, FieldElem) -> FieldElem,
)
    requires
        rel.wf(),
        rel.has_encryption(),
        rel.batch() == 1,
    ensures
        rel.system_spec() == (SystemModel {
            round_constants: rel.round_constants@,
            inputs: seq![rel.commitment->0.h_ct, rel.key().h_k_data, rel.key().pk_peer_own],
            witnesses: seq![rel.key().k_data, rel.ct_seq()[0], rel.encryption->0.ct_r, rel.data_seq()[0]],
            constraints: seq![
                ConstraintModel::HashEquals {
                    args: seq![Var::Input(2), Var::Witness(0)],
                    target: Var::Input(1),
                },
                ConstraintModel::HashEquals { args: seq![Var::Witness(1)], target: Var::Input(0) },
                ConstraintModel::EncryptEquals {
                    randomness: Var::Witness(2),
                    key: Var::Witness(0),
                    plaintext: Var::Witness(3),
                    ciphertext: Var::Witness(1),
                },
            ],
        }),
        satisfied(rel.system_spec(), hash, encrypt) <==> {
            &&& rel.key().h_k_data == hash(
                rel.round_constants@,
                seq![rel.key().pk_peer_own, rel.key().k_data],
            )
            &&& rel.commitment->0.h_ct == hash(rel.round_constants@, seq![rel.ct_seq()[0]])
            &&& rel.ct_seq()[0] == encrypt(
                rel.round_constants@,
                rel.encryption->0.ct_r,
                rel.key().k_data,
                rel.data_seq()[0],
            )
        },
{
    lemma_system_matches_relation(&rel, hash, encrypt);
    let s = rel.system_spec();
    assert(s.inputs =~= seq![rel.commitment->0.h_ct, rel.key().h_k_data, rel.key().pk_peer_own]);
    assert(s.witnesses =~= seq![
        rel.key().k_data,
        rel.ct_seq()[0],
        rel.encryption->0.ct_r,
        rel.data_seq()[0],
    ]);
    assert(Seq::new(rel.batch(), |i: int| rel.ct_var(i)) =~= seq![Var::Witness(1)]);
    assert(rel.encryption_constraints() =~= seq![rel.encryption_constraint(0)]);
    assert(s.constraints =~= seq![
        ConstraintModel::HashEquals {
            args: seq![Var::Input(2), Var::Witness(0)],
            target: Var::Input(1),
        },
        ConstraintModel::HashEquals { args: seq![Var::Witness(1)], target: Var::Input(0) },
        ConstraintModel::EncryptEquals {
            randomness: Var::Witness(2),
            key: Var::Witness(0),
            plaintext: Var::Witness(3),
            ciphertext: Var::Witness(1),
        },
    ]);
    assert(rel.ct_seq() =~= seq![rel.ct_seq()[0]]);
    if satisfied(s, hash, encrypt) {
        assert(rel.holds(hash, encrypt));
    }
}

} // verus!
