//! The full-encryption relation: key binding, a commitment to a batch of
//! ciphertexts, and that each ciphertext encrypts its plaintext under the
//! bound key with one randomness shared by the batch.

use vstd::prelude::*;
use crate::constraints::ConstraintSystem;
use crate::error::{FieldName, RelationError};
use crate::field::FieldElem;
use crate::relation::{batch_fits, CiphertextCommitment, EncryptionWitness, KeyBinding, Relation};

verus! {

/// An instance of the full-encryption relation; a value may still be absent.
#[derive(Clone, Debug)]
pub struct Registerdata {
    /// Round constants of the hash and the cipher.
    pub rc: Vec<FieldElem>,
    /// Public.
    pub h_ct: Option<FieldElem>,
    /// Public.
    pub h_k_data: Option<FieldElem>,
    /// Public.
    pub pk_peer_own: Option<FieldElem>,
    /// Private: the plaintexts.
    pub data: Option<Vec<FieldElem>>,
    /// Private.
    pub k_data: Option<FieldElem>,
    /// Private: the randomness of every encryption in the batch.
    pub ct_r: Option<FieldElem>,
    /// Private: the ciphertexts.
    pub ct_data: Option<Vec<FieldElem>>,
}

impl Registerdata {
    /// The first absent value, in the order the relation reads them.
    pub open spec fn first_missing(&self) -> Option<FieldName> {
        if self.h_k_data is None {
            Some(FieldName::HKData)
        } else if self.pk_peer_own is None {
            Some(FieldName::PkPeerOwn)
        } else if self.k_data is None {
            Some(FieldName::KData)
        } else if self.h_ct is None {
            Some(FieldName::HCt)
        } else if self.ct_data is None {
            Some(FieldName::CtData)
        } else if self.ct_r is None {
            Some(FieldName::CtR)
        } else if self.data is None {
            Some(FieldName::Data)
        } else {
            None
        }
    }

    /// As many plaintexts as ciphertexts, and few enough to number.
    pub open spec fn lengths_agree(&self) -> bool {
        &&& self.data->0@.len() == self.ct_data->0@.len()
        &&& batch_fits(self.ct_data->0@.len())
    }

    /// `rel` is this instance.
    pub open spec fn describes(&self, rel: Relation) -> bool {
        &&& rel.round_constants@ == self.rc@
        &&& rel.key_binding == Some(
            KeyBinding {
                pk_peer_own: self.pk_peer_own->0,
                h_k_data: self.h_k_data->0,
                k_data: self.k_data->0,
            },
        )
        &&& rel.commitment is Some
        &&& rel.commitment->0.h_ct == self.h_ct->0
        &&& rel.commitment->0.ct_data@ == self.ct_data->0@
        &&& rel.encryption is Some
        &&& rel.encryption->0.ct_r == self.ct_r->0
        &&& rel.encryption->0.data@ == self.data->0@
    }

    /// The relation instance, once every value is present and the batch
    /// holds as many plaintexts as ciphertexts.
    pub fn into_relation(self) -> (r: Result<Relation, RelationError>)
        ensures
            self.first_missing() matches Some(f) ==> r == Err::<Relation, RelationError>(
                RelationError::MissingField(f),
            ),
            self.first_missing() is None && !self.lengths_agree() ==> r == Err::<
                Relation,
                RelationError,
            >(RelationError::ShapeMismatch),
            self.first_missing() is None && self.lengths_agree() ==> (r matches Ok(rel)
                && self.describes(rel) && rel.wf()),
    {
        let h_k_data = match self.h_k_data {
            Some(v) => v,
            None => return Err(RelationError::MissingField(FieldName::HKData)),
        };
        let pk_peer_own = match self.pk_peer_own {
            Some(v) => v,
            None => return Err(RelationError::MissingField(FieldName::PkPeerOwn)),
        };
        let k_data = match self.k_data {
            Some(v) => v,
            None => return Err(RelationError::MissingField(FieldName::KData)),
        };
        let h_ct = match self.h_ct {
            Some(v) => v,
            None => return Err(RelationError::MissingField(FieldName::HCt)),
        };
        let ct_data = match self.ct_data {
            Some(v) => v,
            None => return Err(RelationError::MissingField(FieldName::CtData)),
        };
        let ct_r = match self.ct_r {
            Some(v) => v,
            None => return Err(RelationError::MissingField(FieldName::CtR)),
        };
        let data = match self.data {
            Some(v) => v,
            None => return Err(RelationError::MissingField(FieldName::Data)),
        };
        if data.len() != ct_data.len() || ct_data.len() > (usize::MAX - 2) / 2 {
            return Err(RelationError::ShapeMismatch);
        }
        Ok(
            Relation {
                round_constants: self.rc,
                key_binding: Some(KeyBinding { pk_peer_own, h_k_data, k_data }),
                commitment: Some(CiphertextCommitment { h_ct, ct_data }),
                encryption: Some(EncryptionWitness { ct_r, data }),
            },
        )
    }

    /// The constraint system of the instance.
    pub fn generate_constraints(self) -> (r: Result<ConstraintSystem, RelationError>)
        ensures
            self.first_missing() matches Some(f) ==> r == Err::<ConstraintSystem, RelationError>(
                RelationError::MissingField(f),
            ),
            self.first_missing() is None && !self.lengths_agree() ==> r == Err::<
                ConstraintSystem,
                RelationError,
            >(RelationError::ShapeMismatch),
            self.first_missing() is None && self.lengths_agree() ==> (r matches Ok(cs) && cs.wf()
                && exists|rel: Relation| #[trigger] self.describes(rel) && rel.wf() && cs@
                    == rel.system_spec()),
    {
        let rel = self.into_relation()?;
        Ok(rel.synthesize())
    }
}

} // verus!
