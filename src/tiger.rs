//! The combined-commitment relation: key binding and a one-ciphertext
//! commitment in one proof. Nothing ties the ciphertext to the bound key.

use vstd::prelude::*;
use crate::constraints::ConstraintSystem;
use crate::error::{FieldName, RelationError};
use crate::field::FieldElem;
use crate::relation::{CiphertextCommitment, KeyBinding, Relation};

verus! {

/// An instance of the combined-commitment relation; a value may still be
/// absent.
#[derive(Clone, Debug)]
pub struct Tiger {
    /// Round constants of the hash.
    pub rc: Vec<FieldElem>,
    /// Public.
    pub h_ct: Option<FieldElem>,
    /// Public.
    pub h_k_data: Option<FieldElem>,
    /// Public.
    pub pk_peer_own: Option<FieldElem>,
    /// Private.
    pub k_data: Option<FieldElem>,
    /// Private.
    pub ct_data: Option<FieldElem>,
}

impl Tiger {
    /// The first absent value, in the order the relation reads them.
    pub open spec fn first_missing(&self) -> Option<FieldName> {
        if self.h_k_data is None {
            Some(FieldName::HKData)
        } else if self.pk_peer_own is None {
            Some(FieldName::PkPeerOwn)
        } else if self.k_data is None {
            Some(FieldName::KData)
        } else if self.h_ct is None {
            Some(FieldName::HCt)
        } else if self.ct_data is None {
            Some(FieldName::CtData)
        } else {
            None
        }
    }

    /// `rel` is this instance.
    pub open spec fn describes(&self, rel: Relation) -> bool {
        &&& rel.round_constants@ == self.rc@
        &&& rel.key_binding == Some(
            KeyBinding {
                pk_peer_own: self.pk_peer_own->0,
                h_k_data: self.h_k_data->0,
                k_data: self.k_data->0,
            },
        )
        &&& rel.commitment is Some
        &&& rel.commitment->0.h_ct == self.h_ct->0
        &&& rel.commitment->0.ct_data@ == seq![self.ct_data->0]
        &&& rel.encryption is None
    }

    /// The relation instance, once every value is present.
    pub fn into_relation(self) -> (r: Result<Relation, RelationError>)
        ensures
            self.first_missing() matches Some(f) ==> r == Err::<Relation, RelationError>(
                RelationError::MissingField(f),
            ),
            self.first_missing() is None ==> (r matches Ok(rel) && self.describes(rel) && rel.wf()),
    {
        let h_k_data = match self.h_k_data {
            Some(v) => v,
            None => return Err(RelationError::MissingField(FieldName::HKData)),
        };
        let pk_peer_own = match self.pk_peer_own {
            Some(v) => v,
            None => return Err(RelationError::MissingField(FieldName::PkPeerOwn)),
        };
        let k_data = match self.k_data {
            Some(v) => v,
            None => return Err(RelationError::MissingField(FieldName::KData)),
        };
        let h_ct = match self.h_ct {
            Some(v) => v,
            None => return Err(RelationError::MissingField(FieldName::HCt)),
        };
        let ct = match self.ct_data {
            Some(v) => v,
            None => return Err(RelationError::MissingField(FieldName::CtData)),
        };
        let mut ct_data: Vec<FieldElem> = Vec::new();
        ct_data.push(ct);
        assert(ct_data@ =~= seq![ct]);
        Ok(
            Relation {
                round_constants: self.rc,
                key_binding: Some(KeyBinding { pk_peer_own, h_k_data, k_data }),
                commitment: Some(CiphertextCommitment { h_ct, ct_data }),
                encryption: None,
            },
        )
    }

    /// The constraint system of the instance.
    pub fn generate_constraints(self) -> (r: Result<ConstraintSystem, RelationError>)
        ensures
            self.first_missing() matches Some(f) ==> r == Err::<ConstraintSystem, RelationError>(
                RelationError::MissingField(f),
            ),
            self.first_missing() is None ==> (r matches Ok(cs) && cs.wf() && exists|rel: Relation|
                #[trigger] self.describes(rel) && rel.wf() && cs@ == rel.system_spec()),
    {
        let rel = self.into_relation()?;
        Ok(rel.synthesize())
    }
}

} // verus!
