//! The key-binding relation: `h_k_data == Hash(pk_peer_own, k_data)`.

use vstd::prelude::*;
use crate::constraints::ConstraintSystem;
use crate::error::{FieldName, RelationError};
use crate::field::FieldElem;
use crate::relation::{KeyBinding, Relation};

verus! {

/// An instance of the key-binding relation; a value may still be absent.
#[derive(Clone, Debug)]
pub struct Cat {
    /// Round constants of the hash.
    pub rc: Vec<FieldElem>,
    /// Public.
    pub h_k_data: Option<FieldElem>,
    /// Public.
    pub pk_peer_own: Option<FieldElem>,
    /// Private.
    pub k_data: Option<FieldElem>,
}

impl Cat {
    /// The first absent value, in the order the relation reads them.
    pub open spec fn first_missing(&self) -> Option<FieldName> {
        if self.h_k_data is None {
            Some(FieldName::HKData)
        } else if self.pk_peer_own is None {
            Some(FieldName::PkPeerOwn)
        } else if self.k_data is None {
            Some(FieldName::KData)
        } else {
            None
        }
    }

    /// `rel` is this instance.
    pub open spec fn describes(&self, rel: Relation) -> bool {
        &&& rel.round_constants@ == self.rc@
        &&& rel.key_binding == Some(
            KeyBinding {
                pk_peer_own: self.pk_peer_own->0,
                h_k_data: self.h_k_data->0,
                k_data: self.k_data->0,
            },
        )
        &&& rel.commitment is None
        &&& rel.encryption is None
    }

    /// The relation instance, once every value is present.
    pub fn into_relation(self) -> (r: Result<Relation, RelationError>)
        ensures
            self.first_missing() matches Some(f) ==> r == Err::<Relation, RelationError>(
                RelationError::MissingField(f),
            ),
            self.first_missing() is None ==> (r matches Ok(rel) && self.describes(rel) && rel.wf()),
    {
        let h_k_data = match self.h_k_data {
            Some(v) => v,
            None => return Err(RelationError::MissingField(FieldName::HKData)),
        };
        let pk_peer_own = match self.pk_peer_own {
            Some(v) => v,
            None => return Err(RelationError::MissingField(FieldName::PkPeerOwn)),
        };
        let k_data = match self.k_data {
            Some(v) => v,
            None => return Err(RelationError::MissingField(FieldName::KData)),
        };
        Ok(
            Relation {
                round_constants: self.rc,
                key_binding: Some(KeyBinding { pk_peer_own, h_k_data, k_data }),
                commitment: None,
                encryption: None,
            },
        )
    }

    /// The constraint system of the instance.
    pub fn generate_constraints(self) -> (r: Result<ConstraintSystem, RelationError>)
        ensures
            self.first_missing() matches Some(f) ==> r == Err::<ConstraintSystem, RelationError>(
                RelationError::MissingField(f),
            ),
            self.first_missing() is None ==> (r matches Ok(cs) && cs.wf() && exists|rel: Relation|
                #[trigger] self.describes(rel) && rel.wf() && cs@ == rel.system_spec()),
    {
        let rel = self.into_relation()?;
        Ok(rel.synthesize())
    }
}

} // verus!
