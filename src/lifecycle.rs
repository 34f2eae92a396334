//! What is checked around the proof backend's Setup, Prove and Verify: that
//! a key serves the instance's shape, that the witness satisfies the
//! constraints before Prove, and that Verify receives the right number of
//! public inputs.

use vstd::prelude::*;
use crate::constraints::{answers_match, claimed_of, ConstraintSystem};
use crate::error::RelationError;
use crate::field::FieldElem;
use crate::relation::{num_public_inputs_spec, Relation, RelationShape};

verus! {

/// A proving key of the backend, with the shape it was made for.
#[derive(Clone, Debug)]
pub struct ProvingKey {
    pub shape: RelationShape,
    pub bytes: Vec<u8>,
}

/// A verifying key of the backend, with the shape it was made for.
#[derive(Clone, Debug)]
pub struct VerifyingKey {
    pub shape: RelationShape,
    pub bytes: Vec<u8>,
}

/// A key made for `shape` serves `rel`.
pub open spec fn shape_matches(shape: RelationShape, rel: Relation) -> bool {
    &&& shape.kind == rel.kind_spec()
    &&& shape.batch_size == rel.batch()
    &&& shape.round_constants@ == rel.round_constants@
}

/// The shape that Setup is run for, to serve `rel`.
pub fn setup_shape(rel: &Relation) -> (r: Result<RelationShape, RelationError>)
    ensures
        !rel.wf() ==> r == Err::<RelationShape, RelationError>(RelationError::ShapeMismatch),
        rel.wf() ==> (r matches Ok(shape) && shape_matches(shape, *rel)),
{
    if !rel.check_wf() {
        return Err(RelationError::ShapeMismatch);
    }
    Ok(rel.shape())
}

/// Everything that Prove needs from this side: the constraint system of
/// `rel`, once the key serves its shape and `answers`, the primitives'
/// results on the system's `queries()`, agree with every constraint.
pub fn prepare_proof(pk: &ProvingKey, rel: &Relation, answers: &Vec<FieldElem>) -> (r: Result<
    ConstraintSystem,
    RelationError,
>)
    ensures
        !(rel.wf() && shape_matches(pk.shape, *rel)) ==> r == Err::<ConstraintSystem, RelationError>(
            RelationError::ShapeMismatch,
        ),
        r is Ok <==> rel.wf() && shape_matches(pk.shape, *rel) && answers_match(
            rel.system_spec(),
            answers@,
        ),
        r matches Ok(cs) ==> cs@ == rel.system_spec() && cs.wf(),
        rel.wf() && shape_matches(pk.shape, *rel) && answers@.len() != rel.system_spec().constraints.len()
            ==> r == Err::<ConstraintSystem, RelationError>(RelationError::ShapeMismatch),
        rel.wf() && shape_matches(pk.shape, *rel) && answers@.len() == rel.system_spec().constraints.len()
            && r is Err ==> r matches Err(RelationError::WitnessInconsistent(_)),
        r matches Err(RelationError::WitnessInconsistent(i)) ==> {
            &&& i < answers@.len()
            &&& answers@[i as int] != claimed_of(rel.system_spec(), rel.system_spec().constraints[i as int])
            &&& forall|k: int|
                0 <= k < i ==> #[trigger] answers@[k] == claimed_of(
                    rel.system_spec(),
                    rel.system_spec().constraints[k],
                )
        },
{
    if !rel.check_wf() {
        return Err(RelationError::ShapeMismatch);
    }
    let shape = rel.shape();
    if !pk.shape.same_as(&shape) {
        return Err(RelationError::ShapeMismatch);
    }
    let cs = rel.synthesize();
    cs.check_answers(answers)?;
    Ok(cs)
}

/// Checks before Verify that `public_inputs` has as many values as the
/// verifying key's relation exposes. Their order is not visible here: a
/// reordered list is rejected by the backend, not by this check.
pub fn prepare_verification(vk: &VerifyingKey, public_inputs: &Vec<FieldElem>) -> (r: Result<
    (),
    RelationError,
>)
    ensures
        r is Ok <==> public_inputs@.len() == num_public_inputs_spec(vk.shape.kind),
        r is Err ==> r == Err::<(), RelationError>(RelationError::ShapeMismatch),
{
    if public_inputs.len() != vk.shape.num_public_inputs() {
        return Err(RelationError::ShapeMismatch);
    }
    Ok(())
}

} // verus!
