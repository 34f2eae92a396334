//! Constraint systems over the BN254 scalar field whose only gates are
//! equalities with the hash and the symmetric cipher.

use vstd::prelude::*;
use crate::error::RelationError;
use crate::field::FieldElem;

verus! {

/// A variable of a constraint system: a public input or a private witness,
/// by its position.
#[derive(Clone, Copy, Debug, PartialEq, Eq, Structural)]
pub enum Var {
    Input(usize),
    Witness(usize),
}

/// One constraint: a primitive evaluated on some variables must equal
/// another variable.
#[derive(Debug)]
pub enum Constraint {
    /// `Hash(round_constants, args) == target`.
    HashEquals { args: Vec<Var>, target: Var },
    /// `Encrypt(round_constants, randomness, key, plaintext) == ciphertext`.
    EncryptEquals { randomness: Var, key: Var, plaintext: Var, ciphertext: Var },
}

pub enum ConstraintModel {
    HashEquals { args: Seq<Var>, target: Var },
    EncryptEquals { randomness: Var, key: Var, plaintext: Var, ciphertext: Var },
}

impl View for Constraint {
    type V = ConstraintModel;

    open spec fn view(&self) -> ConstraintModel {
        match self {
            Constraint::HashEquals { args, target } => ConstraintModel::HashEquals {
                args: args@,
                target: *target,
            },
            Constraint::EncryptEquals { randomness, key, plaintext, ciphertext } =>
                ConstraintModel::EncryptEquals {
                randomness: *randomness,
                key: *key,
                plaintext: *plaintext,
                ciphertext: *ciphertext,
            },
        }
    }
}

/// A constraint system: the round constants it is built with, the public
/// inputs in the order the verifier receives them, the private witnesses,
/// and the constraints.
#[derive(Debug)]
pub struct ConstraintSystem {
    pub round_constants: Vec<FieldElem>,
    pub inputs: Vec<FieldElem>,
    pub witnesses: Vec<FieldElem>,
    pub constraints: Vec<Constraint>,
}

pub struct SystemModel {
    pub round_constants: Seq<FieldElem>,
    pub inputs: Seq<FieldElem>,
    pub witnesses: Seq<FieldElem>,
    pub constraints: Seq<ConstraintModel>,
}

pub open spec fn constraints_model(cs: Seq<Constraint>) -> Seq<ConstraintModel> {
    cs.map_values(|c: Constraint| c@)
}

impl View for ConstraintSystem {
    type V = SystemModel;

    open spec fn view(&self) -> SystemModel {
        SystemModel {
            round_constants: self.round_constants@,
            inputs: self.inputs@,
            witnesses: self.witnesses@,
            constraints: constraints_model(self.constraints@),
        }
    }
}

/// A question for an outside primitive, on values taken from a system.
#[derive(Debug)]
pub enum Query {
    Hash(Vec<FieldElem>),
    Encrypt { randomness: FieldElem, key: FieldElem, plaintext: FieldElem },
}

pub enum QueryModel {
    Hash(Seq<FieldElem>),
    Encrypt { randomness: FieldElem, key: FieldElem, plaintext: FieldElem },
}

impl View for Query {
    type V = QueryModel;

    open spec fn view(&self) -> QueryModel {
        match self {
            Query::Hash(xs) => QueryModel::Hash(xs@),
            Query::Encrypt { randomness, key, plaintext } => QueryModel::Encrypt {
                randomness: *randomness,
                key: *key,
                plaintext: *plaintext,
            },
        }
    }
}

pub open spec fn var_in_range(s: SystemModel, v: Var) -> bool {
    match v {
        Var::Input(i) => i < s.inputs.len(),
        Var::Witness(i) => i < s.witnesses.len(),
    }
}

pub open spec fn var_value(s: SystemModel, v: Var) -> FieldElem {
    match v {
        Var::Input(i) => s.inputs[i as int],
        Var::Witness(i) => s.witnesses[i as int],
    }
}

pub open spec fn constraint_in_range(s: SystemModel, c: ConstraintModel) -> bool {
    match c {
        ConstraintModel::HashEquals { args, target } => var_in_range(s, target) && forall|j: int|
            0 <= j < args.len() ==> var_in_range(s, #[trigger] args[j]),
        ConstraintModel::EncryptEquals { randomness, key, plaintext, ciphertext } => var_in_range(
            s,
            randomness,
        ) && var_in_range(s, key) && var_in_range(s, plaintext) && var_in_range(s, ciphertext),
    }
}

/// Every variable that a constraint names exists.
pub open spec fn system_wf(s: SystemModel) -> bool {
    forall|i: int| 0 <= i < s.constraints.len() ==> constraint_in_range(s, #[trigger] s.constraints[i])
}

/// What a constraint asks of its primitive.
pub open spec fn query_of(s: SystemModel, c: ConstraintModel) -> QueryModel {
    match c {
        ConstraintModel::HashEquals { args, target } => QueryModel::Hash(
            args.map_values(|v: Var| var_value(s, v)),
        ),
        ConstraintModel::EncryptEquals { randomness, key, plaintext, ciphertext } =>
            QueryModel::Encrypt {
            randomness: var_value(s, randomness),
            key: var_value(s, key),
            plaintext: var_value(s, plaintext),
        },
    }
}

/// The value that a constraint says its primitive returns.
pub open spec fn claimed_of(s: SystemModel, c: ConstraintModel) -> FieldElem {
    match c {
        ConstraintModel::HashEquals { target, .. } => var_value(s, target),
        ConstraintModel::EncryptEquals { ciphertext, .. } => var_value(s, ciphertext),
    }
}

/// What the primitives return on a query, under given round constants.
pub open spec fn answer(
    q: QueryModel,
    rc: Seq<FieldElem>,
    hash: spec_fn(Seq<FieldElem>, Seq<FieldElem>) -> FieldElem,
    encrypt: spec_fn(Seq<FieldElem>, FieldElem, FieldElem, FieldElem) -> FieldElem,
) -> FieldElem {
    match q {
        QueryModel::Hash(xs) => hash(rc, xs),
        QueryModel::Encrypt { randomness, key, plaintext } => encrypt(rc, randomness, key, plaintext),
    }
}

/// The system holds under the given hash and cipher.
pub open spec fn satisfied(
    s: SystemModel,
    hash: spec_fn(Seq<FieldElem>, Seq<FieldElem>) -> FieldElem,
    encrypt: spec_fn(Seq<FieldElem>, FieldElem, FieldElem, FieldElem) -> FieldElem,
) -> bool {
    &&& system_wf(s)
    &&& forall|i: int|
        0 <= i < s.constraints.len() ==> answer(
            query_of(s, #[trigger] s.constraints[i]),
            s.round_constants,
            hash,
            encrypt,
        ) == claimed_of(s, s.constraints[i])
}

/// The answers agree with what every constraint claims.
pub open spec fn answers_match(s: SystemModel, answers: Seq<FieldElem>) -> bool {
    &&& answers.len() == s.constraints.len()
    &&& forall|i: int| 0 <= i < answers.len() ==> #[trigger] answers[i] == claimed_of(s, s.constraints[i])
}

/// The answers are what the primitives return on each query of the system.
pub open spec fn answers_from(
    s: SystemModel,
    answers: Seq<FieldElem>,
    hash: spec_fn(Seq<FieldElem>, Seq<FieldElem>) -> FieldElem,
    encrypt: spec_fn(Seq<FieldElem>, FieldElem, FieldElem, FieldElem) -> FieldElem,
) -> bool {
    &&& answers.len() == s.constraints.len()
    &&& forall|i: int|
        0 <= i < answers.len() ==> #[trigger] answers[i] == answer(
            query_of(s, s.constraints[i]),
            s.round_constants,
            hash,
            encrypt,
        )
}

impl ConstraintSystem {
    pub open spec fn wf(&self) -> bool {
        system_wf(self@)
    }

    /// The value assigned to a variable.
    pub fn value_of(&self, v: Var) -> (r: FieldElem)
        requires
            var_in_range(self@, v),
        ensures
            r == var_value(self@, v),
    {
        match v {
            Var::Input(i) => self.inputs[i],
            Var::Witness(i) => self.witnesses[i],
        }
    }

    /// The values of several variables, in order.
    pub fn values_of(&self, vars: &Vec<Var>) -> (r: Vec<FieldElem>)
        requires
            forall|j: int| 0 <= j < vars.len() ==> var_in_range(self@, #[trigger] vars@[j]),
        ensures
            r@ == vars@.map_values(|v: Var| var_value(self@, v)),
    {
        let mut r: Vec<FieldElem> = Vec::new();
        let mut j: usize = 0;
        while j < vars.len()
            invariant
                j <= vars.len(),
                forall|k: int| 0 <= k < vars.len() ==> var_in_range(self@, #[trigger] vars@[k]),
                r@ == vars@.take(j as int).map_values(|v: Var| var_value(self@, v)),
            decreases vars.len() - j,
        {
            r.push(self.value_of(vars[j]));
            j = j + 1;
            assert(vars@.take(j as int) == vars@.take(j - 1).push(vars@[j - 1]));
        }
        assert(vars@.take(vars.len() as int) == vars@);
        r
    }

    /// The query that a constraint hands to its primitive.
    pub fn query(&self, c: &Constraint) -> (r: Query)
        requires
            constraint_in_range(self@, c@),
        ensures
            r@ == query_of(self@, c@),
    {
        match c {
            Constraint::HashEquals { args, .. } => Query::Hash(self.values_of(args)),
            Constraint::EncryptEquals { randomness, key, plaintext, .. } => Query::Encrypt {
                randomness: self.value_of(*randomness),
                key: self.value_of(*key),
                plaintext: self.value_of(*plaintext),
            },
        }
    }

    /// The queries of all constraints, in the order of the constraints.
    pub fn queries(&self) -> (r: Vec<Query>)
        requires
            self.wf(),
        ensures
            r.len() == self.constraints.len(),
            forall|i: int| 0 <= i < r.len() ==> (#[trigger] r@[i])@ == query_of(self@, self@.constraints[i]),
    {
        let mut r: Vec<Query> = Vec::new();
        let mut i: usize = 0;
        while i < self.constraints.len()
            invariant
                self.wf(),
                i <= self.constraints.len(),
                r.len() == i,
                forall|k: int| 0 <= k < i ==> (#[trigger] r@[k])@ == query_of(self@, self@.constraints[k]),
            decreases self.constraints.len() - i,
        {
            assert(constraint_in_range(self@, self@.constraints[i as int]));
            let q = self.query(&self.constraints[i]);
            r.push(q);
            i = i + 1;
        }
        r
    }

    /// The value that a constraint claims for its primitive's result.
    pub fn claimed(&self, c: &Constraint) -> (r: FieldElem)
        requires
            constraint_in_range(self@, c@),
        ensures
            r == claimed_of(self@, c@),
    {
        match c {
            Constraint::HashEquals { target, .. } => self.value_of(*target),
            Constraint::EncryptEquals { ciphertext, .. } => self.value_of(*ciphertext),
        }
    }

    /// Checks, before any proof is attempted, the primitives' answers to
    /// `queries()` against what the constraints claim. The error names the
    /// first violated constraint.
    pub fn check_answers(&self, answers: &Vec<FieldElem>) -> (r: Result<(), RelationError>)
        requires
            self.wf(),
        ensures
            answers.len() != self.constraints.len() ==> r == Err::<(), RelationError>(RelationError::ShapeMismatch),
            r is Ok <==> answers_match(self@, answers@),
            r matches Err(RelationError::WitnessInconsistent(i)) ==> {
                &&& answers.len() == self.constraints.len()
                &&& i < answers.len()
                &&& answers@[i as int] != claimed_of(self@, self@.constraints[i as int])
                &&& forall|k: int| 0 <= k < i ==> #[trigger] answers@[k] == claimed_of(self@, self@.constraints[k])
            },
            answers.len() == self.constraints.len() && r is Err ==> r matches Err(
                RelationError::WitnessInconsistent(_),
            ),
    {
        if answers.len() != self.constraints.len() {
            return Err(RelationError::ShapeMismatch);
        }
        let mut i: usize = 0;
        while i < answers.len()
            invariant
                self.wf(),
                answers.len() == self.constraints.len(),
                i <= answers.len(),
                forall|k: int| 0 <= k < i ==> #[trigger] answers@[k] == claimed_of(self@, self@.constraints[k]),
            decreases answers.len() - i,
        {
            assert(constraint_in_range(self@, self@.constraints[i as int]));
            let expected = self.claimed(&self.constraints[i]);
            if answers[i] != expected {
                return Err(RelationError::WitnessInconsistent(i));
            }
            i = i + 1;
        }
        Ok(())
    }
}

/// Answers taken from the primitives pass the check exactly when the
/// system holds under those primitives.
pub proof fn lemma_answers_decide_satisfaction(
    s: SystemModel,
    answers: Seq<FieldElem>,
    hash: spec_fn(Seq<FieldElem>, Seq<FieldElem>) -> FieldElem,
    encrypt: spec_fn(Seq<FieldElem>, FieldElem, FieldElem, FieldElem) -> FieldElem,
)
    requires
        system_wf(s),
        answers_from(s, answers, hash, encrypt),
    ensures
        answers_match(s, answers) <==> satisfied(s, hash, encrypt),
{
    if answers_match(s, answers) {
        assert forall|i: int| 0 <= i < s.constraints.len() implies answer(
            query_of(s, #[trigger] s.constraints[i]),
            s.round_constants,
            hash,
            encrypt,
        ) == claimed_of(s, s.constraints[i]) by {
            assert(answers[i] == claimed_of(s, s.constraints[i]));
        }
    }
    if satisfied(s, hash, encrypt) {
        assert forall|i: int| 0 <= i < answers.len() implies #[trigger] answers[i] == claimed_of(
            s,
            s.constraints[i],
        ) by {
            assert(answer(query_of(s, s.constraints[i]), s.round_constants, hash, encrypt)
                == claimed_of(s, s.constraints[i]));
        }
    }
}

} // verus!
