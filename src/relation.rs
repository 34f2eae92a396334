//! One relation type whose constraint groups are switched on by which parts
//! of the instance are present: key binding, ciphertext commitment and
//! encryption correctness.

use vstd::prelude::*;
use crate::constraints::{
    constraints_model, satisfied, system_wf, query_of, claimed_of, answer, var_value,
    var_in_range, constraint_in_range, Constraint, ConstraintModel, ConstraintSystem,
    SystemModel, Var,
};
use crate::field::FieldElem;

verus! {

/// `h_k_data == Hash(pk_peer_own, k_data)`: the key `k_data` is bound to the
/// buyer `pk_peer_own`.
#[derive(Clone, Copy, Debug, PartialEq, Eq, Structural)]
pub struct KeyBinding {
    pub pk_peer_own: FieldElem,
    pub h_k_data: FieldElem,
    pub k_data: FieldElem,
}

/// `h_ct == Hash(ct_data[0], ..., ct_data[n - 1])`.
#[derive(Clone, Debug)]
pub struct CiphertextCommitment {
    pub h_ct: FieldElem,
    pub ct_data: Vec<FieldElem>,
}

/// `ct_data[i] == Encrypt(ct_r, k_data, data[i])` for every `i`, with the one
/// randomness `ct_r` shared by the whole batch.
#[derive(Clone, Debug)]
pub struct EncryptionWitness {
    pub ct_r: FieldElem,
    pub data: Vec<FieldElem>,
}

/// The four statements that the groups can make.
#[derive(Clone, Copy, Debug, PartialEq, Eq, Structural)]
pub enum RelationKind {
    KeyBinding,
    CiphertextCommitment,
    Combined,
    FullEncryption,
}

/// What determines a circuit, and with it the key pair made for it: the
/// kind, the batch size and the round constants.
#[derive(Clone, Debug)]
pub struct RelationShape {
    pub kind: RelationKind,
    pub batch_size: usize,
    pub round_constants: Vec<FieldElem>,
}

/// The largest batch whose variables can be numbered.
pub open spec fn batch_fits(n: nat) -> bool {
    2 * n + 2 <= usize::MAX
}

/// A relation instance: the round constants and the groups that are active.
#[derive(Clone, Debug)]
pub struct Relation {
    pub round_constants: Vec<FieldElem>,
    pub key_binding: Option<KeyBinding>,
    pub commitment: Option<CiphertextCommitment>,
    pub encryption: Option<EncryptionWitness>,
}

impl Relation {
    pub open spec fn has_key(&self) -> bool {
        self.key_binding is Some
    }

    pub open spec fn has_commitment(&self) -> bool {
        self.commitment is Some
    }

    pub open spec fn has_encryption(&self) -> bool {
        self.encryption is Some
    }

    pub open spec fn key(&self) -> KeyBinding {
        self.key_binding->0
    }

    /// The committed ciphertexts; empty without the commitment group.
    pub open spec fn ct_seq(&self) -> Seq<FieldElem> {
        if self.has_commitment() {
            self.commitment->0.ct_data@
        } else {
            Seq::empty()
        }
    }

    /// The plaintexts; empty without the encryption group.
    pub open spec fn data_seq(&self) -> Seq<FieldElem> {
        if self.has_encryption() {
            self.encryption->0.data@
        } else {
            Seq::empty()
        }
    }

    pub open spec fn batch(&self) -> nat {
        self.ct_seq().len()
    }

    /// Encryption is proved only of a bound key and committed ciphertexts,
    /// one ciphertext for each plaintext; at least one group is active.
    pub open spec fn wf(&self) -> bool {
        &&& self.has_key() || self.has_commitment()
        &&& self.has_encryption() ==> {
            &&& self.has_key()
            &&& self.has_commitment()
            &&& self.data_seq().len() == self.ct_seq().len()
        }
        &&& batch_fits(self.batch())
    }

    pub open spec fn kind_spec(&self) -> RelationKind {
        if self.has_encryption() {
            RelationKind::FullEncryption
        } else if self.has_key() && self.has_commitment() {
            RelationKind::Combined
        } else if self.has_key() {
            RelationKind::KeyBinding
        } else {
            RelationKind::CiphertextCommitment
        }
    }

    /// The relation under a hash and a cipher.
    pub open spec fn holds(
        &self,
        hash: spec_fn(Seq<FieldElem>, Seq<FieldElem>) -> FieldElem,
        encrypt: spec_fn(Seq<FieldElem>, FieldElem, FieldElem, FieldElem) -> FieldElem,
    ) -> bool {
        let rc = self.round_constants@;
        &&& self.has_key() ==> self.key().h_k_data == hash(
            rc,
            seq![self.key().pk_peer_own, self.key().k_data],
        )
        &&& self.has_commitment() ==> self.commitment->0.h_ct == hash(rc, self.ct_seq())
        &&& self.has_encryption() ==> forall|i: int|
            0 <= i < self.batch() ==> #[trigger] self.ct_seq()[i] == encrypt(
                rc,
                self.encryption->0.ct_r,
                self.key().k_data,
                self.data_seq()[i],
            )
    }

    /// The public inputs in the order the verifier receives them: `h_ct`
    /// first, then `h_k_data` and `pk_peer_own`.
    pub open spec fn public_inputs_spec(&self) -> Seq<FieldElem> {
        (if self.has_commitment() {
            seq![self.commitment->0.h_ct]
        } else {
            Seq::empty()
        }) + (if self.has_key() {
            seq![self.key().h_k_data, self.key().pk_peer_own]
        } else {
            Seq::empty()
        })
    }

    /// The private witnesses in order: `k_data`, the ciphertexts, `ct_r`,
    /// the plaintexts.
    pub open spec fn witnesses_spec(&self) -> Seq<FieldElem> {
        (if self.has_key() {
            seq![self.key().k_data]
        } else {
            Seq::empty()
        }) + self.ct_seq() + (if self.has_encryption() {
            seq![self.encryption->0.ct_r] + self.data_seq()
        } else {
            Seq::empty()
        })
    }

    pub open spec fn key_offset(&self) -> nat {
        if self.has_key() {
            1
        } else {
            0
        }
    }

    pub open spec fn h_ct_var(&self) -> Var {
        Var::Input(0)
    }

    pub open spec fn h_k_data_var(&self) -> Var {
        Var::Input(if self.has_commitment() { 1 } else { 0 })
    }

    pub open spec fn pk_peer_own_var(&self) -> Var {
        Var::Input(if self.has_commitment() { 2 } else { 1 })
    }

    pub open spec fn k_data_var(&self) -> Var {
        Var::Witness(0)
    }

    pub open spec fn ct_var(&self, i: int) -> Var {
        Var::Witness((self.key_offset() + i) as usize)
    }

    pub open spec fn ct_r_var(&self) -> Var {
        Var::Witness((self.key_offset() + self.batch()) as usize)
    }

    pub open spec fn data_var(&self, i: int) -> Var {
        Var::Witness((self.key_offset() + self.batch() + 1 + i) as usize)
    }

    pub open spec fn key_constraints(&self) -> Seq<ConstraintModel> {
        if self.has_key() {
            seq![
                ConstraintModel::HashEquals {
                    args: seq![self.pk_peer_own_var(), self.k_data_var()],
                    target: self.h_k_data_var(),
                },
            ]
        } else {
            Seq::empty()
        }
    }

    pub open spec fn commitment_constraints(&self) -> Seq<ConstraintModel> {
        if self.has_commitment() {
            seq![
                ConstraintModel::HashEquals {
                    args: Seq::new(self.batch(), |i: int| self.ct_var(i)),
                    target: self.h_ct_var(),
                },
            ]
        } else {
            Seq::empty()
        }
    }

    pub open spec fn encryption_constraint(&self, i: int) -> ConstraintModel {
        ConstraintModel::EncryptEquals {
            randomness: self.ct_r_var(),
            key: self.k_data_var(),
            plaintext: self.data_var(i),
            ciphertext: self.ct_var(i),
        }
    }

    pub open spec fn encryption_constraints(&self) -> Seq<ConstraintModel> {
        if self.has_encryption() {
            Seq::new(self.batch(), |i: int| self.encryption_constraint(i))
        } else {
            Seq::empty()
        }
    }

    /// The constraint system of the instance.
    pub open spec fn system_spec(&self) -> SystemModel {
        SystemModel {
            round_constants: self.round_constants@,
            inputs: self.public_inputs_spec(),
            witnesses: self.witnesses_spec(),
            constraints: self.key_constraints() + self.commitment_constraints()
                + self.encryption_constraints(),
        }
    }
}

/// Where each value of the instance stands in its constraint system.
proof fn lemma_values(rel: &Relation)
    requires
        rel.wf(),
    ensures
        ({
            let s = rel.system_spec();
            &&& rel.has_commitment() ==> var_in_range(s, rel.h_ct_var()) && var_value(
                s,
                rel.h_ct_var(),
            ) == rel.commitment->0.h_ct
            &&& rel.has_key() ==> {
                &&& var_in_range(s, rel.h_k_data_var())
                &&& var_value(s, rel.h_k_data_var()) == rel.key().h_k_data
                &&& var_in_range(s, rel.pk_peer_own_var())
                &&& var_value(s, rel.pk_peer_own_var()) == rel.key().pk_peer_own
                &&& var_in_range(s, rel.k_data_var())
                &&& var_value(s, rel.k_data_var()) == rel.key().k_data
            }
            &&& forall|i: int|
                0 <= i < rel.batch() ==> var_in_range(s, #[trigger] rel.ct_var(i)) && var_value(
                    s,
                    rel.ct_var(i),
                ) == rel.ct_seq()[i]
            &&& rel.has_encryption() ==> {
                &&& var_in_range(s, rel.ct_r_var())
                &&& var_value(s, rel.ct_r_var()) == rel.encryption->0.ct_r
                &&& forall|i: int|
                    0 <= i < rel.batch() ==> var_in_range(s, #[trigger] rel.data_var(i))
                        && var_value(s, rel.data_var(i)) == rel.data_seq()[i]
            }
        }),
{
    let s = rel.system_spec();
    let ko = rel.key_offset() as int;
    let n = rel.batch() as int;
    let kpart: Seq<FieldElem> = if rel.has_key() {
        seq![rel.key().k_data]
    } else {
        Seq::empty()
    };
    let epart: Seq<FieldElem> = if rel.has_encryption() {
        seq![rel.encryption->0.ct_r] + rel.data_seq()
    } else {
        Seq::empty()
    };
    assert(s.witnesses == kpart + rel.ct_seq() + epart);
    assert(kpart.len() == ko);
    assert forall|i: int| 0 <= i < n implies var_in_range(s, #[trigger] rel.ct_var(i)) && var_value(
        s,
        rel.ct_var(i),
    ) == rel.ct_seq()[i] by {
        assert((kpart + rel.ct_seq())[ko + i] == rel.ct_seq()[i]);
    }
    if rel.has_encryption() {
        assert(s.witnesses[ko + n] == rel.encryption->0.ct_r);
        assert forall|i: int| 0 <= i < n implies var_in_range(s, #[trigger] rel.data_var(i))
            && var_value(s, rel.data_var(i)) == rel.data_seq()[i] by {
            assert(s.witnesses[ko + n + 1 + i] == epart[1 + i]);
        }
    }
}

/// The constraint system of a well-formed instance names only variables it
/// has, and it holds under a hash and a cipher exactly when the relation
/// does.
pub proof fn lemma_system_matches_relation(
    rel: &Relation,
    hash: spec_fn(Seq<FieldElem>, Seq<FieldElem>) -> FieldElem,
    encrypt: spec_fn(Seq<FieldElem>, FieldElem, FieldElem, FieldElem) -> FieldElem,
)
    requires
        rel.wf(),
    ensures
        system_wf(rel.system_spec()),
        satisfied(rel.system_spec(), hash, encrypt) <==> rel.holds(hash, encrypt),
{
    let s = rel.system_spec();
    let rc = rel.round_constants@;
    lemma_values(rel);
    let kc = rel.key_constraints().len() as int;
    let cc = rel.commitment_constraints().len() as int;
    let n = rel.batch() as int;
    let cs = s.constraints;
    assert(cs == rel.key_constraints() + rel.commitment_constraints() + rel.encryption_constraints());
    // The key-binding constraint.
    if rel.has_key() {
        assert(cs[0] == rel.key_constraints()[0]);
        let args = seq![rel.pk_peer_own_var(), rel.k_data_var()];
        assert(args.map_values(|v: Var| var_value(s, v)) =~= seq![rel.key().pk_peer_own, rel.key().k_data]);
        assert(constraint_in_range(s, cs[0]));
    }
    // The ciphertext-commitment constraint.
    if rel.has_commitment() {
        assert(cs[kc] == rel.commitment_constraints()[0]);
        let args = Seq::new(rel.batch(), |i: int| rel.ct_var(i));
        assert(args.map_values(|v: Var| var_value(s, v)) =~= rel.ct_seq());
        assert(constraint_in_range(s, cs[kc]));
    }
    // The encryption constraints.
    if rel.has_encryption() {
        assert forall|i: int| 0 <= i < n implies cs[kc + cc + i] == rel.encryption_constraint(i)
            && constraint_in_range(s, #[trigger] cs[kc + cc + i]) by {
            assert(cs[kc + cc + i] == rel.encryption_constraints()[i]);
        }
    }
    assert(cs.len() == kc + cc + rel.encryption_constraints().len());
    assert forall|i: int| 0 <= i < cs.len() implies constraint_in_range(s, #[trigger] cs[i]) by {
        if i >= kc + cc {
            assert(cs[kc + cc + (i - kc - cc)] == cs[i]);
        }
    }
    if satisfied(s, hash, encrypt) {
        if rel.has_key() {
            assert(answer(query_of(s, cs[0]), rc, hash, encrypt) == claimed_of(s, cs[0]));
        }
        if rel.has_commitment() {
            assert(answer(query_of(s, cs[kc]), rc, hash, encrypt) == claimed_of(s, cs[kc]));
        }
        if rel.has_encryption() {
            assert forall|i: int| 0 <= i < n implies #[trigger] rel.ct_seq()[i] == encrypt(
                rc,
                rel.encryption->0.ct_r,
                rel.key().k_data,
                rel.data_seq()[i],
            ) by {
                assert(answer(query_of(s, cs[kc + cc + i]), rc, hash, encrypt) == claimed_of(
                    s,
                    cs[kc + cc + i],
                ));
                assert(var_in_range(s, rel.data_var(i)));
            }
        }
    }
    if rel.holds(hash, encrypt) {
        assert forall|i: int| 0 <= i < cs.len() implies answer(
            query_of(s, #[trigger] cs[i]),
            rc,
            hash,
            encrypt,
        ) == claimed_of(s, cs[i]) by {
            if i >= kc + cc {
                let j = i - kc - cc;
                assert(cs[kc + cc + j] == cs[i]);
                assert(var_in_range(s, rel.data_var(j)));
                assert(var_in_range(s, rel.ct_var(j)));
                assert(rel.ct_seq()[j] == encrypt(
                    rc,
                    rel.encryption->0.ct_r,
                    rel.key().k_data,
                    rel.data_seq()[j],
                ));
            }
        }
    }
}

/// A copy of a vector of field elements.
fn copy_elems(v: &Vec<FieldElem>) -> (r: Vec<FieldElem>)
    ensures
        r@ == v@,
{
    let mut r: Vec<FieldElem> = Vec::new();
    let mut i: usize = 0;
    while i < v.len()
        invariant
            i <= v.len(),
            r@ == v@.take(i as int),
        decreases v.len() - i,
    {
        r.push(v[i]);
        i = i + 1;
        assert(v@.take(i as int) == v@.take(i - 1).push(v@[i - 1]));
    }
    assert(v@.take(v.len() as int) == v@);
    r
}

/// `dst` followed by the elements of `src`.
fn append_elems(dst: &mut Vec<FieldElem>, src: &Vec<FieldElem>)
    ensures
        final(dst)@ == old(dst)@ + src@,
{
    let mut i: usize = 0;
    while i < src.len()
        invariant
            i <= src.len(),
            dst@ == old(dst)@ + src@.take(i as int),
        decreases src.len() - i,
    {
        dst.push(src[i]);
        i = i + 1;
        assert(src@.take(i as int) == src@.take(i - 1).push(src@[i - 1]));
    }
    assert(src@.take(src.len() as int) == src@);
}

/// Two sequences of field elements are equal.
fn same_elems(a: &Vec<FieldElem>, b: &Vec<FieldElem>) -> (r: bool)
    ensures
        r == (a@ == b@),
{
    if a.len() != b.len() {
        return false;
    }
    let mut i: usize = 0;
    while i < a.len()
        invariant
            a.len() == b.len(),
            i <= a.len(),
            forall|k: int| 0 <= k < i ==> a@[k] == b@[k],
        decreases a.len() - i,
    {
        if a[i] != b[i] {
            return false;
        }
        i = i + 1;
    }
    assert(a@ =~= b@);
    true
}

impl RelationShape {
    /// Two shapes are the same: a key pair made for one serves the other.
    pub fn same_as(&self, other: &RelationShape) -> (r: bool)
        ensures
            r == (self.kind == other.kind && self.batch_size == other.batch_size
                && self.round_constants@ == other.round_constants@),
    {
        self.kind == other.kind && self.batch_size == other.batch_size && same_elems(
            &self.round_constants,
            &other.round_constants,
        )
    }

    /// The number of public inputs that a relation of this shape exposes.
    pub fn num_public_inputs(&self) -> (r: usize)
        ensures
            r == num_public_inputs_spec(self.kind),
    {
        match self.kind {
            RelationKind::KeyBinding => 2,
            RelationKind::CiphertextCommitment => 1,
            RelationKind::Combined => 3,
            RelationKind::FullEncryption => 3,
        }
    }
}

pub open spec fn num_public_inputs_spec(kind: RelationKind) -> nat {
    match kind {
        RelationKind::KeyBinding => 2,
        RelationKind::CiphertextCommitment => 1,
        RelationKind::Combined => 3,
        RelationKind::FullEncryption => 3,
    }
}

impl Relation {
    /// Whether the instance is well formed.
    pub fn check_wf(&self) -> (r: bool)
        ensures
            r == self.wf(),
    {
        let has_key = self.key_binding.is_some();
        let n = self.batch_size();
        if !has_key && self.commitment.is_none() {
            return false;
        }
        if n > (usize::MAX - 2) / 2 {
            return false;
        }
        match &self.encryption {
            Some(e) => has_key && self.commitment.is_some() && e.data.len() == n,
            None => true,
        }
    }

    pub fn kind(&self) -> (r: RelationKind)
        ensures
            r == self.kind_spec(),
    {
        if self.encryption.is_some() {
            RelationKind::FullEncryption
        } else if self.key_binding.is_some() && self.commitment.is_some() {
            RelationKind::Combined
        } else if self.key_binding.is_some() {
            RelationKind::KeyBinding
        } else {
            RelationKind::CiphertextCommitment
        }
    }

    /// The number of ciphertexts.
    pub fn batch_size(&self) -> (r: usize)
        ensures
            r == self.batch(),
    {
        match &self.commitment {
            Some(c) => c.ct_data.len(),
            None => 0,
        }
    }

    /// The shape of the instance.
    pub fn shape(&self) -> (r: RelationShape)
        ensures
            r.kind == self.kind_spec(),
            r.batch_size == self.batch(),
            r.round_constants@ == self.round_constants@,
    {
        RelationShape {
            kind: self.kind(),
            batch_size: self.batch_size(),
            round_constants: copy_elems(&self.round_constants),
        }
    }

    /// The public inputs in the order the verifier must receive them.
    pub fn public_inputs(&self) -> (r: Vec<FieldElem>)
        ensures
            r@ == self.public_inputs_spec(),
            self.wf() ==> r@.len() == num_public_inputs_spec(self.kind_spec()),
    {
        let mut r: Vec<FieldElem> = Vec::new();
        if let Some(c) = &self.commitment {
            r.push(c.h_ct);
        }
        if let Some(k) = &self.key_binding {
            r.push(k.h_k_data);
            r.push(k.pk_peer_own);
        }
        assert(r@ =~= self.public_inputs_spec());
        r
    }

    /// The private witnesses in the order the constraint system numbers them.
    pub fn witnesses(&self) -> (r: Vec<FieldElem>)
        ensures
            r@ == self.witnesses_spec(),
    {
        let mut r: Vec<FieldElem> = Vec::new();
        if let Some(k) = &self.key_binding {
            r.push(k.k_data);
        }
        if let Some(c) = &self.commitment {
            append_elems(&mut r, &c.ct_data);
        }
        if let Some(e) = &self.encryption {
            r.push(e.ct_r);
            append_elems(&mut r, &e.data);
        }
        assert(r@ =~= self.witnesses_spec());
        r
    }

    /// Builds the constraint system of the instance.
    pub fn synthesize(&self) -> (r: ConstraintSystem)
        requires
            self.wf(),
        ensures
            r@ == self.system_spec(),
            r.wf(),
    {
        let has_key = self.key_binding.is_some();
        let has_commitment = self.commitment.is_some();
        let n = self.batch_size();
        let ko: usize = if has_key { 1 } else { 0 };
        let mut constraints: Vec<Constraint> = Vec::new();
        if has_key {
            let hk: usize = if has_commitment { 1 } else { 0 };
            let mut args: Vec<Var> = Vec::new();
            args.push(Var::Input(hk + 1));
            args.push(Var::Witness(0));
            assert(args@ =~= seq![self.pk_peer_own_var(), self.k_data_var()]);
            constraints.push(Constraint::HashEquals { args, target: Var::Input(hk) });
        }
        assert(constraints_model(constraints@) =~= self.key_constraints());
        if has_commitment {
            let mut args: Vec<Var> = Vec::new();
            let mut i: usize = 0;
            while i < n
                invariant
                    self.wf(),
                    n == self.batch(),
                    ko == self.key_offset(),
                    i <= n,
                    args@ == Seq::new(i as nat, |j: int| self.ct_var(j)),
                decreases n - i,
            {
                args.push(Var::Witness(ko + i));
                i = i + 1;
                assert(args@ =~= Seq::new(i as nat, |j: int| self.ct_var(j)));
            }
            let ghost before = constraints@;
            constraints.push(Constraint::HashEquals { args, target: Var::Input(0) });
            assert(constraints_model(constraints@) =~= constraints_model(before).push(
                constraints@.last()@,
            ));
        }
        let ghost prefix = self.key_constraints() + self.commitment_constraints();
        assert(constraints_model(constraints@) =~= prefix);
        if self.encryption.is_some() {
            let mut i: usize = 0;
            while i < n
                invariant
                    self.wf(),
                    self.has_encryption(),
                    n == self.batch(),
                    ko == self.key_offset(),
                    i <= n,
                    constraints_model(constraints@) == prefix + Seq::new(
                        i as nat,
                        |j: int| self.encryption_constraint(j),
                    ),
                decreases n - i,
            {
                let ghost before = constraints@;
                constraints.push(
                    Constraint::EncryptEquals {
                        randomness: Var::Witness(ko + n),
                        key: Var::Witness(0),
                        plaintext: Var::Witness(ko + n + 1 + i),
                        ciphertext: Var::Witness(ko + i),
                    },
                );
                i = i + 1;
                assert(constraints_model(constraints@) =~= constraints_model(before).push(
                    constraints@.last()@,
                ));
                assert(constraints_model(constraints@) =~= prefix + Seq::new(
                    i as nat,
                    |j: int| self.encryption_constraint(j),
                ));
            }
        }
        assert(constraints_model(constraints@) =~= self.system_spec().constraints);
        let r = ConstraintSystem {
            round_constants: copy_elems(&self.round_constants),
            inputs: self.public_inputs(),
            witnesses: self.witnesses(),
            constraints,
        };
        proof {
            lemma_system_matches_relation(
                self,
                |rc: Seq<FieldElem>, xs: Seq<FieldElem>| xs[0],
                |rc: Seq<FieldElem>, a: FieldElem, b: FieldElem, c: FieldElem| a,
            );
        }
        r
    }
}

} // verus!
