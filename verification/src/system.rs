//! The trusted boundary around `ark_relations`' constraint-system handle.
//!
//! Every `external_body` function here makes one call into the outside
//! engine and records its effect on the ghost model of `crate::model`.
//! Nothing else in the crate touches the engine.
//!
//! Two standing facts justify the contracts below; both follow from how
//! this module is built and from `ark_relations`' source:
//!
//! * The handle inside `CsRef` is always the live variant of the engine's
//!   reference: the three constructors of this module are the only way to
//!   make a `CsRef`, and each builds a fresh live system.  The engine's
//!   "missing system" failure therefore never occurs here.
//! * Every assignment this crate hands the engine is the field image of 0
//!   or 1, and every coefficient it writes is the field image of a small
//!   integer.  The canonical ring homomorphism from the integers into the
//!   field then carries the ghost model's integer arithmetic into the
//!   engine's field arithmetic, so integer-level satisfaction of the
//!   recorded constraints implies field-level satisfaction.

use vstd::prelude::*;

use crate::model::{
    counted_model, enforced_model, fresh_model, fully_assigned, lc_value, satisfied, CsModel,
    SpecConstraint, SpecLc, VarId,
};

verus! {

#[verifier::external_type_specification]
#[verifier::external_body]
pub struct ExArkVariable(ark_relations::r1cs::Variable);

/// Holds the engine's reference.  Opaque to the verifier: the reference's
/// type cannot be declared to it, since its generics are bounded by the
/// engine's own traits.
#[verifier::external_body]
struct SystemHandle {
    inner: ark_relations::r1cs::ConstraintSystemRef<ark_test_curves::bls12_381::Fr>,
}

/// The failures this layer surfaces.  The engine calls made here can fail
/// in exactly two ways: a value was needed and absent, or the handle held
/// no live system (which the constructors of this module rule out).
#[derive(Clone, Copy, PartialEq, Eq, Structural, Debug)]
pub enum SynthesisError {
    /// a plaintext value was requested but none was ever supplied
    AssignmentMissing,
    /// the underlying engine had no live constraint system
    MissingSystem,
}

/// What the engine's satisfaction check reports: in setup mode there is
/// no assignment to check; outside it, a satisfied model is confirmed
/// provided every allocated slot carries an assignment.  The proviso
/// matters: a failed allocation advances the engine's slot counter
/// without storing a value, and from then on the engine's assignment
/// store sits out of step with the slots, so nothing is promised of such
/// a system.
pub open spec fn satisfied_check_post(m: CsModel, r: Result<bool, SynthesisError>) -> bool {
    &&& (m.setup ==> (r matches Err(e) && e == SynthesisError::AssignmentMissing))
    &&& (!m.setup && satisfied(m) && fully_assigned(m) ==> r == Ok::<bool, SynthesisError>(true))
}

/// A variable handle of the constraint system, paired with the ghost
/// identity of the slot it denotes.
#[derive(Clone, Copy)]
pub struct Var {
    inner: ark_relations::r1cs::Variable,
    id: Ghost<VarId>,
}

impl Var {
    /// The ghost identity of the slot this handle denotes.
    pub closed spec fn spec_id(self) -> VarId {
        self.id@
    }
}

/// A linear combination this crate is about to hand the engine: a weighted
/// sum of variables with small signed integer coefficients.
pub struct Lc {
    pub terms: Vec<(i64, Var)>,
}

impl View for Lc {
    type V = SpecLc;

    open spec fn view(&self) -> SpecLc {
        self.terms@.map(|i: int, t: (i64, Var)| (t.0 as int, t.1.spec_id()))
    }
}

impl Var {
    /// Relies on `ark_relations`' `Variable::One`: the reserved handle for
    /// the constant one.
    #[verifier::external_body]
    pub fn one() -> (r: Var)
        ensures
            r.spec_id() == VarId::One,
    {
        Var { inner: ark_relations::r1cs::Variable::One, id: Ghost(VarId::One) }
    }

    /// Relies on `ark_relations`' `Variable::Zero`: the reserved handle for
    /// the constant zero.
    #[verifier::external_body]
    pub fn zero() -> (r: Var)
        ensures
            r.spec_id() == VarId::Zero,
    {
        Var { inner: ark_relations::r1cs::Variable::Zero, id: Ghost(VarId::Zero) }
    }
}

/// A shared handle to one constraint system, paired with the ghost model
/// of that system's state.
pub struct CsRef {
    sys: SystemHandle,
    model: Ghost<CsModel>,
}

impl CsRef {
    /// The ghost model of the system this handle refers to.
    pub closed spec fn spec_model(self) -> CsModel {
        self.model@
    }
}

impl CsRef {
    /// Relies on `ConstraintSystem::new_ref`: a fresh live system in full
    /// proving mode (assignments kept, matrices built), holding one
    /// instance slot fixed to the constant one and nothing else.
    #[verifier::external_body]
    pub fn new() -> (r: CsRef)
        ensures
            r.spec_model() == fresh_model(false, true),
    {
        CsRef {
            sys: SystemHandle { inner: ark_relations::r1cs::ConstraintSystem::new_ref() },
            model: Ghost(fresh_model(false, true)),
        }
    }

    /// Relies on `ConstraintSystem::new_ref` and `set_mode`: a fresh live
    /// system in setup mode, where the engine keeps no assignments but
    /// still builds matrices.
    #[verifier::external_body]
    pub fn new_setup() -> (r: CsRef)
        ensures
            r.spec_model() == fresh_model(true, true),
    {
        let inner = ark_relations::r1cs::ConstraintSystem::new_ref();
        inner.set_mode(ark_relations::r1cs::SynthesisMode::Setup);
        CsRef { sys: SystemHandle { inner }, model: Ghost(fresh_model(true, true)) }
    }

    /// Relies on `ConstraintSystem::new_ref` and `set_mode`: a fresh live
    /// system in proving mode without matrices, where constraints are only
    /// counted.
    #[verifier::external_body]
    pub fn new_counting() -> (r: CsRef)
        ensures
            r.spec_model() == fresh_model(false, false),
    {
        let inner = ark_relations::r1cs::ConstraintSystem::new_ref();
        inner.set_mode(ark_relations::r1cs::SynthesisMode::Prove { construct_matrices: false });
        CsRef { sys: SystemHandle { inner }, model: Ghost(fresh_model(false, false)) }
    }

    /// Relies on `ConstraintSystemRef::should_construct_matrices`: reports
    /// which of the two execution modes is active.  The mode of a system
    /// is fixed by its constructor and never changed by this crate.
    #[verifier::external_body]
    pub fn should_construct_matrices(&self) -> (r: bool)
        ensures
            r == self.spec_model().materializing,
    {
        self.sys.inner.should_construct_matrices()
    }

    /// Relies on `ConstraintSystemRef::num_constraints`: the count this
    /// crate maintains in the model is exactly the engine's counter.
    #[verifier::external_body]
    pub fn num_constraints(&self) -> (r: usize)
        ensures
            r as nat == self.spec_model().num_constraints,
    {
        self.sys.inner.num_constraints()
    }

    /// Relies on `ConstraintSystemRef::new_witness_variable`: allocates the
    /// next witness slot and, outside setup mode, stores the assignment the
    /// given value maps to — failing with the closure's error when the
    /// value is absent.  In setup mode the closure is never invoked.
    #[verifier::external_body]
    pub(crate) fn new_witness_variable(&mut self, value: Option<bool>) -> (r: Result<
        Var,
        SynthesisError,
    >)
        ensures
            final(self).spec_model() == (CsModel {
                witness: old(self).spec_model().witness.push(value),
                ..old(self).spec_model()
            }),
            (r is Ok) == (old(self).spec_model().setup || value is Some),
            r matches Ok(v) ==> v.spec_id() == VarId::Witness(old(self).spec_model().witness.len()),
            r matches Err(e) ==> e == SynthesisError::AssignmentMissing,
    {
        let f = || match value {
            Some(b) => Ok(ark_test_curves::bls12_381::Fr::from(if b { 1u64 } else { 0u64 })),
            None => Err(ark_relations::r1cs::SynthesisError::AssignmentMissing),
        };
        // the ghost identity of the result is fixed by the contract; the
        // value written here is erased and never seen
        match self.sys.inner.new_witness_variable(f) {
            Ok(v) => Ok(Var { inner: v, id: Ghost(VarId::Zero) }),
            Err(_) => Err(SynthesisError::AssignmentMissing),
        }
    }

    /// Relies on `ConstraintSystemRef::new_input_variable`: allocates the
    /// next instance slot; otherwise exactly as `new_witness_variable`.
    #[verifier::external_body]
    pub(crate) fn new_input_variable(&mut self, value: Option<bool>) -> (r: Result<
        Var,
        SynthesisError,
    >)
        ensures
            final(self).spec_model() == (CsModel {
                instance: old(self).spec_model().instance.push(value),
                ..old(self).spec_model()
            }),
            (r is Ok) == (old(self).spec_model().setup || value is Some),
            r matches Ok(v) ==> v.spec_id() == VarId::Instance(old(self).spec_model().instance.len()),
            r matches Err(e) ==> e == SynthesisError::AssignmentMissing,
    {
        let f = || match value {
            Some(b) => Ok(ark_test_curves::bls12_381::Fr::from(if b { 1u64 } else { 0u64 })),
            None => Err(ark_relations::r1cs::SynthesisError::AssignmentMissing),
        };
        match self.sys.inner.new_input_variable(f) {
            Ok(v) => Ok(Var { inner: v, id: Ghost(VarId::Zero) }),
            Err(_) => Err(SynthesisError::AssignmentMissing),
        }
    }

    /// Relies on `ConstraintSystemRef::new_lc`: stores the combination in
    /// the next combination slot and returns a handle bound to it.  The
    /// slot's value is fixed at storage time, since assignments are never
    /// overwritten.  On a live system this never fails.
    #[verifier::external_body]
    pub(crate) fn new_lc(&mut self, lc: &Lc) -> (r: Result<Var, SynthesisError>)
        ensures
            final(self).spec_model() == (CsModel {
                lcs: old(self).spec_model().lcs.push(lc_value(old(self).spec_model(), lc@)),
                ..old(self).spec_model()
            }),
            r is Ok,
            r matches Ok(v) ==> v.spec_id() == VarId::Lc(old(self).spec_model().lcs.len()),
    {
        let terms: Vec<(ark_test_curves::bls12_381::Fr, ark_relations::r1cs::Variable)> = lc
            .terms
            .iter()
            .map(|t| (ark_test_curves::bls12_381::Fr::from(t.0), t.1.inner))
            .collect();
        match self.sys.inner.new_lc(ark_relations::r1cs::LinearCombination(terms)) {
            Ok(v) => Ok(Var { inner: v, id: Ghost(VarId::Zero) }),
            Err(_) => Err(SynthesisError::MissingSystem),
        }
    }

    /// Relies on `ConstraintSystemRef::enforce_constraint`: records the
    /// constraint `a * b = c`, storing the three combinations in the next
    /// three combination slots and raising the count by one.  On a live
    /// system this never fails.
    #[verifier::external_body]
    pub(crate) fn enforce_constraint(&mut self, a: &Lc, b: &Lc, c: &Lc) -> (r: Result<
        (),
        SynthesisError,
    >)
        requires
            old(self).spec_model().materializing,
        ensures
            final(self).spec_model() == enforced_model(
                old(self).spec_model(),
                SpecConstraint { a: a@, b: b@, c: c@ },
            ),
            r is Ok,
    {
        let conv = |lc: &Lc| -> ark_relations::r1cs::LinearCombination<
            ark_test_curves::bls12_381::Fr,
        > {
            ark_relations::r1cs::LinearCombination(
                lc.terms
                    .iter()
                    .map(|t| (ark_test_curves::bls12_381::Fr::from(t.0), t.1.inner))
                    .collect(),
            )
        };
        match self.sys.inner.enforce_constraint(conv(a), conv(b), conv(c)) {
            Ok(()) => Ok(()),
            Err(_) => Err(SynthesisError::MissingSystem),
        }
    }

    /// Relies on the public `num_constraints` field of `ConstraintSystem`:
    /// the counting-mode bump, which raises the count without recording
    /// any combination data.  Only called when not materializing.
    #[verifier::external_body]
    pub(crate) fn increment_constraint_count(&mut self)
        requires
            !old(self).spec_model().materializing,
        ensures
            final(self).spec_model() == counted_model(old(self).spec_model()),
    {
        self.sys.inner.borrow_mut().unwrap().num_constraints += 1;
    }

    /// Relies on `ConstraintSystemRef::is_satisfied`: in setup mode it
    /// fails for want of assignments; otherwise it checks every recorded
    /// constraint under the stored assignment.  When the ghost model is
    /// satisfied and every slot is assigned — so the engine's assignment
    /// store is aligned with its slots — the ring homomorphism argument
    /// above gives `Ok(true)`.  Requires materializing mode: the engine
    /// indexes its recorded matrices by the count, which the counting
    /// mode raises without recording anything.
    #[verifier::external_body]
    pub fn is_satisfied(&self) -> (r: Result<bool, SynthesisError>)
        requires
            self.spec_model().materializing,
        ensures
            satisfied_check_post(self.spec_model(), r),
    {
        match self.sys.inner.is_satisfied() {
            Ok(b) => Ok(b),
            Err(e) => match e {
                ark_relations::r1cs::SynthesisError::AssignmentMissing => Err(
                    SynthesisError::AssignmentMissing,
                ),
                _ => Err(SynthesisError::MissingSystem),
            },
        }
    }
}

} // verus!
