//! The boolean gadget: a variable provably restricted to {0, 1}, with the
//! boolean operators as constraint-encoding constructors.
//!
//! Each operator computes its result's plaintext value from the operands'
//! values, allocates the result as a fresh witness without re-checking
//! booleanity (the operator's own constraint implies it), and then records
//! exactly one multiplicative constraint — or, for NOT, none at all, since
//! negation is affine.  In counting mode the same operators raise the
//! constraint count by exactly the same amount without recording data.

use vstd::prelude::*;
use vstd::pervasive::unreached;

use crate::model::{
    b2i, counted_model, cs_wf, enforced_model, extends, lc_value, lemma_constraint_holds_extends,
    lemma_counted_model, lemma_enforced_model, lemma_extends_trans, lemma_lc_value_1,
    lemma_lc_value_2, lemma_lc_value_3, lemma_pushed_var_model, lemma_satisfied_extends,
    lemma_var_in_bounds_extends, lemma_var_value_extends, pushed_var_model, satisfied, var_in_bounds,
    var_value, CsModel, SpecConstraint, VarId,
};
use crate::system::{CsRef, Lc, SynthesisError, Var};

verus! {

/// How a value enters the circuit: baked into its description, as a public
/// input, or as a private witness.
#[derive(Clone, Copy, PartialEq, Eq, Structural, Debug)]
pub enum AllocationMode {
    Constant,
    Input,
    Witness,
}

/// The five binary operators, each of which records one constraint.
#[derive(Clone, Copy, PartialEq, Eq, Structural, Debug)]
pub enum BoolOp {
    Xor,
    And,
    Or,
    AndNot,
    Nor,
}

/// The truth table of each binary operator.
pub open spec fn op_value(op: BoolOp, a: bool, b: bool) -> bool {
    match op {
        BoolOp::Xor => a != b,
        BoolOp::And => a && b,
        BoolOp::Or => a || b,
        BoolOp::AndNot => a && !b,
        BoolOp::Nor => !(a || b),
    }
}

/// The operator's value on possibly-absent operands: absence propagates.
pub open spec fn op_value_opt(op: BoolOp, a: Option<bool>, b: Option<bool>) -> Option<bool> {
    match (a, b) {
        (Some(x), Some(y)) => Some(op_value(op, x, y)),
        _ => None,
    }
}

/// Negation on a possibly-absent operand.
pub open spec fn neg_opt(a: Option<bool>) -> Option<bool> {
    match a {
        Some(x) => Some(!x),
        None => None,
    }
}

/// The value a provider produced, or absence if it failed.
pub open spec fn res_opt(fr: Result<bool, SynthesisError>) -> Option<bool> {
    match fr {
        Ok(b) => Some(b),
        Err(_) => None,
    }
}

/// The single multiplicative constraint each binary operator records,
/// as `a * b = c` over the operand slots and the result slot.  Each line
/// is the degree-minimal quadratic encoding of its truth table; XOR folds
/// `a + b - 2ab` into one multiplication.
pub open spec fn op_constraint(op: BoolOp, va: VarId, vb: VarId, vc: VarId) -> SpecConstraint {
    match op {
        BoolOp::Xor => SpecConstraint {
            a: seq![(1int, va), (1int, va)],
            b: seq![(1int, vb)],
            c: seq![(1int, va), (1int, vb), (-1int, vc)],
        },
        BoolOp::And => SpecConstraint {
            a: seq![(1int, va)],
            b: seq![(1int, vb)],
            c: seq![(1int, vc)],
        },
        BoolOp::Or => SpecConstraint {
            a: seq![(1int, VarId::One), (-1int, va)],
            b: seq![(1int, VarId::One), (-1int, vb)],
            c: seq![(1int, VarId::One), (-1int, vc)],
        },
        BoolOp::AndNot => SpecConstraint {
            a: seq![(1int, va)],
            b: seq![(1int, VarId::One), (-1int, vb)],
            c: seq![(1int, vc)],
        },
        BoolOp::Nor => SpecConstraint {
            a: seq![(1int, VarId::One), (-1int, va)],
            b: seq![(1int, VarId::One), (-1int, vb)],
            c: seq![(1int, vc)],
        },
    }
}

/// The booleanity check `(1 - v) * v = 0`, satisfiable only when the slot
/// holds 0 or 1.
pub open spec fn booleanity_constraint(v: VarId) -> SpecConstraint {
    SpecConstraint {
        a: seq![(1int, VarId::One), (-1int, v)],
        b: seq![(1int, v)],
        c: Seq::<(int, VarId)>::empty(),
    }
}

/// The affine combination `1 - v` that NOT binds its result to.
pub open spec fn not_lc(v: VarId) -> Seq<(int, VarId)> {
    seq![(1int, VarId::One), (-1int, v)]
}

/// A variable of the constraint system guaranteed to hold either zero or
/// one whenever the system is satisfied.
#[derive(Clone, Copy)]
pub struct AllocatedBool {
    variable: Var,
    enable_lc: bool,
    value: Option<bool>,
}

impl AllocatedBool {
    /// The slot this boolean denotes.
    pub closed spec fn spec_variable(self) -> VarId {
        self.variable.spec_id()
    }

    /// The cached plaintext value, if one was ever supplied.
    pub closed spec fn spec_value(self) -> Option<bool> {
        self.value
    }

    /// The materializing-mode snapshot taken at construction time.
    pub closed spec fn spec_enable_lc(self) -> bool {
        self.enable_lc
    }

    /// Well-formedness against a model: the snapshot agrees with the
    /// system's mode, the slot is allocated, and in materializing mode a
    /// cached value agrees with the slot's assignment.
    pub open spec fn wf(self, m: CsModel) -> bool {
        &&& self.spec_enable_lc() == m.materializing
        &&& var_in_bounds(m, self.spec_variable())
        &&& m.materializing ==> (self.spec_value() matches Some(b) ==> var_value(
            m,
            self.spec_variable(),
        ) == Some(b2i(b)))
    }
}

/// A boolean stays well formed as the system grows.
pub proof fn lemma_wf_extends(m1: CsModel, m2: CsModel, ab: AllocatedBool)
    requires
        extends(m2, m1),
        ab.wf(m1),
    ensures
        ab.wf(m2),
{
    lemma_var_in_bounds_extends(m1, m2, ab.spec_variable());
    if m1.materializing && ab.spec_value() is Some {
        lemma_var_value_extends(m1, m2, ab.spec_variable());
    }
}

/// What allocating a fresh witness slot without a booleanity check leaves
/// behind: one more witness slot, success exactly when a value is at hand
/// or none is needed, and a result bound to the new slot.
pub open spec fn witness_alloc_post(
    m0: CsModel,
    m1: CsModel,
    r: Result<AllocatedBool, SynthesisError>,
    value: Option<bool>,
) -> bool {
    &&& m1 == (CsModel { witness: m0.witness.push(value), ..m0 })
    &&& (r is Ok) == (m0.setup || value is Some)
    &&& (r matches Err(e) ==> e == SynthesisError::AssignmentMissing)
    &&& (r matches Ok(ab) ==> {
        &&& ab.spec_variable() == VarId::Witness(m0.witness.len())
        &&& ab.spec_value() == value
        &&& ab.spec_enable_lc() == m0.materializing
        &&& ab.wf(m1)
    })
    &&& extends(m1, m0)
    &&& (cs_wf(m0) ==> cs_wf(m1))
}

impl AllocatedBool {
    /// Wraps an already-allocated slot, snapshotting the system's current
    /// mode.
    pub fn new(value: Option<bool>, variable: Var, cs: &CsRef) -> (r: Self)
        ensures
            r.spec_value() == value,
            r.spec_variable() == variable.spec_id(),
            r.spec_enable_lc() == cs.spec_model().materializing,
    {
        AllocatedBool { value, variable, enable_lc: cs.should_construct_matrices() }
    }

    /// The cached plaintext value, or `AssignmentMissing` if none was ever
    /// supplied.
    pub fn value(&self) -> (r: Result<bool, SynthesisError>)
        ensures
            (r is Ok) == (self.spec_value() is Some),
            r matches Ok(b) ==> self.spec_value() == Some(b),
            r matches Err(e) ==> e == SynthesisError::AssignmentMissing,
    {
        match self.value {
            Some(b) => Ok(b),
            None => Err(SynthesisError::AssignmentMissing),
        }
    }

    /// The underlying slot handle.
    pub fn variable(&self) -> (r: Var)
        ensures
            r.spec_id() == self.spec_variable(),
    {
        self.variable
    }

    /// Allocates a fresh witness slot for the given value (absence allowed
    /// in setup mode) without a booleanity check.
    fn alloc_witness_unchecked(cs: &mut CsRef, value: Option<bool>) -> (r: Result<
        Self,
        SynthesisError,
    >)
        ensures
            witness_alloc_post(old(cs).spec_model(), final(cs).spec_model(), r, value),
    {
        let ghost m0 = cs.spec_model();
        proof {
            lemma_pushed_var_model(m0, value, false);
        }
        let variable = match cs.new_witness_variable(value) {
            Ok(v) => v,
            Err(e) => {
                return Err(e);
            },
        };
        let enable_lc = cs.should_construct_matrices();
        Ok(AllocatedBool { variable, enable_lc, value })
    }

    /// Allocate a witness boolean without a booleanity check.  The
    /// provider is invoked exactly once; its failure leaves the value
    /// absent, which outside setup mode makes the allocation itself fail.
    pub fn new_witness_without_booleanity_check<Fn0: FnOnce() -> Result<bool, SynthesisError>>(
        cs: &mut CsRef,
        f: Fn0,
    ) -> (r: Result<Self, SynthesisError>)
        requires
            call_requires(f, ()),
        ensures
            exists|fr: Result<bool, SynthesisError>|
                #[trigger] call_ensures(f, (), fr) && witness_alloc_post(
                    old(cs).spec_model(),
                    final(cs).spec_model(),
                    r,
                    res_opt(fr),
                ),
    {
        let v = f();
        let value = match v {
            Ok(b) => Some(b),
            Err(_) => None,
        };
        let r = Self::alloc_witness_unchecked(cs, value);
        proof {
            assert(call_ensures(f, (), v) && witness_alloc_post(
                old(cs).spec_model(),
                final(cs).spec_model(),
                r,
                res_opt(v),
            ));
        }
        r
    }
}

/// Each operator's constraint is met by any boolean assignment that
/// follows its truth table.
#[verifier::rlimit(50)]
pub proof fn lemma_op_constraint_holds(
    m: CsModel,
    op: BoolOp,
    va: VarId,
    vb: VarId,
    vc: VarId,
    a: bool,
    b: bool,
)
    requires
        var_value(m, va) == Some(b2i(a)),
        var_value(m, vb) == Some(b2i(b)),
        var_value(m, vc) == Some(b2i(op_value(op, a, b))),
    ensures
        crate::model::constraint_holds(m, op_constraint(op, va, vb, vc)),
{
    let con = op_constraint(op, va, vb, vc);
    match op {
        BoolOp::Xor => {
            lemma_lc_value_2(m, (1int, va), (1int, va));
            lemma_lc_value_1(m, (1int, vb));
            lemma_lc_value_3(m, (1int, va), (1int, vb), (-1int, vc));
            assert(lc_value(m, con.a) == Some(b2i(a) + b2i(a)));
            assert(lc_value(m, con.b) == Some(b2i(b)));
            assert(lc_value(m, con.c) == Some(b2i(a) + b2i(b) - b2i(op_value(op, a, b))));
            if a {
                if b {
                    crate::model::lemma_constraint_holds_from_values(m, con, 2int, 1int, 2int);
                } else {
                    crate::model::lemma_constraint_holds_from_values(m, con, 2int, 0int, 0int);
                }
            } else {
                if b {
                    crate::model::lemma_constraint_holds_from_values(m, con, 0int, 1int, 0int);
                } else {
                    crate::model::lemma_constraint_holds_from_values(m, con, 0int, 0int, 0int);
                }
            }
        },
        BoolOp::And => {
            lemma_lc_value_1(m, (1int, va));
            lemma_lc_value_1(m, (1int, vb));
            lemma_lc_value_1(m, (1int, vc));
            assert(lc_value(m, con.a) == Some(b2i(a)));
            assert(lc_value(m, con.b) == Some(b2i(b)));
            assert(lc_value(m, con.c) == Some(b2i(op_value(op, a, b))));
            if a {
                if b {
                    crate::model::lemma_constraint_holds_from_values(m, con, 1int, 1int, 1int);
                } else {
                    crate::model::lemma_constraint_holds_from_values(m, con, 1int, 0int, 0int);
                }
            } else {
                if b {
                    crate::model::lemma_constraint_holds_from_values(m, con, 0int, 1int, 0int);
                } else {
                    crate::model::lemma_constraint_holds_from_values(m, con, 0int, 0int, 0int);
                }
            }
        },
        BoolOp::Or => {
            lemma_lc_value_2(m, (1int, VarId::One), (-1int, va));
            lemma_lc_value_2(m, (1int, VarId::One), (-1int, vb));
            lemma_lc_value_2(m, (1int, VarId::One), (-1int, vc));
            assert(lc_value(m, con.a) == Some(1 - b2i(a)));
            assert(lc_value(m, con.b) == Some(1 - b2i(b)));
            assert(lc_value(m, con.c) == Some(1 - b2i(op_value(op, a, b))));
            if a {
                if b {
                    crate::model::lemma_constraint_holds_from_values(m, con, 0int, 0int, 0int);
                } else {
                    crate::model::lemma_constraint_holds_from_values(m, con, 0int, 1int, 0int);
                }
            } else {
                if b {
                    crate::model::lemma_constraint_holds_from_values(m, con, 1int, 0int, 0int);
                } else {
                    crate::model::lemma_constraint_holds_from_values(m, con, 1int, 1int, 1int);
                }
            }
        },
        BoolOp::AndNot => {
            lemma_lc_value_1(m, (1int, va));
            lemma_lc_value_2(m, (1int, VarId::One), (-1int, vb));
            lemma_lc_value_1(m, (1int, vc));
            assert(lc_value(m, con.a) == Some(b2i(a)));
            assert(lc_value(m, con.b) == Some(1 - b2i(b)));
            assert(lc_value(m, con.c) == Some(b2i(op_value(op, a, b))));
            if a {
                if b {
                    crate::model::lemma_constraint_holds_from_values(m, con, 1int, 0int, 0int);
                } else {
                    crate::model::lemma_constraint_holds_from_values(m, con, 1int, 1int, 1int);
                }
            } else {
                if b {
                    crate::model::lemma_constraint_holds_from_values(m, con, 0int, 0int, 0int);
                } else {
                    crate::model::lemma_constraint_holds_from_values(m, con, 0int, 1int, 0int);
                }
            }
        },
        BoolOp::Nor => {
            lemma_lc_value_2(m, (1int, VarId::One), (-1int, va));
            lemma_lc_value_2(m, (1int, VarId::One), (-1int, vb));
            lemma_lc_value_1(m, (1int, vc));
            assert(lc_value(m, con.a) == Some(1 - b2i(a)));
            assert(lc_value(m, con.b) == Some(1 - b2i(b)));
            assert(lc_value(m, con.c) == Some(1int * b2i(op_value(op, a, b))));
            if a {
                if b {
                    crate::model::lemma_constraint_holds_from_values(m, con, 0int, 0int, 0int);
                } else {
                    crate::model::lemma_constraint_holds_from_values(m, con, 0int, 1int, 0int);
                }
            } else {
                if b {
                    crate::model::lemma_constraint_holds_from_values(m, con, 1int, 0int, 0int);
                } else {
                    crate::model::lemma_constraint_holds_from_values(m, con, 1int, 1int, 1int);
                }
            }
        },
    }
}

/// The booleanity check is met by any slot assigned 0 or 1.
pub proof fn lemma_booleanity_holds(m: CsModel, v: VarId, b: bool)
    requires
        var_value(m, v) == Some(b2i(b)),
    ensures
        crate::model::constraint_holds(m, booleanity_constraint(v)),
{
    lemma_lc_value_2(m, (1int, VarId::One), (-1int, v));
    lemma_lc_value_1(m, (1int, v));
}

/// What a binary operator leaves behind: one fresh witness slot holding
/// the operator's value, exactly one more recorded constraint (the
/// operator's own, in materializing mode; only the count otherwise), and
/// a satisfied system staying satisfied.
pub open spec fn binop_post(
    m0: CsModel,
    m1: CsModel,
    a: AllocatedBool,
    b: AllocatedBool,
    r: Result<AllocatedBool, SynthesisError>,
    op: BoolOp,
) -> bool {
    let value = op_value_opt(op, a.spec_value(), b.spec_value());
    let vid = VarId::Witness(m0.witness.len());
    let mw = CsModel { witness: m0.witness.push(value), ..m0 };
    let con = op_constraint(op, a.spec_variable(), b.spec_variable(), vid);
    &&& (r is Ok) == (m0.setup || (a.spec_value() is Some && b.spec_value() is Some))
    &&& (r matches Err(e) ==> (e == SynthesisError::AssignmentMissing && m1 == mw))
    &&& (r matches Ok(c) ==> {
        &&& c.spec_variable() == vid
        &&& c.spec_value() == value
        &&& c.spec_enable_lc() == m0.materializing
        &&& m1 == (if m0.materializing {
            enforced_model(mw, con)
        } else {
            counted_model(mw)
        })
        &&& m1.num_constraints == m0.num_constraints + 1
        &&& c.wf(m1)
        &&& a.wf(m1)
        &&& b.wf(m1)
        &&& cs_wf(m1)
        &&& (!m0.setup && satisfied(m0) ==> satisfied(m1))
    })
    &&& extends(m1, m0)
}

impl AllocatedBool {
    /// Shared tail of the five binary operators: allocate the result
    /// witness, then record the operator's one constraint in materializing
    /// mode, or bump the count otherwise.
    fn finish_binop(&self, other: &Self, cs: &mut CsRef, op: BoolOp, value: Option<bool>) -> (r:
        Result<Self, SynthesisError>)
        requires
            cs_wf(old(cs).spec_model()),
            self.wf(old(cs).spec_model()),
            other.wf(old(cs).spec_model()),
            value == op_value_opt(op, self.spec_value(), other.spec_value()),
        ensures
            binop_post(old(cs).spec_model(), final(cs).spec_model(), *self, *other, r, op),
    {
        let ghost m0 = cs.spec_model();
        let ghost vid = VarId::Witness(m0.witness.len());
        let ghost con = op_constraint(op, self.spec_variable(), other.spec_variable(), vid);
        let result = match Self::alloc_witness_unchecked(cs, value) {
            Ok(ab) => ab,
            Err(e) => {
                return Err(e);
            },
        };
        let ghost mw = cs.spec_model();
        proof {
            lemma_wf_extends(m0, mw, *self);
            lemma_wf_extends(m0, mw, *other);
        }
        if self.enable_lc {
            let one = Var::one();
            let (la, lb, lcc) = match op {
                BoolOp::Xor => (
                    Lc { terms: vec![(1i64, self.variable), (1i64, self.variable)] },
                    Lc { terms: vec![(1i64, other.variable)] },
                    Lc {
                        terms: vec![
                            (1i64, self.variable),
                            (1i64, other.variable),
                            (-1i64, result.variable),
                        ],
                    },
                ),
                BoolOp::And => (
                    Lc { terms: vec![(1i64, self.variable)] },
                    Lc { terms: vec![(1i64, other.variable)] },
                    Lc { terms: vec![(1i64, result.variable)] },
                ),
                BoolOp::Or => (
                    Lc { terms: vec![(1i64, one), (-1i64, self.variable)] },
                    Lc { terms: vec![(1i64, one), (-1i64, other.variable)] },
                    Lc { terms: vec![(1i64, one), (-1i64, result.variable)] },
                ),
                BoolOp::AndNot => (
                    Lc { terms: vec![(1i64, self.variable)] },
                    Lc { terms: vec![(1i64, one), (-1i64, other.variable)] },
                    Lc { terms: vec![(1i64, result.variable)] },
                ),
                BoolOp::Nor => (
                    Lc { terms: vec![(1i64, one), (-1i64, self.variable)] },
                    Lc { terms: vec![(1i64, one), (-1i64, other.variable)] },
                    Lc { terms: vec![(1i64, result.variable)] },
                ),
            };
            proof {
                assert(la@ =~= con.a);
                assert(lb@ =~= con.b);
                assert(lcc@ =~= con.c);
                assert(crate::model::lc_in_bounds(mw, con.a)) by {
                    assert(forall|i: int|
                        0 <= i < con.a.len() ==> var_in_bounds(mw, (#[trigger] con.a[i]).1));
                }
                assert(crate::model::lc_in_bounds(mw, con.b)) by {
                    assert(forall|i: int|
                        0 <= i < con.b.len() ==> var_in_bounds(mw, (#[trigger] con.b[i]).1));
                }
                assert(crate::model::lc_in_bounds(mw, con.c)) by {
                    assert(forall|i: int|
                        0 <= i < con.c.len() ==> var_in_bounds(mw, (#[trigger] con.c[i]).1));
                }
            }
            let res = cs.enforce_constraint(&la, &lb, &lcc);
            if res.is_err() {
                return Err(SynthesisError::MissingSystem);
            }
            let ghost m1 = cs.spec_model();
            proof {
                lemma_enforced_model(mw, con);
                lemma_extends_trans(m0, mw, m1);
                lemma_wf_extends(mw, m1, *self);
                lemma_wf_extends(mw, m1, *other);
                lemma_wf_extends(mw, m1, result);
                if !m0.setup && satisfied(m0) {
                    lemma_satisfied_extends(m0, mw);
                    let av = self.spec_value()->Some_0;
                    let bv = other.spec_value()->Some_0;
                    lemma_op_constraint_holds(
                        m1,
                        op,
                        self.spec_variable(),
                        other.spec_variable(),
                        vid,
                        av,
                        bv,
                    );
                    assert forall|i: int|
                        mw.constraints.len() <= i < m1.constraints.len() implies
                        crate::model::constraint_holds(m1, #[trigger] m1.constraints[i]) by {
                        assert(m1.constraints[i] == con);
                    }
                    lemma_satisfied_extends(mw, m1);
                }
            }
            Ok(result)
        } else {
            cs.increment_constraint_count();
            let ghost m1 = cs.spec_model();
            proof {
                lemma_counted_model(mw);
                lemma_extends_trans(m0, mw, m1);
                lemma_wf_extends(mw, m1, *self);
                lemma_wf_extends(mw, m1, *other);
                lemma_wf_extends(mw, m1, result);
                if !m0.setup && satisfied(m0) {
                    lemma_satisfied_extends(m0, mw);
                    lemma_satisfied_extends(mw, m1);
                }
            }
            Ok(result)
        }
    }

    /// XOR of the two operands: value `a ^ b`, one constraint
    /// `(a + a) * b = a + b - c`.
    pub fn xor(&self, b: &Self, cs: &mut CsRef) -> (r: Result<Self, SynthesisError>)
        requires
            cs_wf(old(cs).spec_model()),
            self.wf(old(cs).spec_model()),
            b.wf(old(cs).spec_model()),
        ensures
            binop_post(old(cs).spec_model(), final(cs).spec_model(), *self, *b, r, BoolOp::Xor),
    {
        let value = match (self.value, b.value) {
            (Some(x), Some(y)) => Some(x ^ y),
            _ => None,
        };
        self.finish_binop(b, cs, BoolOp::Xor, value)
    }

    /// AND of the two operands: value `a & b`, one constraint `a * b = c`.
    pub fn and(&self, b: &Self, cs: &mut CsRef) -> (r: Result<Self, SynthesisError>)
        requires
            cs_wf(old(cs).spec_model()),
            self.wf(old(cs).spec_model()),
            b.wf(old(cs).spec_model()),
        ensures
            binop_post(old(cs).spec_model(), final(cs).spec_model(), *self, *b, r, BoolOp::And),
    {
        let value = match (self.value, b.value) {
            (Some(x), Some(y)) => Some(x && y),
            _ => None,
        };
        self.finish_binop(b, cs, BoolOp::And, value)
    }

    /// OR of the two operands: value `a | b`, one constraint
    /// `(1 - a) * (1 - b) = 1 - c`.
    pub fn or(&self, b: &Self, cs: &mut CsRef) -> (r: Result<Self, SynthesisError>)
        requires
            cs_wf(old(cs).spec_model()),
            self.wf(old(cs).spec_model()),
            b.wf(old(cs).spec_model()),
        ensures
            binop_post(old(cs).spec_model(), final(cs).spec_model(), *self, *b, r, BoolOp::Or),
    {
        let value = match (self.value, b.value) {
            (Some(x), Some(y)) => Some(x || y),
            _ => None,
        };
        self.finish_binop(b, cs, BoolOp::Or, value)
    }

    /// `a AND (NOT b)`: one constraint `a * (1 - b) = c`.
    pub fn and_not(&self, b: &Self, cs: &mut CsRef) -> (r: Result<Self, SynthesisError>)
        requires
            cs_wf(old(cs).spec_model()),
            self.wf(old(cs).spec_model()),
            b.wf(old(cs).spec_model()),
        ensures
            binop_post(old(cs).spec_model(), final(cs).spec_model(), *self, *b, r, BoolOp::AndNot),
    {
        let value = match (self.value, b.value) {
            (Some(x), Some(y)) => Some(x && !y),
            _ => None,
        };
        self.finish_binop(b, cs, BoolOp::AndNot, value)
    }

    /// `(NOT a) AND (NOT b)`: one constraint `(1 - a) * (1 - b) = c`.
    pub fn nor(&self, b: &Self, cs: &mut CsRef) -> (r: Result<Self, SynthesisError>)
        requires
            cs_wf(old(cs).spec_model()),
            self.wf(old(cs).spec_model()),
            b.wf(old(cs).spec_model()),
        ensures
            binop_post(old(cs).spec_model(), final(cs).spec_model(), *self, *b, r, BoolOp::Nor),
    {
        let value = match (self.value, b.value) {
            (Some(x), Some(y)) => Some(!(x || y)),
            _ => None,
        };
        self.finish_binop(b, cs, BoolOp::Nor, value)
    }
}

/// What NOT leaves behind: no new constraint at all — the result is a slot
/// bound to the affine combination `1 - a` (an empty one in counting mode,
/// where no combination data is kept) — and satisfaction is untouched in
/// either direction.
pub open spec fn not_post(
    m0: CsModel,
    m1: CsModel,
    a: AllocatedBool,
    r: Result<AllocatedBool, SynthesisError>,
) -> bool {
    let lcv = if m0.materializing {
        lc_value(m0, not_lc(a.spec_variable()))
    } else {
        Some(0int)
    };
    &&& m1 == (CsModel { lcs: m0.lcs.push(lcv), ..m0 })
    &&& m1.num_constraints == m0.num_constraints
    &&& m1.constraints == m0.constraints
    &&& r is Ok
    &&& (r matches Ok(c) ==> {
        &&& c.spec_variable() == VarId::Lc(m0.lcs.len())
        &&& c.spec_value() == neg_opt(a.spec_value())
        &&& c.spec_enable_lc() == m0.materializing
        &&& c.wf(m1)
        &&& a.wf(m1)
        &&& cs_wf(m1)
        &&& (satisfied(m1) <==> satisfied(m0))
    })
    &&& extends(m1, m0)
}

impl AllocatedBool {
    /// NOT of the operand: value `!a`; zero constraints, since the result
    /// is the affine combination `1 - a` of an already boolean-constrained
    /// slot.
    pub fn not(&self, cs: &mut CsRef) -> (r: Result<Self, SynthesisError>)
        requires
            cs_wf(old(cs).spec_model()),
            self.wf(old(cs).spec_model()),
        ensures
            not_post(old(cs).spec_model(), final(cs).spec_model(), *self, r),
    {
        let ghost m0 = cs.spec_model();
        let ghost vid = VarId::Lc(m0.lcs.len());
        let lc = if self.enable_lc {
            Lc { terms: vec![(1i64, Var::one()), (-1i64, self.variable)] }
        } else {
            Lc { terms: Vec::new() }
        };
        proof {
            if m0.materializing {
                assert(lc@ =~= not_lc(self.spec_variable()));
            } else {
                assert(lc@ =~= Seq::<(int, VarId)>::empty());
            }
        }
        let variable = match cs.new_lc(&lc) {
            Ok(v) => v,
            Err(e) => {
                return Err(e);
            },
        };
        let value = match self.value {
            Some(v) => Some(!v),
            None => None,
        };
        let enable_lc = cs.should_construct_matrices();
        let ghost m1 = cs.spec_model();
        proof {
            crate::model::lemma_prefix_push(m0.lcs, m1.lcs[m0.lcs.len() as int]);
            crate::model::lemma_extends_refl(m0);
            assert(extends(m1, m0));
            assert forall|i: int| 0 <= i < m1.constraints.len() implies
                crate::model::constraint_in_bounds(m1, #[trigger] m1.constraints[i]) by {
                crate::model::lemma_constraint_in_bounds_extends(m0, m1, m0.constraints[i]);
            }
            lemma_wf_extends(m0, m1, *self);
            if m0.materializing && self.spec_value() is Some {
                lemma_lc_value_2(m0, (1int, VarId::One), (-1int, self.spec_variable()));
            }
            assert forall|i: int| 0 <= i < m1.constraints.len() implies (
                crate::model::constraint_holds(m1, #[trigger] m1.constraints[i])
                    == crate::model::constraint_holds(m0, m0.constraints[i])) by {
                lemma_constraint_holds_extends(m0, m1, m0.constraints[i]);
            }
            assert(satisfied(m1) == satisfied(m0)) by {
                if satisfied(m0) {
                    assert forall|i: int| 0 <= i < m1.constraints.len() implies
                        crate::model::constraint_holds(m1, #[trigger] m1.constraints[i]) by {
                        assert(crate::model::constraint_holds(m0, m0.constraints[i]));
                    }
                }
                if satisfied(m1) {
                    assert forall|i: int| 0 <= i < m0.constraints.len() implies
                        crate::model::constraint_holds(m0, #[trigger] m0.constraints[i]) by {
                        assert(crate::model::constraint_holds(m1, m1.constraints[i]));
                    }
                }
            }
        }
        let result = AllocatedBool { variable, enable_lc, value };
        proof {
            assert(not_post(m0, m1, *self, Ok::<AllocatedBool, SynthesisError>(result)));
        }
        Ok(result)
    }
}

/// What allocating through `new_variable` leaves behind, by mode: a
/// constant binds a reserved handle and records nothing; a public input or
/// private witness takes a fresh slot and records exactly one constraint —
/// the booleanity check — in either execution mode's currency.
pub open spec fn checked_alloc_post(
    m0: CsModel,
    m1: CsModel,
    r: Result<AllocatedBool, SynthesisError>,
    value: Option<bool>,
    input: bool,
) -> bool {
    let vid = if input {
        VarId::Instance(m0.instance.len())
    } else {
        VarId::Witness(m0.witness.len())
    };
    let mw = pushed_var_model(m0, value, input);
    &&& (r is Ok) == (m0.setup || value is Some)
    &&& (r matches Err(e) ==> (e == SynthesisError::AssignmentMissing && m1 == mw))
    &&& (r matches Ok(ab) ==> {
        &&& ab.spec_variable() == vid
        &&& ab.spec_value() == value
        &&& ab.spec_enable_lc() == m0.materializing
        &&& m1 == (if m0.materializing {
            enforced_model(mw, booleanity_constraint(vid))
        } else {
            counted_model(mw)
        })
        &&& m1.num_constraints == m0.num_constraints + 1
        &&& ab.wf(m1)
        &&& cs_wf(m1)
        &&& (!m0.setup && satisfied(m0) ==> satisfied(m1))
    })
    &&& extends(m1, m0)
}

/// What `new_variable` leaves behind, given what the provider produced.
pub open spec fn new_variable_post(
    m0: CsModel,
    m1: CsModel,
    r: Result<AllocatedBool, SynthesisError>,
    fr: Result<bool, SynthesisError>,
    mode: AllocationMode,
) -> bool {
    match mode {
        AllocationMode::Constant => {
            &&& m1 == m0
            &&& (fr matches Err(e) ==> (r matches Err(e2) && e2 == e))
            &&& (fr matches Ok(b) ==> (r matches Ok(ab) && {
                &&& ab.spec_variable() == (if b {
                    VarId::One
                } else {
                    VarId::Zero
                })
                &&& ab.spec_value() == Some(b)
                &&& ab.spec_enable_lc() == m0.materializing
                &&& ab.wf(m1)
            }))
        },
        AllocationMode::Input => checked_alloc_post(m0, m1, r, res_opt(fr), true),
        AllocationMode::Witness => checked_alloc_post(m0, m1, r, res_opt(fr), false),
    }
}

impl AllocatedBool {
    /// Shared tail of input and witness allocation: take a fresh slot,
    /// then enforce the booleanity check `(1 - a) * a = 0` — or, in
    /// counting mode, bump the count by the one constraint it stands for.
    fn alloc_with_booleanity_check(cs: &mut CsRef, value: Option<bool>, input: bool) -> (r: Result<
        Self,
        SynthesisError,
    >)
        requires
            cs_wf(old(cs).spec_model()),
        ensures
            checked_alloc_post(old(cs).spec_model(), final(cs).spec_model(), r, value, input),
    {
        let ghost m0 = cs.spec_model();
        let ghost vid = if input {
            VarId::Instance(m0.instance.len())
        } else {
            VarId::Witness(m0.witness.len())
        };
        let ghost con = booleanity_constraint(vid);
        proof {
            lemma_pushed_var_model(m0, value, input);
        }
        let alloc = if input {
            cs.new_input_variable(value)
        } else {
            cs.new_witness_variable(value)
        };
        let variable = match alloc {
            Ok(v) => v,
            Err(e) => {
                return Err(e);
            },
        };
        let ghost mw = cs.spec_model();
        let enable_lc = cs.should_construct_matrices();
        if enable_lc {
            let one = Var::one();
            let la = Lc { terms: vec![(1i64, one), (-1i64, variable)] };
            let lb = Lc { terms: vec![(1i64, variable)] };
            let lcc = Lc { terms: Vec::new() };
            proof {
                assert(la@ =~= con.a);
                assert(lb@ =~= con.b);
                assert(lcc@ =~= con.c);
                assert(crate::model::lc_in_bounds(mw, con.a)) by {
                    assert(forall|i: int|
                        0 <= i < con.a.len() ==> var_in_bounds(mw, (#[trigger] con.a[i]).1));
                }
                assert(crate::model::lc_in_bounds(mw, con.b)) by {
                    assert(forall|i: int|
                        0 <= i < con.b.len() ==> var_in_bounds(mw, (#[trigger] con.b[i]).1));
                }
                assert(crate::model::lc_in_bounds(mw, con.c));
            }
            let res = cs.enforce_constraint(&la, &lb, &lcc);
            if res.is_err() {
                return Err(SynthesisError::MissingSystem);
            }
            let ghost m1 = cs.spec_model();
            proof {
                lemma_enforced_model(mw, con);
                lemma_extends_trans(m0, mw, m1);
                if !m0.setup && satisfied(m0) {
                    lemma_satisfied_extends(m0, mw);
                    let b = value->Some_0;
                    lemma_var_value_extends(mw, m1, vid);
                    lemma_booleanity_holds(m1, vid, b);
                    assert forall|i: int|
                        mw.constraints.len() <= i < m1.constraints.len() implies
                        crate::model::constraint_holds(m1, #[trigger] m1.constraints[i]) by {
                        assert(m1.constraints[i] == con);
                    }
                    lemma_satisfied_extends(mw, m1);
                }
            }
            Ok(AllocatedBool { variable, enable_lc, value })
        } else {
            cs.increment_constraint_count();
            let ghost m1 = cs.spec_model();
            proof {
                lemma_counted_model(mw);
                lemma_extends_trans(m0, mw, m1);
                if !m0.setup && satisfied(m0) {
                    lemma_satisfied_extends(m0, mw);
                    lemma_satisfied_extends(mw, m1);
                }
            }
            Ok(AllocatedBool { variable, enable_lc, value })
        }
    }

    /// Produces a new boolean of the requested kind.  A constant reads the
    /// provider eagerly (its failure is fatal) and reuses a reserved
    /// handle; a public input or private witness allocates a fresh slot
    /// with a booleanity check.
    pub fn new_variable<Fn0: FnOnce() -> Result<bool, SynthesisError>>(
        cs: &mut CsRef,
        f: Fn0,
        mode: AllocationMode,
    ) -> (r: Result<Self, SynthesisError>)
        requires
            cs_wf(old(cs).spec_model()),
            call_requires(f, ()),
        ensures
            exists|fr: Result<bool, SynthesisError>|
                #[trigger] call_ensures(f, (), fr) && new_variable_post(
                    old(cs).spec_model(),
                    final(cs).spec_model(),
                    r,
                    fr,
                    mode,
                ),
    {
        let v = f();
        let r = if mode == AllocationMode::Constant {
            match v {
                Ok(b) => {
                    let variable = if b {
                        Var::one()
                    } else {
                        Var::zero()
                    };
                    Ok(AllocatedBool {
                        variable,
                        enable_lc: cs.should_construct_matrices(),
                        value: Some(b),
                    })
                },
                Err(e) => Err(e),
            }
        } else {
            let value = match v {
                Ok(b) => Some(b),
                Err(_) => None,
            };
            Self::alloc_with_booleanity_check(cs, value, mode == AllocationMode::Input)
        };
        proof {
            assert(call_ensures(f, (), v) && new_variable_post(
                old(cs).spec_model(),
                final(cs).spec_model(),
                r,
                v,
                mode,
            ));
        }
        r
    }

    /// Allocates a private witness boolean with a booleanity check.
    pub fn new_witness<Fn0: FnOnce() -> Result<bool, SynthesisError>>(
        cs: &mut CsRef,
        f: Fn0,
    ) -> (r: Result<Self, SynthesisError>)
        requires
            cs_wf(old(cs).spec_model()),
            call_requires(f, ()),
        ensures
            exists|fr: Result<bool, SynthesisError>|
                #[trigger] call_ensures(f, (), fr) && new_variable_post(
                    old(cs).spec_model(),
                    final(cs).spec_model(),
                    r,
                    fr,
                    AllocationMode::Witness,
                ),
    {
        Self::new_variable(cs, f, AllocationMode::Witness)
    }

    /// Allocates a public input boolean with a booleanity check.
    pub fn new_input<Fn0: FnOnce() -> Result<bool, SynthesisError>>(
        cs: &mut CsRef,
        f: Fn0,
    ) -> (r: Result<Self, SynthesisError>)
        requires
            cs_wf(old(cs).spec_model()),
            call_requires(f, ()),
        ensures
            exists|fr: Result<bool, SynthesisError>|
                #[trigger] call_ensures(f, (), fr) && new_variable_post(
                    old(cs).spec_model(),
                    final(cs).spec_model(),
                    r,
                    fr,
                    AllocationMode::Input,
                ),
    {
        Self::new_variable(cs, f, AllocationMode::Input)
    }

    /// Bakes a known value into the circuit description: no slot, no
    /// constraint, just the reserved handle for the value.
    pub fn new_constant(cs: &CsRef, value: bool) -> (r: Self)
        ensures
            r.spec_variable() == (if value {
                VarId::One
            } else {
                VarId::Zero
            }),
            r.spec_value() == Some(value),
            r.spec_enable_lc() == cs.spec_model().materializing,
            r.wf(cs.spec_model()),
    {
        let variable = if value {
            Var::one()
        } else {
            Var::zero()
        };
        AllocatedBool { variable, enable_lc: cs.should_construct_matrices(), value: Some(value) }
    }
}

/// The richer boolean abstraction this gadget interoperates with: either a
/// compile-time constant, bound to a reserved handle, or a true variable.
#[derive(Clone, Copy)]
pub enum Boolean {
    Constant(bool),
    Var(AllocatedBool),
}

impl Boolean {
    /// The plaintext value, if known.
    pub open spec fn spec_value(self) -> Option<bool> {
        match self {
            Boolean::Constant(b) => Some(b),
            Boolean::Var(ab) => ab.spec_value(),
        }
    }

    /// The slot this boolean denotes: a reserved handle for a constant.
    pub open spec fn spec_variable(self) -> VarId {
        match self {
            Boolean::Constant(b) => if b {
                VarId::One
            } else {
                VarId::Zero
            },
            Boolean::Var(ab) => ab.spec_variable(),
        }
    }

    /// Well-formedness: constants carry no obligations.
    pub open spec fn wf(self, m: CsModel) -> bool {
        match self {
            Boolean::Constant(_) => true,
            Boolean::Var(ab) => ab.wf(m),
        }
    }

    /// Whether this is the true-variable variant.
    pub open spec fn is_var(self) -> bool {
        self matches Boolean::Var(_)
    }

    /// The slot handle: a reserved one for constants.
    fn var_of(&self) -> (r: Var)
        ensures
            r.spec_id() == self.spec_variable(),
    {
        match self {
            Boolean::Constant(b) => if *b {
                Var::one()
            } else {
                Var::zero()
            },
            Boolean::Var(ab) => ab.variable,
        }
    }

    /// The plaintext value, if known.
    fn value_opt(&self) -> (r: Option<bool>)
        ensures
            r == self.spec_value(),
    {
        match self {
            Boolean::Constant(b) => Some(*b),
            Boolean::Var(ab) => ab.value,
        }
    }
}

/// The single constraint `cond * (t - f) = r - f` that binds a selection
/// result: when the condition is one the result equals `t`, when zero it
/// equals `f`.
pub open spec fn select_constraint(vc: VarId, vt: VarId, vf: VarId, vr: VarId) -> SpecConstraint {
    SpecConstraint {
        a: seq![(1int, vc)],
        b: seq![(1int, vt), (-1int, vf)],
        c: seq![(1int, vr), (-1int, vf)],
    }
}

/// The selected value, absent if any of the three inputs is.
pub open spec fn select_value(c: Option<bool>, t: Option<bool>, f: Option<bool>) -> Option<bool> {
    match (c, t, f) {
        (Some(cv), Some(tv), Some(fv)) => Some(
            if cv {
                tv
            } else {
                fv
            },
        ),
        _ => None,
    }
}

/// The selection constraint is met by any boolean assignment that selects.
pub proof fn lemma_select_constraint_holds(
    m: CsModel,
    vc: VarId,
    vt: VarId,
    vf: VarId,
    vr: VarId,
    c: bool,
    t: bool,
    f: bool,
)
    requires
        var_value(m, vc) == Some(b2i(c)),
        var_value(m, vt) == Some(b2i(t)),
        var_value(m, vf) == Some(b2i(f)),
        var_value(m, vr) == Some(b2i(if c { t } else { f })),
    ensures
        crate::model::constraint_holds(m, select_constraint(vc, vt, vf, vr)),
{
    let con = select_constraint(vc, vt, vf, vr);
    lemma_lc_value_1(m, (1int, vc));
    lemma_lc_value_2(m, (1int, vt), (-1int, vf));
    lemma_lc_value_2(m, (1int, vr), (-1int, vf));
    assert(lc_value(m, con.a) == Some(1int * b2i(c)));
    assert(lc_value(m, con.b) == Some(b2i(t) - b2i(f)));
    assert(lc_value(m, con.c) == Some(b2i(if c { t } else { f }) - b2i(f)));
    if c {
        if t {
            if f {
                crate::model::lemma_constraint_holds_from_values(m, con, 1int, 0int, 0int);
            } else {
                crate::model::lemma_constraint_holds_from_values(m, con, 1int, 1int, 1int);
            }
        } else {
            if f {
                crate::model::lemma_constraint_holds_from_values(m, con, 1int, -1int, -1int);
            } else {
                crate::model::lemma_constraint_holds_from_values(m, con, 1int, 0int, 0int);
            }
        }
    } else {
        if t {
            if f {
                crate::model::lemma_constraint_holds_from_values(m, con, 0int, 0int, 0int);
            } else {
                crate::model::lemma_constraint_holds_from_values(m, con, 0int, 1int, 0int);
            }
        } else {
            if f {
                crate::model::lemma_constraint_holds_from_values(m, con, 0int, -1int, 0int);
            } else {
                crate::model::lemma_constraint_holds_from_values(m, con, 0int, 0int, 0int);
            }
        }
    }
}

/// What conditional selection leaves behind.  A constant condition folds
/// to the chosen operand and records nothing.  A variable condition takes
/// one fresh witness and one constraint, and — the contract the gadget
/// layer relies on — never collapses to a constant: the result is always
/// the variable variant.
pub open spec fn select_post(
    m0: CsModel,
    m1: CsModel,
    cond: Boolean,
    t: Boolean,
    f: Boolean,
    r: Result<Boolean, SynthesisError>,
) -> bool {
    match cond {
        Boolean::Constant(cv) => {
            &&& m1 == m0
            &&& r == Ok::<Boolean, SynthesisError>(
                if cv {
                    t
                } else {
                    f
                },
            )
        },
        Boolean::Var(cab) => {
            let value = select_value(cab.spec_value(), t.spec_value(), f.spec_value());
            let vid = VarId::Witness(m0.witness.len());
            let mw = CsModel { witness: m0.witness.push(value), ..m0 };
            let con = select_constraint(
                cab.spec_variable(),
                t.spec_variable(),
                f.spec_variable(),
                vid,
            );
            &&& (r is Ok) == (m0.setup || value is Some)
            &&& (r matches Err(e) ==> (e == SynthesisError::AssignmentMissing && m1 == mw))
            &&& (r matches Ok(res) ==> (res matches Boolean::Var(ab) && {
                &&& ab.spec_variable() == vid
                &&& ab.spec_value() == value
                &&& ab.spec_enable_lc() == m0.materializing
                &&& m1 == (if m0.materializing {
                    enforced_model(mw, con)
                } else {
                    counted_model(mw)
                })
                &&& m1.num_constraints == m0.num_constraints + 1
                &&& ab.wf(m1)
                &&& cs_wf(m1)
                &&& (!m0.setup && satisfied(m0) ==> satisfied(m1))
            }))
            &&& extends(m1, m0)
        },
    }
}

impl Boolean {
    /// Selects between two booleans under a condition, folding a constant
    /// condition away and otherwise recording one selection constraint.
    /// When both operands are the variable variant, so is the result.
    pub fn conditionally_select(
        cond: &Boolean,
        true_val: &Boolean,
        false_val: &Boolean,
        cs: &mut CsRef,
    ) -> (r: Result<Boolean, SynthesisError>)
        requires
            cs_wf(old(cs).spec_model()),
            cond.wf(old(cs).spec_model()),
            true_val.wf(old(cs).spec_model()),
            false_val.wf(old(cs).spec_model()),
        ensures
            select_post(
                old(cs).spec_model(),
                final(cs).spec_model(),
                *cond,
                *true_val,
                *false_val,
                r,
            ),
    {
        let cab = match cond {
            Boolean::Constant(cv) => {
                if *cv {
                    return Ok(*true_val);
                } else {
                    return Ok(*false_val);
                }
            },
            Boolean::Var(ab) => ab,
        };
        let ghost m0 = cs.spec_model();
        let ghost vid = VarId::Witness(m0.witness.len());
        let ghost con = select_constraint(
            cab.spec_variable(),
            true_val.spec_variable(),
            false_val.spec_variable(),
            vid,
        );
        let value = match (cab.value, true_val.value_opt(), false_val.value_opt()) {
            (Some(c), Some(t), Some(f)) => Some(
                if c {
                    t
                } else {
                    f
                },
            ),
            _ => None,
        };
        let result = match AllocatedBool::alloc_witness_unchecked(cs, value) {
            Ok(ab) => ab,
            Err(e) => {
                return Err(e);
            },
        };
        let ghost mw = cs.spec_model();
        proof {
            lemma_wf_extends(m0, mw, *cab);
            if let Boolean::Var(tv) = *true_val {
                lemma_wf_extends(m0, mw, tv);
            }
            if let Boolean::Var(fv) = *false_val {
                lemma_wf_extends(m0, mw, fv);
            }
            lemma_var_in_bounds_extends(m0, mw, true_val.spec_variable());
            lemma_var_in_bounds_extends(m0, mw, false_val.spec_variable());
        }
        if cab.enable_lc {
            let la = Lc { terms: vec![(1i64, cab.variable)] };
            let lb = Lc { terms: vec![(1i64, true_val.var_of()), (-1i64, false_val.var_of())] };
            let lcc = Lc { terms: vec![(1i64, result.variable), (-1i64, false_val.var_of())] };
            proof {
                assert(la@ =~= con.a);
                assert(lb@ =~= con.b);
                assert(lcc@ =~= con.c);
                assert(crate::model::lc_in_bounds(mw, con.a)) by {
                    assert(forall|i: int|
                        0 <= i < con.a.len() ==> var_in_bounds(mw, (#[trigger] con.a[i]).1));
                }
                assert(crate::model::lc_in_bounds(mw, con.b)) by {
                    assert(forall|i: int|
                        0 <= i < con.b.len() ==> var_in_bounds(mw, (#[trigger] con.b[i]).1));
                }
                assert(crate::model::lc_in_bounds(mw, con.c)) by {
                    assert(forall|i: int|
                        0 <= i < con.c.len() ==> var_in_bounds(mw, (#[trigger] con.c[i]).1));
                }
            }
            let res = cs.enforce_constraint(&la, &lb, &lcc);
            if res.is_err() {
                return Err(SynthesisError::MissingSystem);
            }
            let ghost m1 = cs.spec_model();
            proof {
                lemma_enforced_model(mw, con);
                lemma_extends_trans(m0, mw, m1);
                lemma_wf_extends(mw, m1, result);
                if !m0.setup && satisfied(m0) {
                    lemma_satisfied_extends(m0, mw);
                    let cv = cab.spec_value()->Some_0;
                    let tv = true_val.spec_value()->Some_0;
                    let fv = false_val.spec_value()->Some_0;
                    lemma_var_value_extends(m0, mw, cab.spec_variable());
                    lemma_var_value_extends(m0, mw, true_val.spec_variable());
                    lemma_var_value_extends(m0, mw, false_val.spec_variable());
                    lemma_var_value_extends(mw, m1, cab.spec_variable());
                    lemma_var_value_extends(mw, m1, true_val.spec_variable());
                    lemma_var_value_extends(mw, m1, false_val.spec_variable());
                    lemma_var_value_extends(mw, m1, vid);
                    lemma_select_constraint_holds(
                        m1,
                        cab.spec_variable(),
                        true_val.spec_variable(),
                        false_val.spec_variable(),
                        vid,
                        cv,
                        tv,
                        fv,
                    );
                    assert forall|i: int|
                        mw.constraints.len() <= i < m1.constraints.len() implies
                        crate::model::constraint_holds(m1, #[trigger] m1.constraints[i]) by {
                        assert(m1.constraints[i] == con);
                    }
                    lemma_satisfied_extends(mw, m1);
                }
            }
            Ok(Boolean::Var(result))
        } else {
            cs.increment_constraint_count();
            let ghost m1 = cs.spec_model();
            proof {
                lemma_counted_model(mw);
                lemma_extends_trans(m0, mw, m1);
                lemma_wf_extends(mw, m1, result);
                if !m0.setup && satisfied(m0) {
                    lemma_satisfied_extends(m0, mw);
                    lemma_satisfied_extends(mw, m1);
                }
            }
            Ok(Boolean::Var(result))
        }
    }
}

impl AllocatedBool {
    /// Selects between two allocated booleans by wrapping them into the
    /// richer abstraction, delegating, and unwrapping.  Both operands are
    /// true variables, so the selection never collapses to a constant and
    /// the unwrap cannot fail.
    pub fn conditionally_select(
        cond: &Boolean,
        true_val: &Self,
        false_val: &Self,
        cs: &mut CsRef,
    ) -> (r: Result<Self, SynthesisError>)
        requires
            cs_wf(old(cs).spec_model()),
            cond.wf(old(cs).spec_model()),
            true_val.wf(old(cs).spec_model()),
            false_val.wf(old(cs).spec_model()),
        ensures
            select_post(
                old(cs).spec_model(),
                final(cs).spec_model(),
                *cond,
                Boolean::Var(*true_val),
                Boolean::Var(*false_val),
                (match r {
                    Ok(ab) => Ok::<Boolean, SynthesisError>(Boolean::Var(ab)),
                    Err(e) => Err::<Boolean, SynthesisError>(e),
                }),
            ),
    {
        let res = Boolean::conditionally_select(
            cond,
            &Boolean::Var(true_val.clone()),
            &Boolean::Var(false_val.clone()),
            cs,
        );
        match res {
            Ok(Boolean::Var(ab)) => Ok(ab),
            Ok(Boolean::Constant(_)) => unreached(),
            Err(e) => Err(e),
        }
    }
}

/// Applying NOT twice restores the value, and each NOT leaves the
/// satisfiability of the system exactly as it found it: value equality,
/// not slot identity.
pub proof fn lemma_not_not(
    m0: CsModel,
    m1: CsModel,
    m2: CsModel,
    a: AllocatedBool,
    b: AllocatedBool,
    c: AllocatedBool,
)
    requires
        not_post(m0, m1, a, Ok::<AllocatedBool, SynthesisError>(b)),
        not_post(m1, m2, b, Ok::<AllocatedBool, SynthesisError>(c)),
    ensures
        c.spec_value() == a.spec_value(),
        satisfied(m2) == satisfied(m0),
{
    match a.spec_value() {
        Some(v) => {
            assert(c.spec_value() == Some(v));
        },
        None => {
            assert(c.spec_value() is None);
        },
    }
}

/// Any binary operator costs exactly one constraint, whichever execution
/// mode the system is in: two runs of the same operator, one materializing
/// and one only counting, advance their constraint counts by the same
/// amount, so a counting pass predicts the materialized cost exactly.
pub proof fn lemma_cost_mode_agreement(
    m0: CsModel,
    m1: CsModel,
    a1: AllocatedBool,
    b1: AllocatedBool,
    r1: Result<AllocatedBool, SynthesisError>,
    n0: CsModel,
    n1: CsModel,
    a2: AllocatedBool,
    b2: AllocatedBool,
    r2: Result<AllocatedBool, SynthesisError>,
    op: BoolOp,
)
    requires
        binop_post(m0, m1, a1, b1, r1, op),
        r1 is Ok,
        binop_post(n0, n1, a2, b2, r2, op),
        r2 is Ok,
    ensures
        m1.num_constraints - m0.num_constraints == n1.num_constraints - n0.num_constraints,
{
}

} // verus!
