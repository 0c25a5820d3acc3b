//! Ghost model of the constraint system.
//!
//! The real system lives behind `ark_relations`' handle; this module gives
//! it a mathematical shadow: which variable slots exist, which plaintext
//! values they carry, which constraints have been recorded, and what it
//! means for the recorded constraints to be satisfied.  Values are modelled
//! as small integers; every assignment this crate ever makes is 0 or 1 and
//! every coefficient it ever writes is -1, 1 or 2, so integer arithmetic
//! maps into any prime field through the canonical ring homomorphism, and
//! integer-level satisfaction implies field-level satisfaction.

use vstd::prelude::*;

verus! {

/// Identity of a variable slot in the constraint system.  `Zero` and `One`
/// are the two reserved handles for the constants; `Lc` is a slot bound to
/// a stored linear combination.
pub ghost enum VarId {
    Zero,
    One,
    Instance(nat),
    Witness(nat),
    Lc(nat),
}

/// One weighted term of a linear combination, at the model level.
pub type SpecTerm = (int, VarId);

/// A linear combination, at the model level.
pub type SpecLc = Seq<SpecTerm>;

/// One recorded rank-1 constraint `a * b = c`.
pub ghost struct SpecConstraint {
    pub a: SpecLc,
    pub b: SpecLc,
    pub c: SpecLc,
}

/// The state of the constraint system, as far as this crate observes it.
pub ghost struct CsModel {
    /// the system is generating only the circuit shape, with no assignments
    pub setup: bool,
    /// the system is building full linear-combination data; when false it
    /// only counts constraints
    pub materializing: bool,
    /// assignment of each witness slot, in allocation order
    pub witness: Seq<Option<bool>>,
    /// assignment of each instance slot; slot 0 is the fixed constant one
    pub instance: Seq<Option<bool>>,
    /// the value each stored linear combination had when it was stored
    pub lcs: Seq<Option<int>>,
    /// the constraints recorded so far (empty unless materializing)
    pub constraints: Seq<SpecConstraint>,
    /// the running constraint count, maintained in both modes
    pub num_constraints: nat,
}

/// The integer a boolean stands for inside the system.
pub open spec fn b2i(b: bool) -> int {
    if b {
        1
    } else {
        0
    }
}

/// The integer value of an optional boolean assignment.
pub open spec fn opt_val(o: Option<bool>) -> Option<int> {
    match o {
        Some(b) => Some(b2i(b)),
        None => None,
    }
}

/// The value a variable slot evaluates to, if it has one.
pub open spec fn var_value(m: CsModel, v: VarId) -> Option<int> {
    match v {
        VarId::Zero => Some(0),
        VarId::One => Some(1),
        VarId::Instance(i) => if i < m.instance.len() {
            opt_val(m.instance[i as int])
        } else {
            None
        },
        VarId::Witness(i) => if i < m.witness.len() {
            opt_val(m.witness[i as int])
        } else {
            None
        },
        VarId::Lc(i) => if i < m.lcs.len() {
            m.lcs[i as int]
        } else {
            None
        },
    }
}

/// The fresh, empty model a new system starts from: one instance slot
/// holding the constant one, no witnesses, no combinations, no
/// constraints.
pub open spec fn fresh_model(setup: bool, materializing: bool) -> CsModel {
    CsModel {
        setup,
        materializing,
        witness: Seq::<Option<bool>>::empty(),
        instance: seq![Some(true)],
        lcs: Seq::<Option<int>>::empty(),
        constraints: Seq::<SpecConstraint>::empty(),
        num_constraints: 0,
    }
}

/// The model after a new instance or witness slot is allocated with the
/// given assignment.
pub open spec fn pushed_var_model(m0: CsModel, value: Option<bool>, input: bool) -> CsModel {
    if input {
        CsModel { instance: m0.instance.push(value), ..m0 }
    } else {
        CsModel { witness: m0.witness.push(value), ..m0 }
    }
}

/// The model after a constraint is recorded in materializing mode: its
/// three combinations are stored (with the values they have now) and the
/// count rises by one.
pub open spec fn enforced_model(m0: CsModel, con: SpecConstraint) -> CsModel {
    CsModel {
        lcs: m0.lcs.push(lc_value(m0, con.a)).push(lc_value(m0, con.b)).push(lc_value(m0, con.c)),
        constraints: m0.constraints.push(con),
        num_constraints: m0.num_constraints + 1,
        ..m0
    }
}

/// The model after the counting-mode bump: only the count rises.
pub open spec fn counted_model(m0: CsModel) -> CsModel {
    CsModel { num_constraints: m0.num_constraints + 1, ..m0 }
}

/// The value of a linear combination: the weighted sum of its variables'
/// values, or nothing if any variable is unassigned.
pub open spec fn lc_value(m: CsModel, lc: SpecLc) -> Option<int>
    decreases lc.len(),
{
    if lc.len() == 0 {
        Some(0)
    } else {
        match (var_value(m, lc[0].1), lc_value(m, lc.drop_first())) {
            (Some(v), Some(rest)) => Some(lc[0].0 * v + rest),
            _ => None,
        }
    }
}

/// A recorded constraint holds when all three sides evaluate and the
/// product equation is met.
pub open spec fn constraint_holds(m: CsModel, c: SpecConstraint) -> bool {
    match (lc_value(m, c.a), lc_value(m, c.b), lc_value(m, c.c)) {
        (Some(av), Some(bv), Some(cv)) => av * bv == cv,
        _ => false,
    }
}


/// A constraint holds once its three sides evaluate to values meeting the
/// product equation.
pub proof fn lemma_constraint_holds_from_values(
    m: CsModel,
    c: SpecConstraint,
    av: int,
    bv: int,
    cv: int,
)
    requires
        lc_value(m, c.a) == Some(av),
        lc_value(m, c.b) == Some(bv),
        lc_value(m, c.c) == Some(cv),
        av * bv == cv,
    ensures
        constraint_holds(m, c),
{
}

/// The current assignment satisfies every recorded constraint.
pub open spec fn satisfied(m: CsModel) -> bool {
    forall|i: int|
        0 <= i < m.constraints.len() ==> constraint_holds(m, #[trigger] m.constraints[i])
}

/// Every allocated slot carries an assignment.  This fails exactly when
/// some allocation outside setup mode was attempted without a value: the
/// engine then advances its slot counter without storing anything, and
/// every later assignment sits below its slot.
pub open spec fn fully_assigned(m: CsModel) -> bool {
    &&& forall|i: int| 0 <= i < m.witness.len() ==> (#[trigger] m.witness[i]) is Some
    &&& forall|i: int| 0 <= i < m.instance.len() ==> (#[trigger] m.instance[i]) is Some
}

/// The slot a variable names has been allocated.
pub open spec fn var_in_bounds(m: CsModel, v: VarId) -> bool {
    match v {
        VarId::Zero => true,
        VarId::One => true,
        VarId::Instance(i) => i < m.instance.len(),
        VarId::Witness(i) => i < m.witness.len(),
        VarId::Lc(i) => i < m.lcs.len(),
    }
}

/// Every variable of the linear combination has been allocated.
pub open spec fn lc_in_bounds(m: CsModel, lc: SpecLc) -> bool {
    forall|i: int| 0 <= i < lc.len() ==> var_in_bounds(m, (#[trigger] lc[i]).1)
}

/// Every variable of the constraint has been allocated.
pub open spec fn constraint_in_bounds(m: CsModel, c: SpecConstraint) -> bool {
    lc_in_bounds(m, c.a) && lc_in_bounds(m, c.b) && lc_in_bounds(m, c.c)
}

/// Well-formedness of the model: recorded constraints speak only of
/// allocated slots, constraints are recorded only in materializing mode
/// (where the count equals their number), and setup mode always
/// materializes.
pub open spec fn cs_wf(m: CsModel) -> bool {
    &&& forall|i: int|
        0 <= i < m.constraints.len() ==> constraint_in_bounds(m, #[trigger] m.constraints[i])
    &&& m.setup ==> m.materializing
    &&& m.materializing ==> m.constraints.len() == m.num_constraints
    &&& !m.materializing ==> m.constraints.len() == 0
}

/// `m2` is `m1` with zero or more slots and constraints appended: nothing
/// already allocated or recorded changes.
pub open spec fn extends(m2: CsModel, m1: CsModel) -> bool {
    &&& m2.setup == m1.setup
    &&& m2.materializing == m1.materializing
    &&& m1.witness.is_prefix_of(m2.witness)
    &&& m1.instance.is_prefix_of(m2.instance)
    &&& m1.lcs.is_prefix_of(m2.lcs)
    &&& m1.constraints.is_prefix_of(m2.constraints)
}

/// Growing the model never deallocates a slot.
pub proof fn lemma_var_in_bounds_extends(m1: CsModel, m2: CsModel, v: VarId)
    requires
        extends(m2, m1),
        var_in_bounds(m1, v),
    ensures
        var_in_bounds(m2, v),
{
}

/// Growing the model never changes the value of an already-allocated slot.
pub proof fn lemma_var_value_extends(m1: CsModel, m2: CsModel, v: VarId)
    requires
        extends(m2, m1),
        var_in_bounds(m1, v),
    ensures
        var_value(m2, v) == var_value(m1, v),
{
    match v {
        VarId::Instance(i) => {
            assert(m2.instance[i as int] == m1.instance[i as int]);
        },
        VarId::Witness(i) => {
            assert(m2.witness[i as int] == m1.witness[i as int]);
        },
        VarId::Lc(i) => {
            assert(m2.lcs[i as int] == m1.lcs[i as int]);
        },
        _ => {},
    }
}

/// Growing the model never changes the value of a linear combination over
/// already-allocated slots.
pub proof fn lemma_lc_value_extends(m1: CsModel, m2: CsModel, lc: SpecLc)
    requires
        extends(m2, m1),
        lc_in_bounds(m1, lc),
    ensures
        lc_value(m2, lc) == lc_value(m1, lc),
    decreases lc.len(),
{
    if lc.len() > 0 {
        lemma_var_value_extends(m1, m2, lc[0].1);
        assert forall|i: int| 0 <= i < lc.drop_first().len() implies var_in_bounds(
            m1,
            (#[trigger] lc.drop_first()[i]).1,
        ) by {
            assert(lc.drop_first()[i] == lc[i + 1]);
        }
        lemma_lc_value_extends(m1, m2, lc.drop_first());
    }
}

/// Growing the model keeps every variable of an in-bounds combination in
/// bounds.
pub proof fn lemma_lc_in_bounds_extends(m1: CsModel, m2: CsModel, lc: SpecLc)
    requires
        extends(m2, m1),
        lc_in_bounds(m1, lc),
    ensures
        lc_in_bounds(m2, lc),
{
    assert forall|i: int| 0 <= i < lc.len() implies var_in_bounds(m2, (#[trigger] lc[i]).1) by {
        lemma_var_in_bounds_extends(m1, m2, lc[i].1);
    }
}

/// Growing the model keeps an in-bounds constraint in bounds.
pub proof fn lemma_constraint_in_bounds_extends(m1: CsModel, m2: CsModel, c: SpecConstraint)
    requires
        extends(m2, m1),
        constraint_in_bounds(m1, c),
    ensures
        constraint_in_bounds(m2, c),
{
    lemma_lc_in_bounds_extends(m1, m2, c.a);
    lemma_lc_in_bounds_extends(m1, m2, c.b);
    lemma_lc_in_bounds_extends(m1, m2, c.c);
}

/// Growing the model never changes whether an already-recorded constraint
/// holds.
pub proof fn lemma_constraint_holds_extends(m1: CsModel, m2: CsModel, c: SpecConstraint)
    requires
        extends(m2, m1),
        constraint_in_bounds(m1, c),
    ensures
        constraint_holds(m2, c) == constraint_holds(m1, c),
{
    lemma_lc_value_extends(m1, m2, c.a);
    lemma_lc_value_extends(m1, m2, c.b);
    lemma_lc_value_extends(m1, m2, c.c);
}

/// The value of a one-term combination.
pub proof fn lemma_lc_value_1(m: CsModel, t0: SpecTerm)
    ensures
        lc_value(m, seq![t0]) == (match var_value(m, t0.1) {
            Some(v) => Some(t0.0 * v),
            None => None::<int>,
        }),
{
    let s = seq![t0];
    reveal_with_fuel(lc_value, 2);
    assert(s.drop_first() =~= Seq::<SpecTerm>::empty());
}

/// The value of a two-term combination.
pub proof fn lemma_lc_value_2(m: CsModel, t0: SpecTerm, t1: SpecTerm)
    ensures
        lc_value(m, seq![t0, t1]) == (match (var_value(m, t0.1), var_value(m, t1.1)) {
            (Some(v0), Some(v1)) => Some(t0.0 * v0 + t1.0 * v1),
            _ => None::<int>,
        }),
{
    let s = seq![t0, t1];
    assert(s.drop_first() =~= seq![t1]);
    lemma_lc_value_1(m, t1);
}

/// The value of a three-term combination.
pub proof fn lemma_lc_value_3(m: CsModel, t0: SpecTerm, t1: SpecTerm, t2: SpecTerm)
    ensures
        lc_value(m, seq![t0, t1, t2]) == (match (
            var_value(m, t0.1),
            var_value(m, t1.1),
            var_value(m, t2.1),
        ) {
            (Some(v0), Some(v1), Some(v2)) => Some(t0.0 * v0 + t1.0 * v1 + t2.0 * v2),
            _ => None::<int>,
        }),
{
    let s = seq![t0, t1, t2];
    assert(s.drop_first() =~= seq![t1, t2]);
    lemma_lc_value_2(m, t1, t2);
}

/// A sequence is a prefix of itself with one element appended.
pub proof fn lemma_prefix_push<A>(s: Seq<A>, x: A)
    ensures
        s.is_prefix_of(s.push(x)),
{
    assert(s =~= s.push(x).subrange(0, s.len() as int));
}

/// Prefixes compose.
pub proof fn lemma_prefix_trans<A>(a: Seq<A>, b: Seq<A>, c: Seq<A>)
    requires
        a.is_prefix_of(b),
        b.is_prefix_of(c),
    ensures
        a.is_prefix_of(c),
{
    assert(a =~= c.subrange(0, a.len() as int));
}

/// Extending is reflexive.
pub proof fn lemma_extends_refl(m: CsModel)
    ensures
        extends(m, m),
{
    assert(m.witness =~= m.witness.subrange(0, m.witness.len() as int));
    assert(m.instance =~= m.instance.subrange(0, m.instance.len() as int));
    assert(m.lcs =~= m.lcs.subrange(0, m.lcs.len() as int));
    assert(m.constraints =~= m.constraints.subrange(0, m.constraints.len() as int));
}

/// Extending composes.
pub proof fn lemma_extends_trans(m1: CsModel, m2: CsModel, m3: CsModel)
    requires
        extends(m2, m1),
        extends(m3, m2),
    ensures
        extends(m3, m1),
{
    lemma_prefix_trans(m1.witness, m2.witness, m3.witness);
    lemma_prefix_trans(m1.instance, m2.instance, m3.instance);
    lemma_prefix_trans(m1.lcs, m2.lcs, m3.lcs);
    lemma_prefix_trans(m1.constraints, m2.constraints, m3.constraints);
}

/// Allocating a slot extends the model and keeps it well formed.
pub proof fn lemma_pushed_var_model(m0: CsModel, value: Option<bool>, input: bool)
    ensures
        extends(pushed_var_model(m0, value, input), m0),
        cs_wf(m0) ==> cs_wf(pushed_var_model(m0, value, input)),
{
    let m1 = pushed_var_model(m0, value, input);
    if input {
        lemma_prefix_push(m0.instance, value);
    } else {
        lemma_prefix_push(m0.witness, value);
    }
    lemma_extends_refl(m0);
    assert(extends(m1, m0));
    if cs_wf(m0) {
        assert forall|i: int| 0 <= i < m1.constraints.len() implies constraint_in_bounds(
            m1,
            #[trigger] m1.constraints[i],
        ) by {
            lemma_constraint_in_bounds_extends(m0, m1, m0.constraints[i]);
        }
    }
}

/// Recording a constraint over allocated slots extends the model, keeps it
/// well formed, and leaves every earlier constraint's standing unchanged.
pub proof fn lemma_enforced_model(m0: CsModel, con: SpecConstraint)
    requires
        m0.materializing,
        cs_wf(m0),
        constraint_in_bounds(m0, con),
    ensures
        extends(enforced_model(m0, con), m0),
        cs_wf(enforced_model(m0, con)),
{
    let m1 = enforced_model(m0, con);
    lemma_prefix_push(m0.constraints, con);
    lemma_extends_refl(m0);
    assert(m0.lcs.is_prefix_of(m1.lcs)) by {
        assert(m0.lcs =~= m1.lcs.subrange(0, m0.lcs.len() as int));
    }
    assert(extends(m1, m0));
    assert forall|i: int| 0 <= i < m1.constraints.len() implies constraint_in_bounds(
        m1,
        #[trigger] m1.constraints[i],
    ) by {
        if i < m0.constraints.len() {
            lemma_constraint_in_bounds_extends(m0, m1, m0.constraints[i]);
        } else {
            assert(m1.constraints[i] == con);
            lemma_constraint_in_bounds_extends(m0, m1, con);
        }
    }
}

/// The counting-mode bump extends the model and keeps it well formed.
pub proof fn lemma_counted_model(m0: CsModel)
    requires
        !m0.materializing,
    ensures
        extends(counted_model(m0), m0),
        cs_wf(m0) ==> cs_wf(counted_model(m0)),
{
    let m1 = counted_model(m0);
    lemma_extends_refl(m0);
    assert(extends(m1, m0));
    if cs_wf(m0) {
        assert forall|i: int| 0 <= i < m1.constraints.len() implies constraint_in_bounds(
            m1,
            #[trigger] m1.constraints[i],
        ) by {
            lemma_constraint_in_bounds_extends(m0, m1, m0.constraints[i]);
        }
    }
}

/// A satisfied, well-formed system stays satisfied under an extension whose
/// newly recorded constraints all hold.
pub proof fn lemma_satisfied_extends(m1: CsModel, m2: CsModel)
    requires
        extends(m2, m1),
        cs_wf(m1),
        satisfied(m1),
        forall|i: int|
            m1.constraints.len() <= i < m2.constraints.len() ==> constraint_holds(
                m2,
                #[trigger] m2.constraints[i],
            ),
    ensures
        satisfied(m2),
{
    assert forall|i: int| 0 <= i < m2.constraints.len() implies constraint_holds(
        m2,
        #[trigger] m2.constraints[i],
    ) by {
        if i < m1.constraints.len() {
            assert(m2.constraints[i] == m1.constraints[i]);
            lemma_constraint_holds_extends(m1, m2, m1.constraints[i]);
        }
    }
}

} // verus!
