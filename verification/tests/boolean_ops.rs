use r1cs_bool::boolean::{AllocatedBool, AllocationMode, Boolean};
use r1cs_bool::system::{CsRef, SynthesisError};

#[test]
fn allocated_xor() -> Result<(), SynthesisError> {
    for a_val in [false, true].iter().copied() {
        for b_val in [false, true].iter().copied() {
            let mut cs = CsRef::new();
            let a = AllocatedBool::new_witness(&mut cs, || Ok(a_val))?;
            let b = AllocatedBool::new_witness(&mut cs, || Ok(b_val))?;
            let c = AllocatedBool::xor(&a, &b, &mut cs)?;
            assert_eq!(c.value()?, a_val ^ b_val);

            assert!(cs.is_satisfied().unwrap());
            assert_eq!(a.value()?, (a_val));
            assert_eq!(b.value()?, (b_val));
            assert_eq!(c.value()?, (a_val ^ b_val));
        }
    }
    Ok(())
}

#[test]
fn allocated_or() -> Result<(), SynthesisError> {
    for a_val in [false, true].iter().copied() {
        for b_val in [false, true].iter().copied() {
            let mut cs = CsRef::new();
            let a = AllocatedBool::new_witness(&mut cs, || Ok(a_val))?;
            let b = AllocatedBool::new_witness(&mut cs, || Ok(b_val))?;
            let c = AllocatedBool::or(&a, &b, &mut cs)?;
            assert_eq!(c.value()?, a_val | b_val);

            assert!(cs.is_satisfied().unwrap());
            assert_eq!(a.value()?, (a_val));
            assert_eq!(b.value()?, (b_val));
            assert_eq!(c.value()?, (a_val | b_val));
        }
    }
    Ok(())
}

#[test]
fn allocated_and() -> Result<(), SynthesisError> {
    for a_val in [false, true].iter().copied() {
        for b_val in [false, true].iter().copied() {
            let mut cs = CsRef::new();
            let a = AllocatedBool::new_witness(&mut cs, || Ok(a_val))?;
            let b = AllocatedBool::new_witness(&mut cs, || Ok(b_val))?;
            let c = AllocatedBool::and(&a, &b, &mut cs)?;
            assert_eq!(c.value()?, a_val & b_val);

            assert!(cs.is_satisfied().unwrap());
            assert_eq!(a.value()?, (a_val));
            assert_eq!(b.value()?, (b_val));
            assert_eq!(c.value()?, (a_val & b_val));
        }
    }
    Ok(())
}

#[test]
fn allocated_and_not() -> Result<(), SynthesisError> {
    for a_val in [false, true].iter().copied() {
        for b_val in [false, true].iter().copied() {
            let mut cs = CsRef::new();
            let a = AllocatedBool::new_witness(&mut cs, || Ok(a_val))?;
            let b = AllocatedBool::new_witness(&mut cs, || Ok(b_val))?;
            let c = AllocatedBool::and_not(&a, &b, &mut cs)?;
            assert_eq!(c.value()?, a_val & !b_val);

            assert!(cs.is_satisfied().unwrap());
            assert_eq!(a.value()?, (a_val));
            assert_eq!(b.value()?, (b_val));
            assert_eq!(c.value()?, (a_val & !b_val));
        }
    }
    Ok(())
}

#[test]
fn allocated_nor() -> Result<(), SynthesisError> {
    for a_val in [false, true].iter().copied() {
        for b_val in [false, true].iter().copied() {
            let mut cs = CsRef::new();
            let a = AllocatedBool::new_witness(&mut cs, || Ok(a_val))?;
            let b = AllocatedBool::new_witness(&mut cs, || Ok(b_val))?;
            let c = AllocatedBool::nor(&a, &b, &mut cs)?;
            assert_eq!(c.value()?, !a_val & !b_val);

            assert!(cs.is_satisfied().unwrap());
            assert_eq!(a.value()?, (a_val));
            assert_eq!(b.value()?, (b_val));
            assert_eq!(c.value()?, (!a_val & !b_val));
        }
    }
    Ok(())
}

#[test]
fn allocated_not() -> Result<(), SynthesisError> {
    for a_val in [false, true].iter().copied() {
        let mut cs = CsRef::new();
        let a = AllocatedBool::new_witness(&mut cs, || Ok(a_val))?;
        let n = a.not(&mut cs)?;
        assert_eq!(n.value()?, !a_val);
        assert!(cs.is_satisfied().unwrap());
    }
    Ok(())
}

#[test]
fn constant_allocation_adds_no_constraints() -> Result<(), SynthesisError> {
    for v in [false, true].iter().copied() {
        let mut cs = CsRef::new();
        let c = AllocatedBool::new_variable(&mut cs, || Ok(v), AllocationMode::Constant)?;
        assert_eq!(c.value()?, v);
        assert_eq!(cs.num_constraints(), 0);

        let c2 = AllocatedBool::new_constant(&cs, v);
        assert_eq!(c2.value()?, v);
        assert_eq!(cs.num_constraints(), 0);
    }
    Ok(())
}

#[test]
fn booleanity_and_operator_constraint_counts() -> Result<(), SynthesisError> {
    let mut cs = CsRef::new();
    let a = AllocatedBool::new_witness(&mut cs, || Ok(true))?;
    assert_eq!(cs.num_constraints(), 1);
    let b = AllocatedBool::new_input(&mut cs, || Ok(false))?;
    assert_eq!(cs.num_constraints(), 2);
    let c = a.and(&b, &mut cs)?;
    assert_eq!(cs.num_constraints(), 3);
    let d = c.xor(&a, &mut cs)?;
    assert_eq!(cs.num_constraints(), 4);
    let n = d.not(&mut cs)?;
    assert_eq!(cs.num_constraints(), 4);
    let _ = n.or(&c, &mut cs)?;
    assert_eq!(cs.num_constraints(), 5);
    assert!(cs.is_satisfied().unwrap());
    Ok(())
}

#[test]
fn not_not_restores_value_and_satisfiability() -> Result<(), SynthesisError> {
    for a_val in [false, true].iter().copied() {
        let mut cs = CsRef::new();
        let a = AllocatedBool::new_witness(&mut cs, || Ok(a_val))?;
        let sat_before = cs.is_satisfied().unwrap();
        let n = a.not(&mut cs)?;
        let nn = n.not(&mut cs)?;
        assert_eq!(nn.value()?, a.value()?);
        assert_eq!(cs.is_satisfied().unwrap(), sat_before);
        assert!(cs.is_satisfied().unwrap());
    }
    Ok(())
}

#[test]
fn operator_scenario_table() -> Result<(), SynthesisError> {
    // (a, b, xor, and, or, and_not, nor)
    let table = [
        (false, false, false, false, false, false, true),
        (true, false, true, false, true, true, false),
        (true, true, false, true, true, false, false),
        (false, true, true, false, true, false, false),
    ];
    for (a_val, b_val, x, n, o, an, nr) in table.iter().copied() {
        let mut cs = CsRef::new();
        let a = AllocatedBool::new_witness(&mut cs, || Ok(a_val))?;
        let b = AllocatedBool::new_witness(&mut cs, || Ok(b_val))?;
        assert_eq!(a.xor(&b, &mut cs)?.value()?, x);
        assert_eq!(a.and(&b, &mut cs)?.value()?, n);
        assert_eq!(a.or(&b, &mut cs)?.value()?, o);
        assert_eq!(a.and_not(&b, &mut cs)?.value()?, an);
        assert_eq!(a.nor(&b, &mut cs)?.value()?, nr);
        assert!(cs.is_satisfied().unwrap());
    }
    Ok(())
}

#[test]
fn failing_provider_in_setup_mode() -> Result<(), SynthesisError> {
    let mut cs = CsRef::new_setup();
    let a = AllocatedBool::new_witness(&mut cs, || Err(SynthesisError::AssignmentMissing))?;
    assert_eq!(a.value(), Err(SynthesisError::AssignmentMissing));
    assert_eq!(cs.num_constraints(), 1);

    // construction goes on: the circuit shape keeps growing
    let b = AllocatedBool::new_witness(&mut cs, || Err(SynthesisError::AssignmentMissing))?;
    let c = a.and(&b, &mut cs)?;
    assert_eq!(c.value(), Err(SynthesisError::AssignmentMissing));
    assert_eq!(cs.num_constraints(), 3);

    // in setup mode there is no assignment for the check to judge
    assert_eq!(cs.is_satisfied(), Err(SynthesisError::AssignmentMissing));
    Ok(())
}

#[test]
fn failing_provider_in_proving_mode() {
    let mut cs = CsRef::new();
    let r = AllocatedBool::new_witness(&mut cs, || Err(SynthesisError::AssignmentMissing));
    assert_eq!(r.err(), Some(SynthesisError::AssignmentMissing));
}

#[test]
fn counting_mode_matches_materializing_count() -> Result<(), SynthesisError> {
    let mut full = CsRef::new();
    let mut counting = CsRef::new_counting();
    let mut counts = [0usize; 2];
    for (i, cs) in [&mut full, &mut counting].into_iter().enumerate() {
        let a = AllocatedBool::new_witness(cs, || Ok(true))?;
        let b = AllocatedBool::new_witness(cs, || Ok(false))?;
        let x = a.xor(&b, &mut *cs)?;
        let y = a.and(&b, &mut *cs)?;
        let z = x.or(&y, &mut *cs)?;
        let n = z.not(&mut *cs)?;
        let w = n.and_not(&a, &mut *cs)?;
        let _ = w.nor(&b, &mut *cs)?;
        counts[i] = cs.num_constraints();
    }
    assert_eq!(counts[0], counts[1]);
    assert_eq!(counts[0], 7);
    Ok(())
}

#[test]
fn conditional_select_with_variable_condition() -> Result<(), SynthesisError> {
    for c_val in [false, true].iter().copied() {
        for t_val in [false, true].iter().copied() {
            for f_val in [false, true].iter().copied() {
                let mut cs = CsRef::new();
                let c = AllocatedBool::new_witness(&mut cs, || Ok(c_val))?;
                let t = AllocatedBool::new_witness(&mut cs, || Ok(t_val))?;
                let f = AllocatedBool::new_witness(&mut cs, || Ok(f_val))?;
                let before = cs.num_constraints();
                let r = AllocatedBool::conditionally_select(
                    &Boolean::Var(c),
                    &t,
                    &f,
                    &mut cs,
                )?;
                assert_eq!(cs.num_constraints(), before + 1);
                assert_eq!(r.value()?, if c_val { t_val } else { f_val });
                assert!(cs.is_satisfied().unwrap());
            }
        }
    }
    Ok(())
}

#[test]
fn conditional_select_with_constant_condition() -> Result<(), SynthesisError> {
    for c_val in [false, true].iter().copied() {
        let mut cs = CsRef::new();
        let t = AllocatedBool::new_witness(&mut cs, || Ok(true))?;
        let f = AllocatedBool::new_witness(&mut cs, || Ok(false))?;
        let before = cs.num_constraints();
        let r = AllocatedBool::conditionally_select(
            &Boolean::Constant(c_val),
            &t,
            &f,
            &mut cs,
        )?;
        assert_eq!(cs.num_constraints(), before);
        assert_eq!(r.value()?, c_val);
        assert!(cs.is_satisfied().unwrap());
    }
    Ok(())
}

#[test]
fn accessors_and_wrapping() -> Result<(), SynthesisError> {
    let mut cs = CsRef::new();
    let a = AllocatedBool::new_witness(&mut cs, || Ok(true))?;
    let v = a.variable();
    let b = AllocatedBool::new(Some(true), v, &cs);
    assert_eq!(b.value()?, true);
    let w = AllocatedBool::new_witness_without_booleanity_check(&mut cs, || Ok(false))?;
    assert_eq!(w.value()?, false);
    // the unchecked allocation added no constraint
    assert_eq!(cs.num_constraints(), 1);
    Ok(())
}
