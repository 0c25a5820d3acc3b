//! A verified boolean gadget for rank-1 constraint systems.
//!
//! The crate allocates single-bit variables inside an R1CS handle provided
//! by `ark_relations`, restricts each to {0, 1} with a booleanity
//! constraint, and offers the boolean operators (NOT, AND, OR, XOR,
//! AND-NOT, NOR) as constraint-encoding constructors.  A ghost model of
//! the constraint system tracks, for every operation, the constraints
//! emitted, the values assigned, and the running constraint count, so the
//! algebraic encodings and the cost accounting are machine-checked.

pub mod model;
pub mod system;
pub mod boolean;
