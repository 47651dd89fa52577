//! Spatial interpretation of expanded L-system instruction streams.
//!
//! The library holds the parts of turtle interpretation that decide what
//! happens: the operation table, the dispatch of each instruction into turtle
//! effects, the branch stack, and the policy by which emitted points are
//! gathered into strands. The numeric geometry (positions, rotations,
//! appearance values) is supplied by the caller through [`Geometry`].
pub mod dispatch;
pub mod execute;
pub mod interpreter;
pub mod laws;
pub mod skeleton;
pub mod stream;
pub mod turtle;

pub use dispatch::{color_from_params, param_or, Action, Effect};
pub use execute::{run_script, Geometry, Outline};
pub use interpreter::TurtleInterpreter;
pub use skeleton::Skeleton;
pub use turtle::{Axis, BranchStack, Sign, TurtleOp};
