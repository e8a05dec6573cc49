//! Removal of the redundant terminal branches that a structured-control-flow
//! reconstruction leaves at the end of every block it synthesises.
use vstd::prelude::*;

pub mod ast;
pub mod inc_cleanup;
pub mod laws;

pub use ast::{Arm, Block, Expr, Label, Lit, LitIntType, Pat, Stmt};
pub use inc_cleanup::{ImplicitReturnType, IncCleanup};
