//! A small request router: handlers are registered under string keys, and
//! each handler reads its fields through a total, default-on-miss accessor.

pub mod decimal;
pub mod input;
pub mod router;
pub mod value;

pub use decimal::Decimal;
pub use input::RouterInput;
pub use router::{Router, not_found};
pub use value::{Number, Value, response};

use vstd::prelude::*;

verus! {

/// What a handler receives.
pub type Input = RouterInput;

/// What a handler returns.
pub type Output = Value;

} // verus!
