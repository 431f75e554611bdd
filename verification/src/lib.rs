//! A compile-time test-scaffolding generator.
//!
//! The library reads a small embedded notation — "construct a value from an
//! input, then assert properties of it" — and expands it into the checks the
//! author would otherwise write by hand: one conversion statement, one check
//! statement per assertion, and a closing success report.
//!
//! The surface syntax is
//!
//! ```plain
//! Subject with 56,
//! assert {
//!     eq [call(), 42],
//!     eq [field, 42]
//! }
//! ```
//!
//! which expands to
//!
//! ```plain
//! let constructed : Subject = 56 . into ( ) ;
//! assert_eq ! ( constructed . call ( ) , 42 , ... ) ;
//! assert_eq ! ( constructed . field , 42 , ... ) ;
//! println ! ( ... ) ;
//! ```
//!
//! The pipeline is a pure function over token streams: a token model
//! ([`token`]), a recursive-descent parser producing a [`driver::Driver`]
//! record, a classifier for the left-hand side of `eq [...]` assertions
//! ([`assertion`]), and a deterministic emitter. Host plumbing (turning a
//! compiler token stream into [`token::Tok`] values and back) sits outside
//! this crate.

pub mod assertion;
pub mod driver;
pub mod error;
pub mod laws;
pub mod scan;
pub mod token;

pub use assertion::{AssertEQ, AssertNE, AssertPath, Assertion};
pub use driver::{drive, Driver};
pub use error::{Expected, ParseError};
pub use token::{Delim, Tok};
