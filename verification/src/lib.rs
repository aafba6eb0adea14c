//! A library for building interactive terminal forms: free-text fields with
//! validated, typed input, single-select and multi-select menus, and an
//! ordered, name-keyed registry that fills every field and hands the values
//! back with a checked type test.
//!
//! The interactive pieces are modelled as explicit state machines: one key
//! press or one submitted line is one step, so the whole filling process is
//! deterministic in the sequence of events it is given. A thin unverified
//! front end owns the terminal, reads raw bytes and lines, and feeds them to
//! these functions.

/// Reading keys and the cursor-driven selection widgets.
pub mod input;

/// Free-text form fields.
pub mod field;

/// The form registry and typed retrieval.
pub mod form;

/// The form builder.
pub mod form_builder;

/// Multi-select form fields.
pub mod multiselect_field;

/// Optional values.
pub mod optional;

/// Single-select form fields.
pub mod select_field;

/// Character-level helpers: trimming and integer / float syntax.
pub mod text;

/// Validation predicates and predicate chains.
pub mod validation;

/// The closed set of value types a field can hold.
pub mod value;

pub use form_builder::FormBuilder;
pub use optional::Optional;
pub use validation::{ValidationMethods, Validator};
