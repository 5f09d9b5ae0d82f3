//! Transactional query bridge: a per-context transaction slot with
//! begin/commit/rollback exclusivity, data operations that borrow the
//! held transaction, pull-based query cursors with a one-slot buffer,
//! and a lossless codec between row values and host values.

pub mod context;
pub mod error;
pub mod ops;
pub mod state;
pub mod value;
