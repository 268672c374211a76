//! Low-level ownership primitives with machine-checked contracts.
//!
//! The core:
//!
//! - [`HeapCell`]: one value on the heap with an explicit, caller-driven
//!   lifecycle.
//! - [`Rc`] and [`Arc`]: counted handles on one shared allocation; the
//!   allocation is destroyed by the drop that brings the count to zero. What
//!   holds of every order of clones and drops is proved in [`handles`].
//! - [`BorrowFlag`]: the integer that tracks shared and exclusive borrows.
//! - [`RefCell`] with its guards [`Ref`] and [`RefMut`]: a cell whose
//!   shared-xor-exclusive discipline is enforced while the program runs. What
//!   holds of every order of acquires and releases is proved in [`guards`].
//!
//! Built on the core:
//!
//! - [`SharedCell`], [`JavaCell`], [`Borrow`] and [`HazardCell`]: values that
//!   are written without borrow checks, alone or behind counted handles.
//! - [`RcCell`]: a checked cell behind counted handles.
//! - [`Reon`]: a read-only pointer to a value that lives as long as the
//!   process.
//! - [`MyBencher`]: times a closure and reports the result.
//!
//! Handles and guards are move-only tokens. A token names the allocation or
//! the cell it belongs to only by being passed to it, so every operation that
//! touches shared bookkeeping takes that allocation or cell as an argument,
//! and a token is given up by an explicit call of its `drop`.
pub mod arc;
pub mod bench;
pub mod borrow;
pub mod cell;
pub mod flag;
pub mod guards;
pub mod handles;
pub mod hazard;
pub mod heap;
pub mod rc;
pub mod rc_cell;
pub mod reon;
pub mod shared;

pub use arc::Arc;
pub use bench::MyBencher;
pub use borrow::Borrow;
pub use cell::Ref;
pub use cell::RefCell;
pub use cell::RefMut;
pub use flag::BorrowFlag;
pub use guards::GuardLedger;
pub use guards::GuardStep;
pub use handles::HandleLedger;
pub use handles::HandleStep;
pub use hazard::HazardCell;
pub use heap::HeapCell;
pub use rc::Rc;
pub use rc_cell::RcCell;
pub use reon::Reon;
pub use shared::JavaCell;
pub use shared::SharedCell;
