//! Verified core of a bridge between a multi-threaded async runtime and a
//! single-threaded host runtime guarded by one global execution lock.
//!
//! The library holds the bookkeeping that decides what may happen when:
//! the per-thread stack of active executor contexts, the shared state of a
//! host-driven future, the life cycle of a promise being awaited, the
//! host-lock handoff used by synchronous callers, and the type identity of
//! promises exported to the host.

pub mod caml_runtime;
pub mod domain_executor;
pub mod error;
pub mod ml_box_future;
pub mod notification;
pub mod promise;
