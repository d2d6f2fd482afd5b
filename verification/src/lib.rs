//! A fixed-capacity ring buffer that connects one producing thread to one
//! consuming thread.
//!
//! [`model`] is the mathematical description of a ring, and [`laws`] holds
//! what is proved of it. [`ring`] is the engine, owned by one caller at a
//! time and proved against the model. [`spsc`] puts one engine behind a lock
//! and shares it between an owner, a producer and a consumer, which wait for
//! each other through the items of [`sync`]. [`traits`] names the operations.

pub mod error;
pub mod laws;
pub mod model;
pub mod ring;
pub mod spsc;
pub mod sync;
pub mod traits;

pub use crate::error::RbError;
pub use crate::model::RingView;
pub use crate::ring::Ring;
pub use crate::spsc::{Consumer, Producer, Shared, SpscRb};
pub use crate::traits::{RbConsumer, RbInspector, RbProducer, RB};
