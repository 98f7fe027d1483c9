//! An in-process broadcast event bus with bounded per-subscriber mailboxes.

pub mod flag;
pub mod handle;
pub mod laws;
pub mod mailbox;
pub mod pointer;
pub mod roster;
pub mod subscriber;

pub use crate::handle::EventBus;
pub use crate::handle::EventPublisher;
pub use crate::handle::EventSubscriber;
