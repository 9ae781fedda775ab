//! A pool of relay connections for a gossip-style event network.
//!
//! The library holds the protocol logic as state machines over plain values:
//! the status of each connection, its queue of outbound commands, the cache
//! that lets an event be announced once, and the tracker that maps one filter
//! set onto a subscription channel per relay. A runtime around it performs the
//! transport work each step asks for and hands back what happened.

pub mod error;
pub mod event;
pub mod laws;
pub mod mailbox;
pub mod message;
pub mod pool;
pub mod pool_event;
pub mod relay;
pub mod status;
pub mod subscription;
pub mod task;

pub use crate::error::Error;
pub use crate::event::{NostrEvent, Tag};
pub use crate::message::{ClientMessage, RelayMessage};
pub use crate::pool::{Published, RelayPool};
pub use crate::pool_event::{RelayPoolEvent, RelayPoolNotifications};
pub use crate::relay::{Frame, Relay, RelayEvent, WriterAction};
pub use crate::status::RelayStatus;
pub use crate::subscription::{Channel, Subscription};
pub use crate::task::RelayPoolTask;
