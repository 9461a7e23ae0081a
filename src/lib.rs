//! Stateful, reaction-driven chat messages: a registry of live message
//! listeners, a notification dispatcher and a paginated menu state machine.
//! Every decision is made here; the caller performs the platform calls that
//! the decisions ask for.
pub mod error;
pub mod events;
pub mod identity;
pub mod menu;
pub mod registry;
pub mod table;

pub use error::Error;
pub use events::RichEventHandler;
pub use identity::MessageHandle;
pub use registry::EventDrivenMessageContainer;
