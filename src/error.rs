use crate::identity::MessageHandle;
use vstd::prelude::*;

verus! {

/// Errors reported by the library's menus and registry.
#[derive(Clone, Debug, PartialEq, Eq)]
pub enum Error {
    /// The page with this index does not exist.
    PageNotFound(usize),
    /// The registry was not set up in the runtime context.
    Uninitialized,
    /// A reaction notification carried no acting user.
    NoCache,
    /// A listener is already filed under this identity.
    AlreadyRegistered(MessageHandle),
    /// No listener is filed under this identity, though one was expected.
    EntryMissing(MessageHandle),
    /// Every listener key has been handed out.
    KeysExhausted,
    /// A free-form error message.
    Msg(String),
}

} // verus!
