//! Service discovery over multicast DNS: the decisions taken when the
//! discovery daemon reports browse and resolve events, and the bookkeeping
//! of the native handles that a platform wrapper owns.

pub mod callback_handler;
pub mod handles;
pub mod text;
