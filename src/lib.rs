//! Decision core of a chat-driven home network relay: command dispatch with
//! operator authorization, a cached public address, hex MAC parsing, wake
//! packets, and the replies sent back to the operator.

pub mod address;
pub mod cache;
pub mod dispatch;
pub mod hex;
pub mod reply;
pub mod wake;
