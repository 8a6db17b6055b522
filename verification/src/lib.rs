//! A reverse proxy's event-dispatch bridge: host routing, the per-request
//! forwarding decisions, the bounded page-view event channel and the
//! dispatch loop that feeds a single non-reentrant plugin sandbox.

pub mod channel;
pub mod dispatch;
pub mod event;
pub mod handler;
pub mod plugin;
pub mod route;
