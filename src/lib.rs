//! A durable request relay core: the delivery state machine, the origin
//! cache it resolves against, the attempt ledger it records into, and the
//! retry sweep that brings failed requests back.
pub mod authority;
pub mod delivery;
pub mod ledger;
pub mod origin;
pub mod state;
