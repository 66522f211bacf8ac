//! Verified core of a match-setup service: the best-of-N map veto/pick
//! protocol between two teams, its sessions, a registry of sessions and the
//! finalized match configuration, together with the plain records that the
//! surrounding service stores.
pub mod series;
pub mod session;
pub mod registry;
pub mod records;
pub mod steamid;
pub mod render;
pub mod reports;
