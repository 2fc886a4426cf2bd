//! Verified core of the Corp game services: the asset catalogues of the
//! client, the colony routing table and connection life cycle of the game
//! proxy, and the request rules and migration script handling of the login
//! service.

pub mod assets;
pub mod text;
pub mod migrations;
pub mod colony;
pub mod routes;
pub mod proxy;
pub mod login;
pub mod client;
