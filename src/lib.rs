//! A relay between GitHub webhooks and a chat server: room routing, webhook
//! signature checks, message rendering, pull-request deduplication, a cache of
//! user profiles, the paced outbound queue and the login handshake.

pub mod config;
pub mod github_api;
pub mod html;
pub mod schema;
pub mod sender;
pub mod session;
pub mod signature;
pub mod webhook;
