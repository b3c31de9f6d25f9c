//! Client binding status: the connection bootstrap, the session that folds
//! relay frames into a browser-visible projection, and the rules of the native
//! socket around them.

pub mod client_binding_bootstrap;
pub mod client_binding_status_session;
pub mod commands;
pub mod community;
pub mod connection;
pub mod counter;
pub mod event;
pub mod json;
pub mod messages;
pub mod projection;
pub mod registry;
pub mod relay_identity;
pub mod rounds;
pub mod text;
