//! Window lifecycle and state synchronisation for a multi-window HTTP request
//! composer: window identities, the persisted row set, header text, response
//! summaries, and the registry that dispatches lifecycle messages.

pub mod ids;
pub mod row;
pub mod db;
pub mod text;
pub mod humanize;
pub mod headers;
pub mod verb;
pub mod response;
pub mod req_params;
pub mod controls;
pub mod req_window;
pub mod messages;
pub mod registry;
