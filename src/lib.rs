//! In-memory chat state: live sessions per user, private conversations keyed
//! by an unordered pair of usernames, and per-direction message sequencing.

pub mod private_conversation_partners;
pub mod dto;
pub mod util;
pub mod user_context;
pub mod connection_handler;
pub mod simple_client;
pub mod user_service;
