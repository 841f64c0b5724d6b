//! Verified core of a networking node that bridges Iroh gossip, Automerge
//! documents and an Erlang host: identifiers, message shaping, event routing
//! decisions and the document registry.

pub mod bytes;
pub mod hex_text;
pub mod doc_model;
pub mod automerge_bridge;
pub mod nif_error;
pub mod navigate;
pub mod registry;
pub mod reply;
pub mod payload;
pub mod gossip_events;
pub mod ticket_text;
pub mod node_config;
pub mod actor;
pub mod topics;
pub mod doc_laws;
pub mod arith;
pub mod actor_ids;
