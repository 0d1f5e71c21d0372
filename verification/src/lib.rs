//! Client-side core of the Vortex invitation/authentication service SDK.
//!
//! The heart of the crate is the token derivation and verification
//! subsystem: deterministic JWT construction from a structured API key
//! using a two-stage HMAC-SHA256 key-derivation scheme, and inbound
//! webhook authentication using HMAC-SHA256 with a constant-time
//! comparison.  Every function here is verified; calls into outside
//! crates (base64, hmac/sha2) go through small trusted wrappers whose
//! contracts name what those crates compute.

pub mod accept;
pub mod analytics_event_type;
pub mod ascii;
pub mod b64;
pub mod client;
pub mod error;
pub mod json;
pub mod json_parse;
pub mod keys;
pub mod mac;
pub mod routes;
pub mod token;
pub mod types;
pub mod webhook_event_type;
pub mod webhook_types;
pub mod webhooks;

pub use accept::plan_acceptances;
pub use ascii::hex_encode;
pub use client::VortexClient;
pub use error::VortexError;
pub use json::JsonValue;
pub use keys::parse_api_key;
pub use types::{
    AcceptTargets, AcceptUser, Group, Identifier, Invitation, InvitationAcceptance,
    InvitationGroup, InvitationTarget, InvitationsResponse, User,
};
pub use webhook_types::{VortexAnalyticsEvent, VortexEvent, VortexWebhookEvent};
pub use webhooks::{constant_time_eq, VortexWebhooks};
