//! Typed webhook payloads: a server state-change event or a client
//! analytics event.  Which shape an authenticated payload takes is
//! structural — whichever of the two the JSON matches — so the union
//! is an explicit two-variant enum.

use vstd::prelude::*;

use crate::json::JsonValue;

verus! {

/// A server-side state-change event.
#[derive(Debug)]
pub struct VortexWebhookEvent {
    pub id: String,
    pub event_type: String,
    pub timestamp: String,
    pub account_id: String,
    pub environment_id: Option<String>,
    pub source_table: String,
    pub operation: String,
    pub data: Vec<(String, JsonValue)>,
}

/// A client-side behavioral analytics event.
#[derive(Debug)]
pub struct VortexAnalyticsEvent {
    pub id: String,
    pub name: String,
    pub account_id: String,
    pub organization_id: String,
    pub project_id: String,
    pub environment_id: String,
    pub deployment_id: Option<String>,
    pub widget_configuration_id: Option<String>,
    pub foreign_user_id: Option<String>,
    pub session_id: Option<String>,
    pub payload: Option<Vec<(String, JsonValue)>>,
    pub platform: Option<String>,
    pub segmentation: Option<String>,
    pub timestamp: String,
}

/// Any event delivered to a webhook endpoint.
#[derive(Debug)]
pub enum VortexEvent {
    Webhook(VortexWebhookEvent),
    Analytics(VortexAnalyticsEvent),
}

impl VortexEvent {
    /// True exactly on the webhook (state-change) variant.
    pub fn is_webhook_event(&self) -> (r: bool)
        ensures
            r == (self is Webhook),
    {
        match self {
            VortexEvent::Webhook(_) => true,
            _ => false,
        }
    }

    /// True exactly on the analytics variant.
    pub fn is_analytics_event(&self) -> (r: bool)
        ensures
            r == (self is Analytics),
    {
        match self {
            VortexEvent::Analytics(_) => true,
            _ => false,
        }
    }

    /// The inner webhook event, when this is one.
    pub fn as_webhook_event(&self) -> (r: Option<&VortexWebhookEvent>)
        ensures
            r is Some <==> self is Webhook,
            r matches Some(e) ==> *e == self->Webhook_0,
    {
        match self {
            VortexEvent::Webhook(e) => Some(e),
            _ => None,
        }
    }

    /// The inner analytics event, when this is one.
    pub fn as_analytics_event(&self) -> (r: Option<&VortexAnalyticsEvent>)
        ensures
            r is Some <==> self is Analytics,
            r matches Some(e) ==> *e == self->Analytics_0,
    {
        match self {
            VortexEvent::Analytics(e) => Some(e),
            _ => None,
        }
    }
}

} // verus!
