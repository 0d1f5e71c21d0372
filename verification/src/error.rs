//! Error taxonomy for the SDK's core operations.

use vstd::prelude::*;
use vstd::string::StringExecFns;

verus! {

/// Error returned by SDK operations.
///
/// Key-format and signature errors are never transient and must not be
/// retried by callers.
#[derive(Debug, Clone)]
pub enum VortexError {
    /// Malformed structured API key: wrong segment count, wrong prefix,
    /// bad base64, or a decoded identifier that is not 16 bytes.
    InvalidApiKey(String),
    /// A cryptographic primitive rejected its key material (defensive;
    /// does not occur for inputs this crate validates upstream).
    CryptoError(String),
    /// An HTTP request failed (raised by the transport layer only).
    HttpError(String),
    /// The remote API returned an error (raised by the transport layer only).
    ApiError(String),
    /// JSON serialization or deserialization failed.
    SerializationError(String),
    /// A request was rejected before being sent.
    InvalidRequest(String),
    /// A webhook signature did not verify, or a webhook verifier was
    /// constructed with an empty secret.
    WebhookSignatureError(String),
}

impl VortexError {
    /// A human-readable rendering of the error, in the shape
    /// `"<kind>: <detail>"`.
    pub fn message(&self) -> (r: String)
        ensures
            match self {
                VortexError::InvalidApiKey(m) => r@ == "Invalid API key: "@ + m@,
                VortexError::CryptoError(m) => r@ == "Crypto error: "@ + m@,
                VortexError::HttpError(m) => r@ == "HTTP error: "@ + m@,
                VortexError::ApiError(m) => r@ == "API error: "@ + m@,
                VortexError::SerializationError(m) => r@ == "Serialization error: "@ + m@,
                VortexError::InvalidRequest(m) => r@ == "Invalid request: "@ + m@,
                VortexError::WebhookSignatureError(m) => r@ == "Webhook signature error: "@ + m@,
            },
    {
        match self {
            VortexError::InvalidApiKey(m) => String::from_str("Invalid API key: ").concat(m.as_str()),
            VortexError::CryptoError(m) => String::from_str("Crypto error: ").concat(m.as_str()),
            VortexError::HttpError(m) => String::from_str("HTTP error: ").concat(m.as_str()),
            VortexError::ApiError(m) => String::from_str("API error: ").concat(m.as_str()),
            VortexError::SerializationError(m) => String::from_str("Serialization error: ").concat(m.as_str()),
            VortexError::InvalidRequest(m) => String::from_str("Invalid request: ").concat(m.as_str()),
            VortexError::WebhookSignatureError(m) => String::from_str("Webhook signature error: ").concat(m.as_str()),
        }
    }

    /// True exactly on the `InvalidApiKey` variant.
    pub fn is_invalid_api_key(&self) -> (r: bool)
        ensures
            r == (self is InvalidApiKey),
    {
        match self {
            VortexError::InvalidApiKey(_) => true,
            _ => false,
        }
    }

    /// True exactly on the `WebhookSignatureError` variant.
    pub fn is_webhook_signature_error(&self) -> (r: bool)
        ensures
            r == (self is WebhookSignatureError),
    {
        match self {
            VortexError::WebhookSignatureError(_) => true,
            _ => false,
        }
    }
}

} // verus!
