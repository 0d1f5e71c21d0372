//! The SDK client: it holds the structured API key and the service
//! base URL, and generates tokens.  The HTTP transport lives outside
//! the library and consumes [`crate::routes`] paths and these tokens.

use vstd::prelude::*;
use vstd::string::StringExecFns;
use vstd::utf8::encode_utf8;

use crate::error::VortexError;
use crate::keys;
use crate::token;
use crate::types::User;

verus! {

/// The service endpoint used when no other base URL is configured.
pub open spec fn default_base_url() -> Seq<char> {
    "https://api.vortexsoftware.com"@
}

/// Client for the Vortex API: an immutable structured API key and a
/// base URL, both set at construction and never mutated.
#[derive(Debug, Clone)]
pub struct VortexClient {
    pub api_key: String,
    pub base_url: String,
}

/// Relies on `std::time::SystemTime::now`: the current wall-clock time,
/// read once per call, as whole seconds since the Unix epoch (0 if the
/// clock reads before the epoch).  Nothing can be promised of the
/// value.
#[verifier::external_body]
fn unix_now() -> u64 {
    match std::time::SystemTime::now().duration_since(std::time::UNIX_EPOCH) {
        Ok(d) => d.as_secs(),
        Err(_) => 0,
    }
}

impl VortexClient {
    /// A client for the default service endpoint.
    pub fn new(api_key: String) -> (r: Self)
        ensures
            r.api_key@ == api_key@,
            r.base_url@ == default_base_url(),
    {
        VortexClient {
            api_key,
            base_url: String::from_str("https://api.vortexsoftware.com"),
        }
    }

    /// A client for a custom service endpoint.
    pub fn with_base_url(api_key: String, base_url: String) -> (r: Self)
        ensures
            r.api_key@ == api_key@,
            r.base_url@ == base_url@,
    {
        VortexClient { api_key, base_url }
    }

    /// Generate the token for `user` at the issue second `iat`.
    ///
    /// Succeeds exactly when the client's structured key is valid, and
    /// then returns the exact ASCII of [`token::spec_token_ascii`] for
    /// the key's UUID text and secret — so two calls with the same
    /// claims and the same second return byte-identical tokens.
    pub fn generate_jwt_at(&self, user: &User, iat: u64) -> (r: Result<String, VortexError>)
        requires
            iat + token::token_lifetime() <= i64::MAX,
        ensures
            r is Ok <==> keys::api_key_valid(encode_utf8(self.api_key@)),
            r matches Ok(tok) ==> encode_utf8(tok@) == token::spec_token_ascii(
                keys::api_key_uuid_chars(encode_utf8(self.api_key@)),
                keys::api_key_secret(encode_utf8(self.api_key@)),
                *user,
                iat,
            ),
            r matches Ok(tok) ==> crate::b64::b64url_decode_of(
                crate::b64::b64url_of(crate::json::jser(token::payload_val(*user, iat))),
            ) == Some(crate::json::jser(token::payload_val(*user, iat))),
            r matches Err(e) ==> e is InvalidApiKey,
    {
        match keys::parse_api_key(self.api_key.as_str()) {
            Err(e) => Err(e),
            Ok((uuid, secret)) => Ok(
                token::encode_token(uuid.as_str(), secret.as_slice(), user, iat),
            ),
        }
    }

    /// Generate a token for `user` at the current wall-clock second.
    ///
    /// The clock is read once; everything else is
    /// [`Self::generate_jwt_at`], so the token is pinned by the key,
    /// the claims and that second.
    pub fn generate_jwt(&self, user: &User) -> (r: Result<String, VortexError>)
        ensures
            r matches Ok(tok) ==> keys::api_key_valid(encode_utf8(self.api_key@))
                && (exists|t: u64|
                t + token::token_lifetime() <= i64::MAX && encode_utf8(tok@)
                    == token::spec_token_ascii(
                    keys::api_key_uuid_chars(encode_utf8(self.api_key@)),
                    keys::api_key_secret(encode_utf8(self.api_key@)),
                    *user,
                    t,
                )),
            !keys::api_key_valid(encode_utf8(self.api_key@)) ==> (r matches Err(e)
                && e is InvalidApiKey),
            keys::api_key_valid(encode_utf8(self.api_key@)) ==> r is Ok || (r matches Err(e)
                && e is InvalidRequest),
    {
        let now = unix_now();
        if now <= (i64::MAX as u64) - 3600 {
            let r = self.generate_jwt_at(user, now);
            proof {
                if r is Ok {
                    let tok = r->Ok_0;
                    assert(encode_utf8(tok@) == token::spec_token_ascii(
                        keys::api_key_uuid_chars(encode_utf8(self.api_key@)),
                        keys::api_key_secret(encode_utf8(self.api_key@)),
                        *user,
                        now,
                    ));
                }
            }
            r
        } else {
            // Defensive: a clock this far past the epoch cannot give a
            // representable expiry.  Key errors still take precedence.
            match keys::parse_api_key(self.api_key.as_str()) {
                Err(e) => Err(e),
                Ok(_) => Err(
                    VortexError::InvalidRequest(String::from_str("system time out of range")),
                ),
            }
        }
    }
}

} // verus!
