//! The credential lifecycle: expiry checks, operator-initiated rotation, the
//! effect of a successful refresh exchange on the cache, and the taxonomy of
//! refresh failures with the operational-alert text they produce.
//!
//! The refresh exchange itself is network I/O and runs outside the library;
//! its outcome comes back as plain values and is applied here.

use vstd::prelude::*;
use vstd::string::StringExecFns;
use crate::cache::Cache;
use crate::config::Config;

verus! {

/// The safety margin subtracted from a token lifetime when its expiry is
/// stored: five minutes, in seconds.
pub const REFRESH_MARGIN_SECS: i64 = 300;

/// Why a refresh exchange failed. All four kinds are non-fatal: the engine
/// alerts and proceeds to the next tick with the possibly-stale token.
#[derive(Debug, Clone)]
pub enum RefreshError {
    /// The endpoint returned a structured OAuth2 error; carries the server's
    /// `error_description` when present, else its error code.
    ServerResponse(String),
    /// Send or receive failure at the transport layer.
    Transport(String),
    /// The response was not a valid token response.
    Parse(String),
    /// Anything else, including unexpected shapes.
    Other(String),
}

/// Whether the access token is to be treated as expired at `now`: expiry is
/// reached once the clock is at or past the stored instant.
pub open spec fn spec_token_expired(cache: Cache, now: i64) -> bool {
    now >= cache.access_token_expires
}

/// The text a structured OAuth2 error surfaces: its `error_description` when
/// present, else its error code.
pub open spec fn spec_server_error_text(description: Option<String>, error_code: String) -> Seq<
    char,
> {
    match description {
        Some(d) => d@,
        None => error_code@,
    }
}

/// The detail line of a refresh failure: the kind's framing, then what the
/// exchange reported.
pub open spec fn spec_refresh_error_detail(e: RefreshError) -> Seq<char> {
    match e {
        RefreshError::ServerResponse(s) => "Returned error by server: "@ + s@,
        RefreshError::Transport(s) => "Failed to send/recv request: "@ + s@,
        RefreshError::Parse(s) => "Failed to parse JSON response: "@ + s@,
        RefreshError::Other(s) => "Unexpected response: "@ + s@,
    }
}

/// The operational-alert text posted to the error webhook when a refresh
/// fails.
pub open spec fn spec_alert_message(e: RefreshError) -> Seq<char> {
    "Failed to refresh access token: "@ + spec_refresh_error_detail(e)
}

impl Cache {
    /// Whether the access token is expired at `now`, so that the next cycle
    /// must attempt a refresh.
    pub fn token_expired(&self, now: i64) -> (r: bool)
        ensures
            r == spec_token_expired(*self, now),
    {
        now >= self.access_token_expires
    }

    /// Detects operator-initiated credential rotation and applies it: when
    /// either credential in the configuration differs from the value recorded
    /// at the last forced refresh, both current and last-changed fields are
    /// overwritten with the configuration's values, and the caller must force
    /// a refresh. Returns whether that trigger fired; when it does not, the
    /// cache is untouched.
    pub fn reconcile_with_config(&mut self, config: &Config) -> (changed: bool)
        ensures
            changed == (old(self).last_changed_refresh_token@ != config.refresh_token@
                || old(self).last_changed_access_token@ != config.access_token@),
            changed ==> final(self).refresh_token@ == config.refresh_token@,
            changed ==> final(self).access_token@ == config.access_token@,
            changed ==> final(self).last_changed_refresh_token@ == config.refresh_token@,
            changed ==> final(self).last_changed_access_token@ == config.access_token@,
            changed ==> final(self).access_token_expires == old(self).access_token_expires,
            changed ==> final(self).cached_recordings == old(self).cached_recordings,
            changed ==> final(self).color_map == old(self).color_map,
            !changed ==> *final(self) == *old(self),
            final(self).wf() == old(self).wf(),
    {
        if self.last_changed_refresh_token == config.refresh_token
            && self.last_changed_access_token == config.access_token {
            return false;
        }
        self.last_changed_refresh_token = config.refresh_token.clone();
        self.last_changed_access_token = config.access_token.clone();
        self.refresh_token = config.refresh_token.clone();
        self.access_token = config.access_token.clone();
        true
    }

    /// Applies a successful refresh exchange to the cache: the access token
    /// is replaced; the refresh token is replaced exactly when the response
    /// carried one; when the response carried a lifetime, the expiry becomes
    /// `now + expires_in` less the five-minute safety margin, and otherwise
    /// the prior expiry stays authoritative. Nothing else changes.
    pub fn apply_refresh_success(
        &mut self,
        now: i64,
        access_token: String,
        refresh_token: Option<String>,
        expires_in: Option<u64>,
    )
        requires
            match expires_in {
                Some(lifetime) => i64::MIN + REFRESH_MARGIN_SECS <= now && lifetime <= i64::MAX
                    && now - REFRESH_MARGIN_SECS + lifetime <= i64::MAX,
                None => true,
            },
        ensures
            final(self).access_token == access_token,
            final(self).refresh_token == match refresh_token {
                Some(t) => t,
                None => old(self).refresh_token,
            },
            final(self).access_token_expires == match expires_in {
                Some(lifetime) => now + lifetime - REFRESH_MARGIN_SECS,
                None => old(self).access_token_expires as int,
            },
            final(self).cached_recordings == old(self).cached_recordings,
            final(self).color_map == old(self).color_map,
            final(self).last_changed_refresh_token == old(self).last_changed_refresh_token,
            final(self).last_changed_access_token == old(self).last_changed_access_token,
            final(self).wf() == old(self).wf(),
    {
        self.access_token = access_token;
        if let Some(t) = refresh_token {
            self.refresh_token = t;
        }
        if let Some(lifetime) = expires_in {
            self.access_token_expires = now - REFRESH_MARGIN_SECS + (lifetime as i64);
        }
    }
}

/// The text a structured OAuth2 error surfaces, executable form of
/// [`spec_server_error_text`].
pub fn server_error_text(description: Option<String>, error_code: String) -> (r: String)
    ensures
        r@ == spec_server_error_text(description, error_code),
{
    match description {
        Some(d) => d,
        None => error_code,
    }
}

/// Renders the operational-alert text for a refresh failure.
pub fn alert_message(e: &RefreshError) -> (r: String)
    ensures
        r@ == spec_alert_message(*e),
{
    let (prefix, detail): (&str, &String) = match e {
        RefreshError::ServerResponse(s) => ("Returned error by server: ", s),
        RefreshError::Transport(s) => ("Failed to send/recv request: ", s),
        RefreshError::Parse(s) => ("Failed to parse JSON response: ", s),
        RefreshError::Other(s) => ("Unexpected response: ", s),
    };
    let mut out = "Failed to refresh access token: ".to_owned();
    out.append(prefix);
    out.append(detail.as_str());
    proof {
        assert(out@ =~= spec_alert_message(*e));
    }
    out
}

} // verus!
