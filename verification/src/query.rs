//! Client-side query state: per-server configuration and the bounded
//! retry machine of one server query. The caller owns the socket and the
//! waiting; this module decides what each send and each outcome means.
use vstd::prelude::*;

use crate::collection::{spec_decode_collection, SessionCollection};
use crate::error::{EncodeDecodeError, WhereError, WhereResult};
use crate::session::SessionView;

verus! {

/// Default receive timeout, in milliseconds.
pub const TIMEOUT: u64 = 2000;

/// Default number of send attempts per server.
pub const MAX_SEND_RETRIES: usize = 3;

/// Default UDP port of the session daemon.
pub const DEFAULT_PORT: u16 = 15;

/// The option's value, or the given default when it is absent.
pub open spec fn spec_or<T>(o: Option<T>, d: T) -> T {
    match o {
        Some(v) => v,
        None => d,
    }
}

/// Global defaults, each of which a server entry may override.
pub struct GlobalConfig {
    pub timeout: Option<u64>,
    pub max_retries: Option<usize>,
    pub include_inactive: Option<bool>,
    pub port: Option<u16>,
    pub source: Option<String>,
}

impl Default for GlobalConfig {
    /// A configuration that overrides nothing.
    fn default() -> (r: GlobalConfig)
        ensures
            r.timeout is None,
            r.max_retries is None,
            r.include_inactive is None,
            r.port is None,
            r.source is None,
    {
        GlobalConfig {
            timeout: None,
            max_retries: None,
            include_inactive: None,
            port: None,
            source: None,
        }
    }
}

impl GlobalConfig {
    /// The daemon port to append to an endpoint that names none.
    pub fn effective_port(&self) -> (r: u16)
        ensures
            r == spec_or(self.port, DEFAULT_PORT),
    {
        match self.port {
            Some(p) => p,
            None => DEFAULT_PORT,
        }
    }

    /// Whether dead accounting entries are shown too.
    pub fn effective_include_inactive(&self) -> (r: bool)
        ensures
            r == spec_or(self.include_inactive, true),
    {
        match self.include_inactive {
            Some(b) => b,
            None => true,
        }
    }
}

/// One configured server.
pub struct ServerConfig {
    pub endpoint: String,
    pub label: Option<String>,
    pub timeout: Option<u64>,
    pub max_retries: Option<usize>,
    pub failsafe: Option<bool>,
}

impl ServerConfig {
    /// The receive timeout governing this server: its own, else the
    /// global one, else the built-in default.
    pub fn effective_timeout(&self, global: &GlobalConfig) -> (r: u64)
        ensures
            r == spec_or(self.timeout, spec_or(global.timeout, TIMEOUT)),
    {
        match self.timeout {
            Some(t) => t,
            None => match global.timeout {
                Some(t) => t,
                None => TIMEOUT,
            },
        }
    }

    /// The retry bound governing this server, resolved the same way.
    pub fn effective_retries(&self, global: &GlobalConfig) -> (r: usize)
        ensures
            r == spec_or(self.max_retries, spec_or(global.max_retries, MAX_SEND_RETRIES)),
    {
        match self.max_retries {
            Some(m) => m,
            None => match global.max_retries {
                Some(m) => m,
                None => MAX_SEND_RETRIES,
            },
        }
    }

    /// Whether this server's failure is absorbed rather than fatal.
    pub fn effective_failsafe(&self) -> (r: bool)
        ensures
            r == spec_or(self.failsafe, false),
    {
        match self.failsafe {
            Some(b) => b,
            None => false,
        }
    }

    /// The display label of this server, defaulting to its endpoint.
    pub fn effective_label(&self) -> (r: &String)
        ensures
            r@ == spec_or(
                match self.label {
                    Some(l) => Some(l@),
                    None => None,
                },
                self.endpoint@,
            ),
    {
        match &self.label {
            Some(l) => l,
            None => &self.endpoint,
        }
    }
}

/// The retry loop of one server query: up to `max_retries` sends, each
/// followed by one wait; an unanswered wait consumes one attempt, a reply
/// is decoded and never re-requested, and exhaustion is a timeout fault.
pub struct QueryMachine {
    /// The endpoint being asked, cited by the timeout fault.
    pub endpoint: String,
    /// The per-wait receive timeout in milliseconds, cited by the fault.
    pub timeout_ms: u64,
    /// How many sends are allowed in all.
    pub max_retries: usize,
    /// How many sends were granted so far.
    pub attempts: usize,
}

impl QueryMachine {
    /// A fresh machine that has sent nothing yet.
    pub fn new(endpoint: String, timeout_ms: u64, max_retries: usize) -> (r: QueryMachine)
        ensures
            r.endpoint == endpoint,
            r.timeout_ms == timeout_ms,
            r.max_retries == max_retries,
            r.attempts == 0,
    {
        QueryMachine { endpoint, timeout_ms, max_retries, attempts: 0 }
    }

    /// Grants one more send exactly while the retry bound allows it,
    /// counting the send it grants.
    pub fn begin_attempt(&mut self) -> (r: bool)
        ensures
            r == (old(self).attempts < old(self).max_retries),
            final(self).endpoint == old(self).endpoint,
            final(self).timeout_ms == old(self).timeout_ms,
            final(self).max_retries == old(self).max_retries,
            r ==> final(self).attempts == old(self).attempts + 1,
            !r ==> final(self).attempts == old(self).attempts,
    {
        if self.attempts < self.max_retries {
            self.attempts = self.attempts + 1;
            true
        } else {
            false
        }
    }

    /// Decodes a received reply, tagging its sessions with `label`.
    /// A structurally invalid reply is surfaced as-is, never re-requested.
    pub fn on_reply(&self, buf: &[u8], label: &[u8]) -> (r: WhereResult<SessionCollection>)
        ensures
            match r {
                Ok(c) => spec_decode_collection(buf@, Some(label@)) == Ok::<
                    Seq<SessionView>,
                    EncodeDecodeError,
                >(c@),
                Err(e) => match e {
                    WhereError::EncodeDecodeError(de) => spec_decode_collection(buf@, Some(label@))
                        == Err::<Seq<SessionView>, EncodeDecodeError>(de),
                    _ => false,
                },
            },
    {
        match SessionCollection::from_udp_payload(buf, label) {
            Ok(c) => Ok(c),
            Err(e) => Err(WhereError::from(e)),
        }
    }

    /// The fault reported once every granted send went unanswered, citing
    /// the endpoint, the retry bound, and the per-wait timeout.
    pub fn into_timeout_error(self) -> (r: WhereError)
        ensures
            r == WhereError::TimedOut(self.endpoint, self.max_retries, self.timeout_ms),
    {
        WhereError::TimedOut(self.endpoint, self.max_retries, self.timeout_ms)
    }
}

} // verus!
