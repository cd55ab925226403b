//! The streaming client's configuration.

use vstd::prelude::*;
use url::Url;
use crate::transport::{StreamSession, MAX_CONNECT_ATTEMPTS};

verus! {

#[verifier::external_type_specification]
#[verifier::external_body]
pub struct ExUrl(Url);

/// Wait between connection attempts unless another is chosen.
pub const DEFAULT_RECONNECT_DELAY_MS: u64 = 1000;

/// Where to stream from, when to stop, and how long to wait between
/// connection attempts.
pub struct FlashblocksWsClient {
    url: Url,
    max_blocks: Option<usize>,
    reconnect_delay_ms: u64,
}

impl FlashblocksWsClient {
    pub closed spec fn spec_url(&self) -> Url {
        self.url
    }

    pub closed spec fn spec_max_blocks(&self) -> Option<usize> {
        self.max_blocks
    }

    pub closed spec fn spec_reconnect_delay_ms(&self) -> u64 {
        self.reconnect_delay_ms
    }

    /// A client that stops after `max_blocks` initial fragments and waits a
    /// second between connection attempts.
    pub fn new(url: Url, max_blocks: usize) -> (r: FlashblocksWsClient)
        ensures
            r.spec_url() == url,
            r.spec_max_blocks() == Some(max_blocks),
            r.spec_reconnect_delay_ms() == DEFAULT_RECONNECT_DELAY_MS,
    {
        FlashblocksWsClient { url, max_blocks: Some(max_blocks), reconnect_delay_ms: DEFAULT_RECONNECT_DELAY_MS }
    }

    /// The same client with the wait between attempts set in milliseconds.
    pub fn with_reconnect_delay(self, delay_ms: u64) -> (r: FlashblocksWsClient)
        ensures
            r.spec_url() == self.spec_url(),
            r.spec_max_blocks() == self.spec_max_blocks(),
            r.spec_reconnect_delay_ms() == delay_ms,
    {
        FlashblocksWsClient { reconnect_delay_ms: delay_ms, ..self }
    }

    /// The same client, streaming until the server closes or attempts run out.
    pub fn without_block_limit(self) -> (r: FlashblocksWsClient)
        ensures
            r.spec_url() == self.spec_url(),
            r.spec_max_blocks().is_none(),
            r.spec_reconnect_delay_ms() == self.spec_reconnect_delay_ms(),
    {
        FlashblocksWsClient { max_blocks: None, ..self }
    }

    pub fn url(&self) -> (r: &Url)
        ensures
            *r == self.spec_url(),
    {
        &self.url
    }

    pub fn max_blocks(&self) -> (r: Option<usize>)
        ensures
            r == self.spec_max_blocks(),
    {
        self.max_blocks
    }

    pub fn reconnect_delay_ms(&self) -> (r: u64)
        ensures
            r == self.spec_reconnect_delay_ms(),
    {
        self.reconnect_delay_ms
    }

    /// A fresh session under this client's settings.
    pub fn session(&self) -> (r: StreamSession)
        ensures
            r == StreamSession::initial(
                MAX_CONNECT_ATTEMPTS,
                self.spec_reconnect_delay_ms(),
                match self.spec_max_blocks() {
                    Some(m) => Some(m as u64),
                    None => None,
                },
            ),
            r.wf(),
    {
        let limit = match self.max_blocks {
            Some(m) => Some(m as u64),
            None => None,
        };
        StreamSession::new(MAX_CONNECT_ATTEMPTS, self.reconnect_delay_ms, limit)
    }
}

} // verus!
