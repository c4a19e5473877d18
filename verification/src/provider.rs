//! The provider factory: validates an optional endpoint URL and chain
//! descriptor into a connection plan for one of five transport variants, and
//! decides the chain-id assertion once a connected handle reports its id.

use vstd::prelude::*;

use crate::error::Error;
use crate::network::{Chain, RetryClientConfig, U256};

verus! {

/// `url::Url`, declared so parsed endpoints can flow through plans; the value
/// is opaque here.
#[verifier::external_type_specification]
#[verifier::external_body]
pub struct ExUrl(url::Url);

/// `url::ParseError`, declared so parse failures can be surfaced verbatim.
#[verifier::external_type_specification]
#[verifier::external_body]
pub struct ExParseError(url::ParseError);

/// Whether `url::Url::parse` accepts `s` as an absolute URL.
pub uninterp spec fn url_parse_ok(s: Seq<char>) -> bool;

/// Relies on `url::Url::parse`: parsing an absolute URL from a string; whether
/// it succeeds is a function of the string alone.
#[verifier::external_body]
fn parse_url(s: &str) -> (r: Result<url::Url, url::ParseError>)
    ensures
        r is Ok <==> url_parse_ok(s@),
{
    url::Url::parse(s)
}

/// The five supported connection kinds.
#[derive(Clone, Copy, Debug, PartialEq, Eq, Structural)]
pub enum Transport {
    /// Persistent websocket.
    Ws,
    /// Local inter-process socket, addressed by filesystem path.
    Ipc,
    /// Plain request/response.
    Http,
    /// Request/response wrapped in a retry policy.
    Retry,
    /// In-memory test double.
    Mock,
}

/// A validated endpoint: what to open, with the URL already parsed and the
/// retry tuning already resolved.
pub enum Endpoint {
    Ws(url::Url),
    Ipc(String),
    Http(url::Url),
    Retry(url::Url, RetryClientConfig),
    Mock,
}

/// Everything a caller needs to construct a handle of one transport variant:
/// the validated endpoint, and the chain id to check against the connected
/// handle's reported id, when the chain descriptor asks for that check.
pub struct ConnectionPlan {
    pub endpoint: Endpoint,
    pub expected_chain_id: Option<u64>,
}

/// The chain id the factory must assert after connecting: the descriptor's
/// numeric id when the descriptor is present and its assert flag is set,
/// nothing otherwise.
pub open spec fn chain_check(chain: Option<Chain>) -> Option<u64> {
    match chain {
        Some(c) => if c.spec_assert_chain_id() {
            Some(c.spec_id())
        } else {
            None
        },
        None => None,
    }
}

/// The retry tuning the retry-wrapped transport is built with: the chain's
/// resolved tuning when a descriptor is present, the default otherwise.
pub open spec fn resolved_retry_config(chain: Option<Chain>) -> RetryClientConfig {
    match chain {
        Some(c) => c.spec_retry_client_config(),
        None => RetryClientConfig::spec_default(),
    }
}

/// Produces provider handles: an optional endpoint URL and an optional chain
/// descriptor, validated per transport variant into a `ConnectionPlan`.
pub struct AbiProvider {
    pub url: Option<String>,
    pub chain: Option<Chain>,
}

/// The factory surface a provider-producing type offers: one call yielding a
/// ready handle of type `M`. This library validates configuration and decides
/// the chain-id assertion; implementors do the transport work and so live with
/// the client library, outside this crate.
pub trait AbiProviderTrait<M> {
    fn provider(&self) -> Result<M, Error>;
}

/// What `connection_plan` returns on every input: a full case split over the
/// transport variant and the presence of the URL.
pub open spec fn plan_result(pr: AbiProvider, transport: Transport, r: Result<ConnectionPlan, Error>) -> bool {
    match transport {
        Transport::Mock => match pr.url {
            Some(_) => r matches Err(Error::Error(m)) && m@ == "MockProvider url is not None"@,
            None => r matches Ok(p) && p.endpoint is Mock && p.expected_chain_id is None,
        },
        Transport::Ipc => match pr.url {
            None => r matches Err(Error::Error(m)) && m@ == "Provider url is None"@,
            Some(u) => r matches Ok(p)
                && (p.endpoint matches Endpoint::Ipc(path) && path@ == u@)
                && p.expected_chain_id == chain_check(pr.chain),
        },
        Transport::Ws => match pr.url {
            None => r matches Err(Error::Error(m)) && m@ == "Provider url is None"@,
            Some(u) => if url_parse_ok(u@) {
                r matches Ok(p) && p.endpoint is Ws && p.expected_chain_id == chain_check(pr.chain)
            } else {
                r matches Err(Error::ParseError(_))
            },
        },
        Transport::Http => match pr.url {
            None => r matches Err(Error::Error(m)) && m@ == "Provider url is None"@,
            Some(u) => if url_parse_ok(u@) {
                r matches Ok(p) && p.endpoint is Http && p.expected_chain_id == chain_check(pr.chain)
            } else {
                r matches Err(Error::ParseError(_))
            },
        },
        Transport::Retry => match pr.url {
            None => r matches Err(Error::Error(m)) && m@ == "Provider url is None"@,
            Some(u) => if url_parse_ok(u@) {
                r matches Ok(p)
                    && (p.endpoint matches Endpoint::Retry(_, c) && c == resolved_retry_config(pr.chain))
                    && p.expected_chain_id == chain_check(pr.chain)
            } else {
                r matches Err(Error::ParseError(_))
            },
        },
    }
}

/// The configuration error for a non-mock transport asked for without a URL.
fn missing_url_error() -> (e: Error)
    ensures
        e matches Error::Error(m) && m@ == "Provider url is None"@,
{
    Error::Error(String::from_str("Provider url is None"))
}

/// The chain id to assert for this configuration, as `chain_check` gives it.
fn chain_check_exec(chain: &Option<Chain>) -> (r: Option<u64>)
    ensures
        r == chain_check(*chain),
{
    match chain {
        Some(c) => if c.assert_chain_id() {
            Some(c.id())
        } else {
            None
        },
        None => None,
    }
}

impl AbiProvider {
    pub fn _new(url: Option<String>, chain: Option<Chain>) -> (r: Self)
        ensures
            r.url == url,
            r.chain == chain,
    {
        Self { url, chain }
    }

    pub fn new(url: String, chain: Chain) -> (r: Self)
        ensures
            r.url == Some(url),
            r.chain == Some(chain),
    {
        Self { url: Some(url), chain: Some(chain) }
    }

    /// A factory for the in-memory mock transport: no URL, no chain, and so no
    /// network validation.
    pub fn mock() -> (r: Self)
        ensures
            r.url is None,
            r.chain is None,
    {
        Self { url: None, chain: None }
    }

    /// Validate this configuration for one transport variant. A missing URL
    /// fails every variant but the mock one; a URL fails the mock one; the
    /// socket and request/response variants need the URL to parse as an
    /// absolute URL; the retry variant also resolves its retry tuning. The
    /// plan records whether the caller must assert the reported chain id, so
    /// a handle is never handed out unvalidated when validation was asked for.
    pub fn connection_plan(&self, transport: Transport) -> (r: Result<ConnectionPlan, Error>)
        ensures
            plan_result(*self, transport, r),
    {
        match transport {
            Transport::Mock => match &self.url {
                Some(_) => Err(Error::Error(String::from_str("MockProvider url is not None"))),
                None => Ok(ConnectionPlan { endpoint: Endpoint::Mock, expected_chain_id: None }),
            },
            Transport::Ipc => match &self.url {
                None => Err(missing_url_error()),
                Some(u) => Ok(ConnectionPlan {
                    endpoint: Endpoint::Ipc(u.clone()),
                    expected_chain_id: chain_check_exec(&self.chain),
                }),
            },
            Transport::Ws => match &self.url {
                None => Err(missing_url_error()),
                Some(u) => match parse_url(u.as_str()) {
                    Ok(parsed) => Ok(ConnectionPlan {
                        endpoint: Endpoint::Ws(parsed),
                        expected_chain_id: chain_check_exec(&self.chain),
                    }),
                    Err(e) => Err(Error::ParseError(e)),
                },
            },
            Transport::Http => match &self.url {
                None => Err(missing_url_error()),
                Some(u) => match parse_url(u.as_str()) {
                    Ok(parsed) => Ok(ConnectionPlan {
                        endpoint: Endpoint::Http(parsed),
                        expected_chain_id: chain_check_exec(&self.chain),
                    }),
                    Err(e) => Err(Error::ParseError(e)),
                },
            },
            Transport::Retry => match &self.url {
                None => Err(missing_url_error()),
                Some(u) => match parse_url(u.as_str()) {
                    Ok(parsed) => {
                        let config = match &self.chain {
                            Some(c) => c.retry_client_config(),
                            None => RetryClientConfig::default(),
                        };
                        Ok(ConnectionPlan {
                            endpoint: Endpoint::Retry(parsed, config),
                            expected_chain_id: chain_check_exec(&self.chain),
                        })
                    },
                    Err(e) => Err(Error::ParseError(e)),
                },
            },
        }
    }
}

/// Decide the chain-id assertion: succeeds exactly when the id a connected
/// handle reports equals the configured one; a mismatch carries both values.
pub fn check_chain_id(expected: u64, reported: U256) -> (r: Result<(), Error>)
    ensures
        r is Ok <==> reported.as_nat() == expected as nat,
        r matches Err(e) ==> e matches Error::ChainIdError { expected: ex, actual: ac }
            && ex == expected && ac == reported,
{
    if reported.equals_u64(expected) {
        Ok(())
    } else {
        Err(Error::ChainIdError { expected: expected, actual: reported })
    }
}

} // verus!
