use ethers_abirpc::error::Error;
use ethers_abirpc::network::{Chain, RetryClientConfig, U256};
use ethers_abirpc::provider::{check_chain_id, AbiProvider, ConnectionPlan, Endpoint, Transport};

fn missing_url(r: Result<ConnectionPlan, Error>) -> bool {
    matches!(r, Err(Error::Error(m)) if m == "Provider url is None")
}

#[test]
fn url_absent_fails_every_non_mock_variant() {
    for transport in [Transport::Ws, Transport::Ipc, Transport::Http, Transport::Retry] {
        let factory = AbiProvider::_new(None, None);
        assert!(missing_url(factory.connection_plan(transport)));
        let with_chain = AbiProvider::_new(None, Some(Chain::Id(1)));
        assert!(missing_url(with_chain.connection_plan(transport)));
    }
}

#[test]
fn mock_with_url_fails() {
    let factory = AbiProvider::new(String::from("http://localhost:8545"), Chain::Id(1));
    let r = factory.connection_plan(Transport::Mock);
    assert!(matches!(r, Err(Error::Error(m)) if m == "MockProvider url is not None"));
}

#[test]
fn mock_without_url_succeeds_without_validation() {
    let factory = AbiProvider::mock();
    let plan = factory.connection_plan(Transport::Mock).unwrap();
    assert!(matches!(plan.endpoint, Endpoint::Mock));
    assert_eq!(plan.expected_chain_id, None);
}

#[test]
fn chain_id_assertion_requested_when_flag_set() {
    let factory = AbiProvider::new(String::from("ws://localhost:8546"), Chain::Id(5));
    let plan = factory.connection_plan(Transport::Ws).unwrap();
    assert!(matches!(plan.endpoint, Endpoint::Ws(_)));
    assert_eq!(plan.expected_chain_id, Some(5));
}

#[test]
fn chain_id_assertion_skipped_when_flag_unset() {
    let chain = Chain::Custom {
        id: 1,
        assert_chain_id: false,
        retry_config: None,
    };
    let factory = AbiProvider::new(String::from("http://localhost:8545"), chain);
    let plan = factory.connection_plan(Transport::Http).unwrap();
    // With the flag unset no check is requested, so a node reporting any
    // other id cannot make the construction fail.
    assert_eq!(plan.expected_chain_id, None);
}

#[test]
fn chain_id_assertion_skipped_without_descriptor() {
    let factory = AbiProvider::_new(Some(String::from("http://localhost:8545")), None);
    let plan = factory.connection_plan(Transport::Http).unwrap();
    assert_eq!(plan.expected_chain_id, None);
}

#[test]
fn chain_id_mismatch_carries_both_values() {
    let r = check_chain_id(1, U256::from_u64(5));
    match r {
        Err(Error::ChainIdError { expected, actual }) => {
            assert_eq!(expected, 1);
            assert_eq!(actual, U256 { high: 0, low: 5 });
        }
        other => panic!("expected a chain-id error, got {:?}", other),
    }
}

#[test]
fn chain_id_match_succeeds() {
    assert!(check_chain_id(1, U256::from_u64(1)).is_ok());
    assert!(check_chain_id(u64::MAX, U256::from_u64(u64::MAX)).is_ok());
}

#[test]
fn chain_id_high_limb_never_matches() {
    let reported = U256 { high: 1, low: 1 };
    assert!(matches!(
        check_chain_id(1, reported),
        Err(Error::ChainIdError { expected: 1, actual }) if actual == reported
    ));
}

#[test]
fn ipc_plan_keeps_the_path() {
    let factory = AbiProvider::new(String::from("/tmp/node.ipc"), Chain::Id(1));
    let plan = factory.connection_plan(Transport::Ipc).unwrap();
    match plan.endpoint {
        Endpoint::Ipc(path) => assert_eq!(path, "/tmp/node.ipc"),
        other => panic!("expected an ipc endpoint, got {:?}", plan_kind(&other)),
    }
    assert_eq!(plan.expected_chain_id, Some(1));
}

fn plan_kind(e: &Endpoint) -> &'static str {
    match e {
        Endpoint::Ws(_) => "ws",
        Endpoint::Ipc(_) => "ipc",
        Endpoint::Http(_) => "http",
        Endpoint::Retry(_, _) => "retry",
        Endpoint::Mock => "mock",
    }
}

#[test]
fn malformed_url_is_a_parse_error() {
    let factory = AbiProvider::new(String::from("not a url"), Chain::Id(1));
    assert!(matches!(
        factory.connection_plan(Transport::Http),
        Err(Error::ParseError(_))
    ));
    assert!(matches!(
        factory.connection_plan(Transport::Ws),
        Err(Error::ParseError(_))
    ));
    assert!(matches!(
        factory.connection_plan(Transport::Retry),
        Err(Error::ParseError(_))
    ));
}

#[test]
fn url_is_really_parsed() {
    // The parsed endpoint is a structured URL, not the input string echoed
    // back: the parser normalizes it and exposes its parts.
    let factory = AbiProvider::new(String::from("HTTP://example.com"), Chain::Id(1));
    let plan = factory.connection_plan(Transport::Http).unwrap();
    match plan.endpoint {
        Endpoint::Http(url) => {
            assert_eq!(url.scheme(), "http");
            assert_eq!(url.as_str(), "http://example.com/");
        }
        _ => panic!("expected an http endpoint"),
    }
}

#[test]
fn default_retry_configuration() {
    let config = RetryClientConfig::default();
    assert_eq!(config.rate_limit_retries, 10);
    assert_eq!(config.timeout_retries, 3);
    assert_eq!(config.initial_backoff_ms, 500);
}

#[test]
fn retry_plan_uses_chain_override() {
    let override_config = RetryClientConfig {
        rate_limit_retries: 2,
        timeout_retries: 1,
        initial_backoff_ms: 50,
    };
    let chain = Chain::Custom {
        id: 1,
        assert_chain_id: true,
        retry_config: Some(override_config),
    };
    let factory = AbiProvider::new(String::from("http://localhost:8545"), chain);
    let plan = factory.connection_plan(Transport::Retry).unwrap();
    match plan.endpoint {
        Endpoint::Retry(_, config) => assert_eq!(config, override_config),
        _ => panic!("expected a retry endpoint"),
    }
    assert_eq!(plan.expected_chain_id, Some(1));
}

#[test]
fn end_to_end_retry_with_chain_assertion() {
    // Build a retry-wrapped request/response plan for chain id 1 with the
    // default retry configuration, then decide the chain-id check as the
    // caller would after connecting.
    let factory = AbiProvider::new(String::from("http://localhost:8545"), Chain::Id(1));
    let plan = factory.connection_plan(Transport::Retry).unwrap();
    let expected = plan.expected_chain_id.expect("chain assertion requested");
    assert_eq!(expected, 1);
    match &plan.endpoint {
        Endpoint::Retry(url, config) => {
            assert_eq!(url.as_str(), "http://localhost:8545/");
            assert_eq!(*config, RetryClientConfig::default());
        }
        _ => panic!("expected a retry endpoint"),
    }

    // The node reports id 1: success.
    assert!(check_chain_id(expected, U256::from_u64(1)).is_ok());

    // The node reports id 5: failure carrying (expected = 1, actual = 5).
    match check_chain_id(expected, U256::from_u64(5)) {
        Err(Error::ChainIdError {
            expected: e,
            actual,
        }) => {
            assert_eq!(e, 1);
            assert_eq!(actual, U256 { high: 0, low: 5 });
        }
        other => panic!("expected a chain-id error, got {:?}", other),
    }
}

#[test]
fn chain_accessors() {
    let chain = Chain::Id(42);
    assert_eq!(chain.id(), 42);
    assert!(chain.assert_chain_id());
    assert_eq!(chain.retry_client_config(), RetryClientConfig::default());

    let custom = Chain::Custom {
        id: 7,
        assert_chain_id: false,
        retry_config: None,
    };
    assert_eq!(custom.id(), 7);
    assert!(!custom.assert_chain_id());
    assert_eq!(custom.retry_client_config(), RetryClientConfig::default());
}
