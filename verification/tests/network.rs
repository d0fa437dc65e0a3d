use distributed_neural_network::network::{
    AttemptOutcome, ConnectProgress, Endpoint, EndpointV4, EndpointV6, NetworkManager,
};
use distributed_neural_network::retry::{next_attempt, RetryDecision, RetryPolicy};

fn endpoint(text: &str) -> Endpoint {
    let (ip, port) = text.split_once(':').unwrap();
    let bytes: Vec<u32> = ip.split('.').map(|part| part.parse().unwrap()).collect();
    assert_eq!(bytes.len(), 4);
    Endpoint::V4(EndpointV4 {
        ip: (bytes[0] << 24) | (bytes[1] << 16) | (bytes[2] << 8) | bytes[3],
        port: port.parse().unwrap(),
    })
}

#[test]
fn test_connect_to_node() {
    let mut network_manager = NetworkManager::new();
    let test_address = endpoint("127.0.0.1:8080");
    let policy = RetryPolicy { max_attempts: 3, base_delay_ms: 0, exponential: false, max_delay_ms: 0 };

    // No server at this address: every attempt fails or times out.
    let mut progress = NetworkManager::begin_connect(&policy);
    let mut attempts = 0;
    while let ConnectProgress::Retry { number, .. } = progress {
        attempts += 1;
        assert_eq!(number, attempts);
        let outcome = if number % 2 == 0 { AttemptOutcome::TimedOut } else { AttemptOutcome::Failed };
        progress = network_manager.connect_to_node(test_address, &policy, number, outcome);
    }
    let result = match progress {
        ConnectProgress::Connected => Ok(()),
        _ => Err("Failed to connect after retries"),
    };
    assert!(result.is_err());
    assert_eq!(attempts, 3);
    assert!(!network_manager.is_connected(test_address));
}

#[test]
fn test_disconnect_node() {
    let mut network_manager = NetworkManager::new();
    let test_address = endpoint("127.0.0.1:8080");
    let policy = RetryPolicy { max_attempts: 1, base_delay_ms: 0, exponential: false, max_delay_ms: 0 };
    network_manager.connect_to_node(test_address, &policy, 1, AttemptOutcome::Connected);

    network_manager.disconnect_node(test_address);
    assert!(!network_manager.is_connected(test_address));
}

#[test]
fn test_list_connected_nodes() {
    let mut network_manager = NetworkManager::new();
    let test_address = endpoint("127.0.0.1:8080");
    let policy = RetryPolicy { max_attempts: 1, base_delay_ms: 0, exponential: false, max_delay_ms: 0 };
    network_manager.connect_to_node(test_address, &policy, 1, AttemptOutcome::Connected);

    let nodes = network_manager.list_connected_nodes();
    assert_eq!(nodes.len(), 1);
    assert_eq!(nodes[0], test_address);
}

#[test]
fn success_connects_and_ends_the_retries() {
    let mut nm = NetworkManager::new();
    let policy = RetryPolicy { max_attempts: 3, base_delay_ms: 10, exponential: true, max_delay_ms: 1_000 };
    let a = endpoint("10.0.0.1:5672");
    assert_eq!(
        nm.connect_to_node(a, &policy, 1, AttemptOutcome::TimedOut),
        ConnectProgress::Retry { number: 2, delay_ms: 10 }
    );
    assert_eq!(nm.connect_to_node(a, &policy, 2, AttemptOutcome::Connected), ConnectProgress::Connected);
    assert!(nm.is_connected(a));
    assert!(nm.disconnect_node(a));
    assert!(!nm.disconnect_node(a));
}

#[test]
fn peers_are_told_apart_by_address_and_port() {
    let mut nm = NetworkManager::new();
    let policy = RetryPolicy { max_attempts: 1, base_delay_ms: 0, exponential: false, max_delay_ms: 0 };
    for text in ["10.0.0.2:80", "10.0.0.1:81", "10.0.0.1:80", "0.0.0.0:0", "255.255.255.255:65535"] {
        nm.connect_to_node(endpoint(text), &policy, 1, AttemptOutcome::Connected);
    }
    nm.connect_to_node(endpoint("10.0.0.1:80"), &policy, 1, AttemptOutcome::Connected);
    let listed = nm.list_connected_nodes();
    // Each peer once, in the order in which it was connected.
    assert_eq!(
        listed,
        vec![
            endpoint("10.0.0.2:80"),
            endpoint("10.0.0.1:81"),
            endpoint("10.0.0.1:80"),
            endpoint("0.0.0.0:0"),
            endpoint("255.255.255.255:65535"),
        ]
    );
    assert_eq!(nm.len(), 5);
    assert!(!nm.is_connected(endpoint("10.0.0.2:81")));
}

#[test]
fn retries_are_bounded_and_backoff_doubles_up_to_the_cap() {
    let policy = RetryPolicy { max_attempts: 6, base_delay_ms: 100, exponential: true, max_delay_ms: 500 };
    let delays: Vec<RetryDecision> = (0..8).map(|f| next_attempt(&policy, f)).collect();
    assert_eq!(
        delays,
        vec![
            RetryDecision::Attempt { number: 1, delay_ms: 0 },
            RetryDecision::Attempt { number: 2, delay_ms: 100 },
            RetryDecision::Attempt { number: 3, delay_ms: 200 },
            RetryDecision::Attempt { number: 4, delay_ms: 400 },
            RetryDecision::Attempt { number: 5, delay_ms: 500 },
            RetryDecision::Attempt { number: 6, delay_ms: 500 },
            RetryDecision::GiveUp,
            RetryDecision::GiveUp,
        ]
    );
    let fixed = RetryPolicy { max_attempts: 3, base_delay_ms: 700, exponential: false, max_delay_ms: 500 };
    assert_eq!(next_attempt(&fixed, 1), RetryDecision::Attempt { number: 2, delay_ms: 500 });
    assert_eq!(next_attempt(&fixed, 2), RetryDecision::Attempt { number: 3, delay_ms: 500 });
    let none = RetryPolicy { max_attempts: 0, base_delay_ms: 0, exponential: false, max_delay_ms: 0 };
    assert_eq!(next_attempt(&none, 0), RetryDecision::GiveUp);
    assert_eq!(NetworkManager::begin_connect(&none), ConnectProgress::Failed);
    let huge = RetryPolicy { max_attempts: u32::MAX, base_delay_ms: u64::MAX / 2 + 1, exponential: true, max_delay_ms: u64::MAX };
    assert_eq!(next_attempt(&huge, 2), RetryDecision::Attempt { number: 3, delay_ms: u64::MAX });
    assert_eq!(next_attempt(&huge, 1), RetryDecision::Attempt { number: 2, delay_ms: u64::MAX / 2 + 1 });
}

#[test]
fn peers_of_both_families_are_held() {
    let mut nm = NetworkManager::new();
    let policy = RetryPolicy { max_attempts: 1, base_delay_ms: 0, exponential: false, max_delay_ms: 0 };
    let loopback6 = Endpoint::V6(EndpointV6 { ip: 1, port: 8080, flowinfo: 0, scope_id: 0 });
    let scoped6 = Endpoint::V6(EndpointV6 { ip: 1, port: 8080, flowinfo: 0, scope_id: 3 });
    let loopback4 = Endpoint::V4(EndpointV4 { ip: 1, port: 8080 });
    for peer in [loopback6, loopback4, scoped6, loopback6] {
        assert_eq!(
            nm.connect_to_node(peer, &policy, 1, AttemptOutcome::Connected),
            ConnectProgress::Connected
        );
    }
    assert_eq!(nm.list_connected_nodes(), vec![loopback6, loopback4, scoped6]);
    assert!(nm.is_connected(scoped6));
    assert!(!nm.is_connected(Endpoint::V6(EndpointV6 { ip: 1, port: 8081, flowinfo: 0, scope_id: 0 })));
    assert!(!nm.is_connected(Endpoint::V6(EndpointV6 { ip: 1, port: 8080, flowinfo: 7, scope_id: 0 })));
    assert!(nm.disconnect_node(loopback6));
    assert!(!nm.disconnect_node(loopback6));
    assert_eq!(nm.list_connected_nodes(), vec![loopback4, scoped6]);
    let far6 = Endpoint::V6(EndpointV6 {
        ip: u128::MAX,
        port: u16::MAX,
        flowinfo: u32::MAX,
        scope_id: u32::MAX,
    });
    nm.connect_to_node(far6, &policy, 1, AttemptOutcome::Connected);
    assert!(nm.is_connected(far6));
    assert_eq!(nm.len(), 3);
}
