use snowflake_ids::client::IdGeneratorClient;

fn pool(n: usize) -> IdGeneratorClient {
    let endpoints: Vec<String> = (0..n).map(|i| format!("http://gen{}:8080", i)).collect();
    IdGeneratorClient::new(endpoints).unwrap()
}

#[test]
fn empty_pool_is_refused() {
    assert!(IdGeneratorClient::new(Vec::new()).is_none());
}

#[test]
fn consecutive_calls_rotate() {
    let mut client = pool(3);
    assert_eq!(client.len(), 3);
    let picks: Vec<usize> = (0..7).map(|_| client.next_index()).collect();
    assert_eq!(picks, vec![0, 1, 2, 0, 1, 2, 0]);
}

#[test]
fn rotation_spreads_evenly() {
    let mut client = pool(4);
    let mut counts = [0usize; 4];
    for _ in 0..1003 {
        counts[client.next_index()] += 1;
    }
    assert_eq!(counts, [251, 251, 251, 250]);
}

#[test]
fn failed_call_does_not_hold_back_rotation() {
    let mut client = pool(3);
    let first = client.next_url();
    assert_eq!(first, "http://gen0:8080/generate");
    // The request to the first endpoint fails; the next call goes on to the second.
    let second = client.next_url();
    assert_eq!(second, "http://gen1:8080/generate");
}

#[test]
fn single_endpoint_gets_every_call() {
    let mut client = pool(1);
    for _ in 0..5 {
        assert_eq!(client.next_url(), "http://gen0:8080/generate");
    }
}

#[test]
fn endpoint_list_is_split_on_commas() {
    let mut client =
        IdGeneratorClient::from_list("http://localhost:8080,http://localhost:8081,http://localhost:8082");
    assert_eq!(client.len(), 3);
    assert_eq!(client.next_url(), "http://localhost:8080/generate");
    assert_eq!(client.next_url(), "http://localhost:8081/generate");
    assert_eq!(client.next_url(), "http://localhost:8082/generate");
    assert_eq!(client.next_url(), "http://localhost:8080/generate");
}

#[test]
fn endpoint_list_keeps_empty_pieces() {
    assert_eq!(IdGeneratorClient::from_list("").len(), 1);
    let mut client = IdGeneratorClient::from_list("a,,b");
    assert_eq!(client.len(), 3);
    assert_eq!(client.next_url(), "a/generate");
    assert_eq!(client.next_url(), "/generate");
    assert_eq!(client.next_url(), "b/generate");
}
