use blutgang::balancer::selection::selection::publish_index;
use blutgang::balancer::selection::selection::{argsort, pick};
use blutgang::rpc::types::Rpc;

fn rpc_with_latency(latency: u64, max_consecutive: u32) -> Rpc {
    let mut rpc = Rpc::default();
    rpc.status.latency = latency;
    rpc.max_consecutive = max_consecutive;
    rpc
}

#[test]
fn test_sort_algo() {
    let rpc1 = rpc_with_latency(1, 0);
    let rpc2 = rpc_with_latency(2, 0);
    let rpc3 = rpc_with_latency(3, 0);
    let v = vec![rpc2, rpc3, rpc1];
    let vx: Vec<Rpc> = v.iter().map(|r| r.duplicate()).collect();
    let i = argsort(&v);
    assert_eq!(i, &[2, 0, 1]);
    assert_eq!(v[0].url, vx[0].url);
}

#[test]
fn argsort_keeps_ties_in_list_order() {
    let v = vec![rpc_with_latency(5, 0), rpc_with_latency(1, 0), rpc_with_latency(5, 0), rpc_with_latency(1, 0)];
    assert_eq!(argsort(&v), vec![1, 3, 0, 2]);
}

#[test]
fn pick_on_empty_and_single_lists() {
    let mut empty: Vec<Rpc> = Vec::new();
    assert_eq!(pick(&mut empty).1, None);
    let mut one = vec![rpc_with_latency(4, 1)];
    assert_eq!(pick(&mut one).1, Some(0));
    assert_eq!(one[0].consecutive, 0);
}

#[test]
fn pick_serves_the_fastest_until_its_run_is_full() {
    let mut list = vec![rpc_with_latency(1, 2), rpc_with_latency(6, 2), rpc_with_latency(3, 2)];
    assert_eq!(pick(&mut list).1, Some(0));
    assert_eq!(list[0].consecutive, 1);
    assert_eq!(pick(&mut list).1, Some(0));
    assert_eq!(list[0].consecutive, 2);
    // The fastest node has served its two requests in a row: the next
    // fastest takes over and the run starts again.
    assert_eq!(pick(&mut list).1, Some(2));
    assert_eq!(list[0].consecutive, 0);
    assert_eq!(list[2].consecutive, 1);
    assert_eq!(pick(&mut list).1, Some(0));
    assert_eq!(list[0].consecutive, 1);
}

#[test]
fn published_index_changes() {
    let mut published = None;
    assert!(publish_index(&mut published, Some(1), 0, 2));
    assert_eq!(published, Some(1));
    assert!(!publish_index(&mut published, Some(1), 2, 2));
    // The same position in a list of another length may be another node.
    assert!(publish_index(&mut published, Some(1), 2, 3));
    assert!(publish_index(&mut published, None, 3, 3));
    assert_eq!(published, None);
}

#[test]
fn pick_returns_the_node_it_picked() {
    let mut list = vec![rpc_with_latency(10, 5), rpc_with_latency(5, 5)];
    let (rpc, position) = pick(&mut list);
    assert_eq!(position, Some(1));
    assert_eq!(rpc.status.latency, 5);
    assert_eq!(rpc.consecutive, 1);
    let mut empty: Vec<Rpc> = vec![];
    let (blank, none) = pick(&mut empty);
    assert_eq!(none, None);
    assert!(blank.url.is_empty());
}

#[test]
fn test_pick() {
    let rpc1 = rpc_with_latency(1, 10);
    let rpc2 = rpc_with_latency(6, 10);
    let rpc3 = rpc_with_latency(3, 10);
    let mut rpc_list = vec![rpc1, rpc2, rpc3];

    let (rpc, index) = pick(&mut rpc_list);
    assert_eq!(rpc.status.latency, 1);
    assert_eq!(index, Some(0));

    // The fastest node serves up to `max_consecutive` requests in a row.
    for served in 2..=10 {
        let (rpc, index) = pick(&mut rpc_list);
        assert_eq!(rpc.status.latency, 1);
        assert_eq!(index, Some(0));
        assert_eq!(rpc_list[0].consecutive, served);
    }

    // Then the second fastest takes one request and the run starts again.
    let (rpc, index) = pick(&mut rpc_list);
    assert_eq!(rpc.status.latency, 3);
    assert_eq!(index, Some(2));
    assert_eq!(rpc_list[0].consecutive, 0);

    let (rpc, index) = pick(&mut rpc_list);
    assert_eq!(rpc.status.latency, 1);
    assert_eq!(index, Some(0));
}
