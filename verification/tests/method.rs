use blutgang::rpc::method::{Error, EthRpcMethod};

const ALL: [EthRpcMethod; 15] = [
    EthRpcMethod::BlockNumber,
    EthRpcMethod::GetBlockByNumber,
    EthRpcMethod::Syncing,
    EthRpcMethod::GetBalance,
    EthRpcMethod::GetStorageAt,
    EthRpcMethod::GetTransactionCount,
    EthRpcMethod::GetBlockTransactionCountByNumber,
    EthRpcMethod::GetUncleCountByBlockNumber,
    EthRpcMethod::GetCode,
    EthRpcMethod::Call,
    EthRpcMethod::GetTransactionByBlockNumberAndIndex,
    EthRpcMethod::GetUncleByBlockNumberAndIndex,
    EthRpcMethod::Subscribe,
    EthRpcMethod::Unsubscribe,
    EthRpcMethod::Subscription,
];

#[test]
fn names_read_back_as_their_methods() {
    for m in ALL {
        assert_eq!(EthRpcMethod::try_from_name(Some(m.as_str())).unwrap(), m);
        assert!(m.eq_str(m.as_str()));
    }
    assert_eq!(EthRpcMethod::BlockNumber.as_str(), "eth_blockNumber");
}

#[test]
fn unknown_names_are_errors_that_list_the_known_ones() {
    let e = EthRpcMethod::try_from_name(Some("eth_chainId")).unwrap_err();
    assert_eq!(e.0, Some("eth_chainId".to_string()));
    assert_eq!(e.1.len(), 15);
    assert_eq!(e.1[0], "eth_blockNumber");
    let e = EthRpcMethod::try_from_name(None).unwrap_err();
    assert_eq!(e.0, None);
    let e: Error<u8> = Error::new(7);
    assert_eq!(e.0, 7);
    assert_eq!(e.1[14], "eth_subscription");
}

#[test]
fn block_parameter_positions() {
    assert_eq!(EthRpcMethod::get_position(Some("eth_getBalance")), Some(1));
    assert_eq!(EthRpcMethod::get_position(Some("eth_call")), Some(1));
    assert_eq!(EthRpcMethod::get_position(Some("eth_getStorageAt")), Some(2));
    assert_eq!(EthRpcMethod::get_position(Some("eth_getBlockByNumber")), Some(0));
    assert_eq!(EthRpcMethod::get_position(Some("eth_blockNumber")), None);
    assert_eq!(EthRpcMethod::get_position(Some("nope")), None);
    assert_eq!(EthRpcMethod::get_position(None), None);
}
