use aes67_tools::socket::{
    classify_interface, dscp_to_tos, parse_stream_address, AddressError, DscpOutOfRange,
    InterfaceChoice, MulticastConfig, RTP_DSCP,
};

#[test]
fn test_multicast_config() {
    let config = MulticastConfig::new([239, 192, 1, 1], 5004, [192, 168, 1, 100]);

    assert_eq!(config.multicast_addr, [239, 192, 1, 1]);
    assert_eq!(config.port, 5004);
    assert_eq!(config.local_addr, [192, 168, 1, 100]);
    assert_eq!(config.ttl, 32);
}

#[test]
fn dscp_value_converts_to_ipv4_tos_byte() {
    assert_eq!(dscp_to_tos(0).unwrap(), 0);
    assert_eq!(dscp_to_tos(34).unwrap(), 136);
    assert_eq!(dscp_to_tos(46).unwrap(), 184);
    assert!(dscp_to_tos(64).is_err());
    assert_eq!(dscp_to_tos(64), Err(DscpOutOfRange { dscp: 64 }));
    assert_eq!(dscp_to_tos(RTP_DSCP), Ok(136));
}

#[test]
fn test_socket_addresses() {
    let config = MulticastConfig::new([239, 192, 1, 1], 5004, [192, 168, 1, 100]);

    let (multicast_ip, multicast_port) = config.multicast_socket_addr();
    assert_eq!(multicast_ip, [239, 192, 1, 1]);
    assert_eq!(multicast_port, 5004);

    let (local_ip, local_port) = config.local_socket_addr();
    assert_eq!(local_ip, [192, 168, 1, 100]);
    assert_eq!(local_port, 0);
}

#[test]
fn test_interface_resolution() {
    assert_eq!(classify_interface("lo").unwrap(), InterfaceChoice::Address([127, 0, 0, 1]));
    assert_eq!(
        classify_interface("192.168.1.100").unwrap(),
        InterfaceChoice::Address([192, 168, 1, 100])
    );
}

#[test]
fn interface_names_are_trimmed_and_classified() {
    assert_eq!(classify_interface(" LoopBack ").unwrap(), InterfaceChoice::Address([127, 0, 0, 1]));
    assert_eq!(classify_interface("eth0").unwrap(), InterfaceChoice::Named("eth0".to_string()));
    assert_eq!(classify_interface("  \t"), Err(AddressError::EmptyInterface));
}

#[test]
fn test_stream_address_validation() {
    assert_eq!(parse_stream_address("239.69.67.67").unwrap(), [239, 69, 67, 67]);
    assert_eq!(parse_stream_address("127.0.0.1").unwrap(), [127, 0, 0, 1]);
    assert!(parse_stream_address("192.168.1.100").is_err());
}

#[test]
fn stream_address_errors_distinguish_syntax_from_scope() {
    assert_eq!(parse_stream_address("239.1.2"), Err(AddressError::InvalidAddress));
    assert_eq!(parse_stream_address("239.01.2.3"), Err(AddressError::InvalidAddress));
    assert_eq!(parse_stream_address("239.1.2.256"), Err(AddressError::InvalidAddress));
    assert_eq!(
        parse_stream_address("10.0.0.1"),
        Err(AddressError::NotMulticastOrLoopback { address: [10, 0, 0, 1] })
    );
    assert_eq!(parse_stream_address("224.0.0.1"), Ok([224, 0, 0, 1]));
}
