use ostrich_protocol::route::{
    forward_row, route_add_result, to_network_order, RouteError, ERROR_ACCESS_DENIED,
    ERROR_INVALID_PARAMETER, ERROR_NOT_SUPPORTED, MIB_IPPROTO_NETMGMT, MIB_IPROUTE_TYPE_DIRECT,
};

#[test]
fn network_order() {
    assert_eq!(to_network_order(0xc0a8_0001), [192, 168, 0, 1]);
    assert_eq!(to_network_order(0), [0, 0, 0, 0]);
}

#[test]
fn row_for_a_direct_route() {
    let row = forward_row(0x0a00_0000, 0xff00_0000, 12);
    assert_eq!(row.dest, [10, 0, 0, 0]);
    assert_eq!(row.mask, [255, 0, 0, 0]);
    assert_eq!(row.if_index, 12);
    assert_eq!(row.forward_type, MIB_IPROUTE_TYPE_DIRECT);
    assert_eq!(row.proto, MIB_IPPROTO_NETMGMT);
    assert_eq!(row.metric1, 99);
    assert_eq!(row.metric2, u32::MAX);
    assert_eq!(row.metric5, u32::MAX);
    assert_eq!(row.next_hop, 0);
    assert_eq!(row.policy, 0);
}

#[test]
fn helper_answers() {
    assert_eq!(route_add_result(0), Ok(()));
    assert_eq!(route_add_result(ERROR_INVALID_PARAMETER), Err(RouteError::InvalidParameter));
    assert_eq!(route_add_result(ERROR_NOT_SUPPORTED), Err(RouteError::NotSupported));
    assert_eq!(route_add_result(ERROR_ACCESS_DENIED), Err(RouteError::AccessDenied));
    assert_eq!(route_add_result(1234), Err(RouteError::Unknown));
    assert_eq!(RouteError::AccessDenied.message(), "access denied");
    assert_eq!(RouteError::Unknown.message(), "unknown");
}
