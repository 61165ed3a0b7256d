//! Address derivation and the shared value types.

use aether::net::{
    default_gateway, eui64_from_device_id, site_local_address, Ipv6Address, PAN_ID,
};

#[test]
fn eui64_layout_from_device_words() {
    // First word big-endian, the FF FE marker, then the high half of
    // the second word big-endian.
    let eui = eui64_from_device_id(0x1122_3344, 0x5566_aaaa);
    assert_eq!(eui.0, [0x11, 0x22, 0x33, 0x44, 0xff, 0xfe, 0x55, 0x66]);
}

#[test]
fn site_local_address_embeds_pan_and_eui() {
    let eui = eui64_from_device_id(0x1122_3344, 0x5566_aaaa);
    let addr = site_local_address(PAN_ID, &eui);
    assert_eq!(
        addr.0,
        [
            0xfd, 0x00, 0x1e, 0xaf, 0x00, 0x00, 0x00, 0x00, 0x11, 0x22, 0x33, 0x44, 0xff, 0xfe,
            0x55, 0x66
        ]
    );
}

#[test]
fn default_gateway_is_the_configured_upstream() {
    let gw = default_gateway();
    assert_eq!(
        gw.0,
        [0xfd, 0x00, 0x1e, 0xaf, 0, 0, 0, 0, 0, 0, 0, 0, 0, 0, 0, 0x01]
    );
}

#[test]
fn unspecified_address_detection() {
    assert!(Ipv6Address([0; 16]).is_unspecified());
    let mut one = [0u8; 16];
    one[15] = 1;
    assert!(!Ipv6Address(one).is_unspecified());
}

#[test]
fn address_equality_is_by_bytes() {
    let a = Ipv6Address([7; 16]);
    let b = Ipv6Address([7; 16]);
    let c = Ipv6Address([8; 16]);
    assert_eq!(a, b);
    assert_ne!(a, c);
}
