use p2p_vpn::subnet::{mask_to_string, virtual_ip_from};

#[test]
fn mask_of_24_bits() {
    assert_eq!(mask_to_string(24), "255.255.255.0");
}

#[test]
fn masks_at_the_ends() {
    assert_eq!(mask_to_string(0), "0.0.0.0");
    assert_eq!(mask_to_string(32), "255.255.255.255");
}

#[test]
fn masks_within_an_octet() {
    assert_eq!(mask_to_string(1), "128.0.0.0");
    assert_eq!(mask_to_string(7), "254.0.0.0");
    assert_eq!(mask_to_string(9), "255.128.0.0");
    assert_eq!(mask_to_string(20), "255.255.240.0");
    assert_eq!(mask_to_string(31), "255.255.255.254");
}

#[test]
fn every_mask_has_its_leading_bits_set() {
    for mask in 0u8..=32 {
        let expected: u32 = if mask == 0 { 0 } else { u32::MAX << (32 - mask) };
        let b = expected.to_be_bytes();
        assert_eq!(
            mask_to_string(mask),
            format!("{}.{}.{}.{}", b[0], b[1], b[2], b[3])
        );
    }
}

#[test]
fn addresses_from_bytes() {
    assert_eq!(virtual_ip_from(0), "10.0.0.1");
    assert_eq!(virtual_ip_from(41), "10.0.0.42");
    assert_eq!(virtual_ip_from(252), "10.0.0.253");
    assert_eq!(virtual_ip_from(253), "10.0.0.1");
    assert_eq!(virtual_ip_from(255), "10.0.0.3");
}
