use angryether::address::{HardwareAddress, NetworkAddress};

#[test]
fn an_address_is_its_four_octets_most_significant_first() {
    let address = NetworkAddress::from_octets(192, 168, 1, 10);
    assert_eq!(address.0, 0xc0a8_010a);
    assert_eq!(address.octets(), [192, 168, 1, 10]);
    assert_eq!(NetworkAddress(0x0102_0304).octets(), [1, 2, 3, 4]);
    assert_eq!(NetworkAddress::from_octets(0, 0, 0, 0), NetworkAddress(0));
    assert_eq!(NetworkAddress::from_octets(255, 255, 255, 255), NetworkAddress(u32::MAX));
    for bits in [0u32, 1, 0x8000_0000, 0xdead_beef, u32::MAX] {
        let o = NetworkAddress(bits).octets();
        assert_eq!(NetworkAddress::from_octets(o[0], o[1], o[2], o[3]), NetworkAddress(bits));
        assert_eq!(o, bits.to_be_bytes());
    }
}

#[test]
fn a_hardware_address_is_its_six_octets() {
    let address = HardwareAddress(0xde, 0xad, 0xbe, 0xef, 0x00, 0x01);
    assert_eq!(address.octets(), [0xde, 0xad, 0xbe, 0xef, 0x00, 0x01]);
    assert_eq!(HardwareAddress::broadcast().octets(), [0xff; 6]);
    assert_eq!(HardwareAddress::zero().octets(), [0; 6]);
    assert_ne!(HardwareAddress::broadcast(), HardwareAddress::zero());
}
