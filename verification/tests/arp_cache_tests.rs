use angryether::address::NetworkAddress;
use angryether::arp_cache::{parse_address, read_system_arp_cache};

const TABLE: &[u8] = b"IP address       HW type     Flags       HW address            Mask     Device\n\
192.168.1.1      0x1         0x2         aa:bb:cc:dd:ee:ff     *        eth0\n\
192.168.1.7      0x1         0x0         00:00:00:00:00:00     *        eth0\n\
192.168.1.9      0x1         0x2         11:22:33:44:55:66     *        eth0\r\n\
not.an.address   0x1         0x2         11:22:33:44:55:67     *        eth0\n\
192.168.1.10     0x1         0x2\n\
192.168.1.11     0x1         0x2         1122334455667788a     *        eth0\n\
192.168.1.12     0x1         0x2         11:22:33:44:55        *        eth0\n\
192.168.1.1      0x1         0x2         0a:0b:0c:0d:0e:0f     *        wlan0\n";

#[test]
fn the_cache_is_read_from_its_text() {
    let cache = read_system_arp_cache(TABLE);
    assert_eq!(cache.len(), 2);
    let first = NetworkAddress::from_octets(192, 168, 1, 1).0;
    let second = NetworkAddress::from_octets(192, 168, 1, 9).0;
    assert_eq!(cache[&first], "0a:0b:0c:0d:0e:0f");
    assert_eq!(cache[&second], "11:22:33:44:55:66");
}

#[test]
fn the_header_line_is_passed_over() {
    let only_header = b"192.168.1.1 0x1 0x2 aa:bb:cc:dd:ee:ff * eth0\n";
    assert!(read_system_arp_cache(only_header).is_empty());
    assert!(read_system_arp_cache(b"").is_empty());
    let two = b"header\n192.168.1.1 0x1 0x2 aa:bb:cc:dd:ee:ff * eth0";
    assert_eq!(read_system_arp_cache(two).len(), 1);
}

#[test]
fn addresses_are_four_numbers_with_full_stops() {
    assert_eq!(parse_address(b"192.168.1.1"), Some(NetworkAddress::from_octets(192, 168, 1, 1)));
    assert_eq!(parse_address(b"0.0.0.0"), Some(NetworkAddress(0)));
    assert_eq!(parse_address(b"255.255.255.255"), Some(NetworkAddress(0xffff_ffff)));
    for text in [
        &b"256.1.1.1"[..],
        b"1.2.3",
        b"1.2.3.4.5",
        b"1..3.4",
        b"01.2.3.4",
        b"1.2.3.04",
        b"1.2.3.4 ",
        b"a.b.c.d",
        b"",
        b"1.2.3.",
        b"+1.2.3.4",
        b"0001.2.3.4",
    ] {
        assert_eq!(parse_address(text), None);
    }
}

#[test]
fn addresses_are_read_as_the_standard_parser_reads_them() {
    for text in [
        "192.168.1.1", "0.0.0.0", "255.255.255.255", "256.1.1.1", "1.2.3", "1.2.3.4.5", "1..3.4",
        "01.2.3.4", "1.2.3.04", "1.2.3.4 ", "a.b.c.d", "", "1.2.3.", "+1.2.3.4", "0001.2.3.4",
        "10.0.0.255", "1.2.3.4.", ".1.2.3.4", "1.2.3.-4", "999.999.999.999", "1.2.3.4\n",
    ] {
        let theirs = text.parse::<core::net::Ipv4Addr>().ok().map(u32::from);
        let ours = parse_address(text.as_bytes()).map(|a| a.0);
        assert_eq!(ours, theirs, "{:?}", text);
    }
}
