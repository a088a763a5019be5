use angryether::address::{HardwareAddress, NetworkAddress};
use angryether::frame::{decode, encode_frame, OperationKind, ProbeRequest, OPERATION_REPLY};
use pnet::packet::arp::{ArpHardwareTypes, ArpOperations, ArpPacket, MutableArpPacket};
use pnet::packet::ethernet::{EtherTypes, EthernetPacket, MutableEthernetPacket};
use pnet::packet::Packet;
use pnet::util::MacAddr;

#[test]
fn request_frame_has_the_standard_layout() {
    let request = ProbeRequest {
        target: NetworkAddress::from_octets(192, 168, 1, 20),
        own_address: NetworkAddress::from_octets(192, 168, 1, 10),
        own_hardware: HardwareAddress(0x02, 0x11, 0x22, 0x33, 0x44, 0x55),
    };
    let frame = request.encode();
    let expected: Vec<u8> = vec![
        0xff, 0xff, 0xff, 0xff, 0xff, 0xff, 0x02, 0x11, 0x22, 0x33, 0x44, 0x55, 0x08, 0x06, 0x00,
        0x01, 0x08, 0x00, 0x06, 0x04, 0x00, 0x01, 0x02, 0x11, 0x22, 0x33, 0x44, 0x55, 192, 168, 1,
        10, 0, 0, 0, 0, 0, 0, 192, 168, 1, 20,
    ];
    assert_eq!(frame, expected);
}

#[test]
fn reply_for_the_target_is_read_back_with_its_address() {
    let target = NetworkAddress::from_octets(10, 0, 0, 7);
    let responder = HardwareAddress(0xde, 0xad, 0xbe, 0xef, 0x00, 0x01);
    let asker = HardwareAddress(0x02, 0, 0, 0, 0, 1);
    let frame = encode_frame(
        asker,
        responder,
        OPERATION_REPLY,
        responder,
        target,
        asker,
        NetworkAddress::from_octets(10, 0, 0, 1),
    );
    let reply = decode(&frame).unwrap();
    assert_eq!(reply.sender, target);
    assert_eq!(reply.sender_hardware, responder);
    assert_eq!(reply.operation, OperationKind::Reply);
}

#[test]
fn request_frame_is_the_one_that_the_pnet_crate_builds() {
    let own = MacAddr::new(0x02, 0x11, 0x22, 0x33, 0x44, 0x55);
    let mut ethernet_buffer = [0u8; 42];
    let mut ethernet_packet = MutableEthernetPacket::new(&mut ethernet_buffer).unwrap();
    ethernet_packet.set_destination(MacAddr::broadcast());
    ethernet_packet.set_source(own);
    ethernet_packet.set_ethertype(EtherTypes::Arp);
    let mut arp_buffer = [0u8; 28];
    let mut arp_packet = MutableArpPacket::new(&mut arp_buffer).unwrap();
    arp_packet.set_hardware_type(ArpHardwareTypes::Ethernet);
    arp_packet.set_protocol_type(EtherTypes::Ipv4);
    arp_packet.set_hw_addr_len(6);
    arp_packet.set_proto_addr_len(4);
    arp_packet.set_operation(ArpOperations::Request);
    arp_packet.set_sender_hw_addr(own);
    arp_packet.set_sender_proto_addr([192, 168, 1, 10].into());
    arp_packet.set_target_hw_addr(MacAddr::zero());
    arp_packet.set_target_proto_addr([192, 168, 1, 20].into());
    ethernet_packet.set_payload(arp_packet.packet());
    let theirs = ethernet_packet.packet().to_vec();

    let ours = ProbeRequest {
        target: NetworkAddress::from_octets(192, 168, 1, 20),
        own_address: NetworkAddress::from_octets(192, 168, 1, 10),
        own_hardware: HardwareAddress(0x02, 0x11, 0x22, 0x33, 0x44, 0x55),
    }
    .encode();
    assert_eq!(ours, theirs);
}

#[test]
fn a_reply_is_read_as_the_pnet_crate_reads_it() {
    let responder = HardwareAddress(0xde, 0xad, 0xbe, 0xef, 0x00, 0x01);
    let frame = encode_frame(
        HardwareAddress(2, 0, 0, 0, 0, 1),
        responder,
        OPERATION_REPLY,
        responder,
        NetworkAddress::from_octets(10, 0, 0, 7),
        HardwareAddress(2, 0, 0, 0, 0, 1),
        NetworkAddress::from_octets(10, 0, 0, 1),
    );
    let ethernet = EthernetPacket::new(&frame).unwrap();
    assert_eq!(ethernet.get_ethertype(), EtherTypes::Arp);
    let arp = ArpPacket::new(ethernet.payload()).unwrap();
    assert_eq!(arp.get_operation(), ArpOperations::Reply);
    let ours = decode(&frame).unwrap();
    assert_eq!(ours.sender.octets(), arp.get_sender_proto_addr().octets());
    assert_eq!(ours.sender_hardware.octets(), arp.get_sender_hw_addr().octets());
    assert_eq!(ours.operation, OperationKind::Reply);
}

#[test]
fn frames_that_are_no_address_resolution_are_not_read() {
    let frame = encode_frame(
        HardwareAddress::broadcast(),
        HardwareAddress(2, 0, 0, 0, 0, 1),
        OPERATION_REPLY,
        HardwareAddress(2, 0, 0, 0, 0, 1),
        NetworkAddress(1),
        HardwareAddress::zero(),
        NetworkAddress(2),
    );
    assert!(decode(&frame).is_some());
    assert!(decode(&frame[..41]).is_none());
    assert!(decode(&[]).is_none());
    let mut ipv4 = frame.clone();
    ipv4[13] = 0x00;
    assert!(decode(&ipv4).is_none());
    let mut longer = frame.clone();
    longer.push(0);
    assert_eq!(decode(&longer), decode(&frame));
}

#[test]
fn the_operation_is_read_from_its_code() {
    let build = |operation: u16| {
        encode_frame(
            HardwareAddress::broadcast(),
            HardwareAddress(2, 0, 0, 0, 0, 1),
            operation,
            HardwareAddress(2, 0, 0, 0, 0, 1),
            NetworkAddress(1),
            HardwareAddress::zero(),
            NetworkAddress(2),
        )
    };
    assert_eq!(decode(&build(1)).unwrap().operation, OperationKind::Request);
    assert_eq!(decode(&build(2)).unwrap().operation, OperationKind::Reply);
    assert_eq!(decode(&build(3)).unwrap().operation, OperationKind::Other(3));
    assert_eq!(decode(&build(0x0200)).unwrap().operation, OperationKind::Other(0x0200));
    assert_eq!(&build(0x0102)[20..22], &[1, 2]);
}
