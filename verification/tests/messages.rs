use dhcproto::v4;
use dhcproto::Encodable;
use rlease::addr::{mask_to_prefix, prefix_to_dotted, Ipv4Addr};
use rlease::lease::Lease;
use rlease::reply::{
    lease_from, match_reply, msg_type, opt_dns, opt_lease_secs, opt_routers, opt_server_id,
    opt_subnet, opt_t1, opt_t2, receive, sort_reply, Arrival, DhcpReply, MessageType, Reception,
    Reply,
};
use rlease::request::{
    build_decline, build_discover, build_init_reboot, build_release, build_renew, build_request,
    decline_packet, discover_packet, encode_msg, init_reboot_packet, release_packet, renew_packet,
    request_packet, set_hostname,
};

fn chaddr() -> Vec<u8> {
    vec![0x02, 0x00, 0x00, 0x00, 0x00, 0x01]
}

fn lease() -> Lease {
    Lease {
        ip: Ipv4Addr::new(10, 0, 2, 15),
        prefix: 24,
        routers: vec![Ipv4Addr::new(10, 0, 2, 2)],
        dns: vec![],
        server: Ipv4Addr::new(10, 0, 2, 2),
        lease_secs: 3600,
        t1_secs: 1800,
        t2_secs: 3600,
    }
}

fn from_server(xid: u32, kind: v4::MessageType) -> v4::Message {
    let mut msg = v4::Message::default();
    msg.set_opcode(v4::Opcode::BootReply)
        .set_xid(xid)
        .set_yiaddr([10, 0, 2, 15]);
    msg.opts_mut().insert(v4::DhcpOption::MessageType(kind));
    msg
}

fn full_reply(xid: u32, kind: v4::MessageType) -> v4::Message {
    let mut msg = from_server(xid, kind);
    let opts = msg.opts_mut();
    opts.insert(v4::DhcpOption::ServerIdentifier([10, 0, 2, 2].into()));
    opts.insert(v4::DhcpOption::SubnetMask([255, 255, 0, 0].into()));
    opts.insert(v4::DhcpOption::Router(vec![[10, 0, 2, 2].into(), [10, 0, 2, 3].into()]));
    opts.insert(v4::DhcpOption::DomainNameServer(vec![[1, 1, 1, 1].into()]));
    opts.insert(v4::DhcpOption::AddressLeaseTime(7200));
    opts.insert(v4::DhcpOption::Renewal(100));
    opts.insert(v4::DhcpOption::Rebinding(200));
    msg
}

fn decoded(bytes: &[u8]) -> v4::Message {
    v4::Decodable::decode(&mut v4::Decoder::new(bytes)).expect("decode")
}

#[test]
fn mask_to_prefix_slash24() {
    assert_eq!(mask_to_prefix(Ipv4Addr::new(255, 255, 255, 0)), 24);
}

#[test]
fn mask_to_prefix_slash32() {
    assert_eq!(mask_to_prefix(Ipv4Addr::new(255, 255, 255, 255)), 32);
}

#[test]
fn prefix_to_dotted_roundtrip() {
    assert_eq!(prefix_to_dotted(24), "255.255.255.0");
    assert_eq!(prefix_to_dotted(16), "255.255.0.0");
    assert_eq!(prefix_to_dotted(0), "0.0.0.0");
}

#[test]
fn discover_is_boot_requst_with_hostname() {
    let chaddr = chaddr();
    let msg = build_discover(0xdeadbeef, &chaddr, Some("northstar"));
    assert_eq!(msg.xid(), 0xdeadbeef);
    assert_eq!(msg_type(&msg), Some(MessageType::Discover));
    match msg.opts().get(v4::OptionCode::Hostname) {
        Some(v4::DhcpOption::Hostname(h)) => assert_eq!(h, "northstar"),
        other => panic!("expected Hostname, got {other:?}"),
    }
    let bytes = encode_msg(&msg).expect("encode");
    assert!(!bytes.is_empty());
}

#[test]
fn request_has_requested_ip_and_server_id() {
    let chaddr = chaddr();
    let yi = Ipv4Addr::new(10, 0, 2, 15);
    let srv = Ipv4Addr::new(10, 0, 2, 2);
    let msg = build_request(1, &chaddr, yi, srv, None);
    assert_eq!(msg_type(&msg), Some(MessageType::Request));
    match msg.opts().get(v4::OptionCode::RequestedIpAddress) {
        Some(v4::DhcpOption::RequestedIpAddress(a)) => assert_eq!(a.octets(), yi.octets()),
        other => panic!("expected RequestedIpAddress, got {other:?}"),
    }
    match msg.opts().get(v4::OptionCode::ServerIdentifier) {
        Some(v4::DhcpOption::ServerIdentifier(a)) => assert_eq!(a.octets(), srv.octets()),
        other => panic!("expected ServerIdentifier, got {other:?}"),
    }
}

#[test]
fn init_reboot_has_no_server_id() {
    let chaddr = chaddr();
    let msg = build_init_reboot(1, &chaddr, Ipv4Addr::new(10, 0, 2, 15), None);
    assert_eq!(msg_type(&msg), Some(MessageType::Request));
    assert!(msg.opts().get(v4::OptionCode::ServerIdentifier).is_none());
}

#[test]
fn decline_message_type() {
    let chaddr = chaddr();
    let msg = build_decline(
        1,
        &chaddr,
        Ipv4Addr::new(10, 0, 2, 15),
        Ipv4Addr::new(10, 0, 2, 2),
    );
    assert_eq!(msg_type(&msg), Some(MessageType::Decline));
}

#[test]
fn release_message_type() {
    let lease = lease();
    let chaddr = chaddr();
    let msg = build_release(1, &chaddr, &lease);
    assert_eq!(msg_type(&msg), Some(MessageType::Release));
}

#[test]
fn set_hostname_skips_empty() {
    let mut msg = v4::Message::default();
    set_hostname(&mut msg, Some(""));
    assert!(msg.opts().get(v4::OptionCode::Hostname).is_none());
    set_hostname(&mut msg, Some("box"));
    assert!(msg.opts().get(v4::OptionCode::Hostname).is_some());
}

#[test]
fn discover_bytes_are_exact() {
    let bytes = discover_packet(0x01020304, &chaddr(), Some("ab"));
    let mut want = vec![1, 1, 6, 0, 1, 2, 3, 4, 0, 0, 0x80, 0];
    want.extend([0; 16]);
    want.extend([2, 0, 0, 0, 0, 1]);
    want.extend([0; 10 + 64 + 128]);
    want.extend([99, 130, 83, 99]);
    want.extend([12, 2, b'a', b'b']);
    want.extend([53, 1, 1]);
    want.extend([55, 4, 1, 3, 6, 15]);
    want.extend([61, 6, 2, 0, 0, 0, 0, 1]);
    want.push(255);
    assert_eq!(bytes, want);
}

#[test]
fn request_bytes_name_address_and_server() {
    let bytes = request_packet(
        7,
        &chaddr(),
        Ipv4Addr::new(10, 0, 2, 15),
        Ipv4Addr::new(10, 0, 2, 2),
        None,
    );
    let want: Vec<u8> = vec![
        50, 4, 10, 0, 2, 15, 53, 1, 3, 54, 4, 10, 0, 2, 2, 55, 4, 1, 3, 6, 15, 61, 6, 2, 0, 0, 0,
        0, 1, 255,
    ];
    assert_eq!(&bytes[240..], &want[..]);
    assert_eq!(&bytes[10..12], &[0x80, 0]);
}

#[test]
fn decline_bytes_name_address_and_server() {
    let bytes = decline_packet(
        7,
        &chaddr(),
        Ipv4Addr::new(10, 0, 2, 15),
        Ipv4Addr::new(10, 0, 2, 2),
    );
    let want: Vec<u8> = vec![
        50, 4, 10, 0, 2, 15, 53, 1, 4, 54, 4, 10, 0, 2, 2, 61, 6, 2, 0, 0, 0, 0, 1, 255,
    ];
    assert_eq!(&bytes[240..], &want[..]);
}

#[test]
fn init_reboot_bytes_name_no_server() {
    let bytes = init_reboot_packet(7, &chaddr(), Ipv4Addr::new(10, 0, 2, 15), Some("h"));
    let want: Vec<u8> = vec![
        12, 1, b'h', 50, 4, 10, 0, 2, 15, 53, 1, 3, 55, 4, 1, 3, 6, 15, 61, 6, 2, 0, 0, 0, 0, 1,
        255,
    ];
    assert_eq!(&bytes[240..], &want[..]);
}

#[test]
fn renewal_comes_from_the_leased_address() {
    let bytes = renew_packet(7, &chaddr(), &lease(), None);
    assert_eq!(&bytes[10..16], &[0, 0, 10, 0, 2, 15]);
    let want: Vec<u8> = vec![53, 1, 3, 55, 4, 1, 3, 6, 15, 61, 6, 2, 0, 0, 0, 0, 1, 255];
    assert_eq!(&bytes[240..], &want[..]);
    let msg = build_renew(7, &chaddr(), &lease(), Some("x"));
    assert!(msg.opts().get(v4::OptionCode::RequestedIpAddress).is_none());
    assert!(msg.opts().get(v4::OptionCode::Hostname).is_some());
}

#[test]
fn release_bytes_name_the_server() {
    let bytes = release_packet(7, &chaddr(), &lease());
    assert_eq!(&bytes[10..16], &[0, 0, 10, 0, 2, 15]);
    let want: Vec<u8> = vec![53, 1, 7, 54, 4, 10, 0, 2, 2, 61, 6, 2, 0, 0, 0, 0, 1, 255];
    assert_eq!(&bytes[240..], &want[..]);
}

#[test]
fn hardware_address_is_cut_to_sixteen_bytes() {
    let long: Vec<u8> = (1..=20).collect();
    let bytes = discover_packet(1, &long, None);
    assert_eq!(bytes[2], 16);
    assert_eq!(&bytes[28..44], &long[..16]);
    let msg = decoded(&bytes);
    match msg.opts().get(v4::OptionCode::ClientIdentifier) {
        Some(v4::DhcpOption::ClientIdentifier(b)) => assert_eq!(b, &long),
        other => panic!("expected ClientIdentifier, got {other:?}"),
    }
}

#[test]
fn empty_client_identifier_is_not_written() {
    let bytes = release_packet(1, &[], &lease());
    assert_eq!(bytes[2], 0);
    assert_eq!(&bytes[240..], &[53, 1, 7, 54, 4, 10, 0, 2, 2, 255]);
}

#[test]
fn what_was_sent_reads_back() {
    let name = "n".repeat(300);
    let msg = build_discover(9, &chaddr(), Some(&name));
    let bytes = discover_packet(9, &chaddr(), Some(&name));
    let back = decoded(&bytes);
    assert_eq!(back.opts(), msg.opts());
    assert_eq!(back.xid(), 9);
    match back.opts().get(v4::OptionCode::Hostname) {
        Some(v4::DhcpOption::Hostname(h)) => assert_eq!(h, &name),
        other => panic!("expected Hostname, got {other:?}"),
    }
}

#[test]
fn hostname_replaces_an_earlier_one() {
    let mut msg = v4::Message::default();
    set_hostname(&mut msg, Some("one"));
    set_hostname(&mut msg, None);
    set_hostname(&mut msg, Some("two"));
    assert_eq!(msg.opts().len(), 1);
    match msg.opts().get(v4::OptionCode::Hostname) {
        Some(v4::DhcpOption::Hostname(h)) => assert_eq!(h, "two"),
        other => panic!("expected Hostname, got {other:?}"),
    }
}

#[test]
fn options_are_read_by_kind() {
    let msg = full_reply(5, v4::MessageType::Ack);
    assert_eq!(msg_type(&msg), Some(MessageType::Ack));
    assert_eq!(opt_server_id(&msg), Some(Ipv4Addr::new(10, 0, 2, 2)));
    assert_eq!(opt_subnet(&msg), Some(Ipv4Addr::new(255, 255, 0, 0)));
    assert_eq!(
        opt_routers(&msg),
        vec![Ipv4Addr::new(10, 0, 2, 2), Ipv4Addr::new(10, 0, 2, 3)]
    );
    assert_eq!(opt_dns(&msg), vec![Ipv4Addr::new(1, 1, 1, 1)]);
    assert_eq!(opt_lease_secs(&msg), Some(7200));
    assert_eq!(opt_t1(&msg), Some(100));
    assert_eq!(opt_t2(&msg), Some(200));
}

#[test]
fn missing_options_read_as_nothing() {
    let msg = v4::Message::default();
    assert_eq!(msg_type(&msg), None);
    assert_eq!(opt_server_id(&msg), None);
    assert_eq!(opt_subnet(&msg), None);
    assert!(opt_routers(&msg).is_empty());
    assert!(opt_dns(&msg).is_empty());
    assert_eq!(opt_lease_secs(&msg), None);
    assert_eq!(opt_t1(&msg), None);
    assert_eq!(opt_t2(&msg), None);
}

#[test]
fn option_of_another_kind_reads_as_nothing() {
    let mut msg = v4::Message::default();
    msg.opts_mut()
        .insert(v4::DhcpOption::Unknown(v4::UnknownOption::new(
            v4::OptionCode::MessageType,
            vec![5],
        )));
    assert!(msg.opts().get(v4::OptionCode::MessageType).is_some());
    assert_eq!(msg_type(&msg), None);
    let swapped: v4::DhcpOptions = vec![(
        v4::OptionCode::ServerIdentifier,
        v4::DhcpOption::SubnetMask([1, 2, 3, 4].into()),
    )]
    .into_iter()
    .collect();
    msg.set_opts(swapped);
    assert_eq!(opt_server_id(&msg), None);
    assert_eq!(opt_subnet(&msg), None);
}

#[test]
fn option_under_another_code_is_still_encoded() {
    let mut msg = v4::Message::default();
    let swapped: v4::DhcpOptions = vec![(
        v4::OptionCode::Unknown(82),
        v4::DhcpOption::ServerIdentifier([1, 2, 3, 4].into()),
    )]
    .into_iter()
    .collect();
    msg.set_opts(swapped);
    let bytes = encode_msg(&msg).expect("encode");
    assert_eq!(bytes, msg.to_vec().expect("encode"));
}

#[test]
fn unknown_message_type_keeps_its_number() {
    let msg = from_server(1, v4::MessageType::Inform);
    assert_eq!(msg_type(&msg), Some(MessageType::Other(8)));
}

#[test]
fn offer_ack_and_nak_are_answers() {
    let offer = full_reply(5, v4::MessageType::Offer).to_vec().expect("encode");
    match match_reply(&offer, 5) {
        Some(DhcpReply::Offer(m)) => {
            assert_eq!(m.yiaddr, Ipv4Addr::new(10, 0, 2, 15));
            assert_eq!(m.server, Some(Ipv4Addr::new(10, 0, 2, 2)));
        }
        other => panic!("expected an offer, got {other:?}"),
    }
    let ack = full_reply(5, v4::MessageType::Ack).to_vec().expect("encode");
    match match_reply(&ack, 5) {
        Some(DhcpReply::Ack(m)) => {
            assert_eq!(m.lease_secs, Some(7200));
            assert_eq!(m.t1_secs, Some(100));
            assert_eq!(m.t2_secs, Some(200));
            assert_eq!(m.dns, vec![Ipv4Addr::new(1, 1, 1, 1)]);
        }
        other => panic!("expected an acknowledgement, got {other:?}"),
    }
    let nak = from_server(5, v4::MessageType::Nak).to_vec().expect("encode");
    assert!(matches!(match_reply(&nak, 5), Some(DhcpReply::Nak)));
}

#[test]
fn other_datagrams_are_no_answers() {
    let offer = full_reply(5, v4::MessageType::Offer).to_vec().expect("encode");
    assert!(match_reply(&offer, 6).is_none());
    assert!(match_reply(&offer[..239], 5).is_none());
    assert!(match_reply(&offer[..240], 5).is_none());
    assert!(match_reply(&[], 5).is_none());
    let inform = from_server(5, v4::MessageType::Inform).to_vec().expect("encode");
    assert!(match_reply(&inform, 5).is_none());
    let discover = discover_packet(5, &chaddr(), None);
    assert!(match_reply(&discover, 5).is_none());
}

#[test]
fn overlong_options_are_passed_over() {
    let mut bytes = from_server(5, v4::MessageType::Ack).to_vec().expect("encode")[..240].to_vec();
    bytes.extend([80, 1, 9, 94, 4, 1, 2, 3, 4, 152, 5, 0, 0, 0, 0, 0, 53, 1, 5, 255]);
    assert!(matches!(match_reply(&bytes, 5), Some(DhcpReply::Ack(_))));
}

#[test]
fn too_short_options_end_the_list() {
    let head = from_server(5, v4::MessageType::Ack).to_vec().expect("encode")[..240].to_vec();
    for short in [vec![94, 1, 9], vec![155, 3, 0, 0, 0], vec![81, 2, 0, 0]] {
        let mut before = head.clone();
        before.extend([53, 1, 5]);
        before.extend(&short);
        before.extend([51, 4, 0, 0, 0, 9, 255]);
        match match_reply(&before, 5) {
            Some(DhcpReply::Ack(m)) => assert_eq!(m.lease_secs, None),
            other => panic!("expected an acknowledgement, got {other:?}"),
        }
        let mut after = head.clone();
        after.extend(&short);
        after.extend([53, 1, 5, 255]);
        assert!(match_reply(&after, 5).is_none());
    }
}

#[test]
fn only_matching_ids_are_sorted() {
    let reply = || Reply {
        yiaddr: Ipv4Addr::new(1, 2, 3, 4),
        server: None,
        subnet: None,
        routers: vec![],
        dns: vec![],
        lease_secs: None,
        t1_secs: None,
        t2_secs: None,
    };
    assert!(sort_reply(1, 2, Some(MessageType::Ack), reply()).is_none());
    assert!(sort_reply(1, 1, None, reply()).is_none());
    assert!(sort_reply(1, 1, Some(MessageType::Discover), reply()).is_none());
    assert!(matches!(
        sort_reply(1, 1, Some(MessageType::Nak), reply()),
        Some(DhcpReply::Nak)
    ));
}

#[test]
fn arrivals_are_waited_out_or_ended() {
    assert!(matches!(receive(Arrival::Late, 5), Reception::TimedOut));
    assert!(matches!(receive(Arrival::Silent, 5), Reception::TimedOut));
    assert!(matches!(receive(Arrival::Broken, 5), Reception::Failed));
    assert!(matches!(receive(Arrival::Datagram(vec![1, 2]), 5), Reception::Wait));
    let nak = from_server(5, v4::MessageType::Nak).to_vec().expect("encode");
    assert!(matches!(
        receive(Arrival::Datagram(nak.clone()), 5),
        Reception::Answer(DhcpReply::Nak)
    ));
    assert!(matches!(receive(Arrival::Datagram(nak), 4), Reception::Wait));
}

#[test]
fn sparse_acknowledgement_gets_defaults() {
    let bytes = from_server(5, v4::MessageType::Ack).to_vec().expect("encode");
    let ack = match match_reply(&bytes, 5) {
        Some(DhcpReply::Ack(m)) => m,
        other => panic!("expected an acknowledgement, got {other:?}"),
    };
    let got = lease_from(ack, None, Ipv4Addr::new(10, 0, 2, 9), 3600);
    assert_eq!(got.ip, Ipv4Addr::new(10, 0, 2, 15));
    assert_eq!(got.prefix, 24);
    assert!(got.routers.is_empty() && got.dns.is_empty());
    assert_eq!(got.server, Ipv4Addr::new(10, 0, 2, 9));
    assert_eq!((got.lease_secs, got.t1_secs, got.t2_secs), (3600, 1800, 3150));
}

#[test]
fn full_acknowledgement_is_taken_as_it_is() {
    let bytes = full_reply(5, v4::MessageType::Ack).to_vec().expect("encode");
    let ack = match match_reply(&bytes, 5) {
        Some(DhcpReply::Ack(m)) => m,
        other => panic!("expected an acknowledgement, got {other:?}"),
    };
    let held = Some(Ipv4Addr::new(9, 9, 9, 9));
    let got = lease_from(ack, held, Ipv4Addr::new(8, 8, 8, 8), 1);
    assert_eq!(got.ip, Ipv4Addr::new(10, 0, 2, 15));
    assert_eq!(got.prefix, 16);
    assert_eq!(got.server, Ipv4Addr::new(10, 0, 2, 2));
    assert_eq!((got.lease_secs, got.t1_secs, got.t2_secs), (7200, 100, 200));
}

#[test]
fn held_address_stays_where_none_is_assigned() {
    let reply = |yiaddr| Reply {
        yiaddr,
        server: None,
        subnet: None,
        routers: vec![],
        dns: vec![],
        lease_secs: Some(u32::MAX),
        t1_secs: None,
        t2_secs: None,
    };
    let zero = Ipv4Addr::new(0, 0, 0, 0);
    let held = Ipv4Addr::new(9, 9, 9, 9);
    let server = Ipv4Addr::new(8, 8, 8, 8);
    assert_eq!(lease_from(reply(zero), Some(held), server, 1).ip, held);
    let bare = lease_from(reply(zero), None, server, 1);
    assert_eq!(bare.ip, zero);
    assert_eq!((bare.t1_secs, bare.t2_secs), (u32::MAX / 2, u32::MAX / 8));
}
