//! The messages that the client sends.

use crate::addr::{lemma_octets_compose, octets_of, Ipv4Addr};
use crate::lease::Lease;
use crate::message::{
    blank, encode, hardware_field, header_bytes, header_of, insert_option, new_message, no_options,
    options_in, options_of, plain, set_chaddr, set_ciaddr, set_flags, set_opcode,
    set_xid, wire_options, written_whole, Header, OptionValue, RequestOption, StoredOption,
    CLIENT_IDENTIFIER, DOMAIN_NAME, DOMAIN_NAME_SERVER, HOSTNAME, MESSAGE_TYPE,
    PARAMETER_REQUEST_LIST, REQUESTED_IP_ADDRESS, ROUTER, SERVER_IDENTIFIER, STATUS_CODE,
    SUBNET_MASK,
};
use dhcproto::v4;
use vstd::prelude::*;
use vstd::string::*;

verus! {

/// The operation code of everything that a client sends.
pub const BOOT_REQUEST: u8 = 1;

/// The flag by which a client asks for a broadcast reply.
pub const BROADCAST_FLAG: u16 = 0x8000;

pub const DISCOVER: u8 = 1;

pub const REQUEST: u8 = 3;

pub const DECLINE: u8 = 4;

pub const RELEASE: u8 = 7;

/// The characters of a host name, where there is one.
pub open spec fn name_of(hostname: Option<&str>) -> Option<Seq<char>> {
    match hostname {
        Some(h) => Some(h@),
        None => None,
    }
}

/// The header of a request of the client with the hardware address `chaddr`.
pub open spec fn client_header(xid: u32, chaddr: Seq<u8>, flags: u16, ciaddr: Ipv4Addr) -> Header {
    Header {
        flags,
        ciaddr,
        hlen: if chaddr.len() < 16 {
            chaddr.len() as u8
        } else {
            16
        },
        chaddr: hardware_field(chaddr),
        ..blank(xid)
    }
}

/// The header of a request that asks for a broadcast reply.
pub open spec fn broadcast_header(xid: u32, chaddr: Seq<u8>) -> Header {
    client_header(xid, chaddr, BROADCAST_FLAG, Ipv4Addr { bits: 0 })
}

/// `options` and `kind` with `value`.
pub open spec fn with(
    options: Map<u8, StoredOption>,
    kind: u8,
    value: OptionValue,
) -> Map<u8, StoredOption> {
    options.insert(kind, StoredOption { kind, value })
}

/// The options that every request has: its type and the client's identifier.
pub open spec fn base_options(number: u8, chaddr: Seq<u8>) -> Map<u8, StoredOption> {
    with(
        with(no_options(), MESSAGE_TYPE, OptionValue::MessageType(number)),
        CLIENT_IDENTIFIER,
        OptionValue::Bytes(chaddr),
    )
}

/// `options` and the host name, unless there is none or it is empty.
pub open spec fn with_hostname(
    options: Map<u8, StoredOption>,
    hostname: Option<Seq<char>>,
) -> Map<u8, StoredOption> {
    match hostname {
        Some(h) => if h.len() > 0 {
            with(options, HOSTNAME, OptionValue::Text(h))
        } else {
            options
        },
        None => options,
    }
}

/// `options` and the list of what the client wants to be told: the subnet mask, the routers, the
/// name servers and the domain name.
pub open spec fn with_list(options: Map<u8, StoredOption>) -> Map<u8, StoredOption> {
    with(
        options,
        PARAMETER_REQUEST_LIST,
        OptionValue::Codes(seq![SUBNET_MASK, ROUTER, DOMAIN_NAME_SERVER, DOMAIN_NAME]),
    )
}

/// The options of a discover.
pub open spec fn discover_options(
    chaddr: Seq<u8>,
    hostname: Option<Seq<char>>,
) -> Map<u8, StoredOption> {
    with_list(with_hostname(base_options(DISCOVER, chaddr), hostname))
}

/// The options of a request for the address `yiaddr` that `server` has offered.
pub open spec fn request_options(
    chaddr: Seq<u8>,
    yiaddr: Ipv4Addr,
    server: Ipv4Addr,
    hostname: Option<Seq<char>>,
) -> Map<u8, StoredOption> {
    with_list(
        with_hostname(
            with(
                with(
                    base_options(REQUEST, chaddr),
                    REQUESTED_IP_ADDRESS,
                    OptionValue::Address(yiaddr),
                ),
                SERVER_IDENTIFIER,
                OptionValue::Address(server),
            ),
            hostname,
        ),
    )
}

/// The options of a decline of the address `yiaddr` from `server`.
pub open spec fn decline_options(chaddr: Seq<u8>, yiaddr: Ipv4Addr, server: Ipv4Addr) -> Map<
    u8,
    StoredOption,
> {
    with(
        with(base_options(DECLINE, chaddr), REQUESTED_IP_ADDRESS, OptionValue::Address(yiaddr)),
        SERVER_IDENTIFIER,
        OptionValue::Address(server),
    )
}

/// The options of a request for the address `yiaddr` after a restart: no server is named.
pub open spec fn init_reboot_options(
    chaddr: Seq<u8>,
    yiaddr: Ipv4Addr,
    hostname: Option<Seq<char>>,
) -> Map<u8, StoredOption> {
    with_list(
        with_hostname(
            with(base_options(REQUEST, chaddr), REQUESTED_IP_ADDRESS, OptionValue::Address(yiaddr)),
            hostname,
        ),
    )
}

/// The options of a renewal.
pub open spec fn renew_options(chaddr: Seq<u8>, hostname: Option<Seq<char>>) -> Map<
    u8,
    StoredOption,
> {
    with_list(with_hostname(base_options(REQUEST, chaddr), hostname))
}

/// The options of a release to `server`.
pub open spec fn release_options(chaddr: Seq<u8>, server: Ipv4Addr) -> Map<u8, StoredOption> {
    with(base_options(RELEASE, chaddr), SERVER_IDENTIFIER, OptionValue::Address(server))
}

/// Adds the host name to a message, unless there is none or it is empty.
pub fn set_hostname(msg: &mut v4::Message, hostname: Option<&str>)
    ensures
        header_of(*final(msg)) == header_of(*old(msg)),
        options_of(*final(msg)) == with_hostname(options_of(*old(msg)), name_of(hostname)),
{
    if let Some(h) = hostname {
        if !h.is_empty() {
            insert_option(msg, RequestOption::Hostname(h.to_owned()));
        }
    }
}

fn start(xid: u32, chaddr: &[u8], number: u8) -> (r: v4::Message)
    ensures
        header_of(r) == client_header(xid, chaddr@, 0, Ipv4Addr { bits: 0 }),
        options_of(r) == base_options(number, chaddr@),
{
    let mut msg: v4::Message = new_message();
    set_opcode(&mut msg, BOOT_REQUEST);
    set_xid(&mut msg, xid);
    set_chaddr(&mut msg, chaddr);
    insert_option(&mut msg, RequestOption::MessageType(number));
    insert_option(&mut msg, RequestOption::ClientIdentifier(vstd::slice::slice_to_vec(chaddr)));
    msg
}

fn ask_for_parameters(msg: &mut v4::Message)
    ensures
        header_of(*final(msg)) == header_of(*old(msg)),
        options_of(*final(msg)) == with_list(options_of(*old(msg))),
{
    let codes: Vec<u8> = vec![SUBNET_MASK, ROUTER, DOMAIN_NAME_SERVER, DOMAIN_NAME];
    proof {
        assert(codes@ =~= seq![SUBNET_MASK, ROUTER, DOMAIN_NAME_SERVER, DOMAIN_NAME]);
    }
    insert_option(msg, RequestOption::ParameterRequestList(codes));
}

/// A broadcast that asks the servers for offers.
pub fn build_discover(xid: u32, chaddr: &[u8], hostname: Option<&str>) -> (r: v4::Message)
    ensures
        header_of(r) == broadcast_header(xid, chaddr@),
        options_of(r) == discover_options(chaddr@, name_of(hostname)),
{
    let mut msg: v4::Message = start(xid, chaddr, DISCOVER);
    set_flags(&mut msg, BROADCAST_FLAG);
    set_hostname(&mut msg, hostname);
    ask_for_parameters(&mut msg);
    msg
}

/// A broadcast that asks `server` for the address `yiaddr` that it has offered.
pub fn build_request(
    xid: u32,
    chaddr: &[u8],
    yiaddr: Ipv4Addr,
    server: Ipv4Addr,
    hostname: Option<&str>,
) -> (r: v4::Message)
    ensures
        header_of(r) == broadcast_header(xid, chaddr@),
        options_of(r) == request_options(chaddr@, yiaddr, server, name_of(hostname)),
{
    let mut msg: v4::Message = start(xid, chaddr, REQUEST);
    set_flags(&mut msg, BROADCAST_FLAG);
    insert_option(&mut msg, RequestOption::RequestedIpAddress(yiaddr));
    insert_option(&mut msg, RequestOption::ServerIdentifier(server));
    set_hostname(&mut msg, hostname);
    ask_for_parameters(&mut msg);
    msg
}

/// A broadcast that tells `server` that the address `yiaddr` is in use already.
pub fn build_decline(
    xid: u32,
    chaddr: &[u8],
    yiaddr: Ipv4Addr,
    server: Ipv4Addr,
) -> (r: v4::Message)
    ensures
        header_of(r) == broadcast_header(xid, chaddr@),
        options_of(r) == decline_options(chaddr@, yiaddr, server),
{
    let mut msg: v4::Message = start(xid, chaddr, DECLINE);
    set_flags(&mut msg, BROADCAST_FLAG);
    insert_option(&mut msg, RequestOption::RequestedIpAddress(yiaddr));
    insert_option(&mut msg, RequestOption::ServerIdentifier(server));
    msg
}

/// A broadcast that asks for the address `yiaddr` of a lease kept across a restart.
pub fn build_init_reboot(
    xid: u32,
    chaddr: &[u8],
    yiaddr: Ipv4Addr,
    hostname: Option<&str>,
) -> (r: v4::Message)
    ensures
        header_of(r) == broadcast_header(xid, chaddr@),
        options_of(r) == init_reboot_options(chaddr@, yiaddr, name_of(hostname)),
{
    let mut msg: v4::Message = start(xid, chaddr, REQUEST);
    set_flags(&mut msg, BROADCAST_FLAG);
    insert_option(&mut msg, RequestOption::RequestedIpAddress(yiaddr));
    set_hostname(&mut msg, hostname);
    ask_for_parameters(&mut msg);
    msg
}

/// A request to extend `lease`, from the address that it gives.
pub fn build_renew(
    xid: u32,
    chaddr: &[u8],
    lease: &Lease,
    hostname: Option<&str>,
) -> (r: v4::Message)
    ensures
        header_of(r) == client_header(xid, chaddr@, 0, lease@.ip),
        options_of(r) == renew_options(chaddr@, name_of(hostname)),
{
    let mut msg: v4::Message = start(xid, chaddr, REQUEST);
    set_ciaddr(&mut msg, lease.ip);
    set_hostname(&mut msg, hostname);
    ask_for_parameters(&mut msg);
    msg
}

/// A message that gives `lease` back.
pub fn build_release(xid: u32, chaddr: &[u8], lease: &Lease) -> (r: v4::Message)
    ensures
        header_of(r) == client_header(xid, chaddr@, 0, lease@.ip),
        options_of(r) == release_options(chaddr@, lease@.server),
{
    let mut msg: v4::Message = start(xid, chaddr, RELEASE);
    set_ciaddr(&mut msg, lease.ip);
    insert_option(&mut msg, RequestOption::ServerIdentifier(lease.server));
    msg
}

/// The bytes of a message.
pub fn encode_msg(msg: &v4::Message) -> (r: Result<Vec<u8>, String>)
    requires
        forall|k: u8| #[trigger]
            options_of(*msg).contains_key(k) ==> options_of(*msg)[k].kind != STATUS_CODE,
    ensures
        match r {
            Ok(b) => {
                let (h, options) = (header_of(*msg), options_of(*msg));
                &&& plain(h, options) ==> b@ == header_bytes(h) + wire_options(options)
                &&& plain(h, options) && written_whole(options) ==> options_in(b@.skip(240))
                    == options
            },
            Err(_) => !plain(header_of(*msg), options_of(*msg)),
        },
{
    encode(msg)
}

/// The bytes of a message with the header `h` and `options`.
pub open spec fn packet(h: Header, options: Map<u8, StoredOption>) -> Seq<u8> {
    header_bytes(h) + wire_options(options)
}

/// The bytes of a message that holds only what the client sends.
pub fn packet_of(msg: &v4::Message) -> (r: Vec<u8>)
    requires
        plain(header_of(*msg), options_of(*msg)),
        forall|k: u8| #[trigger]
            options_of(*msg).contains_key(k) ==> options_of(*msg)[k].kind != STATUS_CODE,
    ensures
        r@ == packet(header_of(*msg), options_of(*msg)),
        written_whole(options_of(*msg)) ==> options_in(r@.skip(240)) == options_of(*msg),
{
    match encode_msg(msg) {
        Ok(bytes) => bytes,
        Err(_) => Vec::new(),
    }
}

/// The bytes of a discover. A server that reads them finds the options that were put in.
pub fn discover_packet(xid: u32, chaddr: &[u8], hostname: Option<&str>) -> (r: Vec<u8>)
    ensures
        r@ == packet(
            broadcast_header(xid, chaddr@),
            discover_options(chaddr@, name_of(hostname)),
        ),
        chaddr@.len() > 0 ==> options_in(r@.skip(240)) == discover_options(
            chaddr@,
            name_of(hostname),
        ),
{
    packet_of(&build_discover(xid, chaddr, hostname))
}

/// The bytes of a request. A server that reads them finds the options that were put in.
pub fn request_packet(
    xid: u32,
    chaddr: &[u8],
    yiaddr: Ipv4Addr,
    server: Ipv4Addr,
    hostname: Option<&str>,
) -> (r: Vec<u8>)
    ensures
        r@ == packet(
            broadcast_header(xid, chaddr@),
            request_options(chaddr@, yiaddr, server, name_of(hostname)),
        ),
        chaddr@.len() > 0 ==> options_in(r@.skip(240)) == request_options(
            chaddr@,
            yiaddr,
            server,
            name_of(hostname),
        ),
{
    packet_of(&build_request(xid, chaddr, yiaddr, server, hostname))
}

/// The bytes of a decline. A server that reads them finds the options that were put in.
pub fn decline_packet(xid: u32, chaddr: &[u8], yiaddr: Ipv4Addr, server: Ipv4Addr) -> (r: Vec<u8>)
    ensures
        r@ == packet(broadcast_header(xid, chaddr@), decline_options(chaddr@, yiaddr, server)),
        chaddr@.len() > 0 ==> options_in(r@.skip(240)) == decline_options(chaddr@, yiaddr, server),
{
    packet_of(&build_decline(xid, chaddr, yiaddr, server))
}

/// The bytes of a request after a restart. A server that reads them finds the options that were
/// put in.
pub fn init_reboot_packet(
    xid: u32,
    chaddr: &[u8],
    yiaddr: Ipv4Addr,
    hostname: Option<&str>,
) -> (r: Vec<u8>)
    ensures
        r@ == packet(
            broadcast_header(xid, chaddr@),
            init_reboot_options(chaddr@, yiaddr, name_of(hostname)),
        ),
        chaddr@.len() > 0 ==> options_in(r@.skip(240)) == init_reboot_options(
            chaddr@,
            yiaddr,
            name_of(hostname),
        ),
{
    packet_of(&build_init_reboot(xid, chaddr, yiaddr, hostname))
}

/// The bytes of a renewal. A server that reads them finds the options that were put in.
pub fn renew_packet(xid: u32, chaddr: &[u8], lease: &Lease, hostname: Option<&str>) -> (r: Vec<u8>)
    ensures
        r@ == packet(
            client_header(xid, chaddr@, 0, lease@.ip),
            renew_options(chaddr@, name_of(hostname)),
        ),
        chaddr@.len() > 0 ==> options_in(r@.skip(240)) == renew_options(
            chaddr@,
            name_of(hostname),
        ),
{
    packet_of(&build_renew(xid, chaddr, lease, hostname))
}

/// The bytes of a release. A server that reads them finds the options that were put in.
pub fn release_packet(xid: u32, chaddr: &[u8], lease: &Lease) -> (r: Vec<u8>)
    ensures
        r@ == packet(
            client_header(xid, chaddr@, 0, lease@.ip),
            release_options(chaddr@, lease@.server),
        ),
        chaddr@.len() > 0 ==> options_in(r@.skip(240)) == release_options(chaddr@, lease@.server),
{
    packet_of(&build_release(xid, chaddr, lease))
}

/// A discover holds its type, the client's whole identifier, the host name where there is one that is
/// not empty, the list of what the client wants to be told, and nothing else.
pub proof fn law_discover_options(chaddr: Seq<u8>, hostname: Option<Seq<char>>)
    ensures
        ({
            let o = discover_options(chaddr, hostname);
            let named = hostname matches Some(h) && h.len() > 0;
            &&& forall|k: u8| #[trigger]
                o.contains_key(k) <==> k == 53
                    || k == 61
                    || k == 55
                    || (k == 12 && named)
            &&& o[53] == (StoredOption { kind: 53, value: OptionValue::MessageType(1) })
            &&& o[61] == (StoredOption { kind: 61, value: OptionValue::Bytes(chaddr) })
            &&& o[55] == (StoredOption {
                kind: 55,
                value: OptionValue::Codes(seq![1u8, 3u8, 6u8, 15u8]),
            })
            &&& named ==> o[12] == (StoredOption {
                kind: 12,
                value: OptionValue::Text(hostname->0),
            })
        }),
{
}

/// A request holds what a discover holds, with its own type, and the address and the server that it is
/// about.
pub proof fn law_request_options(
    chaddr: Seq<u8>,
    yiaddr: Ipv4Addr,
    server: Ipv4Addr,
    hostname: Option<Seq<char>>,
)
    ensures
        ({
            let o = request_options(chaddr, yiaddr, server, hostname);
            let named = hostname matches Some(h) && h.len() > 0;
            &&& forall|k: u8| #[trigger]
                o.contains_key(k) <==> k == 53
                    || k == 61
                    || k == 50
                    || k == 54
                    || k == 55
                    || (k == 12 && named)
            &&& o[53] == (StoredOption { kind: 53, value: OptionValue::MessageType(3) })
            &&& o[61] == (StoredOption { kind: 61, value: OptionValue::Bytes(chaddr) })
            &&& o[50] == (StoredOption { kind: 50, value: OptionValue::Address(yiaddr) })
            &&& o[54] == (StoredOption { kind: 54, value: OptionValue::Address(server) })
            &&& o[55] == (StoredOption {
                kind: 55,
                value: OptionValue::Codes(seq![1u8, 3u8, 6u8, 15u8]),
            })
            &&& named ==> o[12] == (StoredOption {
                kind: 12,
                value: OptionValue::Text(hostname->0),
            })
        }),
{
}

/// A decline holds its type, the client's identifier, and the address and the server that it is about.
pub proof fn law_decline_options(chaddr: Seq<u8>, yiaddr: Ipv4Addr, server: Ipv4Addr)
    ensures
        ({
            let o = decline_options(chaddr, yiaddr, server);
            &&& forall|k: u8| #[trigger]
                o.contains_key(k) <==> k == 53
                    || k == 61
                    || k == 50
                    || k == 54
            &&& o[53] == (StoredOption { kind: 53, value: OptionValue::MessageType(4) })
            &&& o[61] == (StoredOption { kind: 61, value: OptionValue::Bytes(chaddr) })
            &&& o[50] == (StoredOption { kind: 50, value: OptionValue::Address(yiaddr) })
            &&& o[54] == (StoredOption { kind: 54, value: OptionValue::Address(server) })
        }),
{
}

/// A request after a restart holds the address and names no server.
pub proof fn law_init_reboot_options(
    chaddr: Seq<u8>,
    yiaddr: Ipv4Addr,
    hostname: Option<Seq<char>>,
)
    ensures
        ({
            let o = init_reboot_options(chaddr, yiaddr, hostname);
            let named = hostname matches Some(h) && h.len() > 0;
            &&& forall|k: u8| #[trigger]
                o.contains_key(k) <==> k == 53
                    || k == 61
                    || k == 50
                    || k == 55
                    || (k == 12 && named)
            &&& o[53] == (StoredOption { kind: 53, value: OptionValue::MessageType(3) })
            &&& o[61] == (StoredOption { kind: 61, value: OptionValue::Bytes(chaddr) })
            &&& o[50] == (StoredOption { kind: 50, value: OptionValue::Address(yiaddr) })
            &&& o[55] == (StoredOption {
                kind: 55,
                value: OptionValue::Codes(seq![1u8, 3u8, 6u8, 15u8]),
            })
            &&& named ==> o[12] == (StoredOption {
                kind: 12,
                value: OptionValue::Text(hostname->0),
            })
        }),
{
}

/// A renewal holds neither an address nor a server: it comes from the address.
pub proof fn law_renew_options(chaddr: Seq<u8>, hostname: Option<Seq<char>>)
    ensures
        ({
            let o = renew_options(chaddr, hostname);
            let named = hostname matches Some(h) && h.len() > 0;
            &&& forall|k: u8| #[trigger]
                o.contains_key(k) <==> k == 53
                    || k == 61
                    || k == 55
                    || (k == 12 && named)
            &&& o[53] == (StoredOption { kind: 53, value: OptionValue::MessageType(3) })
            &&& o[61] == (StoredOption { kind: 61, value: OptionValue::Bytes(chaddr) })
            &&& o[55] == (StoredOption {
                kind: 55,
                value: OptionValue::Codes(seq![1u8, 3u8, 6u8, 15u8]),
            })
            &&& named ==> o[12] == (StoredOption {
                kind: 12,
                value: OptionValue::Text(hostname->0),
            })
        }),
{
}

/// A release holds its type, the client's identifier and the server that it is for.
pub proof fn law_release_options(chaddr: Seq<u8>, server: Ipv4Addr)
    ensures
        ({
            let o = release_options(chaddr, server);
            &&& forall|k: u8| #[trigger] o.contains_key(k) <==> k == 53 || k == 61 || k == 54
            &&& o[53] == (StoredOption { kind: 53, value: OptionValue::MessageType(7) })
            &&& o[61] == (StoredOption { kind: 61, value: OptionValue::Bytes(chaddr) })
            &&& o[54] == (StoredOption { kind: 54, value: OptionValue::Address(server) })
        }),
{
}

/// A host name is put under its own code, in place of an earlier one; without one, or with an empty
/// one, the options stay as they were.
pub proof fn law_hostname_option(options: Map<u8, StoredOption>, hostname: Option<Seq<char>>, k: u8)
    ensures
        ({
            let o = with_hostname(options, hostname);
            let named = hostname matches Some(h) && h.len() > 0;
            &&& !named ==> o == options
            &&& named ==> o.contains_key(12) && o[12] == (StoredOption {
                kind: 12,
                value: OptionValue::Text(hostname->0),
            })
            &&& k != 12 ==> (o.contains_key(k) <==> options.contains_key(k))
            &&& k != 12 && options.contains_key(k) ==> o[k] == options[k]
        }),
{
}

/// The bytes of a message of the client, one by one: a boot request over Ethernet with the length of
/// the hardware address, the transaction id, the flags, the client's address, the hardware address
/// cut or filled up to sixteen bytes, the magic cookie, zeros elsewhere, and the options behind.
pub proof fn law_packet_bytes(
    xid: u32,
    chaddr: Seq<u8>,
    flags: u16,
    ciaddr: Ipv4Addr,
    options: Map<u8, StoredOption>,
)
    ensures
        ({
            let p = packet(client_header(xid, chaddr, flags, ciaddr), options);
            &&& p.len() >= 240
            &&& p[0] == 1 && p[1] == 1 && p[3] == 0 && p[8] == 0 && p[9] == 0
            &&& p[2] == if chaddr.len() < 16 {
                chaddr.len() as int
            } else {
                16
            }
            &&& p[4] * 0x100_0000 + p[5] * 0x1_0000 + p[6] * 0x100 + p[7] == xid
            &&& p[10] * 0x100 + p[11] == flags
            &&& p[12] * 0x100_0000 + p[13] * 0x1_0000 + p[14] * 0x100 + p[15] == ciaddr.bits
            &&& forall|i: int| 16 <= i < 28 ==> #[trigger] p[i] == 0
            &&& forall|i: int|
                28 <= i < 44 ==> #[trigger] p[i] == if i - 28 < chaddr.len() {
                    chaddr[i - 28]
                } else {
                    0
                }
            &&& forall|i: int| 44 <= i < 236 ==> #[trigger] p[i] == 0
            &&& p[236] == 99 && p[237] == 130 && p[238] == 83 && p[239] == 99
            &&& p.skip(240) == wire_options(options)
        }),
{
    let h = client_header(xid, chaddr, flags, ciaddr);
    let p = packet(h, options);
    let id = Ipv4Addr { bits: xid };
    let zero = Ipv4Addr { bits: 0 };
    lemma_octets_compose(id);
    lemma_octets_compose(ciaddr);
    lemma_octets_compose(zero);
    assert(p[4] == octets_of(id)[0] && p[5] == octets_of(id)[1] && p[6] == octets_of(id)[2] && p[7]
        == octets_of(id)[3]);
    assert(p[12] == octets_of(ciaddr)[0] && p[13] == octets_of(ciaddr)[1] && p[14] == octets_of(
        ciaddr,
    )[2] && p[15] == octets_of(ciaddr)[3]);
    assert(octets_of(zero) =~= seq![0u8, 0u8, 0u8, 0u8]);
    assert(p.skip(240) =~= wire_options(options));
}

/// A broadcast request asks for a broadcast reply and comes from no address.
pub proof fn law_broadcast_header(xid: u32, chaddr: Seq<u8>)
    ensures
        broadcast_header(xid, chaddr) == client_header(xid, chaddr, 0x8000, Ipv4Addr { bits: 0 }),
{
}

/// A host name is its own characters, where there is one.
pub proof fn law_name_of(h: &str)
    ensures
        name_of(Some(h)) == Some(h@),
        name_of(None) is None,
{
}

} // verus!
