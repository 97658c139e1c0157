//! What the client reads in a server's answer.

use crate::addr::{law_prefix_of_mask, mask_to_prefix, ones, Ipv4Addr};
use crate::lease::{default_t1, default_t2, t1_of, t2_of, Lease, LeaseView};
use crate::lengths::{law_settled, settle, settled};
use crate::message::{
    decode, header_of, option_at, options_in, options_of, value32, xid_of, yiaddr_of,
    OptionValue, ReplyValue, StoredOption, ADDRESS_LEASE_TIME, DOMAIN_NAME_SERVER, MESSAGE_TYPE,
    REBINDING, RENEWAL, ROUTER, SERVER_IDENTIFIER, SUBNET_MASK,
};
use dhcproto::v4;
use vstd::arithmetic::power2::{lemma2_to64, lemma_pow2_unfold, pow2};
use vstd::prelude::*;

verus! {

/// The length of the part of a message that stands before its options.
pub const HEADER_LEN: usize = 240;

/// What kind of message it is.
#[derive(Clone, Copy, Debug, PartialEq, Eq, Structural)]
pub enum MessageType {
    Discover,
    Offer,
    Request,
    Decline,
    Ack,
    Nak,
    Release,
    Other(u8),
}

/// The kind of message that has the number `n`.
pub open spec fn type_numbered(n: u8) -> MessageType {
    match n {
        1 => MessageType::Discover,
        2 => MessageType::Offer,
        3 => MessageType::Request,
        4 => MessageType::Decline,
        5 => MessageType::Ack,
        6 => MessageType::Nak,
        7 => MessageType::Release,
        _ => MessageType::Other(n),
    }
}

/// What the option under `code` holds, where it is of that kind.
pub open spec fn value_at(options: Map<u8, StoredOption>, code: u8) -> Option<OptionValue> {
    if options.contains_key(code) && options[code].kind == code {
        Some(options[code].value)
    } else {
        None
    }
}

/// The kind of message, where it is said.
pub open spec fn type_in(options: Map<u8, StoredOption>) -> Option<MessageType> {
    match value_at(options, MESSAGE_TYPE) {
        Some(OptionValue::MessageType(n)) => Some(type_numbered(n)),
        _ => None,
    }
}

/// The address in the option under `code`, if there is one.
pub open spec fn address_in(options: Map<u8, StoredOption>, code: u8) -> Option<Ipv4Addr> {
    match value_at(options, code) {
        Some(OptionValue::Address(a)) => Some(a),
        _ => None,
    }
}

/// The addresses in the option under `code`, none where there is no such option.
pub open spec fn addresses_in(options: Map<u8, StoredOption>, code: u8) -> Seq<Ipv4Addr> {
    match value_at(options, code) {
        Some(OptionValue::Addresses(v)) => v,
        _ => Seq::empty(),
    }
}

/// The seconds in the option under `code`, if there is one.
pub open spec fn seconds_in(options: Map<u8, StoredOption>, code: u8) -> Option<u32> {
    match value_at(options, code) {
        Some(OptionValue::Seconds(n)) => Some(n),
        _ => None,
    }
}

/// The kind of message with the number `n`.
pub fn message_type(n: u8) -> (r: MessageType)
    ensures
        r == type_numbered(n),
{
    match n {
        1 => MessageType::Discover,
        2 => MessageType::Offer,
        3 => MessageType::Request,
        4 => MessageType::Decline,
        5 => MessageType::Ack,
        6 => MessageType::Nak,
        7 => MessageType::Release,
        _ => MessageType::Other(n),
    }
}

/// The kind of a message, where it is said. A kind is known by its number alone.
pub fn msg_type(msg: &v4::Message) -> (r: Option<MessageType>)
    ensures
        r == type_in(options_of(*msg)),
{
    match option_at(msg, MESSAGE_TYPE) {
        Some((MESSAGE_TYPE, ReplyValue::MessageType(n))) => Some(message_type(n)),
        _ => None,
    }
}

fn address_at(msg: &v4::Message, code: u8) -> (r: Option<Ipv4Addr>)
    ensures
        r == address_in(options_of(*msg), code),
{
    match option_at(msg, code) {
        Some((kind, ReplyValue::Address(a))) => if kind == code {
            Some(a)
        } else {
            None
        },
        _ => None,
    }
}

fn addresses_at(msg: &v4::Message, code: u8) -> (r: Vec<Ipv4Addr>)
    ensures
        r@ == addresses_in(options_of(*msg), code),
{
    match option_at(msg, code) {
        Some((kind, ReplyValue::Addresses(v))) => if kind == code {
            v
        } else {
            Vec::new()
        },
        _ => Vec::new(),
    }
}

fn seconds_at(msg: &v4::Message, code: u8) -> (r: Option<u32>)
    ensures
        r == seconds_in(options_of(*msg), code),
{
    match option_at(msg, code) {
        Some((kind, ReplyValue::Seconds(n))) => if kind == code {
            Some(n)
        } else {
            None
        },
        _ => None,
    }
}

/// The server that a message is from or for.
pub fn opt_server_id(msg: &v4::Message) -> (r: Option<Ipv4Addr>)
    ensures
        r == address_in(options_of(*msg), SERVER_IDENTIFIER),
{
    address_at(msg, SERVER_IDENTIFIER)
}

/// The subnet mask.
pub fn opt_subnet(msg: &v4::Message) -> (r: Option<Ipv4Addr>)
    ensures
        r == address_in(options_of(*msg), SUBNET_MASK),
{
    address_at(msg, SUBNET_MASK)
}

/// The routers.
pub fn opt_routers(msg: &v4::Message) -> (r: Vec<Ipv4Addr>)
    ensures
        r@ == addresses_in(options_of(*msg), ROUTER),
{
    addresses_at(msg, ROUTER)
}

/// The name servers.
pub fn opt_dns(msg: &v4::Message) -> (r: Vec<Ipv4Addr>)
    ensures
        r@ == addresses_in(options_of(*msg), DOMAIN_NAME_SERVER),
{
    addresses_at(msg, DOMAIN_NAME_SERVER)
}

/// How long the lease lasts.
pub fn opt_lease_secs(msg: &v4::Message) -> (r: Option<u32>)
    ensures
        r == seconds_in(options_of(*msg), ADDRESS_LEASE_TIME),
{
    seconds_at(msg, ADDRESS_LEASE_TIME)
}

/// When to renew.
pub fn opt_t1(msg: &v4::Message) -> (r: Option<u32>)
    ensures
        r == seconds_in(options_of(*msg), RENEWAL),
{
    seconds_at(msg, RENEWAL)
}

/// When to rebind.
pub fn opt_t2(msg: &v4::Message) -> (r: Option<u32>)
    ensures
        r == seconds_in(options_of(*msg), REBINDING),
{
    seconds_at(msg, REBINDING)
}

/// What an offer or an acknowledgement says.
#[derive(Clone, Debug)]
pub struct Reply {
    pub yiaddr: Ipv4Addr,
    pub server: Option<Ipv4Addr>,
    pub subnet: Option<Ipv4Addr>,
    pub routers: Vec<Ipv4Addr>,
    pub dns: Vec<Ipv4Addr>,
    pub lease_secs: Option<u32>,
    pub t1_secs: Option<u32>,
    pub t2_secs: Option<u32>,
}

/// What a [`Reply`] stands for.
#[verifier::ext_equal]
pub ghost struct ReplyView {
    pub yiaddr: Ipv4Addr,
    pub server: Option<Ipv4Addr>,
    pub subnet: Option<Ipv4Addr>,
    pub routers: Seq<Ipv4Addr>,
    pub dns: Seq<Ipv4Addr>,
    pub lease_secs: Option<u32>,
    pub t1_secs: Option<u32>,
    pub t2_secs: Option<u32>,
}

impl View for Reply {
    type V = ReplyView;

    open spec fn view(&self) -> ReplyView {
        ReplyView {
            yiaddr: self.yiaddr,
            server: self.server,
            subnet: self.subnet,
            routers: self.routers@,
            dns: self.dns@,
            lease_secs: self.lease_secs,
            t1_secs: self.t1_secs,
            t2_secs: self.t2_secs,
        }
    }
}

/// What a message that assigns `yiaddr` and has `options` says.
pub open spec fn said(yiaddr: Ipv4Addr, options: Map<u8, StoredOption>) -> ReplyView {
    ReplyView {
        yiaddr,
        server: address_in(options, SERVER_IDENTIFIER),
        subnet: address_in(options, SUBNET_MASK),
        routers: addresses_in(options, ROUTER),
        dns: addresses_in(options, DOMAIN_NAME_SERVER),
        lease_secs: seconds_in(options, ADDRESS_LEASE_TIME),
        t1_secs: seconds_in(options, RENEWAL),
        t2_secs: seconds_in(options, REBINDING),
    }
}

/// What a message says.
pub fn read_reply(msg: &v4::Message) -> (r: Reply)
    ensures
        r@ == said(header_of(*msg).yiaddr, options_of(*msg)),
{
    Reply {
        yiaddr: yiaddr_of(msg),
        server: opt_server_id(msg),
        subnet: opt_subnet(msg),
        routers: opt_routers(msg),
        dns: opt_dns(msg),
        lease_secs: opt_lease_secs(msg),
        t1_secs: opt_t1(msg),
        t2_secs: opt_t2(msg),
    }
}

/// An answer that the client waits for.
#[derive(Clone, Debug)]
pub enum DhcpReply {
    Offer(Reply),
    Ack(Reply),
    Nak,
}

/// What a [`DhcpReply`] stands for.
#[verifier::ext_equal]
pub ghost enum DhcpReplyView {
    Offer(ReplyView),
    Ack(ReplyView),
    Nak,
}

impl View for DhcpReply {
    type V = DhcpReplyView;

    open spec fn view(&self) -> DhcpReplyView {
        match self {
            DhcpReply::Offer(m) => DhcpReplyView::Offer(m@),
            DhcpReply::Ack(m) => DhcpReplyView::Ack(m@),
            DhcpReply::Nak => DhcpReplyView::Nak,
        }
    }
}

/// The view of an answer, where there is one.
pub open spec fn answer_view(r: Option<DhcpReply>) -> Option<DhcpReplyView> {
    match r {
        Some(a) => Some(a@),
        None => None,
    }
}

/// The answer to the request `sent` that a message with the id `xid` is: an offer, an
/// acknowledgement or a refusal with the same id.
pub open spec fn answer(
    sent: u32,
    xid: u32,
    kind: Option<MessageType>,
    reply: ReplyView,
) -> Option<DhcpReplyView> {
    if sent != xid {
        None
    } else {
        match kind {
            Some(MessageType::Offer) => Some(DhcpReplyView::Offer(reply)),
            Some(MessageType::Ack) => Some(DhcpReplyView::Ack(reply)),
            Some(MessageType::Nak) => Some(DhcpReplyView::Nak),
            _ => None,
        }
    }
}

/// The answer to the request `sent` that a message with the id `xid` is.
pub fn sort_reply(sent: u32, xid: u32, kind: Option<MessageType>, reply: Reply) -> (r: Option<
    DhcpReply,
>)
    ensures
        answer_view(r) == answer(sent, xid, kind, reply@),
{
    if sent != xid {
        return None;
    }
    match kind {
        Some(MessageType::Offer) => Some(DhcpReply::Offer(reply)),
        Some(MessageType::Ack) => Some(DhcpReply::Ack(reply)),
        Some(MessageType::Nak) => Some(DhcpReply::Nak),
        _ => None,
    }
}

/// The answer to the request `sent` that a datagram holds.
pub open spec fn answer_in(bytes: Seq<u8>, sent: u32) -> Option<DhcpReplyView> {
    if bytes.len() < HEADER_LEN {
        None
    } else {
        let options = options_in(settled(bytes.skip(HEADER_LEN as int)));
        let yiaddr = Ipv4Addr { bits: value32(bytes.subrange(16, 20)) };
        answer(sent, value32(bytes.subrange(4, 8)), type_in(options), said(yiaddr, options))
    }
}

/// The answer to the request `xid` that a datagram holds.
pub fn match_reply(bytes: &[u8], xid: u32) -> (r: Option<DhcpReply>)
    ensures
        answer_view(r) == answer_in(bytes@, xid),
{
    if bytes.len() < HEADER_LEN {
        return None;
    }
    let tidy: Vec<u8> = settle(bytes, HEADER_LEN);
    proof {
        law_settled(bytes@.skip(240));
        assert(tidy@.skip(240) =~= settled(bytes@.skip(240)));
        assert(tidy@.subrange(4, 8) =~= bytes@.subrange(4, 8));
        assert(tidy@.subrange(16, 20) =~= bytes@.subrange(16, 20));
    }
    match decode(tidy.as_slice()) {
        Some(msg) => sort_reply(xid, xid_of(&msg), msg_type(&msg), read_reply(&msg)),
        None => None,
    }
}

/// An answer carries the id of the request in its fifth to eighth byte. A datagram without it is
/// no answer, whatever else it holds.
pub proof fn law_answer_has_id(bytes: Seq<u8>, sent: u32)
    requires
        answer_in(bytes, sent) is Some,
    ensures
        bytes.len() >= HEADER_LEN,
        value32(bytes.subrange(4, 8)) == sent,
{
}

/// What waiting for a datagram has come to.
pub enum Arrival {
    /// The time for an answer is over.
    Late,
    /// The socket had nothing to give in the time that was left.
    Silent,
    /// The socket failed.
    Broken,
    /// A datagram came.
    Datagram(Vec<u8>),
}

/// What to do about it.
pub enum Reception {
    /// Wait on for the same answer.
    Wait,
    /// There was no answer in time.
    TimedOut,
    /// Give up on the socket's error.
    Failed,
    /// The answer is there.
    Answer(DhcpReply),
}

/// What to do about an arrival while the answer to `xid` is awaited.
pub fn receive(arrival: Arrival, xid: u32) -> (r: Reception)
    ensures
        match arrival {
            Arrival::Late => r is TimedOut,
            Arrival::Silent => r is TimedOut,
            Arrival::Broken => r is Failed,
            Arrival::Datagram(bytes) => match answer_in(bytes@, xid) {
                Some(a) => r matches Reception::Answer(reply) && reply@ == a,
                None => r is Wait,
            },
        },
{
    match arrival {
        Arrival::Late => Reception::TimedOut,
        Arrival::Silent => Reception::TimedOut,
        Arrival::Broken => Reception::Failed,
        Arrival::Datagram(bytes) => match match_reply(bytes.as_slice(), xid) {
            Some(reply) => Reception::Answer(reply),
            None => Reception::Wait,
        },
    }
}

/// The lease that an acknowledgement grants. `held` is the address that the client keeps where
/// none is assigned, `server` the server where none is named, `secs` the lease time where none is
/// given. Without a subnet mask the network has 24 bits.
pub open spec fn granted(
    ack: ReplyView,
    held: Option<Ipv4Addr>,
    server: Ipv4Addr,
    secs: u32,
) -> LeaseView {
    let mask = match ack.subnet {
        Some(m) => m.bits,
        None => 0xffff_ff00,
    };
    let lease_secs = match ack.lease_secs {
        Some(n) => n,
        None => secs,
    };
    LeaseView {
        ip: match held {
            Some(h) => if ack.yiaddr.bits == 0 {
                h
            } else {
                ack.yiaddr
            },
            None => ack.yiaddr,
        },
        prefix: ones(mask as nat) as u8,
        routers: ack.routers,
        dns: ack.dns,
        server: match ack.server {
            Some(s) => s,
            None => server,
        },
        lease_secs,
        t1_secs: match ack.t1_secs {
            Some(n) => n,
            None => t1_of(lease_secs),
        },
        t2_secs: match ack.t2_secs {
            Some(n) => n,
            None => t2_of(lease_secs),
        },
    }
}

/// The lease that an acknowledgement grants.
pub fn lease_from(ack: Reply, held: Option<Ipv4Addr>, server: Ipv4Addr, secs: u32) -> (r: Lease)
    ensures
        r@ == granted(ack@, held, server, secs),
        r.prefix <= 32,
{
    let ip: Ipv4Addr = match held {
        Some(h) => if ack.yiaddr.is_unspecified() {
            h
        } else {
            ack.yiaddr
        },
        None => ack.yiaddr,
    };
    let mask: Ipv4Addr = match ack.subnet {
        Some(m) => m,
        None => Ipv4Addr::new(255, 255, 255, 0),
    };
    let lease_secs: u32 = match ack.lease_secs {
        Some(n) => n,
        None => secs,
    };
    Lease {
        ip,
        prefix: mask_to_prefix(mask),
        routers: ack.routers,
        dns: ack.dns,
        server: match ack.server {
            Some(s) => s,
            None => server,
        },
        lease_secs,
        t1_secs: match ack.t1_secs {
            Some(n) => n,
            None => default_t1(lease_secs),
        },
        t2_secs: match ack.t2_secs {
            Some(n) => n,
            None => default_t2(lease_secs),
        },
    }
}

/// The words for an answer that did not come in time.
pub fn timeout_text() -> (r: &'static str)
    ensures
        r@ == "dhcp recv timeout"@,
{
    "dhcp recv timeout"
}

/// A reply's view leaves nothing out.
pub proof fn law_reply_view(r: Reply)
    ensures
        r@.yiaddr == r.yiaddr,
        r@.server == r.server,
        r@.subnet == r.subnet,
        r@.routers == r.routers@,
        r@.dns == r.dns@,
        r@.lease_secs == r.lease_secs,
        r@.t1_secs == r.t1_secs,
        r@.t2_secs == r.t2_secs,
{
}

/// An answer's view tells the three kinds of answer apart and keeps what they say.
pub proof fn law_answer_view(r: Reply)
    ensures
        DhcpReply::Offer(r)@ == DhcpReplyView::Offer(r@),
        DhcpReply::Ack(r)@ == DhcpReplyView::Ack(r@),
        DhcpReply::Nak@ == DhcpReplyView::Nak,
        answer_view(Some(DhcpReply::Offer(r))) == Some(DhcpReplyView::Offer(r@)),
        answer_view(Some(DhcpReply::Ack(r))) == Some(DhcpReplyView::Ack(r@)),
        answer_view(Some(DhcpReply::Nak)) == Some(DhcpReplyView::Nak),
        answer_view(None) is None,
{
}

/// Each number stands for its own kind of message: seven have a name, every other keeps its number.
pub proof fn law_message_types(n: u8)
    ensures
        type_numbered(n) == MessageType::Discover <==> n == 1,
        type_numbered(n) == MessageType::Offer <==> n == 2,
        type_numbered(n) == MessageType::Request <==> n == 3,
        type_numbered(n) == MessageType::Decline <==> n == 4,
        type_numbered(n) == MessageType::Ack <==> n == 5,
        type_numbered(n) == MessageType::Nak <==> n == 6,
        type_numbered(n) == MessageType::Release <==> n == 7,
        n == 0 || n > 7 ==> type_numbered(n) == MessageType::Other(n),
{
}

/// An option is read from under its own code, and only where it is of that kind: whatever other
/// options there are makes no difference.
pub proof fn law_option_is_read_from_its_code(options: Map<u8, StoredOption>, code: u8)
    ensures
        address_in(options, code) matches Some(a) ==> options.contains_key(code)
            && options[code].kind == code && options[code].value == OptionValue::Address(a),
        seconds_in(options, code) matches Some(n) ==> options.contains_key(code)
            && options[code].kind == code && options[code].value == OptionValue::Seconds(n),
        addresses_in(options, code).len() > 0 ==> options.contains_key(code) && options[code].kind
            == code && options[code].value == OptionValue::Addresses(addresses_in(options, code)),
        options.contains_key(code) && options[code].kind == code ==> match options[code].value {
            OptionValue::Address(a) => address_in(options, code) == Some(a),
            OptionValue::Seconds(n) => seconds_in(options, code) == Some(n),
            OptionValue::Addresses(v) => addresses_in(options, code) == v,
            _ => true,
        },
{
}

/// Whether the option under `code` is one of addresses of that kind.
pub open spec fn holds_addresses(
    options: Map<u8, StoredOption>,
    code: u8,
    v: Seq<Ipv4Addr>,
) -> bool {
    options.contains_key(code) && options[code] == (StoredOption {
        kind: code,
        value: OptionValue::Addresses(v),
    })
}

/// Whether the option under `code` is an address of that kind.
pub open spec fn holds_address(options: Map<u8, StoredOption>, code: u8, a: Ipv4Addr) -> bool {
    options.contains_key(code) && options[code] == (StoredOption {
        kind: code,
        value: OptionValue::Address(a),
    })
}

/// Whether the option under `code` is a time of that kind.
pub open spec fn holds_seconds(options: Map<u8, StoredOption>, code: u8, n: u32) -> bool {
    options.contains_key(code) && options[code] == (StoredOption {
        kind: code,
        value: OptionValue::Seconds(n),
    })
}

/// Whether a message is said to be of the kind with the number `n`.
pub open spec fn holds_type(options: Map<u8, StoredOption>, n: u8) -> bool {
    options.contains_key(53) && options[53] == (StoredOption {
        kind: 53,
        value: OptionValue::MessageType(n),
    })
}

/// What a message says is taken from its options one by one: the server from option 54, the mask
/// from 1, the routers from 3, the name servers from 6, the lease time from 51, the renewal time
/// from 58 and the rebinding time from 59, each from there and from nowhere else.
pub proof fn law_each_field_has_its_option(yiaddr: Ipv4Addr, options: Map<u8, StoredOption>)
    ensures
        ({
            let m = said(yiaddr, options);
            &&& m.yiaddr == yiaddr
            &&& forall|a: Ipv4Addr| m.server == Some(a) <==> #[trigger] holds_address(options, 54, a)
            &&& forall|a: Ipv4Addr| m.subnet == Some(a) <==> #[trigger] holds_address(options, 1, a)
            &&& forall|v: Seq<Ipv4Addr>| #[trigger]
                holds_addresses(options, 3, v) ==> m.routers == v
            &&& m.routers.len() > 0 ==> holds_addresses(options, 3, m.routers)
            &&& forall|v: Seq<Ipv4Addr>| #[trigger] holds_addresses(options, 6, v) ==> m.dns == v
            &&& m.dns.len() > 0 ==> holds_addresses(options, 6, m.dns)
            &&& forall|n: u32| m.lease_secs == Some(n) <==> #[trigger] holds_seconds(options, 51, n)
            &&& forall|n: u32| m.t1_secs == Some(n) <==> #[trigger] holds_seconds(options, 58, n)
            &&& forall|n: u32| m.t2_secs == Some(n) <==> #[trigger] holds_seconds(options, 59, n)
        }),
{
}

/// A datagram is an answer exactly where its header is whole, its fifth to eighth byte make the id
/// of the request, and its option 53 says that it is an offer, an acknowledgement or a refusal. What
/// it assigns stands in its seventeenth to twentieth byte, and the rest in the options behind.
pub proof fn law_datagram_is_read(bytes: Seq<u8>, sent: u32)
    ensures
        ({
            let options = options_in(settled(bytes.skip(240)));
            let xid = bytes[4] * 0x100_0000 + bytes[5] * 0x1_0000 + bytes[6] * 0x100 + bytes[7];
            let ip = bytes[16] * 0x100_0000 + bytes[17] * 0x1_0000 + bytes[18] * 0x100 + bytes[19];
            let known = holds_type(options, 2) || holds_type(options, 5) || holds_type(options, 6);
            let m = said(Ipv4Addr { bits: ip as u32 }, options);
            &&& answer_in(bytes, sent) is Some <==> bytes.len() >= 240 && xid == sent && known
            &&& answer_in(bytes, sent) is Some ==> {
                &&& holds_type(options, 2) ==> answer_in(bytes, sent) == Some(
                    DhcpReplyView::Offer(m),
                )
                &&& holds_type(options, 5) ==> answer_in(bytes, sent) == Some(DhcpReplyView::Ack(m))
                &&& holds_type(options, 6) ==> answer_in(bytes, sent) == Some(DhcpReplyView::Nak)
            }
        }),
{
    if bytes.len() >= 240 {
        assert(bytes.subrange(4, 8)[0] == bytes[4] && bytes.subrange(4, 8)[1] == bytes[5]
            && bytes.subrange(4, 8)[2] == bytes[6] && bytes.subrange(4, 8)[3] == bytes[7]);
        assert(bytes.subrange(16, 20)[0] == bytes[16] && bytes.subrange(16, 20)[1] == bytes[17]
            && bytes.subrange(16, 20)[2] == bytes[18] && bytes.subrange(16, 20)[3] == bytes[19]);
    }
}

/// Only a message with the id of the request answers it; an offer, an acknowledgement and a refusal
/// are answers, with everything that they say, and nothing else is.
pub proof fn law_sorting_keeps_the_reply(
    sent: u32,
    xid: u32,
    kind: Option<MessageType>,
    m: ReplyView,
)
    ensures
        sent != xid ==> answer(sent, xid, kind, m) is None,
        answer(sent, xid, kind, m) matches Some(a) ==> match a {
            DhcpReplyView::Offer(r) => kind == Some(MessageType::Offer) && r == m,
            DhcpReplyView::Ack(r) => kind == Some(MessageType::Ack) && r == m,
            DhcpReplyView::Nak => kind == Some(MessageType::Nak),
        },
        sent == xid && (kind == Some(MessageType::Offer) || kind == Some(MessageType::Ack) || kind
            == Some(MessageType::Nak)) ==> answer(sent, xid, kind, m) is Some,
{
}

/// The lease that an acknowledgement grants lists exactly its routers and its name servers, in their
/// order; its address, server, mask and times are those of the acknowledgement, and only what that
/// does not name comes from elsewhere.
pub proof fn law_acknowledged_lease(
    ack: ReplyView,
    held: Option<Ipv4Addr>,
    server: Ipv4Addr,
    secs: u32,
)
    ensures
        ({
            let lease = granted(ack, held, server, secs);
            let fallback = match held {
                Some(ip) => ip,
                None => ack.yiaddr,
            };
            &&& lease.routers == ack.routers
            &&& lease.dns == ack.dns
            &&& ack.subnet matches Some(mask) ==> lease.prefix == ones(mask.bits as nat)
            &&& ack.subnet is None ==> lease.prefix == 24
            &&& ack.yiaddr.bits != 0 ==> lease.ip == ack.yiaddr
            &&& ack.yiaddr.bits == 0 ==> lease.ip == fallback
            &&& ack.server matches Some(named) ==> lease.server == named
            &&& ack.server is None ==> lease.server == server
            &&& ack.lease_secs matches Some(n) ==> lease.lease_secs == n
            &&& ack.lease_secs is None ==> lease.lease_secs == secs
            &&& ack.t1_secs matches Some(n) ==> lease.t1_secs == n
            &&& ack.t1_secs is None ==> lease.t1_secs == lease.lease_secs / 2
            &&& ack.t2_secs matches Some(n) ==> lease.t2_secs == n
            &&& ack.t2_secs is None && lease.lease_secs * 7 <= 0xffff_ffff ==> {
                &&& lease.t2_secs * 8 <= lease.lease_secs * 7
                &&& lease.lease_secs * 7 < (lease.t2_secs + 1) * 8
            }
            &&& ack.t2_secs is None && lease.lease_secs * 7 > 0xffff_ffff ==> lease.t2_secs
                == 0x1fff_ffff
        }),
{
    lemma_ones_of_24();
    if let Some(mask) = ack.subnet {
        lemma_ones_bound(mask.bits as nat, 32);
    }
}

proof fn lemma_ones_bound(n: nat, bits: nat)
    requires
        n < pow2(bits),
    ensures
        ones(n) <= bits,
    decreases bits,
{
    lemma2_to64();
    if bits > 0 {
        lemma_pow2_unfold(bits);
        lemma_ones_bound(n / 2, (bits - 1) as nat);
    }
}

proof fn lemma_ones_of_24()
    ensures
        ones(0xffff_ff00) == 24,
        0xffff_ffff < pow2(32),
{
    lemma2_to64();
    law_prefix_of_mask(24);
}

/// The kind of a message is read from its option 53 and from nowhere else.
pub proof fn law_type_is_read(options: Map<u8, StoredOption>)
    ensures
        forall|n: u8| #[trigger] holds_type(options, n) ==> type_in(options) == Some(
            type_numbered(n),
        ),
        type_in(options) is Some ==> exists|n: u8| #[trigger] holds_type(options, n),
{
    if type_in(options) is Some {
        let n = options[53].value->MessageType_0;
        assert(holds_type(options, n));
    }
}

} // verus!
