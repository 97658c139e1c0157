//! DHCP messages as the `dhcproto` crate holds, writes and reads them.

use crate::addr::{octets_of, Ipv4Addr};
use crate::lengths::lengths_hold;
use dhcproto::v4::{self, DhcpOption, OptionCode};
use dhcproto::{Decodable, Decoder, Encodable, Encoder};
use vstd::prelude::*;

verus! {

/// The option codes that the client sends or reads.
pub const SUBNET_MASK: u8 = 1;

pub const ROUTER: u8 = 3;

pub const DOMAIN_NAME_SERVER: u8 = 6;

pub const HOSTNAME: u8 = 12;

pub const DOMAIN_NAME: u8 = 15;

pub const REQUESTED_IP_ADDRESS: u8 = 50;

pub const ADDRESS_LEASE_TIME: u8 = 51;

pub const MESSAGE_TYPE: u8 = 53;

pub const SERVER_IDENTIFIER: u8 = 54;

pub const PARAMETER_REQUEST_LIST: u8 = 55;

pub const RENEWAL: u8 = 58;

pub const REBINDING: u8 = 59;

pub const CLIENT_IDENTIFIER: u8 = 61;

/// An option whose encoder can overflow on a long text.
pub const STATUS_CODE: u8 = 151;

/// The message type of `dhcproto`. Nothing inside a value of it is visible to proofs.
#[verifier::external_type_specification]
#[verifier::external_body]
pub struct ExMessage(v4::Message);

/// What a message holds besides its options.
#[verifier::ext_equal]
pub ghost struct Header {
    pub opcode: u8,
    pub htype: u8,
    pub hlen: u8,
    pub hops: u8,
    pub xid: u32,
    pub secs: u16,
    pub flags: u16,
    pub ciaddr: Ipv4Addr,
    pub yiaddr: Ipv4Addr,
    pub siaddr: Ipv4Addr,
    pub giaddr: Ipv4Addr,
    pub chaddr: Seq<u8>,
    pub sname: Option<Seq<u8>>,
    pub fname: Option<Seq<u8>>,
    pub magic: Seq<u8>,
}

/// What an option holds. `Address` stands for a subnet mask, a requested address and a server
/// identifier, `Addresses` for routers and name servers, `Seconds` for a lease, a renewal and a
/// rebinding time, `Text` for a host name, `Bytes` for a client identifier, `Codes` for a
/// parameter request list, and `Other` for every other kind of option.
#[verifier::ext_equal]
pub ghost enum OptionValue {
    Address(Ipv4Addr),
    Addresses(Seq<Ipv4Addr>),
    Seconds(u32),
    MessageType(u8),
    Text(Seq<char>),
    Bytes(Seq<u8>),
    Codes(Seq<u8>),
    Other,
}

/// An option: the code of its own kind, and what it holds.
#[verifier::ext_equal]
pub ghost struct StoredOption {
    pub kind: u8,
    pub value: OptionValue,
}

/// The fields of a message outside its options.
pub uninterp spec fn header_of(m: v4::Message) -> Header;

/// The options of a message, by the code under which each is stored.
pub uninterp spec fn options_of(m: v4::Message) -> Map<u8, StoredOption>;

/// What `DhcpOptions::encode` writes for options of the client's kinds, each under its own code.
pub uninterp spec fn wire_options(options: Map<u8, StoredOption>) -> Seq<u8>;

/// What `DhcpOptions::decode` reads from the bytes behind the magic cookie.
pub uninterp spec fn options_in(tail: Seq<u8>) -> Map<u8, StoredOption>;

/// The two bytes of `n`, the most significant first.
pub open spec fn be16(n: u16) -> Seq<u8> {
    seq![(n / 0x100) as u8, (n % 0x100) as u8]
}

/// The four bytes of `n`, the most significant first.
pub open spec fn be32(n: u32) -> Seq<u8> {
    octets_of(Ipv4Addr { bits: n })
}

/// The number that four bytes make, the most significant first.
pub open spec fn value32(b: Seq<u8>) -> u32 {
    (b[0] * 0x100_0000 + b[1] * 0x1_0000 + b[2] * 0x100 + b[3]) as u32
}

/// `n` zero bytes.
pub open spec fn zeros(n: nat) -> Seq<u8> {
    Seq::new(n, |i: int| 0u8)
}

/// `bytes` cut to sixteen bytes, with zeros behind where there are fewer.
pub open spec fn hardware_field(bytes: Seq<u8>) -> Seq<u8> {
    Seq::new(
        16,
        |i: int|
            if i < bytes.len() {
                bytes[i]
            } else {
                0u8
            },
    )
}

/// The 240 bytes before the options of a message without a server name and a file name.
pub open spec fn header_bytes(h: Header) -> Seq<u8> {
    let addresses = octets_of(h.ciaddr) + octets_of(h.yiaddr) + octets_of(h.siaddr) + octets_of(
        h.giaddr,
    );
    seq![h.opcode, h.htype, h.hlen, h.hops] + be32(h.xid) + be16(h.secs) + be16(h.flags) + addresses
        + h.chaddr + zeros(192) + h.magic
}

/// Whether a message has neither a server name nor a file name, and every option is of a kind that
/// the client uses and stands under the code of its kind.
pub open spec fn plain(h: Header, options: Map<u8, StoredOption>) -> bool {
    &&& h.sname is None
    &&& h.fname is None
    &&& forall|k: u8| #[trigger]
        options.contains_key(k) ==> options[k].kind == k && options[k].value !is Other
}

/// Whether every option holds something: one with nothing in it is not written.
pub open spec fn written_whole(options: Map<u8, StoredOption>) -> bool {
    forall|k: u8| #[trigger]
        options.contains_key(k) ==> match options[k].value {
            OptionValue::Addresses(v) => v.len() > 0,
            OptionValue::Text(s) => s.len() > 0,
            OptionValue::Bytes(b) => b.len() > 0,
            OptionValue::Codes(c) => c.len() > 0,
            _ => true,
        }
}

/// The header of a new message with the transaction id `xid`.
pub open spec fn blank(xid: u32) -> Header {
    Header {
        opcode: 1,
        htype: 1,
        hlen: 0,
        hops: 0,
        xid,
        secs: 0,
        flags: 0,
        ciaddr: Ipv4Addr { bits: 0 },
        yiaddr: Ipv4Addr { bits: 0 },
        siaddr: Ipv4Addr { bits: 0 },
        giaddr: Ipv4Addr { bits: 0 },
        chaddr: zeros(16),
        sname: None,
        fname: None,
        magic: seq![99u8, 130u8, 83u8, 99u8],
    }
}

/// The options of a new message.
pub open spec fn no_options() -> Map<u8, StoredOption> {
    Map::empty()
}

/// An option that the client sends.
pub enum RequestOption {
    MessageType(u8),
    ClientIdentifier(Vec<u8>),
    RequestedIpAddress(Ipv4Addr),
    ServerIdentifier(Ipv4Addr),
    Hostname(String),
    ParameterRequestList(Vec<u8>),
}

/// What an option that the client sends is stored as, under the code of its kind.
pub open spec fn stored(o: RequestOption) -> StoredOption {
    match o {
        RequestOption::MessageType(n) => StoredOption {
            kind: MESSAGE_TYPE,
            value: OptionValue::MessageType(n),
        },
        RequestOption::ClientIdentifier(b) => StoredOption {
            kind: CLIENT_IDENTIFIER,
            value: OptionValue::Bytes(b@),
        },
        RequestOption::RequestedIpAddress(a) => StoredOption {
            kind: REQUESTED_IP_ADDRESS,
            value: OptionValue::Address(a),
        },
        RequestOption::ServerIdentifier(a) => StoredOption {
            kind: SERVER_IDENTIFIER,
            value: OptionValue::Address(a),
        },
        RequestOption::Hostname(s) => StoredOption { kind: HOSTNAME, value: OptionValue::Text(s@) },
        RequestOption::ParameterRequestList(c) => StoredOption {
            kind: PARAMETER_REQUEST_LIST,
            value: OptionValue::Codes(c@),
        },
    }
}

/// What the client can read of an option.
pub enum ReplyValue {
    Address(Ipv4Addr),
    Addresses(Vec<Ipv4Addr>),
    Seconds(u32),
    MessageType(u8),
    Other,
}

/// Whether `r` is what the client reads of an option that holds `v`.
pub open spec fn reads(r: ReplyValue, v: OptionValue) -> bool {
    match r {
        ReplyValue::Address(a) => v == OptionValue::Address(a),
        ReplyValue::Addresses(s) => v == OptionValue::Addresses(s@),
        ReplyValue::Seconds(n) => v == OptionValue::Seconds(n),
        ReplyValue::MessageType(n) => v == OptionValue::MessageType(n),
        ReplyValue::Other => v is Text || v is Bytes || v is Codes || v is Other,
    }
}

/// `Message::default`: a boot request over Ethernet with the magic cookie, no options, every
/// other field empty or zero, and a transaction id that is picked at random.
#[verifier::external_body]
pub(crate) fn new_message() -> (r: v4::Message)
    ensures
        header_of(r) == blank(header_of(r).xid),
        options_of(r) == no_options(),
{
    v4::Message::default()
}

/// `Message::set_opcode` sets the operation code.
#[verifier::external_body]
pub(crate) fn set_opcode(m: &mut v4::Message, opcode: u8)
    ensures
        header_of(*final(m)) == (Header { opcode, ..header_of(*old(m)) }),
        options_of(*final(m)) == options_of(*old(m)),
{
    m.set_opcode(opcode.into());
}

/// `Message::set_xid` sets the transaction id.
#[verifier::external_body]
pub(crate) fn set_xid(m: &mut v4::Message, xid: u32)
    ensures
        header_of(*final(m)) == (Header { xid, ..header_of(*old(m)) }),
        options_of(*final(m)) == options_of(*old(m)),
{
    m.set_xid(xid);
}

/// `Message::set_flags` sets the flags.
#[verifier::external_body]
pub(crate) fn set_flags(m: &mut v4::Message, flags: u16)
    ensures
        header_of(*final(m)) == (Header { flags, ..header_of(*old(m)) }),
        options_of(*final(m)) == options_of(*old(m)),
{
    m.set_flags(flags.into());
}

/// `Message::set_chaddr` keeps at most sixteen bytes of the hardware address, with zeros behind
/// a shorter one, and sets the length to match.
#[verifier::external_body]
pub(crate) fn set_chaddr(m: &mut v4::Message, chaddr: &[u8])
    ensures
        header_of(*final(m)) == (Header {
            chaddr: hardware_field(chaddr@),
            hlen: if chaddr@.len() < 16 {
                chaddr@.len() as u8
            } else {
                16
            },
            ..header_of(*old(m))
        }),
        options_of(*final(m)) == options_of(*old(m)),
{
    m.set_chaddr(chaddr);
}

/// `Message::set_ciaddr` sets the client's address.
#[verifier::external_body]
pub(crate) fn set_ciaddr(m: &mut v4::Message, ciaddr: Ipv4Addr)
    ensures
        header_of(*final(m)) == (Header { ciaddr, ..header_of(*old(m)) }),
        options_of(*final(m)) == options_of(*old(m)),
{
    m.set_ciaddr(ciaddr.bits);
}

/// `DhcpOptions::insert` puts the option under the code of its kind, in place of one that stood
/// there, and leaves the other options alone.
#[verifier::external_body]
pub(crate) fn insert_option(m: &mut v4::Message, o: RequestOption)
    ensures
        header_of(*final(m)) == header_of(*old(m)),
        options_of(*final(m)) == options_of(*old(m)).insert(stored(o).kind, stored(o)),
{
    m.opts_mut().insert(match o {
        RequestOption::MessageType(n) => DhcpOption::MessageType(n.into()),
        RequestOption::ClientIdentifier(b) => DhcpOption::ClientIdentifier(b),
        RequestOption::RequestedIpAddress(a) => DhcpOption::RequestedIpAddress(a.bits.into()),
        RequestOption::ServerIdentifier(a) => DhcpOption::ServerIdentifier(a.bits.into()),
        RequestOption::Hostname(s) => DhcpOption::Hostname(s),
        RequestOption::ParameterRequestList(c) => {
            DhcpOption::ParameterRequestList(c.into_iter().map(|n| n.into()).collect())
        },
    });
}

/// `DhcpOptions::get` finds the option that is stored under `code`, if there is one. The code of
/// its own kind is what `OptionCode::from` gives.
#[verifier::external_body]
pub(crate) fn option_at(m: &v4::Message, code: u8) -> (r: Option<(u8, ReplyValue)>)
    ensures
        match r {
            Some((kind, value)) => options_of(*m).contains_key(code) && options_of(*m)[code].kind
                == kind && reads(value, options_of(*m)[code].value),
            None => !options_of(*m).contains_key(code),
        },
{
    let o = m.opts().get(code.into())?;
    let value = match o {
        DhcpOption::SubnetMask(a)
        | DhcpOption::RequestedIpAddress(a)
        | DhcpOption::ServerIdentifier(a) => ReplyValue::Address(Ipv4Addr { bits: (*a).into() }),
        DhcpOption::Router(v) | DhcpOption::DomainNameServer(v) => {
            ReplyValue::Addresses(v.iter().map(|a| Ipv4Addr { bits: (*a).into() }).collect())
        },
        DhcpOption::AddressLeaseTime(n) | DhcpOption::Renewal(n) | DhcpOption::Rebinding(n) => {
            ReplyValue::Seconds(*n)
        },
        DhcpOption::MessageType(t) => ReplyValue::MessageType((*t).into()),
        _ => ReplyValue::Other,
    };
    Some((OptionCode::from(o).into(), value))
}

/// `Message::xid` gives the transaction id.
#[verifier::external_body]
pub(crate) fn xid_of(m: &v4::Message) -> (r: u32)
    ensures
        r == header_of(*m).xid,
{
    m.xid()
}

/// `Message::yiaddr` gives the address that the server assigns.
#[verifier::external_body]
pub(crate) fn yiaddr_of(m: &v4::Message) -> (r: Ipv4Addr)
    ensures
        r == header_of(*m).yiaddr,
{
    Ipv4Addr { bits: m.yiaddr().into() }
}

/// `Message::encode` writes the header and, behind it, the options by ascending code with an end
/// mark. What it writes where an option is of a kind that the client does not use or stands under
/// another code, or where a server or file name is set, is left unsaid, and so are the words of an
/// error. What was written whole, `Message::decode` reads back.
#[verifier::external_body]
pub(crate) fn encode(m: &v4::Message) -> (r: Result<Vec<u8>, String>)
    requires
        forall|k: u8| #[trigger]
            options_of(*m).contains_key(k) ==> options_of(*m)[k].kind != STATUS_CODE,
    ensures
        match r {
            Ok(b) => {
                let (h, options) = (header_of(*m), options_of(*m));
                &&& plain(h, options) ==> b@ == header_bytes(h) + wire_options(options)
                &&& plain(h, options) && written_whole(options) ==> options_in(b@.skip(240))
                    == options
            },
            Err(_) => !plain(header_of(*m), options_of(*m)),
        },
{
    let mut bytes = Vec::new();
    m.encode(&mut Encoder::new(&mut bytes)).map_err(|e| e.to_string())?;
    Ok(bytes)
}

/// `Message::decode` reads a header of 240 bytes and then the options, where it stops at the
/// first that it cannot read. Only a header that is cut short makes it fail. Of the header the
/// two fields are stated that the client looks at.
#[verifier::external_body]
pub(crate) fn decode(bytes: &[u8]) -> (r: Option<v4::Message>)
    requires
        bytes@.len() >= 240 ==> lengths_hold(bytes@.skip(240)),
    ensures
        match r {
            Some(m) => {
                &&& bytes@.len() >= 240
                &&& header_of(m).xid == value32(bytes@.subrange(4, 8))
                &&& header_of(m).yiaddr.bits == value32(bytes@.subrange(16, 20))
                &&& options_of(m) == options_in(bytes@.skip(240))
            },
            None => bytes@.len() < 240,
        },
{
    v4::Message::decode(&mut Decoder::new(bytes)).ok()
}

/// Each option that the client sends is stored under the code of its kind, with all that it holds.
pub proof fn law_stored(n: u8, b: Vec<u8>, a: Ipv4Addr, s: String)
    ensures
        stored(RequestOption::MessageType(n)) == (StoredOption {
            kind: 53,
            value: OptionValue::MessageType(n),
        }),
        stored(RequestOption::ClientIdentifier(b)) == (StoredOption {
            kind: 61,
            value: OptionValue::Bytes(b@),
        }),
        stored(RequestOption::RequestedIpAddress(a)) == (StoredOption {
            kind: 50,
            value: OptionValue::Address(a),
        }),
        stored(RequestOption::ServerIdentifier(a)) == (StoredOption {
            kind: 54,
            value: OptionValue::Address(a),
        }),
        stored(RequestOption::Hostname(s)) == (StoredOption {
            kind: 12,
            value: OptionValue::Text(s@),
        }),
        stored(RequestOption::ParameterRequestList(b)) == (StoredOption {
            kind: 55,
            value: OptionValue::Codes(b@),
        }),
{
}

} // verus!
